# Raven

A tiling Wayland compositor that is configured in Lua. What the compositor decides is in a library
whose functions carry contracts, proved by Verus; what talks to the system, and what is computed in
floating point, is around it. The tiles themselves come from the display: the library says which
windows are tiled, in which order and in which area, and puts each where the display's tile lies.

## The library (`src/`)

| Module | What it holds |
|---|---|
| `config` | The configuration: reading what the Lua file says, with every way it can be refused. |
| `state` | Windows, workspaces, fullscreen, floating, layout and focus, and the laws that they keep. |
| `handlers` | What clients ask for: toplevels, decorations, layer surfaces, drags, other programs. |
| `input` | Keys, the pointer, and what lies under it. |
| `backend` | Outputs and their modes, the redraw cycle, direct scanout, and what a frame is made of. |
| `protocols` | What other programs are told of windows and workspaces, and which of them is told what. |
| `session` | Programs around the compositor: environment, portals, wallpaper, the server for X11 clients. |
| `ipc`, `cli` | The compositor's socket and the command line. |
| `cursor`, `render_helpers` | The pointer's picture and the backdrop. |
| `text`, `numbers`, `geometry`, `errors` | What the rest is built on. |

The state of the compositor is `state::raven::Raven`; contracts speak of its view, `State`. A state is
*sound* when it has its ten workspaces and no output without room, *consistent* when its windows are
where they should be, and *orderly* when both hold between two events. The files named `laws` show
that events keep an orderly state orderly.

Windows, outputs and screens are known by numbers. What a client or the hardware says comes in as
plain values, and what follows goes out as plain values.

## The program (`app/`)

Files, processes, sockets, and everything in floating point. A display, that is the Wayland clients
and the graphics hardware, is anything that implements the trait in `app/display.rs`; it also gives
the tiles for a number of windows in an area.

## Tests (`tests/`)

The library on concrete values, with the outside crates linked in.
