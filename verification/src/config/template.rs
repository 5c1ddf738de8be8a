//! The texts that the configuration starts from: the template of the user's file, and the script
//! that prints the settings of such a file.

use vstd::prelude::*;

verus! {

/// The configuration file that a new user gets.
pub const DEFAULT_CONFIG: &'static str = r#"-- Raven config
-- File: ~/.config/raven/config.lua (or $XDG_CONFIG_HOME/raven/config.lua)
return {
  general = {
    modkey = "Super",
    terminal = "foot",
    launcher = "fuzzel",
    focus_follow_mouse = true,
    no_csd = true,
    gap_size = 8,
    border_size = 0,
  },

  keybindings = {
    { combo = "Main+Q", action = "exec", command = "foot" },
    { combo = "Main+X", action = "exec", command = "firefox" },
    { combo = "Main+D", action = "exec", command = "fuzzel" },
    { combo = "Main+C", action = "close_window" },
    { combo = "Main+F", action = "fullscreen" },
    { combo = "Main+V", action = "toggle_floating" },
    { combo = "Main+J", action = "focus_next" },
    { combo = "Main+K", action = "focus_prev" },
    { combo = "Main+Shift+R", action = "reload_config" },
    { combo = "Main+Shift+Q", action = "quit" },

    { combo = "Main+1", action = "workspace", arg = "1" },
    { combo = "Main+2", action = "workspace", arg = "2" },
    { combo = "Main+3", action = "workspace", arg = "3" },
    { combo = "Main+4", action = "workspace", arg = "4" },
    { combo = "Main+5", action = "workspace", arg = "5" },
    { combo = "Main+6", action = "workspace", arg = "6" },
    { combo = "Main+7", action = "workspace", arg = "7" },
    { combo = "Main+8", action = "workspace", arg = "8" },
    { combo = "Main+9", action = "workspace", arg = "9" },
    { combo = "Main+0", action = "workspace", arg = "10" },

    { combo = "Main+Shift+1", action = "movetoworkspace", arg = "1" },
    { combo = "Main+Shift+2", action = "movetoworkspace", arg = "2" },
    { combo = "Main+Shift+3", action = "movetoworkspace", arg = "3" },
    { combo = "Main+Shift+4", action = "movetoworkspace", arg = "4" },
    { combo = "Main+Shift+5", action = "movetoworkspace", arg = "5" },
    { combo = "Main+Shift+6", action = "movetoworkspace", arg = "6" },
    { combo = "Main+Shift+7", action = "movetoworkspace", arg = "7" },
    { combo = "Main+Shift+8", action = "movetoworkspace", arg = "8" },
    { combo = "Main+Shift+9", action = "movetoworkspace", arg = "9" },
    { combo = "Main+Shift+0", action = "movetoworkspace", arg = "10" },
  },

  monitors = {
    -- Keep empty to let Raven auto-pick preferred modes for all outputs.
    -- Use your real monitor names (examples: eDP-1, DP-1, HDMI-A-1).
    -- You can list current names with: `raven monitors`.
    --
    -- Recommended keyed form:
    -- ["eDP-1"] = {
    --   -- Use ONE sizing method (do not mix):
    --   -- mode = "1920x1080@120.030"   -- or "1920x1080"
    --   -- width = 1920, height = 1080, refresh_hz = 120.030
    --
    --   scale = 1.0,                     -- integer/fractional, must be > 0
    --   transform = "normal",            -- normal/90/180/270/flipped/flipped-90/flipped-180/flipped-270
    --   position = { x = 0, y = 0 },     -- or x = 0, y = 0
    -- },
    --
    -- Disable an output:
    -- ["HDMI-A-1"] = { off = true },     -- same as enabled = false
    --
    -- Also valid (array form):
    -- { name = "DP-1", mode = "2560x1440@165", x = 1920, y = 0 },
  },

  window_rules = {
    { class = "Firefox", workspace = "2" },
    -- { class = "mpv", floating = true, width = 1280, height = 720 },
  },

  autostart = {
    "waybar",
    "mako",
  },

  wallpaper = {
    enabled = false,
    restore_command = "waypaper --restore",
    -- Note: with waypaper restore configured, Raven may still ensure swww-daemon
    -- is running at startup for compatibility, even if enabled = false.

    -- Optional legacy swww mode:
    -- Set restore_command = "" and uncomment the keys below.
    -- image = "~/Pictures/wallpaper.jpg",
    -- resize = "crop",
    -- transition_type = "simple",
    -- transition_duration = 0.7,
  },
}
"#;

/// The Lua script that runs the file named by `RAVEN_CONFIG_PATH` and prints its settings, one
/// `key=value` on a line.
pub const LUA_LOADER: &'static str = r#"
local path = os.getenv("RAVEN_CONFIG_PATH")
if type(path) ~= "string" or path == "" then
  io.stderr:write("RAVEN_CONFIG_PATH is not set\n")
  os.exit(1)
end

local chunk, load_err = loadfile(path)
if not chunk then
  io.stderr:write(load_err .. "\n")
  os.exit(1)
end

local ok, result = pcall(chunk)
if not ok then
  io.stderr:write(result .. "\n")
  os.exit(1)
end

local cfg = nil
if type(result) == "table" then
  cfg = result
elseif type(_G.config) == "table" then
  cfg = _G.config
else
  cfg = {}
end

local raven_binds = {}
local general = {}

focus_next = "focus_next"
focus_prev = "focus_prev"
focus_previous = "focus_previous"
close_window = "close_window"
quit = "quit"
reload_config = "reload_config"
terminal_action = "terminal"
launcher_action = "launcher"
swap_master = "swap_master"
resize_left = "resize_left"
resize_right = "resize_right"

function spawn(command)
  return { __raven_action = "exec", command = command }
end

function bind(mods, key, action)
  if type(mods) ~= "string" then
    io.stderr:write("bind: mods must be a string\n")
    os.exit(1)
  end
  if type(key) ~= "string" then
    io.stderr:write("bind: key must be a string\n")
    os.exit(1)
  end

  local combo_parts = {}
  for part in string.gmatch(mods, "%S+") do
    if part == "Mod4" then
      table.insert(combo_parts, "Super")
    elseif part == "Mod1" then
      table.insert(combo_parts, "Alt")
    else
      table.insert(combo_parts, part)
    end
  end
  table.insert(combo_parts, key)
  local combo = table.concat(combo_parts, "+")

  local rendered_action = nil
  if type(action) == "string" then
    rendered_action = action
  elseif type(action) == "table" and action.__raven_action == "exec" then
    if type(action.command) ~= "string" then
      io.stderr:write("spawn command must be a string\n")
      os.exit(1)
    end
    rendered_action = "exec " .. action.command
  else
    io.stderr:write("bind: action must be a known action name or spawn(...)\n")
    os.exit(1)
  end

  table.insert(raven_binds, combo .. " " .. rendered_action)
end

if type(_G.keys) == "function" then
  local ok_keys, keys_err = pcall(_G.keys)
  if not ok_keys then
    io.stderr:write(keys_err .. "\n")
    os.exit(1)
  end
end

local function emit(key, value)
  io.write(key)
  io.write("=")
  io.write(tostring(value))
  io.write("\n")
end

local function expect_table(name, value)
  if value ~= nil and type(value) ~= "table" then
    io.stderr:write(name .. " must be a table\n")
    os.exit(1)
  end
end

local function emit_string(name, value)
  if value == nil then
    return
  end
  if type(value) ~= "string" then
    io.stderr:write(name .. " must be a string\n")
    os.exit(1)
  end
  emit(name, value)
end

local function emit_number(name, value)
  if value == nil then
    return
  end
  if type(value) ~= "number" then
    io.stderr:write(name .. " must be a number\n")
    os.exit(1)
  end
  emit(name, value)
end

local function emit_boolean(name, value)
  if value == nil then
    return
  end
  if type(value) ~= "boolean" then
    io.stderr:write(name .. " must be a boolean\n")
    os.exit(1)
  end
  emit(name, value)
end

local function emit_bool_like(name, value)
  if value == nil then
    return
  end
  if type(value) == "boolean" then
    emit(name, value)
    return
  end
  if type(value) == "number" then
    emit(name, value)
    return
  end
  io.stderr:write(name .. " must be a boolean or number\n")
  os.exit(1)
end

local function pick(primary, fallback)
  if primary ~= nil then
    return primary
  end
  return fallback
end

general = pick(cfg.general, _G.general) or {}

local function as_string(value)
  if value == nil then
    return nil
  end
  if type(value) ~= "string" then
    return tostring(value)
  end
  return value
end

local function render_keybind_entry(entry, index)
  if type(entry) == "string" then
    return entry
  end

  if type(entry) ~= "table" then
    io.stderr:write("keybindings[" .. tostring(index) .. "] must be string or table\n")
    os.exit(1)
  end

  local combo = as_string(pick(entry.combo, entry[1]))
  if (combo == nil or combo == "") and entry.mods and entry.key then
    combo = tostring(entry.mods):gsub("%s+", "+") .. "+" .. tostring(entry.key)
  end
  local action = as_string(pick(entry.action, entry[2]))
  local arg = as_string(pick(entry.arg, pick(entry.command, entry[3])))

  if combo == nil or combo == "" then
    io.stderr:write("keybindings[" .. tostring(index) .. "] missing combo\n")
    os.exit(1)
  end
  if action == nil or action == "" then
    io.stderr:write("keybindings[" .. tostring(index) .. "] missing action\n")
    os.exit(1)
  end

  if arg and arg ~= "" then
    return combo .. " " .. action .. " " .. arg
  end
  return combo .. " " .. action
end

emit_string("main_key", pick(general.main_key, pick(cfg.main_key, _G.main_key)))
emit_string("modkey", pick(general.modkey, pick(cfg.modkey, _G.modkey)))
emit_string("terminal", pick(general.terminal, pick(cfg.terminal, _G.terminal)))
emit_string("launcher", pick(general.launcher, pick(cfg.launcher, _G.launcher)))
emit_bool_like("focus_follow_mouse", pick(general.focus_follow_mouse, pick(cfg.focus_follow_mouse, _G.focus_follow_mouse)))
emit_bool_like("no_csd", pick(general.no_csd, pick(cfg.no_csd, _G.no_csd)))
emit_number("border_size", pick(general.border_size, pick(cfg.border_size, _G.border_size)))
emit_number("gap_size", pick(general.gap_size, pick(cfg.gap_size, _G.gap_size)))

local keybinds_table = pick(cfg.keybindings, pick(cfg.keybinds, pick(_G.keybindings, _G.keybinds)))
expect_table("keybindings", keybinds_table)
if keybinds_table then
  for index, bind in ipairs(keybinds_table) do
    emit("keybind." .. tostring(index), render_keybind_entry(bind, index))
  end
end

for index, bind in ipairs(raven_binds) do
  emit("keybind." .. tostring(index + 1000), bind)
end

local autostart = pick(cfg.autostart, _G.autostart)
expect_table("autostart", autostart)
if autostart then
  for index, command in ipairs(autostart) do
    if type(command) ~= "string" then
      io.stderr:write("autostart[" .. tostring(index) .. "] must be a string\n")
      os.exit(1)
    end
    emit("autostart." .. tostring(index), command)
  end
end

local window_rules = pick(cfg.window_rules, pick(cfg.rules, pick(_G.window_rules, _G.rules)))
expect_table("window_rules", window_rules)
if window_rules then
  local rule_index = 1

  local function emit_rule(rule, key_name)
    if type(rule) ~= "table" then
      io.stderr:write("window_rules entry must be a table\n")
      os.exit(1)
    end

    local prefix = "window_rule." .. tostring(rule_index) .. "."
    emit_string(prefix .. "class", pick(rule.class, key_name))
    emit_string(prefix .. "app_id", pick(rule.app_id, rule.appid))
    emit_string(prefix .. "title", rule.title)
    emit_string(prefix .. "workspace", pick(rule.workspace, rule.ws))
    emit_bool_like(prefix .. "floating", rule.floating)
    emit_bool_like(prefix .. "fullscreen", rule.fullscreen)
    emit_bool_like(prefix .. "focus", rule.focus)
    emit_number(prefix .. "width", rule.width)
    emit_number(prefix .. "height", rule.height)
    rule_index = rule_index + 1
  end

  for _, rule in ipairs(window_rules) do
    emit_rule(rule, nil)
  end

  for key, rule in pairs(window_rules) do
    if type(key) == "string" then
      emit_rule(rule, key)
    end
  end
end

local monitors = pick(cfg.monitors, _G.monitors)
expect_table("monitors", monitors)
if monitors then
  local function emit_monitor(index, monitor, key_name)
    if type(monitor) ~= "table" then
      io.stderr:write("monitors[" .. tostring(index) .. "] must be a table\n")
      os.exit(1)
    end

    local prefix = "monitor." .. tostring(index) .. "."
    emit_string(prefix .. "name", pick(monitor.name, pick(monitor.output, key_name)))

    local enabled = monitor.enabled
    if enabled == nil and monitor.off ~= nil then
      if type(monitor.off) ~= "boolean" then
        io.stderr:write("monitors[" .. tostring(index) .. "].off must be a boolean\n")
        os.exit(1)
      end
      enabled = not monitor.off
    end
    emit_bool_like(prefix .. "enabled", enabled)

    local position = monitor.position
    if position ~= nil and type(position) ~= "table" then
      io.stderr:write("monitors[" .. tostring(index) .. "].position must be a table\n")
      os.exit(1)
    end

    emit_string(prefix .. "mode", monitor.mode)
    emit_number(prefix .. "width", monitor.width)
    emit_number(prefix .. "height", monitor.height)
    emit_number(prefix .. "refresh_hz", pick(monitor.refresh_hz, pick(monitor.refresh, monitor.hz)))
    emit_number(prefix .. "x", pick(monitor.x, position and position.x or nil))
    emit_number(prefix .. "y", pick(monitor.y, position and position.y or nil))
    emit_number(prefix .. "scale", monitor.scale)
    emit_string(prefix .. "transform", monitor.transform)
  end

  local monitor_index = 1
  for _, monitor in ipairs(monitors) do
    emit_monitor(monitor_index, monitor, nil)
    monitor_index = monitor_index + 1
  end

  for key, monitor in pairs(monitors) do
    if type(key) == "string" then
      emit_monitor(monitor_index, monitor, key)
      monitor_index = monitor_index + 1
    end
  end
end

expect_table("layout", cfg.layout)
expect_table("gaps", cfg.gaps)
expect_table("cursor", cfg.cursor)
expect_table("wallpaper", cfg.wallpaper)
expect_table("xwayland", cfg.xwayland)

local layout = cfg.layout or {}
local gaps = pick(layout.gaps, cfg.gaps)
expect_table("layout.gaps", gaps)
gaps = gaps or {}

emit_number("master_factor", pick(layout.master_factor, cfg.master_factor))
emit_number("num_master", pick(layout.num_master, cfg.num_master))
emit_boolean("smart_gaps", pick(layout.smart_gaps, cfg.smart_gaps))

emit_number("gaps.outer_horizontal", gaps.outer_horizontal)
emit_number("gaps.outer_vertical", gaps.outer_vertical)
emit_number("gaps.inner_horizontal", gaps.inner_horizontal)
emit_number("gaps.inner_vertical", gaps.inner_vertical)

local cursor = cfg.cursor or {}
emit_string("cursor_theme", pick(cursor.theme, cfg.cursor_theme))
emit_number("cursor_size", pick(cursor.size, cfg.cursor_size))

local wallpaper = cfg.wallpaper or {}
emit_bool_like("wallpaper.enabled", pick(wallpaper.enabled, cfg.wallpaper_enabled))
emit_string("wallpaper.restore_command", pick(wallpaper.restore_command, pick(wallpaper.command, pick(cfg.wallpaper_restore_command, pick(cfg.wallpaper_command, pick(_G.wallpaper_restore_command, _G.wallpaper_command))))))
emit_string("wallpaper.image", pick(wallpaper.image, pick(wallpaper.path, cfg.wallpaper_image)))
emit_string("wallpaper.resize", pick(wallpaper.resize, cfg.wallpaper_resize))
emit_string("wallpaper.transition_type", pick(wallpaper.transition_type, cfg.wallpaper_transition_type))
emit_number("wallpaper.transition_duration", pick(wallpaper.transition_duration, cfg.wallpaper_transition_duration))

local xwayland = cfg.xwayland or {}
local xwayland_enabled = pick(xwayland.enabled, pick(cfg.xwayland_enabled, _G.xwayland_enabled))
if xwayland_enabled == nil and xwayland.off ~= nil then
  if type(xwayland.off) ~= "boolean" then
    io.stderr:write("xwayland.off must be a boolean\n")
    os.exit(1)
  end
  xwayland_enabled = not xwayland.off
end
emit_bool_like("xwayland.enabled", xwayland_enabled)
emit_string("xwayland.path", pick(xwayland.path, pick(cfg.xwayland_path, _G.xwayland_path)))
emit_string("xwayland.display", pick(xwayland.display, pick(cfg.xwayland_display, _G.xwayland_display)))
"#;

/// The configuration file that a new user gets.
pub fn default_config_template() -> (template: &'static str)
    ensures
        template@ == DEFAULT_CONFIG@,
{
    DEFAULT_CONFIG
}

/// The Lua script that prints the settings of a configuration file.
pub fn lua_loader_script() -> (script: &'static str)
    ensures
        script@ == LUA_LOADER@,
{
    LUA_LOADER
}

} // verus!
