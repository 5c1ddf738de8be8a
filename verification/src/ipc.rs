//! The compositor's own socket: what it is asked, and what it answers.

use crate::errors;
use crate::errors::{CompositorError, Failure};
use crate::numbers;
use crate::numbers::{write_decimal, write_signed};
use crate::state::lists;
use crate::state::lists::SurfaceId;
use crate::state::raven::{Raven, State};
use crate::state::space;
use crate::state::toplevel::{OutputId, WindowFullscreenMode};
use crate::text;
use crate::text::{same_text, trim};
use vstd::prelude::*;

verus! {

/// What the compositor is asked.
#[derive(Debug)]
pub enum IpcRequest {
    Clients,
    Monitors,
    Reload,
    Empty,
    Unsupported(String),
}

/// An `IpcRequest` as plain values.
pub enum Question {
    Clients,
    Monitors,
    Reload,
    Empty,
    Unsupported(Seq<char>),
}

impl View for IpcRequest {
    type V = Question;

    open spec fn view(&self) -> Question {
        match *self {
            IpcRequest::Clients => Question::Clients,
            IpcRequest::Monitors => Question::Monitors,
            IpcRequest::Reload => Question::Reload,
            IpcRequest::Empty => Question::Empty,
            IpcRequest::Unsupported(command) => Question::Unsupported(command@),
        }
    }
}

/// What the compositor is asked, by what was written to its socket.
pub open spec fn question_of(request: Seq<char>) -> Question {
    let command = text::trimmed(request);
    if command == "clients"@ {
        Question::Clients
    } else if command == "monitors"@ {
        Question::Monitors
    } else if command == "reload"@ {
        Question::Reload
    } else if command.len() == 0 {
        Question::Empty
    } else {
        Question::Unsupported(command)
    }
}

/// What the compositor is asked, by what was written to its socket.
pub fn parse_ipc_request(request: &str) -> (question: IpcRequest)
    ensures
        question@ == question_of(request@),
{
    let command = trim(request);
    if same_text(command.as_str(), "clients") {
        IpcRequest::Clients
    } else if same_text(command.as_str(), "monitors") {
        IpcRequest::Monitors
    } else if same_text(command.as_str(), "reload") {
        IpcRequest::Reload
    } else if command.as_str().is_empty() {
        IpcRequest::Empty
    } else {
        IpcRequest::Unsupported(command)
    }
}

/// The answer to a command that there is not, or to none.
pub open spec fn refusal(command: Option<Seq<char>>) -> Seq<char> {
    match command {
        Some(command) => "error: unsupported command `"@ + command
            + "` (supported: clients, monitors, reload)\n"@,
        None => "error: empty command (supported: clients, monitors, reload)\n"@,
    }
}

/// The answer to a command that there is not, or to none.
pub fn ipc_refusal(command: Option<&str>) -> (answer: String)
    ensures
        answer@ == refusal(text::slice_view(command)),
{
    match command {
        Some(command) => {
            let mut answer = "error: unsupported command `".to_owned();
            answer.append(command);
            answer.append("` (supported: clients, monitors, reload)\n");
            answer
        },
        None => "error: empty command (supported: clients, monitors, reload)\n".to_owned(),
    }
}

/// The answer to a request that failed, with the failure's text, or that succeeded.
pub fn ipc_reload_answer(failure: Option<&str>) -> (answer: String)
    ensures
        answer@ == (match failure {
            Some(failure) => "error: "@ + failure@ + "\n"@,
            None => "ok\n"@,
        }),
{
    match failure {
        Some(failure) => {
            let mut answer = "error: ".to_owned();
            answer.append(failure);
            answer.append("\n");
            answer
        },
        None => "ok\n".to_owned(),
    }
}

/// The answer to a request that could not be read.
pub fn ipc_read_failure(failure: &str) -> (answer: String)
    ensures
        answer@ == "error: failed to read request: "@ + failure@ + "\n"@,
{
    let mut answer = "error: failed to read request: ".to_owned();
    answer.append(failure);
    answer.append("\n");
    answer
}

/// The name of the compositor's socket in the runtime directory.
pub open spec fn socket_name(runtime_dir: bool, wayland_socket: Seq<char>) -> Result<
    Seq<char>,
    Failure,
> {
    if !runtime_dir {
        errors::refused("XDG_RUNTIME_DIR is not set; cannot create ipc socket"@)
    } else if text::blank(wayland_socket) {
        errors::refused("wayland socket name is empty; cannot create ipc socket"@)
    } else {
        Ok("raven-"@ + text::trimmed(wayland_socket) + ".sock"@)
    }
}

/// The name of the compositor's socket in the runtime directory, where there is one.
pub fn ipc_socket_name_for_wayland_socket(runtime_dir: bool, wayland_socket: &str) -> (result: Result<
    String,
    CompositorError,
>)
    ensures
        (match result {
            Ok(name) => Ok(name@),
            Err(error) => Err(error@),
        }) == socket_name(runtime_dir, wayland_socket@),
{
    if !runtime_dir {
        return Err(
            CompositorError::Backend(
                "XDG_RUNTIME_DIR is not set; cannot create ipc socket".to_owned(),
            ),
        );
    }
    let socket = trim(wayland_socket);
    if socket.as_str().is_empty() {
        return Err(
            CompositorError::Backend(
                "wayland socket name is empty; cannot create ipc socket".to_owned(),
            ),
        );
    }
    let mut name = "raven-".to_owned();
    name.append(socket.as_str());
    name.append(".sock");
    Ok(name)
}

/// What a client says of a window, and how the surface is written.
#[derive(Debug)]
pub struct ClientFacts {
    pub window: SurfaceId,
    pub surface: String,
    pub app_id: Option<String>,
    pub title: Option<String>,
}

/// The `ClientFacts` of a window as plain values.
pub struct Facts {
    pub surface: Seq<char>,
    pub app_id: Option<Seq<char>>,
    pub title: Option<Seq<char>>,
}

/// What is known of a window: what the first entry for it says, or else nothing but its number.
pub open spec fn facts_of(facts: Seq<ClientFacts>, window: SurfaceId) -> Facts
    decreases facts.len(),
{
    if facts.len() == 0 {
        Facts { surface: numbers::decimal(window as nat), app_id: None, title: None }
    } else if facts[0].window == window {
        Facts {
            surface: facts[0].surface@,
            app_id: text::text_view(facts[0].app_id),
            title: text::text_view(facts[0].title),
        }
    } else {
        facts_of(facts.skip(1), window)
    }
}

/// A line of a report.
pub open spec fn report_line(name: Seq<char>, value: Seq<char>) -> Seq<char> {
    "  "@ + name + ": "@ + value + "\n"@
}

fn push_line(report: &mut String, name: &str, value: &str)
    ensures
        final(report)@ == old(report)@ + report_line(name@, value@),
{
    let ghost before = report@;
    report.append("  ");
    report.append(name);
    report.append(": ");
    report.append(value);
    report.append("\n");
    assert(report@ =~= before + report_line(name@, value@));
}

/// A truth value as it is written.
pub open spec fn truth(value: bool) -> Seq<char> {
    if value {
        "true"@
    } else {
        "false"@
    }
}

fn truth_text(value: bool) -> (written: &'static str)
    ensures
        written@ == truth(value),
{
    if value {
        "true"
    } else {
        "false"
    }
}

/// A text, or another where there is none.
pub open spec fn or_text(value: Option<Seq<char>>, other: Seq<char>) -> Seq<char> {
    match value {
        Some(value) => value,
        None => other,
    }
}

impl State {
    /// The number of the workspace that a window is on, from one on; that of the current workspace,
    /// where it is on none.
    pub open spec fn workspace_number(self, window: SurfaceId) -> nat {
        match self.workspace_of(window) {
            Some(index) => index as nat + 1,
            None => self.current as nat + 1,
        }
    }

    /// What a report says of a window.
    #[verifier::opaque]
    pub open spec fn client_entry(self, number: nat, window: SurfaceId, facts: Facts) -> Seq<char> {
        "Client "@ + numbers::decimal(number) + ":\n"@ + report_line("surface"@, facts.surface)
            + report_line("class"@, or_text(facts.app_id, "<unknown>"@)) + report_line(
            "title"@,
            or_text(facts.title, "<untitled>"@),
        ) + report_line("workspace"@, numbers::decimal(self.workspace_number(window)))
            + report_line("mapped"@, truth(self.on_screen(window))) + report_line(
            "floating"@,
            truth(self.floats(window)),
        ) + report_line(
            "fullscreen"@,
            truth(self.exclusive_mode(window) == WindowFullscreenMode::Fullscreen),
        ) + report_line("focused"@, truth(self.keyboard_focus == Some(window))) + "\n"@
    }

    /// What a report says of windows, one after the other.
    pub open spec fn client_entries(self, windows: Seq<SurfaceId>, facts: Seq<ClientFacts>) -> Seq<char>
        decreases windows.len(),
    {
        if windows.len() == 0 {
            Seq::<char>::empty()
        } else {
            self.client_entries(windows.drop_last(), facts) + self.client_entry(
                windows.len(),
                windows.last(),
                facts_of(facts, windows.last()),
            )
        }
    }

    /// The report on all windows.
    pub open spec fn clients_report(self, facts: Seq<ClientFacts>) -> Seq<char> {
        if self.all_windows().len() == 0 {
            "No clients.\n"@
        } else {
            self.client_entries(self.all_windows(), facts)
        }
    }
}

struct Known<'a> {
    surface: String,
    app_id: &'a str,
    title: &'a str,
}

fn find_facts<'a>(facts: &'a Vec<ClientFacts>, window: SurfaceId) -> (known: Known<'a>)
    ensures
        known.surface@ == facts_of(facts@, window).surface,
        known.app_id@ == or_text(facts_of(facts@, window).app_id, "<unknown>"@),
        known.title@ == or_text(facts_of(facts@, window).title, "<untitled>"@),
{
    let mut index: usize = 0;
    assert(facts@.skip(0) =~= facts@);
    while index < facts.len()
        invariant
            index <= facts.len(),
            facts_of(facts@, window) == facts_of(facts@.skip(index as int), window),
        decreases facts.len() - index,
    {
        assert(facts@.skip(index as int).skip(1) =~= facts@.skip(index + 1));
        assert(facts@.skip(index as int)[0] == facts@[index as int]);
        if facts[index].window == window {
            let app_id = match &facts[index].app_id {
                Some(app_id) => app_id.as_str(),
                None => "<unknown>",
            };
            let title = match &facts[index].title {
                Some(title) => title.as_str(),
                None => "<untitled>",
            };
            return Known { surface: facts[index].surface.as_str().to_owned(), app_id, title };
        }
        index = index + 1;
    }
    Known { surface: write_decimal(window), app_id: "<unknown>", title: "<untitled>" }
}

/// A mode of an output; the refresh rate is in thousandths of a hertz.
#[derive(Clone, Copy, Debug, PartialEq, Eq, Structural)]
pub struct ReportedMode {
    pub width: i32,
    pub height: i32,
    pub refresh: i32,
}

/// What a report says of an output; `scale` is a number with three places.
#[derive(Debug)]
pub struct MonitorFacts {
    pub id: OutputId,
    pub name: String,
    pub mode: Option<ReportedMode>,
    pub scale: String,
}

/// A `MonitorFacts` as plain values.
pub struct MonitorEntry {
    pub id: OutputId,
    pub name: Seq<char>,
    pub mode: Option<ReportedMode>,
    pub scale: Seq<char>,
}

impl View for MonitorFacts {
    type V = MonitorEntry;

    open spec fn view(&self) -> MonitorEntry {
        MonitorEntry { id: self.id, name: self.name@, mode: self.mode, scale: self.scale@ }
    }
}

/// The entries as plain values.
pub open spec fn monitor_entries(facts: Seq<MonitorFacts>) -> Seq<MonitorEntry> {
    Seq::new(facts.len(), |i: int| facts[i]@)
}

/// A number of thousandths, written with three places.
pub open spec fn thousandths(value: nat) -> Seq<char> {
    let rest = value % 1000;
    numbers::decimal(value / 1000) + "."@ + (if rest < 10 {
        "00"@
    } else if rest < 100 {
        "0"@
    } else {
        ""@
    }) + numbers::decimal(rest)
}

/// A number of thousandths, written with three places.
pub fn write_thousandths(value: u64) -> (written: String)
    ensures
        written@ == thousandths(value as nat),
{
    let rest: u64 = value % 1000;
    let mut written = write_decimal(value / 1000);
    written.append(".");
    if rest < 10 {
        written.append("00");
    } else if rest < 100 {
        written.append("0");
    } else {
        written.append("");
    }
    written.append(write_decimal(rest).as_str());
    written
}

/// Two numbers with a text between them.
pub open spec fn pair_text(one: int, between: Seq<char>, other: int) -> Seq<char> {
    numbers::signed_decimal(one) + between + numbers::signed_decimal(other)
}

fn write_pair(one: i32, between: &str, other: i32) -> (written: String)
    ensures
        written@ == pair_text(one as int, between@, other as int),
{
    let mut written = write_signed(one as i64);
    written.append(between);
    written.append(write_signed(other as i64).as_str());
    written
}

/// A mode as it is written.
pub open spec fn mode_text(mode: Option<ReportedMode>) -> Seq<char> {
    match mode {
        Some(mode) => if mode.refresh > 0 {
            pair_text(mode.width as int, "x"@, mode.height as int) + "@"@ + thousandths(
                mode.refresh as nat,
            )
        } else {
            pair_text(mode.width as int, "x"@, mode.height as int)
        },
        None => "<unknown>"@,
    }
}

fn write_mode(mode: Option<ReportedMode>) -> (written: String)
    ensures
        written@ == mode_text(mode),
{
    match mode {
        Some(mode) => {
            let mut written = write_pair(mode.width, "x", mode.height);
            if mode.refresh > 0 {
                written.append("@");
                written.append(write_thousandths(mode.refresh as u64).as_str());
            }
            written
        },
        None => "<unknown>".to_owned(),
    }
}

impl State {
    /// What a report says of an output.
    #[verifier::opaque]
    pub open spec fn monitor_text(self, number: nat, entry: MonitorEntry) -> Seq<char> {
        let geometry = space::geometry_of(self.outputs, entry.id);
        "Monitor "@ + numbers::decimal(number) + ":\n"@ + report_line("name"@, entry.name)
            + report_line("mode"@, mode_text(entry.mode)) + report_line(
            "position"@,
            match geometry {
                Some(rect) => pair_text(rect.loc.x as int, ", "@, rect.loc.y as int),
                None => "<unknown>"@,
            },
        ) + report_line(
            "logical_size"@,
            match geometry {
                Some(rect) => pair_text(rect.size.w as int, "x"@, rect.size.h as int),
                None => "<unknown>"@,
            },
        ) + report_line("scale"@, entry.scale) + "\n"@
    }

    /// Where an output comes among the others: by its place, and last where it has none.
    pub open spec fn monitor_key(self, entry: MonitorEntry) -> (i32, i32) {
        match space::geometry_of(self.outputs, entry.id) {
            Some(rect) => (rect.loc.x, rect.loc.y),
            None => (i32::MAX, i32::MAX),
        }
    }

    /// The keys of the entries.
    pub open spec fn monitor_keys(self, entries: Seq<MonitorEntry>) -> Seq<(i32, i32)> {
        Seq::new(entries.len(), |i: int| self.monitor_key(entries[i]))
    }

    /// What a report says of the first `count` outputs of an order.
    pub open spec fn monitor_texts(
        self,
        entries: Seq<MonitorEntry>,
        order: Seq<int>,
        count: nat,
    ) -> Seq<char>
        decreases count,
    {
        if count == 0 {
            Seq::<char>::empty()
        } else {
            self.monitor_texts(entries, order, (count - 1) as nat) + self.monitor_text(
                count,
                entries[order[count - 1]],
            )
        }
    }

    /// The report on all outputs, from the left to the right.
    pub open spec fn monitors_report(self, entries: Seq<MonitorEntry>) -> Seq<char> {
        if entries.len() == 0 {
            "No monitors.\n"@
        } else {
            self.monitor_texts(
                entries,
                key_order(self.monitor_keys(entries), entries.len()),
                entries.len(),
            )
        }
    }
}

/// Whether one place comes after another: farther to the right, or as far and lower.
pub open spec fn comes_after(one: (i32, i32), other: (i32, i32)) -> bool {
    one.0 > other.0 || (one.0 == other.0 && one.1 > other.1)
}

/// An order with one more item: behind all that do not come after it.
pub open spec fn put_in_order(keys: Seq<(i32, i32)>, order: Seq<int>, item: int) -> Seq<int>
    decreases order.len(),
{
    if order.len() > 0 && comes_after(keys[order.last()], keys[item]) {
        put_in_order(keys, order.drop_last(), item).push(order.last())
    } else {
        order.push(item)
    }
}

/// The first `count` items in the order of their keys; equal ones keep their order.
pub open spec fn key_order(keys: Seq<(i32, i32)>, count: nat) -> Seq<int>
    decreases count,
{
    if count == 0 {
        Seq::<int>::empty()
    } else {
        put_in_order(keys, key_order(keys, (count - 1) as nat), count - 1)
    }
}

/// An order with one more item: where it stands, what stands before and behind.
proof fn put_in_order_places(keys: Seq<(i32, i32)>, order: Seq<int>, item: int, place: int)
    requires
        0 <= place <= order.len(),
        forall|i: int|
            place <= i < order.len() ==> comes_after(keys[#[trigger] order[i]], keys[item]),
        place > 0 ==> !comes_after(keys[order[place - 1]], keys[item]),
    ensures
        put_in_order(keys, order, item) == order.insert(place, item),
    decreases order.len(),
{
    if place < order.len() {
        assert(order.last() == order[order.len() - 1]);
        assert forall|i: int| place <= i < order.drop_last().len() implies comes_after(
            keys[#[trigger] order.drop_last()[i]],
            keys[item],
        ) by {
            assert(order.drop_last()[i] == order[i]);
        }
        put_in_order_places(keys, order.drop_last(), item, place);
        assert(order.drop_last().insert(place, item).push(order.last()) =~= order.insert(
            place,
            item,
        ));
    } else {
        assert(order.push(item) =~= order.insert(place, item));
    }
}

/// Whether an order is sorted, with equal keys in their old order.
pub open spec fn sorted_by_key(keys: Seq<(i32, i32)>, order: Seq<int>) -> bool {
    forall|i: int, j: int|
        0 <= i < j < order.len() ==> !comes_after(
            keys[#[trigger] order[i]],
            keys[#[trigger] order[j]],
        ) && (keys[order[i]] == keys[order[j]] ==> order[i] < order[j])
}

proof fn put_in_order_sorts(keys: Seq<(i32, i32)>, order: Seq<int>, item: int)
    requires
        item >= 0,
        sorted_by_key(keys, order),
        forall|i: int| 0 <= i < order.len() ==> 0 <= #[trigger] order[i] < item,
    ensures
        sorted_by_key(keys, put_in_order(keys, order, item)),
        put_in_order(keys, order, item).len() == order.len() + 1,
        forall|i: int|
            0 <= i < order.len() + 1 ==> 0 <= #[trigger] put_in_order(keys, order, item)[i] <= item,
        forall|value: int| #[trigger]
            put_in_order(keys, order, item).contains(value) <==> order.contains(value) || value
                == item,
        order.no_duplicates() ==> put_in_order(keys, order, item).no_duplicates(),
    decreases order.len(),
{
    let after = put_in_order(keys, order, item);
    if order.len() > 0 && comes_after(keys[order.last()], keys[item]) {
        let rest = order.drop_last();
        assert forall|i: int, j: int| 0 <= i < j < rest.len() implies !comes_after(
            keys[#[trigger] rest[i]],
            keys[#[trigger] rest[j]],
        ) && (keys[rest[i]] == keys[rest[j]] ==> rest[i] < rest[j]) by {
            assert(rest[i] == order[i] && rest[j] == order[j]);
        }
        put_in_order_sorts(keys, rest, item);
        let before = put_in_order(keys, rest, item);
        assert(after == before.push(order.last()));
        assert(order.last() == order[order.len() - 1]);
        assert forall|i: int| 0 <= i < order.len() + 1 implies 0 <= #[trigger] after[i]
            <= item by {
            if i < before.len() {
                assert(after[i] == before[i]);
            }
        }
        assert forall|i: int, j: int| 0 <= i < j < after.len() implies !comes_after(
            keys[#[trigger] after[i]],
            keys[#[trigger] after[j]],
        ) && (keys[after[i]] == keys[after[j]] ==> after[i] < after[j]) by {
            if j == after.len() - 1 {
                assert(before.contains(before[i]));
                if after[i] != item {
                    assert(rest.contains(after[i]));
                    let k = choose|k: int| 0 <= k < rest.len() && rest[k] == after[i];
                    assert(order[k] == after[i] && order[order.len() - 1] == after[j]);
                }
            } else {
                assert(after[i] == before[i] && after[j] == before[j]);
            }
        }
        assert forall|value: int| #[trigger] after.contains(value) <==> order.contains(value) || value
            == item by {
            if after.contains(value) {
                let i = choose|i: int| 0 <= i < after.len() && after[i] == value;
                if i < before.len() {
                    assert(before[i] == value);
                    assert(before.contains(value));
                    if value != item {
                        assert(rest.contains(value));
                        let k = choose|k: int| 0 <= k < rest.len() && rest[k] == value;
                        assert(order[k] == value);
                    }
                } else {
                    assert(order[order.len() - 1] == value);
                }
            }
            if order.contains(value) {
                let k = choose|k: int| 0 <= k < order.len() && order[k] == value;
                if k < rest.len() {
                    assert(rest[k] == value);
                    assert(rest.contains(value));
                    assert(before.contains(value));
                    let i = choose|i: int| 0 <= i < before.len() && before[i] == value;
                    assert(after[i] == value);
                } else {
                    assert(after[before.len() as int] == value);
                }
            }
            if value == item {
                assert(before.contains(item));
                let i = choose|i: int| 0 <= i < before.len() && before[i] == item;
                assert(after[i] == item);
            }
        }
        if order.no_duplicates() {
            assert(rest.no_duplicates());
            assert forall|i: int, j: int| 0 <= i < j < after.len() implies after[i]
                != after[j] by {
                if j == after.len() - 1 {
                    assert(before.contains(before[i]));
                    if after[i] == after[j] {
                        if after[i] == item {
                            assert(order[order.len() - 1] < item);
                        } else {
                            let k = choose|k: int| 0 <= k < rest.len() && rest[k] == after[i];
                            assert(order[k] == order[order.len() - 1]);
                        }
                    }
                } else {
                    assert(before[i] != before[j]);
                }
            }
        }
    } else {
        assert forall|i: int, j: int| 0 <= i < j < after.len() implies !comes_after(
            keys[#[trigger] after[i]],
            keys[#[trigger] after[j]],
        ) && (keys[after[i]] == keys[after[j]] ==> after[i] < after[j]) by {
            if j == after.len() - 1 {
                if i < order.len() - 1 {
                    assert(order[i] == after[i]);
                    assert(!comes_after(keys[order[i]], keys[order[order.len() - 1]]));
                }
                assert(order[i] < item);
            } else {
                assert(order[i] == after[i] && order[j] == after[j]);
            }
        }
        assert forall|value: int| #[trigger] after.contains(value) <==> order.contains(value) || value
            == item by {
            if order.contains(value) {
                let k = choose|k: int| 0 <= k < order.len() && order[k] == value;
                assert(after[k] == value);
            }
            if value == item {
                assert(after[order.len() as int] == value);
            }
        }
    }
}

/// The order of outputs has each of them once, from the left to the right, and keeps the order of
/// those at one place.
pub proof fn outputs_are_in_order(keys: Seq<(i32, i32)>, count: nat)
    requires
        count <= keys.len(),
    ensures
        sorted_by_key(keys, key_order(keys, count)),
        key_order(keys, count).len() == count,
        key_order(keys, count).no_duplicates(),
        forall|i: int| 0 <= i < count ==> 0 <= #[trigger] key_order(keys, count)[i] < count,
    decreases count,
{
    if count > 0 {
        outputs_are_in_order(keys, (count - 1) as nat);
        put_in_order_sorts(keys, key_order(keys, (count - 1) as nat), count - 1);
    }
}

/// The numbers of a list.
pub open spec fn numbers_of(order: Seq<usize>) -> Seq<int> {
    Seq::new(order.len(), |i: int| order[i] as int)
}

fn sort_keys(keys: &Vec<(i32, i32)>) -> (order: Vec<usize>)
    ensures
        numbers_of(order@) == key_order(keys@, keys@.len()),
{
    let mut order: Vec<usize> = Vec::new();
    let mut item: usize = 0;
    assert(numbers_of(order@) =~= Seq::<int>::empty());
    while item < keys.len()
        invariant
            item <= keys.len(),
            order.len() == item,
            forall|i: int| 0 <= i < order.len() ==> #[trigger] order[i] < item,
            numbers_of(order@) == key_order(keys@, item as nat),
        decreases keys.len() - item,
    {
        let mut place: usize = order.len();
        let ghost plain = numbers_of(order@);
        proof {
            outputs_are_in_order(keys@, item as nat);
        }
        while place > 0 && (keys[order[place - 1]].0 > keys[item].0 || (keys[order[place - 1]].0
            == keys[item].0 && keys[order[place - 1]].1 > keys[item].1))
            invariant
                place <= order.len(),
                order.len() == item,
                item < keys.len(),
                plain == numbers_of(order@),
                forall|i: int| 0 <= i < order.len() ==> #[trigger] order[i] < item,
                forall|i: int|
                    place <= i < plain.len() ==> comes_after(
                        keys@[#[trigger] plain[i]],
                        keys@[item as int],
                    ),
            decreases place,
        {
            assert(plain[place - 1] == order[place - 1]);
            place = place - 1;
        }
        proof {
            if place > 0 {
                assert(plain[place - 1] == order[place - 1]);
            }
            put_in_order_places(keys@, plain, item as int, place as int);
        }
        let ghost before = order@;
        order.insert(place, item);
        assert(numbers_of(order@) =~= plain.insert(place as int, item as int));
        assert forall|i: int| 0 <= i < order.len() implies #[trigger] order[i] < item + 1 by {
            if i < place {
                assert(order[i] == before[i]);
            } else if i > place {
                assert(order[i] == before[i - 1]);
            }
        }
        item = item + 1;
    }
    order
}

impl Raven {
    fn client_text(&self, number: usize, window: SurfaceId, known: &Known) -> (entry: String)
        requires
            self@.sound(),
        ensures
            forall|facts: Facts|
                known.surface@ == facts.surface && known.app_id@ == or_text(
                    facts.app_id,
                    "<unknown>"@,
                ) && known.title@ == or_text(facts.title, "<untitled>"@) ==> entry@
                    == #[trigger] self@.client_entry(number as nat, window, facts),
    {
        let workspace: usize = match self.workspace_index_for_window(window) {
            Some(index) => index,
            None => self.current_workspace,
        };
        proof {
            lists::index_of_finds(self@.mapped, window);
            lists::index_of_finds(self@.unmapped, window);
        }
        let focused = match self.keyboard_focus {
            Some(surface) => surface == window,
            None => false,
        };
        let mut entry = "Client ".to_owned();
        entry.append(write_decimal(number as u64).as_str());
        entry.append(":\n");
        push_line(&mut entry, "surface", known.surface.as_str());
        push_line(&mut entry, "class", known.app_id);
        push_line(&mut entry, "title", known.title);
        push_line(&mut entry, "workspace", write_decimal(workspace as u64 + 1).as_str());
        push_line(&mut entry, "mapped", truth_text(self.is_window_mapped(window)));
        push_line(&mut entry, "floating", truth_text(self.is_window_floating(window)));
        push_line(
            &mut entry,
            "fullscreen",
            truth_text(self.window_effective_fullscreen_state(window)),
        );
        push_line(&mut entry, "focused", truth_text(focused));
        entry.append("\n");
        proof {
            reveal(State::client_entry);
        }
        entry
    }

    /// The report on all windows; `facts` says what their clients say of them.
    pub fn render_clients_report(&self, facts: &Vec<ClientFacts>) -> (report: String)
        requires
            self@.sound(),
        ensures
            report@ == self@.clients_report(facts@),
    {
        let windows = self.all_windows();
        if windows.len() == 0 {
            return "No clients.\n".to_owned();
        }
        let mut report = String::new();
        let mut index: usize = 0;
        assert(windows@.take(0) =~= seq![]);
        assert(report@ =~= Seq::<char>::empty());
        while index < windows.len()
            invariant
                index <= windows.len(),
                self@.sound(),
                report@ == self@.client_entries(windows@.take(index as int), facts@),
            decreases windows.len() - index,
        {
            assert(windows@.take(index + 1).drop_last() =~= windows@.take(index as int));
            let known = find_facts(facts, windows[index]);
            let entry = self.client_text(index + 1, windows[index], &known);
            assert(entry@ == self@.client_entry(
                (index + 1) as nat,
                windows@[index as int],
                facts_of(facts@, windows@[index as int]),
            ));
            report.append(entry.as_str());
            index = index + 1;
        }
        assert(windows@.take(windows@.len() as int) =~= windows@);
        report
    }

    /// The answer to a request; none, where the configuration is to be read anew first.
    pub fn handle_ipc_stream(
        &self,
        request: &str,
        clients: &Vec<ClientFacts>,
        monitors: &Vec<MonitorFacts>,
    ) -> (answer: Option<String>)
        requires
            self@.sound(),
        ensures
            text::text_view(answer) == (match question_of(request@) {
                Question::Clients => Some(self@.clients_report(clients@)),
                Question::Monitors => Some(self@.monitors_report(monitor_entries(monitors@))),
                Question::Reload => None,
                Question::Empty => Some(refusal(None)),
                Question::Unsupported(command) => Some(refusal(Some(command))),
            }),
    {
        match parse_ipc_request(request) {
            IpcRequest::Clients => Some(self.render_clients_report(clients)),
            IpcRequest::Monitors => Some(self.render_monitors_report(monitors)),
            IpcRequest::Reload => None,
            IpcRequest::Empty => Some(ipc_refusal(None)),
            IpcRequest::Unsupported(command) => Some(ipc_refusal(Some(command.as_str()))),
        }
    }

    fn output_text(&self, number: usize, facts: &MonitorFacts) -> (entry: String)
        ensures
            entry@ == self@.monitor_text(number as nat, facts@),
    {
        let mut entry = "Monitor ".to_owned();
        entry.append(write_decimal(number as u64).as_str());
        entry.append(":\n");
        push_line(&mut entry, "name", facts.name.as_str());
        push_line(&mut entry, "mode", write_mode(facts.mode).as_str());
        match space::output_geometry(&self.outputs, facts.id) {
            Some(rect) => {
                push_line(
                    &mut entry,
                    "position",
                    write_pair(rect.loc.x, ", ", rect.loc.y).as_str(),
                );
                push_line(
                    &mut entry,
                    "logical_size",
                    write_pair(rect.size.w, "x", rect.size.h).as_str(),
                );
            },
            None => {
                push_line(&mut entry, "position", "<unknown>");
                push_line(&mut entry, "logical_size", "<unknown>");
            },
        }
        push_line(&mut entry, "scale", facts.scale.as_str());
        entry.append("\n");
        proof {
            reveal(State::monitor_text);
        }
        entry
    }

    /// The report on all outputs, from the left to the right.
    pub fn render_monitors_report(&self, facts: &Vec<MonitorFacts>) -> (report: String)
        ensures
            report@ == self@.monitors_report(monitor_entries(facts@)),
    {
        if facts.len() == 0 {
            return "No monitors.\n".to_owned();
        }
        let ghost entries = monitor_entries(facts@);
        let mut keys: Vec<(i32, i32)> = Vec::new();
        let mut at: usize = 0;
        while at < facts.len()
            invariant
                at <= facts.len(),
                keys.len() == at,
                entries == monitor_entries(facts@),
                forall|i: int| 0 <= i < at ==> #[trigger] keys[i] == self@.monitor_key(entries[i]),
            decreases facts.len() - at,
        {
            let key = match space::output_geometry(&self.outputs, facts[at].id) {
                Some(rect) => (rect.loc.x, rect.loc.y),
                None => (i32::MAX, i32::MAX),
            };
            keys.push(key);
            at = at + 1;
        }
        assert(keys@ =~= self@.monitor_keys(entries));
        let order = sort_keys(&keys);
        let ghost plain = key_order(keys@, keys@.len());
        proof {
            outputs_are_in_order(keys@, keys@.len());
        }
        assert(numbers_of(order@).len() == order.len());
        let mut report = String::new();
        let mut index: usize = 0;
        assert(report@ =~= Seq::<char>::empty());
        while index < order.len()
            invariant
                index <= order.len(),
                order.len() == facts.len(),
                entries == monitor_entries(facts@),
                plain == numbers_of(order@),
                forall|i: int| 0 <= i < plain.len() ==> 0 <= #[trigger] plain[i] < facts.len(),
                report@ == self@.monitor_texts(entries, plain, index as nat),
            decreases order.len() - index,
        {
            assert(plain[index as int] == order[index as int]);
            let entry = self.output_text(index + 1, &facts[order[index]]);
            report.append(entry.as_str());
            index = index + 1;
        }
        report
    }
}

} // verus!
