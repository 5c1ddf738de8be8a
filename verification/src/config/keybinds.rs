//! Key bindings: combos such as `Main+Shift+R`, and the actions bound to them.

use crate::errors;
use crate::errors::{CompositorError, Failure};
use crate::numbers;
use crate::numbers::read_usize;
use crate::text;
use crate::text::{
    chars_of, is_ascii_digit, is_ascii_letter, is_white_space, join, lower_char, same_text, split,
    split_whitespace, to_lowercase, to_uppercase, trim,
};
use vstd::prelude::*;

verus! {

/// The modifier keys that are held.
#[derive(Clone, Copy, Debug, PartialEq, Eq, Structural)]
pub struct ModifiersState {
    pub shift: bool,
    pub ctrl: bool,
    pub alt: bool,
    pub logo: bool,
}

/// The modifier that `Main` stands for.
#[derive(Clone, Copy, Debug, PartialEq, Eq, Structural)]
pub enum MainKey {
    Super,
    Alt,
    Ctrl,
}

impl MainKey {
    /// Whether this modifier is among those held.
    pub open spec fn held(self, modifiers: ModifiersState) -> bool {
        match self {
            MainKey::Super => modifiers.logo,
            MainKey::Alt => modifiers.alt,
            MainKey::Ctrl => modifiers.ctrl,
        }
    }

    /// Whether this modifier is among those held.
    pub fn matches(self, modifiers: &ModifiersState) -> (result: bool)
        ensures
            result == self.held(*modifiers),
    {
        match self {
            MainKey::Super => modifiers.logo,
            MainKey::Alt => modifiers.alt,
            MainKey::Ctrl => modifiers.ctrl,
        }
    }
}

/// The modifiers of a key binding.
#[derive(Clone, Copy, Debug, PartialEq, Eq, Structural)]
pub struct KeybindModifiers {
    pub shift: bool,
    pub ctrl: bool,
    pub alt: bool,
    pub logo: bool,
}

impl Default for KeybindModifiers {
    /// No modifier.
    fn default() -> (modifiers: KeybindModifiers)
        ensures
            modifiers == no_modifiers(),
    {
        KeybindModifiers { shift: false, ctrl: false, alt: false, logo: false }
    }
}

/// No modifier.
pub open spec fn no_modifiers() -> KeybindModifiers {
    KeybindModifiers { shift: false, ctrl: false, alt: false, logo: false }
}

impl KeybindModifiers {
    /// These modifiers and the one that `Main` stands for.
    pub open spec fn with_main(self, main_key: MainKey) -> KeybindModifiers {
        match main_key {
            MainKey::Super => KeybindModifiers { logo: true, ..self },
            MainKey::Alt => KeybindModifiers { alt: true, ..self },
            MainKey::Ctrl => KeybindModifiers { ctrl: true, ..self },
        }
    }

    /// Adds the modifier that `Main` stands for.
    pub fn set_main_key(&mut self, main_key: MainKey)
        ensures
            *final(self) == old(self).with_main(main_key),
    {
        match main_key {
            MainKey::Super => self.logo = true,
            MainKey::Alt => self.alt = true,
            MainKey::Ctrl => self.ctrl = true,
        }
    }

    /// Whether exactly these modifiers are held.
    pub open spec fn all_held(self, modifiers: ModifiersState) -> bool {
        self.shift == modifiers.shift && self.ctrl == modifiers.ctrl && self.alt == modifiers.alt
            && self.logo == modifiers.logo
    }

    /// Whether exactly these modifiers are held.
    pub fn matches(self, modifiers: &ModifiersState) -> (result: bool)
        ensures
            result == self.all_held(*modifiers),
    {
        self.shift == modifiers.shift && self.ctrl == modifiers.ctrl && self.alt == modifiers.alt
            && self.logo == modifiers.logo
    }
}

/// What a key binding does.
#[derive(Clone, Debug)]
pub enum KeybindAction {
    Exec(String),
    Terminal,
    Launcher,
    CloseFocused,
    ToggleFullscreen,
    ToggleFloating,
    Quit,
    FocusNext,
    FocusPrevious,
    ReloadConfig,
    SwitchWorkspace(usize),
    MoveFocusedToWorkspace(usize),
    Unsupported(String),
}

/// A `KeybindAction` as plain values.
pub enum Deed {
    Exec(Seq<char>),
    Terminal,
    Launcher,
    CloseFocused,
    ToggleFullscreen,
    ToggleFloating,
    Quit,
    FocusNext,
    FocusPrevious,
    ReloadConfig,
    SwitchWorkspace(usize),
    MoveFocusedToWorkspace(usize),
    Unsupported(Seq<char>),
}

impl View for KeybindAction {
    type V = Deed;

    open spec fn view(&self) -> Deed {
        match self {
            KeybindAction::Exec(command) => Deed::Exec(command@),
            KeybindAction::Terminal => Deed::Terminal,
            KeybindAction::Launcher => Deed::Launcher,
            KeybindAction::CloseFocused => Deed::CloseFocused,
            KeybindAction::ToggleFullscreen => Deed::ToggleFullscreen,
            KeybindAction::ToggleFloating => Deed::ToggleFloating,
            KeybindAction::Quit => Deed::Quit,
            KeybindAction::FocusNext => Deed::FocusNext,
            KeybindAction::FocusPrevious => Deed::FocusPrevious,
            KeybindAction::ReloadConfig => Deed::ReloadConfig,
            KeybindAction::SwitchWorkspace(index) => Deed::SwitchWorkspace(*index),
            KeybindAction::MoveFocusedToWorkspace(index) => Deed::MoveFocusedToWorkspace(*index),
            KeybindAction::Unsupported(name) => Deed::Unsupported(name@),
        }
    }
}

impl KeybindAction {
    /// The same action once more.
    pub fn copy(&self) -> (action: KeybindAction)
        ensures
            action@ == self@,
    {
        match self {
            KeybindAction::Exec(command) => KeybindAction::Exec(command.clone()),
            KeybindAction::Terminal => KeybindAction::Terminal,
            KeybindAction::Launcher => KeybindAction::Launcher,
            KeybindAction::CloseFocused => KeybindAction::CloseFocused,
            KeybindAction::ToggleFullscreen => KeybindAction::ToggleFullscreen,
            KeybindAction::ToggleFloating => KeybindAction::ToggleFloating,
            KeybindAction::Quit => KeybindAction::Quit,
            KeybindAction::FocusNext => KeybindAction::FocusNext,
            KeybindAction::FocusPrevious => KeybindAction::FocusPrevious,
            KeybindAction::ReloadConfig => KeybindAction::ReloadConfig,
            KeybindAction::SwitchWorkspace(index) => KeybindAction::SwitchWorkspace(*index),
            KeybindAction::MoveFocusedToWorkspace(index) => KeybindAction::MoveFocusedToWorkspace(
                *index,
            ),
            KeybindAction::Unsupported(name) => KeybindAction::Unsupported(name.clone()),
        }
    }
}

/// A combo of modifiers and a key, and the action bound to it.
#[derive(Clone, Debug)]
pub struct Keybind {
    pub modifiers: KeybindModifiers,
    pub key: String,
    pub action: KeybindAction,
}

/// A `Keybind` as plain values.
pub struct Binding {
    pub modifiers: KeybindModifiers,
    pub key: Seq<char>,
    pub action: Deed,
}

impl View for Keybind {
    type V = Binding;

    open spec fn view(&self) -> Binding {
        Binding { modifiers: self.modifiers, key: self.key@, action: self.action@ }
    }
}

/// A list of key bindings as plain values.
pub open spec fn bindings(binds: Seq<Keybind>) -> Seq<Binding> {
    Seq::new(binds.len(), |i: int| binds[i]@)
}

/// A key symbol, by its number.
pub type Keysym = u32;

/// The character that a key symbol stands for.
pub uninterp spec fn keysym_char(keysym: u32) -> Option<char>;

/// `xkeysym::Keysym::key_char`: the character of a key symbol, if it has one. The result depends
/// on the symbol alone, and printable ASCII symbols are their own character.
#[verifier::external_body]
fn key_char(keysym: Keysym) -> (ch: Option<char>)
    ensures
        ch == keysym_char(keysym),
        0x20 <= keysym <= 0x7e ==> ch == Some(keysym as char),
{
    xkeysym::Keysym::new(keysym).key_char()
}

/// Whether `keysym` is the digit, or what stands on its key with shift.
pub open spec fn on_digit_key(digit: char, keysym: u32) -> bool {
    match digit {
        '1' => keysym == 0x31 || keysym == 0x21,
        '2' => keysym == 0x32 || keysym == 0x40,
        '3' => keysym == 0x33 || keysym == 0x23,
        '4' => keysym == 0x34 || keysym == 0x24,
        '5' => keysym == 0x35 || keysym == 0x25,
        '6' => keysym == 0x36 || keysym == 0x5e,
        '7' => keysym == 0x37 || keysym == 0x26,
        '8' => keysym == 0x38 || keysym == 0x2a,
        '9' => keysym == 0x39 || keysym == 0x28,
        '0' => keysym == 0x30 || keysym == 0x29,
        _ => false,
    }
}

/// Whether `keysym` is the digit, or what stands on its key with shift.
pub fn digit_matches_keysym(digit: char, keysym: Keysym) -> (result: bool)
    ensures
        result == on_digit_key(digit, keysym),
{
    match digit {
        '1' => keysym == 0x31 || keysym == 0x21,
        '2' => keysym == 0x32 || keysym == 0x40,
        '3' => keysym == 0x33 || keysym == 0x23,
        '4' => keysym == 0x34 || keysym == 0x24,
        '5' => keysym == 0x35 || keysym == 0x25,
        '6' => keysym == 0x36 || keysym == 0x5e,
        '7' => keysym == 0x37 || keysym == 0x26,
        '8' => keysym == 0x38 || keysym == 0x2a,
        '9' => keysym == 0x39 || keysym == 0x28,
        '0' => keysym == 0x30 || keysym == 0x29,
        _ => false,
    }
}

/// Whether a token of one ASCII character names a key: a digit names its key, a letter the
/// symbol of either case, any other character the symbol it is.
pub open spec fn char_token_names(token: char, keysym: u32, ch: Option<char>) -> bool {
    if text::ascii_digit(token) {
        on_digit_key(token, keysym)
    } else if text::ascii_letter(token) {
        ch matches Some(found) && text::lowered(found) == text::lowered(token)
    } else {
        ch == Some(token)
    }
}

/// Whether a token names a key whose symbol is `keysym` and whose character is `ch`.
pub open spec fn token_names(token: Seq<char>, keysym: u32, ch: Option<char>) -> bool {
    if token.len() == 1 && (token[0] as u32) < 0x80 {
        char_token_names(token[0], keysym, ch)
    } else if token == "RETURN"@ {
        keysym == 0xff0d || keysym == 0xff8d
    } else if token == "ESCAPE"@ {
        keysym == 0xff1b
    } else if token == "PRINT"@ {
        keysym == 0xff61
    } else if token == "SPACE"@ {
        ch == Some(' ')
    } else if token == "TAB"@ {
        keysym == 0xff09 || keysym == 0xfe20 || keysym == 0xff89
    } else if token == "LEFT"@ {
        keysym == 0xff51
    } else if token == "RIGHT"@ {
        keysym == 0xff53
    } else if token == "UP"@ {
        keysym == 0xff52
    } else if token == "DOWN"@ {
        keysym == 0xff54
    } else if token == "BACKSPACE"@ {
        keysym == 0xff08
    } else {
        false
    }
}

/// Whether a token names a key whose symbol is `keysym` and whose character is `ch`.
pub fn token_matches(token: &str, keysym: Keysym, ch: Option<char>) -> (result: bool)
    ensures
        result == token_names(token@, keysym, ch),
{
    let chars = chars_of(token);
    if chars.len() == 1 && (chars[0] as u32) < 0x80 {
        let token_char: char = chars[0];
        if is_ascii_digit(token_char) {
            return digit_matches_keysym(token_char, keysym);
        }
        return match ch {
            Some(found) => if is_ascii_letter(token_char) {
                lower_char(found) == lower_char(token_char)
            } else {
                found == token_char
            },
            None => false,
        };
    }
    if same_text(token, "RETURN") {
        keysym == 0xff0d || keysym == 0xff8d
    } else if same_text(token, "ESCAPE") {
        keysym == 0xff1b
    } else if same_text(token, "PRINT") {
        keysym == 0xff61
    } else if same_text(token, "SPACE") {
        match ch {
            Some(found) => found == ' ',
            None => false,
        }
    } else if same_text(token, "TAB") {
        keysym == 0xff09 || keysym == 0xfe20 || keysym == 0xff89
    } else if same_text(token, "LEFT") {
        keysym == 0xff51
    } else if same_text(token, "RIGHT") {
        keysym == 0xff53
    } else if same_text(token, "UP") {
        keysym == 0xff52
    } else if same_text(token, "DOWN") {
        keysym == 0xff54
    } else if same_text(token, "BACKSPACE") {
        keysym == 0xff08
    } else {
        false
    }
}

/// Whether the token of a key binding names the key with this symbol.
pub fn keysym_matches_token(keysym: Keysym, token: &str) -> (result: bool)
    ensures
        result == token_names(token@, keysym, keysym_char(keysym)),
{
    token_matches(token, keysym, key_char(keysym))
}

/// Whether a binding is meant by these held modifiers and this key.
pub open spec fn meant(bind: Binding, modifiers: ModifiersState, keysym: u32) -> bool {
    bind.modifiers.all_held(modifiers) && token_names(bind.key, keysym, keysym_char(keysym))
}

/// The action of the first binding that is meant.
pub open spec fn action_for(binds: Seq<Binding>, modifiers: ModifiersState, keysym: u32) -> Option<
    Deed,
>
    decreases binds.len(),
{
    if binds.len() == 0 {
        None
    } else if meant(binds[0], modifiers, keysym) {
        Some(binds[0].action)
    } else {
        action_for(binds.skip(1), modifiers, keysym)
    }
}

/// An optional action as plain values.
pub open spec fn deed_view(action: Option<KeybindAction>) -> Option<Deed> {
    match action {
        Some(found) => Some(found@),
        None => None,
    }
}

impl Keybind {
    /// Whether this binding is meant by these held modifiers and this key.
    pub fn matches(&self, modifiers: &ModifiersState, keysym: Keysym) -> (result: bool)
        ensures
            result == meant(self@, *modifiers, keysym),
    {
        self.modifiers.matches(modifiers) && keysym_matches_token(keysym, self.key.as_str())
    }
}

/// The action of the first of `binds` that is meant.
pub fn find_action(binds: &Vec<Keybind>, modifiers: &ModifiersState, keysym: Keysym) -> (action:
    Option<KeybindAction>)
    ensures
        deed_view(action) == action_for(bindings(binds@), *modifiers, keysym),
{
    let ghost all = bindings(binds@);
    let mut index: usize = 0;
    assert(all.skip(0) =~= all);
    while index < binds.len()
        invariant
            index <= binds.len(),
            all == bindings(binds@),
            action_for(all.skip(index as int), *modifiers, keysym) == action_for(
                all,
                *modifiers,
                keysym,
            ),
        decreases binds.len() - index,
    {
        assert(all.skip(index as int).skip(1) =~= all.skip(index + 1));
        if binds[index].matches(modifiers, keysym) {
            return Some(binds[index].action.copy());
        }
        index = index + 1;
    }
    None
}

/// The action found is that of a binding that is meant, with no such binding before it.
pub proof fn first_meant_binding_wins(
    binds: Seq<Binding>,
    modifiers: ModifiersState,
    keysym: u32,
    at: int,
)
    requires
        0 <= at < binds.len(),
        meant(binds[at], modifiers, keysym),
        forall|i: int| 0 <= i < at ==> !meant(#[trigger] binds[i], modifiers, keysym),
    ensures
        action_for(binds, modifiers, keysym) == Some(binds[at].action),
    decreases at,
{
    if at > 0 {
        let rest = binds.skip(1);
        assert forall|i: int| 0 <= i < at - 1 implies !meant(
            #[trigger] rest[i],
            modifiers,
            keysym,
        ) by {
            assert(rest[i] == binds[i + 1]);
        }
        first_meant_binding_wins(rest, modifiers, keysym, at - 1);
    }
}

/// The names of `Super`.
pub open spec fn names_super(word: Seq<char>) -> bool {
    word == "super"@ || word == "logo"@ || word == "win"@ || word == "windows"@ || word == "mod4"@
}

/// The names of `Alt`.
pub open spec fn names_alt(word: Seq<char>) -> bool {
    word == "alt"@ || word == "mod1"@
}

/// The names of `Ctrl`.
pub open spec fn names_ctrl(word: Seq<char>) -> bool {
    word == "ctrl"@ || word == "control"@
}

fn is_super(word: &str) -> (result: bool)
    ensures
        result == names_super(word@),
{
    same_text(word, "super") || same_text(word, "logo") || same_text(word, "win") || same_text(
        word,
        "windows",
    ) || same_text(word, "mod4")
}

fn is_alt(word: &str) -> (result: bool)
    ensures
        result == names_alt(word@),
{
    same_text(word, "alt") || same_text(word, "mod1")
}

fn is_ctrl(word: &str) -> (result: bool)
    ensures
        result == names_ctrl(word@),
{
    same_text(word, "ctrl") || same_text(word, "control")
}

/// The main key that `raw` names, whatever its case.
pub open spec fn main_key_value(raw: Seq<char>) -> Result<MainKey, Failure> {
    let word = text::lowercase(text::trimmed(raw));
    if names_super(word) {
        Ok(MainKey::Super)
    } else if names_alt(word) {
        Ok(MainKey::Alt)
    } else if names_ctrl(word) {
        Ok(MainKey::Ctrl)
    } else {
        errors::refused(
            "invalid main_key/modkey `"@ + raw
                + "` (expected Super/Mod4, Alt/Mod1, or Ctrl)"@,
        )
    }
}

/// The main key that `raw` names, whatever its case.
pub fn parse_main_key(raw: &str) -> (result: Result<MainKey, CompositorError>)
    ensures
        errors::outcome(result) == main_key_value(raw@),
{
    let inner = trim(raw);
    let word = to_lowercase(inner.as_str());
    if is_super(word.as_str()) {
        Ok(MainKey::Super)
    } else if is_alt(word.as_str()) {
        Ok(MainKey::Alt)
    } else if is_ctrl(word.as_str()) {
        Ok(MainKey::Ctrl)
    } else {
        let mut message = "invalid main_key/modkey `".to_owned();
        message.append(raw);
        message.append("` (expected Super/Mod4, Alt/Mod1, or Ctrl)");
        Err(CompositorError::Backend(message))
    }
}

/// The token that a key is compared by: in capitals, under its main name.
pub open spec fn key_token(raw: Seq<char>) -> Seq<char> {
    let name = text::uppercase(raw);
    if name == "ENTER"@ {
        "RETURN"@
    } else if name == "ESC"@ {
        "ESCAPE"@
    } else if name == "SPACEBAR"@ {
        "SPACE"@
    } else {
        name
    }
}

/// The token that a key is compared by: in capitals, under its main name.
pub fn normalize_key_token(raw: &str) -> (token: String)
    ensures
        token@ == key_token(raw@),
{
    let name = to_uppercase(raw);
    if same_text(name.as_str(), "ENTER") {
        "RETURN".to_owned()
    } else if same_text(name.as_str(), "ESC") {
        "ESCAPE".to_owned()
    } else if same_text(name.as_str(), "SPACEBAR") {
        "SPACE".to_owned()
    } else {
        name
    }
}

/// The failure of a combo.
pub open spec fn bad_combo(combo: Seq<char>, reason: Seq<char>) -> Failure {
    Failure::Backend("invalid key combo `"@ + combo + "`: "@ + reason)
}

fn bad_combo_error(combo: &str, reason: &str) -> (error: CompositorError)
    ensures
        error@ == bad_combo(combo@, reason@),
{
    let mut message = "invalid key combo `".to_owned();
    message.append(combo);
    message.append("`: ");
    message.append(reason);
    CompositorError::Backend(message)
}

/// The modifiers and the key, if there is one yet, that the segments of a combo name.
pub open spec fn combo_parts(parts: Seq<Seq<char>>, combo: Seq<char>, main_key: MainKey) -> Result<
    (KeybindModifiers, Option<Seq<char>>),
    Failure,
>
    decreases parts.len(),
{
    if parts.len() == 0 {
        Ok((no_modifiers(), None))
    } else {
        match combo_parts(parts.drop_last(), combo, main_key) {
            Err(failure) => Err(failure),
            Ok(found) => {
                let part = text::trimmed(parts.last());
                let word = text::lowercase(part);
                if part.len() == 0 {
                    Err(bad_combo(combo, "empty segment"@))
                } else if word == "shift"@ {
                    Ok((KeybindModifiers { shift: true, ..found.0 }, found.1))
                } else if names_ctrl(word) {
                    Ok((KeybindModifiers { ctrl: true, ..found.0 }, found.1))
                } else if names_alt(word) {
                    Ok((KeybindModifiers { alt: true, ..found.0 }, found.1))
                } else if names_super(word) {
                    Ok((KeybindModifiers { logo: true, ..found.0 }, found.1))
                } else if word == "main"@ {
                    Ok((found.0.with_main(main_key), found.1))
                } else if found.1 is Some {
                    Err(bad_combo(combo, "multiple key tokens"@))
                } else {
                    Ok((found.0, Some(key_token(part))))
                }
            },
        }
    }
}

/// The modifiers and the key that a combo names.
pub open spec fn combo_value(combo: Seq<char>, main_key: MainKey) -> Result<
    (KeybindModifiers, Seq<char>),
    Failure,
> {
    match combo_parts(text::segments(combo, '+'), combo, main_key) {
        Err(failure) => Err(failure),
        Ok(found) => match found.1 {
            Some(key) => Ok((found.0, key)),
            None => Err(bad_combo(combo, "missing non-modifier key"@)),
        },
    }
}

proof fn combo_parts_keeps_failure(
    parts: Seq<Seq<char>>,
    combo: Seq<char>,
    main_key: MainKey,
    at: int,
)
    requires
        0 <= at <= parts.len(),
        combo_parts(parts.take(at), combo, main_key) is Err,
    ensures
        combo_parts(parts, combo, main_key) == combo_parts(parts.take(at), combo, main_key),
    decreases parts.len() - at,
{
    if at < parts.len() {
        assert(parts.take(at + 1).drop_last() =~= parts.take(at));
        combo_parts_keeps_failure(parts, combo, main_key, at + 1);
    } else {
        assert(parts.take(at) =~= parts);
    }
}

/// Whether one of `parts` is a name of the shift key.
pub open spec fn says_shift(parts: Seq<Seq<char>>) -> bool {
    exists|i: int|
        0 <= i < parts.len() && text::lowercase(text::trimmed(#[trigger] parts[i])) == "shift"@
}

/// A combo has the shift modifier exactly where one of its segments says so.
pub proof fn combo_shift_is_said(parts: Seq<Seq<char>>, combo: Seq<char>, main_key: MainKey)
    requires
        combo_parts(parts, combo, main_key) is Ok,
    ensures
        combo_parts(parts, combo, main_key)->Ok_0.0.shift == says_shift(parts),
    decreases parts.len(),
{
    if parts.len() > 0 {
        let rest = parts.drop_last();
        combo_shift_is_said(rest, combo, main_key);
        let word = text::lowercase(text::trimmed(parts.last()));
        if word == "shift"@ {
            assert(parts[parts.len() - 1] == parts.last());
        } else {
            reveal_strlit("shift");
            if says_shift(rest) {
                let i = choose|i: int|
                    0 <= i < rest.len() && text::lowercase(text::trimmed(#[trigger] rest[i]))
                        == "shift"@;
                assert(parts[i] == rest[i]);
            }
            if says_shift(parts) {
                let i = choose|i: int|
                    0 <= i < parts.len() && text::lowercase(text::trimmed(#[trigger] parts[i]))
                        == "shift"@;
                assert(i < rest.len());
                assert(parts[i] == rest[i]);
            }
        }
    }
}

/// The modifiers and the key that a combo names.
pub fn parse_combo(combo: &str, main_key: MainKey) -> (result: Result<
    (KeybindModifiers, String),
    CompositorError,
>)
    ensures
        combo_value(combo@, main_key) == (match result {
            Ok(found) => Ok::<(KeybindModifiers, Seq<char>), Failure>((found.0, found.1@)),
            Err(error) => Err(error@),
        }),
{
    let parts = split(combo, '+');
    let ghost all = text::texts(parts@);
    let mut modifiers = KeybindModifiers::default();
    let mut key: Option<String> = None;
    let mut index: usize = 0;
    assert(all.take(0) =~= seq![]);
    while index < parts.len()
        invariant
            index <= parts.len(),
            all == text::texts(parts@),
            all == text::segments(combo@, '+'),
            combo_parts(all.take(index as int), combo@, main_key) == Ok::<
                (KeybindModifiers, Option<Seq<char>>),
                Failure,
            >((modifiers, text::text_view(key))),
        decreases parts.len() - index,
    {
        let part = trim(parts[index].as_str());
        let word = to_lowercase(part.as_str());
        proof {
            let next = all.take(index + 1);
            assert(next.drop_last() =~= all.take(index as int));
            assert(next.last() == parts[index as int]@);
        }
        if part.as_str().is_empty() {
            proof {
                combo_parts_keeps_failure(all, combo@, main_key, index + 1);
            }
            return Err(bad_combo_error(combo, "empty segment"));
        }
        if same_text(word.as_str(), "shift") {
            modifiers.shift = true;
        } else if is_ctrl(word.as_str()) {
            modifiers.ctrl = true;
        } else if is_alt(word.as_str()) {
            modifiers.alt = true;
        } else if is_super(word.as_str()) {
            modifiers.logo = true;
        } else if same_text(word.as_str(), "main") {
            modifiers.set_main_key(main_key);
        } else if key.is_some() {
            proof {
                combo_parts_keeps_failure(all, combo@, main_key, index + 1);
            }
            return Err(bad_combo_error(combo, "multiple key tokens"));
        } else {
            key = Some(normalize_key_token(part.as_str()));
        }
        index = index + 1;
    }
    assert(all.take(all.len() as int) =~= all);
    match key {
        Some(token) => Ok((modifiers, token)),
        None => Err(bad_combo_error(combo, "missing non-modifier key")),
    }
}

/// The failure of a key binding.
pub open spec fn bad_keybind(line: Seq<char>, reason: Seq<char>) -> Failure {
    Failure::Backend("invalid keybind `"@ + line + "`: "@ + reason)
}

fn bad_keybind_error(line: &str, reason: &str) -> (error: CompositorError)
    ensures
        error@ == bad_keybind(line@, reason@),
{
    let mut message = "invalid keybind `".to_owned();
    message.append(line);
    message.append("`: ");
    message.append(reason);
    CompositorError::Backend(message)
}

/// Whether white space stands somewhere in `text`.
pub open spec fn has_space(text: Seq<char>) -> bool {
    exists|i: int| 0 <= i < text.len() && text::white_space(#[trigger] text[i])
}

fn contains_space(text: &str) -> (result: bool)
    ensures
        result == has_space(text@),
{
    let chars = chars_of(text);
    let mut index: usize = 0;
    while index < chars.len()
        invariant
            index <= chars.len(),
            chars@ == text@,
            forall|i: int| 0 <= i < index ==> !text::white_space(#[trigger] text@[i]),
        decreases chars.len() - index,
    {
        if is_white_space(chars[index]) {
            return true;
        }
        index = index + 1;
    }
    false
}

/// The workspace, counted from zero, that the argument of an action numbers from one to ten.
pub open spec fn workspace_index(args: Seq<char>, line: Seq<char>, action: Seq<char>) -> Result<
    usize,
    Failure,
> {
    let raw = text::trimmed(args);
    if raw.len() == 0 {
        Err(bad_keybind(line, "action `"@ + action + "` requires workspace number"@))
    } else if has_space(raw) {
        Err(bad_keybind(line, "action `"@ + action + "` expects a single number"@))
    } else {
        match numbers::integer(raw, 0, usize::MAX as int) {
            Err(error) => Err(
                bad_keybind(
                    line,
                    "invalid workspace number `"@ + raw + "` ("@ + error.text() + ")"@,
                ),
            ),
            Ok(number) => if 1 <= number <= 10 {
                Ok((number - 1) as usize)
            } else {
                Err(bad_keybind(line, "workspace must be between 1 and 10"@))
            },
        }
    }
}

/// The workspace, counted from zero, that the argument of an action numbers from one to ten.
pub fn parse_workspace_index(action_args: &str, full_line: &str, action_name: &str) -> (result:
    Result<usize, CompositorError>)
    ensures
        errors::outcome(result) == workspace_index(action_args@, full_line@, action_name@),
{
    let raw = trim(action_args);
    if raw.as_str().is_empty() {
        let mut reason = "action `".to_owned();
        reason.append(action_name);
        reason.append("` requires workspace number");
        return Err(bad_keybind_error(full_line, reason.as_str()));
    }
    if contains_space(raw.as_str()) {
        let mut reason = "action `".to_owned();
        reason.append(action_name);
        reason.append("` expects a single number");
        return Err(bad_keybind_error(full_line, reason.as_str()));
    }
    match read_usize(raw.as_str()) {
        Err(error) => {
            let mut reason = "invalid workspace number `".to_owned();
            reason.append(raw.as_str());
            reason.append("` (");
            reason.append(error.reason());
            reason.append(")");
            Err(bad_keybind_error(full_line, reason.as_str()))
        },
        Ok(number) => if 1 <= number && number <= 10 {
            Ok(number - 1)
        } else {
            Err(bad_keybind_error(full_line, "workspace must be between 1 and 10"))
        },
    }
}

/// The action that a name alone means, for the names that take no argument. `word` is the name in
/// small letters.
pub open spec fn plain_action(name: Seq<char>, word: Seq<char>) -> Option<Deed> {
    if word == "terminal"@ {
        Some(Deed::Terminal)
    } else if word == "launcher"@ {
        Some(Deed::Launcher)
    } else if word == "close"@ || word == "close_focused"@ || word == "close_window"@ {
        Some(Deed::CloseFocused)
    } else if word == "fullscreen"@ || word == "togglefullscreen"@ {
        Some(Deed::ToggleFullscreen)
    } else if word == "toggle_floating"@ || word == "togglefloating"@ || word == "floating"@ {
        Some(Deed::ToggleFloating)
    } else if word == "quit"@ {
        Some(Deed::Quit)
    } else if word == "focus_next"@ || word == "next"@ {
        Some(Deed::FocusNext)
    } else if word == "focus_prev"@ || word == "focus_previous"@ || word == "prev"@ {
        Some(Deed::FocusPrevious)
    } else if word == "reload"@ || word == "reload_config"@ {
        Some(Deed::ReloadConfig)
    } else if word == "resize_left"@ || word == "resize_right"@ || word == "swap_master"@ {
        Some(Deed::Unsupported(name))
    } else {
        None
    }
}

fn find_plain_action(name: &str, word: &str) -> (action: Option<KeybindAction>)
    ensures
        deed_view(action) == plain_action(name@, word@),
{
    if same_text(word, "terminal") {
        Some(KeybindAction::Terminal)
    } else if same_text(word, "launcher") {
        Some(KeybindAction::Launcher)
    } else if same_text(word, "close") || same_text(word, "close_focused") || same_text(
        word,
        "close_window",
    ) {
        Some(KeybindAction::CloseFocused)
    } else if same_text(word, "fullscreen") || same_text(word, "togglefullscreen") {
        Some(KeybindAction::ToggleFullscreen)
    } else if same_text(word, "toggle_floating") || same_text(word, "togglefloating") || same_text(
        word,
        "floating",
    ) {
        Some(KeybindAction::ToggleFloating)
    } else if same_text(word, "quit") {
        Some(KeybindAction::Quit)
    } else if same_text(word, "focus_next") || same_text(word, "next") {
        Some(KeybindAction::FocusNext)
    } else if same_text(word, "focus_prev") || same_text(word, "focus_previous") || same_text(
        word,
        "prev",
    ) {
        Some(KeybindAction::FocusPrevious)
    } else if same_text(word, "reload") || same_text(word, "reload_config") {
        Some(KeybindAction::ReloadConfig)
    } else if same_text(word, "resize_left") || same_text(word, "resize_right") || same_text(
        word,
        "swap_master",
    ) {
        Some(KeybindAction::Unsupported(name.to_owned()))
    } else {
        None
    }
}

/// The action that a name means with these arguments.
pub open spec fn action_value(name: Seq<char>, args: Seq<char>, line: Seq<char>) -> Result<
    Deed,
    Failure,
> {
    let word = text::lowercase(name);
    if word == "exec"@ {
        if text::blank(args) {
            Err(bad_keybind(line, "`exec` requires a command"@))
        } else {
            Ok(Deed::Exec(text::trimmed(args)))
        }
    } else if word == "workspace"@ {
        match workspace_index(args, line, "workspace"@) {
            Ok(index) => Ok(Deed::SwitchWorkspace(index)),
            Err(failure) => Err(failure),
        }
    } else if word == "movetoworkspace"@ {
        match workspace_index(args, line, "movetoworkspace"@) {
            Ok(index) => Ok(Deed::MoveFocusedToWorkspace(index)),
            Err(failure) => Err(failure),
        }
    } else {
        match plain_action(name, word) {
            None => Err(bad_keybind(line, "unknown action `"@ + name + "`"@)),
            Some(deed) => if text::blank(args) {
                Ok(deed)
            } else {
                Err(bad_keybind(line, "action `"@ + name + "` does not accept arguments"@))
            },
        }
    }
}

/// An action, or a failure, as plain values.
pub open spec fn action_outcome(result: Result<KeybindAction, CompositorError>) -> Result<
    Deed,
    Failure,
> {
    match result {
        Ok(action) => Ok(action@),
        Err(error) => Err(error@),
    }
}

/// The action that a name means with these arguments.
pub fn parse_keybind_action(action_name: &str, action_args: &str, full_line: &str) -> (result:
    Result<KeybindAction, CompositorError>)
    ensures
        action_outcome(result) == action_value(action_name@, action_args@, full_line@),
{
    let word = to_lowercase(action_name);
    let args = trim(action_args);
    if same_text(word.as_str(), "exec") {
        if args.as_str().is_empty() {
            return Err(bad_keybind_error(full_line, "`exec` requires a command"));
        }
        return Ok(KeybindAction::Exec(args));
    }
    if same_text(word.as_str(), "workspace") {
        return match parse_workspace_index(action_args, full_line, "workspace") {
            Ok(index) => Ok(KeybindAction::SwitchWorkspace(index)),
            Err(error) => Err(error),
        };
    }
    if same_text(word.as_str(), "movetoworkspace") {
        return match parse_workspace_index(action_args, full_line, "movetoworkspace") {
            Ok(index) => Ok(KeybindAction::MoveFocusedToWorkspace(index)),
            Err(error) => Err(error),
        };
    }
    match find_plain_action(action_name, word.as_str()) {
        None => {
            let mut reason = "unknown action `".to_owned();
            reason.append(action_name);
            reason.append("`");
            Err(bad_keybind_error(full_line, reason.as_str()))
        },
        Some(action) => {
            if !args.as_str().is_empty() {
                let mut reason = "action `".to_owned();
                reason.append(action_name);
                reason.append("` does not accept arguments");
                return Err(bad_keybind_error(full_line, reason.as_str()));
            }
            Ok(action)
        },
    }
}

/// The binding on a line `<combo> <action> [args]`.
pub open spec fn keybind_value(line: Seq<char>, main_key: MainKey) -> Result<Binding, Failure> {
    let inner = text::trimmed(line);
    let parts = text::words(inner);
    if inner.len() == 0 {
        errors::refused("keybind entry must not be empty"@)
    } else if parts.len() < 2 {
        Err(
            bad_keybind(
                inner,
                "missing action (expected format `<combo> <action> [args]`)"@,
            ),
        )
    } else {
        match combo_value(parts[0], main_key) {
            Err(failure) => Err(failure),
            Ok(combo) => match action_value(parts[1], text::joined(parts.skip(2), " "@), inner) {
                Err(failure) => Err(failure),
                Ok(action) => Ok(Binding { modifiers: combo.0, key: combo.1, action }),
            },
        }
    }
}

/// A binding, or a failure, as plain values.
pub open spec fn keybind_outcome(result: Result<Keybind, CompositorError>) -> Result<
    Binding,
    Failure,
> {
    match result {
        Ok(bind) => Ok(bind@),
        Err(error) => Err(error@),
    }
}

/// The binding on a line `<combo> <action> [args]`.
pub fn parse_keybind_line(line: &str, main_key: MainKey) -> (result: Result<
    Keybind,
    CompositorError,
>)
    ensures
        keybind_outcome(result) == keybind_value(line@, main_key),
{
    let inner = trim(line);
    if inner.as_str().is_empty() {
        return Err(CompositorError::Backend("keybind entry must not be empty".to_owned()));
    }
    let parts = split_whitespace(inner.as_str());
    let ghost all = text::texts(parts@);
    if parts.len() < 2 {
        return Err(
            bad_keybind_error(
                inner.as_str(),
                "missing action (expected format `<combo> <action> [args]`)",
            ),
        );
    }
    let args = join(&parts, 2, " ");
    assert(all[0] == parts[0]@ && all[1] == parts[1]@);
    let (modifiers, key) = match parse_combo(parts[0].as_str(), main_key) {
        Ok(combo) => combo,
        Err(error) => return Err(error),
    };
    let action = match parse_keybind_action(parts[1].as_str(), args.as_str(), inner.as_str()) {
        Ok(action) => action,
        Err(error) => return Err(error),
    };
    Ok(Keybind { modifiers, key, action })
}

/// The bindings on `lines`.
pub open spec fn keybind_values(lines: Seq<Seq<char>>, main_key: MainKey) -> Result<
    Seq<Binding>,
    Failure,
>
    decreases lines.len(),
{
    if lines.len() == 0 {
        Ok(seq![])
    } else {
        match keybind_values(lines.drop_last(), main_key) {
            Err(failure) => Err(failure),
            Ok(binds) => match keybind_value(lines.last(), main_key) {
                Err(failure) => Err(failure),
                Ok(bind) => Ok(binds.push(bind)),
            },
        }
    }
}

proof fn keybind_values_keeps_failure(lines: Seq<Seq<char>>, main_key: MainKey, at: int)
    requires
        0 <= at <= lines.len(),
        keybind_values(lines.take(at), main_key) is Err,
    ensures
        keybind_values(lines, main_key) == keybind_values(lines.take(at), main_key),
    decreases lines.len() - at,
{
    if at < lines.len() {
        assert(lines.take(at + 1).drop_last() =~= lines.take(at));
        keybind_values_keeps_failure(lines, main_key, at + 1);
    } else {
        assert(lines.take(at) =~= lines);
    }
}

/// A list of bindings, or a failure, as plain values.
pub open spec fn keybinds_outcome(result: Result<Vec<Keybind>, CompositorError>) -> Result<
    Seq<Binding>,
    Failure,
> {
    match result {
        Ok(binds) => Ok(bindings(binds@)),
        Err(error) => Err(error@),
    }
}

/// The bindings on `lines`.
pub fn parse_keybind_lines(lines: &Vec<String>, main_key: MainKey) -> (result: Result<
    Vec<Keybind>,
    CompositorError,
>)
    ensures
        keybinds_outcome(result) == keybind_values(text::texts(lines@), main_key),
{
    let ghost all = text::texts(lines@);
    let mut binds: Vec<Keybind> = Vec::new();
    let mut index: usize = 0;
    assert(all.take(0) =~= seq![]);
    assert(bindings(binds@) =~= seq![]);
    while index < lines.len()
        invariant
            index <= lines.len(),
            all == text::texts(lines@),
            keybind_values(all.take(index as int), main_key) == Ok::<Seq<Binding>, Failure>(
                bindings(binds@),
            ),
        decreases lines.len() - index,
    {
        proof {
            let next = all.take(index + 1);
            assert(next.drop_last() =~= all.take(index as int));
            assert(next.last() == lines[index as int]@);
        }
        match parse_keybind_line(lines[index].as_str(), main_key) {
            Err(error) => {
                proof {
                    keybind_values_keeps_failure(all, main_key, index + 1);
                }
                return Err(error);
            },
            Ok(bind) => {
                let ghost before = bindings(binds@);
                binds.push(bind);
                assert(bindings(binds@) =~= before.push(bind@));
            },
        }
        index = index + 1;
    }
    assert(all.take(all.len() as int) =~= all);
    Ok(binds)
}

/// A binding of the main key, with shift or without.
pub open spec fn main_binding(main_key: MainKey, shift: bool, key: Seq<char>, action: Deed) -> Binding {
    Binding {
        modifiers: KeybindModifiers { shift, ..no_modifiers() }.with_main(main_key),
        key,
        action,
    }
}

/// The bindings of a configuration that has none of its own.
pub open spec fn default_bindings(main_key: MainKey) -> Seq<Binding> {
    seq![
        main_binding(main_key, false, "RETURN"@, Deed::Terminal),
        main_binding(main_key, false, "D"@, Deed::Launcher),
        main_binding(main_key, false, "Q"@, Deed::CloseFocused),
        main_binding(main_key, false, "V"@, Deed::ToggleFloating),
        main_binding(main_key, false, "J"@, Deed::FocusNext),
        main_binding(main_key, false, "K"@, Deed::FocusPrevious),
        main_binding(main_key, true, "R"@, Deed::ReloadConfig),
        main_binding(main_key, false, "ESCAPE"@, Deed::Quit),
    ]
}

fn main_keybind(main_key: MainKey, shift: bool, key: &str, action: KeybindAction) -> (bind: Keybind)
    ensures
        bind@ == main_binding(main_key, shift, key@, action@),
{
    let mut modifiers = KeybindModifiers::default();
    modifiers.shift = shift;
    modifiers.set_main_key(main_key);
    Keybind { modifiers, key: key.to_owned(), action }
}

/// The bindings of a configuration that has none of its own.
pub fn default_keybinds(main_key: MainKey) -> (binds: Vec<Keybind>)
    ensures
        bindings(binds@) == default_bindings(main_key),
{
    let mut binds: Vec<Keybind> = Vec::new();
    binds.push(main_keybind(main_key, false, "RETURN", KeybindAction::Terminal));
    binds.push(main_keybind(main_key, false, "D", KeybindAction::Launcher));
    binds.push(main_keybind(main_key, false, "Q", KeybindAction::CloseFocused));
    binds.push(main_keybind(main_key, false, "V", KeybindAction::ToggleFloating));
    binds.push(main_keybind(main_key, false, "J", KeybindAction::FocusNext));
    binds.push(main_keybind(main_key, false, "K", KeybindAction::FocusPrevious));
    binds.push(main_keybind(main_key, true, "R", KeybindAction::ReloadConfig));
    binds.push(main_keybind(main_key, false, "ESCAPE", KeybindAction::Quit));
    assert(bindings(binds@) =~= default_bindings(main_key));
    binds
}

} // verus!
