//! The decisions of the terminal interface: which tab is shown, which text
//! input has focus, which row is selected, and what each key press asks the
//! surrounding program to do. Drawing, reading keys, clipboard access and
//! the text inputs' contents live outside the library; they hand in the key
//! presses and outcomes and carry out the returned actions.
use vstd::prelude::*;

verus! {

/// Whether the interface waits for the master password or shows the store.
#[derive(Clone, Copy, Debug, PartialEq, Eq, Structural)]
pub enum CurrentState {
    InputMasterPassword,
    View,
}

/// The tabs, left to right.
#[derive(Clone, Copy, Debug, PartialEq, Eq, Structural)]
pub enum TabElement {
    Start,
    View,
    Add,
}

/// The text inputs.
#[derive(Clone, Copy, Debug, PartialEq, Eq, Structural)]
pub enum InputType {
    MasterPasswordInput,
    AddAppInput,
    AddUsernameInput,
    AddPasswordInput,
}

/// A key, as far as the interface tells keys apart.
#[derive(Clone, Copy, Debug, PartialEq, Eq, Structural)]
pub enum KeyCode {
    Char(char),
    Enter,
    Esc,
    Up,
    Down,
    Left,
    Right,
    Delete,
    F(u8),
    Other,
}

/// A key press with its modifiers.
#[derive(Clone, Copy, Debug, PartialEq, Eq, Structural)]
pub struct KeyPress {
    pub code: KeyCode,
    pub control: bool,
    pub shift: bool,
    /// Any modifier besides control and shift.
    pub other_modifiers: bool,
}

/// The state of one text input.
#[derive(Clone, Copy, Debug, PartialEq, Eq, Structural)]
pub struct InputFlags {
    pub active: bool,
    /// Whether Enter or Esc hands the focus back.
    pub disable_after_enter: bool,
}

/// A message that the interface shows in its popup.
#[derive(Clone, Copy, Debug, PartialEq, Eq, Structural)]
pub enum PopupMessage {
    /// Deleting needs Ctrl and Shift held.
    DeleteHint,
    /// The test popup (F8).
    Test,
    /// An app with that name exists already.
    AppExists,
    /// The store could not be opened.
    LoadFailed,
    /// Adding or deleting failed.
    OperationFailed,
}

/// Work that the surrounding program carries out.
#[derive(Clone, Copy, Debug, PartialEq, Eq, Structural)]
pub enum TuiAction {
    /// Hand the key press to this text input.
    ForwardToInput(InputType),
    /// Clear this text input.
    ResetInput(InputType),
    /// Open the store with the master password input's text, then report
    /// with `after_load`.
    LoadStore,
    /// Add the entry typed in the Add tab, then report with `after_add`.
    AddEntry,
    /// Copy the username of this row.
    CopyUsername(usize),
    /// Copy the password of this row.
    CopyPassword(usize),
    /// Delete the entry of this row; report a failure with
    /// `after_delete_failed`.
    DeleteEntry(usize),
    /// Show this message.
    Popup(PopupMessage),
}

/// The outcome of an `AddEntry` action.
#[derive(Clone, Copy, Debug, PartialEq, Eq, Structural)]
pub enum AddOutcome {
    Added,
    NameExists,
    Failed,
}

/// Everything the interface decides on.
#[derive(Clone, Copy, Debug, PartialEq, Eq, Structural)]
pub struct TuiState {
    pub exit: bool,
    pub current_state: CurrentState,
    pub submenu: TabElement,
    pub master_input: InputFlags,
    pub app_input: InputFlags,
    pub username_input: InputFlags,
    pub password_input: InputFlags,
    pub current_active_input: Option<InputType>,
    pub show_passwords: bool,
    pub selected: Option<usize>,
    pub show_popup: bool,
}

/// The tab right of `t`, or `t` at the right end.
pub open spec fn tab_next(t: TabElement) -> TabElement {
    match t {
        TabElement::Start => TabElement::View,
        _ => TabElement::Add,
    }
}

/// The tab left of `t`, or `t` at the left end.
pub open spec fn tab_prev(t: TabElement) -> TabElement {
    match t {
        TabElement::Add => TabElement::View,
        _ => TabElement::Start,
    }
}

impl TabElement {
    /// The tab to the right, staying at the last one.
    pub fn next(self) -> (r: TabElement)
        ensures
            r == tab_next(self),
    {
        match self {
            TabElement::Start => TabElement::View,
            _ => TabElement::Add,
        }
    }

    /// The tab to the left, staying at the first one.
    pub fn prev(self) -> (r: TabElement)
        ensures
            r == tab_prev(self),
    {
        match self {
            TabElement::Add => TabElement::View,
            _ => TabElement::Start,
        }
    }
}

/// The flags of input `t`.
pub open spec fn flags_of(s: TuiState, t: InputType) -> InputFlags {
    match t {
        InputType::MasterPasswordInput => s.master_input,
        InputType::AddAppInput => s.app_input,
        InputType::AddUsernameInput => s.username_input,
        InputType::AddPasswordInput => s.password_input,
    }
}

/// `s` with the flags of input `t` replaced by `f`.
pub open spec fn with_flags(s: TuiState, t: InputType, f: InputFlags) -> TuiState {
    match t {
        InputType::MasterPasswordInput => TuiState { master_input: f, ..s },
        InputType::AddAppInput => TuiState { app_input: f, ..s },
        InputType::AddUsernameInput => TuiState { username_input: f, ..s },
        InputType::AddPasswordInput => TuiState { password_input: f, ..s },
    }
}

/// `s` with input `t` active and focused.
pub open spec fn activated(s: TuiState, t: InputType) -> TuiState {
    let f = flags_of(s, t);
    TuiState {
        current_active_input: Some(t),
        ..with_flags(s, t, InputFlags { active: true, ..f })
    }
}

/// `s` with the focused input, if any, inactive and unfocused; `reset`
/// also clears its text.
pub open spec fn deactivated(s: TuiState, reset: bool) -> (TuiState, Seq<TuiAction>) {
    match s.current_active_input {
        Some(t) => {
            let f = flags_of(s, t);
            (
                TuiState { current_active_input: None, ..with_flags(s, t, InputFlags { active: false, ..f }) },
                if reset {
                    seq![TuiAction::ResetInput(t)]
                } else {
                    Seq::empty()
                },
            )
        },
        None => (s, Seq::empty()),
    }
}

/// The interface when it starts: waiting for the master password, with
/// that input focused and kept focused after Enter.
pub open spec fn initial_tui() -> TuiState {
    let idle = InputFlags { active: false, disable_after_enter: true };
    TuiState {
        exit: false,
        current_state: CurrentState::InputMasterPassword,
        submenu: TabElement::Start,
        master_input: InputFlags { active: true, disable_after_enter: false },
        app_input: idle,
        username_input: idle,
        password_input: idle,
        current_active_input: Some(InputType::MasterPasswordInput),
        show_passwords: false,
        selected: Some(0),
        show_popup: false,
    }
}

/// Keys that still reach the commands while a text input has focus.
pub open spec fn passes_input(c: KeyCode) -> bool {
    c == KeyCode::Enter || c == KeyCode::Up || c == KeyCode::Down || c == KeyCode::F(1)
}

/// Control and nothing else.
pub open spec fn only_control(k: KeyPress) -> bool {
    k.control && !k.shift && !k.other_modifiers
}

/// The focused input one step up in the Add tab, wrapping around.
pub open spec fn add_input_above(t: Option<InputType>) -> InputType {
    match t {
        Some(InputType::AddUsernameInput) => InputType::AddAppInput,
        Some(InputType::AddPasswordInput) => InputType::AddUsernameInput,
        _ => InputType::AddPasswordInput,
    }
}

/// The focused input one step down in the Add tab, wrapping around.
pub open spec fn add_input_below(t: Option<InputType>) -> InputType {
    match t {
        Some(InputType::AddAppInput) => InputType::AddUsernameInput,
        Some(InputType::AddUsernameInput) => InputType::AddPasswordInput,
        _ => InputType::AddAppInput,
    }
}

/// The selected row after Up, among `total` rows, wrapping around.
pub open spec fn row_above(selected: Option<usize>, total: usize) -> Option<usize> {
    if total == 0 {
        selected
    } else {
        match selected {
            Some(i) => if i == 0 || i > total {
                Some((total - 1) as usize)
            } else {
                Some((i - 1) as usize)
            },
            None => Some((total - 1) as usize),
        }
    }
}

/// The selected row after Down, among `total` rows, wrapping around.
pub open spec fn row_below(selected: Option<usize>, total: usize) -> Option<usize> {
    if total == 0 {
        selected
    } else {
        match selected {
            Some(i) => if i >= total - 1 {
                Some(0)
            } else {
                Some((i + 1) as usize)
            },
            None => Some(0),
        }
    }
}

/// What the commands do with key `k` when `total` entries are listed.
pub open spec fn command_step(s: TuiState, k: KeyPress, total: usize) -> (TuiState, Seq<TuiAction>) {
    match k.code {
        KeyCode::Enter => if s.current_state == CurrentState::InputMasterPassword {
            (s, seq![TuiAction::LoadStore])
        } else if s.submenu == TabElement::Add {
            (s, seq![TuiAction::AddEntry])
        } else {
            (s, Seq::empty())
        },
        KeyCode::F(1) => (TuiState { show_passwords: !s.show_passwords, ..s }, Seq::empty()),
        KeyCode::F(2) => if s.submenu == TabElement::View && s.selected is Some {
            (s, seq![TuiAction::CopyUsername(s.selected->Some_0)])
        } else {
            (s, Seq::empty())
        },
        KeyCode::F(3) => if s.submenu == TabElement::View && s.selected is Some {
            (s, seq![TuiAction::CopyPassword(s.selected->Some_0)])
        } else {
            (s, Seq::empty())
        },
        KeyCode::F(8) => (TuiState { show_popup: true, ..s }, seq![TuiAction::Popup(PopupMessage::Test)]),
        KeyCode::Esc => (TuiState { exit: true, ..s }, Seq::empty()),
        KeyCode::Left => (TuiState { submenu: tab_prev(s.submenu), ..s }, Seq::empty()),
        KeyCode::Right => (TuiState { submenu: tab_next(s.submenu), ..s }, Seq::empty()),
        KeyCode::Up => match s.submenu {
            TabElement::View => (TuiState { selected: row_above(s.selected, total), ..s }, Seq::empty()),
            TabElement::Add => {
                let d = deactivated(s, false);
                (activated(d.0, add_input_above(s.current_active_input)), d.1)
            },
            TabElement::Start => (s, Seq::empty()),
        },
        KeyCode::Down => match s.submenu {
            TabElement::View => (TuiState { selected: row_below(s.selected, total), ..s }, Seq::empty()),
            TabElement::Add => {
                let d = deactivated(s, false);
                (activated(d.0, add_input_below(s.current_active_input)), d.1)
            },
            TabElement::Start => (s, Seq::empty()),
        },
        KeyCode::Delete => if s.submenu != TabElement::View {
            (s, Seq::empty())
        } else if !(k.control && k.shift) {
            (TuiState { show_popup: true, ..s }, seq![TuiAction::Popup(PopupMessage::DeleteHint)])
        } else {
            match s.selected {
                None => (s, Seq::empty()),
                Some(i) => (
                    TuiState {
                        selected: if total <= 1 {
                            None
                        } else if i == 0 {
                            Some(0)
                        } else {
                            Some((i - 1) as usize)
                        },
                        ..s
                    },
                    seq![TuiAction::DeleteEntry(i)],
                ),
            }
        },
        _ => (s, Seq::empty()),
    }
}

/// What key `k` does when `total` entries are listed: Esc closes an open
/// popup; a focused input takes the key first (Ctrl-C exits; Enter or Esc
/// hands the focus back where the input allows it), and only Enter, Up,
/// Down and F1 then reach the commands.
pub open spec fn key_step(s: TuiState, k: KeyPress, total: usize) -> (TuiState, Seq<TuiAction>) {
    if k.code == KeyCode::Esc && s.show_popup {
        (TuiState { show_popup: false, ..s }, Seq::empty())
    } else {
        match s.current_active_input {
            Some(t) => if only_control(k) && k.code == KeyCode::Char('c') {
                (TuiState { exit: true, ..s }, Seq::empty())
            } else {
                let s1 = if (k.code == KeyCode::Esc || k.code == KeyCode::Enter)
                    && flags_of(s, t).disable_after_enter {
                    deactivated(s, false).0
                } else {
                    s
                };
                if !passes_input(k.code) {
                    (s1, seq![TuiAction::ForwardToInput(t)])
                } else {
                    let c = command_step(s1, k, total);
                    (c.0, seq![TuiAction::ForwardToInput(t)] + c.1)
                }
            },
            None => command_step(s, k, total),
        }
    }
}

/// The interface after the store opened (`ok`) or failed to.
pub open spec fn load_step(s: TuiState, ok: bool) -> (TuiState, Seq<TuiAction>) {
    if ok {
        let d = deactivated(TuiState { current_state: CurrentState::View, show_passwords: false, ..s }, true);
        d
    } else {
        (TuiState { show_popup: true, ..s }, seq![TuiAction::Popup(PopupMessage::LoadFailed)])
    }
}

/// The interface after an `AddEntry` action had outcome `o`.
pub open spec fn add_step(s: TuiState, o: AddOutcome) -> (TuiState, Seq<TuiAction>) {
    match o {
        AddOutcome::Added => (
            TuiState { submenu: TabElement::View, ..s },
            seq![
                TuiAction::ResetInput(InputType::AddAppInput),
                TuiAction::ResetInput(InputType::AddUsernameInput),
                TuiAction::ResetInput(InputType::AddPasswordInput),
            ],
        ),
        AddOutcome::NameExists => (TuiState { show_popup: true, ..s }, seq![TuiAction::Popup(PopupMessage::AppExists)]),
        AddOutcome::Failed => (TuiState { show_popup: true, ..s }, seq![TuiAction::Popup(PopupMessage::OperationFailed)]),
    }
}

impl TuiState {
    /// The interface when it starts (see `initial_tui`).
    pub fn new() -> (r: TuiState)
        ensures
            r == initial_tui(),
    {
        let idle = InputFlags { active: false, disable_after_enter: true };
        TuiState {
            exit: false,
            current_state: CurrentState::InputMasterPassword,
            submenu: TabElement::Start,
            master_input: InputFlags { active: true, disable_after_enter: false },
            app_input: idle,
            username_input: idle,
            password_input: idle,
            current_active_input: Some(InputType::MasterPasswordInput),
            show_passwords: false,
            selected: Some(0),
            show_popup: false,
        }
    }

    /// The flags of input `t`.
    pub fn flags(&self, t: InputType) -> (r: InputFlags)
        ensures
            r == flags_of(*self, t),
    {
        match t {
            InputType::MasterPasswordInput => self.master_input,
            InputType::AddAppInput => self.app_input,
            InputType::AddUsernameInput => self.username_input,
            InputType::AddPasswordInput => self.password_input,
        }
    }

    fn set_flags(&mut self, t: InputType, f: InputFlags)
        ensures
            *final(self) == with_flags(*old(self), t, f),
    {
        match t {
            InputType::MasterPasswordInput => self.master_input = f,
            InputType::AddAppInput => self.app_input = f,
            InputType::AddUsernameInput => self.username_input = f,
            InputType::AddPasswordInput => self.password_input = f,
        }
    }

    /// Makes input `t` active and focused.
    pub fn set_input_activate(&mut self, t: InputType)
        ensures
            *final(self) == activated(*old(self), t),
    {
        let f = self.flags(t);
        self.set_flags(t, InputFlags { active: true, ..f });
        self.current_active_input = Some(t);
    }

    /// Unfocuses the focused input, if any; `reset` also asks to clear it.
    pub fn deactivate_input(&mut self, reset: bool) -> (r: Vec<TuiAction>)
        ensures
            (*final(self), r@) == deactivated(*old(self), reset),
    {
        let mut out: Vec<TuiAction> = Vec::new();
        match self.current_active_input {
            Some(t) => {
                let f = self.flags(t);
                self.set_flags(t, InputFlags { active: false, ..f });
                self.current_active_input = None;
                if reset {
                    out.push(TuiAction::ResetInput(t));
                }
                assert(out@ =~= deactivated(*old(self), reset).1);
            },
            None => {
                assert(out@ =~= Seq::<TuiAction>::empty());
            },
        }
        out
    }

    fn command(&mut self, k: KeyPress, total: usize) -> (r: Vec<TuiAction>)
        ensures
            (*final(self), r@) == command_step(*old(self), k, total),
    {
        let mut out: Vec<TuiAction> = Vec::new();
        match k.code {
            KeyCode::Enter => {
                if self.current_state == CurrentState::InputMasterPassword {
                    out.push(TuiAction::LoadStore);
                } else if self.submenu == TabElement::Add {
                    out.push(TuiAction::AddEntry);
                }
            },
            KeyCode::F(1) => {
                self.show_passwords = !self.show_passwords;
            },
            KeyCode::F(2) => {
                if self.submenu == TabElement::View {
                    if let Some(i) = self.selected {
                        out.push(TuiAction::CopyUsername(i));
                    }
                }
            },
            KeyCode::F(3) => {
                if self.submenu == TabElement::View {
                    if let Some(i) = self.selected {
                        out.push(TuiAction::CopyPassword(i));
                    }
                }
            },
            KeyCode::F(8) => {
                self.show_popup = true;
                out.push(TuiAction::Popup(PopupMessage::Test));
            },
            KeyCode::Esc => {
                self.exit = true;
            },
            KeyCode::Left => {
                self.submenu = self.submenu.prev();
            },
            KeyCode::Right => {
                self.submenu = self.submenu.next();
            },
            KeyCode::Up => match self.submenu {
                TabElement::View => {
                    if total > 0 {
                        self.selected = match self.selected {
                            Some(i) => if i == 0 || i > total {
                                Some(total - 1)
                            } else {
                                Some(i - 1)
                            },
                            None => Some(total - 1),
                        };
                    }
                },
                TabElement::Add => {
                    let above = match self.current_active_input {
                        Some(InputType::AddUsernameInput) => InputType::AddAppInput,
                        Some(InputType::AddPasswordInput) => InputType::AddUsernameInput,
                        _ => InputType::AddPasswordInput,
                    };
                    out = self.deactivate_input(false);
                    self.set_input_activate(above);
                },
                TabElement::Start => {},
            },
            KeyCode::Down => match self.submenu {
                TabElement::View => {
                    if total > 0 {
                        self.selected = match self.selected {
                            Some(i) => if i >= total - 1 {
                                Some(0)
                            } else {
                                Some(i + 1)
                            },
                            None => Some(0),
                        };
                    }
                },
                TabElement::Add => {
                    let below = match self.current_active_input {
                        Some(InputType::AddAppInput) => InputType::AddUsernameInput,
                        Some(InputType::AddUsernameInput) => InputType::AddPasswordInput,
                        _ => InputType::AddAppInput,
                    };
                    out = self.deactivate_input(false);
                    self.set_input_activate(below);
                },
                TabElement::Start => {},
            },
            KeyCode::Delete => {
                if self.submenu == TabElement::View {
                    if !(k.control && k.shift) {
                        self.show_popup = true;
                        out.push(TuiAction::Popup(PopupMessage::DeleteHint));
                    } else if let Some(i) = self.selected {
                        self.selected = if total <= 1 {
                            None
                        } else if i == 0 {
                            Some(0)
                        } else {
                            Some(i - 1)
                        };
                        out.push(TuiAction::DeleteEntry(i));
                    }
                }
            },
            _ => {},
        }
        assert(out@ =~= command_step(*old(self), k, total).1);
        out
    }

    /// Applies key `k` with `total` entries listed (see `key_step`), and
    /// returns the actions to carry out, in order.
    pub fn handle_key_event(&mut self, k: KeyPress, total: usize) -> (r: Vec<TuiAction>)
        ensures
            (*final(self), r@) == key_step(*old(self), k, total),
    {
        if k.code == KeyCode::Esc && self.show_popup {
            self.show_popup = false;
            return Vec::new();
        }
        match self.current_active_input {
            Some(t) => {
                if k.control && !k.shift && !k.other_modifiers && k.code == KeyCode::Char('c') {
                    self.exit = true;
                    return Vec::new();
                }
                let mut out: Vec<TuiAction> = Vec::new();
                out.push(TuiAction::ForwardToInput(t));
                if (k.code == KeyCode::Esc || k.code == KeyCode::Enter) && self.flags(t).disable_after_enter {
                    let _none = self.deactivate_input(false);
                }
                if k.code != KeyCode::Enter && k.code != KeyCode::Up && k.code != KeyCode::Down
                    && k.code != KeyCode::F(1) {
                    return out;
                }
                let mut rest = self.command(k, total);
                out.append(&mut rest);
                out
            },
            None => self.command(k, total),
        }
    }

    /// Applies the outcome of a `LoadStore` action (see `load_step`).
    pub fn after_load(&mut self, ok: bool) -> (r: Vec<TuiAction>)
        ensures
            (*final(self), r@) == load_step(*old(self), ok),
    {
        if ok {
            self.current_state = CurrentState::View;
            self.show_passwords = false;
            self.deactivate_input(true)
        } else {
            self.show_popup = true;
            let mut out: Vec<TuiAction> = Vec::new();
            out.push(TuiAction::Popup(PopupMessage::LoadFailed));
            assert(out@ =~= load_step(*old(self), ok).1);
            out
        }
    }

    /// Applies the outcome of an `AddEntry` action (see `add_step`).
    pub fn after_add(&mut self, o: AddOutcome) -> (r: Vec<TuiAction>)
        ensures
            (*final(self), r@) == add_step(*old(self), o),
    {
        let mut out: Vec<TuiAction> = Vec::new();
        match o {
            AddOutcome::Added => {
                out.push(TuiAction::ResetInput(InputType::AddAppInput));
                out.push(TuiAction::ResetInput(InputType::AddUsernameInput));
                out.push(TuiAction::ResetInput(InputType::AddPasswordInput));
                self.submenu = TabElement::View;
            },
            AddOutcome::NameExists => {
                self.show_popup = true;
                out.push(TuiAction::Popup(PopupMessage::AppExists));
            },
            AddOutcome::Failed => {
                self.show_popup = true;
                out.push(TuiAction::Popup(PopupMessage::OperationFailed));
            },
        }
        assert(out@ =~= add_step(*old(self), o).1);
        out
    }

    /// Shows the popup after a `DeleteEntry` action failed.
    pub fn after_delete_failed(&mut self) -> (r: TuiAction)
        ensures
            *final(self) == (TuiState { show_popup: true, ..*old(self) }),
            r == TuiAction::Popup(PopupMessage::OperationFailed),
    {
        self.show_popup = true;
        TuiAction::Popup(PopupMessage::OperationFailed)
    }
}

} // verus!
