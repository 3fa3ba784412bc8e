use rooster::tui::{
    AddOutcome, CurrentState, InputType, KeyCode, KeyPress, PopupMessage, TabElement, TuiAction,
    TuiState,
};

fn key(code: KeyCode) -> KeyPress {
    KeyPress { code, control: false, shift: false, other_modifiers: false }
}

fn unlocked() -> TuiState {
    let mut s = TuiState::new();
    let actions = s.handle_key_event(key(KeyCode::Enter), 0);
    assert_eq!(
        actions,
        vec![TuiAction::ForwardToInput(InputType::MasterPasswordInput), TuiAction::LoadStore]
    );
    let after = s.after_load(true);
    assert_eq!(after, vec![TuiAction::ResetInput(InputType::MasterPasswordInput)]);
    s
}

#[test]
fn tabs_move_and_stop_at_ends() {
    assert_eq!(TabElement::Start.next(), TabElement::View);
    assert_eq!(TabElement::View.next(), TabElement::Add);
    assert_eq!(TabElement::Add.next(), TabElement::Add);
    assert_eq!(TabElement::Add.prev(), TabElement::View);
    assert_eq!(TabElement::Start.prev(), TabElement::Start);
}

#[test]
fn typing_goes_to_master_password_input() {
    let mut s = TuiState::new();
    let actions = s.handle_key_event(key(KeyCode::Char('x')), 0);
    assert_eq!(actions, vec![TuiAction::ForwardToInput(InputType::MasterPasswordInput)]);
    assert_eq!(s, TuiState::new());
}

#[test]
fn load_success_and_failure() {
    let s = unlocked();
    assert_eq!(s.current_state, CurrentState::View);
    assert_eq!(s.current_active_input, None);
    assert!(!s.master_input.active);
    let mut f = TuiState::new();
    assert_eq!(f.after_load(false), vec![TuiAction::Popup(PopupMessage::LoadFailed)]);
    assert!(f.show_popup);
    assert_eq!(f.handle_key_event(key(KeyCode::Esc), 0), vec![]);
    assert!(!f.show_popup);
    assert!(!f.exit);
}

#[test]
fn rows_wrap_around() {
    let mut s = unlocked();
    s.handle_key_event(key(KeyCode::Right), 3);
    assert_eq!(s.submenu, TabElement::View);
    assert_eq!(s.selected, Some(0));
    s.handle_key_event(key(KeyCode::Up), 3);
    assert_eq!(s.selected, Some(2));
    s.handle_key_event(key(KeyCode::Down), 3);
    assert_eq!(s.selected, Some(0));
    s.handle_key_event(key(KeyCode::Down), 3);
    assert_eq!(s.selected, Some(1));
    assert_eq!(s.handle_key_event(key(KeyCode::F(2)), 3), vec![TuiAction::CopyUsername(1)]);
    assert_eq!(s.handle_key_event(key(KeyCode::F(3)), 3), vec![TuiAction::CopyPassword(1)]);
}

#[test]
fn delete_needs_control_and_shift() {
    let mut s = unlocked();
    s.handle_key_event(key(KeyCode::Right), 2);
    s.handle_key_event(key(KeyCode::Down), 2);
    assert_eq!(
        s.handle_key_event(key(KeyCode::Delete), 2),
        vec![TuiAction::Popup(PopupMessage::DeleteHint)]
    );
    s.handle_key_event(key(KeyCode::Esc), 2);
    let press = KeyPress { code: KeyCode::Delete, control: true, shift: true, other_modifiers: false };
    assert_eq!(s.handle_key_event(press, 2), vec![TuiAction::DeleteEntry(1)]);
    assert_eq!(s.selected, Some(0));
    assert_eq!(s.handle_key_event(press, 1), vec![TuiAction::DeleteEntry(0)]);
    assert_eq!(s.selected, None);
}

#[test]
fn add_tab_cycles_focus_and_adds() {
    let mut s = unlocked();
    s.handle_key_event(key(KeyCode::Right), 0);
    s.handle_key_event(key(KeyCode::Right), 0);
    assert_eq!(s.submenu, TabElement::Add);
    s.handle_key_event(key(KeyCode::Down), 0);
    assert_eq!(s.current_active_input, Some(InputType::AddAppInput));
    s.handle_key_event(key(KeyCode::Up), 0);
    assert_eq!(s.current_active_input, Some(InputType::AddPasswordInput));
    assert!(!s.app_input.active);
    assert!(s.password_input.active);
    let actions = s.handle_key_event(key(KeyCode::Enter), 0);
    assert_eq!(
        actions,
        vec![TuiAction::ForwardToInput(InputType::AddPasswordInput), TuiAction::AddEntry]
    );
    assert_eq!(s.current_active_input, None);
    assert_eq!(
        s.after_add(AddOutcome::Added),
        vec![
            TuiAction::ResetInput(InputType::AddAppInput),
            TuiAction::ResetInput(InputType::AddUsernameInput),
            TuiAction::ResetInput(InputType::AddPasswordInput),
        ]
    );
    assert_eq!(s.submenu, TabElement::View);
    assert_eq!(s.after_add(AddOutcome::NameExists), vec![TuiAction::Popup(PopupMessage::AppExists)]);
}

#[test]
fn exit_keys() {
    let mut s = TuiState::new();
    let ctrl_c = KeyPress { code: KeyCode::Char('c'), control: true, shift: false, other_modifiers: false };
    assert_eq!(s.handle_key_event(ctrl_c, 0), vec![]);
    assert!(s.exit);
    let mut t = unlocked();
    t.handle_key_event(key(KeyCode::Esc), 0);
    assert!(t.exit);
}
