use collect_tui::input::{KeyCode, KeyPress, TextField, CONTROL};
use collect_tui::login::{InputField, LoginAction, LoginComponent};

fn press(code: KeyCode) -> KeyPress {
    KeyPress::plain(code)
}

fn type_text(form: &mut LoginComponent, text: &str) {
    for c in text.chars() {
        assert!(form.handle_event(press(KeyCode::Char(c))).is_none());
    }
}

#[test]
fn tab_cycles_fields() {
    let mut form = LoginComponent::new();
    assert_eq!(form.current_field(), InputField::Username);
    form.handle_event(press(KeyCode::Tab));
    assert_eq!(form.current_field(), InputField::Password);
    form.handle_event(press(KeyCode::Tab));
    assert_eq!(form.current_field(), InputField::Remember);
    form.handle_event(press(KeyCode::Tab));
    assert_eq!(form.current_field(), InputField::Username);
    form.handle_event(press(KeyCode::BackTab));
    assert_eq!(form.current_field(), InputField::Remember);
    form.handle_event(press(KeyCode::BackTab));
    assert_eq!(form.current_field(), InputField::Password);
}

#[test]
fn typing_edits_the_focused_field() {
    let mut form = LoginComponent::new();
    type_text(&mut form, "bob");
    assert_eq!(form.username(), "bob");
    assert_eq!(form.username_cursor(), 3);
    form.handle_event(press(KeyCode::Backspace));
    assert_eq!(form.username(), "bo");
    form.handle_event(press(KeyCode::Enter));
    assert_eq!(form.current_field(), InputField::Password);
    type_text(&mut form, "pw d");
    assert_eq!(form.password(), "pw d");
    assert_eq!(form.username(), "bo");
}

#[test]
fn text_field_editing_through_the_widget() {
    let mut f = TextField::new("abc".to_string());
    assert_eq!(f.cursor, 3);
    f.handle_key(KeyPress::plain(KeyCode::Left));
    assert_eq!(f.cursor, 2);
    f.handle_key(KeyPress::plain(KeyCode::Char('X')));
    assert_eq!(f.value(), "abXc");
    f.handle_key(KeyPress::plain(KeyCode::Home));
    assert_eq!(f.cursor, 0);
    f.handle_key(KeyPress::plain(KeyCode::Delete));
    assert_eq!(f.value(), "bXc");
    f.handle_key(KeyPress { code: KeyCode::Char('u'), modifiers: CONTROL });
    assert_eq!(f.value(), "");
    f.handle_key(KeyPress::plain(KeyCode::Up));
    assert_eq!(f.value(), "");
}

#[test]
fn space_toggles_remember_only_on_its_field() {
    let mut form = LoginComponent::new();
    form.handle_event(press(KeyCode::Char(' ')));
    assert_eq!(form.username(), " ");
    assert!(!form.remember());
    form.handle_event(press(KeyCode::BackTab));
    form.handle_event(press(KeyCode::Char(' ')));
    assert!(form.remember());
    form.handle_event(press(KeyCode::Char(' ')));
    assert!(!form.remember());
}

#[test]
fn submit_trims_the_user_name() {
    let mut form = LoginComponent::new();
    form.set_username("  alice ");
    form.set_password("secret");
    form.set_remember(true);
    assert_eq!(form.username_cursor(), 8);
    form.handle_event(press(KeyCode::Tab));
    match form.handle_event(press(KeyCode::Enter)) {
        Some(LoginAction::Submit(c, remember)) => {
            assert_eq!(c.username, "alice");
            assert_eq!(c.password, "secret");
            assert!(remember);
        }
        None => panic!("expected a submission"),
    }
}

#[test]
fn empty_fields_do_not_submit() {
    let mut form = LoginComponent::new();
    form.set_username("   ");
    form.set_password("x");
    form.handle_event(press(KeyCode::Tab));
    assert!(form.handle_event(press(KeyCode::Enter)).is_none());
    form.set_username("a");
    form.set_password("");
    assert!(form.handle_event(press(KeyCode::Enter)).is_none());
}

#[test]
fn password_is_masked_one_star_per_byte() {
    let mut form = LoginComponent::new();
    assert_eq!(form.password_mask(), "");
    form.set_password("pw");
    assert_eq!(form.password_mask(), "**");
    form.set_password("パス");
    assert_eq!(form.password_mask(), "******");
}

#[test]
fn back_tab_undoes_tab() {
    let mut form = LoginComponent::new();
    for field in [InputField::Username, InputField::Password, InputField::Remember] {
        assert_eq!(form.current_field(), field);
        assert!(form.handle_event(press(KeyCode::Tab)).is_none());
        assert!(form.handle_event(press(KeyCode::BackTab)).is_none());
        assert_eq!(form.current_field(), field);
        form.handle_event(press(KeyCode::Tab));
    }
}
