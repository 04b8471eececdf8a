use dock::dock::icon_button::{Action, IconButtonModel, Input, Output};

#[test]
fn clicking_a_window_button_asks_for_focus() {
    let mut b = IconButtonModel::init_model("firefox".to_string(), Action::Focus(7), false, "Mozilla".to_string());
    match b.update(Input::Clicked) {
        Some(Output::Focus(id)) => assert_eq!(id, 7),
        _ => panic!("expected a focus request"),
    }
    assert_eq!(b.window_id(), Some(7));
}

#[test]
fn clicking_a_launcher_asks_to_launch_its_command() {
    let mut b = IconButtonModel::init_model("term".to_string(), Action::Launch("foot".to_string()), false, "Terminal".to_string());
    match b.update(Input::Clicked) {
        Some(Output::Launch(cmd)) => assert_eq!(cmd, "foot"),
        _ => panic!("expected a launch request"),
    }
    assert_eq!(b.window_id(), None);
}

#[test]
fn state_messages_change_the_button_and_report_nothing() {
    let mut b = IconButtonModel::init_model("a".to_string(), Action::Focus(1), false, "t".to_string());
    assert!(b.update(Input::SetFocused(true)).is_none());
    assert!(b.focused());
    assert!(b.update(Input::SetTitle("new title".to_string())).is_none());
    assert_eq!(b.title(), "new title");
    assert!(b.update(Input::SetIcon("icon2".to_string())).is_none());
    assert_eq!(b.icon_name(), "icon2");
    assert!(b
        .update(Input::Update { icon_name: "icon3".to_string(), title: "t3".to_string() })
        .is_none());
    assert_eq!(b.icon_name(), "icon3");
    assert_eq!(b.title(), "t3");
    assert!(b.focused());
}
