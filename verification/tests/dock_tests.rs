use dock::dock::icon_button::{Action, IconButtonModel, Input as ButtonInput, Output as ButtonOutput};
use dock::dock::indicator::Output as IndicatorOutput;
use dock::dock::launchers::{Config, Launchable};
use dock::dock::{AppOp, DockModel, Event, Input, Output, Window};

fn win(id: u64, app_id: Option<&str>, title: Option<&str>, focused: bool) -> Window {
    Window {
        id,
        title: title.map(|s| s.to_string()),
        app_id: app_id.map(|s| s.to_string()),
        is_focused: focused,
    }
}

fn icons(id: &str) -> Option<String> {
    Some(format!("icon:{id}"))
}

/// A copy of the widget row kept up to date only through the reported changes.
#[derive(Clone, Debug, PartialEq)]
struct Mirror {
    icon: String,
    window: Option<u64>,
    focused: bool,
    title: String,
}

fn mirror_of(b: &IconButtonModel) -> Mirror {
    Mirror { icon: b.icon_name().clone(), window: b.window_id(), focused: b.focused(), title: b.title().clone() }
}

fn replay(row: &mut Vec<Mirror>, ops: Vec<AppOp>) {
    for op in ops {
        match op {
            AppOp::Clear => row.clear(),
            AppOp::PushBack(b) => row.push(mirror_of(&b)),
            AppOp::Remove(i) => {
                row.remove(i);
            },
            AppOp::Send(i, msg) => match msg {
                ButtonInput::SetFocused(f) => row[i].focused = f,
                ButtonInput::SetTitle(t) => row[i].title = t,
                ButtonInput::SetIcon(ic) => row[i].icon = ic,
                ButtonInput::Update { icon_name, title } => {
                    row[i].icon = icon_name;
                    row[i].title = title;
                },
                ButtonInput::Clicked => {},
            },
        }
    }
}

fn rows(d: &DockModel) -> Vec<Mirror> {
    d.apps().iter().map(mirror_of).collect()
}

fn send(d: &mut DockModel, row: &mut Vec<Mirror>, ev: Event) {
    let eff = d.update(Input::NiriEvent(ev), &icons);
    assert!(eff.output.is_none());
    assert!(!eff.leave_indicator);
    replay(row, eff.app_ops);
    assert_eq!(*row, rows(d));
    assert_eq!(d.apps_count(), d.apps().len());
}

fn fresh() -> (DockModel, Vec<Mirror>) {
    (DockModel::new(Vec::new()), Vec::new())
}

#[test]
fn windows_changed_rebuilds_buttons_without_own_windows() {
    let (mut d, mut row) = fresh();
    send(
        &mut d,
        &mut row,
        Event::WindowsChanged {
            windows: vec![
                win(1, Some("firefox"), Some("Web"), false),
                win(2, Some("org.niri.dock"), Some("dock"), false),
                win(3, Some("foot"), None, true),
                win(4, None, None, false),
            ],
        },
    );
    let r = rows(&d);
    assert_eq!(r.len(), 3);
    assert_eq!(r[0], Mirror { icon: "icon:firefox.desktop".into(), window: Some(1), focused: false, title: "Web".into() });
    assert_eq!(r[1], Mirror { icon: "icon:foot.desktop".into(), window: Some(3), focused: true, title: "foot".into() });
    assert_eq!(
        r[2],
        Mirror { icon: "application-x-executable-symbolic".into(), window: Some(4), focused: false, title: "".into() }
    );
    assert_eq!(d.focused_window(), Some(3));
    assert_eq!(d.apps_count(), 3);
}

#[test]
fn focus_is_the_first_focused_window() {
    let (mut d, mut row) = fresh();
    send(
        &mut d,
        &mut row,
        Event::WindowsChanged { windows: vec![win(5, Some("a"), None, false), win(6, Some("b"), None, false)] },
    );
    assert_eq!(d.focused_window(), None);
}

#[test]
fn opened_window_is_appended_and_changed_window_updated_in_place() {
    let (mut d, mut row) = fresh();
    send(&mut d, &mut row, Event::WindowsChanged { windows: vec![win(1, Some("a"), Some("A"), true)] });
    send(&mut d, &mut row, Event::WindowOpenedOrChanged { window: win(2, Some("b"), Some("B"), false) });
    assert_eq!(rows(&d).len(), 2);
    send(&mut d, &mut row, Event::WindowOpenedOrChanged { window: win(1, Some("c"), Some("C2"), false) });
    let r = rows(&d);
    assert_eq!(r.len(), 2);
    assert_eq!(r[0], Mirror { icon: "icon:c.desktop".into(), window: Some(1), focused: true, title: "C2".into() });
    assert_eq!(d.focused_window(), Some(1));
}

#[test]
fn own_window_events_are_ignored() {
    let (mut d, mut row) = fresh();
    let eff = d.update(
        Input::NiriEvent(Event::WindowOpenedOrChanged { window: win(9, Some("org.niri.dock"), None, false) }),
        &icons,
    );
    assert!(eff.app_ops.is_empty());
    replay(&mut row, eff.app_ops);
    assert!(d.apps().is_empty());
}

#[test]
fn closing_removes_the_button_and_clears_focus() {
    let (mut d, mut row) = fresh();
    send(
        &mut d,
        &mut row,
        Event::WindowsChanged { windows: vec![win(1, Some("a"), None, false), win(2, Some("b"), None, true)] },
    );
    send(&mut d, &mut row, Event::WindowClosed { id: 2 });
    assert_eq!(rows(&d).len(), 1);
    assert_eq!(d.focused_window(), None);
    send(&mut d, &mut row, Event::WindowClosed { id: 42 });
    assert_eq!(rows(&d).len(), 1);
}

#[test]
fn focus_change_moves_the_highlight() {
    let (mut d, mut row) = fresh();
    send(
        &mut d,
        &mut row,
        Event::WindowsChanged {
            windows: vec![win(1, Some("a"), None, true), win(2, Some("b"), None, false), win(3, Some("c"), None, false)],
        },
    );
    send(&mut d, &mut row, Event::WindowFocusChanged { id: Some(3) });
    let focused: Vec<bool> = rows(&d).iter().map(|m| m.focused).collect();
    assert_eq!(focused, vec![false, false, true]);
    assert_eq!(d.focused_window(), Some(3));
    let eff = d.update(Input::NiriEvent(Event::WindowFocusChanged { id: Some(3) }), &icons);
    assert!(eff.app_ops.is_empty());
    send(&mut d, &mut row, Event::WindowFocusChanged { id: None });
    assert!(rows(&d).iter().all(|m| !m.focused));
}

#[test]
fn enter_and_leave_toggle_visibility() {
    let (mut d, _) = fresh();
    assert!(!d.visible());
    let eff = d.update(Input::Enter, &icons);
    assert!(d.visible() && !eff.leave_indicator && eff.output.is_none());
    let eff = d.update(Input::Leave, &icons);
    assert!(!d.visible() && eff.leave_indicator);
}

#[test]
fn focus_and_launch_requests_are_forwarded() {
    let (mut d, _) = fresh();
    assert!(matches!(d.update(Input::Focus(4), &icons).output, Some(Output::Focus(4))));
    match d.update(Input::Launch("foot".into()), &icons).output {
        Some(Output::Launch(c)) => assert_eq!(c, "foot"),
        _ => panic!("expected launch"),
    }
}

#[test]
fn launchers_come_from_the_config_in_name_order() {
    let mut c = Config::new();
    c.insert("term".into(), Launchable { icon: "utilities-terminal".into(), command: "foot".into() });
    c.insert("browser".into(), Launchable { icon: "firefox".into(), command: "firefox".into() });
    let d = DockModel::init(&c);
    let l = d.launchables();
    assert_eq!(l.len(), 2);
    assert_eq!(l[0].title(), "browser");
    assert_eq!(l[0].icon_name(), "firefox");
    assert!(matches!(l[0].action(), Action::Launch(cmd) if cmd == "firefox"));
    assert!(!l[0].focused());
    assert_eq!(l[1].title(), "term");
    assert!(d.apps().is_empty());
    assert!(!d.visible());
}

#[test]
fn windows_changed_resets_the_icon_cache() {
    let (mut d, mut row) = fresh();
    send(&mut d, &mut row, Event::WindowsChanged { windows: vec![win(1, Some("a"), None, false)] });
    let eff = d.update(
        Input::NiriEvent(Event::WindowsChanged { windows: vec![win(1, Some("a"), None, false)] }),
        &|_: &str| Some("fresh".to_string()),
    );
    replay(&mut row, eff.app_ops);
    assert_eq!(rows(&d)[0].icon, "fresh");
}

#[test]
fn input_forwarding_from_buttons_and_indicator() {
    assert!(matches!(Input::from_button(ButtonOutput::Focus(3)), Input::Focus(3)));
    assert!(matches!(Input::from_button(ButtonOutput::Launch("x".into())), Input::Launch(s) if s == "x"));
    assert!(matches!(Input::from_indicator(IndicatorOutput::Enter), Input::Enter));
}

#[test]
fn window_helpers_read_ids_and_titles() {
    let own = win(1, Some("org.niri.dock"), None, false);
    let other = win(2, Some("foot"), None, false);
    let titled = win(3, Some("foot"), Some("shell"), false);
    let bare = win(4, None, None, false);
    assert!(dock::dock::is_own_window(&own));
    assert!(!dock::dock::is_own_window(&other));
    assert!(!dock::dock::is_own_window(&bare));
    assert_eq!(dock::dock::window_app_id(&bare), "");
    assert_eq!(dock::dock::window_title(&other), "foot");
    assert_eq!(dock::dock::window_title(&titled), "shell");
    assert_eq!(dock::dock::window_title(&bare), "");
}
