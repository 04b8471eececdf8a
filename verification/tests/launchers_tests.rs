use dock::dock::launchers::{names_ordered, Config, Launchable};

fn launcher(icon: &str, command: &str) -> Launchable {
    Launchable { icon: icon.to_string(), command: command.to_string() }
}

#[test]
fn launchers_are_kept_in_name_order() {
    let mut c = Config::new();
    c.insert("terminal".to_string(), launcher("term", "foot"));
    c.insert("browser".to_string(), launcher("firefox", "firefox"));
    c.insert("files".to_string(), launcher("nautilus", "nautilus"));
    let names: Vec<&str> = c.launchables().iter().map(|(n, _)| n.as_str()).collect();
    assert_eq!(names, vec!["browser", "files", "terminal"]);
}

#[test]
fn inserting_an_existing_name_replaces_it() {
    let mut c = Config::new();
    c.insert("b".to_string(), launcher("i1", "c1"));
    c.insert("a".to_string(), launcher("i0", "c0"));
    c.insert("b".to_string(), launcher("i2", "c2"));
    let l = c.launchables();
    assert_eq!(l.len(), 2);
    assert_eq!(l[1].0, "b");
    assert_eq!(l[1].1.icon, "i2");
    assert_eq!(l[1].1.command, "c2");
}

#[test]
fn name_order_is_code_point_order() {
    assert!(names_ordered("a", "b"));
    assert!(!names_ordered("b", "a"));
    assert!(names_ordered("ab", "abc"));
    assert!(!names_ordered("abc", "ab"));
    assert!(!names_ordered("same", "same"));
    assert!(names_ordered("", "x"));
    assert!(names_ordered("Zeta", "alpha"));
    assert!(names_ordered("z", "\u{e9}"));
}
