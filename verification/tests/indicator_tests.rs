use dock::dock::indicator::{IndicatorModel, Input, Output};

#[test]
fn indicator_hides_on_enter_and_shows_on_leave() {
    let mut m = IndicatorModel::init();
    assert!(m.visible());
    assert!(matches!(m.update(Input::Enter), Some(Output::Enter)));
    assert!(!m.visible());
    assert!(m.update(Input::Leave).is_none());
    assert!(m.visible());
}
