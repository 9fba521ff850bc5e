use mongoscope::connections::{ConnectionColor, ConnectionDialogState, ConnectionsMsg, DialogStep};

#[test]
fn new_dialog_starts_step1_idle() {
    let d = ConnectionDialogState::new();
    assert_eq!(d.step, DialogStep::Step1 { connecting: false });
}

#[test]
fn new_dialog_has_default_uri() {
    let d = ConnectionDialogState::new();
    assert_eq!(d.uri, "mongodb://localhost:27017/");
}

#[test]
fn new_dialog_error_is_none() {
    let d = ConnectionDialogState::new();
    assert!(d.error.is_none());
}

#[test]
fn new_dialog_proxy_port_zero() {
    let d = ConnectionDialogState::new();
    assert_eq!(d.proxy_port, 0);
}

#[test]
fn connection_color_none_has_no_iced_color() {
    assert!(ConnectionColor::NoColor.rgb().is_none());
}

#[test]
fn non_none_colors_have_iced_color() {
    for c in ConnectionColor::all().iter().skip(1) {
        assert!(c.rgb().is_some(), "{:?} should have a color", c);
    }
}

#[test]
fn connection_color_display_none() {
    assert_eq!(ConnectionColor::NoColor.to_string(), "No color");
}

#[test]
fn connections_msg_add_is_clone() {
    let m = ConnectionsMsg::Add;
    let _ = m.clone();
}

#[test]
fn color_names_and_values() {
    assert_eq!(ConnectionColor::Red.to_string(), "Red");
    assert_eq!(ConnectionColor::Purple.to_string(), "Purple");
    assert_eq!(ConnectionColor::Red.rgb(), Some([0xc0, 0x39, 0x2b]));
    assert_eq!(ConnectionColor::all().len(), 6);
    assert_eq!(ConnectionColor::default(), ConnectionColor::NoColor);
}
