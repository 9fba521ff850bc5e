use mongoscope::mcp_panel::{config_text, McpPanelState, McpServerState};

#[test]
fn new_panel_is_closed_and_stopped() {
    let p = McpPanelState::new();
    assert!(!p.open);
    assert_eq!(p.server, McpServerState::Stopped);
}

#[test]
fn toggle_opens_and_closes() {
    let mut p = McpPanelState::new();
    p.toggle();
    assert!(p.open);
    p.toggle();
    assert!(!p.open);
}

#[test]
fn begin_start_transitions_to_starting_and_returns_true() {
    let mut p = McpPanelState::new();
    let fired = p.begin_start();
    assert!(fired);
    assert_eq!(p.server, McpServerState::Starting);
}

#[test]
fn begin_start_while_starting_does_nothing() {
    let mut p = McpPanelState::new();
    p.begin_start();
    let fired = p.begin_start();
    assert!(!fired);
    assert_eq!(p.server, McpServerState::Starting);
}

#[test]
fn on_started_transitions_to_running_port_3717() {
    let mut p = McpPanelState::new();
    p.begin_start();
    p.on_started(3717);
    assert_eq!(p.server, McpServerState::Running { port: 3717 });
}

#[test]
fn stop_transitions_running_to_stopped() {
    let mut p = McpPanelState::new();
    p.begin_start();
    p.on_started(3717);
    p.stop();
    assert_eq!(p.server, McpServerState::Stopped);
}

#[test]
fn stop_while_stopped_does_nothing() {
    let mut p = McpPanelState::new();
    p.stop();
    assert_eq!(p.server, McpServerState::Stopped);
}

#[test]
fn on_started_while_stopped_does_nothing() {
    let mut p = McpPanelState::new();
    p.on_started(3717);
    assert_eq!(p.server, McpServerState::Stopped);
}

#[test]
fn config_text_names_the_port() {
    assert_eq!(
        config_text(3717),
        "\"mongoscope\": {\n  \"url\": \"http://localhost:3717/mcp\"\n}"
    );
    assert_eq!(config_text(0), "\"mongoscope\": {\n  \"url\": \"http://localhost:0/mcp\"\n}");
}
