use mongoscope::app_state::{proxy_uri_text, AppAction, AppMsg, AppState};
use mongoscope::bson::{BsonDoc, BsonVal};
use mongoscope::compose::ComposePiece;
use mongoscope::connections::{ConnectionColor, ConnectionItem, ConnectionsMsg};
use mongoscope::feed::FeedMsg;
use mongoscope::filter::Preset;
use mongoscope::inspector::{ExplainMsg, InspectorMsg, RulesMsg};
use mongoscope::mcp_panel::{McpMsg, McpServerState};
use mongoscope::model::{Op, QueryEntry};
use mongoscope::sidebar::{ClientsMsg, DatabasesMsg};
use mongoscope::sidebar_state::{ConnectionState, FilterPanelMsg, SidebarMsg};
use mongoscope::theme::{Density, Theme};
use mongoscope::types::{
    AppName, CollectionName, ConnId, DatabaseName, LatencyMs, QueryId, TimestampMs,
};

fn item(id: usize, port: u16) -> ConnectionItem {
    ConnectionItem {
        id,
        label: "local".into(),
        topology: "direct".into(),
        uri: "mongodb://localhost:27017/".into(),
        proxy_port: port,
        color: ConnectionColor::NoColor,
        active: false,
        live: true,
        shell_version: "mongosh 2.4.0".into(),
    }
}

fn entry(id: u64, app: &str, db: &str, coll: &str, filter: Option<BsonDoc>) -> QueryEntry {
    QueryEntry {
        id: QueryId::try_new(id).unwrap(),
        t_ms: TimestampMs::new(id * 10),
        latency_ms: LatencyMs::new(3),
        op: Op::Find,
        db: DatabaseName::try_new(db).unwrap(),
        coll: CollectionName::try_new(coll).unwrap(),
        app: AppName::try_new(app).unwrap(),
        plan: None,
        index: None,
        docs_examined: None,
        docs_returned: None,
        filter,
        pipeline: None,
        update: None,
        doc: None,
        warn: None,
        slow: false,
        is_system: false,
        conn_id: ConnId::new(1),
        lsid: None,
        cluster_time: None,
        response_docs: vec![],
        rejected_plan_count: 0,
        suggestions: vec![],
    }
}

/// A window with two connections, the second one shown.
fn window() -> AppState {
    let mut app = AppState::new();
    app.sidebar.dialog = None;
    app.sidebar.connections.push(ConnectionState::new(item(1, 40001)));
    app.sidebar.connections.push(ConnectionState::new(item(2, 40002)));
    app.sidebar.active_id = Some(2);
    app
}

fn clipboard(act: AppAction) -> String {
    match act {
        AppAction::Clipboard(s) => s,
        _ => panic!("expected a clipboard action"),
    }
}

#[test]
fn new_window_opens_the_dialog_with_defaults() {
    let app = AppState::new();
    assert!(app.sidebar.connections.is_empty());
    assert!(app.sidebar.dialog.is_some());
    assert_eq!(app.theme, Theme::Dark);
    assert_eq!(app.density, Density::Compact);
    assert!(!app.mcp_panel.open);
    assert_eq!(app.mcp_panel.server, McpServerState::Stopped);
}

#[test]
fn requests_for_the_shown_connection_scroll_to_top() {
    let mut app = window();
    let act = app.update(AppMsg::QueriesReceived {
        conn_id: 2,
        entries: vec![entry(1, "api", "shop", "orders", None), entry(2, "cron", "shop", "users", None)],
        scrolling_up: false,
    });
    assert!(matches!(act, AppAction::ScrollToTop));
    let c = &app.sidebar.connections[1];
    assert_eq!(c.feed.entries.len(), 2);
    assert_eq!(c.feed.entries[0].id.into_inner(), 2);
    assert_eq!(c.feed.pending_scroll_to, 1);
    assert_eq!(c.clients.len(), 2);
    assert_eq!(c.databases.len(), 1);
    assert_eq!(c.databases[0].collections.len(), 2);
    assert!(app.sidebar.connections[0].feed.entries.is_empty());
}

#[test]
fn requests_for_a_locked_feed_scroll_by_the_rows_added() {
    let mut app = window();
    app.sidebar.connections[1].feed.scroll_locked = true;
    let act = app.update(AppMsg::QueriesReceived {
        conn_id: 2,
        entries: vec![entry(1, "api", "shop", "orders", None), entry(2, "api", "shop", "orders", None)],
        scrolling_up: false,
    });
    assert!(matches!(act, AppAction::ScrollBy(2)));
    assert_eq!(app.sidebar.connections[1].feed.pending_scroll_by, 1);
    let act = app.update(AppMsg::QueriesReceived {
        conn_id: 2,
        entries: vec![entry(3, "api", "shop", "orders", None)],
        scrolling_up: true,
    });
    assert!(matches!(act, AppAction::Nothing));
    assert_eq!(app.sidebar.connections[1].feed.entries.len(), 3);
    assert_eq!(app.sidebar.connections[1].feed.pending_scroll_by, 1);
}

#[test]
fn requests_for_a_hidden_muted_or_unknown_connection() {
    let mut app = window();
    let act = app.update(AppMsg::QueriesReceived {
        conn_id: 1,
        entries: vec![entry(1, "api", "shop", "orders", None)],
        scrolling_up: false,
    });
    assert!(matches!(act, AppAction::Nothing));
    assert_eq!(app.sidebar.connections[0].feed.entries.len(), 1);
    assert_eq!(app.sidebar.connections[0].feed.pending_scroll_to, 0);

    app.sidebar.connections[0].capturing = false;
    let act = app.update(AppMsg::QueriesReceived {
        conn_id: 1,
        entries: vec![entry(2, "cron", "shop", "orders", None)],
        scrolling_up: false,
    });
    assert!(matches!(act, AppAction::Nothing));
    assert_eq!(app.sidebar.connections[0].feed.entries.len(), 1);
    assert_eq!(app.sidebar.connections[0].clients.len(), 1);

    let act = app.update(AppMsg::QueriesReceived {
        conn_id: 9,
        entries: vec![entry(3, "api", "shop", "orders", None)],
        scrolling_up: false,
    });
    assert!(matches!(act, AppAction::Nothing));
}

#[test]
fn a_paused_feed_lists_the_apps_but_keeps_its_rows() {
    let mut app = window();
    app.sidebar.connections[1].feed.paused = true;
    let act = app.update(AppMsg::QueriesReceived {
        conn_id: 2,
        entries: vec![entry(1, "api", "shop", "orders", None)],
        scrolling_up: false,
    });
    assert!(matches!(act, AppAction::Nothing));
    assert!(app.sidebar.connections[1].feed.entries.is_empty());
    assert_eq!(app.sidebar.connections[1].clients.len(), 1);
}

#[test]
fn selecting_a_request_opens_the_inspector_and_resets_explain() {
    let mut app = window();
    app.update(AppMsg::QueriesReceived {
        conn_id: 2,
        entries: vec![entry(7, "api", "shop", "orders", None)],
        scrolling_up: false,
    });
    app.inspector.explain.index_applied = true;
    let act = app.update(AppMsg::Feed(FeedMsg::SelectEntry(QueryId::try_new(7).unwrap())));
    assert!(matches!(act, AppAction::OpenInspector));
    assert!(!app.inspector.explain.index_applied);
    assert!(matches!(&app.inspector.compose[..], [ComposePiece::Text(t), ..] if t == "db.orders.find(\n"));
    assert!(app.sidebar.connections[1].feed.scroll_locked);
    app.inspector.explain.index_applied = true;
    let act = app.update(AppMsg::Feed(FeedMsg::SelectEntry(QueryId::try_new(7).unwrap())));
    assert!(matches!(act, AppAction::Nothing));
    assert!(app.inspector.explain.index_applied);
}

#[test]
fn user_scrolls_are_recorded_and_echoes_are_not() {
    let mut app = window();
    let act = app.update(AppMsg::Feed(FeedMsg::Scrolled { near_top: false, past_threshold: true }));
    assert!(matches!(act, AppAction::RecordScroll));
    assert!(app.sidebar.connections[1].feed.scroll_locked);
    app.sidebar.connections[1].feed.pending_scroll_to = 1;
    let act = app.update(AppMsg::Feed(FeedMsg::Scrolled { near_top: true, past_threshold: false }));
    assert!(matches!(act, AppAction::Nothing));
    assert_eq!(app.sidebar.connections[1].feed.pending_scroll_to, 0);
    assert!(app.sidebar.connections[1].feed.scroll_locked);
}

#[test]
fn copy_index_builds_the_create_index_command() {
    let mut app = window();
    let f = BsonDoc::from_pairs(vec![
        ("status".into(), BsonVal::Str("open".into())),
        ("user".into(), BsonVal::Int(3)),
    ]);
    app.update(AppMsg::QueriesReceived {
        conn_id: 2,
        entries: vec![entry(5, "api", "shop", "orders", Some(f)), entry(6, "api", "shop", "users", None)],
        scrolling_up: false,
    });
    let act = app.update(AppMsg::Inspector(InspectorMsg::Explain(ExplainMsg::CopyIndex)));
    assert!(matches!(act, AppAction::Nothing));
    app.update(AppMsg::Feed(FeedMsg::SelectEntry(QueryId::try_new(5).unwrap())));
    let act = app.update(AppMsg::Inspector(InspectorMsg::Explain(ExplainMsg::CopyIndex)));
    assert_eq!(clipboard(act), "db.orders.createIndex({ status: 1, user: 1 })");
    app.update(AppMsg::Feed(FeedMsg::SelectEntry(QueryId::try_new(6).unwrap())));
    let act = app.update(AppMsg::Inspector(InspectorMsg::Explain(ExplainMsg::CopyIndex)));
    assert!(matches!(act, AppAction::Nothing));
}

#[test]
fn inspector_window_messages_become_actions() {
    let mut app = window();
    assert!(matches!(app.update(AppMsg::Inspector(InspectorMsg::Close)), AppAction::CloseInspector));
    assert!(matches!(
        app.update(AppMsg::Inspector(InspectorMsg::ToggleMaximize)),
        AppAction::ToggleMaximizeInspector
    ));
    let n = app.inspector.rules.len();
    assert!(matches!(app.update(AppMsg::Inspector(InspectorMsg::Rules(RulesMsg::AddNew))), AppAction::Nothing));
    assert_eq!(app.inspector.rules.len(), n + 1);
    app.update(AppMsg::Inspector(InspectorMsg::Explain(ExplainMsg::RunIndex)));
    assert!(app.inspector.explain.index_applied);
}

#[test]
fn dialog_messages_become_proxy_clipboard_and_register_actions() {
    let mut app = AppState::new();
    let act = app.update(AppMsg::Sidebar(SidebarMsg::Connections(ConnectionsMsg::DialogUriChanged(
        "mongodb://db.example:27018/".into(),
    ))));
    assert!(matches!(act, AppAction::Nothing));
    let act = app.update(AppMsg::Sidebar(SidebarMsg::Connections(ConnectionsMsg::DialogConnect)));
    match act {
        AppAction::ConnectProxy(uri) => assert_eq!(uri, "mongodb://db.example:27018/"),
        _ => panic!("expected a proxy request"),
    }
    app.sidebar.dialog.as_mut().unwrap().proxy_port = 51000;
    let act = app.update(AppMsg::Sidebar(SidebarMsg::Connections(ConnectionsMsg::DialogCopyUri)));
    assert_eq!(clipboard(act), "mongodb://localhost:51000/?directConnection=true");
    let act = app.update(AppMsg::Sidebar(SidebarMsg::Connections(ConnectionsMsg::DialogDone)));
    assert!(matches!(act, AppAction::RegisterConnection));
    assert_eq!(app.sidebar.connections.len(), 1);
    assert!(app.sidebar.dialog.is_none());
    let act = app.update(AppMsg::Sidebar(SidebarMsg::Connections(ConnectionsMsg::DialogCopyUri)));
    assert!(matches!(act, AppAction::Nothing));
}

#[test]
fn sidebar_selections_scope_the_shown_feed() {
    let mut app = window();
    app.update(AppMsg::QueriesReceived {
        conn_id: 2,
        entries: vec![entry(1, "api", "shop", "orders", None)],
        scrolling_up: false,
    });
    app.update(AppMsg::Sidebar(SidebarMsg::Databases(DatabasesMsg::ToggleCollection(
        "shop".into(),
        "orders".into(),
    ))));
    let f = &app.sidebar.connections[1].feed.filter;
    assert_eq!(f.filter.db.as_deref(), Some("shop"));
    assert_eq!(f.filter.coll.as_deref(), Some("orders"));
    assert_eq!(f.input, "db:shop coll:orders");

    app.update(AppMsg::Sidebar(SidebarMsg::Clients(ClientsMsg::Toggle("api".into()))));
    let f = &app.sidebar.connections[1].feed.filter;
    assert_eq!(f.filter.app.as_deref(), Some("api"));

    app.update(AppMsg::Sidebar(SidebarMsg::Filters(FilterPanelMsg::Toggle(Preset::SlowQueries))));
    assert_eq!(app.sidebar.connections[1].feed.filter.filter.preset, Some(Preset::SlowQueries));
    app.update(AppMsg::Sidebar(SidebarMsg::Filters(FilterPanelMsg::Toggle(Preset::SlowQueries))));
    assert_eq!(app.sidebar.connections[1].feed.filter.filter.preset, None);
    assert!(app.sidebar.connections[0].feed.filter.filter.db.is_none());
}

#[test]
fn theme_density_and_capture_toggle_back() {
    let mut app = window();
    app.update(AppMsg::ToggleTheme);
    assert_eq!(app.theme, Theme::Light);
    app.update(AppMsg::ToggleTheme);
    assert_eq!(app.theme, Theme::Dark);
    app.update(AppMsg::ToggleDensity);
    assert_eq!(app.density, Density::Comfy);
    app.update(AppMsg::ToggleCapture);
    assert!(!app.sidebar.connections[1].capturing);
    assert!(app.sidebar.connections[0].capturing);
    app.update(AppMsg::ToggleCapture);
    assert!(app.sidebar.connections[1].capturing);
}

#[test]
fn mcp_server_cycle_through_the_window() {
    let mut app = window();
    assert!(matches!(app.update(AppMsg::Mcp(McpMsg::CopyConfig)), AppAction::Nothing));
    assert!(matches!(app.update(AppMsg::Mcp(McpMsg::StartStop)), AppAction::StartMcpServer));
    assert_eq!(app.mcp_panel.server, McpServerState::Starting);
    app.update(AppMsg::McpServerReady(7070));
    assert_eq!(app.mcp_panel.server, McpServerState::Running { port: 7070 });
    let act = app.update(AppMsg::Mcp(McpMsg::CopyConfig));
    assert_eq!(
        clipboard(act),
        "\"mongoscope\": {\n  \"url\": \"http://localhost:7070/mcp\"\n}"
    );
    assert!(matches!(app.update(AppMsg::Mcp(McpMsg::StartStop)), AppAction::StopMcpServer));
    assert_eq!(app.mcp_panel.server, McpServerState::Stopped);
    app.update(AppMsg::Mcp(McpMsg::Toggle));
    assert!(app.mcp_panel.open);
}

#[test]
fn copy_uri_uses_the_shown_proxy_or_the_local_default() {
    let mut app = window();
    assert_eq!(
        clipboard(app.update(AppMsg::CopyUri)),
        "mongodb://localhost:40002/?directConnection=true"
    );
    app.sidebar.active_id = None;
    assert_eq!(
        clipboard(app.update(AppMsg::CopyUri)),
        "mongodb://localhost:27017/?directConnection=true"
    );
    assert_eq!(proxy_uri_text(1), "mongodb://localhost:1/?directConnection=true");
}

#[test]
fn status_counts_recent_total_and_slow_requests_of_the_shown_feed() {
    let mut app = window();
    let s = app.status(5_000);
    assert_eq!((s.recent, s.total, s.slow), (0, 0, 0));
    let mut slow = entry(3, "api", "shop", "orders", None);
    slow.slow = true;
    app.update(AppMsg::QueriesReceived {
        conn_id: 2,
        entries: vec![entry(1, "api", "shop", "orders", None), entry(2, "api", "shop", "orders", None), slow],
        scrolling_up: false,
    });
    // stamped at 10, 20 and 30 ms
    let s = app.status(1_015);
    assert_eq!((s.recent, s.total, s.slow), (2, 3, 1));
    let s = app.status(500);
    assert_eq!(s.recent, 3);
    app.sidebar.active_id = None;
    let s = app.status(500);
    assert_eq!((s.recent, s.total, s.slow), (0, 0, 0));
}

#[test]
fn connection_bar_and_inspector_labels_follow_the_shown_connection() {
    let mut app = window();
    let info = app.conn_info();
    assert_eq!(info.uri, "mongodb://localhost:40002/?directConnection=true");
    assert!(info.connected);
    assert!(app.capturing());
    assert_eq!(app.cluster_label(), "local");
    assert_eq!(app.shell_version(), "mongosh 2.4.0");
    assert!(app.selected().is_none());
    app.update(AppMsg::QueriesReceived {
        conn_id: 2,
        entries: vec![entry(8, "api", "shop", "orders", None)],
        scrolling_up: false,
    });
    app.update(AppMsg::Feed(FeedMsg::SelectEntry(QueryId::try_new(8).unwrap())));
    assert_eq!(app.selected().unwrap().id.into_inner(), 8);
    app.sidebar.active_id = None;
    let info = app.conn_info();
    assert_eq!(info.uri, "mongodb://localhost:27017/?directConnection=true");
    assert!(!info.connected);
    assert!(!app.capturing());
    assert_eq!(app.cluster_label(), "—");
    assert!(app.selected().is_none());
}

#[test]
fn a_new_connection_starts_with_an_empty_filter_and_a_preset_toggles_off() {
    let mut app = AppState::new();
    app.update(AppMsg::Sidebar(SidebarMsg::Connections(ConnectionsMsg::DialogDone)));
    let f = &app.sidebar.connections[0].feed;
    assert!(!f.paused && !f.scroll_locked && f.selected.is_none());
    assert_eq!((f.pending_scroll_to, f.pending_scroll_by), (0, 0));
    assert!(f.filter.input.is_empty() && f.filter.filter.preset.is_none());
    app.update(AppMsg::Sidebar(SidebarMsg::Filters(FilterPanelMsg::Toggle(Preset::SlowQueries))));
    let fs = &app.sidebar.connections[0].feed.filter;
    assert_eq!(fs.filter.preset, Some(Preset::SlowQueries));
    assert_eq!(fs.input, "slow");
    app.update(AppMsg::Sidebar(SidebarMsg::Filters(FilterPanelMsg::Toggle(Preset::SlowQueries))));
    let fs = &app.sidebar.connections[0].feed.filter;
    assert_eq!(fs.filter.preset, None);
    assert_eq!(fs.input, "");
}
