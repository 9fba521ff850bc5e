use mongoscope::connections::{
    ConnectionColor, ConnectionDialogState, ConnectionItem, ConnectionsMsg, DialogStep,
};
use mongoscope::model::{Op, QueryEntry};
use mongoscope::sidebar::{app_color_for, ClientItem, ClientsMsg, DatabasesMsg};
use mongoscope::sidebar_state::{ConnectionState, SidebarMsg, SidebarState};
use mongoscope::types::{
    AppName, CollectionName, ConnId, DatabaseName, LatencyMs, QueryId, TimestampMs,
};

fn make_item(id: usize) -> ConnectionItem {
    ConnectionItem {
        id,
        label: "test".into(),
        topology: "direct".into(),
        uri: "mongodb://localhost:27017/".into(),
        proxy_port: 27117,
        color: ConnectionColor::NoColor,
        active: false,
        live: true,
        shell_version: "mongosh 2.4.0".into(),
    }
}

fn default_for_test() -> SidebarState {
    let mut s = SidebarState::new();
    s.connections.push(ConnectionState::new(make_item(0)));
    s.active_id = Some(0);
    s
}

fn entry(app: &str, db: &str, coll: &str) -> QueryEntry {
    QueryEntry {
        id: QueryId::try_new(1).unwrap(),
        t_ms: TimestampMs::new(0),
        latency_ms: LatencyMs::new(1),
        op: Op::Find,
        db: DatabaseName::try_new(db).unwrap(),
        coll: CollectionName::try_new(coll).unwrap(),
        app: AppName::try_new(app).unwrap(),
        plan: None,
        index: None,
        docs_examined: None,
        docs_returned: None,
        filter: None,
        pipeline: None,
        update: None,
        doc: None,
        warn: None,
        slow: false,
        is_system: false,
        conn_id: ConnId::new(1),
        lsid: None,
        cluster_time: None,
        response_docs: vec![],
        rejected_plan_count: 0,
        suggestions: vec![],
    }
}

#[test]
fn new_starts_capturing() {
    let s = ConnectionState::new(make_item(1));
    assert!(s.capturing);
}

#[test]
fn new_has_empty_databases() {
    let s = ConnectionState::new(make_item(1));
    assert!(s.databases.is_empty());
}

#[test]
fn new_has_empty_clients() {
    let s = ConnectionState::new(make_item(1));
    assert!(s.clients.is_empty());
}

#[test]
fn new_has_empty_feed() {
    let s = ConnectionState::new(make_item(1));
    assert!(s.feed.entries.is_empty());
}

#[test]
fn active_returns_none_when_empty() {
    let s = SidebarState::new();
    assert!(s.active().is_none());
}

#[test]
fn active_returns_correct_connection() {
    let mut s = SidebarState::new();
    s.connections.push(ConnectionState::new(make_item(1)));
    s.connections.push(ConnectionState::new(make_item(2)));
    s.active_id = Some(2);
    assert_eq!(s.active().unwrap().item.id, 2);
}

#[test]
fn dialog_done_creates_connection_state_with_capturing_true() {
    let mut s = SidebarState::new();
    s.dialog = Some(ConnectionDialogState::new());
    if let Some(d) = &mut s.dialog {
        d.proxy_port = 27117;
        d.step = DialogStep::Step2;
    }
    s.update(SidebarMsg::Connections(ConnectionsMsg::DialogDone));
    assert_eq!(s.connections.len(), 1);
    assert!(s.connections[0].capturing);
    assert!(s.dialog.is_none());
}

#[test]
fn dialog_done_sets_active_id() {
    let mut s = SidebarState::new();
    s.dialog = Some(ConnectionDialogState::new());
    if let Some(d) = &mut s.dialog {
        d.proxy_port = 27117;
    }
    s.update(SidebarMsg::Connections(ConnectionsMsg::DialogDone));
    assert!(s.active_id.is_some());
    assert_eq!(s.active_id, Some(s.connections[0].item.id));
}

#[test]
fn client_toggle_is_radio_style() {
    let mut s = default_for_test();
    s.connections[0].clients = vec![
        ClientItem { name: "app1".into(), color: [0, 0, 0], active: false },
        ClientItem { name: "app2".into(), color: [0, 0, 0], active: false },
    ];
    s.update(SidebarMsg::Clients(ClientsMsg::Toggle("app1".into())));
    assert!(s.connections[0].clients[0].active);
    assert!(!s.connections[0].clients[1].active);

    s.update(SidebarMsg::Clients(ClientsMsg::Toggle("app2".into())));
    assert!(!s.connections[0].clients[0].active);
    assert!(s.connections[0].clients[1].active);

    s.update(SidebarMsg::Clients(ClientsMsg::Toggle("app2".into())));
    assert!(!s.connections[0].clients[0].active);
    assert!(!s.connections[0].clients[1].active);
}

#[test]
fn active_client_returns_active_name() {
    let mut s = default_for_test();
    s.connections[0].clients = vec![ClientItem { name: "myapp".into(), color: [0, 0, 0], active: false }];
    assert_eq!(s.active_client(), None);
    s.connections[0].clients[0].active = true;
    assert_eq!(s.active_client(), Some("myapp".into()));
}

#[test]
fn dialog_done_labels_from_uri_and_numbers_after_largest_id() {
    let mut s = SidebarState::new();
    s.connections.push(ConnectionState::new(make_item(7)));
    s.connections.push(ConnectionState::new(make_item(3)));
    s.update(SidebarMsg::Connections(ConnectionsMsg::Add));
    s.update(SidebarMsg::Connections(ConnectionsMsg::DialogUriChanged(
        "mongodb://db.example.com:27017/app?x=1".into(),
    )));
    s.update(SidebarMsg::Connections(ConnectionsMsg::DialogConnectResult(Ok(27200))));
    s.update(SidebarMsg::Connections(ConnectionsMsg::DialogDone));
    assert_eq!(s.connections.len(), 3);
    let added = &s.connections[2].item;
    assert_eq!(added.id, 8);
    assert_eq!(added.label, "db.example.com:27017");
    assert_eq!(added.topology, "direct · proxy :27200");
    assert_eq!(added.proxy_port, 27200);
    assert!(added.active);
    assert!(!s.connections[0].item.active);
    assert_eq!(s.active_id, Some(8));
}

#[test]
fn dialog_done_keeps_given_name() {
    let mut s = SidebarState::new();
    s.update(SidebarMsg::Connections(ConnectionsMsg::Add));
    s.update(SidebarMsg::Connections(ConnectionsMsg::DialogNameChanged("prod".into())));
    s.update(SidebarMsg::Connections(ConnectionsMsg::DialogDone));
    assert_eq!(s.connections[0].item.label, "prod");
    assert_eq!(s.connections[0].item.id, 1);
}

#[test]
fn dialog_connect_errors_return_to_first_step() {
    let mut s = SidebarState::new();
    s.update(SidebarMsg::Connections(ConnectionsMsg::Add));
    s.update(SidebarMsg::Connections(ConnectionsMsg::DialogConnect));
    assert_eq!(s.dialog.as_ref().unwrap().step, DialogStep::Step1 { connecting: true });
    s.update(SidebarMsg::Connections(ConnectionsMsg::DialogConnectResult(Err("refused".into()))));
    let d = s.dialog.as_ref().unwrap();
    assert_eq!(d.step, DialogStep::Step1 { connecting: false });
    assert_eq!(d.error, Some("refused".to_string()));
    s.update(SidebarMsg::Connections(ConnectionsMsg::DialogCancel));
    assert!(s.dialog.is_none());
}

#[test]
fn select_marks_only_the_chosen_connection() {
    let mut s = SidebarState::new();
    s.connections.push(ConnectionState::new(make_item(1)));
    s.connections.push(ConnectionState::new(make_item(2)));
    s.update(SidebarMsg::Connections(ConnectionsMsg::Select(2)));
    assert!(!s.connections[0].item.active);
    assert!(s.connections[1].item.active);
    assert_eq!(s.active_id, Some(2));
}

#[test]
fn register_entries_lists_apps_databases_and_collections() {
    let mut c = ConnectionState::new(make_item(1));
    c.register_entries(&[
        entry("api", "shop", "orders"),
        entry("api", "shop", "orders"),
        entry("worker", "shop", "carts"),
        entry("api", "auth", "tokens"),
    ]);
    let names: Vec<&str> = c.clients.iter().map(|x| x.name.as_str()).collect();
    assert_eq!(names, vec!["api", "worker"]);
    assert_eq!(c.clients[0].color, app_color_for("api"));
    assert!(!c.clients[1].active);
    assert_eq!(c.databases.len(), 2);
    assert_eq!(c.databases[0].name, "shop");
    assert!(c.databases[0].expanded);
    assert_eq!(c.databases[0].collections.len(), 2);
    assert_eq!(c.databases[0].collections[0].requests, 2);
    assert_eq!(c.databases[0].collections[1].name, "carts");
    assert_eq!(c.databases[1].collections[0].requests, 1);
}

#[test]
fn database_messages_reach_the_shown_connection() {
    let mut s = default_for_test();
    s.connections[0].register_entries(&[entry("api", "shop", "orders")]);
    s.update(SidebarMsg::Databases(DatabasesMsg::ToggleCollection("shop".into(), "orders".into())));
    assert_eq!(s.active_db(), Some("shop".to_string()));
    assert_eq!(s.active_coll(), Some("orders".to_string()));
    s.update(SidebarMsg::Databases(DatabasesMsg::ToggleDb("shop".into())));
    assert_eq!(s.active_db(), None);
    assert_eq!(s.active_coll(), None);
}
