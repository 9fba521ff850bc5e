//! The window's state as a whole and how each event changes it:
//! which connection, feed, filter and panel an event reaches, and what the
//! window has to do about it (scroll, copy, start a server).

use vstd::prelude::*;
use crate::feed::{feed_updated, scroll_recorded, with_all_newest, FeedMsg, FeedState};
use crate::compose::{compose_pieces, pieces};
use crate::buckets::room_for;
use crate::filter::{Filter, Preset};
use crate::inspector::{
    inspector_updated, max_rule_id, ExplainMsg, ExplainState, InspectorMsg, InspectorState,
    InspectorTab, RulesMsg,
};
use crate::mcp_panel::{
    after_started, after_stop, config_snippet, config_text, McpMsg, McpPanelState, McpServerState,
};
use crate::model::QueryEntry;
use crate::connections::ConnectionsMsg;
use crate::sidebar::{clients_toggled, toggled_collection, toggled_db, ClientsMsg, DatabasesMsg};
use crate::bson::{doc_entries, keys_of, BsonDoc};
use crate::mcp::{count_slow, find_request, request_pos, slow_count};
use crate::types::QueryId;
use crate::sidebar_state::{
    active_client_name, active_coll_name, active_db_name, active_index, client_names,
    clients_extended, conn_index_from, connections_updated, db_model, dbs_after, dbs_extended,
    first_conn_index, max_id, names_after, with_item_active, ConnectionState, FilterPanelMsg,
    SidebarMsg, SidebarState,
};
use crate::filter::{filter_model, model_text};
use crate::text::{concat, decimal, decimal_string, join_with, joined, strs};
use crate::theme::{density_toggled, theme_toggled, Density, Theme};

verus! {

/// The entries of the top menu.
#[derive(Debug, Clone, Copy, PartialEq, Eq, Structural)]
pub enum MenuMsg {
    File,
    Capture,
    Rules,
    View,
    Help,
}

/// What the connection bar shows.
#[derive(Debug, Clone)]
pub struct ConnInfo {
    pub uri: String,
    pub connected: bool,
}

/// The proxy address an application connects to, for a proxy on `port`.
pub open spec fn proxy_uri(port: u16) -> Seq<char> {
    "mongodb://localhost:"@ + decimal(port as nat) + "/?directConnection=true"@
}

pub fn proxy_uri_text(port: u16) -> (r: String)
    ensures
        r@ == proxy_uri(port),
{
    concat("mongodb://localhost:", decimal_string(port as u64).as_str()).concat("/?directConnection=true")
}

/// What happens in the window.
pub enum AppMsg {
    /// Requests captured on connection `conn_id`; `scrolling_up` says
    /// whether the user was scrolling the feed up when they arrived.
    QueriesReceived { conn_id: usize, entries: Vec<QueryEntry>, scrolling_up: bool },
    Feed(FeedMsg),
    Inspector(InspectorMsg),
    Sidebar(SidebarMsg),
    ToggleTheme,
    ToggleDensity,
    ToggleCapture,
    Menu(MenuMsg),
    Mcp(McpMsg),
    McpServerReady(u16),
    McpServerFailed,
    CopyUri,
}

/// What the window has to do after an event.
pub enum AppAction {
    Nothing,
    /// Scroll the feed down by this many rows, to keep the rows in view.
    ScrollBy(usize),
    /// Record the feed's new scroll position (it was moved by the user).
    RecordScroll,
    /// Scroll the feed back to its top.
    ScrollToTop,
    /// Put this text on the clipboard.
    Clipboard(String),
    /// Parse this connection string and open a proxy port for it.
    ConnectProxy(String),
    /// Share the connection just added with the MCP server.
    RegisterConnection,
    StartMcpServer,
    StopMcpServer,
    /// Show the inspector if it is closed.
    OpenInspector,
    CloseInspector,
    ToggleMaximizeInspector,
}

/// The window's state.
pub struct AppState {
    pub sidebar: SidebarState,
    pub inspector: InspectorState,
    pub theme: Theme,
    pub density: Density,
    pub mcp_panel: McpPanelState,
}

/// The connection `c` with its feed's filter set to `f`, the input showing it.
pub open spec fn with_filter(c: ConnectionState, n: ConnectionState, f: Filter) -> bool {
    &&& n.item == c.item
    &&& n.databases == c.databases
    &&& n.clients == c.clients
    &&& n.capturing == c.capturing
    &&& n.feed.filter.filter == f
    &&& n.feed.filter.input@ == model_text(filter_model(f))
    &&& n.feed.entries == c.feed.entries
    &&& n.feed.buckets == c.feed.buckets
    &&& n.feed.selected == c.feed.selected
    &&& n.feed.paused == c.feed.paused
    &&& n.feed.scroll_locked == c.feed.scroll_locked
    &&& n.feed.now_ms == c.feed.now_ms
    &&& n.feed.frozen_entries == c.feed.frozen_entries
    &&& n.feed.pending_scroll_to == c.feed.pending_scroll_to
    &&& n.feed.pending_scroll_by == c.feed.pending_scroll_by
}

/// The filter of the connection shown once the sidebar's selection is
/// carried over to it by `m`.
pub open spec fn synced_filter(c: ConnectionState, m: SidebarMsg) -> Filter {
    let f = c.feed.filter.filter;
    match m {
        SidebarMsg::Databases(_) => Filter {
            db: active_db_name(c.databases@),
            coll: active_coll_name(c.databases@),
            ..f
        },
        SidebarMsg::Clients(_) => Filter { app: active_client_name(c.clients@), ..f },
        SidebarMsg::Filters(FilterPanelMsg::Toggle(p)) => Filter {
            preset: if f.preset == Some(p) {
                None
            } else {
                Some(p)
            },
            ..f
        },
        _ => f,
    }
}

/// Everything but the connection at `p` and the inspector is as in `o`.
pub open spec fn others_kept(o: AppState, n: AppState, p: int) -> bool {
    &&& n.sidebar.connections@.len() == o.sidebar.connections@.len()
    &&& forall|i: int|
        0 <= i < o.sidebar.connections@.len() && i != p ==> #[trigger] n.sidebar.connections@[i]
            == o.sidebar.connections@[i]
    &&& n.sidebar.active_id == o.sidebar.active_id
    &&& n.sidebar.dialog == o.sidebar.dialog
    &&& n.theme == o.theme
    &&& n.density == o.density
    &&& n.mcp_panel == o.mcp_panel
}

/// Room in the connection `conn_id` for the requests `es`: its histogram
/// counters and its scroll counters do not overflow.
pub open spec fn room_for_requests(o: AppState, conn_id: usize, es: Seq<QueryEntry>) -> bool {
    match conn_index_from(o.sidebar.connections@, conn_id, 0) {
        Some(p) => {
            let f = o.sidebar.connections@[p].feed;
            &&& room_for(f.buckets.data@, es.len())
            &&& f.pending_scroll_to < u32::MAX
            &&& f.pending_scroll_by < u32::MAX
        },
        None => true,
    }
}

/// The window `n` after the requests `es` were captured on connection
/// `conn_id`, and the action `act` it asks for.  Requests for an unknown
/// or muted connection are dropped.  Otherwise their apps, databases and
/// collections are listed, and unless the feed is paused they enter it.
/// If the connection is shown and requests entered, the feed keeps the
/// rows in view: a feed scrolled down moves by the rows added (unless the
/// user is scrolling up), a feed at the top goes back to the top.
pub open spec fn queries_taken(
    o: AppState,
    n: AppState,
    conn_id: usize,
    es: Seq<QueryEntry>,
    scrolling_up: bool,
    act: AppAction,
) -> bool {
    match conn_index_from(o.sidebar.connections@, conn_id, 0) {
        None => n == o && act is Nothing,
        Some(p) => {
            let c = o.sidebar.connections@[p];
            let d = n.sidebar.connections@[p];
            let added = if c.feed.paused {
                0
            } else {
                es.len()
            };
            if !c.capturing {
                n == o && act is Nothing
            } else {
                &&& others_kept(o, n, p)
                &&& n.inspector == o.inspector
                &&& d.item == c.item
                &&& d.capturing
                &&& client_names(d.clients@) == names_after(client_names(c.clients@), es)
                &&& clients_extended(c.clients@, d.clients@)
                &&& db_model(d.databases@) == dbs_after(db_model(c.databases@), es)
                &&& dbs_extended(c.databases@, d.databases@)
                &&& d.feed.entries@ == if c.feed.paused {
                    c.feed.entries@
                } else {
                    with_all_newest(c.feed.entries@, es)
                }
                &&& d.feed.now_ms == if !c.feed.paused && es.len() > 0 {
                    es.last().t_ms@
                } else {
                    c.feed.now_ms
                }
                &&& d.feed.paused == c.feed.paused
                &&& d.feed.selected == c.feed.selected
                &&& d.feed.filter == c.feed.filter
                &&& d.feed.scroll_locked == c.feed.scroll_locked
                &&& d.feed.frozen_entries == c.feed.frozen_entries
                &&& if added == 0 || o.sidebar.active_id != Some(conn_id) || (c.feed.scroll_locked
                    && scrolling_up) {
                    &&& act is Nothing
                    &&& d.feed.pending_scroll_to == c.feed.pending_scroll_to
                    &&& d.feed.pending_scroll_by == c.feed.pending_scroll_by
                } else if c.feed.scroll_locked {
                    &&& act == AppAction::ScrollBy(added as usize)
                    &&& d.feed.pending_scroll_to == c.feed.pending_scroll_to
                    &&& d.feed.pending_scroll_by == c.feed.pending_scroll_by + 1
                } else {
                    &&& act is ScrollToTop
                    &&& d.feed.pending_scroll_to == c.feed.pending_scroll_to + 1
                    &&& d.feed.pending_scroll_by == c.feed.pending_scroll_by
                }
            }
        },
    }
}

/// The request selected in the feed `f`: the first one with the selected
/// id.
pub open spec fn selected_in(f: FeedState) -> Option<QueryEntry> {
    match f.selected {
        Some(id) => match request_pos(f.entries@, id@) {
            Some(i) => Some(f.entries@[i]),
            None => None,
        },
        None => None,
    }
}

/// The request selected in the feed shown.
pub open spec fn selected_entry(o: AppState) -> Option<QueryEntry> {
    match active_index(o.sidebar.connections@, o.sidebar.active_id) {
        Some(p) => selected_in(o.sidebar.connections@[p].feed),
        None => None,
    }
}

/// The shell command that creates an index on `coll` over `keys`, each
/// ascending.
pub open spec fn create_index_command(coll: Seq<char>, keys: Seq<Seq<char>>) -> Seq<char> {
    "db."@ + coll + ".createIndex({ "@ + joined(keys.map_values(|k: Seq<char>| k + ": 1"@), ", "@)
        + " })"@
}

/// The index command copied for the selected request: over the keys of
/// its filter; none for a request without a filter.
pub open spec fn copy_index_text(o: AppState) -> Option<Seq<char>> {
    match selected_entry(o) {
        Some(e) => match e.filter {
            Some(f) => Some(create_index_command(e.coll@, keys_of(doc_entries(f)))),
            None => None,
        },
        None => None,
    }
}

/// The window `n` after the feed shown handled `m`.  A new selection
/// resets the explain tab, starts the compose tab from the selected
/// request and, when something is selected, opens the inspector; a
/// scroll by the user is recorded.
pub open spec fn feed_event_applied(o: AppState, n: AppState, m: FeedMsg, act: AppAction) -> bool {
    match active_index(o.sidebar.connections@, o.sidebar.active_id) {
        None => n == o && act is Nothing,
        Some(p) => {
            let c = o.sidebar.connections@[p];
            let d = n.sidebar.connections@[p];
            &&& others_kept(o, n, p)
            &&& d == (ConnectionState { feed: d.feed, ..c })
            &&& feed_updated(c.feed, d.feed, m)
            &&& if d.feed.selected != c.feed.selected {
                &&& n.inspector.explain == (ExplainState { index_applied: false })
                &&& n.inspector.tab == o.inspector.tab
                &&& n.inspector.rules == o.inspector.rules
                &&& match selected_in(d.feed) {
                    Some(e) => pieces(n.inspector.compose@) == compose_pieces(e),
                    None => n.inspector.compose == o.inspector.compose,
                }
                &&& act == if d.feed.selected is Some {
                    AppAction::OpenInspector
                } else {
                    AppAction::Nothing
                }
            } else {
                &&& n.inspector == o.inspector
                &&& act == if scroll_recorded(c.feed, m) {
                    AppAction::RecordScroll
                } else {
                    AppAction::Nothing
                }
            }
        },
    }
}

/// The window `n` after the inspector asked for `m`: closing and
/// maximizing are the window's to do, copying the index puts its command
/// on the clipboard, the rest is the inspector's.
pub open spec fn inspector_event_applied(
    o: AppState,
    n: AppState,
    m: InspectorMsg,
    act: AppAction,
) -> bool {
    match m {
        InspectorMsg::Close => n == o && act is CloseInspector,
        InspectorMsg::ToggleMaximize => n == o && act is ToggleMaximizeInspector,
        InspectorMsg::Explain(ExplainMsg::CopyIndex) => n == o && (match copy_index_text(o) {
            Some(t) => act matches AppAction::Clipboard(s) && s@ == t,
            None => act is Nothing,
        }),
        _ => {
            &&& act is Nothing
            &&& n == (AppState { inspector: n.inspector, ..o })
            &&& inspector_updated(o.inspector, n.inspector, m)
        },
    }
}

/// The lists of connection `d` are those of `c` after the sidebar
/// message `m`.
pub open spec fn lists_changed(c: ConnectionState, d: ConnectionState, m: SidebarMsg) -> bool {
    match m {
        SidebarMsg::Databases(DatabasesMsg::ToggleDb(name)) => toggled_db(
            c.databases@,
            d.databases@,
            name@,
        ) && d.clients == c.clients,
        SidebarMsg::Databases(DatabasesMsg::ToggleCollection(db, coll)) => toggled_collection(
            c.databases@,
            d.databases@,
            db@,
            coll@,
        ) && d.clients == c.clients,
        SidebarMsg::Clients(ClientsMsg::Toggle(name)) => clients_toggled(
            c.clients@,
            d.clients@,
            name@,
        ) && d.databases == c.databases,
        _ => d.databases == c.databases && d.clients == c.clients,
    }
}

/// The window `n` after the sidebar asked for `m`.  Connecting from the
/// dialog asks for a proxy for its URI, copying from the dialog copies
/// the proxy's address, finishing the dialog shares the new connection.
/// A selection in the databases or clients panel, or a preset, also sets
/// the filter of the feed shown.
pub open spec fn sidebar_event_applied(o: AppState, n: AppState, m: SidebarMsg, act: AppAction) -> bool {
    match m {
        SidebarMsg::Connections(cm) => {
            &&& n == (AppState { sidebar: n.sidebar, ..o })
            &&& connections_updated(o.sidebar, n.sidebar, cm)
            &&& match cm {
                ConnectionsMsg::DialogConnect => act matches AppAction::ConnectProxy(u) && u@
                    == match o.sidebar.dialog {
                    Some(d) => d.uri@,
                    None => Seq::<char>::empty(),
                },
                ConnectionsMsg::DialogCopyUri => match o.sidebar.dialog {
                    Some(d) => act matches AppAction::Clipboard(s) && s@ == proxy_uri(d.proxy_port),
                    None => act is Nothing,
                },
                ConnectionsMsg::DialogDone => act is RegisterConnection,
                _ => act is Nothing,
            }
        },
        _ => {
            &&& act is Nothing
            &&& match active_index(o.sidebar.connections@, o.sidebar.active_id) {
                None => n == o,
                Some(p) => {
                    let c = o.sidebar.connections@[p];
                    let d = n.sidebar.connections@[p];
                    let mid = ConnectionState { databases: d.databases, clients: d.clients, ..c };
                    &&& others_kept(o, n, p)
                    &&& n.inspector == o.inspector
                    &&& lists_changed(c, d, m)
                    &&& with_filter(mid, d, synced_filter(mid, m))
                },
            }
        },
    }
}

/// The window `n` after the MCP panel asked for `m`.
pub open spec fn mcp_event_applied(o: AppState, n: AppState, m: McpMsg, act: AppAction) -> bool {
    &&& n == (AppState { mcp_panel: n.mcp_panel, ..o })
    &&& match m {
        McpMsg::Toggle => {
            &&& n.mcp_panel.open == !o.mcp_panel.open
            &&& n.mcp_panel.server == o.mcp_panel.server
            &&& act is Nothing
        },
        McpMsg::StartStop => {
            &&& n.mcp_panel.open == o.mcp_panel.open
            &&& if o.mcp_panel.server is Stopped {
                n.mcp_panel.server == McpServerState::Starting && act is StartMcpServer
            } else {
                n.mcp_panel.server == after_stop(o.mcp_panel.server) && act is StopMcpServer
            }
        },
        McpMsg::CopyConfig => {
            &&& n.mcp_panel == o.mcp_panel
            &&& match o.mcp_panel.server {
                McpServerState::Running { port } => act matches AppAction::Clipboard(s) && s@
                    == config_snippet(port),
                _ => act is Nothing,
            }
        },
        _ => n.mcp_panel == o.mcp_panel && act is Nothing,
    }
}

/// The window `n` after capture was switched on or off for the
/// connection shown.
pub open spec fn capture_toggled(o: AppState, n: AppState) -> bool {
    match active_index(o.sidebar.connections@, o.sidebar.active_id) {
        None => n == o,
        Some(p) => {
            let c = o.sidebar.connections@[p];
            &&& others_kept(o, n, p)
            &&& n.inspector == o.inspector
            &&& n.sidebar.connections@[p] == (ConnectionState { capturing: !c.capturing, ..c })
        },
    }
}

/// The port applications connect to: the proxy of the connection shown,
/// else the standard port of a local server.
pub open spec fn shown_port(o: AppState) -> u16 {
    match active_index(o.sidebar.connections@, o.sidebar.active_id) {
        Some(p) => o.sidebar.connections@[p].item.proxy_port,
        None => 27017,
    }
}

/// Whether the counters that `msg` raises have room: the histogram and
/// scroll counters of the receiving connection, the next rule id, the
/// next connection id.
pub open spec fn update_fits(o: AppState, msg: AppMsg) -> bool {
    match msg {
        AppMsg::QueriesReceived { conn_id, entries, scrolling_up: _ } => room_for_requests(
            o,
            conn_id,
            entries@,
        ),
        AppMsg::Inspector(InspectorMsg::Rules(RulesMsg::AddNew)) => max_rule_id(o.inspector.rules@)
            < usize::MAX,
        AppMsg::Sidebar(SidebarMsg::Connections(ConnectionsMsg::DialogDone)) => o.sidebar.dialog
            is Some ==> max_id(o.sidebar.connections@) < usize::MAX,
        _ => true,
    }
}

/// The window `n` after the event `msg`, and the action `act` it asks for.
pub open spec fn app_updated(o: AppState, n: AppState, msg: AppMsg, act: AppAction) -> bool {
    match msg {
        AppMsg::QueriesReceived { conn_id, entries, scrolling_up } => queries_taken(
            o,
            n,
            conn_id,
            entries@,
            scrolling_up,
            act,
        ),
        AppMsg::Feed(m) => feed_event_applied(o, n, m, act),
        AppMsg::Inspector(m) => inspector_event_applied(o, n, m, act),
        AppMsg::Sidebar(m) => sidebar_event_applied(o, n, m, act),
        AppMsg::ToggleTheme => n == (AppState { theme: theme_toggled(o.theme), ..o }) && act is Nothing,
        AppMsg::ToggleDensity => n == (AppState { density: density_toggled(o.density), ..o })
            && act is Nothing,
        AppMsg::ToggleCapture => capture_toggled(o, n) && act is Nothing,
        AppMsg::Menu(_) => n == o && act is Nothing,
        AppMsg::Mcp(m) => mcp_event_applied(o, n, m, act),
        AppMsg::McpServerReady(port) => n == (AppState {
            mcp_panel: McpPanelState { server: after_started(o.mcp_panel.server, port), ..o.mcp_panel },
            ..o
        }) && act is Nothing,
        AppMsg::McpServerFailed => n == (AppState {
            mcp_panel: McpPanelState { server: after_stop(o.mcp_panel.server), ..o.mcp_panel },
            ..o
        }) && act is Nothing,
        AppMsg::CopyUri => n == o && (act matches AppAction::Clipboard(s) && s@ == proxy_uri(
            shown_port(o),
        )),
    }
}

/// Connections with the same ids in the same places are found at the
/// same positions.
proof fn lemma_same_ids(a: Seq<ConnectionState>, b: Seq<ConnectionState>, id: usize, i: int)
    requires
        a.len() == b.len(),
        forall|k: int| 0 <= k < a.len() ==> (#[trigger] a[k]).item.id == b[k].item.id,
    ensures
        conn_index_from(a, id, i) == conn_index_from(b, id, i),
    decreases a.len() - i,
{
    if 0 <= i < a.len() {
        lemma_same_ids(a, b, id, i + 1);
    }
}

/// Switching capture twice gives back the window as it was.
pub proof fn lemma_capture_toggle_twice(o: AppState, n: AppState, m: AppState)
    requires
        capture_toggled(o, n),
        capture_toggled(n, m),
    ensures
        m.sidebar.connections@ == o.sidebar.connections@,
        m.sidebar.active_id == o.sidebar.active_id,
        m.sidebar.dialog == o.sidebar.dialog,
        m.inspector == o.inspector,
        m.theme == o.theme,
        m.density == o.density,
        m.mcp_panel == o.mcp_panel,
{
    match active_index(o.sidebar.connections@, o.sidebar.active_id) {
        None => {},
        Some(p) => {
            let a = o.sidebar.connections@;
            let b = n.sidebar.connections@;
            assert forall|i: int| 0 <= i < a.len() implies (#[trigger] a[i]).item.id == b[i].item.id by {
                if i != p {
                    assert(b[i] == a[i]);
                }
            }
            lemma_same_ids(a, b, o.sidebar.active_id->0, 0);
            assert(m.sidebar.connections@ =~= o.sidebar.connections@);
        },
    }
}

/// What the status bar counts for the feed shown.
pub struct StatusCounts {
    /// Requests of the last second.
    pub recent: usize,
    pub total: usize,
    pub slow: usize,
}

/// The first instant of the second before `now_ms`.
pub open spec fn second_before(now_ms: u64) -> int {
    if now_ms >= 1000 {
        now_ms - 1000
    } else {
        0
    }
}

/// The requests of `es` stamped in the second before `now_ms` or later.
pub open spec fn recent_count(es: Seq<QueryEntry>, now_ms: u64) -> nat {
    es.filter(|e: QueryEntry| e.t_ms@ >= second_before(now_ms)).len()
}

/// The status bar's counts at `now_ms`: recent, total and slow requests
/// of the feed shown, all zero when no connection is shown.
pub open spec fn status_of(o: AppState, now_ms: u64) -> (nat, nat, nat) {
    match active_index(o.sidebar.connections@, o.sidebar.active_id) {
        Some(p) => {
            let es = o.sidebar.connections@[p].feed.entries@;
            (recent_count(es, now_ms), es.len(), slow_count(es))
        },
        None => (0, 0, 0),
    }
}

/// The label of the cluster shown, a dash when none is.
pub open spec fn cluster_label_of(o: AppState) -> Seq<char> {
    match active_index(o.sidebar.connections@, o.sidebar.active_id) {
        Some(p) => o.sidebar.connections@[p].item.label@,
        None => "—"@,
    }
}

/// The shell version of the cluster shown, `mongosh 2.4.0` when none is.
pub open spec fn shell_version_of(o: AppState) -> Seq<char> {
    match active_index(o.sidebar.connections@, o.sidebar.active_id) {
        Some(p) => o.sidebar.connections@[p].item.shell_version@,
        None => "mongosh 2.4.0"@,
    }
}

fn count_recent(es: &Vec<QueryEntry>, now_ms: u64) -> (r: usize)
    ensures
        r == recent_count(es@, now_ms),
{
    let lo: u64 = if now_ms >= 1000 {
        now_ms - 1000
    } else {
        0
    };
    let mut c: usize = 0;
    let mut i: usize = 0;
    while i < es.len()
        invariant
            0 <= i <= es@.len(),
            lo == second_before(now_ms),
            c == recent_count(es@.take(i as int), now_ms),
            c <= i,
        decreases es@.len() - i,
    {
        assert(es@.take(i + 1).drop_last() =~= es@.take(i as int));
        reveal(Seq::filter);
        if es[i].t_ms.into_inner() >= lo {
            c += 1;
        }
        i += 1;
    }
    assert(es@.take(es@.len() as int) =~= es@);
    c
}

/// Whether two selections are the same.
fn same_selection(a: Option<QueryId>, b: Option<QueryId>) -> (r: bool)
    ensures
        r == (a == b),
{
    match (a, b) {
        (Some(x), Some(y)) => x.same(&y),
        (None, None) => true,
        _ => false,
    }
}

/// The command that creates an index on `coll` over the keys of `f`.
fn index_command(coll: &str, f: &BsonDoc) -> (r: String)
    ensures
        r@ == create_index_command(coll@, keys_of(doc_entries(*f))),
{
    let n = f.len();
    let ghost ks = keys_of(doc_entries(*f));
    let ghost parts = ks.map_values(|k: Seq<char>| k + ": 1"@);
    let mut pairs: Vec<String> = Vec::new();
    let mut i: usize = 0;
    while i < n
        invariant
            n == doc_entries(*f).len(),
            ks == keys_of(doc_entries(*f)),
            parts == ks.map_values(|k: Seq<char>| k + ": 1"@),
            0 <= i <= n,
            strs(pairs@) == parts.take(i as int),
        decreases n - i,
    {
        match f.get_index(i) {
            Some((k, _)) => {
                let pair = concat(k.as_str(), ": 1");
                assert(ks[i as int] == k@);
                assert(parts[i as int] == pair@);
                let ghost before = pairs@;
                pairs.push(pair);
                assert(strs(pairs@) =~= strs(before).push(pair@));
                assert(strs(pairs@) =~= parts.take(i + 1));
            },
            None => {},
        }
        i += 1;
    }
    assert(parts.take(n as int) =~= parts);
    let body = join_with(&pairs, ", ");
    let head = concat(concat("db.", coll).as_str(), ".createIndex({ ");
    concat(concat(head.as_str(), body.as_str()).as_str(), " })")
}

impl AppState {
    /// Every feed's histogram is well formed.
    pub open spec fn wf(&self) -> bool {
        forall|i: int| 0 <= i < self.sidebar.connections@.len() ==> (#[trigger] self.sidebar.connections@[i]).feed.wf()
    }

    /// The window at start: no connection yet, so the add-connection
    /// dialog is open; dark theme, compact rows, MCP server stopped.
    pub fn new() -> (r: Self)
        ensures
            r.wf(),
            r.sidebar.connections@.len() == 0,
            r.sidebar.active_id is None,
            r.sidebar.dialog matches Some(d) && crate::sidebar_state::fresh_dialog(d),
            r.theme == Theme::Dark,
            r.density == Density::Compact,
            !r.mcp_panel.open,
            r.mcp_panel.server == McpServerState::Stopped,
            r.inspector.tab == InspectorTab::Overview,
            !r.inspector.explain.index_applied,
            r.inspector.compose@.len() == 0,
            r.inspector.rules@.len() == 4,
    {
        let mut sidebar = SidebarState::new();
        if sidebar.connections.len() == 0 {
            sidebar.dialog = Some(crate::connections::ConnectionDialogState::new());
        }
        AppState {
            sidebar,
            inspector: InspectorState::new(),
            theme: Theme::Dark,
            density: Density::Compact,
            mcp_panel: McpPanelState::new(),
        }
    }

    /// Carries the sidebar's selection over to the filter of the
    /// connection shown.
    fn sync_filter(&mut self, m: &SidebarMsg)
        requires
            !(m is Connections),
        ensures
            final(self).sidebar.active_id == old(self).sidebar.active_id,
            final(self).sidebar.dialog == old(self).sidebar.dialog,
            final(self).sidebar.connections@.len() == old(self).sidebar.connections@.len(),
            match active_index(old(self).sidebar.connections@, old(self).sidebar.active_id) {
                Some(p) => {
                    &&& forall|i: int|
                        0 <= i < old(self).sidebar.connections@.len() && i != p
                            ==> #[trigger] final(self).sidebar.connections@[i]
                            == old(self).sidebar.connections@[i]
                    &&& with_filter(
                        old(self).sidebar.connections@[p],
                        final(self).sidebar.connections@[p],
                        synced_filter(old(self).sidebar.connections@[p], *m),
                    )
                },
                None => final(self).sidebar.connections == old(self).sidebar.connections,
            },
            final(self).inspector == old(self).inspector,
            final(self).theme == old(self).theme,
            final(self).density == old(self).density,
            final(self).mcp_panel == old(self).mcp_panel,
    {
        let p = match self.sidebar.active_id {
            Some(id) => first_conn_index(&self.sidebar.connections, id),
            None => None,
        };
        let p = match p {
            Some(p) => p,
            None => {
                return;
            },
        };
        match m {
            SidebarMsg::Databases(_) => {
                let db = self.sidebar.active_db();
                let coll = self.sidebar.active_coll();
                self.sidebar.connections[p].feed.filter.set_scope(db, coll);
            },
            SidebarMsg::Clients(_) => {
                let app = self.sidebar.active_client();
                self.sidebar.connections[p].feed.filter.set_app(app);
            },
            SidebarMsg::Filters(FilterPanelMsg::Toggle(preset)) => {
                let current = self.sidebar.connections[p].feed.filter.filter.preset;
                let next = match current {
                    Some(c) => if c == *preset {
                        None
                    } else {
                        Some(*preset)
                    },
                    None => Some(*preset),
                };
                self.sidebar.connections[p].feed.filter.set_preset(next);
            },
            SidebarMsg::Connections(_) => {},
        }
    }

    /// Takes the requests captured on connection `conn_id`.
    pub fn queries_received(&mut self, conn_id: usize, entries: Vec<QueryEntry>, scrolling_up: bool) -> (act: AppAction)
        requires
            old(self).wf(),
            room_for_requests(*old(self), conn_id, entries@),
        ensures
            final(self).wf(),
            queries_taken(*old(self), *final(self), conn_id, entries@, scrolling_up, act),
    {
        let p = match first_conn_index(&self.sidebar.connections, conn_id) {
            Some(p) => p,
            None => {
                return AppAction::Nothing;
            },
        };
        if !self.sidebar.connections[p].capturing {
            return AppAction::Nothing;
        }
        let shown = match self.sidebar.active_id {
            Some(a) => a == conn_id,
            None => false,
        };
        assert(self.sidebar.connections@[p as int].feed.wf());
        self.sidebar.connections[p].register_entries(entries.as_slice());
        let added = self.sidebar.connections[p].feed.push_entries(entries);
        if added == 0 || !shown {
            return AppAction::Nothing;
        }
        if self.sidebar.connections[p].feed.scroll_locked {
            if scrolling_up {
                return AppAction::Nothing;
            }
            let by = self.sidebar.connections[p].feed.pending_scroll_by;
            self.sidebar.connections[p].feed.pending_scroll_by = by + 1;
            AppAction::ScrollBy(added)
        } else {
            let to = self.sidebar.connections[p].feed.pending_scroll_to;
            self.sidebar.connections[p].feed.pending_scroll_to = to + 1;
            AppAction::ScrollToTop
        }
    }


    /// The command to copy for the selected request's index.
    fn copy_index_command(&self) -> (r: Option<String>)
        ensures
            match r {
                Some(s) => copy_index_text(*self) == Some(s@),
                None => copy_index_text(*self) is None,
            },
    {
        let p = match self.sidebar.active_id {
            Some(id) => first_conn_index(&self.sidebar.connections, id),
            None => None,
        };
        let p = match p {
            Some(p) => p,
            None => {
                return None;
            },
        };
        let f = &self.sidebar.connections[p].feed;
        let id = match f.selected {
            Some(id) => id,
            None => {
                return None;
            },
        };
        let i = match find_request(&f.entries, id.into_inner()) {
            Some(i) => i,
            None => {
                return None;
            },
        };
        let e = &f.entries[i];
        match &e.filter {
            Some(doc) => Some(index_command(e.coll.as_str(), doc)),
            None => None,
        }
    }

    /// Hands a feed message to the feed shown.
    pub fn feed_event(&mut self, m: FeedMsg) -> (act: AppAction)
        requires
            old(self).wf(),
        ensures
            final(self).wf(),
            feed_event_applied(*old(self), *final(self), m, act),
    {
        let p = match self.sidebar.active_id {
            Some(id) => first_conn_index(&self.sidebar.connections, id),
            None => None,
        };
        let p = match p {
            Some(p) => p,
            None => {
                return AppAction::Nothing;
            },
        };
        assert(self.sidebar.connections@[p as int].feed.wf());
        let prev = self.sidebar.connections[p].feed.selected;
        let record = self.sidebar.connections[p].feed.update(m);
        let next = self.sidebar.connections[p].feed.selected;
        if !same_selection(prev, next) {
            self.inspector.explain = ExplainState::default();
            match next {
                Some(id) => match find_request(
                    &self.sidebar.connections[p].feed.entries,
                    id.into_inner(),
                ) {
                    Some(i) => self.inspector.seed_compose(&self.sidebar.connections[p].feed.entries[i]),
                    None => {},
                },
                None => {},
            }
            match next {
                Some(_) => AppAction::OpenInspector,
                None => AppAction::Nothing,
            }
        } else if record {
            AppAction::RecordScroll
        } else {
            AppAction::Nothing
        }
    }

    /// Handles a message of the inspector.
    pub fn inspector_event(&mut self, m: InspectorMsg) -> (act: AppAction)
        requires
            (m matches InspectorMsg::Rules(r) && r is AddNew) ==> max_rule_id(
                old(self).inspector.rules@,
            ) < usize::MAX,
        ensures
            inspector_event_applied(*old(self), *final(self), m, act),
    {
        match m {
            InspectorMsg::Close => AppAction::CloseInspector,
            InspectorMsg::ToggleMaximize => AppAction::ToggleMaximizeInspector,
            InspectorMsg::Explain(ExplainMsg::CopyIndex) => match self.copy_index_command() {
                Some(s) => AppAction::Clipboard(s),
                None => AppAction::Nothing,
            },
            other => {
                self.inspector.update(other);
                AppAction::Nothing
            },
        }
    }

    /// Handles a message of the connections panel or its dialog.
    fn connections_event(&mut self, m: ConnectionsMsg) -> (act: AppAction)
        requires
            old(self).wf(),
            (m is DialogDone && old(self).sidebar.dialog is Some) ==> max_id(
                old(self).sidebar.connections@,
            ) < usize::MAX,
        ensures
            final(self).wf(),
            sidebar_event_applied(*old(self), *final(self), SidebarMsg::Connections(m), act),
    {
        match m {
            ConnectionsMsg::DialogConnect => {
                let uri = match &self.sidebar.dialog {
                    Some(d) => d.uri.clone(),
                    None => String::new(),
                };
                self.sidebar.update(SidebarMsg::Connections(ConnectionsMsg::DialogConnect));
                proof {
                    self.lemma_kept_wf(*old(self));
                }
                AppAction::ConnectProxy(uri)
            },
            ConnectionsMsg::DialogCopyUri => match &self.sidebar.dialog {
                Some(d) => AppAction::Clipboard(proxy_uri_text(d.proxy_port)),
                None => AppAction::Nothing,
            },
            ConnectionsMsg::DialogDone => {
                self.sidebar.update(SidebarMsg::Connections(ConnectionsMsg::DialogDone));
                proof {
                    self.lemma_kept_wf(*old(self));
                }
                AppAction::RegisterConnection
            },
            other => {
                self.sidebar.update(SidebarMsg::Connections(other));
                proof {
                    self.lemma_kept_wf(*old(self));
                }
                AppAction::Nothing
            },
        }
    }

    /// Handles a message of the sidebar.
    pub fn sidebar_event(&mut self, m: SidebarMsg) -> (act: AppAction)
        requires
            old(self).wf(),
            (m matches SidebarMsg::Connections(c) && c is DialogDone && old(self).sidebar.dialog
                is Some) ==> max_id(old(self).sidebar.connections@) < usize::MAX,
        ensures
            final(self).wf(),
            sidebar_event_applied(*old(self), *final(self), m, act),
    {
        match m {
            SidebarMsg::Connections(c) => self.connections_event(c),
            other => {
                let copy = other.clone();
                self.sidebar.update(other);
                let ghost s1 = *self;
                proof {
                    let a = old(self).sidebar.connections@;
                    let b = s1.sidebar.connections@;
                    assert forall|i: int| 0 <= i < a.len() implies (#[trigger] a[i]).item.id
                        == b[i].item.id by {
                        if let Some(p) = active_index(a, old(self).sidebar.active_id) {
                            if i != p {
                                assert(b[i] == a[i]);
                            }
                        }
                    }
                    if let Some(id) = old(self).sidebar.active_id {
                        lemma_same_ids(a, b, id, 0);
                    }
                }
                self.sync_filter(&copy);
                AppAction::Nothing
            },
        }
    }

    /// Handles a message of the MCP panel.
    pub fn mcp_event(&mut self, m: McpMsg) -> (act: AppAction)
        ensures
            mcp_event_applied(*old(self), *final(self), m, act),
    {
        match m {
            McpMsg::Toggle => {
                self.mcp_panel.toggle();
                AppAction::Nothing
            },
            McpMsg::StartStop => {
                if self.mcp_panel.begin_start() {
                    AppAction::StartMcpServer
                } else {
                    self.mcp_panel.stop();
                    AppAction::StopMcpServer
                }
            },
            McpMsg::CopyConfig => match self.mcp_panel.server {
                McpServerState::Running { port } => AppAction::Clipboard(config_text(port)),
                _ => AppAction::Nothing,
            },
            _ => AppAction::Nothing,
        }
    }

    /// Switches capture on or off for the connection shown.
    pub fn toggle_capture(&mut self)
        requires
            old(self).wf(),
        ensures
            final(self).wf(),
            capture_toggled(*old(self), *final(self)),
    {
        let p = match self.sidebar.active_id {
            Some(id) => first_conn_index(&self.sidebar.connections, id),
            None => None,
        };
        match p {
            Some(p) => {
                let c = self.sidebar.connections[p].capturing;
                self.sidebar.connections[p].capturing = !c;
            },
            None => {},
        }
    }

    /// The address applications connect to.
    pub fn copy_uri(&self) -> (r: String)
        ensures
            r@ == proxy_uri(shown_port(*self)),
    {
        let p = match self.sidebar.active_id {
            Some(id) => first_conn_index(&self.sidebar.connections, id),
            None => None,
        };
        match p {
            Some(p) => proxy_uri_text(self.sidebar.connections[p].item.proxy_port),
            None => proxy_uri_text(27017),
        }
    }

    /// Handles an event of the window; says what the window has to do.
    pub fn update(&mut self, msg: AppMsg) -> (act: AppAction)
        requires
            old(self).wf(),
            update_fits(*old(self), msg),
        ensures
            final(self).wf(),
            app_updated(*old(self), *final(self), msg, act),
    {
        match msg {
            AppMsg::QueriesReceived { conn_id, entries, scrolling_up } => self.queries_received(
                conn_id,
                entries,
                scrolling_up,
            ),
            AppMsg::Feed(m) => self.feed_event(m),
            AppMsg::Inspector(m) => self.inspector_event(m),
            AppMsg::Sidebar(m) => self.sidebar_event(m),
            AppMsg::ToggleTheme => {
                self.theme = self.theme.toggle();
                AppAction::Nothing
            },
            AppMsg::ToggleDensity => {
                self.density = self.density.toggle();
                AppAction::Nothing
            },
            AppMsg::ToggleCapture => {
                self.toggle_capture();
                AppAction::Nothing
            },
            AppMsg::Menu(_) => AppAction::Nothing,
            AppMsg::Mcp(m) => self.mcp_event(m),
            AppMsg::McpServerReady(port) => {
                self.mcp_panel.on_started(port);
                AppAction::Nothing
            },
            AppMsg::McpServerFailed => {
                self.mcp_panel.stop();
                AppAction::Nothing
            },
            AppMsg::CopyUri => AppAction::Clipboard(self.copy_uri()),
        }
    }

    /// The feeds of a sidebar changed by a connections message are still
    /// well formed.
    proof fn lemma_kept_wf(&self, o: AppState)
        requires
            o.wf(),
            exists|cm: ConnectionsMsg| connections_updated(o.sidebar, self.sidebar, cm),
        ensures
            self.wf(),
    {
        let cm = choose|cm: ConnectionsMsg| connections_updated(o.sidebar, self.sidebar, cm);
        assert forall|i: int| 0 <= i < self.sidebar.connections@.len() implies (
        #[trigger] self.sidebar.connections@[i]).feed.wf() by {
            match cm {
                ConnectionsMsg::Select(id) => {
                    assert(self.sidebar.connections@[i] == with_item_active(
                        o.sidebar.connections@[i],
                        o.sidebar.connections@[i].item.id == id,
                    ));
                },
                ConnectionsMsg::DialogDone => {
                    if o.sidebar.dialog is Some && i < o.sidebar.connections@.len() {
                        assert(self.sidebar.connections@[i] == with_item_active(
                            o.sidebar.connections@[i],
                            false,
                        ));
                    }
                },
                _ => {},
            }
        }
    }


    /// The position of the connection shown.
    fn shown(&self) -> (r: Option<usize>)
        ensures
            match r {
                Some(k) => active_index(self.sidebar.connections@, self.sidebar.active_id) == Some(
                    k as int,
                ) && k < self.sidebar.connections@.len(),
                None => active_index(self.sidebar.connections@, self.sidebar.active_id) is None,
            },
    {
        match self.sidebar.active_id {
            Some(id) => first_conn_index(&self.sidebar.connections, id),
            None => None,
        }
    }

    /// What the status bar counts at `now_ms`.
    pub fn status(&self, now_ms: u64) -> (r: StatusCounts)
        ensures
            (r.recent as nat, r.total as nat, r.slow as nat) == status_of(*self, now_ms),
    {
        match self.shown() {
            Some(p) => {
                let es = &self.sidebar.connections[p].feed.entries;
                StatusCounts { recent: count_recent(es, now_ms), total: es.len(), slow: count_slow(es) }
            },
            None => StatusCounts { recent: 0, total: 0, slow: 0 },
        }
    }

    /// What the connection bar shows: the address to connect to, and
    /// whether a connection is shown.
    pub fn conn_info(&self) -> (r: ConnInfo)
        ensures
            r.uri@ == proxy_uri(shown_port(*self)),
            r.connected == active_index(self.sidebar.connections@, self.sidebar.active_id) is Some,
    {
        ConnInfo { uri: self.copy_uri(), connected: self.shown().is_some() }
    }

    /// Whether the connection shown captures; false when none is shown.
    pub fn capturing(&self) -> (r: bool)
        ensures
            r == match active_index(self.sidebar.connections@, self.sidebar.active_id) {
                Some(p) => self.sidebar.connections@[p].capturing,
                None => false,
            },
    {
        match self.shown() {
            Some(p) => self.sidebar.connections[p].capturing,
            None => false,
        }
    }

    /// The request selected in the feed shown.
    pub fn selected(&self) -> (r: Option<&QueryEntry>)
        ensures
            match selected_entry(*self) {
                Some(e) => r matches Some(x) && *x == e,
                None => r is None,
            },
    {
        let p = match self.shown() {
            Some(p) => p,
            None => {
                return None;
            },
        };
        let f = &self.sidebar.connections[p].feed;
        match f.selected {
            Some(id) => match find_request(&f.entries, id.into_inner()) {
                Some(i) => Some(&f.entries[i]),
                None => None,
            },
            None => None,
        }
    }

    /// The label of the cluster shown.
    pub fn cluster_label(&self) -> (r: &str)
        ensures
            r@ == cluster_label_of(*self),
    {
        match self.shown() {
            Some(p) => self.sidebar.connections[p].item.label.as_str(),
            None => "—",
        }
    }

    /// The shell version of the cluster shown.
    pub fn shell_version(&self) -> (r: &str)
        ensures
            r@ == shell_version_of(*self),
    {
        match self.shown() {
            Some(p) => self.sidebar.connections[p].item.shell_version.as_str(),
            None => "mongosh 2.4.0",
        }
    }

}

} // verus!
