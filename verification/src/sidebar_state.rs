//! The state behind the sidebar: the open connections, each with its
//! feed and the databases and clients seen on it, and the dialog that
//! adds a connection.

use vstd::prelude::*;
use crate::connections::{ConnectionDialogState, ConnectionItem, ConnectionsMsg, DialogStep};
use crate::filter::Preset;
use crate::sidebar::{
    apply_toggle_collection, apply_toggle_db, clients_toggled, toggle_client, toggled_collection,
    toggled_db, ClientsMsg, DatabasesMsg,
};
use crate::text::{
    before_first, chars_of, concat, decimal, decimal_string, find_first_or_end, strip_all,
    strip_all_from, string_of,
};
use crate::feed::{fresh_feed, FeedState};
use crate::model::QueryEntry;
use crate::sidebar::{app_color_for, app_rgb, ClientItem, CollectionItem, DatabaseItem};
use crate::text::str_eq;

verus! {

/// A connection with everything captured on it.
pub struct ConnectionState {
    pub item: ConnectionItem,
    pub feed: FeedState,
    pub databases: Vec<DatabaseItem>,
    pub clients: Vec<ClientItem>,
    pub capturing: bool,
}

/// The names of the clients `cs`, in order.
pub open spec fn client_names(cs: Seq<ClientItem>) -> Seq<Seq<char>> {
    cs.map_values(|c: ClientItem| c.name@)
}

/// The client names after an app is seen: a new name goes last.
pub open spec fn with_name(ns: Seq<Seq<char>>, a: Seq<char>) -> Seq<Seq<char>> {
    if ns.contains(a) {
        ns
    } else {
        ns.push(a)
    }
}

/// The client names after the requests `es` are seen.
pub open spec fn names_after(ns: Seq<Seq<char>>, es: Seq<QueryEntry>) -> Seq<Seq<char>>
    decreases es.len(),
{
    if es.len() == 0 {
        ns
    } else {
        with_name(names_after(ns, es.drop_last()), es.last().app@)
    }
}

/// The databases by name, each with its collections by name and request
/// count.
pub open spec fn db_model(ds: Seq<DatabaseItem>) -> Seq<(Seq<char>, Seq<(Seq<char>, u32)>)> {
    ds.map_values(
        |d: DatabaseItem|
            (d.name@, d.collections@.map_values(|c: CollectionItem| (c.name@, c.requests))),
    )
}

/// Position of the first entry of `s[i..]` named `k`.
pub open spec fn first_named<V>(s: Seq<(Seq<char>, V)>, k: Seq<char>, i: int) -> Option<int>
    decreases s.len() - i,
{
    if 0 <= i < s.len() {
        if s[i].0 == k {
            Some(i)
        } else {
            first_named(s, k, i + 1)
        }
    } else {
        None
    }
}

/// `n + 1`, kept at the largest count.
pub open spec fn plus_one(n: u32) -> u32 {
    if n < u32::MAX {
        (n + 1) as u32
    } else {
        n
    }
}

/// The collections after one more request on `coll`.
pub open spec fn coll_counted(cs: Seq<(Seq<char>, u32)>, coll: Seq<char>) -> Seq<(Seq<char>, u32)> {
    match first_named(cs, coll, 0) {
        Some(j) => cs.update(j, (coll, plus_one(cs[j].1))),
        None => cs.push((coll, 1u32)),
    }
}

/// The databases after one more request on `db.coll`.
pub open spec fn db_counted(
    m: Seq<(Seq<char>, Seq<(Seq<char>, u32)>)>,
    db: Seq<char>,
    coll: Seq<char>,
) -> Seq<(Seq<char>, Seq<(Seq<char>, u32)>)> {
    match first_named(m, db, 0) {
        Some(i) => m.update(i, (db, coll_counted(m[i].1, coll))),
        None => m.push((db, seq![(coll, 1u32)])),
    }
}

/// The databases after the requests `es`.
pub open spec fn dbs_after(
    m: Seq<(Seq<char>, Seq<(Seq<char>, u32)>)>,
    es: Seq<QueryEntry>,
) -> Seq<(Seq<char>, Seq<(Seq<char>, u32)>)>
    decreases es.len(),
{
    if es.len() == 0 {
        m
    } else {
        db_counted(dbs_after(m, es.drop_last()), es.last().db@, es.last().coll@)
    }
}

/// The clients `n` are `o` with new clients after them, each new one
/// unselected and coloured by its name.
pub open spec fn clients_extended(o: Seq<ClientItem>, n: Seq<ClientItem>) -> bool {
    &&& o.len() <= n.len()
    &&& forall|i: int| 0 <= i < o.len() ==> #[trigger] n[i] == o[i]
    &&& forall|i: int|
        o.len() <= i < n.len() ==> {
            let c = app_rgb((#[trigger] n[i]).name@);
            &&& !n[i].active
            &&& n[i].color[0] == c.0 && n[i].color[1] == c.1 && n[i].color[2] == c.2
        }
}

/// The collections by name and request count.
pub open spec fn coll_model(cs: Seq<CollectionItem>) -> Seq<(Seq<char>, u32)> {
    cs.map_values(|c: CollectionItem| (c.name@, c.requests))
}

/// The collections `n` are `o` with new ones after them: the old keep
/// their selection, the new are unselected.
pub open spec fn colls_extended(o: Seq<CollectionItem>, n: Seq<CollectionItem>) -> bool {
    &&& o.len() <= n.len()
    &&& forall|j: int| 0 <= j < o.len() ==> (#[trigger] n[j]).active == o[j].active
    &&& forall|j: int| o.len() <= j < n.len() ==> !(#[trigger] n[j]).active
}

/// The databases `n` are `o` with new ones after them: the old keep their
/// selection and expansion, new ones are expanded and unselected, and no
/// new collection is selected.
pub open spec fn dbs_extended(o: Seq<DatabaseItem>, n: Seq<DatabaseItem>) -> bool {
    &&& o.len() <= n.len()
    &&& forall|i: int|
        0 <= i < o.len() ==> {
            &&& (#[trigger] n[i]).expanded == o[i].expanded
            &&& n[i].active == o[i].active
            &&& colls_extended(o[i].collections@, n[i].collections@)
        }
    &&& forall|i: int|
        o.len() <= i < n.len() ==> {
            &&& (#[trigger] n[i]).expanded
            &&& !n[i].active
            &&& forall|j: int| 0 <= j < n[i].collections@.len() ==> !(#[trigger] n[i].collections@[j]).active
        }
}

proof fn lemma_clients_extended_trans(a: Seq<ClientItem>, b: Seq<ClientItem>, c: Seq<ClientItem>)
    requires
        clients_extended(a, b),
        clients_extended(b, c),
    ensures
        clients_extended(a, c),
{
    assert forall|i: int| a.len() <= i < c.len() implies {
        let k = app_rgb((#[trigger] c[i]).name@);
        &&& !c[i].active
        &&& c[i].color[0] == k.0 && c[i].color[1] == k.1 && c[i].color[2] == k.2
    } by {
        if i < b.len() {
            assert(c[i] == b[i]);
        }
    }
}

proof fn lemma_dbs_extended_trans(a: Seq<DatabaseItem>, b: Seq<DatabaseItem>, c: Seq<DatabaseItem>)
    requires
        dbs_extended(a, b),
        dbs_extended(b, c),
    ensures
        dbs_extended(a, c),
{
    assert forall|i: int| 0 <= i < a.len() implies {
        &&& (#[trigger] c[i]).expanded == a[i].expanded
        &&& c[i].active == a[i].active
        &&& colls_extended(a[i].collections@, c[i].collections@)
    } by {
        assert(colls_extended(a[i].collections@, b[i].collections@));
        assert(colls_extended(b[i].collections@, c[i].collections@));
    }
    assert forall|i: int| a.len() <= i < c.len() implies {
        &&& (#[trigger] c[i]).expanded
        &&& !c[i].active
        &&& forall|j: int| 0 <= j < c[i].collections@.len() ==> !(#[trigger] c[i].collections@[j]).active
    } by {
        if i < b.len() {
            assert(colls_extended(b[i].collections@, c[i].collections@));
        }
    }
}

fn register_client(clients: &mut Vec<ClientItem>, app: &str)
    ensures
        client_names(final(clients)@) == with_name(client_names(old(clients)@), app@),
        clients_extended(old(clients)@, final(clients)@),
{
    let n = clients.len();
    let mut i: usize = 0;
    while i < n
        invariant
            n == clients@.len(),
            clients@ == old(clients)@,
            0 <= i <= n,
            forall|k: int| 0 <= k < i ==> client_names(clients@)[k] != app@,
        decreases n - i,
    {
        if str_eq(clients[i].name.as_str(), app) {
            assert(client_names(clients@)[i as int] == app@);
            assert(client_names(clients@).contains(app@));
            return;
        }
        i += 1;
    }
    let color = app_color_for(app);
    let ghost names = client_names(clients@);
    assert(!names.contains(app@));
    clients.push(ClientItem { name: app.to_string(), color, active: false });
    assert(client_names(clients@) =~= names.push(app@));
}

fn count_in_collections(colls: &mut Vec<CollectionItem>, coll: &str)
    ensures
        coll_model(final(colls)@) == coll_counted(coll_model(old(colls)@), coll@),
        colls_extended(old(colls)@, final(colls)@),
{
    let n = colls.len();
    let ghost m = coll_model(colls@);
    let mut j: usize = 0;
    while j < n
        invariant
            n == colls@.len(),
            colls@ == old(colls)@,
            m == coll_model(colls@),
            0 <= j <= n,
            first_named(m, coll@, 0) == first_named(m, coll@, j as int),
        decreases n - j,
    {
        if str_eq(colls[j].name.as_str(), coll) {
            let r = colls[j].requests;
            let c = &mut colls[j];
            c.requests = if r < u32::MAX {
                r + 1
            } else {
                r
            };
            assert(coll_model(colls@) =~= m.update(j as int, (coll@, plus_one(m[j as int].1))));
            return;
        }
        j += 1;
    }
    colls.push(CollectionItem { name: coll.to_string(), requests: 1, active: false });
    assert(coll_model(colls@) =~= m.push((coll@, 1u32)));
}

fn count_request(databases: &mut Vec<DatabaseItem>, db: &str, coll: &str)
    ensures
        db_model(final(databases)@) == db_counted(db_model(old(databases)@), db@, coll@),
        dbs_extended(old(databases)@, final(databases)@),
{
    let n = databases.len();
    let ghost m = db_model(databases@);
    let mut i: usize = 0;
    while i < n
        invariant
            n == databases@.len(),
            databases@ == old(databases)@,
            m == db_model(databases@),
            0 <= i <= n,
            first_named(m, db@, 0) == first_named(m, db@, i as int),
        decreases n - i,
    {
        if str_eq(databases[i].name.as_str(), db) {
            let d = &mut databases[i];
            count_in_collections(&mut d.collections, coll);
            assert(db_model(databases@) =~= m.update(
                i as int,
                (db@, coll_counted(m[i as int].1, coll@)),
            ));
            return;
        }
        i += 1;
    }
    let first = CollectionItem { name: coll.to_string(), requests: 1, active: false };
    databases.push(
        DatabaseItem {
            name: db.to_string(),
            expanded: true,
            active: false,
            collections: vec![first],
        },
    );
    assert(db_model(databases@)[n as int].1 =~= seq![(coll@, 1u32)]);
    assert(db_model(databases@) =~= m.push((db@, seq![(coll@, 1u32)])));
}

impl ConnectionState {
    /// A capturing connection with an empty feed and nothing seen yet.
    pub fn new(item: ConnectionItem) -> (r: Self)
        ensures
            r.item == item,
            fresh_feed(r.feed),
            r.databases@.len() == 0,
            r.clients@.len() == 0,
            r.capturing,
    {
        ConnectionState {
            item,
            feed: FeedState::new(),
            databases: Vec::new(),
            clients: Vec::new(),
            capturing: true,
        }
    }

    /// Lists the app, database and collection of each request: a new app
    /// becomes an unselected client, a new database or collection is
    /// added with one request, a known collection counts one more.
    pub fn register_entries(&mut self, entries: &[QueryEntry])
        ensures
            client_names(final(self).clients@) == names_after(
                client_names(old(self).clients@),
                entries@,
            ),
            clients_extended(old(self).clients@, final(self).clients@),
            db_model(final(self).databases@) == dbs_after(
                db_model(old(self).databases@),
                entries@,
            ),
            dbs_extended(old(self).databases@, final(self).databases@),
            final(self).item == old(self).item,
            final(self).feed == old(self).feed,
            final(self).capturing == old(self).capturing,
    {
        let mut k: usize = 0;
        while k < entries.len()
            invariant
                0 <= k <= entries@.len(),
                client_names(self.clients@) == names_after(
                    client_names(old(self).clients@),
                    entries@.take(k as int),
                ),
                clients_extended(old(self).clients@, self.clients@),
                db_model(self.databases@) == dbs_after(
                    db_model(old(self).databases@),
                    entries@.take(k as int),
                ),
                dbs_extended(old(self).databases@, self.databases@),
                self.item == old(self).item,
                self.feed == old(self).feed,
                self.capturing == old(self).capturing,
            decreases entries@.len() - k,
        {
            let e = &entries[k];
            let ghost before_c = self.clients@;
            let ghost before_d = self.databases@;
            assert(entries@.take(k + 1).drop_last() =~= entries@.take(k as int));
            register_client(&mut self.clients, e.app.as_str());
            count_request(&mut self.databases, e.db.as_str(), e.coll.as_str());
            proof {
                lemma_clients_extended_trans(old(self).clients@, before_c, self.clients@);
                lemma_dbs_extended_trans(old(self).databases@, before_d, self.databases@);
            }
            k += 1;
        }
        assert(entries@.take(entries@.len() as int) =~= entries@);
    }
}

/// What the preset filters panel asks for.
#[derive(Debug, Clone, Copy)]
pub enum FilterPanelMsg {
    Toggle(Preset),
}

/// A saved feed view.
#[derive(Debug, Clone)]
pub struct SavedView {
    pub id: usize,
    pub label: String,
}

/// What the saved views panel asks for.
#[derive(Debug, Clone, Copy)]
pub enum SavedViewsMsg {
    Load(usize),
    Delete(usize),
    Save,
}

/// What the sidebar asks for.
#[derive(Debug)]
pub enum SidebarMsg {
    Connections(ConnectionsMsg),
    Databases(DatabasesMsg),
    Clients(ClientsMsg),
    Filters(FilterPanelMsg),
}

impl Clone for SidebarMsg {
    fn clone(&self) -> (r: Self)
        ensures
            r == *self,
    {
        match self {
            SidebarMsg::Connections(m) => SidebarMsg::Connections(m.clone()),
            SidebarMsg::Databases(m) => SidebarMsg::Databases(m.clone()),
            SidebarMsg::Clients(m) => SidebarMsg::Clients(m.clone()),
            SidebarMsg::Filters(m) => SidebarMsg::Filters(*m),
        }
    }
}

/// The sidebar: the connections, which one is shown, and the dialog.
pub struct SidebarState {
    pub connections: Vec<ConnectionState>,
    pub active_id: Option<usize>,
    pub dialog: Option<ConnectionDialogState>,
}

/// Position of the first connection of `cs[i..]` with id `id`.
pub open spec fn conn_index_from(cs: Seq<ConnectionState>, id: usize, i: int) -> Option<int>
    decreases cs.len() - i,
{
    if 0 <= i < cs.len() {
        if cs[i].item.id == id {
            Some(i)
        } else {
            conn_index_from(cs, id, i + 1)
        }
    } else {
        None
    }
}

/// Position of the connection shown, if any.
pub open spec fn active_index(cs: Seq<ConnectionState>, active_id: Option<usize>) -> Option<int> {
    match active_id {
        Some(id) => conn_index_from(cs, id, 0),
        None => None,
    }
}

/// The largest connection id, zero without connections.
pub open spec fn max_id(cs: Seq<ConnectionState>) -> int
    decreases cs.len(),
{
    if cs.len() == 0 {
        0
    } else {
        let m = max_id(cs.drop_last());
        if cs.last().item.id > m {
            cs.last().item.id as int
        } else {
            m
        }
    }
}

/// The label of a connection added without a name: its URI without the
/// scheme, up to the first `/`.
pub open spec fn label_from_uri(uri: Seq<char>) -> Seq<char> {
    before_first(strip_all(strip_all(uri, "mongodb://"@), "mongodb+srv://"@), '/')
}

/// The topology line of a connection through the proxy on `port`.
pub open spec fn topology_for(port: u16) -> Seq<char> {
    "direct · proxy :"@ + decimal(port as nat)
}

/// The connection `c` with its item's selection set to `a`.
pub open spec fn with_item_active(c: ConnectionState, a: bool) -> ConnectionState {
    ConnectionState { item: ConnectionItem { active: a, ..c.item }, ..c }
}

/// The dialog after a message that only edits it.
pub open spec fn dialog_edited(d: ConnectionDialogState, m: ConnectionsMsg) -> ConnectionDialogState {
    match m {
        ConnectionsMsg::DialogUriChanged(s) => ConnectionDialogState { uri: s, error: None, ..d },
        ConnectionsMsg::DialogNameChanged(s) => ConnectionDialogState { name: s, ..d },
        ConnectionsMsg::DialogColorChanged(c) => ConnectionDialogState { color: c, ..d },
        ConnectionsMsg::DialogConnect => ConnectionDialogState {
            step: DialogStep::Step1 { connecting: true },
            error: None,
            ..d
        },
        ConnectionsMsg::DialogConnectResult(Ok(port)) => ConnectionDialogState {
            proxy_port: port,
            step: DialogStep::Step2,
            ..d
        },
        ConnectionsMsg::DialogConnectResult(Err(e)) => ConnectionDialogState {
            step: DialogStep::Step1 { connecting: false },
            error: Some(e),
            ..d
        },
        ConnectionsMsg::DialogBack => ConnectionDialogState {
            step: DialogStep::Step1 { connecting: false },
            ..d
        },
        _ => d,
    }
}

/// Whether `d` is the dialog `ConnectionDialogState::new` gives.
pub open spec fn fresh_dialog(d: ConnectionDialogState) -> bool {
    &&& d.step == (DialogStep::Step1 { connecting: false })
    &&& d.uri@ == "mongodb://localhost:27017/"@
    &&& d.name@.len() == 0
    &&& d.color == crate::connections::ConnectionColor::NoColor
    &&& d.error is None
    &&& d.proxy_port == 0
}

/// The connection the dialog `d` adds, with id `id`.
pub open spec fn added_item(d: ConnectionDialogState, id: usize, item: ConnectionItem) -> bool {
    &&& item.id == id
    &&& item.label@ == if d.name@.len() == 0 {
        label_from_uri(d.uri@)
    } else {
        d.name@
    }
    &&& item.topology@ == topology_for(d.proxy_port)
    &&& item.uri == d.uri
    &&& item.proxy_port == d.proxy_port
    &&& item.color == d.color
    &&& item.active
    &&& item.live
    &&& item.shell_version@ == "mongosh 2.4.0"@
}

proof fn lemma_conn_index_from(cs: Seq<ConnectionState>, id: usize, i: int)
    requires
        0 <= i,
    ensures
        match conn_index_from(cs, id, i) {
            Some(p) => i <= p < cs.len() && cs[p].item.id == id,
            None => forall|k: int| i <= k < cs.len() ==> (#[trigger] cs[k]).item.id != id,
        },
    decreases cs.len() - i,
{
    if 0 <= i < cs.len() && cs[i].item.id != id {
        lemma_conn_index_from(cs, id, i + 1);
    }
}

pub(crate) fn first_conn_index(cs: &Vec<ConnectionState>, id: usize) -> (r: Option<usize>)
    ensures
        match r {
            Some(p) => conn_index_from(cs@, id, 0) == Some(p as int) && p < cs@.len()
                && cs@[p as int].item.id == id,
            None => conn_index_from(cs@, id, 0) is None,
        },
{
    proof {
        lemma_conn_index_from(cs@, id, 0);
    }
    let mut i: usize = 0;
    while i < cs.len()
        invariant
            0 <= i <= cs@.len(),
            conn_index_from(cs@, id, 0) == conn_index_from(cs@, id, i as int),
        decreases cs@.len() - i,
    {
        if cs[i].item.id == id {
            return Some(i);
        }
        i += 1;
    }
    proof {
        lemma_conn_index_from(cs@, id, 0);
    }
    None
}

fn uri_label(uri: &str) -> (r: String)
    ensures
        r@ == label_from_uri(uri@),
{
    let v = chars_of(uri);
    let a = strip_all_from(&v, 0, "mongodb://");
    let b = strip_all_from(&v, a, "mongodb+srv://");
    proof {
        assert(v@.skip(0) =~= v@);
        assert(v@.subrange(b as int, v@.len() as int) =~= v@.skip(b as int));
    }
    let e = find_first_or_end(&v, b, v.len(), '/');
    string_of(&v, b, e)
}

/// Position of the first selected database of `ds[i..]`.
pub open spec fn first_active_db(ds: Seq<DatabaseItem>, i: int) -> Option<int>
    decreases ds.len() - i,
{
    if 0 <= i < ds.len() {
        if ds[i].active {
            Some(i)
        } else {
            first_active_db(ds, i + 1)
        }
    } else {
        None
    }
}

/// Position of the first selected collection of `cs[i..]`.
pub open spec fn first_active_coll(cs: Seq<CollectionItem>, i: int) -> Option<int>
    decreases cs.len() - i,
{
    if 0 <= i < cs.len() {
        if cs[i].active {
            Some(i)
        } else {
            first_active_coll(cs, i + 1)
        }
    } else {
        None
    }
}

/// Position of the first selected client of `cs[i..]`.
pub open spec fn first_active_client(cs: Seq<ClientItem>, i: int) -> Option<int>
    decreases cs.len() - i,
{
    if 0 <= i < cs.len() {
        if cs[i].active {
            Some(i)
        } else {
            first_active_client(cs, i + 1)
        }
    } else {
        None
    }
}

/// The name of the first selected database.
pub open spec fn active_db_name(ds: Seq<DatabaseItem>) -> Option<String> {
    match first_active_db(ds, 0) {
        Some(i) => Some(ds[i].name),
        None => None,
    }
}

/// The name of the first selected collection of the first selected
/// database.
pub open spec fn active_coll_name(ds: Seq<DatabaseItem>) -> Option<String> {
    match first_active_db(ds, 0) {
        Some(i) => match first_active_coll(ds[i].collections@, 0) {
            Some(k) => Some(ds[i].collections@[k].name),
            None => None,
        },
        None => None,
    }
}

/// The name of the first selected client.
pub open spec fn active_client_name(cs: Seq<ClientItem>) -> Option<String> {
    match first_active_client(cs, 0) {
        Some(i) => Some(cs[i].name),
        None => None,
    }
}

proof fn lemma_first_active_db(ds: Seq<DatabaseItem>, i: int)
    requires
        0 <= i,
    ensures
        first_active_db(ds, i) matches Some(p) ==> i <= p < ds.len(),
    decreases ds.len() - i,
{
    if 0 <= i < ds.len() && !ds[i].active {
        lemma_first_active_db(ds, i + 1);
    }
}

proof fn lemma_first_active_coll(cs: Seq<CollectionItem>, i: int)
    requires
        0 <= i,
    ensures
        first_active_coll(cs, i) matches Some(p) ==> i <= p < cs.len(),
    decreases cs.len() - i,
{
    if 0 <= i < cs.len() && !cs[i].active {
        lemma_first_active_coll(cs, i + 1);
    }
}

fn first_active_db_index(ds: &Vec<DatabaseItem>) -> (r: Option<usize>)
    ensures
        match r {
            Some(i) => first_active_db(ds@, 0) == Some(i as int) && i < ds@.len(),
            None => first_active_db(ds@, 0) is None,
        },
{
    proof {
        lemma_first_active_db(ds@, 0);
    }
    let mut i: usize = 0;
    while i < ds.len()
        invariant
            0 <= i <= ds@.len(),
            first_active_db(ds@, 0) == first_active_db(ds@, i as int),
        decreases ds@.len() - i,
    {
        if ds[i].active {
            return Some(i);
        }
        i += 1;
    }
    None
}

fn first_active_coll_index(cs: &Vec<CollectionItem>) -> (r: Option<usize>)
    ensures
        match r {
            Some(i) => first_active_coll(cs@, 0) == Some(i as int) && i < cs@.len(),
            None => first_active_coll(cs@, 0) is None,
        },
{
    proof {
        lemma_first_active_coll(cs@, 0);
    }
    let mut i: usize = 0;
    while i < cs.len()
        invariant
            0 <= i <= cs@.len(),
            first_active_coll(cs@, 0) == first_active_coll(cs@, i as int),
        decreases cs@.len() - i,
    {
        if cs[i].active {
            return Some(i);
        }
        i += 1;
    }
    None
}

impl SidebarState {
    /// No connection, none shown, no dialog.
    pub fn new() -> (r: Self)
        ensures
            r.connections@.len() == 0,
            r.active_id is None,
            r.dialog is None,
    {
        SidebarState { connections: Vec::new(), active_id: None, dialog: None }
    }

    /// The connection shown.
    pub fn active(&self) -> (r: Option<&ConnectionState>)
        ensures
            match active_index(self.connections@, self.active_id) {
                Some(p) => r matches Some(c) && *c == self.connections@[p],
                None => r is None,
            },
    {
        let id = match self.active_id {
            Some(id) => id,
            None => {
                return None;
            },
        };
        match first_conn_index(&self.connections, id) {
            Some(p) => {
                Some(&self.connections[p])
            },
            None => None,
        }
    }

    /// The selected database of the connection shown.
    pub fn active_db(&self) -> (r: Option<String>)
        ensures
            r == match active_index(self.connections@, self.active_id) {
                Some(p) => active_db_name(self.connections@[p].databases@),
                None => None,
            },
    {
        let conn = match self.active() {
            Some(c) => c,
            None => {
                return None;
            },
        };
        match first_active_db_index(&conn.databases) {
            Some(i) => Some(conn.databases[i].name.clone()),
            None => None,
        }
    }

    /// The selected collection of the selected database of the connection
    /// shown.
    pub fn active_coll(&self) -> (r: Option<String>)
        ensures
            r == match active_index(self.connections@, self.active_id) {
                Some(p) => active_coll_name(self.connections@[p].databases@),
                None => None,
            },
    {
        let conn = match self.active() {
            Some(c) => c,
            None => {
                return None;
            },
        };
        match first_active_db_index(&conn.databases) {
            Some(i) => {
                let d = &conn.databases[i];
                match first_active_coll_index(&d.collections) {
                    Some(k) => Some(d.collections[k].name.clone()),
                    None => None,
                }
            },
            None => None,
        }
    }

    /// The selected client of the connection shown.
    pub fn active_client(&self) -> (r: Option<String>)
        ensures
            r == match active_index(self.connections@, self.active_id) {
                Some(p) => active_client_name(self.connections@[p].clients@),
                None => None,
            },
    {
        let conn = match self.active() {
            Some(c) => c,
            None => {
                return None;
            },
        };
        let mut i: usize = 0;
        while i < conn.clients.len()
            invariant
                match active_index(self.connections@, self.active_id) {
                    Some(p) => *conn == self.connections@[p],
                    None => false,
                },
                0 <= i <= conn.clients@.len(),
                first_active_client(conn.clients@, 0) == first_active_client(conn.clients@, i as int),
            decreases conn.clients@.len() - i,
        {
            if conn.clients[i].active {
                return Some(conn.clients[i].name.clone());
            }
            i += 1;
        }
        None
    }
}

/// The sidebar `n` is `o` after the connections message `m`.
pub open spec fn connections_updated(o: SidebarState, n: SidebarState, m: ConnectionsMsg) -> bool {
    match m {
        ConnectionsMsg::Select(id) => {
            &&& n.connections@ == o.connections@.map_values(
                |c: ConnectionState| with_item_active(c, c.item.id == id),
            )
            &&& n.active_id == Some(id)
            &&& n.dialog == o.dialog
        },
        ConnectionsMsg::Add => {
            &&& n.connections == o.connections
            &&& n.active_id == o.active_id
            &&& match o.dialog {
                None => n.dialog matches Some(d) && fresh_dialog(d),
                Some(_) => n.dialog == o.dialog,
            }
        },
        ConnectionsMsg::DialogDone => {
            &&& n.dialog is None
            &&& match o.dialog {
                Some(d) => {
                    let id = (max_id(o.connections@) + 1) as usize;
                    let k = o.connections@.len() as int;
                    &&& n.connections@.len() == k + 1
                    &&& forall|i: int|
                        0 <= i < k ==> #[trigger] n.connections@[i] == with_item_active(
                            o.connections@[i],
                            false,
                        )
                    &&& added_item(d, id, n.connections@[k].item)
                    &&& n.connections@[k].capturing
                    &&& fresh_feed(n.connections@[k].feed)
                    &&& n.connections@[k].databases@.len() == 0
                    &&& n.connections@[k].clients@.len() == 0
                    &&& n.active_id == Some(id)
                },
                None => n.connections == o.connections && n.active_id == o.active_id,
            }
        },
        ConnectionsMsg::DialogCancel => {
            &&& n.connections == o.connections
            &&& n.active_id == o.active_id
            &&& n.dialog is None
        },
        ConnectionsMsg::DialogCopyUri | ConnectionsMsg::DialogNoop => n == o,
        _ => {
            &&& n.connections == o.connections
            &&& n.active_id == o.active_id
            &&& n.dialog == match o.dialog {
                Some(d) => Some(dialog_edited(d, m)),
                None => None,
            }
        },
    }
}

/// The sidebar `n` is `o` with only the lists of the connection shown
/// changed, as `changed` says of the old and new connection.
pub open spec fn shown_connection_updated(
    o: SidebarState,
    n: SidebarState,
    changed: spec_fn(ConnectionState, ConnectionState) -> bool,
) -> bool {
    &&& n.active_id == o.active_id
    &&& n.dialog == o.dialog
    &&& match active_index(o.connections@, o.active_id) {
        None => n.connections == o.connections,
        Some(p) => {
            &&& n.connections@.len() == o.connections@.len()
            &&& forall|i: int|
                0 <= i < o.connections@.len() && i != p ==> #[trigger] n.connections@[i]
                    == o.connections@[i]
            &&& n.connections@[p].item == o.connections@[p].item
            &&& n.connections@[p].feed == o.connections@[p].feed
            &&& n.connections@[p].capturing == o.connections@[p].capturing
            &&& changed(o.connections@[p], n.connections@[p])
        },
    }
}

impl SidebarState {
    fn update_connections(&mut self, m: ConnectionsMsg)
        requires
            (m is DialogDone && old(self).dialog is Some) ==> max_id(old(self).connections@)
                < usize::MAX,
        ensures
            connections_updated(*old(self), *final(self), m),
    {
        match m {
            ConnectionsMsg::Select(id) => {
                let n = self.connections.len();
                let mut i: usize = 0;
                while i < n
                    invariant
                        n == old(self).connections@.len(),
                        self.connections@.len() == n,
                        0 <= i <= n,
                        self.active_id == old(self).active_id,
                        self.dialog == old(self).dialog,
                        forall|k: int|
                            0 <= k < i ==> #[trigger] self.connections@[k] == with_item_active(
                                old(self).connections@[k],
                                old(self).connections@[k].item.id == id,
                            ),
                        forall|k: int| i <= k < n ==> #[trigger] self.connections@[k] == old(self).connections@[k],
                    decreases n - i,
                {
                    let c = &mut self.connections[i];
                    c.item.active = c.item.id == id;
                    i += 1;
                }
                self.active_id = Some(id);
                assert(self.connections@ =~= old(self).connections@.map_values(
                    |c: ConnectionState| with_item_active(c, c.item.id == id),
                ));
            },
            ConnectionsMsg::Add => {
                if self.dialog.is_none() {
                    self.dialog = Some(ConnectionDialogState::new());
                }
            },
            ConnectionsMsg::DialogUriChanged(s) => {
                match &mut self.dialog {
                    Some(d) => {
                        d.uri = s;
                        d.error = None;
                    },
                    None => {},
                }
            },
            ConnectionsMsg::DialogNameChanged(s) => {
                match &mut self.dialog {
                    Some(d) => {
                        d.name = s;
                    },
                    None => {},
                }
            },
            ConnectionsMsg::DialogColorChanged(c) => {
                match &mut self.dialog {
                    Some(d) => {
                        d.color = c;
                    },
                    None => {},
                }
            },
            ConnectionsMsg::DialogConnect => {
                match &mut self.dialog {
                    Some(d) => {
                        d.step = DialogStep::Step1 { connecting: true };
                        d.error = None;
                    },
                    None => {},
                }
            },
            ConnectionsMsg::DialogConnectResult(Ok(port)) => {
                match &mut self.dialog {
                    Some(d) => {
                        d.proxy_port = port;
                        d.step = DialogStep::Step2;
                    },
                    None => {},
                }
            },
            ConnectionsMsg::DialogConnectResult(Err(e)) => {
                match &mut self.dialog {
                    Some(d) => {
                        d.step = DialogStep::Step1 { connecting: false };
                        d.error = Some(e);
                    },
                    None => {},
                }
            },
            ConnectionsMsg::DialogBack => {
                match &mut self.dialog {
                    Some(d) => {
                        d.step = DialogStep::Step1 { connecting: false };
                    },
                    None => {},
                }
            },
            ConnectionsMsg::DialogDone => {
                match &self.dialog {
                    Some(d) => {
                        let n = self.connections.len();
                        let mut top: usize = 0;
                        let mut i: usize = 0;
                        while i < n
                            invariant
                                n == self.connections@.len(),
                                0 <= i <= n,
                                top as int == max_id(self.connections@.take(i as int)),
                            decreases n - i,
                        {
                            assert(self.connections@.take(i + 1).drop_last() =~= self.connections@.take(i as int));
                            if self.connections[i].item.id > top {
                                top = self.connections[i].item.id;
                            }
                            i += 1;
                        }
                        assert(self.connections@.take(n as int) =~= self.connections@);
                        let next_id = top + 1;
                        let label = if d.name.as_str().is_empty() {
                            uri_label(d.uri.as_str())
                        } else {
                            d.name.clone()
                        };
                        let port_text = decimal_string(d.proxy_port as u64);
                        let topology = concat("direct · proxy :", port_text.as_str());
                        let item = ConnectionItem {
                            id: next_id,
                            label,
                            topology,
                            uri: d.uri.clone(),
                            proxy_port: d.proxy_port,
                            color: d.color,
                            active: true,
                            live: true,
                            shell_version: "mongosh 2.4.0".to_string(),
                        };
                        let mut j: usize = 0;
                        while j < n
                            invariant
                                n == old(self).connections@.len(),
                                self.connections@.len() == n,
                                0 <= j <= n,
                                forall|k: int|
                                    0 <= k < j ==> #[trigger] self.connections@[k] == with_item_active(
                                        old(self).connections@[k],
                                        false,
                                    ),
                                forall|k: int| j <= k < n ==> #[trigger] self.connections@[k] == old(self).connections@[k],
                            decreases n - j,
                        {
                            self.connections[j].item.active = false;
                            j += 1;
                        }
                        self.connections.push(ConnectionState::new(item));
                        self.active_id = Some(next_id);
                    },
                    None => {},
                }
                self.dialog = None;
            },
            ConnectionsMsg::DialogCancel => {
                self.dialog = None;
            },
            ConnectionsMsg::DialogCopyUri => {},
            ConnectionsMsg::DialogNoop => {},
        }
    }

    /// Applies a sidebar message.
    pub fn update(&mut self, msg: SidebarMsg)
        requires
            (msg matches SidebarMsg::Connections(m) && m is DialogDone && old(self).dialog is Some)
                ==> max_id(old(self).connections@) < usize::MAX,
        ensures
            match msg {
                SidebarMsg::Connections(m) => connections_updated(*old(self), *final(self), m),
                SidebarMsg::Databases(DatabasesMsg::ToggleDb(name)) => shown_connection_updated(
                    *old(self),
                    *final(self),
                    |a: ConnectionState, b: ConnectionState|
                        toggled_db(a.databases@, b.databases@, name@) && b.clients == a.clients,
                ),
                SidebarMsg::Databases(DatabasesMsg::ToggleCollection(db, coll)) => shown_connection_updated(
                    *old(self),
                    *final(self),
                    |a: ConnectionState, b: ConnectionState|
                        toggled_collection(a.databases@, b.databases@, db@, coll@) && b.clients
                            == a.clients,
                ),
                SidebarMsg::Clients(ClientsMsg::Toggle(name)) => shown_connection_updated(
                    *old(self),
                    *final(self),
                    |a: ConnectionState, b: ConnectionState|
                        clients_toggled(a.clients@, b.clients@, name@) && b.databases
                            == a.databases,
                ),
                SidebarMsg::Filters(_) => *final(self) == *old(self),
            },
    {
        match msg {
            SidebarMsg::Connections(m) => self.update_connections(m),
            SidebarMsg::Databases(m) => {
                let p = match self.active_id {
                    Some(id) => first_conn_index(&self.connections, id),
                    None => None,
                };
                match p {
                    Some(p) => match m {
                        DatabasesMsg::ToggleDb(name) => {
                            apply_toggle_db(&mut self.connections[p].databases, name.as_str());
                        },
                        DatabasesMsg::ToggleCollection(db, coll) => {
                            apply_toggle_collection(
                                &mut self.connections[p].databases,
                                db.as_str(),
                                coll.as_str(),
                            );
                        },
                    },
                    None => {},
                }
            },
            SidebarMsg::Clients(ClientsMsg::Toggle(name)) => {
                let p = match self.active_id {
                    Some(id) => first_conn_index(&self.connections, id),
                    None => None,
                };
                match p {
                    Some(p) => {
                        toggle_client(&mut self.connections[p].clients, name.as_str());
                    },
                    None => {},
                }
            },
            SidebarMsg::Filters(_) => {},
        }
    }
}

/// No name occurs twice in `ns`.
pub open spec fn no_duplicates(ns: Seq<Seq<char>>) -> bool {
    forall|i: int, j: int| 0 <= i < j < ns.len() ==> ns[i] != ns[j]
}

/// Registering requests lists each app once: a list without repeated
/// names stays without, and every app seen is listed.
pub proof fn lemma_clients_listed_once(ns: Seq<Seq<char>>, es: Seq<QueryEntry>)
    requires
        no_duplicates(ns),
    ensures
        no_duplicates(names_after(ns, es)),
        forall|k: int| 0 <= k < es.len() ==> names_after(ns, es).contains(#[trigger] es[k].app@),
    decreases es.len(),
{
    if es.len() > 0 {
        let pre = names_after(ns, es.drop_last());
        lemma_clients_listed_once(ns, es.drop_last());
        let a = es.last().app@;
        let post = names_after(ns, es);
        assert forall|k: int| 0 <= k < es.len() implies post.contains(#[trigger] es[k].app@) by {
            if k < es.len() - 1 {
                assert(es.drop_last()[k] == es[k]);
                assert(pre.contains(es[k].app@));
                let w = choose|w: int| 0 <= w < pre.len() && pre[w] == es[k].app@;
                if !pre.contains(a) {
                    assert(post[w] == es[k].app@);
                }
            } else {
                if !pre.contains(a) {
                    assert(post[pre.len() as int] == a);
                }
            }
        }
    }
}

} // verus!
