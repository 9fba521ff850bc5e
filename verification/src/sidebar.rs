//! The sidebar's lists: databases with their collections, and client
//! applications, each with the selection rules the panels follow.

use vstd::prelude::*;
use crate::text::str_eq;
use vstd::string::StringSliceAdditionalSpecFns;

verus! {

/// A collection under a database in the sidebar.
#[derive(Debug, Clone)]
pub struct CollectionItem {
    pub name: String,
    pub requests: u32,
    pub active: bool,
}

/// A database in the sidebar.
#[derive(Debug, Clone)]
pub struct DatabaseItem {
    pub name: String,
    pub expanded: bool,
    pub active: bool,
    pub collections: Vec<CollectionItem>,
}

/// What the databases panel asks for.
#[derive(Debug)]
pub enum DatabasesMsg {
    ToggleDb(String),
    ToggleCollection(String, String),
}

impl Clone for DatabasesMsg {
    fn clone(&self) -> (r: Self)
        ensures
            r == *self,
    {
        match self {
            DatabasesMsg::ToggleDb(n) => DatabasesMsg::ToggleDb(n.clone()),
            DatabasesMsg::ToggleCollection(d, c) => DatabasesMsg::ToggleCollection(d.clone(), c.clone()),
        }
    }
}

/// `n` has the name and request count of `o`, with `active` set.
pub open spec fn coll_with(o: CollectionItem, n: CollectionItem, active: bool) -> bool {
    n.name == o.name && n.requests == o.requests && n.active == active
}

/// The database `n` keeps the name and collections of `o`; each collection
/// is active exactly when `coll_active` says.
pub open spec fn db_with(o: DatabaseItem, n: DatabaseItem, coll_active: spec_fn(CollectionItem) -> bool) -> bool {
    &&& n.name == o.name
    &&& n.collections@.len() == o.collections@.len()
    &&& forall|j: int|
        0 <= j < o.collections@.len() ==> coll_with(
            #[trigger] o.collections@[j],
            n.collections@[j],
            coll_active(o.collections@[j]),
        )
}

/// No collection of `d` is active.
pub open spec fn no_active_coll(d: DatabaseItem) -> bool {
    forall|j: int| 0 <= j < d.collections@.len() ==> !(#[trigger] d.collections@[j]).active
}

/// At most one database of `ds` is active.
pub open spec fn at_most_one_active_db(ds: Seq<DatabaseItem>) -> bool {
    forall|i: int, k: int| 0 <= i < ds.len() && 0 <= k < ds.len() && (#[trigger] ds[i]).active && (#[trigger] ds[k]).active ==> i == k
}

/// The databases `n` are `o` after the database `name` was toggled.
pub open spec fn toggled_db(o: Seq<DatabaseItem>, n: Seq<DatabaseItem>, name: Seq<char>) -> bool {
    &&& n.len() == o.len()
    &&& forall|i: int|
        0 <= i < o.len() ==> {
            let a = #[trigger] o[i];
            let b = n[i];
            &&& db_with(a, b, |c: CollectionItem| false)
            &&& if a.name@ == name {
                b.active == !a.active && b.expanded == b.active
            } else {
                !b.active && b.expanded == a.expanded
            }
        }
}

/// The databases `n` are `o` after the collection `coll` of the database
/// `db` was toggled.
pub open spec fn toggled_collection(
    o: Seq<DatabaseItem>,
    n: Seq<DatabaseItem>,
    db: Seq<char>,
    coll: Seq<char>,
) -> bool {
    &&& n.len() == o.len()
    &&& forall|i: int|
        0 <= i < o.len() ==> {
            let a = #[trigger] o[i];
            let b = n[i];
            if a.name@ == db {
                &&& b.active && b.expanded
                &&& db_with(a, b, |c: CollectionItem| c.name@ == coll && !c.active)
            } else {
                &&& !b.active && b.expanded == a.expanded
                &&& db_with(a, b, |c: CollectionItem| false)
            }
        }
}

fn clear_collections(colls: &mut Vec<CollectionItem>)
    ensures
        final(colls)@.len() == old(colls)@.len(),
        forall|j: int|
            0 <= j < old(colls)@.len() ==> coll_with(
                #[trigger] old(colls)@[j],
                final(colls)@[j],
                false,
            ),
{
    let n = colls.len();
    let mut j: usize = 0;
    while j < n
        invariant
            n == old(colls)@.len(),
            colls@.len() == n,
            0 <= j <= n,
            forall|k: int| 0 <= k < j ==> coll_with(#[trigger] old(colls)@[k], colls@[k], false),
            forall|k: int| j <= k < n ==> #[trigger] colls@[k] == old(colls)@[k],
        decreases n - j,
    {
        colls[j].active = false;
        j += 1;
    }
}

fn toggle_collection_in(colls: &mut Vec<CollectionItem>, coll_name: &str)
    ensures
        final(colls)@.len() == old(colls)@.len(),
        forall|j: int|
            0 <= j < old(colls)@.len() ==> coll_with(
                #[trigger] old(colls)@[j],
                final(colls)@[j],
                old(colls)@[j].name@ == coll_name@ && !old(colls)@[j].active,
            ),
{
    let m = colls.len();
    let mut j: usize = 0;
    while j < m
        invariant
            m == old(colls)@.len(),
            colls@.len() == m,
            0 <= j <= m,
            forall|k: int|
                0 <= k < j ==> coll_with(
                    #[trigger] old(colls)@[k],
                    colls@[k],
                    old(colls)@[k].name@ == coll_name@ && !old(colls)@[k].active,
                ),
            forall|k: int| j <= k < m ==> #[trigger] colls@[k] == old(colls)@[k],
        decreases m - j,
    {
        let c = &mut colls[j];
        if str_eq(c.name.as_str(), coll_name) {
            c.active = !c.active;
        } else {
            c.active = false;
        }
        j += 1;
    }
}

/// Selects the database `name`, or deselects it when it was selected; the
/// selected database is expanded, a deselected one collapsed; every other
/// database is deselected, and no collection stays selected.
pub fn apply_toggle_db(databases: &mut Vec<DatabaseItem>, name: &str)
    ensures
        toggled_db(old(databases)@, final(databases)@, name@),
{
    let n = databases.len();
    let mut i: usize = 0;
    while i < n
        invariant
            n == old(databases)@.len(),
            databases@.len() == n,
            0 <= i <= n,
            forall|k: int|
                0 <= k < i ==> {
                    let o = #[trigger] old(databases)@[k];
                    let d = databases@[k];
                    &&& db_with(o, d, |c: CollectionItem| false)
                    &&& if o.name@ == name@ {
                        d.active == !o.active && d.expanded == d.active
                    } else {
                        !d.active && d.expanded == o.expanded
                    }
                },
            forall|k: int| i <= k < n ==> #[trigger] databases@[k] == old(databases)@[k],
        decreases n - i,
    {
        let db = &mut databases[i];
        if str_eq(db.name.as_str(), name) {
            db.active = !db.active;
            if db.active {
                db.expanded = true;
            } else {
                db.expanded = false;
            }
            clear_collections(&mut db.collections);
        } else {
            db.active = false;
            clear_collections(&mut db.collections);
        }
        i += 1;
    }
}

/// Selects the collection `coll_name` of the database `db_name`, or
/// deselects it when it was selected; that database is selected and
/// expanded; every other database and collection is deselected.
pub fn apply_toggle_collection(databases: &mut Vec<DatabaseItem>, db_name: &str, coll_name: &str)
    ensures
        toggled_collection(old(databases)@, final(databases)@, db_name@, coll_name@),
{
    let n = databases.len();
    let mut i: usize = 0;
    while i < n
        invariant
            n == old(databases)@.len(),
            databases@.len() == n,
            0 <= i <= n,
            forall|k: int|
                0 <= k < i ==> {
                    let o = #[trigger] old(databases)@[k];
                    let d = databases@[k];
                    if o.name@ == db_name@ {
                        &&& d.active && d.expanded
                        &&& db_with(
                            o,
                            d,
                            |c: CollectionItem| c.name@ == coll_name@ && !c.active,
                        )
                    } else {
                        &&& !d.active && d.expanded == o.expanded
                        &&& db_with(o, d, |c: CollectionItem| false)
                    }
                },
            forall|k: int| i <= k < n ==> #[trigger] databases@[k] == old(databases)@[k],
        decreases n - i,
    {
        let db = &mut databases[i];
        if str_eq(db.name.as_str(), db_name) {
            db.active = true;
            db.expanded = true;
            toggle_collection_in(&mut db.collections, coll_name);
        } else {
            db.active = false;
            clear_collections(&mut db.collections);
        }
        i += 1;
    }
}

/// Names are distinct among the databases `ds`.
pub open spec fn distinct_db_names(ds: Seq<DatabaseItem>) -> bool {
    forall|i: int, k: int| 0 <= i < k < ds.len() ==> (#[trigger] ds[i]).name@ != (#[trigger] ds[k]).name@
}

/// Names are distinct among the collections of each database of `ds`.
pub open spec fn distinct_coll_names(ds: Seq<DatabaseItem>) -> bool {
    forall|i: int, j: int, k: int|
        0 <= i < ds.len() && 0 <= j < k < ds[i].collections@.len() ==> (#[trigger] ds[i].collections@[j]).name@
            != (#[trigger] ds[i].collections@[k]).name@
}

/// After a database is toggled, at most one database is selected and no
/// collection is.
pub proof fn lemma_toggle_db_single_selection(
    o: Seq<DatabaseItem>,
    n: Seq<DatabaseItem>,
    name: Seq<char>,
)
    requires
        toggled_db(o, n, name),
        distinct_db_names(o),
    ensures
        at_most_one_active_db(n),
        forall|i: int| 0 <= i < n.len() ==> no_active_coll(#[trigger] n[i]),
{
    assert forall|i: int, k: int|
        0 <= i < n.len() && 0 <= k < n.len() && (#[trigger] n[i]).active && (#[trigger] n[k]).active implies i == k by {
        assert(o[i].name@ == name);
        assert(o[k].name@ == name);
        if i < k {
            assert(o[i].name@ != o[k].name@);
        } else if k < i {
            assert(o[k].name@ != o[i].name@);
        }
    }
    assert forall|i: int| 0 <= i < n.len() implies no_active_coll(#[trigger] n[i]) by {
        let a = o[i];
        assert forall|j: int| 0 <= j < n[i].collections@.len() implies !(#[trigger] n[i].collections@[j]).active by {
            assert(coll_with(a.collections@[j], n[i].collections@[j], false));
        }
    }
}

/// Toggling the same database twice gives it back its selection.
pub proof fn lemma_toggle_db_twice(
    a: Seq<DatabaseItem>,
    b: Seq<DatabaseItem>,
    c: Seq<DatabaseItem>,
    name: Seq<char>,
    i: int,
)
    requires
        toggled_db(a, b, name),
        toggled_db(b, c, name),
        0 <= i < a.len(),
        a[i].name@ == name,
    ensures
        c[i].active == a[i].active,
        c[i].name == a[i].name,
{
    assert(b[i].name == a[i].name);
}

/// After a collection is toggled, at most one database and at most one
/// collection are selected, and a selected collection lies in the
/// selected database.
pub proof fn lemma_toggle_collection_single_selection(
    o: Seq<DatabaseItem>,
    n: Seq<DatabaseItem>,
    db: Seq<char>,
    coll: Seq<char>,
)
    requires
        toggled_collection(o, n, db, coll),
        distinct_db_names(o),
        distinct_coll_names(o),
    ensures
        at_most_one_active_db(n),
        forall|i: int, j: int|
            0 <= i < n.len() && 0 <= j < n[i].collections@.len() && (#[trigger] n[i].collections@[j]).active
                ==> n[i].active,
        forall|i: int, j: int, k: int|
            0 <= i < n.len() && 0 <= j < n[i].collections@.len() && 0 <= k < n[i].collections@.len()
                && (#[trigger] n[i].collections@[j]).active && (#[trigger] n[i].collections@[k]).active
                ==> j == k,
{
    assert forall|i: int, k: int|
        0 <= i < n.len() && 0 <= k < n.len() && (#[trigger] n[i]).active && (#[trigger] n[k]).active implies i == k by {
        assert(o[i].name@ == db);
        assert(o[k].name@ == db);
        if i < k {
            assert(o[i].name@ != o[k].name@);
        } else if k < i {
            assert(o[k].name@ != o[i].name@);
        }
    }
    assert forall|i: int, j: int|
        0 <= i < n.len() && 0 <= j < n[i].collections@.len() && (#[trigger] n[i].collections@[j]).active implies n[i].active by {
        let a = o[i];
        if a.name@ == db {
        } else {
            assert(coll_with(a.collections@[j], n[i].collections@[j], false));
        }
    }
    assert forall|i: int, j: int, k: int|
        0 <= i < n.len() && 0 <= j < n[i].collections@.len() && 0 <= k < n[i].collections@.len()
            && (#[trigger] n[i].collections@[j]).active && (#[trigger] n[i].collections@[k]).active implies j == k by {
        let a = o[i];
        if a.name@ == db {
            assert(coll_with(a.collections@[j], n[i].collections@[j], a.collections@[j].name@ == coll && !a.collections@[j].active));
            assert(coll_with(a.collections@[k], n[i].collections@[k], a.collections@[k].name@ == coll && !a.collections@[k].active));
            if j < k {
                assert(a.collections@[j].name@ != a.collections@[k].name@);
            } else if k < j {
                assert(a.collections@[k].name@ != a.collections@[j].name@);
            }
        } else {
            assert(coll_with(a.collections@[j], n[i].collections@[j], false));
        }
    }
}

/// A client application in the sidebar.
#[derive(Debug, Clone)]
pub struct ClientItem {
    pub name: String,
    pub color: [u8; 3],
    pub active: bool,
}

/// What the clients panel asks for.
#[derive(Debug)]
pub enum ClientsMsg {
    Toggle(String),
}

impl Clone for ClientsMsg {
    fn clone(&self) -> (r: Self)
        ensures
            r == *self,
    {
        match self {
            ClientsMsg::Toggle(n) => ClientsMsg::Toggle(n.clone()),
        }
    }
}

/// The djb2 hash of `b` in 32-bit arithmetic: start at 5381, then for each
/// byte multiply by 33 and add the byte.
pub open spec fn djb2(b: Seq<u8>) -> u32
    decreases b.len(),
{
    if b.len() == 0 {
        5381
    } else {
        djb2(b.drop_last()).wrapping_mul(33).wrapping_add(b.last() as u32)
    }
}

/// The channel values of the HSL colour of hue `h` (degrees, below 360)
/// at saturation 0.65 and lightness 0.55, each channel `(v + m) * 255`
/// truncated: the full channel gives 214, the empty one 65, and the
/// rising or falling one `⌊2.48625 k + 65.6625⌋` at `k` degrees from the
/// nearest primary-free edge.
pub open spec fn hue_rgb(h: int) -> (int, int, int) {
    let t = h % 120;
    let k = if t <= 60 {
        t
    } else {
        120 - t
    };
    let x = (248625 * k + 6566250) / 100000;
    if h < 60 {
        (214, x, 65)
    } else if h < 120 {
        (x, 214, 65)
    } else if h < 180 {
        (65, 214, x)
    } else if h < 240 {
        (65, x, 214)
    } else if h < 300 {
        (x, 65, 214)
    } else {
        (214, 65, x)
    }
}

/// The colour of the application named `name`: the hue is the djb2 hash
/// of its UTF-8 bytes modulo 360.
pub open spec fn app_rgb(name: Seq<char>) -> (int, int, int) {
    hue_rgb((djb2(vstd::utf8::encode_utf8(name)) % 360) as int)
}

/// The colour dot of an application.
pub fn app_color_for(app: &str) -> (r: [u8; 3])
    ensures
        r[0] == app_rgb(app@).0 && r[1] == app_rgb(app@).1 && r[2] == app_rgb(app@).2,
{
    let bytes = app.as_bytes();
    let mut hash: u32 = 5381;
    let mut i: usize = 0;
    while i < bytes.len()
        invariant
            bytes@ == app.spec_bytes(),
            0 <= i <= bytes@.len(),
            hash == djb2(bytes@.take(i as int)),
        decreases bytes@.len() - i,
    {
        assert(bytes@.take(i + 1).drop_last() =~= bytes@.take(i as int));
        hash = hash.wrapping_mul(33).wrapping_add(bytes[i] as u32);
        i += 1;
    }
    assert(bytes@.take(bytes@.len() as int) =~= bytes@);
    let h = hash % 360;
    let t = h % 120;
    let k = if t <= 60 {
        t
    } else {
        120 - t
    };
    let x = ((248625 * k + 6566250) / 100000) as u8;
    if h < 60 {
        [214, x, 65]
    } else if h < 120 {
        [x, 214, 65]
    } else if h < 180 {
        [65, 214, x]
    } else if h < 240 {
        [65, x, 214]
    } else if h < 300 {
        [x, 65, 214]
    } else {
        [214, 65, x]
    }
}

/// Position of the first client of `cs[i..]` named `name`.
pub open spec fn client_index_from(cs: Seq<ClientItem>, name: Seq<char>, i: int) -> Option<int>
    decreases cs.len() - i,
{
    if 0 <= i < cs.len() {
        if cs[i].name@ == name {
            Some(i)
        } else {
            client_index_from(cs, name, i + 1)
        }
    } else {
        None
    }
}

/// The client selection after `name` is toggled: the first client of
/// that name is selected unless it was, and every other client is not.
pub open spec fn clients_toggled(o: Seq<ClientItem>, n: Seq<ClientItem>, name: Seq<char>) -> bool {
    &&& n.len() == o.len()
    &&& forall|i: int|
        0 <= i < o.len() ==> (#[trigger] n[i]).name == o[i].name && n[i].color == o[i].color
            && n[i].active == (client_index_from(o, name, 0) == Some(i) && !o[i].active)
}

proof fn lemma_client_index_from(cs: Seq<ClientItem>, name: Seq<char>, i: int)
    requires
        0 <= i,
    ensures
        match client_index_from(cs, name, i) {
            Some(p) => i <= p < cs.len() && cs[p].name@ == name && forall|k: int| i <= k < p ==> (#[trigger] cs[k]).name@ != name,
            None => forall|k: int| i <= k < cs.len() ==> (#[trigger] cs[k]).name@ != name,
        },
    decreases cs.len() - i,
{
    if 0 <= i < cs.len() && cs[i].name@ != name {
        lemma_client_index_from(cs, name, i + 1);
    }
}

/// Selects the client `name` unless it was selected; deselects the others.
pub fn toggle_client(clients: &mut Vec<ClientItem>, name: &str)
    ensures
        clients_toggled(old(clients)@, final(clients)@, name@),
{
    let n = clients.len();
    let mut pos: usize = n;
    let mut i: usize = 0;
    while i < n
        invariant_except_break
            pos == n,
        invariant
            n == clients@.len(),
            n == old(clients)@.len(),
            clients@ == old(clients)@,
            0 <= i <= n,
            client_index_from(old(clients)@, name@, 0) == client_index_from(old(clients)@, name@, i as int),
        ensures
            clients@ == old(clients)@,
            pos <= n,
            pos < n ==> client_index_from(old(clients)@, name@, 0) == Some(pos as int),
            pos == n ==> client_index_from(old(clients)@, name@, 0) is None,
        decreases n - i,
    {
        if str_eq(clients[i].name.as_str(), name) {
            pos = i;
            break;
        }
        i += 1;
    }
    let was_active = if pos < n {
        clients[pos].active
    } else {
        false
    };
    let mut j: usize = 0;
    while j < n
        invariant
            n == clients@.len(),
            0 <= j <= n,
            forall|k: int| 0 <= k < j ==> (#[trigger] clients@[k]).name == old(clients)@[k].name && clients@[k].color == old(clients)@[k].color && !clients@[k].active,
            forall|k: int| j <= k < n ==> #[trigger] clients@[k] == old(clients)@[k],
        decreases n - j,
    {
        clients[j].active = false;
        j += 1;
    }
    if pos < n && !was_active {
        clients[pos].active = true;
    }
}

/// After a client is toggled, at most one client is selected, and it is
/// named as asked.
pub proof fn lemma_client_toggle_single_selection(o: Seq<ClientItem>, n: Seq<ClientItem>, name: Seq<char>)
    requires
        clients_toggled(o, n, name),
    ensures
        forall|i: int, k: int|
            0 <= i < n.len() && 0 <= k < n.len() && (#[trigger] n[i]).active && (#[trigger] n[k]).active ==> i == k,
        forall|i: int| 0 <= i < n.len() && (#[trigger] n[i]).active ==> n[i].name@ == name,
{
    lemma_client_index_from(o, name, 0);
}

/// Toggling the same client twice leaves no client selected when none was
/// selected before.
pub proof fn lemma_client_toggle_twice(
    a: Seq<ClientItem>,
    b: Seq<ClientItem>,
    c: Seq<ClientItem>,
    name: Seq<char>,
)
    requires
        clients_toggled(a, b, name),
        clients_toggled(b, c, name),
        forall|i: int| 0 <= i < a.len() ==> !(#[trigger] a[i]).active,
    ensures
        forall|i: int| 0 <= i < c.len() ==> !(#[trigger] c[i]).active,
{
    lemma_client_index_from(a, name, 0);
    lemma_client_index_from(b, name, 0);
    assert forall|i: int| 0 <= i < b.len() implies (#[trigger] b[i]).name@ == a[i].name@ by {
        assert(b[i].name == a[i].name);
    }
    match client_index_from(a, name, 0) {
        Some(p) => {
            assert(b[p].active);
            match client_index_from(b, name, 0) {
                Some(q) => {
                    if q < p {
                        assert(a[q].name@ != name);
                    } else if p < q {
                        assert(b[p].name@ == name);
                    }
                },
                None => {
                    assert(b[p].name@ == name);
                },
            }
        },
        None => {
            match client_index_from(b, name, 0) {
                Some(q) => {
                    assert(a[q].name@ == name);
                },
                None => {},
            }
        },
    }
}

} // verus!
