use mongoscope::sidebar::{apply_toggle_collection, apply_toggle_db, CollectionItem, DatabaseItem};

fn make_db(name: &str, expanded: bool, colls: &[&str]) -> DatabaseItem {
    DatabaseItem {
        name: name.into(),
        expanded,
        active: false,
        collections: colls
            .iter()
            .map(|c| CollectionItem { name: c.to_string(), requests: 0, active: false })
            .collect(),
    }
}

#[test]
fn toggle_db_activates_and_expands() {
    let mut dbs = vec![make_db("shop", false, &["orders"]), make_db("auth", false, &["tokens"])];
    apply_toggle_db(&mut dbs, "shop");
    assert!(dbs[0].active);
    assert!(dbs[0].expanded);
    assert!(!dbs[1].active);
}

#[test]
fn toggle_db_deactivates_when_already_active() {
    let mut dbs = vec![make_db("shop", true, &["orders"])];
    dbs[0].active = true;
    apply_toggle_db(&mut dbs, "shop");
    assert!(!dbs[0].active);
}

#[test]
fn toggle_db_collapses_on_deactivation() {
    let mut dbs = vec![make_db("shop", true, &["orders"])];
    dbs[0].active = true;
    apply_toggle_db(&mut dbs, "shop");
    assert!(!dbs[0].active);
    assert!(!dbs[0].expanded);
}

#[test]
fn toggle_db_deactivates_other_dbs() {
    let mut dbs = vec![make_db("shop", true, &[]), make_db("auth", false, &[])];
    dbs[0].active = true;
    apply_toggle_db(&mut dbs, "auth");
    assert!(!dbs[0].active);
    assert!(dbs[1].active);
}

#[test]
fn toggle_collection_activates_parent_db() {
    let mut dbs = vec![make_db("shop", true, &["orders", "products"])];
    apply_toggle_collection(&mut dbs, "shop", "orders");
    assert!(dbs[0].active);
    assert!(dbs[0].collections[0].active);
    assert!(!dbs[0].collections[1].active);
}

#[test]
fn toggle_collection_deactivates_when_already_active() {
    let mut dbs = vec![make_db("shop", true, &["orders"])];
    dbs[0].active = true;
    dbs[0].collections[0].active = true;
    apply_toggle_collection(&mut dbs, "shop", "orders");
    assert!(dbs[0].active);
    assert!(!dbs[0].collections[0].active);
}

#[test]
fn toggle_collection_clears_other_dbs() {
    let mut dbs = vec![make_db("shop", true, &["orders"]), make_db("auth", true, &["tokens"])];
    dbs[0].active = true;
    apply_toggle_collection(&mut dbs, "auth", "tokens");
    assert!(!dbs[0].active);
    assert!(dbs[1].active);
    assert!(dbs[1].collections[0].active);
}

#[test]
fn toggle_db_clears_selected_collections_and_keeps_one_selection() {
    let mut dbs = vec![make_db("shop", true, &["orders"]), make_db("auth", false, &["tokens"])];
    apply_toggle_collection(&mut dbs, "shop", "orders");
    apply_toggle_db(&mut dbs, "auth");
    assert!(!dbs[0].collections[0].active);
    assert_eq!(dbs.iter().filter(|d| d.active).count(), 1);
    assert!(dbs[1].active && dbs[1].expanded);
    assert!(dbs[0].expanded);
}

#[test]
fn toggle_db_twice_restores_selection() {
    let mut dbs = vec![make_db("shop", false, &["orders"])];
    apply_toggle_db(&mut dbs, "shop");
    apply_toggle_db(&mut dbs, "shop");
    assert!(!dbs[0].active);
}
