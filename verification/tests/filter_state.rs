use mongoscope::filter::{FilterMsg, FilterState, KindFilter, Preset};

#[test]
fn set_scope_updates_filter_and_input() {
    let mut fs = FilterState::new();
    fs.set_scope(Some("shop".into()), None);
    assert_eq!(fs.filter.db, Some("shop".into()));
    assert_eq!(fs.input, "db:shop");
}

#[test]
fn set_scope_db_and_coll() {
    let mut fs = FilterState::new();
    fs.set_scope(Some("shop".into()), Some("orders".into()));
    assert_eq!(fs.input, "db:shop coll:orders");
}

#[test]
fn set_scope_replaces_existing() {
    let mut fs = FilterState::new();
    fs.set_scope(Some("old".into()), Some("x".into()));
    fs.set_scope(Some("shop".into()), Some("orders".into()));
    assert_eq!(fs.input, "db:shop coll:orders");
}

#[test]
fn set_scope_none_clears_fields() {
    let mut fs = FilterState::new();
    fs.set_scope(Some("shop".into()), Some("orders".into()));
    fs.set_scope(None, None);
    assert_eq!(fs.filter.db, None);
    assert_eq!(fs.filter.coll, None);
    assert_eq!(fs.input, "");
}

#[test]
fn set_app_updates_filter_and_input() {
    let mut fs = FilterState::new();
    fs.set_app(Some("myapi".into()));
    assert_eq!(fs.filter.app, Some("myapi".into()));
    assert_eq!(fs.input, "app:myapi");
}

#[test]
fn set_preset_slow_queries() {
    let mut fs = FilterState::new();
    fs.set_preset(Some(Preset::SlowQueries));
    assert_eq!(fs.filter.preset, Some(Preset::SlowQueries));
    assert_eq!(fs.input, "slow");
}

#[test]
fn set_preset_collscan_only() {
    let mut fs = FilterState::new();
    fs.set_preset(Some(Preset::CollScanOnly));
    assert_eq!(fs.filter.preset, Some(Preset::CollScanOnly));
    assert_eq!(fs.input, "collscan");
}

#[test]
fn set_preset_none_clears() {
    let mut fs = FilterState::new();
    fs.set_preset(Some(Preset::SlowQueries));
    fs.set_preset(None);
    assert_eq!(fs.filter.preset, None);
    assert_eq!(fs.input, "");
}

#[test]
fn text_changed_preserves_kind() {
    let mut fs = FilterState::new();
    fs.filter.kind = KindFilter::Find;
    fs.update(FilterMsg::TextChanged("db:shop".into()));
    assert_eq!(fs.filter.kind, KindFilter::Find);
    assert_eq!(fs.filter.db, Some("shop".into()));
}

#[test]
fn clear_filter_resets_everything() {
    let mut fs = FilterState::new();
    fs.update(FilterMsg::TextChanged("db:shop slow".into()));
    fs.update(FilterMsg::KindSelected(KindFilter::Write));
    fs.update(FilterMsg::ClearFilter);
    assert_eq!(fs.input, "");
    assert_eq!(fs.filter.db, None);
    assert_eq!(fs.filter.preset, None);
    assert_eq!(fs.filter.kind, KindFilter::All);
    assert_eq!(fs.active_preset(), None);
}
