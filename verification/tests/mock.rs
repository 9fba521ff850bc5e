use mongoscope::mock::{hex_session_id, MockSource};
use std::collections::HashSet;
use std::sync::{Arc, Mutex};

#[test]
fn session_ids_are_shaped_like_v4_uuids() {
    assert_eq!(hex_session_id(0), "00000000-0000-4000-8000-000000000000");
    assert_eq!(hex_session_id(1), "7f4a7c15-0000-4000-8000-000000000001");
    assert_eq!(hex_session_id(10_004), "4ab8e4a4-0000-4000-8000-000000002714");
}

#[test]
fn session_ids_mix_with_wrapping_and_keep_every_group_width() {
    assert_eq!(hex_session_id(u64::MAX), "80b583eb-ffff-4fff-bfff-ffffffffffff");
    assert_eq!(
        hex_session_id(0x1234_5678_9abc_def0),
        "aeda89b0-9abc-4678-9234-56789abcdef0"
    );
}

#[test]
fn mock_source_shares_the_applied_templates() {
    let applied = Arc::new(Mutex::new(HashSet::new()));
    let source = MockSource::new(applied.clone());
    applied.lock().unwrap().insert(3usize);
    assert!(source.applied_templates.lock().unwrap().contains(&3));
}
