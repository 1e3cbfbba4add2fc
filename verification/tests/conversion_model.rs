use enum_macros::conversion::{embed, project, VariantValue};

#[test]
fn embedding_is_total_and_projects_back() {
    for tag in 0..3usize {
        for payload in [0u64, 7, u64::MAX] {
            let v = embed(tag, payload);
            assert_eq!(v.tag, tag);
            assert_eq!(v.payload, payload);
            assert_eq!(project(tag, v), Ok(payload));
        }
    }
}

#[test]
fn round_trip_keeps_structure() {
    let v = embed(1, ("payload".to_string(), vec![1u8, 2, 3]));
    let back = project(1, v).unwrap();
    assert_eq!(back, ("payload".to_string(), vec![1u8, 2, 3]));
}

#[test]
fn mismatched_projection_returns_the_value_unchanged() {
    let v = embed(2, "held".to_string());
    let e = project(0, v).unwrap_err();
    assert_eq!(e, VariantValue { tag: 2, payload: "held".to_string() });
    // the failed projection lost nothing: projecting through the right
    // variant still succeeds
    assert_eq!(project(2, e), Ok("held".to_string()));
}
