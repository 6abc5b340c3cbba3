use b8t_core::api::{failure, ok};

#[test]
fn envelopes() {
    let r = ok(5u32);
    assert!(r.success);
    assert_eq!(r.data, Some(5));
    assert!(r.error.is_none());
    let f = failure::<u32>("Player not found".to_string());
    assert!(!f.success);
    assert!(f.data.is_none());
    assert_eq!(f.error, Some("Player not found".to_string()));
}
