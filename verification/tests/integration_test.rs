use metalps_lib::types::SortKey;

#[test]
fn test_sort_key_round_trip() {
    for input in ["gpu", "time", "vram", "pid"] {
        let key: SortKey = input.parse().expect("valid sort key");
        assert!(format!("{key:?}").len() > 0);
    }
}
