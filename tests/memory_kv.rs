use registry_dns::memory_kv::MemoryKV;

#[test]
fn table_set_get_clear() {
    let mut kv = MemoryKV::new();
    assert_eq!(kv.get("a."), None);
    kv.set("a.".to_string(), [1, 2, 3, 4]);
    kv.set("b.".to_string(), [5, 6, 7, 8]);
    kv.set("a.".to_string(), [9, 9, 9, 9]);
    assert_eq!(kv.get("a."), Some([9, 9, 9, 9]));
    assert_eq!(kv.get("b."), Some([5, 6, 7, 8]));
    let rec = kv.matched_record("b.").unwrap();
    assert_eq!(rec.address, [5, 6, 7, 8]);
    assert_eq!(rec.ttl, 60);
    assert!(kv.matched_record("c.").is_none());
    kv.clear();
    assert_eq!(kv.get("a."), None);
}
