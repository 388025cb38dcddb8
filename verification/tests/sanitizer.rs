use fixlang::sanitizer::ObjectTable;

#[test]
fn test_sanitizer_counts_references() {
    let mut t = ObjectTable::new();
    let a = t.report_malloc(0x1000, "make_array".to_string());
    let b = t.report_malloc(0x2000, "make_struct".to_string());
    assert_eq!((a, b), (1, 2));
    t.report_retain(a, 1);
    assert_eq!(t.get(a).unwrap().refcnt, 2);
    t.report_release(a, 2);
    assert_eq!(t.get(a).unwrap().refcnt, 1);
    t.report_release(a, 1);
    assert!(t.get(a).is_none());
    assert_eq!(t.leaked_objects(), vec![b]);
    t.mark_as_global(b);
    assert!(t.get(b).unwrap().is_global);
    assert!(t.leaked_objects().is_empty());
    // A global object keeps its count whatever the program reports.
    t.report_release(b, 5);
    assert_eq!(t.get(b).unwrap().refcnt, 1);
    t.report_retain(b, 7);
    assert_eq!(t.get(b).unwrap().refcnt, 2);
    let c = t.report_malloc(0x3000, "x".to_string());
    assert_eq!(c, 3);
    assert_eq!(t.get(c).unwrap().code, "x");
    assert_eq!(t.get(c).unwrap().addr, 0x3000);
}
