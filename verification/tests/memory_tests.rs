use microclaw::memory::{
    extract_bool_flag, extract_id, loose_json_candidates, memory_list_source, MemoryListSource,
};

#[test]
fn test_loose_json_candidates() {
    assert_eq!(
        loose_json_candidates("Here you go: [{\"id\":1}] done {x}"),
        vec!["[{\"id\":1}]", "{\"id\":1}] done {x}"]
    );
    assert_eq!(loose_json_candidates("note {\"ok\":true} bye"), vec!["{\"ok\":true}"]);
    assert!(loose_json_candidates("] nothing [").is_empty());
    assert!(loose_json_candidates("plain").is_empty());
    assert!(loose_json_candidates("").is_empty());
    assert_eq!(loose_json_candidates("\u{00e9}[1]\u{00e9}"), vec!["[1]"]);
}

#[test]
fn test_extract_id() {
    assert_eq!(extract_id(Some(1), Some(2), Some(3)), Some(1));
    assert_eq!(extract_id(None, Some(2), Some(3)), Some(2));
    assert_eq!(extract_id(None, None, Some(3)), Some(3));
    assert_eq!(extract_id(None, None, None), None);
}

#[test]
fn test_extract_bool_flag() {
    assert_eq!(extract_bool_flag(Some(false), Some(true), None), Some(false));
    assert_eq!(extract_bool_flag(None, Some(true), Some(false)), Some(true));
    assert_eq!(extract_bool_flag(None, None, Some(false)), Some(false));
    assert_eq!(extract_bool_flag(None, None, None), None);
}

#[test]
fn test_memory_list_source() {
    assert_eq!(memory_list_source(true, true, true), Some(MemoryListSource::Whole));
    assert_eq!(memory_list_source(false, true, true), Some(MemoryListSource::Memories));
    assert_eq!(memory_list_source(false, false, true), Some(MemoryListSource::Items));
    assert_eq!(memory_list_source(false, false, false), None);
}
