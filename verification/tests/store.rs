use marks::error::MarkError;
use marks::store::{load_marks, MarkStore};

fn pairs_of(store: &MarkStore) -> Vec<(String, String)> {
    let mut v = store.list();
    v.sort();
    v
}

#[test]
fn mark_then_recall_round_trips() {
    let mut store = MarkStore::new();
    store.mark("work", "/home/u/proj".to_string());
    assert_eq!(store.recall("work"), Ok("/home/u/proj".to_string()));
}

#[test]
fn recall_on_never_marked_name_fails() {
    let store = MarkStore::new();
    assert_eq!(store.recall("work"), Err(MarkError::NoPathSet { key: "work".to_string() }));
}

#[test]
fn recall_is_case_insensitive() {
    let mut store = MarkStore::new();
    store.mark("Foo", "/p".to_string());
    assert_eq!(store.recall("foo"), Ok("/p".to_string()));
    assert_eq!(store.recall("FOO"), Ok("/p".to_string()));
}

#[test]
fn lowercasing_happens_on_mark_and_on_recall() {
    let mut store = MarkStore::new();
    store.mark("FOO", "/p".to_string());
    let listed = store.list();
    assert_eq!(listed, vec![("foo".to_string(), "/p".to_string())]);
    assert_eq!(store.recall("foo"), Ok("/p".to_string()));
}

#[test]
fn clear_one_removes_only_that_name() {
    let mut store = MarkStore::new();
    store.mark("a", "/x".to_string());
    store.mark("b", "/y".to_string());
    store.clear("a", false);
    assert_eq!(store.recall("a"), Err(MarkError::NoPathSet { key: "a".to_string() }));
    assert_eq!(store.recall("b"), Ok("/y".to_string()));
}

#[test]
fn clear_absent_name_is_a_silent_no_op() {
    let mut store = MarkStore::new();
    store.mark("a", "/x".to_string());
    store.clear("missing", false);
    assert_eq!(store.recall("a"), Ok("/x".to_string()));
    assert_eq!(store.list().len(), 1);
}

#[test]
fn clear_all_empties_the_store() {
    let mut store = MarkStore::new();
    store.mark("a", "/x".to_string());
    store.mark("b", "/y".to_string());
    store.clear("whatever", true);
    assert!(store.list().is_empty());
    assert_eq!(store.recall("a"), Err(MarkError::NoPathSet { key: "a".to_string() }));
    assert_eq!(store.recall("b"), Err(MarkError::NoPathSet { key: "b".to_string() }));
}

#[test]
fn remarking_overwrites_the_previous_path() {
    let mut store = MarkStore::new();
    store.mark("n", "/first".to_string());
    store.mark("n", "/second".to_string());
    assert_eq!(store.recall("n"), Ok("/second".to_string()));
    assert_eq!(store.list().len(), 1);
}

#[test]
fn list_returns_exactly_the_marked_pairs() {
    let mut store = MarkStore::new();
    store.mark("n1", "/p1".to_string());
    store.mark("n2", "/p2".to_string());
    assert_eq!(
        pairs_of(&store),
        vec![("n1".to_string(), "/p1".to_string()), ("n2".to_string(), "/p2".to_string())]
    );
}

#[test]
fn list_on_fresh_store_is_empty() {
    assert!(MarkStore::new().list().is_empty());
}

#[test]
fn recall_miss_on_default_name_reports_the_default_path() {
    let store = MarkStore::new();
    assert_eq!(
        store.recall("default"),
        Err(MarkError::NoPathSet { key: "the default path".to_string() })
    );
}

#[test]
fn recall_miss_on_any_other_name_reports_that_name() {
    let store = MarkStore::new();
    assert_eq!(store.recall("_"), Err(MarkError::NoPathSet { key: "_".to_string() }));
}

#[test]
fn error_messages_match_their_wording() {
    assert_eq!(
        MarkError::NoPathSet { key: "work".to_string() }.message(),
        "No path set for work."
    );
    assert_eq!(
        MarkError::NoPathSet { key: "the default path".to_string() }.message(),
        "No path set for the default path."
    );
    assert_eq!(MarkError::NoHome.message(), "Could not locate home folder");
    assert_eq!(
        MarkError::DeserializeError.message(),
        "Could not read marks located at '~/.config/marks.list'. Is the file malformed?"
    );
    assert_eq!(
        MarkError::AccessError { detail: "denied".to_string() }.message(),
        "Cannot access the marks located at '~/.config/marks.list': denied"
    );
}

#[test]
fn empty_name_is_a_name_like_any_other() {
    let mut store = MarkStore::new();
    store.mark("", "/nowhere".to_string());
    assert_eq!(store.recall(""), Ok("/nowhere".to_string()));
    store.clear("", false);
    assert_eq!(store.recall(""), Err(MarkError::NoPathSet { key: "".to_string() }));
}

#[test]
fn load_with_no_file_yields_an_empty_store() {
    let store = load_marks(None).unwrap();
    assert!(store.list().is_empty());
    assert_eq!(store.recall("any"), Err(MarkError::NoPathSet { key: "any".to_string() }));
}

#[test]
fn load_of_corrupted_contents_fails_with_deserialize_error() {
    assert!(matches!(load_marks(Some("{ not json at all")), Err(MarkError::DeserializeError)));
    assert!(matches!(load_marks(Some("[1, 2, 3]")), Err(MarkError::DeserializeError)));
    assert!(matches!(load_marks(Some("{\"a\": 7}")), Err(MarkError::DeserializeError)));
}

#[test]
fn serialized_form_is_a_json_object_of_strings() {
    let mut store = MarkStore::new();
    store.mark("a", "/x".to_string());
    assert_eq!(store.to_json(), "{\"a\":\"/x\"}");
}

#[test]
fn empty_store_serializes_to_an_empty_object() {
    assert_eq!(MarkStore::new().to_json(), "{}");
}

#[test]
fn save_then_load_round_trips_through_the_serialized_form() {
    let mut store = MarkStore::new();
    store.mark("a", "/x".to_string());
    store.mark("b", "/y y".to_string());
    let text = store.to_json();
    let reloaded = load_marks(Some(text.as_str())).unwrap();
    assert_eq!(pairs_of(&reloaded), pairs_of(&store));
}

#[test]
fn load_accepts_what_an_earlier_run_wrote() {
    let reloaded = load_marks(Some("{\"work\":\"/home/u/proj\"}")).unwrap();
    assert_eq!(reloaded.recall("work"), Ok("/home/u/proj".to_string()));
}

#[test]
fn scenario_fresh_mark_recall_clear() {
    let fresh = load_marks(None).unwrap();
    assert!(fresh.list().is_empty());

    let mut store = load_marks(None).unwrap();
    store.mark("work", "/home/u/proj".to_string());
    let saved = store.to_json();

    let after_mark = load_marks(Some(saved.as_str())).unwrap();
    assert_eq!(after_mark.recall("work"), Ok("/home/u/proj".to_string()));

    let mut clearing = load_marks(Some(saved.as_str())).unwrap();
    clearing.clear("work", false);
    let saved2 = clearing.to_json();

    let after_clear = load_marks(Some(saved2.as_str())).unwrap();
    assert_eq!(
        after_clear.recall("work"),
        Err(MarkError::NoPathSet { key: "work".to_string() })
    );
}
