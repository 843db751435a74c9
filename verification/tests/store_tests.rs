use oclsp::store::DocumentStore;

#[test]
fn update_of_unknown_uri_acts_as_open() {
    let mut store = DocumentStore::new();
    let uri = String::from("file:///tmp/a.c");
    store.update(uri.clone(), String::from("text"));
    assert_eq!(store.get(&uri).unwrap(), "text");
}

#[test]
fn update_replaces_text_wholesale() {
    let mut store = DocumentStore::new();
    let uri = String::from("file:///tmp/a.c");
    store.open(uri.clone(), String::from("old text"));
    store.update(uri.clone(), String::from("new"));
    assert_eq!(store.get(&uri).unwrap(), "new");
}

#[test]
fn unknown_uri_reads_as_absent() {
    let store = DocumentStore::new();
    assert!(store.get(&String::from("file:///nowhere")).is_none());
}

#[test]
fn documents_are_independent() {
    let mut store = DocumentStore::new();
    let a = String::from("file:///a.c");
    let b = String::from("file:///b.c");
    store.open(a.clone(), String::from("alpha"));
    store.open(b.clone(), String::from("beta"));
    store.update(a.clone(), String::from("alpha2"));
    assert_eq!(store.get(&a).unwrap(), "alpha2");
    assert_eq!(store.get(&b).unwrap(), "beta");
}
