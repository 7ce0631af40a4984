use tiledb_query::uri::uri_join;

#[test]
fn uri_join_prefixes_the_file_scheme() {
    assert_eq!(uri_join("/tmp/base", &[]), "file:///tmp/base");
}

#[test]
fn uri_join_appends_each_segment() {
    assert_eq!(
        uri_join("/tmp/base", &["arrays", "quickstart"]),
        "file:///tmp/base/arrays/quickstart"
    );
}
