use arrow_flight_worker::path::clean_path;

#[test]
fn cleans_relative_components() {
    assert_eq!(clean_path("a/../b\\./c//d"), "a/b/c/d");
    assert_eq!(clean_path("../."), "");
}
