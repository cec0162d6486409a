use tsugumi::media::dot_ext;

#[test]
fn test_dot_ext_plain() {
    assert_eq!(dot_ext("pages/cover.jpg"), ".jpg");
    assert_eq!(dot_ext("a.b.c"), ".c");
}

#[test]
fn test_dot_ext_edge_cases() {
    assert_eq!(dot_ext(".bashrc"), "");
    assert_eq!(dot_ext("noext"), "");
    assert_eq!(dot_ext("dir.d/noext"), "");
    assert_eq!(dot_ext("trailing."), ".");
}
