use git_fixture::text::{
    _path2bytes_utf8, decimal_string, default_commit_message, default_merge_message,
    default_tag_message, hex_string, join_label_names, path2bytes,
};
use git_fixture::Label;

#[test]
fn decimal_digits() {
    assert_eq!(decimal_string(0), "0");
    assert_eq!(decimal_string(7), "7");
    assert_eq!(decimal_string(10), "10");
    assert_eq!(decimal_string(120), "120");
    assert_eq!(decimal_string(usize::MAX), usize::MAX.to_string());
}

#[test]
fn default_messages() {
    assert_eq!(default_commit_message(3), "Commit (command 3)");
    assert_eq!(default_tag_message(0), "Tag (command 0)");
    let base = vec![Label::new("a"), Label::new("b")];
    assert_eq!(join_label_names(&base), "a b");
    assert_eq!(default_merge_message(&base, 12), "Merged a b (command 12)");
    assert_eq!(default_merge_message(&vec![], 1), "Merged  (command 1)");
}

#[test]
fn default_commit_messages_differ_by_index() {
    assert_ne!(default_commit_message(1), default_commit_message(11));
    assert_ne!(default_tag_message(2), default_tag_message(20));
}

#[test]
fn path_bytes() {
    assert_eq!(path2bytes("dir/ä.txt".as_bytes()), "dir/ä.txt".as_bytes().to_vec());
    assert_eq!(path2bytes(b"dir\\\xff.bin"), b"dir\\\xff.bin".to_vec());
    assert_eq!(_path2bytes_utf8("dir\\sub\\f.txt"), b"dir/sub/f.txt".to_vec());
    assert_eq!(_path2bytes_utf8("plain"), b"plain".to_vec());
    let once = _path2bytes_utf8("a\\b/c");
    let twice = _path2bytes_utf8(std::str::from_utf8(&once).unwrap());
    assert_eq!(once, twice);
    assert_eq!(_path2bytes_utf8("ä\\ö"), "ä/ö".as_bytes().to_vec());
}

#[test]
fn hex_digits() {
    assert_eq!(hex_string(&[]), "");
    assert_eq!(hex_string(&[0x00, 0x0f, 0xa5, 0xff]), "000fa5ff");
}
