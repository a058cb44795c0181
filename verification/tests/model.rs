use std::borrow::Borrow;
use git_fixture::model::{Command, FileContent, Merge, TodoList, Tree};
use git_fixture::{Branch, Label, Tag};

#[test]
fn label_keeps_its_name() {
    let l = Label::new("base");
    assert_eq!(l.as_str(), "base");
    assert_eq!(Label::from("base"), l);
    assert_eq!(Label::from(String::from("base")), l);
    assert_eq!(l.duplicate(), l);
    assert!(l.same_name(&Label::new("base")));
    assert!(!l.same_name(&Label::new("other")));
}

#[test]
fn branch_and_tag_keep_their_names() {
    assert_eq!(Branch::new("main").as_str(), "main");
    assert_eq!(Branch::from("main"), Branch::from_string(String::from("main")));
    assert_eq!(Tag::new("v1.0").as_str(), "v1.0");
    assert_eq!(Tag::from(String::from("v1.0")), Tag::new("v1.0"));
}

#[test]
fn file_content_bytes() {
    let text = FileContent::from("héllo");
    assert_eq!(text.as_bytes(), "héllo".as_bytes());
    assert!(text.is_text());
    assert!(!text.is_binary());
    let owned = String::from("abc");
    assert_eq!(FileContent::from(&owned).as_bytes(), b"abc");
    assert_eq!(FileContent::from(owned).as_bytes(), b"abc");
    let bin = FileContent::Binary(vec![0, 159, 146, 150]);
    assert_eq!(bin.as_bytes(), &[0u8, 159, 146, 150][..]);
    assert!(bin.is_binary());
}

#[test]
fn command_variants() {
    let cmds = vec![
        Command::Label(Label::new("a")),
        Command::Reset(Label::new("a")),
        Command::from(Tree::default()),
        Command::Merge(Merge { base: vec![], message: None, author: None }),
        Command::Branch(Branch::new("b")),
        Command::Tag(Tag::new("t")),
        Command::Head,
    ];
    assert!(cmds[0].is_label());
    assert!(cmds[1].is_reset());
    assert!(cmds[2].is_tree());
    assert!(cmds[3].is_merge());
    assert!(cmds[4].is_branch());
    assert!(cmds[5].is_tag());
    assert!(cmds[6].is_head());
    assert!(!cmds[6].is_tree());
    assert!(!cmds[0].is_reset());
}

#[test]
fn tree_insert_replaces_then_appends() {
    let mut tree = Tree::default();
    tree.insert(b"a.txt".to_vec(), FileContent::from("1"));
    tree.insert(b"b.txt".to_vec(), FileContent::from("2"));
    tree.insert(b"a.txt".to_vec(), FileContent::from("3"));
    assert_eq!(tree.files.len(), 2);
    assert_eq!(tree.files[0].0, b"a.txt".to_vec());
    assert_eq!(tree.files[0].1.as_bytes(), b"3");
    assert_eq!(tree.files[1].0, b"b.txt".to_vec());
    assert_eq!(tree.files[1].1.as_bytes(), b"2");
    assert!(tree.has_unique_paths());
}

#[test]
fn duplicate_paths_are_detected() {
    let mut tree = Tree::default();
    tree.files.push((b"x".to_vec(), FileContent::from("1")));
    tree.files.push((b"y".to_vec(), FileContent::from("2")));
    assert!(tree.has_unique_paths());
    tree.files.push((b"x".to_vec(), FileContent::from("3")));
    assert!(!tree.has_unique_paths());
    let list = TodoList {
        init: true,
        sleep: None,
        author: None,
        commands: vec![Command::Head, Command::Tree(tree)],
    };
    assert!(!list.has_unique_tree_paths());
    assert!(TodoList::default().has_unique_tree_paths());
}

#[test]
fn todo_list_default() {
    let list = TodoList::default();
    assert!(list.init);
    assert!(list.sleep.is_none());
    assert!(list.author.is_none());
    assert!(list.commands.is_empty());
    assert!(git_fixture::model::init_default());
}

#[test]
fn names_deref_and_borrow_as_str() {
    let l = Label::new("base");
    assert_eq!(&*l, "base");
    let b: &str = l.borrow();
    assert_eq!(b, "base");
    let mut map = std::collections::HashMap::new();
    map.insert(Branch::new("main"), 1);
    assert_eq!(map.get("main"), Some(&1));
    assert_eq!(Tag::new("v1").len(), 2);
}
