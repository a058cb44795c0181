use git_fixture::model::{Command, FileContent, Merge, TodoList, Tree};
use git_fixture::runner::{Action, AnnotatedOid, Oid, RunError, Runner};
use git_fixture::{Branch, Label, Tag};

fn oid(n: u8) -> Oid {
    Oid { raw: [n; 20] }
}

fn list(commands: Vec<Command>) -> TodoList {
    TodoList { init: true, sleep: None, author: None, commands }
}

fn tree(file: &str, content: &str) -> Command {
    let mut t = Tree::default();
    t.insert(file.as_bytes().to_vec(), FileContent::from(content));
    Command::Tree(t)
}

/// Runs every command, giving the commit of command `i` the id `oid(i + 1)`.
fn run_all(list: &TodoList) -> Result<(Runner, Vec<Action>), RunError> {
    let mut runner = Runner::new(None);
    let mut actions = Vec::new();
    while runner.next_index() < list.commands.len() {
        let i = runner.next_index();
        let action = runner.step(list)?;
        match &action {
            Action::Commit(_) => runner.record_commit(oid(i as u8 + 1)),
            Action::Merge(p) => {
                if let Some(l) = &p.missing {
                    return Err(RunError::LabelNotFound(l.clone()));
                }
                runner.record_commit(oid(i as u8 + 1));
            }
            _ => {}
        }
        actions.push(action);
    }
    Ok((runner, actions))
}

#[test]
fn tree_plans_a_commit_with_default_message() {
    let l = list(vec![tree("a.txt", "1"), tree("dir\\b.txt", "2")]);
    let (runner, actions) = run_all(&l).unwrap();
    match &actions[0] {
        Action::Commit(p) => {
            assert_eq!(p.message, "Commit (command 0)");
            assert_eq!(p.parent, None);
            assert_eq!(p.author, None);
            assert_eq!(p.files, vec![(b"a.txt".to_vec(), b"1".to_vec())]);
        }
        other => panic!("unexpected {:?}", other),
    }
    match &actions[1] {
        Action::Commit(p) => {
            assert_eq!(p.message, "Commit (command 1)");
            assert_eq!(p.parent, Some(oid(1)));
            assert_eq!(p.files, vec![(b"dir\\b.txt".to_vec(), b"2".to_vec())]);
        }
        other => panic!("unexpected {:?}", other),
    }
    assert_eq!(runner.last_commit(), Some(oid(2)));
    assert_eq!(runner.finish(&l), Ok(AnnotatedOid::Commit(oid(2))));
}

#[test]
fn tree_author_and_message_override_defaults() {
    let mut t = Tree::default();
    t.message = Some(String::from("custom"));
    let mut l = list(vec![Command::Tree(t), tree("x", "y")]);
    l.author = Some(String::from("Script <s@example.com>"));
    if let Command::Tree(t) = &mut l.commands[1] {
        t.author = Some(String::from("Tree <t@example.com>"));
    }
    let (_, actions) = run_all(&l).unwrap();
    match (&actions[0], &actions[1]) {
        (Action::Commit(a), Action::Commit(b)) => {
            assert_eq!(a.message, "custom");
            assert_eq!(a.author.as_deref(), Some("Script <s@example.com>"));
            assert_eq!(b.author.as_deref(), Some("Tree <t@example.com>"));
            assert_eq!(b.message, "Commit (command 1)");
        }
        other => panic!("unexpected {:?}", other),
    }
}

#[test]
fn label_without_commit_fails() {
    let l = list(vec![Command::Label(Label::new("a"))]);
    let mut runner = Runner::new(None);
    assert_eq!(runner.step(&l).unwrap_err(), RunError::NoCommitsYet);
    assert_eq!(runner.next_index(), 0);
}

#[test]
fn branch_tag_merge_without_commit_fail() {
    for cmd in [
        Command::Branch(Branch::new("b")),
        Command::Tag(Tag::new("t")),
        Command::Merge(Merge { base: vec![], message: None, author: None }),
        Command::Head,
    ] {
        let l = list(vec![cmd]);
        let mut runner = Runner::new(None);
        assert_eq!(runner.step(&l).unwrap_err(), RunError::NoCommitsYet);
    }
}

#[test]
fn existing_head_counts_as_commit() {
    let l = list(vec![Command::Label(Label::new("a")), Command::Branch(Branch::new("b"))]);
    let mut runner = Runner::new(Some(oid(9)));
    runner.step(&l).unwrap();
    assert_eq!(runner.label_target(&Label::new("a")), Some(oid(9)));
    match runner.step(&l).unwrap() {
        Action::Branch { name, target } => {
            assert_eq!(name, "b");
            assert_eq!(target, oid(9));
        }
        other => panic!("unexpected {:?}", other),
    }
}

#[test]
fn reset_to_unknown_label_fails() {
    let l = list(vec![tree("a", "1"), Command::Reset(Label::new("nope"))]);
    let err = run_all(&l).unwrap_err();
    assert_eq!(err, RunError::LabelNotFound(Label::new("nope")));
}

#[test]
fn reset_returns_to_labeled_commit() {
    let l = list(vec![
        tree("a", "1"),
        Command::Label(Label::new("base")),
        tree("a", "2"),
        tree("a", "3"),
        Command::Reset(Label::new("base")),
        tree("b", "4"),
    ]);
    let (runner, actions) = run_all(&l).unwrap();
    match &actions[5] {
        Action::Commit(p) => assert_eq!(p.parent, Some(oid(1))),
        other => panic!("unexpected {:?}", other),
    }
    assert_eq!(runner.label_target(&Label::new("base")), Some(oid(1)));
    assert_eq!(runner.last_commit(), Some(oid(6)));
}

#[test]
fn relabel_moves_the_label() {
    let l = list(vec![
        tree("a", "1"),
        Command::Label(Label::new("x")),
        tree("a", "2"),
        Command::Label(Label::new("x")),
        Command::Reset(Label::new("x")),
    ]);
    let (runner, _) = run_all(&l).unwrap();
    assert_eq!(runner.label_target(&Label::new("x")), Some(oid(3)));
    assert_eq!(runner.last_commit(), Some(oid(3)));
}

#[test]
fn merge_resolves_labels() {
    let l = list(vec![
        tree("a", "1"),
        Command::Label(Label::new("base")),
        tree("b", "2"),
        Command::Label(Label::new("feature")),
        Command::Reset(Label::new("base")),
        tree("c", "3"),
        Command::Merge(Merge {
            base: vec![Label::new("feature")],
            message: None,
            author: None,
        }),
    ]);
    let (runner, actions) = run_all(&l).unwrap();
    match &actions[6] {
        Action::Merge(p) => {
            assert_eq!(p.ours, oid(6));
            assert_eq!(p.theirs, vec![oid(3)]);
            assert_eq!(p.missing, None);
            assert_eq!(p.message, "Merged feature (command 6)");
        }
        other => panic!("unexpected {:?}", other),
    }
    assert_eq!(runner.last_commit(), Some(oid(7)));
}

#[test]
fn merge_names_first_missing_label() {
    let l = list(vec![
        tree("a", "1"),
        Command::Label(Label::new("one")),
        Command::Merge(Merge {
            base: vec![Label::new("one"), Label::new("two"), Label::new("three")],
            message: Some(String::from("m")),
            author: Some(String::from("A <a@example.com>")),
        }),
    ]);
    let mut runner = Runner::new(None);
    runner.step(&l).unwrap();
    runner.record_commit(oid(1));
    runner.step(&l).unwrap();
    match runner.step(&l).unwrap() {
        Action::Merge(p) => {
            assert_eq!(p.theirs, vec![oid(1)]);
            assert_eq!(p.missing, Some(Label::new("two")));
            assert_eq!(p.message, "m");
            assert_eq!(p.author.as_deref(), Some("A <a@example.com>"));
        }
        other => panic!("unexpected {:?}", other),
    }
}

#[test]
fn tag_uses_script_author_and_default_message() {
    let mut l = list(vec![tree("a", "1"), Command::Tag(Tag::new("v1"))]);
    l.author = Some(String::from("T <t@example.com>"));
    let (_, actions) = run_all(&l).unwrap();
    match &actions[1] {
        Action::Tag { name, target, author, message } => {
            assert_eq!(name, "v1");
            assert_eq!(*target, oid(1));
            assert_eq!(author.as_deref(), Some("T <t@example.com>"));
            assert_eq!(message, "Tag (command 1)");
        }
        other => panic!("unexpected {:?}", other),
    }
}

#[test]
fn head_after_branch_points_to_branch() {
    let l = list(vec![
        tree("a", "1"),
        Command::Branch(Branch::new("main")),
        Command::Head,
        tree("a", "2"),
    ]);
    let (runner, _) = run_all(&l).unwrap();
    assert_eq!(runner.finish(&l), Ok(AnnotatedOid::Branch(String::from("main"))));
}

#[test]
fn head_without_branch_detaches() {
    let l = list(vec![tree("a", "1"), Command::Head, tree("a", "2")]);
    let (runner, _) = run_all(&l).unwrap();
    assert_eq!(runner.finish(&l), Ok(AnnotatedOid::Commit(oid(1))));
}

#[test]
fn script_ending_with_branch_leaves_head_there() {
    let l = list(vec![tree("a", "1"), Command::Branch(Branch::new("topic"))]);
    let (runner, _) = run_all(&l).unwrap();
    assert_eq!(runner.finish(&l), Ok(AnnotatedOid::Branch(String::from("topic"))));
    assert_eq!(l.last_branch(2), Some(String::from("topic")));
    assert_eq!(l.last_branch(1), None);
    assert_eq!(l.last_branch(0), None);
}

#[test]
fn empty_script_has_nowhere_to_point() {
    let l = list(vec![]);
    let runner = Runner::new(None);
    assert_eq!(runner.finish(&l), Err(RunError::NoCommitsYet));
    let runner = Runner::new(Some(oid(4)));
    assert_eq!(runner.finish(&l), Ok(AnnotatedOid::Commit(oid(4))));
}

#[test]
fn sleep_is_handed_to_each_commit() {
    let mut l = list(vec![tree("a", "1")]);
    l.sleep = Some(std::time::Duration::from_millis(5));
    let (_, actions) = run_all(&l).unwrap();
    match &actions[0] {
        Action::Commit(p) => assert_eq!(p.sleep, Some(std::time::Duration::from_millis(5))),
        other => panic!("unexpected {:?}", other),
    }
}

#[test]
fn non_utf8_path_is_committed_byte_for_byte() {
    let mut t = Tree::default();
    t.insert(vec![b'f', 0xff, b'\\'], FileContent::Binary(vec![1, 2]));
    let l = list(vec![Command::Tree(t)]);
    let (_, actions) = run_all(&l).unwrap();
    match &actions[0] {
        Action::Commit(p) => assert_eq!(p.files, vec![(vec![b'f', 0xff, b'\\'], vec![1, 2])]),
        other => panic!("unexpected {:?}", other),
    }
}

#[test]
fn head_target_text() {
    assert_eq!(AnnotatedOid::Branch(String::from("main")).to_text(), "main");
    let mut raw = [0u8; 20];
    raw[0] = 0xab;
    raw[19] = 0x01;
    assert_eq!(
        AnnotatedOid::Commit(Oid { raw }).to_text(),
        "ab00000000000000000000000000000000000001"
    );
}

#[test]
fn merge_plan_base_check() {
    let l = list(vec![
        tree("a", "1"),
        Command::Merge(Merge { base: vec![Label::new("gone")], message: None, author: None }),
    ]);
    let mut runner = Runner::new(None);
    runner.step(&l).unwrap();
    runner.record_commit(oid(1));
    match runner.step(&l).unwrap() {
        Action::Merge(p) => {
            assert_eq!(p.check_base(), Err(RunError::LabelNotFound(Label::new("gone"))));
            assert!(p.theirs.is_empty());
        }
        other => panic!("unexpected {:?}", other),
    }
    let l = list(vec![
        tree("a", "1"),
        Command::Label(Label::new("x")),
        Command::Merge(Merge { base: vec![Label::new("x")], message: None, author: None }),
    ]);
    let (_, actions) = run_all(&l).unwrap();
    match &actions[2] {
        Action::Merge(p) => assert_eq!(p.check_base(), Ok(())),
        other => panic!("unexpected {:?}", other),
    }
}

#[test]
fn pending_head_follows_head_commands() {
    let l = list(vec![tree("a", "1"), Command::Head]);
    let mut runner = Runner::new(None);
    assert_eq!(runner.pending_head(), None);
    runner.step(&l).unwrap();
    runner.record_commit(oid(1));
    runner.step(&l).unwrap();
    assert_eq!(runner.pending_head(), Some(AnnotatedOid::Commit(oid(1))));
}
