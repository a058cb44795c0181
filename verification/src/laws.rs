//! Properties that hold of every run, proved over the run's specification.

use vstd::prelude::*;

use vstd::utf8::{decode_utf8, encode_utf8, encode_utf8_decode_utf8, encode_utf8_valid_utf8, valid_utf8};

use crate::model::{content_bytes, tree_paths_unique, unique_paths, CommandView, TodoListView};
use crate::text::{
    commit_message, decimal, digit_char, forward_slash, forward_slash_char, join_names,
    lemma_encode_forward_slash, tag_message,
};
use crate::runner::{
    after_commit, final_head, first_missing, run_steps, step_spec, tree_files, ActionView,
    AnnotatedOidView, Oid, RunErrorView, RunState,
};

verus! {

/// Setting a label makes it name the current commit; the other labels and the
/// current commit stay as they were, and the repository is not touched.
pub proof fn law_label_names_current_commit(s: RunState, list: TodoListView, l: Seq<char>, c: Oid)
    requires
        s.next < list.commands.len(),
        list.commands[s.next as int] == CommandView::Label(l),
        s.last == Some(c),
    ensures
        step_spec(s, list) matches Ok((t, a)) && {
            &&& t.labels.dom().contains(l)
            &&& t.labels[l] == c
            &&& forall|k: Seq<char>|
                k != l ==> (#[trigger] t.labels.dom().contains(k) == s.labels.dom().contains(k)
                    && (s.labels.dom().contains(k) ==> t.labels[k] == s.labels[k]))
            &&& t.last == s.last
            &&& a == ActionView::Bookkeeping
        },
{
}

/// Resetting to a label makes the commit it names the current one; resetting
/// to a label that was never set stops the run with that label's name.
pub proof fn law_reset_goes_to_label(s: RunState, list: TodoListView, l: Seq<char>)
    requires
        s.next < list.commands.len(),
        list.commands[s.next as int] == CommandView::Reset(l),
    ensures
        s.labels.dom().contains(l) ==> (step_spec(s, list) matches Ok((t, a)) && t.last == Some(
            s.labels[l],
        ) && t.labels == s.labels && a == ActionView::Bookkeeping),
        !s.labels.dom().contains(l) ==> step_spec(s, list) == Err::<
            (RunState, ActionView),
            RunErrorView,
        >(RunErrorView::LabelNotFound(l)),
{
}

/// A reset right after setting the same label undoes nothing: the current
/// commit is again the one that was current when the label was set.
pub proof fn law_label_then_reset(s: RunState, list: TodoListView, l: Seq<char>)
    requires
        s.next + 1 < list.commands.len(),
        list.commands[s.next as int] == CommandView::Label(l),
        list.commands[s.next + 1int] == CommandView::Reset(l),
        s.last is Some,
    ensures
        step_spec(s, list) matches Ok((t1, a1)) && step_spec(t1, list) matches Ok((t2, a2)) && {
            &&& t2.last == s.last
            &&& t2.labels == t1.labels
            &&& t2.next == s.next + 2
        },
{
    let t1 = step_spec(s, list)->Ok_0.0;
    assert(t1.next == s.next + 1);
    assert(t1.labels.dom().contains(l));
}

/// The commands that act on the current commit (label, merge, branch, tag)
/// stop the run exactly when there is no commit yet.
pub proof fn law_commit_needed(s: RunState, list: TodoListView)
    requires
        s.next < list.commands.len(),
        ({
            let c = list.commands[s.next as int];
            c is Label || c is Merge || c is Branch || c is Tag
        }),
    ensures
        (step_spec(s, list) == Err::<(RunState, ActionView), RunErrorView>(
            RunErrorView::NoCommitsYet,
        )) <==> s.last is None,
        s.last is Some ==> step_spec(s, list) is Ok,
{
}

/// A tree command always proceeds: it asks for a commit on top of the current
/// one, with each of the tree's files once, and changes nothing else until
/// that commit exists.
pub proof fn law_tree_commits_on_current(s: RunState, list: TodoListView)
    requires
        s.next < list.commands.len(),
        list.commands[s.next as int] is Tree,
        tree_paths_unique(list),
    ensures
        step_spec(s, list) matches Ok((t, a)) && {
            &&& t == RunState { next: s.next + 1, ..s }
            &&& a matches ActionView::Commit(p) && {
                &&& p.parent == s.last
                &&& p.files.len() == list.commands[s.next as int]->Tree_0.files.len()
                &&& forall|i: int, j: int|
                    0 <= i < p.files.len() && 0 <= j < p.files.len() && i != j ==> #[trigger] p.files[i].0
                        != #[trigger] p.files[j].0
            }
        },
{
    let tree = list.commands[s.next as int]->Tree_0;
    assert(match list.commands[s.next as int] {
        CommandView::Tree(t) => unique_paths(t.files),
        _ => true,
    });
    let files = tree_files(tree.files);
    assert forall|i: int, j: int|
        0 <= i < files.len() && 0 <= j < files.len() && i != j implies #[trigger] files[i].0
            != #[trigger] files[j].0 by {
        assert(files[i].0 == tree.files[i].0);
        assert(files[j].0 == tree.files[j].0);
    }
}

/// Every step that proceeds moves on to the next command, forgets no label,
/// changes the current commit only when it resets to a label, and changes
/// where HEAD goes only when it is a head command.
pub proof fn law_step_keeps(s: RunState, list: TodoListView)
    requires
        s.next < list.commands.len(),
    ensures
        step_spec(s, list) matches Ok((t, a)) ==> {
            &&& t.next == s.next + 1
            &&& s.labels.dom().subset_of(t.labels.dom())
            &&& !(list.commands[s.next as int] is Reset) ==> t.last == s.last
            &&& !(list.commands[s.next as int] is Label) ==> t.labels == s.labels
            &&& !(list.commands[s.next as int] is Head) ==> t.head == s.head
        },
{
}

/// Each commit or tag is signed by the command's own author when it names one,
/// and otherwise by the script's author: a present script author is never
/// dropped, and a command's own author always wins.
pub proof fn law_commit_author(s: RunState, list: TodoListView)
    requires
        s.next < list.commands.len(),
    ensures
        step_spec(s, list) matches Ok((_, a)) ==> match a {
            ActionView::Commit(p) => list.commands[s.next as int] matches CommandView::Tree(t) && {
                &&& t.author matches Some(own) ==> p.author == Some(own)
                &&& t.author is None ==> p.author == list.author
            },
            ActionView::Merge(p) => list.commands[s.next as int] matches CommandView::Merge(m) && {
                &&& m.author matches Some(own) ==> p.author == Some(own)
                &&& m.author is None ==> p.author == list.author
            },
            ActionView::Tag { author, .. } => author == list.author,
            _ => true,
        },
        list.author is Some ==> (step_spec(s, list) matches Ok((_, a)) ==> match a {
            ActionView::Commit(p) => p.author is Some,
            ActionView::Merge(p) => p.author is Some,
            ActionView::Tag { author, .. } => author is Some,
            _ => true,
        }),
{
}

/// A tree command commits exactly the tree's files, in its order: each path
/// with the bytes of that same entry's content.
pub proof fn law_tree_files_committed(s: RunState, list: TodoListView)
    requires
        s.next < list.commands.len(),
        list.commands[s.next as int] is Tree,
    ensures
        ({
            let files = list.commands[s.next as int]->Tree_0.files;
            step_spec(s, list) matches Ok((_, ActionView::Commit(p))) && {
                &&& p.files.len() == files.len()
                &&& forall|i: int|
                    0 <= i < files.len() ==> #[trigger] p.files[i] == (
                        files[i].0,
                        content_bytes(files[i].1),
                    )
            }
        }),
{
}

/// What a command asks of the repository is done on the current commit: a
/// commit goes on top of it, a merge starts from it, and a branch or tag is
/// put on it, under the command's own name.
pub proof fn law_actions_on_current_commit(s: RunState, list: TodoListView)
    requires
        s.next < list.commands.len(),
    ensures
        step_spec(s, list) matches Ok((_, a)) ==> match a {
            ActionView::Commit(p) => p.parent == s.last,
            ActionView::Merge(p) => s.last == Some(p.ours),
            ActionView::Branch { name, target } => s.last == Some(target)
                && list.commands[s.next as int] == CommandView::Branch(name),
            ActionView::Tag { name, target, .. } => s.last == Some(target)
                && list.commands[s.next as int] == CommandView::Tag(name),
            ActionView::Bookkeeping => true,
        },
{
}

/// A commit, merge or tag carries the command's own message when it gives one;
/// otherwise a commit says "Commit (command i)", a merge says "Merged" with
/// its label names and "(command i)", and a tag says "Tag (command i)", where
/// i is the command's index. Commits and merges pause for the script's sleep.
pub proof fn law_messages(s: RunState, list: TodoListView)
    requires
        s.next < list.commands.len(),
    ensures
        step_spec(s, list) matches Ok((_, a)) ==> match a {
            ActionView::Commit(p) => list.commands[s.next as int] matches CommandView::Tree(t) && {
                &&& t.message matches Some(own) ==> p.message == own
                &&& t.message is None ==> p.message == "Commit (command "@ + decimal(s.next)
                    + ")"@
                &&& p.sleep == list.sleep
            },
            ActionView::Merge(p) => list.commands[s.next as int] matches CommandView::Merge(m) && {
                &&& m.message matches Some(own) ==> p.message == own
                &&& m.message is None ==> p.message == "Merged "@ + join_names(m.base)
                    + " (command "@ + decimal(s.next) + ")"@
                &&& p.sleep == list.sleep
            },
            ActionView::Tag { message, .. } => message == "Tag (command "@ + decimal(s.next) + ")"@,
            _ => true,
        },
{
}

/// A head command sends HEAD to the branch that the command just before it
/// made, and otherwise detaches it at the current commit; it stops the run
/// only when there is neither.
pub proof fn law_head_command(s: RunState, list: TodoListView)
    requires
        s.next < list.commands.len(),
        list.commands[s.next as int] is Head,
    ensures
        ({
            let prev: int = if s.next == 0 { 0 } else { s.next - 1 };
            match list.commands[prev] {
                CommandView::Branch(b) => step_spec(s, list) matches Ok((t, _)) && t.head == Some(
                    AnnotatedOidView::Branch(b),
                ),
                _ => match s.last {
                    Some(c) => step_spec(s, list) matches Ok((t, _)) && t.head == Some(
                        AnnotatedOidView::Commit(c),
                    ),
                    None => step_spec(s, list) == Err::<(RunState, ActionView), RunErrorView>(
                        RunErrorView::NoCommitsYet,
                    ),
                },
            }
        }),
{
}

/// Once a head command has run, the run ends with HEAD where it sent it,
/// whatever commands follow.
pub proof fn law_final_head_follows_head_command(s: RunState, list: TodoListView, h: AnnotatedOidView)
    requires
        s.head == Some(h),
    ensures
        final_head(s, list) == Ok::<AnnotatedOidView, RunErrorView>(h),
{
}

/// Without a head command, and unless the script ends with a branch command,
/// the run ends with HEAD detached at the current commit; with no commit at
/// all it stops there.
pub proof fn law_final_head_detached(s: RunState, list: TodoListView)
    requires
        s.head is None,
        list.commands.len() == 0 || !(list.commands.last() is Branch),
    ensures
        s.last matches Some(c) ==> final_head(s, list) == Ok::<AnnotatedOidView, RunErrorView>(
            AnnotatedOidView::Commit(c),
        ),
        s.last is None ==> final_head(s, list) == Err::<AnnotatedOidView, RunErrorView>(
            RunErrorView::NoCommitsYet,
        ),
{
}

/// Recording a new commit makes it the current one and changes nothing else.
pub proof fn law_record_commit(s: RunState, oid: Oid)
    ensures
        after_commit(s, oid).last == Some(oid),
        after_commit(s, oid).labels == s.labels,
        after_commit(s, oid).next == s.next,
        after_commit(s, oid).head == s.head,
{
}

/// A head command right after a branch command sends HEAD to that branch,
/// whether or not there is a commit.
pub proof fn law_head_follows_branch(s: RunState, list: TodoListView, b: Seq<char>)
    requires
        0 < s.next < list.commands.len(),
        list.commands[s.next - 1int] == CommandView::Branch(b),
        list.commands[s.next as int] == CommandView::Head,
    ensures
        step_spec(s, list) matches Ok((t, _)) && t.head == Some(AnnotatedOidView::Branch(b)),
{
}

/// Without a head command, a script that ends with a branch command leaves
/// HEAD on that branch.
pub proof fn law_final_head_on_last_branch(s: RunState, list: TodoListView, b: Seq<char>)
    requires
        s.head is None,
        list.commands.len() > 0,
        list.commands.last() == CommandView::Branch(b),
    ensures
        final_head(s, list) == Ok::<AnnotatedOidView, RunErrorView>(AnnotatedOidView::Branch(b)),
{
}

/// A merge merges the commits behind the labels at the front of its list that
/// are set, in order; it names the first label that is not set, and only when
/// every label is set does it make the merge commit.
pub proof fn law_merge_resolves_labels_in_order(s: RunState, list: TodoListView)
    requires
        s.next < list.commands.len(),
        list.commands[s.next as int] is Merge,
        s.last is Some,
    ensures
        ({
            let base = list.commands[s.next as int]->Merge_0.base;
            step_spec(s, list) matches Ok((_, ActionView::Merge(p))) && {
                &&& p.ours == s.last->Some_0
                &&& p.theirs.len() <= base.len()
                &&& forall|j: int|
                    0 <= j < p.theirs.len() ==> s.labels.dom().contains(base[j]) && #[trigger] p.theirs[j]
                        == s.labels[base[j]]
                &&& p.missing matches Some(m) ==> (m == base[p.theirs.len() as int]
                    && !s.labels.dom().contains(m))
                &&& p.missing is None <==> forall|j: int|
                    0 <= j < base.len() ==> s.labels.dom().contains(#[trigger] base[j])
            }
        }),
{
    let base = list.commands[s.next as int]->Merge_0.base;
    lemma_first_missing_bounds(s.labels, base);
}

/// Each command that a run gets through moves it on by one command.
pub proof fn law_run_advances(s: RunState, list: TodoListView, n: nat, made: Seq<Oid>)
    requires
        run_steps(s, list, n, made) is Some,
    ensures
        run_steps(s, list, n, made)->Some_0.next == s.next + n,
    decreases n,
{
    if n > 0 {
        law_run_advances(s, list, (n - 1) as nat, made);
    }
}

/// Running `a` commands and then `b` more is running `a + b` commands.
pub proof fn law_run_composes(s: RunState, list: TodoListView, a: nat, b: nat, made: Seq<Oid>)
    ensures
        run_steps(s, list, a + b, made) == (match run_steps(s, list, a, made) {
            None => None,
            Some(p) => run_steps(p, list, b, made),
        }),
    decreases b,
{
    if b > 0 {
        law_run_composes(s, list, a, (b - 1) as nat, made);
        assert((a + b - 1) as nat == a + (b - 1) as nat);
    } else {
        assert(a + b == a);
    }
}

/// A run forgets no label.
pub proof fn law_labels_never_forgotten(s: RunState, list: TodoListView, n: nat, made: Seq<Oid>)
    requires
        run_steps(s, list, n, made) is Some,
    ensures
        s.labels.dom().subset_of(run_steps(s, list, n, made)->Some_0.labels.dom()),
    decreases n,
{
    if n > 0 {
        law_labels_never_forgotten(s, list, (n - 1) as nat, made);
    }
}

/// A label keeps naming its commit through every command that does not set
/// that same label again.
pub proof fn law_label_persists(
    s: RunState,
    list: TodoListView,
    n: nat,
    made: Seq<Oid>,
    l: Seq<char>,
)
    requires
        run_steps(s, list, n, made) is Some,
        s.labels.dom().contains(l),
        forall|j: int|
            s.next <= j < s.next + n ==> #[trigger] list.commands[j] != CommandView::Label(l),
    ensures
        run_steps(s, list, n, made)->Some_0.labels.dom().contains(l),
        run_steps(s, list, n, made)->Some_0.labels[l] == s.labels[l],
    decreases n,
{
    if n > 0 {
        let m = (n - 1) as nat;
        law_label_persists(s, list, m, made, l);
        law_run_advances(s, list, m, made);
        let p = run_steps(s, list, m, made)->Some_0;
        assert(list.commands[p.next as int] != CommandView::Label(l));
    }
}

/// Resetting to a label returns the run to the commit that was current when
/// the label was set, whatever ran in between without setting that label again.
pub proof fn law_reset_returns_to_labeled_commit(
    s: RunState,
    list: TodoListView,
    n: nat,
    made: Seq<Oid>,
    l: Seq<char>,
)
    requires
        n >= 1,
        s.last is Some,
        s.next + n < list.commands.len(),
        list.commands[s.next as int] == CommandView::Label(l),
        list.commands[(s.next + n) as int] == CommandView::Reset(l),
        forall|j: int| s.next < j < s.next + n ==> #[trigger] list.commands[j] != CommandView::Label(l),
        run_steps(s, list, n + 1, made) is Some,
    ensures
        run_steps(s, list, n + 1, made)->Some_0.last == s.last,
{
    let c = s.last->Some_0;
    law_run_composes(s, list, 1, n, made);
    assert(run_steps(s, list, 0, made) == Some(s));
    assert(run_steps(s, list, 1, made) == Some(step_spec(s, list)->Ok_0.0));
    let t1 = step_spec(s, list)->Ok_0.0;
    assert(t1.labels[l] == c);
    law_run_composes(t1, list, (n - 1) as nat, 1, made);
    assert(((n - 1) as nat + 1) as nat == n);
    assert(1 + n == n + 1);
    law_label_persists(t1, list, (n - 1) as nat, made, l);
    law_run_advances(t1, list, (n - 1) as nat, made);
}

proof fn lemma_decimal_len(n: nat)
    ensures
        decimal(n).len() >= 1,
        n >= 10 ==> decimal(n).len() >= 2,
    decreases n,
{
    if n >= 10 {
        lemma_decimal_len(n / 10);
    }
}

proof fn lemma_digit_injective(a: int, b: int)
    requires
        0 <= a < 10,
        0 <= b < 10,
        digit_char(a) == digit_char(b),
    ensures
        a == b,
{
}

/// Different numbers are written differently in decimal.
pub proof fn law_decimal_injective(a: nat, b: nat)
    requires
        decimal(a) == decimal(b),
    ensures
        a == b,
    decreases a,
{
    lemma_decimal_len(a);
    lemma_decimal_len(b);
    if a < 10 && b < 10 {
        assert(decimal(a)[0] == digit_char(a as int));
        assert(decimal(b)[0] == digit_char(b as int));
        lemma_digit_injective(a as int, b as int);
    } else if a >= 10 && b >= 10 {
        let da = decimal(a / 10);
        let db = decimal(b / 10);
        assert(decimal(a).drop_last() =~= da);
        assert(decimal(b).drop_last() =~= db);
        assert(decimal(a).last() == digit_char((a % 10) as int));
        assert(decimal(b).last() == digit_char((b % 10) as int));
        lemma_digit_injective((a % 10) as int, (b % 10) as int);
        law_decimal_injective(a / 10, b / 10);
        assert(a == 10 * (a / 10) + a % 10);
        assert(b == 10 * (b / 10) + b % 10);
    } else {
        assert(decimal(a).len() != decimal(b).len());
    }
}

proof fn lemma_middle_equal(p: Seq<char>, x: Seq<char>, y: Seq<char>, q: Seq<char>)
    requires
        p + x + q == p + y + q,
    ensures
        x == y,
{
    let lx = p + x + q;
    let ly = p + y + q;
    assert(lx.len() == ly.len());
    assert((p + x).len() == p.len() + x.len());
    assert((p + y).len() == p.len() + y.len());
    assert(lx.len() == (p + x).len() + q.len());
    assert(ly.len() == (p + y).len() + q.len());
    assert(x.len() == y.len());
    let lo = p.len() as int;
    let hi = (p.len() + x.len()) as int;
    assert(lx.subrange(lo, hi) =~= x);
    assert(ly.subrange(lo, hi) =~= y);
    assert(lx.subrange(lo, hi) == ly.subrange(lo, hi));
}

/// Commits that fall back on the default message get different messages.
pub proof fn law_default_commit_messages_differ(i: nat, j: nat)
    requires
        i != j,
    ensures
        commit_message(i) != commit_message(j),
{
    if commit_message(i) == commit_message(j) {
        lemma_middle_equal("Commit (command "@, decimal(i), decimal(j), ")"@);
        law_decimal_injective(i, j);
    }
}

/// Tags made by different commands get different messages.
pub proof fn law_tag_messages_differ(i: nat, j: nat)
    requires
        i != j,
    ensures
        tag_message(i) != tag_message(j),
{
    if tag_message(i) == tag_message(j) {
        lemma_middle_equal("Tag (command "@, decimal(i), decimal(j), ")"@);
        law_decimal_injective(i, j);
    }
}

/// Turning backslashes into forward slashes keeps the length, leaves no
/// backslash, changes no other byte, and changes nothing when done twice.
pub proof fn law_forward_slashes(bytes: Seq<u8>)
    ensures
        ({
            let r = bytes.map_values(|b: u8| forward_slash(b));
            &&& r.len() == bytes.len()
            &&& forall|i: int| 0 <= i < r.len() ==> #[trigger] r[i] != 0x5c
            &&& forall|i: int| 0 <= i < r.len() && bytes[i] != 0x5c ==> #[trigger] r[i] == bytes[i]
            &&& r.map_values(|b: u8| forward_slash(b)) == r
        }),
{
    let r = bytes.map_values(|b: u8| forward_slash(b));
    assert(r.map_values(|b: u8| forward_slash(b)) =~= r);
}

/// A path's UTF-8 bytes with backslashes written as forward slashes are valid
/// UTF-8 again: they decode to the path with each backslash replaced, hold no
/// backslash, and writing that decoded path the same way gives the same bytes.
pub proof fn law_path2bytes_utf8(p: Seq<char>)
    ensures
        ({
            let r = encode_utf8(p).map_values(|b: u8| forward_slash(b));
            &&& valid_utf8(r)
            &&& decode_utf8(r) == p.map_values(|c: char| forward_slash_char(c))
            &&& forall|i: int| 0 <= i < r.len() ==> #[trigger] r[i] != 0x5c
            &&& encode_utf8(decode_utf8(r)).map_values(|b: u8| forward_slash(b)) == r
        }),
{
    let q = p.map_values(|c: char| forward_slash_char(c));
    lemma_encode_forward_slash(p);
    encode_utf8_valid_utf8(q);
    encode_utf8_decode_utf8(q);
    lemma_encode_forward_slash(q);
    assert(q.map_values(|c: char| forward_slash_char(c)) =~= q);
    law_forward_slashes(encode_utf8(p));
}

proof fn lemma_first_missing_bounds(labels: Map<Seq<char>, Oid>, base: Seq<Seq<char>>)
    ensures
        first_missing(labels, base) <= base.len(),
        forall|j: int|
            0 <= j < first_missing(labels, base) ==> labels.dom().contains(#[trigger] base[j]),
        first_missing(labels, base) < base.len() ==> !labels.dom().contains(
            base[first_missing(labels, base) as int],
        ),
    decreases base.len(),
{
    if base.len() > 0 {
        let d = base.drop_last();
        lemma_first_missing_bounds(labels, d);
        assert forall|j: int| 0 <= j < d.len() implies d[j] == base[j] by {}
    }
}

} // verus!
