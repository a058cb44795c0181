//! Running a script: the decisions between the repository operations.
//!
//! A run walks the commands in order. [`Runner::step`] decides what the
//! command at hand asks of the repository and keeps the bookkeeping that the
//! later commands depend on: the last commit, the labels, and where HEAD goes.
//! The caller performs the returned [`Action`] on the repository and, for a
//! commit, hands the new commit's id back through [`Runner::record_commit`].
//! [`Runner::finish`] then says where HEAD must point.

use vstd::prelude::*;

use crate::labels::LabelTable;
use crate::model::{
    content_bytes, files_view, label_names, opt_chars, tree_paths_unique, Command, CommandView, FileContent, Label,
    TodoList, TodoListView,
};
use crate::text::{
    commit_message, default_commit_message, hex_lower, hex_string, default_merge_message, default_tag_message,
    merge_message, path2bytes, tag_message,
};

verus! {

/// The file mode that every file of a committed tree gets: an executable file.
pub const BLOB_MODE: i32 = 0o100755;

/// The id of a commit in the repository: its 20 raw bytes.
#[derive(Clone, Copy, Debug, PartialEq, Eq)]
pub struct Oid {
    pub raw: [u8; 20],
}

/// Where HEAD points at the end of a run: a commit (detached) or a branch.
#[derive(Clone, Debug, PartialEq, Eq)]
pub enum AnnotatedOid {
    Commit(Oid),
    Branch(String),
}

/// The view of a HEAD target.
pub enum AnnotatedOidView {
    Commit(Oid),
    Branch(Seq<char>),
}

impl View for AnnotatedOid {
    type V = AnnotatedOidView;

    open spec fn view(&self) -> AnnotatedOidView {
        match self {
            AnnotatedOid::Commit(c) => AnnotatedOidView::Commit(*c),
            AnnotatedOid::Branch(b) => AnnotatedOidView::Branch(b@),
        }
    }
}

impl AnnotatedOid {
    /// The text that names this HEAD target: the commit id in lower-case
    /// hexadecimal, or the branch name.
    pub fn to_text(&self) -> (r: String)
        ensures
            r@ == match self@ {
                AnnotatedOidView::Commit(c) => hex_lower(c.raw@),
                AnnotatedOidView::Branch(b) => b,
            },
    {
        match self {
            AnnotatedOid::Commit(c) => hex_string(c.raw.as_slice()),
            AnnotatedOid::Branch(b) => b.clone(),
        }
    }
}

/// Why a script cannot run on.
#[derive(Clone, Debug, PartialEq, Eq)]
pub enum RunError {
    /// The command needs a current commit and there is none yet.
    NoCommitsYet,
    /// The command names a label that no earlier command set.
    LabelNotFound(Label),
}

/// The view of a run error.
pub enum RunErrorView {
    NoCommitsYet,
    LabelNotFound(Seq<char>),
}

impl View for RunError {
    type V = RunErrorView;

    open spec fn view(&self) -> RunErrorView {
        match self {
            RunError::NoCommitsYet => RunErrorView::NoCommitsYet,
            RunError::LabelNotFound(l) => RunErrorView::LabelNotFound(l@),
        }
    }
}

/// A commit to make: write each file as a blob into a new tree (path bytes,
/// content bytes), commit that tree with the given author (or the
/// repository's configured signature when there is none) and message, on top
/// of `parent` when there is one, then pause for `sleep`.
#[derive(Debug)]
pub struct CommitPlan {
    pub files: Vec<(Vec<u8>, Vec<u8>)>,
    pub author: Option<String>,
    pub message: String,
    pub parent: Option<Oid>,
    pub sleep: Option<std::time::Duration>,
}

/// A merge to make: starting from the tree of `ours`, merge the tree of each
/// commit in `theirs` in turn, failing on a conflict. Where `missing` holds a
/// label, the run then stops because that label is not set; otherwise commit
/// the merged tree with `ours` and `theirs` as parents, the given author and
/// message, then pause for `sleep`.
#[derive(Debug)]
pub struct MergePlan {
    pub ours: Oid,
    pub theirs: Vec<Oid>,
    pub missing: Option<Label>,
    pub author: Option<String>,
    pub message: String,
    pub sleep: Option<std::time::Duration>,
}

impl MergePlan {
    /// Whether the run may go on to make the merge commit once the trees are
    /// merged: it stops there when a label of the merge is not set.
    pub fn check_base(&self) -> (r: Result<(), RunError>)
        ensures
            match self.missing {
                Some(l) => r matches Err(e) && e@ == RunErrorView::LabelNotFound(l@),
                None => r is Ok,
            },
    {
        match &self.missing {
            Some(l) => Err(RunError::LabelNotFound(l.duplicate())),
            None => Ok(()),
        }
    }
}

/// What one command asks of the repository.
#[derive(Debug)]
pub enum Action {
    /// Nothing: the command only changes the run's bookkeeping.
    Bookkeeping,
    Commit(CommitPlan),
    Merge(MergePlan),
    /// Create or move the branch `name` to `target`.
    Branch { name: String, target: Oid },
    /// Create or replace the annotated tag `name` on `target`.
    Tag { name: String, target: Oid, author: Option<String>, message: String },
}

/// The view of a commit plan.
pub struct CommitPlanView {
    pub files: Seq<(Seq<u8>, Seq<u8>)>,
    pub author: Option<Seq<char>>,
    pub message: Seq<char>,
    pub parent: Option<Oid>,
    pub sleep: Option<std::time::Duration>,
}

/// The view of a merge plan.
pub struct MergePlanView {
    pub ours: Oid,
    pub theirs: Seq<Oid>,
    pub missing: Option<Seq<char>>,
    pub author: Option<Seq<char>>,
    pub message: Seq<char>,
    pub sleep: Option<std::time::Duration>,
}

/// The view of an action.
pub enum ActionView {
    Bookkeeping,
    Commit(CommitPlanView),
    Merge(MergePlanView),
    Branch { name: Seq<char>, target: Oid },
    Tag { name: Seq<char>, target: Oid, author: Option<Seq<char>>, message: Seq<char> },
}

/// The view of a list of byte pairs.
pub open spec fn byte_pairs(v: Seq<(Vec<u8>, Vec<u8>)>) -> Seq<(Seq<u8>, Seq<u8>)> {
    v.map_values(|e: (Vec<u8>, Vec<u8>)| (e.0@, e.1@))
}

impl View for Action {
    type V = ActionView;

    open spec fn view(&self) -> ActionView {
        match self {
            Action::Bookkeeping => ActionView::Bookkeeping,
            Action::Commit(p) => ActionView::Commit(
                CommitPlanView {
                    files: byte_pairs(p.files@),
                    author: opt_chars(p.author),
                    message: p.message@,
                    parent: p.parent,
                    sleep: p.sleep,
                },
            ),
            Action::Merge(p) => ActionView::Merge(
                MergePlanView {
                    ours: p.ours,
                    theirs: p.theirs@,
                    missing: match p.missing {
                        Some(l) => Some(l@),
                        None => None,
                    },
                    author: opt_chars(p.author),
                    message: p.message@,
                    sleep: p.sleep,
                },
            ),
            Action::Branch { name, target } => ActionView::Branch { name: name@, target: *target },
            Action::Tag { name, target, author, message } => ActionView::Tag {
                name: name@,
                target: *target,
                author: opt_chars(*author),
                message: message@,
            },
        }
    }
}

/// The state of a run: the index of the next command, the last commit made or
/// reset to, the labels set so far, and where HEAD was last told to go.
pub struct RunState {
    pub next: nat,
    pub last: Option<Oid>,
    pub labels: Map<Seq<char>, Oid>,
    pub head: Option<AnnotatedOidView>,
}

/// The first of two optional values that is present.
pub open spec fn either(a: Option<Seq<char>>, b: Option<Seq<char>>) -> Option<Seq<char>> {
    match a {
        Some(x) => Some(x),
        None => b,
    }
}

/// A message given, or the default one.
pub open spec fn message_or(m: Option<Seq<char>>, default: Seq<char>) -> Seq<char> {
    match m {
        Some(x) => x,
        None => default,
    }
}

/// The bytes of each file of a tree: the path's bytes and the content's.
pub open spec fn tree_files(files: Seq<(Seq<u8>, crate::model::FileContentView)>) -> Seq<
    (Seq<u8>, Seq<u8>),
> {
    files.map_values(|e: (Seq<u8>, crate::model::FileContentView)| (e.0, content_bytes(e.1)))
}

/// How many labels at the front of `base` are set.
pub open spec fn first_missing(labels: Map<Seq<char>, Oid>, base: Seq<Seq<char>>) -> nat
    decreases base.len(),
{
    if base.len() == 0 {
        0
    } else {
        let k = first_missing(labels, base.drop_last());
        if k < base.len() - 1 {
            k
        } else if labels.dom().contains(base.last()) {
            base.len()
        } else {
            (base.len() - 1) as nat
        }
    }
}

/// The branch that the command just before `current` made, if it made one.
/// At the start of the script the first command itself is looked at.
pub open spec fn last_branch(commands: Seq<CommandView>, current: nat) -> Option<Seq<char>> {
    let i: int = if current == 0 {
        0
    } else {
        current - 1
    };
    if i < commands.len() {
        match commands[i] {
            CommandView::Branch(b) => Some(b),
            _ => None,
        }
    } else {
        None
    }
}

/// What the command at `s.next` does: the next state and the action it asks
/// of the repository, or why the run stops there.
pub open spec fn step_spec(s: RunState, list: TodoListView) -> Result<
    (RunState, ActionView),
    RunErrorView,
> {
    let i = s.next;
    let t = RunState { next: s.next + 1, ..s };
    match list.commands[i as int] {
        CommandView::Label(l) => match s.last {
            None => Err(RunErrorView::NoCommitsYet),
            Some(c) => Ok((RunState { labels: s.labels.insert(l, c), ..t }, ActionView::Bookkeeping)),
        },
        CommandView::Reset(l) => if s.labels.dom().contains(l) {
            Ok((RunState { last: Some(s.labels[l]), ..t }, ActionView::Bookkeeping))
        } else {
            Err(RunErrorView::LabelNotFound(l))
        },
        CommandView::Tree(tree) => Ok(
            (
                t,
                ActionView::Commit(
                    CommitPlanView {
                        files: tree_files(tree.files),
                        author: either(tree.author, list.author),
                        message: message_or(tree.message, commit_message(i)),
                        parent: s.last,
                        sleep: list.sleep,
                    },
                ),
            ),
        ),
        CommandView::Merge(m) => match s.last {
            None => Err(RunErrorView::NoCommitsYet),
            Some(c) => {
                let k = first_missing(s.labels, m.base);
                Ok(
                    (
                        t,
                        ActionView::Merge(
                            MergePlanView {
                                ours: c,
                                theirs: m.base.take(k as int).map_values(
                                    |n: Seq<char>| s.labels[n],
                                ),
                                missing: if k < m.base.len() {
                                    Some(m.base[k as int])
                                } else {
                                    None
                                },
                                author: either(m.author, list.author),
                                message: message_or(m.message, merge_message(m.base, i)),
                                sleep: list.sleep,
                            },
                        ),
                    ),
                )
            },
        },
        CommandView::Branch(b) => match s.last {
            None => Err(RunErrorView::NoCommitsYet),
            Some(c) => Ok((t, ActionView::Branch { name: b, target: c })),
        },
        CommandView::Tag(g) => match s.last {
            None => Err(RunErrorView::NoCommitsYet),
            Some(c) => Ok(
                (
                    t,
                    ActionView::Tag {
                        name: g,
                        target: c,
                        author: list.author,
                        message: tag_message(i),
                    },
                ),
            ),
        },
        CommandView::Head => match last_branch(list.commands, i) {
            Some(b) => Ok(
                (
                    RunState { head: Some(AnnotatedOidView::Branch(b)), ..t },
                    ActionView::Bookkeeping,
                ),
            ),
            None => match s.last {
                None => Err(RunErrorView::NoCommitsYet),
                Some(c) => Ok(
                    (
                        RunState { head: Some(AnnotatedOidView::Commit(c)), ..t },
                        ActionView::Bookkeeping,
                    ),
                ),
            },
        },
    }
}

/// The state once the commit a plan asked for exists.
pub open spec fn after_commit(s: RunState, oid: Oid) -> RunState {
    RunState { last: Some(oid), ..s }
}

/// Where HEAD goes at the end of a run: where a head command last sent it;
/// else the branch that the last command made; else the last commit.
pub open spec fn final_head(s: RunState, list: TodoListView) -> Result<
    AnnotatedOidView,
    RunErrorView,
> {
    match s.head {
        Some(h) => Ok(h),
        None => match last_branch(list.commands, list.commands.len()) {
            Some(b) => Ok(AnnotatedOidView::Branch(b)),
            None => match s.last {
                Some(c) => Ok(AnnotatedOidView::Commit(c)),
                None => Err(RunErrorView::NoCommitsYet),
            },
        },
    }
}

/// The state after the next `n` commands from `s`, where the commit that
/// command `i` makes (by a tree or a merge) gets the id `made[i]`; `None` where
/// a command stops the run, or the script ends first.
pub open spec fn run_steps(s: RunState, list: TodoListView, n: nat, made: Seq<Oid>) -> Option<
    RunState,
>
    decreases n,
{
    if n == 0 {
        Some(s)
    } else {
        match run_steps(s, list, (n - 1) as nat, made) {
            None => None,
            Some(p) => if p.next >= list.commands.len() {
                None
            } else {
                match step_spec(p, list) {
                    Err(_) => None,
                    Ok((t, a)) => match a {
                        ActionView::Commit(_) => Some(after_commit(t, made[p.next as int])),
                        ActionView::Merge(m) => if m.missing is Some {
                            None
                        } else {
                            Some(after_commit(t, made[p.next as int]))
                        },
                        _ => Some(t),
                    },
                }
            },
        }
    }
}

proof fn lemma_first_missing(labels: Map<Seq<char>, Oid>, base: Seq<Seq<char>>, k: int)
    requires
        0 <= k <= base.len(),
        forall|j: int| 0 <= j < k ==> labels.dom().contains(#[trigger] base[j]),
        k < base.len() ==> !labels.dom().contains(base[k]),
    ensures
        first_missing(labels, base) == k,
    decreases base.len(),
{
    if base.len() > 0 {
        let d = base.drop_last();
        if k == base.len() {
            lemma_first_missing(labels, d, k - 1);
        } else {
            lemma_first_missing(labels, d, k);
        }
    }
}

fn copy_opt_string(o: &Option<String>) -> (r: Option<String>)
    ensures
        opt_chars(r) == opt_chars(*o),
{
    match o {
        Some(s) => Some(s.clone()),
        None => None,
    }
}

fn plan_files(files: &Vec<(Vec<u8>, FileContent)>) -> (r: Vec<(Vec<u8>, Vec<u8>)>)
    ensures
        byte_pairs(r@) == tree_files(files_view(files@)),
{
    let mut out: Vec<(Vec<u8>, Vec<u8>)> = Vec::new();
    let mut i: usize = 0;
    while i < files.len()
        invariant
            i <= files.len(),
            byte_pairs(out@) == tree_files(files_view(files@)).take(i as int),
        decreases files.len() - i,
    {
        let path = path2bytes(files[i].0.as_slice());
        let content = vstd::slice::slice_to_vec(files[i].1.as_bytes());
        let ghost old_out = out@;
        out.push((path, content));
        proof {
            let e = files_view(files@)[i as int];
            assert(e == (files@[i as int].0@, files@[i as int].1@));
            assert(tree_files(files_view(files@))[i as int] == (e.0, content_bytes(e.1)));
            assert(byte_pairs(out@) =~= byte_pairs(old_out).push((path@, content@)));
            assert(byte_pairs(out@) =~= tree_files(files_view(files@)).take(i + 1));
        }
        i = i + 1;
    }
    proof {
        assert(tree_files(files_view(files@)).take(i as int) =~= tree_files(files_view(files@)));
    }
    out
}

impl TodoList {
    /// The branch that the command just before `current_index` made, if any.
    pub fn last_branch(&self, current_index: usize) -> (r: Option<String>)
        ensures
            opt_chars(r) == last_branch(self@.commands, current_index as nat),
    {
        let i: usize = if current_index == 0 {
            0
        } else {
            current_index - 1
        };
        if i < self.commands.len() {
            match &self.commands[i] {
                Command::Branch(prev) => Some(prev.as_str().to_owned()),
                _ => None,
            }
        } else {
            None
        }
    }
}

/// The bookkeeping of a running script.
#[derive(Debug)]
pub struct Runner {
    next: usize,
    last_oid: Option<Oid>,
    labels: LabelTable,
    head: Option<AnnotatedOid>,
}

impl View for Runner {
    type V = RunState;

    closed spec fn view(&self) -> RunState {
        RunState {
            next: self.next as nat,
            last: self.last_oid,
            labels: self.labels.map(),
            head: match self.head {
                Some(h) => Some(h@),
                None => None,
            },
        }
    }
}

impl Runner {
    /// The runner's label table is well formed.
    pub closed spec fn wf(&self) -> bool {
        self.labels.wf()
    }

    /// A run that has not started, on a repository whose HEAD resolves to
    /// `initial` (none in a fresh repository).
    pub fn new(initial: Option<Oid>) -> (r: Self)
        ensures
            r.wf(),
            r@ == (RunState {
                next: 0,
                last: initial,
                labels: Map::empty(),
                head: None,
            }),
    {
        Runner { next: 0, last_oid: initial, labels: LabelTable::new(), head: None }
    }

    /// The index of the command that the next step runs.
    pub fn next_index(&self) -> (r: usize)
        ensures
            r as nat == self@.next,
    {
        self.next
    }

    /// The last commit made or reset to.
    pub fn last_commit(&self) -> (r: Option<Oid>)
        ensures
            r == self@.last,
    {
        self.last_oid
    }

    /// Where a head command last sent HEAD, if one did.
    pub fn pending_head(&self) -> (r: Option<AnnotatedOid>)
        ensures
            match r {
                Some(h) => self@.head == Some(h@),
                None => self@.head is None,
            },
    {
        match &self.head {
            Some(AnnotatedOid::Commit(c)) => Some(AnnotatedOid::Commit(*c)),
            Some(AnnotatedOid::Branch(b)) => Some(AnnotatedOid::Branch(b.clone())),
            None => None,
        }
    }

    /// The commit that a label names, if it is set.
    pub fn label_target(&self, label: &Label) -> (r: Option<Oid>)
        requires
            self.wf(),
        ensures
            r == (if self@.labels.dom().contains(label@) {
                Some(self@.labels[label@])
            } else {
                None
            }),
    {
        self.labels.get(label)
    }

    fn resolve_base(&self, base: &Vec<Label>) -> (r: (Vec<Oid>, Option<Label>))
        requires
            self.wf(),
        ensures
            ({
                let names = label_names(base@);
                let k = first_missing(self@.labels, names);
                &&& r.0@ == names.take(k as int).map_values(|n: Seq<char>| self@.labels[n])
                &&& match r.1 {
                    Some(l) => k < names.len() && l@ == names[k as int],
                    None => k == names.len(),
                }
            }),
    {
        let ghost names = label_names(base@);
        let ghost labels = self@.labels;
        let mut theirs: Vec<Oid> = Vec::new();
        let mut i: usize = 0;
        while i < base.len()
            invariant
                self.wf(),
                names == label_names(base@),
                labels == self@.labels,
                i <= base.len(),
                forall|j: int| 0 <= j < i ==> labels.dom().contains(#[trigger] names[j]),
                theirs@ == names.take(i as int).map_values(|n: Seq<char>| labels[n]),
            decreases base.len() - i,
        {
            match self.labels.get(&base[i]) {
                Some(o) => {
                    theirs.push(o);
                    proof {
                        assert(theirs@ =~= names.take(i + 1).map_values(|n: Seq<char>| labels[n]));
                    }
                },
                None => {
                    proof {
                        lemma_first_missing(labels, names, i as int);
                    }
                    return (theirs, Some(base[i].duplicate()));
                },
            }
            i = i + 1;
        }
        proof {
            lemma_first_missing(labels, names, i as int);
        }
        (theirs, None)
    }

    /// Runs the bookkeeping of the next command and says what it asks of the
    /// repository; or says why the run stops there, leaving the state as it was.
    pub fn step(&mut self, list: &TodoList) -> (r: Result<Action, RunError>)
        requires
            old(self).wf(),
            old(self)@.next < list@.commands.len(),
            tree_paths_unique(list@),
        ensures
            final(self).wf(),
            match step_spec(old(self)@, list@) {
                Ok((s, a)) => r matches Ok(x) && x@ == a && final(self)@ == s,
                Err(e) => r matches Err(x) && x@ == e && final(self)@ == old(self)@,
            },
    {
        let i = self.next;
        assert(list@.commands[i as int] == list.commands@[i as int]@);
        assert(i < list.commands.len());
        match &list.commands[i] {
            Command::Label(label) => {
                match self.last_oid {
                    None => Err(RunError::NoCommitsYet),
                    Some(c) => {
                        self.labels.insert(label.duplicate(), c);
                        self.next = i + 1;
                        Ok(Action::Bookkeeping)
                    },
                }
            },
            Command::Reset(label) => {
                match self.labels.get(label) {
                    None => Err(RunError::LabelNotFound(label.duplicate())),
                    Some(c) => {
                        self.last_oid = Some(c);
                        self.next = i + 1;
                        Ok(Action::Bookkeeping)
                    },
                }
            },
            Command::Tree(tree) => {
                let files = plan_files(&tree.files);
                let author = match &tree.author {
                    Some(a) => Some(a.clone()),
                    None => copy_opt_string(&list.author),
                };
                let message = match &tree.message {
                    Some(m) => m.clone(),
                    None => default_commit_message(i),
                };
                self.next = i + 1;
                Ok(
                    Action::Commit(
                        CommitPlan {
                            files,
                            author,
                            message,
                            parent: self.last_oid,
                            sleep: list.sleep,
                        },
                    ),
                )
            },
            Command::Merge(merge) => {
                match self.last_oid {
                    None => Err(RunError::NoCommitsYet),
                    Some(ours) => {
                        let (theirs, missing) = self.resolve_base(&merge.base);
                        let author = match &merge.author {
                            Some(a) => Some(a.clone()),
                            None => copy_opt_string(&list.author),
                        };
                        let message = match &merge.message {
                            Some(m) => m.clone(),
                            None => default_merge_message(&merge.base, i),
                        };
                        self.next = i + 1;
                        Ok(
                            Action::Merge(
                                MergePlan {
                                    ours,
                                    theirs,
                                    missing,
                                    author,
                                    message,
                                    sleep: list.sleep,
                                },
                            ),
                        )
                    },
                }
            },
            Command::Branch(branch) => {
                match self.last_oid {
                    None => Err(RunError::NoCommitsYet),
                    Some(c) => {
                        self.next = i + 1;
                        Ok(Action::Branch { name: branch.as_str().to_owned(), target: c })
                    },
                }
            },
            Command::Tag(tag) => {
                match self.last_oid {
                    None => Err(RunError::NoCommitsYet),
                    Some(c) => {
                        self.next = i + 1;
                        Ok(
                            Action::Tag {
                                name: tag.as_str().to_owned(),
                                target: c,
                                author: copy_opt_string(&list.author),
                                message: default_tag_message(i),
                            },
                        )
                    },
                }
            },
            Command::Head => {
                match list.last_branch(i) {
                    Some(b) => {
                        self.head = Some(AnnotatedOid::Branch(b));
                        self.next = i + 1;
                        Ok(Action::Bookkeeping)
                    },
                    None => {
                        match self.last_oid {
                            None => Err(RunError::NoCommitsYet),
                            Some(c) => {
                                self.head = Some(AnnotatedOid::Commit(c));
                                self.next = i + 1;
                                Ok(Action::Bookkeeping)
                            },
                        }
                    },
                }
            },
        }
    }

    /// Records the commit that the last commit or merge plan made.
    pub fn record_commit(&mut self, oid: Oid)
        requires
            old(self).wf(),
        ensures
            final(self).wf(),
            final(self)@ == after_commit(old(self)@, oid),
    {
        self.last_oid = Some(oid);
    }

    /// Where HEAD must point once every command has run.
    pub fn finish(&self, list: &TodoList) -> (r: Result<AnnotatedOid, RunError>)
        ensures
            match final_head(self@, list@) {
                Ok(h) => r matches Ok(x) && x@ == h,
                Err(e) => r matches Err(x) && x@ == e,
            },
    {
        match &self.head {
            Some(AnnotatedOid::Commit(c)) => Ok(AnnotatedOid::Commit(*c)),
            Some(AnnotatedOid::Branch(b)) => Ok(AnnotatedOid::Branch(b.clone())),
            None => match list.last_branch(list.commands.len()) {
                Some(b) => Ok(AnnotatedOid::Branch(b)),
                None => match self.last_oid {
                    Some(c) => Ok(AnnotatedOid::Commit(c)),
                    None => Err(RunError::NoCommitsYet),
                },
            },
        }
    }
}

} // verus!
