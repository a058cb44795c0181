//! The data model of a fixture script: a list of commands that build a
//! small git history, with the abstract views the contracts speak of.

use vstd::prelude::*;

verus! {

/// The view of an optional string.
pub open spec fn opt_chars(o: Option<String>) -> Option<Seq<char>> {
    match o {
        Some(s) => Some(s@),
        None => None,
    }
}

/// A name given to a commit, so that later commands can come back to it.
#[derive(Clone, Debug, PartialEq, Eq, PartialOrd, Ord, Hash)]
pub struct Label(String);

impl View for Label {
    type V = Seq<char>;

    closed spec fn view(&self) -> Seq<char> {
        self.0@
    }
}

impl Label {
    pub fn new(name: &str) -> (r: Self)
        ensures
            r@ == name@,
    {
        Label(name.to_owned())
    }

    pub fn as_str(&self) -> (r: &str)
        ensures
            r@ == self@,
    {
        self.0.as_str()
    }

    /// Builds a label that owns the given name.
    pub fn from_string(name: String) -> (r: Self)
        ensures
            r@ == name@,
    {
        Label(name)
    }

    /// Whether both labels have the same name.
    pub fn same_name(&self, other: &Label) -> (r: bool)
        ensures
            r == (self@ == other@),
    {
        self.0 == other.0
    }

    /// A copy of this label, with the same name.
    pub fn duplicate(&self) -> (r: Self)
        ensures
            r@ == self@,
    {
        Label(self.0.clone())
    }
}

impl std::ops::Deref for Label {
    type Target = str;

    fn deref(&self) -> (r: &str)
        ensures
            r@ == self@,
    {
        self.as_str()
    }
}

impl std::borrow::Borrow<str> for Label {
    fn borrow(&self) -> (r: &str)
        ensures
            ({
                let name: &str = r;
                name@ == self@
            }),
    {
        self.as_str()
    }
}

impl From<String> for Label {
    fn from(other: String) -> (r: Self)
        ensures
            r@ == other@,
    {
        Label(other)
    }
}

impl vstd::std_specs::convert::FromSpecImpl<String> for Label {
    open spec fn obeys_from_spec() -> bool {
        true
    }

    closed spec fn from_spec(v: String) -> Label {
        Label(v)
    }
}

/// The name of a branch.
#[derive(Clone, Debug, PartialEq, Eq, PartialOrd, Ord, Hash)]
pub struct Branch(String);

impl View for Branch {
    type V = Seq<char>;

    closed spec fn view(&self) -> Seq<char> {
        self.0@
    }
}

impl Branch {
    pub fn new(name: &str) -> (r: Self)
        ensures
            r@ == name@,
    {
        Branch(name.to_owned())
    }

    pub fn as_str(&self) -> (r: &str)
        ensures
            r@ == self@,
    {
        self.0.as_str()
    }

    /// Builds a branch name that owns the given string.
    pub fn from_string(name: String) -> (r: Self)
        ensures
            r@ == name@,
    {
        Branch(name)
    }
}

impl std::ops::Deref for Branch {
    type Target = str;

    fn deref(&self) -> (r: &str)
        ensures
            r@ == self@,
    {
        self.as_str()
    }
}

impl std::borrow::Borrow<str> for Branch {
    fn borrow(&self) -> (r: &str)
        ensures
            ({
                let name: &str = r;
                name@ == self@
            }),
    {
        self.as_str()
    }
}

impl From<String> for Branch {
    fn from(other: String) -> (r: Self)
        ensures
            r@ == other@,
    {
        Branch(other)
    }
}

impl vstd::std_specs::convert::FromSpecImpl<String> for Branch {
    open spec fn obeys_from_spec() -> bool {
        true
    }

    closed spec fn from_spec(v: String) -> Branch {
        Branch(v)
    }
}

impl<'s> From<&'s str> for Branch {
    fn from(other: &'s str) -> (r: Self)
        ensures
            r@ == other@,
    {
        Branch(other.to_owned())
    }
}

impl<'s> vstd::std_specs::convert::FromSpecImpl<&'s str> for Branch {
    open spec fn obeys_from_spec() -> bool {
        false
    }

    closed spec fn from_spec(v: &'s str) -> Branch {
        choose|x: Branch| x@ == v@
    }
}

/// The name of an annotated tag.
#[derive(Clone, Debug, PartialEq, Eq, PartialOrd, Ord, Hash)]
pub struct Tag(String);

impl View for Tag {
    type V = Seq<char>;

    closed spec fn view(&self) -> Seq<char> {
        self.0@
    }
}

impl Tag {
    pub fn new(name: &str) -> (r: Self)
        ensures
            r@ == name@,
    {
        Tag(name.to_owned())
    }

    pub fn as_str(&self) -> (r: &str)
        ensures
            r@ == self@,
    {
        self.0.as_str()
    }

    /// Builds a tag name that owns the given string.
    pub fn from_string(name: String) -> (r: Self)
        ensures
            r@ == name@,
    {
        Tag(name)
    }
}

impl<'s> From<&'s str> for Label {
    fn from(other: &'s str) -> (r: Self)
        ensures
            r@ == other@,
    {
        Label(other.to_owned())
    }
}

impl<'s> vstd::std_specs::convert::FromSpecImpl<&'s str> for Label {
    open spec fn obeys_from_spec() -> bool {
        false
    }

    closed spec fn from_spec(v: &'s str) -> Label {
        choose|l: Label| l@ == v@
    }
}

impl std::ops::Deref for Tag {
    type Target = str;

    fn deref(&self) -> (r: &str)
        ensures
            r@ == self@,
    {
        self.as_str()
    }
}

impl std::borrow::Borrow<str> for Tag {
    fn borrow(&self) -> (r: &str)
        ensures
            ({
                let name: &str = r;
                name@ == self@
            }),
    {
        self.as_str()
    }
}

impl From<String> for Tag {
    fn from(other: String) -> (r: Self)
        ensures
            r@ == other@,
    {
        Tag(other)
    }
}

impl vstd::std_specs::convert::FromSpecImpl<String> for Tag {
    open spec fn obeys_from_spec() -> bool {
        true
    }

    closed spec fn from_spec(v: String) -> Tag {
        Tag(v)
    }
}

impl<'s> From<&'s str> for Tag {
    fn from(other: &'s str) -> (r: Self)
        ensures
            r@ == other@,
    {
        Tag(other.to_owned())
    }
}

impl<'s> vstd::std_specs::convert::FromSpecImpl<&'s str> for Tag {
    open spec fn obeys_from_spec() -> bool {
        false
    }

    closed spec fn from_spec(v: &'s str) -> Tag {
        choose|x: Tag| x@ == v@
    }
}

/// What a file holds: raw bytes, or text.
#[derive(Clone, Debug)]
pub enum FileContent {
    Binary(Vec<u8>),
    Text(String),
}

/// The view of a file's content.
pub enum FileContentView {
    Binary(Seq<u8>),
    Text(Seq<char>),
}

impl View for FileContent {
    type V = FileContentView;

    open spec fn view(&self) -> FileContentView {
        match self {
            FileContent::Binary(v) => FileContentView::Binary(v@),
            FileContent::Text(t) => FileContentView::Text(t@),
        }
    }
}

/// The bytes that a file with the given content holds: binary content as it
/// is, text in its UTF-8 encoding.
pub open spec fn content_bytes(c: FileContentView) -> Seq<u8> {
    match c {
        FileContentView::Binary(b) => b,
        FileContentView::Text(t) => vstd::utf8::encode_utf8(t),
    }
}

impl FileContent {
    pub fn as_bytes(&self) -> (r: &[u8])
        ensures
            r@ == content_bytes(self@),
    {
        match self {
            FileContent::Binary(v) => v.as_slice(),
            FileContent::Text(v) => v.as_str().as_bytes(),
        }
    }

    pub fn is_binary(&self) -> (r: bool)
        ensures
            r == (self is Binary),
    {
        match self {
            FileContent::Binary(_) => true,
            FileContent::Text(_) => false,
        }
    }

    pub fn is_text(&self) -> (r: bool)
        ensures
            r == (self is Text),
    {
        match self {
            FileContent::Binary(_) => false,
            FileContent::Text(_) => true,
        }
    }
}

impl From<String> for FileContent {
    fn from(data: String) -> (r: Self)
        ensures
            r@ == FileContentView::Text(data@),
    {
        FileContent::Text(data)
    }
}

impl vstd::std_specs::convert::FromSpecImpl<String> for FileContent {
    open spec fn obeys_from_spec() -> bool {
        true
    }

    open spec fn from_spec(v: String) -> FileContent {
        FileContent::Text(v)
    }
}

impl<'d> From<&'d String> for FileContent {
    fn from(data: &'d String) -> (r: Self)
        ensures
            r@ == FileContentView::Text(data@),
    {
        FileContent::Text(data.clone())
    }
}

impl<'d> vstd::std_specs::convert::FromSpecImpl<&'d String> for FileContent {
    open spec fn obeys_from_spec() -> bool {
        true
    }

    open spec fn from_spec(v: &'d String) -> FileContent {
        FileContent::Text(*v)
    }
}

impl<'d> From<&'d str> for FileContent {
    fn from(data: &'d str) -> (r: Self)
        ensures
            r@ == FileContentView::Text(data@),
    {
        FileContent::Text(data.to_owned())
    }
}

impl<'d> vstd::std_specs::convert::FromSpecImpl<&'d str> for FileContent {
    open spec fn obeys_from_spec() -> bool {
        false
    }

    open spec fn from_spec(v: &'d str) -> FileContent {
        choose|c: FileContent| c@ == FileContentView::Text(v@)
    }
}

/// The view of the files of a tree: each path, as the bytes the operating
/// system gives it, with its content, in the order
/// in which they are listed.
pub open spec fn files_view(files: Seq<(Vec<u8>, FileContent)>) -> Seq<(Seq<u8>, FileContentView)> {
    files.map_values(|e: (Vec<u8>, FileContent)| (e.0@, e.1@))
}

/// No path is listed twice.
pub open spec fn unique_paths(files: Seq<(Seq<u8>, FileContentView)>) -> bool {
    forall|i: int, j: int|
        0 <= i < files.len() && 0 <= j < files.len() && i != j ==> #[trigger] files[i].0
            != #[trigger] files[j].0
}

/// A commit to make: the files of its tree, its message and its author.
#[derive(Clone, Debug)]
pub struct Tree {
    pub files: Vec<(Vec<u8>, FileContent)>,
    pub message: Option<String>,
    pub author: Option<String>,
}

/// The view of a tree command.
pub struct TreeView {
    pub files: Seq<(Seq<u8>, FileContentView)>,
    pub message: Option<Seq<char>>,
    pub author: Option<Seq<char>>,
}

impl View for Tree {
    type V = TreeView;

    open spec fn view(&self) -> TreeView {
        TreeView {
            files: files_view(self.files@),
            message: opt_chars(self.message),
            author: opt_chars(self.author),
        }
    }
}

impl Default for Tree {
    fn default() -> (r: Self)
        ensures
            r@.files.len() == 0,
            r.message is None,
            r.author is None,
    {
        Tree { files: Vec::new(), message: None, author: None }
    }
}

/// The path of each listed file.
pub open spec fn paths_of(files: Seq<(Seq<u8>, FileContentView)>) -> Seq<Seq<u8>> {
    files.map_values(|e: (Seq<u8>, FileContentView)| e.0)
}

impl Tree {
    /// Sets the content of the file at `path`: an entry for that path is
    /// replaced where it stands, and a new path is added at the end.
    pub fn insert(&mut self, path: Vec<u8>, content: FileContent)
        requires
            unique_paths(old(self)@.files),
        ensures
            unique_paths(final(self)@.files),
            final(self).message == old(self).message,
            final(self).author == old(self).author,
            ({
                let old_files = old(self)@.files;
                let new_files = final(self)@.files;
                if paths_of(old_files).contains(path@) {
                    exists|k: int|
                        0 <= k < old_files.len() && old_files[k].0 == path@ && new_files
                            == old_files.update(k, (path@, content@))
                } else {
                    new_files == old_files.push((path@, content@))
                }
            }),
    {
        let ghost old_files = self@.files;
        let mut i: usize = 0;
        while i < self.files.len()
            invariant
                i <= self.files.len(),
                self.files@ == old(self).files@,
                self.message == old(self).message,
                self.author == old(self).author,
                self@.files == old_files,
                unique_paths(old_files),
                forall|j: int| 0 <= j < i ==> old_files[j].0 != path@,
            decreases self.files.len() - i,
        {
            if self.files[i].0 == path {
                let ghost k = i as int;
                self.files.set(i, (path, content));
                proof {
                    assert(files_view(self.files@) =~= old_files.update(k, (path@, content@)));
                    assert(old_files[k].0 == path@);
                    assert(paths_of(old_files)[k] == path@);
                    let new_files = files_view(self.files@);
                    assert forall|a: int, b: int|
                        0 <= a < new_files.len() && 0 <= b < new_files.len() && a != b implies #[trigger] new_files[a].0
                            != #[trigger] new_files[b].0 by {
                        assert(new_files[a].0 == old_files[a].0);
                        assert(new_files[b].0 == old_files[b].0);
                    }
                }
                return;
            }
            i = i + 1;
        }
        proof {
            assert forall|j: int| 0 <= j < old_files.len() implies paths_of(old_files)[j]
                != path@ by {
                assert(old_files[j].0 != path@);
            }
        }
        self.files.push((path, content));
        proof {
            assert(files_view(self.files@) =~= old_files.push((path@, content@)));
        }
    }
}

/// A merge of the commits behind some labels into the current commit.
#[derive(Clone, Debug)]
pub struct Merge {
    pub base: Vec<Label>,
    pub message: Option<String>,
    pub author: Option<String>,
}

/// The view of a merge command.
pub struct MergeView {
    pub base: Seq<Seq<char>>,
    pub message: Option<Seq<char>>,
    pub author: Option<Seq<char>>,
}

/// The names of a list of labels.
pub open spec fn label_names(labels: Seq<Label>) -> Seq<Seq<char>> {
    labels.map_values(|l: Label| l@)
}

impl View for Merge {
    type V = MergeView;

    open spec fn view(&self) -> MergeView {
        MergeView {
            base: label_names(self.base@),
            message: opt_chars(self.message),
            author: opt_chars(self.author),
        }
    }
}

/// One step of a fixture script.
#[derive(Clone, Debug)]
pub enum Command {
    Label(Label),
    Reset(Label),
    Tree(Tree),
    Merge(Merge),
    Branch(Branch),
    Tag(Tag),
    Head,
}

/// The view of a command.
pub enum CommandView {
    Label(Seq<char>),
    Reset(Seq<char>),
    Tree(TreeView),
    Merge(MergeView),
    Branch(Seq<char>),
    Tag(Seq<char>),
    Head,
}

impl View for Command {
    type V = CommandView;

    open spec fn view(&self) -> CommandView {
        match self {
            Command::Label(l) => CommandView::Label(l@),
            Command::Reset(l) => CommandView::Reset(l@),
            Command::Tree(t) => CommandView::Tree(t@),
            Command::Merge(m) => CommandView::Merge(m@),
            Command::Branch(b) => CommandView::Branch(b@),
            Command::Tag(t) => CommandView::Tag(t@),
            Command::Head => CommandView::Head,
        }
    }
}

impl Command {
    pub fn is_label(&self) -> (r: bool)
        ensures
            r == (self is Label),
    {
        match self {
            Command::Label(_) => true,
            _ => false,
        }
    }

    pub fn is_reset(&self) -> (r: bool)
        ensures
            r == (self is Reset),
    {
        match self {
            Command::Reset(_) => true,
            _ => false,
        }
    }

    pub fn is_tree(&self) -> (r: bool)
        ensures
            r == (self is Tree),
    {
        match self {
            Command::Tree(_) => true,
            _ => false,
        }
    }

    pub fn is_merge(&self) -> (r: bool)
        ensures
            r == (self is Merge),
    {
        match self {
            Command::Merge(_) => true,
            _ => false,
        }
    }

    pub fn is_branch(&self) -> (r: bool)
        ensures
            r == (self is Branch),
    {
        match self {
            Command::Branch(_) => true,
            _ => false,
        }
    }

    pub fn is_tag(&self) -> (r: bool)
        ensures
            r == (self is Tag),
    {
        match self {
            Command::Tag(_) => true,
            _ => false,
        }
    }

    pub fn is_head(&self) -> (r: bool)
        ensures
            r == (self is Head),
    {
        match self {
            Command::Head => true,
            _ => false,
        }
    }
}

impl From<Tree> for Command {
    fn from(tree: Tree) -> (r: Self)
        ensures
            r == Command::Tree(tree),
    {
        Command::Tree(tree)
    }
}

impl vstd::std_specs::convert::FromSpecImpl<Tree> for Command {
    open spec fn obeys_from_spec() -> bool {
        true
    }

    open spec fn from_spec(v: Tree) -> Command {
        Command::Tree(v)
    }
}

/// A fixture script: whether to create the repository, how long to pause
/// after each commit, the default author, and the commands.
#[derive(Clone, Debug)]
pub struct TodoList {
    pub init: bool,
    pub sleep: Option<std::time::Duration>,
    pub author: Option<String>,
    pub commands: Vec<Command>,
}

/// The view of a fixture script.
pub struct TodoListView {
    pub init: bool,
    pub sleep: Option<std::time::Duration>,
    pub author: Option<Seq<char>>,
    pub commands: Seq<CommandView>,
}

impl View for TodoList {
    type V = TodoListView;

    open spec fn view(&self) -> TodoListView {
        TodoListView {
            init: self.init,
            sleep: self.sleep,
            author: opt_chars(self.author),
            commands: self.commands@.map_values(|c: Command| c@),
        }
    }
}

/// No tree command of the script lists a path twice.
pub open spec fn tree_paths_unique(list: TodoListView) -> bool {
    forall|i: int|
        0 <= i < list.commands.len() ==> match #[trigger] list.commands[i] {
            CommandView::Tree(t) => unique_paths(t.files),
            _ => true,
        }
}

impl Tree {
    /// Whether no path is listed twice.
    pub fn has_unique_paths(&self) -> (r: bool)
        ensures
            r == unique_paths(self@.files),
    {
        let ghost files = self@.files;
        let mut i: usize = 0;
        while i < self.files.len()
            invariant
                files == self@.files,
                i <= self.files.len(),
                forall|a: int, b: int|
                    0 <= a < i && 0 <= b < files.len() && a != b ==> #[trigger] files[a].0
                        != #[trigger] files[b].0,
            decreases self.files.len() - i,
        {
            let mut j: usize = 0;
            while j < self.files.len()
                invariant
                    files == self@.files,
                    i < self.files.len(),
                    j <= self.files.len(),
                    forall|a: int, b: int|
                        0 <= a < i && 0 <= b < files.len() && a != b ==> #[trigger] files[a].0
                            != #[trigger] files[b].0,
                    forall|b: int|
                        0 <= b < j && b != i ==> files[i as int].0 != #[trigger] files[b].0,
                decreases self.files.len() - j,
            {
                if j != i && self.files[i].0 == self.files[j].0 {
                    assert(files[i as int].0 == files[j as int].0);
                    return false;
                }
                j = j + 1;
            }
            i = i + 1;
        }
        true
    }
}

impl TodoList {
    /// Whether no tree command lists a path twice.
    pub fn has_unique_tree_paths(&self) -> (r: bool)
        ensures
            r == tree_paths_unique(self@),
    {
        let mut i: usize = 0;
        while i < self.commands.len()
            invariant
                i <= self.commands.len(),
                forall|k: int|
                    0 <= k < i ==> match #[trigger] self@.commands[k] {
                        CommandView::Tree(t) => unique_paths(t.files),
                        _ => true,
                    },
            decreases self.commands.len() - i,
        {
            assert(self@.commands[i as int] == self.commands@[i as int]@);
            match &self.commands[i] {
                Command::Tree(t) => {
                    if !t.has_unique_paths() {
                        return false;
                    }
                },
                _ => {},
            }
            i = i + 1;
        }
        true
    }
}

/// A script creates its repository unless it says otherwise.
pub fn init_default() -> (r: bool)
    ensures
        r,
{
    true
}

impl Default for TodoList {
    fn default() -> (r: Self)
        ensures
            r.init,
            r.sleep is None,
            r.author is None,
            r.commands@.len() == 0,
    {
        TodoList { init: init_default(), sleep: None, author: None, commands: Vec::new() }
    }
}

} // verus!
