//! Library paths, and the registration of a folder path together with its
//! ancestors that are not stored yet.

use vstd::prelude::*;
use crate::converts::{db_from_folder_id_may_root, folder_id_column};
use crate::model::FolderIdMayRoot;
use crate::text::chars_of;

verus! {

broadcast use vstd::string::group_string_axioms;

// ---------------------------------------------------------------------------
// Directory path texts
// ---------------------------------------------------------------------------

/// Whether `s` is the text of a directory path: empty (the library root) or
/// ending with `/`.
pub open spec fn dir_form(s: Seq<char>) -> bool {
    s.len() == 0 || s.last() == '/'
}

/// The directory path that a text names: the text itself when it is empty
/// or ends with `/`, else the text with `/` appended.
pub open spec fn dir_text(s: Seq<char>) -> Seq<char> {
    if dir_form(s) {
        s
    } else {
        s.push('/')
    }
}

/// Index of the last `/` in `s`, or -1 when there is none.
pub open spec fn last_slash(s: Seq<char>) -> int
    decreases s.len(),
{
    if s.len() == 0 {
        -1
    } else if s.last() == '/' {
        s.len() - 1
    } else {
        last_slash(s.drop_last())
    }
}

/// The parent of a non-root directory path: its text up to and including
/// the `/` before its last name; the root when there is no such `/`.
pub open spec fn parent_text(s: Seq<char>) -> Seq<char> {
    s.take(last_slash(s.drop_last()) + 1)
}

/// The last name of a non-root directory path, without the slashes.
pub open spec fn name_text(s: Seq<char>) -> Seq<char> {
    s.subrange(last_slash(s.drop_last()) + 1, s.len() - 1)
}

/// Where the last `/` of a text is.
pub proof fn lemma_last_slash(s: Seq<char>)
    ensures
        -1 <= last_slash(s) < s.len(),
        last_slash(s) >= 0 ==> s[last_slash(s)] == '/',
        forall|i: int| last_slash(s) < i < s.len() ==> s[i] != '/',
    decreases s.len(),
{
    if s.len() > 0 && s.last() != '/' {
        lemma_last_slash(s.drop_last());
        assert forall|i: int| last_slash(s) < i < s.len() implies s[i] != '/' by {
            if i < s.len() - 1 {
                assert(s.drop_last()[i] == s[i]);
            }
        }
    }
}

/// The non-root directories from `s` up to the top, `s` first.
pub open spec fn folder_chain(s: Seq<char>) -> Seq<Seq<char>>
    decreases s.len(),
{
    if s.len() == 0 {
        seq![]
    } else {
        proof {
            lemma_last_slash(s.drop_last());
        }
        seq![s] + folder_chain(parent_text(s))
    }
}

/// A non-root directory path is its parent directory path, then its name,
/// then `/`; the name holds no `/`.
pub proof fn law_dir_split(s: Seq<char>)
    requires
        dir_form(s),
        s.len() > 0,
    ensures
        parent_text(s) + name_text(s) + seq!['/'] == s,
        dir_form(parent_text(s)),
        parent_text(s).len() < s.len(),
        forall|i: int| 0 <= i < name_text(s).len() ==> name_text(s)[i] != '/',
{
    let b = s.drop_last();
    lemma_last_slash(b);
    let k = last_slash(b);
    assert(parent_text(s) + name_text(s) + seq!['/'] =~= s);
    assert forall|i: int| 0 <= i < name_text(s).len() implies name_text(s)[i] != '/' by {
        assert(name_text(s)[i] == b[k + 1 + i]);
    }
    if k >= 0 {
        assert(parent_text(s).last() == b[k]);
    }
}

/// The folders that registering `s` walks through: `s` first, then each
/// folder's parent directory, up to a folder directly under the root; every
/// one of them is a non-root directory path.
pub proof fn law_folder_chain(s: Seq<char>)
    requires
        dir_form(s),
    ensures
        folder_chain(s).len() == 0 <==> s.len() == 0,
        s.len() > 0 ==> folder_chain(s)[0] == s,
        forall|k: int|
            0 <= k < folder_chain(s).len() - 1 ==> folder_chain(s)[k + 1] == parent_text(
                #[trigger] folder_chain(s)[k],
            ),
        folder_chain(s).len() > 0 ==> parent_text(folder_chain(s).last()).len() == 0,
        forall|k: int|
            0 <= k < folder_chain(s).len() ==> dir_form(#[trigger] folder_chain(s)[k])
                && folder_chain(s)[k].len() > 0,
    decreases s.len(),
{
    if s.len() > 0 {
        law_dir_split(s);
        let p = parent_text(s);
        law_folder_chain(p);
        let c = folder_chain(s);
        assert(c == seq![s] + folder_chain(p));
        assert forall|k: int| 0 <= k < c.len() - 1 implies c[k + 1] == parent_text(#[trigger] c[k]) by {
            if k > 0 {
                assert(c[k] == folder_chain(p)[k - 1]);
                assert(c[k + 1] == folder_chain(p)[k]);
            } else {
                assert(c[1] == folder_chain(p)[0]);
            }
        }
        assert forall|k: int| 0 <= k < c.len() implies dir_form(#[trigger] c[k]) && c[k].len() > 0 by {
            if k > 0 {
                assert(c[k] == folder_chain(p)[k - 1]);
            }
        }
        if p.len() == 0 {
            assert(c.last() == s);
        } else {
            assert(c.last() == folder_chain(p).last());
        }
    }
}

// ---------------------------------------------------------------------------
// Library paths
// ---------------------------------------------------------------------------

/// A directory in the library, as its path text: empty for the library root,
/// else ending with `/`.
pub struct LibDirPath {
    text: String,
}

impl View for LibDirPath {
    type V = Seq<char>;

    closed spec fn view(&self) -> Seq<char> {
        self.text@
    }
}

impl LibDirPath {
    #[verifier::type_invariant]
    spec fn well_formed(self) -> bool {
        dir_form(self.text@)
    }

    /// The directory path that `s` names (a `/` is added at the end of a
    /// non-empty text that lacks one).
    pub fn new(s: &str) -> (r: Self)
        ensures
            r@ == dir_text(s@),
    {
        let mut text = String::new();
        text.append(s);
        let n = s.unicode_len();
        if n > 0 && s.get_char(n - 1) != '/' {
            text.append("/");
            proof {
                reveal_strlit("/");
            }
            assert(text@ =~= s@.push('/'));
        }
        LibDirPath { text }
    }

    /// The library root.
    pub fn root() -> (r: Self)
        ensures
            r@ == Seq::<char>::empty(),
    {
        LibDirPath { text: String::new() }
    }

    /// The path text.
    pub fn as_str(&self) -> (r: &str)
        ensures
            r@ == self@,
    {
        self.text.as_str()
    }

    /// Whether this is the library root.
    pub fn is_root(&self) -> (r: bool)
        ensures
            r == (self@.len() == 0),
    {
        self.text.unicode_len() == 0
    }

    /// Length of the parent directory's text: one past the `/` before the
    /// last name, or 0.
    fn parent_end(&self) -> (r: usize)
        requires
            self@.len() > 0,
        ensures
            r == last_slash(self@.drop_last()) + 1,
            r < self@.len(),
    {
        proof {
            lemma_last_slash(self@.drop_last());
        }
        let cs = chars_of(self.text.as_str());
        let mut i: usize = cs.len() - 1;
        assert(cs@.take(i as int) =~= self@.drop_last());
        while i > 0
            invariant
                i < cs@.len(),
                cs@ == self@,
                last_slash(self@.drop_last()) == last_slash(cs@.take(i as int)),
            decreases i,
        {
            let ghost t = cs@.take(i as int);
            if cs[i - 1] == '/' {
                assert(t.last() == cs@[i - 1]);
                return i;
            }
            assert(t.drop_last() =~= cs@.take(i - 1));
            i = i - 1;
        }
        0
    }

    /// The parent directory; `None` for the root.
    pub fn parent(&self) -> (r: Option<LibDirPath>)
        ensures
            self@.len() == 0 ==> r is None,
            self@.len() > 0 ==> (r matches Some(p) && p@ == parent_text(self@)),
    {
        proof {
            use_type_invariant(self);
        }
        if self.is_root() {
            return None;
        }
        proof {
            law_dir_split(self@);
        }
        let end = self.parent_end();
        let text = self.text.as_str().substring_char(0, end).to_string();
        Some(LibDirPath { text })
    }

    /// The last name of the directory; `None` for the root.
    pub fn dir_name(&self) -> (r: Option<String>)
        ensures
            self@.len() == 0 ==> r is None,
            self@.len() > 0 ==> (r matches Some(n) && n@ == name_text(self@)),
    {
        if self.is_root() {
            return None;
        }
        proof {
            lemma_last_slash(self@.drop_last());
        }
        let start = self.parent_end();
        let n = self.text.unicode_len();
        Some(self.text.as_str().substring_char(start, n - 1).to_string())
    }
}

impl Clone for LibDirPath {
    fn clone(&self) -> (r: Self)
        ensures
            r@ == self@,
    {
        proof {
            use_type_invariant(self);
        }
        LibDirPath { text: self.text.clone() }
    }
}

/// A song file in the library, as its path text.
pub struct LibSongPath {
    text: String,
}

impl View for LibSongPath {
    type V = Seq<char>;

    closed spec fn view(&self) -> Seq<char> {
        self.text@
    }
}

impl LibSongPath {
    /// The song path with text `s`.
    pub fn new(s: &str) -> (r: Self)
        ensures
            r@ == s@,
    {
        LibSongPath { text: s.to_string() }
    }

    /// The path text.
    pub fn as_str(&self) -> (r: &str)
        ensures
            r@ == self@,
    {
        self.text.as_str()
    }
}

impl Clone for LibSongPath {
    fn clone(&self) -> (r: Self)
        ensures
            r@ == self@,
    {
        LibSongPath { text: self.text.clone() }
    }
}

/// A path text that may name a directory or a song file.
pub struct LibPathStr {
    text: String,
}

impl View for LibPathStr {
    type V = Seq<char>;

    closed spec fn view(&self) -> Seq<char> {
        self.text@
    }
}

impl LibPathStr {
    /// The path text `s`.
    pub fn new(s: &str) -> (r: Self)
        ensures
            r@ == s@,
    {
        LibPathStr { text: s.to_string() }
    }

    /// The text read as a directory path.
    pub fn to_dir_path(&self) -> (r: LibDirPath)
        ensures
            r@ == dir_text(self@),
    {
        LibDirPath::new(self.text.as_str())
    }

    /// The text read as a song path.
    pub fn to_song_path(&self) -> (r: LibSongPath)
        ensures
            r@ == self@,
    {
        LibSongPath::new(self.text.as_str())
    }
}

// ---------------------------------------------------------------------------
// Registering a folder path
// ---------------------------------------------------------------------------

/// What the registration of a folder asks of the store next.
pub enum FolderStep {
    /// The registration is over: the id of the requested folder (the root
    /// for the library root).
    Done(FolderIdMayRoot),
    /// Report the id of the folder stored at this path, if there is one.
    LookUp(LibDirPath),
    /// Store a folder with this path and name under this parent, and report
    /// its new id.
    Insert { path: LibDirPath, name: String, parent: FolderIdMayRoot },
}

/// The registration of a folder path together with its ancestors that are
/// not stored yet.
///
/// It looks the folder up, then its parent, and so on upwards until a stored
/// folder or the root is reached; then it stores the missing folders from the
/// outermost inwards, each under the folder found or stored just before it.
pub struct FolderRegistration {
    chain: Vec<LibDirPath>,
    pos: usize,
    inserting: bool,
    finished: bool,
    requested: Ghost<Seq<char>>,
}

impl FolderRegistration {
    #[verifier::type_invariant]
    spec fn well_formed(self) -> bool {
        &&& dir_form(self.requested@)
        &&& self.chain@.map_values(|p: LibDirPath| p@) == folder_chain(self.requested@)
        &&& (self.finished || self.pos < self.chain@.len())
    }

    /// The requested folder path.
    pub closed spec fn requested(&self) -> Seq<char> {
        self.requested@
    }

    /// The folders walked through: the requested one and its non-root
    /// ancestors, innermost first.
    pub closed spec fn chain_view(&self) -> Seq<Seq<char>> {
        self.chain@.map_values(|p: LibDirPath| p@)
    }

    /// Index in the chain of the folder whose id is awaited.
    pub closed spec fn position(&self) -> int {
        self.pos as int
    }

    /// Whether the registration waits for the result of a look-up.
    pub closed spec fn awaiting_lookup(&self) -> bool {
        !self.finished && !self.inserting
    }

    /// Whether the registration waits for the id of a stored folder.
    pub closed spec fn awaiting_insert(&self) -> bool {
        !self.finished && self.inserting
    }

    /// Whether the registration is over.
    pub closed spec fn is_finished(&self) -> bool {
        self.finished
    }

    /// Starts registering `path`: the root needs nothing stored; any other
    /// folder is first looked up.
    pub fn start(path: &LibDirPath) -> (res: (FolderRegistration, FolderStep))
        ensures
            res.0.requested() == path@,
            res.0.chain_view() == folder_chain(path@),
            path@.len() == 0 ==> (res.1 == FolderStep::Done(FolderIdMayRoot::Root) && res.0.is_finished()),
            path@.len() > 0 ==> (res.1 matches FolderStep::LookUp(p) && p@ == path@ && res.0.awaiting_lookup()
                && res.0.position() == 0),
    {
        proof {
            use_type_invariant(path);
            law_folder_chain(path@);
        }
        let mut chain: Vec<LibDirPath> = Vec::new();
        let mut cur = path.clone();
        while !cur.is_root()
            invariant
                chain@.map_values(|p: LibDirPath| p@) + folder_chain(cur@) == folder_chain(path@),
            decreases cur@.len(),
        {
            proof {
                use_type_invariant(&cur);
                law_dir_split(cur@);
            }
            let ghost before = chain@.map_values(|p: LibDirPath| p@);
            let ghost x = cur@;
            let next = cur.parent();
            match next {
                Some(p) => {
                    chain.push(cur);
                    cur = p;
                    assert(chain@.map_values(|p: LibDirPath| p@) =~= before.push(x));
                    assert(folder_chain(x) == seq![x] + folder_chain(cur@));
                    assert(before.push(x) + folder_chain(cur@) =~= before + folder_chain(x));
                },
                None => {
                    assert(false);
                },
            }
        }
        assert(chain@.map_values(|p: LibDirPath| p@) =~= folder_chain(path@));
        if chain.len() == 0 {
            let reg = FolderRegistration {
                chain,
                pos: 0,
                inserting: false,
                finished: true,
                requested: Ghost(path@),
            };
            (reg, FolderStep::Done(FolderIdMayRoot::Root))
        } else {
            let first = chain[0].clone();
            assert(chain@.map_values(|p: LibDirPath| p@)[0] == chain@[0]@);
            let reg = FolderRegistration {
                chain,
                pos: 0,
                inserting: false,
                finished: false,
                requested: Ghost(path@),
            };
            (reg, FolderStep::LookUp(first))
        }
    }

    /// The step that stores the folder at the current position under `parent`.
    fn insert_step(&self, parent: FolderIdMayRoot) -> (step: FolderStep)
        requires
            !self.is_finished(),
        ensures
            step matches FolderStep::Insert { path, name, parent: p } && path@ == self.chain_view()[self.position()]
                && name@ == name_text(self.chain_view()[self.position()]) && p == parent,
    {
        proof {
            use_type_invariant(self);
            law_folder_chain(self.requested@);
        }
        let path = self.chain[self.pos].clone();
        assert(self.chain_view()[self.position()] == self.chain@[self.pos as int]@);
        let name = match path.dir_name() {
            Some(n) => n,
            None => {
                assert(false);
                String::new()
            },
        };
        FolderStep::Insert { path, name, parent }
    }

    /// Goes on after a look-up: a stored folder ends the search upwards (and
    /// the registration, when it is the requested folder); a missing one is
    /// followed by its parent, or, under the root, by storing it.
    pub fn on_found(&mut self, found: Option<i32>) -> (step: FolderStep)
        requires
            old(self).awaiting_lookup(),
        ensures
            final(self).requested() == old(self).requested(),
            final(self).chain_view() == old(self).chain_view(),
            ({
                let c = old(self).chain_view();
                let k = old(self).position();
                match found {
                    Some(id) => if k == 0 {
                        step == FolderStep::Done(FolderIdMayRoot::Folder(id)) && final(self).is_finished()
                    } else {
                        &&& step matches FolderStep::Insert { path, name, parent } && path@ == c[k - 1]
                            && name@ == name_text(c[k - 1]) && parent == FolderIdMayRoot::Folder(id)
                        &&& final(self).awaiting_insert()
                        &&& final(self).position() == k - 1
                    },
                    None => if k + 1 < c.len() {
                        &&& step matches FolderStep::LookUp(p) && p@ == c[k + 1]
                        &&& final(self).awaiting_lookup()
                        &&& final(self).position() == k + 1
                    } else {
                        &&& step matches FolderStep::Insert { path, name, parent } && path@ == c[k]
                            && name@ == name_text(c[k]) && parent == FolderIdMayRoot::Root
                        &&& final(self).awaiting_insert()
                        &&& final(self).position() == k
                    },
                }
            }),
    {
        proof {
            use_type_invariant(&*self);
        }
        let k = self.pos;
        match found {
            Some(id) => {
                if k == 0 {
                    self.finished = true;
                    FolderStep::Done(FolderIdMayRoot::Folder(id))
                } else {
                    self.pos = k - 1;
                    self.inserting = true;
                    self.insert_step(FolderIdMayRoot::Folder(id))
                }
            },
            None => {
                if k < self.chain.len() - 1 {
                    self.pos = k + 1;
                    let p = self.chain[k + 1].clone();
                    assert(self.chain_view()[k + 1] == self.chain@[k + 1]@);
                    FolderStep::LookUp(p)
                } else {
                    self.inserting = true;
                    self.insert_step(FolderIdMayRoot::Root)
                }
            },
        }
    }

    /// Goes on after a folder was stored with id `id`: the requested folder
    /// ends the registration; any other is the parent of the next one to store.
    pub fn on_inserted(&mut self, id: i32) -> (step: FolderStep)
        requires
            old(self).awaiting_insert(),
        ensures
            final(self).requested() == old(self).requested(),
            final(self).chain_view() == old(self).chain_view(),
            ({
                let c = old(self).chain_view();
                let k = old(self).position();
                if k == 0 {
                    step == FolderStep::Done(FolderIdMayRoot::Folder(id)) && final(self).is_finished()
                } else {
                    &&& step matches FolderStep::Insert { path, name, parent } && path@ == c[k - 1]
                        && name@ == name_text(c[k - 1]) && parent == FolderIdMayRoot::Folder(id)
                    &&& final(self).awaiting_insert()
                    &&& final(self).position() == k - 1
                }
            }),
    {
        proof {
            use_type_invariant(&*self);
        }
        let k = self.pos;
        if k == 0 {
            self.finished = true;
            FolderStep::Done(FolderIdMayRoot::Folder(id))
        } else {
            self.pos = k - 1;
            self.insert_step(FolderIdMayRoot::Folder(id))
        }
    }
}

/// The folder operations of the store.
pub struct DbFolderRepositoryImpl {}

impl DbFolderRepositoryImpl {
    /// The folder operations.
    pub fn new() -> (r: Self) {
        DbFolderRepositoryImpl {}
    }

    /// Begins registering `path` with every ancestor folder that is not
    /// stored yet; the registration goes on with the store's answers (see
    /// `FolderRegistration`). The root needs nothing stored.
    pub fn register_not_exists(&self, path: &LibDirPath) -> (res: (FolderRegistration, FolderStep))
        ensures
            res.0.requested() == path@,
            res.0.chain_view() == folder_chain(path@),
            path@.len() == 0 ==> (res.1 == FolderStep::Done(FolderIdMayRoot::Root) && res.0.is_finished()),
            path@.len() > 0 ==> (res.1 matches FolderStep::LookUp(p) && p@ == path@ && res.0.awaiting_lookup()
                && res.0.position() == 0),
    {
        FolderRegistration::start(path)
    }
}

/// The values of a new folder row: path text, name, and parent column
/// (NULL for a folder directly under the root).
pub struct FolderPathInsert {
    pub path: String,
    pub name: String,
    pub parent_id: Option<i32>,
}

/// The store operations on the folder table.
pub struct FolderPathDaoImpl {}

impl FolderPathDaoImpl {
    /// The folder-table operations.
    pub fn new() -> (r: Self) {
        FolderPathDaoImpl {}
    }

    /// The values bound when a folder at `path` named `name` is stored under
    /// `parent_id`.
    pub fn insert_values(&self, path: &LibDirPath, name: &str, parent_id: FolderIdMayRoot) -> (r: FolderPathInsert)
        ensures
            r.path@ == path@,
            r.name@ == name@,
            r.parent_id == folder_id_column(parent_id),
    {
        FolderPathInsert {
            path: path.as_str().to_string(),
            name: name.to_string(),
            parent_id: db_from_folder_id_may_root(parent_id),
        }
    }
}

} // verus!
