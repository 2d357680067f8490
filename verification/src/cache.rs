//! The cache on disk: where things lie below its root, and what leaves it when it is over
//! its budget.
//!
//! Trees and blobs are keyed by content ids and never change; a project is keyed by its
//! path, a branch head by project and branch. Every path component that comes from outside
//! is percent-encoded, so that neither a separator nor `..` in it becomes structure. All
//! locations are relative to the root.

use vstd::prelude::*;
use vstd::string::*;
use vstd::utf8::*;

use crate::api::Project;
use crate::budget::{BlobStat, Eviction};
use crate::{budget, encode, text};

verus! {

/// The default place of the cache below the user's cache directory.
pub const DEFAULT_SUBDIR: &'static str = "rootle/providers/rootle-gitlab";

/// The commit at the head of a branch.
#[derive(Debug)]
pub struct BranchHead {
    pub commit: String,
}

/// The root directory of a cache.
pub enum Root {
    /// There is none: every read misses and every write is dropped.
    Absent,
    /// A path that is text.
    Text(String),
    /// A path that is not Unicode.
    Opaque,
}

/// A file to be written below the root.
pub struct CacheWrite {
    pub dir: String,
    pub name: String,
    pub bytes: Vec<u8>,
}

impl CacheWrite {
    /// Where the file lies.
    pub open spec fn location(self) -> Seq<char> {
        self.dir@ + "/"@ + self.name@
    }
}

/// A key as one path component: ASCII letters, digits, `-` and `_` as they are, every
/// other byte percent-encoded.
pub open spec fn component(s: Seq<char>) -> Seq<char> {
    encode::percent(encode_utf8(s), false)
}

pub fn encode_component(s: &str) -> (r: String)
    ensures
        r@ == component(s@),
{
    encode::percent_text(s.as_bytes(), false)
}

pub open spec fn project_location(path: Seq<char>) -> Seq<char> {
    "projects"@ + "/"@ + (component(path) + ".json"@)
}

pub open spec fn branch_location(project_id: u64, branch: Seq<char>) -> Seq<char> {
    "branches/"@ + text::decimal(project_id as nat) + "/"@ + component(branch)
}

pub open spec fn tree_location(sha: Seq<char>) -> Seq<char> {
    "trees"@ + "/"@ + (component(sha) + ".json"@)
}

/// How much of an encoded key names the directory that a blob lies in.
pub open spec fn fanout(enc: Seq<char>) -> int {
    if enc.len() < 2 {
        enc.len() as int
    } else {
        2
    }
}

pub open spec fn blob_location(sha: Seq<char>) -> Seq<char> {
    let enc = component(sha);
    "blobs/"@ + enc.take(fanout(enc)) + "/"@ + enc.skip(fanout(enc))
}

/// The path of the default place below a directory.
pub open spec fn default_place(dir: Seq<char>) -> Seq<char> {
    if dir.len() == 0 || dir.last() == '/' {
        dir + DEFAULT_SUBDIR@
    } else {
        dir + "/"@ + DEFAULT_SUBDIR@
    }
}

/// `root` is the base where one is given, else the default place below the user's cache
/// directory where there is one, else none.
pub open spec fn chosen(base: Root, user_cache: Root, root: Root) -> bool {
    match base {
        Root::Absent => match user_cache {
            Root::Text(dir) => root matches Root::Text(t) && t@ == default_place(dir@),
            other => root == other,
        },
        given => root == given,
    }
}

impl Root {
    pub fn select(base: Root, user_cache: Root) -> (r: Root)
        ensures
            chosen(base, user_cache, r),
    {
        match base {
            Root::Absent => match user_cache {
                Root::Text(dir) => {
                    let whole = dir.as_str().is_empty() || text::ends_with(dir.as_str(), "/");
                    proof {
                        reveal_strlit("/");
                        if dir@.len() > 0 {
                            let end = dir@.subrange(dir@.len() - 1, dir@.len() as int);
                            assert(end == seq![dir@.last()]);
                            assert("/"@[0] == '/' && end[0] == dir@.last());
                            assert("/"@ == end <==> dir@.last() == '/');
                        }
                    }
                    let mut place = dir;
                    if !whole {
                        place.append("/");
                    }
                    place.append(DEFAULT_SUBDIR);
                    Root::Text(place)
                },
                other => other,
            },
            given => given,
        }
    }
}

pub struct Cache {
    root: Root,
}

impl Cache {
    pub closed spec fn rooted(&self) -> Root {
        self.root
    }

    /// There is a root.
    pub open spec fn present(&self) -> bool {
        !(self.rooted() is Absent)
    }

    /// A cache at `base`, or at its default place below the user's cache directory where no
    /// base is given. Without either there is no root.
    pub fn new(base: Root, user_cache: Root) -> (r: Cache)
        ensures
            chosen(base, user_cache, r.rooted()),
    {
        Cache { root: Root::select(base, user_cache) }
    }

    /// The root, where it is text.
    pub fn root_as_str(&self) -> (r: Option<&str>)
        ensures
            match self.rooted() {
                Root::Text(t) => r matches Some(s) && s@ == t@,
                _ => r is None,
            },
    {
        match &self.root {
            Root::Text(t) => Some(t.as_str()),
            _ => None,
        }
    }

    /// The root is the directory with this text as its path.
    pub open spec fn rooted_at(&self, dir: Seq<char>) -> bool {
        self.rooted() matches Root::Text(t) && t@ == dir
    }

    /// Moves the cache to another directory; nothing changes where it lies there already.
    pub fn reroot(&mut self, dir: &str)
        ensures
            final(self).rooted_at(dir@),
            old(self).rooted_at(dir@) ==> *final(self) == *old(self),
    {
        let there = match self.root_as_str() {
            Some(root) => text::same(root, dir),
            None => false,
        };
        if !there {
            self.root = Root::Text(dir.to_owned());
        }
    }

    fn has_root(&self) -> (r: bool)
        ensures
            r == self.present(),
    {
        match &self.root {
            Root::Absent => false,
            _ => true,
        }
    }

    fn at(&self, dir: &str, name: &str) -> (r: Option<String>)
        ensures
            r is Some <==> self.present(),
            r matches Some(l) ==> l@ == dir@ + "/"@ + name@,
    {
        if self.has_root() {
            let mut location = text::concat2(dir, "/");
            location.append(name);
            Some(location)
        } else {
            None
        }
    }

    fn write(&self, dir: &str, name: &str, bytes: Vec<u8>) -> (r: Option<CacheWrite>)
        ensures
            r is Some <==> self.present(),
            r matches Some(w) ==> w.dir@ == dir@ && w.name@ == name@ && w.bytes == bytes,
    {
        if self.has_root() {
            Some(CacheWrite { dir: dir.to_owned(), name: name.to_owned(), bytes })
        } else {
            None
        }
    }

    /// Where the metadata of the project at `path` lies.
    pub fn project(&self, path: &str) -> (r: Option<String>)
        ensures
            r is Some <==> self.present(),
            r matches Some(l) ==> l@ == project_location(path@),
    {
        let mut name = encode_component(path);
        name.append(".json");
        self.at("projects", name.as_str())
    }

    /// Stores a project's metadata, `body`, under its path.
    pub fn put_project(&self, project: &Project, body: Vec<u8>) -> (r: Option<CacheWrite>)
        ensures
            r is Some <==> self.present(),
            r matches Some(w) ==> {
                &&& w.dir@ == "projects"@
                &&& w.name@ == component(project.path_with_namespace@) + ".json"@
                &&& w.location() == project_location(project.path_with_namespace@)
                &&& w.bytes == body
            },
    {
        let mut name = encode_component(project.path_with_namespace.as_str());
        name.append(".json");
        self.write("projects", name.as_str(), body)
    }

    /// The file to remove so that nothing is known of the project at `path`.
    pub fn drop_project(&self, path: &str) -> (r: Option<String>)
        ensures
            r is Some <==> self.present(),
            r matches Some(l) ==> l@ == project_location(path@),
    {
        self.project(path)
    }

    /// Where the head of a branch lies.
    pub fn branch_head(&self, project_id: u64, branch: &str) -> (r: Option<String>)
        ensures
            r is Some <==> self.present(),
            r matches Some(l) ==> l@ == branch_location(project_id, branch@),
    {
        let dir = text::concat2("branches/", text::decimal_text(project_id).as_str());
        self.at(dir.as_str(), encode_component(branch).as_str())
    }

    /// The branch head that a stored text holds.
    pub fn stored_head(stored: &str) -> (r: BranchHead)
        ensures
            r.commit@ == text::trim_back(stored@),
    {
        BranchHead { commit: text::trim_end(stored) }
    }

    /// Stores the head of a branch.
    pub fn put_branch_head(&self, project_id: u64, branch: &str, commit: &str) -> (r: Option<
        CacheWrite,
    >)
        ensures
            r is Some <==> self.present(),
            r matches Some(w) ==> {
                &&& w.dir@ == "branches/"@ + text::decimal(project_id as nat)
                &&& w.name@ == component(branch@)
                &&& w.location() == branch_location(project_id, branch@)
                &&& w.bytes@ == encode_utf8(commit@)
            },
    {
        let dir = text::concat2("branches/", text::decimal_text(project_id).as_str());
        self.write(dir.as_str(), encode_component(branch).as_str(), commit.as_bytes_vec())
    }

    /// Where a tree lies.
    pub fn tree(&self, sha: &str) -> (r: Option<String>)
        ensures
            r is Some <==> self.present(),
            r matches Some(l) ==> l@ == tree_location(sha@),
    {
        let mut name = encode_component(sha);
        name.append(".json");
        self.at("trees", name.as_str())
    }

    /// Stores a tree.
    pub fn put_tree(&self, sha: &str, body: Vec<u8>) -> (r: Option<CacheWrite>)
        ensures
            r is Some <==> self.present(),
            r matches Some(w) ==> {
                &&& w.dir@ == "trees"@
                &&& w.name@ == component(sha@) + ".json"@
                &&& w.location() == tree_location(sha@)
                &&& w.bytes == body
            },
    {
        let mut name = encode_component(sha);
        name.append(".json");
        self.write("trees", name.as_str(), body)
    }

    /// Where a blob lies.
    pub fn blob(&self, sha: &str) -> (r: Option<String>)
        ensures
            r is Some <==> self.present(),
            r matches Some(l) ==> l@ == blob_location(sha@),
    {
        self.blob_path(sha)
    }

    /// Stores a blob.
    pub fn put_blob(&self, sha: &str, bytes: Vec<u8>) -> (r: Option<CacheWrite>)
        ensures
            r is Some <==> self.present(),
            r matches Some(w) ==> {
                let enc = component(sha@);
                &&& w.dir@ == "blobs/"@ + enc.take(fanout(enc))
                &&& w.name@ == enc.skip(fanout(enc))
                &&& w.location() == blob_location(sha@)
                &&& w.bytes == bytes
            },
    {
        let (head, tail) = blob_key(sha);
        let dir = text::concat2("blobs/", head.as_str());
        self.write(dir.as_str(), tail.as_str(), bytes)
    }

    /// Blobs are spread over directories by the first two characters of their keys.
    pub fn blob_path(&self, sha: &str) -> (r: Option<String>)
        ensures
            r is Some <==> self.present(),
            r matches Some(l) ==> l@ == blob_location(sha@),
    {
        let (head, tail) = blob_key(sha);
        let dir = text::concat2("blobs/", head.as_str());
        self.at(dir.as_str(), tail.as_str())
    }

    // -- the budget ----------------------------------------------------------------------

    /// The size of the cache, given the sizes of the files in it.
    pub fn size_bytes(&self, sizes: &Vec<u64>) -> (r: u64)
        requires
            budget::total(sizes@) <= u64::MAX,
        ensures
            r == if self.present() {
                budget::total(sizes@)
            } else {
                0
            },
    {
        if self.has_root() {
            budget::add_up(sizes)
        } else {
            0
        }
    }

    /// The eviction that is due, given the sizes of all files below the root, and size and age
    /// of the blobs, which can be evicted. There is none where the files fit the budget.
    pub fn enforce_budget(
        &self,
        budget_bytes: u64,
        sizes: &Vec<u64>,
        blobs: &Vec<BlobStat>,
    ) -> (r: Option<Eviction>)
        requires
            budget::total(sizes@) <= u64::MAX,
        ensures
            r is Some <==> self.present() && budget::total(sizes@) > budget_bytes,
            r matches Some(e) ==> e.excess() == budget::total(sizes@) - budget_bytes
                && budget::oldest_first(e.pending(), blobs@),
    {
        if !self.has_root() {
            return None;
        }
        let total = budget::add_up(sizes);
        if total <= budget_bytes {
            return None;
        }
        Some(Eviction::new(total - budget_bytes, blobs))
    }
}

/// A blob's encoded key, split where its directory ends.
fn blob_key(sha: &str) -> (r: (String, String))
    ensures
        r.0@ == component(sha@).take(fanout(component(sha@))),
        r.1@ == component(sha@).skip(fanout(component(sha@))),
{
    let enc = encode_component(sha);
    let cs = text::chars(enc.as_str());
    let split: usize = if cs.len() < 2 {
        cs.len()
    } else {
        2
    };
    let head = text::text_between(&cs, 0, split);
    let tail = text::text_between(&cs, split, cs.len());
    assert(head@ == component(sha@).take(split as int));
    assert(tail@ == component(sha@).skip(split as int));
    (head, tail)
}

// -- laws ------------------------------------------------------------------------------------

/// No key becomes path structure: its component has no separator, no dot and no NUL.
pub proof fn components_are_plain(key: Seq<char>)
    ensures
        forall|i: int|
            0 <= i < component(key).len() ==> {
                let c = #[trigger] component(key)[i];
                c != '/' && c != '.' && c != '\0'
            },
{
    encode::percent_alphabet(encode_utf8(key), false);
}

/// What is stored under distinct keys lies in distinct files.
pub proof fn keys_lie_apart(a: Seq<char>, b: Seq<char>)
    ensures
        project_location(a) == project_location(b) ==> a == b,
        tree_location(a) == tree_location(b) ==> a == b,
        blob_location(a) == blob_location(b) ==> a == b,
{
    let ca = component(a);
    let cb = component(b);
    if project_location(a) == project_location(b) {
        let head = "projects"@ + "/"@;
        text::same_tail(head, ca + ".json"@, cb + ".json"@);
        same_front(ca, cb, ".json"@);
        encode::percent_injective(a, b, false);
    }
    if tree_location(a) == tree_location(b) {
        let head = "trees"@ + "/"@;
        text::same_tail(head, ca + ".json"@, cb + ".json"@);
        same_front(ca, cb, ".json"@);
        encode::percent_injective(a, b, false);
    }
    if blob_location(a) == blob_location(b) {
        let da = ca.take(fanout(ca));
        let db = cb.take(fanout(cb));
        let na = ca.skip(fanout(ca));
        let nb = cb.skip(fanout(cb));
        assert("blobs/"@ + da + "/"@ + na == "blobs/"@ + (da + "/"@ + na));
        assert("blobs/"@ + db + "/"@ + nb == "blobs/"@ + (db + "/"@ + nb));
        text::same_tail("blobs/"@, da + "/"@ + na, db + "/"@ + nb);
        components_are_plain(a);
        components_are_plain(b);
        same_at_slash(da, na, db, nb);
        assert(da + na == ca);
        assert(db + nb == cb);
        encode::percent_injective(a, b, false);
    }
}

/// Things of different kinds lie in different files, whatever their keys.
pub proof fn kinds_lie_apart(
    path: Seq<char>,
    tree: Seq<char>,
    blob: Seq<char>,
    project_id: u64,
    branch: Seq<char>,
)
    ensures
        project_location(path) != tree_location(tree),
        project_location(path) != blob_location(blob),
        project_location(path) != branch_location(project_id, branch),
        tree_location(tree) != blob_location(blob),
        tree_location(tree) != branch_location(project_id, branch),
        blob_location(blob) != branch_location(project_id, branch),
{
    reveal_strlit("projects");
    reveal_strlit("trees");
    reveal_strlit("blobs/");
    reveal_strlit("branches/");
    assert(project_location(path)[0] == 'p');
    assert(tree_location(tree)[0] == 't');
    assert(blob_location(blob)[0] == 'b' && blob_location(blob)[1] == 'l');
    assert(branch_location(project_id, branch)[0] == 'b');
    assert(branch_location(project_id, branch)[1] == 'r');
}

/// The heads of distinct branches, and of branches of distinct projects, lie in distinct
/// files.
pub proof fn branches_lie_apart(id: u64, a: Seq<char>, other: u64, b: Seq<char>)
    requires
        branch_location(id, a) == branch_location(other, b),
    ensures
        id == other,
        a == b,
{
    let da = text::decimal(id as nat);
    let db = text::decimal(other as nat);
    let head = "branches/"@;
    assert(head + da + "/"@ + component(a) == head + (da + "/"@ + component(a)));
    assert(head + db + "/"@ + component(b) == head + (db + "/"@ + component(b)));
    text::same_tail(head, da + "/"@ + component(a), db + "/"@ + component(b));
    text::decimal_roundtrip(id as nat);
    text::decimal_roundtrip(other as nat);
    same_at_slash(da, component(a), db, component(b));
    encode::percent_injective(a, b, false);
}

proof fn same_front(a: Seq<char>, b: Seq<char>, tail: Seq<char>)
    requires
        a + tail == b + tail,
    ensures
        a == b,
{
    assert((a + tail).len() == (b + tail).len());
    assert((a + tail).take(a.len() as int) == a);
    assert((b + tail).take(b.len() as int) == b);
}

proof fn same_at_slash(a: Seq<char>, x: Seq<char>, b: Seq<char>, y: Seq<char>)
    requires
        a + "/"@ + x == b + "/"@ + y,
        forall|i: int| 0 <= i < a.len() ==> a[i] != '/',
        forall|i: int| 0 <= i < b.len() ==> b[i] != '/',
    ensures
        a == b,
        x == y,
{
    reveal_strlit("/");
    let left = a + "/"@ + x;
    let right = b + "/"@ + y;
    assert(left[a.len() as int] == '/');
    assert(right[b.len() as int] == '/');
    if a.len() < b.len() {
        assert(right[a.len() as int] == b[a.len() as int]);
    }
    if b.len() < a.len() {
        assert(left[b.len() as int] == a[b.len() as int]);
    }
    assert(left.take(a.len() as int) == a);
    assert(right.take(b.len() as int) == b);
    assert(left.skip(a.len() as int + 1) == x);
    assert(right.skip(b.len() as int + 1) == y);
}

/// Each kind of thing lies in a directory of its own: a project and a tree as a file with the
/// ending `.json`, a branch head below the number of its project, a blob below the first two
/// characters of its key. A key goes in byte by byte: letters, digits, `-` and `_` as they are.
pub proof fn things_lie_by_kind_and_key(key: Seq<char>, project_id: u64)
    ensures
        ({
            let enc = encode::percent(encode_utf8(key), false);
            &&& project_location(key) == "projects/"@ + enc + ".json"@
            &&& tree_location(key) == "trees/"@ + enc + ".json"@
            &&& branch_location(project_id, key) == "branches/"@ + text::decimal(
                project_id as nat,
            ) + "/"@ + enc
            &&& enc.len() >= 2 ==> blob_location(key) == "blobs/"@ + seq![enc[0], enc[1]] + "/"@
                + enc.skip(2)
            &&& enc.len() < 2 ==> blob_location(key) == "blobs/"@ + enc + "/"@
        }),
{
    reveal_strlit("projects");
    reveal_strlit("projects/");
    reveal_strlit("trees");
    reveal_strlit("trees/");
    reveal_strlit("/");
    assert("projects"@ + "/"@ =~= "projects/"@);
    assert("trees"@ + "/"@ =~= "trees/"@);
    let enc = component(key);
    assert("projects/"@ + (enc + ".json"@) =~= "projects/"@ + enc + ".json"@);
    assert("trees/"@ + (enc + ".json"@) =~= "trees/"@ + enc + ".json"@);
    if enc.len() >= 2 {
        assert(enc.take(2) =~= seq![enc[0], enc[1]]);
    } else {
        assert(enc.take(enc.len() as int) =~= enc);
        assert(enc.skip(enc.len() as int) =~= Seq::<char>::empty());
        assert("blobs/"@ + enc + "/"@ + Seq::<char>::empty() =~= "blobs/"@ + enc + "/"@);
    }
}

/// The key of a blob is its directory and its name put together again.
pub proof fn blob_keys_rejoin(key: Seq<char>)
    ensures
        0 <= fanout(component(key)) <= component(key).len(),
        component(key).take(fanout(component(key))) + component(key).skip(
            fanout(component(key)),
        ) == component(key),
{
    let enc = component(key);
    assert(enc.take(fanout(enc)) + enc.skip(fanout(enc)) =~= enc);
}

/// A base that is given is the root, whatever it is. Without one the root lies at
/// `rootle/providers/rootle-gitlab` below the user's cache directory, one slash between the two;
/// without either there is none.
pub proof fn roots_are_chosen_in_their_order(base: Root, user_cache: Root, root: Root)
    requires
        chosen(base, user_cache, root),
    ensures
        !(base is Absent) ==> root == base,
        base is Absent && user_cache is Absent ==> root is Absent,
        base is Absent && user_cache is Opaque ==> root is Opaque,
        base is Absent && user_cache is Text ==> root is Text && {
            let dir = user_cache->Text_0@;
            let place = "rootle/providers/rootle-gitlab"@;
            root->Text_0@ == if dir.len() == 0 || dir.last() == '/' {
                dir + place
            } else {
                dir + seq!['/'] + place
            }
        },
{
    reveal_strlit("/");
    assert("/"@ =~= seq!['/']);
}

/// A file lies in its directory under its name.
pub proof fn files_lie_in_their_directory(w: CacheWrite)
    ensures
        w.location() == w.dir@ + seq!['/'] + w.name@,
{
    reveal_strlit("/");
    assert("/"@ =~= seq!['/']);
}

/// There is a cache wherever there is a root, also where its path is no text; it lies at a
/// directory just where the text of its path is that of the directory.
pub proof fn roots_make_a_cache(cache: Cache, dir: Seq<char>)
    ensures
        cache.present() <==> cache.rooted() is Text || cache.rooted() is Opaque,
        cache.rooted_at(dir) <==> cache.rooted() is Text && cache.rooted()->Text_0@ == dir,
{
}

} // verus!
