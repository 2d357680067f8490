//! `repo/tree`: the entries of a revision. A revision is resolved to a commit on every
//! call; the listing of a commit never changes, so it is cached under the commit's id.

use serde_json::Value;
use vstd::prelude::*;
use vstd::string::*;
use vstd::utf8::*;

use crate::api::{ApiResult, Branch, BranchCommit, GitLab, Project, TreeEntry, TREE_ENTRY_CAP};
use crate::cache::Cache;
use crate::handlers::{Effect, Origin, Step, Turn};
use crate::json::JsonView;
use crate::paging::{Paged, Pages};
use crate::{handlers, json, paging, text};

verus! {

// -- resolving a revision ----------------------------------------------------------------

pub open spec fn hex_char(c: char) -> bool {
    '0' <= c <= '9' || 'a' <= c <= 'f' || 'A' <= c <= 'F'
}

/// Has the shape of a commit id: 40 or 64 hexadecimal digits.
pub open spec fn sha_shaped(s: Seq<char>) -> bool {
    &&& s.len() == 40 || s.len() == 64
    &&& forall|i: int| 0 <= i < s.len() ==> hex_char(#[trigger] s[i])
}

pub fn is_commit_sha(s: &str) -> (r: bool)
    ensures
        r == sha_shaped(s@),
{
    let cs = text::chars(s);
    if cs.len() != 40 && cs.len() != 64 {
        return false;
    }
    let mut i: usize = 0;
    while i < cs.len()
        invariant
            i <= cs@.len(),
            cs@ == s@,
            forall|j: int| 0 <= j < i ==> hex_char(#[trigger] s@[j]),
        decreases cs@.len() - i,
    {
        let c = cs[i];
        if !(('0' <= c && c <= '9') || ('a' <= c && c <= 'f') || ('A' <= c && c <= 'F')) {
            assert(!hex_char(s@[i as int]));
            return false;
        }
        i = i + 1;
    }
    true
}

/// Waits for the head of the branch `label`: the default one, or one that is `named` by
/// the client and may be a tag instead.
pub struct HeadAsk {
    pub project: Project,
    pub label: String,
    pub named: bool,
    pub origin: Option<Origin>,
}

/// Waits for the commit of the tag `label`.
pub struct TagAsk {
    pub project: Project,
    pub label: String,
    pub origin: Option<Origin>,
}

/// What a request for a tree turns to: the head of the default branch where it names no
/// revision, the cache right away where it names one in the shape of a commit id, and the
/// branch of that name otherwise.
pub open spec fn begun(
    project: Project,
    reference: Option<String>,
    origin: Option<Origin>,
    t: Turn,
) -> bool {
    match reference {
        None => {
            &&& t matches Turn::Head(ask)
            &&& ask.project == project
            &&& ask.label@ == project.branch_text()
            &&& !ask.named
            &&& ask.origin == origin
        },
        Some(name) => if sha_shaped(name@) {
            t == Turn::CachedTree(
                CachedTreeAsk { project_id: project.id, label: name, sha: name, origin },
            )
        } else {
            t == Turn::Head(HeadAsk { project, label: name, named: true, origin })
        },
    }
}

pub fn begin(project: Project, reference: Option<String>, origin: Option<Origin>) -> (t: Turn)
    ensures
        begun(project, reference, origin, t),
{
    match reference {
        None => {
            let label = project.branch();
            Turn::Head(HeadAsk { project, label, named: false, origin })
        },
        Some(name) => if is_commit_sha(name.as_str()) {
            let sha = name.clone();
            Turn::CachedTree(CachedTreeAsk { project_id: project.id, label: name, sha, origin })
        } else {
            Turn::Head(HeadAsk { project, label: name, named: true, origin })
        },
    }
}

/// What the answer for a branch leads to: its head is the commit to be listed. A name that is
/// no branch is tried as a tag.
pub open spec fn head_answered(ask: HeadAsk, answer: ApiResult<Branch>, s: Step) -> bool {
    match answer {
        Ok(branch) => s.goes(
            Turn::CachedTree(
                CachedTreeAsk {
                    project_id: ask.project.id,
                    label: ask.label,
                    sha: branch.commit.id,
                    origin: ask.origin,
                },
            ),
        ),
        Err(e) => if ask.named && e.is_missing() {
            s.goes(
                Turn::Tag(TagAsk { project: ask.project, label: ask.label, origin: ask.origin }),
            )
        } else {
            handlers::failed(e, ask.origin, s)
        },
    }
}

impl HeadAsk {
    pub fn url(&self, gl: &GitLab) -> (r: String)
        ensures
            r@ == gl.branch_head_address(self.project.id, self.label@),
    {
        gl.branch_head(self.project.id, self.label.as_str())
    }

    /// A name that is no branch is tried as a tag.
    pub fn resume(self, answer: ApiResult<Branch>) -> (s: Step)
        ensures
            head_answered(self, answer, s),
            s.turn.follows(Turn::Head(self)),
    {
        match answer {
            Ok(branch) => Step::go(
                Turn::CachedTree(
                    CachedTreeAsk {
                        project_id: self.project.id,
                        label: self.label,
                        sha: branch.commit.id,
                        origin: self.origin,
                    },
                ),
            ),
            Err(e) => if self.named && e.missing() {
                Step::go(
                    Turn::Tag(
                        TagAsk { project: self.project, label: self.label, origin: self.origin },
                    ),
                )
            } else {
                Step::fail(&e, self.origin)
            },
        }
    }
}

/// What the client is told where no branch or tag has the name.
pub open spec fn no_ref_message(name: Seq<char>, path: Seq<char>) -> Seq<char> {
    "no ref "@ + text::quoted(name) + " in "@ + path
}

/// What the answer for a tag leads to: its commit is to be listed. A name that is no tag
/// either names nothing, unless the project stems from the cache and has to be asked for.
pub open spec fn tag_answered(ask: TagAsk, answer: ApiResult<BranchCommit>, s: Step) -> bool {
    match answer {
        Ok(commit) => s.goes(
            Turn::CachedTree(
                CachedTreeAsk {
                    project_id: ask.project.id,
                    label: ask.label,
                    sha: commit.id,
                    origin: ask.origin,
                },
            ),
        ),
        Err(e) => if e.is_missing() && ask.origin is None {
            s.effect is None && s.turn.refuses(
                "not_found",
                no_ref_message(ask.label@, ask.project.path_with_namespace@),
            )
        } else {
            handlers::failed(e, ask.origin, s)
        },
    }
}

impl TagAsk {
    pub fn url(&self, gl: &GitLab) -> (r: String)
        ensures
            r@ == gl.tag_commit_address(self.project.id, self.label@),
    {
        gl.tag_commit(self.project.id, self.label.as_str())
    }

    /// A name that is no tag either names nothing, unless the project stems from the cache
    /// and has to be asked for.
    pub fn resume(self, answer: ApiResult<BranchCommit>) -> (s: Step)
        ensures
            tag_answered(self, answer, s),
            s.turn.follows(Turn::Tag(self)),
    {
        match answer {
            Ok(commit) => Step::go(
                Turn::CachedTree(
                    CachedTreeAsk {
                        project_id: self.project.id,
                        label: self.label,
                        sha: commit.id,
                        origin: self.origin,
                    },
                ),
            ),
            Err(e) => if e.missing() && self.origin.is_none() {
                let name = text::quote(self.label.as_str());
                let mut message = text::concat2("no ref ", name.as_str());
                message.append(" in ");
                message.append(self.project.path_with_namespace.as_str());
                Step::go(Turn::refuse("not_found", message))
            } else {
                Step::fail(&e, self.origin)
            },
        }
    }
}

// -- the listing ---------------------------------------------------------------------------

/// Waits for the cached listing of the commit `sha`, which the client knows as `label`.
pub struct CachedTreeAsk {
    pub project_id: u64,
    pub label: String,
    pub sha: String,
    pub origin: Option<Origin>,
}

/// Waits for a page of the listing of the commit `sha`.
pub struct TreePageAsk {
    pub project_id: u64,
    pub label: String,
    pub sha: String,
    pub pages: Pages<TreeEntry>,
    pub origin: Option<Origin>,
}

/// The document of an entry.
pub open spec fn entry_json(e: TreeEntry) -> JsonView {
    JsonView::Obj(
        map![
            "path"@ => JsonView::Str(e.path@),
            "type"@ => JsonView::Str(e.kind@),
            "sha"@ => JsonView::Str(e.id@),
        ],
    )
}

/// The document of a listing.
pub open spec fn tree_json(entries: Seq<TreeEntry>, truncated: bool, label: Seq<char>) -> JsonView {
    JsonView::Obj(
        map![
            "entries"@ => JsonView::Arr(entries.map_values(|e: TreeEntry| entry_json(e))),
            "truncated"@ => JsonView::Bool(truncated),
            "branch"@ => JsonView::Str(label),
        ],
    )
}

/// A cached listing, an object with these members, under the name that this request knows
/// the commit by.
pub open spec fn relabelled(members: Map<Seq<char>, JsonView>, label: Seq<char>) -> JsonView {
    JsonView::Obj(members.insert("branch"@, JsonView::Str(label)))
}

/// A listing is read from its first page on.
pub open spec fn listing_begun(ask: CachedTreeAsk, t: Turn) -> bool {
    &&& t matches Turn::TreePage(next)
    &&& next.project_id == ask.project_id
    &&& next.label == ask.label
    &&& next.sha == ask.sha
    &&& next.pages.read() == Seq::<TreeEntry>::empty()
    &&& next.pages.number() == 1
    &&& next.pages.bound() == TREE_ENTRY_CAP
    &&& next.origin == ask.origin
}

/// What a cached document makes of a request. Only an object is a listing: all else counts
/// as missing.
pub open spec fn served(ask: CachedTreeAsk, cached: Option<JsonView>, t: Turn) -> bool {
    match cached {
        Some(JsonView::Obj(members)) => t.gives(relabelled(members, ask.label@)),
        _ => listing_begun(ask, t),
    }
}

impl CachedTreeAsk {
    /// Where the listing lies, if there is a cache.
    pub fn location(&self, cache: &Cache) -> (r: Option<String>)
        ensures
            r is Some <==> cache.present(),
            r matches Some(l) ==> l@ == crate::cache::tree_location(self.sha@),
    {
        cache.tree(self.sha.as_str())
    }

    /// Goes on from the bytes that the cache holds, if it holds any. Bytes that are no JSON
    /// object count as missing.
    pub fn resume(self, found: Option<Vec<u8>>) -> (t: Turn)
        ensures
            served(
                self,
                match found {
                    Some(bytes) => json::json_parse(bytes@),
                    None => None,
                },
                t,
            ),
            t.follows(Turn::CachedTree(self)),
    {
        let cached = match found {
            Some(bytes) => json::parse(bytes.as_slice()),
            None => None,
        };
        self.serve(cached)
    }

    /// Goes on from a cached document, if there is one.
    pub fn serve(self, cached: Option<Value>) -> (t: Turn)
        ensures
            served(self, handlers::maybe_view(cached), t),
            t.follows(Turn::CachedTree(self)),
    {
        if let Some(v) = cached {
            if v.is_object() {
                return Turn::give(json::with(v, "branch", json::string(self.label.as_str())));
            }
        }
        Turn::TreePage(
            TreePageAsk {
                project_id: self.project_id,
                label: self.label,
                sha: self.sha,
                pages: Pages::new(TREE_ENTRY_CAP),
                origin: self.origin,
            },
        )
    }
}

fn entry_document(e: &TreeEntry) -> (v: Value)
    ensures
        json::value_view(v) == entry_json(*e),
{
    let v = json::with(json::object(), "path", json::string(e.path.as_str()));
    let v = json::with(v, "type", json::string(e.kind.as_str()));
    json::with(v, "sha", json::string(e.id.as_str()))
}

fn tree_document(entries: &Vec<TreeEntry>, truncated: bool, label: &str) -> (v: Value)
    ensures
        json::value_view(v) == tree_json(entries@, truncated, label@),
{
    let ghost all = entries@.map_values(|e: TreeEntry| entry_json(e));
    let mut items: Vec<Value> = Vec::new();
    let mut i: usize = 0;
    while i < entries.len()
        invariant
            i <= entries@.len(),
            all == entries@.map_values(|e: TreeEntry| entry_json(e)),
            json::values_view(items@) == all.take(i as int),
        decreases entries@.len() - i,
    {
        json::push(&mut items, entry_document(&entries[i]));
        assert(all.take(i + 1) == all.take(i as int).push(all[i as int]));
        i = i + 1;
    }
    assert(all.take(i as int) == all);
    let v = json::with(json::object(), "entries", json::list(items));
    let v = json::with(v, "truncated", json::flag(truncated));
    json::with(v, "branch", json::string(label))
}

proof fn tree_is_exact(entries: Seq<TreeEntry>, truncated: bool, label: Seq<char>)
    ensures
        tree_json(entries, truncated, label).exact(127),
{
    reveal_with_fuel(JsonView::exact, 5);
    let items = entries.map_values(|e: TreeEntry| entry_json(e));
    assert forall|i: int| 0 <= i < items.len() implies (#[trigger] items[i]).exact(125) by {
        assert(items[i] == entry_json(entries[i]));
    }
}

/// A listing is stored under its commit and given to the client.
pub open spec fn finished(
    ask: TreePageAsk,
    entries: Seq<TreeEntry>,
    truncated: bool,
    s: Step,
) -> bool {
    let j = tree_json(entries, truncated, ask.label@);
    &&& s.effect matches Some(Effect::StoreTree { sha, body })
    &&& sha == ask.sha
    &&& body@ == encode_utf8(json::json_text(j))
    &&& json::json_parse(body@) == Some(j)
    &&& s.turn.gives(j)
}

/// What a page makes of a listing: another page is to be read, or the listing is finished.
pub open spec fn continued(ask: TreePageAsk, batch: Seq<TreeEntry>, s: Step) -> bool {
    match paging::page_step(ask.pages.read(), batch, ask.pages.bound()) {
        None => {
            &&& s.effect is None
            &&& s.turn matches Turn::TreePage(next)
            &&& next.project_id == ask.project_id
            &&& next.label == ask.label
            &&& next.sha == ask.sha
            &&& next.pages.read() == ask.pages.read() + batch
            &&& next.pages.number() == ask.pages.number() + 1
            &&& next.pages.bound() == ask.pages.bound()
            &&& next.origin == ask.origin
        },
        Some((entries, truncated)) => finished(ask, entries, truncated, s),
    }
}

/// What the answer to a page leads to. A listing that has all the entries it may have does
/// without the page that would have shown whether there are more.
pub open spec fn answered(ask: TreePageAsk, answer: ApiResult<Vec<TreeEntry>>, s: Step) -> bool {
    match answer {
        Ok(batch) => continued(ask, batch@, s),
        Err(e) => if ask.pages.read().len() == ask.pages.bound() {
            finished(ask, ask.pages.read(), true, s)
        } else {
            handlers::failed(e, ask.origin, s)
        },
    }
}

impl TreePageAsk {
    pub fn url(&self, gl: &GitLab) -> (r: String)
        ensures
            r@ == gl.tree_page_address(self.project_id, self.sha@, self.pages.number()),
    {
        gl.tree_page(self.project_id, self.sha.as_str(), self.pages.page())
    }

    /// A listing that has all the entries it may have does without the page that would have
    /// shown whether there are more.
    pub fn resume(self, answer: ApiResult<Vec<TreeEntry>>) -> (s: Step)
        ensures
            answered(self, answer, s),
            s.turn.follows(Turn::TreePage(self)),
    {
        match answer {
            Ok(batch) => match self.pages.next(batch) {
                Paged::More(pages) => Step::go(
                    Turn::TreePage(
                        TreePageAsk {
                            project_id: self.project_id,
                            label: self.label,
                            sha: self.sha,
                            pages,
                            origin: self.origin,
                        },
                    ),
                ),
                Paged::Done(entries, truncated) => finish(
                    self.sha,
                    self.label.as_str(),
                    &entries,
                    truncated,
                ),
            },
            Err(e) => match self.pages.full() {
                Some(entries) => finish(self.sha, self.label.as_str(), &entries, true),
                None => Step::fail(&e, self.origin),
            },
        }
    }
}

fn finish(sha: String, label: &str, entries: &Vec<TreeEntry>, truncated: bool) -> (s: Step)
    ensures
        ({
            let j = tree_json(entries@, truncated, label@);
            &&& s.effect matches Some(Effect::StoreTree { sha: stored, body })
            &&& stored == sha
            &&& body@ == encode_utf8(json::json_text(j))
            &&& json::json_parse(body@) == Some(j)
            &&& s.turn.gives(j)
        }),
{
    let v = tree_document(entries, truncated, label);
    proof {
        tree_is_exact(entries@, truncated, label@);
    }
    let body = json::to_text(&v).as_str().as_bytes_vec();
    Step { effect: Some(Effect::StoreTree { sha, body }), turn: Turn::give(v) }
}

// -- laws ------------------------------------------------------------------------------------

/// A listing that was stored under one name of its commit and is served from the cache
/// under another is the listing that the server would have given under that name.
pub proof fn cached_tree_is_the_tree(
    page: TreePageAsk,
    entries: Seq<TreeEntry>,
    truncated: bool,
    stored: Step,
    ask: CachedTreeAsk,
    t: Turn,
)
    requires
        finished(page, entries, truncated, stored),
        served(ask, json::json_parse(stored.effect->0->StoreTree_body@), t),
    ensures
        t.gives(tree_json(entries, truncated, ask.label@)),
{
    let members = tree_json(entries, truncated, page.label@)->Obj_0;
    assert(relabelled(members, ask.label@) == tree_json(entries, truncated, ask.label@)) by {
        reveal_strlit("entries");
        reveal_strlit("truncated");
        reveal_strlit("branch");
        assert(members.insert("branch"@, JsonView::Str(ask.label@)) =~= tree_json(
            entries,
            truncated,
            ask.label@,
        )->Obj_0);
    }
}

/// A cached tree that is damaged is as good as none: bytes that are no JSON object lead to
/// the same turn as no bytes.
pub proof fn damaged_trees_are_missing(ask: CachedTreeAsk, cached: JsonView, t: Turn)
    requires
        !(cached is Obj),
    ensures
        served(ask, Some(cached), t) <==> served(ask, None, t),
{
}

/// A revision in the shape of a commit id is served without asking for a branch or a tag.
pub proof fn commit_ids_need_no_lookup(
    project: Project,
    name: String,
    origin: Option<Origin>,
    t: Turn,
)
    requires
        begun(project, Some(name), origin, t),
        sha_shaped(name@),
    ensures
        t matches Turn::CachedTree(ask) && ask.sha == name && ask.label == name,
{
}

/// Pages of a listing were read one after the other, the first one as `ask` wanted it, until
/// the listing was whole.
pub open spec fn listed(ask: TreePageAsk, batches: Seq<Seq<TreeEntry>>, steps: Seq<Step>) -> bool
    decreases batches.len(),
{
    &&& 0 < batches.len() == steps.len()
    &&& continued(ask, batches[0], steps[0])
    &&& if batches.len() == 1 {
        steps[0].effect is Some
    } else {
        steps[0].turn matches Turn::TreePage(next) && listed(next, batches.skip(1), steps.skip(1))
    }
}

/// A listing is what its pages add up to under the cap, and it is stored under the commit
/// that it was asked for by.
pub proof fn trees_are_their_pages(
    ask: TreePageAsk,
    batches: Seq<Seq<TreeEntry>>,
    steps: Seq<Step>,
)
    requires
        listed(ask, batches, steps),
    ensures
        paging::collect(ask.pages.read(), batches, ask.pages.bound()) matches Some(
            (entries, truncated),
        ) && steps.last().turn.gives(tree_json(entries, truncated, ask.label@)),
        steps.last().effect matches Some(Effect::StoreTree { sha, body }) && sha == ask.sha,
    decreases batches.len(),
{
    if batches.len() > 1 {
        let next = steps[0].turn->TreePage_0;
        trees_are_their_pages(next, batches.skip(1), steps.skip(1));
        assert(steps.skip(1).last() == steps.last());
    }
}

/// The document of an entry has its whole path, its kind and its id as the server gave them,
/// and nothing else, for blobs and trees alike.
pub proof fn entries_show_themselves(e: TreeEntry)
    ensures
        entry_json(e).member("path"@) == Some(JsonView::Str(e.path@)),
        entry_json(e).member("type"@) == Some(JsonView::Str(e.kind@)),
        entry_json(e).member("sha"@) == Some(JsonView::Str(e.id@)),
        entry_json(e)->Obj_0.dom() == set!["path"@, "type"@, "sha"@],
{
    reveal_strlit("path");
    reveal_strlit("type");
    reveal_strlit("sha");
    assert("path"@[0] == 'p' && "type"@[0] == 't' && "sha"@.len() == 3);
}

/// The document of a listing has the entries in the server's order, each with the path, the kind
/// and the id that the server gave; the name that the client knows the revision by; whether the
/// listing was cut; and nothing else. Entries with distinct paths have distinct paths in it.
pub proof fn listings_show_their_entries(
    entries: Seq<TreeEntry>,
    truncated: bool,
    label: Seq<char>,
)
    ensures
        ({
            let j = tree_json(entries, truncated, label);
            let items = (j.member("entries"@)->0)->Arr_0;
            &&& j.member("entries"@) == Some(JsonView::Arr(items))
            &&& j.member("truncated"@) == Some(JsonView::Bool(truncated))
            &&& j.member("branch"@) == Some(JsonView::Str(label))
            &&& j->Obj_0.dom() == set!["entries"@, "truncated"@, "branch"@]
            &&& items.len() == entries.len()
            &&& forall|i: int|
                0 <= i < entries.len() ==> {
                    &&& (#[trigger] items[i]).member("path"@) == Some(
                        JsonView::Str(entries[i].path@),
                    )
                    &&& items[i].member("type"@) == Some(JsonView::Str(entries[i].kind@))
                    &&& items[i].member("sha"@) == Some(JsonView::Str(entries[i].id@))
                }
            &&& forall|i: int, k: int|
                #![trigger items[i], items[k]]
                0 <= i < entries.len() && 0 <= k < entries.len() && entries[i].path@
                    != entries[k].path@ ==> items[i].member("path"@) != items[k].member("path"@)
        }),
{
    reveal_strlit("entries");
    reveal_strlit("truncated");
    reveal_strlit("branch");
    assert("entries"@.len() == 7 && "truncated"@.len() == 9 && "branch"@.len() == 6);
    let items = entries.map_values(|e: TreeEntry| entry_json(e));
    assert forall|i: int| 0 <= i < entries.len() implies {
        &&& (#[trigger] items[i]).member("path"@) == Some(JsonView::Str(entries[i].path@))
        &&& items[i].member("type"@) == Some(JsonView::Str(entries[i].kind@))
        &&& items[i].member("sha"@) == Some(JsonView::Str(entries[i].id@))
    } by {
        entries_show_themselves(entries[i]);
        assert(items[i] == entry_json(entries[i]));
    }
    assert forall|i: int, k: int|
        #![trigger items[i], items[k]]
        0 <= i < entries.len() && 0 <= k < entries.len() && entries[i].path@
            != entries[k].path@ implies items[i].member("path"@) != items[k].member("path"@) by {
        assert(items[i].member("path"@)->0->Str_0 == entries[i].path@);
        assert(items[k].member("path"@)->0->Str_0 == entries[k].path@);
    }
}

/// A commit whose listing is not cached is listed from what the server holds, in its order: all
/// entries where they are no more than the cap, and else the first ones up to it; the listing is
/// flagged just when there are more. The client gets it under the name that it asked by, and it
/// is stored under the commit.
pub proof fn trees_hold_what_the_server_holds(
    ask: CachedTreeAsk,
    t: Turn,
    entries: Seq<TreeEntry>,
    batches: Seq<Seq<TreeEntry>>,
    steps: Seq<Step>,
)
    requires
        served(ask, None, t),
        listed(t->TreePage_0, batches, steps),
        paging::paged(entries, 100, batches),
    ensures
        ({
            let cut = entries.len() > 25_000;
            let given = if cut {
                entries.take(25_000)
            } else {
                entries
            };
            &&& steps.last().turn.gives(tree_json(given, cut, ask.label@))
            &&& steps.last().effect matches Some(Effect::StoreTree { sha, body })
            &&& sha == ask.sha
            &&& body@ == encode_utf8(json::json_text(tree_json(given, cut, ask.label@)))
            &&& json::json_parse(body@) == Some(tree_json(given, cut, ask.label@))
        }),
{
    let first = t->TreePage_0;
    trees_are_their_pages(first, batches, steps);
    trees_are_stored_as_given(first, batches, steps);
    paging::listings_hold_what_the_server_holds(seq![], entries, batches, first.pages.bound());
    assert(Seq::<TreeEntry>::empty() + entries == entries);
    let (given, truncated) = paging::collect(first.pages.read(), batches, first.pages.bound())->0;
    assert(given =~= if entries.len() > 25_000 {
        entries.take(25_000)
    } else {
        entries
    });
}

proof fn trees_are_stored_as_given(ask: TreePageAsk, batches: Seq<Seq<TreeEntry>>, steps: Seq<Step>)
    requires
        listed(ask, batches, steps),
    ensures
        steps.last().effect matches Some(Effect::StoreTree { sha, body }) && sha == ask.sha
            && json::json_parse(body@) is Some && body@ == encode_utf8(
            json::json_text(json::json_parse(body@)->0),
        ) && steps.last().turn.gives(json::json_parse(body@)->0),
    decreases batches.len(),
{
    if batches.len() > 1 {
        trees_are_stored_as_given(steps[0].turn->TreePage_0, batches.skip(1), steps.skip(1));
        assert(steps.skip(1).last() == steps.last());
    }
}

/// A cached listing is given as it is stored, but for the name of the revision.
pub proof fn cached_trees_keep_their_members(
    ask: CachedTreeAsk,
    cached: JsonView,
    t: Turn,
    key: Seq<char>,
)
    requires
        cached is Obj,
        served(ask, Some(cached), t),
    ensures
        ({
            let j = json::value_view(t->Reply_0.result->Ok_0);
            &&& t.gives(j)
            &&& j.member("branch"@) == Some(JsonView::Str(ask.label@))
            &&& key != "branch"@ ==> j.member(key) == cached.member(key)
        }),
{
}

/// A commit id is 40 or 64 digits from `0` to `9`, from `a` to `f` or from `A` to `F`: what is
/// shorter, longer, between the two, or has any other character in it is none.
pub proof fn commit_ids_are_digits(s: Seq<char>)
    ensures
        sha_shaped(s) <==> (s.len() == 40 || s.len() == 64) && forall|i: int|
            0 <= i < s.len() ==> "0123456789abcdefABCDEF"@.contains(#[trigger] s[i]),
{
    let digits = "0123456789abcdefABCDEF"@;
    reveal_strlit("0123456789abcdefABCDEF");
    assert forall|c: char| hex_char(c) == #[trigger] digits.contains(c) by {
        if '0' <= c <= '9' {
            assert(digits[c as int - '0' as int] == c);
        } else if 'a' <= c <= 'f' {
            assert(digits[c as int - 'a' as int + 10] == c);
        } else if 'A' <= c <= 'F' {
            assert(digits[c as int - 'A' as int + 16] == c);
        } else if digits.contains(c) {
            let k = choose|k: int| 0 <= k < digits.len() && digits[k] == c;
            assert(0 <= k < 22);
        }
    }
    if sha_shaped(s) {
        assert forall|i: int| 0 <= i < s.len() implies digits.contains(#[trigger] s[i]) by {
            assert(hex_char(s[i]));
        }
    }
    if forall|i: int| 0 <= i < s.len() ==> digits.contains(#[trigger] s[i]) {
        assert forall|i: int| 0 <= i < s.len() implies hex_char(#[trigger] s[i]) by {
            assert(digits.contains(s[i]));
        }
    }
}

/// Without a revision the head of the project's default branch is asked for, `main` where the
/// server names none, and no tag is. A name that is no commit id is asked for as a branch, and
/// as a tag of that name where there is no such branch; where there is no tag either, the client
/// is told so by name and project.
pub proof fn names_are_branches_before_tags(
    project: Project,
    reference: Option<String>,
    t: Turn,
    answer: ApiResult<Branch>,
    s: Step,
    tagged: ApiResult<BranchCommit>,
    after: Step,
)
    requires
        begun(project, reference, None, t),
        reference matches Some(name) ==> !sha_shaped(name@),
        head_answered(t->Head_0, answer, s),
        s.turn is Tag ==> tag_answered(s.turn->Tag_0, tagged, after),
    ensures
        t matches Turn::Head(ask) && ask.project == project && ask.label@ == match reference {
            Some(name) => name@,
            None => match project.default_branch {
                Some(name) => name@,
                None => "main"@,
            },
        },
        answer matches Ok(branch) ==> s.turn matches Turn::CachedTree(next) && next.project_id
            == project.id && next.label == t->Head_0.label && next.sha == branch.commit.id,
        s.turn is Tag <==> reference is Some && answer is Err && answer->Err_0.is_missing(),
        s.turn matches Turn::Tag(next) ==> next.project == project && next.label
            == t->Head_0.label,
        s.turn is Tag && tagged is Ok ==> after.turn is CachedTree
            && after.turn->CachedTree_0.project_id == project.id
            && after.turn->CachedTree_0.label == t->Head_0.label && after.turn->CachedTree_0.sha
            == tagged->Ok_0.id,
        s.turn is Tag ==> s.effect is None && after.effect is None,
        s.turn is Tag && tagged is Err ==> if tagged->Err_0.is_missing() {
            after.turn.refuses(
                "not_found",
                "no ref "@ + text::quoted(t->Head_0.label@) + " in "@
                    + project.path_with_namespace@,
            )
        } else {
            after.turn.fails(handlers::wire_error(tagged->Err_0))
        },
        answer is Err && !(s.turn is Tag) ==> s.turn.fails(handlers::wire_error(
            answer->Err_0,
        )),
{
}

/// A page that cannot be had does no harm to a listing that has all the entries it may have: it
/// is given and stored, as cut. Before that the client is told of the failure.
pub proof fn full_listings_do_without_a_page(ask: TreePageAsk, e: crate::api::ApiError, s: Step)
    requires
        answered(ask, Err(e), s),
    ensures
        ask.pages.read().len() == ask.pages.bound() ==> s.turn.gives(
            tree_json(ask.pages.read(), true, ask.label@),
        ) && s.effect is Some && s.effect->0 is StoreTree && s.effect->0->StoreTree_sha == ask.sha,
        ask.pages.read().len() != ask.pages.bound() && ask.origin is None ==> s.turn.fails(
            handlers::wire_error(e),
        ) && s.effect is None,
        ask.pages.read().len() != ask.pages.bound() ==> handlers::failed(e, ask.origin, s),
{
}

/// The pages of a listing are read one after the other, of one commit in one project, and each
/// one adds its entries after those before it.
pub proof fn pages_are_read_one_after_the_other(
    ask: TreePageAsk,
    batch: Seq<TreeEntry>,
    s: Step,
)
    requires
        continued(ask, batch, s),
        s.turn is TreePage,
    ensures
        ({
            let next = s.turn->TreePage_0;
            &&& next.pages.number() == ask.pages.number() + 1
            &&& next.pages.read() == ask.pages.read() + batch
            &&& next.pages.bound() == ask.pages.bound()
            &&& next.project_id == ask.project_id
            &&& next.sha == ask.sha
            &&& next.label == ask.label
            &&& next.origin == ask.origin
            &&& s.effect is None
            &&& batch.len() >= 100
        }),
{
}

/// A listing begins with the first page of the commit that was resolved, in its project.
pub proof fn listings_begin_with_the_first_page(ask: CachedTreeAsk, t: Turn)
    requires
        served(ask, None, t),
    ensures
        t matches Turn::TreePage(next) && next.pages.number() == 1 && next.pages.read().len() == 0
            && next.pages.bound() == 25_000 && next.project_id == ask.project_id && next.sha
            == ask.sha && next.label == ask.label && next.origin == ask.origin,
{
}

/// While a name is looked up it is not forgotten that the project stems from the cache: the
/// commit is listed with that in mind, and the project is asked for where the server misses
/// what was looked up last.
pub proof fn lookups_remember_the_cache(
    head: HeadAsk,
    answer: ApiResult<Branch>,
    s: Step,
    tag: TagAsk,
    tagged: ApiResult<BranchCommit>,
    after: Step,
)
    requires
        head_answered(head, answer, s),
        tag_answered(tag, tagged, after),
    ensures
        s.turn matches Turn::CachedTree(next) ==> next.origin == head.origin,
        s.turn matches Turn::Tag(next) ==> next.origin == head.origin,
        after.turn matches Turn::CachedTree(next) ==> next.origin == tag.origin,
        answer is Err && !(head.named && answer->Err_0.is_missing()) ==> handlers::failed(
            answer->Err_0,
            head.origin,
            s,
        ),
        answer is Ok ==> s.effect is None,
        tagged is Ok ==> after.effect is None,
        tagged is Err && tag.origin is Some ==> handlers::failed(
            tagged->Err_0,
            tag.origin,
            after,
        ),
{
}

} // verus!
