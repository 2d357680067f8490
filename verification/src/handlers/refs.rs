//! `repo/refs`: the branches and the tags of a project, the default branch marked.

use serde_json::Value;
use vstd::prelude::*;
use vstd::string::*;

use crate::api::{ApiResult, Branch, GitLab, Project, Tag, REF_CAP};
use crate::handlers::{Origin, Step, Turn};
use crate::json::JsonView;
use crate::paging::{Paged, Pages};
use crate::{api, handlers, json, paging, text};

verus! {

/// Waits for a page of a project's branches.
pub struct BranchPageAsk {
    pub project_id: u64,
    pub default_branch: Option<String>,
    pub pages: Pages<Branch>,
    pub origin: Option<Origin>,
}

/// Waits for a page of a project's tags. The branches are known, and whether their listing
/// was cut short.
pub struct TagPageAsk {
    pub project_id: u64,
    pub default_branch: Option<String>,
    pub branches: Vec<Branch>,
    pub branches_cut: bool,
    pub pages: Pages<Tag>,
    pub origin: Option<Origin>,
}

/// A project's branches are read from their first page on.
pub open spec fn begun(project: Project, origin: Option<Origin>, t: Turn) -> bool {
    &&& t matches Turn::BranchPage(ask)
    &&& ask.project_id == project.id
    &&& ask.default_branch == project.default_branch
    &&& ask.pages.read() == Seq::<Branch>::empty()
    &&& ask.pages.number() == 1
    &&& ask.pages.bound() == REF_CAP
    &&& ask.origin == origin
}

pub fn begin(project: Project, origin: Option<Origin>) -> (t: Turn)
    ensures
        begun(project, origin, t),
{
    Turn::BranchPage(
        BranchPageAsk {
            project_id: project.id,
            default_branch: project.default_branch,
            pages: Pages::new(REF_CAP),
            origin,
        },
    )
}

/// A branch is the default one where the server says so, or where it has the name of the
/// project's default branch.
pub open spec fn is_default(b: Branch, default_name: Seq<char>) -> bool {
    b.default == Some(true) || api::text_or(b.name, ""@) == default_name
}

/// The document of a branch with a name.
pub open spec fn branch_json(b: Branch, default_name: Seq<char>) -> JsonView {
    let plain = map![
        "name"@ => JsonView::Str(api::text_or(b.name, ""@)),
        "sha"@ => JsonView::Str(b.commit.id@),
    ];
    JsonView::Obj(
        if is_default(b, default_name) {
            plain.insert("default"@, JsonView::Bool(true))
        } else {
            plain
        },
    )
}

/// The documents of those branches that have a name: no other can be switched to.
pub open spec fn branches_json(branches: Seq<Branch>, default_name: Seq<char>) -> Seq<JsonView> {
    branches.filter(|b: Branch| b.name is Some).map_values(
        |b: Branch| branch_json(b, default_name),
    )
}

/// The document of a tag with a commit.
pub open spec fn tag_json(t: Tag) -> JsonView {
    JsonView::Obj(
        map!["name"@ => JsonView::Str(t.name@), "sha"@ => JsonView::Str(t.commit->0.id@)],
    )
}

/// The documents of those tags that have a commit.
pub open spec fn tags_json(tags: Seq<Tag>) -> Seq<JsonView> {
    tags.filter(|t: Tag| t.commit is Some).map_values(|t: Tag| tag_json(t))
}

/// The document of a project's branches and tags. It says `truncated` only where one of
/// the two listings was cut short.
pub open spec fn refs_json(
    branches: Seq<Branch>,
    tags: Seq<Tag>,
    default_branch: Option<String>,
    cut: bool,
) -> JsonView {
    let plain = map![
        "branches"@ => JsonView::Arr(branches_json(branches, api::text_or(default_branch, ""@))),
        "tags"@ => JsonView::Arr(tags_json(tags)),
    ];
    JsonView::Obj(
        if cut {
            plain.insert("truncated"@, JsonView::Bool(true))
        } else {
            plain
        },
    )
}

fn branch_documents(branches: &Vec<Branch>, default_name: &str) -> (r: Vec<Value>)
    ensures
        json::values_view(r@) == branches_json(branches@, default_name@),
{
    let mut items: Vec<Value> = Vec::new();
    let mut i: usize = 0;
    proof {
        reveal(Seq::filter);
    }
    while i < branches.len()
        invariant
            i <= branches@.len(),
            json::values_view(items@) == branches_json(branches@.take(i as int), default_name@),
        decreases branches@.len() - i,
    {
        let b = &branches[i];
        proof {
            reveal(Seq::filter);
            assert(branches@.take(i + 1).drop_last() == branches@.take(i as int));
            assert(branches@.take(i + 1).last() == *b);
        }
        if let Some(name) = &b.name {
            let v = json::with(json::object(), "name", json::string(name.as_str()));
            let mut v = json::with(v, "sha", json::string(b.commit.id.as_str()));
            let flagged = match b.default {
                Some(flag) => flag,
                None => false,
            };
            if flagged || text::same(name.as_str(), default_name) {
                v = json::with(v, "default", json::flag(true));
            }
            assert(json::value_view(v) == branch_json(*b, default_name@));
            json::push(&mut items, v);
        }
        assert(json::values_view(items@) == branches_json(branches@.take(i + 1), default_name@));
        i = i + 1;
    }
    assert(branches@.take(i as int) == branches@);
    items
}

fn tag_documents(tags: &Vec<Tag>) -> (r: Vec<Value>)
    ensures
        json::values_view(r@) == tags_json(tags@),
{
    let mut items: Vec<Value> = Vec::new();
    let mut i: usize = 0;
    proof {
        reveal(Seq::filter);
    }
    while i < tags.len()
        invariant
            i <= tags@.len(),
            json::values_view(items@) == tags_json(tags@.take(i as int)),
        decreases tags@.len() - i,
    {
        let t = &tags[i];
        proof {
            reveal(Seq::filter);
            assert(tags@.take(i + 1).drop_last() == tags@.take(i as int));
            assert(tags@.take(i + 1).last() == *t);
        }
        if let Some(commit) = &t.commit {
            let v = json::with(json::object(), "name", json::string(t.name.as_str()));
            let v = json::with(v, "sha", json::string(commit.id.as_str()));
            assert(json::value_view(v) == tag_json(*t));
            json::push(&mut items, v);
        }
        assert(json::values_view(items@) == tags_json(tags@.take(i + 1)));
        i = i + 1;
    }
    assert(tags@.take(i as int) == tags@);
    items
}

/// The branches are known, and the tags are read from their first page on.
pub open spec fn tags_begun(ask: BranchPageAsk, branches: Seq<Branch>, cut: bool, s: Step) -> bool {
    &&& s.effect is None
    &&& s.turn matches Turn::TagPage(next)
    &&& next.project_id == ask.project_id
    &&& next.default_branch == ask.default_branch
    &&& next.branches@ == branches
    &&& next.branches_cut == cut
    &&& next.pages.read() == Seq::<Tag>::empty()
    &&& next.pages.number() == 1
    &&& next.pages.bound() == REF_CAP
    &&& next.origin == ask.origin
}

/// What a page makes of the branches: another page is to be read, or the tags are, from
/// their first page on.
pub open spec fn branches_continued(ask: BranchPageAsk, batch: Seq<Branch>, s: Step) -> bool {
    match paging::page_step(ask.pages.read(), batch, ask.pages.bound()) {
        None => {
            &&& s.effect is None
            &&& s.turn matches Turn::BranchPage(next)
            &&& next.project_id == ask.project_id
            &&& next.default_branch == ask.default_branch
            &&& next.pages.read() == ask.pages.read() + batch
            &&& next.pages.number() == ask.pages.number() + 1
            &&& next.pages.bound() == ask.pages.bound()
            &&& next.origin == ask.origin
        },
        Some((branches, cut)) => tags_begun(ask, branches, cut, s),
    }
}

/// What the answer to a page of branches leads to. Branches as many as may be listed do without
/// the page that would have shown whether there are more.
pub open spec fn branches_answered(
    ask: BranchPageAsk,
    answer: ApiResult<Vec<Branch>>,
    s: Step,
) -> bool {
    match answer {
        Ok(batch) => branches_continued(ask, batch@, s),
        Err(e) => if ask.pages.read().len() == ask.pages.bound() {
            tags_begun(ask, ask.pages.read(), true, s)
        } else {
            handlers::failed(e, ask.origin, s)
        },
    }
}

impl BranchPageAsk {
    pub fn url(&self, gl: &GitLab) -> (r: String)
        ensures
            r@ == gl.branches_address(self.project_id, self.pages.number()),
    {
        gl.branches(self.project_id, self.pages.page())
    }

    /// Branches as many as may be listed do without the page that would have shown whether
    /// there are more.
    pub fn resume(self, answer: ApiResult<Vec<Branch>>) -> (s: Step)
        ensures
            branches_answered(self, answer, s),
            s.turn.follows(Turn::BranchPage(self)),
    {
        let (branches, branches_cut) = match answer {
            Ok(batch) => match self.pages.next(batch) {
                Paged::More(pages) => return Step::go(
                    Turn::BranchPage(
                        BranchPageAsk {
                            project_id: self.project_id,
                            default_branch: self.default_branch,
                            pages,
                            origin: self.origin,
                        },
                    ),
                ),
                Paged::Done(branches, cut) => (branches, cut),
            },
            Err(e) => match self.pages.full() {
                Some(branches) => (branches, true),
                None => return Step::fail(&e, self.origin),
            },
        };
        Step::go(
            Turn::TagPage(
                TagPageAsk {
                    project_id: self.project_id,
                    default_branch: self.default_branch,
                    branches,
                    branches_cut,
                    pages: Pages::new(REF_CAP),
                    origin: self.origin,
                },
            ),
        )
    }
}

/// Branches and tags are given.
pub open spec fn refs_given(ask: TagPageAsk, tags: Seq<Tag>, cut: bool, s: Step) -> bool {
    s.effect is None && s.turn.gives(
        refs_json(ask.branches@, tags, ask.default_branch, ask.branches_cut || cut),
    )
}

/// What a page makes of the tags: another page is to be read, or branches and tags are
/// given.
pub open spec fn tags_continued(ask: TagPageAsk, batch: Seq<Tag>, s: Step) -> bool {
    match paging::page_step(ask.pages.read(), batch, ask.pages.bound()) {
        None => {
            &&& s.effect is None
            &&& s.turn matches Turn::TagPage(next)
            &&& next.project_id == ask.project_id
            &&& next.default_branch == ask.default_branch
            &&& next.branches == ask.branches
            &&& next.branches_cut == ask.branches_cut
            &&& next.pages.read() == ask.pages.read() + batch
            &&& next.pages.number() == ask.pages.number() + 1
            &&& next.pages.bound() == ask.pages.bound()
            &&& next.origin == ask.origin
        },
        Some((tags, cut)) => refs_given(ask, tags, cut, s),
    }
}

/// What the answer to a page of tags leads to. Tags as many as may be listed do without the page
/// that would have shown whether there are more.
pub open spec fn tags_answered(ask: TagPageAsk, answer: ApiResult<Vec<Tag>>, s: Step) -> bool {
    match answer {
        Ok(batch) => tags_continued(ask, batch@, s),
        Err(e) => if ask.pages.read().len() == ask.pages.bound() {
            refs_given(ask, ask.pages.read(), true, s)
        } else {
            handlers::failed(e, ask.origin, s)
        },
    }
}

impl TagPageAsk {
    pub fn url(&self, gl: &GitLab) -> (r: String)
        ensures
            r@ == gl.tags_address(self.project_id, self.pages.number()),
    {
        gl.tags(self.project_id, self.pages.page())
    }

    /// Tags as many as may be listed do without the page that would have shown whether there
    /// are more.
    pub fn resume(self, answer: ApiResult<Vec<Tag>>) -> (s: Step)
        ensures
            tags_answered(self, answer, s),
            s.turn.follows(Turn::TagPage(self)),
    {
        let (tags, tags_cut) = match answer {
            Ok(batch) => match self.pages.next(batch) {
                Paged::More(pages) => return Step::go(
                    Turn::TagPage(
                        TagPageAsk {
                            project_id: self.project_id,
                            default_branch: self.default_branch,
                            branches: self.branches,
                            branches_cut: self.branches_cut,
                            pages,
                            origin: self.origin,
                        },
                    ),
                ),
                Paged::Done(tags, cut) => (tags, cut),
            },
            Err(e) => match self.pages.full() {
                Some(tags) => (tags, true),
                None => return Step::fail(&e, self.origin),
            },
        };
        let default_name = api::or_text(&self.default_branch, "");
        let branches = branch_documents(&self.branches, default_name.as_str());
        let v = json::with(json::object(), "branches", json::list(branches));
        let mut v = json::with(v, "tags", json::list(tag_documents(&tags)));
        if self.branches_cut || tags_cut {
            v = json::with(v, "truncated", json::flag(true));
        }
        Step::go(Turn::give(v))
    }
}

// -- laws ------------------------------------------------------------------------------------

/// Pages of branches were read one after the other, the first one as `ask` wanted it, until
/// the tags were to be read.
pub open spec fn branches_listed(
    ask: BranchPageAsk,
    batches: Seq<Seq<Branch>>,
    steps: Seq<Step>,
) -> bool
    decreases batches.len(),
{
    &&& 0 < batches.len() == steps.len()
    &&& branches_continued(ask, batches[0], steps[0])
    &&& if batches.len() == 1 {
        steps[0].turn is TagPage
    } else {
        steps[0].turn matches Turn::BranchPage(next) && branches_listed(
            next,
            batches.skip(1),
            steps.skip(1),
        )
    }
}

/// Pages of tags were read one after the other, the first one as `ask` wanted it, until
/// branches and tags were given.
pub open spec fn tags_listed(ask: TagPageAsk, batches: Seq<Seq<Tag>>, steps: Seq<Step>) -> bool
    decreases batches.len(),
{
    &&& 0 < batches.len() == steps.len()
    &&& tags_continued(ask, batches[0], steps[0])
    &&& if batches.len() == 1 {
        steps[0].turn is Reply
    } else {
        steps[0].turn matches Turn::TagPage(next) && tags_listed(
            next,
            batches.skip(1),
            steps.skip(1),
        )
    }
}

proof fn branches_are_their_pages(
    ask: BranchPageAsk,
    batches: Seq<Seq<Branch>>,
    steps: Seq<Step>,
)
    requires
        branches_listed(ask, batches, steps),
    ensures
        steps.last().turn matches Turn::TagPage(next) && paging::collect(
            ask.pages.read(),
            batches,
            ask.pages.bound(),
        ) == Some((next.branches@, next.branches_cut)) && next.default_branch == ask.default_branch
            && next.pages.read() == Seq::<Tag>::empty() && next.pages.bound() == REF_CAP,
    decreases batches.len(),
{
    if batches.len() > 1 {
        let next = steps[0].turn->BranchPage_0;
        branches_are_their_pages(next, batches.skip(1), steps.skip(1));
        assert(steps.skip(1).last() == steps.last());
    }
}

proof fn tags_are_their_pages(ask: TagPageAsk, batches: Seq<Seq<Tag>>, steps: Seq<Step>)
    requires
        tags_listed(ask, batches, steps),
    ensures
        paging::collect(ask.pages.read(), batches, ask.pages.bound()) matches Some((tags, cut))
            && steps.last().turn.gives(
            refs_json(ask.branches@, tags, ask.default_branch, ask.branches_cut || cut),
        ),
    decreases batches.len(),
{
    if batches.len() > 1 {
        let next = steps[0].turn->TagPage_0;
        tags_are_their_pages(next, batches.skip(1), steps.skip(1));
        assert(steps.skip(1).last() == steps.last());
    }
}

/// Branches and tags are what their pages add up to, each under its cap, and the document
/// says so where either was cut.
pub proof fn refs_are_their_pages(
    ask: BranchPageAsk,
    branch_pages: Seq<Seq<Branch>>,
    branch_steps: Seq<Step>,
    tag_pages: Seq<Seq<Tag>>,
    tag_steps: Seq<Step>,
)
    requires
        branches_listed(ask, branch_pages, branch_steps),
        tags_listed(branch_steps.last().turn->TagPage_0, tag_pages, tag_steps),
    ensures
        ({
            let branches = paging::collect(ask.pages.read(), branch_pages, ask.pages.bound());
            let tags = paging::collect(seq![], tag_pages, REF_CAP as nat);
            &&& branches is Some
            &&& tags is Some
            &&& tag_steps.last().turn.gives(
                refs_json(
                    (branches->0).0,
                    (tags->0).0,
                    ask.default_branch,
                    (branches->0).1 || (tags->0).1,
                ),
            )
        }),
{
    branches_are_their_pages(ask, branch_pages, branch_steps);
    tags_are_their_pages(branch_steps.last().turn->TagPage_0, tag_pages, tag_steps);
}

/// A branch with a name adds its document after those before it: its name and its head, and
/// `default` just where the server flags it or it has the name of the default branch. A branch
/// without a name adds nothing.
pub proof fn branches_show_themselves(branches: Seq<Branch>, b: Branch, default_name: Seq<char>)
    ensures
        branches_json(seq![], default_name).len() == 0,
        b.name is None ==> branches_json(branches.push(b), default_name) == branches_json(
            branches,
            default_name,
        ),
        b.name is Some ==> {
            let all = branches_json(branches.push(b), default_name);
            let marked = b.default == Some(true) || b.name->0@ == default_name;
            &&& all.len() > 0
            &&& all.drop_last() == branches_json(branches, default_name)
            &&& all.last().member("name"@) == Some(JsonView::Str(b.name->0@))
            &&& all.last().member("sha"@) == Some(JsonView::Str(b.commit.id@))
            &&& all.last().member("default"@) == if marked {
                Some(JsonView::Bool(true))
            } else {
                None
            }
            &&& all.last()->Obj_0.dom() == if marked {
                set!["name"@, "sha"@, "default"@]
            } else {
                set!["name"@, "sha"@]
            }
        },
{
    reveal(Seq::filter);
    reveal_strlit("name");
    reveal_strlit("sha");
    reveal_strlit("default");
    assert("name"@.len() == 4 && "sha"@.len() == 3 && "default"@.len() == 7);
    assert(branches.push(b).drop_last() == branches);
    let before = branches_json(branches, default_name);
    let all = branches_json(branches.push(b), default_name);
    if b.name is Some {
        assert(all =~= before.push(branch_json(b, default_name)));
        assert(all.drop_last() =~= before);
        let marked = b.default == Some(true) || b.name->0@ == default_name;
        assert(all.last()->Obj_0.dom() =~= if marked {
            set!["name"@, "sha"@, "default"@]
        } else {
            set!["name"@, "sha"@]
        });
    }
}

/// A tag with a commit adds its document after those before it: its name and the commit, and
/// nothing else. A tag without a commit adds nothing.
pub proof fn tags_show_themselves(tags: Seq<Tag>, t: Tag)
    ensures
        tags_json(seq![]).len() == 0,
        t.commit is None ==> tags_json(tags.push(t)) == tags_json(tags),
        t.commit is Some ==> {
            let all = tags_json(tags.push(t));
            &&& all.len() > 0
            &&& all.drop_last() == tags_json(tags)
            &&& all.last().member("name"@) == Some(JsonView::Str(t.name@))
            &&& all.last().member("sha"@) == Some(JsonView::Str(t.commit->0.id@))
            &&& all.last()->Obj_0.dom() == set!["name"@, "sha"@]
        },
{
    reveal(Seq::filter);
    reveal_strlit("name");
    reveal_strlit("sha");
    assert("name"@.len() == 4 && "sha"@.len() == 3);
    assert(tags.push(t).drop_last() == tags);
    let all = tags_json(tags.push(t));
    if t.commit is Some {
        assert(all =~= tags_json(tags).push(tag_json(t)));
        assert(all.drop_last() =~= tags_json(tags));
        assert(all.last()->Obj_0.dom() =~= set!["name"@, "sha"@]);
    }
}

/// The document of branches and tags has both, and `truncated` just where one was cut, and
/// nothing else. Where the project has no default branch, only a branch that the server flags is
/// marked.
pub proof fn refs_show_branches_and_tags(
    branches: Seq<Branch>,
    tags: Seq<Tag>,
    default_branch: Option<String>,
    cut: bool,
)
    ensures
        ({
            let j = refs_json(branches, tags, default_branch, cut);
            &&& j.member("branches"@) == Some(
                JsonView::Arr(
                    branches_json(
                        branches,
                        match default_branch {
                            Some(name) => name@,
                            None => ""@,
                        },
                    ),
                ),
            )
            &&& j.member("tags"@) == Some(JsonView::Arr(tags_json(tags)))
            &&& j.member("truncated"@) == if cut {
                Some(JsonView::Bool(true))
            } else {
                None
            }
            &&& j->Obj_0.dom() == if cut {
                set!["branches"@, "tags"@, "truncated"@]
            } else {
                set!["branches"@, "tags"@]
            }
        }),
{
    reveal_strlit("branches");
    reveal_strlit("tags");
    reveal_strlit("truncated");
    assert("branches"@.len() == 8 && "tags"@.len() == 4 && "truncated"@.len() == 9);
    let j = refs_json(branches, tags, default_branch, cut);
    assert(j->Obj_0.dom() =~= if cut {
        set!["branches"@, "tags"@, "truncated"@]
    } else {
        set!["branches"@, "tags"@]
    });
}

/// A project's branches and tags are those that the server holds, in its order, up to 500 of
/// each; the document says that it was cut just where there are more of one or of the other.
pub proof fn refs_hold_what_the_server_holds(
    project: Project,
    origin: Option<Origin>,
    t: Turn,
    branches: Seq<Branch>,
    tags: Seq<Tag>,
    branch_pages: Seq<Seq<Branch>>,
    branch_steps: Seq<Step>,
    tag_pages: Seq<Seq<Tag>>,
    tag_steps: Seq<Step>,
)
    requires
        begun(project, origin, t),
        branches_listed(t->BranchPage_0, branch_pages, branch_steps),
        tags_listed(branch_steps.last().turn->TagPage_0, tag_pages, tag_steps),
        paging::paged(branches, 100, branch_pages),
        paging::paged(tags, 100, tag_pages),
    ensures
        t->BranchPage_0.project_id == project.id,
        tag_steps.last().turn.gives(
            refs_json(
                if branches.len() > 500 {
                    branches.take(500)
                } else {
                    branches
                },
                if tags.len() > 500 {
                    tags.take(500)
                } else {
                    tags
                },
                project.default_branch,
                branches.len() > 500 || tags.len() > 500,
            ),
        ),
{
    let ask = t->BranchPage_0;
    refs_are_their_pages(ask, branch_pages, branch_steps, tag_pages, tag_steps);
    paging::listings_hold_what_the_server_holds(seq![], branches, branch_pages, REF_CAP as nat);
    paging::listings_hold_what_the_server_holds(seq![], tags, tag_pages, REF_CAP as nat);
    assert(Seq::<Branch>::empty() + branches == branches);
    assert(Seq::<Tag>::empty() + tags == tags);
    let (b, _) = paging::collect(Seq::<Branch>::empty(), branch_pages, REF_CAP as nat)->0;
    let (g, _) = paging::collect(Seq::<Tag>::empty(), tag_pages, REF_CAP as nat)->0;
    assert(b =~= if branches.len() > 500 {
        branches.take(500)
    } else {
        branches
    });
    assert(g =~= if tags.len() > 500 {
        tags.take(500)
    } else {
        tags
    });
}

/// A page that cannot be had does no harm to a listing that has all it may have: branches are
/// gone on with, as cut, and tags are given, as cut. Before that the client is told of the
/// failure.
pub proof fn full_listings_do_without_a_page(
    branches: BranchPageAsk,
    tags: TagPageAsk,
    e: crate::api::ApiError,
    s: Step,
    after: Step,
)
    requires
        branches_answered(branches, Err(e), s),
        tags_answered(tags, Err(e), after),
    ensures
        branches.pages.read().len() == branches.pages.bound() ==> s.effect is None
            && s.turn is TagPage && s.turn->TagPage_0.branches@ == branches.pages.read()
            && s.turn->TagPage_0.branches_cut && s.turn->TagPage_0.project_id
            == branches.project_id && s.turn->TagPage_0.default_branch == branches.default_branch
            && s.turn->TagPage_0.pages.read().len() == 0 && s.turn->TagPage_0.pages.number() == 1,
        branches.pages.read().len() != branches.pages.bound() && branches.origin is None
            ==> s.turn.fails(handlers::wire_error(e)),
        branches.pages.read().len() != branches.pages.bound() ==> handlers::failed(
            e,
            branches.origin,
            s,
        ),
        tags.pages.read().len() == tags.pages.bound() ==> after.effect is None
            && after.turn.gives(
            refs_json(tags.branches@, tags.pages.read(), tags.default_branch, true),
        ),
        tags.pages.read().len() != tags.pages.bound() && tags.origin is None
            ==> after.turn.fails(handlers::wire_error(e)),
        tags.pages.read().len() != tags.pages.bound() ==> handlers::failed(e, tags.origin, after),
{
}

/// The pages of branches are read one after the other, from the first one on, and those of tags
/// after them in the same way; each one adds its entries after those before it.
pub proof fn pages_are_read_one_after_the_other(
    project: Project,
    origin: Option<Origin>,
    first: Turn,
    branches: BranchPageAsk,
    branch_batch: Seq<Branch>,
    s: Step,
    tags: TagPageAsk,
    tag_batch: Seq<Tag>,
    after: Step,
)
    requires
        begun(project, origin, first),
        branches_continued(branches, branch_batch, s),
        tags_continued(tags, tag_batch, after),
    ensures
        first matches Turn::BranchPage(start) && start.pages.number() == 1
            && start.pages.read().len() == 0 && start.pages.bound() == 500 && start.project_id
            == project.id && start.default_branch == project.default_branch && start.origin
            == origin,
        s.turn matches Turn::BranchPage(next) ==> next.pages.number() == branches.pages.number() + 1
            && next.pages.read() == branches.pages.read() + branch_batch && next.pages.bound()
            == branches.pages.bound() && next.project_id == branches.project_id
            && next.default_branch == branches.default_branch && next.origin == branches.origin
            && branch_batch.len() >= 100,
        s.effect is None,
        s.turn matches Turn::TagPage(next) ==> next.pages.number() == 1
            && next.pages.read().len() == 0 && next.pages.bound() == 500 && next.project_id
            == branches.project_id && next.default_branch == branches.default_branch
            && next.origin == branches.origin,
        after.turn matches Turn::TagPage(next) ==> next.pages.number() == tags.pages.number() + 1
            && next.pages.read() == tags.pages.read() + tag_batch && next.pages.bound()
            == tags.pages.bound() && next.project_id == tags.project_id && next.default_branch
            == tags.default_branch && next.branches == tags.branches && next.branches_cut
            == tags.branches_cut && next.origin == tags.origin && tag_batch.len() >= 100,
        after.effect is None,
{
}

} // verus!
