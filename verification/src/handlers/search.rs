//! `search/repos`: projects and groups that match a query. `org/repos`: the projects of a
//! group, named by what follows the group in their paths.

use serde_json::Value;
use vstd::prelude::*;
use vstd::string::*;

use crate::api::{ApiResult, GitLab, Group, Project, GROUP_PROJECT_CAP};
use crate::handlers::Turn;
use crate::json::JsonView;
use crate::paging::{Paged, Pages};
use crate::{handlers, json, paging, text};

verus! {

// -- search/repos --------------------------------------------------------------------------

/// The most matches that are given.
pub const MATCH_CAP: usize = 20;

/// Waits for the projects that match.
pub struct ProjectsAsk {
    pub query: String,
}

/// Waits for the groups that match. The projects are known.
pub struct GroupsAsk {
    pub query: String,
    pub projects: Vec<Project>,
}

/// The document of a matching project.
pub open spec fn project_match(p: Project) -> JsonView {
    JsonView::Obj(map!["full_name"@ => JsonView::Str(p.path_with_namespace@)])
}

/// The document of a matching group.
pub open spec fn group_match(g: Group) -> JsonView {
    JsonView::Obj(map!["org"@ => JsonView::Str(g.full_path@)])
}

/// At most the first `n` of a sequence.
pub open spec fn at_most<T>(s: Seq<T>, n: nat) -> Seq<T> {
    if s.len() <= n {
        s
    } else {
        s.take(n as int)
    }
}

/// The document of the matches: projects first, then groups, and no more than
/// [`MATCH_CAP`] of both.
pub open spec fn matches_json(projects: Seq<Project>, groups: Seq<Group>) -> JsonView {
    JsonView::Obj(
        map![
            "items"@ => JsonView::Arr(
                at_most(
                    projects.map_values(|p: Project| project_match(p)) + groups.map_values(
                        |g: Group| group_match(g),
                    ),
                    MATCH_CAP as nat,
                ),
            ),
        ],
    )
}

/// What the projects lead to: the groups are asked for.
pub open spec fn projects_found(
    ask: ProjectsAsk,
    answer: ApiResult<Vec<Project>>,
    t: Turn,
) -> bool {
    match answer {
        Ok(projects) => t == Turn::Groups(GroupsAsk { query: ask.query, projects }),
        Err(e) => t.fails(handlers::wire_error(e)),
    }
}

/// What the groups lead to: the matches are given. That the groups cannot be had does not keep
/// the projects back.
pub open spec fn groups_found(ask: GroupsAsk, answer: ApiResult<Vec<Group>>, t: Turn) -> bool {
    t.gives(
        matches_json(
            ask.projects@,
            match answer {
                Ok(groups) => groups@,
                Err(_) => seq![],
            },
        ),
    )
}

impl ProjectsAsk {
    pub fn url(&self, gl: &GitLab) -> (r: String)
        ensures
            r@ == gl.search_projects_address(self.query@),
    {
        gl.search_projects(self.query.as_str())
    }

    pub fn resume(self, answer: ApiResult<Vec<Project>>) -> (t: Turn)
        ensures
            projects_found(self, answer, t),
            t.follows(Turn::Projects(self)),
    {
        match answer {
            Ok(projects) => Turn::Groups(GroupsAsk { query: self.query, projects }),
            Err(e) => Turn::fail(&e),
        }
    }
}

impl GroupsAsk {
    pub fn url(&self, gl: &GitLab) -> (r: String)
        ensures
            r@ == gl.search_groups_address(self.query@),
    {
        gl.search_groups(self.query.as_str())
    }

    /// Gives the matches. That the groups cannot be had does not keep the projects back.
    pub fn resume(self, answer: ApiResult<Vec<Group>>) -> (t: Turn)
        ensures
            groups_found(self, answer, t),
            t.follows(Turn::Groups(self)),
    {
        let groups = match answer {
            Ok(groups) => groups,
            Err(_) => Vec::new(),
        };
        let projects = self.projects;
        let ghost first = projects@.map_values(|p: Project| project_match(p));
        let ghost second = groups@.map_values(|g: Group| group_match(g));
        let mut items: Vec<Value> = Vec::new();
        let mut i: usize = 0;
        while i < projects.len()
            invariant
                i <= projects@.len(),
                first == projects@.map_values(|p: Project| project_match(p)),
                json::values_view(items@) == first.take(i as int),
            decreases projects@.len() - i,
        {
            let name = json::string(projects[i].path_with_namespace.as_str());
            json::push(&mut items, json::with(json::object(), "full_name", name));
            assert(first.take(i + 1) == first.take(i as int).push(first[i as int]));
            i = i + 1;
        }
        assert(first.take(i as int) == first);
        let mut k: usize = 0;
        assert(first + second.take(0) == first);
        while k < groups.len()
            invariant
                k <= groups@.len(),
                second == groups@.map_values(|g: Group| group_match(g)),
                json::values_view(items@) == first + second.take(k as int),
            decreases groups@.len() - k,
        {
            let path = json::string(groups[k].full_path.as_str());
            json::push(&mut items, json::with(json::object(), "org", path));
            assert(second.take(k + 1) == second.take(k as int).push(second[k as int]));
            assert((first + second.take(k as int)).push(second[k as int]) == first + second.take(
                k + 1,
            ));
            k = k + 1;
        }
        assert(second.take(k as int) == second);
        if items.len() > MATCH_CAP {
            items.truncate(MATCH_CAP);
            assert(json::values_view(items@) == (first + second).take(MATCH_CAP as int));
        }
        Turn::give(json::with(json::object(), "items", json::list(items)))
    }
}

// -- org/repos -------------------------------------------------------------------------------

/// Waits for a page of the projects of the group `org`.
pub struct GroupPageAsk {
    pub org: String,
    pub group_id: u64,
    pub pages: Pages<Project>,
}

/// What follows the group in the path of a project, the whole path where it does not lie
/// below the group.
pub open spec fn name_in(org: Seq<char>, path: Seq<char>) -> Seq<char> {
    let prefix = org + "/"@;
    if prefix.is_prefix_of(path) {
        path.skip(prefix.len() as int)
    } else {
        path
    }
}

/// The document of a group's projects.
pub open spec fn repos_json(org: Seq<char>, projects: Seq<Project>, truncated: bool) -> JsonView {
    JsonView::Obj(
        map![
            "repos"@ => JsonView::Arr(
                projects.map_values(
                    |p: Project| JsonView::Str(name_in(org, p.path_with_namespace@)),
                ),
            ),
            "truncated"@ => JsonView::Bool(truncated),
        ],
    )
}

/// A group's projects are read from their first page on.
pub open spec fn repos_begun(org: String, group: Group, t: Turn) -> bool {
    &&& t matches Turn::GroupPage(ask)
    &&& ask.org == org
    &&& ask.group_id == group.id
    &&& ask.pages.read() == Seq::<Project>::empty()
    &&& ask.pages.number() == 1
    &&& ask.pages.bound() == GROUP_PROJECT_CAP
}

pub fn begin_repos(org: String, group: &Group) -> (t: Turn)
    ensures
        repos_begun(org, *group, t),
{
    Turn::GroupPage(GroupPageAsk { org, group_id: group.id, pages: Pages::new(GROUP_PROJECT_CAP) })
}

/// What a page makes of the projects: another page is to be read, or their names are given.
pub open spec fn repos_continued(ask: GroupPageAsk, batch: Seq<Project>, t: Turn) -> bool {
    match paging::page_step(ask.pages.read(), batch, ask.pages.bound()) {
        None => {
            &&& t matches Turn::GroupPage(next)
            &&& next.org == ask.org
            &&& next.group_id == ask.group_id
            &&& next.pages.read() == ask.pages.read() + batch
            &&& next.pages.number() == ask.pages.number() + 1
            &&& next.pages.bound() == ask.pages.bound()
        },
        Some((projects, truncated)) => t.gives(repos_json(ask.org@, projects, truncated)),
    }
}

fn repos_document(org: &str, projects: &Vec<Project>, truncated: bool) -> (v: Value)
    ensures
        json::value_view(v) == repos_json(org@, projects@, truncated),
{
    let prefix = text::concat2(org, "/");
    let ghost all = projects@.map_values(
        |p: Project| JsonView::Str(name_in(org@, p.path_with_namespace@)),
    );
    let mut items: Vec<Value> = Vec::new();
    let mut i: usize = 0;
    while i < projects.len()
        invariant
            i <= projects@.len(),
            prefix@ == org@ + "/"@,
            all == projects@.map_values(
                |p: Project| JsonView::Str(name_in(org@, p.path_with_namespace@)),
            ),
            json::values_view(items@) == all.take(i as int),
        decreases projects@.len() - i,
    {
        let path = projects[i].path_with_namespace.as_str();
        let item = match text::strip_prefix(path, prefix.as_str()) {
            Some(name) => json::string(name.as_str()),
            None => json::string(path),
        };
        json::push(&mut items, item);
        assert(all.take(i + 1) == all.take(i as int).push(all[i as int]));
        i = i + 1;
    }
    assert(all.take(i as int) == all);
    let v = json::with(json::object(), "repos", json::list(items));
    json::with(v, "truncated", json::flag(truncated))
}

/// What the answer to a page leads to. Projects as many as may be listed do without the page
/// that would have shown whether there are more.
pub open spec fn repos_answered(
    ask: GroupPageAsk,
    answer: ApiResult<Vec<Project>>,
    t: Turn,
) -> bool {
    match answer {
        Ok(batch) => repos_continued(ask, batch@, t),
        Err(e) => if ask.pages.read().len() == ask.pages.bound() {
            t.gives(repos_json(ask.org@, ask.pages.read(), true))
        } else {
            t.fails(handlers::wire_error(e))
        },
    }
}

impl GroupPageAsk {
    pub fn url(&self, gl: &GitLab) -> (r: String)
        ensures
            r@ == gl.group_projects_address(self.group_id, self.pages.number()),
    {
        gl.group_projects(self.group_id, self.pages.page())
    }

    /// Projects as many as may be listed do without the page that would have shown whether
    /// there are more.
    pub fn resume(self, answer: ApiResult<Vec<Project>>) -> (t: Turn)
        ensures
            repos_answered(self, answer, t),
            t.follows(Turn::GroupPage(self)),
    {
        match answer {
            Ok(batch) => match self.pages.next(batch) {
                Paged::More(pages) => Turn::GroupPage(
                    GroupPageAsk { org: self.org, group_id: self.group_id, pages },
                ),
                Paged::Done(projects, truncated) => Turn::give(
                    repos_document(self.org.as_str(), &projects, truncated),
                ),
            },
            Err(e) => match self.pages.full() {
                Some(projects) => Turn::give(repos_document(self.org.as_str(), &projects, true)),
                None => Turn::fail(&e),
            },
        }
    }
}

// -- laws ------------------------------------------------------------------------------------

/// A group and the name of a project below it join to the project's path, subgroups
/// included.
pub proof fn names_rejoin(org: Seq<char>, path: Seq<char>)
    requires
        (org + "/"@).is_prefix_of(path),
    ensures
        org + "/"@ + name_in(org, path) == path,
{
    let prefix = org + "/"@;
    assert(prefix + path.skip(prefix.len() as int) == path);
}

/// No more than [`MATCH_CAP`] matches are given.
pub proof fn matches_are_bounded(projects: Seq<Project>, groups: Seq<Group>)
    ensures
        matches_json(projects, groups).member("items"@) matches Some(JsonView::Arr(items))
            && items.len() <= MATCH_CAP,
{
}

/// Pages of a group's projects were read one after the other, the first one as `ask` wanted
/// it, until their names were given.
pub open spec fn repos_listed(
    ask: GroupPageAsk,
    batches: Seq<Seq<Project>>,
    turns: Seq<Turn>,
) -> bool
    decreases batches.len(),
{
    &&& 0 < batches.len() == turns.len()
    &&& repos_continued(ask, batches[0], turns[0])
    &&& if batches.len() == 1 {
        turns[0] is Reply
    } else {
        turns[0] matches Turn::GroupPage(next) && repos_listed(
            next,
            batches.skip(1),
            turns.skip(1),
        )
    }
}

/// A group's projects are what their pages add up to under the cap.
pub proof fn repos_are_their_pages(
    ask: GroupPageAsk,
    batches: Seq<Seq<Project>>,
    turns: Seq<Turn>,
)
    requires
        repos_listed(ask, batches, turns),
    ensures
        paging::collect(ask.pages.read(), batches, ask.pages.bound()) matches Some(
            (projects, truncated),
        ) && turns.last().gives(repos_json(ask.org@, projects, truncated)),
    decreases batches.len(),
{
    if batches.len() > 1 {
        let next = turns[0]->GroupPage_0;
        repos_are_their_pages(next, batches.skip(1), turns.skip(1));
        assert(turns.skip(1).last() == turns.last());
    }
}

/// The matches are the projects by their full paths, in the server's order, and after them the
/// groups by theirs, up to 20 in all; a match says which of the two it is, and nothing else.
pub proof fn matches_are_projects_and_then_groups(projects: Seq<Project>, groups: Seq<Group>)
    ensures
        ({
            let j = matches_json(projects, groups);
            let items = (j.member("items"@)->0)->Arr_0;
            let all = projects.len() + groups.len();
            &&& j.member("items"@) == Some(JsonView::Arr(items))
            &&& j->Obj_0.dom() == set!["items"@]
            &&& items.len() == if all < 20 {
                all
            } else {
                20
            }
            &&& forall|i: int|
                0 <= i < items.len() ==> if i < projects.len() {
                    &&& (#[trigger] items[i]).member("full_name"@) == Some(
                        JsonView::Str(projects[i].path_with_namespace@),
                    )
                    &&& items[i]->Obj_0.dom() == set!["full_name"@]
                } else {
                    &&& items[i].member("org"@) == Some(
                        JsonView::Str(groups[i - projects.len()].full_path@),
                    )
                    &&& items[i]->Obj_0.dom() == set!["org"@]
                }
        }),
{
    let j = matches_json(projects, groups);
    let items = (j.member("items"@)->0)->Arr_0;
    assert(j->Obj_0.dom() =~= set!["items"@]);
    assert forall|i: int| 0 <= i < items.len() implies if i < projects.len() {
        &&& (#[trigger] items[i]).member("full_name"@) == Some(
            JsonView::Str(projects[i].path_with_namespace@),
        )
        &&& items[i]->Obj_0.dom() == set!["full_name"@]
    } else {
        &&& items[i].member("org"@) == Some(
            JsonView::Str(groups[i - projects.len()].full_path@),
        )
        &&& items[i]->Obj_0.dom() == set!["org"@]
    } by {
        if i < projects.len() {
            assert(items[i] == project_match(projects[i]));
            assert(items[i]->Obj_0.dom() =~= set!["full_name"@]);
        } else {
            assert(items[i] == group_match(groups[i - projects.len()]));
            assert(items[i]->Obj_0.dom() =~= set!["org"@]);
        }
    }
}

/// A search asks for projects and for groups by the same query. Without the projects it fails;
/// without the groups it gives the projects alone.
pub proof fn searches_join_projects_and_groups(
    ask: ProjectsAsk,
    answer: ApiResult<Vec<Project>>,
    t: Turn,
    then_groups: ApiResult<Vec<Group>>,
    after: Turn,
)
    requires
        projects_found(ask, answer, t),
        t is Groups ==> groups_found(t->Groups_0, then_groups, after),
    ensures
        answer matches Err(e) ==> t.fails(handlers::wire_error(e)),
        answer matches Ok(projects) ==> t matches Turn::Groups(next) && next.query == ask.query
            && next.projects == projects,
        answer is Ok && then_groups is Ok ==> after.gives(
            matches_json(answer->Ok_0@, then_groups->Ok_0@),
        ),
        answer is Ok && then_groups is Err ==> after.gives(matches_json(answer->Ok_0@, seq![])),
{
}

/// A project below a group is named by what follows the group and a slash, subgroups included; a
/// project elsewhere by its whole path, also where its path begins with the letters of the
/// group's.
pub proof fn names_are_what_follows_the_group(org: Seq<char>, name: Seq<char>, path: Seq<char>)
    ensures
        name_in(org, org + seq!['/'] + name) == name,
        !(org + seq!['/']).is_prefix_of(path) ==> name_in(org, path) == path,
{
    reveal_strlit("/");
    assert("/"@ =~= seq!['/']);
    let prefix = org + "/"@;
    let whole = org + seq!['/'] + name;
    assert(prefix =~= whole.take(prefix.len() as int));
    assert(whole.skip(prefix.len() as int) =~= name);
}

/// A group's projects are listed by their names in the server's order: all of them where they
/// are no more than 500, and else the first ones up to that; the listing is flagged just when
/// there are more, and has nothing else in it.
pub proof fn repos_hold_what_the_server_holds(
    org: String,
    group: Group,
    t: Turn,
    projects: Seq<Project>,
    batches: Seq<Seq<Project>>,
    turns: Seq<Turn>,
)
    requires
        repos_begun(org, group, t),
        repos_listed(t->GroupPage_0, batches, turns),
        paging::paged(projects, 100, batches),
    ensures
        t->GroupPage_0.group_id == group.id,
        ({
            let j = json::value_view(turns.last()->Reply_0.result->Ok_0);
            let items = (j.member("repos"@)->0)->Arr_0;
            &&& turns.last().gives(j)
            &&& j.member("repos"@) == Some(JsonView::Arr(items))
            &&& j.member("truncated"@) == Some(JsonView::Bool(projects.len() > 500))
            &&& j->Obj_0.dom() == set!["repos"@, "truncated"@]
            &&& items.len() == if projects.len() < 500 {
                projects.len()
            } else {
                500
            }
            &&& forall|i: int|
                0 <= i < items.len() ==> (#[trigger] items[i]) == JsonView::Str(
                    name_in(org@, projects[i].path_with_namespace@),
                )
        }),
{
    let ask = t->GroupPage_0;
    repos_are_their_pages(ask, batches, turns);
    paging::listings_hold_what_the_server_holds(seq![], projects, batches, ask.pages.bound());
    assert(Seq::<Project>::empty() + projects == projects);
    reveal_strlit("repos");
    reveal_strlit("truncated");
    assert("repos"@.len() != "truncated"@.len());
    let (given, truncated) = paging::collect(ask.pages.read(), batches, ask.pages.bound())->0;
    assert(repos_json(org@, given, truncated)->Obj_0.dom() =~= set!["repos"@, "truncated"@]);
    let items = given.map_values(|p: Project| JsonView::Str(name_in(org@, p.path_with_namespace@)));
    assert forall|i: int| 0 <= i < items.len() implies (#[trigger] items[i]) == JsonView::Str(
        name_in(org@, projects[i].path_with_namespace@),
    ) by {
        assert(given[i] == projects[i]);
    }
}

/// A page that cannot be had does no harm to a listing that has all the projects it may have: it
/// is given, as cut. Before that the client is told of the failure.
pub proof fn full_listings_do_without_a_page(
    ask: GroupPageAsk,
    e: crate::api::ApiError,
    t: Turn,
)
    requires
        repos_answered(ask, Err(e), t),
    ensures
        ask.pages.read().len() == ask.pages.bound() ==> t.gives(
            repos_json(ask.org@, ask.pages.read(), true),
        ),
        ask.pages.read().len() != ask.pages.bound() ==> t.fails(handlers::wire_error(e)),
{
}

/// The pages of a group's projects are read one after the other, from the first one on, and each
/// one adds its projects after those before it.
pub proof fn pages_are_read_one_after_the_other(
    org: String,
    group: Group,
    first: Turn,
    ask: GroupPageAsk,
    batch: Seq<Project>,
    t: Turn,
)
    requires
        repos_begun(org, group, first),
        repos_continued(ask, batch, t),
    ensures
        first matches Turn::GroupPage(start) && start.pages.number() == 1
            && start.pages.read().len() == 0 && start.pages.bound() == 500 && start.group_id
            == group.id && start.org == org,
        t matches Turn::GroupPage(next) ==> next.pages.number() == ask.pages.number() + 1
            && next.pages.read() == ask.pages.read() + batch && next.pages.bound()
            == ask.pages.bound() && next.group_id == ask.group_id && next.org == ask.org
            && batch.len() >= 100,
{
}

} // verus!
