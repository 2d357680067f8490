//! The protocol's methods. A request is carried out in turns: each one either replies or
//! waits for an answer, from the server or from the cache, and goes on from it. What a
//! turn wants to be known, and what it makes of the answer, stands with its method, in a
//! module of its own; this one holds what the methods share.

use serde_json::Value;
use vstd::prelude::*;
use vstd::string::*;

use crate::api::{ApiError, ApiResult, GitLab, Group, Project};
use crate::budget::BlobStat;
use crate::cache::{Cache, Root};
use crate::json::JsonView;
use crate::{api, json, text};

pub mod blame;
pub mod blob;
pub mod code;
pub mod initialize;
pub mod log;
pub mod refs;
pub mod search;
pub mod tree;
pub mod urls;

verus! {

// -- errors on the wire ----------------------------------------------------------------

/// An error as the client is told of it. Its meaning lies in the kind.
pub struct WireError {
    pub kind: &'static str,
    pub message: String,
    pub retry_after_s: Option<u64>,
}

/// The kind of an error that the server answered with.
pub open spec fn status_kind(status: u16) -> &'static str {
    if status == 401 || status == 403 {
        "auth"
    } else if status == 404 {
        "not_found"
    } else if status == 429 {
        "rate_limited"
    } else if status == 0 {
        "timeout"
    } else {
        "provider"
    }
}

/// The error that the client is told of.
pub open spec fn wire_error(e: ApiError) -> WireError {
    match e {
        ApiError::Api { status, message, retry_after } => WireError {
            kind: status_kind(status),
            message,
            retry_after_s: if status == 429 && retry_after is None {
                Some(30)
            } else {
                retry_after
            },
        },
        ApiError::Network(m) => WireError { kind: "network", message: m, retry_after_s: None },
    }
}

/// The document of an error.
pub open spec fn error_json(e: WireError) -> JsonView {
    JsonView::Obj(
        map![
            "code"@ => JsonView::Uint(1),
            "message"@ => JsonView::Str(e.message@),
            "data"@ => JsonView::Obj(match e.retry_after_s {
                Some(s) => map![
                    "kind"@ => JsonView::Str(e.kind@),
                    "retry_after_s"@ => JsonView::Uint(s),
                ],
                None => map!["kind"@ => JsonView::Str(e.kind@)],
            }),
        ],
    )
}

impl WireError {
    /// Throttling always comes with a time to wait, half a minute where the server set
    /// none.
    pub fn from_api(e: &ApiError) -> (r: WireError)
        ensures
            r == wire_error(*e),
    {
        match e {
            ApiError::Api { status, message, retry_after } => {
                let kind = match *status {
                    401 | 403 => "auth",
                    404 => "not_found",
                    429 => "rate_limited",
                    0 => "timeout",
                    _ => "provider",
                };
                let retry_after_s = match *retry_after {
                    Some(s) => Some(s),
                    None => if *status == 429 {
                        Some(30)
                    } else {
                        None
                    },
                };
                WireError { kind, message: message.clone(), retry_after_s }
            },
            ApiError::Network(m) => WireError {
                kind: "network",
                message: m.clone(),
                retry_after_s: None,
            },
        }
    }

    pub fn to_json(&self) -> (r: Value)
        ensures
            json::value_view(r) == error_json(*self),
    {
        let mut data = json::with(json::object(), "kind", json::string(self.kind));
        if let Some(s) = self.retry_after_s {
            data = json::with(data, "retry_after_s", json::uint(s));
        }
        let v = json::with(json::object(), "code", json::uint(1));
        let v = json::with(v, "message", json::string(self.message.as_str()));
        json::with(v, "data", data)
    }
}

impl From<ApiError> for WireError {
    fn from(e: ApiError) -> (r: WireError) {
        WireError::from_api(&e)
    }
}

impl vstd::std_specs::convert::FromSpecImpl<ApiError> for WireError {
    open spec fn obeys_from_spec() -> bool {
        true
    }

    open spec fn from_spec(e: ApiError) -> WireError {
        wire_error(e)
    }
}

// -- turns -----------------------------------------------------------------------------

pub type WireResult = Result<Value, WireError>;

/// The end of a request: what is sent before the reply, if anything, and the reply.
pub struct Reply {
    pub partial: Option<Value>,
    pub result: WireResult,
}

/// Something to be done to the cache.
pub enum Effect {
    StoreProject(Project),
    DropProject(String),
    StoreTree { sha: String, body: Vec<u8> },
    StoreBlob { sha: String, bytes: Vec<u8> },
}

/// Waits for the cached metadata of the project `repo`, to go on to a goal. What is found is
/// taken as it is, until the server misses something of the project.
pub struct CachedProjectAsk {
    pub repo: String,
    pub goal: Goal,
}

/// Waits for the metadata of the project `repo`. It is asked for again, once, where the
/// server does not know it.
pub struct ProjectAsk {
    pub repo: String,
    pub goal: Goal,
    pub retried: bool,
}

/// What a project is looked up for.
pub enum Goal {
    Tree { reference: Option<String> },
    Blob { sha: String },
    File { path: String, reference: Option<String> },
    Refs,
    Log { touching: Option<String>, reference: Option<String>, limit: Option<u64> },
    Blame { path: String, reference: Option<String> },
    CloneUrl,
    WebUrl { path: String, branch: String, line: Option<u64>, is_file: bool },
    Code(code::CodeSearch),
}

/// A project that stems from the cache: the path it was found under, and what it was looked
/// up for.
pub struct Origin {
    pub repo: String,
    pub goal: Goal,
}

/// Waits for the group `org`, to go on to a goal.
pub struct GroupAsk {
    pub org: String,
    pub goal: GroupGoal,
}

/// What a group is looked up for.
pub enum GroupGoal {
    Repos,
    Url,
    Code(code::CodeSearch),
}

/// Where a request stands.
pub enum Turn {
    Reply(Reply),
    Handshake(initialize::HandshakeAsk),
    Evict(initialize::EvictAsk),
    Measure(initialize::MeasureAsk),
    CachedProject(CachedProjectAsk),
    Project(ProjectAsk),
    Group(GroupAsk),
    Projects(search::ProjectsAsk),
    Groups(search::GroupsAsk),
    GroupPage(search::GroupPageAsk),
    Head(tree::HeadAsk),
    Tag(tree::TagAsk),
    CachedTree(tree::CachedTreeAsk),
    TreePage(tree::TreePageAsk),
    CachedBlob(blob::CachedBlobAsk),
    Blob(blob::BlobAsk),
    File(blob::FileAsk),
    BranchPage(refs::BranchPageAsk),
    TagPage(refs::TagPageAsk),
    Log(log::LogAsk),
    Blame(blame::BlameAsk),
    Hits(code::HitsAsk),
    Hit(code::HitAsk),
}

/// Where a request stands, and what is to be done to the cache before it goes on.
pub struct Step {
    pub effect: Option<Effect>,
    pub turn: Turn,
}

impl Turn {
    /// The reply is this document, and nothing comes before it.
    pub open spec fn gives(self, j: JsonView) -> bool {
        &&& self matches Turn::Reply(r)
        &&& r.partial is None
        &&& r.result matches Ok(v)
        &&& json::value_view(v) == j
    }

    /// The reply is this error, and nothing comes before it.
    pub open spec fn fails(self, e: WireError) -> bool {
        self == Turn::Reply(Reply { partial: None, result: Err(e) })
    }

    /// The reply is an error of this kind with this message, and nothing comes before it.
    pub open spec fn refuses(self, kind: &'static str, message: Seq<char>) -> bool {
        &&& self matches Turn::Reply(r)
        &&& r.partial is None
        &&& r.result matches Err(e)
        &&& e.kind == kind
        &&& e.message@ == message
        &&& e.retry_after_s is None
    }

    pub(crate) fn refuse(kind: &'static str, message: String) -> (r: Turn)
        ensures
            r.refuses(kind, message@),
    {
        Turn::Reply(
            Reply { partial: None, result: Err(WireError { kind, message, retry_after_s: None }) },
        )
    }

    pub(crate) fn give(v: Value) -> (r: Turn)
        ensures
            r.gives(json::value_view(v)),
    {
        Turn::Reply(Reply { partial: None, result: Ok(v) })
    }

    pub(crate) fn fail(e: &ApiError) -> (r: Turn)
        ensures
            r.fails(wire_error(*e)),
    {
        Turn::Reply(Reply { partial: None, result: Err(WireError::from_api(e)) })
    }
}

impl Turn {
    /// How far a request is from its reply: by the kinds of answers that are still to come,
    /// and by how much more the present kind can bring.
    pub open spec fn distance(self) -> (nat, nat) {
        match self {
            Turn::Reply(_) => (0, 0),
            Turn::Handshake(_) => (3, 0),
            Turn::Evict(ask) => (2, ask.state().pending().len()),
            Turn::Measure(_) => (1, 0),
            Turn::CachedProject(_) => (11, 0),
            Turn::Project(ask) => (if ask.retried {
                5
            } else {
                6
            }, 0),
            Turn::Group(_) => (3, 0),
            Turn::Projects(_) => (2, 0),
            Turn::Groups(_) => (1, 0),
            Turn::GroupPage(ask) => (1, missing(ask.pages.read().len(), ask.pages.bound())),
            Turn::Head(ask) => (4 + detour(ask.origin is Some), 0),
            Turn::Tag(ask) => (3 + detour(ask.origin is Some), 0),
            Turn::CachedTree(ask) => (2 + detour(ask.origin is Some), 0),
            Turn::TreePage(ask) => (
                1 + detour(ask.origin is Some),
                missing(ask.pages.read().len(), ask.pages.bound()),
            ),
            Turn::CachedBlob(_) => (12, 0),
            Turn::Blob(ask) => (1 + detour(ask.origin is Some), 0),
            Turn::File(ask) => (1 + detour(ask.origin is Some), 0),
            Turn::BranchPage(ask) => (
                2 + detour(ask.origin is Some),
                missing(ask.pages.read().len(), ask.pages.bound()),
            ),
            Turn::TagPage(ask) => (
                1 + detour(ask.origin is Some),
                missing(ask.pages.read().len(), ask.pages.bound()),
            ),
            Turn::Log(ask) => (
                1 + detour(ask.origin is Some),
                missing(ask.pages.read().len(), ask.pages.bound()),
            ),
            Turn::Blame(ask) => (1 + detour(ask.origin is Some), 0),
            Turn::Hits(ask) => (2 + detour(ask.cached_as is Some), 0),
            Turn::Hit(ask) => (1, ask.rest@.len()),
        }
    }

    /// The id under which something is, or may yet be, sent ahead of the reply.
    pub open spec fn ahead(self) -> Option<JsonView> {
        match self {
            Turn::Reply(r) => match r.partial {
                Some(batch) => Some(
                    match json::value_view(batch).member("id"@) {
                        Some(id) => id,
                        None => JsonView::Null,
                    },
                ),
                None => None,
            },
            Turn::CachedProject(ask) => ask.goal.ahead(),
            Turn::Project(ask) => ask.goal.ahead(),
            Turn::Group(ask) => match ask.goal {
                GroupGoal::Code(search) => maybe_view(search.stream),
                _ => None,
            },
            Turn::Head(ask) => origin_ahead(ask.origin),
            Turn::Tag(ask) => origin_ahead(ask.origin),
            Turn::CachedTree(ask) => origin_ahead(ask.origin),
            Turn::TreePage(ask) => origin_ahead(ask.origin),
            Turn::Blob(ask) => origin_ahead(ask.origin),
            Turn::File(ask) => origin_ahead(ask.origin),
            Turn::BranchPage(ask) => origin_ahead(ask.origin),
            Turn::TagPage(ask) => origin_ahead(ask.origin),
            Turn::Log(ask) => origin_ahead(ask.origin),
            Turn::Blame(ask) => origin_ahead(ask.origin),
            Turn::Hits(ask) => maybe_view(ask.search.stream),
            Turn::Hit(ask) => maybe_view(ask.stream),
            _ => None,
        }
    }

    /// This turn can come after another. It is nearer to the reply, so that a request ends;
    /// and nothing is sent ahead of the reply but what the request asked for, under its id.
    pub open spec fn follows(self, before: Turn) -> bool {
        let (kinds, more) = self.distance();
        let (kinds_before, more_before) = before.distance();
        &&& kinds < kinds_before || (kinds == kinds_before && more < more_before)
        &&& self.ahead() is None || self.ahead() == before.ahead()
    }
}

/// What an optional document holds.
pub open spec fn maybe_view(v: Option<Value>) -> Option<JsonView> {
    match v {
        Some(v) => Some(json::value_view(v)),
        None => None,
    }
}

/// How much farther a request is from its reply because a project that stems from the cache
/// may have to be asked for after all.
pub open spec fn detour(cached: bool) -> nat {
    if cached {
        6
    } else {
        0
    }
}

/// The id under which something may be sent ahead once the project is asked for after all.
pub open spec fn origin_ahead(origin: Option<Origin>) -> Option<JsonView> {
    match origin {
        Some(o) => o.goal.ahead(),
        None => None,
    }
}

/// How much is missing to a bound.
pub open spec fn missing(have: nat, bound: nat) -> nat {
    if have < bound {
        (bound - have) as nat
    } else {
        0
    }
}

// -- looking up ------------------------------------------------------------------------

impl Goal {
    /// The id under which something may yet be sent ahead of the reply.
    pub open spec fn ahead(self) -> Option<JsonView> {
        match self {
            Goal::Code(search) => maybe_view(search.stream),
            _ => None,
        }
    }

    /// The project that a goal was looked up for leads to this turn. It was found in the
    /// cache under the path `cached_as`, or got from the server.
    pub open spec fn leads(self, project: Project, cached_as: Option<String>, t: Turn) -> bool {
        let origin = origin_of(cached_as, self);
        match self {
            Goal::Tree { reference } => tree::begun(project, reference, origin, t),
            Goal::Blob { sha } => t == Turn::Blob(
                blob::BlobAsk { project_id: project.id, sha, origin },
            ),
            Goal::File { path, reference } => blob::file_begun(
                project,
                path,
                reference,
                origin,
                t,
            ),
            Goal::Refs => refs::begun(project, origin, t),
            Goal::Log { touching, reference, limit } => log::begun(
                project,
                touching,
                reference,
                limit,
                origin,
                t,
            ),
            Goal::Blame { path, reference } => blame::begun(project, path, reference, origin, t),
            Goal::CloneUrl => t.gives(urls::clone_json(project)),
            Goal::WebUrl { path, branch, line, is_file } => t.gives(
                urls::url_json(urls::web_address(project, path@, branch@, line, is_file)),
            ),
            Goal::Code(search) => code::in_project(project, search, cached_as, t),
        }
    }

    /// Goes on with the project.
    pub fn pursue(self, project: Project, cached_as: Option<String>) -> (t: Turn)
        ensures
            self.leads(project, cached_as, t),
            t.distance().0 < 5 + detour(cached_as is Some),
            t.ahead() is None || t.ahead() == self.ahead(),
    {
        match self {
            Goal::Tree { reference } => {
                let goal = Goal::Tree { reference: api::clone_text(&reference) };
                tree::begin(project, reference, origin(cached_as, goal))
            },
            Goal::Blob { sha } => {
                let origin = origin(cached_as, Goal::Blob { sha: sha.clone() });
                Turn::Blob(blob::BlobAsk { project_id: project.id, sha, origin })
            },
            Goal::File { path, reference } => {
                let goal = Goal::File {
                    path: path.clone(),
                    reference: api::clone_text(&reference),
                };
                blob::begin_file(&project, path, reference, origin(cached_as, goal))
            },
            Goal::Refs => refs::begin(project, origin(cached_as, Goal::Refs)),
            Goal::Log { touching, reference, limit } => {
                let goal = Goal::Log {
                    touching: api::clone_text(&touching),
                    reference: api::clone_text(&reference),
                    limit,
                };
                log::begin(&project, touching, reference, limit, origin(cached_as, goal))
            },
            Goal::Blame { path, reference } => {
                let goal = Goal::Blame {
                    path: path.clone(),
                    reference: api::clone_text(&reference),
                };
                blame::begin(&project, path, reference, origin(cached_as, goal))
            },
            Goal::CloneUrl => urls::clone_url(&project),
            Goal::WebUrl { path, branch, line, is_file } => urls::web_url(
                &project,
                path.as_str(),
                branch.as_str(),
                line,
                is_file,
            ),
            Goal::Code(search) => code::begin_in_project(&project, search, cached_as),
        }
    }
}

/// Where a project stems from: the cache, if it was found there.
pub open spec fn origin_of(cached_as: Option<String>, goal: Goal) -> Option<Origin> {
    match cached_as {
        Some(repo) => Some(Origin { repo, goal }),
        None => None,
    }
}

fn origin(cached_as: Option<String>, goal: Goal) -> (r: Option<Origin>)
    ensures
        r == origin_of(cached_as, goal),
{
    match cached_as {
        Some(repo) => Some(Origin { repo, goal }),
        None => None,
    }
}

/// What a failure leads to. Where something is missing of a project that stems from the
/// cache, that entry may be stale: it is dropped, and the project is asked for.
pub open spec fn failed(e: ApiError, origin: Option<Origin>, s: Step) -> bool {
    match origin {
        Some(o) if e.is_missing() => {
            &&& s.effect == Some(Effect::DropProject(o.repo))
            &&& s.turn == Turn::Project(
                ProjectAsk { repo: o.repo, goal: o.goal, retried: true },
            )
        },
        _ => s.effect is None && s.turn.fails(wire_error(e)),
    }
}

impl Step {
    /// Goes on without touching the cache.
    pub open spec fn goes(self, t: Turn) -> bool {
        self.effect is None && self.turn == t
    }

    pub(crate) fn go(turn: Turn) -> (r: Step)
        ensures
            r.goes(turn),
    {
        Step { effect: None, turn }
    }

    pub(crate) fn fail(e: &ApiError, origin: Option<Origin>) -> (r: Step)
        ensures
            failed(*e, origin, r),
    {
        match origin {
            Some(o) => if e.missing() {
                let effect = Some(Effect::DropProject(o.repo.clone()));
                let ask = ProjectAsk { repo: o.repo, goal: o.goal, retried: true };
                Step { effect, turn: Turn::Project(ask) }
            } else {
                Step::go(Turn::fail(e))
            },
            None => Step::go(Turn::fail(e)),
        }
    }
}

/// What the cache holds of a project leads to the goal, or to the server.
pub open spec fn recalled(ask: CachedProjectAsk, found: Option<Project>, t: Turn) -> bool {
    match found {
        Some(project) => ask.goal.leads(project, Some(ask.repo), t),
        None => t == Turn::Project(
            ProjectAsk { repo: ask.repo, goal: ask.goal, retried: false },
        ),
    }
}

impl CachedProjectAsk {
    /// Where the project's metadata lies, if there is a cache.
    pub fn location(&self, cache: &Cache) -> (r: Option<String>)
        ensures
            r is Some <==> cache.present(),
            r matches Some(l) ==> l@ == crate::cache::project_location(self.repo@),
    {
        cache.project(self.repo.as_str())
    }

    /// Goes on with the cached project, or asks the server for it.
    pub fn resume(self, found: Option<Project>) -> (t: Turn)
        ensures
            recalled(self, found, t),
            t.follows(Turn::CachedProject(self)),
    {
        match found {
            Some(project) => self.goal.pursue(project, Some(self.repo)),
            None => Turn::Project(ProjectAsk { repo: self.repo, goal: self.goal, retried: false }),
        }
    }
}

/// What the server's answer for a project leads to. A project that the server knows is
/// cached and gone on with. One that it does not know leaves the cache and is asked for
/// again, once; what is known then is gone on with, uncached.
pub open spec fn got(ask: ProjectAsk, answer: ApiResult<Project>, s: Step) -> bool {
    match answer {
        Ok(project) => {
            &&& s.effect == if ask.retried {
                None
            } else {
                Some(Effect::StoreProject(project))
            }
            &&& ask.goal.leads(project, None, s.turn)
        },
        Err(e) => if !ask.retried && e.is_missing() {
            &&& s.effect == Some(Effect::DropProject(ask.repo))
            &&& s.turn == Turn::Project(
                ProjectAsk { repo: ask.repo, goal: ask.goal, retried: true },
            )
        } else {
            &&& s.effect is None
            &&& s.turn.fails(wire_error(e))
        },
    }
}

impl ProjectAsk {
    pub fn url(&self, gl: &GitLab) -> (r: String)
        ensures
            r@ == gl.project_address(self.repo@),
    {
        gl.project(self.repo.as_str())
    }

    pub fn resume(self, answer: ApiResult<Project>) -> (s: Step)
        ensures
            got(self, answer, s),
            s.turn.follows(Turn::Project(self)),
    {
        match answer {
            Ok(project) => {
                let effect = if self.retried {
                    None
                } else {
                    Some(Effect::StoreProject(project.clone()))
                };
                Step { effect, turn: self.goal.pursue(project, None) }
            },
            Err(e) => if !self.retried && e.missing() {
                let effect = Some(Effect::DropProject(self.repo.clone()));
                Step {
                    effect,
                    turn: Turn::Project(
                        ProjectAsk { repo: self.repo, goal: self.goal, retried: true },
                    ),
                }
            } else {
                Step { effect: None, turn: Turn::fail(&e) }
            },
        }
    }
}

/// What the server's answer for a group leads to.
pub open spec fn group_got(ask: GroupAsk, answer: ApiResult<Group>, t: Turn) -> bool {
    match answer {
        Ok(group) => match ask.goal {
            GroupGoal::Repos => search::repos_begun(ask.org, group, t),
            GroupGoal::Url => t.gives(urls::url_json(group.web_url@)),
            GroupGoal::Code(search) => code::in_group(group, search, t),
        },
        Err(e) => t.fails(wire_error(e)),
    }
}

impl GroupAsk {
    pub fn url(&self, gl: &GitLab) -> (r: String)
        ensures
            r@ == gl.group_address(self.org@),
    {
        gl.group(self.org.as_str())
    }

    pub fn resume(self, answer: ApiResult<Group>) -> (t: Turn)
        ensures
            group_got(self, answer, t),
            t.follows(Turn::Group(self)),
    {
        match answer {
            Ok(group) => match self.goal {
                GroupGoal::Repos => search::begin_repos(self.org, &group),
                GroupGoal::Url => urls::org_url(&group),
                GroupGoal::Code(search) => code::begin_in_group(&group, search),
            },
            Err(e) => Turn::fail(&e),
        }
    }
}

// -- dispatch ----------------------------------------------------------------------------

/// A text parameter, empty where there is none.
pub open spec fn text_param(params: JsonView, key: Seq<char>) -> Seq<char> {
    match json::text_member(params, key) {
        Some(s) => s,
        None => ""@,
    }
}

fn text_of(params: &Value, key: &str) -> (r: String)
    ensures
        r@ == text_param(json::value_view(*params), key@),
{
    match json::text_of(params, key) {
        Some(s) => s.to_owned(),
        None => "".to_owned(),
    }
}

/// An optional text parameter: what is no text, and an empty one, count as absent.
pub open spec fn optional_param(params: JsonView, key: Seq<char>) -> Option<Seq<char>> {
    match json::text_member(params, key) {
        Some(s) => if s.len() > 0 {
            Some(s)
        } else {
            None
        },
        None => None,
    }
}

fn opt_str(params: &Value, key: &str) -> (r: Option<String>)
    ensures
        api::maybe_text(r) == optional_param(json::value_view(*params), key@),
{
    match json::text_of(params, key) {
        Some(s) => if s.is_empty() {
            None
        } else {
            Some(s.to_owned())
        },
        None => None,
    }
}

/// The goal that the project of the request's `repo` is looked up for, if it is.
pub open spec fn sought(t: Turn, params: JsonView) -> Option<Goal> {
    match t {
        Turn::CachedProject(ask) => if ask.repo@ == text_param(params, "repo"@) {
            Some(ask.goal)
        } else {
            None
        },
        _ => None,
    }
}

/// The code search that a turn is about, if it is about one.
pub open spec fn searched(t: Turn) -> Option<code::CodeSearch> {
    match t {
        Turn::CachedProject(ask) => match ask.goal {
            Goal::Code(search) => Some(search),
            _ => None,
        },
        Turn::Group(ask) => match ask.goal {
            GroupGoal::Code(search) => Some(search),
            _ => None,
        },
        Turn::Hits(ask) => Some(ask.search),
        _ => None,
    }
}

/// A code search is begun. Its hits are to be sent ahead of the reply, under an id, where
/// one is given.
pub open spec fn code_begun(t: Turn, q: Seq<char>, stream: Option<JsonView>) -> bool {
    &&& searched(t) matches Some(search)
    &&& code::spelled(search.query, text::words(q))
    &&& maybe_view(search.stream) == stream
    &&& code::scoped(search, t)
}

/// The turn that a request begins with, by its method and its parameters.
pub open spec fn dispatched(method: Seq<char>, params: JsonView, t: Turn) -> bool {
    if method == "initialize"@ {
        initialize::begun(params, t)
    } else if method == "search/repos"@ {
        t matches Turn::Projects(ask) && ask.query@ == text_param(params, "query"@)
    } else if method == "org/repos"@ {
        t matches Turn::Group(ask) && ask.org@ == text_param(params, "org"@) && ask.goal
            == GroupGoal::Repos
    } else if method == "repo/tree"@ {
        sought(t, params) matches Some(Goal::Tree { reference }) && api::maybe_text(reference)
            == optional_param(params, "ref"@)
    } else if method == "repo/blob"@ {
        t matches Turn::CachedBlob(ask) && ask.repo@ == text_param(params, "repo"@) && ask.sha@
            == text_param(params, "sha"@)
    } else if method == "repo/blob_at"@ {
        sought(t, params) matches Some(Goal::File { path, reference }) && path@ == text_param(
            params,
            "path"@,
        ) && api::maybe_text(reference) == optional_param(params, "ref"@)
    } else if method == "repo/refs"@ {
        sought(t, params) == Some(Goal::Refs)
    } else if method == "repo/log"@ {
        sought(t, params) matches Some(Goal::Log { touching, reference, limit })
            && api::maybe_text(touching) == optional_param(params, "path"@) && api::maybe_text(
            reference,
        ) == optional_param(params, "ref"@) && limit == json::uint_member(params, "limit"@)
    } else if method == "repo/blame"@ {
        sought(t, params) matches Some(Goal::Blame { path, reference }) && path@ == text_param(
            params,
            "path"@,
        ) && api::maybe_text(reference) == optional_param(params, "ref"@)
    } else if method == "repo/clone_url"@ {
        sought(t, params) == Some(Goal::CloneUrl)
    } else if method == "repo/web_url"@ {
        sought(t, params) matches Some(Goal::WebUrl { path, branch, line, is_file }) && path@
            == text_param(params, "path"@) && branch@ == text_param(params, "branch"@) && line
            == json::uint_member(params, "line"@) && is_file == (json::flag_member(
            params,
            "is_file"@,
        ) == Some(true))
    } else if method == "org/url"@ {
        t matches Turn::Group(ask) && ask.org@ == text_param(params, "org"@) && ask.goal
            == GroupGoal::Url
    } else if method == "search/code"@ {
        code_begun(t, text_param(params, "q"@), None)
    } else {
        t.refuses("provider", "unknown method "@ + text::quoted(method))
    }
}

/// A request wants its results as they come: only a code search can, and has to say so.
pub open spec fn streams(method: Seq<char>, params: JsonView) -> bool {
    method == "search/code"@ && json::flag_member(params, "partial"@) == Some(true)
}

/// The turn that a request with an id begins with: a code search that wants its results as they
/// come sends them ahead of the reply, under the id.
pub open spec fn dispatched_streaming(
    method: Seq<char>,
    params: JsonView,
    id: JsonView,
    t: Turn,
) -> bool {
    if streams(method, params) {
        code_begun(t, text_param(params, "q"@), Some(id))
    } else {
        dispatched(method, params, t)
    }
}

/// The provider: the server that it speaks to, and its cache.
pub struct Handler {
    pub gl: GitLab,
    pub cache: Cache,
}

impl Handler {
    /// A provider for an instance, with its cache at `base` or below the user's cache
    /// directory.
    pub fn new(instance: &str, token_env: &str, base: Root, user_cache: Root) -> (r: Handler)
        ensures
            r.gl.base() == text::strip_back(instance@, '/'),
            r.gl.variable() == token_env@,
            crate::cache::chosen(base, user_cache, r.cache.rooted()),
    {
        Handler { gl: GitLab::new(instance, token_env), cache: Cache::new(base, user_cache) }
    }

    fn seek(params: &Value, goal: Goal) -> (t: Turn)
        ensures
            sought(t, json::value_view(*params)) == Some(goal),
    {
        Turn::CachedProject(CachedProjectAsk { repo: text_of(params, "repo"), goal })
    }

    /// Begins a request whose results come all at once.
    pub fn dispatch(&self, method: &str, params: &Value) -> (t: Turn)
        ensures
            dispatched(method@, json::value_view(*params), t),
    {
        if text::same(method, "initialize") {
            initialize::begin(params)
        } else if text::same(method, "search/repos") {
            Turn::Projects(search::ProjectsAsk { query: text_of(params, "query") })
        } else if text::same(method, "org/repos") {
            Turn::Group(GroupAsk { org: text_of(params, "org"), goal: GroupGoal::Repos })
        } else if text::same(method, "repo/tree") {
            Handler::seek(params, Goal::Tree { reference: opt_str(params, "ref") })
        } else if text::same(method, "repo/blob") {
            Turn::CachedBlob(
                blob::CachedBlobAsk { repo: text_of(params, "repo"), sha: text_of(params, "sha") },
            )
        } else if text::same(method, "repo/blob_at") {
            let path = text_of(params, "path");
            Handler::seek(params, Goal::File { path, reference: opt_str(params, "ref") })
        } else if text::same(method, "repo/refs") {
            Handler::seek(params, Goal::Refs)
        } else if text::same(method, "repo/log") {
            let touching = opt_str(params, "path");
            let reference = opt_str(params, "ref");
            let limit = json::uint_of(params, "limit");
            Handler::seek(params, Goal::Log { touching, reference, limit })
        } else if text::same(method, "repo/blame") {
            let path = text_of(params, "path");
            Handler::seek(params, Goal::Blame { path, reference: opt_str(params, "ref") })
        } else if text::same(method, "repo/clone_url") {
            Handler::seek(params, Goal::CloneUrl)
        } else if text::same(method, "repo/web_url") {
            let path = text_of(params, "path");
            let branch = text_of(params, "branch");
            let line = json::uint_of(params, "line");
            let is_file = match json::flag_of(params, "is_file") {
                Some(flag) => flag,
                None => false,
            };
            Handler::seek(params, Goal::WebUrl { path, branch, line, is_file })
        } else if text::same(method, "org/url") {
            Turn::Group(GroupAsk { org: text_of(params, "org"), goal: GroupGoal::Url })
        } else if text::same(method, "search/code") {
            let query = code::parse_query(text_of(params, "q").as_str());
            code::begin(code::CodeSearch { query, stream: None })
        } else {
            let message = text::concat2("unknown method ", text::quote(method).as_str());
            Turn::refuse("provider", message)
        }
    }

    /// Begins a request. A code search that asks for it sends its hits ahead of the reply,
    /// under the id of the request; every other request is begun as by `dispatch`.
    pub fn dispatch_streaming(&self, method: &str, params: &Value, id: &Value) -> (t: Turn)
        ensures
            dispatched_streaming(
                method@,
                json::value_view(*params),
                json::value_view(*id),
                t,
            ),
    {
        let partial = match json::flag_of(params, "partial") {
            Some(flag) => flag,
            None => false,
        };
        if text::same(method, "search/code") && partial {
            let query = code::parse_query(text_of(params, "q").as_str());
            code::begin(code::CodeSearch { query, stream: Some(id.clone()) })
        } else {
            self.dispatch(method, params)
        }
    }
}

// -- laws ----------------------------------------------------------------------------------

/// Errors have the kinds of the protocol: refusals are `auth`, what is not there is
/// `not_found`, throttling is `rate_limited` and says how long to wait, what takes too long
/// is `timeout`, what cannot be reached is `network`, and all else is `provider`.
pub proof fn errors_have_the_kinds_of_the_protocol(e: ApiError)
    ensures
        match e {
            ApiError::Api { status, .. } => {
                let kind = wire_error(e).kind@;
                &&& status == 401 || status == 403 ==> kind == "auth"@
                &&& status == 404 ==> kind == "not_found"@
                &&& status == 429 ==> kind == "rate_limited"@ && wire_error(e).retry_after_s is Some
                &&& status == 0 ==> kind == "timeout"@
                &&& ![401u16, 403, 404, 429, 0]@.contains(status) ==> kind == "provider"@
            },
            ApiError::Network(_) => wire_error(e).kind@ == "network"@,
        },
{
    let known = [401u16, 403, 404, 429, 0]@;
    assert(known[0] == 401 && known[1] == 403 && known[2] == 404 && known[3] == 429 && known[4]
        == 0);
}

/// A request comes to its reply, whatever the answers that it gets on its way; and it sends
/// nothing ahead of the reply but under the id that it began with.
pub proof fn requests_come_to_a_reply(turns: spec_fn(nat) -> Turn, start: nat)
    requires
        forall|i: nat|
            (#[trigger] turns(i)) is Reply || turns((i + 1) as nat).follows(turns(i)),
    ensures
        exists|i: nat|
            i >= start && (#[trigger] turns(i)) is Reply && (turns(i).ahead() is None
                || turns(i).ahead() == turns(start).ahead()),
    decreases turns(start).distance().0, turns(start).distance().1,
{
    if !(turns(start) is Reply) {
        let next = (start + 1) as nat;
        assert(turns(next).follows(turns(start)));
        requests_come_to_a_reply(turns, next);
        let i = choose|i: nat|
            i >= next && (#[trigger] turns(i)) is Reply && (turns(i).ahead() is None
                || turns(i).ahead() == turns(next).ahead());
        assert(i >= start && turns(i) is Reply);
    }
}

/// A request that is begun whole is answered with its reply alone.
pub proof fn whole_requests_send_nothing_ahead(method: Seq<char>, params: JsonView, t: Turn)
    requires
        dispatched(method, params, t),
    ensures
        t.ahead() is None,
{
}

/// What a streamed search sends ahead of its reply carries the id of the request.
pub proof fn batches_carry_the_id_of_the_request(t: Turn, q: Seq<char>, id: JsonView)
    requires
        code_begun(t, q, Some(id)),
    ensures
        t.ahead() == Some(id),
{
}

/// A cached project that the server does not know any more leaves the cache, and the client
/// gets the server's answer.
pub proof fn stale_projects_leave_the_cache(
    e: ApiError,
    origin: Origin,
    s: Step,
    again: ApiResult<Project>,
    after: Step,
)
    requires
        failed(e, Some(origin), s),
        e.is_missing(),
        got(s.turn->Project_0, again, after),
    ensures
        s.effect == Some(Effect::DropProject(origin.repo)),
        s.turn->Project_0.repo == origin.repo,
        after.effect is None,
        match again {
            Ok(project) => origin.goal.leads(project, None, after.turn),
            Err(fresh) => after.turn.fails(wire_error(fresh)),
        },
{
}

/// A turn that waits for nothing from the server.
pub open spec fn stays_local(t: Turn) -> bool {
    t is Reply || t is Handshake || t is Evict || t is Measure
}

/// A handshake asks nothing of the server: it begins with the cache, and goes from there to
/// the removal of blobs, to the measuring and to the reply.
pub proof fn handshakes_ask_no_server(
    params: JsonView,
    begun: Turn,
    ask: initialize::HandshakeAsk,
    cache: Cache,
    sizes: Seq<u64>,
    blobs: Seq<BlobStat>,
    surveyed: Turn,
    evict: initialize::EvictAsk,
    removed: bool,
    evicted: Turn,
)
    requires
        dispatched("initialize"@, params, begun),
        initialize::surveyed(ask, cache, sizes, blobs, surveyed),
        initialize::evicted(evict, removed, evicted),
    ensures
        begun is Handshake,
        stays_local(surveyed),
        stays_local(evicted),
{
}

/// The client is told what the server said, in its words, and to wait as long as the server
/// said; half a minute where a server that throttles did not say how long, and not at all where
/// nothing was said.
pub proof fn errors_keep_their_words(e: ApiError)
    ensures
        e matches ApiError::Api { status, message, retry_after } ==> {
            &&& wire_error(e).message == message
            &&& retry_after is Some ==> wire_error(e).retry_after_s == retry_after
            &&& retry_after is None && status == 429 ==> wire_error(e).retry_after_s == Some(30u64)
            &&& retry_after is None && status != 429 ==> wire_error(e).retry_after_s is None
        },
        e matches ApiError::Network(m) ==> wire_error(e).message == m
            && wire_error(e).retry_after_s is None,
{
}

/// The document of an error has its message, a code, and its kind and the time to wait, where
/// there is one, under `data`; and nothing else.
pub proof fn errors_show_themselves(e: WireError)
    ensures
        ({
            let j = error_json(e);
            let data = j.member("data"@)->0;
            &&& j.member("code"@) == Some(JsonView::Uint(1))
            &&& j.member("message"@) == Some(JsonView::Str(e.message@))
            &&& j.member("data"@) == Some(data)
            &&& j->Obj_0.dom() == set!["code"@, "message"@, "data"@]
            &&& data.member("kind"@) == Some(JsonView::Str(e.kind@))
            &&& data.member("retry_after_s"@) == match e.retry_after_s {
                Some(s) => Some(JsonView::Uint(s)),
                None => None,
            }
            &&& data->Obj_0.dom() == if e.retry_after_s is Some {
                set!["kind"@, "retry_after_s"@]
            } else {
                set!["kind"@]
            }
        }),
{
    reveal_strlit("code");
    reveal_strlit("message");
    reveal_strlit("data");
    reveal_strlit("kind");
    reveal_strlit("retry_after_s");
    assert("code"@.len() == 4 && "data"@.len() == 4 && "message"@.len() == 7);
    assert("code"@[0] == 'c' && "data"@[0] == 'd');
    assert("kind"@.len() == 4 && "retry_after_s"@.len() == 13);
    let j = error_json(e);
    assert(j->Obj_0.dom() =~= set!["code"@, "message"@, "data"@]);
    let data = j.member("data"@)->0;
    assert(data->Obj_0.dom() =~= if e.retry_after_s is Some {
        set!["kind"@, "retry_after_s"@]
    } else {
        set!["kind"@]
    });
}

/// A failure is told to the client as it is, and leaves the cache alone, unless something is
/// missing of a project that stems from the cache: then the project is asked for once more, for
/// the same goal.
pub proof fn failures_are_told(e: ApiError, origin: Option<Origin>, s: Step)
    requires
        failed(e, origin, s),
    ensures
        ({
            let missing = e matches ApiError::Api { status, .. } && status == 404;
            &&& origin is None || !missing ==> s.effect is None && s.turn.fails(wire_error(e))
            &&& origin is Some && missing ==> {
                let o = origin->0;
                &&& s.effect == Some(Effect::DropProject(o.repo))
                &&& s.turn is Project
                &&& s.turn->Project_0.repo == o.repo
                &&& s.turn->Project_0.goal == o.goal
                &&& s.turn->Project_0.retried
            }
        }),
{
}

/// A project that is cached is gone on with as it is; one that is not is asked for by the path
/// that the client named, for the same goal.
pub proof fn projects_are_looked_for_in_the_cache(
    ask: CachedProjectAsk,
    found: Option<Project>,
    t: Turn,
)
    requires
        recalled(ask, found, t),
    ensures
        found matches Some(project) ==> ask.goal.leads(project, Some(ask.repo), t),
        found is None ==> t is Project && t->Project_0.repo == ask.repo && t->Project_0.goal
            == ask.goal && !t->Project_0.retried,
{
}

/// A project that the server knows is stored, unless it was asked for again, and gone on with
/// for its goal. One that it does not know is asked for a second time and no third, and leaves
/// the cache before that; any other failure is told at once.
pub proof fn projects_are_asked_for_twice_at_most(
    ask: ProjectAsk,
    answer: ApiResult<Project>,
    s: Step,
)
    requires
        got(ask, answer, s),
    ensures
        answer matches Ok(project) ==> {
            &&& ask.goal.leads(project, None, s.turn)
            &&& ask.retried ==> s.effect is None
            &&& !ask.retried ==> s.effect == Some(Effect::StoreProject(project))
        },
        answer matches Err(e) ==> {
            let missing = e matches ApiError::Api { status, .. } && status == 404;
            &&& ask.retried || !missing ==> s.effect is None && s.turn.fails(wire_error(e))
            &&& !ask.retried && missing ==> {
                &&& s.effect == Some(Effect::DropProject(ask.repo))
                &&& s.turn is Project
                &&& s.turn->Project_0.repo == ask.repo
                &&& s.turn->Project_0.goal == ask.goal
                &&& s.turn->Project_0.retried
            }
        },
{
}

/// The goal of a project is pursued with what the client asked for, in that project.
pub proof fn goals_are_pursued_in_the_project(
    goal: Goal,
    project: Project,
    cached_as: Option<String>,
    t: Turn,
)
    requires
        goal.leads(project, cached_as, t),
    ensures
        match goal {
            Goal::Tree { reference } => {
                &&& t is Head || t is CachedTree
                &&& t matches Turn::Head(ask) ==> ask.project == project
                &&& t matches Turn::CachedTree(ask) ==> ask.project_id == project.id
                    && reference is Some && ask.sha == reference->0
            },
            Goal::Blob { sha } => t matches Turn::Blob(ask) && ask.project_id == project.id
                && ask.sha == sha,
            Goal::File { path, .. } => t matches Turn::File(ask) && ask.project_id == project.id
                && ask.path == path,
            Goal::Refs => t matches Turn::BranchPage(ask) && ask.project_id == project.id,
            Goal::Log { touching, reference, .. } => t matches Turn::Log(ask) && ask.project_id
                == project.id && ask.path == touching && ask.reference == reference,
            Goal::Blame { path, .. } => t matches Turn::Blame(ask) && ask.project_id == project.id
                && ask.path == path,
            Goal::CloneUrl => t.gives(urls::clone_json(project)),
            Goal::WebUrl { path, branch, line, is_file } => t.gives(
                urls::url_json(urls::web_address(project, path@, branch@, line, is_file)),
            ),
            Goal::Code(search) => t matches Turn::Hits(ask) && ask.search == search
                && ask.cached_as == cached_as,
        },
        // A project that stems from the cache is remembered as such, with the goal.
        ({
            let origin = match cached_as {
                Some(repo) => Some(Origin { repo, goal }),
                None => None,
            };
            &&& t matches Turn::Head(ask) ==> ask.origin == origin
            &&& t matches Turn::CachedTree(ask) ==> ask.origin == origin
            &&& t matches Turn::Blob(ask) ==> ask.origin == origin
            &&& t matches Turn::File(ask) ==> ask.origin == origin
            &&& t matches Turn::BranchPage(ask) ==> ask.origin == origin
            &&& t matches Turn::Log(ask) ==> ask.origin == origin
            &&& t matches Turn::Blame(ask) ==> ask.origin == origin
        }),
{
}

/// A group that the server knows is gone on with for its goal, and a failure is told.
pub proof fn groups_are_gone_on_with(ask: GroupAsk, answer: ApiResult<Group>, t: Turn)
    requires
        group_got(ask, answer, t),
    ensures
        answer matches Err(e) ==> t.fails(wire_error(e)),
        answer matches Ok(group) ==> match ask.goal {
            GroupGoal::Repos => t is GroupPage && t->GroupPage_0.group_id == group.id
                && t->GroupPage_0.org == ask.org,
            GroupGoal::Url => t.gives(urls::url_json(group.web_url@)),
            GroupGoal::Code(search) => t is Hits && t->Hits_0.search == search,
        },
{
}

/// A text parameter is the text under its name, and empty where there is none or no text; an
/// optional one is absent there, and where it is empty.
pub proof fn parameters_are_texts(params: JsonView, key: Seq<char>)
    ensures
        params.member(key) matches Some(JsonView::Str(s)) ==> text_param(params, key) == s
            && optional_param(params, key) == if s.len() == 0 {
            None
        } else {
            Some(s)
        },
        !(params.member(key) matches Some(JsonView::Str(_))) ==> text_param(params, key) == ""@
            && optional_param(params, key) is None,
{
}

/// Each method that is about a project looks up the project under `repo`, for a goal of its own
/// with the parameters that it names.
pub proof fn methods_look_up_their_project(method: Seq<char>, params: JsonView, t: Turn)
    requires
        dispatched(method, params, t),
        ["repo/tree"@, "repo/blob_at"@, "repo/refs"@, "repo/log"@, "repo/blame"@,
            "repo/clone_url"@, "repo/web_url"@]@.contains(method),
    ensures
        t is CachedProject,
        t->CachedProject_0.repo@ == text_param(params, "repo"@),
        ({
            let goal = t->CachedProject_0.goal;
            &&& method == "repo/tree"@ ==> goal is Tree && api::maybe_text(goal->Tree_reference)
                == optional_param(params, "ref"@)
            &&& method == "repo/blob_at"@ ==> goal is File && goal->File_path@ == text_param(
                params,
                "path"@,
            ) && api::maybe_text(goal->File_reference) == optional_param(params, "ref"@)
            &&& method == "repo/refs"@ ==> goal is Refs
            &&& method == "repo/log"@ ==> goal is Log && api::maybe_text(goal->touching)
                == optional_param(params, "path"@) && api::maybe_text(goal->Log_reference)
                == optional_param(params, "ref"@) && goal->limit == match params.member(
                "limit"@,
            ) {
                Some(JsonView::Uint(n)) => Some(n),
                _ => None,
            }
            &&& method == "repo/blame"@ ==> goal is Blame && goal->Blame_path@ == text_param(
                params,
                "path"@,
            ) && api::maybe_text(goal->Blame_reference) == optional_param(params, "ref"@)
            &&& method == "repo/clone_url"@ ==> goal is CloneUrl
            &&& method == "repo/web_url"@ ==> goal is WebUrl && goal->WebUrl_path@ == text_param(
                params,
                "path"@,
            ) && goal->branch@ == text_param(params, "branch"@) && goal->line
                == match params.member("line"@) {
                Some(JsonView::Uint(n)) => Some(n),
                _ => None,
            } && goal->is_file == (params.member("is_file"@) == Some(JsonView::Bool(true)))
        }),
{
    methods_have_names_of_their_own();
    let known = ["repo/tree"@, "repo/blob_at"@, "repo/refs"@, "repo/log"@, "repo/blame"@,
        "repo/clone_url"@, "repo/web_url"@]@;
    let k = choose|k: int| 0 <= k < known.len() && known[k] == method;
    assert(known[k] == method && 0 <= k < 7);
    assert(known[0] == "repo/tree"@ && known[1] == "repo/blob_at"@ && known[2] == "repo/refs"@
        && known[3] == "repo/log"@ && known[4] == "repo/blame"@ && known[5] == "repo/clone_url"@
        && known[6] == "repo/web_url"@);
}

/// Each of the other methods begins with what it is about, by the parameters that it names; a
/// method that is none of them is refused by its name.
pub proof fn methods_begin_with_their_subject(method: Seq<char>, params: JsonView, t: Turn)
    requires
        dispatched(method, params, t),
    ensures
        method == "initialize"@ ==> t is Handshake,
        method == "search/repos"@ ==> t is Projects && t->Projects_0.query@ == text_param(
            params,
            "query"@,
        ),
        method == "org/repos"@ ==> t is Group && t->Group_0.org@ == text_param(params, "org"@)
            && t->Group_0.goal is Repos,
        method == "org/url"@ ==> t is Group && t->Group_0.org@ == text_param(params, "org"@)
            && t->Group_0.goal is Url,
        method == "repo/blob"@ ==> t is CachedBlob && t->CachedBlob_0.repo@ == text_param(
            params,
            "repo"@,
        ) && t->CachedBlob_0.sha@ == text_param(params, "sha"@),
        method == "search/code"@ ==> searched(t) is Some && searched(t)->0.stream is None
            && code::spelled(searched(t)->0.query, text::words(text_param(params, "q"@)))
            && code::scoped(searched(t)->0, t),
        !["initialize"@, "search/repos"@, "org/repos"@, "org/url"@, "repo/blob"@, "search/code"@,
            "repo/tree"@, "repo/blob_at"@, "repo/refs"@, "repo/log"@, "repo/blame"@,
            "repo/clone_url"@, "repo/web_url"@]@.contains(method) ==> t.refuses(
            "provider",
            "unknown method "@ + text::quoted(method),
        ),
{
    methods_have_names_of_their_own();
    let known = ["initialize"@, "search/repos"@, "org/repos"@, "org/url"@, "repo/blob"@,
        "search/code"@, "repo/tree"@, "repo/blob_at"@, "repo/refs"@, "repo/log"@, "repo/blame"@,
        "repo/clone_url"@, "repo/web_url"@]@;
    assert(known[0] == "initialize"@ && known[1] == "search/repos"@ && known[2] == "org/repos"@
        && known[3] == "org/url"@ && known[4] == "repo/blob"@ && known[5] == "search/code"@
        && known[6] == "repo/tree"@ && known[7] == "repo/blob_at"@ && known[8] == "repo/refs"@
        && known[9] == "repo/log"@ && known[10] == "repo/blame"@ && known[11]
        == "repo/clone_url"@ && known[12] == "repo/web_url"@);
}

proof fn methods_have_names_of_their_own()
    ensures
        "initialize"@.len() == 10,
        "search/repos"@.len() == 12,
        "org/repos"@.len() == 9,
        "org/url"@.len() == 7,
        "repo/blob"@.len() == 9,
        "search/code"@.len() == 11,
        "repo/tree"@.len() == 9,
        "repo/blob_at"@.len() == 12,
        "repo/refs"@.len() == 9,
        "repo/log"@.len() == 8,
        "repo/blame"@.len() == 10,
        "repo/clone_url"@.len() == 14,
        "repo/web_url"@.len() == 12,
        "initialize"@[0] == 'i',
        "repo/blame"@[0] == 'r',
        "search/repos"@[0] == 's',
        "repo/blob_at"@[0] == 'r',
        "repo/web_url"@[0] == 'r',
        "repo/blob_at"@[5] == 'b',
        "repo/web_url"@[5] == 'w',
        "org/repos"@[0] == 'o',
        "repo/blob"@[0] == 'r',
        "repo/tree"@[0] == 'r',
        "repo/refs"@[0] == 'r',
        "repo/blob"@[5] == 'b',
        "repo/tree"@[5] == 't',
        "repo/refs"@[5] == 'r',
{
    reveal_strlit("initialize");
    reveal_strlit("search/repos");
    reveal_strlit("org/repos");
    reveal_strlit("org/url");
    reveal_strlit("repo/blob");
    reveal_strlit("search/code");
    reveal_strlit("repo/tree");
    reveal_strlit("repo/blob_at");
    reveal_strlit("repo/refs");
    reveal_strlit("repo/log");
    reveal_strlit("repo/blame");
    reveal_strlit("repo/clone_url");
    reveal_strlit("repo/web_url");
}

/// A code search with `partial` set sends its hits ahead, under the id of the request; without
/// it, and with any other method, nothing is sent ahead.
pub proof fn only_partial_searches_stream(
    method: Seq<char>,
    params: JsonView,
    id: JsonView,
    t: Turn,
)
    requires
        dispatched_streaming(method, params, id, t),
    ensures
        ({
            let partial = method == "search/code"@ && params.member("partial"@) == Some(
                JsonView::Bool(true),
            );
            &&& partial ==> t.ahead() == Some(id) && searched(t) is Some && code::spelled(
                searched(t)->0.query,
                text::words(text_param(params, "q"@)),
            ) && code::scoped(searched(t)->0, t)
            &&& !partial ==> t.ahead() is None && dispatched(method, params, t)
        }),
{
    if !streams(method, params) {
        whole_requests_send_nothing_ahead(method, params, t);
    }
}

/// A turn that gives a document, fails with an error or refuses with a message is a reply of just
/// that, and nothing is sent before it.
pub proof fn replies_are_what_they_give(
    t: Turn,
    j: JsonView,
    e: WireError,
    kind: &'static str,
    message: Seq<char>,
)
    ensures
        t.gives(j) || t.fails(e) || t.refuses(kind, message) ==> t is Reply
            && t->Reply_0.partial is None,
        t.gives(j) ==> t->Reply_0.result is Ok && json::value_view(t->Reply_0.result->Ok_0) == j,
        t.fails(e) ==> t->Reply_0.result == Err::<Value, WireError>(e),
        t.refuses(kind, message) ==> t->Reply_0.result is Err && t->Reply_0.result->Err_0.kind
            == kind && t->Reply_0.result->Err_0.message@ == message
            && t->Reply_0.result->Err_0.retry_after_s is None,
{
}

/// A step that goes on without touching the cache goes just where it says.
pub proof fn steps_go_where_they_say(s: Step, t: Turn)
    ensures
        s.goes(t) <==> s.effect is None && s.turn == t,
{
}

/// An optional document holds what it holds, and nothing where there is none.
pub proof fn optional_documents_hold_what_they_hold(v: Option<Value>)
    ensures
        v is Some <==> maybe_view(v) is Some,
        v matches Some(x) ==> maybe_view(v) == Some(json::value_view(x)),
{
}

} // verus!
