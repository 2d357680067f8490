//! `repo/log`: the commits of a project, newest first, under a limit.

use serde_json::Value;
use vstd::prelude::*;
use vstd::string::*;

use crate::api::{ApiResult, Commit, GitLab, Project, LOG_DEFAULT_LIMIT, LOG_MAX_LIMIT};
use crate::handlers::{Origin, Step, Turn};
use crate::json::JsonView;
use crate::paging::{LogPages, Logged};
use crate::{api, handlers, json, paging};

verus! {

/// Waits for a page of a project's commits, those that touched `path` and those that lead
/// to `reference` where they are given.
pub struct LogAsk {
    pub project_id: u64,
    pub path: Option<String>,
    pub reference: Option<String>,
    pub pages: LogPages<Commit>,
    pub origin: Option<Origin>,
}

/// How many commits a limit allows: at least one and at most [`LOG_MAX_LIMIT`], and
/// [`LOG_DEFAULT_LIMIT`] where none is set.
pub open spec fn wanted(limit: Option<u64>) -> nat {
    match limit {
        None => LOG_DEFAULT_LIMIT as nat,
        Some(n) => if n < 1 {
            1
        } else if n > LOG_MAX_LIMIT {
            LOG_MAX_LIMIT as nat
        } else {
            n as nat
        },
    }
}

pub fn want(limit: Option<u64>) -> (r: usize)
    ensures
        r == wanted(limit),
        1 <= r <= LOG_MAX_LIMIT,
{
    match limit {
        None => LOG_DEFAULT_LIMIT,
        Some(n) => if n < 1 {
            1
        } else if n > LOG_MAX_LIMIT as u64 {
            LOG_MAX_LIMIT
        } else {
            n as usize
        },
    }
}

/// A project's log is read from its first page on.
pub open spec fn begun(
    project: Project,
    path: Option<String>,
    reference: Option<String>,
    limit: Option<u64>,
    origin: Option<Origin>,
    t: Turn,
) -> bool {
    &&& t matches Turn::Log(ask)
    &&& ask.project_id == project.id
    &&& ask.path == path
    &&& ask.reference == reference
    &&& ask.pages.read() == Seq::<Commit>::empty()
    &&& ask.pages.number() == 1
    &&& ask.pages.bound() == wanted(limit)
    &&& ask.origin == origin
}

pub fn begin(
    project: &Project,
    path: Option<String>,
    reference: Option<String>,
    limit: Option<u64>,
    origin: Option<Origin>,
) -> (t: Turn)
    ensures
        begun(*project, path, reference, limit, origin, t),
{
    let pages = LogPages::new(want(limit));
    Turn::Log(LogAsk { project_id: project.id, path, reference, pages, origin })
}

/// The document of a commit. Its subject is the title.
pub open spec fn commit_json(c: Commit) -> JsonView {
    JsonView::Obj(
        map![
            "sha"@ => JsonView::Str(c.id@),
            "subject"@ => JsonView::Str(api::text_or(c.title, ""@)),
            "author"@ => JsonView::Str(api::text_or(c.author_name, ""@)),
            "date"@ => JsonView::Str(api::text_or(c.committed_date, ""@)),
        ],
    )
}

/// The document of a log.
pub open spec fn log_json(commits: Seq<Commit>, truncated: bool) -> JsonView {
    JsonView::Obj(
        map![
            "items"@ => JsonView::Arr(commits.map_values(|c: Commit| commit_json(c))),
            "truncated"@ => JsonView::Bool(truncated),
        ],
    )
}

fn commit_document(c: &Commit) -> (v: Value)
    ensures
        json::value_view(v) == commit_json(*c),
{
    let v = json::with(json::object(), "sha", json::string(c.id.as_str()));
    let v = json::with(v, "subject", json::string(api::or_text(&c.title, "").as_str()));
    let v = json::with(v, "author", json::string(api::or_text(&c.author_name, "").as_str()));
    json::with(v, "date", json::string(api::or_text(&c.committed_date, "").as_str()))
}

fn log_document(commits: &Vec<Commit>, truncated: bool) -> (v: Value)
    ensures
        json::value_view(v) == log_json(commits@, truncated),
{
    let ghost all = commits@.map_values(|c: Commit| commit_json(c));
    let mut items: Vec<Value> = Vec::new();
    let mut i: usize = 0;
    while i < commits.len()
        invariant
            i <= commits@.len(),
            all == commits@.map_values(|c: Commit| commit_json(c)),
            json::values_view(items@) == all.take(i as int),
        decreases commits@.len() - i,
    {
        json::push(&mut items, commit_document(&commits[i]));
        assert(all.take(i + 1) == all.take(i as int).push(all[i as int]));
        i = i + 1;
    }
    assert(all.take(i as int) == all);
    let v = json::with(json::object(), "items", json::list(items));
    json::with(v, "truncated", json::flag(truncated))
}

/// What a page makes of a log: another page is to be read, or the log is given.
pub open spec fn continued(ask: LogAsk, batch: Seq<Commit>, s: Step) -> bool {
    match paging::log_step(ask.pages.read(), batch, ask.pages.bound()) {
        None => {
            &&& s.effect is None
            &&& s.turn matches Turn::Log(next)
            &&& next.project_id == ask.project_id
            &&& next.path == ask.path
            &&& next.reference == ask.reference
            &&& next.pages.read() == ask.pages.read() + batch
            &&& next.pages.number() == ask.pages.number() + 1
            &&& next.pages.bound() == ask.pages.bound()
            &&& next.origin == ask.origin
        },
        Some((commits, truncated)) => s.effect is None && s.turn.gives(
            log_json(commits, truncated),
        ),
    }
}

/// What the answer to a page leads to.
pub open spec fn answered(ask: LogAsk, answer: ApiResult<Vec<Commit>>, s: Step) -> bool {
    match answer {
        Ok(batch) => continued(ask, batch@, s),
        Err(e) => handlers::failed(e, ask.origin, s),
    }
}

impl LogAsk {
    pub fn url(&self, gl: &GitLab) -> (r: String)
        ensures
            r@ == gl.commit_log_address(
                self.project_id,
                api::maybe_text(self.path),
                api::maybe_text(self.reference),
                paging::log_page_size(self.pages.bound()),
                self.pages.number(),
            ),
    {
        let path = match &self.path {
            Some(p) => Some(p.as_str()),
            None => None,
        };
        let reference = match &self.reference {
            Some(r) => Some(r.as_str()),
            None => None,
        };
        gl.commit_log(self.project_id, path, reference, self.pages.per_page(), self.pages.page())
    }

    pub fn resume(self, answer: ApiResult<Vec<Commit>>) -> (s: Step)
        ensures
            answered(self, answer, s),
            s.turn.follows(Turn::Log(self)),
    {
        let batch = match answer {
            Ok(batch) => batch,
            Err(e) => return Step::fail(&e, self.origin),
        };
        match self.pages.next(batch) {
            Logged::More(pages) => Step::go(
                Turn::Log(
                    LogAsk {
                        project_id: self.project_id,
                        path: self.path,
                        reference: self.reference,
                        pages,
                        origin: self.origin,
                    },
                ),
            ),
            Logged::Done(commits, truncated) => Step::go(
                Turn::give(log_document(&commits, truncated)),
            ),
        }
    }
}

// -- laws ------------------------------------------------------------------------------------

/// Pages of a log were read one after the other, the first one as `ask` wanted it, until the
/// log was given.
pub open spec fn listed(ask: LogAsk, batches: Seq<Seq<Commit>>, steps: Seq<Step>) -> bool
    decreases batches.len(),
{
    &&& 0 < batches.len() == steps.len()
    &&& continued(ask, batches[0], steps[0])
    &&& if batches.len() == 1 {
        steps[0].turn is Reply
    } else {
        steps[0].turn matches Turn::Log(next) && listed(next, batches.skip(1), steps.skip(1))
    }
}

/// A log is what its pages add up to under the limit.
pub proof fn logs_are_their_pages(ask: LogAsk, batches: Seq<Seq<Commit>>, steps: Seq<Step>)
    requires
        listed(ask, batches, steps),
    ensures
        paging::collect_log(ask.pages.read(), batches, ask.pages.bound()) matches Some(
            (commits, truncated),
        ) && steps.last().turn.gives(log_json(commits, truncated)),
    decreases batches.len(),
{
    if batches.len() > 1 {
        let next = steps[0].turn->Log_0;
        logs_are_their_pages(next, batches.skip(1), steps.skip(1));
        assert(steps.skip(1).last() == steps.last());
    }
}

/// A limit from 1 to [`LOG_MAX_LIMIT`] is the number of commits wanted. A larger one counts as
/// [`LOG_MAX_LIMIT`] and 0 as 1, and [`LOG_DEFAULT_LIMIT`] commits are wanted where none is set.
pub proof fn limits_are_kept(n: u64)
    ensures
        1 <= n <= LOG_MAX_LIMIT ==> wanted(Some(n)) == n,
        n > LOG_MAX_LIMIT ==> wanted(Some(n)) == LOG_MAX_LIMIT,
        n == 0 ==> wanted(Some(n)) == 1,
        wanted(None) == LOG_DEFAULT_LIMIT,
        LOG_DEFAULT_LIMIT == 500 && LOG_MAX_LIMIT == 1000,
{
}

/// More is never wanted under a smaller limit.
pub proof fn limits_grow_together(n: u64, m: u64)
    requires
        n <= m,
    ensures
        wanted(Some(n)) <= wanted(Some(m)),
        n < m && 1 <= n < LOG_MAX_LIMIT ==> wanted(Some(n)) < wanted(Some(m)),
{
}

/// The document of a commit has its id, the first line of its message, its author and its date,
/// each empty where the server leaves it out, and nothing else.
pub proof fn commits_show_themselves(c: Commit)
    ensures
        commit_json(c).member("sha"@) == Some(JsonView::Str(c.id@)),
        commit_json(c).member("subject"@) == Some(
            JsonView::Str(
                match c.title {
                    Some(s) => s@,
                    None => ""@,
                },
            ),
        ),
        commit_json(c).member("author"@) == Some(
            JsonView::Str(
                match c.author_name {
                    Some(s) => s@,
                    None => ""@,
                },
            ),
        ),
        commit_json(c).member("date"@) == Some(
            JsonView::Str(
                match c.committed_date {
                    Some(s) => s@,
                    None => ""@,
                },
            ),
        ),
        commit_json(c)->Obj_0.dom() == set!["sha"@, "subject"@, "author"@, "date"@],
{
    reveal_strlit("sha");
    reveal_strlit("subject");
    reveal_strlit("author");
    reveal_strlit("date");
    assert("sha"@.len() == 3 && "subject"@.len() == 7 && "author"@.len() == 6 && "date"@.len()
        == 4);
}

/// A log holds the first commits that the server has, in its order: all of them where they are
/// no more than the limit allows, and else just as many as it allows. It is flagged just when
/// there are more.
pub proof fn logs_hold_the_first_commits(
    project: Project,
    path: Option<String>,
    reference: Option<String>,
    limit: Option<u64>,
    origin: Option<Origin>,
    t: Turn,
    commits: Seq<Commit>,
    batches: Seq<Seq<Commit>>,
    steps: Seq<Step>,
)
    requires
        begun(project, path, reference, limit, origin, t),
        listed(t->Log_0, batches, steps),
        ({
            let n = match limit {
                None => 500,
                Some(n) => if n == 0 {
                    1
                } else if n <= 1000 {
                    n as int
                } else {
                    1000
                },
            };
            paging::paged(
                commits,
                if n < 100 {
                    (n + 1) as nat
                } else {
                    100
                },
                batches,
            )
        }),
    ensures
        ({
            let n = match limit {
                None => 500,
                Some(n) => if n == 0 {
                    1
                } else if n <= 1000 {
                    n as int
                } else {
                    1000
                },
            };
            let j = json::value_view(steps.last().turn->Reply_0.result->Ok_0);
            let items = (j.member("items"@)->0)->Arr_0;
            &&& steps.last().turn.gives(j)
            &&& j.member("items"@) == Some(JsonView::Arr(items))
            &&& j.member("truncated"@) == Some(JsonView::Bool(commits.len() > n))
            &&& j->Obj_0.dom() == set!["items"@, "truncated"@]
            &&& items.len() == if commits.len() < n {
                commits.len() as int
            } else {
                n
            }
            &&& forall|i: int|
                0 <= i < items.len() ==> (#[trigger] items[i]) == commit_json(commits[i])
        }),
{
    let ask = t->Log_0;
    logs_are_their_pages(ask, batches, steps);
    paging::logs_hold_what_the_server_holds(seq![], commits, batches, ask.pages.bound());
    assert(Seq::<Commit>::empty() + commits == commits);
    reveal_strlit("items");
    reveal_strlit("truncated");
    assert("items"@.len() != "truncated"@.len());
    let (given, truncated) = paging::collect_log(
        ask.pages.read(),
        batches,
        ask.pages.bound(),
    )->0;
    let items = given.map_values(|c: Commit| commit_json(c));
    assert forall|i: int| 0 <= i < items.len() implies (#[trigger] items[i]) == commit_json(
        commits[i],
    ) by {
        assert(given[i] == commits[i]);
    }
}

/// A log is read of the project that was looked up, along the path and up to the revision that
/// the client named, from the first page on; and it stays so from page to page.
pub proof fn logs_are_read_as_asked(
    project: Project,
    path: Option<String>,
    reference: Option<String>,
    limit: Option<u64>,
    origin: Option<Origin>,
    t: Turn,
    answer: ApiResult<Vec<Commit>>,
    s: Step,
)
    requires
        begun(project, path, reference, limit, origin, t),
        answered(t->Log_0, answer, s),
    ensures
        t matches Turn::Log(ask) && ask.project_id == project.id && ask.path == path
            && ask.reference == reference && ask.origin == origin && ask.pages.number() == 1,
        s.turn matches Turn::Log(next) ==> next.project_id == project.id && next.path == path
            && next.reference == reference && next.origin == origin && next.pages.number() == 2
            && next.pages.bound() == wanted(limit) && next.pages.read() == answer->Ok_0@,
        s.effect is Some ==> answer is Err && origin is Some,
        answer is Err && origin is None ==> s.turn.fails(handlers::wire_error(
            answer->Err_0,
        )),
        answer matches Err(e) ==> handlers::failed(e, origin, s),
{
    if let Ok(batch) = answer {
        assert(t->Log_0.pages.read() + batch@ == batch@);
    }
}

/// The pages of a log are read one after the other, along one path and up to one revision, as
/// long as they are full: as large as was asked for.
pub proof fn pages_are_read_one_after_the_other(ask: LogAsk, batch: Seq<Commit>, s: Step)
    requires
        continued(ask, batch, s),
        s.turn is Log,
    ensures
        ({
            let next = s.turn->Log_0;
            &&& next.pages.number() == ask.pages.number() + 1
            &&& next.pages.read() == ask.pages.read() + batch
            &&& next.pages.bound() == ask.pages.bound()
            &&& next.project_id == ask.project_id
            &&& next.path == ask.path
            &&& next.reference == ask.reference
            &&& next.origin == ask.origin
            &&& s.effect is None
            &&& batch.len() > ask.pages.bound() || batch.len() >= 100
        }),
{
}

} // verus!
