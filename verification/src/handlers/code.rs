//! `search/code`: a query in the client's grammar, carried out by the server's blob search.
//! The qualifiers `repo:` and `org:` choose where the server searches, `path:` and
//! `extension:` choose among what it finds, and all else are search terms.

use serde_json::Value;
use vstd::prelude::*;
use vstd::seq_lib::*;
use vstd::string::*;

use crate::api::{ApiResult, BlobHit, GitLab, Group, Project};
use crate::handlers::{
    CachedProjectAsk, Effect, Goal, GroupAsk, GroupGoal, Origin, Reply, Step, Turn,
};
use crate::json::JsonView;
use crate::{api, handlers, json, text};

verus! {

// -- the grammar -----------------------------------------------------------------------------

/// A query, taken apart.
pub struct CodeQuery {
    pub repo: Option<String>,
    pub org: Option<String>,
    pub path: Option<String>,
    pub extension: Option<String>,
    pub terms: Vec<String>,
}

/// The keys that the grammar knows.
pub open spec fn known_key(key: Seq<char>) -> bool {
    key == "repo"@ || key == "org"@ || key == "path"@ || key == "extension"@
}

/// The key and the value of a token that is a qualifier: what stands before and after its
/// first colon, where the key is known.
pub open spec fn qualifier(token: Seq<char>) -> Option<(Seq<char>, Seq<char>)> {
    match text::cut(token, ':') {
        Some((key, value)) => if known_key(key) {
            Some((key, value))
        } else {
            None
        },
        None => None,
    }
}

/// The value of the last qualifier with this key.
pub open spec fn last_value(tokens: Seq<Seq<char>>, key: Seq<char>) -> Option<Seq<char>>
    decreases tokens.len(),
{
    if tokens.len() == 0 {
        None
    } else {
        match qualifier(tokens.last()) {
            Some((k, value)) => if k == key {
                Some(value)
            } else {
                last_value(tokens.drop_last(), key)
            },
            None => last_value(tokens.drop_last(), key),
        }
    }
}

/// The tokens that are no qualifiers, in their order.
pub open spec fn free_terms(tokens: Seq<Seq<char>>) -> Seq<Seq<char>> {
    tokens.filter(|t: Seq<char>| qualifier(t) is None)
}

/// An extension without the dots before it.
pub open spec fn bare(extension: Option<Seq<char>>) -> Option<Seq<char>> {
    match extension {
        Some(e) => Some(text::strip_front(e, '.')),
        None => None,
    }
}

/// The query that tokens spell.
pub open spec fn spelled(q: CodeQuery, tokens: Seq<Seq<char>>) -> bool {
    &&& api::maybe_text(q.repo) == last_value(tokens, "repo"@)
    &&& api::maybe_text(q.org) == last_value(tokens, "org"@)
    &&& api::maybe_text(q.path) == last_value(tokens, "path"@)
    &&& api::maybe_text(q.extension) == bare(last_value(tokens, "extension"@))
    &&& text::texts(q.terms@) == free_terms(tokens)
}

pub fn parse_query(q: &str) -> (r: CodeQuery)
    ensures
        spelled(r, text::words(q@)),
{
    let tokens = text::split_whitespace(q);
    let mut query = CodeQuery {
        repo: None,
        org: None,
        path: None,
        extension: None,
        terms: Vec::new(),
    };
    proof {
        reveal(Seq::filter);
        assert(text::texts(query.terms@) == free_terms(seq![]));
        assert(text::texts(tokens@).take(0) == Seq::<Seq<char>>::empty());
    }
    let mut i: usize = 0;
    while i < tokens.len()
        invariant
            i <= tokens@.len(),
            spelled(query, text::texts(tokens@).take(i as int)),
        decreases tokens@.len() - i,
    {
        let token = &tokens[i];
        let ghost seen = text::texts(tokens@).take(i as int);
        let ghost next = text::texts(tokens@).take(i + 1);
        proof {
            assert(next.drop_last() == seen);
            assert(next.last() == token@);
        }
        read_token(&mut query, token.as_str(), Ghost(seen));
        assert(next == seen.push(token@));
        i = i + 1;
    }
    assert(text::texts(tokens@).take(i as int) == text::words(q@));
    query
}

fn read_token(query: &mut CodeQuery, token: &str, Ghost(seen): Ghost<Seq<Seq<char>>>)
    requires
        spelled(*old(query), seen),
    ensures
        spelled(*final(query), seen.push(token@)),
{
    proof {
        reveal(Seq::filter);
        reveal_strlit("repo");
        reveal_strlit("org");
        reveal_strlit("path");
        reveal_strlit("extension");
        assert(seen.push(token@).drop_last() == seen);
        assert("repo"@[0] != "path"@[0]);
        assert("org"@.len() != "repo"@.len() && "org"@.len() != "path"@.len());
        assert("extension"@.len() != "org"@.len() && "extension"@.len() != "repo"@.len());
    }
    let pair = text::split_once(token, ':');
    if let Some((key, value)) = pair {
        if text::same(key.as_str(), "repo") {
            query.repo = Some(value);
            return ;
        }
        if text::same(key.as_str(), "org") {
            query.org = Some(value);
            return ;
        }
        if text::same(key.as_str(), "path") {
            query.path = Some(value);
            return ;
        }
        if text::same(key.as_str(), "extension") {
            query.extension = Some(text::trim_start_matches(value.as_str(), '.'));
            return ;
        }
    }
    let ghost before = text::texts(query.terms@);
    query.terms.push(token.to_owned());
    assert(text::texts(query.terms@) == before.push(token@));
}

// -- carrying a query out ----------------------------------------------------------------------

/// A query that is carried out. Where the hits are to be sent ahead of the reply, `stream`
/// is the id of the request.
pub struct CodeSearch {
    pub query: CodeQuery,
    pub stream: Option<Value>,
}

/// Waits for the hits of a search, in the scope at `scope_path`. Where that is a project that
/// stems from the cache, it was found there under the path `cached_as`.
pub struct HitsAsk {
    pub scope_path: String,
    pub search: CodeSearch,
    pub cached_as: Option<String>,
}

/// Waits for the project of a hit. The hits in `rest` come after it; `items` are the
/// documents of those before it.
pub struct HitAsk {
    pub hit: BlobHit,
    pub rest: Vec<BlobHit>,
    pub terms: Vec<String>,
    pub items: Vec<Value>,
    pub stream: Option<Value>,
}

/// Where a query is carried out: in a project where it names one, else in a group where it
/// names one, else everywhere.
pub open spec fn scoped(search: CodeSearch, t: Turn) -> bool {
    match (search.query.repo, search.query.org) {
        (Some(repo), _) => t == Turn::CachedProject(
            CachedProjectAsk { repo, goal: Goal::Code(search) },
        ),
        (None, Some(org)) => t == Turn::Group(GroupAsk { org, goal: GroupGoal::Code(search) }),
        (None, None) => {
            &&& t matches Turn::Hits(ask)
            &&& ask.scope_path@ == "/search"@
            &&& ask.search == search
            &&& ask.cached_as is None
        },
    }
}

pub fn begin(search: CodeSearch) -> (t: Turn)
    ensures
        scoped(search, t),
{
    match &search.query.repo {
        Some(repo) => {
            let repo = repo.clone();
            Turn::CachedProject(CachedProjectAsk { repo, goal: Goal::Code(search) })
        },
        None => match &search.query.org {
            Some(org) => {
                let org = org.clone();
                Turn::Group(GroupAsk { org, goal: GroupGoal::Code(search) })
            },
            None => Turn::Hits(
                HitsAsk { scope_path: "/search".to_owned(), search, cached_as: None },
            ),
        },
    }
}

/// A search within a project.
pub open spec fn in_project(
    project: Project,
    search: CodeSearch,
    cached_as: Option<String>,
    t: Turn,
) -> bool {
    &&& t matches Turn::Hits(ask)
    &&& ask.scope_path@ == "/projects/"@ + text::decimal(project.id as nat) + "/search"@
    &&& ask.search == search
    &&& ask.cached_as == cached_as
}

pub fn begin_in_project(
    project: &Project,
    search: CodeSearch,
    cached_as: Option<String>,
) -> (t: Turn)
    ensures
        in_project(*project, search, cached_as, t),
{
    let mut scope_path = text::concat2("/projects/", text::decimal_text(project.id).as_str());
    scope_path.append("/search");
    Turn::Hits(HitsAsk { scope_path, search, cached_as })
}

/// A search within a group.
pub open spec fn in_group(group: Group, search: CodeSearch, t: Turn) -> bool {
    &&& t matches Turn::Hits(ask)
    &&& ask.scope_path@ == "/groups/"@ + text::decimal(group.id as nat) + "/search"@
    &&& ask.search == search
    &&& ask.cached_as is None
}

pub fn begin_in_group(group: &Group, search: CodeSearch) -> (t: Turn)
    ensures
        in_group(*group, search, t),
{
    let mut scope_path = text::concat2("/groups/", text::decimal_text(group.id).as_str());
    scope_path.append("/search");
    Turn::Hits(HitsAsk { scope_path, search, cached_as: None })
}

// -- choosing among the hits -------------------------------------------------------------------

/// What the path of a hit has to have, in lower case.
pub struct PathFilter {
    pub path: Option<String>,
    pub extension: Option<String>,
}

/// A path, in lower case, has the wanted part in it and ends in a dot and the wanted
/// extension.
pub open spec fn admitted(
    part: Option<Seq<char>>,
    extension: Option<Seq<char>>,
    path: Seq<char>,
) -> bool {
    &&& part matches Some(p) ==> text::occurs(p, path)
    &&& extension matches Some(e) ==> ("."@ + e).is_suffix_of(path)
}

/// An optional text in lower case.
pub open spec fn lowered(s: Option<String>) -> Option<Seq<char>> {
    match s {
        Some(s) => Some(text::lowercase(s@)),
        None => None,
    }
}

fn lower(s: &Option<String>) -> (r: Option<String>)
    ensures
        api::maybe_text(r) == lowered(*s),
{
    match s {
        Some(s) => Some(text::to_lowercase(s.as_str())),
        None => None,
    }
}

impl PathFilter {
    pub fn of(query: &CodeQuery) -> (r: PathFilter)
        ensures
            api::maybe_text(r.path) == lowered(query.path),
            api::maybe_text(r.extension) == lowered(query.extension),
    {
        PathFilter { path: lower(&query.path), extension: lower(&query.extension) }
    }

    /// Whether a path, in lower case, is wanted.
    pub fn admits(&self, path: &str) -> (r: bool)
        ensures
            r == admitted(api::maybe_text(self.path), api::maybe_text(self.extension), path@),
    {
        if let Some(part) = &self.path {
            if !text::contains(path, part.as_str()) {
                return false;
            }
        }
        if let Some(extension) = &self.extension {
            let ending = text::concat2(".", extension.as_str());
            if !text::ends_with(path, ending.as_str()) {
                return false;
            }
        }
        true
    }
}

/// A hit has a path that the query wants, whatever the case of either.
pub open spec fn wanted(query: CodeQuery, hit: BlobHit) -> bool {
    admitted(lowered(query.path), lowered(query.extension), text::lowercase(hit.path@))
}

/// Those of the hits that the query wants, in their order.
fn choose_hits(query: &CodeQuery, hits: Vec<BlobHit>) -> (r: Vec<BlobHit>)
    ensures
        r@ == hits@.filter(|h: BlobHit| wanted(*query, h)),
{
    let filter = PathFilter::of(query);
    let ghost all = hits@;
    let mut hits = hits;
    let mut chosen: Vec<BlobHit> = Vec::new();
    let ghost mut n: int = 0;
    proof {
        reveal(Seq::filter);
        assert(all.take(0) == Seq::<BlobHit>::empty());
        assert(all.skip(0) == all);
    }
    while hits.len() > 0
        invariant
            0 <= n <= all.len(),
            hits@ == all.skip(n),
            api::maybe_text(filter.path) == lowered(query.path),
            api::maybe_text(filter.extension) == lowered(query.extension),
            chosen@ == all.take(n).filter(|h: BlobHit| wanted(*query, h)),
        decreases hits@.len(),
    {
        let hit = hits.remove(0);
        proof {
            reveal(Seq::filter);
            assert(hit == all[n]);
            assert(hits@ == all.skip(n + 1));
            assert(all.take(n + 1).drop_last() == all.take(n));
            n = n + 1;
        }
        if filter.admits(text::to_lowercase(hit.path.as_str()).as_str()) {
            chosen.push(hit);
        }
    }
    assert(all.take(n) == all);
    chosen
}

// -- hits on the wire --------------------------------------------------------------------------

/// How many terms occur in a text, each counted once.
pub open spec fn occurring(terms: Seq<Seq<char>>, data: Seq<char>) -> nat {
    terms.filter(|t: Seq<char>| text::occurs(t, data)).len()
}

/// Counts the terms that occur in a text.
pub fn count_occurring(terms: &Vec<String>, data: &str) -> (r: usize)
    ensures
        r == occurring(text::texts(terms@), data@),
{
    let mut count: usize = 0;
    let mut i: usize = 0;
    let ghost all = text::texts(terms@);
    proof {
        reveal(Seq::filter);
        assert(all.take(0) == Seq::<Seq<char>>::empty());
    }
    while i < terms.len()
        invariant
            i <= terms@.len(),
            all == text::texts(terms@),
            count <= i,
            count == occurring(all.take(i as int), data@),
        decreases terms@.len() - i,
    {
        proof {
            reveal(Seq::filter);
            assert(all.take(i + 1).drop_last() == all.take(i as int));
            assert(all.take(i + 1).last() == terms@[i as int]@);
        }
        if text::contains(data, terms[i].as_str()) {
            count = count + 1;
        }
        i = i + 1;
    }
    assert(all.take(i as int) == all);
    count
}

/// Terms in lower case.
pub open spec fn lowered_terms(terms: Seq<Seq<char>>) -> Seq<Seq<char>> {
    terms.map_values(|t: Seq<char>| text::lowercase(t))
}

/// How many terms a hit shows, whatever the case of either.
pub open spec fn match_count(terms: Seq<Seq<char>>, hit: BlobHit) -> nat {
    occurring(lowered_terms(terms), text::lowercase(api::text_or(hit.data, ""@)))
}

fn count_matches(terms: &Vec<String>, hit: &BlobHit) -> (r: usize)
    ensures
        r == match_count(text::texts(terms@), *hit),
{
    let data = text::to_lowercase(api::or_text(&hit.data, "").as_str());
    let ghost all = lowered_terms(text::texts(terms@));
    let mut lowered: Vec<String> = Vec::new();
    let mut i: usize = 0;
    while i < terms.len()
        invariant
            i <= terms@.len(),
            all == lowered_terms(text::texts(terms@)),
            text::texts(lowered@) == all.take(i as int),
        decreases terms@.len() - i,
    {
        let term = text::to_lowercase(terms[i].as_str());
        let ghost before = text::texts(lowered@);
        let ghost t = term@;
        lowered.push(term);
        assert(text::texts(lowered@) == before.push(t));
        assert(text::texts(terms@)[i as int] == terms@[i as int]@);
        assert(all.take(i + 1) == all.take(i as int).push(all[i as int]));
        i = i + 1;
    }
    assert(all.take(i as int) == all);
    count_occurring(&lowered, data.as_str())
}

/// The line that a hit starts on.
pub open spec fn hit_line(hit: BlobHit) -> u64 {
    match hit.startline {
        Some(n) => n as u64,
        None => 1,
    }
}

/// The document of a hit in the project at `repo`, which shows `count` terms.
pub open spec fn hit_json(repo: Seq<char>, hit: BlobHit, count: u32) -> JsonView {
    JsonView::Obj(
        map![
            "repo"@ => JsonView::Str(repo),
            "path"@ => JsonView::Str(hit.path@),
            "sha"@ => JsonView::Str(""@),
            "branch"@ => JsonView::Str(hit.branch_text()),
            "line"@ => JsonView::Uint(hit_line(hit)),
            "preview"@ => JsonView::Arr(
                seq![
                    JsonView::Arr(
                        seq![
                            JsonView::Uint(hit_line(hit)),
                            JsonView::Str(api::text_or(hit.data, ""@)),
                        ],
                    ),
                ],
            ),
            "match_count"@ => JsonView::Uint(count as u64),
            "located"@ => JsonView::Bool(true),
        ],
    )
}

pub fn hit_document(repo: &str, hit: &BlobHit, count: u32) -> (v: Value)
    ensures
        json::value_view(v) == hit_json(repo@, *hit, count),
{
    let line: u64 = match hit.startline {
        Some(n) => n as u64,
        None => 1,
    };
    let mut shown: Vec<Value> = Vec::new();
    json::push(&mut shown, json::uint(line));
    json::push(&mut shown, json::string(api::or_text(&hit.data, "").as_str()));
    assert(json::values_view(shown@) == seq![
        JsonView::Uint(hit_line(*hit)),
        JsonView::Str(api::text_or(hit.data, ""@)),
    ]);
    let ghost row = JsonView::Arr(json::values_view(shown@));
    let mut preview: Vec<Value> = Vec::new();
    json::push(&mut preview, json::list(shown));
    assert(json::values_view(preview@) == seq![row]);
    let v = json::with(json::object(), "repo", json::string(repo));
    let v = json::with(v, "path", json::string(hit.path.as_str()));
    let v = json::with(v, "sha", json::string(""));
    let v = json::with(v, "branch", json::string(hit.branch().as_str()));
    let v = json::with(v, "line", json::uint(line));
    let v = json::with(v, "preview", json::list(preview));
    let v = json::with(v, "match_count", json::uint(count as u64));
    json::with(v, "located", json::flag(true))
}

// -- the reply ---------------------------------------------------------------------------------

/// The document of a search's items.
pub open spec fn items_json(items: Seq<JsonView>) -> JsonView {
    JsonView::Obj(map!["items"@ => JsonView::Arr(items), "truncated"@ => JsonView::Bool(false)])
}

/// The document that is sent ahead of the reply: the items, under the id of the request.
pub open spec fn batch_json(id: JsonView, items: Seq<JsonView>) -> JsonView {
    JsonView::Obj(map!["id"@ => id, "items"@ => JsonView::Arr(items)])
}

/// The items are given, in the reply or ahead of one without items.
pub open spec fn delivered(t: Turn, items: Seq<JsonView>, stream: Option<Value>) -> bool {
    match stream {
        None => t.gives(items_json(items)),
        Some(id) => {
            &&& t matches Turn::Reply(r)
            &&& r.partial matches Some(batch)
            &&& json::value_view(batch) == batch_json(json::value_view(id), items)
            &&& r.result matches Ok(v)
            &&& json::value_view(v) == items_json(seq![])
        },
    }
}

fn items_document(items: Vec<Value>) -> (v: Value)
    ensures
        json::value_view(v) == items_json(json::values_view(items@)),
{
    let v = json::with(json::object(), "items", json::list(items));
    json::with(v, "truncated", json::flag(false))
}

fn deliver(items: Vec<Value>, stream: Option<Value>) -> (t: Turn)
    ensures
        delivered(t, json::values_view(items@), stream),
        t.ahead() == handlers::maybe_view(stream),
{
    match stream {
        None => Turn::give(items_document(items)),
        Some(id) => {
            let batch = json::with(json::object(), "id", id);
            let batch = json::with(batch, "items", json::list(items));
            proof {
                reveal_strlit("id");
                reveal_strlit("items");
                assert("id"@.len() != "items"@.len());
            }
            let none: Vec<Value> = Vec::new();
            assert(json::values_view(none@) == Seq::<JsonView>::empty());
            Turn::Reply(Reply { partial: Some(batch), result: Ok(items_document(none)) })
        },
    }
}

/// The next hit is looked up, or the items are given where there is none left.
pub open spec fn next_hit(
    t: Turn,
    hits: Seq<BlobHit>,
    terms: Seq<Seq<char>>,
    items: Seq<JsonView>,
    stream: Option<Value>,
) -> bool {
    if hits.len() == 0 {
        delivered(t, items, stream)
    } else {
        &&& t matches Turn::Hit(ask)
        &&& ask.hit == hits[0]
        &&& ask.rest@ == hits.skip(1)
        &&& text::texts(ask.terms@) == terms
        &&& json::values_view(ask.items@) == items
        &&& ask.stream == stream
    }
}

fn look_up_next(
    hits: Vec<BlobHit>,
    terms: Vec<String>,
    items: Vec<Value>,
    stream: Option<Value>,
) -> (t: Turn)
    ensures
        next_hit(t, hits@, text::texts(terms@), json::values_view(items@), stream),
        t.ahead() == handlers::maybe_view(stream),
{
    if hits.len() == 0 {
        return deliver(items, stream);
    }
    let mut rest = hits;
    let hit = rest.remove(0);
    assert(rest@ == hits@.skip(1));
    Turn::Hit(HitAsk { hit, rest, terms, items, stream })
}

/// What the hits of a search lead to: those that the query wants are gone on with.
pub open spec fn found(ask: HitsAsk, answer: ApiResult<Vec<BlobHit>>, s: Step) -> bool {
    match answer {
        Ok(hits) => s.effect is None && next_hit(
            s.turn,
            hits@.filter(|h: BlobHit| wanted(ask.search.query, h)),
            text::texts(ask.search.query.terms@),
            seq![],
            ask.search.stream,
        ),
        Err(e) => handlers::failed(
            e,
            handlers::origin_of(ask.cached_as, Goal::Code(ask.search)),
            s,
        ),
    }
}

impl HitsAsk {
    pub fn url(&self, gl: &GitLab) -> (r: String)
        ensures
            r@ == gl.search_blobs_address(
                self.scope_path@,
                text::join(text::texts(self.search.query.terms@), " "@),
            ),
    {
        let terms = text::join_texts(&self.search.query.terms, " ");
        gl.search_blobs(self.scope_path.as_str(), terms.as_str())
    }

    /// Goes on with the hits that the query wants.
    pub fn resume(self, answer: ApiResult<Vec<BlobHit>>) -> (s: Step)
        ensures
            found(self, answer, s),
            s.turn.follows(Turn::Hits(self)),
    {
        let hits = match answer {
            Ok(hits) => hits,
            Err(e) => {
                let origin = match self.cached_as {
                    Some(repo) => Some(Origin { repo, goal: Goal::Code(self.search) }),
                    None => None,
                };
                return Step::fail(&e, origin);
            },
        };
        let chosen = choose_hits(&self.search.query, hits);
        let items: Vec<Value> = Vec::new();
        assert(json::values_view(items@) == Seq::<JsonView>::empty());
        Step::go(look_up_next(chosen, self.search.query.terms, items, self.search.stream))
    }
}

/// The document of a hit in a project, for a search with these terms.
pub open spec fn item_json(project: Project, hit: BlobHit, terms: Seq<Seq<char>>) -> JsonView {
    hit_json(project.path_with_namespace@, hit, match_count(terms, hit) as u32)
}

/// What the project of a hit leads to: it is stored and the hit is added. A hit whose project
/// cannot be had is left out.
pub open spec fn looked_up(ask: HitAsk, answer: ApiResult<Project>, s: Step) -> bool {
    let terms = text::texts(ask.terms@);
    let items = json::values_view(ask.items@);
    match answer {
        Ok(project) => {
            &&& s.effect == Some(Effect::StoreProject(project))
            &&& next_hit(
                s.turn,
                ask.rest@,
                terms,
                items.push(item_json(project, ask.hit, terms)),
                ask.stream,
            )
        },
        Err(_) => {
            &&& s.effect is None
            &&& next_hit(s.turn, ask.rest@, terms, items, ask.stream)
        },
    }
}

impl HitAsk {
    pub fn url(&self, gl: &GitLab) -> (r: String)
        ensures
            r@ == gl.project_by_id_address(self.hit.project_id),
    {
        gl.project_by_id(self.hit.project_id)
    }

    pub fn resume(self, answer: ApiResult<Project>) -> (s: Step)
        ensures
            looked_up(self, answer, s),
            s.turn.follows(Turn::Hit(self)),
    {
        let mut items = self.items;
        match answer {
            Ok(project) => {
                let count = count_matches(&self.terms, &self.hit);
                #[verifier::truncate]
                let count = count as u32;
                let repo = project.path_with_namespace.as_str();
                json::push(&mut items, hit_document(repo, &self.hit, count));
                Step {
                    effect: Some(Effect::StoreProject(project)),
                    turn: look_up_next(self.rest, self.terms, items, self.stream),
                }
            },
            Err(_) => Step {
                effect: None,
                turn: look_up_next(self.rest, self.terms, items, self.stream),
            },
        }
    }
}

// -- laws ------------------------------------------------------------------------------------

/// What the server is to search for holds no qualifier, and all else that the query holds.
pub proof fn qualifiers_stay_out_of_the_search(tokens: Seq<Seq<char>>, token: Seq<char>)
    ensures
        free_terms(tokens).contains(token) <==> tokens.contains(token) && qualifier(token) is None,
    decreases tokens.len(),
{
    reveal(Seq::filter);
    if tokens.len() > 0 {
        let head = tokens.drop_last();
        let last = tokens.last();
        qualifiers_stay_out_of_the_search(head, token);
        assert(tokens == head.push(last));
        lemma_seq_contains_after_push(head, last, token);
        lemma_seq_contains_after_push(free_terms(head), last, token);
    }
}

/// Of qualifiers with one key the last one counts, and qualifiers with other keys make no
/// difference to it.
pub proof fn the_last_qualifier_counts(
    tokens: Seq<Seq<char>>,
    token: Seq<char>,
    key: Seq<char>,
    value: Seq<char>,
    other: Seq<char>,
)
    requires
        qualifier(token) == Some((key, value)),
    ensures
        last_value(tokens.push(token), key) == Some(value),
        other != key ==> last_value(tokens.push(token), other) == last_value(tokens, other),
{
    assert(tokens.push(token).drop_last() == tokens);
}

/// A streamed search delivers what the search delivers otherwise: the same items, under the
/// id of the request, ahead of a reply without any.
pub proof fn streaming_delivers_the_same(
    whole: Turn,
    streamed: Turn,
    items: Seq<JsonView>,
    id: Value,
)
    requires
        delivered(whole, items, None),
        delivered(streamed, items, Some(id)),
    ensures
        whole matches Turn::Reply(a) && a.result matches Ok(all) && streamed matches Turn::Reply(b)
            && b.partial matches Some(batch) && b.result matches Ok(rest) && {
            &&& json::value_view(batch).member("items"@) == json::value_view(all).member("items"@)
            &&& json::value_view(batch).member("id"@) == Some(json::value_view(id))
            &&& json::value_view(rest).member("items"@) == Some(JsonView::Arr(seq![]))
            &&& json::value_view(rest).member("truncated"@) == json::value_view(all).member(
                "truncated"@,
            )
        },
{
    reveal_strlit("id");
    reveal_strlit("items");
    reveal_strlit("truncated");
    assert("id"@.len() != "items"@.len());
    assert("items"@.len() != "truncated"@.len());
}

/// The documents of those hits whose projects could be had.
pub open spec fn located(
    hits: Seq<BlobHit>,
    answers: Seq<ApiResult<Project>>,
    terms: Seq<Seq<char>>,
) -> Seq<JsonView>
    decreases hits.len(),
{
    if hits.len() == 0 {
        seq![]
    } else {
        (match answers[0] {
            Ok(project) => seq![item_json(project, hits[0], terms)],
            Err(_) => seq![],
        }) + located(hits.skip(1), answers.skip(1), terms)
    }
}

/// Projects of hits were asked for one after the other, from a turn on, until the reply.
pub open spec fn located_from(t: Turn, answers: Seq<ApiResult<Project>>, steps: Seq<Step>) -> bool
    decreases answers.len(),
{
    &&& answers.len() == steps.len()
    &&& if answers.len() == 0 {
        t is Reply
    } else {
        &&& t matches Turn::Hit(ask)
        &&& looked_up(ask, answers[0], steps[0])
        &&& located_from(steps[0].turn, answers.skip(1), steps.skip(1))
    }
}

/// A search delivers the hits that it goes on with, in their order, but for those whose
/// projects cannot be had.
pub proof fn searches_deliver_their_hits(
    t: Turn,
    hits: Seq<BlobHit>,
    terms: Seq<Seq<char>>,
    items: Seq<JsonView>,
    stream: Option<Value>,
    answers: Seq<ApiResult<Project>>,
    steps: Seq<Step>,
)
    requires
        next_hit(t, hits, terms, items, stream),
        located_from(t, answers, steps),
    ensures
        answers.len() == hits.len(),
        delivered(
            if steps.len() == 0 {
                t
            } else {
                steps.last().turn
            },
            items + located(hits, answers, terms),
            stream,
        ),
    decreases hits.len(),
{
    if hits.len() == 0 {
        assert(items + located(hits, answers, terms) == items);
    } else {
        let next = match answers[0] {
            Ok(project) => items.push(item_json(project, hits[0], terms)),
            Err(_) => items,
        };
        let rest = hits.skip(1);
        searches_deliver_their_hits(
            steps[0].turn,
            rest,
            terms,
            next,
            stream,
            answers.skip(1),
            steps.skip(1),
        );
        assert(next + located(rest, answers.skip(1), terms) == items + located(
            hits,
            answers,
            terms,
        ));
        if steps.len() > 1 {
            assert(steps.skip(1).last() == steps.last());
        }
    }
}

/// A path, whatever its case, has a part in it, whatever its case.
pub open spec fn has_part(path: Seq<char>, part: Seq<char>) -> bool {
    exists|a: Seq<char>, b: Seq<char>|
        text::lowercase(path) == #[trigger] (a + text::lowercase(part) + b)
}

/// A path, whatever its case, ends in a dot and an extension, whatever its case.
pub open spec fn has_extension(path: Seq<char>, extension: Seq<char>) -> bool {
    exists|a: Seq<char>|
        text::lowercase(path) == #[trigger] (a + (seq!['.'] + text::lowercase(extension)))
}

/// Each filter binds, whether or not the other one is given: a hit is wanted just when its path
/// has the part of a `path:` qualifier in it, where the query has one, and ends in a dot and the
/// extension of an `extension:` qualifier, where the query has one.
pub proof fn each_filter_binds(query: CodeQuery, hit: BlobHit)
    ensures
        wanted(query, hit) && query.path is Some ==> has_part(hit.path@, query.path->0@),
        wanted(query, hit) && query.extension is Some ==> has_extension(
            hit.path@,
            query.extension->0@,
        ),
        (query.path is Some ==> has_part(hit.path@, query.path->0@)) && (query.extension is Some
            ==> has_extension(hit.path@, query.extension->0@)) ==> wanted(query, hit),
{
    let path = text::lowercase(hit.path@);
    reveal_strlit(".");
    assert("."@ =~= seq!['.']);
    if let Some(part) = query.path {
        text::occurrences_have_surroundings(text::lowercase(part@), path);
    }
    if let Some(extension) = query.extension {
        let ending = "."@ + text::lowercase(extension@);
        if ending.is_suffix_of(path) {
            assert(path =~= path.take(path.len() - ending.len()) + ending);
        }
        if has_extension(hit.path@, extension@) {
            let a = choose|a: Seq<char>| path == #[trigger] (a + ending);
            assert(path.subrange(path.len() - ending.len(), path.len() as int) =~= ending);
        }
    }
}

/// A filter more never adds a hit.
pub proof fn filters_only_narrow(narrow: CodeQuery, wide: CodeQuery, hit: BlobHit)
    requires
        wide.path is None || wide.path == narrow.path,
        wide.extension is None || wide.extension == narrow.extension,
        wanted(narrow, hit),
    ensures
        wanted(wide, hit),
{
}

/// What a search gives in the end stems from the hits, in their order: from those that pass each
/// filter of the query, all of them but for those whose projects cannot be had. As many projects
/// are asked for as hits pass.
pub proof fn searches_deliver_the_wanted_hits(
    ask: HitsAsk,
    hits: Vec<BlobHit>,
    s: Step,
    answers: Seq<ApiResult<Project>>,
    steps: Seq<Step>,
)
    requires
        found(ask, Ok(hits), s),
        located_from(s.turn, answers, steps),
    ensures
        ({
            let passed = hits@.filter(
                |h: BlobHit|
                    (ask.search.query.path is Some ==> has_part(
                        h.path@,
                        ask.search.query.path->0@,
                    )) && (ask.search.query.extension is Some ==> has_extension(
                        h.path@,
                        ask.search.query.extension->0@,
                    )),
            );
            &&& s.effect is None
            &&& answers.len() == passed.len()
            &&& delivered(
                if steps.len() == 0 {
                    s.turn
                } else {
                    steps.last().turn
                },
                located(passed, answers, text::texts(ask.search.query.terms@)),
                ask.search.stream,
            )
        }),
{
    let query = ask.search.query;
    let kept = hits@.filter(|h: BlobHit| wanted(query, h));
    let passed = hits@.filter(
        |h: BlobHit|
            (query.path is Some ==> has_part(h.path@, query.path->0@)) && (query.extension is Some
                ==> has_extension(h.path@, query.extension->0@)),
    );
    same_hits(query, hits@);
    let terms = text::texts(query.terms@);
    searches_deliver_their_hits(s.turn, kept, terms, seq![], ask.search.stream, answers, steps);
    assert(Seq::<JsonView>::empty() + located(kept, answers, terms) =~= located(
        kept,
        answers,
        terms,
    ));
}

proof fn same_hits(query: CodeQuery, hits: Seq<BlobHit>)
    ensures
        hits.filter(|h: BlobHit| wanted(query, h)) == hits.filter(
            |h: BlobHit|
                (query.path is Some ==> has_part(h.path@, query.path->0@)) && (
                query.extension is Some ==> has_extension(h.path@, query.extension->0@)),
        ),
    decreases hits.len(),
{
    reveal(Seq::filter);
    if hits.len() > 0 {
        same_hits(query, hits.drop_last());
        each_filter_binds(query, hits.last());
    }
}

/// What was located shows, hit by hit, the project and the hit that belong together.
pub proof fn hits_are_located_in_their_order(
    hits: Seq<BlobHit>,
    answers: Seq<ApiResult<Project>>,
    terms: Seq<Seq<char>>,
    hit: BlobHit,
    answer: ApiResult<Project>,
)
    requires
        hits.len() == answers.len(),
    ensures
        located(hits.push(hit), answers.push(answer), terms) == match answer {
            Ok(project) => located(hits, answers, terms).push(item_json(project, hit, terms)),
            Err(_) => located(hits, answers, terms),
        },
        located(seq![], seq![], terms).len() == 0,
    decreases hits.len(),
{
    let all = hits.push(hit);
    let said = answers.push(answer);
    if hits.len() > 0 {
        hits_are_located_in_their_order(hits.skip(1), answers.skip(1), terms, hit, answer);
        assert(all.skip(1) =~= hits.skip(1).push(hit));
        assert(said.skip(1) =~= answers.skip(1).push(answer));
        assert(said[0] == answers[0] && all[0] == hits[0]);
        let later = located(hits.skip(1), answers.skip(1), terms);
        let first = match answers[0] {
            Ok(project) => seq![item_json(project, hits[0], terms)],
            Err(_) => seq![],
        };
        if let Ok(project) = answer {
            let item = item_json(project, hit, terms);
            assert(first + later.push(item) =~= (first + later).push(item));
        }
    } else {
        reveal_with_fuel(located, 2);
        assert(said[0] == answer && all[0] == hit);
        if let Ok(project) = answer {
            let item = item_json(project, hit, terms);
            assert(located(all, said, terms) =~= Seq::<JsonView>::empty().push(item));
        }
        assert(located(hits, answers, terms) =~= Seq::<JsonView>::empty());
        assert(all.skip(1) =~= Seq::<BlobHit>::empty());
        assert(said.skip(1) =~= Seq::<ApiResult<Project>>::empty());
    }
}

/// The document of a hit names the project and shows the hit as the server gave it, on the line
/// that it starts on, 1 where none is given, and in its branch, `main` where none is given.
pub proof fn hits_show_themselves(project: Project, hit: BlobHit, terms: Seq<Seq<char>>)
    ensures
        ({
            let j = item_json(project, hit, terms);
            let line = JsonView::Uint(
                match hit.startline {
                    Some(n) => n as u64,
                    None => 1,
                },
            );
            let data = match hit.data {
                Some(data) => data@,
                None => ""@,
            };
            &&& j.member("repo"@) == Some(JsonView::Str(project.path_with_namespace@))
            &&& j.member("path"@) == Some(JsonView::Str(hit.path@))
            &&& j.member("sha"@) == Some(JsonView::Str(""@))
            &&& j.member("branch"@) == Some(
                JsonView::Str(
                    match hit.git_ref {
                        Some(name) => name@,
                        None => "main"@,
                    },
                ),
            )
            &&& j.member("line"@) == Some(line)
            &&& j.member("preview"@) == Some(
                JsonView::Arr(seq![JsonView::Arr(seq![line, JsonView::Str(data)])]),
            )
            &&& j.member("match_count"@) == Some(
                JsonView::Uint(match_count(terms, hit) as u32 as u64),
            )
            &&& j.member("located"@) == Some(JsonView::Bool(true))
            &&& j->Obj_0.dom() == set![
                "repo"@,
                "path"@,
                "sha"@,
                "branch"@,
                "line"@,
                "preview"@,
                "match_count"@,
                "located"@,
            ]
        }),
{
    reveal_strlit("repo");
    reveal_strlit("path");
    reveal_strlit("sha");
    reveal_strlit("branch");
    reveal_strlit("line");
    reveal_strlit("preview");
    reveal_strlit("match_count");
    reveal_strlit("located");
    assert("repo"@[0] == 'r' && "path"@[0] == 'p' && "line"@[0] == 'l');
    assert("repo"@.len() == 4 && "path"@.len() == 4 && "line"@.len() == 4);
    assert("sha"@.len() == 3 && "branch"@.len() == 6 && "match_count"@.len() == 11);
    assert("preview"@.len() == 7 && "preview"@[0] == 'p');
    assert("located"@.len() == 7 && "located"@[0] == 'l');
    let j = item_json(project, hit, terms);
    assert(j->Obj_0.dom() =~= set![
        "repo"@,
        "path"@,
        "sha"@,
        "branch"@,
        "line"@,
        "preview"@,
        "match_count"@,
        "located"@,
    ]);
}

/// A term counts once where the text of the hit has it, whatever the case of either, and not
/// where it does not.
pub proof fn terms_count_once(terms: Seq<Seq<char>>, term: Seq<char>, hit: BlobHit)
    ensures
        match_count(seq![], hit) == 0,
        match_count(terms.push(term), hit) == match_count(terms, hit) + if has_part(
            match hit.data {
                Some(data) => data@,
                None => ""@,
            },
            term,
        ) {
            1int
        } else {
            0
        },
{
    reveal(Seq::filter);
    let data = text::lowercase(api::text_or(hit.data, ""@));
    let all = lowered_terms(terms.push(term));
    assert(lowered_terms(seq![]) =~= Seq::<Seq<char>>::empty());
    assert(all.drop_last() =~= lowered_terms(terms));
    assert(all.last() == text::lowercase(term));
    text::occurrences_have_surroundings(text::lowercase(term), data);
}

/// A token is a qualifier just when one of the four keys stands before its first colon; the rest
/// of it, further colons included, is the value.
pub proof fn keys_stand_before_the_colon(token: Seq<char>, key: Seq<char>, value: Seq<char>)
    ensures
        !token.contains(':') ==> qualifier(token) is None,
        token == key + seq![':'] + value && !key.contains(':') ==> qualifier(token) == if key
            == "repo"@ || key == "org"@ || key == "path"@ || key == "extension"@ {
            Some((key, value))
        } else {
            None
        },
{
    text::cuts_are_at_the_first(token, ':');
    if let Some((k, v)) = text::cut(token, ':') {
        assert(token[k.len() as int] == ':');
        if token == key + seq![':'] + value && !key.contains(':') {
            if k.len() < key.len() {
                assert(token[k.len() as int] == ':');
                assert(key[k.len() as int] == ':');
            }
            if key.len() < k.len() {
                assert(token[key.len() as int] == ':');
                assert(k[key.len() as int] == ':');
            }
            assert(k =~= token.take(k.len() as int));
            assert(key =~= token.take(key.len() as int));
            assert(v =~= token.skip(k.len() as int + 1));
            assert(value =~= token.skip(key.len() as int + 1));
        }
    } else if token == key + seq![':'] + value {
        assert(token[key.len() as int] == ':');
    }
}

/// The last token decides what it is about and leaves the rest of the query as it was: a
/// qualifier sets its own field to its value, an extension without the dots before it; any other
/// token is one more search term, after those before it.
pub proof fn tokens_are_read_one_by_one(
    tokens: Seq<Seq<char>>,
    token: Seq<char>,
    before: CodeQuery,
    after: CodeQuery,
)
    requires
        spelled(before, tokens),
        spelled(after, tokens.push(token)),
    ensures
        ({
            let (key, value) = qualifier(token)->0;
            let set = qualifier(token) is Some;
            &&& api::maybe_text(after.repo) == if set && key == "repo"@ {
                Some(value)
            } else {
                api::maybe_text(before.repo)
            }
            &&& api::maybe_text(after.org) == if set && key == "org"@ {
                Some(value)
            } else {
                api::maybe_text(before.org)
            }
            &&& api::maybe_text(after.path) == if set && key == "path"@ {
                Some(value)
            } else {
                api::maybe_text(before.path)
            }
            &&& !(set && key == "extension"@) ==> api::maybe_text(after.extension)
                == api::maybe_text(before.extension)
            &&& set && key == "extension"@ ==> after.extension is Some && {
                let e = after.extension->0@;
                &&& e.len() > 0 ==> e[0] != '.'
                &&& exists|n: nat| value == #[trigger] text::repeated('.', n) + e
            }
            &&& text::texts(after.terms@) == if set {
                text::texts(before.terms@)
            } else {
                text::texts(before.terms@).push(token)
            }
        }),
{
    reveal(Seq::filter);
    assert(tokens.push(token).drop_last() == tokens);
    if let Some((key, value)) = qualifier(token) {
        text::stripping_takes_the_character_off(value, '.');
    }
}

/// A query without a token has no qualifier and no term.
pub proof fn empty_queries_ask_for_nothing(query: CodeQuery)
    requires
        spelled(query, seq![]),
    ensures
        query.repo is None && query.org is None && query.path is None && query.extension is None,
        query.terms@.len() == 0,
{
    reveal(Seq::filter);
    assert(text::texts(query.terms@).len() == 0);
}

/// A query that names a project is carried out in it, whatever group it names; one that names
/// none is carried out in the group that it names, and everywhere where it names neither.
pub proof fn scopes_narrow_in_their_order(search: CodeSearch, t: Turn)
    requires
        scoped(search, t),
    ensures
        t is CachedProject <==> search.query.repo is Some,
        t is Group <==> search.query.repo is None && search.query.org is Some,
        t is Hits <==> search.query.repo is None && search.query.org is None,
        t matches Turn::CachedProject(ask) ==> ask.repo == search.query.repo->0 && ask.goal
            == Goal::Code(search),
        t matches Turn::Group(ask) ==> ask.org == search.query.org->0 && ask.goal
            == GroupGoal::Code(search),
        t matches Turn::Hits(ask) ==> ask.scope_path@ == "/search"@ && ask.search == search
            && ask.cached_as is None,
{
}

/// The server searches below the project or the group, by its id.
pub proof fn scopes_go_by_id(
    project: Project,
    group: Group,
    search: CodeSearch,
    cached_as: Option<String>,
    within: Turn,
    among: Turn,
)
    requires
        in_project(project, search, cached_as, within),
        in_group(group, search, among),
    ensures
        within matches Turn::Hits(ask) && ask.scope_path@ == "/projects/"@ + text::decimal(
            project.id as nat,
        ) + "/search"@ && ask.search == search && ask.cached_as == cached_as,
        among matches Turn::Hits(ask) && ask.scope_path@ == "/groups/"@ + text::decimal(
            group.id as nat,
        ) + "/search"@ && ask.search == search && ask.cached_as is None,
{
}

/// A reply to a search has its items and says that nothing was cut.
pub proof fn replies_hold_the_items(t: Turn, items: Seq<JsonView>)
    requires
        delivered(t, items, None),
    ensures
        ({
            let j = json::value_view(t->Reply_0.result->Ok_0);
            &&& t.gives(j)
            &&& j.member("items"@) == Some(JsonView::Arr(items))
            &&& j.member("truncated"@) == Some(JsonView::Bool(false))
            &&& j->Obj_0.dom() == set!["items"@, "truncated"@]
        }),
{
    reveal_strlit("items");
    reveal_strlit("truncated");
    assert("items"@.len() != "truncated"@.len());
    assert(items_json(items)->Obj_0.dom() =~= set!["items"@, "truncated"@]);
}

/// The project of a hit is stored as soon as it is known, and a hit whose project cannot be had
/// leaves the search as it was.
pub proof fn lost_hits_do_no_harm(ask: HitAsk, answer: ApiResult<Project>, s: Step)
    requires
        looked_up(ask, answer, s),
    ensures
        answer matches Ok(project) ==> s.effect == Some(Effect::StoreProject(project)),
        answer is Err ==> s.effect is None,
        ask.rest@.len() > 0 ==> s.turn is Hit && s.turn->Hit_0.hit == ask.rest@[0]
            && s.turn->Hit_0.rest@ == ask.rest@.skip(1) && s.turn->Hit_0.stream == ask.stream
            && text::texts(s.turn->Hit_0.terms@) == text::texts(ask.terms@),
        ask.rest@.len() > 0 && answer is Err ==> json::values_view(s.turn->Hit_0.items@)
            == json::values_view(ask.items@),
        ask.rest@.len() == 0 ==> s.turn is Reply && s.turn->Reply_0.result is Ok,
{
}

proof fn items_stem_from_hits(
    hits: Seq<BlobHit>,
    answers: Seq<ApiResult<Project>>,
    terms: Seq<Seq<char>>,
    i: int,
)
    requires
        hits.len() == answers.len(),
        0 <= i < located(hits, answers, terms).len(),
    ensures
        exists|k: int|
            0 <= k < hits.len() && (#[trigger] answers[k]) is Ok && located(
                hits,
                answers,
                terms,
            )[i] == item_json(answers[k]->Ok_0, hits[k], terms),
    decreases hits.len(),
{
    let items = located(hits, answers, terms);
    let rest = hits.skip(1);
    let later = answers.skip(1);
    let shift = if answers[0] is Ok {
        1int
    } else {
        0
    };
    if i >= shift {
        assert(items[i] == located(rest, later, terms)[i - shift]);
        items_stem_from_hits(rest, later, terms, i - shift);
        let k = choose|k: int|
            0 <= k < rest.len() && (#[trigger] later[k]) is Ok && located(
                rest,
                later,
                terms,
            )[i - shift] == item_json(later[k]->Ok_0, rest[k], terms);
        assert(answers[k + 1] == later[k] && hits[k + 1] == rest[k]);
    } else {
        assert(answers[0] is Ok);
    }
}

/// Every hit that a search gives is one of the hits that the server found. Its path has the part
/// of a `path:` qualifier in it wherever the query has one, and ends in a dot and the extension
/// of an `extension:` qualifier wherever the query has one, each with or without the other.
pub proof fn given_hits_pass_each_filter(
    ask: HitsAsk,
    hits: Vec<BlobHit>,
    s: Step,
    answers: Seq<ApiResult<Project>>,
    steps: Seq<Step>,
    j: JsonView,
    items: Seq<JsonView>,
    i: int,
)
    requires
        found(ask, Ok(hits), s),
        ask.search.stream is None,
        located_from(s.turn, answers, steps),
        (if steps.len() == 0 {
            s.turn
        } else {
            steps.last().turn
        }).gives(j),
        j.member("items"@) == Some(JsonView::Arr(items)),
        0 <= i < items.len(),
    ensures
        exists|k: int|
            0 <= k < hits@.len() && {
                let path = (#[trigger] hits@[k]).path@;
                &&& items[i].member("path"@) == Some(JsonView::Str(path))
                &&& ask.search.query.path is Some ==> has_part(path, ask.search.query.path->0@)
                &&& ask.search.query.extension is Some ==> has_extension(
                    path,
                    ask.search.query.extension->0@,
                )
            },
{
    let query = ask.search.query;
    let wants = |h: BlobHit|
        (query.path is Some ==> has_part(h.path@, query.path->0@)) && (query.extension is Some
            ==> has_extension(h.path@, query.extension->0@));
    let passed = hits@.filter(wants);
    let terms = text::texts(query.terms@);
    searches_deliver_the_wanted_hits(ask, hits, s, answers, steps);
    let last = if steps.len() == 0 {
        s.turn
    } else {
        steps.last().turn
    };
    replies_hold_the_items(last, located(passed, answers, terms));
    assert(items == located(passed, answers, terms));
    items_stem_from_hits(passed, answers, terms, i);
    let n = choose|n: int|
        0 <= n < passed.len() && (#[trigger] answers[n]) is Ok && items[i] == item_json(
            answers[n]->Ok_0,
            passed[n],
            terms,
        );
    hits_show_themselves(answers[n]->Ok_0, passed[n], terms);
    hits@.lemma_filter_contains_rev(wants, passed[n]);
    let k = choose|k: int| 0 <= k < hits@.len() && hits@[k] == passed[n];
    assert(hits@[k] == passed[n]);
    passed_hits_pass(hits@, wants, n);
}

proof fn passed_hits_pass(hits: Seq<BlobHit>, wants: spec_fn(BlobHit) -> bool, n: int)
    requires
        0 <= n < hits.filter(wants).len(),
    ensures
        wants(hits.filter(wants)[n]),
    decreases hits.len(),
{
    reveal(Seq::filter);
    if hits.len() > 0 {
        let head = hits.drop_last().filter(wants);
        if n < head.len() {
            passed_hits_pass(hits.drop_last(), wants, n);
        }
    }
}

/// What is sent ahead of the reply to a streamed search is the items under the id of the request,
/// and nothing else; the reply then has no items, and says that nothing was cut.
pub proof fn streamed_items_come_ahead(t: Turn, items: Seq<JsonView>, id: Value)
    requires
        delivered(t, items, Some(id)),
    ensures
        t is Reply,
        t->Reply_0.partial is Some,
        t->Reply_0.result is Ok,
        ({
            let batch = json::value_view(t->Reply_0.partial->0);
            let rest = json::value_view(t->Reply_0.result->Ok_0);
            &&& batch.member("id"@) == Some(json::value_view(id))
            &&& batch.member("items"@) == Some(JsonView::Arr(items))
            &&& batch->Obj_0.dom() == set!["id"@, "items"@]
            &&& rest.member("items"@) == Some(JsonView::Arr(seq![]))
            &&& rest.member("truncated"@) == Some(JsonView::Bool(false))
            &&& rest->Obj_0.dom() == set!["items"@, "truncated"@]
        }),
{
    reveal_strlit("id");
    reveal_strlit("items");
    reveal_strlit("truncated");
    assert("id"@.len() == 2 && "items"@.len() == 5 && "truncated"@.len() == 9);
    assert(batch_json(json::value_view(id), items)->Obj_0.dom() =~= set!["id"@, "items"@]);
    assert(items_json(seq![])->Obj_0.dom() =~= set!["items"@, "truncated"@]);
}

/// A search that fails is told to the client, unless something is missing of a project that
/// stems from the cache: then the project is asked for, for the same search.
pub proof fn failed_searches_are_told(ask: HitsAsk, e: api::ApiError, s: Step)
    requires
        found(ask, Err(e), s),
    ensures
        ask.cached_as is None || !e.is_missing() ==> s.effect is None && s.turn.fails(
            handlers::wire_error(e),
        ),
        ask.cached_as is Some && e.is_missing() ==> s.effect == Some(
            Effect::DropProject(ask.cached_as->0),
        ) && s.turn is Project && s.turn->Project_0.repo == ask.cached_as->0
            && s.turn->Project_0.goal == Goal::Code(ask.search) && s.turn->Project_0.retried,
{
}

} // verus!
