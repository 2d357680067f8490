//! GitLab's REST v4 interface: the addresses of its resources, the entities it answers
//! with, the reading of its errors, and the aggregation of its pages. Requests carry a
//! token that is looked up when the first one is made.

use serde_json::Value;
use vstd::prelude::*;
use vstd::string::*;
use vstd::utf8::*;

use crate::json::JsonView;
use crate::{encode, json, text};

verus! {

pub const DEFAULT_INSTANCE: &'static str = "https://gitlab.com";

pub const DEFAULT_TOKEN_ENV: &'static str = "GITLAB_TOKEN";

/// The most bytes of a blob that are served: the size of a preview.
pub const BLOB_CAP: usize = 1024 * 1024;

/// The most entries of a tree that are listed; a longer one is `truncated`.
pub const TREE_ENTRY_CAP: usize = 25_000;

/// The most projects of a group that are listed.
pub const GROUP_PROJECT_CAP: usize = 500;

/// The most branches, and the most tags, that are listed.
pub const REF_CAP: usize = 500;

/// How many commits a log holds where the client sets no limit.
pub const LOG_DEFAULT_LIMIT: usize = 500;

/// The most commits that a log holds.
pub const LOG_MAX_LIMIT: usize = 1000;

/// The most entries that the server puts on a page.
pub const PAGE_SIZE: usize = 100;

#[derive(Debug)]
pub enum ApiError {
    /// The server answered with an error, or in time not at all (status 0).
    Api { status: u16, message: String, retry_after: Option<u64> },
    Network(String),
}

pub type ApiResult<T> = Result<T, ApiError>;

impl ApiError {
    /// The answer was that there is no such thing.
    pub open spec fn is_missing(self) -> bool {
        self matches ApiError::Api { status, .. } && status == 404
    }

    pub fn missing(&self) -> (r: bool)
        ensures
            r == self.is_missing(),
    {
        match self {
            ApiError::Api { status, .. } => *status == 404,
            ApiError::Network(_) => false,
        }
    }

    /// The error in words.
    pub fn describe(&self) -> (r: String)
        ensures
            match *self {
                ApiError::Api { message, .. } => r@ == message@,
                ApiError::Network(m) => r@ == "network: "@ + m@,
            },
    {
        match self {
            ApiError::Api { message, .. } => message.clone(),
            ApiError::Network(m) => text::concat2("network: ", m.as_str()),
        }
    }
}

// -- entities ------------------------------------------------------------------

/// A project. An empty repository has no default branch, and listings may leave out the
/// optional fields.
#[derive(Debug)]
pub struct Project {
    pub id: u64,
    pub path_with_namespace: String,
    pub default_branch: Option<String>,
    pub web_url: Option<String>,
    pub http_url_to_repo: Option<String>,
}

impl Clone for Project {
    fn clone(&self) -> (r: Self)
        ensures
            r == *self,
    {
        Project {
            id: self.id,
            path_with_namespace: self.path_with_namespace.clone(),
            default_branch: clone_text(&self.default_branch),
            web_url: clone_text(&self.web_url),
            http_url_to_repo: clone_text(&self.http_url_to_repo),
        }
    }
}

pub(crate) fn clone_text(s: &Option<String>) -> (r: Option<String>)
    ensures
        r == *s,
{
    match s {
        Some(s) => Some(s.clone()),
        None => None,
    }
}

/// An optional text, or `default` where there is none.
pub open spec fn text_or(s: Option<String>, default: Seq<char>) -> Seq<char> {
    match s {
        Some(s) => s@,
        None => default,
    }
}

pub(crate) fn or_text(s: &Option<String>, default: &str) -> (r: String)
    ensures
        r@ == text_or(*s, default@),
{
    match s {
        Some(s) => s.clone(),
        None => default.to_owned(),
    }
}

impl Project {
    /// The default branch, `main` where the server names none.
    pub open spec fn branch_text(self) -> Seq<char> {
        text_or(self.default_branch, "main"@)
    }

    pub open spec fn web_text(self) -> Seq<char> {
        text_or(self.web_url, "https://gitlab.com/"@ + self.path_with_namespace@)
    }

    pub open spec fn clone_remote_text(self) -> Seq<char> {
        text_or(self.http_url_to_repo, "https://gitlab.com/"@ + self.path_with_namespace@ + ".git"@)
    }

    pub fn branch(&self) -> (r: String)
        ensures
            r@ == self.branch_text(),
    {
        or_text(&self.default_branch, "main")
    }

    /// The project's web page.
    pub fn web(&self) -> (r: String)
        ensures
            r@ == self.web_text(),
    {
        let home = text::concat2("https://gitlab.com/", self.path_with_namespace.as_str());
        or_text(&self.web_url, home.as_str())
    }

    /// The remote that the project is cloned from.
    pub fn clone_remote(&self) -> (r: String)
        ensures
            r@ == self.clone_remote_text(),
    {
        let mut home = text::concat2("https://gitlab.com/", self.path_with_namespace.as_str());
        home.append(".git");
        or_text(&self.http_url_to_repo, home.as_str())
    }
}

#[derive(Debug)]
pub struct Group {
    pub id: u64,
    pub full_path: String,
    pub web_url: String,
}

/// An entry of a tree; its kind is `blob` or `tree`.
#[derive(Debug)]
pub struct TreeEntry {
    pub id: String,
    pub kind: String,
    pub path: String,
}

#[derive(Debug)]
pub struct Branch {
    pub name: Option<String>,
    pub default: Option<bool>,
    pub commit: BranchCommit,
}

#[derive(Debug)]
pub struct BranchCommit {
    pub id: String,
}

#[derive(Debug)]
pub struct Tag {
    pub name: String,
    pub commit: Option<BranchCommit>,
}

/// A commit of a log. The title is the first line of its message.
#[derive(Debug)]
pub struct Commit {
    pub id: String,
    pub title: Option<String>,
    pub author_name: Option<String>,
    pub committed_date: Option<String>,
}

/// Lines in a row that one commit gave a file.
#[derive(Debug)]
pub struct BlameChunk {
    pub commit: Option<BlameCommit>,
    pub lines: Vec<String>,
}

#[derive(Debug)]
pub struct BlameCommit {
    pub id: String,
    pub author_name: Option<String>,
    pub committed_date: Option<String>,
}

/// A hit of a blob search, with the line it starts on.
#[derive(Debug)]
pub struct BlobHit {
    pub project_id: u64,
    pub path: String,
    pub git_ref: Option<String>,
    pub startline: Option<u32>,
    pub data: Option<String>,
}

impl BlobHit {
    pub open spec fn branch_text(self) -> Seq<char> {
        text_or(self.git_ref, "main"@)
    }

    /// The branch of the hit, `main` where the server names none.
    pub fn branch(&self) -> (r: String)
        ensures
            r@ == self.branch_text(),
    {
        or_text(&self.git_ref, "main")
    }
}

// -- addresses -------------------------------------------------------------------

/// `s` as one segment of an address: whatever is reserved is escaped, slashes too.
pub open spec fn url_segment(s: Seq<char>) -> Seq<char> {
    encode::percent(encode_utf8(s), true)
}

/// Percent-encodes a text for use as one segment of an address or as a query value.
pub fn urlencode_path(s: &str) -> (r: String)
    ensures
        r@ == url_segment(s@),
{
    encode::percent_text(s.as_bytes(), true)
}

/// Keys and values of a query, as texts.
pub open spec fn query_view(query: Seq<(&str, &str)>) -> Seq<(Seq<char>, Seq<char>)> {
    query.map_values(|p: (&str, &str)| (p.0@, p.1@))
}

/// A key and its encoded value.
pub open spec fn query_field(p: (Seq<char>, Seq<char>)) -> Seq<char> {
    p.0 + "="@ + url_segment(p.1)
}

/// The address of the resource `path` below `base`, with the fields of `query`.
pub open spec fn address(
    base: Seq<char>,
    path: Seq<char>,
    query: Seq<(Seq<char>, Seq<char>)>,
) -> Seq<char> {
    let plain = base + "/api/v4"@ + path;
    if query.len() == 0 {
        plain
    } else {
        let fields = query.map_values(|p: (Seq<char>, Seq<char>)| query_field(p));
        plain + "?"@ + text::join(fields, "&"@)
    }
}

/// The resource of a project's repository.
pub open spec fn repository(project_id: u64) -> Seq<char> {
    "/projects/"@ + text::decimal(project_id as nat) + "/repository"@
}

fn repository_path(project_id: u64) -> (r: String)
    ensures
        r@ == repository(project_id),
{
    let mut path = text::concat2("/projects/", text::decimal_text(project_id).as_str());
    path.append("/repository");
    path
}

/// What the client is told of a variable without a token.
pub const NO_TOKEN: &'static str =
    " in environment — set it to a GitLab token with read_api + read_repository";

/// The token for a request: the one that is held, else what was found, unless it is empty.
pub open spec fn token_of(held: Option<Seq<char>>, found: Option<Seq<char>>) -> Option<Seq<char>> {
    match (held, found) {
        (Some(t), _) => Some(t),
        (None, Some(t)) => if t.len() > 0 {
            Some(t)
        } else {
            None
        },
        (None, None) => None,
    }
}

/// The token that is held after lookups that found these, one after the other.
pub open spec fn held_after(finds: Seq<Option<Seq<char>>>) -> Option<Seq<char>>
    decreases finds.len(),
{
    if finds.len() == 0 {
        None
    } else {
        token_of(held_after(finds.drop_last()), finds.last())
    }
}

/// A GitLab instance, and the environment variable that holds the token for it.
pub struct GitLab {
    instance: String,
    token_env: String,
}

impl GitLab {
    pub closed spec fn base(&self) -> Seq<char> {
        self.instance@
    }

    pub closed spec fn variable(&self) -> Seq<char> {
        self.token_env@
    }

    /// An instance by its address, slashes at the end left off.
    pub fn new(instance: &str, token_env: &str) -> (r: GitLab)
        ensures
            r.base() == text::strip_back(instance@, '/'),
            r.variable() == token_env@,
    {
        GitLab { instance: text::trim_end_matches(instance, '/'), token_env: token_env.to_owned() }
    }

    pub fn instance(&self) -> (r: &str)
        ensures
            r@ == self.base(),
    {
        self.instance.as_str()
    }

    pub fn token_env(&self) -> (r: &str)
        ensures
            r@ == self.variable(),
    {
        self.token_env.as_str()
    }

    /// The token, given the one that is held so far and what the environment holds under the
    /// variable. Having none is an error of the request that needs it.
    pub fn token(&self, held: Option<&str>, found: Option<String>) -> (r: ApiResult<String>)
        ensures
            match token_of(maybe_str(held), maybe_text(found)) {
                Some(token) => r matches Ok(t) && t@ == token,
                None => r matches Err(ApiError::Api { status, message, retry_after }) && status
                    == 401 && message@ == "no "@ + self.variable() + NO_TOKEN@
                    && retry_after is None,
            },
    {
        if let Some(t) = held {
            return Ok(t.to_owned());
        }
        if let Some(t) = found {
            if !t.as_str().is_empty() {
                return Ok(t);
            }
        }
        let mut message = text::concat2("no ", self.token_env.as_str());
        message.append(NO_TOKEN);
        Err(ApiError::Api { status: 401, message, retry_after: None })
    }

    pub fn url(&self, path: &str, query: &Vec<(&str, &str)>) -> (r: String)
        ensures
            r@ == address(self.base(), path@, query_view(query@)),
    {
        let mut url = text::concat2(self.instance.as_str(), "/api/v4");
        url.append(path);
        if query.len() > 0 {
            let mut fields: Vec<String> = Vec::new();
            let mut i: usize = 0;
            let ghost all = query_view(query@).map_values(
                |p: (Seq<char>, Seq<char>)| query_field(p),
            );
            while i < query.len()
                invariant
                    i <= query@.len(),
                    all == query_view(query@).map_values(
                        |p: (Seq<char>, Seq<char>)| query_field(p),
                    ),
                    text::texts(fields@) == all.take(i as int),
                decreases query@.len() - i,
            {
                let (k, v) = query[i];
                let mut field = text::concat2(k, "=");
                let value = urlencode_path(v);
                field.append(value.as_str());
                let ghost f = field@;
                let ghost before = text::texts(fields@);
                fields.push(field);
                assert(text::texts(fields@) == before.push(f));
                assert(all.take(i + 1) == all.take(i as int).push(all[i as int]));
                i = i + 1;
            }
            assert(all.take(i as int) == all);
            url.append("?");
            let tail = text::join_texts(&fields, "&");
            url.append(tail.as_str());
        }
        url
    }

    pub open spec fn project_address(&self, path: Seq<char>) -> Seq<char> {
        address(self.base(), "/projects/"@ + url_segment(path), seq![])
    }

    /// A project by its full path.
    pub fn project(&self, path: &str) -> (r: String)
        ensures
            r@ == self.project_address(path@),
    {
        let mut resource = "/projects/".to_owned();
        resource.append(urlencode_path(path).as_str());
        let fields: Vec<(&str, &str)> = Vec::new();
        assert(query_view(fields@) == Seq::<(Seq<char>, Seq<char>)>::empty());
        self.url(resource.as_str(), &fields)
    }

    pub open spec fn project_by_id_address(&self, project_id: u64) -> Seq<char> {
        address(self.base(), "/projects/"@ + text::decimal(project_id as nat), seq![])
    }

    /// A project by its id.
    pub fn project_by_id(&self, project_id: u64) -> (r: String)
        ensures
            r@ == self.project_by_id_address(project_id),
    {
        let mut resource = "/projects/".to_owned();
        resource.append(text::decimal_text(project_id).as_str());
        let fields: Vec<(&str, &str)> = Vec::new();
        assert(query_view(fields@) == Seq::<(Seq<char>, Seq<char>)>::empty());
        self.url(resource.as_str(), &fields)
    }

    pub open spec fn group_address(&self, path: Seq<char>) -> Seq<char> {
        address(self.base(), "/groups/"@ + url_segment(path), seq![])
    }

    /// A group by its full path.
    pub fn group(&self, path: &str) -> (r: String)
        ensures
            r@ == self.group_address(path@),
    {
        let mut resource = "/groups/".to_owned();
        resource.append(urlencode_path(path).as_str());
        let fields: Vec<(&str, &str)> = Vec::new();
        assert(query_view(fields@) == Seq::<(Seq<char>, Seq<char>)>::empty());
        self.url(resource.as_str(), &fields)
    }

    pub open spec fn group_projects_address(&self, group_id: u64, page: u32) -> Seq<char> {
        address(
            self.base(),
            "/groups/"@ + text::decimal(group_id as nat) + "/projects"@,
            seq![
                ("simple"@, "true"@),
                ("include_subgroups"@, "true"@),
                ("per_page"@, "100"@),
                ("page"@, text::decimal(page as nat)),
            ],
        )
    }

    /// A page of the projects of a group and of its subgroups.
    pub fn group_projects(&self, group_id: u64, page: u32) -> (r: String)
        ensures
            r@ == self.group_projects_address(group_id, page),
    {
        let page_text = text::decimal_text(page as u64);
        let mut resource = "/groups/".to_owned();
        resource.append(text::decimal_text(group_id).as_str());
        resource.append("/projects");
        let fields: Vec<(&str, &str)> = vec![
            ("simple", "true"),
            ("include_subgroups", "true"),
            ("per_page", "100"),
            ("page", page_text.as_str()),
        ];
        assert(query_view(fields@) == seq![
            ("simple"@, "true"@),
            ("include_subgroups"@, "true"@),
            ("per_page"@, "100"@),
            ("page"@, text::decimal(page as nat)),
        ]);
        self.url(resource.as_str(), &fields)
    }

    pub open spec fn branch_head_address(&self, project_id: u64, branch: Seq<char>) -> Seq<char> {
        address(self.base(), repository(project_id) + "/branches/"@ + url_segment(branch), seq![])
    }

    /// A branch, with the commit at its head.
    pub fn branch_head(&self, project_id: u64, branch: &str) -> (r: String)
        ensures
            r@ == self.branch_head_address(project_id, branch@),
    {
        let mut resource = repository_path(project_id);
        resource.append("/branches/");
        resource.append(urlencode_path(branch).as_str());
        let fields: Vec<(&str, &str)> = Vec::new();
        assert(query_view(fields@) == Seq::<(Seq<char>, Seq<char>)>::empty());
        self.url(resource.as_str(), &fields)
    }

    pub open spec fn tag_commit_address(&self, project_id: u64, tag: Seq<char>) -> Seq<char> {
        address(self.base(), repository(project_id) + "/tags/"@ + url_segment(tag), seq![])
    }

    /// A tag, with the commit it names.
    pub fn tag_commit(&self, project_id: u64, tag: &str) -> (r: String)
        ensures
            r@ == self.tag_commit_address(project_id, tag@),
    {
        let mut resource = repository_path(project_id);
        resource.append("/tags/");
        resource.append(urlencode_path(tag).as_str());
        let fields: Vec<(&str, &str)> = Vec::new();
        assert(query_view(fields@) == Seq::<(Seq<char>, Seq<char>)>::empty());
        self.url(resource.as_str(), &fields)
    }

    pub open spec fn branches_address(&self, project_id: u64, page: u32) -> Seq<char> {
        address(
            self.base(),
            repository(project_id) + "/branches"@,
            seq![("per_page"@, "100"@), ("page"@, text::decimal(page as nat))],
        )
    }

    /// A page of the branches of a project.
    pub fn branches(&self, project_id: u64, page: u32) -> (r: String)
        ensures
            r@ == self.branches_address(project_id, page),
    {
        let page_text = text::decimal_text(page as u64);
        let mut resource = repository_path(project_id);
        resource.append("/branches");
        let fields: Vec<(&str, &str)> = vec![("per_page", "100"), ("page", page_text.as_str())];
        assert(query_view(fields@) == seq![
            ("per_page"@, "100"@),
            ("page"@, text::decimal(page as nat)),
        ]);
        self.url(resource.as_str(), &fields)
    }

    pub open spec fn tags_address(&self, project_id: u64, page: u32) -> Seq<char> {
        address(
            self.base(),
            repository(project_id) + "/tags"@,
            seq![("per_page"@, "100"@), ("page"@, text::decimal(page as nat))],
        )
    }

    /// A page of the tags of a project.
    pub fn tags(&self, project_id: u64, page: u32) -> (r: String)
        ensures
            r@ == self.tags_address(project_id, page),
    {
        let page_text = text::decimal_text(page as u64);
        let mut resource = repository_path(project_id);
        resource.append("/tags");
        let fields: Vec<(&str, &str)> = vec![("per_page", "100"), ("page", page_text.as_str())];
        assert(query_view(fields@) == seq![
            ("per_page"@, "100"@),
            ("page"@, text::decimal(page as nat)),
        ]);
        self.url(resource.as_str(), &fields)
    }

    pub open spec fn tree_page_address(
        &self,
        project_id: u64,
        branch: Seq<char>,
        page: u32,
    ) -> Seq<char> {
        address(
            self.base(),
            repository(project_id) + "/tree"@,
            seq![
                ("ref"@, branch),
                ("recursive"@, "true"@),
                ("per_page"@, "100"@),
                ("page"@, text::decimal(page as nat)),
            ],
        )
    }

    /// A page of the entries of a tree, those of its subtrees too.
    pub fn tree_page(&self, project_id: u64, branch: &str, page: u32) -> (r: String)
        ensures
            r@ == self.tree_page_address(project_id, branch@, page),
    {
        let page_text = text::decimal_text(page as u64);
        let mut resource = repository_path(project_id);
        resource.append("/tree");
        let fields: Vec<(&str, &str)> = vec![
            ("ref", branch),
            ("recursive", "true"),
            ("per_page", "100"),
            ("page", page_text.as_str()),
        ];
        assert(query_view(fields@) == seq![
            ("ref"@, branch@),
            ("recursive"@, "true"@),
            ("per_page"@, "100"@),
            ("page"@, text::decimal(page as nat)),
        ]);
        self.url(resource.as_str(), &fields)
    }

    pub open spec fn blob_raw_address(&self, project_id: u64, sha: Seq<char>) -> Seq<char> {
        address(self.base(), repository(project_id) + "/blobs/"@ + sha + "/raw"@, seq![])
    }

    /// The bytes of a blob.
    pub fn blob_raw(&self, project_id: u64, sha: &str) -> (r: String)
        ensures
            r@ == self.blob_raw_address(project_id, sha@),
    {
        let mut resource = repository_path(project_id);
        resource.append("/blobs/");
        resource.append(sha);
        resource.append("/raw");
        let fields: Vec<(&str, &str)> = Vec::new();
        assert(query_view(fields@) == Seq::<(Seq<char>, Seq<char>)>::empty());
        self.url(resource.as_str(), &fields)
    }

    pub open spec fn raw_file_at_address(
        &self,
        project_id: u64,
        path: Seq<char>,
        ref_name: Seq<char>,
    ) -> Seq<char> {
        address(
            self.base(),
            repository(project_id) + "/files/"@ + url_segment(path) + "/raw"@,
            seq![("ref"@, ref_name)],
        )
    }

    /// The bytes of the file at `path` in the revision `ref_name`.
    pub fn raw_file_at(&self, project_id: u64, path: &str, ref_name: &str) -> (r: String)
        ensures
            r@ == self.raw_file_at_address(project_id, path@, ref_name@),
    {
        let mut resource = repository_path(project_id);
        resource.append("/files/");
        resource.append(urlencode_path(path).as_str());
        resource.append("/raw");
        let fields: Vec<(&str, &str)> = vec![("ref", ref_name)];
        assert(query_view(fields@) == seq![("ref"@, ref_name@)]);
        self.url(resource.as_str(), &fields)
    }

    pub open spec fn blame_address(
        &self,
        project_id: u64,
        path: Seq<char>,
        ref_name: Seq<char>,
    ) -> Seq<char> {
        address(
            self.base(),
            repository(project_id) + "/files/"@ + url_segment(path) + "/blame"@,
            seq![("ref"@, ref_name)],
        )
    }

    /// The blame of the file at `path` in the revision `ref_name`.
    pub fn blame(&self, project_id: u64, path: &str, ref_name: &str) -> (r: String)
        ensures
            r@ == self.blame_address(project_id, path@, ref_name@),
    {
        let mut resource = repository_path(project_id);
        resource.append("/files/");
        resource.append(urlencode_path(path).as_str());
        resource.append("/blame");
        let fields: Vec<(&str, &str)> = vec![("ref", ref_name)];
        assert(query_view(fields@) == seq![("ref"@, ref_name@)]);
        self.url(resource.as_str(), &fields)
    }

    pub open spec fn search_projects_address(&self, query: Seq<char>) -> Seq<char> {
        address(
            self.base(),
            "/projects"@,
            seq![
                ("search"@, query),
                ("simple"@, "true"@),
                ("per_page"@, "20"@),
                ("order_by"@, "id"@),
            ],
        )
    }

    /// The projects that match a query.
    pub fn search_projects(&self, query: &str) -> (r: String)
        ensures
            r@ == self.search_projects_address(query@),
    {
        let fields: Vec<(&str, &str)> = vec![
            ("search", query),
            ("simple", "true"),
            ("per_page", "20"),
            ("order_by", "id"),
        ];
        assert(query_view(fields@) == seq![
            ("search"@, query@),
            ("simple"@, "true"@),
            ("per_page"@, "20"@),
            ("order_by"@, "id"@),
        ]);
        self.url("/projects", &fields)
    }

    pub open spec fn search_groups_address(&self, query: Seq<char>) -> Seq<char> {
        address(self.base(), "/groups"@, seq![("search"@, query), ("per_page"@, "5"@)])
    }

    /// The groups that match a query.
    pub fn search_groups(&self, query: &str) -> (r: String)
        ensures
            r@ == self.search_groups_address(query@),
    {
        let fields: Vec<(&str, &str)> = vec![("search", query), ("per_page", "5")];
        assert(query_view(fields@) == seq![("search"@, query@), ("per_page"@, "5"@)]);
        self.url("/groups", &fields)
    }

    pub open spec fn search_blobs_address(
        &self,
        scope_path: Seq<char>,
        terms: Seq<char>,
    ) -> Seq<char> {
        address(
            self.base(),
            scope_path,
            seq![("scope"@, "blobs"@), ("search"@, terms), ("per_page"@, "20"@)],
        )
    }

    /// The blobs that match search terms, within the scope at `scope_path`.
    pub fn search_blobs(&self, scope_path: &str, terms: &str) -> (r: String)
        ensures
            r@ == self.search_blobs_address(scope_path@, terms@),
    {
        let fields: Vec<(&str, &str)> = vec![
            ("scope", "blobs"),
            ("search", terms),
            ("per_page", "20"),
        ];
        assert(query_view(fields@) == seq![
            ("scope"@, "blobs"@),
            ("search"@, terms@),
            ("per_page"@, "20"@),
        ]);
        self.url(scope_path, &fields)
    }

    pub open spec fn commit_log_address(
        &self,
        project_id: u64,
        path: Option<Seq<char>>,
        ref_name: Option<Seq<char>>,
        per_page: nat,
        page: u32,
    ) -> Seq<char> {
        address(
            self.base(),
            repository(project_id) + "/commits"@,
            log_query(path, ref_name, per_page, page as nat),
        )
    }

    /// A page of a project's commits, newest first: those that touched `path`, those that
    /// lead to `ref_name`, where they are given.
    pub fn commit_log(
        &self,
        project_id: u64,
        path: Option<&str>,
        ref_name: Option<&str>,
        per_page: usize,
        page: u32,
    ) -> (r: String)
        ensures
            r@ == self.commit_log_address(
                project_id,
                maybe_str(path),
                maybe_str(ref_name),
                per_page as nat,
                page,
            ),
    {
        let mut resource = repository_path(project_id);
        resource.append("/commits");
        let size_text = text::decimal_text(per_page as u64);
        let page_text = text::decimal_text(page as u64);
        let mut fields: Vec<(&str, &str)> = Vec::new();
        if let Some(path) = path {
            fields.push(("path", path));
        }
        if let Some(ref_name) = ref_name {
            fields.push(("ref_name", ref_name));
        }
        fields.push(("per_page", size_text.as_str()));
        fields.push(("page", page_text.as_str()));
        assert(query_view(fields@) == log_query(
            maybe_str(path),
            maybe_str(ref_name),
            per_page as nat,
            page as nat,
        ));
        self.url(resource.as_str(), &fields)
    }
}

/// An optional text as a sequence.
pub open spec fn maybe_text(s: Option<String>) -> Option<Seq<char>> {
    match s {
        Some(s) => Some(s@),
        None => None,
    }
}

pub open spec fn maybe_str(s: Option<&str>) -> Option<Seq<char>> {
    match s {
        Some(s) => Some(s@),
        None => None,
    }
}

/// The query of a page of commits.
pub open spec fn log_query(
    path: Option<Seq<char>>,
    ref_name: Option<Seq<char>>,
    per_page: nat,
    page: nat,
) -> Seq<(Seq<char>, Seq<char>)> {
    (match path {
        Some(p) => seq![("path"@, p)],
        None => seq![],
    }) + (match ref_name {
        Some(r) => seq![("ref_name"@, r)],
        None => seq![],
    }) + seq![("per_page"@, text::decimal(per_page)), ("page"@, text::decimal(page))]
}

// -- answers -----------------------------------------------------------------------

/// What an error answer says: the text of `message`, or of `error` where the answer has
/// no `message`; the status where that is no text.
pub open spec fn error_message(status: u16, answer: Option<JsonView>) -> Seq<char> {
    let said = match answer {
        Some(a) => match a.member("message"@) {
            Some(m) => m.as_text(),
            None => match a.member("error"@) {
                Some(e) => e.as_text(),
                None => None,
            },
        },
        None => None,
    };
    match said {
        Some(m) => m,
        None => "gitlab http "@ + text::decimal(status as nat),
    }
}

/// `e` is the error that an answer with this status, `Retry-After` header and document
/// tells of.
pub open spec fn told_by(
    e: ApiError,
    status: u16,
    retry_after: Option<&str>,
    answer: Option<JsonView>,
) -> bool {
    &&& e matches ApiError::Api { status: s, message, retry_after: wait }
    &&& s == status
    &&& message@ == error_message(status, answer)
    &&& wait == match retry_after {
        Some(t) => text::uint_of(t@),
        None => None,
    }
}

/// Passes an answer with a status from 200 to 299, and reads the error out of any other
/// from its `Retry-After` header and its body.
pub fn check_status(status: u16, retry_after: Option<&str>, body: &[u8]) -> (r: ApiResult<()>)
    ensures
        r is Ok <==> 200 <= status < 300,
        r matches Err(e) ==> told_by(e, status, retry_after, json::json_parse(body@)),
{
    if 200 <= status && status < 300 {
        return Ok(());
    }
    match json::parse(body) {
        Some(answer) => Err(error_answer(status, retry_after, Some(&answer))),
        None => Err(error_answer(status, retry_after, None)),
    }
}

/// The error that an answer tells of, by the document that its body holds, if it holds
/// one.
pub fn error_answer(status: u16, retry_after: Option<&str>, answer: Option<&Value>) -> (e: ApiError)
    ensures
        told_by(
            e,
            status,
            retry_after,
            match answer {
                Some(a) => Some(json::value_view(*a)),
                None => None,
            },
        ),
{
    let wait = match retry_after {
        Some(t) => text::parse_uint(t),
        None => None,
    };
    let said = match answer {
        Some(a) => match json::member(a, "message") {
            Some(m) => m.as_str(),
            None => match json::member(a, "error") {
                Some(m) => m.as_str(),
                None => None,
            },
        },
        None => None,
    };
    let message = match said {
        Some(m) => m.to_owned(),
        None => text::concat2("gitlab http ", text::decimal_text(status as u64).as_str()),
    };
    ApiError::Api { status, message, retry_after: wait }
}

/// The error of a request that got no answer, given whether it ran out of time, and the
/// failure in words.
pub fn map_send_err(timed_out: bool, failure: &str) -> (r: ApiError)
    ensures
        if timed_out {
            r matches ApiError::Api { status, message, retry_after } && status == 0 && message@
                == "gitlab request timed out"@ && retry_after is None
        } else {
            r matches ApiError::Network(m) && m@ == failure@
        },
{
    if timed_out {
        ApiError::Api {
            status: 0,
            message: "gitlab request timed out".to_owned(),
            retry_after: None,
        }
    } else {
        ApiError::Network(failure.to_owned())
    }
}

// -- content ids ---------------------------------------------------------------------

/// The header that git puts before the bytes of a blob.
pub open spec fn blob_header(size: nat) -> Seq<u8> {
    encode_utf8("blob "@ + text::decimal(size) + "\0"@)
}

/// The id that git gives a blob with these bytes.
pub open spec fn git_blob_id(bytes: Seq<u8>) -> Seq<char> {
    encode::hex(encode::sha1_digest(blob_header(bytes.len()) + bytes))
}

/// The id of a blob: forty hexadecimal digits, in lower case.
pub fn git_blob_sha(bytes: &Vec<u8>) -> (r: String)
    ensures
        r@ == git_blob_id(bytes@),
        r@.len() == 40,
        forall|i: int|
            0 <= i < r@.len() ==> '0' <= (#[trigger] r@[i]) <= '9' || 'a' <= r@[i] <= 'f',
{
    let mut header = text::concat2("blob ", text::decimal_text(bytes.len() as u64).as_str());
    header.append("\0");
    let mut object = header.as_str().as_bytes_vec();
    object.extend_from_slice(bytes.as_slice());
    assert(object@ == blob_header(bytes@.len()) + bytes@);
    let digest = encode::sha1(object.as_slice());
    proof {
        encode::hex_is_digits(digest@);
    }
    encode::hex_text(&digest)
}

// -- laws ------------------------------------------------------------------------------------

/// Distinct projects have distinct addresses, and so have distinct groups: a slash in a
/// path is part of the one segment that the path becomes.
pub proof fn paths_have_addresses_of_their_own(gl: GitLab, a: Seq<char>, b: Seq<char>)
    ensures
        gl.project_address(a) == gl.project_address(b) ==> a == b,
        gl.group_address(a) == gl.group_address(b) ==> a == b,
        forall|i: int| 0 <= i < url_segment(a).len() ==> url_segment(a)[i] != '/',
{
    encode::percent_alphabet(encode_utf8(a), true);
    let head = gl.base() + "/api/v4"@;
    if gl.project_address(a) == gl.project_address(b) {
        text::same_tail(head, "/projects/"@ + url_segment(a), "/projects/"@ + url_segment(b));
        text::same_tail("/projects/"@, url_segment(a), url_segment(b));
        encode::percent_injective(a, b, true);
    }
    if gl.group_address(a) == gl.group_address(b) {
        text::same_tail(head, "/groups/"@ + url_segment(a), "/groups/"@ + url_segment(b));
        text::same_tail("/groups/"@, url_segment(a), url_segment(b));
        encode::percent_injective(a, b, true);
    }
}

/// A token that was found once is kept, whatever later lookups find; until then each lookup
/// may find one.
pub proof fn tokens_are_kept(finds: Seq<Option<Seq<char>>>, later: Seq<Option<Seq<char>>>)
    ensures
        held_after(finds) is Some ==> held_after(finds + later) == held_after(finds),
        forall|t: Seq<char>|
            held_after(finds) is None && t.len() > 0 ==> #[trigger] held_after(
                finds.push(Some(t)),
            ) == Some(t),
    decreases later.len(),
{
    assert forall|t: Seq<char>| held_after(finds) is None && t.len() > 0 implies #[trigger]
        held_after(finds.push(Some(t))) == Some(t) by {
        assert(finds.push(Some(t)).drop_last() == finds);
    }
    if later.len() > 0 {
        tokens_are_kept(finds, later.drop_last());
        assert((finds + later).drop_last() == finds + later.drop_last());
        assert((finds + later).last() == later.last());
    } else {
        assert(finds + later == finds);
    }
}

/// The fields of a query follow the resource in their order, the first one after a question mark
/// and each other one after an ampersand, with the encoded value after an equals sign.
pub proof fn fields_follow_one_another(
    base: Seq<char>,
    path: Seq<char>,
    query: Seq<(Seq<char>, Seq<char>)>,
    key: Seq<char>,
    value: Seq<char>,
)
    ensures
        address(base, path, seq![]) == base + "/api/v4"@ + path,
        address(base, path, query.push((key, value))) == address(base, path, query) + (
        if query.len() == 0 {
            "?"@
        } else {
            "&"@
        }) + key + "="@ + encode::percent(encode_utf8(value), true),
{
    let fields = query.map_values(|p: (Seq<char>, Seq<char>)| query_field(p));
    let f = query_field((key, value));
    let all = query.push((key, value)).map_values(|p: (Seq<char>, Seq<char>)| query_field(p));
    assert(all =~= fields.push(f));
    assert(all.drop_last() =~= fields);
    let plain = base + "/api/v4"@ + path;
    let seg = encode::percent(encode_utf8(value), true);
    assert(f == key + "="@ + seg);
    if query.len() == 0 {
        assert(text::join(all, "&"@) == f);
        assert(plain + "?"@ + f =~= plain + "?"@ + key + "="@ + seg);
    } else {
        let before = text::join(fields, "&"@);
        assert(text::join(all, "&"@) == before + "&"@ + f);
        assert(plain + "?"@ + (before + "&"@ + f) =~= plain + "?"@ + before + "&"@ + key + "="@
            + seg);
    }
}

proof fn up_to_four_fields(
    base: Seq<char>,
    path: Seq<char>,
    a: (Seq<char>, Seq<char>),
    b: (Seq<char>, Seq<char>),
    c: (Seq<char>, Seq<char>),
    d: (Seq<char>, Seq<char>),
)
    ensures
        ({
            let one = base + "/api/v4"@ + path + "?"@ + a.0 + "="@ + url_segment(a.1);
            let two = one + "&"@ + b.0 + "="@ + url_segment(b.1);
            let three = two + "&"@ + c.0 + "="@ + url_segment(c.1);
            let four = three + "&"@ + d.0 + "="@ + url_segment(d.1);
            &&& address(base, path, seq![a]) == one
            &&& address(base, path, seq![a, b]) == two
            &&& address(base, path, seq![a, b, c]) == three
            &&& address(base, path, seq![a, b, c, d]) == four
        }),
{
    let none = Seq::<(Seq<char>, Seq<char>)>::empty();
    fields_follow_one_another(base, path, none, a.0, a.1);
    assert(none.push(a) =~= seq![a]);
    fields_follow_one_another(base, path, seq![a], b.0, b.1);
    assert(seq![a].push(b) =~= seq![a, b]);
    fields_follow_one_another(base, path, seq![a, b], c.0, c.1);
    assert(seq![a, b].push(c) =~= seq![a, b, c]);
    fields_follow_one_another(base, path, seq![a, b, c], d.0, d.1);
    assert(seq![a, b, c].push(d) =~= seq![a, b, c, d]);
}

/// A project is found by its encoded path or its number, and a group by its encoded path; the
/// pages of a group's projects are full ones, and subgroups count.
pub proof fn resources_have_addresses(gl: GitLab, path: Seq<char>, id: u64, page: u32)
    ensures
        ({
            let root = gl.base() + "/api/v4"@;
            &&& gl.project_address(path) == root + ("/projects/"@ + url_segment(path))
            &&& gl.project_by_id_address(id) == root + ("/projects/"@ + text::decimal(id as nat))
            &&& gl.group_address(path) == root + ("/groups/"@ + url_segment(path))
            &&& gl.group_projects_address(id, page) == root
                + ("/groups/"@ + text::decimal(id as nat) + "/projects"@) + "?"@ + "simple"@ + "="@
                + url_segment("true"@) + "&"@ + "include_subgroups"@ + "="@ + url_segment("true"@)
                + "&"@ + "per_page"@ + "="@ + url_segment("100"@) + "&"@ + "page"@ + "="@
                + url_segment(text::decimal(page as nat))
        }),
{
    up_to_four_fields(
        gl.base(),
        "/groups/"@ + text::decimal(id as nat) + "/projects"@,
        ("simple"@, "true"@),
        ("include_subgroups"@, "true"@),
        ("per_page"@, "100"@),
        ("page"@, text::decimal(page as nat)),
    );
}

/// Branches and tags are found below the repository of their project, by their encoded names or
/// in full pages.
pub proof fn revisions_have_addresses(gl: GitLab, id: u64, name: Seq<char>, page: u32)
    ensures
        ({
            let root = gl.base() + "/api/v4"@;
            &&& gl.branch_head_address(id, name) == root + ("/projects/"@
                + text::decimal(id as nat) + "/repository"@ + "/branches/"@ + url_segment(name))
            &&& gl.tag_commit_address(id, name) == root + ("/projects/"@ + text::decimal(id as nat)
                + "/repository"@ + "/tags/"@ + url_segment(name))
            &&& gl.branches_address(id, page) == root + ("/projects/"@ + text::decimal(id as nat)
                + "/repository"@ + "/branches"@) + "?"@ + "per_page"@ + "="@ + url_segment("100"@)
                + "&"@ + "page"@ + "="@ + url_segment(text::decimal(page as nat))
            &&& gl.tags_address(id, page) == root + ("/projects/"@ + text::decimal(id as nat)
                + "/repository"@ + "/tags"@) + "?"@ + "per_page"@ + "="@ + url_segment("100"@)
                + "&"@ + "page"@ + "="@ + url_segment(text::decimal(page as nat))
        }),
{
    up_to_four_fields(
        gl.base(),
        "/projects/"@ + text::decimal(id as nat) + "/repository"@ + "/branches"@,
        ("per_page"@, "100"@),
        ("page"@, text::decimal(page as nat)),
        ("page"@, text::decimal(page as nat)),
        ("page"@, text::decimal(page as nat)),
    );
    up_to_four_fields(
        gl.base(),
        "/projects/"@ + text::decimal(id as nat) + "/repository"@ + "/tags"@,
        ("per_page"@, "100"@),
        ("page"@, text::decimal(page as nat)),
        ("page"@, text::decimal(page as nat)),
        ("page"@, text::decimal(page as nat)),
    );
}

/// What a repository holds is found below it: a tree with all its subtrees in full pages, a blob
/// by its id, a file and its blame by the encoded path in a revision.
pub proof fn contents_have_addresses(
    gl: GitLab,
    id: u64,
    path: Seq<char>,
    name: Seq<char>,
    page: u32,
)
    ensures
        ({
            let root = gl.base() + "/api/v4"@;
            &&& gl.tree_page_address(id, name, page) == root + ("/projects/"@
                + text::decimal(id as nat) + "/repository"@ + "/tree"@) + "?"@ + "ref"@ + "="@
                + url_segment(name) + "&"@ + "recursive"@ + "="@ + url_segment("true"@) + "&"@
                + "per_page"@ + "="@ + url_segment("100"@) + "&"@ + "page"@ + "="@
                + url_segment(text::decimal(page as nat))
            &&& gl.blob_raw_address(id, name) == root + ("/projects/"@ + text::decimal(id as nat)
                + "/repository"@ + "/blobs/"@ + name + "/raw"@)
            &&& gl.raw_file_at_address(id, path, name) == root + ("/projects/"@
                + text::decimal(id as nat) + "/repository"@ + "/files/"@ + url_segment(path)
                + "/raw"@) + "?"@ + "ref"@ + "="@ + url_segment(name)
            &&& gl.blame_address(id, path, name) == root + ("/projects/"@
                + text::decimal(id as nat) + "/repository"@ + "/files/"@ + url_segment(path)
                + "/blame"@) + "?"@ + "ref"@ + "="@ + url_segment(name)
        }),
{
    up_to_four_fields(
        gl.base(),
        "/projects/"@ + text::decimal(id as nat) + "/repository"@ + "/tree"@,
        ("ref"@, name),
        ("recursive"@, "true"@),
        ("per_page"@, "100"@),
        ("page"@, text::decimal(page as nat)),
    );
    up_to_four_fields(
        gl.base(),
        "/projects/"@ + text::decimal(id as nat) + "/repository"@ + "/files/"@ + url_segment(path)
            + "/raw"@,
        ("ref"@, name),
        ("ref"@, name),
        ("ref"@, name),
        ("ref"@, name),
    );
    up_to_four_fields(
        gl.base(),
        "/projects/"@ + text::decimal(id as nat) + "/repository"@ + "/files/"@ + url_segment(path)
            + "/blame"@,
        ("ref"@, name),
        ("ref"@, name),
        ("ref"@, name),
        ("ref"@, name),
    );
}

/// Searches go by what is searched for: projects and groups by a query, blobs by their terms in
/// the scope that is named, and each for a number of matches of its own.
pub proof fn searches_have_addresses(gl: GitLab, path: Seq<char>, name: Seq<char>)
    ensures
        ({
            let root = gl.base() + "/api/v4"@;
            &&& gl.search_projects_address(path) == root + "/projects"@ + "?"@ + "search"@ + "="@
                + url_segment(path) + "&"@ + "simple"@ + "="@ + url_segment("true"@) + "&"@
                + "per_page"@ + "="@ + url_segment("20"@) + "&"@ + "order_by"@ + "="@
                + url_segment("id"@)
            &&& gl.search_groups_address(path) == root + "/groups"@ + "?"@ + "search"@ + "="@
                + url_segment(path) + "&"@ + "per_page"@ + "="@ + url_segment("5"@)
            &&& gl.search_blobs_address(path, name) == root + path + "?"@ + "scope"@ + "="@
                + url_segment("blobs"@) + "&"@ + "search"@ + "="@ + url_segment(name) + "&"@
                + "per_page"@ + "="@ + url_segment("20"@)
        }),
{
    up_to_four_fields(
        gl.base(),
        "/projects"@,
        ("search"@, path),
        ("simple"@, "true"@),
        ("per_page"@, "20"@),
        ("order_by"@, "id"@),
    );
    up_to_four_fields(
        gl.base(),
        "/groups"@,
        ("search"@, path),
        ("per_page"@, "5"@),
        ("per_page"@, "5"@),
        ("per_page"@, "5"@),
    );
    up_to_four_fields(
        gl.base(),
        path,
        ("scope"@, "blobs"@),
        ("search"@, name),
        ("per_page"@, "20"@),
        ("per_page"@, "20"@),
    );
}

/// A page of commits is found below the repository of its project: first the path that the
/// commits touched and the revision that they lead to, where they are given, and then size and
/// number of the page.
pub proof fn logs_have_addresses(
    gl: GitLab,
    id: u64,
    path: Option<Seq<char>>,
    name: Option<Seq<char>>,
    size: nat,
    page: u32,
)
    ensures
        ({
            let root = gl.base() + "/api/v4"@ + ("/projects/"@ + text::decimal(id as nat)
                + "/repository"@ + "/commits"@);
            let url = gl.commit_log_address(id, path, name, size, page);
            let begun = match (path, name) {
                (Some(p), Some(r)) => root + "?"@ + "path"@ + "="@ + url_segment(p) + "&"@
                    + "ref_name"@ + "="@ + url_segment(r) + "&"@,
                (Some(p), None) => root + "?"@ + "path"@ + "="@ + url_segment(p) + "&"@,
                (None, Some(r)) => root + "?"@ + "ref_name"@ + "="@ + url_segment(r) + "&"@,
                (None, None) => root + "?"@,
            };
            url == begun + "per_page"@ + "="@ + url_segment(text::decimal(size)) + "&"@ + "page"@
                + "="@ + url_segment(text::decimal(page as nat))
        }),
{
    let base = gl.base();
    let resource = "/projects/"@ + text::decimal(id as nat) + "/repository"@ + "/commits"@;
    let s = ("per_page"@, text::decimal(size));
    let n = ("page"@, text::decimal(page as nat));
    let query = log_query(path, name, size, page as nat);
    match (path, name) {
        (Some(p), Some(r)) => {
            assert(query =~= seq![("path"@, p), ("ref_name"@, r), s, n]);
            up_to_four_fields(base, resource, ("path"@, p), ("ref_name"@, r), s, n);
        },
        (Some(p), None) => {
            assert(query =~= seq![("path"@, p), s, n]);
            up_to_four_fields(base, resource, ("path"@, p), s, n, n);
        },
        (None, Some(r)) => {
            assert(query =~= seq![("ref_name"@, r), s, n]);
            up_to_four_fields(base, resource, ("ref_name"@, r), s, n, n);
        },
        (None, None) => {
            assert(query =~= seq![s, n]);
            up_to_four_fields(base, resource, s, n, n, n);
        },
    }
}

/// Letters, digits and `-`, `_`, `.` and `~` stay in an address as they are.
pub proof fn plain_texts_stay(s: Seq<char>)
    requires
        forall|i: int|
            0 <= i < s.len() ==> {
                let c = #[trigger] s[i];
                'A' <= c <= 'Z' || 'a' <= c <= 'z' || '0' <= c <= '9' || c == '-' || c == '_' || c
                    == '.' || c == '~'
            },
    ensures
        url_segment(s) == s,
{
    assert(is_ascii_chars(s));
    is_ascii_chars_encode_utf8(s);
    let bytes = encode_utf8(s);
    assert forall|i: int| 0 <= i < bytes.len() implies encode::kept(#[trigger] bytes[i], true) by {
        assert(s[i] as u8 == bytes[i]);
    }
    kept_bytes_stay(bytes);
    assert(url_segment(s) =~= s);
}

proof fn kept_bytes_stay(bytes: Seq<u8>)
    requires
        forall|i: int| 0 <= i < bytes.len() ==> encode::kept(#[trigger] bytes[i], true),
    ensures
        encode::percent(bytes, true).len() == bytes.len(),
        forall|i: int|
            0 <= i < bytes.len() ==> #[trigger] encode::percent(bytes, true)[i]
                == bytes[i] as char,
    decreases bytes.len(),
{
    if bytes.len() > 0 {
        let rest = bytes.skip(1);
        assert forall|i: int| 0 <= i < rest.len() implies encode::kept(
            #[trigger] rest[i],
            true,
        ) by {
            assert(encode::kept(bytes[i + 1], true));
        }
        kept_bytes_stay(rest);
        assert(encode::kept(bytes[0], true));
        assert forall|i: int| 0 <= i < bytes.len() implies #[trigger] encode::percent(
            bytes,
            true,
        )[i] == bytes[i] as char by {
            if i > 0 {
                assert(encode::percent(bytes, true)[i] == encode::percent(rest, true)[i - 1]);
            }
        }
    }
}

/// A slash in a text is escaped where the text is a segment of an address, and so is every other
/// character that is reserved there; what is escaped can be read back.
pub proof fn segments_are_escaped(s: Seq<char>)
    ensures
        encode::percent_decode(url_segment(s)) == encode_utf8(s),
        forall|i: int|
            0 <= i < url_segment(s).len() ==> {
                let c = #[trigger] url_segment(s)[i];
                c != '/' && c != '?' && c != '#' && c != '&' && c != '=' && c != '+' && c != ' '
            },
{
    encode::percent_roundtrip(encode_utf8(s), true);
    encode::percent_alphabet(encode_utf8(s), true);
}

/// What the server leaves out of a project has a default: its branch is `main`, and its page and
/// its remote lie at GitLab's own instance by its path. What the server says stands.
pub proof fn projects_have_defaults(p: Project, hit: BlobHit)
    ensures
        p.default_branch matches Some(name) ==> p.branch_text() == name@,
        p.default_branch is None ==> p.branch_text() == "main"@,
        p.web_url matches Some(url) ==> p.web_text() == url@,
        p.web_url is None ==> p.web_text() == "https://gitlab.com/"@ + p.path_with_namespace@,
        p.http_url_to_repo matches Some(url) ==> p.clone_remote_text() == url@,
        p.http_url_to_repo is None ==> p.clone_remote_text() == "https://gitlab.com/"@
            + p.path_with_namespace@ + ".git"@,
        hit.git_ref matches Some(name) ==> hit.branch_text() == name@,
        hit.git_ref is None ==> hit.branch_text() == "main"@,
{
}

/// Only the status 404 says that something is missing.
pub proof fn only_one_status_means_missing(e: ApiError)
    ensures
        e matches ApiError::Api { status, .. } ==> (e.is_missing() <==> status == 404),
        e is Network ==> !e.is_missing(),
{
}

/// An error answer says what stands under `message`, where that is a text; what stands under
/// `error`, where there is no `message` and that is a text; and else its status. It keeps its
/// status, and a number in its `Retry-After` header.
pub proof fn errors_say_what_the_answer_says(
    e: ApiError,
    status: u16,
    retry_after: Option<&str>,
    answer: Option<JsonView>,
)
    requires
        told_by(e, status, retry_after, answer),
    ensures
        e is Api,
        e->status == status,
        e->retry_after == match retry_after {
            Some(header) => text::uint_of(header@),
            None => None,
        },
        ({
            let spoken = match answer {
                Some(a) => a.member("message"@),
                None => None,
            };
            let named = match answer {
                Some(a) => a.member("error"@),
                None => None,
            };
            let plain = "gitlab http "@ + text::decimal(status as nat);
            &&& spoken matches Some(JsonView::Str(m)) ==> e->message@ == m
            &&& spoken is Some && !(spoken->0 is Str) ==> e->message@ == plain
            &&& spoken is None && named is Some && named->0 is Str ==> e->message@
                == named->0->Str_0
            &&& spoken is None && !(named is Some && named->0 is Str) ==> e->message@ == plain
        }),
{
}

/// A lookup that finds nothing, or an empty text, changes nothing.
pub proof fn empty_tokens_are_none(finds: Seq<Option<Seq<char>>>)
    ensures
        held_after(seq![]) is None,
        held_after(finds.push(None)) == held_after(finds),
        held_after(finds.push(Some(seq![]))) == held_after(finds),
        held_after(finds) matches Some(t) ==> t.len() > 0 && finds.contains(Some(t)),
    decreases finds.len(),
{
    assert(finds.push(None).drop_last() == finds);
    assert(finds.push(Some(seq![])).drop_last() == finds);
    if finds.len() > 0 {
        let head = finds.drop_last();
        empty_tokens_are_none(head);
        if held_after(finds) is Some {
            if held_after(head) is Some {
                let k = choose|k: int| 0 <= k < head.len() && head[k] == held_after(head);
                assert(finds[k] == held_after(head));
            } else {
                assert(finds[finds.len() - 1] == held_after(finds));
            }
        }
    }
}

/// The id of a blob is the digest of its bytes behind the word `blob`, their number and a NUL, in
/// hexadecimal.
pub proof fn blob_ids_are_digests(bytes: Seq<u8>, i: int)
    ensures
        ({
            let header = encode_utf8("blob "@ + text::decimal(bytes.len()) + seq!['\0']);
            let digest = encode::sha1_digest(header + bytes);
            &&& git_blob_id(bytes).len() == 2 * digest.len()
            &&& 0 <= i < digest.len() ==> git_blob_id(bytes)[2 * i]
                == "0123456789abcdef"@[digest[i] as int / 16] && git_blob_id(bytes)[2 * i + 1]
                == "0123456789abcdef"@[digest[i] as int % 16]
        }),
{
    reveal_strlit("\0");
    assert("\0"@ =~= seq!['\0']);
    let digest = encode::sha1_digest(blob_header(bytes.len()) + bytes);
    encode::hex_is_digits(digest);
    if 0 <= i < digest.len() {
        encode::hex_spells_each_byte(digest, i);
    }
}

/// An optional text stands for itself, an empty one too, and gives way to a default just where
/// there is none.
pub proof fn optional_texts_stand_for_themselves(
    s: Option<String>,
    t: Option<&str>,
    default: Seq<char>,
)
    ensures
        s is Some <==> maybe_text(s) is Some,
        s matches Some(x) ==> maybe_text(s) == Some(x@) && text_or(s, default) == x@,
        s is None ==> text_or(s, default) == default,
        t is Some <==> maybe_str(t) is Some,
        t matches Some(x) ==> maybe_str(t) == Some(x@),
{
}

/// The fields of a query are its keys and values, in their order.
pub proof fn queries_keep_their_fields(query: Seq<(&str, &str)>, i: int)
    ensures
        query_view(query).len() == query.len(),
        0 <= i < query.len() ==> query_view(query)[i] == (query[i].0@, query[i].1@),
{
}

} // verus!
