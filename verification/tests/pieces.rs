//! The parts that the protocol is made of, one by one.

use rootle_gitlab::api::{
    check_status, error_answer, git_blob_sha, map_send_err, urlencode_path, ApiError, BlameChunk,
    BlameCommit, BlobHit, GitLab, Project,
};
use rootle_gitlab::budget::{add_up, BlobStat, Eviction};
use rootle_gitlab::cache::{encode_component, Cache, Root};
use rootle_gitlab::cli::{version_line, Command, Options};
use rootle_gitlab::encode::{hex_text, percent_text};
use rootle_gitlab::handlers::blame::coalesce;
use rootle_gitlab::handlers::code::{
    count_occurring, hit_document, parse_query, CodeQuery, PathFilter,
};
use rootle_gitlab::handlers::log::want;
use rootle_gitlab::handlers::tree::{is_commit_sha, CachedTreeAsk};
use rootle_gitlab::handlers::{Reply, Turn};
use rootle_gitlab::paging::{LogPages, Logged, Paged, Pages};
use rootle_gitlab::text;
use rootle_gitlab::wire::{is_blank, respond, transcript};
use rootle_gitlab::{json, WireError};

fn strings(items: &[&str]) -> Vec<String> {
    items.iter().map(|s| s.to_string()).collect()
}

fn project(path: &str) -> Project {
    Project {
        id: 1,
        path_with_namespace: path.to_string(),
        default_branch: None,
        web_url: None,
        http_url_to_repo: None,
    }
}

// -- text ------------------------------------------------------------------------------------

#[test]
fn numbers_are_written_and_read_in_decimal() {
    assert_eq!(text::decimal_text(0), "0");
    assert_eq!(text::decimal_text(907), "907");
    assert_eq!(text::decimal_text(u64::MAX), "18446744073709551615");
    assert_eq!(text::parse_uint("18446744073709551615"), Some(u64::MAX));
    assert_eq!(text::parse_uint("18446744073709551616"), None);
    assert_eq!(text::parse_uint("+30"), Some(30));
    assert_eq!(text::parse_uint("007"), Some(7));
    assert_eq!(text::parse_uint(""), None);
    assert_eq!(text::parse_uint("+"), None);
    assert_eq!(text::parse_uint("-1"), None);
    assert_eq!(text::parse_uint("1 "), None);
    assert_eq!(text::parse_uint("Wed, 21 Oct 2026 07:28:00 GMT"), None);
}

#[test]
fn texts_are_split_and_joined() {
    assert_eq!(text::split("a/b//c", '/'), strings(&["a", "b", "", "c"]));
    assert_eq!(text::split("", '/'), strings(&[""]));
    assert_eq!(text::join_texts(&strings(&["a", "b", "", "c"]), "/"), "a/b//c");
    assert_eq!(text::join_texts(&Vec::new(), "/"), "");
    assert_eq!(
        text::split_once("repo:a:b", ':'),
        Some(("repo".to_string(), "a:b".to_string()))
    );
    assert_eq!(text::split_once("plain", ':'), None);
    assert_eq!(text::split_whitespace(" a\t b\u{3000}c\n"), strings(&["a", "b", "c"]));
    assert_eq!(text::split_whitespace(" \t"), Vec::<String>::new());
    assert_eq!(text::strip_prefix("tools/alpha", "tools/"), Some("alpha".to_string()));
    assert_eq!(text::strip_prefix("tools", "tools/"), None);
}

#[test]
fn texts_are_trimmed_and_searched() {
    assert_eq!(text::trim("\u{85} a b \r\n"), "a b");
    assert_eq!(text::trim_end(" a b \r\n"), " a b");
    assert_eq!(text::trim_start_matches("..rs.", '.'), "rs.");
    assert_eq!(text::trim_end_matches("https://h///", '/'), "https://h");
    assert!(text::contains("src/main.rs", "main"));
    assert!(text::contains("x", ""));
    assert!(!text::contains("ma", "main"));
    assert!(text::ends_with("src/main.rs", ".rs"));
    assert!(!text::ends_with("rs", ".rs"));
    assert!(is_blank(" \t\u{2003}"));
    assert!(is_blank(""));
    assert!(!is_blank(" x "));
}

// -- encodings -------------------------------------------------------------------------------

#[test]
fn path_components_hold_no_structure() {
    assert_eq!(encode_component("feature/x"), "feature%2Fx");
    assert_eq!(encode_component(".."), "%2E%2E");
    assert_eq!(encode_component("a\0b~c"), "a%00b%7Ec");
    assert_eq!(encode_component("ü"), "%C3%BC");
    assert_eq!(encode_component("A-z_9"), "A-z_9");
    assert_eq!(encode_component(""), "");
}

#[test]
fn addresses_keep_dots_and_tildes() {
    assert_eq!(urlencode_path("group/project"), "group%2Fproject");
    assert_eq!(urlencode_path("v1.0~rc-1_x"), "v1.0~rc-1_x");
    assert_eq!(urlencode_path("a b&c=d?e#f%"), "a%20b%26c%3Dd%3Fe%23f%25");
    assert_eq!(percent_text(&[0x00, 0xff, b'/'], true), "%00%FF%2F");
}

#[test]
fn content_ids_are_those_of_git() {
    assert_eq!(git_blob_sha(&b"fn main() {}\n".to_vec()), "f328e4d9d04c31d0d70d16d21a07d1613be9d577");
    assert_eq!(git_blob_sha(&Vec::new()), "e69de29bb2d1d6434b8b29ae775ad8c2e48c5391");
    assert!(is_commit_sha(&git_blob_sha(&Vec::new())));
    assert_eq!(hex_text(&vec![0x00, 0xab, 0x7f]), "00ab7f");
}

#[test]
fn commit_ids_are_known_by_their_shape() {
    assert!(is_commit_sha("0123456789abcdef0123456789ABCDEF01234567"));
    assert!(is_commit_sha(&"f".repeat(64)));
    assert!(!is_commit_sha(&"f".repeat(39)));
    assert!(!is_commit_sha(&"g".repeat(40)));
    assert!(!is_commit_sha(&"ü".repeat(20)));
    assert!(!is_commit_sha(""));
}

// -- entities and addresses --------------------------------------------------------------------

#[test]
fn projects_have_defaults() {
    let mut p = project("g/r");
    assert_eq!(p.branch(), "main");
    assert_eq!(p.web(), "https://gitlab.com/g/r");
    assert_eq!(p.clone_remote(), "https://gitlab.com/g/r.git");
    p.default_branch = Some("trunk".to_string());
    p.web_url = Some("w".to_string());
    p.http_url_to_repo = Some("c".to_string());
    assert_eq!(p.clone().branch(), "trunk");
    assert_eq!(p.web(), "w");
    assert_eq!(p.clone_remote(), "c");
}

#[test]
fn addresses_of_resources() {
    let gl = GitLab::new("https://git.example.com//", "TOKEN");
    assert_eq!(gl.instance(), "https://git.example.com");
    assert_eq!(gl.token_env(), "TOKEN");
    let base = "https://git.example.com/api/v4";
    assert_eq!(gl.url("/x", &vec![("a", "1 2"), ("b", "")]), format!("{base}/x?a=1%202&b="));
    assert_eq!(gl.project("a/b/c"), format!("{base}/projects/a%2Fb%2Fc"));
    assert_eq!(gl.project_by_id(7), format!("{base}/projects/7"));
    assert_eq!(gl.group("a/b"), format!("{base}/groups/a%2Fb"));
    assert_eq!(
        gl.group_projects(5, 2),
        format!("{base}/groups/5/projects?simple=true&include_subgroups=true&per_page=100&page=2")
    );
    assert_eq!(gl.branch_head(7, "r/1"), format!("{base}/projects/7/repository/branches/r%2F1"));
    assert_eq!(gl.tag_commit(7, "v1"), format!("{base}/projects/7/repository/tags/v1"));
    assert_eq!(
        gl.branches(7, 1),
        format!("{base}/projects/7/repository/branches?per_page=100&page=1")
    );
    assert_eq!(gl.tags(7, 3), format!("{base}/projects/7/repository/tags?per_page=100&page=3"));
    assert_eq!(
        gl.tree_page(7, "cafe", 1),
        format!("{base}/projects/7/repository/tree?ref=cafe&recursive=true&per_page=100&page=1")
    );
    assert_eq!(gl.blob_raw(7, "ab"), format!("{base}/projects/7/repository/blobs/ab/raw"));
    assert_eq!(
        gl.raw_file_at(7, "a/b", "m"),
        format!("{base}/projects/7/repository/files/a%2Fb/raw?ref=m")
    );
    assert_eq!(
        gl.blame(7, "a/b", "m"),
        format!("{base}/projects/7/repository/files/a%2Fb/blame?ref=m")
    );
    assert_eq!(
        gl.search_projects("q"),
        format!("{base}/projects?search=q&simple=true&per_page=20&order_by=id")
    );
    assert_eq!(gl.search_groups("q"), format!("{base}/groups?search=q&per_page=5"));
    assert_eq!(
        gl.search_blobs("/search", "a b"),
        format!("{base}/search?scope=blobs&search=a%20b&per_page=20")
    );
    assert_eq!(
        gl.commit_log(7, Some("p"), Some("r"), 4, 2),
        format!("{base}/projects/7/repository/commits?path=p&ref_name=r&per_page=4&page=2")
    );
    assert_eq!(
        gl.commit_log(7, None, None, 100, 1),
        format!("{base}/projects/7/repository/commits?per_page=100&page=1")
    );
}

// -- errors --------------------------------------------------------------------------------------

fn api_error(status: u16, retry_after: Option<u64>) -> ApiError {
    ApiError::Api { status, message: "m".to_string(), retry_after }
}

#[test]
fn statuses_have_kinds() {
    let kind = |status: u16| WireError::from_api(&api_error(status, None)).kind;
    assert_eq!(kind(401), "auth");
    assert_eq!(kind(403), "auth");
    assert_eq!(kind(404), "not_found");
    assert_eq!(kind(429), "rate_limited");
    assert_eq!(kind(0), "timeout");
    assert_eq!(kind(400), "provider");
    assert_eq!(kind(500), "provider");
    let network = WireError::from(ApiError::Network("down".to_string()));
    assert_eq!(network.kind, "network");
    assert_eq!(network.message, "down");
    assert_eq!(network.retry_after_s, None);
}

#[test]
fn throttling_comes_with_a_wait() {
    assert_eq!(WireError::from_api(&api_error(429, None)).retry_after_s, Some(30));
    assert_eq!(WireError::from_api(&api_error(429, Some(7))).retry_after_s, Some(7));
    assert_eq!(WireError::from_api(&api_error(503, Some(7))).retry_after_s, Some(7));
    assert_eq!(WireError::from_api(&api_error(503, None)).retry_after_s, None);
    let text = WireError::from_api(&api_error(429, None)).to_json().to_string();
    assert_eq!(
        text,
        r#"{"code":1,"data":{"kind":"rate_limited","retry_after_s":30},"message":"m"}"#
    );
}

#[test]
fn error_answers_say_what_went_wrong() {
    let message = |body: &str| match check_status(500, None, body.as_bytes()) {
        Err(e) => e.describe(),
        Ok(()) => panic!("the status is an error"),
    };
    assert_eq!(message(r#"{"message": "a", "error": "b"}"#), "a");
    assert_eq!(message(r#"{"error": "b"}"#), "b");
    assert_eq!(message(r#"{"message": {"base": []}, "error": "b"}"#), "gitlab http 500");
    assert_eq!(message("[]"), "gitlab http 500");
    assert_eq!(message("<html>"), "gitlab http 500");
    assert!(check_status(200, None, b"").is_ok());
    assert!(check_status(299, None, b"").is_ok());
    assert!(check_status(199, None, b"").is_err());
    assert!(check_status(300, None, b"").is_err());
    let wait = |header: &str| match error_answer(429, Some(header), None) {
        ApiError::Api { retry_after, .. } => retry_after,
        ApiError::Network(_) => panic!("the server answered"),
    };
    assert_eq!(wait("37"), Some(37));
    assert_eq!(wait("soon"), None);
    assert!(matches!(map_send_err(true, "x"), ApiError::Api { status: 0, .. }));
    assert!(matches!(map_send_err(false, "x"), ApiError::Network(m) if m == "x"));
    assert!(api_error(404, None).missing());
    assert!(!api_error(410, None).missing());
}

// -- pages -----------------------------------------------------------------------------------------

#[test]
fn listings_end_with_a_short_page_or_at_the_cap() {
    let pages: Pages<u32> = Pages::new(150);
    assert_eq!(pages.page(), 1);
    assert!(Pages::<u32>::new(150).full().is_none());
    let pages = match pages.next((0..100).collect()) {
        Paged::More(pages) => pages,
        Paged::Done(..) => panic!("the page was full"),
    };
    assert_eq!(pages.page(), 2);
    match pages.next((100..200).collect()) {
        Paged::Done(items, truncated) => {
            assert_eq!(items, (0..150).collect::<Vec<u32>>());
            assert!(truncated);
        }
        Paged::More(_) => panic!("the cap was passed"),
    }
    let pages: Pages<u32> = Pages::new(60);
    match pages.next((0..60).collect()) {
        Paged::Done(items, truncated) => {
            assert_eq!(items.len(), 60);
            assert!(!truncated);
        }
        Paged::More(_) => panic!("the page was short"),
    }
    let pages: Pages<u32> = Pages::new(100);
    match pages.next((0..100).collect()) {
        Paged::More(pages) => {
            assert_eq!(pages.page(), 2);
            assert_eq!(pages.full().unwrap().len(), 100);
        }
        Paged::Done(..) => panic!("nothing shows that the listing ends"),
    }
}

#[test]
fn logs_ask_for_one_commit_more() {
    let pages: LogPages<u32> = LogPages::new(150);
    assert_eq!(pages.per_page(), 100);
    let pages = match pages.next((0..100).collect()) {
        Logged::More(pages) => pages,
        Logged::Done(..) => panic!("the page was full"),
    };
    assert_eq!(pages.page(), 2);
    match pages.next((100..150).collect()) {
        Logged::Done(items, truncated) => {
            assert_eq!(items.len(), 150);
            assert!(!truncated);
        }
        Logged::More(_) => panic!("the page was short"),
    }
    let pages: LogPages<u32> = LogPages::new(98);
    assert_eq!(pages.per_page(), 99);
    match pages.next((0..99).collect()) {
        Logged::Done(items, truncated) => {
            assert_eq!(items.len(), 98);
            assert!(truncated);
        }
        Logged::More(_) => panic!("there were enough"),
    }
    assert_eq!(want(None), 500);
    assert_eq!(want(Some(0)), 1);
    assert_eq!(want(Some(999)), 999);
    assert_eq!(want(Some(u64::MAX)), 1000);
}

// -- the cache -------------------------------------------------------------------------------------

fn cache() -> Cache {
    Cache::new(Root::Text("/c".to_string()), Root::Absent)
}

#[test]
fn cached_things_lie_where_they_are_written() {
    let c = cache();
    assert_eq!(c.project("g/r").unwrap(), "projects/g%2Fr.json");
    assert_eq!(c.drop_project("g/r").unwrap(), "projects/g%2Fr.json");
    let w = c.put_project(&project("g/r"), b"body".to_vec()).unwrap();
    assert_eq!((w.dir.as_str(), w.name.as_str()), ("projects", "g%2Fr.json"));
    assert_eq!(w.bytes, b"body");
    assert_eq!(c.branch_head(7, "a/b").unwrap(), "branches/7/a%2Fb");
    let w = c.put_branch_head(7, "a/b", "cafe").unwrap();
    assert_eq!((w.dir.as_str(), w.name.as_str()), ("branches/7", "a%2Fb"));
    assert_eq!(w.bytes, b"cafe");
    assert_eq!(Cache::stored_head("cafe\n").commit, "cafe");
    assert_eq!(c.tree("cafe").unwrap(), "trees/cafe.json");
    let w = c.put_tree("cafe", b"{}".to_vec()).unwrap();
    assert_eq!((w.dir.as_str(), w.name.as_str()), ("trees", "cafe.json"));
    assert_eq!(c.blob("abcd").unwrap(), "blobs/ab/cd");
    assert_eq!(c.blob_path("abcd").unwrap(), "blobs/ab/cd");
    let w = c.put_blob("abcd", vec![1, 2]).unwrap();
    assert_eq!((w.dir.as_str(), w.name.as_str()), ("blobs/ab", "cd"));
    assert_eq!(w.bytes, vec![1, 2]);
    assert_eq!(c.blob("x").unwrap(), "blobs/x/");
    assert_eq!(c.blob("..").unwrap(), "blobs/%2/E%2E");
}

#[test]
fn a_cache_without_a_root_does_nothing() {
    let c = Cache::new(Root::Absent, Root::Absent);
    assert!(c.root_as_str().is_none());
    assert!(c.project("p").is_none());
    assert!(c.put_tree("s", Vec::new()).is_none());
    assert!(c.put_blob("s", Vec::new()).is_none());
    assert!(c.put_branch_head(1, "b", "c").is_none());
    assert_eq!(c.size_bytes(&vec![1, 2]), 0);
    assert!(c.enforce_budget(0, &vec![1], &Vec::new()).is_none());
    let opaque = Cache::new(Root::Opaque, Root::Absent);
    assert!(opaque.root_as_str().is_none());
    assert!(opaque.tree("s").is_some());
}

#[test]
fn the_root_is_the_base_or_the_default_place() {
    let root = |base: Root, user: Root| {
        Cache::new(base, user).root_as_str().map(|s| s.to_string())
    };
    let text = |s: &str| Root::Text(s.to_string());
    assert_eq!(root(text("/b"), text("/u")).unwrap(), "/b");
    assert_eq!(root(Root::Absent, text("/u")).unwrap(), "/u/rootle/providers/rootle-gitlab");
    assert_eq!(root(Root::Absent, text("/u/")).unwrap(), "/u/rootle/providers/rootle-gitlab");
    assert_eq!(root(Root::Absent, Root::Absent), None);
    assert_eq!(root(Root::Opaque, text("/u")), None);
    assert!(Cache::new(Root::Absent, Root::Opaque).tree("s").is_some());
    assert!(Cache::new(Root::Absent, Root::Absent).tree("s").is_none());
}

#[test]
fn tokens_are_looked_up_until_one_is_found() {
    let gl = GitLab::new("h", "VAR");
    assert_eq!(gl.token(None, Some("a".to_string())).unwrap(), "a");
    assert_eq!(gl.token(Some("a"), Some("b".to_string())).unwrap(), "a");
    assert_eq!(gl.token(Some("a"), None).unwrap(), "a");
    for none in [None, Some(String::new())] {
        match gl.token(None, none) {
            Err(ApiError::Api { status: 401, message, retry_after: None }) => {
                assert!(message.starts_with("no VAR in environment"))
            }
            _ => panic!("there is no token"),
        }
    }
}

#[test]
fn the_reply_is_the_last_line() {
    let reply = || Reply { partial: Some(json::null()), result: Ok(json::uint(7)) };
    let lines = transcript(json::uint(1), reply());
    assert_eq!(lines.len(), 2);
    assert_eq!(respond(json::uint(1), reply()), lines[1]);
    assert_eq!(lines[1], r#"{"id":1,"jsonrpc":"2.0","result":7}"#);
}

#[test]
fn a_cache_is_moved_once() {
    let mut c = cache();
    c.reroot("/d");
    assert_eq!(c.root_as_str(), Some("/d"));
    c.reroot("/d");
    assert_eq!(c.root_as_str(), Some("/d"));
    let mut c = Cache::new(Root::Opaque, Root::Absent);
    c.reroot("/d");
    assert_eq!(c.root_as_str(), Some("/d"));
}

#[test]
fn the_oldest_blobs_leave_until_the_rest_fits() {
    let stats = |list: &[(u64, i128)]| -> Vec<BlobStat> {
        list.iter().map(|(size, mtime)| BlobStat { size: *size, mtime: *mtime }).collect()
    };
    let run = |mut e: Eviction, stuck: &[usize]| {
        let mut tried: Vec<usize> = Vec::new();
        while let Some(i) = e.candidate() {
            tried.push(i);
            e.settle(!stuck.contains(&i));
        }
        tried
    };
    let c = cache();
    let sizes = vec![1000, 2000, 3000];
    let blobs = stats(&[(1000, 30), (2000, -10), (3000, 20)]);
    assert!(c.enforce_budget(6000, &sizes, &blobs).is_none());
    let tried = |budget: u64, stuck: &[usize]| {
        run(c.enforce_budget(budget, &sizes, &blobs).unwrap(), stuck)
    };
    assert_eq!(tried(5999, &[]), vec![1]);
    assert_eq!(tried(4000, &[]), vec![1]);
    assert_eq!(tried(3999, &[]), vec![1, 2]);
    assert_eq!(tried(0, &[]), vec![1, 2, 0]);
    assert_eq!(tried(4000, &[1]), vec![1, 2]);
    assert_eq!(tried(0, &[0, 1, 2]), vec![1, 2, 0]);
    let even = stats(&[(1, 5), (1, 5), (1, 4), (1, 5)]);
    assert_eq!(run(Eviction::new(10, &even), &[]), vec![2, 0, 1, 3]);
    assert_eq!(add_up(&sizes), 6000);
}

// -- blame and code search -------------------------------------------------------------------------

#[test]
fn ranges_cover_a_file() {
    let chunk = |sha: Option<&str>, lines: usize| BlameChunk {
        commit: sha.map(|id| BlameCommit {
            id: id.to_string(),
            author_name: Some(format!("by {id}")),
            committed_date: None,
        }),
        lines: vec![String::new(); lines],
    };
    let chunks = vec![
        chunk(Some("a"), 2),
        chunk(None, 1),
        chunk(None, 2),
        chunk(Some("b"), 0),
        chunk(Some(""), 1),
        chunk(Some("a"), 1),
    ];
    let ranges: Vec<(u64, u64, String, String)> = coalesce(&chunks)
        .into_iter()
        .map(|r| (r.start_line, r.end_line, r.sha, r.author))
        .collect();
    assert_eq!(
        ranges,
        vec![
            (1, 2, "a".to_string(), "by a".to_string()),
            (3, 6, String::new(), String::new()),
            (7, 7, "a".to_string(), "by a".to_string()),
        ]
    );
    assert!(coalesce(&Vec::new()).is_empty());
}

#[test]
fn queries_are_taken_apart() {
    let q = parse_query("  fn repo:g/r org:g path:Src extension:..RS lang:rust main: repo:x/y:z");
    assert_eq!(q.repo.as_deref(), Some("x/y:z"));
    assert_eq!(q.org.as_deref(), Some("g"));
    assert_eq!(q.path.as_deref(), Some("Src"));
    assert_eq!(q.extension.as_deref(), Some("RS"));
    assert_eq!(q.terms, strings(&["fn", "lang:rust", "main:"]));
    let q = parse_query("");
    assert!(q.repo.is_none() && q.org.is_none() && q.path.is_none() && q.extension.is_none());
    assert!(q.terms.is_empty());
    assert_eq!(parse_query("Repo:a :b").terms, strings(&["Repo:a", ":b"]));
    assert_eq!(parse_query("repo:").repo.as_deref(), Some(""));
}

fn filter(path: Option<&str>, extension: Option<&str>) -> PathFilter {
    PathFilter::of(&CodeQuery {
        repo: None,
        org: None,
        path: path.map(|s| s.to_string()),
        extension: extension.map(|s| s.to_string()),
        terms: Vec::new(),
    })
}

#[test]
fn paths_are_filtered_in_lower_case() {
    assert!(filter(None, None).admits("anything"));
    assert!(filter(Some("SRC/"), None).admits("a/src/b"));
    assert!(!filter(Some("SRC/"), None).admits("a/src"));
    assert!(filter(None, Some("Rs")).admits("a.rs"));
    assert!(!filter(None, Some("rs")).admits("a.ars"));
    assert!(!filter(Some("x"), Some("rs")).admits("a.rs"));
    assert_eq!(filter(Some("ÄÖ"), None).path.as_deref(), Some("äö"));
}

#[test]
fn hits_are_counted_and_shown() {
    assert_eq!(count_occurring(&strings(&["fn", "main", "x", "fn"]), "fn main()"), 3);
    assert_eq!(count_occurring(&Vec::new(), "fn"), 0);
    let hit = BlobHit {
        project_id: 1,
        path: "a/b".to_string(),
        git_ref: Some("dev".to_string()),
        startline: Some(12),
        data: Some("x".to_string()),
    };
    assert_eq!(hit.branch(), "dev");
    assert_eq!(
        hit_document("g/r", &hit, 2).to_string(),
        [
            r#"{"branch":"dev","line":12,"located":true,"match_count":2,"path":"a/b","#,
            r#""preview":[[12,"x"]],"repo":"g/r","sha":""}"#,
        ]
        .concat()
    );
}

// -- trees -----------------------------------------------------------------------------------------

fn tree_ask() -> CachedTreeAsk {
    CachedTreeAsk {
        project_id: 1,
        label: "dev".to_string(),
        sha: "cafe".to_string(),
        origin: None,
    }
}

fn given(turn: Turn) -> Option<String> {
    match turn {
        Turn::Reply(reply) => match reply.result {
            Ok(v) => Some(v.to_string()),
            Err(_) => None,
        },
        _ => None,
    }
}

#[test]
fn cached_trees_are_labelled_anew() {
    assert_eq!(
        given(tree_ask().resume(Some(br#"{"entries":[],"branch":"main"}"#.to_vec()))).unwrap(),
        r#"{"branch":"dev","entries":[]}"#
    );
    assert!(matches!(tree_ask().serve(Some(json::null())), Turn::TreePage(_)));
    assert!(matches!(tree_ask().serve(Some(json::uint(7))), Turn::TreePage(_)));
    assert!(matches!(tree_ask().resume(Some(b"[]".to_vec())), Turn::TreePage(_)));
    assert!(matches!(tree_ask().resume(Some(b"{".to_vec())), Turn::TreePage(_)));
    assert!(matches!(tree_ask().resume(None), Turn::TreePage(_)));
}

// -- the command line --------------------------------------------------------------------------------

fn served(args: &[&str]) -> Options {
    match Command::parse(&strings(args)) {
        Command::Serve(options) => options,
        _ => panic!("the flags are known"),
    }
}

#[test]
fn version_flag_smokes() {
    assert!(matches!(Command::parse(&strings(&["p", "--version"])), Command::Version));
    assert!(matches!(Command::parse(&strings(&["p", "--bad", "-V"])), Command::Version));
    assert!(matches!(Command::parse(&strings(&["p", "--cache", "-V"])), Command::Version));
    let line = version_line("0.5.0");
    assert!(line.starts_with("rootle-gitlab "), "got: {line}");
    assert_eq!(line, "rootle-gitlab 0.5.0");
}

#[test]
fn flags_set_options() {
    let o = served(&["p"]);
    assert_eq!(o.instance, "https://gitlab.com");
    assert_eq!(o.token_env, "GITLAB_TOKEN");
    assert!(o.cache.is_none());
    let o = served(&["p", "--instance", "i", "--token-env", "t", "--cache", "c", "--instance", "j"]);
    assert_eq!(o.instance, "j");
    assert_eq!(o.token_env, "t");
    assert_eq!(o.cache.as_deref(), Some("c"));
    assert_eq!(served(&["p", "--instance"]).instance, "");
    assert_eq!(served(&["p", "--token-env"]).token_env, "");
    assert!(served(&["p", "--cache", "c", "--cache"]).cache.is_none());
    assert!(served(&[]).cache.is_none());
    assert!(
        matches!(Command::parse(&strings(&["p", "--cache", "c", "x"])), Command::Unknown(f) if f == "x")
    );
}

// -- documents ---------------------------------------------------------------------------------------

#[test]
fn documents_are_built_and_read() {
    let v = json::with(json::object(), "a", json::list(vec![json::uint(1), json::null()]));
    let v = json::with(v, "b", json::string("x\u{1}\"é"));
    let v = json::with(v, "a2", json::flag(true));
    assert_eq!(v.to_string(), "{\"a\":[1,null],\"a2\":true,\"b\":\"x\\u0001\\\"é\"}");
    assert_eq!(json::text_of(&v, "b"), Some("x\u{1}\"é"));
    assert_eq!(json::text_of(&v, "a"), None);
    assert_eq!(json::text_of(&json::null(), "a"), None);
    assert_eq!(json::flag_of(&v, "a2"), Some(true));
    let n: serde_json::Value = serde_json::from_str(r#"{"p": 5, "n": -5, "f": 5.0}"#).unwrap();
    assert_eq!(json::uint_of(&n, "p"), Some(5));
    assert_eq!(json::uint_of(&n, "n"), None);
    assert_eq!(json::uint_of(&n, "f"), None);
}
