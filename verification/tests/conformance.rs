//! Every protocol method against a scripted server and a cache in memory.

use base64::Engine;
use rootle_gitlab::api::{
    check_status, map_send_err, ApiError, ApiResult, BlameChunk, BlameCommit, BlobHit, Branch,
    BranchCommit, Commit, Group, Project, Tag, TreeEntry,
};
use rootle_gitlab::budget::BlobStat;
use rootle_gitlab::cache::Root;
use rootle_gitlab::handlers::initialize::HandshakeAsk;
use rootle_gitlab::handlers::{Effect, Reply, Step, Turn};
use rootle_gitlab::wire::{transcript, Request};
use rootle_gitlab::Handler;
use serde_json::Value;

// -- the scripted server -------------------------------------------------------------------

struct Route {
    path: String,
    query: Vec<(String, String)>,
    absent: Vec<String>,
    status: u16,
    retry_after: Option<String>,
    body: Vec<u8>,
    calls: u32,
}

struct World {
    handler: Handler,
    token: Option<String>,
    routes: Vec<Route>,
    files: Vec<(String, Vec<u8>, i128)>,
    clock: i128,
    asked: Vec<String>,
}

const BASE: &str = "https://gitlab.example.com";

fn world() -> World {
    World {
        handler: Handler::new(BASE, "GL_TEST_TOKEN", Root::Text("/cache".to_string()), Root::Absent),
        token: Some("glpat-test".to_string()),
        routes: Vec::new(),
        files: Vec::new(),
        clock: 0,
        asked: Vec::new(),
    }
}

fn unescape(s: &str) -> String {
    let bytes = s.as_bytes();
    let mut out: Vec<u8> = Vec::new();
    let mut i: usize = 0;
    while i < bytes.len() {
        if bytes[i] == b'%' {
            out.push(u8::from_str_radix(&s[i + 1..i + 3], 16).unwrap());
            i += 3;
        } else {
            out.push(bytes[i]);
            i += 1;
        }
    }
    String::from_utf8(out).unwrap()
}

impl World {
    fn mount(&mut self, path: &str, query: &[(&str, &str)], status: u16, body: &str) {
        self.mount_bytes(path, query, status, body.as_bytes().to_vec());
    }

    fn mount_bytes(&mut self, path: &str, query: &[(&str, &str)], status: u16, body: Vec<u8>) {
        self.routes.push(Route {
            path: path.to_string(),
            query: query.iter().map(|(k, v)| (k.to_string(), v.to_string())).collect(),
            absent: Vec::new(),
            status,
            retry_after: None,
            body,
            calls: 0,
        });
    }

    fn mount_project(&mut self, id: u64, path: &str) {
        let at = format!("/api/v4/projects/{}", path.replace('/', "%2F"));
        self.mount(&at, &[], 200, &project_json(id, path));
    }

    fn calls(&self, path: &str) -> u32 {
        self.routes.iter().filter(|r| r.path == path).map(|r| r.calls).sum()
    }

    fn get(&mut self, url: String) -> ApiResult<Vec<u8>> {
        self.handler.gl.token(None, self.token.clone())?;
        self.asked.push(url.clone());
        let rest = url.strip_prefix(self.handler.gl.instance()).expect("address below the base");
        let (path, query) = match rest.split_once('?') {
            Some((path, query)) => (path, query),
            None => (rest, ""),
        };
        let fields: Vec<(String, String)> = query
            .split('&')
            .filter_map(|f| f.split_once('='))
            .map(|(k, v)| (k.to_string(), unescape(v)))
            .collect();
        for r in &mut self.routes {
            let fits = r.path == path
                && r.query.iter().all(|q| fields.contains(q))
                && r.absent.iter().all(|a| fields.iter().all(|(k, _)| k != a));
            if fits {
                r.calls += 1;
                check_status(r.status, r.retry_after.as_deref(), &r.body)?;
                return Ok(r.body.clone());
            }
        }
        check_status(404, None, b"")?;
        unreachable!()
    }

    fn get_json<T>(&mut self, url: String, read: fn(&Value) -> Option<T>) -> ApiResult<T> {
        let body = self.get(url)?;
        serde_json::from_slice::<Value>(&body)
            .ok()
            .and_then(|v| read(&v))
            .ok_or_else(|| map_send_err(false, "error decoding response body"))
    }

    fn get_list<T>(&mut self, url: String, read: fn(&Value) -> Option<T>) -> ApiResult<Vec<T>> {
        let body = self.get(url)?;
        serde_json::from_slice::<Value>(&body)
            .ok()
            .and_then(|v| v.as_array().and_then(|items| items.iter().map(read).collect()))
            .ok_or_else(|| map_send_err(false, "error decoding response body"))
    }

    fn read(&self, location: Option<String>) -> Option<Vec<u8>> {
        let location = location?;
        self.files.iter().find(|f| f.0 == location).map(|f| f.1.clone())
    }

    fn write(&mut self, location: String, bytes: Vec<u8>) {
        self.files.retain(|f| f.0 != location);
        self.clock += 1;
        self.files.push((location, bytes, self.clock));
    }

    fn put_blob(&mut self, sha: &str, bytes: Vec<u8>) {
        let w = self.handler.cache.put_blob(sha, bytes).unwrap();
        self.write(format!("{}/{}", w.dir, w.name), w.bytes);
    }

    fn apply(&mut self, effect: Option<Effect>) {
        let write = match effect {
            None => None,
            Some(Effect::StoreProject(p)) => {
                let body = project_text(&p).into_bytes();
                self.handler.cache.put_project(&p, body)
            }
            Some(Effect::DropProject(path)) => {
                if let Some(location) = self.handler.cache.drop_project(&path) {
                    self.files.retain(|f| f.0 != location);
                }
                None
            }
            Some(Effect::StoreTree { sha, body }) => self.handler.cache.put_tree(&sha, body),
            Some(Effect::StoreBlob { sha, bytes }) => self.handler.cache.put_blob(&sha, bytes),
        };
        if let Some(w) = write {
            self.write(format!("{}/{}", w.dir, w.name), w.bytes);
        }
    }

    fn after(&mut self, step: Step) -> Turn {
        self.apply(step.effect);
        step.turn
    }

    fn sizes(&self) -> Vec<u64> {
        self.files.iter().map(|f| f.1.len() as u64).collect()
    }

    fn shake_hands(&mut self, ask: HandshakeAsk) -> Turn {
        ask.settle(&mut self.handler.cache);
        let blobs: Vec<(String, u64, i128)> = self
            .files
            .iter()
            .filter(|f| f.0.starts_with("blobs/"))
            .map(|f| (f.0.clone(), f.1.len() as u64, f.2))
            .collect();
        let stats: Vec<BlobStat> =
            blobs.iter().map(|b| BlobStat { size: b.1, mtime: b.2 }).collect();
        let mut turn = ask.resume(&self.handler.cache, &self.sizes(), &stats);
        while let Turn::Evict(evict) = turn {
            let place = evict.candidate();
            self.files.retain(|f| f.0 != blobs[place].0);
            turn = evict.resume(true);
        }
        turn
    }

    fn run(&mut self, first: Turn) -> Reply {
        let mut turn = first;
        loop {
            turn = match turn {
                Turn::Reply(reply) => return reply,
                Turn::Handshake(ask) => self.shake_hands(ask),
                Turn::Evict(_) => panic!("a handshake evicts before it goes on"),
                Turn::Measure(ask) => ask.resume(&self.handler.cache, &self.sizes()),
                Turn::CachedProject(ask) => {
                    let found = self
                        .read(ask.location(&self.handler.cache))
                        .and_then(|b| serde_json::from_slice::<Value>(&b).ok())
                        .and_then(|v| project(&v));
                    ask.resume(found)
                }
                Turn::Project(ask) => {
                    let answer = self.get_json(ask.url(&self.handler.gl), project);
                    let step = ask.resume(answer);
                    self.after(step)
                }
                Turn::Group(ask) => {
                    let answer = self.get_json(ask.url(&self.handler.gl), group);
                    ask.resume(answer)
                }
                Turn::Projects(ask) => {
                    let answer = self.get_list(ask.url(&self.handler.gl), project);
                    ask.resume(answer)
                }
                Turn::Groups(ask) => {
                    let answer = self.get_list(ask.url(&self.handler.gl), group);
                    ask.resume(answer)
                }
                Turn::GroupPage(ask) => {
                    let answer = self.get_list(ask.url(&self.handler.gl), project);
                    ask.resume(answer)
                }
                Turn::Head(ask) => {
                    let answer = self.get_json(ask.url(&self.handler.gl), branch);
                    let step = ask.resume(answer);
                    self.after(step)
                }
                Turn::Tag(ask) => {
                    let answer = self.get_json(ask.url(&self.handler.gl), |v| commit_id(v));
                    let step = ask.resume(answer);
                    self.after(step)
                }
                Turn::CachedTree(ask) => {
                    let found = self.read(ask.location(&self.handler.cache));
                    ask.resume(found)
                }
                Turn::TreePage(ask) => {
                    let answer = self.get_list(ask.url(&self.handler.gl), tree_entry);
                    let step = ask.resume(answer);
                    self.after(step)
                }
                Turn::CachedBlob(ask) => {
                    let found = self.read(ask.location(&self.handler.cache));
                    ask.resume(found)
                }
                Turn::Blob(ask) => {
                    let answer = self.get(ask.url(&self.handler.gl));
                    let step = ask.resume(answer);
                    self.after(step)
                }
                Turn::File(ask) => {
                    let answer = self.get(ask.url(&self.handler.gl));
                    let step = ask.resume(answer);
                    self.after(step)
                }
                Turn::BranchPage(ask) => {
                    let answer = self.get_list(ask.url(&self.handler.gl), branch);
                    let step = ask.resume(answer);
                    self.after(step)
                }
                Turn::TagPage(ask) => {
                    let answer = self.get_list(ask.url(&self.handler.gl), tag);
                    let step = ask.resume(answer);
                    self.after(step)
                }
                Turn::Log(ask) => {
                    let answer = self.get_list(ask.url(&self.handler.gl), commit);
                    let step = ask.resume(answer);
                    self.after(step)
                }
                Turn::Blame(ask) => {
                    let answer = self.get_list(ask.url(&self.handler.gl), blame_chunk);
                    let step = ask.resume(answer);
                    self.after(step)
                }
                Turn::Hits(ask) => {
                    let answer = self.get_list(ask.url(&self.handler.gl), blob_hit);
                    let step = ask.resume(answer);
                    self.after(step)
                }
                Turn::Hit(ask) => {
                    let answer = self.get_json(ask.url(&self.handler.gl), project);
                    let step = ask.resume(answer);
                    self.after(step)
                }
            };
        }
    }

    fn respond_transcript(&mut self, line: &str) -> Option<Vec<String>> {
        let request = Request::read(line)?;
        let turn =
            self.handler.dispatch_streaming(&request.method, &request.params, &request.id);
        let reply = self.run(turn);
        Some(transcript(request.id, reply))
    }

    fn ask_lines(&mut self, method: &str, params: &str) -> Vec<Value> {
        let line = format!(
            r#"{{"jsonrpc":"2.0","id":1,"method":"{method}","params":{params}}}"#
        );
        let lines = self.respond_transcript(&line).expect("a request gets a reply");
        lines.iter().map(|l| json(l)).collect()
    }

    fn ask(&mut self, method: &str, params: &str) -> Value {
        self.ask_lines(method, params).pop().unwrap()
    }

    fn result(&mut self, method: &str, params: &str) -> Value {
        self.ask(method, params)["result"].clone()
    }

    fn error(&mut self, method: &str, params: &str) -> Value {
        self.ask(method, params)["error"].clone()
    }
}

// -- documents and entities ------------------------------------------------------------------

fn json(text: &str) -> Value {
    serde_json::from_str(text).unwrap()
}

fn text(v: &Value, key: &str) -> Option<String> {
    v.get(key).and_then(|s| s.as_str()).map(|s| s.to_string())
}

fn project_json(id: u64, path: &str) -> String {
    format!(
        r#"{{"id":{id},"path_with_namespace":"{path}","default_branch":"main",
            "web_url":"https://gitlab.example.com/{path}",
            "http_url_to_repo":"https://gitlab.example.com/{path}.git"}}"#
    )
}

fn project_text(p: &Project) -> String {
    let quoted = |s: &Option<String>| match s {
        Some(s) => Value::from(s.as_str()).to_string(),
        None => "null".to_string(),
    };
    format!(
        r#"{{"id":{},"path_with_namespace":{},"default_branch":{},"web_url":{},"http_url_to_repo":{}}}"#,
        p.id,
        Value::from(p.path_with_namespace.as_str()),
        quoted(&p.default_branch),
        quoted(&p.web_url),
        quoted(&p.http_url_to_repo),
    )
}

fn project(v: &Value) -> Option<Project> {
    Some(Project {
        id: v.get("id")?.as_u64()?,
        path_with_namespace: text(v, "path_with_namespace")?,
        default_branch: text(v, "default_branch"),
        web_url: text(v, "web_url"),
        http_url_to_repo: text(v, "http_url_to_repo"),
    })
}

fn group(v: &Value) -> Option<Group> {
    Some(Group {
        id: v.get("id")?.as_u64()?,
        full_path: text(v, "full_path")?,
        web_url: text(v, "web_url")?,
    })
}

fn commit_id(v: &Value) -> Option<BranchCommit> {
    Some(BranchCommit { id: text(v.get("commit")?, "id")? })
}

fn branch(v: &Value) -> Option<Branch> {
    Some(Branch {
        name: text(v, "name"),
        default: v.get("default").and_then(|d| d.as_bool()),
        commit: commit_id(v)?,
    })
}

fn tag(v: &Value) -> Option<Tag> {
    Some(Tag { name: text(v, "name")?, commit: commit_id(v) })
}

fn tree_entry(v: &Value) -> Option<TreeEntry> {
    Some(TreeEntry { id: text(v, "id")?, kind: text(v, "type")?, path: text(v, "path")? })
}

fn commit(v: &Value) -> Option<Commit> {
    Some(Commit {
        id: text(v, "id")?,
        title: text(v, "title"),
        author_name: text(v, "author_name"),
        committed_date: text(v, "committed_date"),
    })
}

fn blame_chunk(v: &Value) -> Option<BlameChunk> {
    let lines = v.get("lines")?.as_array()?;
    Some(BlameChunk {
        commit: v.get("commit").and_then(|c| {
            Some(BlameCommit {
                id: text(c, "id")?,
                author_name: text(c, "author_name"),
                committed_date: text(c, "committed_date"),
            })
        }),
        lines: lines.iter().map(|l| l.as_str().map(|s| s.to_string())).collect::<Option<_>>()?,
    })
}

fn blob_hit(v: &Value) -> Option<BlobHit> {
    Some(BlobHit {
        project_id: v.get("project_id")?.as_u64()?,
        path: text(v, "path")?,
        git_ref: text(v, "ref"),
        startline: v.get("startline").and_then(|n| n.as_u64()).map(|n| n as u32),
        data: text(v, "data"),
    })
}

fn base64_decode(s: &str) -> Vec<u8> {
    base64::engine::general_purpose::STANDARD.decode(s).unwrap()
}

fn repeated(n: usize, item: impl Fn(usize) -> String) -> String {
    let items: Vec<String> = (0..n).map(item).collect();
    format!("[{}]", items.join(","))
}

// -- lines -------------------------------------------------------------------------------------

#[test]
fn notifications_without_an_id_are_ignored() {
    let mut w = world();
    let line = r#"{"jsonrpc":"2.0","method":"$/cancelRequest","params":{"id": 7}}"#;
    assert!(w.respond_transcript(line).is_none());
}

#[test]
fn lines_that_are_no_requests_get_no_answer() {
    let mut w = world();
    assert!(w.respond_transcript("").is_none());
    assert!(w.respond_transcript("not json").is_none());
    assert!(w.respond_transcript("[1]").is_none());
    assert!(w.respond_transcript(r#"{"id":1}"#).is_none());
    assert!(w.respond_transcript(r#"{"id":1,"method":7}"#).is_none());
    assert!(w.asked.is_empty());
}

#[test]
fn a_request_is_read_with_space_around_it_and_without_params() {
    let mut w = world();
    let lines = w.respond_transcript("  {\"id\":\"a\",\"method\":\"initialize\"}\r\n").unwrap();
    assert_eq!(lines.len(), 1);
    let reply = json(&lines[0]);
    assert_eq!(reply["id"], "a");
    assert_eq!(reply["jsonrpc"], "2.0");
    assert_eq!(reply["result"]["protocol"], 1);
    assert!(reply.get("error").is_none());
}

#[test]
fn replies_stand_on_one_line() {
    let mut w = world();
    let lines =
        w.respond_transcript(r#"{"id":1,"method":"a\nb","params":{}}"#).unwrap();
    assert!(!lines[0].contains('\n'));
    assert_eq!(
        lines[0],
        r#"{"error":{"code":1,"data":{"kind":"provider"},"message":"unknown method \"a\\nb\""},"id":1,"jsonrpc":"2.0"}"#
    );
}

#[test]
fn unknown_method_is_a_provider_error() {
    let mut w = world();
    let e = w.error("repo/issues", "{}");
    assert_eq!(e["data"]["kind"], "provider");
    assert!(e["message"].as_str().unwrap().contains("unknown method"));
}

// -- the handshake -----------------------------------------------------------------------------

#[test]
fn initialize_is_pure_no_network() {
    let mut w = world();
    let r = w.result("initialize", r#"{"protocol": 1}"#);
    assert_eq!(r["protocol"], 1);
    assert_eq!(r["name"], "gitlab");
    assert_eq!(r["icon"], "gitlab");
    assert_eq!(r["capabilities"]["code_search"], true);
    assert_eq!(r["capabilities"]["orgs"], true);
    assert!(w.asked.is_empty());
}

#[test]
fn initialize_reports_usage_and_enforces_the_budget() {
    let mut w = world();
    for (i, size) in [(1, 1000), (2, 2000), (3, 3000)] {
        w.put_blob(&format!("aa{:04}", i), vec![0u8; size]);
    }
    let res = w.result(
        "initialize",
        r#"{"protocol": 1, "cache_bytes": 5000, "cache_dir": "/cache"}"#,
    );
    assert_eq!(res["name"], "gitlab");
    assert_eq!(res["cache"]["bytes"].as_u64().unwrap(), 5000);
    assert!(w.read(w.handler.cache.blob("aa0001")).is_none());
    assert!(w.read(w.handler.cache.blob("aa0002")).is_some());
    assert!(w.read(w.handler.cache.blob("aa0003")).is_some());
}

#[test]
fn the_budget_is_that_of_all_files() {
    let mut w = world();
    w.write("trees/ab.json".to_string(), vec![0u8; 3000]);
    w.put_blob("aa0001", vec![0u8; 1000]);
    w.put_blob("aa0002", vec![0u8; 1000]);
    let r = w.result("initialize", r#"{"cache_bytes": 4500}"#);
    assert_eq!(r["cache"]["bytes"], 4000);
    assert!(w.read(w.handler.cache.blob("aa0001")).is_none());
    let r = w.result("initialize", r#"{"cache_bytes": 100}"#);
    assert_eq!(r["cache"]["bytes"], 3000);
    assert!(w.read(w.handler.cache.tree("ab")).is_some());
    let r = w.result("initialize", r#"{"cache_bytes": 0}"#);
    assert_eq!(r["cache"]["bytes"], 3000);
}

#[test]
fn a_second_handshake_changes_nothing() {
    for budget in ["0", "500", "1500", "2500", "9000"] {
        let mut w = world();
        w.write("trees/ab.json".to_string(), vec![0u8; 700]);
        w.put_blob("aa0001", vec![0u8; 1000]);
        w.put_blob("aa0002", vec![0u8; 1000]);
        let params = format!(r#"{{"cache_dir": "/d", "cache_bytes": {budget}}}"#);
        let first = w.result("initialize", &params);
        let files = w.files.clone();
        let second = w.result("initialize", &params);
        assert_eq!(second, first);
        assert_eq!(w.files, files);
        assert_eq!(w.handler.cache.root_as_str(), Some("/d"));
        let used: u64 = w.sizes().iter().sum();
        assert_eq!(first["cache"]["bytes"], used);
    }
}

#[test]
fn handshake_cache_dir_wins_over_the_default() {
    let mut w = world();
    assert_eq!(w.handler.cache.root_as_str(), Some("/cache"));
    w.result("initialize", r#"{"protocol": 1, "cache_dir": "/handshake"}"#);
    assert_eq!(w.handler.cache.root_as_str(), Some("/handshake"));
    let r = w.result("initialize", r#"{"protocol": 1}"#);
    assert_eq!(w.handler.cache.root_as_str(), Some("/handshake"));
    assert_eq!(r["cache"]["bytes"], 0);
}

// -- errors ------------------------------------------------------------------------------------

#[test]
fn missing_token_is_a_lazy_auth_error() {
    let mut w = world();
    w.token = None;
    let e = w.error("repo/tree", r#"{"repo":"g/r"}"#);
    assert_eq!(e["data"]["kind"], "auth");
    assert_eq!(
        e["message"],
        "no GL_TEST_TOKEN in environment — set it to a GitLab token with read_api + read_repository"
    );
    assert!(w.asked.is_empty());
    w.token = Some(String::new());
    assert_eq!(w.error("repo/tree", r#"{"repo":"g/r"}"#)["data"]["kind"], "auth");
}

#[test]
fn error_taxonomy_maps_status_to_kinds() {
    let mut w = world();
    w.mount("/api/v4/projects/g%2Fdenied", &[], 401, r#"{"message": "401 Unauthorized"}"#);
    w.mount("/api/v4/projects/g%2Fgone", &[], 404, r#"{"message": "404 Project Not Found"}"#);
    w.mount(
        "/api/v4/projects/g%2Fthrottled",
        &[],
        429,
        r#"{"message": "429 Too Many Requests"}"#,
    );
    w.routes[2].retry_after = Some("37".to_string());
    assert_eq!(w.error("repo/tree", r#"{"repo": "g/denied"}"#)["data"]["kind"], "auth");
    assert_eq!(w.error("repo/tree", r#"{"repo": "g/gone"}"#)["data"]["kind"], "not_found");
    assert_eq!(w.calls("/api/v4/projects/g%2Fgone"), 2);
    let limited = w.error("repo/tree", r#"{"repo": "g/throttled"}"#);
    assert_eq!(limited["data"]["kind"], "rate_limited");
    assert_eq!(limited["data"]["retry_after_s"], 37);
}

// -- projects ------------------------------------------------------------------------------------

#[test]
fn a_project_is_asked_for_once() {
    let mut w = world();
    w.mount_project(42, "g/r");
    w.result("repo/clone_url", r#"{"repo": "g/r"}"#);
    w.result("repo/clone_url", r#"{"repo": "g/r"}"#);
    assert_eq!(w.calls("/api/v4/projects/g%2Fr"), 1);
    assert_eq!(w.files[0].0, "projects/g%2Fr.json");
}

#[test]
fn an_unknown_project_leaves_the_cache_and_is_asked_for_again() {
    let mut w = world();
    w.write("projects/g%2Fgone.json".to_string(), b"broken".to_vec());
    assert_eq!(w.error("repo/refs", r#"{"repo": "g/gone"}"#)["data"]["kind"], "not_found");
    assert_eq!(w.asked.len(), 2);
    assert!(w.files.is_empty());
}

#[test]
fn a_stale_project_is_dropped_and_asked_for() {
    let mut w = world();
    w.mount_project(42, "g/r");
    w.mount(BRANCHES, &[], 200, "[]");
    w.mount(TAGS, &[], 200, "[]");
    w.result("repo/refs", r#"{"repo": "g/r"}"#);
    assert!(w.read(w.handler.cache.project("g/r")).is_some());
    w.routes.clear();
    w.asked.clear();
    let e = w.error("repo/refs", r#"{"repo": "g/r"}"#);
    assert_eq!(e["data"]["kind"], "not_found");
    assert!(w.read(w.handler.cache.project("g/r")).is_none());
    assert_eq!(w.asked.len(), 2);
    assert!(w.asked[1].ends_with("/projects/g%2Fr"));
}

#[test]
fn a_stale_project_is_replaced_by_the_fresh_one() {
    let methods = [
        ("repo/tree", r#"{"repo": "g/r"}"#),
        ("repo/tree", r#"{"repo": "g/r", "ref": "dev"}"#),
        ("repo/tree", r#"{"repo": "g/r", "ref": "0123456789abcdef0123456789abcdef01234567"}"#),
        ("repo/blob", r#"{"repo": "g/r", "sha": "abc"}"#),
        ("repo/blob_at", r#"{"repo": "g/r", "path": "f"}"#),
        ("repo/refs", r#"{"repo": "g/r"}"#),
        ("repo/log", r#"{"repo": "g/r"}"#),
        ("repo/blame", r#"{"repo": "g/r", "path": "f"}"#),
        ("search/code", r#"{"q": "x repo:g/r"}"#),
    ];
    for (method, params) in methods {
        let mut w = world();
        let at = "/api/v4/projects/43/repository";
        w.write("projects/g%2Fr.json".to_string(), project_json(42, "g/r").into_bytes());
        w.mount_project(43, "g/r");
        let head = r#"{"commit": {"id": "ab"}}"#;
        w.mount(&format!("{at}/branches/main"), &[], 200, head);
        w.mount(&format!("{at}/tags/dev"), &[], 200, head);
        w.mount(&format!("{at}/tree"), &[], 200, "[]");
        w.mount(&format!("{at}/blobs/abc/raw"), &[], 200, "x");
        w.mount(&format!("{at}/files/f/raw"), &[], 200, "x");
        w.mount(&format!("{at}/files/f/blame"), &[], 200, "[]");
        w.mount(&format!("{at}/branches"), &[], 200, "[]");
        w.mount(&format!("{at}/tags"), &[], 200, "[]");
        w.mount(&format!("{at}/commits"), &[], 200, "[]");
        w.mount("/api/v4/projects/43/search", &[], 200, "[]");
        let reply = w.ask(method, params);
        assert!(reply.get("result").is_some(), "{method} {params}: {reply}");
        assert_eq!(w.calls("/api/v4/projects/g%2Fr"), 1);
        assert!(w.read(w.handler.cache.project("g/r")).is_none());
    }
}

#[test]
fn other_failures_leave_a_cached_project_alone() {
    let mut w = world();
    w.write("projects/g%2Fr.json".to_string(), project_json(42, "g/r").into_bytes());
    w.mount(BRANCHES, &[], 500, "");
    assert_eq!(w.error("repo/refs", r#"{"repo": "g/r"}"#)["data"]["kind"], "provider");
    assert!(w.read(w.handler.cache.project("g/r")).is_some());
    assert_eq!(w.asked.len(), 1);
}

#[test]
fn without_a_cache_every_read_misses() {
    let mut w = world();
    w.handler = Handler::new(BASE, "GL_TEST_TOKEN", Root::Absent, Root::Absent);
    w.mount_project(42, "g/r");
    w.result("repo/clone_url", r#"{"repo": "g/r"}"#);
    w.result("repo/clone_url", r#"{"repo": "g/r"}"#);
    assert_eq!(w.calls("/api/v4/projects/g%2Fr"), 2);
    assert!(w.files.is_empty());
}

// -- search/repos and org/repos --------------------------------------------------------------------

#[test]
fn search_repos_mixes_projects_and_orgs() {
    let mut w = world();
    let found =
        format!("[{},{}]", project_json(10, "kit/tool"), project_json(11, "other/toolkit"));
    w.mount("/api/v4/projects", &[("search", "tool")], 200, &found);
    w.mount(
        "/api/v4/groups",
        &[("search", "tool")],
        200,
        r#"[{"id": 5, "full_path": "tools", "web_url": "u"}]"#,
    );
    let r = w.result("search/repos", r#"{"query": "tool"}"#);
    let items = r["items"].as_array().unwrap();
    assert_eq!(items.len(), 3);
    assert_eq!(items[0]["full_name"], "kit/tool");
    assert_eq!(items[2]["org"], "tools");
}

#[test]
fn search_repos_gives_twenty_at_most_and_bears_without_groups() {
    let mut w = world();
    let found = repeated(25, |i| project_json(i as u64, &format!("g/p{i}")));
    w.mount("/api/v4/projects", &[], 200, &found);
    w.mount("/api/v4/groups", &[], 500, "");
    let r = w.result("search/repos", r#"{"query": "p"}"#);
    let items = r["items"].as_array().unwrap();
    assert_eq!(items.len(), 20);
    assert_eq!(items[19]["full_name"], "g/p19");
    let mut w = world();
    w.mount("/api/v4/projects", &[], 502, "");
    let e = w.error("search/repos", r#"{"query": "p"}"#);
    assert_eq!(e["data"]["kind"], "provider");
    assert_eq!(e["message"], "gitlab http 502");
}

#[test]
fn org_repos_tolerate_empty_repos() {
    let mut w = world();
    w.mount(
        "/api/v4/groups/tools",
        &[],
        200,
        r#"{"id": 5, "full_path": "tools", "web_url": "u"}"#,
    );
    let found = format!(
        r#"[{{"id": 10, "path_with_namespace": "tools/empty", "default_branch": null}},{}]"#,
        project_json(11, "tools/full")
    );
    w.mount("/api/v4/groups/5/projects", &[], 200, &found);
    let r = w.result("org/repos", r#"{"org": "tools"}"#);
    assert_eq!(r["repos"], json(r#"["empty", "full"]"#));
    assert_eq!(r["truncated"], false);
}

#[test]
fn org_repos_strip_the_org_component_nested_kept() {
    let mut w = world();
    w.mount(
        "/api/v4/groups/tools",
        &[],
        200,
        r#"{"id": 5, "full_path": "tools", "web_url": "u"}"#,
    );
    let found =
        format!("[{},{}]", project_json(10, "tools/alpha"), project_json(11, "tools/sub/nested"));
    w.mount("/api/v4/groups/5/projects", &[], 200, &found);
    let r = w.result("org/repos", r#"{"org": "tools"}"#);
    assert_eq!(r["repos"], json(r#"["alpha", "sub/nested"]"#));
}

#[test]
fn org_repos_stop_at_the_cap() {
    let mut w = world();
    w.mount("/api/v4/groups/g", &[], 200, r#"{"id": 5, "full_path": "g", "web_url": "u"}"#);
    let page = repeated(100, |i| project_json(i as u64, &format!("other/p{i}")));
    w.mount("/api/v4/groups/5/projects", &[("include_subgroups", "true")], 200, &page);
    let r = w.result("org/repos", r#"{"org": "g"}"#);
    assert_eq!(r["repos"].as_array().unwrap().len(), 500);
    assert_eq!(r["repos"][0], "other/p0");
    assert_eq!(r["truncated"], true);
    assert_eq!(w.calls("/api/v4/groups/5/projects"), 6);
}

#[test]
fn org_repos_at_the_cap_do_without_the_page_past_it() {
    let mut w = world();
    w.mount("/api/v4/groups/g", &[], 200, r#"{"id": 5, "full_path": "g", "web_url": "u"}"#);
    w.mount("/api/v4/groups/5/projects", &[("page", "6")], 429, "");
    let page = repeated(100, |i| project_json(i as u64, &format!("g/p{i}")));
    w.mount("/api/v4/groups/5/projects", &[], 200, &page);
    let r = w.result("org/repos", r#"{"org": "g"}"#);
    assert_eq!(r["repos"].as_array().unwrap().len(), 500);
    assert_eq!(r["truncated"], true);
}

// -- repo/tree -----------------------------------------------------------------------------------

#[test]
fn tree_aggregates_pages_and_caches_by_head_sha() {
    let mut w = world();
    w.mount_project(42, "g/big");
    let head = "/api/v4/projects/42/repository/branches/main";
    let tree = "/api/v4/projects/42/repository/tree";
    w.mount(head, &[], 200, r#"{"commit": {"id": "deadbeef"}}"#);
    let page1 = repeated(100, |i| {
        format!(r#"{{"id": "blob{i:03}", "type": "blob", "path": "src/f{i:03}.rs"}}"#)
    });
    w.mount(tree, &[("page", "1")], 200, &page1);
    w.mount(
        tree,
        &[("page", "2")],
        200,
        r#"[{"id": "sha-last", "type": "tree", "path": "docs"}]"#,
    );
    let first = w.result("repo/tree", r#"{"repo": "g/big"}"#);
    assert_eq!(first["entries"].as_array().unwrap().len(), 101);
    assert_eq!(first["truncated"], false);
    assert_eq!(first["branch"], "main");
    assert_eq!(first["entries"][0], json(r#"{"path":"src/f000.rs","type":"blob","sha":"blob000"}"#));
    assert_eq!(first["entries"][100]["type"], "tree");
    let second = w.result("repo/tree", r#"{"repo": "g/big"}"#);
    assert_eq!(second, first);
    assert_eq!(w.calls(tree), 2);
    assert_eq!(w.calls(head), 2);
}

#[test]
fn tree_at_branch_ref_resolves_the_head_and_labels_the_reply() {
    let mut w = world();
    w.mount_project(42, "g/big");
    let release = "/api/v4/projects/42/repository/branches/release%2F2.7";
    let tree = "/api/v4/projects/42/repository/tree";
    w.mount(release, &[], 200, r#"{"commit": {"id": "cafe"}}"#);
    w.mount(
        tree,
        &[("ref", "cafe")],
        200,
        r#"[{"id": "blobX", "type": "blob", "path": "src/rel.rs"}]"#,
    );
    w.mount(
        "/api/v4/projects/42/repository/branches/main",
        &[],
        200,
        r#"{"commit": {"id": "cafe"}}"#,
    );
    let at_ref = w.result("repo/tree", r#"{"repo": "g/big", "ref": "release/2.7"}"#);
    assert_eq!(at_ref["branch"], "release/2.7");
    assert_eq!(at_ref["entries"][0]["path"], "src/rel.rs");
    let again = w.result("repo/tree", r#"{"repo": "g/big", "ref": "release/2.7"}"#);
    assert_eq!(again["branch"], "release/2.7");
    let plain = w.result("repo/tree", r#"{"repo": "g/big"}"#);
    assert_eq!(plain["branch"], "main");
    assert_eq!(plain["entries"][0]["path"], "src/rel.rs");
    assert_eq!(w.calls(release), 2);
    assert_eq!(w.calls(tree), 1);
}

#[test]
fn tree_at_sha_shaped_ref_skips_name_resolution() {
    let mut w = world();
    w.mount_project(42, "g/big");
    let sha = "0123456789abcdef0123456789abcdef01234567";
    w.mount(
        "/api/v4/projects/42/repository/tree",
        &[("ref", sha)],
        200,
        r#"[{"id": "blobY", "type": "blob", "path": "src/at-commit.rs"}]"#,
    );
    let r = w.result("repo/tree", &format!(r#"{{"repo": "g/big", "ref": "{sha}"}}"#));
    assert_eq!(r["branch"], sha);
    assert_eq!(r["entries"][0]["path"], "src/at-commit.rs");
    assert_eq!(w.asked.len(), 2);
}

#[test]
fn tree_at_a_tag_resolves_the_tag() {
    let mut w = world();
    w.mount_project(42, "g/big");
    w.mount(
        "/api/v4/projects/42/repository/tags/v1",
        &[],
        200,
        r#"{"name": "v1", "commit": {"id": "beef"}}"#,
    );
    w.mount("/api/v4/projects/42/repository/tree", &[("ref", "beef")], 200, "[]");
    let r = w.result("repo/tree", r#"{"repo": "g/big", "ref": "v1"}"#);
    assert_eq!(r, json(r#"{"entries": [], "truncated": false, "branch": "v1"}"#));
}

#[test]
fn tree_at_unknown_ref_is_not_found() {
    let mut w = world();
    w.mount_project(42, "g/big");
    w.mount(
        "/api/v4/projects/42/repository/branches/nope",
        &[],
        404,
        r#"{"message": "404 Branch Not Found"}"#,
    );
    w.mount(
        "/api/v4/projects/42/repository/tags/nope",
        &[],
        404,
        r#"{"message": "404 Tag Not Found"}"#,
    );
    let e = w.error("repo/tree", r#"{"repo": "g/big", "ref": "nope"}"#);
    assert_eq!(e["data"]["kind"], "not_found");
    assert_eq!(e["message"], "no ref \"nope\" in g/big");
}

#[test]
fn tree_of_a_missing_default_branch_is_not_tried_as_a_tag() {
    let mut w = world();
    w.mount_project(42, "g/big");
    let e = w.error("repo/tree", r#"{"repo": "g/big"}"#);
    assert_eq!(e["data"]["kind"], "not_found");
    assert_eq!(e["message"], "gitlab http 404");
    assert_eq!(w.asked.len(), 2);
}

#[test]
fn tree_stops_at_the_cap() {
    let mut w = world();
    w.mount_project(42, "g/huge");
    w.mount(
        "/api/v4/projects/42/repository/branches/main",
        &[],
        200,
        r#"{"commit": {"id": "ab"}}"#,
    );
    let page = repeated(100, |i| format!(r#"{{"id": "b{i}", "type": "blob", "path": "f{i}"}}"#));
    w.mount("/api/v4/projects/42/repository/tree", &[], 200, &page);
    let r = w.result("repo/tree", r#"{"repo": "g/huge"}"#);
    assert_eq!(r["entries"].as_array().unwrap().len(), 25_000);
    assert_eq!(r["truncated"], true);
    assert_eq!(w.calls("/api/v4/projects/42/repository/tree"), 251);
}

#[test]
fn tree_of_just_the_cap_is_whole() {
    let mut w = world();
    w.mount_project(42, "g/huge");
    let tree = "/api/v4/projects/42/repository/tree";
    w.mount(
        "/api/v4/projects/42/repository/branches/main",
        &[],
        200,
        r#"{"commit": {"id": "ab"}}"#,
    );
    w.mount(tree, &[("page", "251")], 200, "[]");
    let page = repeated(100, |i| format!(r#"{{"id": "b{i}", "type": "blob", "path": "f{i}"}}"#));
    w.mount(tree, &[], 200, &page);
    let r = w.result("repo/tree", r#"{"repo": "g/huge"}"#);
    assert_eq!(r["entries"].as_array().unwrap().len(), 25_000);
    assert_eq!(r["truncated"], false);
}

#[test]
fn tree_at_the_cap_does_without_the_page_past_it() {
    let mut w = world();
    w.mount_project(42, "g/huge");
    let tree = "/api/v4/projects/42/repository/tree";
    w.mount(
        "/api/v4/projects/42/repository/branches/main",
        &[],
        200,
        r#"{"commit": {"id": "ab"}}"#,
    );
    w.mount(tree, &[("page", "251")], 500, "");
    let page = repeated(100, |i| format!(r#"{{"id": "b{i}", "type": "blob", "path": "f{i}"}}"#));
    w.mount(tree, &[], 200, &page);
    let r = w.result("repo/tree", r#"{"repo": "g/huge"}"#);
    assert_eq!(r["entries"].as_array().unwrap().len(), 25_000);
    assert_eq!(r["truncated"], true);
    assert!(w.read(w.handler.cache.tree("ab")).is_some());
}

#[test]
fn tree_below_the_cap_needs_all_its_pages() {
    let mut w = world();
    w.mount_project(42, "g/r");
    let tree = "/api/v4/projects/42/repository/tree";
    w.mount(
        "/api/v4/projects/42/repository/branches/main",
        &[],
        200,
        r#"{"commit": {"id": "ab"}}"#,
    );
    w.mount(tree, &[("page", "2")], 500, "");
    let page = repeated(100, |i| format!(r#"{{"id": "b{i}", "type": "blob", "path": "f{i}"}}"#));
    w.mount(tree, &[], 200, &page);
    assert_eq!(w.error("repo/tree", r#"{"repo": "g/r"}"#)["data"]["kind"], "provider");
    assert!(w.read(w.handler.cache.tree("ab")).is_none());
}

#[test]
fn a_damaged_cached_tree_counts_as_missing() {
    for damaged in ["{", "null", "[]", "7", "\"x\"", ""] {
        damaged_tree(damaged);
    }
}

fn damaged_tree(damaged: &str) {
    let mut w = world();
    w.mount_project(42, "g/r");
    w.write("trees/ab.json".to_string(), damaged.as_bytes().to_vec());
    w.mount(
        "/api/v4/projects/42/repository/branches/main",
        &[],
        200,
        r#"{"commit": {"id": "ab"}}"#,
    );
    w.mount("/api/v4/projects/42/repository/tree", &[], 200, "[]");
    let r = w.result("repo/tree", r#"{"repo": "g/r", "ref": ""}"#);
    assert_eq!(r, json(r#"{"entries": [], "truncated": false, "branch": "main"}"#));
    assert_eq!(w.read(Some("trees/ab.json".to_string())).unwrap(), r.to_string().into_bytes());
}

// -- repo/blob and repo/blob_at ----------------------------------------------------------------------

#[test]
fn blob_roundtrips_b64_and_caches() {
    let mut w = world();
    w.mount_project(42, "g/r");
    let raw = "/api/v4/projects/42/repository/blobs/abc123/raw";
    w.mount(raw, &[], 200, "fn main() {}\n");
    let r1 = w.result("repo/blob", r#"{"repo": "g/r", "sha": "abc123"}"#);
    let b64 = r1["bytes_b64"].as_str().unwrap();
    assert_eq!(b64, "Zm4gbWFpbigpIHt9Cg==");
    assert_eq!(base64_decode(b64), b"fn main() {}\n");
    let r2 = w.result("repo/blob", r#"{"repo": "g/r", "sha": "abc123"}"#);
    assert_eq!(r2["bytes_b64"], r1["bytes_b64"]);
    assert_eq!(w.calls(raw), 1);
}

#[test]
fn oversized_blob_is_refused_with_the_cap_message() {
    let mut w = world();
    w.mount_project(42, "g/r");
    w.mount_bytes(
        "/api/v4/projects/42/repository/blobs/big/raw",
        &[],
        200,
        vec![b'x'; 1024 * 1024 + 1],
    );
    w.mount_bytes(
        "/api/v4/projects/42/repository/blobs/fits/raw",
        &[],
        200,
        vec![b'x'; 1024 * 1024],
    );
    let e = w.error("repo/blob", r#"{"repo": "g/r", "sha": "big"}"#);
    assert_eq!(e["data"]["kind"], "provider");
    assert_eq!(e["message"], "blob big is 1024 KiB — over the 1 MiB preview cap");
    assert!(w.read(w.handler.cache.blob("big")).is_none());
    let r = w.result("repo/blob", r#"{"repo": "g/r", "sha": "fits"}"#);
    assert_eq!(base64_decode(r["bytes_b64"].as_str().unwrap()).len(), 1024 * 1024);
}

#[test]
fn blob_at_serves_bytes_with_a_git_blob_sha() {
    let mut w = world();
    w.mount_project(42, "g/r");
    w.mount(
        "/api/v4/projects/42/repository/files/src%2Fmain.rs/raw",
        &[("ref", "main")],
        200,
        "fn main() {}\n",
    );
    let r = w.result("repo/blob_at", r#"{"repo": "g/r", "path": "src/main.rs"}"#);
    assert_eq!(r["sha"], "f328e4d9d04c31d0d70d16d21a07d1613be9d577");
    assert_eq!(base64_decode(r["bytes_b64"].as_str().unwrap()), b"fn main() {}\n");
    let asked = w.asked.len();
    let blob = w.result(
        "repo/blob",
        r#"{"repo": "g/r", "sha": "f328e4d9d04c31d0d70d16d21a07d1613be9d577"}"#,
    );
    assert_eq!(blob["bytes_b64"], r["bytes_b64"]);
    assert_eq!(w.asked.len(), asked);
}

#[test]
fn blob_at_passes_ref_and_maps_not_found() {
    let mut w = world();
    w.mount_project(42, "g/r");
    w.mount(
        "/api/v4/projects/42/repository/files/src%2Fmain.rs/raw",
        &[("ref", "release/2.7")],
        200,
        "stable\n",
    );
    w.mount(
        "/api/v4/projects/42/repository/files/gone.rs/raw",
        &[],
        404,
        r#"{"message": "404 File Not Found"}"#,
    );
    w.mount_bytes(
        "/api/v4/projects/42/repository/files/big/raw",
        &[],
        200,
        vec![0u8; 3 * 1024 * 1024],
    );
    let at_ref = w.result(
        "repo/blob_at",
        r#"{"repo": "g/r", "path": "src/main.rs", "ref": "release/2.7"}"#,
    );
    assert_eq!(base64_decode(at_ref["bytes_b64"].as_str().unwrap()), b"stable\n");
    assert_eq!(at_ref["sha"], "2bf5ad0447d3370461c6f32a0a5bc8a3177376aa");
    let e = w.error("repo/blob_at", r#"{"repo": "g/r", "path": "gone.rs", "ref": "main"}"#);
    assert_eq!(e["data"]["kind"], "not_found");
    let e = w.error("repo/blob_at", r#"{"repo": "g/r", "path": "big"}"#);
    assert_eq!(e["message"], "big at main is 3072 KiB — over the 1 MiB preview cap");
}

// -- repo/refs -----------------------------------------------------------------------------------

const BRANCHES: &str = "/api/v4/projects/42/repository/branches";
const TAGS: &str = "/api/v4/projects/42/repository/tags";

#[test]
fn refs_list_branches_and_tags_with_one_default_flag() {
    let mut w = world();
    w.mount_project(42, "g/big");
    w.mount(
        BRANCHES,
        &[],
        200,
        r#"[{"name": "main", "default": true, "commit": {"id": "aaa"}},
            {"name": "dev", "default": false, "commit": {"id": "bbb"}},
            {"name": "release/2.7", "commit": {"id": "ccc"}}]"#,
    );
    w.mount(TAGS, &[], 200, r#"[{"name": "v1.0", "commit": {"id": "ddd"}}]"#);
    let r = w.result("repo/refs", r#"{"repo": "g/big"}"#);
    let branches = r["branches"].as_array().unwrap();
    assert_eq!(branches.len(), 3);
    assert_eq!(branches[0]["name"], "main");
    assert_eq!(branches[0]["sha"], "aaa");
    assert_eq!(branches[0]["default"], true);
    assert_eq!(branches[1]["name"], "dev");
    assert_eq!(branches[1]["sha"], "bbb");
    assert!(branches[1].get("default").is_none());
    assert_eq!(branches[2]["name"], "release/2.7");
    assert!(branches[2].get("default").is_none());
    let tags = r["tags"].as_array().unwrap();
    assert_eq!(tags.len(), 1);
    assert_eq!(tags[0], json(r#"{"name": "v1.0", "sha": "ddd"}"#));
    assert!(r.get("truncated").is_none());
}

#[test]
fn refs_leave_out_what_cannot_be_switched_to() {
    let mut w = world();
    w.mount_project(42, "g/r");
    w.mount(
        BRANCHES,
        &[],
        200,
        r#"[{"commit": {"id": "aaa"}}, {"name": "dev", "commit": {"id": "bbb"}}]"#,
    );
    w.mount(TAGS, &[], 200, r#"[{"name": "hollow", "commit": null}]"#);
    let r = w.result("repo/refs", r#"{"repo": "g/r"}"#);
    assert_eq!(r, json(r#"{"branches": [{"name": "dev", "sha": "bbb"}], "tags": []}"#));
}

#[test]
fn refs_at_the_cap_do_without_the_page_past_it() {
    let mut w = world();
    w.mount_project(42, "g/r");
    let page = repeated(100, |i| format!(r#"{{"name": "r{i}", "commit": {{"id": "s{i}"}}}}"#));
    for list in [BRANCHES, TAGS] {
        w.mount(list, &[("page", "6")], 404, "");
        w.mount(list, &[], 200, &page);
    }
    w.result("repo/clone_url", r#"{"repo": "g/r"}"#);
    let r = w.result("repo/refs", r#"{"repo": "g/r"}"#);
    assert_eq!(r["branches"].as_array().unwrap().len(), 500);
    assert_eq!(r["tags"].as_array().unwrap().len(), 500);
    assert_eq!(r["truncated"], true);
    assert!(w.read(w.handler.cache.project("g/r")).is_some());
}

#[test]
fn refs_flags_default_by_name_when_the_listing_omits_the_flag() {
    let mut w = world();
    w.mount_project(42, "g/big");
    w.mount(
        BRANCHES,
        &[],
        200,
        r#"[{"name": "main", "commit": {"id": "aaa"}}, {"name": "trunk", "commit": {"id": "bbb"}}]"#,
    );
    w.mount(TAGS, &[], 200, "[]");
    let r = w.result("repo/refs", r#"{"repo": "g/big"}"#);
    let branches = r["branches"].as_array().unwrap();
    assert_eq!(branches[0]["default"], true);
    assert!(branches[1].get("default").is_none());
    assert_eq!(r["tags"], json("[]"));
}

#[test]
fn refs_aggregate_pages() {
    let mut w = world();
    w.mount_project(42, "g/big");
    let page1 =
        repeated(100, |i| format!(r#"{{"name": "b{i:03}", "commit": {{"id": "s{i:03}"}}}}"#));
    w.mount(BRANCHES, &[("page", "1")], 200, &page1);
    w.mount(
        BRANCHES,
        &[("page", "2")],
        200,
        r#"[{"name": "last", "commit": {"id": "zzz"}}]"#,
    );
    w.mount(TAGS, &[], 200, "[]");
    let r = w.result("repo/refs", r#"{"repo": "g/big"}"#);
    let branches = r["branches"].as_array().unwrap();
    assert_eq!(branches.len(), 101);
    assert_eq!(branches[100]["name"], "last");
}

#[test]
fn refs_say_when_a_listing_was_cut() {
    let mut w = world();
    w.mount_project(42, "g/big");
    w.mount(BRANCHES, &[], 200, "[]");
    let page = repeated(100, |i| format!(r#"{{"name": "t{i}", "commit": {{"id": "s{i}"}}}}"#));
    w.mount(TAGS, &[], 200, &page);
    let r = w.result("repo/refs", r#"{"repo": "g/big"}"#);
    assert_eq!(r["truncated"], true);
    assert_eq!(r["tags"].as_array().unwrap().len(), 500);
}

#[test]
fn refs_on_unknown_repo_is_not_found() {
    let mut w = world();
    w.mount("/api/v4/projects/g%2Fgone", &[], 404, r#"{"message": "404 Project Not Found"}"#);
    let e = w.error("repo/refs", r#"{"repo": "g/gone"}"#);
    assert_eq!(e["data"]["kind"], "not_found");
}

// -- repo/log ------------------------------------------------------------------------------------

const COMMITS: &str = "/api/v4/projects/42/repository/commits";

fn commit_json(id: &str, title: &str) -> String {
    format!(
        r#"{{"id": "{id}", "title": "{title}", "author_name": "Ada Lovelace",
            "committed_date": "2026-08-01T10:00:00.000+00:00"}}"#
    )
}

#[test]
fn log_maps_subject_author_date_newest_first() {
    let mut w = world();
    w.mount_project(42, "g/big");
    let page = format!("[{},{}]", commit_json("cc2", "second"), commit_json("cc1", "first"));
    w.mount(COMMITS, &[("per_page", "100")], 200, &page);
    w.routes[1].absent = vec!["path".to_string(), "ref_name".to_string()];
    let r = w.result("repo/log", r#"{"repo": "g/big"}"#);
    let items = r["items"].as_array().unwrap();
    assert_eq!(items.len(), 2);
    assert_eq!(
        items[0],
        json(
            r#"{"sha": "cc2", "subject": "second", "author": "Ada Lovelace",
                "date": "2026-08-01T10:00:00.000+00:00"}"#
        )
    );
    assert_eq!(items[1]["sha"], "cc1");
    assert_eq!(r["truncated"], false);
}

#[test]
fn log_honors_limit_and_flags_truncated_at_the_cliff() {
    let mut w = world();
    w.mount_project(42, "g/big");
    let page = format!(
        "[{},{},{},{}]",
        commit_json("c1", "one"),
        commit_json("c2", "two"),
        commit_json("c3", "three"),
        commit_json("c4", "four")
    );
    w.mount(COMMITS, &[("per_page", "4")], 200, &page);
    let r = w.result("repo/log", r#"{"repo": "g/big", "limit": 3}"#);
    assert_eq!(r["items"].as_array().unwrap().len(), 3);
    assert_eq!(r["items"][2]["sha"], "c3");
    assert_eq!(r["truncated"], true);
}

#[test]
fn log_passes_path_and_ref_through() {
    let mut w = world();
    w.mount_project(42, "g/big");
    w.mount(
        COMMITS,
        &[("path", "src/lib.rs"), ("ref_name", "release/2.7"), ("per_page", "3")],
        200,
        &format!("[{}]", commit_json("cf", "touched lib")),
    );
    let r = w.result(
        "repo/log",
        r#"{"repo": "g/big", "path": "src/lib.rs", "ref": "release/2.7", "limit": 2}"#,
    );
    assert_eq!(r["items"][0]["sha"], "cf");
    assert_eq!(r["truncated"], false);
}

#[test]
fn log_caps_an_absurd_limit_under_bounded_compute() {
    let mut w = world();
    w.mount_project(42, "g/big");
    for page in 1..=10u32 {
        let body = repeated(100, |i| commit_json(&format!("c{page:02}{i:02}"), "m"));
        w.mount(COMMITS, &[("per_page", "100"), ("page", &page.to_string())], 200, &body);
    }
    w.mount(
        COMMITS,
        &[("per_page", "100"), ("page", "11")],
        200,
        &format!("[{}]", commit_json("c-one-past", "m")),
    );
    let r = w.result("repo/log", r#"{"repo": "g/big", "limit": 100000}"#);
    assert_eq!(r["items"].as_array().unwrap().len(), 1000);
    assert_eq!(r["items"][999]["sha"], "c1099");
    assert_eq!(r["truncated"], true);
}

#[test]
fn log_wants_at_least_one_commit() {
    let mut w = world();
    w.mount_project(42, "g/r");
    let page = format!("[{}]", r#"{"id": "bare"}"#);
    w.mount(COMMITS, &[("per_page", "2")], 200, &page);
    let r = w.result("repo/log", r#"{"repo": "g/r", "limit": 0}"#);
    assert_eq!(
        r,
        json(
            r#"{"items": [{"sha": "bare", "subject": "", "author": "", "date": ""}],
                "truncated": false}"#
        )
    );
}

// -- repo/blame ----------------------------------------------------------------------------------

fn chunk(id: &str, lines: usize) -> String {
    let lines: Vec<String> = (0..lines).map(|i| format!(r#""line {i}""#)).collect();
    format!(
        r#"{{"commit": {{"id": "{id}", "author_name": "Ada Lovelace",
            "committed_date": "2026-08-01T10:00:00.000+00:00"}}, "lines": [{}]}}"#,
        lines.join(",")
    )
}

#[test]
fn blame_coalesces_adjacent_same_sha_runs() {
    let mut w = world();
    w.mount_project(42, "g/big");
    let chunks = format!("[{},{},{}]", chunk("sha1", 3), chunk("sha1", 2), chunk("sha2", 2));
    w.mount(
        "/api/v4/projects/42/repository/files/src%2Fmain.rs/blame",
        &[("ref", "main")],
        200,
        &chunks,
    );
    let r = w.result("repo/blame", r#"{"repo": "g/big", "path": "src/main.rs"}"#);
    assert_eq!(
        r["ranges"],
        json(
            r#"[{"start_line": 1, "end_line": 5, "sha": "sha1",
                 "author": "Ada Lovelace", "date": "2026-08-01T10:00:00.000+00:00"},
                {"start_line": 6, "end_line": 7, "sha": "sha2",
                 "author": "Ada Lovelace", "date": "2026-08-01T10:00:00.000+00:00"}]"#
        )
    );
}

#[test]
fn blame_passes_ref_through_and_maps_not_found() {
    let mut w = world();
    w.mount_project(42, "g/big");
    w.mount(
        "/api/v4/projects/42/repository/files/src%2Fmain.rs/blame",
        &[("ref", "release/2.7")],
        200,
        &format!("[{}]", chunk("sha9", 1)),
    );
    w.mount(
        "/api/v4/projects/42/repository/files/nope.rs/blame",
        &[],
        404,
        r#"{"message": "404 File Not Found"}"#,
    );
    let r = w.result(
        "repo/blame",
        r#"{"repo": "g/big", "path": "src/main.rs", "ref": "release/2.7"}"#,
    );
    assert_eq!(r["ranges"][0]["start_line"], 1);
    assert_eq!(r["ranges"][0]["end_line"], 1);
    assert_eq!(r["ranges"][0]["sha"], "sha9");
    let e = w.error("repo/blame", r#"{"repo": "g/big", "path": "nope.rs"}"#);
    assert_eq!(e["data"]["kind"], "not_found");
}

#[test]
fn blame_keeps_lines_without_a_commit_and_skips_empty_chunks() {
    let mut w = world();
    w.mount_project(42, "g/r");
    let chunks = format!(
        r#"[{},{},{},{{"lines": ["x"]}},{}]"#,
        chunk("a", 1),
        chunk("b", 0),
        chunk("a", 1),
        chunk("c", 1)
    );
    w.mount("/api/v4/projects/42/repository/files/f/blame", &[], 200, &chunks);
    let r = w.result("repo/blame", r#"{"repo": "g/r", "path": "f"}"#);
    let ranges = r["ranges"].as_array().unwrap();
    assert_eq!(ranges.len(), 3);
    assert_eq!(ranges[0]["end_line"], 2);
    assert_eq!(
        ranges[1],
        json(r#"{"start_line": 3, "end_line": 3, "sha": "", "author": "", "date": ""}"#)
    );
    assert_eq!(ranges[2]["start_line"], 4);
}

// -- addresses -----------------------------------------------------------------------------------

#[test]
fn web_url_uses_gitlab_blob_grammar_with_line() {
    let mut w = world();
    w.mount_project(42, "g/r");
    let file = w.result(
        "repo/web_url",
        r#"{"repo": "g/r", "path": "src/main.rs", "branch": "main", "line": 42, "is_file": true}"#,
    );
    assert_eq!(file["url"], "https://gitlab.example.com/g/r/-/blob/main/src/main.rs#L42");
    let dir = w.result(
        "repo/web_url",
        r#"{"repo": "g/r", "path": "src", "branch": "main", "line": null, "is_file": false}"#,
    );
    assert_eq!(dir["url"], "https://gitlab.example.com/g/r/-/tree/main/src");
}

#[test]
fn web_url_encodes_segment_by_segment() {
    let mut w = world();
    w.mount_project(42, "g/r");
    let file = w.result(
        "repo/web_url",
        r#"{"repo": "g/r", "path": "a b/ü", "branch": "rel/1#2", "line": 7}"#,
    );
    assert_eq!(file["url"], "https://gitlab.example.com/g/r/-/tree/rel/1%232/a%20b/%C3%BC");
    let home = w.result("repo/web_url", r#"{"repo": "g/r", "line": 7, "is_file": true}"#);
    assert_eq!(home["url"], "https://gitlab.example.com/g/r#L7");
}

#[test]
fn clone_url_uses_the_http_remote() {
    let mut w = world();
    w.mount_project(42, "g/r");
    let r = w.result("repo/clone_url", r#"{"repo": "g/r"}"#);
    assert_eq!(r["clone_url"], "https://gitlab.example.com/g/r.git");
    w.mount("/api/v4/projects/g%2Fbare", &[], 200, r#"{"id":1,"path_with_namespace":"g/bare"}"#);
    let r = w.result("repo/clone_url", r#"{"repo": "g/bare"}"#);
    assert!(r["clone_url"].is_null());
}

#[test]
fn org_url_is_the_groups_page() {
    let mut w = world();
    w.mount(
        "/api/v4/groups/a%2Fb",
        &[],
        200,
        r#"{"id": 5, "full_path": "a/b", "web_url": "https://gitlab.example.com/groups/a/b"}"#,
    );
    let r = w.result("org/url", r#"{"org": "a/b"}"#);
    assert_eq!(r["url"], "https://gitlab.example.com/groups/a/b");
    assert_eq!(w.error("org/url", r#"{"org": "none"}"#)["data"]["kind"], "not_found");
}

// -- search/code ---------------------------------------------------------------------------------

fn mount_hits(w: &mut World) {
    w.mount_project(42, "g/r");
    w.mount("/api/v4/projects/42", &[], 200, &project_json(42, "g/r"));
    w.mount(
        "/api/v4/projects/42/search",
        &[("scope", "blobs"), ("search", "render")],
        200,
        r##"[{"project_id": 42, "path": "src/lib.rs", "ref": "main",
             "startline": 12, "data": "pub fn render() {}"},
            {"project_id": 42, "path": "docs/render.md", "ref": "main",
             "startline": 3, "data": "# render docs"},
            {"project_id": 42, "path": "src/other.rs", "ref": "main",
             "startline": 9, "data": "pub fn render_thing() {}"}]"##,
    );
}

#[test]
fn code_search_scopes_qualifiers_and_locates() {
    let mut w = world();
    mount_hits(&mut w);
    let r = w.result("search/code", r#"{"q": "render repo:g/r extension:rs"}"#);
    let items = r["items"].as_array().unwrap();
    assert_eq!(items.len(), 2);
    assert_eq!(items[0]["repo"], "g/r");
    assert_eq!(items[0]["path"], "src/lib.rs");
    assert_eq!(items[0]["line"], 12);
    assert_eq!(items[0]["located"], true);
    assert_eq!(items[0]["branch"], "main");
    assert_eq!(items[0]["preview"][0][0], 12);
    assert_eq!(items[0]["preview"][0][1], "pub fn render() {}");
    assert_eq!(items[0]["match_count"], 1);
    assert_eq!(items[0]["sha"], "");
    assert_eq!(r["truncated"], false);
}

#[test]
fn code_search_filters_by_path_whatever_the_case() {
    let mut w = world();
    mount_hits(&mut w);
    let r = w.result("search/code", r#"{"q": "repo:g/r path:DOCS/ render"}"#);
    let items = r["items"].as_array().unwrap();
    assert_eq!(items.len(), 1);
    assert_eq!(items[0]["path"], "docs/render.md");
    let r = w.result("search/code", r#"{"q": "repo:g/r extension:..MD extension:.RS render"}"#);
    assert_eq!(r["items"].as_array().unwrap().len(), 2);
}

#[test]
fn code_search_in_a_group_counts_terms_and_drops_hits_without_a_project() {
    let mut w = world();
    w.mount("/api/v4/groups/g%2Fsub", &[], 200, r#"{"id": 9, "full_path": "g/sub", "web_url": "u"}"#);
    w.mount(
        "/api/v4/groups/9/search",
        &[("search", "Fn lang:rust MAIN nothing")],
        200,
        r#"[{"project_id": 1, "path": "a", "startline": null, "data": "fn main()"},
            {"project_id": 2, "path": "b", "data": null}]"#,
    );
    w.mount("/api/v4/projects/2", &[], 200, &project_json(2, "g/sub/two"));
    let r = w.result("search/code", r#"{"q": "Fn org:g/sub lang:rust MAIN nothing"}"#);
    assert_eq!(
        r["items"],
        json(
            r#"[{"repo": "g/sub/two", "path": "b", "sha": "", "branch": "main", "line": 1,
                 "preview": [[1, ""]], "match_count": 0, "located": true}]"#
        )
    );
    w.mount("/api/v4/projects/1", &[], 200, &project_json(1, "g/sub/one"));
    let r = w.result("search/code", r#"{"q": "Fn org:g/sub lang:rust MAIN nothing"}"#);
    assert_eq!(r["items"][0]["repo"], "g/sub/one");
    assert_eq!(r["items"][0]["match_count"], 2);
    assert!(w.read(w.handler.cache.project("g/sub/one")).is_some());
}

#[test]
fn streamed_search_emits_one_partial_then_a_metadata_reply() {
    let mut w = world();
    w.mount_project(42, "g/r");
    w.mount("/api/v4/projects/42", &[], 200, &project_json(42, "g/r"));
    w.mount(
        "/api/v4/projects/42/search",
        &[("scope", "blobs"), ("search", "render")],
        200,
        r#"[{"project_id": 42, "path": "src/lib.rs", "ref": "main",
             "startline": 12, "data": "pub fn render() {}"},
            {"project_id": 42, "path": "src/other.rs", "ref": "main",
             "startline": 9, "data": "pub fn render_thing() {}"}]"#,
    );
    let lines = w.ask_lines("search/code", r#"{"q": "render repo:g/r", "partial": true}"#);
    assert_eq!(lines.len(), 2);
    assert_eq!(lines[0]["method"], "$/partial");
    assert_eq!(lines[0]["params"]["id"], 1);
    assert_eq!(lines[0]["params"]["items"].as_array().unwrap().len(), 2);
    assert_eq!(lines[1]["id"], 1);
    assert_eq!(lines[1]["result"]["items"], json("[]"));
    assert_eq!(lines[1]["result"]["truncated"], false);
}

#[test]
fn a_streamed_search_delivers_what_a_whole_one_does() {
    let mut w = world();
    mount_hits(&mut w);
    let lines = w.ask_lines("search/code", r#"{"q": "render repo:g/r", "partial": true}"#);
    let whole = w.result("search/code", r#"{"q": "render repo:g/r"}"#);
    assert_eq!(whole["items"].as_array().unwrap().len(), 3);
    assert_eq!(whole["items"], lines[0]["params"]["items"]);
    let lines = w.ask_lines("search/code", r#"{"q": "render repo:g/r", "partial": "yes"}"#);
    assert_eq!(lines.len(), 1);
}

#[test]
fn code_search_403_is_an_honest_auth_error() {
    let mut w = world();
    w.mount(
        "/api/v4/search",
        &[],
        403,
        r#"{"message": "403 Forbidden - advanced search not enabled"}"#,
    );
    let e = w.error("search/code", r#"{"q": "anything"}"#);
    assert_eq!(e["data"]["kind"], "auth");
    assert!(e["message"].as_str().unwrap().contains("advanced search"));
    let lines = w.ask_lines("search/code", r#"{"q": "anything", "partial": true}"#);
    assert_eq!(lines.len(), 1);
    assert_eq!(lines[0]["error"]["data"]["kind"], "auth");
}

#[test]
fn failures_below_the_protocol_have_kinds_of_their_own() {
    let mut w = world();
    let turn = w.handler.dispatch("repo/clone_url", &json(r#"{"repo": "g/r"}"#));
    let ask = match turn {
        Turn::CachedProject(ask) => ask,
        _ => panic!("the project is looked up"),
    };
    let ask = match ask.resume(None) {
        Turn::Project(ask) => ask,
        _ => panic!("the project is asked for"),
    };
    let step = ask.resume(Err(map_send_err(true, "deadline")));
    let e = match w.run(step.turn).result {
        Err(e) => e,
        Ok(_) => panic!("there was no answer"),
    };
    assert_eq!(e.kind, "timeout");
    assert_eq!(e.message, "gitlab request timed out");
    w.mount("/api/v4/projects/g%2Fr", &[], 200, "[");
    let e = w.error("repo/clone_url", r#"{"repo": "g/r"}"#);
    assert_eq!(e["data"]["kind"], "network");
    let unreachable: ApiResult<()> = Err(ApiError::Network("refused".to_string()));
    assert_eq!(unreachable.unwrap_err().describe(), "network: refused");
}
