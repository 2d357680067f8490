//! `repo/blob` and `repo/blob_at`: the bytes of a file, by its content id or by its path in
//! a revision. What is larger than a preview is refused. Blobs are cached under their
//! content ids, and never change.

use serde_json::Value;
use vstd::prelude::*;
use vstd::string::*;

use crate::api::{ApiResult, GitLab, Project, BLOB_CAP};
use crate::cache::Cache;
use crate::handlers::{CachedProjectAsk, Effect, Goal, Origin, Step, Turn};
use crate::json::JsonView;
use crate::{api, encode, handlers, json, text};

verus! {

/// Waits for the cached bytes of the blob `sha`.
pub struct CachedBlobAsk {
    pub repo: String,
    pub sha: String,
}

/// Waits for the bytes of the blob `sha`.
pub struct BlobAsk {
    pub project_id: u64,
    pub sha: String,
    pub origin: Option<Origin>,
}

/// Waits for the bytes of a file in a revision.
pub struct FileAsk {
    pub project_id: u64,
    pub path: String,
    pub ref_name: String,
    pub origin: Option<Origin>,
}

/// The document of a blob.
pub open spec fn blob_json(bytes: Seq<u8>) -> JsonView {
    JsonView::Obj(map!["bytes_b64"@ => JsonView::Str(encode::base64(bytes))])
}

/// The document of a file in a revision: its bytes and their content id.
pub open spec fn file_json(bytes: Seq<u8>) -> JsonView {
    JsonView::Obj(
        map![
            "bytes_b64"@ => JsonView::Str(encode::base64(bytes)),
            "sha"@ => JsonView::Str(api::git_blob_id(bytes)),
        ],
    )
}

/// What the client is told of something that is larger than a preview.
pub open spec fn over_cap_message(what: Seq<char>, size: nat) -> Seq<char> {
    what + " is "@ + text::decimal(size / 1024) + " KiB — over the 1 MiB preview cap"@
}

fn blob_document(bytes: &Vec<u8>) -> (v: Value)
    requires
        bytes@.len() <= usize::MAX / 4,
    ensures
        json::value_view(v) == blob_json(bytes@),
{
    let coded = encode::base64_text(bytes.as_slice());
    json::with(json::object(), "bytes_b64", json::string(coded.as_str()))
}

fn over_cap(what: &str, size: usize) -> (t: Turn)
    ensures
        t.refuses("provider", over_cap_message(what@, size as nat)),
{
    let mut message = text::concat2(what, " is ");
    message.append(text::decimal_text((size / 1024) as u64).as_str());
    message.append(" KiB — over the 1 MiB preview cap");
    Turn::refuse("provider", message)
}

/// What the cache holds of a blob leads to its bytes, or to the project to ask for them.
pub open spec fn recalled(ask: CachedBlobAsk, found: Option<Vec<u8>>, t: Turn) -> bool {
    match found {
        Some(bytes) => t.gives(blob_json(bytes@)),
        None => t == Turn::CachedProject(
            CachedProjectAsk { repo: ask.repo, goal: Goal::Blob { sha: ask.sha } },
        ),
    }
}

impl CachedBlobAsk {
    /// Where the blob lies, if there is a cache.
    pub fn location(&self, cache: &Cache) -> (r: Option<String>)
        ensures
            r is Some <==> cache.present(),
            r matches Some(l) ==> l@ == crate::cache::blob_location(self.sha@),
    {
        cache.blob(self.sha.as_str())
    }

    /// Goes on from the bytes that the cache holds, if it holds any. Coded, they have to fit
    /// in memory.
    pub fn resume(self, found: Option<Vec<u8>>) -> (t: Turn)
        requires
            found matches Some(bytes) ==> bytes@.len() <= usize::MAX / 4,
        ensures
            recalled(self, found, t),
            t.follows(Turn::CachedBlob(self)),
    {
        match found {
            Some(bytes) => Turn::give(blob_document(&bytes)),
            None => Turn::CachedProject(
                CachedProjectAsk { repo: self.repo, goal: Goal::Blob { sha: self.sha } },
            ),
        }
    }
}

/// What the bytes of a blob lead to: they are stored and given, unless they are more than a
/// preview.
pub open spec fn fetched(ask: BlobAsk, answer: ApiResult<Vec<u8>>, s: Step) -> bool {
    match answer {
        Ok(bytes) => if bytes@.len() > BLOB_CAP {
            s.effect is None && s.turn.refuses(
                "provider",
                over_cap_message("blob "@ + ask.sha@, bytes@.len()),
            )
        } else {
            s.effect == Some(Effect::StoreBlob { sha: ask.sha, bytes }) && s.turn.gives(
                blob_json(bytes@),
            )
        },
        Err(e) => handlers::failed(e, ask.origin, s),
    }
}

impl BlobAsk {
    pub fn url(&self, gl: &GitLab) -> (r: String)
        ensures
            r@ == gl.blob_raw_address(self.project_id, self.sha@),
    {
        gl.blob_raw(self.project_id, self.sha.as_str())
    }

    pub fn resume(self, answer: ApiResult<Vec<u8>>) -> (s: Step)
        ensures
            fetched(self, answer, s),
            s.turn.follows(Turn::Blob(self)),
    {
        let bytes = match answer {
            Ok(bytes) => bytes,
            Err(e) => return Step::fail(&e, self.origin),
        };
        if bytes.len() > BLOB_CAP {
            let what = text::concat2("blob ", self.sha.as_str());
            return Step { effect: None, turn: over_cap(what.as_str(), bytes.len()) };
        }
        let turn = Turn::give(blob_document(&bytes));
        Step { effect: Some(Effect::StoreBlob { sha: self.sha, bytes }), turn }
    }
}

/// The bytes of a project's file are to be asked for, in the default branch where no
/// revision is given.
pub open spec fn file_begun(
    project: Project,
    path: String,
    reference: Option<String>,
    origin: Option<Origin>,
    t: Turn,
) -> bool {
    &&& t matches Turn::File(ask)
    &&& ask.project_id == project.id
    &&& ask.path == path
    &&& ask.ref_name@ == api::text_or(reference, project.branch_text())
    &&& ask.origin == origin
}

pub fn begin_file(
    project: &Project,
    path: String,
    reference: Option<String>,
    origin: Option<Origin>,
) -> (t: Turn)
    ensures
        file_begun(*project, path, reference, origin, t),
{
    let ref_name = match reference {
        Some(r) => r,
        None => project.branch(),
    };
    Turn::File(FileAsk { project_id: project.id, path, ref_name, origin })
}

/// What the bytes of a file lead to: they are stored under their content id and given with
/// it, unless they are more than a preview.
pub open spec fn given(ask: FileAsk, answer: ApiResult<Vec<u8>>, s: Step) -> bool {
    match answer {
        Ok(bytes) => if bytes@.len() > BLOB_CAP {
            s.effect is None && s.turn.refuses(
                "provider",
                over_cap_message(ask.path@ + " at "@ + ask.ref_name@, bytes@.len()),
            )
        } else {
            &&& s.effect matches Some(Effect::StoreBlob { sha, bytes: stored })
            &&& sha@ == api::git_blob_id(bytes@)
            &&& stored == bytes
            &&& s.turn.gives(file_json(bytes@))
        },
        Err(e) => handlers::failed(e, ask.origin, s),
    }
}

impl FileAsk {
    pub fn url(&self, gl: &GitLab) -> (r: String)
        ensures
            r@ == gl.raw_file_at_address(self.project_id, self.path@, self.ref_name@),
    {
        gl.raw_file_at(self.project_id, self.path.as_str(), self.ref_name.as_str())
    }

    pub fn resume(self, answer: ApiResult<Vec<u8>>) -> (s: Step)
        ensures
            given(self, answer, s),
            s.turn.follows(Turn::File(self)),
    {
        let bytes = match answer {
            Ok(bytes) => bytes,
            Err(e) => return Step::fail(&e, self.origin),
        };
        if bytes.len() > BLOB_CAP {
            let mut what = text::concat2(self.path.as_str(), " at ");
            what.append(self.ref_name.as_str());
            return Step { effect: None, turn: over_cap(what.as_str(), bytes.len()) };
        }
        let sha = api::git_blob_sha(&bytes);
        let v = json::with(blob_document(&bytes), "sha", json::string(sha.as_str()));
        Step { effect: Some(Effect::StoreBlob { sha, bytes }), turn: Turn::give(v) }
    }
}

// -- laws ------------------------------------------------------------------------------------

/// The bytes of a document that a blob or a file is given as.
pub open spec fn document_bytes(j: JsonView) -> Seq<u8> {
    match json::text_member(j, "bytes_b64"@) {
        Some(coded) => encode::base64_decode(coded),
        None => seq![],
    }
}

/// The client gets the very bytes of the blob or the file.
pub proof fn documents_carry_the_bytes(bytes: Seq<u8>)
    ensures
        document_bytes(blob_json(bytes)) == bytes,
        document_bytes(file_json(bytes)) == bytes,
{
    reveal_strlit("bytes_b64");
    reveal_strlit("sha");
    encode::base64_roundtrip(bytes);
    assert("bytes_b64"@.len() != "sha"@.len());
}

/// A file that was given by its path can be given by its content id: under that id the same
/// bytes are stored, and they give the same document but for the id.
pub proof fn files_are_blobs(ask: FileAsk, bytes: Vec<u8>, s: Step)
    requires
        bytes@.len() <= BLOB_CAP,
        given(ask, Ok(bytes), s),
    ensures
        s.effect matches Some(Effect::StoreBlob { sha, bytes: stored }) && {
            &&& json::text_member(file_json(bytes@), "sha"@) == Some(sha@)
            &&& json::text_member(file_json(bytes@), "bytes_b64"@) == json::text_member(
                blob_json(stored@),
                "bytes_b64"@,
            )
        },
{
    reveal_strlit("bytes_b64");
    reveal_strlit("sha");
    assert("bytes_b64"@.len() != "sha"@.len());
}

/// A blob that was given once is given the same from the cache.
pub proof fn cached_blobs_are_the_blobs(
    ask: BlobAsk,
    answer: Vec<u8>,
    s: Step,
    again: CachedBlobAsk,
    t: Turn,
)
    requires
        fetched(ask, Ok(answer), s),
        answer@.len() <= BLOB_CAP,
        recalled(again, Some(s.effect->0->StoreBlob_bytes), t),
    ensures
        s.effect->0->StoreBlob_sha == ask.sha,
        s.turn.gives(blob_json(answer@)),
        t.gives(blob_json(answer@)),
{
}

/// The document of a blob has its bytes alone, and that of a file the bytes and the content id.
pub proof fn documents_hold_bytes_and_id(bytes: Seq<u8>)
    ensures
        blob_json(bytes).member("bytes_b64"@) == Some(JsonView::Str(encode::base64(bytes))),
        blob_json(bytes)->Obj_0.dom() == set!["bytes_b64"@],
        file_json(bytes).member("bytes_b64"@) == Some(JsonView::Str(encode::base64(bytes))),
        file_json(bytes).member("sha"@) == Some(JsonView::Str(api::git_blob_id(bytes))),
        file_json(bytes)->Obj_0.dom() == set!["bytes_b64"@, "sha"@],
{
    reveal_strlit("bytes_b64");
    reveal_strlit("sha");
    assert("bytes_b64"@.len() != "sha"@.len());
    assert(blob_json(bytes)->Obj_0.dom() =~= set!["bytes_b64"@]);
    assert(file_json(bytes)->Obj_0.dom() =~= set!["bytes_b64"@, "sha"@]);
}

/// What is up to 1 MiB is given, and stored under its id; what is a byte more is refused by name
/// and size, in whole KiB, and leaves the cache alone.
pub proof fn previews_end_at_the_cap(
    blob: BlobAsk,
    file: FileAsk,
    bytes: Vec<u8>,
    of_blob: Step,
    of_file: Step,
)
    requires
        fetched(blob, Ok(bytes), of_blob),
        given(file, Ok(bytes), of_file),
    ensures
        bytes@.len() <= 1024 * 1024 ==> {
            &&& of_blob.turn.gives(blob_json(bytes@))
            &&& of_blob.effect == Some(Effect::StoreBlob { sha: blob.sha, bytes })
            &&& of_file.turn.gives(file_json(bytes@))
            &&& of_file.effect is Some
            &&& of_file.effect->0 is StoreBlob
            &&& of_file.effect->0->StoreBlob_sha@ == api::git_blob_id(bytes@)
            &&& of_file.effect->0->StoreBlob_bytes == bytes
        },
        bytes@.len() > 1024 * 1024 ==> {
            let size = text::decimal(bytes@.len() / 1024);
            let cap = " KiB — over the 1 MiB preview cap"@;
            &&& of_blob.effect is None
            &&& of_blob.turn.refuses("provider", "blob "@ + blob.sha@ + " is "@ + size + cap)
            &&& of_file.effect is None
            &&& of_file.turn.refuses(
                "provider",
                file.path@ + " at "@ + file.ref_name@ + " is "@ + size + cap,
            )
        },
{
}

/// What cannot be had is told to the client, and leaves the cache alone.
pub proof fn failures_are_told(
    blob: BlobAsk,
    file: FileAsk,
    e: api::ApiError,
    of_blob: Step,
    of_file: Step,
)
    requires
        fetched(blob, Err(e), of_blob),
        given(file, Err(e), of_file),
    ensures
        blob.origin is None ==> of_blob.effect is None && of_blob.turn.fails(
            handlers::wire_error(e),
        ),
        file.origin is None ==> of_file.effect is None && of_file.turn.fails(
            handlers::wire_error(e),
        ),
        handlers::failed(e, blob.origin, of_blob),
        handlers::failed(e, file.origin, of_file),
{
}

/// A blob that is cached is given without asking the server; one that is not is asked for by its
/// id in the project that the client named.
pub proof fn blobs_are_looked_for_in_the_cache(
    ask: CachedBlobAsk,
    found: Option<Vec<u8>>,
    t: Turn,
)
    requires
        recalled(ask, found, t),
    ensures
        found matches Some(bytes) ==> t.gives(blob_json(bytes@)),
        found is None ==> t is CachedProject && t->CachedProject_0.repo == ask.repo
            && t->CachedProject_0.goal == (Goal::Blob { sha: ask.sha }),
{
}

/// The bytes are those of the path and the revision that the client named, in the project that
/// was looked up; without a revision they are those of the default branch, `main` where the
/// server names none.
pub proof fn files_are_of_the_path_asked_for(
    project: Project,
    path: String,
    reference: Option<String>,
    origin: Option<Origin>,
    t: Turn,
)
    requires
        file_begun(project, path, reference, origin, t),
    ensures
        t matches Turn::File(ask) && ask.project_id == project.id && ask.path == path
            && ask.origin == origin && ask.ref_name@ == match reference {
            Some(name) => name@,
            None => match project.default_branch {
                Some(name) => name@,
                None => "main"@,
            },
        },
{
}

} // verus!
