//! `repo/clone_url`, `repo/web_url` and `org/url`: addresses for other programs.

use serde_json::Value;
use vstd::prelude::*;
use vstd::string::*;
use vstd::utf8::*;

use crate::api::{Group, Project};
use crate::handlers::Turn;
use crate::json::JsonView;
use crate::{api, encode, json, text};

verus! {

/// The document of a clone address, `null` where the server names none.
pub open spec fn clone_json(project: Project) -> JsonView {
    JsonView::Obj(
        map![
            "clone_url"@ => match project.http_url_to_repo {
                Some(url) => JsonView::Str(url@),
                None => JsonView::Null,
            },
        ],
    )
}

pub fn clone_url(project: &Project) -> (t: Turn)
    ensures
        t.gives(clone_json(*project)),
{
    let url = match &project.http_url_to_repo {
        Some(url) => json::string(url.as_str()),
        None => json::null(),
    };
    Turn::give(json::with(json::object(), "clone_url", url))
}

/// Each segment of a path, encoded; the slashes between them stay.
pub open spec fn encoded_path(path: Seq<char>) -> Seq<char> {
    text::join(text::pieces(path, '/').map_values(|s: Seq<char>| api::url_segment(s)), "/"@)
}

/// The address of a file or a directory on the project's web page, and of a line of a
/// file. Without a path it is that of the project.
pub open spec fn web_address(
    project: Project,
    path: Seq<char>,
    branch: Seq<char>,
    line: Option<u64>,
    is_file: bool,
) -> Seq<char> {
    let place = if path.len() == 0 {
        project.web_text()
    } else {
        project.web_text() + "/-/"@ + (if is_file {
            "blob"@
        } else {
            "tree"@
        }) + "/"@ + encoded_path(branch) + "/"@ + encoded_path(path)
    };
    match line {
        Some(n) if is_file => place + "#L"@ + text::decimal(n as nat),
        _ => place,
    }
}

pub open spec fn url_json(url: Seq<char>) -> JsonView {
    JsonView::Obj(map!["url"@ => JsonView::Str(url)])
}

fn encode_path(path: &str) -> (r: String)
    ensures
        r@ == encoded_path(path@),
{
    let segments = text::split(path, '/');
    let ghost all = text::pieces(path@, '/').map_values(|s: Seq<char>| api::url_segment(s));
    let mut encoded: Vec<String> = Vec::new();
    let mut i: usize = 0;
    while i < segments.len()
        invariant
            i <= segments@.len(),
            text::texts(segments@) == text::pieces(path@, '/'),
            all == text::pieces(path@, '/').map_values(|s: Seq<char>| api::url_segment(s)),
            text::texts(encoded@) == all.take(i as int),
        decreases segments@.len() - i,
    {
        let segment = api::urlencode_path(segments[i].as_str());
        let ghost before = text::texts(encoded@);
        let ghost s = segment@;
        assert(text::texts(segments@)[i as int] == segments@[i as int]@);
        encoded.push(segment);
        assert(text::texts(encoded@) == before.push(s));
        assert(all.take(i + 1) == all.take(i as int).push(all[i as int]));
        i = i + 1;
    }
    assert(all.take(i as int) == all);
    text::join_texts(&encoded, "/")
}

pub fn web_url(project: &Project, path: &str, branch: &str, line: Option<u64>, is_file: bool) -> (t:
    Turn)
    ensures
        t.gives(url_json(web_address(*project, path@, branch@, line, is_file))),
{
    let mut url = project.web();
    if !path.is_empty() {
        url.append("/-/");
        if is_file {
            url.append("blob");
        } else {
            url.append("tree");
        }
        url.append("/");
        url.append(encode_path(branch).as_str());
        url.append("/");
        url.append(encode_path(path).as_str());
    }
    if let Some(n) = line {
        if is_file {
            url.append("#L");
            url.append(text::decimal_text(n).as_str());
        }
    }
    Turn::give(json::with(json::object(), "url", json::string(url.as_str())))
}

pub fn org_url(group: &Group) -> (t: Turn)
    ensures
        t.gives(url_json(group.web_url@)),
{
    Turn::give(json::with(json::object(), "url", json::string(group.web_url.as_str())))
}

// -- laws ------------------------------------------------------------------------------------

/// Slashes in a branch or a path separate segments in the address as well, and nothing else
/// does: the segments of the encoded path are the encoded segments of the path.
pub proof fn encoded_paths_keep_their_segments(path: Seq<char>)
    ensures
        text::pieces(encoded_path(path), '/') == text::pieces(path, '/').map_values(
            |s: Seq<char>| api::url_segment(s),
        ),
{
    let segments = text::pieces(path, '/');
    let parts = segments.map_values(|s: Seq<char>| api::url_segment(s));
    text::pieces_exist(path, '/');
    reveal_strlit("/");
    assert("/"@ == seq!['/']);
    assert forall|i: int, k: int|
        #![trigger parts[i][k]]
        0 <= i < parts.len() && 0 <= k < parts[i].len() implies parts[i][k] != '/' by {
        encode::percent_alphabet(encode_utf8(segments[i]), true);
        assert(parts[i] == api::url_segment(segments[i]));
    }
    text::join_then_split(parts, "/"@, '/');
}

/// The address of something on the project's page begins with that page, and goes on to
/// `/-/blob/` just where it is a file and to `/-/tree/` just where it is a directory, whatever
/// the line.
pub proof fn files_are_blobs_and_directories_are_trees(
    project: Project,
    path: Seq<char>,
    branch: Seq<char>,
    line: Option<u64>,
    is_file: bool,
)
    requires
        path.len() > 0,
    ensures
        ({
            let url = web_address(project, path, branch, line, is_file);
            &&& is_file <==> (project.web_text() + "/-/blob/"@).is_prefix_of(url)
            &&& !is_file <==> (project.web_text() + "/-/tree/"@).is_prefix_of(url)
        }),
{
    reveal_strlit("/-/");
    reveal_strlit("blob");
    reveal_strlit("tree");
    reveal_strlit("/");
    reveal_strlit("/-/blob/");
    reveal_strlit("/-/tree/");
    let page = project.web_text();
    let url = web_address(project, path, branch, line, is_file);
    let blob = page + "/-/blob/"@;
    let tree = page + "/-/tree/"@;
    assert("/-/"@ + "blob"@ + "/"@ =~= "/-/blob/"@);
    assert("/-/"@ + "tree"@ + "/"@ =~= "/-/tree/"@);
    assert(blob[page.len() as int + 3] == 'b');
    assert(tree[page.len() as int + 3] == 't');
    if is_file {
        assert(blob =~= url.take(blob.len() as int));
        assert(url[page.len() as int + 3] == 'b');
    } else {
        assert(tree =~= url.take(tree.len() as int));
        assert(url[page.len() as int + 3] == 't');
    }
}

/// After `/-/blob/` or `/-/tree/` come the segments of the branch and then those of the path,
/// each encoded, and nothing else where no line is given.
pub proof fn addresses_hold_branch_and_path(
    project: Project,
    path: Seq<char>,
    branch: Seq<char>,
    is_file: bool,
    rest: Seq<char>,
)
    requires
        path.len() > 0,
        web_address(project, path, branch, None, is_file) == project.web_text() + (if is_file {
            "/-/blob/"@
        } else {
            "/-/tree/"@
        }) + rest,
    ensures
        text::pieces(rest, '/') == (text::pieces(branch, '/') + text::pieces(path, '/')).map_values(
            |s: Seq<char>| encode::percent(encode_utf8(s), true),
        ),
{
    reveal_strlit("/-/");
    reveal_strlit("blob");
    reveal_strlit("tree");
    reveal_strlit("/");
    reveal_strlit("/-/blob/");
    reveal_strlit("/-/tree/");
    let word = if is_file {
        "blob"@
    } else {
        "tree"@
    };
    let sign = if is_file {
        "/-/blob/"@
    } else {
        "/-/tree/"@
    };
    assert("/-/"@ + word + "/"@ =~= sign);
    assert("/"@ =~= seq!['/']);
    let page = project.web_text();
    let b = encoded_path(branch);
    let p = encoded_path(path);
    let tail = b + "/"@ + p;
    assert(page + "/-/"@ + word + "/"@ + b + "/"@ + p =~= page + sign + tail);
    text::same_tail(page + sign, rest, tail);
    text::separators_part_pieces(b, '/', p);
    encoded_paths_keep_their_segments(branch);
    encoded_paths_keep_their_segments(path);
    assert(text::pieces(rest, '/') =~= (text::pieces(branch, '/') + text::pieces(
        path,
        '/',
    )).map_values(|s: Seq<char>| encode::percent(encode_utf8(s), true)));
}

/// A line adds `#L` and its number to the address of a file, and nothing to that of a directory.
pub proof fn lines_only_add_a_fragment(
    project: Project,
    path: Seq<char>,
    branch: Seq<char>,
    n: u64,
)
    ensures
        web_address(project, path, branch, Some(n), true) == web_address(
            project,
            path,
            branch,
            None,
            true,
        ) + "#L"@ + text::decimal(n as nat),
        web_address(project, path, branch, Some(n), false) == web_address(
            project,
            path,
            branch,
            None,
            false,
        ),
{
}

/// Without a path the address is the project's page, and the branch makes no difference.
pub proof fn projects_have_their_page(
    project: Project,
    branch: Seq<char>,
    other: Seq<char>,
    line: Option<u64>,
    is_file: bool,
)
    ensures
        web_address(project, ""@, branch, None, is_file) == match project.web_url {
            Some(url) => url@,
            None => "https://gitlab.com/"@ + project.path_with_namespace@,
        },
        web_address(project, ""@, branch, line, is_file) == web_address(
            project,
            ""@,
            other,
            line,
            is_file,
        ),
{
    reveal_strlit("");
}

/// A document of an address has the address under `url` and nothing else; one of a clone
/// address has what the server names under `clone_url`, `null` where it names none.
pub proof fn documents_hold_the_address(url: Seq<char>, project: Project)
    ensures
        url_json(url).member("url"@) == Some(JsonView::Str(url)),
        forall|k: Seq<char>| k != "url"@ ==> (#[trigger] url_json(url).member(k)) is None,
        clone_json(project).member("clone_url"@) == Some(
            match project.http_url_to_repo {
                Some(remote) => JsonView::Str(remote@),
                None => JsonView::Null,
            },
        ),
        forall|k: Seq<char>|
            k != "clone_url"@ ==> (#[trigger] clone_json(project).member(k)) is None,
{
}

} // verus!
