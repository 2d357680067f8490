//! `repo/blame`: who gave a file its lines, as ranges that cover every line.

use serde_json::Value;
use vstd::prelude::*;
use vstd::string::*;

use crate::api::{ApiResult, BlameChunk, GitLab, Project};
use crate::handlers::{Origin, Step, Turn};
use crate::json::JsonView;
use crate::{api, handlers, json, text};

verus! {

/// Lines in a row, counted from 1 and both ends included, that stem from one commit.
pub struct BlameRange {
    pub start_line: u64,
    pub end_line: u64,
    pub sha: String,
    pub author: String,
    pub date: String,
}

/// A range, with its texts as sequences.
#[verifier::ext_equal]
pub struct RangeView {
    pub start_line: nat,
    pub end_line: nat,
    pub sha: Seq<char>,
    pub author: Seq<char>,
    pub date: Seq<char>,
}

impl BlameRange {
    pub open spec fn view(&self) -> RangeView {
        RangeView {
            start_line: self.start_line as nat,
            end_line: self.end_line as nat,
            sha: self.sha@,
            author: self.author@,
            date: self.date@,
        }
    }
}

/// How many lines chunks hold together.
pub open spec fn line_total(chunks: Seq<BlameChunk>) -> nat
    decreases chunks.len(),
{
    if chunks.len() == 0 {
        0
    } else {
        line_total(chunks.drop_last()) + chunks.last().lines@.len()
    }
}

/// The commit that a chunk stems from, empty where none is given.
pub open spec fn chunk_sha(chunk: BlameChunk) -> Seq<char> {
    match chunk.commit {
        Some(c) => c.id@,
        None => ""@,
    }
}

/// A chunk as a range of its own, after `before` other lines.
pub open spec fn chunk_range(chunk: BlameChunk, before: nat) -> RangeView {
    RangeView {
        start_line: before + 1,
        end_line: before + chunk.lines@.len(),
        sha: chunk_sha(chunk),
        author: match chunk.commit {
            Some(c) => api::text_or(c.author_name, ""@),
            None => ""@,
        },
        date: match chunk.commit {
            Some(c) => api::text_or(c.committed_date, ""@),
            None => ""@,
        },
    }
}

/// The ranges with one more: it lengthens the last one where that has the same commit.
pub open spec fn joined(ranges: Seq<RangeView>, next: RangeView) -> Seq<RangeView> {
    if ranges.len() > 0 && ranges.last().sha == next.sha {
        ranges.drop_last().push(RangeView { end_line: next.end_line, ..ranges.last() })
    } else {
        ranges.push(next)
    }
}

/// The ranges of a file. A chunk without lines adds nothing; one without a commit still
/// has its lines.
pub open spec fn ranges_of(chunks: Seq<BlameChunk>) -> Seq<RangeView>
    decreases chunks.len(),
{
    if chunks.len() == 0 {
        seq![]
    } else {
        let before = ranges_of(chunks.drop_last());
        if chunks.last().lines@.len() == 0 {
            before
        } else {
            joined(before, chunk_range(chunks.last(), line_total(chunks.drop_last())))
        }
    }
}

/// The commit of each line of a file.
pub open spec fn line_shas(chunks: Seq<BlameChunk>) -> Seq<Seq<char>>
    decreases chunks.len(),
{
    if chunks.len() == 0 {
        seq![]
    } else {
        line_shas(chunks.drop_last()) + Seq::new(
            chunks.last().lines@.len(),
            |i: int| chunk_sha(chunks.last()),
        )
    }
}

/// The ranges start at line 1, each starts right after the one before, and the last one
/// ends with the last line.
pub open spec fn tiles(ranges: Seq<RangeView>, lines: nat) -> bool {
    &&& ranges.len() == 0 ==> lines == 0
    &&& ranges.len() > 0 ==> ranges[0].start_line == 1 && ranges.last().end_line == lines
    &&& forall|i: int|
        0 <= i < ranges.len() ==> (#[trigger] ranges[i]).start_line <= ranges[i].end_line
    &&& forall|i: int, j: int|
        #![trigger ranges[i], ranges[j]]
        0 <= i && j == i + 1 && j < ranges.len() ==> ranges[j].start_line == ranges[i].end_line + 1
            && ranges[j].sha != ranges[i].sha
}

/// Each line lies in ranges of its own commit only.
pub open spec fn attributes(ranges: Seq<RangeView>, shas: Seq<Seq<char>>) -> bool {
    forall|i: int, n: int|
        #![trigger ranges[i], shas[n]]
        0 <= i < ranges.len() && 0 <= n < shas.len() && ranges[i].start_line <= n + 1
            <= ranges[i].end_line ==> shas[n] == ranges[i].sha
}

/// The ranges of a file cover every line of it exactly once, from line 1 on; neighbours
/// stem from different commits; and each line lies in a range of the commit that it stems
/// from.
pub proof fn ranges_cover_every_line(chunks: Seq<BlameChunk>)
    ensures
        tiles(ranges_of(chunks), line_total(chunks)),
        line_shas(chunks).len() == line_total(chunks),
        attributes(ranges_of(chunks), line_shas(chunks)),
    decreases chunks.len(),
{
    if chunks.len() > 0 {
        let head = chunks.drop_last();
        ranges_cover_every_line(head);
        let before = ranges_of(head);
        let ranges = ranges_of(chunks);
        let shas = line_shas(chunks);
        assert forall|i: int, n: int|
            #![trigger ranges[i], shas[n]]
            0 <= i < ranges.len() && 0 <= n < shas.len() && ranges[i].start_line <= n + 1
                <= ranges[i].end_line implies shas[n] == ranges[i].sha by {
            if i < before.len() {
                range_ends(before, line_total(head), i);
                if n < line_total(head) {
                    assert(line_shas(head)[n] == shas[n]);
                    assert(before[i].start_line == ranges[i].start_line);
                    assert(before[i].end_line >= n + 1);
                }
            }
        }
    }
}

proof fn range_ends(ranges: Seq<RangeView>, lines: nat, i: int)
    requires
        tiles(ranges, lines),
        0 <= i < ranges.len(),
    ensures
        ranges[i].end_line <= lines,
        i < ranges.len() - 1 ==> ranges[i].end_line < lines,
    decreases ranges.len() - i,
{
    if i < ranges.len() - 1 {
        range_ends(ranges, lines, i + 1);
        assert(ranges[i + 1].start_line == ranges[i].end_line + 1);
    }
}

/// The ranges that the chunks of a file make up.
pub fn coalesce(chunks: &Vec<BlameChunk>) -> (r: Vec<BlameRange>)
    requires
        line_total(chunks@) < u64::MAX,
    ensures
        r@.map_values(|b: BlameRange| b.view()) == ranges_of(chunks@),
{
    let mut ranges: Vec<BlameRange> = Vec::new();
    let mut line: u64 = 1;
    let mut i: usize = 0;
    while i < chunks.len()
        invariant
            i <= chunks@.len(),
            line_total(chunks@) < u64::MAX,
            line == line_total(chunks@.take(i as int)) + 1,
            ranges@.map_values(|b: BlameRange| b.view()) == ranges_of(chunks@.take(i as int)),
        decreases chunks@.len() - i,
    {
        let chunk = &chunks[i];
        let ghost seen = chunks@.take(i as int);
        assert(chunks@.take(i + 1).drop_last() == seen);
        assert(chunks@.take(i + 1).last() == *chunk);
        proof {
            line_total_grows(chunks@, i + 1);
        }
        let n = chunk.lines.len();
        i = i + 1;
        if n == 0 {
            continue ;
        }
        let (sha, author, date) = match &chunk.commit {
            Some(c) => (
                c.id.clone(),
                api::or_text(&c.author_name, ""),
                api::or_text(&c.committed_date, ""),
            ),
            None => ("".to_owned(), "".to_owned(), "".to_owned()),
        };
        let end = line + (n as u64 - 1);
        let next = BlameRange { start_line: line, end_line: end, sha, author, date };
        assert(next.view() == chunk_range(*chunk, line_total(seen)));
        push_range(&mut ranges, next);
        line = end + 1;
    }
    assert(chunks@.take(i as int) == chunks@);
    ranges
}

proof fn line_total_grows(chunks: Seq<BlameChunk>, n: int)
    requires
        0 <= n <= chunks.len(),
    ensures
        line_total(chunks.take(n)) <= line_total(chunks),
    decreases chunks.len(),
{
    if n < chunks.len() {
        assert(chunks.drop_last().take(n) == chunks.take(n));
        line_total_grows(chunks.drop_last(), n);
    } else {
        assert(chunks.take(n) == chunks);
    }
}

fn push_range(ranges: &mut Vec<BlameRange>, next: BlameRange)
    ensures
        final(ranges)@.map_values(|b: BlameRange| b.view()) == joined(
            old(ranges)@.map_values(|b: BlameRange| b.view()),
            next.view(),
        ),
{
    let ghost before = ranges@.map_values(|b: BlameRange| b.view());
    match ranges.pop() {
        Some(last) => {
            assert(before.last() == last.view());
            assert(before.drop_last() == ranges@.map_values(|b: BlameRange| b.view()));
            if text::same(last.sha.as_str(), next.sha.as_str()) {
                let longer = BlameRange { end_line: next.end_line, ..last };
                assert(longer.view() == RangeView {
                    end_line: next.view().end_line,
                    ..last.view()
                });
                ranges.push(longer);
            } else {
                ranges.push(last);
                ranges.push(next);
            }
        },
        None => {
            ranges.push(next);
        },
    }
}

/// The document of a range.
pub open spec fn range_json(r: RangeView) -> JsonView {
    JsonView::Obj(
        map![
            "start_line"@ => JsonView::Uint(r.start_line as u64),
            "end_line"@ => JsonView::Uint(r.end_line as u64),
            "sha"@ => JsonView::Str(r.sha),
            "author"@ => JsonView::Str(r.author),
            "date"@ => JsonView::Str(r.date),
        ],
    )
}

/// The document of a blame.
pub open spec fn blame_json(chunks: Seq<BlameChunk>) -> JsonView {
    JsonView::Obj(
        map![
            "ranges"@ => JsonView::Arr(ranges_of(chunks).map_values(|r: RangeView| range_json(r))),
        ],
    )
}

fn range_document(r: &BlameRange) -> (v: Value)
    ensures
        json::value_view(v) == range_json(r.view()),
{
    let v = json::with(json::object(), "start_line", json::uint(r.start_line));
    let v = json::with(v, "end_line", json::uint(r.end_line));
    let v = json::with(v, "sha", json::string(r.sha.as_str()));
    let v = json::with(v, "author", json::string(r.author.as_str()));
    json::with(v, "date", json::string(r.date.as_str()))
}

/// Waits for the blame of a file in a revision.
pub struct BlameAsk {
    pub project_id: u64,
    pub path: String,
    pub ref_name: String,
    pub origin: Option<Origin>,
}

/// The blame of a project's file is to be asked for, in the default branch where no
/// revision is given.
pub open spec fn begun(
    project: Project,
    path: String,
    reference: Option<String>,
    origin: Option<Origin>,
    t: Turn,
) -> bool {
    &&& t matches Turn::Blame(ask)
    &&& ask.project_id == project.id
    &&& ask.path == path
    &&& ask.ref_name@ == api::text_or(reference, project.branch_text())
    &&& ask.origin == origin
}

pub fn begin(
    project: &Project,
    path: String,
    reference: Option<String>,
    origin: Option<Origin>,
) -> (t: Turn)
    ensures
        begun(*project, path, reference, origin, t),
{
    let ref_name = match reference {
        Some(r) => r,
        None => project.branch(),
    };
    Turn::Blame(BlameAsk { project_id: project.id, path, ref_name, origin })
}

/// What the answer leads to: the blame is given.
pub open spec fn answered(ask: BlameAsk, answer: ApiResult<Vec<BlameChunk>>, s: Step) -> bool {
    match answer {
        Ok(chunks) => s.effect is None && s.turn.gives(blame_json(chunks@)),
        Err(e) => handlers::failed(e, ask.origin, s),
    }
}

impl BlameAsk {
    pub fn url(&self, gl: &GitLab) -> (r: String)
        ensures
            r@ == gl.blame_address(self.project_id, self.path@, self.ref_name@),
    {
        gl.blame(self.project_id, self.path.as_str(), self.ref_name.as_str())
    }

    pub fn resume(self, answer: ApiResult<Vec<BlameChunk>>) -> (s: Step)
        requires
            answer matches Ok(chunks) ==> line_total(chunks@) < u64::MAX,
        ensures
            answered(self, answer, s),
            s.turn.follows(Turn::Blame(self)),
    {
        let chunks = match answer {
            Ok(chunks) => chunks,
            Err(e) => return Step::fail(&e, self.origin),
        };
        let ranges = coalesce(&chunks);
        let ghost all = ranges_of(chunks@).map_values(|r: RangeView| range_json(r));
        let mut items: Vec<Value> = Vec::new();
        let mut i: usize = 0;
        while i < ranges.len()
            invariant
                i <= ranges@.len(),
                all == ranges@.map_values(|b: BlameRange| b.view()).map_values(
                    |r: RangeView| range_json(r),
                ),
                json::values_view(items@) == all.take(i as int),
            decreases ranges@.len() - i,
        {
            json::push(&mut items, range_document(&ranges[i]));
            assert(all.take(i + 1) == all.take(i as int).push(all[i as int]));
            i = i + 1;
        }
        assert(all.take(i as int) == all);
        Step::go(Turn::give(json::with(json::object(), "ranges", json::list(items))))
    }
}

// -- laws ------------------------------------------------------------------------------------

/// The lines of chunks add up, one chunk after the other.
pub proof fn lines_add_up(chunks: Seq<BlameChunk>, next: BlameChunk)
    ensures
        line_total(seq![]) == 0,
        line_total(chunks.push(next)) == line_total(chunks) + next.lines@.len(),
{
    assert(chunks.push(next).drop_last() == chunks);
}

/// A range has the commit, the author and the date of a chunk, each empty where the commit, or
/// the commit's field, is missing.
pub open spec fn credits(r: RangeView, chunk: BlameChunk) -> bool {
    match chunk.commit {
        Some(c) => {
            &&& r.sha == c.id@
            &&& r.author == match c.author_name {
                Some(author) => author@,
                None => ""@,
            }
            &&& r.date == match c.committed_date {
                Some(date) => date@,
                None => ""@,
            }
        },
        None => r.sha == ""@ && r.author == ""@ && r.date == ""@,
    }
}

/// A range begins with the first line of a chunk, and credits the commit of that chunk.
pub open spec fn begins(r: RangeView, chunks: Seq<BlameChunk>, k: int) -> bool {
    &&& 0 <= k < chunks.len()
    &&& chunks[k].lines@.len() > 0
    &&& r.start_line == line_total(chunks.take(k)) + 1
    &&& credits(r, chunks[k])
}

/// Every range begins with the first line of a chunk, and names the commit of that chunk with
/// the commit's own author and date.
pub proof fn ranges_credit_their_commit(chunks: Seq<BlameChunk>, i: int)
    requires
        0 <= i < ranges_of(chunks).len(),
    ensures
        exists|k: int| #[trigger] begins(ranges_of(chunks)[i], chunks, k),
    decreases chunks.len(),
{
    let r = ranges_of(chunks)[i];
    let head = chunks.drop_last();
    let before = ranges_of(head);
    let last = chunks.len() - 1;
    assert(chunks.take(last) == head);
    if i < before.len() {
        ranges_credit_their_commit(head, i);
        let k = choose|k: int| #[trigger] begins(before[i], head, k);
        assert(head.take(k) == chunks.take(k));
        assert(r.start_line == before[i].start_line && r.sha == before[i].sha);
        assert(begins(r, chunks, k));
    } else {
        assert(begins(r, chunks, last));
    }
}

/// Every line of a file lies in a range.
pub proof fn lines_lie_in_ranges(chunks: Seq<BlameChunk>, line: nat)
    requires
        1 <= line <= line_total(chunks),
    ensures
        exists|i: int|
            0 <= i < ranges_of(chunks).len() && (#[trigger] ranges_of(chunks)[i]).start_line
                <= line <= ranges_of(chunks)[i].end_line,
{
    ranges_cover_every_line(chunks);
    lies_within(ranges_of(chunks), line_total(chunks), line, 0);
}

proof fn lies_within(ranges: Seq<RangeView>, lines: nat, line: nat, from: int)
    requires
        tiles(ranges, lines),
        line <= lines,
        0 <= from < ranges.len(),
        ranges[from].start_line <= line,
    ensures
        exists|i: int|
            0 <= i < ranges.len() && (#[trigger] ranges[i]).start_line <= line
                <= ranges[i].end_line,
    decreases ranges.len() - from,
{
    if line > ranges[from].end_line {
        assert(ranges[from + 1].start_line == ranges[from].end_line + 1);
        lies_within(ranges, lines, line, from + 1);
    } else {
        assert(ranges[from].start_line <= line <= ranges[from].end_line);
    }
}

proof fn shas_of_chunks(chunks: Seq<BlameChunk>, k: int, n: int)
    requires
        0 <= k < chunks.len(),
        0 <= n < chunks[k].lines@.len(),
    ensures
        line_total(chunks.take(k)) + n < line_shas(chunks).len(),
        line_shas(chunks)[line_total(chunks.take(k)) + n] == chunk_sha(chunks[k]),
    decreases chunks.len(),
{
    let head = chunks.drop_last();
    ranges_cover_every_line(head);
    if k < chunks.len() - 1 {
        shas_of_chunks(head, k, n);
        assert(head.take(k) == chunks.take(k));
    } else {
        assert(chunks.take(k) == head);
    }
}

/// Each line lies in a range that credits the commit which the line stems from: with its id, and,
/// where chunks of one commit agree on its author and its date, with its author and its date.
pub proof fn lines_credit_their_commit(chunks: Seq<BlameChunk>, k: int, n: int, i: int)
    requires
        0 <= k < chunks.len(),
        0 <= n < chunks[k].lines@.len(),
        0 <= i < ranges_of(chunks).len(),
        ranges_of(chunks)[i].start_line <= line_total(chunks.take(k)) + n + 1
            <= ranges_of(chunks)[i].end_line,
    ensures
        ranges_of(chunks)[i].sha == match chunks[k].commit {
            Some(c) => c.id@,
            None => ""@,
        },
        (forall|a: int, b: int, r: RangeView|
            #![trigger credits(r, chunks[a]), credits(r, chunks[b])]
            0 <= a < chunks.len() && 0 <= b < chunks.len() && credits(r, chunks[a]) && r.sha == (
            match chunks[b].commit {
                Some(c) => c.id@,
                None => ""@,
            }) ==> credits(r, chunks[b])) ==> credits(ranges_of(chunks)[i], chunks[k]),
{
    let r = ranges_of(chunks)[i];
    ranges_cover_every_line(chunks);
    shas_of_chunks(chunks, k, n);
    let at = line_total(chunks.take(k)) + n;
    assert(line_shas(chunks)[at] == r.sha);
    ranges_credit_their_commit(chunks, i);
    let first = choose|f: int| #[trigger] begins(r, chunks, f);
    assert(credits(r, chunks[first]));
}

/// Lines in a row of one commit make one range, however many chunks they come in; a range ends
/// where the commit changes.
pub proof fn ranges_grow_with_their_commit(chunks: Seq<BlameChunk>, next: BlameChunk)
    ensures
        ({
            let before = ranges_of(chunks);
            let after = ranges_of(chunks.push(next));
            let sha = match next.commit {
                Some(c) => c.id@,
                None => ""@,
            };
            if next.lines@.len() == 0 {
                after == before
            } else if before.len() > 0 && before.last().sha == sha {
                &&& after.len() == before.len()
                &&& after.drop_last() == before.drop_last()
                &&& after.last().start_line == before.last().start_line
                &&& after.last().end_line == line_total(chunks.push(next))
                &&& after.last().sha == sha
                &&& after.last().author == before.last().author
                &&& after.last().date == before.last().date
            } else {
                &&& after.len() == before.len() + 1
                &&& after.drop_last() == before
                &&& after.last().start_line == line_total(chunks) + 1
                &&& after.last().end_line == line_total(chunks.push(next))
                &&& credits(after.last(), next)
            }
        }),
{
    assert(chunks.push(next).drop_last() == chunks);
}

/// The document of a blame has its ranges in their order, each with its lines, its commit, its
/// author and its date, and nothing else.
pub proof fn blames_show_their_ranges(chunks: Seq<BlameChunk>)
    ensures
        ({
            let j = blame_json(chunks);
            let items = (j.member("ranges"@)->0)->Arr_0;
            let ranges = ranges_of(chunks);
            &&& j.member("ranges"@) == Some(JsonView::Arr(items))
            &&& j->Obj_0.dom() == set!["ranges"@]
            &&& items.len() == ranges.len()
            &&& forall|i: int|
                0 <= i < items.len() ==> {
                    let r = ranges[i];
                    &&& (#[trigger] items[i]).member("start_line"@) == Some(
                        JsonView::Uint(r.start_line as u64),
                    )
                    &&& items[i].member("end_line"@) == Some(JsonView::Uint(r.end_line as u64))
                    &&& items[i].member("sha"@) == Some(JsonView::Str(r.sha))
                    &&& items[i].member("author"@) == Some(JsonView::Str(r.author))
                    &&& items[i].member("date"@) == Some(JsonView::Str(r.date))
                    &&& items[i]->Obj_0.dom() == set![
                        "start_line"@,
                        "end_line"@,
                        "sha"@,
                        "author"@,
                        "date"@,
                    ]
                }
        }),
{
    reveal_strlit("start_line");
    reveal_strlit("end_line");
    reveal_strlit("sha");
    reveal_strlit("author");
    reveal_strlit("date");
    assert("start_line"@.len() == 10 && "end_line"@.len() == 8 && "sha"@.len() == 3
        && "author"@.len() == 6 && "date"@.len() == 4);
    let ranges = ranges_of(chunks);
    let items = ranges.map_values(|r: RangeView| range_json(r));
    assert forall|i: int| 0 <= i < items.len() implies {
        let r = ranges[i];
        &&& (#[trigger] items[i]).member("start_line"@) == Some(
            JsonView::Uint(r.start_line as u64),
        )
        &&& items[i].member("end_line"@) == Some(JsonView::Uint(r.end_line as u64))
        &&& items[i].member("sha"@) == Some(JsonView::Str(r.sha))
        &&& items[i].member("author"@) == Some(JsonView::Str(r.author))
        &&& items[i].member("date"@) == Some(JsonView::Str(r.date))
        &&& items[i]->Obj_0.dom() == set![
            "start_line"@,
            "end_line"@,
            "sha"@,
            "author"@,
            "date"@,
        ]
    } by {
        assert(items[i] == range_json(ranges[i]));
        assert(items[i]->Obj_0.dom() =~= set![
            "start_line"@,
            "end_line"@,
            "sha"@,
            "author"@,
            "date"@,
        ]);
    }
    assert(blame_json(chunks)->Obj_0.dom() =~= set!["ranges"@]);
}

/// The blame is that of the file and the revision that the client named, in the project that
/// was looked up; without a revision it is that of the default branch, `main` where the server
/// names none.
pub proof fn blames_are_of_the_file_asked_for(
    project: Project,
    path: String,
    reference: Option<String>,
    origin: Option<Origin>,
    t: Turn,
)
    requires
        begun(project, path, reference, origin, t),
    ensures
        t matches Turn::Blame(ask) && ask.project_id == project.id && ask.path == path
            && ask.origin == origin && ask.ref_name@ == match reference {
            Some(name) => name@,
            None => match project.default_branch {
                Some(name) => name@,
                None => "main"@,
            },
        },
{
}

/// Chunks that the server answers with are given as their blame, and a failure is told.
pub proof fn blames_are_given(ask: BlameAsk, answer: ApiResult<Vec<BlameChunk>>, s: Step)
    requires
        answered(ask, answer, s),
    ensures
        answer matches Ok(chunks) ==> s.effect is None && s.turn.gives(blame_json(chunks@)),
        answer is Err && ask.origin is None ==> s.effect is None && s.turn.fails(
            handlers::wire_error(answer->Err_0),
        ),
        answer matches Err(e) ==> handlers::failed(e, ask.origin, s),
{
}

} // verus!
