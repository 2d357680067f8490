//! `initialize`: the handshake. It may move the cache, then has it fit a budget, then reports
//! what it takes. The server is not asked for anything.

use serde_json::Value;
use vstd::prelude::*;
use vstd::string::*;

use crate::budget::{BlobStat, Eviction};
use crate::cache::Cache;
use crate::handlers::Turn;
use crate::json::JsonView;
use crate::{api, budget, json};

verus! {

/// Waits for what the cache holds, after it was moved to `cache_dir` where that is given. It
/// has to fit `budget` bytes where that is not 0.
pub struct HandshakeAsk {
    pub cache_dir: Option<String>,
    pub budget: u64,
}

/// Waits for a blob to be removed.
pub struct EvictAsk {
    eviction: Eviction,
}

/// Waits for the sizes of the files in the cache.
pub struct MeasureAsk {}

/// A handshake is asked for with these parameters.
pub open spec fn begun(params: JsonView, t: Turn) -> bool {
    &&& t matches Turn::Handshake(ask)
    &&& api::maybe_text(ask.cache_dir) == json::text_member(params, "cache_dir"@)
    &&& ask.budget == match json::uint_member(params, "cache_bytes"@) {
        Some(n) => n,
        None => 0,
    }
}

pub fn begin(params: &Value) -> (t: Turn)
    ensures
        begun(json::value_view(*params), t),
{
    let cache_dir = match json::text_of(params, "cache_dir") {
        Some(dir) => Some(dir.to_owned()),
        None => None,
    };
    let budget = match json::uint_of(params, "cache_bytes") {
        Some(n) => n,
        None => 0,
    };
    Turn::Handshake(HandshakeAsk { cache_dir, budget })
}

/// The document that answers a handshake.
pub open spec fn handshake_json(usage: u64) -> JsonView {
    JsonView::Obj(
        map![
            "protocol"@ => JsonView::Uint(1),
            "name"@ => JsonView::Str("gitlab"@),
            "icon"@ => JsonView::Str("gitlab"@),
            "capabilities"@ => JsonView::Obj(
                map!["orgs"@ => JsonView::Bool(true), "code_search"@ => JsonView::Bool(true)],
            ),
            "cache"@ => JsonView::Obj(map!["bytes"@ => JsonView::Uint(usage)]),
        ],
    )
}

impl HandshakeAsk {
    /// The size that the cache has to fit, if it has to fit any: 0 sets none.
    pub fn limit(&self) -> (r: Option<u64>)
        ensures
            r == if self.budget > 0 {
                Some(self.budget)
            } else {
                None
            },
    {
        if self.budget > 0 {
            Some(self.budget)
        } else {
            None
        }
    }

    /// Moves the cache to where the client wants it.
    pub fn settle(&self, cache: &mut Cache)
        ensures
            settled(*self, *old(cache), *final(cache)),
    {
        if let Some(dir) = &self.cache_dir {
            cache.reroot(dir.as_str());
        }
    }

    /// Goes on from the sizes of all files below the root, and size and age of the blobs. They
    /// are looked at only where the cache has to fit a size.
    pub fn resume(self, cache: &Cache, sizes: &Vec<u64>, blobs: &Vec<BlobStat>) -> (t: Turn)
        requires
            budget::total(sizes@) <= u64::MAX,
        ensures
            surveyed(self, *cache, sizes@, blobs@, t),
            t.follows(Turn::Handshake(self)),
    {
        if let Some(limit) = self.limit() {
            if let Some(eviction) = cache.enforce_budget(limit, sizes, blobs) {
                proof {
                    budget::order_keeps_the_number(eviction.pending(), blobs@);
                }
                return EvictAsk::go_on(eviction);
            }
        }
        Turn::Measure(MeasureAsk {  })
    }
}

/// The cache lies where the client wants it, and is as it was where it lay there before.
pub open spec fn settled(ask: HandshakeAsk, before: Cache, after: Cache) -> bool {
    match ask.cache_dir {
        Some(dir) => after.rooted_at(dir@) && (before.rooted_at(dir@) ==> after == before),
        None => after == before,
    }
}

/// An eviction is due.
pub open spec fn due(ask: HandshakeAsk, cache: Cache, sizes: Seq<u64>) -> bool {
    ask.budget > 0 && cache.present() && budget::total(sizes) > ask.budget
}

/// What the files in the cache lead to: blobs are removed, the oldest first, where there are
/// any and the files do not fit the budget; else the cache is measured.
pub open spec fn surveyed(
    ask: HandshakeAsk,
    cache: Cache,
    sizes: Seq<u64>,
    blobs: Seq<BlobStat>,
    t: Turn,
) -> bool {
    if due(ask, cache, sizes) && blobs.len() > 0 {
        &&& t matches Turn::Evict(next)
        &&& next.state().excess() == budget::total(sizes) - ask.budget
        &&& budget::oldest_first(next.state().pending(), blobs)
        &&& next.state().goes_on()
    } else {
        t is Measure
    }
}

/// What the removal of a blob leads to: another one is removed, until the rest fits or none
/// is left; then the cache is measured.
pub open spec fn evicted(ask: EvictAsk, removed: bool, t: Turn) -> bool {
    if ask.state().excess_after(removed) > 0 && ask.state().pending().len() > 1 {
        t matches Turn::Evict(next) && next.state().succeeds(ask.state(), removed)
    } else {
        t is Measure
    }
}

impl EvictAsk {
    #[verifier::type_invariant]
    spec fn well_formed(self) -> bool {
        self.eviction.goes_on()
    }

    /// Where the eviction stands.
    pub closed spec fn state(self) -> Eviction {
        self.eviction
    }

    fn go_on(eviction: Eviction) -> (t: Turn)
        ensures
            if eviction.goes_on() {
                t matches Turn::Evict(next) && next.state() == eviction
            } else {
                t is Measure
            },
    {
        match eviction.candidate() {
            Some(_) => Turn::Evict(EvictAsk { eviction }),
            None => Turn::Measure(MeasureAsk {  }),
        }
    }

    /// The place of the blob in the list of blobs.
    pub fn candidate(&self) -> (r: usize)
        ensures
            self.state().goes_on(),
            r == self.state().pending()[0].index,
    {
        proof {
            use_type_invariant(self);
        }
        match self.eviction.candidate() {
            Some(i) => i,
            None => 0,
        }
    }

    /// Goes on, given whether the blob could be removed.
    pub fn resume(self, removed: bool) -> (t: Turn)
        ensures
            evicted(self, removed, t),
            t.follows(Turn::Evict(self)),
    {
        proof {
            use_type_invariant(&self);
        }
        let mut eviction = self.eviction;
        eviction.settle(removed);
        EvictAsk::go_on(eviction)
    }
}

/// The size of a cache with files of these sizes.
pub open spec fn usage(cache: Cache, sizes: Seq<u64>) -> u64 {
    if cache.present() {
        budget::total(sizes) as u64
    } else {
        0
    }
}

/// A handshake is answered with the size of the cache.
pub open spec fn measured(cache: Cache, sizes: Seq<u64>, t: Turn) -> bool {
    t.gives(handshake_json(usage(cache, sizes)))
}

impl MeasureAsk {
    pub fn resume(self, cache: &Cache, sizes: &Vec<u64>) -> (t: Turn)
        requires
            budget::total(sizes@) <= u64::MAX,
        ensures
            measured(*cache, sizes@, t),
            t.follows(Turn::Measure(self)),
    {
        handshake(cache.size_bytes(sizes))
    }
}

fn handshake(usage: u64) -> (t: Turn)
    ensures
        t.gives(handshake_json(usage)),
{
    let capabilities = json::with(json::object(), "orgs", json::flag(true));
    let capabilities = json::with(capabilities, "code_search", json::flag(true));
    let v = json::with(json::object(), "protocol", json::uint(1));
    let v = json::with(v, "name", json::string("gitlab"));
    let v = json::with(v, "icon", json::string("gitlab"));
    let v = json::with(v, "capabilities", capabilities);
    Turn::give(json::with(v, "cache", json::with(json::object(), "bytes", json::uint(usage))))
}

// -- laws ------------------------------------------------------------------------------------

/// The blobs that a handshake has removed on its way from a turn to the measuring, all of
/// them with success: none where the turn is the measuring itself.
pub open spec fn cleared(t: Turn, states: Seq<Eviction>, outcomes: Seq<bool>) -> bool {
    match t {
        Turn::Evict(ask) => {
            &&& budget::ran(states, outcomes)
            &&& states[0] == ask.state()
            &&& forall|i: int| 0 <= i < outcomes.len() ==> #[trigger] outcomes[i]
        },
        _ => states.len() == 0 && outcomes.len() == 0,
    }
}

/// A handshake is idempotent. Where every removal succeeds and nothing else is written, a
/// second one with the same parameters finds the cache where it is, removes nothing, and
/// gets the same reply.
pub proof fn handshakes_are_idempotent(
    ask: HandshakeAsk,
    start: Cache,
    cache: Cache,
    sizes: Seq<u64>,
    blobs: Seq<BlobStat>,
    first: Turn,
    states: Seq<Eviction>,
    outcomes: Seq<bool>,
    sizes_left: Seq<u64>,
    blobs_left: Seq<BlobStat>,
    reply: Turn,
    cache_again: Cache,
    second: Turn,
    reply_again: Turn,
)
    requires
        settled(ask, start, cache),
        surveyed(ask, cache, sizes, blobs, first),
        cleared(first, states, outcomes),
        budget::total(sizes_left) == budget::total(sizes) - budget::weight(
            budget::removed(states, outcomes),
        ),
        blobs_left.len() == blobs.len() - budget::removed(states, outcomes).len(),
        measured(cache, sizes_left, reply),
        settled(ask, cache, cache_again),
        surveyed(ask, cache_again, sizes_left, blobs_left, second),
        measured(cache_again, sizes_left, reply_again),
    ensures
        ask.cache_dir matches Some(dir) ==> cache.rooted_at(dir@),
        cache_again == cache,
        second is Measure,
        forall|j: JsonView| reply.gives(j) <==> reply_again.gives(j),
{
    if let Turn::Evict(next) = first {
        let order = next.state().pending();
        let all = budget::total(sizes);
        let any = |f: budget::Aged| true;
        budget::evictions_remove_what_leaves(states, outcomes, any);
        budget::eviction_meets_the_budget(order, blobs, all, ask.budget as nat);
        budget::order_keeps_the_number(order, blobs);
    }
}

/// A handshake reads where the cache is to lie and what it may take from its parameters: a text
/// under `cache_dir`, and an unsigned number under `cache_bytes`, 0 where there is none.
pub proof fn handshakes_read_their_parameters(params: JsonView, t: Turn)
    requires
        begun(params, t),
    ensures
        t is Handshake,
        params.member("cache_dir"@) matches Some(JsonView::Str(dir))
            ==> t->Handshake_0.cache_dir is Some && t->Handshake_0.cache_dir->0@ == dir,
        !(params.member("cache_dir"@) matches Some(JsonView::Str(_)))
            ==> t->Handshake_0.cache_dir is None,
        params.member("cache_bytes"@) matches Some(JsonView::Uint(n)) ==> t->Handshake_0.budget
            == n,
        !(params.member("cache_bytes"@) matches Some(JsonView::Uint(_)))
            ==> t->Handshake_0.budget == 0,
{
}

/// The answer to a handshake says what speaks and what it can do, and how much the cache takes.
pub proof fn handshakes_say_what_speaks(usage: u64)
    ensures
        ({
            let j = handshake_json(usage);
            let can = j.member("capabilities"@)->0;
            let cache = j.member("cache"@)->0;
            &&& j.member("protocol"@) == Some(JsonView::Uint(1))
            &&& j.member("name"@) == Some(JsonView::Str("gitlab"@))
            &&& j.member("icon"@) == Some(JsonView::Str("gitlab"@))
            &&& j.member("capabilities"@) == Some(can)
            &&& can.member("orgs"@) == Some(JsonView::Bool(true))
            &&& can.member("code_search"@) == Some(JsonView::Bool(true))
            &&& can->Obj_0.dom() == set!["orgs"@, "code_search"@]
            &&& j.member("cache"@) == Some(cache)
            &&& cache.member("bytes"@) == Some(JsonView::Uint(usage))
            &&& cache->Obj_0.dom() == set!["bytes"@]
            &&& j->Obj_0.dom() == set![
                "protocol"@,
                "name"@,
                "icon"@,
                "capabilities"@,
                "cache"@,
            ]
        }),
{
    reveal_strlit("protocol");
    reveal_strlit("name");
    reveal_strlit("icon");
    reveal_strlit("capabilities");
    reveal_strlit("cache");
    reveal_strlit("orgs");
    reveal_strlit("code_search");
    assert("protocol"@.len() == 8 && "name"@.len() == 4 && "icon"@.len() == 4
        && "capabilities"@.len() == 12 && "cache"@.len() == 5);
    assert("name"@[0] == 'n' && "icon"@[0] == 'i');
    assert("orgs"@.len() == 4 && "code_search"@.len() == 11);
    let j = handshake_json(usage);
    assert(j->Obj_0.dom() =~= set!["protocol"@, "name"@, "icon"@, "capabilities"@, "cache"@]);
    assert((j.member("capabilities"@)->0)->Obj_0.dom() =~= set!["orgs"@, "code_search"@]);
    assert((j.member("cache"@)->0)->Obj_0.dom() =~= set!["bytes"@]);
}

/// What the answer says of the cache is the sum of the sizes of its files, one by one, and 0
/// where there is no cache.
pub proof fn usage_is_the_sum_of_the_files(cache: Cache, sizes: Seq<u64>, size: u64, t: Turn)
    requires
        measured(cache, sizes.push(size), t),
        budget::total(sizes) + size <= u64::MAX,
    ensures
        usage(cache, seq![]) == 0,
        t.gives(
            handshake_json(
                if cache.rooted() is Absent {
                    0
                } else {
                    (usage(cache, sizes) + size) as u64
                },
            ),
        ),
{
    assert(sizes.push(size).drop_last() == sizes);
}

/// Blobs are removed just where a size is set, there is a cache, its files together are more
/// than that size, and there is a blob; a size of 0 sets none.
pub proof fn only_what_is_over_the_budget_is_removed(
    ask: HandshakeAsk,
    cache: Cache,
    sizes: Seq<u64>,
    blobs: Seq<BlobStat>,
    t: Turn,
)
    requires
        surveyed(ask, cache, sizes, blobs, t),
    ensures
        t is Evict <==> ask.budget > 0 && !(cache.rooted() is Absent) && budget::total(sizes)
            > ask.budget && blobs.len() > 0,
        t is Measure <==> !(t is Evict),
        t matches Turn::Evict(next) ==> next.state().excess() + ask.budget == budget::total(sizes)
            && budget::oldest_first(next.state().pending(), blobs),
{
}

/// A blob that was removed takes its size off what there is too much; one that could not be
/// removed takes nothing off. Either way the next one in order is tried, as long as there is too
/// much and a blob is left; then the cache is measured.
pub proof fn removals_go_on_until_it_fits(ask: EvictAsk, removed: bool, t: Turn)
    requires
        evicted(ask, removed, t),
    ensures
        ({
            let files = ask.state().pending();
            let left = ask.state().excess() - if removed {
                files[0].size as int
            } else {
                0
            };
            &&& t is Evict <==> left > 0 && files.len() > 1
            &&& t is Measure <==> !(t is Evict)
            &&& t matches Turn::Evict(next) ==> next.state().excess() == left
                && next.state().pending() == files.skip(1)
        }),
{
}

/// A handshake moves the cache to the directory that it names, and nowhere where it names none.
pub proof fn handshakes_move_the_cache(ask: HandshakeAsk, before: Cache, after: Cache)
    requires
        settled(ask, before, after),
    ensures
        ask.cache_dir matches Some(dir) ==> after.rooted() is Text && after.rooted()->Text_0@
            == dir@,
        ask.cache_dir is None ==> after.rooted() == before.rooted(),
{
}

} // verus!
