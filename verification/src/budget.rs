//! What leaves a cache that is over its budget: blobs, the oldest first, until the rest
//! fits. Blobs are what takes room, and can be had again.

use vstd::prelude::*;
use vstd::seq_lib::*;

verus! {

/// A file's size, and when it was last written, in nanoseconds.
pub struct BlobStat {
    pub size: u64,
    pub mtime: i128,
}

/// A file of a list, with its place in it.
#[derive(Clone, Copy)]
pub struct Aged {
    pub index: usize,
    pub size: u64,
    pub mtime: i128,
}

/// The sum of sizes.
pub open spec fn total(sizes: Seq<u64>) -> nat
    decreases sizes.len(),
{
    if sizes.len() == 0 {
        0
    } else {
        total(sizes.drop_last()) + sizes.last() as nat
    }
}

/// Adds sizes up.
pub fn add_up(sizes: &Vec<u64>) -> (r: u64)
    requires
        total(sizes@) <= u64::MAX,
    ensures
        r == total(sizes@),
{
    let mut sum: u64 = 0;
    let mut i: usize = 0;
    while i < sizes.len()
        invariant
            i <= sizes@.len(),
            total(sizes@) <= u64::MAX,
            sum == total(sizes@.take(i as int)),
        decreases sizes@.len() - i,
    {
        proof {
            total_grows(sizes@, i + 1);
            assert(sizes@.take(i + 1).drop_last() == sizes@.take(i as int));
        }
        sum = sum + sizes[i];
        i = i + 1;
    }
    assert(sizes@.take(i as int) == sizes@);
    sum
}

proof fn total_grows(sizes: Seq<u64>, n: int)
    requires
        0 <= n <= sizes.len(),
    ensures
        total(sizes.take(n)) <= total(sizes),
    decreases sizes.len(),
{
    if n < sizes.len() {
        assert(sizes.drop_last().take(n) == sizes.take(n));
        total_grows(sizes.drop_last(), n);
    } else {
        assert(sizes.take(n) == sizes);
    }
}

// -- oldest first ----------------------------------------------------------------------------

/// The files of a list with their places.
pub open spec fn listed(blobs: Seq<BlobStat>) -> Seq<Aged> {
    Seq::new(
        blobs.len(),
        |i: int| Aged { index: i as usize, size: blobs[i].size, mtime: blobs[i].mtime },
    )
}

/// Older than another file, or as old and before it in the list.
pub open spec fn before(a: Aged, b: Aged) -> bool {
    a.mtime < b.mtime || (a.mtime == b.mtime && a.index <= b.index)
}

pub open spec fn ordered(s: Seq<Aged>) -> bool {
    forall|i: int, j: int| 0 <= i <= j < s.len() ==> before(#[trigger] s[i], #[trigger] s[j])
}

/// The files of the list in the order in which they leave: the oldest first, and files of
/// one age as they stand in the list.
pub open spec fn oldest_first(order: Seq<Aged>, blobs: Seq<BlobStat>) -> bool {
    order.to_multiset() == listed(blobs).to_multiset() && ordered(order)
}

fn sort(files: &Vec<Aged>, from: usize, to: usize) -> (r: Vec<Aged>)
    requires
        from <= to <= files@.len(),
    ensures
        r@.to_multiset() == files@.subrange(from as int, to as int).to_multiset(),
        ordered(r@),
    decreases to - from,
{
    let mut out: Vec<Aged> = Vec::new();
    if to - from < 2 {
        if from < to {
            out.push(files[from]);
        }
        assert(out@ == files@.subrange(from as int, to as int));
        return out;
    }
    let middle = from + (to - from) / 2;
    let left = sort(files, from, middle);
    let right = sort(files, middle, to);
    proof {
        let a = files@.subrange(from as int, middle as int);
        let b = files@.subrange(middle as int, to as int);
        assert(a + b == files@.subrange(from as int, to as int));
        lemma_multiset_commutative(a, b);
        lemma_multiset_commutative(left@, right@);
    }
    merge(&left, &right)
}

fn merge(left: &Vec<Aged>, right: &Vec<Aged>) -> (r: Vec<Aged>)
    requires
        ordered(left@),
        ordered(right@),
    ensures
        r@.to_multiset() == (left@ + right@).to_multiset(),
        ordered(r@),
{
    let mut out: Vec<Aged> = Vec::new();
    let mut i: usize = 0;
    let mut j: usize = 0;
    assert(out@ == left@.take(0) + right@.take(0));
    while i < left.len() || j < right.len()
        invariant
            i <= left@.len(),
            j <= right@.len(),
            ordered(left@),
            ordered(right@),
            ordered(out@),
            out@.to_multiset() == (left@.take(i as int) + right@.take(j as int)).to_multiset(),
            forall|k: int, n: int|
                #![trigger out@[k], left@[n]]
                0 <= k < out@.len() && i <= n < left@.len() ==> before(out@[k], left@[n]),
            forall|k: int, n: int|
                #![trigger out@[k], right@[n]]
                0 <= k < out@.len() && j <= n < right@.len() ==> before(out@[k], right@[n]),
        decreases left@.len() - i + right@.len() - j,
    {
        let from_left = if i < left.len() && j < right.len() {
            let a = left[i];
            let b = right[j];
            a.mtime < b.mtime || (a.mtime == b.mtime && a.index <= b.index)
        } else {
            i < left.len()
        };
        let ghost was = out@;
        let ghost l = left@.take(i as int);
        let ghost r = right@.take(j as int);
        proof {
            broadcast use vstd::seq_lib::group_to_multiset_ensures;

            lemma_multiset_commutative(l, r);
        }
        if from_left {
            out.push(left[i]);
            proof {
                broadcast use vstd::seq_lib::group_to_multiset_ensures;

                assert(left@.take(i + 1) == l.push(left@[i as int]));
                lemma_multiset_commutative(l.push(left@[i as int]), r);
            }
            i = i + 1;
        } else {
            out.push(right[j]);
            proof {
                broadcast use vstd::seq_lib::group_to_multiset_ensures;

                assert(right@.take(j + 1) == r.push(right@[j as int]));
                lemma_multiset_commutative(l, r.push(right@[j as int]));
            }
            j = j + 1;
        }
    }
    assert(left@.take(i as int) == left@);
    assert(right@.take(j as int) == right@);
    out
}

// -- leaving one by one ------------------------------------------------------------------------

/// An eviction that is under way: the files that have yet to be tried, and how many bytes
/// there still are too many.
pub struct Eviction {
    queue: Vec<Aged>,
    next: usize,
    over: u64,
}

/// `a - b`, 0 where that is negative.
pub open spec fn short_of(a: nat, b: nat) -> nat {
    if a < b {
        0
    } else {
        (a - b) as nat
    }
}

impl Eviction {
    #[verifier::type_invariant]
    spec fn well_formed(self) -> bool {
        self.next <= self.queue@.len()
    }

    /// The files that have yet to be tried.
    pub closed spec fn pending(self) -> Seq<Aged> {
        self.queue@.skip(self.next as int)
    }

    /// How many bytes there still are too many.
    pub closed spec fn excess(self) -> nat {
        self.over as nat
    }

    /// An eviction of `over` bytes from files of a list.
    pub fn new(over: u64, blobs: &Vec<BlobStat>) -> (r: Eviction)
        ensures
            r.excess() == over,
            oldest_first(r.pending(), blobs@),
    {
        let mut files: Vec<Aged> = Vec::new();
        let mut i: usize = 0;
        while i < blobs.len()
            invariant
                i <= blobs@.len(),
                files@ == listed(blobs@).take(i as int),
            decreases blobs@.len() - i,
        {
            files.push(Aged { index: i, size: blobs[i].size, mtime: blobs[i].mtime });
            i = i + 1;
        }
        assert(files@ == listed(blobs@));
        let queue = sort(&files, 0, files.len());
        assert(files@.subrange(0, files@.len() as int) == files@);
        let r = Eviction { queue, next: 0, over };
        assert(r.pending() == queue@);
        r
    }

    /// A file is to be removed: there are still bytes too many, and files to be tried.
    pub open spec fn goes_on(self) -> bool {
        self.excess() > 0 && self.pending().len() > 0
    }

    /// This eviction comes after another, whose first file was removed or could not be.
    pub open spec fn succeeds(self, last: Eviction, removed: bool) -> bool {
        &&& self.pending() == last.pending().skip(1)
        &&& self.excess() == last.excess_after(removed)
    }

    /// How many bytes there are too many once the first file was removed or could not be.
    pub open spec fn excess_after(self, removed: bool) -> nat {
        if removed {
            short_of(self.excess(), self.pending()[0].size as nat)
        } else {
            self.excess()
        }
    }

    /// The place in the list of the file to be removed next, `None` once the rest fits or
    /// no file is left.
    pub fn candidate(&self) -> (r: Option<usize>)
        ensures
            r == if self.goes_on() {
                Some(self.pending()[0].index)
            } else {
                None
            },
    {
        proof {
            use_type_invariant(self);
        }
        if self.over > 0 && self.next < self.queue.len() {
            Some(self.queue[self.next].index)
        } else {
            None
        }
    }

    /// Goes on after that file, given whether it could be removed.
    pub fn settle(&mut self, removed: bool)
        requires
            old(self).pending().len() > 0,
        ensures
            final(self).succeeds(*old(self), removed),
    {
        proof {
            use_type_invariant(&*self);
        }
        let size = self.queue[self.next].size;
        assert(self.next < self.queue.len());
        if removed {
            self.over = if self.over < size {
                0
            } else {
                self.over - size
            };
        }
        self.next = self.next + 1;
        assert(self.pending() == old(self).pending().skip(1));
    }
}

/// The files that leave, where `removable` tells which ones can be removed.
pub open spec fn leaving(pending: Seq<Aged>, excess: nat, removable: spec_fn(Aged) -> bool) -> Seq<
    Aged,
>
    decreases pending.len(),
{
    if excess == 0 || pending.len() == 0 {
        seq![]
    } else if removable(pending[0]) {
        seq![pending[0]] + leaving(
            pending.skip(1),
            short_of(excess, pending[0].size as nat),
            removable,
        )
    } else {
        leaving(pending.skip(1), excess, removable)
    }
}

/// The sum of the sizes of files.
pub open spec fn weight(files: Seq<Aged>) -> nat
    decreases files.len(),
{
    if files.len() == 0 {
        0
    } else {
        files[0].size as nat + weight(files.skip(1))
    }
}

/// The files that leave are the first ones, in the order given, of those that can be
/// removed. They are enough, or all there are; and without the last one of them they would
/// not be enough.
pub proof fn eviction_takes_just_enough(
    pending: Seq<Aged>,
    excess: nat,
    removable: spec_fn(Aged) -> bool,
)
    ensures
        ({
            let gone = leaving(pending, excess, removable);
            let candidates = pending.filter(removable);
            &&& gone.is_prefix_of(candidates)
            &&& weight(gone) >= excess || gone == candidates
            &&& gone.len() > 0 ==> weight(gone.drop_last()) < excess
        }),
    decreases pending.len(),
{
    let gone = leaving(pending, excess, removable);
    let candidates = pending.filter(removable);
    if excess > 0 && pending.len() > 0 {
        let head = pending[0];
        let rest = pending.skip(1);
        assert(seq![head] + rest == pending);
        pending_filter(head, rest, removable);
        if removable(head) {
            let less = short_of(excess, head.size as nat);
            eviction_takes_just_enough(rest, less, removable);
            let later = leaving(rest, less, removable);
            assert(gone == seq![head] + later);
            assert(gone.skip(1) == later);
            if later.len() > 0 {
                assert(gone.drop_last().skip(1) == later.drop_last());
            } else {
                assert(gone.drop_last() == Seq::<Aged>::empty());
            }
        } else {
            eviction_takes_just_enough(rest, excess, removable);
        }
    } else if pending.len() == 0 {
        reveal(Seq::filter);
    }
}

proof fn pending_filter(head: Aged, rest: Seq<Aged>, removable: spec_fn(Aged) -> bool)
    ensures
        (seq![head] + rest).filter(removable) == if removable(head) {
            seq![head] + rest.filter(removable)
        } else {
            rest.filter(removable)
        },
{
    Seq::filter_distributes_over_add(seq![head], rest, removable);
    reveal(Seq::filter);
    reveal_with_fuel(Seq::filter, 2);
    assert(seq![head].drop_last() == Seq::<Aged>::empty());
    assert(Seq::<Aged>::empty() + rest.filter(removable) == rest.filter(removable));
}

/// Where every blob can be removed, what stays of all files fits the budget, or no blob
/// stays.
pub proof fn eviction_meets_the_budget(
    order: Seq<Aged>,
    blobs: Seq<BlobStat>,
    all: nat,
    budget: nat,
)
    requires
        oldest_first(order, blobs),
        all > budget,
    ensures
        ({
            let gone = leaving(order, (all - budget) as nat, |f: Aged| true);
            all - weight(gone) <= budget || gone == order
        }),
{
    eviction_takes_just_enough(order, (all - budget) as nat, |f: Aged| true);
    all_removable(order);
}

/// The order in which files leave does not change how many they are.
pub proof fn order_keeps_the_number(order: Seq<Aged>, blobs: Seq<BlobStat>)
    requires
        oldest_first(order, blobs),
    ensures
        order.len() == blobs.len(),
{
    broadcast use group_to_multiset_ensures;

    assert(order.len() == order.to_multiset().len());
    assert(listed(blobs).len() == listed(blobs).to_multiset().len());
}

/// The order in which files leave does not change what they weigh together: the sum of
/// their sizes.
pub proof fn order_keeps_the_weight(order: Seq<Aged>, blobs: Seq<BlobStat>)
    requires
        oldest_first(order, blobs),
    ensures
        weight(order) == total(blobs.map_values(|b: BlobStat| b.size)),
{
    same_weight(order, listed(blobs));
    listed_weight(blobs);
}

proof fn listed_weight(blobs: Seq<BlobStat>)
    ensures
        weight(listed(blobs)) == total(blobs.map_values(|b: BlobStat| b.size)),
    decreases blobs.len(),
{
    if blobs.len() > 0 {
        let head = blobs.drop_last();
        let sizes = blobs.map_values(|b: BlobStat| b.size);
        listed_weight(head);
        assert(listed(blobs) == listed(head).push(listed(blobs).last()));
        weight_of_push(listed(head), listed(blobs).last());
        assert(sizes.drop_last() == head.map_values(|b: BlobStat| b.size));
    }
}

proof fn weight_of_push(files: Seq<Aged>, last: Aged)
    ensures
        weight(files.push(last)) == weight(files) + last.size,
    decreases files.len(),
{
    if files.len() > 0 {
        assert(files.push(last).skip(1) == files.skip(1).push(last));
        weight_of_push(files.skip(1), last);
    } else {
        reveal_with_fuel(weight, 2);
    }
}

proof fn weight_without(files: Seq<Aged>, k: int)
    requires
        0 <= k < files.len(),
    ensures
        weight(files) == files[k].size + weight(files.remove(k)),
    decreases files.len(),
{
    if k > 0 {
        weight_without(files.skip(1), k - 1);
        assert(files.remove(k).skip(1) == files.skip(1).remove(k - 1));
        assert(files.remove(k)[0] == files[0]);
    } else {
        assert(files.remove(0) == files.skip(1));
    }
}

proof fn same_weight(a: Seq<Aged>, b: Seq<Aged>)
    requires
        a.to_multiset() == b.to_multiset(),
    ensures
        weight(a) == weight(b),
    decreases a.len(),
{
    broadcast use group_to_multiset_ensures;

    assert(a.len() == a.to_multiset().len());
    assert(b.len() == b.to_multiset().len());
    if a.len() > 0 {
        assert(a.to_multiset().count(a[0]) > 0) by {
            assert(a.contains(a[0]));
        }
        assert(b.contains(a[0]));
        let k = choose|k: int| 0 <= k < b.len() && b[k] == a[0];
        assert(a.remove(0) == a.skip(1));
        assert(a.remove(0).to_multiset() == a.to_multiset().remove(a[0]));
        assert(b.remove(k).to_multiset() == b.to_multiset().remove(b[k]));
        same_weight(a.skip(1), b.remove(k));
        weight_without(b, k);
    }
}

/// An eviction went through these states, with these outcomes, until it ended.
pub open spec fn ran(states: Seq<Eviction>, outcomes: Seq<bool>) -> bool {
    &&& states.len() == outcomes.len() + 1
    &&& !states.last().goes_on()
    &&& forall|i: int| 0 <= i < outcomes.len() ==> (#[trigger] states[i].goes_on())
    &&& forall|i: int|
        #![trigger outcomes[i]]
        0 <= i < outcomes.len() ==> states[i + 1].succeeds(states[i], outcomes[i])
}

/// The files that were removed on the way.
pub open spec fn removed(states: Seq<Eviction>, outcomes: Seq<bool>) -> Seq<Aged>
    decreases outcomes.len(),
{
    if outcomes.len() == 0 {
        seq![]
    } else {
        (if outcomes[0] {
            seq![states[0].pending()[0]]
        } else {
            seq![]
        }) + removed(states.skip(1), outcomes.skip(1))
    }
}

/// An eviction that is carried out removes just the files that are to leave.
pub proof fn evictions_remove_what_leaves(
    states: Seq<Eviction>,
    outcomes: Seq<bool>,
    removable: spec_fn(Aged) -> bool,
)
    requires
        ran(states, outcomes),
        forall|i: int|
            #![trigger outcomes[i]]
            0 <= i < outcomes.len() ==> outcomes[i] == removable(states[i].pending()[0]),
    ensures
        removed(states, outcomes) == leaving(
            states[0].pending(),
            states[0].excess(),
            removable,
        ),
    decreases outcomes.len(),
{
    if outcomes.len() > 0 {
        let later = states.skip(1);
        let rest = outcomes.skip(1);
        assert(states[0].goes_on() && outcomes[0] == removable(states[0].pending()[0]));
        assert(later.last() == states.last());
        assert forall|i: int| 0 <= i < rest.len() implies #[trigger] later[i].goes_on() by {
            assert(states[i + 1].goes_on());
        }
        assert forall|i: int| #![trigger rest[i]] 0 <= i < rest.len() implies later[i
            + 1].succeeds(later[i], rest[i]) && rest[i] == removable(later[i].pending()[0]) by {
            assert(rest[i] == outcomes[i + 1]);
            assert(later[i] == states[i + 1]);
            assert(later[i + 1] == states[i + 2]);
        }
        evictions_remove_what_leaves(later, rest, removable);
        assert(states[1].succeeds(states[0], outcomes[0]));
        assert(later[0] == states[1]);
        if !outcomes[0] {
            assert(removed(states, outcomes) == removed(later, rest));
        }
    }
}

proof fn all_removable(pending: Seq<Aged>)
    ensures
        pending.filter(|f: Aged| true) == pending,
    decreases pending.len(),
{
    reveal(Seq::filter);
    if pending.len() > 0 {
        all_removable(pending.drop_last());
        assert(pending.drop_last().push(pending.last()) == pending);
    } else {
        assert(pending.filter(|f: Aged| true) == pending);
    }
}

/// A file that leaves is no newer than one that stays, where every file can be removed.
pub proof fn the_oldest_leave(order: Seq<Aged>, blobs: Seq<BlobStat>, excess: nat, i: int, j: int)
    requires
        oldest_first(order, blobs),
        0 <= i < leaving(order, excess, |f: Aged| true).len() <= j < order.len(),
    ensures
        leaving(order, excess, |f: Aged| true)[i] == order[i],
        order[i].mtime <= order[j].mtime,
{
    eviction_takes_just_enough(order, excess, |f: Aged| true);
    all_removable(order);
}

/// Sizes add up, one file after the other, whether the next one stands last or first.
pub proof fn sizes_add_up(sizes: Seq<u64>, size: u64)
    ensures
        total(seq![]) == 0,
        total(sizes.push(size)) == total(sizes) + size,
        total(seq![size] + sizes) == size + total(sizes),
    decreases sizes.len(),
{
    assert(sizes.push(size).drop_last() == sizes);
    if sizes.len() > 0 {
        sizes_add_up(sizes.drop_last(), size);
        assert((seq![size] + sizes).drop_last() =~= seq![size] + sizes.drop_last());
        assert((seq![size] + sizes).last() == sizes.last());
    } else {
        assert((seq![size] + sizes).drop_last() =~= sizes);
    }
}

/// The files that can leave are those of the list, each once, with its own place, size and age.
pub proof fn every_file_can_leave(order: Seq<Aged>, blobs: Seq<BlobStat>, i: int, k: int)
    requires
        oldest_first(order, blobs),
        blobs.len() <= usize::MAX,
    ensures
        0 <= i < order.len() ==> order[i].index < blobs.len() && order[i].size
            == blobs[order[i].index as int].size && order[i].mtime
            == blobs[order[i].index as int].mtime,
        0 <= k < blobs.len() ==> exists|n: int|
            0 <= n < order.len() && (#[trigger] order[n]).index == k,
        order.len() == blobs.len(),
{
    broadcast use group_to_multiset_ensures;

    order_keeps_the_number(order, blobs);
    let all = listed(blobs);
    if 0 <= i < order.len() {
        assert(order.contains(order[i]));
        assert(all.to_multiset().count(order[i]) > 0);
        assert(all.contains(order[i]));
        let n = choose|n: int| 0 <= n < all.len() && all[n] == order[i];
        assert(all[n] == order[i]);
    }
    if 0 <= k < blobs.len() {
        assert(all.contains(all[k]));
        assert(order.to_multiset().count(all[k]) > 0);
        assert(order.contains(all[k]));
        let n = choose|n: int| 0 <= n < order.len() && order[n] == all[k];
        assert(order[n].index == k);
    }
}

/// Of two files the older one is tried first; of two of one age the one that stands first in the
/// list.
pub proof fn older_files_are_tried_first(
    order: Seq<Aged>,
    blobs: Seq<BlobStat>,
    i: int,
    j: int,
)
    requires
        oldest_first(order, blobs),
        0 <= i < j < order.len(),
    ensures
        order[i].mtime <= order[j].mtime,
        order[i].mtime == order[j].mtime ==> order[i].index <= order[j].index,
{
    assert(before(order[i], order[j]));
}

/// A file that was removed takes its size off the excess, down to nothing; one that could not be
/// takes nothing off. The next one is tried as long as there is an excess and a file.
pub proof fn removed_files_count_by_their_size(
    before_it: Eviction,
    removed: bool,
    after_it: Eviction,
)
    requires
        after_it.succeeds(before_it, removed),
        before_it.pending().len() > 0,
    ensures
        !removed ==> after_it.excess() == before_it.excess(),
        removed && before_it.pending()[0].size <= before_it.excess() ==> after_it.excess()
            + before_it.pending()[0].size == before_it.excess(),
        removed && before_it.pending()[0].size > before_it.excess() ==> after_it.excess() == 0,
        after_it.pending() == before_it.pending().skip(1),
        after_it.goes_on() <==> after_it.excess() > 0 && before_it.pending().len() > 1,
{
}

} // verus!
