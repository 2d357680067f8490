//! The aggregation of a listing's pages under a bound.

use vstd::prelude::*;

use crate::api::{LOG_MAX_LIMIT, PAGE_SIZE};

verus! {

// -- numbered pages up to a cap -------------------------------------------------------

/// A listing of which the pages before `page` have been read. It ends with a page that is
/// not full, or with the first entry past its cap.
pub struct Pages<T> {
    items: Vec<T>,
    page: u32,
    cap: usize,
}

/// A listing after another page of it.
pub enum Paged<T> {
    /// The next page is to be read.
    More(Pages<T>),
    /// The entries, and whether the cap cut the listing short.
    Done(Vec<T>, bool),
}

/// What a page makes of the entries before it: `None` as long as there is more to read.
pub open spec fn page_step<T>(items: Seq<T>, batch: Seq<T>, cap: nat) -> Option<(Seq<T>, bool)> {
    let all = items + batch;
    if all.len() > cap {
        Some((all.take(cap as int), true))
    } else if batch.len() < PAGE_SIZE {
        Some((all, false))
    } else {
        None
    }
}

impl<T> Pages<T> {
    /// Each page so far was full, and they are as many as `u32` can count.
    #[verifier::type_invariant]
    spec fn well_formed(self) -> bool {
        &&& self.page >= 1
        &&& self.items@.len() >= PAGE_SIZE * (self.page - 1)
        &&& self.items@.len() <= self.cap
        &&& self.cap < PAGE_SIZE * u32::MAX
    }

    /// The entries so far.
    pub closed spec fn read(self) -> Seq<T> {
        self.items@
    }

    /// The page to be read next.
    pub closed spec fn number(self) -> u32 {
        self.page
    }

    /// How many entries the listing may have.
    pub closed spec fn bound(self) -> nat {
        self.cap as nat
    }

    /// A listing before its first page.
    pub fn new(cap: usize) -> (r: Self)
        requires
            cap < PAGE_SIZE * u32::MAX,
        ensures
            r.read() == Seq::<T>::empty(),
            r.number() == 1,
            r.bound() == cap,
    {
        Pages { items: Vec::new(), page: 1, cap }
    }

    pub fn page(&self) -> (r: u32)
        ensures
            r == self.number(),
    {
        self.page
    }

    /// The entries so far, where they are as many as the listing may have: only whether there
    /// are more is not known then.
    pub fn full(self) -> (r: Option<Vec<T>>)
        ensures
            match r {
                Some(items) => self.read().len() == self.bound() && items@ == self.read(),
                None => self.read().len() != self.bound(),
            },
    {
        if self.items.len() == self.cap {
            Some(self.items)
        } else {
            None
        }
    }

    /// The listing after the page that was to be read next, whose entries are `batch`.
    pub fn next(self, batch: Vec<T>) -> (r: Paged<T>)
        ensures
            match r {
                Paged::More(p) => {
                    &&& page_step(self.read(), batch@, self.bound()) is None
                    &&& p.read() == self.read() + batch@
                    &&& p.number() == self.number() + 1
                    &&& p.bound() == self.bound()
                },
                Paged::Done(items, truncated) => page_step(self.read(), batch@, self.bound())
                    == Some((items@, truncated)),
            },
    {
        proof {
            use_type_invariant(&self);
        }
        let n = batch.len();
        let mut items = self.items;
        let mut batch = batch;
        items.append(&mut batch);
        if items.len() > self.cap {
            items.truncate(self.cap);
            return Paged::Done(items, true);
        }
        if n < PAGE_SIZE {
            return Paged::Done(items, false);
        }
        Paged::More(Pages { items, page: self.page + 1, cap: self.cap })
    }
}

/// The listing that pages read from the first one on add up to, once it has ended.
pub open spec fn collect<T>(items: Seq<T>, pages: Seq<Seq<T>>, cap: nat) -> Option<(Seq<T>, bool)>
    decreases pages.len(),
{
    if pages.len() == 0 {
        None
    } else {
        match page_step(items, pages[0], cap) {
            Some(done) => Some(done),
            None => collect(items + pages[0], pages.skip(1), cap),
        }
    }
}

/// A listing holds at most as many entries as its cap, the first ones of its pages, and it is
/// `truncated` just when the pages that were read hold more.
pub proof fn listing_is_bounded_prefix<T>(items: Seq<T>, pages: Seq<Seq<T>>, cap: nat)
    requires
        collect(items, pages, cap) is Some,
    ensures
        ({
            let (all, truncated) = collect(items, pages, cap)->0;
            &&& all.len() <= cap
            &&& exists|n: int|
                0 < n <= pages.len() && {
                    let read = items + #[trigger] pages.take(n).flatten();
                    all.is_prefix_of(read) && (truncated <==> read.len() > cap) && if truncated {
                        all.len() == cap
                    } else {
                        all == read && pages[n - 1].len() < PAGE_SIZE
                    }
                }
        }),
    decreases pages.len(),
{
    let head = pages[0];
    assert(pages.take(1) == seq![head]);
    assert(pages.take(1).flatten() == head) by {
        assert(seq![head].drop_first() == Seq::<Seq<T>>::empty());
        reveal_with_fuel(Seq::flatten, 2);
        assert(head + Seq::<T>::empty() == head);
    }
    let (all, truncated) = collect(items, pages, cap)->0;
    if page_step(items, head, cap) is Some {
        let read = items + pages.take(1).flatten();
        assert(all.is_prefix_of(read) && (truncated <==> read.len() > cap) && if truncated {
            all.len() == cap
        } else {
            all == read && pages[0].len() < PAGE_SIZE
        });
    } else {
        let rest = pages.skip(1);
        listing_is_bounded_prefix(items + head, rest, cap);
        let n = choose|n: int|
            0 < n <= rest.len() && {
                let read = items + head + #[trigger] rest.take(n).flatten();
                all.is_prefix_of(read) && (truncated <==> read.len() > cap) && if truncated {
                    all.len() == cap
                } else {
                    all == read && rest[n - 1].len() < PAGE_SIZE
                }
            };
        assert(pages.take(n + 1).drop_first() == rest.take(n));
        assert(pages.take(n + 1).flatten() == head + rest.take(n).flatten());
        assert(items + (head + rest.take(n).flatten()) == items + head + rest.take(n).flatten());
        assert(rest[n - 1] == pages[n]);
    }
}

/// The entries that a server gives in full pages and a last one that is not full come out up
/// to the cap, and are flagged just when there are more.
pub proof fn listings_are_flagged_when_cut<T>(items: Seq<T>, pages: Seq<Seq<T>>, cap: nat)
    requires
        pages.len() > 0,
        forall|i: int| 0 <= i < pages.len() - 1 ==> (#[trigger] pages[i]).len() == PAGE_SIZE,
        pages.last().len() < PAGE_SIZE,
        items.len() <= cap,
    ensures
        ({
            let entries = items + pages.flatten();
            collect(items, pages, cap) == Some(
                if entries.len() > cap {
                    (entries.take(cap as int), true)
                } else {
                    (entries, false)
                },
            )
        }),
    decreases pages.len(),
{
    let head = pages[0];
    let rest = pages.drop_first();
    let entries = items + pages.flatten();
    assert(pages.flatten() == head + rest.flatten());
    assert(entries == items + head + rest.flatten());
    if page_step(items, head, cap) is Some {
        if (items + head).len() > cap {
            assert(entries.take(cap as int) == (items + head).take(cap as int));
        } else {
            assert(pages.len() == 1);
            assert(rest == Seq::<Seq<T>>::empty());
            assert(rest.flatten() == Seq::<T>::empty());
            assert(entries == items + head);
        }
    } else {
        assert(pages.len() > 1);
        assert(pages.skip(1) == rest);
        assert forall|i: int| 0 <= i < rest.len() - 1 implies (#[trigger] rest[i]).len()
            == PAGE_SIZE by {
            assert(rest[i] == pages[i + 1]);
        }
        assert(rest.last() == pages.last());
        listings_are_flagged_when_cut(items + head, rest, cap);
    }
}

/// A listing ends within as many full pages as pass its cap.
pub proof fn collect_ends<T>(items: Seq<T>, pages: Seq<Seq<T>>, cap: nat)
    requires
        items.len() + PAGE_SIZE * pages.len() > cap,
        pages.len() > 0,
    ensures
        collect(items, pages, cap) is Some,
    decreases pages.len(),
{
    if page_step(items, pages[0], cap) is None {
        collect_ends(items + pages[0], pages.skip(1), cap);
    }
}

// -- commits up to a limit --------------------------------------------------------------

/// A log of which the pages before `page` have been read. One commit more than wanted is
/// asked for, so that it shows whether the log goes on.
pub struct LogPages<T> {
    items: Vec<T>,
    page: u32,
    want: usize,
}

/// A log after another page of it.
pub enum Logged<T> {
    /// The next page is to be read.
    More(LogPages<T>),
    /// The entries, and whether the log goes on after them.
    Done(Vec<T>, bool),
}

/// How many commits to ask for on a page.
pub open spec fn log_page_size(want: nat) -> nat {
    if want + 1 < PAGE_SIZE {
        want + 1
    } else {
        PAGE_SIZE as nat
    }
}

/// What a page makes of the commits before it: `None` as long as there is more to read.
pub open spec fn log_step<T>(items: Seq<T>, batch: Seq<T>, want: nat) -> Option<(Seq<T>, bool)> {
    let all = items + batch;
    if all.len() > want {
        Some((all.take(want as int), true))
    } else if batch.len() < log_page_size(want) {
        Some((all, false))
    } else {
        None
    }
}

impl<T> LogPages<T> {
    /// Each page so far had a commit, and they hold no more than is wanted.
    #[verifier::type_invariant]
    spec fn well_formed(self) -> bool {
        &&& 1 <= self.page
        &&& self.page - 1 <= self.items@.len() <= self.want <= LOG_MAX_LIMIT
    }

    /// The commits so far.
    pub closed spec fn read(self) -> Seq<T> {
        self.items@
    }

    /// The page to be read next.
    pub closed spec fn number(self) -> u32 {
        self.page
    }

    /// How many commits are wanted.
    pub closed spec fn bound(self) -> nat {
        self.want as nat
    }

    /// A log before its first page.
    pub fn new(want: usize) -> (r: Self)
        requires
            want <= LOG_MAX_LIMIT,
        ensures
            r.read() == Seq::<T>::empty(),
            r.number() == 1,
            r.bound() == want,
    {
        LogPages { items: Vec::new(), page: 1, want }
    }

    pub fn page(&self) -> (r: u32)
        ensures
            r == self.number(),
    {
        self.page
    }

    pub fn per_page(&self) -> (r: usize)
        ensures
            r == log_page_size(self.bound()),
    {
        proof {
            use_type_invariant(self);
        }
        if self.want + 1 < PAGE_SIZE {
            self.want + 1
        } else {
            PAGE_SIZE
        }
    }

    /// The log after the page that was to be read next, whose commits are `batch`.
    pub fn next(self, batch: Vec<T>) -> (r: Logged<T>)
        ensures
            match r {
                Logged::More(p) => {
                    &&& log_step(self.read(), batch@, self.bound()) is None
                    &&& p.read() == self.read() + batch@
                    &&& p.number() == self.number() + 1
                    &&& p.bound() == self.bound()
                },
                Logged::Done(items, truncated) => log_step(self.read(), batch@, self.bound())
                    == Some((items@, truncated)),
            },
    {
        proof {
            use_type_invariant(&self);
        }
        let size = self.per_page();
        let n = batch.len();
        let mut items = self.items;
        let mut batch = batch;
        items.append(&mut batch);
        if items.len() > self.want {
            items.truncate(self.want);
            return Logged::Done(items, true);
        }
        if n < size {
            return Logged::Done(items, false);
        }
        Logged::More(LogPages { items, page: self.page + 1, want: self.want })
    }
}

/// The log that pages read from the first one on add up to, once it has ended.
pub open spec fn collect_log<T>(items: Seq<T>, pages: Seq<Seq<T>>, want: nat) -> Option<
    (Seq<T>, bool),
>
    decreases pages.len(),
{
    if pages.len() == 0 {
        None
    } else {
        match log_step(items, pages[0], want) {
            Some(done) => Some(done),
            None => collect_log(items + pages[0], pages.skip(1), want),
        }
    }
}

/// A log holds at most as many commits as wanted, the first ones of its pages, and it is
/// `truncated` just when the pages that were read hold more.
pub proof fn log_is_bounded_prefix<T>(items: Seq<T>, pages: Seq<Seq<T>>, want: nat)
    requires
        items.len() <= want,
        collect_log(items, pages, want) is Some,
    ensures
        ({
            let (all, truncated) = collect_log(items, pages, want)->0;
            &&& all.len() <= want
            &&& exists|n: int|
                0 < n <= pages.len() && {
                    let read = items + #[trigger] pages.take(n).flatten();
                    all.is_prefix_of(read) && (truncated <==> read.len() > want) && (!truncated
                        ==> all == read)
                }
        }),
    decreases pages.len(),
{
    let head = pages[0];
    assert(pages.take(1) == seq![head]);
    assert(pages.take(1).flatten() == head) by {
        assert(seq![head].drop_first() == Seq::<Seq<T>>::empty());
        reveal_with_fuel(Seq::flatten, 2);
        assert(head + Seq::<T>::empty() == head);
    }
    let (all, truncated) = collect_log(items, pages, want)->0;
    if log_step(items, head, want) is Some {
        let read = items + pages.take(1).flatten();
        assert(all.is_prefix_of(read) && (truncated <==> read.len() > want) && (!truncated ==> all
            == read));
    } else {
        let rest = pages.skip(1);
        log_is_bounded_prefix(items + head, rest, want);
        let n = choose|n: int|
            0 < n <= rest.len() && {
                let read = items + head + #[trigger] rest.take(n).flatten();
                all.is_prefix_of(read) && (truncated <==> read.len() > want) && (!truncated ==> all
                    == read)
            };
        assert(pages.take(n + 1).drop_first() == rest.take(n));
        assert(pages.take(n + 1).flatten() == head + rest.take(n).flatten());
        assert(items + (head + rest.take(n).flatten()) == items + head + rest.take(n).flatten());
    }
}

/// A log ends within one page more than commits are wanted.
pub proof fn log_ends<T>(items: Seq<T>, pages: Seq<Seq<T>>, want: nat)
    requires
        items.len() + pages.len() > want,
        pages.len() > 0,
    ensures
        collect_log(items, pages, want) is Some,
    decreases pages.len(),
{
    if log_step(items, pages[0], want) is None {
        log_ends(items + pages[0], pages.skip(1), want);
    }
}

/// The commits that a server gives in full pages and a last one that is not full come out up
/// to the number wanted, and are flagged just when there are more.
pub proof fn logs_are_flagged_when_cut<T>(items: Seq<T>, pages: Seq<Seq<T>>, want: nat)
    requires
        pages.len() > 0,
        forall|i: int|
            0 <= i < pages.len() - 1 ==> (#[trigger] pages[i]).len() == log_page_size(want),
        pages.last().len() < log_page_size(want),
        items.len() <= want,
    ensures
        ({
            let commits = items + pages.flatten();
            collect_log(items, pages, want) == Some(
                if commits.len() > want {
                    (commits.take(want as int), true)
                } else {
                    (commits, false)
                },
            )
        }),
    decreases pages.len(),
{
    let head = pages[0];
    let rest = pages.drop_first();
    let commits = items + pages.flatten();
    assert(pages.flatten() == head + rest.flatten());
    assert(commits == items + head + rest.flatten());
    if log_step(items, head, want) is Some {
        if (items + head).len() > want {
            assert(commits.take(want as int) == (items + head).take(want as int));
        } else {
            assert(pages.len() == 1);
            assert(rest == Seq::<Seq<T>>::empty());
            assert(rest.flatten() == Seq::<T>::empty());
            assert(commits == items + head);
        }
    } else {
        assert(pages.len() > 1);
        assert(pages.skip(1) == rest);
        assert forall|i: int| 0 <= i < rest.len() - 1 implies (#[trigger] rest[i]).len()
            == log_page_size(want) by {
            assert(rest[i] == pages[i + 1]);
        }
        assert(rest.last() == pages.last());
        logs_are_flagged_when_cut(items + head, rest, want);
    }
}

// -- what a server holds, and what comes out ----------------------------------------------------

/// Pages of what a server holds: each one has what the pages before it left, up to `size`.
pub open spec fn paged<T>(all: Seq<T>, size: nat, pages: Seq<Seq<T>>) -> bool
    decreases pages.len(),
{
    pages.len() > 0 ==> {
        &&& pages[0] == all.take(
            if all.len() < size {
                all.len() as int
            } else {
                size as int
            },
        )
        &&& paged(all.skip(pages[0].len() as int), size, pages.skip(1))
    }
}

/// What the server holds comes out in its order, all of it where it is within the cap and else
/// the first entries up to it, and is flagged just when something is left out.
pub proof fn listings_hold_what_the_server_holds<T>(
    items: Seq<T>,
    rest: Seq<T>,
    pages: Seq<Seq<T>>,
    cap: nat,
)
    requires
        paged(rest, 100, pages),
        items.len() <= cap,
        collect(items, pages, cap) is Some,
    ensures
        ({
            let all = items + rest;
            let (given, truncated) = collect(items, pages, cap)->0;
            &&& given.is_prefix_of(all)
            &&& given.len() == if all.len() < cap {
                all.len()
            } else {
                cap
            }
            &&& truncated <==> all.len() > cap
        }),
    decreases pages.len(),
{
    let head = pages[0];
    let left = rest.skip(head.len() as int);
    assert(items + rest == (items + head) + left);
    if page_step(items, head, cap) is None {
        listings_hold_what_the_server_holds(items + head, left, pages.skip(1), cap);
    } else {
        let (given, truncated) = collect(items, pages, cap)->0;
        if (items + head).len() <= cap {
            assert(left.len() == 0);
        }
        assert(given =~= (items + rest).take(given.len() as int));
    }
}

/// A page of a log has room for one commit more than is wanted, as far as the server's pages
/// go: so many that a log within one page shows whether it goes on.
pub proof fn log_pages_show_one_more(want: nat)
    ensures
        want < 100 ==> log_page_size(want) == want + 1,
        want >= 100 ==> log_page_size(want) == 100,
{
}

/// The commits that the server holds come out in its order, all of them where no more are there
/// than wanted and else the first ones up to that number, and are flagged just when something
/// is left out.
pub proof fn logs_hold_what_the_server_holds<T>(
    items: Seq<T>,
    rest: Seq<T>,
    pages: Seq<Seq<T>>,
    want: nat,
)
    requires
        paged(
            rest,
            if want < 100 {
                want + 1
            } else {
                100
            },
            pages,
        ),
        items.len() <= want,
        collect_log(items, pages, want) is Some,
    ensures
        ({
            let all = items + rest;
            let (given, truncated) = collect_log(items, pages, want)->0;
            &&& given.is_prefix_of(all)
            &&& given.len() == if all.len() < want {
                all.len()
            } else {
                want
            }
            &&& truncated <==> all.len() > want
        }),
    decreases pages.len(),
{
    let head = pages[0];
    let left = rest.skip(head.len() as int);
    assert(items + rest == (items + head) + left);
    if log_step(items, head, want) is None {
        logs_hold_what_the_server_holds(items + head, left, pages.skip(1), want);
    } else {
        let (given, truncated) = collect_log(items, pages, want)->0;
        if (items + head).len() <= want {
            assert(left.len() == 0);
        }
        assert(given =~= (items + rest).take(given.len() as int));
    }
}

} // verus!
