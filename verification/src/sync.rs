//! Incremental bill synchronisation, as a state machine.
//!
//! The caller fetches the page that `next_page` names, reads it, asks its
//! store which of the entries it already holds, and hands the result to
//! `handle_page`; when `next_page` says `None`, `finish` gives the outcome.
//! An entry is known when it has a transaction number that the store holds
//! or that an earlier entry of this run had; a run of `early_stop_threshold`
//! known entries in a row stops the synchronisation.
use vstd::prelude::*;

use crate::bill::BillType;
use crate::bill_item::BillItem;
use crate::text::str_eq;

verus! {

/// How to synchronise.
#[derive(Debug, Clone)]
pub struct SyncOptions {
    /// The first page to fetch.
    pub start_page: u32,
    /// At most this many pages are fetched.
    pub max_pages: u32,
    pub bill_type: BillType,
    /// This many known entries in a row stop the synchronisation.
    pub early_stop_threshold: u32,
}

impl Default for SyncOptions {
    fn default() -> (r: Self)
        ensures
            r.start_page == 1,
            r.max_pages == 100,
            r.bill_type == BillType::All,
            r.early_stop_threshold == 5,
    {
        SyncOptions { start_page: 1, max_pages: 100, bill_type: BillType::All, early_stop_threshold: 5 }
    }
}

/// Reported after each fetched page.
#[derive(Debug, Clone)]
pub struct SyncPageProgress {
    pub page: u32,
    /// The page count the page gave, or the page itself if that is larger.
    pub total_pages: u32,
    /// New entries found so far.
    pub new_count: usize,
}

/// The outcome of a synchronisation.
#[derive(Debug)]
pub struct SyncResult {
    pub new_count: usize,
    pub pages_fetched: u32,
    pub early_stopped: bool,
    pub new_bills: Vec<BillItem>,
}

/// Where a scan of a page's entries stands.
pub struct ScanState {
    pub new_bills: Seq<BillItem>,
    pub seen: Seq<Seq<char>>,
    pub consecutive: int,
    pub stopped: bool,
}

/// The scan of the first `n` entries of a page, from `start`. An entry is
/// known when its number is non-empty and the store holds it (`known`) or
/// an earlier new entry had it; a new entry with a number records it.
pub open spec fn scan(
    bills: Seq<BillItem>,
    known: Seq<bool>,
    threshold: u32,
    start: ScanState,
    n: int,
) -> ScanState
    decreases n,
{
    if n <= 0 || n > bills.len() {
        start
    } else {
        let s = scan(bills, known, threshold, start, n - 1);
        if s.stopped {
            s
        } else {
            let num = bills[n - 1].number@;
            let in_store = known[n - 1];
            let is_known = num.len() > 0 && (in_store || s.seen.contains(num));
            if is_known {
                ScanState {
                    consecutive: s.consecutive + 1,
                    stopped: s.consecutive + 1 >= threshold,
                    ..s
                }
            } else {
                ScanState {
                    new_bills: s.new_bills.push(bills[n - 1]),
                    seen: if num.len() > 0 {
                        s.seen.push(num)
                    } else {
                        s.seen
                    },
                    consecutive: 0,
                    stopped: false,
                }
            }
        }
    }
}

/// The non-empty numbers of `bills`, in order.
pub open spec fn numbers_of(bills: Seq<BillItem>) -> Seq<Seq<char>>
    decreases bills.len(),
{
    if bills.len() == 0 {
        Seq::empty()
    } else if bills.last().number@.len() > 0 {
        numbers_of(bills.drop_last()).push(bills.last().number@)
    } else {
        numbers_of(bills.drop_last())
    }
}

pub open spec fn distinct(s: Seq<Seq<char>>) -> bool {
    forall|i: int, j: int| 0 <= i < j < s.len() ==> #[trigger] s[i] != #[trigger] s[j]
}

/// A synchronisation in progress.
pub struct SyncState {
    pub new_bills: Vec<BillItem>,
    pub seen: Vec<String>,
    pub pages_fetched: u32,
    pub consecutive_known: u32,
    pub early_stopped: bool,
    pub page_offset: u32,
    pub done: bool,
}

pub open spec fn seen_view(v: Seq<String>) -> Seq<Seq<char>> {
    v.map_values(|s: String| s@)
}

impl SyncState {
    /// The state keeps its bookkeeping straight: the recorded numbers are
    /// exactly the non-empty numbers of the new entries, none twice; a
    /// running known run is empty or shorter than the threshold;
    /// no more pages were fetched than allowed.
    pub open spec fn wf(&self, options: &SyncOptions) -> bool {
        &&& seen_view(self.seen@) == numbers_of(self.new_bills@)
        &&& distinct(seen_view(self.seen@))
        &&& (!self.early_stopped ==> self.consecutive_known == 0 || self.consecutive_known
            < options.early_stop_threshold)
        &&& (self.early_stopped ==> self.done)
        &&& self.pages_fetched <= self.page_offset <= options.max_pages
    }

    /// A fresh synchronisation.
    pub fn new(options: &SyncOptions) -> (r: Self)
        ensures
            r.wf(options),
            r.new_bills@.len() == 0,
            r.pages_fetched == 0,
            !r.early_stopped,
            !r.done,
            r.page_offset == 0,
    {
        let r = SyncState {
            new_bills: Vec::new(),
            seen: Vec::new(),
            pages_fetched: 0,
            consecutive_known: 0,
            early_stopped: false,
            page_offset: 0,
            done: false,
        };
        assert(seen_view(r.seen@) =~= numbers_of(r.new_bills@));
        r
    }

    /// The page to fetch next, or `None` when the synchronisation is over.
    /// The page number must fit a `u32`.
    pub fn next_page(&self, options: &SyncOptions) -> (r: Option<u32>)
        requires
            self.wf(options),
            !self.done && self.page_offset < options.max_pages ==> options.start_page
                + self.page_offset <= u32::MAX,
        ensures
            r is Some <==> !self.done && self.page_offset < options.max_pages,
            r matches Some(p) ==> p == options.start_page + self.page_offset,
    {
        if self.done || self.page_offset >= options.max_pages {
            None
        } else {
            Some(options.start_page + self.page_offset)
        }
    }

    fn seen_contains(&self, num: &str) -> (r: bool)
        ensures
            r == seen_view(self.seen@).contains(num@),
    {
        let mut i: usize = 0;
        while i < self.seen.len()
            invariant
                i <= self.seen.len(),
                forall|k: int| 0 <= k < i ==> #[trigger] seen_view(self.seen@)[k] != num@,
            decreases self.seen.len() - i,
        {
            if str_eq(self.seen[i].as_str(), num) {
                assert(seen_view(self.seen@)[i as int] == num@);
                return true;
            }
            i = i + 1;
        }
        false
    }

    /// Takes the entries of the fetched page `page_no` (which the page says
    /// has `total_pages` pages), with `known[i]` telling whether the store
    /// holds the number of entry `i`. An empty first page ends the run
    /// without counting a page; otherwise the page is counted, its entries
    /// are scanned, progress is reported, and the run ends on an early
    /// stop, on the last page, or when the page budget is spent.
    pub fn handle_page(
        &mut self,
        options: &SyncOptions,
        page_no: u32,
        bills: Vec<BillItem>,
        total_pages: u32,
        known: Vec<bool>,
    ) -> (r: Option<SyncPageProgress>)
        requires
            old(self).wf(options),
            !old(self).done,
            old(self).page_offset < options.max_pages,
            page_no == options.start_page + old(self).page_offset,
            known@.len() == bills@.len(),
        ensures
            final(self).wf(options),
            forall|store: Seq<Seq<char>>|
                #[trigger] flags_store(bills@, known@, store) && avoids_store(old(self).new_bills@, store)
                    ==> avoids_store(final(self).new_bills@, store),
            old(self).page_offset == 0 && bills@.len() == 0 ==> {
                &&& r is None
                &&& *final(self) == (SyncState { done: true, ..*old(self) })
            },
            !(old(self).page_offset == 0 && bills@.len() == 0) ==> {
                let s = scan(
                    bills@,
                    known@,
                    options.early_stop_threshold,
                    ScanState {
                        new_bills: old(self).new_bills@,
                        seen: seen_view(old(self).seen@),
                        consecutive: old(self).consecutive_known as int,
                        stopped: false,
                    },
                    bills@.len() as int,
                );
                &&& final(self).new_bills@ == s.new_bills
                &&& final(self).consecutive_known == s.consecutive
                &&& final(self).early_stopped == s.stopped
                &&& final(self).pages_fetched == old(self).pages_fetched + 1
                &&& final(self).page_offset == old(self).page_offset + 1
                &&& final(self).done == (s.stopped || page_no >= total_pages
                    || final(self).page_offset >= options.max_pages)
                &&& r == Some(
                    SyncPageProgress {
                        page: page_no,
                        total_pages: if total_pages >= page_no {
                            total_pages
                        } else {
                            page_no
                        },
                        new_count: s.new_bills.len() as usize,
                    },
                )
            },
    {
        if bills.len() == 0 && self.page_offset == 0 {
            self.done = true;
            return None;
        }
        self.pages_fetched = self.pages_fetched + 1;
        let ghost start = ScanState {
            new_bills: self.new_bills@,
            seen: seen_view(self.seen@),
            consecutive: self.consecutive_known as int,
            stopped: false,
        };
        let n = bills.len();
        let ghost off = self.page_offset;
        let ghost fetched = self.pages_fetched;
        let mut rest = bills;
        let ghost all = rest@;
        let mut i: usize = 0;
        while i < n
            invariant_except_break
                i <= n,
                n == all.len(),
                known@.len() == all.len(),
                rest@ == all.subrange(i as int, n as int),
                ({
                    let s = scan(all, known@, options.early_stop_threshold, start, i as int);
                    &&& self.new_bills@ == s.new_bills
                    &&& seen_view(self.seen@) == s.seen
                    &&& self.consecutive_known == s.consecutive
                    &&& !s.stopped
                }),
                seen_view(self.seen@) == numbers_of(self.new_bills@),
                distinct(seen_view(self.seen@)),
                self.consecutive_known == 0 || self.consecutive_known < options.early_stop_threshold,
                !self.early_stopped,
                self.page_offset == off,
                self.pages_fetched == fetched,
                !self.done,
                fetched <= off + 1,
                off < options.max_pages,
            ensures
                ({
                    let s = scan(all, known@, options.early_stop_threshold, start, n as int);
                    &&& self.new_bills@ == s.new_bills
                    &&& seen_view(self.seen@) == s.seen
                    &&& self.consecutive_known == s.consecutive
                    &&& self.early_stopped == s.stopped
                }),
                seen_view(self.seen@) == numbers_of(self.new_bills@),
                distinct(seen_view(self.seen@)),
                !self.early_stopped ==> self.consecutive_known == 0 || self.consecutive_known
                    < options.early_stop_threshold,
                self.page_offset == off,
                self.pages_fetched == fetched,
                !self.done,
                fetched <= off + 1,
                off < options.max_pages,
            decreases n - i,
        {
            let bill = rest.remove(0);
            assert(bill == all[i as int]);
            let in_store = known[i];
            let has_number = bill.number.unicode_len() > 0;
            let is_known = has_number && (in_store || self.seen_contains(bill.number.as_str()));
            if is_known {
                self.consecutive_known = self.consecutive_known + 1;
                if self.consecutive_known >= options.early_stop_threshold {
                    self.early_stopped = true;
                    proof {
                        lemma_scan_stopped_stays(all, known@, options.early_stop_threshold, start, i + 1, n as int);
                    }
                    break;
                }
            } else {
                self.consecutive_known = 0;
                if has_number {
                    let ghost before = seen_view(self.seen@);
                    let num = bill.number.clone();
                    self.seen.push(num);
                    proof {
                        assert(seen_view(self.seen@) =~= before.push(bill.number@));
                        assert forall|a: int, b: int| 0 <= a < b < seen_view(self.seen@).len() implies
                            #[trigger] seen_view(self.seen@)[a] != #[trigger] seen_view(self.seen@)[b] by {
                            if b == before.len() {
                                assert(before[a] == seen_view(self.seen@)[a]);
                            }
                        }
                    }
                }
                let ghost nb = self.new_bills@;
                self.new_bills.push(bill);
                proof {
                    assert(self.new_bills@.drop_last() =~= nb);
                }
            }
            i = i + 1;
        }
        self.page_offset = self.page_offset + 1;
        let shown = if total_pages >= page_no {
            total_pages
        } else {
            page_no
        };
        let progress = SyncPageProgress { page: page_no, total_pages: shown, new_count: self.new_bills.len() };
        if self.early_stopped || page_no >= total_pages || self.page_offset >= options.max_pages {
            self.done = true;
        }
        proof {
            assert forall|store: Seq<Seq<char>>|
                #[trigger] flags_store(all, known@, store) && avoids_store(start.new_bills, store)
                    implies avoids_store(self.new_bills@, store) by {
                lemma_scan_skips_stored(all, known@, options.early_stop_threshold, start, n as int, store);
            }
        }
        Some(progress)
    }

    /// The outcome: the new entries, in the order found.
    pub fn finish(self) -> (r: SyncResult)
        ensures
            r.new_bills@ == self.new_bills@,
            r.new_count == self.new_bills@.len(),
            r.pages_fetched == self.pages_fetched,
            r.early_stopped == self.early_stopped,
    {
        let new_count = self.new_bills.len();
        SyncResult {
            new_count,
            pages_fetched: self.pages_fetched,
            early_stopped: self.early_stopped,
            new_bills: self.new_bills,
        }
    }
}

proof fn lemma_scan_stopped_stays(
    bills: Seq<BillItem>,
    known: Seq<bool>,
    threshold: u32,
    start: ScanState,
    m: int,
    n: int,
)
    requires
        0 <= m <= n <= bills.len(),
        scan(bills, known, threshold, start, m).stopped,
    ensures
        scan(bills, known, threshold, start, n) == scan(bills, known, threshold, start, m),
    decreases n - m,
{
    if m < n {
        lemma_scan_stopped_stays(bills, known, threshold, start, m, n - 1);
    }
}

/// Within one run, no two new entries share a transaction number: the
/// numbers recorded by a well-kept state are those of its new entries, each
/// once.
pub proof fn lemma_new_numbers_distinct(state: SyncState, options: SyncOptions)
    requires
        state.wf(&options),
    ensures
        distinct(numbers_of(state.new_bills@)),
{
}

/// No entry with a number has a number that `store` holds.
pub open spec fn avoids_store(bills: Seq<BillItem>, store: Seq<Seq<char>>) -> bool {
    forall|k: int|
        0 <= k < bills.len() && #[trigger] bills[k].number@.len() > 0 ==> !store.contains(
            bills[k].number@,
        )
}

/// The store's answers `known` flag every entry whose number `store` holds.
pub open spec fn flags_store(bills: Seq<BillItem>, known: Seq<bool>, store: Seq<Seq<char>>) -> bool {
    forall|k: int| 0 <= k < bills.len() && store.contains(#[trigger] bills[k].number@) ==> known[k]
}

/// A synchronisation never adds an entry whose number the store already
/// holds: when the store's answers flag every number it holds, and the new
/// entries so far avoid the store, the new entries after a scan avoid it too.
pub proof fn lemma_scan_skips_stored(
    bills: Seq<BillItem>,
    known: Seq<bool>,
    threshold: u32,
    start: ScanState,
    n: int,
    store: Seq<Seq<char>>,
)
    requires
        0 <= n <= bills.len(),
        known.len() == bills.len(),
        flags_store(bills, known, store),
        avoids_store(start.new_bills, store),
    ensures
        avoids_store(scan(bills, known, threshold, start, n).new_bills, store),
    decreases n,
{
    if n > 0 {
        lemma_scan_skips_stored(bills, known, threshold, start, n - 1, store);
        let s = scan(bills, known, threshold, start, n - 1);
        let r = scan(bills, known, threshold, start, n);
        if !s.stopped {
            let num = bills[n - 1].number@;
            if !(num.len() > 0 && (known[n - 1] || s.seen.contains(num))) {
                assert(r.new_bills == s.new_bills.push(bills[n - 1]));
                assert forall|k: int|
                    0 <= k < r.new_bills.len() && #[trigger] r.new_bills[k].number@.len() > 0
                        implies !store.contains(r.new_bills[k].number@) by {
                    if k < s.new_bills.len() {
                        assert(r.new_bills[k] == s.new_bills[k]);
                    } else {
                        assert(r.new_bills[k] == bills[n - 1]);
                    }
                }
            }
        }
    }
}

/// A whole synchronisation adds no number that the store held when it
/// started, and no number twice. `states[j + 1]` is the state after the
/// page `pages[j]` with the store's answers `answers[j]`, each answer
/// flagging the numbers the store holds, the store left unchanged during
/// the run; each step keeps the new entries clear of the store, as
/// `handle_page` ensures; the run starts from `new` (no entries).
pub proof fn lemma_sync_run_clear_of_store(
    states: Seq<SyncState>,
    pages: Seq<Seq<BillItem>>,
    answers: Seq<Seq<bool>>,
    options: SyncOptions,
    store: Seq<Seq<char>>,
)
    requires
        states.len() == pages.len() + 1,
        answers.len() == pages.len(),
        states[0].new_bills@.len() == 0,
        states[states.len() - 1].wf(&options),
        forall|j: int| 0 <= j < pages.len() ==> flags_store(#[trigger] pages[j], answers[j], store),
        forall|j: int|
            0 <= j < pages.len() ==> (flags_store(#[trigger] pages[j], answers[j], store) && avoids_store(
                states[j].new_bills@,
                store,
            ) ==> avoids_store(states[j + 1].new_bills@, store)),
    ensures
        avoids_store(states[states.len() - 1].new_bills@, store),
        distinct(numbers_of(states[states.len() - 1].new_bills@)),
{
    if pages.len() > 0 {
        lemma_sync_run_prefix(states, pages, answers, store, pages.len() - 1);
    }
}

proof fn lemma_sync_run_prefix(
    states: Seq<SyncState>,
    pages: Seq<Seq<BillItem>>,
    answers: Seq<Seq<bool>>,
    store: Seq<Seq<char>>,
    j: int,
)
    requires
        states.len() == pages.len() + 1,
        answers.len() == pages.len(),
        0 <= j < pages.len(),
        states[0].new_bills@.len() == 0,
        forall|i: int| 0 <= i < pages.len() ==> flags_store(#[trigger] pages[i], answers[i], store),
        forall|i: int|
            0 <= i < pages.len() ==> (flags_store(#[trigger] pages[i], answers[i], store) && avoids_store(
                states[i].new_bills@,
                store,
            ) ==> avoids_store(states[i + 1].new_bills@, store)),
    ensures
        avoids_store(states[j + 1].new_bills@, store),
    decreases j,
{
    assert(flags_store(pages[j], answers[j], store));
    if j > 0 {
        lemma_sync_run_prefix(states, pages, answers, store, j - 1);
    }
}

/// The run of known entries, entry by entry: while the scan goes on, an
/// entry taken as new sets the run back to zero and never stops the scan;
/// an entry not taken counts one more known entry and stops the scan
/// exactly when the run reaches the threshold.
pub proof fn lemma_scan_known_run_step(
    bills: Seq<BillItem>,
    known: Seq<bool>,
    threshold: u32,
    start: ScanState,
    n: int,
)
    requires
        0 < n <= bills.len(),
        !scan(bills, known, threshold, start, n - 1).stopped,
    ensures
        ({
            let before = scan(bills, known, threshold, start, n - 1);
            let after = scan(bills, known, threshold, start, n);
            &&& after.new_bills.len() == before.new_bills.len() + 1 ==> {
                &&& after.new_bills == before.new_bills.push(bills[n - 1])
                &&& after.consecutive == 0
                &&& !after.stopped
            }
            &&& after.new_bills.len() != before.new_bills.len() + 1 ==> {
                &&& after.new_bills == before.new_bills
                &&& after.consecutive == before.consecutive + 1
                &&& after.stopped == (before.consecutive + 1 >= threshold)
            }
        }),
{
}

/// A scan stops only on a run of known entries as long as the threshold:
/// when it has stopped, its run of known entries has reached the threshold;
/// each new entry starts the run again from zero.
pub proof fn lemma_scan_stops_on_known_run(
    bills: Seq<BillItem>,
    known: Seq<bool>,
    threshold: u32,
    start: ScanState,
    n: int,
)
    requires
        !start.stopped,
        start.consecutive >= 0,
        0 <= n <= bills.len(),
    ensures
        scan(bills, known, threshold, start, n).stopped ==> scan(bills, known, threshold, start, n).consecutive
            >= threshold,
        scan(bills, known, threshold, start, n).consecutive <= start.consecutive + n,
    decreases n,
{
    if n > 0 {
        lemma_scan_stops_on_known_run(bills, known, threshold, start, n - 1);
    }
}

} // verus!
