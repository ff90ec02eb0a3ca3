//! The ledger state: the stats singleton and every cookie record, keyed by
//! (identity, counter).
//!
//! `LedgerState` is the mathematical state machine: what each operation
//! returns and how it changes the state, as spec functions. `Ledger` is the
//! executable store, proved to follow that machine step by step. A record is
//! created at most once per key and never changed afterwards, and the stats
//! singleton counts exactly the records created.

use vstd::prelude::*;
use crate::program::{
    cookie_of, event_of, initialize_stats, open_cookie_at, stats_after_open, validate_archetype,
    CookieOpened, ErrorCode, FortuneCookie, InitializeStats, OpenCookie, Stats,
};

verus! {

/// Why the ledger turned an operation down.
#[derive(Clone, Copy, Debug, PartialEq, Eq)]
pub enum Rejection {
    /// The handler itself raised an error.
    Program(ErrorCode),
    /// The record to create exists already.
    AccountInUse,
    /// The stats singleton has not been created.
    AccountMissing,
}

/// One stored cookie record with the counter it was created under; its owner
/// is the record's `user`.
#[derive(Clone, Copy, Debug, PartialEq, Eq)]
pub struct CookieEntry {
    pub counter: u64,
    pub cookie: FortuneCookie,
}

/// The state of the ledger as a mathematical value.
pub ghost struct LedgerState {
    pub stats: Option<Stats>,
    pub cookies: Seq<CookieEntry>,
}

impl LedgerState {
    /// The state before anything was created.
    pub open spec fn empty() -> LedgerState {
        LedgerState { stats: None, cookies: Seq::empty() }
    }

    /// Position `i` holds the record of `user` under `counter`.
    pub open spec fn holds(self, i: int, user: Seq<u8>, counter: u64) -> bool {
        &&& 0 <= i < self.cookies.len()
        &&& self.cookies[i].cookie.user@ == user
        &&& self.cookies[i].counter == counter
    }

    /// A record of `user` under `counter` exists.
    pub open spec fn has_cookie(self, user: Seq<u8>, counter: u64) -> bool {
        exists|i: int| self.holds(i, user, counter)
    }

    /// The record of `user` under `counter`, if it exists.
    pub open spec fn cookie_at(self, user: Seq<u8>, counter: u64) -> Option<FortuneCookie> {
        if self.has_cookie(user, counter) {
            Some(self.cookies[choose|i: int| self.holds(i, user, counter)].cookie)
        } else {
            None
        }
    }

    /// No key occurs twice.
    pub open spec fn keys_distinct(self) -> bool {
        forall|i: int, j: int|
            #![trigger self.cookies[i], self.cookies[j]]
            0 <= i < j < self.cookies.len() ==> !self.holds(
                i,
                self.cookies[j].cookie.user@,
                self.cookies[j].counter,
            )
    }

    /// The stats singleton counts the records: without it there are none.
    pub open spec fn opens_counted(self) -> bool {
        match self.stats {
            Some(stats) => stats.total_opens == self.cookies.len(),
            None => self.cookies.len() == 0,
        }
    }

    /// No key occurs twice, and the stats singleton counts the records.
    pub open spec fn wf(self) -> bool {
        self.keys_distinct() && self.opens_counted()
    }

    /// Creating the stats singleton: refused where it exists, else it starts
    /// at zero.
    pub open spec fn initialize(self, bump: u8) -> (LedgerState, Result<(), Rejection>) {
        if self.stats is Some {
            (self, Err(Rejection::AccountInUse))
        } else {
            (
                LedgerState { stats: Some(Stats { total_opens: 0, bump }), cookies: self.cookies },
                Ok(()),
            )
        }
    }

    /// Opening a cookie: refused for an archetype of 4 or more, for a key that
    /// has a record, and without the stats singleton, in that order and with
    /// the state unchanged; else one record is appended and counted.
    pub open spec fn open(self, clock: u64, user: [u8; 32], archetype: u8, counter: u64, bump: u8)
        -> (LedgerState, Result<CookieOpened, Rejection>) {
        if archetype >= 4 {
            (self, Err(Rejection::Program(ErrorCode::InvalidArchetype)))
        } else if self.has_cookie(user@, counter) {
            (self, Err(Rejection::AccountInUse))
        } else if self.stats is None {
            (self, Err(Rejection::AccountMissing))
        } else {
            (
                LedgerState {
                    stats: Some(stats_after_open(self.stats->0)),
                    cookies: self.cookies.push(
                        CookieEntry {
                            counter,
                            cookie: cookie_of(clock, user, archetype, counter, bump),
                        },
                    ),
                },
                Ok(event_of(clock, user, archetype, counter)),
            )
        }
    }

    /// The state after one call of `open`.
    pub open spec fn step(self, call: OpenCall) -> LedgerState {
        self.open(call.clock, call.user, call.archetype, call.counter, call.bump).0
    }

    /// `open` would accept this call.
    pub open spec fn accepts(self, call: OpenCall) -> bool {
        self.open(call.clock, call.user, call.archetype, call.counter, call.bump).1 is Ok
    }

    /// The state after the calls of `calls`, made in order.
    pub open spec fn run(self, calls: Seq<OpenCall>) -> LedgerState
        decreases calls.len(),
    {
        if calls.len() == 0 {
            self
        } else {
            self.run(calls.drop_last()).step(calls.last())
        }
    }

    /// How many of the calls of `calls`, made in order, are accepted.
    pub open spec fn successes(self, calls: Seq<OpenCall>) -> nat
        decreases calls.len(),
    {
        if calls.len() == 0 {
            0
        } else {
            let earlier = self.successes(calls.drop_last());
            if self.run(calls.drop_last()).accepts(calls.last()) {
                earlier + 1
            } else {
                earlier
            }
        }
    }
}

/// The arguments of one call of `open`.
pub ghost struct OpenCall {
    pub clock: u64,
    pub user: [u8; 32],
    pub archetype: u8,
    pub counter: u64,
    pub bump: u8,
}

/// The executable ledger. Its state is reached through `@` and the methods
/// only, so that every ledger built from `new` stays well formed.
pub struct Ledger {
    stats: Option<Stats>,
    entries: Vec<CookieEntry>,
}

impl View for Ledger {
    type V = LedgerState;

    closed spec fn view(&self) -> LedgerState {
        LedgerState { stats: self.stats, cookies: self.entries@ }
    }
}

/// Tells whether two identities hold the same bytes.
pub fn same_identity(a: &[u8; 32], b: &[u8; 32]) -> (same: bool)
    ensures
        same == (a@ == b@),
{
    let mut i: usize = 0;
    while i < 32
        invariant
            0 <= i <= 32,
            forall|k: int| 0 <= k < i ==> a@[k] == b@[k],
        decreases 32 - i,
    {
        if a[i] != b[i] {
            return false;
        }
        i = i + 1;
    }
    assert(a@ =~= b@);
    true
}

impl Ledger {
    /// A ledger with no stats singleton and no record.
    pub fn new() -> (ledger: Ledger)
        ensures
            ledger@ == LedgerState::empty(),
            ledger@.wf(),
    {
        Ledger { stats: None, entries: Vec::new() }
    }

    /// The position of the record of `user` under `counter`.
    fn find(&self, user: &[u8; 32], counter: u64) -> (found: Option<usize>)
        ensures
            found is Some ==> self@.holds(found->0 as int, user@, counter),
            found is None ==> !self@.has_cookie(user@, counter),
    {
        let mut i: usize = 0;
        while i < self.entries.len()
            invariant
                0 <= i <= self.entries@.len(),
                forall|k: int| 0 <= k < i ==> !self@.holds(k, user@, counter),
            decreases self.entries@.len() - i,
        {
            if self.entries[i].counter == counter && same_identity(
                &self.entries[i].cookie.user,
                user,
            ) {
                return Some(i);
            }
            i = i + 1;
        }
        None
    }

    /// The record of `user` under `counter`, if one was created.
    pub fn cookie(&self, user: &[u8; 32], counter: u64) -> (record: Option<FortuneCookie>)
        requires
            self@.wf(),
        ensures
            record == self@.cookie_at(user@, counter),
    {
        match self.find(user, counter) {
            Some(i) => {
                proof {
                    lemma_holder_unique(self@, i as int, user@, counter);
                }
                Some(self.entries[i].cookie)
            },
            None => None,
        }
    }

    /// The stats singleton, if it was created.
    pub fn stats(&self) -> (stats: Option<Stats>)
        ensures
            stats == self@.stats,
    {
        self.stats
    }

    /// The number of cookie records.
    pub fn len(&self) -> (count: usize)
        ensures
            count == self@.cookies.len(),
    {
        self.entries.len()
    }

    /// The number of openings counted so far, if the stats singleton exists.
    pub fn total_opens(&self) -> (count: Option<u64>)
        requires
            self@.wf(),
        ensures
            count is Some <==> self@.stats is Some,
            count is Some ==> count->0 == self@.stats->0.total_opens,
            count is Some ==> count->0 == self@.cookies.len(),
    {
        match self.stats {
            Some(stats) => Some(stats.total_opens),
            None => None,
        }
    }

    /// Creates the stats singleton for `payer`, unless it exists.
    pub fn initialize_stats(&mut self, payer: [u8; 32], bump: u8) -> (done: Result<(), Rejection>)
        requires
            old(self)@.wf(),
        ensures
            (final(self)@, done) == old(self)@.initialize(bump),
            final(self)@.wf(),
    {
        if self.stats.is_some() {
            return Err(Rejection::AccountInUse);
        }
        let mut ctx = InitializeStats {
            payer,
            stats: Stats { total_opens: 0, bump: 0 },
            stats_bump: bump,
        };
        match initialize_stats(&mut ctx) {
            Ok(_) => {
                self.stats = Some(ctx.stats);
                Ok(())
            },
            Err(e) => Err(Rejection::Program(e)),
        }
    }

    /// Opens a cookie for `user` under `counter` at the clock value `clock`.
    ///
    /// Either the record is created, counted and announced, or the ledger
    /// stays exactly as it was.
    pub fn open_cookie(&mut self, clock: u64, user: [u8; 32], archetype: u8, counter: u64, bump: u8)
        -> (opened: Result<CookieOpened, Rejection>)
        requires
            old(self)@.wf(),
        ensures
            (final(self)@, opened) == old(self)@.open(clock, user, archetype, counter, bump),
            final(self)@.wf(),
    {
        match validate_archetype(archetype) {
            Err(e) => {
                return Err(Rejection::Program(e));
            },
            Ok(_) => {},
        }
        if self.find(&user, counter).is_some() {
            return Err(Rejection::AccountInUse);
        }
        let stats: Stats = match self.stats {
            Some(stats) => stats,
            None => {
                return Err(Rejection::AccountMissing);
            },
        };
        // The record is allocated before the handler fills it.
        let blank = FortuneCookie { user, archetype: 0, fortune_id: 0, rarity: 0, bump: 0 };
        let at: usize = self.entries.len();
        self.entries.push(CookieEntry { counter, cookie: blank });
        proof {
            // A vector's length is a `usize`, so the count before the push was below the limit.
            assert(self.entries.len() == self.entries@.len());
            assert(stats.total_opens < u64::MAX);
        }
        let mut ctx = OpenCookie { user, cookie: blank, cookie_bump: bump, stats };
        match open_cookie_at(&mut ctx, clock, archetype, counter) {
            Ok(event) => {
                self.entries.set(at, CookieEntry { counter, cookie: ctx.cookie });
                self.stats = Some(ctx.stats);
                proof {
                    assert(self@.cookies =~= old(self)@.cookies.push(
                        CookieEntry { counter, cookie: ctx.cookie },
                    ));
                    lemma_open_keeps_keys_distinct(old(self)@, clock, user, archetype, counter, bump);
                }
                Ok(event)
            },
            Err(e) => {
                self.entries.pop();
                proof {
                    assert(self@.cookies =~= old(self)@.cookies);
                }
                Err(Rejection::Program(e))
            },
        }
    }
}

/// Where no key occurs twice, at most one position holds a given key.
pub proof fn lemma_holder_unique(state: LedgerState, i: int, user: Seq<u8>, counter: u64)
    requires
        state.keys_distinct(),
        state.holds(i, user, counter),
    ensures
        state.has_cookie(user, counter),
        state.cookie_at(user, counter) == Some(state.cookies[i].cookie),
{
    let j = choose|j: int| state.holds(j, user, counter);
    if i < j {
        assert(!state.holds(i, state.cookies[j].cookie.user@, state.cookies[j].counter));
    } else if j < i {
        assert(!state.holds(j, state.cookies[i].cookie.user@, state.cookies[i].counter));
    }
}

/// Opening never makes a key occur twice.
pub proof fn lemma_open_keeps_keys_distinct(
    state: LedgerState,
    clock: u64,
    user: [u8; 32],
    archetype: u8,
    counter: u64,
    bump: u8,
)
    requires
        state.keys_distinct(),
    ensures
        state.open(clock, user, archetype, counter, bump).0.keys_distinct(),
{
    let after = state.open(clock, user, archetype, counter, bump).0;
    if after != state {
        assert forall|i: int, j: int|
            #![trigger after.cookies[i], after.cookies[j]]
            0 <= i < j < after.cookies.len() implies !after.holds(
            i,
            after.cookies[j].cookie.user@,
            after.cookies[j].counter,
        ) by {
            if j < state.cookies.len() {
                assert(!state.holds(i, state.cookies[j].cookie.user@, state.cookies[j].counter));
            } else {
                assert(!state.holds(i, user@, counter));
            }
        }
    }
}

/// Opening keeps a state well formed, as long as the count fits in 64 bits.
pub proof fn lemma_open_keeps_wf(
    state: LedgerState,
    clock: u64,
    user: [u8; 32],
    archetype: u8,
    counter: u64,
    bump: u8,
)
    requires
        state.wf(),
        state.cookies.len() < u64::MAX,
    ensures
        state.open(clock, user, archetype, counter, bump).0.wf(),
{
    lemma_open_keeps_keys_distinct(state, clock, user, archetype, counter, bump);
}

/// An accepted opening stores exactly the derived record under its key.
pub proof fn lemma_open_stores_record(
    state: LedgerState,
    clock: u64,
    user: [u8; 32],
    archetype: u8,
    counter: u64,
    bump: u8,
)
    requires
        state.keys_distinct(),
        state.open(clock, user, archetype, counter, bump).1 is Ok,
    ensures
        state.open(clock, user, archetype, counter, bump).0.cookie_at(user@, counter) == Some(
            cookie_of(clock, user, archetype, counter, bump),
        ),
{
    let after = state.open(clock, user, archetype, counter, bump).0;
    lemma_open_keeps_keys_distinct(state, clock, user, archetype, counter, bump);
    assert(after.holds(state.cookies.len() as int, user@, counter));
    lemma_holder_unique(after, state.cookies.len() as int, user@, counter);
}

/// A record that exists is still there, unchanged, after any further call of
/// `open`, accepted or not.
pub proof fn lemma_open_keeps_records(
    state: LedgerState,
    clock: u64,
    user: [u8; 32],
    archetype: u8,
    counter: u64,
    bump: u8,
    owner: Seq<u8>,
    under: u64,
)
    requires
        state.keys_distinct(),
        state.has_cookie(owner, under),
    ensures
        state.open(clock, user, archetype, counter, bump).0.cookie_at(owner, under)
            == state.cookie_at(owner, under),
{
    let after = state.open(clock, user, archetype, counter, bump).0;
    let i = choose|i: int| state.holds(i, owner, under);
    lemma_holder_unique(state, i, owner, under);
    lemma_open_keeps_keys_distinct(state, clock, user, archetype, counter, bump);
    assert(after.holds(i, owner, under));
    lemma_holder_unique(after, i, owner, under);
}

/// No run of calls makes a key occur twice, and a record that exists is
/// still there, unchanged, after the run: a record is never removed and
/// never written a second time.
pub proof fn lemma_run_keeps_records(
    start: LedgerState,
    calls: Seq<OpenCall>,
    owner: Seq<u8>,
    under: u64,
)
    requires
        start.keys_distinct(),
        start.has_cookie(owner, under),
    ensures
        start.run(calls).keys_distinct(),
        start.run(calls).has_cookie(owner, under),
        start.run(calls).cookie_at(owner, under) == start.cookie_at(owner, under),
    decreases calls.len(),
{
    if calls.len() > 0 {
        let call = calls.last();
        let mid = start.run(calls.drop_last());
        lemma_run_keeps_records(start, calls.drop_last(), owner, under);
        lemma_open_keeps_keys_distinct(
            mid,
            call.clock,
            call.user,
            call.archetype,
            call.counter,
            call.bump,
        );
        lemma_open_keeps_records(
            mid,
            call.clock,
            call.user,
            call.archetype,
            call.counter,
            call.bump,
            owner,
            under,
        );
        let i = choose|i: int| mid.holds(i, owner, under);
        assert(mid.step(call).holds(i, owner, under));
    }
}

/// An archetype of 4 or more is rejected with `InvalidArchetype` in every
/// state, and the state stays as it was.
pub proof fn lemma_invalid_archetype_changes_nothing(
    state: LedgerState,
    clock: u64,
    user: [u8; 32],
    archetype: u8,
    counter: u64,
    bump: u8,
)
    requires
        archetype >= 4,
    ensures
        state.open(clock, user, archetype, counter, bump) == (
            state,
            Err::<CookieOpened, Rejection>(Rejection::Program(ErrorCode::InvalidArchetype)),
        ),
{
}

/// Of two openings by one identity under one counter the first is accepted
/// and the second is refused: the state and the first record stay as the
/// first opening left them.
pub proof fn lemma_same_counter_opens_once(
    state: LedgerState,
    user: [u8; 32],
    counter: u64,
    first: OpenCall,
    second: OpenCall,
)
    requires
        state.keys_distinct(),
        state.stats is Some,
        !state.has_cookie(user@, counter),
        first.user == user && second.user == user,
        first.counter == counter && second.counter == counter,
        first.archetype < 4 && second.archetype < 4,
    ensures
        state.accepts(first),
        state.step(first).open(
            second.clock,
            second.user,
            second.archetype,
            second.counter,
            second.bump,
        ) == (state.step(first), Err::<CookieOpened, Rejection>(Rejection::AccountInUse)),
        state.step(first).cookie_at(user@, counter) == Some(
            cookie_of(first.clock, user, first.archetype, counter, first.bump),
        ),
{
    let mid = state.step(first);
    assert(mid.holds(state.cookies.len() as int, user@, counter));
    lemma_open_stores_record(state, first.clock, user, first.archetype, counter, first.bump);
}

/// Two openings by one identity under different counters are both accepted,
/// and each leaves its own record, which the other does not touch.
pub proof fn lemma_distinct_counters_open_twice(
    state: LedgerState,
    user: [u8; 32],
    first: OpenCall,
    second: OpenCall,
)
    requires
        state.keys_distinct(),
        state.stats is Some,
        first.user == user && second.user == user,
        first.counter != second.counter,
        !state.has_cookie(user@, first.counter),
        !state.has_cookie(user@, second.counter),
        first.archetype < 4 && second.archetype < 4,
    ensures
        state.accepts(first),
        state.step(first).accepts(second),
        state.step(first).step(second).cookie_at(user@, first.counter) == Some(
            cookie_of(first.clock, user, first.archetype, first.counter, first.bump),
        ),
        state.step(first).step(second).cookie_at(user@, second.counter) == Some(
            cookie_of(second.clock, user, second.archetype, second.counter, second.bump),
        ),
{
    let mid = state.step(first);
    lemma_open_stores_record(state, first.clock, user, first.archetype, first.counter, first.bump);
    lemma_open_keeps_keys_distinct(
        state,
        first.clock,
        user,
        first.archetype,
        first.counter,
        first.bump,
    );
    assert(!mid.has_cookie(user@, second.counter)) by {
        if mid.has_cookie(user@, second.counter) {
            let i = choose|i: int| mid.holds(i, user@, second.counter);
            if i < state.cookies.len() {
                assert(state.holds(i, user@, second.counter));
            }
        }
    }
    lemma_open_stores_record(
        mid,
        second.clock,
        user,
        second.archetype,
        second.counter,
        second.bump,
    );
    lemma_open_keeps_records(
        mid,
        second.clock,
        user,
        second.archetype,
        second.counter,
        second.bump,
        user@,
        first.counter,
    );
}

/// After any run of calls the stats singleton has grown by the number of
/// accepted calls, and so has the number of records: refused calls count for
/// nothing.
pub proof fn lemma_total_opens_counts_successes(start: LedgerState, calls: Seq<OpenCall>)
    requires
        start.wf(),
        start.stats is Some,
        start.cookies.len() + calls.len() <= u64::MAX,
    ensures
        start.run(calls).wf(),
        start.run(calls).stats is Some,
        start.successes(calls) <= calls.len(),
        start.run(calls).stats->0.total_opens == start.stats->0.total_opens + start.successes(
            calls,
        ),
        start.run(calls).cookies.len() == start.cookies.len() + start.successes(calls),
    decreases calls.len(),
{
    if calls.len() > 0 {
        let call = calls.last();
        lemma_total_opens_counts_successes(start, calls.drop_last());
        let mid = start.run(calls.drop_last());
        lemma_open_keeps_wf(mid, call.clock, call.user, call.archetype, call.counter, call.bump);
    }
}

/// Starting from a freshly created stats singleton, the count of openings
/// after any run of calls is the number of accepted calls.
pub proof fn lemma_fresh_ledger_counts_successes(bump: u8, calls: Seq<OpenCall>)
    requires
        calls.len() <= u64::MAX,
    ensures
        LedgerState::empty().initialize(bump).1 is Ok,
        LedgerState::empty().initialize(bump).0.run(calls).stats == Some(
            Stats {
                total_opens: LedgerState::empty().initialize(bump).0.successes(calls) as u64,
                bump,
            },
        ),
{
    let start = LedgerState::empty().initialize(bump).0;
    lemma_total_opens_counts_successes(start, calls);
    lemma_run_keeps_bump(start, calls);
}

/// No run of calls changes the bump of the stats singleton.
pub proof fn lemma_run_keeps_bump(start: LedgerState, calls: Seq<OpenCall>)
    requires
        start.stats is Some,
    ensures
        start.run(calls).stats is Some,
        start.run(calls).stats->0.bump == start.stats->0.bump,
    decreases calls.len(),
{
    if calls.len() > 0 {
        lemma_run_keeps_bump(start, calls.drop_last());
    }
}

} // verus!
