//! The persisted records and the two instruction handlers.
//!
//! A handler works on the accounts of one instruction, which the ledger
//! runtime has allocated and checked before the handler runs. It fills the
//! records and hands back the notification to emit; storage and emission are
//! the runtime's part. `open_cookie` asks the runtime for the clock value;
//! `open_cookie_at` takes it as an argument.

use vstd::prelude::*;
use anchor_lang::prelude::{Clock, ProgramError, SolanaSysvar};
use crate::engine::{derive_fortune, fortune_id_of, rarity_tier_of};

verus! {

/// The global singleton that counts every successful opening.
#[derive(Clone, Copy, Debug, PartialEq, Eq)]
pub struct Stats {
    pub total_opens: u64,
    pub bump: u8,
}

/// The result of one opening, created once per (identity, counter) pair.
#[derive(Clone, Copy, Debug, PartialEq, Eq)]
pub struct FortuneCookie {
    pub user: [u8; 32],
    pub archetype: u8,
    pub fortune_id: u64,
    pub rarity: u8,
    pub bump: u8,
}

/// The notification sent to observers after an opening.
#[derive(Clone, Copy, Debug, PartialEq, Eq)]
pub struct CookieOpened {
    pub user: [u8; 32],
    pub archetype: u8,
    pub fortune_id: u64,
    pub rarity: u8,
}

/// The errors that the handlers raise themselves.
#[derive(Clone, Copy, Debug, PartialEq, Eq)]
pub enum ErrorCode {
    /// The archetype is not one of 0, 1, 2, 3.
    InvalidArchetype,
}

/// Why `open_cookie` did nothing.
#[derive(Clone, Copy, Debug, PartialEq, Eq)]
pub enum OpenError {
    /// The handler's own check failed.
    Code(ErrorCode),
    /// The runtime did not report a clock value.
    ClockUnavailable,
}

/// The error type of the runtime's calls, carried through and never looked
/// into.
#[verifier::external_type_specification]
#[verifier::external_body]
pub struct ExProgramError(ProgramError);

/// The accounts of the instruction that creates the stats singleton: the
/// payer, the freshly allocated stats record, and the bump of its address.
#[derive(Clone, Copy, Debug, PartialEq, Eq)]
pub struct InitializeStats {
    pub payer: [u8; 32],
    pub stats: Stats,
    pub stats_bump: u8,
}

/// The accounts of the instruction that opens a cookie: the caller, the
/// freshly allocated cookie record with the bump of its address, and the
/// stats singleton.
#[derive(Clone, Copy, Debug, PartialEq, Eq)]
pub struct OpenCookie {
    pub user: [u8; 32],
    pub cookie: FortuneCookie,
    pub cookie_bump: u8,
    pub stats: Stats,
}

impl ErrorCode {
    /// The text shown for this error.
    pub fn message(&self) -> (text: String)
        ensures
            text@ == "Invalid archetype (must be 0-3)"@,
    {
        match self {
            ErrorCode::InvalidArchetype => "Invalid archetype (must be 0-3)".to_string(),
        }
    }
}

/// The cookie record that an opening writes.
pub open spec fn cookie_of(clock: u64, user: [u8; 32], archetype: u8, counter: u64, bump: u8)
    -> FortuneCookie {
    FortuneCookie {
        user,
        archetype,
        fortune_id: fortune_id_of(clock, user@, archetype, counter) as u64,
        rarity: rarity_tier_of(clock, user@, archetype) as u8,
        bump,
    }
}

/// The notification that an opening emits.
pub open spec fn event_of(clock: u64, user: [u8; 32], archetype: u8, counter: u64)
    -> CookieOpened {
    CookieOpened {
        user,
        archetype,
        fortune_id: fortune_id_of(clock, user@, archetype, counter) as u64,
        rarity: rarity_tier_of(clock, user@, archetype) as u8,
    }
}

/// The stats singleton after one more opening.
pub open spec fn stats_after_open(stats: Stats) -> Stats {
    Stats { total_opens: (stats.total_opens + 1) as u64, bump: stats.bump }
}

/// Accepts the archetypes 0 to 3 and rejects every other.
pub fn validate_archetype(archetype: u8) -> (checked: Result<(), ErrorCode>)
    ensures
        archetype < 4 ==> checked == Ok::<(), ErrorCode>(()),
        archetype >= 4 ==> checked == Err::<(), ErrorCode>(ErrorCode::InvalidArchetype),
{
    if archetype < 4 {
        Ok(())
    } else {
        Err(ErrorCode::InvalidArchetype)
    }
}

/// Starts the stats singleton at zero openings and records its bump.
/// Never fails; nothing but the stats record changes.
pub fn initialize_stats(ctx: &mut InitializeStats) -> (done: Result<(), ErrorCode>)
    ensures
        done == Ok::<(), ErrorCode>(()),
        final(ctx).stats == (Stats { total_opens: 0, bump: old(ctx).stats_bump }),
        final(ctx).payer == old(ctx).payer,
        final(ctx).stats_bump == old(ctx).stats_bump,
{
    ctx.stats.total_opens = 0;
    ctx.stats.bump = ctx.stats_bump;
    Ok(())
}

/// The accounts after an opening at the clock value `clock`.
pub open spec fn accounts_after_open(before: OpenCookie, clock: u64, archetype: u8, counter: u64)
    -> OpenCookie {
    OpenCookie {
        user: before.user,
        cookie: cookie_of(clock, before.user, archetype, counter, before.cookie_bump),
        cookie_bump: before.cookie_bump,
        stats: stats_after_open(before.stats),
    }
}

/// Asks the runtime for the current slot: `Clock::get` of anchor_lang, which
/// reads the clock sysvar, and the `slot` field of what it returns. Nothing
/// is claimed of the outcome: the slot is whatever the runtime reports, and
/// where the runtime offers no clock the call returns its error.
#[verifier::external_body]
fn current_slot() -> (slot: Result<u64, ProgramError>) {
    match Clock::get() {
        Ok(clock) => Ok(clock.slot),
        Err(e) => Err(e),
    }
}

/// Opens a cookie for the caller at the clock value `clock`.
///
/// An archetype of 4 or more is rejected with `InvalidArchetype` and leaves
/// every account as it was. Otherwise the cookie record is filled with the
/// derived fortune id and rarity tier, the stats singleton counts one more
/// opening, and the notification to emit is returned.
pub fn open_cookie_at(ctx: &mut OpenCookie, clock: u64, archetype: u8, counter: u64) -> (opened:
    Result<CookieOpened, ErrorCode>)
    requires
        archetype < 4 ==> old(ctx).stats.total_opens < u64::MAX,
    ensures
        archetype >= 4 ==> opened == Err::<CookieOpened, ErrorCode>(ErrorCode::InvalidArchetype)
            && *final(ctx) == *old(ctx),
        archetype < 4 ==> opened == Ok::<CookieOpened, ErrorCode>(
            event_of(clock, old(ctx).user, archetype, counter),
        ) && *final(ctx) == accounts_after_open(*old(ctx), clock, archetype, counter),
{
    match validate_archetype(archetype) {
        Err(e) => {
            return Err(e);
        },
        Ok(_) => {},
    }
    let user: [u8; 32] = ctx.user;
    let (fortune_id, rarity) = derive_fortune(clock, &user, archetype, counter);

    ctx.cookie.user = user;
    ctx.cookie.archetype = archetype;
    ctx.cookie.fortune_id = fortune_id;
    ctx.cookie.rarity = rarity;
    ctx.cookie.bump = ctx.cookie_bump;

    ctx.stats.total_opens = ctx.stats.total_opens + 1;

    Ok(CookieOpened { user, archetype, fortune_id, rarity })
}

/// Opens a cookie for the caller at the clock value that the runtime reports.
///
/// The archetype is checked before the runtime is asked: 4 or more is
/// rejected with `InvalidArchetype`. Where the runtime reports no clock value
/// the call fails with `ClockUnavailable`. Either way every account stays as
/// it was. Otherwise the opening is that of `open_cookie_at` at the reported
/// value.
pub fn open_cookie(ctx: &mut OpenCookie, archetype: u8, counter: u64) -> (opened: Result<
    CookieOpened,
    OpenError,
>)
    requires
        archetype < 4 ==> old(ctx).stats.total_opens < u64::MAX,
    ensures
        archetype >= 4 ==> opened == Err::<CookieOpened, OpenError>(
            OpenError::Code(ErrorCode::InvalidArchetype),
        ),
        opened is Err ==> *final(ctx) == *old(ctx),
        archetype < 4 && opened is Err ==> opened == Err::<CookieOpened, OpenError>(
            OpenError::ClockUnavailable,
        ),
        opened is Ok ==> exists|clock: u64|
            opened == Ok::<CookieOpened, OpenError>(
                #[trigger] event_of(clock, old(ctx).user, archetype, counter),
            ) && *final(ctx) == accounts_after_open(*old(ctx), clock, archetype, counter),
{
    match validate_archetype(archetype) {
        Err(e) => {
            return Err(OpenError::Code(e));
        },
        Ok(_) => {},
    }
    let clock: u64 = match current_slot() {
        Ok(slot) => slot,
        Err(_) => {
            return Err(OpenError::ClockUnavailable);
        },
    };
    match open_cookie_at(ctx, clock, archetype, counter) {
        Ok(event) => Ok(event),
        Err(e) => Err(OpenError::Code(e)),
    }
}

} // verus!
