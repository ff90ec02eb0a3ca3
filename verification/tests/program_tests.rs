use fortune_cookie::program::{
    initialize_stats, open_cookie, open_cookie_at, validate_archetype, CookieOpened, ErrorCode,
    FortuneCookie, InitializeStats, OpenCookie, OpenError, Stats,
};

fn counting_user() -> [u8; 32] {
    let mut identity = [0u8; 32];
    for (i, byte) in identity.iter_mut().enumerate() {
        *byte = (i + 1) as u8;
    }
    identity
}

fn fresh_accounts(total_opens: u64) -> OpenCookie {
    let user = counting_user();
    OpenCookie {
        user,
        cookie: FortuneCookie { user: [0u8; 32], archetype: 0, fortune_id: 0, rarity: 0, bump: 0 },
        cookie_bump: 254,
        stats: Stats { total_opens, bump: 3 },
    }
}

#[test]
fn initialize_stats_starts_at_zero() {
    let mut ctx = InitializeStats {
        payer: counting_user(),
        stats: Stats { total_opens: 77, bump: 0 },
        stats_bump: 251,
    };
    assert_eq!(initialize_stats(&mut ctx), Ok(()));
    assert_eq!(ctx.stats, Stats { total_opens: 0, bump: 251 });
    assert_eq!(ctx.payer, counting_user());
    assert_eq!(ctx.stats_bump, 251);
}

#[test]
fn validate_archetype_accepts_zero_to_three() {
    assert_eq!(validate_archetype(0), Ok(()));
    assert_eq!(validate_archetype(1), Ok(()));
    assert_eq!(validate_archetype(2), Ok(()));
    assert_eq!(validate_archetype(3), Ok(()));
    assert_eq!(validate_archetype(4), Err(ErrorCode::InvalidArchetype));
    assert_eq!(validate_archetype(255), Err(ErrorCode::InvalidArchetype));
}

#[test]
fn invalid_archetype_message() {
    assert_eq!(ErrorCode::InvalidArchetype.message(), "Invalid archetype (must be 0-3)");
}

#[test]
fn open_fills_cookie_counts_and_announces() {
    let mut ctx = fresh_accounts(41);
    let opened = open_cookie_at(&mut ctx, 100, 2, 5);
    assert_eq!(
        opened,
        Ok(CookieOpened { user: counting_user(), archetype: 2, fortune_id: 47, rarity: 0 })
    );
    assert_eq!(
        ctx.cookie,
        FortuneCookie { user: counting_user(), archetype: 2, fortune_id: 47, rarity: 0, bump: 254 }
    );
    assert_eq!(ctx.stats, Stats { total_opens: 42, bump: 3 });
    assert_eq!(ctx.user, counting_user());
    assert_eq!(ctx.cookie_bump, 254);
}

#[test]
fn open_with_highest_archetype() {
    let mut ctx = fresh_accounts(0);
    let opened = open_cookie_at(&mut ctx, 7, 3, 1);
    assert_eq!(
        opened,
        Ok(CookieOpened { user: counting_user(), archetype: 3, fortune_id: 1, rarity: 2 })
    );
    assert_eq!(ctx.cookie.fortune_id, 1);
    assert_eq!(ctx.cookie.rarity, 2);
    assert_eq!(ctx.stats.total_opens, 1);
}

#[test]
fn open_rejects_invalid_archetype_without_mutation() {
    for archetype in [4u8, 5, 100, 255] {
        let mut ctx = fresh_accounts(41);
        let before = ctx;
        assert_eq!(open_cookie_at(&mut ctx, 100, archetype, 5), Err(ErrorCode::InvalidArchetype));
        assert_eq!(ctx, before);
    }
}

#[test]
fn open_rejects_invalid_archetype_even_at_full_count() {
    let mut ctx = fresh_accounts(u64::MAX);
    let before = ctx;
    assert_eq!(open_cookie_at(&mut ctx, 100, 4, 5), Err(ErrorCode::InvalidArchetype));
    assert_eq!(ctx, before);
}

#[test]
fn open_counts_up_to_the_limit() {
    let mut ctx = fresh_accounts(u64::MAX - 1);
    assert!(open_cookie_at(&mut ctx, 100, 2, 5).is_ok());
    assert_eq!(ctx.stats.total_opens, u64::MAX);
}

#[test]
fn runtime_open_checks_archetype_before_the_clock() {
    let mut ctx = fresh_accounts(41);
    let before = ctx;
    assert_eq!(
        open_cookie(&mut ctx, 4, 5),
        Err(OpenError::Code(ErrorCode::InvalidArchetype))
    );
    assert_eq!(ctx, before);
}

#[test]
fn runtime_open_without_a_running_program_has_no_clock() {
    let mut ctx = fresh_accounts(41);
    let before = ctx;
    assert_eq!(open_cookie(&mut ctx, 2, 5), Err(OpenError::ClockUnavailable));
    assert_eq!(ctx, before);
}
