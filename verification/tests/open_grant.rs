use open_grant::model::{CurrencyError, Error, Event, Judgement, Origin};
use open_grant::pallet::{Config, GenesisConfig, Module};
use open_grant::quadratic::contributions_sqrt_sum;
use open_grant::types::{AccountId, Contribution, GrantRound};

const MODULE_ID: [u8; 8] = *b"py/opgrt";

fn account(n: u8) -> AccountId {
    [n; 32]
}

fn alice() -> AccountId {
    account(1)
}

fn bob() -> AccountId {
    account(2)
}

fn carol() -> AccountId {
    account(3)
}

fn module() -> Module {
    Module::new(
        Config { module_id: MODULE_ID },
        GenesisConfig { max_round_grants: 60, withdrawal_period: 1000, is_identity_needed: false },
    )
}

fn create(m: &mut Module, owner: AccountId) -> u32 {
    match m.create_project(
        Origin::Signed(owner),
        b"name".to_vec(),
        b"logo".to_vec(),
        b"description".to_vec(),
        b"website".to_vec(),
        None,
    ) {
        Ok(Event::ProjectCreated(i)) => i,
        other => panic!("unexpected {:?}", other),
    }
}

fn fund(m: &mut Module, who: AccountId, amount: u128) {
    assert_eq!(m.fund(Origin::Signed(who), amount, Ok(())), Ok(Event::FundSucceed));
}

fn contribute(m: &mut Module, who: AccountId, now: u32, project: u32, value: u128) -> Result<Event, Error> {
    let origin = Origin::Signed(who);
    m.contribution_payment(origin, now, project, value)?;
    assert!(m.contribute_fits(origin, now, project, value));
    m.contribute(origin, now, project, value, Ok(()))
}

/// Two projects, a funded pot and one round over blocks 10..20 for both.
fn with_round() -> Module {
    let mut m = module();
    create(&mut m, alice());
    create(&mut m, bob());
    fund(&mut m, carol(), 1000);
    assert_eq!(m.schedule_round(Origin::Root, 1, 10, 20, 1000, vec![0, 1]), Ok(Event::GrantRoundCreated(0)));
    m
}

#[test]
fn new_module_is_empty() {
    let m = module();
    assert_eq!(m.project_count(), 0);
    assert_eq!(m.grant_round_count(), 0);
    assert_eq!(m.unused_fund(), 0);
    assert_eq!(m.max_round_grants(), 60);
    assert_eq!(m.withdrawal_period(), 1000);
    assert!(!m.is_identity_needed());
    assert!(m.get_projects().is_empty());
}

#[test]
fn accounts_are_derived_from_the_module_id() {
    let m = module();
    let mut pot = [0u8; 32];
    pot[..4].copy_from_slice(b"modl");
    pot[4..12].copy_from_slice(&MODULE_ID);
    assert_eq!(m.account_id(), pot);
    let mut project = pot;
    project[12..16].copy_from_slice(&0x0102_0304u32.to_le_bytes());
    assert_eq!(m.project_account_id(0x0102_0304), project);
    assert_ne!(m.project_account_id(1), m.project_account_id(2));
    // index 0 encodes as four zero bytes: the pot itself
    assert_eq!(m.project_account_id(0), m.account_id());
}

#[test]
fn create_project_checks_origin_and_texts() {
    let mut m = module();
    assert_eq!(
        m.create_project(Origin::Unsigned, b"n".to_vec(), b"l".to_vec(), b"d".to_vec(), b"w".to_vec(), None),
        Err(Error::BadOrigin)
    );
    assert_eq!(
        m.create_project(Origin::Root, b"n".to_vec(), b"l".to_vec(), b"d".to_vec(), b"w".to_vec(), None),
        Err(Error::BadOrigin)
    );
    assert_eq!(
        m.create_project(Origin::Signed(alice()), vec![], b"l".to_vec(), b"d".to_vec(), b"w".to_vec(), None),
        Err(Error::InvalidParam)
    );
    assert_eq!(
        m.create_project(Origin::Signed(alice()), b"n".to_vec(), b"l".to_vec(), b"d".to_vec(), vec![], None),
        Err(Error::InvalidParam)
    );
    assert_eq!(m.project_count(), 0);
    assert_eq!(create(&mut m, alice()), 0);
    assert_eq!(create(&mut m, bob()), 1);
    let projects = m.get_projects();
    assert_eq!(projects.len(), 2);
    assert_eq!(projects[0].owner, alice());
    assert_eq!(projects[1].owner, bob());
    assert_eq!(projects[1].website, b"website".to_vec());
    assert_eq!(m.project(1).unwrap().owner, bob());
    assert!(m.project(2).is_none());
}

#[test]
fn create_project_needs_a_good_judgement_when_identity_is_needed() {
    let mut m = module();
    assert_eq!(m.set_is_identity_needed(Origin::Unsigned, true), Ok(()));
    let texts = || (b"n".to_vec(), b"l".to_vec(), b"d".to_vec(), b"w".to_vec());
    let (n, l, d, w) = texts();
    assert_eq!(m.create_project(Origin::Signed(alice()), n, l, d, w, None), Err(Error::IdentityNeeded));
    let (n, l, d, w) = texts();
    assert_eq!(
        m.create_project(
            Origin::Signed(alice()),
            n,
            l,
            d,
            w,
            Some(vec![Judgement::Unknown, Judgement::FeePaid(5), Judgement::LowQuality])
        ),
        Err(Error::IdentityNeeded)
    );
    // the identity check comes before the check of the texts
    assert_eq!(
        m.create_project(Origin::Signed(alice()), vec![], vec![], vec![], vec![], None),
        Err(Error::IdentityNeeded)
    );
    let (n, l, d, w) = texts();
    assert_eq!(
        m.create_project(Origin::Signed(alice()), n, l, d, w, Some(vec![Judgement::Erroneous, Judgement::KnownGood])),
        Ok(Event::ProjectCreated(0))
    );
    let (n, l, d, w) = texts();
    assert_eq!(
        m.create_project(Origin::Signed(bob()), n, l, d, w, Some(vec![Judgement::Reasonable])),
        Ok(Event::ProjectCreated(1))
    );
}

#[test]
fn fund_moves_the_donation_into_the_pot() {
    let mut m = module();
    assert_eq!(m.fund_payment(Origin::Root, 5).map(|t| t.amount), Err(Error::BadOrigin));
    let t = m.fund_payment(Origin::Signed(carol()), 500).unwrap();
    assert_eq!(t.from, carol());
    assert_eq!(t.to, m.account_id());
    assert_eq!(t.amount, 500);
    assert_eq!(
        m.fund(Origin::Signed(carol()), 500, Err(CurrencyError::InsufficientBalance)),
        Err(Error::Currency(CurrencyError::InsufficientBalance))
    );
    assert_eq!(m.unused_fund(), 0);
    fund(&mut m, carol(), 500);
    fund(&mut m, alice(), 250);
    assert_eq!(m.unused_fund(), 750);
}

#[test]
fn schedule_round_checks_in_order() {
    let mut m = module();
    fund(&mut m, carol(), 100);
    assert_eq!(m.schedule_round(Origin::Signed(alice()), 1, 10, 20, 10, vec![]), Err(Error::BadOrigin));
    assert_eq!(m.schedule_round(Origin::Root, 1, 10, 20, 101, vec![]), Err(Error::NotEnoughFund));
    assert_eq!(m.set_max_round_grants(Origin::Root, 3), Ok(()));
    assert_eq!(m.schedule_round(Origin::Root, 1, 10, 20, 10, vec![0, 1, 2, 3]), Err(Error::GrantAmountExceed));
    assert_eq!(m.schedule_round(Origin::Root, 1, 10, 10, 10, vec![0, 1]), Err(Error::EndTooEarly));
    assert_eq!(m.schedule_round(Origin::Root, 10, 10, 20, 10, vec![]), Err(Error::StartBlockNumberInvalid));
    assert_eq!(m.grant_round_count(), 0);
    assert_eq!(m.schedule_round(Origin::Root, 1, 10, 20, 60, vec![0, 1]), Ok(Event::GrantRoundCreated(0)));
    assert_eq!(m.unused_fund(), 40);
    let round = m.grant_round(0).unwrap();
    assert_eq!((round.start, round.end, round.matching_fund), (10, 20, 60));
    assert_eq!(round.grants.len(), 2);
    assert_eq!(round.grants[1].project_index, 1);
    assert!(round.grants[1].contributions.is_empty());
    assert!(!round.is_canceled && !round.is_finalized);
    // must start after the end of the last round that is not canceled
    assert_eq!(m.schedule_round(Origin::Root, 1, 20, 30, 10, vec![]), Err(Error::StartBlockNumberTooSmall));
    assert_eq!(m.schedule_round(Origin::Root, 1, 21, 30, 10, vec![]), Ok(Event::GrantRoundCreated(1)));
    assert_eq!(m.unused_fund(), 30);
}

#[test]
fn a_round_admits_fewer_projects_than_the_maximum() {
    let mut m = module();
    fund(&mut m, carol(), 100);
    assert_eq!(m.set_max_round_grants(Origin::Root, 1), Ok(()));
    assert_eq!(m.schedule_round(Origin::Root, 1, 10, 20, 10, vec![0]), Err(Error::GrantAmountExceed));
    assert_eq!(m.schedule_round(Origin::Root, 1, 10, 20, 10, vec![]), Ok(Event::GrantRoundCreated(0)));
    assert_eq!(m.set_max_round_grants(Origin::Root, 2), Ok(()));
    assert_eq!(m.schedule_round(Origin::Root, 1, 30, 40, 10, vec![0, 1]), Err(Error::GrantAmountExceed));
    assert_eq!(m.schedule_round(Origin::Root, 1, 30, 40, 10, vec![1]), Ok(Event::GrantRoundCreated(1)));
}

#[test]
fn schedule_round_looks_past_canceled_rounds() {
    let mut m = module();
    fund(&mut m, carol(), 100);
    assert_eq!(m.schedule_round(Origin::Root, 1, 10, 20, 10, vec![]), Ok(Event::GrantRoundCreated(0)));
    assert_eq!(m.schedule_round(Origin::Root, 1, 30, 40, 10, vec![]), Ok(Event::GrantRoundCreated(1)));
    assert!(m.cancel_round_fits(Origin::Root, 1, 1));
    assert_eq!(m.cancel_round(Origin::Root, 1, 1), Ok(Event::RoundCanceled(1)));
    // round 1 is canceled; round 0, ending at 20, is the last valid one
    assert_eq!(m.schedule_round(Origin::Root, 1, 15, 40, 10, vec![]), Err(Error::StartBlockNumberTooSmall));
    assert_eq!(m.schedule_round(Origin::Root, 1, 25, 40, 10, vec![]), Ok(Event::GrantRoundCreated(2)));
}

#[test]
fn cancel_round_returns_the_pool() {
    let mut m = with_round();
    assert_eq!(m.unused_fund(), 0);
    assert_eq!(m.cancel_round(Origin::Signed(alice()), 5, 0), Err(Error::BadOrigin));
    assert_eq!(m.cancel_round(Origin::Root, 5, 7), Err(Error::NoActiveRound));
    assert_eq!(m.cancel_round(Origin::Root, 10, 0), Err(Error::RoundStarted));
    assert_eq!(m.cancel_round(Origin::Root, 5, 0), Ok(Event::RoundCanceled(0)));
    assert_eq!(m.unused_fund(), 1000);
    assert!(m.grant_round(0).unwrap().is_canceled);
    assert_eq!(m.cancel_round(Origin::Root, 5, 0), Err(Error::RoundCanceled));
}

#[test]
fn cancel_round_event_names_the_last_round() {
    let mut m = module();
    fund(&mut m, carol(), 100);
    assert_eq!(m.schedule_round(Origin::Root, 1, 10, 20, 10, vec![]), Ok(Event::GrantRoundCreated(0)));
    assert_eq!(m.schedule_round(Origin::Root, 1, 30, 40, 10, vec![]), Ok(Event::GrantRoundCreated(1)));
    assert_eq!(m.cancel_round(Origin::Root, 1, 0), Ok(Event::RoundCanceled(1)));
    assert!(m.grant_round(0).unwrap().is_canceled);
    assert!(!m.grant_round(1).unwrap().is_canceled);
}

#[test]
fn contribute_checks_and_pays_the_project_account() {
    let mut m = module();
    create(&mut m, alice());
    assert_eq!(contribute(&mut m, carol(), 15, 0, 4), Err(Error::NoActiveRound));
    let mut m = with_round();
    assert_eq!(contribute(&mut m, carol(), 10, 0, 4), Err(Error::RoundNotProcessing));
    assert_eq!(contribute(&mut m, carol(), 20, 0, 4), Err(Error::RoundNotProcessing));
    assert_eq!(contribute(&mut m, carol(), 15, 5, 4), Err(Error::NoActiveGrant));
    assert_eq!(m.contribution_payment(Origin::Root, 15, 1, 4).map(|t| t.amount), Err(Error::BadOrigin));
    let t = m.contribution_payment(Origin::Signed(carol()), 15, 1, 4).unwrap();
    assert_eq!(t.from, carol());
    assert_eq!(t.to, m.project_account_id(1));
    assert_eq!(t.amount, 4);
    assert_eq!(
        m.contribute(Origin::Signed(carol()), 15, 1, 4, Err(CurrencyError::KeepAlive)),
        Err(Error::Currency(CurrencyError::KeepAlive))
    );
    assert!(m.grant_round(0).unwrap().grants[1].contributions.is_empty());
    assert_eq!(contribute(&mut m, carol(), 15, 1, 4), Ok(Event::ContributeSucceed(carol(), 1, 4, 15)));
    assert_eq!(contribute(&mut m, alice(), 16, 1, 9), Ok(Event::ContributeSucceed(alice(), 1, 9, 16)));
    assert_eq!(contribute(&mut m, carol(), 17, 1, 5), Ok(Event::ContributeSucceed(carol(), 1, 5, 17)));
    let grant = &m.grant_round(0).unwrap().grants[1];
    assert_eq!(grant.contributions.len(), 2);
    assert_eq!((grant.contributions[0].account_id, grant.contributions[0].value), (carol(), 9));
    assert_eq!((grant.contributions[1].account_id, grant.contributions[1].value), (alice(), 9));
}

#[test]
fn contribute_overflow_is_reported_before_paying() {
    let mut m = with_round();
    assert_eq!(contribute(&mut m, carol(), 15, 0, u128::MAX), Ok(Event::ContributeSucceed(carol(), 0, u128::MAX, 15)));
    assert!(!m.contribute_fits(Origin::Signed(carol()), 15, 0, 1));
    assert!(m.contribute_fits(Origin::Signed(alice()), 15, 0, 1));
}

#[test]
fn contribute_records_in_the_round_in_progress() {
    let mut m = with_round();
    fund(&mut m, carol(), 50);
    assert_eq!(m.schedule_round(Origin::Root, 1, 30, 40, 50, vec![1]), Ok(Event::GrantRoundCreated(1)));
    assert_eq!(m.cancel(Origin::Root, 1, 1), Ok(Event::GrantCanceled(1, 1)));
    assert_eq!(contribute(&mut m, carol(), 15, 0, 4), Ok(Event::ContributeSucceed(carol(), 0, 4, 15)));
    let round = m.grant_round(0).unwrap();
    assert_eq!(round.grants[0].contributions.len(), 1);
    assert_eq!(round.grants[0].contributions[0].value, 4);
    // the later round is untouched: its window, pool and canceled grant stay
    let later = m.grant_round(1).unwrap();
    assert_eq!((later.start, later.end, later.matching_fund), (30, 40, 50));
    assert_eq!(later.grants.len(), 1);
    assert!(later.grants[0].is_canceled);
    assert!(later.grants[0].contributions.is_empty());
}

#[test]
fn finalize_shares_the_pool_quadratically() {
    let mut m = with_round();
    // project 0: 4 and 9 from two accounts: (2 + 3)^2 = 25
    contribute(&mut m, carol(), 15, 0, 4).unwrap();
    contribute(&mut m, alice(), 15, 0, 9).unwrap();
    // project 1: 100 from one account: 10^2 = 100
    contribute(&mut m, carol(), 15, 1, 100).unwrap();
    assert_eq!(m.finalize_round(Origin::Signed(alice()), 25, 0), Err(Error::BadOrigin));
    assert_eq!(m.finalize_round(Origin::Root, 25, 3), Err(Error::NoActiveRound));
    assert_eq!(m.finalize_round(Origin::Root, 20, 0), Err(Error::RoundNotEnded));
    assert!(m.finalize_round_fits(Origin::Root, 25, 0));
    assert_eq!(m.finalize_round(Origin::Root, 25, 0), Ok(()));
    let round = m.grant_round(0).unwrap();
    assert!(round.is_finalized);
    assert_eq!(round.grants[0].matching_fund, 200);
    assert_eq!(round.grants[1].matching_fund, 800);
    assert_eq!(m.finalize_round(Origin::Root, 25, 0), Err(Error::RoundFinalized));
}

#[test]
fn finalize_rounds_shares_down() {
    let mut m = module();
    for owner in [alice(), bob(), carol()] {
        create(&mut m, owner);
    }
    fund(&mut m, carol(), 100);
    m.schedule_round(Origin::Root, 1, 10, 20, 100, vec![0, 1, 2]).unwrap();
    for p in 0..3 {
        contribute(&mut m, carol(), 15, p, 1).unwrap();
    }
    m.finalize_round(Origin::Root, 21, 0).unwrap();
    let round = m.grant_round(0).unwrap();
    let shares: Vec<u128> = round.grants.iter().map(|g| g.matching_fund).collect();
    assert_eq!(shares, vec![33, 33, 33]);
}

#[test]
fn canceled_grant_gets_no_share() {
    let mut m = with_round();
    contribute(&mut m, carol(), 15, 0, 4).unwrap();
    contribute(&mut m, carol(), 15, 1, 100).unwrap();
    assert_eq!(m.cancel(Origin::Root, 0, 1), Ok(Event::GrantCanceled(0, 1)));
    assert_eq!(contribute(&mut m, carol(), 16, 1, 1), Err(Error::GrantCanceled));
    m.finalize_round(Origin::Root, 25, 0).unwrap();
    let round = m.grant_round(0).unwrap();
    assert_eq!(round.grants[0].matching_fund, 1000);
    assert_eq!(round.grants[1].matching_fund, 0);
    assert_eq!(m.approve(Origin::Root, 25, 0, 1), Err(Error::GrantCanceled));
}

#[test]
fn finalize_without_contributions_would_divide_by_zero() {
    let m = with_round();
    assert!(!m.finalize_round_fits(Origin::Root, 25, 0));
    assert!(m.grant_round(0).unwrap().matching_shares().is_none());
    // checks that fail first leave nothing to divide
    assert!(m.finalize_round_fits(Origin::Root, 20, 0));
}

#[test]
fn matching_shares_of_a_round() {
    let mut round = GrantRound::new(1, 2, 90, vec![7, 8, 9]);
    round.grants[0].contributions.push(Contribution { account_id: alice(), value: 1 });
    round.grants[0].contributions.push(Contribution { account_id: bob(), value: 1 });
    round.grants[1].contributions.push(Contribution { account_id: alice(), value: 4 });
    round.grants[2].is_canceled = true;
    round.grants[2].contributions.push(Contribution { account_id: carol(), value: 400 });
    // weights (1 + 1)^2 = 4 and 2^2 = 4; the canceled grant weighs nothing
    assert_eq!(round.matching_shares(), Some(vec![45, 45, 0]));
    round.matching_fund = u128::MAX;
    assert_eq!(round.matching_shares(), None);
}

#[test]
fn square_roots_are_rounded_down() {
    let contributions: Vec<Contribution> = [0u128, 1, 2, 3, 4, 80, 81, 99]
        .iter()
        .map(|&value| Contribution { account_id: alice(), value })
        .collect();
    // 0 + 1 + 1 + 1 + 2 + 8 + 9 + 9
    assert_eq!(contributions_sqrt_sum(&contributions), 31);
    let big = vec![Contribution { account_id: alice(), value: u128::MAX }];
    assert_eq!(contributions_sqrt_sum(&big), u64::MAX as u128);
}

#[test]
fn approve_and_withdraw() {
    let mut m = with_round();
    contribute(&mut m, carol(), 15, 1, 100).unwrap();
    contribute(&mut m, alice(), 15, 1, 21).unwrap();
    m.finalize_round(Origin::Root, 25, 0).unwrap();
    assert_eq!(m.approve(Origin::Signed(bob()), 30, 0, 1), Err(Error::BadOrigin));
    assert_eq!(m.approve(Origin::Root, 20, 0, 1), Err(Error::RoundNotEnded));
    assert_eq!(m.approve(Origin::Root, 30, 0, 9), Err(Error::NoActiveGrant));
    assert_eq!(m.withdraw_fits(Origin::Signed(bob()), 30, 0, 1), true);
    // before approval the withdrawal period is still block 0
    assert_eq!(m.withdraw(Origin::Signed(bob()), 30, 0, 1, Ok(())), Err(Error::WithdrawalPeriodExceed));
    assert_eq!(m.withdraw(Origin::Signed(bob()), 0, 0, 1, Ok(())), Err(Error::GrantNotApproved));
    assert!(m.approve_fits(Origin::Root, 30, 0, 1));
    assert_eq!(m.approve(Origin::Root, 30, 0, 1), Ok(Event::GrantAllowedWithdraw(0, 1)));
    let grant = &m.grant_round(0).unwrap().grants[1];
    assert!(grant.is_approved);
    assert_eq!(grant.withdrawal_period, 1030);
    assert_eq!(grant.matching_fund, 1000);
    assert_eq!(m.cancel(Origin::Root, 0, 1).err(), Some(Error::RoundFinalized));

    assert_eq!(m.withdraw(Origin::Signed(alice()), 30, 0, 1, Ok(())), Err(Error::InvalidAccount));
    assert_eq!(m.withdraw(Origin::Signed(bob()), 30, 0, 7, Ok(())), Err(Error::NoActiveGrant));
    assert_eq!(m.withdraw(Origin::Signed(bob()), 30, 4, 1, Ok(())), Err(Error::NoActiveRound));
    assert_eq!(m.withdraw(Origin::Signed(bob()), 1031, 0, 1, Ok(())), Err(Error::WithdrawalPeriodExceed));
    let (from_pot, from_project) = m.withdrawal_payments(Origin::Signed(bob()), 40, 0, 1).unwrap();
    assert_eq!((from_pot.from, from_pot.to, from_pot.amount), (m.account_id(), bob(), 1000));
    assert_eq!(
        (from_project.from, from_project.to, from_project.amount),
        (m.project_account_id(1), bob(), 121)
    );
    assert_eq!(
        m.withdraw(Origin::Signed(bob()), 40, 0, 1, Err(CurrencyError::InsufficientBalance)),
        Err(Error::Currency(CurrencyError::InsufficientBalance))
    );
    assert!(!m.grant_round(0).unwrap().grants[1].is_withdrawn);
    assert_eq!(m.withdraw(Origin::Signed(bob()), 40, 0, 1, Ok(())), Ok(Event::GrantWithdrawn(0, 1, 1000, 121)));
    let grant = &m.grant_round(0).unwrap().grants[1];
    assert!(grant.is_withdrawn);
    assert_eq!(grant.withdrawal_period, 1040);
    assert_eq!(m.withdraw(Origin::Signed(bob()), 40, 0, 1, Ok(())), Err(Error::GrantWithdrawn));
}

#[test]
fn approve_does_not_wait_for_finalization() {
    let mut m = with_round();
    assert_eq!(m.approve(Origin::Root, 21, 0, 0), Ok(Event::GrantAllowedWithdraw(0, 0)));
    assert_eq!(m.cancel(Origin::Root, 0, 0), Err(Error::GrantApproved));
    assert_eq!(m.withdraw(Origin::Signed(alice()), 21, 0, 0, Ok(())), Ok(Event::GrantWithdrawn(0, 0, 0, 0)));
}

#[test]
fn approve_overflow_of_the_withdrawal_period() {
    let mut m = with_round();
    assert_eq!(m.set_withdrawal_period(Origin::Root, u32::MAX), Ok(()));
    assert!(!m.approve_fits(Origin::Root, 21, 0, 0));
    assert!(m.approve_fits(Origin::Root, 20, 0, 0));
}

#[test]
fn cancel_grant_checks() {
    let mut m = with_round();
    assert_eq!(m.cancel(Origin::Signed(alice()), 0, 0), Err(Error::BadOrigin));
    assert_eq!(m.cancel(Origin::Root, 1, 0), Err(Error::NoActiveRound));
    assert_eq!(m.cancel(Origin::Root, 0, 5), Err(Error::NoActiveGrant));
    assert_eq!(m.cancel(Origin::Root, 0, 0), Ok(Event::GrantCanceled(0, 0)));
    assert_eq!(m.cancel(Origin::Root, 0, 0), Err(Error::GrantCanceled));
    assert_eq!(m.cancel_round(Origin::Root, 5, 0), Ok(Event::RoundCanceled(0)));
    assert_eq!(m.cancel(Origin::Root, 0, 1), Err(Error::RoundCanceled));
    assert_eq!(m.finalize_round(Origin::Root, 25, 0), Err(Error::RoundCanceled));
    assert_eq!(m.approve(Origin::Root, 25, 0, 1), Err(Error::RoundCanceled));
}

#[test]
fn settings_refuse_zero() {
    let mut m = module();
    assert_eq!(m.set_max_round_grants(Origin::Unsigned, 0), Err(Error::InvalidParam));
    assert_eq!(m.set_max_round_grants(Origin::Unsigned, 3), Ok(()));
    assert_eq!(m.max_round_grants(), 3);
    assert_eq!(m.set_withdrawal_period(Origin::Signed(alice()), 0), Err(Error::InvalidParam));
    assert_eq!(m.withdrawal_period(), 1000);
    assert_eq!(m.set_withdrawal_period(Origin::Signed(alice()), 7), Ok(()));
    assert_eq!(m.withdrawal_period(), 7);
    assert_eq!(m.set_is_identity_needed(Origin::Root, true), Ok(()));
    assert!(m.is_identity_needed());
}

#[test]
fn funds_accounted_for_across_calls() {
    let mut m = with_round();
    let reserved = |m: &Module| -> u128 {
        (0..m.grant_round_count())
            .map(|i| m.grant_round(i).unwrap())
            .filter(|r| !r.is_canceled)
            .map(|r| r.matching_fund)
            .sum()
    };
    assert_eq!(m.unused_fund() + reserved(&m), 1000);
    fund(&mut m, alice(), 300);
    assert_eq!(m.unused_fund() + reserved(&m), 1300);
    m.schedule_round(Origin::Root, 1, 30, 40, 200, vec![0]).unwrap();
    assert_eq!(m.unused_fund() + reserved(&m), 1300);
    m.cancel_round(Origin::Root, 1, 1).unwrap();
    assert_eq!(m.unused_fund() + reserved(&m), 1300);
    assert_eq!(m.unused_fund(), 300);
}

#[test]
fn withdrawal_only_once_at_later_blocks() {
    let mut m = with_round();
    contribute(&mut m, carol(), 15, 0, 1).unwrap();
    m.finalize_round(Origin::Root, 25, 0).unwrap();
    m.approve(Origin::Root, 25, 0, 0).unwrap();
    assert!(m.withdraw(Origin::Signed(alice()), 26, 0, 0, Ok(())).is_ok());
    for now in [26, 27, 1026, 1027, u32::MAX] {
        assert!(m.withdraw(Origin::Signed(alice()), now, 0, 0, Ok(())).is_err());
    }
}

#[test]
fn finalized_round_allots_less_than_one_unit_per_grant_below_the_pool() {
    let mut m = module();
    for owner in [alice(), bob(), carol()] {
        create(&mut m, owner);
    }
    fund(&mut m, carol(), 1000);
    m.schedule_round(Origin::Root, 1, 10, 20, 1000, vec![0, 1, 2]).unwrap();
    contribute(&mut m, carol(), 15, 0, 2).unwrap();
    contribute(&mut m, carol(), 15, 1, 5).unwrap();
    contribute(&mut m, carol(), 15, 2, 10).unwrap();
    m.finalize_round(Origin::Root, 21, 0).unwrap();
    let round = m.grant_round(0).unwrap();
    let shares: Vec<u128> = round.grants.iter().map(|g| g.matching_fund).collect();
    // weights 1, 4 and 9 of 14
    assert_eq!(shares, vec![71, 285, 642]);
    let allotted: u128 = shares.iter().sum();
    assert!(allotted <= 1000 && allotted + 3 > 1000);
}

#[test]
fn a_finalized_round_cannot_be_canceled_later() {
    let mut m = with_round();
    contribute(&mut m, carol(), 15, 0, 1).unwrap();
    m.finalize_round(Origin::Root, 21, 0).unwrap();
    assert_eq!(m.cancel_round(Origin::Root, 22, 0), Err(Error::RoundStarted));
    assert_eq!(m.cancel(Origin::Root, 0, 1), Err(Error::RoundFinalized));
    let round = m.grant_round(0).unwrap();
    assert!(round.is_finalized && !round.is_canceled);
    // unapproved grants are not withdrawn; the grant with no weight holds no fund
    assert!(round.grants.iter().all(|g| !g.is_withdrawn));
    assert_eq!(round.grants[1].matching_fund, 0);
}

#[test]
fn a_canceled_grant_never_changes() {
    let mut m = with_round();
    contribute(&mut m, carol(), 15, 1, 9).unwrap();
    m.cancel(Origin::Root, 0, 1).unwrap();
    let before = (m.grant_round(0).unwrap().grants[1].contributions.len(), m.grant_round(0).unwrap().grants[1].matching_fund);
    assert_eq!(contribute(&mut m, alice(), 16, 1, 4), Err(Error::GrantCanceled));
    contribute(&mut m, alice(), 16, 0, 4).unwrap();
    m.finalize_round(Origin::Root, 21, 0).unwrap();
    assert_eq!(m.approve(Origin::Root, 22, 0, 1), Err(Error::GrantCanceled));
    assert_eq!(m.withdraw(Origin::Signed(bob()), 22, 0, 1, Ok(())), Err(Error::WithdrawalPeriodExceed));
    let grant = &m.grant_round(0).unwrap().grants[1];
    assert!(grant.is_canceled && !grant.is_approved && !grant.is_withdrawn);
    assert_eq!((grant.contributions.len(), grant.matching_fund), before);
    assert_eq!(grant.matching_fund, 0);
}

#[test]
fn paid_out_once_whatever_comes_between() {
    let mut m = with_round();
    contribute(&mut m, carol(), 15, 0, 4).unwrap();
    contribute(&mut m, carol(), 15, 1, 9).unwrap();
    m.finalize_round(Origin::Root, 21, 0).unwrap();
    m.approve(Origin::Root, 22, 0, 0).unwrap();
    m.withdraw(Origin::Signed(alice()), 23, 0, 0, Ok(())).unwrap();
    // calls in between: another approval, a new round, a donation, a setting
    m.approve(Origin::Root, 24, 0, 0).unwrap();
    m.approve(Origin::Root, 24, 0, 1).unwrap();
    fund(&mut m, carol(), 10);
    m.schedule_round(Origin::Root, 25, 30, 40, 10, vec![0]).unwrap();
    m.set_withdrawal_period(Origin::Root, 5000).unwrap();
    assert!(m.grant_round(0).unwrap().grants[0].is_withdrawn);
    assert_eq!(m.withdraw(Origin::Signed(alice()), 26, 0, 0, Ok(())), Err(Error::GrantWithdrawn));
    assert!(m.withdraw(Origin::Signed(bob()), 26, 0, 1, Ok(())).is_ok());
    assert_eq!(m.withdraw(Origin::Signed(bob()), 27, 0, 1, Ok(())), Err(Error::GrantWithdrawn));
}
