//! What holds of the pallet across calls: what every call keeps, what one
//! call rules out for the next, and how the funds are accounted for.
use vstd::prelude::*;

use crate::model::{
    CurrencyError, Error, Judgement, ModuleView, Origin, contribution_position, contribution_total,
    finalized_round, grant_position, is_processing, is_valid_round, last_valid_round, of_account,
    of_project, processing_at, processing_round, signer, with_grant,
};
use crate::quadratic::{
    clr, lemma_clr_le_total, lemma_shares_near_pool, lemma_shares_within_pool, share, sharing_fits,
    sum_balances, total_clr,
};
use crate::search::{
    is_first, lemma_first_exists, lemma_first_index_is, lemma_first_index_some,
    lemma_first_index_same, lemma_first_index_update, lemma_last_exists, lemma_last_index_some,
};
use crate::types::{
    Balance, BlockNumber, Contribution, GrantRoundIndex, GrantView, ProjectIndex, RoundView,
    fresh_grant,
};

verus! {

/// A call of the pallet with its arguments, and for calls that move funds,
/// what became of the movements.
pub enum Call {
    CreateProject {
        origin: Origin,
        identity: Option<Seq<Judgement>>,
        name: Seq<u8>,
        logo: Seq<u8>,
        description: Seq<u8>,
        website: Seq<u8>,
    },
    Fund { origin: Origin, amount: Balance, paid: Result<(), CurrencyError> },
    ScheduleRound {
        origin: Origin,
        now: BlockNumber,
        start: BlockNumber,
        end: BlockNumber,
        matching_fund: Balance,
        project_indexes: Seq<ProjectIndex>,
    },
    CancelRound { origin: Origin, now: BlockNumber, round_index: GrantRoundIndex },
    FinalizeRound { origin: Origin, now: BlockNumber, round_index: GrantRoundIndex },
    Contribute {
        origin: Origin,
        now: BlockNumber,
        project_index: ProjectIndex,
        value: Balance,
        paid: Result<(), CurrencyError>,
    },
    Approve {
        origin: Origin,
        now: BlockNumber,
        round_index: GrantRoundIndex,
        project_index: ProjectIndex,
    },
    Withdraw {
        origin: Origin,
        now: BlockNumber,
        round_index: GrantRoundIndex,
        project_index: ProjectIndex,
        paid: Result<(), CurrencyError>,
    },
    Cancel { origin: Origin, round_index: GrantRoundIndex, project_index: ProjectIndex },
    SetMaxRoundGrants { max_round_grants: u32 },
    SetWithdrawalPeriod { withdrawal_period: BlockNumber },
    SetIsIdentityNeeded { is_identity_needed: bool },
}

/// The state after a call, or why it failed.
pub open spec fn step(s: ModuleView, call: Call) -> Result<ModuleView, Error> {
    match call {
        Call::CreateProject { origin, identity, name, logo, description, website } => match s.create_project(
            origin,
            identity,
            name,
            logo,
            description,
            website,
        ) {
            Ok((t, _)) => Ok(t),
            Err(e) => Err(e),
        },
        Call::Fund { origin, amount, paid } => match s.fund(origin, amount, paid) {
            Ok((t, _)) => Ok(t),
            Err(e) => Err(e),
        },
        Call::ScheduleRound { origin, now, start, end, matching_fund, project_indexes } => match s.schedule_round(
            origin,
            now,
            start,
            end,
            matching_fund,
            project_indexes,
        ) {
            Ok((t, _)) => Ok(t),
            Err(e) => Err(e),
        },
        Call::CancelRound { origin, now, round_index } => match s.cancel_round(origin, now, round_index) {
            Ok((t, _)) => Ok(t),
            Err(e) => Err(e),
        },
        Call::FinalizeRound { origin, now, round_index } => s.finalize_round(origin, now, round_index),
        Call::Contribute { origin, now, project_index, value, paid } => match s.contribute(
            origin,
            now,
            project_index,
            value,
            paid,
        ) {
            Ok((t, _)) => Ok(t),
            Err(e) => Err(e),
        },
        Call::Approve { origin, now, round_index, project_index } => match s.approve(
            origin,
            now,
            round_index,
            project_index,
        ) {
            Ok((t, _)) => Ok(t),
            Err(e) => Err(e),
        },
        Call::Withdraw { origin, now, round_index, project_index, paid } => match s.withdraw(
            origin,
            now,
            round_index,
            project_index,
            paid,
        ) {
            Ok((t, _)) => Ok(t),
            Err(e) => Err(e),
        },
        Call::Cancel { origin, round_index, project_index } => match s.cancel(
            origin,
            round_index,
            project_index,
        ) {
            Ok((t, _)) => Ok(t),
            Err(e) => Err(e),
        },
        Call::SetMaxRoundGrants { max_round_grants } => s.set_max_round_grants(max_round_grants),
        Call::SetWithdrawalPeriod { withdrawal_period } => s.set_withdrawal_period(withdrawal_period),
        Call::SetIsIdentityNeeded { is_identity_needed } => Ok(
            s.set_is_identity_needed(is_identity_needed),
        ),
    }
}

/// Whether the call stays within the machine's integers, as the `requires`
/// of the call's function in [`crate::pallet::Module`] demands.
pub open spec fn fits(s: ModuleView, call: Call) -> bool {
    match call {
        Call::Fund { origin, amount, paid } => s.fund_fits(origin, amount, paid),
        Call::CancelRound { origin, now, round_index } => s.cancel_round_fits(origin, now, round_index),
        Call::FinalizeRound { origin, now, round_index } => s.finalize_round_fits(
            origin,
            now,
            round_index,
        ),
        Call::Contribute { origin, now, project_index, value, .. } => s.contribute_fits(
            origin,
            now,
            project_index,
            value,
        ),
        Call::Approve { origin, now, round_index, project_index } => s.approve_fits(
            origin,
            now,
            round_index,
            project_index,
        ),
        Call::Withdraw { origin, now, round_index, project_index, paid } => s.withdraw_fits(
            origin,
            now,
            round_index,
            project_index,
            paid,
        ),
        _ => true,
    }
}

// ---------------------------------------------------------------------------
// The rounds and grants stay consistent.

/// The block that a call runs at, for the calls that take one.
pub open spec fn call_block(call: Call) -> Option<BlockNumber> {
    match call {
        Call::ScheduleRound { now, .. } => Some(now),
        Call::CancelRound { now, .. } => Some(now),
        Call::FinalizeRound { now, .. } => Some(now),
        Call::Contribute { now, .. } => Some(now),
        Call::Approve { now, .. } => Some(now),
        Call::Withdraw { now, .. } => Some(now),
        _ => None,
    }
}

/// The latest block after `call`, when `b` was the latest before it.
pub open spec fn block_after(b: BlockNumber, call: Call) -> BlockNumber {
    match call_block(call) {
        Some(now) => now,
        None => b,
    }
}

/// Whether the call runs no earlier than block `b`: block numbers never
/// decrease.
pub open spec fn block_in_order(b: BlockNumber, call: Call) -> bool {
    call_block(call) matches Some(now) ==> b <= now
}

/// A grant of a round (finalized or not) is consistent: a canceled grant is
/// not approved, a withdrawn grant is approved, and a grant that is canceled,
/// or of a round not yet finalized, holds no matching fund.
pub open spec fn grant_consistent(finalized: bool, grant: GrantView) -> bool {
    &&& grant.is_canceled ==> !grant.is_approved
    &&& grant.is_withdrawn ==> grant.is_approved
    &&& (grant.is_canceled || !finalized) ==> grant.matching_fund == 0
}

/// A round is consistent when the latest block is `b`: it ends after it
/// starts; if finalized, it ended before `b` and is not canceled, and its
/// grants that are not canceled have been allotted at most its pool, and, where
/// there are such grants, less than one unit per grant below it; and each of
/// its grants is consistent.
pub open spec fn round_consistent(round: RoundView, b: BlockNumber) -> bool {
    &&& round.start < round.end
    &&& round.is_finalized ==> round.end < b
    &&& !(round.is_canceled && round.is_finalized)
    &&& forall|g: int|
        0 <= g < round.grants.len() ==> grant_consistent(round.is_finalized, #[trigger] round.grants[g])
    &&& round.is_finalized ==> allotted(round.grants) <= round.matching_fund
    &&& (round.is_finalized && exists|g: int|
        0 <= g < round.grants.len() && !(#[trigger] round.grants[g]).is_canceled) ==> allotted(
        round.grants,
    ) + round.grants.len() > round.matching_fund
}

/// Every round is consistent when the latest block is `b`.
pub open spec fn rounds_consistent(s: ModuleView, b: BlockNumber) -> bool {
    forall|k: int| 0 <= k < s.rounds.len() ==> round_consistent(#[trigger] s.rounds[k], b)
}

/// A pallet with no rounds is consistent at any block.
pub proof fn lemma_consistent_at_genesis(s: ModuleView, b: BlockNumber)
    requires
        s.rounds.len() == 0,
    ensures
        rounds_consistent(s, b),
{
}

proof fn lemma_allotted_update(grants: Seq<GrantView>, g: int, x: GrantView)
    requires
        0 <= g < grants.len(),
        x.is_canceled == grants[g].is_canceled,
        x.matching_fund == grants[g].matching_fund,
    ensures
        allotted(grants.update(g, x)) == allotted(grants),
    decreases grants.len(),
{
    let t = grants.update(g, x);
    if g == grants.len() - 1 {
        assert(t.drop_last() =~= grants.drop_last());
    } else {
        lemma_allotted_update(grants.drop_last(), g, x);
        assert(t.drop_last() =~= grants.drop_last().update(g, x));
    }
}

/// Replacing one grant by a consistent one that, in a finalized round, keeps
/// its cancellation and its matching fund keeps the round consistent, at any
/// later block.
proof fn lemma_round_with_grant(round: RoundView, g: int, x: GrantView, b: BlockNumber, b2: BlockNumber)
    requires
        round_consistent(round, b),
        b <= b2,
        0 <= g < round.grants.len(),
        grant_consistent(round.is_finalized, x),
        round.is_finalized ==> x.is_canceled == round.grants[g].is_canceled && x.matching_fund
            == round.grants[g].matching_fund,
    ensures
        round_consistent(with_grant(round, g, x), b2),
{
    let r2 = with_grant(round, g, x);
    assert forall|i: int| 0 <= i < r2.grants.len() implies grant_consistent(
        r2.is_finalized,
        #[trigger] r2.grants[i],
    ) by {
        if i != g {
            assert(r2.grants[i] == round.grants[i]);
        }
    }
    if round.is_finalized {
        lemma_allotted_update(round.grants, g, x);
        if exists|i: int| 0 <= i < r2.grants.len() && !(#[trigger] r2.grants[i]).is_canceled {
            let i = choose|i: int| 0 <= i < r2.grants.len() && !(#[trigger] r2.grants[i]).is_canceled;
            if i == g {
                assert(!round.grants[g].is_canceled);
            } else {
                assert(!round.grants[i].is_canceled);
            }
        }
    }
}

/// Replacing one round by a consistent one keeps the state consistent, at any
/// later block.
proof fn lemma_with_consistent_round(s: ModuleView, t: ModuleView, k: int, b: BlockNumber, b2: BlockNumber)
    requires
        rounds_consistent(s, b),
        b <= b2,
        0 <= k < s.rounds.len(),
        t.rounds == s.rounds.update(k, t.rounds[k]),
        round_consistent(t.rounds[k], b2),
    ensures
        rounds_consistent(t, b2),
{
    assert forall|i: int| 0 <= i < t.rounds.len() implies round_consistent(#[trigger] t.rounds[i], b2) by {
        if i != k {
            assert(t.rounds[i] == s.rounds[i]);
            assert(round_consistent(s.rounds[i], b));
        }
    }
}

/// Finalizing a round allots at most its pool, and, where a grant of the round
/// is not canceled, less than one unit per grant below it.
proof fn lemma_finalized_allotment(round: RoundView)
    ensures
        allotted(finalized_round(round).grants) <= round.matching_fund,
        total_clr(round.grants) > 0 ==> allotted(finalized_round(round).grants) + round.grants.len()
            > round.matching_fund,
{
    let pool = round.matching_fund as nat;
    let total = total_clr(round.grants);
    let grants2 = finalized_round(round).grants;
    lemma_clr_le_total(round.grants);
    let shares = Seq::new(
        round.grants.len(),
        |i: int| share(pool, clr(round.grants[i]), total) as u128,
    );
    assert forall|i: int| 0 <= i < round.grants.len() implies #[trigger] shares[i] == share(
        pool,
        clr(round.grants[i]),
        total,
    ) by {
        lemma_share_within_pool(pool, clr(round.grants[i]), total);
    }
    lemma_shares_within_pool(pool, round.grants, shares);
    assert forall|i: int| 0 <= i < grants2.len() implies #[trigger] shares[i] == if grants2[i].is_canceled {
        0
    } else {
        grants2[i].matching_fund
    } by {
        if round.grants[i].is_canceled {
            assert(clr(round.grants[i]) == 0);
            if total > 0 {
                assert(pool * 0 == 0);
            }
        }
    }
    lemma_allotted_is_sum(grants2, shares);
    if total > 0 {
        lemma_shares_near_pool(pool, round.grants, shares);
    }
}

/// Every call keeps the rounds consistent (see [`round_consistent`]), given
/// that block numbers never decrease and that the call stays within the
/// machine's integers. So a round is never both canceled and finalized; a
/// grant is withdrawn only if approved and never both canceled and approved; a
/// canceled grant, and every grant of a round not yet finalized, holds no
/// matching fund; and a finalized round allots at most its pool, and less than
/// one unit per grant below it where some grant is not canceled.
pub proof fn lemma_rounds_stay_consistent(s: ModuleView, call: Call, b: BlockNumber)
    requires
        rounds_consistent(s, b),
        step(s, call) is Ok,
        fits(s, call),
        block_in_order(b, call),
    ensures
        rounds_consistent(step(s, call)->Ok_0, block_after(b, call)),
{
    let t = step(s, call)->Ok_0;
    let b2 = block_after(b, call);
    match call {
        Call::ScheduleRound { project_indexes, .. } => {
            let n = s.rounds.len() as int;
            assert forall|k: int| 0 <= k < t.rounds.len() implies round_consistent(
                #[trigger] t.rounds[k],
                b2,
            ) by {
                if k < n {
                    assert(t.rounds[k] == s.rounds[k]);
                    assert(round_consistent(s.rounds[k], b));
                } else {
                    let r = t.rounds[k];
                    assert forall|g: int| 0 <= g < r.grants.len() implies grant_consistent(
                        r.is_finalized,
                        #[trigger] r.grants[g],
                    ) by {
                        assert(r.grants[g] == fresh_grant(project_indexes[g]));
                    }
                }
            }
        },
        Call::CancelRound { now, round_index, .. } => {
            let k = round_index as int;
            let r = s.rounds[k];
            assert(round_consistent(r, b));
            let r2 = t.rounds[k];
            assert forall|g: int| 0 <= g < r2.grants.len() implies grant_consistent(
                r2.is_finalized,
                #[trigger] r2.grants[g],
            ) by {
                assert(r2.grants[g] == r.grants[g]);
                assert(grant_consistent(r.is_finalized, r.grants[g]));
            }
            assert(t.rounds =~= s.rounds.update(k, r2));
            lemma_with_consistent_round(s, t, k, b, b2);
        },
        Call::FinalizeRound { origin, now, round_index } => {
            let k = round_index as int;
            let r = s.rounds[k];
            assert(round_consistent(r, b));
            let r2 = t.rounds[k];
            assert(r2 == finalized_round(r));
            lemma_finalized_allotment(r);
            assert forall|g: int| 0 <= g < r2.grants.len() implies grant_consistent(
                r2.is_finalized,
                #[trigger] r2.grants[g],
            ) by {
                assert(grant_consistent(r.is_finalized, r.grants[g]));
            }
            if exists|g: int| 0 <= g < r2.grants.len() && !(#[trigger] r2.grants[g]).is_canceled {
                let g = choose|g: int| 0 <= g < r2.grants.len() && !(#[trigger] r2.grants[g]).is_canceled;
                assert(!r.grants[g].is_canceled);
                assert(sharing_fits(r.matching_fund as nat, r.grants));
            }
            assert(t.rounds =~= s.rounds.update(k, r2));
            lemma_with_consistent_round(s, t, k, b, b2);
        },
        Call::Contribute { origin, now, project_index, .. } => {
            let (k, g) = s.contribution_target(origin, now, project_index)->Ok_0;
            let r = s.rounds[k];
            assert(round_consistent(r, b));
            assert(grant_consistent(r.is_finalized, r.grants[g]));
            lemma_round_with_grant(r, g, t.rounds[k].grants[g], b, b2);
            assert(t.rounds =~= s.rounds.update(k, t.rounds[k]));
            lemma_with_consistent_round(s, t, k, b, b2);
        },
        Call::Approve { round_index, project_index, .. } => {
            let k = round_index as int;
            let r = s.rounds[k];
            let g = grant_position(r.grants, project_index)->0;
            lemma_first_index_some(r.grants, of_project(project_index));
            assert(round_consistent(r, b));
            assert(grant_consistent(r.is_finalized, r.grants[g]));
            lemma_round_with_grant(r, g, t.rounds[k].grants[g], b, b2);
            assert(t.rounds =~= s.rounds.update(k, t.rounds[k]));
            lemma_with_consistent_round(s, t, k, b, b2);
        },
        Call::Withdraw { origin, now, round_index, project_index, .. } => {
            let k = round_index as int;
            let r = s.rounds[k];
            let g = s.withdrawal_target(origin, now, round_index, project_index)->Ok_0;
            lemma_first_index_some(r.grants, of_project(project_index));
            assert(round_consistent(r, b));
            assert(grant_consistent(r.is_finalized, r.grants[g]));
            lemma_round_with_grant(r, g, t.rounds[k].grants[g], b, b2);
            assert(t.rounds =~= s.rounds.update(k, t.rounds[k]));
            lemma_with_consistent_round(s, t, k, b, b2);
        },
        Call::Cancel { round_index, project_index, .. } => {
            let k = round_index as int;
            let r = s.rounds[k];
            let g = grant_position(r.grants, project_index)->0;
            lemma_first_index_some(r.grants, of_project(project_index));
            assert(round_consistent(r, b));
            assert(grant_consistent(r.is_finalized, r.grants[g]));
            lemma_round_with_grant(r, g, t.rounds[k].grants[g], b, b2);
            assert(t.rounds =~= s.rounds.update(k, t.rounds[k]));
            lemma_with_consistent_round(s, t, k, b, b2);
        },
        _ => {
            assert(t.rounds == s.rounds);
        },
    }
}

/// The owner of a project cannot withdraw a canceled grant: in a consistent
/// state, a withdrawal from a canceled grant fails.
pub proof fn lemma_canceled_grant_not_withdrawn(
    s: ModuleView,
    b: BlockNumber,
    origin: Origin,
    now: BlockNumber,
    round_index: GrantRoundIndex,
    project_index: ProjectIndex,
    paid: Result<(), CurrencyError>,
)
    requires
        rounds_consistent(s, b),
        round_index < s.rounds.len(),
        grant_position(s.rounds[round_index as int].grants, project_index) matches Some(g) && s.rounds[round_index as int].grants[g].is_canceled,
    ensures
        s.withdraw(origin, now, round_index, project_index, paid) is Err,
{
    let r = s.rounds[round_index as int];
    lemma_first_index_some(r.grants, of_project(project_index));
    let g = grant_position(r.grants, project_index)->0;
    assert(round_consistent(r, b));
    assert(grant_consistent(r.is_finalized, r.grants[g]));
}

/// A canceled grant never changes again: in a consistent state, every call
/// leaves it as it is, with no new contribution, no approval, no withdrawal
/// and no matching fund.
pub proof fn lemma_canceled_grant_unchanged(s: ModuleView, call: Call, b: BlockNumber, k: int, g: int)
    requires
        rounds_consistent(s, b),
        step(s, call) is Ok,
        0 <= k < s.rounds.len(),
        0 <= g < s.rounds[k].grants.len(),
        s.rounds[k].grants[g].is_canceled,
    ensures
        k < (step(s, call)->Ok_0).rounds.len(),
        (step(s, call)->Ok_0).rounds[k].grants.len() == s.rounds[k].grants.len(),
        (step(s, call)->Ok_0).rounds[k].grants[g] == s.rounds[k].grants[g],
{
    let t = step(s, call)->Ok_0;
    assert(round_consistent(s.rounds[k], b));
    assert(grant_consistent(s.rounds[k].is_finalized, s.rounds[k].grants[g]));
    match call {
        Call::ScheduleRound { .. } => {
            assert(t.rounds[k] == s.rounds[k]);
        },
        Call::Contribute { origin, now, project_index, .. } => {
            let (k0, g0) = s.contribution_target(origin, now, project_index)->Ok_0;
            if k0 == k {
                assert(g0 != g);
            }
        },
        Call::Approve { round_index, project_index, .. } => {
            let r = s.rounds[round_index as int];
            lemma_first_index_some(r.grants, of_project(project_index));
        },
        Call::Withdraw { origin, now, round_index, project_index, .. } => {
            let r = s.rounds[round_index as int];
            lemma_first_index_some(r.grants, of_project(project_index));
        },
        Call::Cancel { round_index, project_index, .. } => {
            let r = s.rounds[round_index as int];
            lemma_first_index_some(r.grants, of_project(project_index));
        },
        _ => {},
    }
}

// ---------------------------------------------------------------------------
// The funds are accounted for.

/// What a round sets aside from the pot: its pool, unless it is canceled.
pub open spec fn set_aside(round: RoundView) -> nat {
    if round.is_canceled {
        0
    } else {
        round.matching_fund as nat
    }
}

/// What all rounds set aside from the pot.
pub open spec fn reserved(rounds: Seq<RoundView>) -> nat
    decreases rounds.len(),
{
    if rounds.len() == 0 {
        0
    } else {
        reserved(rounds.drop_last()) + set_aside(rounds.last())
    }
}

/// All the donations the pot has taken in: what no round has set aside, and
/// what the rounds set aside.
pub open spec fn committed_fund(s: ModuleView) -> nat {
    s.unused_fund as nat + reserved(s.rounds)
}

proof fn lemma_reserved_update(rounds: Seq<RoundView>, k: int, round: RoundView)
    requires
        0 <= k < rounds.len(),
    ensures
        reserved(rounds.update(k, round)) + set_aside(rounds[k]) == reserved(rounds) + set_aside(
            round,
        ),
    decreases rounds.len(),
{
    let t = rounds.update(k, round);
    if k == rounds.len() - 1 {
        assert(t.drop_last() =~= rounds.drop_last());
    } else {
        lemma_reserved_update(rounds.drop_last(), k, round);
        assert(t.drop_last() =~= rounds.drop_last().update(k, round));
    }
}

proof fn lemma_reserved_push(rounds: Seq<RoundView>, round: RoundView)
    ensures
        reserved(rounds.push(round)) == reserved(rounds) + set_aside(round),
{
    assert(rounds.push(round).drop_last() =~= rounds);
}

/// Only donations change the funds the pot has taken in: a donation adds its
/// amount, and every other call that succeeds moves funds between the unused
/// fund and the rounds' pools without changing their sum.
pub proof fn lemma_funds_accounted_for(s: ModuleView, call: Call)
    requires
        step(s, call) is Ok,
        fits(s, call),
    ensures
        committed_fund(step(s, call)->Ok_0) == committed_fund(s) + match call {
            Call::Fund { amount, .. } => amount as nat,
            _ => 0,
        },
{
    let t = step(s, call)->Ok_0;
    match call {
        Call::ScheduleRound { origin, now, start, end, matching_fund, project_indexes } => {
            let round = t.rounds.last();
            assert(t.rounds =~= s.rounds.push(round));
            lemma_reserved_push(s.rounds, round);
        },
        Call::CancelRound { round_index, .. } => {
            let k = round_index as int;
            lemma_reserved_update(s.rounds, k, t.rounds[k]);
        },
        Call::FinalizeRound { round_index, .. } => {
            let k = round_index as int;
            lemma_reserved_update(s.rounds, k, t.rounds[k]);
        },
        Call::Contribute { origin, now, project_index, .. } => {
            let k = s.contribution_target(origin, now, project_index)->Ok_0.0;
            lemma_reserved_update(s.rounds, k, t.rounds[k]);
        },
        Call::Approve { round_index, .. } => {
            let k = round_index as int;
            lemma_reserved_update(s.rounds, k, t.rounds[k]);
        },
        Call::Withdraw { round_index, .. } => {
            let k = round_index as int;
            lemma_reserved_update(s.rounds, k, t.rounds[k]);
        },
        Call::Cancel { round_index, .. } => {
            let k = round_index as int;
            lemma_reserved_update(s.rounds, k, t.rounds[k]);
        },
        _ => {},
    }
}

// ---------------------------------------------------------------------------
// The rounds that are not canceled follow one another.

/// Every round ends after it starts, and of two rounds that are not canceled
/// the earlier one ends before the later one starts.
pub open spec fn rounds_in_sequence(s: ModuleView) -> bool {
    &&& forall|k: int| 0 <= k < s.rounds.len() ==> (#[trigger] s.rounds[k]).start < s.rounds[k].end
    &&& forall|i: int, j: int|
        0 <= i < j < s.rounds.len() && !(#[trigger] s.rounds[i]).is_canceled
            && !(#[trigger] s.rounds[j]).is_canceled ==> s.rounds[i].end < s.rounds[j].start
}

/// Every call keeps the rounds that are not canceled in sequence, without
/// overlap: a round is scheduled only after the end of the last round that is
/// not canceled.
pub proof fn lemma_rounds_stay_in_sequence(s: ModuleView, call: Call)
    requires
        rounds_in_sequence(s),
        step(s, call) is Ok,
    ensures
        rounds_in_sequence(step(s, call)->Ok_0),
{
    let t = step(s, call)->Ok_0;
    match call {
        Call::ScheduleRound { start, end, .. } => {
            let n = s.rounds.len() as int;
            assert forall|k: int| 0 <= k < t.rounds.len() implies (#[trigger] t.rounds[k]).start
                < t.rounds[k].end by {
                if k < n {
                    assert(t.rounds[k] == s.rounds[k]);
                }
            }
            assert forall|i: int, j: int|
                0 <= i < j < t.rounds.len() && !(#[trigger] t.rounds[i]).is_canceled
                    && !(#[trigger] t.rounds[j]).is_canceled implies t.rounds[i].end
                < t.rounds[j].start by {
                assert(t.rounds[i] == s.rounds[i]);
                if j < n {
                    assert(t.rounds[j] == s.rounds[j]);
                } else {
                    // i is a round that is not canceled, so there is a last one, ending before `start`.
                    match last_valid_round(s.rounds) {
                        Some(l) => {
                            lemma_last_index_some(s.rounds, is_valid_round());
                            if i < l {
                                assert(s.rounds[i].end < s.rounds[l].start);
                            } else if i > l {
                                assert(!is_valid_round()(s.rounds[i]));
                            }
                        },
                        None => {
                            assert(is_valid_round()(s.rounds[i]));
                            lemma_last_exists(s.rounds, is_valid_round(), i);
                        },
                    }
                }
            }
        },
        Call::CancelRound { round_index, .. } => {
            let r = round_index as int;
            assert forall|k: int| 0 <= k < t.rounds.len() implies (#[trigger] t.rounds[k]).start
                < t.rounds[k].end by {
                assert(t.rounds[k].start == s.rounds[k].start && t.rounds[k].end == s.rounds[k].end);
            }
            assert forall|i: int, j: int|
                0 <= i < j < t.rounds.len() && !(#[trigger] t.rounds[i]).is_canceled
                    && !(#[trigger] t.rounds[j]).is_canceled implies t.rounds[i].end
                < t.rounds[j].start by {
                assert(t.rounds[i] == s.rounds[i]);
                assert(t.rounds[j] == s.rounds[j]);
            }
        },
        Call::SetMaxRoundGrants { .. } => {},
        Call::SetWithdrawalPeriod { .. } => {},
        Call::SetIsIdentityNeeded { .. } => {},
        Call::CreateProject { .. } => {},
        Call::Fund { .. } => {},
        _ => {
            let r: int = match call {
                Call::FinalizeRound { round_index, .. } => round_index as int,
                Call::Approve { round_index, .. } => round_index as int,
                Call::Withdraw { round_index, .. } => round_index as int,
                Call::Cancel { round_index, .. } => round_index as int,
                Call::Contribute { origin, now, project_index, .. } => s.contribution_target(
                    origin,
                    now,
                    project_index,
                )->Ok_0.0,
                _ => 0,
            };
            assert(t.rounds.len() == s.rounds.len());
            assert(t.rounds =~= s.rounds.update(r, t.rounds[r]));
            assert(t.rounds[r].start == s.rounds[r].start);
            assert(t.rounds[r].end == s.rounds[r].end);
            assert(t.rounds[r].is_canceled == s.rounds[r].is_canceled);
            assert forall|k: int| 0 <= k < t.rounds.len() implies (#[trigger] t.rounds[k]).start
                < t.rounds[k].end by {
                if k != r {
                    assert(t.rounds[k] == s.rounds[k]);
                }
            }
            assert forall|i: int, j: int|
                0 <= i < j < t.rounds.len() && !(#[trigger] t.rounds[i]).is_canceled
                    && !(#[trigger] t.rounds[j]).is_canceled implies t.rounds[i].end
                < t.rounds[j].start by {
                assert(!s.rounds[i].is_canceled && !s.rounds[j].is_canceled);
                assert(s.rounds[i].end < s.rounds[j].start);
            }
        },
    }
}

/// A pallet with no rounds has its rounds in sequence.
pub proof fn lemma_sequence_at_genesis(s: ModuleView)
    requires
        s.rounds.len() == 0,
    ensures
        rounds_in_sequence(s),
{
}

/// With the rounds in sequence, at most one round takes contributions at any
/// block: the round that a contribution goes to is the only one open.
pub proof fn lemma_one_round_open_at_a_time(s: ModuleView, now: BlockNumber, k: int)
    requires
        rounds_in_sequence(s),
        0 <= k < s.rounds.len(),
        is_processing(s.rounds[k], now),
    ensures
        processing_round(s.rounds, now) == Some(k),
        forall|j: int| 0 <= j < s.rounds.len() && j != k ==> !is_processing(#[trigger] s.rounds[j], now),
{
    assert forall|i: int| 0 <= i < k implies !processing_at(now)(#[trigger] s.rounds[i]) by {
        if is_processing(s.rounds[i], now) {
            assert(s.rounds[i].end < s.rounds[k].start);
        }
    }
    assert(is_first(s.rounds, processing_at(now), k));
    lemma_first_index_is(s.rounds, processing_at(now), k);
    assert forall|j: int| 0 <= j < s.rounds.len() && j != k implies !is_processing(
        #[trigger] s.rounds[j],
        now,
    ) by {
        if is_processing(s.rounds[j], now) {
            if j < k {
                assert(s.rounds[j].end < s.rounds[k].start);
            } else {
                assert(s.rounds[k].end < s.rounds[j].start);
            }
        }
    }
}

// ---------------------------------------------------------------------------
// A grant is paid out at most once.

/// After a withdrawal succeeds, no later withdrawal of the same grant does,
/// whoever asks and at whatever block: the grant is marked withdrawn.
pub proof fn lemma_withdrawn_at_most_once(
    s: ModuleView,
    origin: Origin,
    now: BlockNumber,
    round_index: GrantRoundIndex,
    project_index: ProjectIndex,
    paid: Result<(), CurrencyError>,
    origin2: Origin,
    now2: BlockNumber,
    paid2: Result<(), CurrencyError>,
)
    requires
        s.withdraw(origin, now, round_index, project_index, paid) is Ok,
    ensures
        (s.withdraw(origin, now, round_index, project_index, paid)->Ok_0).0.withdraw(
            origin2,
            now2,
            round_index,
            project_index,
            paid2,
        ) is Err,
{
    let t = (s.withdraw(origin, now, round_index, project_index, paid)->Ok_0).0;
    let k = round_index as int;
    let g = s.withdrawal_target(origin, now, round_index, project_index)->Ok_0;
    let grants = s.rounds[k].grants;
    lemma_first_index_some(grants, of_project(project_index));
    let grant2 = t.rounds[k].grants[g];
    assert(t.rounds[k].grants == grants.update(g, grant2));
    lemma_first_index_update(grants, of_project(project_index), g, grant2);
    assert(grant_position(t.rounds[k].grants, project_index) == Some(g));
}

/// The state after a call: the call's new state, or, where it fails, the
/// state unchanged.
pub open spec fn after(s: ModuleView, call: Call) -> ModuleView {
    match step(s, call) {
        Ok(t) => t,
        Err(_) => s,
    }
}

/// Whether two rounds hold grants of the same projects in the same places,
/// and every grant withdrawn in the first is withdrawn in the second.
pub open spec fn grants_in_place(r: RoundView, r2: RoundView) -> bool {
    &&& r2.grants.len() == r.grants.len()
    &&& forall|g: int|
        0 <= g < r.grants.len() ==> (#[trigger] r2.grants[g]).project_index
            == r.grants[g].project_index && (r.grants[g].is_withdrawn ==> r2.grants[g].is_withdrawn)
}

/// Every call keeps the grants of every round in place, whether it succeeds
/// or fails: a round keeps its number of grants and their projects, so the
/// first grant of a project stays the same grant; and a withdrawn grant stays
/// withdrawn.
pub proof fn lemma_grants_stay_in_place(s: ModuleView, call: Call, k: int, p: ProjectIndex)
    requires
        0 <= k < s.rounds.len(),
    ensures
        k < after(s, call).rounds.len(),
        grants_in_place(s.rounds[k], after(s, call).rounds[k]),
        grant_position(after(s, call).rounds[k].grants, p) == grant_position(s.rounds[k].grants, p),
{
    let t = after(s, call);
    let r = s.rounds[k];
    if step(s, call) is Ok {
        match call {
            Call::ScheduleRound { .. } => {
                assert(t.rounds[k] == r);
            },
            Call::CancelRound { .. } => {
                assert(t.rounds[k].grants == r.grants);
            },
            Call::FinalizeRound { round_index, .. } => {
                if k == round_index {
                    assert(t.rounds[k] == finalized_round(r));
                } else {
                    assert(t.rounds[k] == r);
                }
            },
            Call::Contribute { origin, now, project_index, .. } => {
                let (k0, g0) = s.contribution_target(origin, now, project_index)->Ok_0;
                if k == k0 {
                    assert(t.rounds[k].grants == r.grants.update(g0, t.rounds[k].grants[g0]));
                } else {
                    assert(t.rounds[k] == r);
                }
            },
            Call::Approve { round_index, project_index, .. } => {
                if k == round_index {
                    let g0 = grant_position(r.grants, project_index)->0;
                    lemma_first_index_some(r.grants, of_project(project_index));
                    assert(t.rounds[k].grants == r.grants.update(g0, t.rounds[k].grants[g0]));
                } else {
                    assert(t.rounds[k] == r);
                }
            },
            Call::Withdraw { origin, now, round_index, project_index, .. } => {
                if k == round_index {
                    let g0 = s.withdrawal_target(origin, now, round_index, project_index)->Ok_0;
                    lemma_first_index_some(r.grants, of_project(project_index));
                    assert(t.rounds[k].grants == r.grants.update(g0, t.rounds[k].grants[g0]));
                } else {
                    assert(t.rounds[k] == r);
                }
            },
            Call::Cancel { round_index, project_index, .. } => {
                if k == round_index {
                    let g0 = grant_position(r.grants, project_index)->0;
                    lemma_first_index_some(r.grants, of_project(project_index));
                    assert(t.rounds[k].grants == r.grants.update(g0, t.rounds[k].grants[g0]));
                } else {
                    assert(t.rounds[k] == r);
                }
            },
            _ => {
                assert(t.rounds == s.rounds);
            },
        }
    }
    assert(grants_in_place(r, t.rounds[k]));
    lemma_first_index_same(r.grants, of_project(p), t.rounds[k].grants, of_project(p));
}

/// A grant already withdrawn is not withdrawn again: a withdrawal that finds
/// it fails.
pub proof fn lemma_withdrawn_grant_refuses(
    s: ModuleView,
    origin: Origin,
    now: BlockNumber,
    round_index: GrantRoundIndex,
    project_index: ProjectIndex,
    paid: Result<(), CurrencyError>,
)
    requires
        round_index < s.rounds.len(),
        grant_position(s.rounds[round_index as int].grants, project_index) matches Some(g) && s.rounds[round_index as int].grants[g].is_withdrawn,
    ensures
        s.withdraw(origin, now, round_index, project_index, paid) is Err,
{
    lemma_first_index_some(s.rounds[round_index as int].grants, of_project(project_index));
}

/// The state after a sequence of calls, each applied to the state the one
/// before left.
pub open spec fn run(s: ModuleView, calls: Seq<Call>) -> ModuleView
    decreases calls.len(),
{
    if calls.len() == 0 {
        s
    } else {
        run(after(s, calls[0]), calls.drop_first())
    }
}

/// Whether each call of a sequence stays within the machine's integers in the
/// state it finds, as the calls' preconditions demand.
pub open spec fn run_fits(s: ModuleView, calls: Seq<Call>) -> bool
    decreases calls.len(),
{
    calls.len() == 0 || (fits(s, calls[0]) && run_fits(after(s, calls[0]), calls.drop_first()))
}

/// Whether the calls of a sequence run at blocks that never decrease, the
/// latest block before them being `b`.
pub open spec fn run_in_order(b: BlockNumber, calls: Seq<Call>) -> bool
    decreases calls.len(),
{
    calls.len() == 0 || (block_in_order(b, calls[0]) && run_in_order(
        block_after(b, calls[0]),
        calls.drop_first(),
    ))
}

/// The latest block after a sequence of calls, the latest before them being `b`.
pub open spec fn run_block(b: BlockNumber, calls: Seq<Call>) -> BlockNumber
    decreases calls.len(),
{
    if calls.len() == 0 {
        b
    } else {
        run_block(block_after(b, calls[0]), calls.drop_first())
    }
}

/// A grant is paid out at most once: after a withdrawal succeeds, no later
/// withdrawal of the same grant does, whatever calls come between, whoever
/// asks and at whatever block.
pub proof fn lemma_paid_out_at_most_once(
    s: ModuleView,
    origin: Origin,
    now: BlockNumber,
    round_index: GrantRoundIndex,
    project_index: ProjectIndex,
    paid: Result<(), CurrencyError>,
    calls: Seq<Call>,
    origin2: Origin,
    now2: BlockNumber,
    paid2: Result<(), CurrencyError>,
)
    requires
        s.withdraw(origin, now, round_index, project_index, paid) is Ok,
    ensures
        run((s.withdraw(origin, now, round_index, project_index, paid)->Ok_0).0, calls).withdraw(
            origin2,
            now2,
            round_index,
            project_index,
            paid2,
        ) is Err,
{
    let t = (s.withdraw(origin, now, round_index, project_index, paid)->Ok_0).0;
    let k = round_index as int;
    let g = s.withdrawal_target(origin, now, round_index, project_index)->Ok_0;
    let grants = s.rounds[k].grants;
    lemma_first_index_some(grants, of_project(project_index));
    let grant2 = t.rounds[k].grants[g];
    assert(t.rounds[k].grants == grants.update(g, grant2));
    lemma_first_index_update(grants, of_project(project_index), g, grant2);
    lemma_withdrawn_stays_found(t, calls, k, g, project_index);
    let u = run(t, calls);
    lemma_withdrawn_grant_refuses(u, origin2, now2, round_index, project_index, paid2);
}

/// A grant that is withdrawn and is the first of its project in its round
/// stays both through any sequence of calls.
proof fn lemma_withdrawn_stays_found(s: ModuleView, calls: Seq<Call>, k: int, g: int, p: ProjectIndex)
    requires
        0 <= k < s.rounds.len(),
        grant_position(s.rounds[k].grants, p) == Some(g),
        s.rounds[k].grants[g].is_withdrawn,
    ensures
        k < run(s, calls).rounds.len(),
        grant_position(run(s, calls).rounds[k].grants, p) == Some(g),
        run(s, calls).rounds[k].grants[g].is_withdrawn,
    decreases calls.len(),
{
    if calls.len() > 0 {
        let t = after(s, calls[0]);
        lemma_grants_stay_in_place(s, calls[0], k, p);
        lemma_first_index_some(s.rounds[k].grants, of_project(p));
        assert(t.rounds[k].grants[g].is_withdrawn);
        lemma_withdrawn_stays_found(t, calls.drop_first(), k, g, p);
    }
}

/// A consistent round stays consistent as the latest block moves on.
proof fn lemma_consistent_later(s: ModuleView, b: BlockNumber, b2: BlockNumber)
    requires
        rounds_consistent(s, b),
        b <= b2,
    ensures
        rounds_consistent(s, b2),
{
    assert forall|k: int| 0 <= k < s.rounds.len() implies round_consistent(#[trigger] s.rounds[k], b2) by {
        assert(round_consistent(s.rounds[k], b));
    }
}

/// The rounds stay consistent through any sequence of calls whose blocks never
/// decrease and which stay within the machine's integers: from genesis (see
/// [`lemma_consistent_at_genesis`]), every reachable state is consistent.
pub proof fn lemma_run_consistent(s: ModuleView, calls: Seq<Call>, b: BlockNumber)
    requires
        rounds_consistent(s, b),
        run_fits(s, calls),
        run_in_order(b, calls),
    ensures
        rounds_consistent(run(s, calls), run_block(b, calls)),
    decreases calls.len(),
{
    if calls.len() > 0 {
        let call = calls[0];
        let b2 = block_after(b, call);
        if step(s, call) is Ok {
            lemma_rounds_stay_consistent(s, call, b);
        } else {
            lemma_consistent_later(s, b, b2);
        }
        lemma_run_consistent(after(s, call), calls.drop_first(), b2);
    }
}

/// A canceled grant never changes again through any sequence of calls whose
/// blocks never decrease and which stay within the machine's integers: it
/// stays canceled, takes no contribution, is not approved or withdrawn, and
/// holds no matching fund.
pub proof fn lemma_run_canceled_grant_unchanged(
    s: ModuleView,
    calls: Seq<Call>,
    b: BlockNumber,
    k: int,
    g: int,
)
    requires
        rounds_consistent(s, b),
        run_fits(s, calls),
        run_in_order(b, calls),
        0 <= k < s.rounds.len(),
        0 <= g < s.rounds[k].grants.len(),
        s.rounds[k].grants[g].is_canceled,
    ensures
        k < run(s, calls).rounds.len(),
        g < run(s, calls).rounds[k].grants.len(),
        run(s, calls).rounds[k].grants[g] == s.rounds[k].grants[g],
        !s.rounds[k].grants[g].is_approved,
        !s.rounds[k].grants[g].is_withdrawn,
        s.rounds[k].grants[g].matching_fund == 0,
    decreases calls.len(),
{
    assert(round_consistent(s.rounds[k], b));
    assert(grant_consistent(s.rounds[k].is_finalized, s.rounds[k].grants[g]));
    if calls.len() > 0 {
        let call = calls[0];
        let b2 = block_after(b, call);
        if step(s, call) is Ok {
            lemma_canceled_grant_unchanged(s, call, b, k, g);
            lemma_rounds_stay_consistent(s, call, b);
        } else {
            lemma_consistent_later(s, b, b2);
        }
        lemma_run_canceled_grant_unchanged(after(s, call), calls.drop_first(), b2, k, g);
    }
}

// ---------------------------------------------------------------------------
// A contribution is recorded exactly.

proof fn lemma_contribution_total_update(cs: Seq<Contribution>, c: int, x: Contribution)
    requires
        0 <= c < cs.len(),
    ensures
        contribution_total(cs.update(c, x)) + cs[c].value == contribution_total(cs) + x.value,
    decreases cs.len(),
{
    let t = cs.update(c, x);
    if c == cs.len() - 1 {
        assert(t.drop_last() =~= cs.drop_last());
    } else {
        lemma_contribution_total_update(cs.drop_last(), c, x);
        assert(t.drop_last() =~= cs.drop_last().update(c, x));
    }
}

/// A contribution adds exactly its value to the grant it goes to: to the
/// sum of the grant's contributions, and to what the contributor has given it
/// (a first contribution counts from zero).
pub proof fn lemma_contribution_recorded(
    s: ModuleView,
    origin: Origin,
    now: BlockNumber,
    project_index: ProjectIndex,
    value: Balance,
    paid: Result<(), CurrencyError>,
)
    requires
        s.contribute(origin, now, project_index, value, paid) is Ok,
        s.contribute_fits(origin, now, project_index, value),
    ensures
        ({
            let (k, g) = s.contribution_target(origin, now, project_index)->Ok_0;
            let who = signer(origin)->Ok_0;
            let t = (s.contribute(origin, now, project_index, value, paid)->Ok_0).0;
            let before = s.rounds[k].grants[g].contributions;
            let after = t.rounds[k].grants[g].contributions;
            &&& contribution_total(after) == contribution_total(before) + value
            &&& contribution_position(after, who) matches Some(c) && after[c].value == value
                + match contribution_position(before, who) {
                Some(c0) => before[c0].value as int,
                None => 0,
            }
        }),
{
    let (k, g) = s.contribution_target(origin, now, project_index)->Ok_0;
    let who = signer(origin)->Ok_0;
    let before = s.rounds[k].grants[g].contributions;
    let x = Contribution { account_id: who, value };
    match contribution_position(before, who) {
        Some(c) => {
            lemma_first_index_some(before, of_account(who));
            let y = Contribution { account_id: who, value: (before[c].value + value) as u128 };
            lemma_contribution_total_update(before, c, y);
            lemma_first_index_update(before, of_account(who), c, y);
        },
        None => {
            let after = before.push(x);
            assert(after.drop_last() =~= before);
            assert forall|m: int| 0 <= m < before.len() implies !of_account(who)(
                #[trigger] after[m],
            ) by {
                assert(after[m] == before[m]);
                if of_account(who)(before[m]) {
                    lemma_first_exists(before, of_account(who), m);
                }
            }
            assert(is_first(after, of_account(who), before.len() as int));
            lemma_first_index_is(after, of_account(who), before.len() as int);
        },
    }
}

// ---------------------------------------------------------------------------
// The sharing of the matching pool.

/// What the grants of a round that are not canceled have been allotted.
pub open spec fn allotted(grants: Seq<GrantView>) -> nat
    decreases grants.len(),
{
    if grants.len() == 0 {
        0
    } else {
        allotted(grants.drop_last()) + if grants.last().is_canceled {
            0
        } else {
            grants.last().matching_fund as nat
        }
    }
}

proof fn lemma_allotted_is_sum(grants: Seq<GrantView>, shares: Seq<Balance>)
    requires
        grants.len() == shares.len(),
        forall|i: int|
            0 <= i < grants.len() ==> #[trigger] shares[i] == if grants[i].is_canceled {
                0
            } else {
                grants[i].matching_fund
            },
    ensures
        allotted(grants) == sum_balances(shares),
    decreases grants.len(),
{
    if grants.len() > 0 {
        lemma_allotted_is_sum(grants.drop_last(), shares.drop_last());
    }
}

proof fn lemma_share_within_pool(pool: nat, weight: nat, total: nat)
    requires
        weight <= total,
    ensures
        share(pool, weight, total) <= pool,
{
    if total > 0 {
        assert(pool * weight <= pool * total) by (nonlinear_arith)
            requires
                weight <= total,
        ;
        vstd::arithmetic::div_mod::lemma_div_is_ordered(
            (pool * weight) as int,
            (pool * total) as int,
            total as int,
        );
        vstd::arithmetic::div_mod::lemma_div_multiples_vanish(pool as int, total as int);
        assert(pool * total == total * pool) by (nonlinear_arith);
    }
}

/// Finalizing a round never allots more than its pool: the shares of the
/// grants that are not canceled add up to at most the round's matching fund.
pub proof fn lemma_finalize_within_pool(
    s: ModuleView,
    origin: Origin,
    now: BlockNumber,
    round_index: GrantRoundIndex,
)
    requires
        s.finalize_round(origin, now, round_index) is Ok,
    ensures
        ({
            let t = s.finalize_round(origin, now, round_index)->Ok_0;
            allotted(t.rounds[round_index as int].grants) <= t.rounds[round_index as int].matching_fund
        }),
{
    lemma_finalized_allotment(s.rounds[round_index as int]);
}

/// A grant of greater weight never gets a smaller share.
pub proof fn lemma_share_monotonic(pool: nat, weight1: nat, weight2: nat, total: nat)
    requires
        weight1 <= weight2,
    ensures
        share(pool, weight1, total) <= share(pool, weight2, total),
{
    if total > 0 {
        assert(pool * weight1 <= pool * weight2) by (nonlinear_arith)
            requires
                weight1 <= weight2,
        ;
        vstd::arithmetic::div_mod::lemma_div_is_ordered(
            (pool * weight1) as int,
            (pool * weight2) as int,
            total as int,
        );
    }
}

// ---------------------------------------------------------------------------
// A canceled grant takes no more contributions and cannot be approved.

/// After a grant is canceled, approving it fails, whoever asks and at whatever
/// block.
pub proof fn lemma_canceled_grant_not_approved(
    s: ModuleView,
    origin: Origin,
    round_index: GrantRoundIndex,
    project_index: ProjectIndex,
    origin2: Origin,
    now2: BlockNumber,
)
    requires
        s.cancel(origin, round_index, project_index) is Ok,
    ensures
        (s.cancel(origin, round_index, project_index)->Ok_0).0.approve(
            origin2,
            now2,
            round_index,
            project_index,
        ) is Err,
{
    let t = (s.cancel(origin, round_index, project_index)->Ok_0).0;
    let k = round_index as int;
    let grants = s.rounds[k].grants;
    let g = grant_position(grants, project_index)->0;
    lemma_first_index_some(grants, of_project(project_index));
    let grant2 = t.rounds[k].grants[g];
    assert(t.rounds[k].grants == grants.update(g, grant2));
    lemma_first_index_update(grants, of_project(project_index), g, grant2);
}

/// After a grant is canceled, contributions to its project fail while its
/// round is the first that takes contributions.
pub proof fn lemma_canceled_grant_takes_no_contribution(
    s: ModuleView,
    origin: Origin,
    round_index: GrantRoundIndex,
    project_index: ProjectIndex,
    origin2: Origin,
    now2: BlockNumber,
    value: Balance,
    paid: Result<(), CurrencyError>,
)
    requires
        s.cancel(origin, round_index, project_index) is Ok,
        processing_round(
            (s.cancel(origin, round_index, project_index)->Ok_0).0.rounds,
            now2,
        ) == Some(round_index as int),
    ensures
        (s.cancel(origin, round_index, project_index)->Ok_0).0.contribute(
            origin2,
            now2,
            project_index,
            value,
            paid,
        ) is Err,
{
    let t = (s.cancel(origin, round_index, project_index)->Ok_0).0;
    let k = round_index as int;
    let grants = s.rounds[k].grants;
    let g = grant_position(grants, project_index)->0;
    lemma_first_index_some(grants, of_project(project_index));
    let grant2 = t.rounds[k].grants[g];
    assert(t.rounds[k].grants == grants.update(g, grant2));
    lemma_first_index_update(grants, of_project(project_index), g, grant2);
}

proof fn lemma_total_clr_update(grants: Seq<GrantView>, g: int, x: GrantView)
    requires
        0 <= g < grants.len(),
    ensures
        total_clr(grants.update(g, x)) + clr(grants[g]) == total_clr(grants) + clr(x),
    decreases grants.len(),
{
    let t = grants.update(g, x);
    if g == grants.len() - 1 {
        assert(t.drop_last() =~= grants.drop_last());
    } else {
        lemma_total_clr_update(grants.drop_last(), g, x);
        assert(t.drop_last() =~= grants.drop_last().update(g, x));
    }
}

/// Canceling a grant shares its part of the pool among the others: no other
/// grant of the round would get a smaller share at finalization.
pub proof fn lemma_cancel_redistributes(
    s: ModuleView,
    origin: Origin,
    round_index: GrantRoundIndex,
    project_index: ProjectIndex,
    i: int,
)
    requires
        s.cancel(origin, round_index, project_index) is Ok,
        0 <= i < s.rounds[round_index as int].grants.len(),
        i != grant_position(s.rounds[round_index as int].grants, project_index)->0,
    ensures
        ({
            let before = s.rounds[round_index as int];
            let after = (s.cancel(origin, round_index, project_index)->Ok_0).0.rounds[round_index as int];
            share(
                after.matching_fund as nat,
                clr(after.grants[i]),
                total_clr(after.grants),
            ) >= share(before.matching_fund as nat, clr(before.grants[i]), total_clr(before.grants))
        }),
{
    let k = round_index as int;
    let before = s.rounds[k];
    let t = (s.cancel(origin, round_index, project_index)->Ok_0).0;
    let after = t.rounds[k];
    let g = grant_position(before.grants, project_index)->0;
    lemma_first_index_some(before.grants, of_project(project_index));
    let grant2 = after.grants[g];
    assert(after.grants == before.grants.update(g, grant2));
    lemma_total_clr_update(before.grants, g, grant2);
    assert(after.grants[i] == before.grants[i]);
    lemma_clr_le_total(after.grants);
    let pool = before.matching_fund as nat;
    let w = clr(before.grants[i]);
    let t0 = total_clr(before.grants);
    let t1 = total_clr(after.grants);
    assert(t1 <= t0);
    if w > 0 {
        assert(t1 >= w);
        vstd::arithmetic::div_mod::lemma_div_is_ordered_by_denominator(
            (pool * w) as int,
            t1 as int,
            t0 as int,
        );
    } else {
        assert(pool * w == 0) by (nonlinear_arith)
            requires
                w == 0,
        ;
    }
}

} // verus!
