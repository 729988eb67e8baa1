//! What each call does, said in terms of its arguments and of the state it
//! finds: when it succeeds, what it stores, what it pays and to whom, and what
//! it leaves alone.
use vstd::prelude::*;

use crate::account::{lemma_derived_accounts, pot_account, project_account};
use crate::model::{
    CurrencyError, Error, Event, Judgement, ModuleView, Origin, contribution_total, of_account,
    of_project, processing_at,
};
use crate::search::lemma_first_index_some;
use crate::types::{
    Balance, BlockNumber, Contribution, GrantRoundIndex, GrantView, ProjectIndex,
};

verus! {

/// `g` is the place of the first grant of project `project_index` in `grants`.
pub open spec fn is_project_grant(grants: Seq<GrantView>, project_index: ProjectIndex, g: int) -> bool {
    &&& 0 <= g < grants.len()
    &&& grants[g].project_index == project_index
    &&& forall|j: int| 0 <= j < g ==> (#[trigger] grants[j]).project_index != project_index
}

/// Whether some registrar judged the identity reasonable or known-good, at
/// any place in the list of judgements.
pub open spec fn has_good_judgement(identity: Option<Seq<Judgement>>) -> bool {
    identity matches Some(js) && exists|i: int|
        0 <= i < js.len() && (#[trigger] js[i] == Judgement::Reasonable || js[i]
            == Judgement::KnownGood)
}

// ---------------------------------------------------------------------------
// Creating a project.

/// A created project is stored at the next index with the caller's own texts,
/// each in its own field, and the caller as owner; nothing else changes.
pub proof fn law_create_project_stores_arguments(
    s: ModuleView,
    origin: Origin,
    identity: Option<Seq<Judgement>>,
    name: Seq<u8>,
    logo: Seq<u8>,
    description: Seq<u8>,
    website: Seq<u8>,
)
    requires
        s.create_project(origin, identity, name, logo, description, website) is Ok,
    ensures
        ({
            let (t, e) = s.create_project(origin, identity, name, logo, description, website)->Ok_0;
            let n = s.projects.len() as int;
            &&& origin matches Origin::Signed(who) && t.projects[n].owner == who
            &&& !s.is_identity_needed || has_good_judgement(identity)
            &&& name.len() > 0 && logo.len() > 0 && description.len() > 0 && website.len() > 0
            &&& t.projects.len() == n + 1
            &&& t.projects[n].name == name
            &&& t.projects[n].logo == logo
            &&& t.projects[n].description == description
            &&& t.projects[n].website == website
            &&& forall|i: int| 0 <= i < n ==> t.projects[i] == s.projects[i]
            &&& t.rounds == s.rounds
            &&& t.unused_fund == s.unused_fund
            &&& t.module_id == s.module_id
            &&& t.max_round_grants == s.max_round_grants
            &&& t.withdrawal_period == s.withdrawal_period
            &&& t.is_identity_needed == s.is_identity_needed
            &&& e == Event::ProjectCreated(n as u32)
        }),
{
}

/// A signed caller with four non-empty texts creates a project when the
/// identity check passes: when identities are not needed, or some judgement,
/// at any place in the list, is reasonable or known-good.
pub proof fn law_create_project_accepts(
    s: ModuleView,
    who: crate::types::AccountId,
    identity: Option<Seq<Judgement>>,
    name: Seq<u8>,
    logo: Seq<u8>,
    description: Seq<u8>,
    website: Seq<u8>,
)
    requires
        !s.is_identity_needed || has_good_judgement(identity),
        name.len() > 0,
        logo.len() > 0,
        description.len() > 0,
        website.len() > 0,
        s.projects.len() < u32::MAX,
    ensures
        s.create_project(Origin::Signed(who), identity, name, logo, description, website) is Ok,
{
}

/// Where identities are needed and no judgement in the list is reasonable or
/// known-good (or there is no identity), creating a project fails with
/// `IdentityNeeded`, whatever the texts.
pub proof fn law_create_project_needs_identity(
    s: ModuleView,
    who: crate::types::AccountId,
    identity: Option<Seq<Judgement>>,
    name: Seq<u8>,
    logo: Seq<u8>,
    description: Seq<u8>,
    website: Seq<u8>,
)
    requires
        s.is_identity_needed,
        !has_good_judgement(identity),
    ensures
        s.create_project(Origin::Signed(who), identity, name, logo, description, website) == Err::<
            (ModuleView, Event),
            Error,
        >(Error::IdentityNeeded),
{
}

/// A caller who passes the identity check but leaves one of the four texts
/// empty is refused with `InvalidParam`.
pub proof fn law_create_project_needs_texts(
    s: ModuleView,
    who: crate::types::AccountId,
    identity: Option<Seq<Judgement>>,
    name: Seq<u8>,
    logo: Seq<u8>,
    description: Seq<u8>,
    website: Seq<u8>,
)
    requires
        !s.is_identity_needed || has_good_judgement(identity),
        name.len() == 0 || logo.len() == 0 || description.len() == 0 || website.len() == 0,
    ensures
        s.create_project(Origin::Signed(who), identity, name, logo, description, website) == Err::<
            (ModuleView, Event),
            Error,
        >(Error::InvalidParam),
{
}

// ---------------------------------------------------------------------------
// Donating.

/// A donation is paid by the caller, into the pot account, of exactly the
/// amount given; once paid, it adds exactly that amount to the unused fund.
pub proof fn law_fund(
    s: ModuleView,
    origin: Origin,
    amount: Balance,
    paid: Result<(), CurrencyError>,
)
    requires
        s.fund_fits(origin, amount, paid),
    ensures
        s.fund_payment(origin, amount) matches Ok(tr) ==> {
            &&& origin == Origin::Signed(tr.from)
            &&& tr.to@ == pot_account(s.module_id)
            &&& tr.amount == amount
        },
        s.fund_payment(origin, amount) is Err ==> !(origin is Signed),
        s.fund(origin, amount, paid) matches Ok((t, e)) ==> {
            &&& paid is Ok
            &&& origin is Signed
            &&& t.unused_fund == s.unused_fund + amount
            &&& t.projects == s.projects
            &&& t.rounds == s.rounds
            &&& e == Event::FundSucceed
        },
        (origin is Signed && paid is Err) ==> s.fund(origin, amount, paid) == Err::<
            (ModuleView, Event),
            Error,
        >(Error::Currency(paid->Err_0)),
{
    lemma_derived_accounts(s.module_id, 0);
}

// ---------------------------------------------------------------------------
// Contributing.

/// A contribution is paid by the caller, to the account of the project
/// named by the call (whatever its place in the round), of exactly the value
/// given; and it goes to the first grant of that project in the first round
/// open at the block, which is not canceled.
pub proof fn law_contribution_payment(
    s: ModuleView,
    origin: Origin,
    now: BlockNumber,
    project_index: ProjectIndex,
    value: Balance,
)
    requires
        s.contribution_payment(origin, now, project_index, value) is Ok,
    ensures
        ({
            let tr = s.contribution_payment(origin, now, project_index, value)->Ok_0;
            &&& origin == Origin::Signed(tr.from)
            &&& tr.to@ == project_account(s.module_id, project_index)
            &&& tr.amount == value
            &&& exists|k: int, g: int|
                #![trigger s.rounds[k].grants[g]]
                0 <= k < s.rounds.len() && !s.rounds[k].is_canceled && s.rounds[k].start < now
                    && now < s.rounds[k].end && (forall|j: int|
                    0 <= j < k ==> (#[trigger] s.rounds[j]).is_canceled || now <= s.rounds[j].start
                        || s.rounds[j].end <= now) && is_project_grant(
                    s.rounds[k].grants,
                    project_index,
                    g,
                ) && !s.rounds[k].grants[g].is_canceled
        }),
{
    lemma_derived_accounts(s.module_id, project_index);
    let (k, g) = s.contribution_target(origin, now, project_index)->Ok_0;
    lemma_first_index_some(s.rounds, processing_at(now));
    lemma_first_index_some(s.rounds[k].grants, of_project(project_index));
    assert(is_project_grant(s.rounds[k].grants, project_index, g));
}

/// A contribution, once paid, is recorded in the grant that its payment names
/// and nowhere else: the caller's first contribution to that grant grows by
/// the value, or, where there is none, a contribution of the value is added
/// at the end; every other grant, round and record stays as it was.
pub proof fn law_contribute(
    s: ModuleView,
    origin: Origin,
    now: BlockNumber,
    project_index: ProjectIndex,
    value: Balance,
    paid: Result<(), CurrencyError>,
)
    requires
        s.contribute(origin, now, project_index, value, paid) is Ok,
        s.contribute_fits(origin, now, project_index, value),
    ensures
        ({
            let (t, e) = s.contribute(origin, now, project_index, value, paid)->Ok_0;
            &&& paid is Ok
            &&& s.contribution_payment(origin, now, project_index, value) is Ok
            &&& origin matches Origin::Signed(who) && e == Event::ContributeSucceed(
                who,
                project_index,
                value,
                now,
            ) && exists|k: int, g: int|
                #![trigger s.rounds[k].grants[g]]
                0 <= k < s.rounds.len() && s.rounds[k].start < now && now < s.rounds[k].end
                    && is_project_grant(s.rounds[k].grants, project_index, g) && {
                    let cs = s.rounds[k].grants[g].contributions;
                    let cs2 = t.rounds[k].grants[g].contributions;
                    &&& t.rounds.len() == s.rounds.len()
                    &&& forall|j: int| 0 <= j < s.rounds.len() && j != k ==> t.rounds[j] == s.rounds[j]
                    &&& t.rounds[k].grants.len() == s.rounds[k].grants.len()
                    &&& forall|h: int|
                        0 <= h < s.rounds[k].grants.len() && h != g ==> t.rounds[k].grants[h]
                            == s.rounds[k].grants[h]
                    &&& t.rounds[k].grants[g] == (GrantView { contributions: cs2, ..s.rounds[k].grants[g] })
                    &&& t.rounds[k] == (crate::types::RoundView { grants: t.rounds[k].grants, ..s.rounds[k] })
                    &&& contribution_total(cs2) == contribution_total(cs) + value
                    &&& (exists|c: int|
                        0 <= c < cs.len() && (#[trigger] cs[c]).account_id == who && (forall|j: int|
                            0 <= j < c ==> (#[trigger] cs[j]).account_id != who) && cs2 == cs.update(
                            c,
                            Contribution { account_id: who, value: (cs[c].value + value) as u128 },
                        )) || ((forall|j: int| 0 <= j < cs.len() ==> (#[trigger] cs[j]).account_id
                        != who) && cs2 == cs.push(Contribution { account_id: who, value }))
                }
            &&& t.projects == s.projects
            &&& t.unused_fund == s.unused_fund
        }),
{
    let (k, g) = s.contribution_target(origin, now, project_index)->Ok_0;
    let who = crate::model::signer(origin)->Ok_0;
    lemma_first_index_some(s.rounds, processing_at(now));
    lemma_first_index_some(s.rounds[k].grants, of_project(project_index));
    assert(is_project_grant(s.rounds[k].grants, project_index, g));
    crate::laws::lemma_contribution_recorded(s, origin, now, project_index, value, paid);
    let cs = s.rounds[k].grants[g].contributions;
    match crate::model::contribution_position(cs, who) {
        Some(c) => {
            lemma_first_index_some(cs, of_account(who));
            assert(cs[c].account_id == who);
        },
        None => {
            assert forall|j: int| 0 <= j < cs.len() implies (#[trigger] cs[j]).account_id != who by {
                if cs[j].account_id == who {
                    crate::search::lemma_first_exists(cs, of_account(who), j);
                }
            }
        },
    }
}

// ---------------------------------------------------------------------------
// Withdrawing.

/// A withdrawal pays the project's owner, who must be the caller: from the pot,
/// exactly the matching fund of the grant withdrawn (the first grant of the
/// project in the round), and from the project's account, exactly the sum of
/// that grant's contributions. The grant must be approved, not yet withdrawn,
/// and within its withdrawal period.
pub proof fn law_withdrawal_payments(
    s: ModuleView,
    origin: Origin,
    now: BlockNumber,
    round_index: GrantRoundIndex,
    project_index: ProjectIndex,
)
    requires
        s.withdrawal_payments(origin, now, round_index, project_index) is Ok,
    ensures
        ({
            let (from_pot, from_project) = s.withdrawal_payments(
                origin,
                now,
                round_index,
                project_index,
            )->Ok_0;
            let grants = s.rounds[round_index as int].grants;
            &&& project_index < s.projects.len()
            &&& round_index < s.rounds.len()
            &&& origin == Origin::Signed(s.projects[project_index as int].owner)
            &&& from_pot.from@ == pot_account(s.module_id)
            &&& from_pot.to == s.projects[project_index as int].owner
            &&& from_project.from@ == project_account(s.module_id, project_index)
            &&& from_project.to == s.projects[project_index as int].owner
            &&& exists|g: int|
                #![trigger grants[g]]
                is_project_grant(grants, project_index, g) && from_pot.amount
                    == grants[g].matching_fund && from_project.amount == value_sum(
                    grants[g].contributions,
                ) as u128 && grants[g].is_approved && !grants[g].is_withdrawn && now
                    <= grants[g].withdrawal_period
        }),
{
    lemma_derived_accounts(s.module_id, project_index);
    let grants = s.rounds[round_index as int].grants;
    let g = s.withdrawal_target(origin, now, round_index, project_index)->Ok_0;
    lemma_first_index_some(grants, of_project(project_index));
    assert(is_project_grant(grants, project_index, g));
    lemma_value_sum(grants[g].contributions);
}

/// A withdrawal, once paid, marks the grant it paid as withdrawn and restarts
/// its period at `now`; the event reports exactly the amounts paid; nothing
/// else changes.
pub proof fn law_withdraw(
    s: ModuleView,
    origin: Origin,
    now: BlockNumber,
    round_index: GrantRoundIndex,
    project_index: ProjectIndex,
    paid: Result<(), CurrencyError>,
)
    requires
        s.withdraw(origin, now, round_index, project_index, paid) is Ok,
        s.withdraw_fits(origin, now, round_index, project_index, paid),
    ensures
        ({
            let (t, e) = s.withdraw(origin, now, round_index, project_index, paid)->Ok_0;
            let k = round_index as int;
            let grants = s.rounds[k].grants;
            &&& paid is Ok
            &&& s.withdrawal_payments(origin, now, round_index, project_index) matches Ok(
                (from_pot, from_project),
            ) && e == Event::GrantWithdrawn(
                round_index,
                project_index,
                from_pot.amount,
                from_project.amount,
            )
            &&& exists|g: int|
                #![trigger grants[g]]
                is_project_grant(grants, project_index, g) && t == (ModuleView {
                    rounds: s.rounds.update(
                        k,
                        crate::types::RoundView {
                            grants: grants.update(
                                g,
                                GrantView {
                                    is_withdrawn: true,
                                    withdrawal_period: (now + s.withdrawal_period) as u32,
                                    ..grants[g]
                                },
                            ),
                            ..s.rounds[k]
                        },
                    ),
                    ..s
                })
        }),
{
    let k = round_index as int;
    let grants = s.rounds[k].grants;
    let g = s.withdrawal_target(origin, now, round_index, project_index)->Ok_0;
    lemma_first_index_some(grants, of_project(project_index));
    assert(is_project_grant(grants, project_index, g));
}

// ---------------------------------------------------------------------------
// Scheduling and canceling rounds.

/// A round is scheduled only by root, with a pool the unused fund covers,
/// fewer projects than the maximum, a window that starts after `now` and ends
/// after it starts, starting after the end of the last round that is not
/// canceled. It is added at the next index with exactly the window and pool
/// given and one fresh grant per project, in order; its pool is taken from the
/// unused fund; nothing else changes.
pub proof fn law_schedule_round(
    s: ModuleView,
    origin: Origin,
    now: BlockNumber,
    start: BlockNumber,
    end: BlockNumber,
    matching_fund: Balance,
    project_indexes: Seq<ProjectIndex>,
)
    requires
        s.schedule_round(origin, now, start, end, matching_fund, project_indexes) is Ok,
    ensures
        ({
            let (t, e) = s.schedule_round(origin, now, start, end, matching_fund, project_indexes)->Ok_0;
            let n = s.rounds.len() as int;
            let r = t.rounds[n];
            &&& origin is Root
            &&& matching_fund <= s.unused_fund
            &&& project_indexes.len() < s.max_round_grants
            &&& now < start < end
            &&& forall|k: int|
                0 <= k < n && !(#[trigger] s.rounds[k]).is_canceled && (forall|j: int|
                    k < j < n ==> (#[trigger] s.rounds[j]).is_canceled) ==> s.rounds[k].end < start
            &&& t.rounds.len() == n + 1
            &&& forall|k: int| 0 <= k < n ==> t.rounds[k] == s.rounds[k]
            &&& r.start == start && r.end == end && r.matching_fund == matching_fund
            &&& !r.is_canceled && !r.is_finalized
            &&& r.grants.len() == project_indexes.len()
            &&& forall|i: int|
                0 <= i < r.grants.len() ==> {
                    let g = #[trigger] r.grants[i];
                    &&& g.project_index == project_indexes[i]
                    &&& g.contributions.len() == 0
                    &&& !g.is_approved && !g.is_canceled && !g.is_withdrawn
                    &&& g.withdrawal_period == 0 && g.matching_fund == 0
                }
            &&& t.unused_fund == s.unused_fund - matching_fund
            &&& t.projects == s.projects
            &&& t.max_round_grants == s.max_round_grants
            &&& t.withdrawal_period == s.withdrawal_period
            &&& e == Event::GrantRoundCreated(n as u32)
        }),
{
    let n = s.rounds.len() as int;
    assert forall|k: int|
        0 <= k < n && !(#[trigger] s.rounds[k]).is_canceled && (forall|j: int|
            k < j < n ==> (#[trigger] s.rounds[j]).is_canceled) implies s.rounds[k].end < start by {
        assert(crate::search::is_last(s.rounds, crate::model::is_valid_round(), k));
        crate::search::lemma_last_index_is(s.rounds, crate::model::is_valid_round(), k);
    }
}

/// A round is canceled only by root, only before it starts and only once; its
/// pool returns to the unused fund; the event carries the index of the last
/// round; nothing else changes.
pub proof fn law_cancel_round(
    s: ModuleView,
    origin: Origin,
    now: BlockNumber,
    round_index: GrantRoundIndex,
)
    requires
        s.cancel_round(origin, now, round_index) is Ok,
        s.cancel_round_fits(origin, now, round_index),
    ensures
        ({
            let (t, e) = s.cancel_round(origin, now, round_index)->Ok_0;
            let k = round_index as int;
            &&& origin is Root
            &&& k < s.rounds.len()
            &&& now < s.rounds[k].start
            &&& !s.rounds[k].is_canceled
            &&& t == (ModuleView {
                rounds: s.rounds.update(k, crate::types::RoundView { is_canceled: true, ..s.rounds[k] }),
                unused_fund: (s.unused_fund + s.rounds[k].matching_fund) as u128,
                ..s
            })
            &&& t.unused_fund == s.unused_fund + s.rounds[k].matching_fund
            &&& e == Event::RoundCanceled((s.rounds.len() - 1) as u32)
        }),
{
}

// ---------------------------------------------------------------------------
// Finalizing a round.

/// The sum of a sequence of naturals.
pub open spec fn sum_of(xs: Seq<nat>) -> nat
    decreases xs.len(),
{
    if xs.len() == 0 {
        0
    } else {
        sum_of(xs.drop_last()) + xs.last()
    }
}

/// The square-root sum of the contributions is the sum of their integer square
/// roots: for roots `rs` with `rs[i]^2 <= value_i < (rs[i] + 1)^2`, it is the
/// sum of `rs`. A grant that is not canceled weighs the square of that sum; a
/// canceled grant weighs nothing.
pub proof fn law_grant_weight(grant: GrantView, rs: Seq<nat>)
    requires
        rs.len() == grant.contributions.len(),
        forall|i: int|
            0 <= i < rs.len() ==> #[trigger] rs[i] * rs[i] <= grant.contributions[i].value && grant.contributions[i].value
                < (rs[i] + 1) * (rs[i] + 1),
    ensures
        crate::quadratic::sqrt_sum(grant.contributions) == sum_of(rs),
        grant.is_canceled ==> crate::quadratic::clr(grant) == 0,
        !grant.is_canceled ==> crate::quadratic::clr(grant) == sum_of(rs) * sum_of(rs),
{
    lemma_sqrt_sum_is_sum(grant.contributions, rs);
}

/// The sum of the values of the contributions.
pub open spec fn value_sum(cs: Seq<Contribution>) -> nat {
    sum_of(cs.map_values(|c: Contribution| c.value as nat))
}

proof fn lemma_value_sum(cs: Seq<Contribution>)
    ensures
        contribution_total(cs) == value_sum(cs),
    decreases cs.len(),
{
    if cs.len() > 0 {
        lemma_value_sum(cs.drop_last());
        assert(cs.drop_last().map_values(|c: Contribution| c.value as nat) =~= cs.map_values(
            |c: Contribution| c.value as nat,
        ).drop_last());
    }
}

proof fn lemma_total_weight(grants: Seq<GrantView>)
    ensures
        crate::quadratic::total_clr(grants) == sum_of(
            grants.map_values(|g: GrantView| crate::quadratic::clr(g)),
        ),
    decreases grants.len(),
{
    if grants.len() > 0 {
        lemma_total_weight(grants.drop_last());
        assert(grants.drop_last().map_values(|g: GrantView| crate::quadratic::clr(g))
            =~= grants.map_values(|g: GrantView| crate::quadratic::clr(g)).drop_last());
    }
}

proof fn lemma_sqrt_sum_is_sum(cs: Seq<Contribution>, rs: Seq<nat>)
    requires
        rs.len() == cs.len(),
        forall|i: int|
            0 <= i < rs.len() ==> #[trigger] rs[i] * rs[i] <= cs[i].value && cs[i].value < (rs[i]
                + 1) * (rs[i] + 1),
    ensures
        crate::quadratic::sqrt_sum(cs) == sum_of(rs),
    decreases cs.len(),
{
    if cs.len() > 0 {
        let n = cs.len() - 1;
        assert forall|i: int| 0 <= i < rs.drop_last().len() implies #[trigger] rs.drop_last()[i]
            * rs.drop_last()[i] <= cs.drop_last()[i].value && cs.drop_last()[i].value < (
        rs.drop_last()[i] + 1) * (rs.drop_last()[i] + 1) by {
            assert(rs.drop_last()[i] == rs[i]);
            assert(cs.drop_last()[i] == cs[i]);
            assert(rs[i] * rs[i] <= cs[i].value);
        }
        lemma_sqrt_sum_is_sum(cs.drop_last(), rs.drop_last());
        assert(rs[n] * rs[n] <= cs[n].value);
        crate::quadratic::lemma_floor_sqrt_unique(cs[n].value as nat, rs[n]);
    }
}

/// A round is finalized only by root, only once, only after it ends and only
/// if not canceled. Each grant that is not canceled then gets
/// `pool * weight / total weight`, rounded down; canceled grants, the other
/// rounds and all else stay as they were.
pub proof fn law_finalize_round(
    s: ModuleView,
    origin: Origin,
    now: BlockNumber,
    round_index: GrantRoundIndex,
)
    requires
        s.finalize_round(origin, now, round_index) is Ok,
        s.finalize_round_fits(origin, now, round_index),
    ensures
        ({
            let t = s.finalize_round(origin, now, round_index)->Ok_0;
            let k = round_index as int;
            let r = s.rounds[k];
            let r2 = t.rounds[k];
            let total = sum_of(r.grants.map_values(|g: GrantView| crate::quadratic::clr(g)));
            &&& origin is Root
            &&& k < s.rounds.len()
            &&& !r.is_canceled && !r.is_finalized && r.end < now
            &&& t.rounds.len() == s.rounds.len()
            &&& forall|j: int| 0 <= j < s.rounds.len() && j != k ==> t.rounds[j] == s.rounds[j]
            &&& r2.is_finalized && !r2.is_canceled
            &&& r2.start == r.start && r2.end == r.end && r2.matching_fund == r.matching_fund
            &&& r2.grants.len() == r.grants.len()
            &&& forall|i: int|
                0 <= i < r.grants.len() ==> {
                    let g = #[trigger] r.grants[i];
                    &&& g.is_canceled ==> r2.grants[i] == g
                    &&& !g.is_canceled ==> total > 0 && r2.grants[i] == (GrantView {
                        matching_fund: ((r.matching_fund as nat * crate::quadratic::clr(g)) / total) as u128,
                        ..g
                    })
                }
            &&& t.projects == s.projects
            &&& t.unused_fund == s.unused_fund
        }),
{
    let k = round_index as int;
    let r = s.rounds[k];
    lemma_total_weight(r.grants);
    assert forall|i: int| 0 <= i < r.grants.len() && !r.grants[i].is_canceled implies crate::quadratic::total_clr(r.grants) > 0 by {
        assert(crate::quadratic::sharing_fits(r.matching_fund as nat, r.grants));
    }
}

// ---------------------------------------------------------------------------
// Approving and canceling grants.

/// A grant is approved only by root, only after its round ended, and only if
/// neither the round nor the grant is canceled; the first grant of the project
/// is approved and may be withdrawn until `now` plus the withdrawal period;
/// nothing else changes.
pub proof fn law_approve(
    s: ModuleView,
    origin: Origin,
    now: BlockNumber,
    round_index: GrantRoundIndex,
    project_index: ProjectIndex,
)
    requires
        s.approve(origin, now, round_index, project_index) is Ok,
        s.approve_fits(origin, now, round_index, project_index),
    ensures
        ({
            let (t, e) = s.approve(origin, now, round_index, project_index)->Ok_0;
            let k = round_index as int;
            let grants = s.rounds[k].grants;
            &&& origin is Root
            &&& k < s.rounds.len()
            &&& !s.rounds[k].is_canceled && s.rounds[k].end < now
            &&& exists|g: int|
                #![trigger grants[g]]
                is_project_grant(grants, project_index, g) && !grants[g].is_canceled && t == (ModuleView {
                    rounds: s.rounds.update(
                        k,
                        crate::types::RoundView {
                            grants: grants.update(
                                g,
                                GrantView {
                                    is_approved: true,
                                    withdrawal_period: (now + s.withdrawal_period) as u32,
                                    ..grants[g]
                                },
                            ),
                            ..s.rounds[k]
                        },
                    ),
                    ..s
                })
            &&& e == Event::GrantAllowedWithdraw(round_index, project_index)
        }),
{
    let grants = s.rounds[round_index as int].grants;
    lemma_first_index_some(grants, of_project(project_index));
    let g = crate::model::grant_position(grants, project_index)->0;
    assert(is_project_grant(grants, project_index, g));
}

/// A grant is canceled only by root, only while neither its round is
/// canceled or finalized nor the grant canceled or approved; the first grant
/// of the project is marked canceled; nothing else changes.
pub proof fn law_cancel(
    s: ModuleView,
    origin: Origin,
    round_index: GrantRoundIndex,
    project_index: ProjectIndex,
)
    requires
        s.cancel(origin, round_index, project_index) is Ok,
    ensures
        ({
            let (t, e) = s.cancel(origin, round_index, project_index)->Ok_0;
            let k = round_index as int;
            let grants = s.rounds[k].grants;
            &&& origin is Root
            &&& k < s.rounds.len()
            &&& !s.rounds[k].is_canceled && !s.rounds[k].is_finalized
            &&& exists|g: int|
                #![trigger grants[g]]
                is_project_grant(grants, project_index, g) && !grants[g].is_canceled
                    && !grants[g].is_approved && t == (ModuleView {
                    rounds: s.rounds.update(
                        k,
                        crate::types::RoundView {
                            grants: grants.update(g, GrantView { is_canceled: true, ..grants[g] }),
                            ..s.rounds[k]
                        },
                    ),
                    ..s
                })
            &&& e == Event::GrantCanceled(round_index, project_index)
        }),
{
    let grants = s.rounds[round_index as int].grants;
    lemma_first_index_some(grants, of_project(project_index));
    let g = crate::model::grant_position(grants, project_index)->0;
    assert(is_project_grant(grants, project_index, g));
}

// ---------------------------------------------------------------------------
// Settings.

/// The settings take exactly the value given, refusing zero for the maximum
/// number of projects and for the withdrawal period, and change nothing else.
pub proof fn law_settings(s: ModuleView, n: u32, is_identity_needed: bool)
    ensures
        n == 0 ==> s.set_max_round_grants(n) is Err && s.set_withdrawal_period(n) is Err,
        n > 0 ==> s.set_max_round_grants(n) == Ok::<ModuleView, Error>(
            ModuleView { max_round_grants: n, ..s },
        ),
        n > 0 ==> s.set_withdrawal_period(n) == Ok::<ModuleView, Error>(
            ModuleView { withdrawal_period: n, ..s },
        ),
        s.set_is_identity_needed(is_identity_needed) == (ModuleView { is_identity_needed, ..s }),
{
}

// ---------------------------------------------------------------------------
// When each call succeeds.

/// A signed donation is always taken once its payment went through, and
/// whoever is not signed is refused with `BadOrigin`.
pub proof fn law_fund_accepts(s: ModuleView, origin: Origin, amount: Balance, paid: Result<(), CurrencyError>)
    ensures
        origin is Signed ==> s.fund_payment(origin, amount) is Ok,
        (origin is Signed && paid is Ok) ==> s.fund(origin, amount, paid) is Ok,
        !(origin is Signed) ==> s.fund(origin, amount, paid) == Err::<(ModuleView, Event), Error>(
            Error::BadOrigin,
        ),
{
}

/// Root schedules a round whenever the unused fund covers its pool, it names
/// fewer projects than the maximum, its window is non-empty and in the future,
/// it starts after the end of the last round that is not canceled, and there
/// is room for one more round. Whoever is not root is refused with `BadOrigin`.
pub proof fn law_schedule_round_accepts(
    s: ModuleView,
    now: BlockNumber,
    start: BlockNumber,
    end: BlockNumber,
    matching_fund: Balance,
    project_indexes: Seq<ProjectIndex>,
)
    requires
        matching_fund <= s.unused_fund,
        project_indexes.len() < s.max_round_grants,
        now < start < end,
        forall|k: int|
            0 <= k < s.rounds.len() && !(#[trigger] s.rounds[k]).is_canceled ==> s.rounds[k].end
                < start,
        s.rounds.len() < u32::MAX,
    ensures
        s.schedule_round(Origin::Root, now, start, end, matching_fund, project_indexes) is Ok,
{
    if let Some(k) = crate::model::last_valid_round(s.rounds) {
        crate::search::lemma_last_index_some(s.rounds, crate::model::is_valid_round());
        assert(!s.rounds[k].is_canceled);
    }
}

/// Whoever is not root is refused with `BadOrigin` by every call that root
/// alone may make.
pub proof fn law_root_only(
    s: ModuleView,
    origin: Origin,
    now: BlockNumber,
    start: BlockNumber,
    end: BlockNumber,
    matching_fund: Balance,
    project_indexes: Seq<ProjectIndex>,
    round_index: GrantRoundIndex,
    project_index: ProjectIndex,
)
    requires
        !(origin is Root),
    ensures
        s.schedule_round(origin, now, start, end, matching_fund, project_indexes) == Err::<
            (ModuleView, Event),
            Error,
        >(Error::BadOrigin),
        s.cancel_round(origin, now, round_index) == Err::<(ModuleView, Event), Error>(
            Error::BadOrigin,
        ),
        s.finalize_round(origin, now, round_index) == Err::<ModuleView, Error>(Error::BadOrigin),
        s.approve(origin, now, round_index, project_index) == Err::<(ModuleView, Event), Error>(
            Error::BadOrigin,
        ),
        s.cancel(origin, round_index, project_index) == Err::<(ModuleView, Event), Error>(
            Error::BadOrigin,
        ),
{
}

/// Whoever is not signed is refused with `BadOrigin` by every call that a
/// signed account makes.
pub proof fn law_signed_only(
    s: ModuleView,
    origin: Origin,
    identity: Option<Seq<Judgement>>,
    name: Seq<u8>,
    logo: Seq<u8>,
    description: Seq<u8>,
    website: Seq<u8>,
    now: BlockNumber,
    round_index: GrantRoundIndex,
    project_index: ProjectIndex,
    value: Balance,
    paid: Result<(), CurrencyError>,
)
    requires
        !(origin is Signed),
    ensures
        s.create_project(origin, identity, name, logo, description, website) == Err::<
            (ModuleView, Event),
            Error,
        >(Error::BadOrigin),
        s.contribution_payment(origin, now, project_index, value) == Err::<
            crate::model::Transfer,
            Error,
        >(Error::BadOrigin),
        s.contribute(origin, now, project_index, value, paid) == Err::<(ModuleView, Event), Error>(
            Error::BadOrigin,
        ),
        s.withdrawal_payments(origin, now, round_index, project_index) is Err,
        s.withdraw(origin, now, round_index, project_index, paid) is Err,
{
}

/// Root cancels any round that exists, has not started and is not canceled yet.
pub proof fn law_cancel_round_accepts(s: ModuleView, now: BlockNumber, round_index: GrantRoundIndex)
    requires
        round_index < s.rounds.len(),
        now < s.rounds[round_index as int].start,
        !s.rounds[round_index as int].is_canceled,
    ensures
        s.cancel_round(Origin::Root, now, round_index) is Ok,
{
}

/// Root finalizes any round that exists, has ended, and is neither canceled
/// nor finalized yet.
pub proof fn law_finalize_round_accepts(s: ModuleView, now: BlockNumber, round_index: GrantRoundIndex)
    requires
        round_index < s.rounds.len(),
        s.rounds[round_index as int].end < now,
        !s.rounds[round_index as int].is_canceled,
        !s.rounds[round_index as int].is_finalized,
    ensures
        s.finalize_round(Origin::Root, now, round_index) is Ok,
{
}

/// A signed account may contribute to a project whenever some round is open
/// at the block (not canceled, the block strictly inside its window) and the
/// first grant of the project in the first such round is not canceled; once
/// paid, the contribution is taken.
pub proof fn law_contribution_accepts(
    s: ModuleView,
    who: crate::types::AccountId,
    now: BlockNumber,
    project_index: ProjectIndex,
    value: Balance,
    paid: Result<(), CurrencyError>,
    k: int,
    g: int,
)
    requires
        0 <= k < s.rounds.len(),
        !s.rounds[k].is_canceled && s.rounds[k].start < now && now < s.rounds[k].end,
        forall|j: int|
            0 <= j < k ==> (#[trigger] s.rounds[j]).is_canceled || now <= s.rounds[j].start
                || s.rounds[j].end <= now,
        is_project_grant(s.rounds[k].grants, project_index, g),
        !s.rounds[k].grants[g].is_canceled,
    ensures
        s.contribution_payment(Origin::Signed(who), now, project_index, value) is Ok,
        paid is Ok ==> s.contribute(Origin::Signed(who), now, project_index, value, paid) is Ok,
        paid is Err ==> s.contribute(Origin::Signed(who), now, project_index, value, paid) == Err::<
            (ModuleView, Event),
            Error,
        >(Error::Currency(paid->Err_0)),
{
    assert(crate::search::is_first(s.rounds, processing_at(now), k));
    crate::search::lemma_first_index_is(s.rounds, processing_at(now), k);
    assert(crate::search::is_first(s.rounds[k].grants, of_project(project_index), g));
    crate::search::lemma_first_index_is(s.rounds[k].grants, of_project(project_index), g);
}

/// Where no round is open at the block, a contribution is refused.
pub proof fn law_contribution_needs_open_round(
    s: ModuleView,
    origin: Origin,
    now: BlockNumber,
    project_index: ProjectIndex,
    value: Balance,
)
    requires
        forall|j: int|
            0 <= j < s.rounds.len() ==> (#[trigger] s.rounds[j]).is_canceled || now
                <= s.rounds[j].start || s.rounds[j].end <= now,
    ensures
        s.contribution_payment(origin, now, project_index, value) is Err,
{
    crate::search::lemma_first_index_none(s.rounds, processing_at(now));
}

/// Root approves the first grant of a project in a round that exists, has
/// ended and is not canceled, whenever that grant is not canceled.
pub proof fn law_approve_accepts(
    s: ModuleView,
    now: BlockNumber,
    round_index: GrantRoundIndex,
    project_index: ProjectIndex,
    g: int,
)
    requires
        round_index < s.rounds.len(),
        !s.rounds[round_index as int].is_canceled,
        s.rounds[round_index as int].end < now,
        is_project_grant(s.rounds[round_index as int].grants, project_index, g),
        !s.rounds[round_index as int].grants[g].is_canceled,
    ensures
        s.approve(Origin::Root, now, round_index, project_index) is Ok,
{
    crate::search::lemma_first_index_is(
        s.rounds[round_index as int].grants,
        of_project(project_index),
        g,
    );
}

/// Root cancels the first grant of a project in a round that exists and is
/// neither canceled nor finalized, whenever that grant is neither canceled
/// nor approved.
pub proof fn law_cancel_accepts(
    s: ModuleView,
    round_index: GrantRoundIndex,
    project_index: ProjectIndex,
    g: int,
)
    requires
        round_index < s.rounds.len(),
        !s.rounds[round_index as int].is_canceled,
        !s.rounds[round_index as int].is_finalized,
        is_project_grant(s.rounds[round_index as int].grants, project_index, g),
        !s.rounds[round_index as int].grants[g].is_canceled,
        !s.rounds[round_index as int].grants[g].is_approved,
    ensures
        s.cancel(Origin::Root, round_index, project_index) is Ok,
{
    crate::search::lemma_first_index_is(
        s.rounds[round_index as int].grants,
        of_project(project_index),
        g,
    );
}

/// The owner of a project withdraws the first grant of the project in a round
/// whenever it is approved, not withdrawn, and the block is within its
/// withdrawal period; once paid, the withdrawal is taken. No one else may
/// withdraw it.
pub proof fn law_withdraw_accepts(
    s: ModuleView,
    origin: Origin,
    now: BlockNumber,
    round_index: GrantRoundIndex,
    project_index: ProjectIndex,
    paid: Result<(), CurrencyError>,
    g: int,
)
    requires
        project_index < s.projects.len(),
        round_index < s.rounds.len(),
        is_project_grant(s.rounds[round_index as int].grants, project_index, g),
        s.rounds[round_index as int].grants[g].is_approved,
        !s.rounds[round_index as int].grants[g].is_withdrawn,
        now <= s.rounds[round_index as int].grants[g].withdrawal_period,
    ensures
        origin == Origin::Signed(s.projects[project_index as int].owner) ==> s.withdrawal_payments(
            origin,
            now,
            round_index,
            project_index,
        ) is Ok,
        (origin == Origin::Signed(s.projects[project_index as int].owner) && paid is Ok)
            ==> s.withdraw(origin, now, round_index, project_index, paid) is Ok,
        origin != Origin::Signed(s.projects[project_index as int].owner) ==> s.withdrawal_payments(
            origin,
            now,
            round_index,
            project_index,
        ) is Err,
{
    crate::search::lemma_first_index_is(
        s.rounds[round_index as int].grants,
        of_project(project_index),
        g,
    );
}

} // verus!
