//! The pallet as mathematics: its state as a value, and for each call the
//! outcome as a function of the state before, the caller, the current block and
//! the arguments: either an error, with the state untouched, or the state after
//! and the event that the call emits.
use vstd::prelude::*;

use crate::account::{pot_account_id, project_account_id_of};
use crate::quadratic::{clr, share, sharing_fits, total_clr};
use crate::search::{first_index, last_index};
use crate::types::{
    AccountId, Balance, BlockNumber, Contribution, GrantRoundIndex, GrantView, ProjectIndex,
    ProjectView, RoundView, fresh_grant,
};

verus! {

/// Who makes a call: the chain's root authority, a signed account, or nobody.
#[derive(Clone, Copy, Debug)]
pub enum Origin {
    Root,
    Signed(AccountId),
    Unsigned,
}

/// A registrar's judgement of an identity.
#[derive(Clone, Copy, Debug, PartialEq, Eq, Structural)]
pub enum Judgement {
    Unknown,
    FeePaid(Balance),
    Reasonable,
    KnownGood,
    OutOfDate,
    LowQuality,
    Erroneous,
}

/// Why the currency refused a movement of funds.
#[derive(Clone, Copy, Debug, PartialEq, Eq, Structural)]
pub enum CurrencyError {
    InsufficientBalance,
    ExistentialDeposit,
    KeepAlive,
    LiquidityRestrictions,
    Overflow,
    DeadAccount,
    Other,
}

/// Why a call failed.
#[derive(Clone, Copy, Debug, PartialEq, Eq, Structural)]
pub enum Error {
    NoneValue,
    StorageOverflow,
    Overflow,
    RoundStarted,
    RoundNotEnded,
    StartBlockNumberInvalid,
    EndBlockNumberInvalid,
    EndTooEarly,
    NoActiveRound,
    NoActiveGrant,
    InvalidParam,
    GrantCanceled,
    GrantWithdrawn,
    GrantNotAllowWithdraw,
    GrantApproved,
    GrantNotApproved,
    InvalidAccount,
    IdentityNeeded,
    StartBlockNumberTooSmall,
    RoundNotProcessing,
    RoundCanceled,
    RoundFinalized,
    GrantAmountExceed,
    WithdrawalPeriodExceed,
    NotEnoughFund,
    /// The call came from an origin that it does not accept.
    BadOrigin,
    /// A movement of funds that the call needs was refused.
    Currency(CurrencyError),
}

/// What a successful call announces.
#[derive(Clone, Copy, Debug, PartialEq, Eq)]
pub enum Event {
    ProjectCreated(ProjectIndex),
    GrantRoundCreated(GrantRoundIndex),
    ContributeSucceed(AccountId, ProjectIndex, Balance, BlockNumber),
    GrantCanceled(GrantRoundIndex, ProjectIndex),
    GrantWithdrawn(GrantRoundIndex, ProjectIndex, Balance, Balance),
    GrantAllowedWithdraw(GrantRoundIndex, ProjectIndex),
    RoundCanceled(GrantRoundIndex),
    FundSucceed,
}

/// A movement of `amount` from account `from` to account `to`, which the
/// currency carries out on behalf of a call.
#[derive(Clone, Copy, Debug)]
pub struct Transfer {
    pub from: AccountId,
    pub to: AccountId,
    pub amount: Balance,
}

/// The state of the pallet.
pub struct ModuleView {
    /// The identifier from which the pot and project accounts derive.
    pub module_id: [u8; 8],
    /// The projects, by index.
    pub projects: Seq<ProjectView>,
    /// The grant rounds, by index.
    pub rounds: Seq<RoundView>,
    /// How many projects a round may admit.
    pub max_round_grants: u32,
    /// For how many blocks after approval (or withdrawal) a grant may be withdrawn.
    pub withdrawal_period: BlockNumber,
    /// The donations in the pot that no round has set aside yet.
    pub unused_fund: Balance,
    /// Whether a project's owner needs a verified identity.
    pub is_identity_needed: bool,
}

/// The account that signed the call.
pub open spec fn signer(origin: Origin) -> Result<AccountId, Error> {
    match origin {
        Origin::Signed(who) => Ok(who),
        _ => Err(Error::BadOrigin),
    }
}

/// Whether some registrar judged the identity reasonable or known-good.
pub open spec fn is_judged_good(judgements: Seq<Judgement>) -> bool {
    exists|i: int|
        0 <= i < judgements.len() && (#[trigger] judgements[i] == Judgement::Reasonable
            || judgements[i] == Judgement::KnownGood)
}

/// Whether a grant is one of project `project_index`.
pub open spec fn of_project(project_index: ProjectIndex) -> spec_fn(GrantView) -> bool {
    |g: GrantView| g.project_index == project_index
}

/// Whether a contribution is one of account `who`.
pub open spec fn of_account(who: AccountId) -> spec_fn(Contribution) -> bool {
    |c: Contribution| c.account_id == who
}

/// The position of the first grant of project `project_index` in a round.
pub open spec fn grant_position(grants: Seq<GrantView>, project_index: ProjectIndex) -> Option<int> {
    first_index(grants, of_project(project_index))
}

/// The position of the first contribution of account `who`.
pub open spec fn contribution_position(contributions: Seq<Contribution>, who: AccountId) -> Option<
    int,
> {
    first_index(contributions, of_account(who))
}

/// Whether a round takes contributions at block `now`: not canceled, and
/// `now` strictly inside its window.
pub open spec fn is_processing(round: RoundView, now: BlockNumber) -> bool {
    !round.is_canceled && round.start < now && now < round.end
}

/// Whether a round takes contributions at block `now`.
pub open spec fn processing_at(now: BlockNumber) -> spec_fn(RoundView) -> bool {
    |r: RoundView| is_processing(r, now)
}

/// Whether a round is not canceled.
pub open spec fn is_valid_round() -> spec_fn(RoundView) -> bool {
    |r: RoundView| !r.is_canceled
}

/// The first round that takes contributions at block `now`.
pub open spec fn processing_round(rounds: Seq<RoundView>, now: BlockNumber) -> Option<int> {
    first_index(rounds, processing_at(now))
}

/// The last round that is not canceled.
pub open spec fn last_valid_round(rounds: Seq<RoundView>) -> Option<int> {
    last_index(rounds, is_valid_round())
}

/// The contributions after `who` gives `value` more: added to the first
/// contribution of `who`, or a new contribution at the end.
pub open spec fn add_contribution(
    contributions: Seq<Contribution>,
    who: AccountId,
    value: Balance,
) -> Seq<Contribution> {
    match contribution_position(contributions, who) {
        Some(c) => contributions.update(
            c,
            Contribution { account_id: who, value: (contributions[c].value + value) as u128 },
        ),
        None => contributions.push(Contribution { account_id: who, value }),
    }
}

/// The sum of the values of the contributions.
pub open spec fn contribution_total(contributions: Seq<Contribution>) -> nat
    decreases contributions.len(),
{
    if contributions.len() == 0 {
        0
    } else {
        contribution_total(contributions.drop_last()) + contributions.last().value as nat
    }
}

/// A round after finalization: every grant that is not canceled gets its share
/// of the matching pool.
pub open spec fn finalized_round(round: RoundView) -> RoundView {
    RoundView {
        grants: Seq::new(
            round.grants.len(),
            |i: int|
                if round.grants[i].is_canceled {
                    round.grants[i]
                } else {
                    GrantView {
                        matching_fund: share(
                            round.matching_fund as nat,
                            clr(round.grants[i]),
                            total_clr(round.grants),
                        ) as u128,
                        ..round.grants[i]
                    }
                },
        ),
        is_finalized: true,
        ..round
    }
}

/// A round in which grant `g` is replaced.
pub open spec fn with_grant(round: RoundView, g: int, grant: GrantView) -> RoundView {
    RoundView { grants: round.grants.update(g, grant), ..round }
}

impl ModuleView {
    /// The state with round `k` replaced.
    pub open spec fn with_round(self, k: int, round: RoundView) -> ModuleView {
        ModuleView { rounds: self.rounds.update(k, round), ..self }
    }

    /// Creating a project: the caller must be signed, verified by a registrar
    /// if identities are needed, and give four non-empty texts; the project
    /// gets the next index.
    pub open spec fn create_project(
        self,
        origin: Origin,
        identity: Option<Seq<Judgement>>,
        name: Seq<u8>,
        logo: Seq<u8>,
        description: Seq<u8>,
        website: Seq<u8>,
    ) -> Result<(ModuleView, Event), Error> {
        match origin {
            Origin::Signed(who) => {
                if self.is_identity_needed && !(identity matches Some(js) && is_judged_good(js)) {
                    Err(Error::IdentityNeeded)
                } else if name.len() == 0 || logo.len() == 0 || description.len() == 0
                    || website.len() == 0 {
                    Err(Error::InvalidParam)
                } else if self.projects.len() >= u32::MAX {
                    Err(Error::Overflow)
                } else {
                    let project = ProjectView { name, logo, description, website, owner: who };
                    Ok(
                        (
                            ModuleView { projects: self.projects.push(project), ..self },
                            Event::ProjectCreated(self.projects.len() as u32),
                        ),
                    )
                }
            },
            _ => Err(Error::BadOrigin),
        }
    }

    /// The movement that a donation of `amount` to the pot needs.
    pub open spec fn fund_payment(self, origin: Origin, amount: Balance) -> Result<Transfer, Error> {
        match origin {
            Origin::Signed(who) => Ok(
                Transfer { from: who, to: pot_account_id(self.module_id), amount },
            ),
            _ => Err(Error::BadOrigin),
        }
    }

    /// Donating `amount` to the pot, given what became of the payment.
    pub open spec fn fund(self, origin: Origin, amount: Balance, paid: Result<(), CurrencyError>) -> Result<
        (ModuleView, Event),
        Error,
    > {
        match self.fund_payment(origin, amount) {
            Err(e) => Err(e),
            Ok(_) => match paid {
                Err(c) => Err(Error::Currency(c)),
                Ok(_) => Ok(
                    (
                        ModuleView { unused_fund: (self.unused_fund + amount) as u128, ..self },
                        Event::FundSucceed,
                    ),
                ),
            },
        }
    }

    /// Whether a donation stays within `u128`.
    pub open spec fn fund_fits(self, origin: Origin, amount: Balance, paid: Result<(), CurrencyError>) -> bool {
        (origin is Signed && paid is Ok) ==> self.unused_fund + amount <= u128::MAX
    }

    /// Scheduling a round: only root; the pool must be covered by the unused
    /// fund, the projects fewer than the maximum, the window non-empty, in
    /// the future, and after the end of the last round that is not canceled.
    /// The pool is set aside from the unused fund.
    pub open spec fn schedule_round(
        self,
        origin: Origin,
        now: BlockNumber,
        start: BlockNumber,
        end: BlockNumber,
        matching_fund: Balance,
        project_indexes: Seq<ProjectIndex>,
    ) -> Result<(ModuleView, Event), Error> {
        if !(origin is Root) {
            Err(Error::BadOrigin)
        } else if matching_fund > self.unused_fund {
            Err(Error::NotEnoughFund)
        } else if project_indexes.len() >= self.max_round_grants {
            Err(Error::GrantAmountExceed)
        } else if end <= start {
            Err(Error::EndTooEarly)
        } else if start <= now {
            Err(Error::StartBlockNumberInvalid)
        } else if end <= now {
            Err(Error::EndBlockNumberInvalid)
        } else if last_valid_round(self.rounds) matches Some(k) && start <= self.rounds[k].end {
            Err(Error::StartBlockNumberTooSmall)
        } else if self.rounds.len() >= u32::MAX {
            Err(Error::Overflow)
        } else {
            let round = RoundView {
                start,
                end,
                matching_fund,
                grants: project_indexes.map_values(|p: ProjectIndex| fresh_grant(p)),
                is_canceled: false,
                is_finalized: false,
            };
            Ok(
                (
                    ModuleView {
                        rounds: self.rounds.push(round),
                        unused_fund: (self.unused_fund - matching_fund) as u128,
                        ..self
                    },
                    Event::GrantRoundCreated(self.rounds.len() as u32),
                ),
            )
        }
    }

    /// Canceling a round that has not started: only root; the pool returns to
    /// the unused fund. The event carries the index of the last round.
    pub open spec fn cancel_round(self, origin: Origin, now: BlockNumber, round_index: GrantRoundIndex) -> Result<
        (ModuleView, Event),
        Error,
    > {
        if !(origin is Root) {
            Err(Error::BadOrigin)
        } else if round_index >= self.rounds.len() {
            Err(Error::NoActiveRound)
        } else if self.rounds[round_index as int].start <= now {
            Err(Error::RoundStarted)
        } else if self.rounds[round_index as int].is_canceled {
            Err(Error::RoundCanceled)
        } else {
            let round = self.rounds[round_index as int];
            Ok(
                (
                    ModuleView {
                        rounds: self.rounds.update(
                            round_index as int,
                            RoundView { is_canceled: true, ..round },
                        ),
                        unused_fund: (self.unused_fund + round.matching_fund) as u128,
                        ..self
                    },
                    Event::RoundCanceled((self.rounds.len() - 1) as u32),
                ),
            )
        }
    }

    /// Whether canceling a round stays within `u128`.
    pub open spec fn cancel_round_fits(self, origin: Origin, now: BlockNumber, round_index: GrantRoundIndex) -> bool {
        self.cancel_round(origin, now, round_index) is Ok ==> self.unused_fund
            + self.rounds[round_index as int].matching_fund <= u128::MAX
    }

    /// Finalizing a round that has ended: only root; the round must be
    /// neither canceled nor finalized; the pool is shared out.
    pub open spec fn finalize_round(self, origin: Origin, now: BlockNumber, round_index: GrantRoundIndex) -> Result<
        ModuleView,
        Error,
    > {
        if !(origin is Root) {
            Err(Error::BadOrigin)
        } else if round_index >= self.rounds.len() {
            Err(Error::NoActiveRound)
        } else if self.rounds[round_index as int].is_canceled {
            Err(Error::RoundCanceled)
        } else if self.rounds[round_index as int].is_finalized {
            Err(Error::RoundFinalized)
        } else if now <= self.rounds[round_index as int].end {
            Err(Error::RoundNotEnded)
        } else {
            Ok(self.with_round(round_index as int, finalized_round(self.rounds[round_index as int])))
        }
    }

    /// Whether finalizing a round stays within `u128` and divides by no zero.
    pub open spec fn finalize_round_fits(self, origin: Origin, now: BlockNumber, round_index: GrantRoundIndex) -> bool {
        self.finalize_round(origin, now, round_index) is Ok ==> sharing_fits(
            self.rounds[round_index as int].matching_fund as nat,
            self.rounds[round_index as int].grants,
        )
    }

    /// The round and the grant that a contribution to project `project_index`
    /// at block `now` goes to: the first grant of the project in the first
    /// round that takes contributions, which must not be canceled.
    pub open spec fn contribution_target(self, origin: Origin, now: BlockNumber, project_index: ProjectIndex) -> Result<
        (int, int),
        Error,
    > {
        match origin {
            Origin::Signed(who) => {
                if self.rounds.len() == 0 {
                    Err(Error::NoActiveRound)
                } else {
                    match processing_round(self.rounds, now) {
                        None => Err(Error::RoundNotProcessing),
                        Some(k) => match grant_position(self.rounds[k].grants, project_index) {
                            None => Err(Error::NoActiveGrant),
                            Some(g) => if self.rounds[k].grants[g].is_canceled {
                                Err(Error::GrantCanceled)
                            } else {
                                Ok((k, g))
                            },
                        },
                    }
                }
            },
            _ => Err(Error::BadOrigin),
        }
    }

    /// The movement that a contribution needs: from the caller to the
    /// project's account.
    pub open spec fn contribution_payment(
        self,
        origin: Origin,
        now: BlockNumber,
        project_index: ProjectIndex,
        value: Balance,
    ) -> Result<Transfer, Error> {
        match self.contribution_target(origin, now, project_index) {
            Err(e) => Err(e),
            Ok(_) => Ok(
                Transfer {
                    from: signer(origin)->Ok_0,
                    to: project_account_id_of(self.module_id, project_index),
                    amount: value,
                },
            ),
        }
    }

    /// Contributing `value` to a project, given what became of the payment:
    /// the contribution is recorded in the grant of the round in progress.
    pub open spec fn contribute(
        self,
        origin: Origin,
        now: BlockNumber,
        project_index: ProjectIndex,
        value: Balance,
        paid: Result<(), CurrencyError>,
    ) -> Result<(ModuleView, Event), Error> {
        match self.contribution_target(origin, now, project_index) {
            Err(e) => Err(e),
            Ok((k, g)) => match paid {
                Err(c) => Err(Error::Currency(c)),
                Ok(_) => {
                    let who = signer(origin)->Ok_0;
                    let round = self.rounds[k];
                    let grant = round.grants[g];
                    let grant2 = GrantView {
                        contributions: add_contribution(grant.contributions, who, value),
                        ..grant
                    };
                    Ok(
                        (
                            self.with_round(k, with_grant(round, g, grant2)),
                            Event::ContributeSucceed(who, project_index, value, now),
                        ),
                    )
                },
            },
        }
    }

    /// Whether a contribution stays within `u128`.
    pub open spec fn contribute_fits(self, origin: Origin, now: BlockNumber, project_index: ProjectIndex, value: Balance) -> bool {
        self.contribution_target(origin, now, project_index) matches Ok((k, g)) ==> {
            let cs = self.rounds[k].grants[g].contributions;
            contribution_position(cs, signer(origin)->Ok_0) matches Some(c) ==> cs[c].value + value
                <= u128::MAX
        }
    }

    /// Approving a grant of a round that has ended: only root; the round must
    /// not be canceled, nor the grant; the grant may be withdrawn until
    /// `now` plus the withdrawal period.
    pub open spec fn approve(self, origin: Origin, now: BlockNumber, round_index: GrantRoundIndex, project_index: ProjectIndex) -> Result<
        (ModuleView, Event),
        Error,
    > {
        if !(origin is Root) {
            Err(Error::BadOrigin)
        } else if round_index >= self.rounds.len() {
            Err(Error::NoActiveRound)
        } else if self.rounds[round_index as int].is_canceled {
            Err(Error::RoundCanceled)
        } else if now <= self.rounds[round_index as int].end {
            Err(Error::RoundNotEnded)
        } else {
            let round = self.rounds[round_index as int];
            match grant_position(round.grants, project_index) {
                None => Err(Error::NoActiveGrant),
                Some(g) => if round.grants[g].is_canceled {
                    Err(Error::GrantCanceled)
                } else {
                    let grant2 = GrantView {
                        is_approved: true,
                        withdrawal_period: (now + self.withdrawal_period) as u32,
                        ..round.grants[g]
                    };
                    Ok(
                        (
                            self.with_round(round_index as int, with_grant(round, g, grant2)),
                            Event::GrantAllowedWithdraw(round_index, project_index),
                        ),
                    )
                },
            }
        }
    }

    /// Whether approving stays within the block numbers.
    pub open spec fn approve_fits(self, origin: Origin, now: BlockNumber, round_index: GrantRoundIndex, project_index: ProjectIndex) -> bool {
        self.approve(origin, now, round_index, project_index) is Ok ==> now + self.withdrawal_period
            <= u32::MAX
    }

    /// The grant that a withdrawal takes from: the caller must own the
    /// project; the grant must be approved, not withdrawn, and within its
    /// withdrawal period.
    pub open spec fn withdrawal_target(
        self,
        origin: Origin,
        now: BlockNumber,
        round_index: GrantRoundIndex,
        project_index: ProjectIndex,
    ) -> Result<int, Error> {
        match origin {
            Origin::Signed(who) => {
                if project_index >= self.projects.len() {
                    Err(Error::NoActiveGrant)
                } else if who != self.projects[project_index as int].owner {
                    Err(Error::InvalidAccount)
                } else if round_index >= self.rounds.len() {
                    Err(Error::NoActiveRound)
                } else {
                    let round = self.rounds[round_index as int];
                    match grant_position(round.grants, project_index) {
                        None => Err(Error::NoActiveGrant),
                        Some(g) => if now > round.grants[g].withdrawal_period {
                            Err(Error::WithdrawalPeriodExceed)
                        } else if !round.grants[g].is_approved {
                            Err(Error::GrantNotApproved)
                        } else if round.grants[g].is_withdrawn {
                            Err(Error::GrantWithdrawn)
                        } else {
                            Ok(g)
                        },
                    }
                }
            },
            _ => Err(Error::BadOrigin),
        }
    }

    /// The movements that a withdrawal needs, in order: the grant's share of
    /// the pool from the pot to the owner, then the contributions from the
    /// project's account to the owner.
    pub open spec fn withdrawal_payments(
        self,
        origin: Origin,
        now: BlockNumber,
        round_index: GrantRoundIndex,
        project_index: ProjectIndex,
    ) -> Result<(Transfer, Transfer), Error> {
        match self.withdrawal_target(origin, now, round_index, project_index) {
            Err(e) => Err(e),
            Ok(g) => {
                let owner = self.projects[project_index as int].owner;
                let grant = self.rounds[round_index as int].grants[g];
                Ok(
                    (
                        Transfer {
                            from: pot_account_id(self.module_id),
                            to: owner,
                            amount: grant.matching_fund,
                        },
                        Transfer {
                            from: project_account_id_of(self.module_id, project_index),
                            to: owner,
                            amount: contribution_total(grant.contributions) as u128,
                        },
                    ),
                )
            },
        }
    }

    /// Withdrawing a grant, given what became of the payments: the grant is
    /// marked withdrawn and its period restarts at `now`.
    pub open spec fn withdraw(
        self,
        origin: Origin,
        now: BlockNumber,
        round_index: GrantRoundIndex,
        project_index: ProjectIndex,
        paid: Result<(), CurrencyError>,
    ) -> Result<(ModuleView, Event), Error> {
        match self.withdrawal_target(origin, now, round_index, project_index) {
            Err(e) => Err(e),
            Ok(g) => match paid {
                Err(c) => Err(Error::Currency(c)),
                Ok(_) => {
                    let round = self.rounds[round_index as int];
                    let grant = round.grants[g];
                    let grant2 = GrantView {
                        is_withdrawn: true,
                        withdrawal_period: (now + self.withdrawal_period) as u32,
                        ..grant
                    };
                    Ok(
                        (
                            self.with_round(round_index as int, with_grant(round, g, grant2)),
                            Event::GrantWithdrawn(
                                round_index,
                                project_index,
                                grant.matching_fund,
                                contribution_total(grant.contributions) as u128,
                            ),
                        ),
                    )
                },
            },
        }
    }

    /// Whether the contributions to the grant that a withdrawal takes from add
    /// up to no more than `u128::MAX`.
    pub open spec fn withdrawal_total_fits(
        self,
        origin: Origin,
        now: BlockNumber,
        round_index: GrantRoundIndex,
        project_index: ProjectIndex,
    ) -> bool {
        self.withdrawal_target(origin, now, round_index, project_index) matches Ok(g)
            ==> contribution_total(self.rounds[round_index as int].grants[g].contributions)
            <= u128::MAX
    }

    /// Whether a withdrawal stays within `u128` and the block numbers.
    pub open spec fn withdraw_fits(
        self,
        origin: Origin,
        now: BlockNumber,
        round_index: GrantRoundIndex,
        project_index: ProjectIndex,
        paid: Result<(), CurrencyError>,
    ) -> bool {
        &&& self.withdrawal_total_fits(origin, now, round_index, project_index)
        &&& (self.withdrawal_target(origin, now, round_index, project_index) is Ok && paid is Ok)
            ==> now + self.withdrawal_period <= u32::MAX
    }

    /// Canceling a grant: only root; the round must be neither canceled nor
    /// finalized, the grant neither canceled nor approved.
    pub open spec fn cancel(self, origin: Origin, round_index: GrantRoundIndex, project_index: ProjectIndex) -> Result<
        (ModuleView, Event),
        Error,
    > {
        if !(origin is Root) {
            Err(Error::BadOrigin)
        } else if round_index >= self.rounds.len() {
            Err(Error::NoActiveRound)
        } else if self.rounds[round_index as int].is_canceled {
            Err(Error::RoundCanceled)
        } else if self.rounds[round_index as int].is_finalized {
            Err(Error::RoundFinalized)
        } else {
            let round = self.rounds[round_index as int];
            match grant_position(round.grants, project_index) {
                None => Err(Error::NoActiveGrant),
                Some(g) => if round.grants[g].is_canceled {
                    Err(Error::GrantCanceled)
                } else if round.grants[g].is_approved {
                    Err(Error::GrantApproved)
                } else {
                    let grant2 = GrantView { is_canceled: true, ..round.grants[g] };
                    Ok(
                        (
                            self.with_round(round_index as int, with_grant(round, g, grant2)),
                            Event::GrantCanceled(round_index, project_index),
                        ),
                    )
                },
            }
        }
    }

    /// Setting how many projects a round may admit: zero is refused.
    pub open spec fn set_max_round_grants(self, max_round_grants: u32) -> Result<ModuleView, Error> {
        if max_round_grants == 0 {
            Err(Error::InvalidParam)
        } else {
            Ok(ModuleView { max_round_grants, ..self })
        }
    }

    /// Setting the withdrawal period: zero is refused.
    pub open spec fn set_withdrawal_period(self, withdrawal_period: BlockNumber) -> Result<ModuleView, Error> {
        if withdrawal_period == 0 {
            Err(Error::InvalidParam)
        } else {
            Ok(ModuleView { withdrawal_period, ..self })
        }
    }

    /// Setting whether owners need a verified identity.
    pub open spec fn set_is_identity_needed(self, is_identity_needed: bool) -> ModuleView {
        ModuleView { is_identity_needed, ..self }
    }
}

} // verus!
