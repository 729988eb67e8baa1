//! The pallet's state and its calls. Each call checks its caller and
//! arguments in the order the pallet always has, and either fails with the
//! state untouched or makes its change; each call's contract is the matching
//! function of [`crate::model`].
//!
//! Calls that move funds come in two steps: `*_payment(s)` says which
//! movements the call needs (or why it fails), the caller has the currency
//! carry them out, and the call itself takes what became of them.
use vstd::prelude::*;

use crate::account::{
    derive_pot_account, derive_project_account, pot_account, pot_account_id, project_account,
    project_account_id_of, same_account,
};
use crate::model::{
    CurrencyError, Error, Event, Judgement, ModuleView, Origin, Transfer, add_contribution,
    contribution_position, contribution_total, finalized_round, grant_position, is_judged_good,
    is_valid_round, last_valid_round, of_account, of_project, processing_at,
    processing_round, signer, with_grant,
};
use crate::search::{
    is_first, is_last, lemma_first_index_is, lemma_first_index_none, lemma_last_index_is,
    lemma_last_index_none,
};
use crate::types::{
    AccountId, Balance, BlockNumber, Contribution, Grant, GrantRound, GrantRoundIndex, GrantView,
    Project, ProjectIndex, RoundView,
};

verus! {

/// What the runtime configures the pallet with.
#[derive(Clone, Copy, Debug)]
pub struct Config {
    /// The identifier from which the pot and the project accounts derive.
    pub module_id: [u8; 8],
}

/// The values the pallet starts with.
#[derive(Clone, Copy, Debug)]
pub struct GenesisConfig {
    pub max_round_grants: u32,
    pub withdrawal_period: BlockNumber,
    pub is_identity_needed: bool,
}

/// The pallet and all that it stores.
pub struct Module {
    module_id: [u8; 8],
    projects: Vec<Project>,
    grant_rounds: Vec<GrantRound>,
    max_round_grants: u32,
    withdrawal_period: BlockNumber,
    unused_fund: Balance,
    is_identity_needed: bool,
}

impl View for Module {
    type V = ModuleView;

    closed spec fn view(&self) -> ModuleView {
        ModuleView {
            module_id: self.module_id,
            projects: self.projects@.map_values(|p: Project| p@),
            rounds: self.grant_rounds@.map_values(|r: GrantRound| r@),
            max_round_grants: self.max_round_grants,
            withdrawal_period: self.withdrawal_period,
            unused_fund: self.unused_fund,
            is_identity_needed: self.is_identity_needed,
        }
    }
}

/// The account that signed the call.
fn ensure_signed(origin: Origin) -> (r: Result<AccountId, Error>)
    ensures
        r == signer(origin),
{
    match origin {
        Origin::Signed(who) => Ok(who),
        _ => Err(Error::BadOrigin),
    }
}

/// Whether the call comes from root.
fn is_root(origin: Origin) -> (r: bool)
    ensures
        r == origin is Root,
{
    match origin {
        Origin::Root => true,
        _ => false,
    }
}

/// Whether some registrar judged the identity reasonable or known-good.
fn judged_good(judgements: &Vec<Judgement>) -> (r: bool)
    ensures
        r == is_judged_good(judgements@),
{
    let mut i: usize = 0;
    while i < judgements.len()
        invariant
            i <= judgements.len(),
            forall|k: int|
                0 <= k < i ==> !(#[trigger] judgements@[k] == Judgement::Reasonable
                    || judgements@[k] == Judgement::KnownGood),
        decreases judgements.len() - i,
    {
        match judgements[i] {
            Judgement::Reasonable | Judgement::KnownGood => {
                return true;
            },
            _ => {},
        }
        i = i + 1;
    }
    false
}

/// The position of the first grant of a project in a round.
fn find_grant(round: &GrantRound, project_index: ProjectIndex) -> (r: Option<usize>)
    ensures
        match r {
            Some(g) => g < round.grants.len() && grant_position(round@.grants, project_index) == Some(
                g as int,
            ),
            None => grant_position(round@.grants, project_index) is None,
        },
{
    let ghost gs = round@.grants;
    let mut i: usize = 0;
    while i < round.grants.len()
        invariant
            gs == round@.grants,
            i <= round.grants.len(),
            forall|k: int| 0 <= k < i ==> !of_project(project_index)(#[trigger] gs[k]),
        decreases round.grants.len() - i,
    {
        if round.grants[i].project_index == project_index {
            proof {
                assert(is_first(gs, of_project(project_index), i as int));
                lemma_first_index_is(gs, of_project(project_index), i as int);
            }
            return Some(i);
        }
        i = i + 1;
    }
    proof {
        lemma_first_index_none(gs, of_project(project_index));
    }
    None
}

/// The position of the first contribution of an account.
fn find_contribution(contributions: &Vec<Contribution>, who: &AccountId) -> (r: Option<usize>)
    ensures
        match r {
            Some(c) => c < contributions.len() && contribution_position(contributions@, *who)
                == Some(c as int),
            None => contribution_position(contributions@, *who) is None,
        },
{
    let mut i: usize = 0;
    while i < contributions.len()
        invariant
            i <= contributions.len(),
            forall|k: int| 0 <= k < i ==> !of_account(*who)(#[trigger] contributions@[k]),
        decreases contributions.len() - i,
    {
        if same_account(&contributions[i].account_id, who) {
            proof {
                assert(is_first(contributions@, of_account(*who), i as int));
                lemma_first_index_is(contributions@, of_account(*who), i as int);
            }
            return Some(i);
        }
        i = i + 1;
    }
    proof {
        lemma_first_index_none(contributions@, of_account(*who));
    }
    None
}

/// The sum of the values of the contributions, where it fits in a `u128`.
fn sum_contributions(contributions: &Vec<Contribution>) -> (r: Option<Balance>)
    ensures
        match r {
            Some(t) => t == contribution_total(contributions@),
            None => contribution_total(contributions@) > u128::MAX,
        },
{
    let mut total: Balance = 0;
    let mut i: usize = 0;
    while i < contributions.len()
        invariant
            i <= contributions.len(),
            total == contribution_total(contributions@.take(i as int)),
        decreases contributions.len() - i,
    {
        proof {
            assert(contributions@.take(i + 1).drop_last() =~= contributions@.take(i as int));
        }
        match total.checked_add(contributions[i].value) {
            Some(t) => {
                total = t;
            },
            None => {
                proof {
                    lemma_contribution_total_prefix(contributions@, i + 1);
                }
                return None;
            },
        }
        i = i + 1;
    }
    assert(contributions@.take(i as int) =~= contributions@);
    Some(total)
}

/// A prefix adds up to no more than the whole.
proof fn lemma_contribution_total_prefix(contributions: Seq<Contribution>, i: int)
    requires
        0 <= i <= contributions.len(),
    ensures
        contribution_total(contributions.take(i)) <= contribution_total(contributions),
    decreases contributions.len() - i,
{
    if i < contributions.len() {
        assert(contributions.take(i + 1).drop_last() =~= contributions.take(i));
        lemma_contribution_total_prefix(contributions, i + 1);
    } else {
        assert(contributions.take(i) =~= contributions);
    }
}

/// Gives each grant that is not canceled its share.
fn apply_shares(grants: &mut Vec<Grant>, shares: &Vec<Balance>)
    requires
        shares.len() == old(grants).len(),
    ensures
        final(grants)@.len() == old(grants)@.len(),
        forall|i: int|
            0 <= i < old(grants)@.len() ==> #[trigger] final(grants)@[i]@ == (if old(grants)@[i].is_canceled {
                old(grants)@[i]@
            } else {
                GrantView { matching_fund: shares@[i], ..old(grants)@[i]@ }
            }),
{
    let n = grants.len();
    let mut i: usize = 0;
    while i < n
        invariant
            n == old(grants)@.len(),
            n == shares.len(),
            grants@.len() == n,
            i <= n,
            forall|k: int|
                0 <= k < i ==> #[trigger] grants@[k]@ == (if old(grants)@[k].is_canceled {
                    old(grants)@[k]@
                } else {
                    GrantView { matching_fund: shares@[k], ..old(grants)@[k]@ }
                }),
            forall|k: int| i <= k < n ==> #[trigger] grants@[k] == old(grants)@[k],
        decreases n - i,
    {
        if !grants[i].is_canceled {
            grants[i].matching_fund = shares[i];
        }
        i = i + 1;
    }
}

/// Adds `value` to the contribution of `who`, or appends a new contribution.
fn add_to_contributions(contributions: &mut Vec<Contribution>, who: AccountId, value: Balance)
    requires
        contribution_position(old(contributions)@, who) matches Some(c) ==> old(contributions)@[c].value
            + value <= u128::MAX,
    ensures
        final(contributions)@ == add_contribution(old(contributions)@, who, value),
{
    match find_contribution(contributions, &who) {
        Some(c) => {
            let total = contributions[c].value + value;
            contributions[c] = Contribution { account_id: who, value: total };
        },
        None => {
            contributions.push(Contribution { account_id: who, value });
        },
    }
}

/// The position of the first round that takes contributions at block `now`.
fn find_processing_round(rounds: &Vec<GrantRound>, now: BlockNumber) -> (r: Option<usize>)
    ensures
        match r {
            Some(k) => k < rounds.len() && processing_round(
                rounds@.map_values(|r: GrantRound| r@),
                now,
            ) == Some(k as int),
            None => processing_round(rounds@.map_values(|r: GrantRound| r@), now) is None,
        },
{
    let ghost rs = rounds@.map_values(|r: GrantRound| r@);
    let mut i: usize = 0;
    while i < rounds.len()
        invariant
            rs == rounds@.map_values(|r: GrantRound| r@),
            i <= rounds.len(),
            forall|k: int| 0 <= k < i ==> !processing_at(now)(#[trigger] rs[k]),
        decreases rounds.len() - i,
    {
        let round = &rounds[i];
        if !round.is_canceled && round.start < now && now < round.end {
            proof {
                assert(is_first(rs, processing_at(now), i as int));
                lemma_first_index_is(rs, processing_at(now), i as int);
            }
            return Some(i);
        }
        i = i + 1;
    }
    proof {
        lemma_first_index_none(rs, processing_at(now));
    }
    None
}

/// The position of the last round that is not canceled.
fn find_last_valid_round(rounds: &Vec<GrantRound>) -> (r: Option<usize>)
    ensures
        match r {
            Some(k) => k < rounds.len() && last_valid_round(rounds@.map_values(|r: GrantRound| r@))
                == Some(k as int),
            None => last_valid_round(rounds@.map_values(|r: GrantRound| r@)) is None,
        },
{
    let ghost rs = rounds@.map_values(|r: GrantRound| r@);
    let mut i: usize = rounds.len();
    while i > 0
        invariant
            rs == rounds@.map_values(|r: GrantRound| r@),
            i <= rounds.len(),
            forall|k: int| i <= k < rounds.len() ==> !is_valid_round()(#[trigger] rs[k]),
        decreases i,
    {
        i = i - 1;
        if !rounds[i].is_canceled {
            proof {
                assert(is_last(rs, is_valid_round(), i as int));
                lemma_last_index_is(rs, is_valid_round(), i as int);
            }
            return Some(i);
        }
    }
    proof {
        lemma_last_index_none(rs, is_valid_round());
    }
    None
}

impl Module {
    /// The pallet's limits: no more than `u32::MAX` projects or rounds, since
    /// their indexes are `u32`.
    #[verifier::type_invariant]
    closed spec fn inv(self) -> bool {
        &&& self.projects.len() <= u32::MAX
        &&& self.grant_rounds.len() <= u32::MAX
    }

    /// A pallet with no projects, no rounds and an empty pot.
    pub fn new(config: Config, genesis: GenesisConfig) -> (r: Module)
        ensures
            r@ == (ModuleView {
                module_id: config.module_id,
                projects: Seq::empty(),
                rounds: Seq::empty(),
                max_round_grants: genesis.max_round_grants,
                withdrawal_period: genesis.withdrawal_period,
                unused_fund: 0,
                is_identity_needed: genesis.is_identity_needed,
            }),
    {
        let r = Module {
            module_id: config.module_id,
            projects: Vec::new(),
            grant_rounds: Vec::new(),
            max_round_grants: genesis.max_round_grants,
            withdrawal_period: genesis.withdrawal_period,
            unused_fund: 0,
            is_identity_needed: genesis.is_identity_needed,
        };
        assert(r@.projects =~= Seq::empty());
        assert(r@.rounds =~= Seq::empty());
        r
    }

    /// The account of the pot that holds the matching pool.
    pub fn account_id(&self) -> (r: AccountId)
        ensures
            r@ == pot_account(self@.module_id),
            r == pot_account_id(self@.module_id),
    {
        derive_pot_account(&self.module_id)
    }

    /// The account that holds the contributions to project `index`.
    pub fn project_account_id(&self, index: ProjectIndex) -> (r: AccountId)
        ensures
            r@ == project_account(self@.module_id, index),
            r == project_account_id_of(self@.module_id, index),
    {
        derive_project_account(&self.module_id, index)
    }

    /// How many projects there are.
    pub fn project_count(&self) -> (r: ProjectIndex)
        ensures
            r == self@.projects.len(),
    {
        proof {
            use_type_invariant(self);
        }
        self.projects.len() as u32
    }

    /// How many rounds there are.
    pub fn grant_round_count(&self) -> (r: GrantRoundIndex)
        ensures
            r == self@.rounds.len(),
    {
        proof {
            use_type_invariant(self);
        }
        self.grant_rounds.len() as u32
    }

    /// How many projects a round may admit.
    pub fn max_round_grants(&self) -> (r: u32)
        ensures
            r == self@.max_round_grants,
    {
        self.max_round_grants
    }

    /// For how many blocks a grant may be withdrawn.
    pub fn withdrawal_period(&self) -> (r: BlockNumber)
        ensures
            r == self@.withdrawal_period,
    {
        self.withdrawal_period
    }

    /// The donations that no round has set aside.
    pub fn unused_fund(&self) -> (r: Balance)
        ensures
            r == self@.unused_fund,
    {
        self.unused_fund
    }

    /// Whether a project's owner needs a verified identity.
    pub fn is_identity_needed(&self) -> (r: bool)
        ensures
            r == self@.is_identity_needed,
    {
        self.is_identity_needed
    }

    /// Project `index`, if there is one.
    pub fn project(&self, index: ProjectIndex) -> (r: Option<&Project>)
        ensures
            match r {
                Some(p) => index < self@.projects.len() && p@ == self@.projects[index as int],
                None => index >= self@.projects.len(),
            },
    {
        if (index as usize) < self.projects.len() {
            Some(&self.projects[index as usize])
        } else {
            None
        }
    }

    /// Round `index`, if there is one.
    pub fn grant_round(&self, index: GrantRoundIndex) -> (r: Option<&GrantRound>)
        ensures
            match r {
                Some(round) => index < self@.rounds.len() && round@ == self@.rounds[index as int],
                None => index >= self@.rounds.len(),
            },
    {
        if (index as usize) < self.grant_rounds.len() {
            Some(&self.grant_rounds[index as usize])
        } else {
            None
        }
    }

    /// All projects, by index.
    pub fn get_projects(&self) -> (r: Vec<Project>)
        ensures
            r@.map_values(|p: Project| p@) == self@.projects,
    {
        let mut projects: Vec<Project> = Vec::new();
        let mut i: usize = 0;
        while i < self.projects.len()
            invariant
                i <= self.projects.len(),
                projects@.len() == i,
                forall|k: int| 0 <= k < i ==> #[trigger] projects@[k]@ == self.projects@[k]@,
            decreases self.projects.len() - i,
        {
            projects.push(self.projects[i].copy());
            i = i + 1;
        }
        assert(projects@.map_values(|p: Project| p@) =~= self@.projects);
        projects
    }

    /// Creates a project owned by the caller (see [`ModuleView::create_project`]).
    /// `identity` holds the registrars' judgements of the caller's identity,
    /// `None` where the caller has none.
    pub fn create_project(
        &mut self,
        origin: Origin,
        name: Vec<u8>,
        logo: Vec<u8>,
        description: Vec<u8>,
        website: Vec<u8>,
        identity: Option<Vec<Judgement>>,
    ) -> (r: Result<Event, Error>)
        ensures
            match old(self)@.create_project(
                origin,
                match identity {
                    Some(js) => Some(js@),
                    None => None,
                },
                name@,
                logo@,
                description@,
                website@,
            ) {
                Ok((s, e)) => r == Ok::<Event, Error>(e) && final(self)@ == s,
                Err(e) => r == Err::<Event, Error>(e) && final(self)@ == old(self)@,
            },
    {
        proof {
            use_type_invariant(&*self);
        }
        let who = match ensure_signed(origin) {
            Ok(who) => who,
            Err(e) => {
                return Err(e);
            },
        };
        if self.is_identity_needed {
            let found = match &identity {
                Some(judgements) => judged_good(judgements),
                None => false,
            };
            if !found {
                return Err(Error::IdentityNeeded);
            }
        }
        if name.len() == 0 || logo.len() == 0 || description.len() == 0 || website.len() == 0 {
            return Err(Error::InvalidParam);
        }
        let index = self.projects.len();
        if index >= 0xffff_ffff {
            return Err(Error::Overflow);
        }
        let project = Project { name, logo, description, website, owner: who };
        let mut projects: Vec<Project> = Vec::new();
        std::mem::swap(&mut projects, &mut self.projects);
        projects.push(project);
        self.projects = projects;
        assert(self@.projects =~= old(self)@.projects.push(project@));
        Ok(Event::ProjectCreated(index as u32))
    }
    /// The movement that a donation needs (see [`ModuleView::fund_payment`]).
    pub fn fund_payment(&self, origin: Origin, fund_balance: Balance) -> (r: Result<Transfer, Error>)
        ensures
            r == self@.fund_payment(origin, fund_balance),
    {
        let who = match ensure_signed(origin) {
            Ok(who) => who,
            Err(e) => {
                return Err(e);
            },
        };
        Ok(Transfer { from: who, to: self.account_id(), amount: fund_balance })
    }

    /// Donates `fund_balance` to the pot (see [`ModuleView::fund`]); `paid` is
    /// what became of the movement that [`Module::fund_payment`] names.
    pub fn fund(&mut self, origin: Origin, fund_balance: Balance, paid: Result<(), CurrencyError>) -> (r:
        Result<Event, Error>)
        requires
            old(self)@.fund_fits(origin, fund_balance, paid),
        ensures
            match old(self)@.fund(origin, fund_balance, paid) {
                Ok((s, e)) => r == Ok::<Event, Error>(e) && final(self)@ == s,
                Err(e) => r == Err::<Event, Error>(e) && final(self)@ == old(self)@,
            },
    {
        proof {
            use_type_invariant(&*self);
        }
        if let Err(e) = ensure_signed(origin) {
            return Err(e);
        }
        if let Err(c) = paid {
            return Err(Error::Currency(c));
        }
        self.unused_fund = self.unused_fund + fund_balance;
        Ok(Event::FundSucceed)
    }

    /// Schedules a round over blocks `start` to `end` with a matching pool of
    /// `matching_fund` for the projects `project_indexes` (see
    /// [`ModuleView::schedule_round`]).
    pub fn schedule_round(
        &mut self,
        origin: Origin,
        now: BlockNumber,
        start: BlockNumber,
        end: BlockNumber,
        matching_fund: Balance,
        project_indexes: Vec<ProjectIndex>,
    ) -> (r: Result<Event, Error>)
        ensures
            match old(self)@.schedule_round(origin, now, start, end, matching_fund, project_indexes@) {
                Ok((s, e)) => r == Ok::<Event, Error>(e) && final(self)@ == s,
                Err(e) => r == Err::<Event, Error>(e) && final(self)@ == old(self)@,
            },
    {
        proof {
            use_type_invariant(&*self);
        }
        if !is_root(origin) {
            return Err(Error::BadOrigin);
        }
        let unused_fund = self.unused_fund;
        if matching_fund > unused_fund {
            return Err(Error::NotEnoughFund);
        }
        if project_indexes.len() >= self.max_round_grants as usize {
            return Err(Error::GrantAmountExceed);
        }
        if end <= start {
            return Err(Error::EndTooEarly);
        }
        if start <= now {
            return Err(Error::StartBlockNumberInvalid);
        }
        if end <= now {
            return Err(Error::EndBlockNumberInvalid);
        }
        if let Some(k) = find_last_valid_round(&self.grant_rounds) {
            if start <= self.grant_rounds[k].end {
                return Err(Error::StartBlockNumberTooSmall);
            }
        }
        let index = self.grant_rounds.len();
        if index >= 0xffff_ffff {
            return Err(Error::Overflow);
        }
        let round = GrantRound::new(start, end, matching_fund, project_indexes);
        let mut rounds: Vec<GrantRound> = Vec::new();
        std::mem::swap(&mut rounds, &mut self.grant_rounds);
        rounds.push(round);
        self.grant_rounds = rounds;
        self.unused_fund = unused_fund - matching_fund;
        assert(self@.rounds =~= old(self)@.rounds.push(round@));
        Ok(Event::GrantRoundCreated(index as u32))
    }

    /// Cancels a round that has not started (see [`ModuleView::cancel_round`]).
    pub fn cancel_round(&mut self, origin: Origin, now: BlockNumber, round_index: GrantRoundIndex) -> (r:
        Result<Event, Error>)
        requires
            old(self)@.cancel_round_fits(origin, now, round_index),
        ensures
            match old(self)@.cancel_round(origin, now, round_index) {
                Ok((s, e)) => r == Ok::<Event, Error>(e) && final(self)@ == s,
                Err(e) => r == Err::<Event, Error>(e) && final(self)@ == old(self)@,
            },
    {
        proof {
            use_type_invariant(&*self);
        }
        if !is_root(origin) {
            return Err(Error::BadOrigin);
        }
        let count = self.grant_rounds.len();
        let k = round_index as usize;
        if k >= count {
            return Err(Error::NoActiveRound);
        }
        if self.grant_rounds[k].start <= now {
            return Err(Error::RoundStarted);
        }
        if self.grant_rounds[k].is_canceled {
            return Err(Error::RoundCanceled);
        }
        let matching_fund = self.grant_rounds[k].matching_fund;
        let mut rounds: Vec<GrantRound> = Vec::new();
        std::mem::swap(&mut rounds, &mut self.grant_rounds);
        rounds[k].is_canceled = true;
        self.grant_rounds = rounds;
        self.unused_fund = self.unused_fund + matching_fund;
        assert(self@.rounds =~= old(self)@.rounds.update(
            k as int,
            RoundView { is_canceled: true, ..old(self)@.rounds[k as int] },
        ));
        Ok(Event::RoundCanceled((count - 1) as u32))
    }

    /// Whether [`Module::cancel_round`] may be called: see
    /// [`ModuleView::cancel_round_fits`].
    pub fn cancel_round_fits(&self, origin: Origin, now: BlockNumber, round_index: GrantRoundIndex) -> (r:
        bool)
        ensures
            r == self@.cancel_round_fits(origin, now, round_index),
    {
        let k = round_index as usize;
        if !is_root(origin) || k >= self.grant_rounds.len() {
            return true;
        }
        let round = &self.grant_rounds[k];
        if round.start <= now || round.is_canceled {
            return true;
        }
        self.unused_fund.checked_add(round.matching_fund).is_some()
    }
    /// Finalizes a round that has ended, sharing out its matching pool (see
    /// [`ModuleView::finalize_round`]).
    pub fn finalize_round(&mut self, origin: Origin, now: BlockNumber, round_index: GrantRoundIndex) -> (r:
        Result<(), Error>)
        requires
            old(self)@.finalize_round_fits(origin, now, round_index),
        ensures
            match old(self)@.finalize_round(origin, now, round_index) {
                Ok(s) => r == Ok::<(), Error>(()) && final(self)@ == s,
                Err(e) => r == Err::<(), Error>(e) && final(self)@ == old(self)@,
            },
    {
        proof {
            use_type_invariant(&*self);
        }
        if !is_root(origin) {
            return Err(Error::BadOrigin);
        }
        let k = round_index as usize;
        if k >= self.grant_rounds.len() {
            return Err(Error::NoActiveRound);
        }
        if self.grant_rounds[k].is_canceled {
            return Err(Error::RoundCanceled);
        }
        if self.grant_rounds[k].is_finalized {
            return Err(Error::RoundFinalized);
        }
        if now <= self.grant_rounds[k].end {
            return Err(Error::RoundNotEnded);
        }
        let shares = match self.grant_rounds[k].matching_shares() {
            Some(shares) => shares,
            None => {
                return Err(Error::Overflow);
            },
        };
        let ghost old_round = old(self)@.rounds[k as int];
        let mut rounds: Vec<GrantRound> = Vec::new();
        std::mem::swap(&mut rounds, &mut self.grant_rounds);
        let mut grants: Vec<Grant> = Vec::new();
        std::mem::swap(&mut grants, &mut rounds[k].grants);
        apply_shares(&mut grants, &shares);
        rounds[k].grants = grants;
        rounds[k].is_finalized = true;
        self.grant_rounds = rounds;
        assert(self@.rounds[k as int].grants =~= finalized_round(old_round).grants);
        assert(self@.rounds =~= old(self)@.rounds.update(k as int, finalized_round(old_round)));
        Ok(())
    }

    /// Whether [`Module::finalize_round`] may be called: see
    /// [`ModuleView::finalize_round_fits`].
    pub fn finalize_round_fits(&self, origin: Origin, now: BlockNumber, round_index: GrantRoundIndex) -> (r:
        bool)
        ensures
            r == self@.finalize_round_fits(origin, now, round_index),
    {
        let k = round_index as usize;
        if !is_root(origin) || k >= self.grant_rounds.len() {
            return true;
        }
        let round = &self.grant_rounds[k];
        if round.is_canceled || round.is_finalized || now <= round.end {
            return true;
        }
        round.matching_shares().is_some()
    }

    /// The round and grant that a contribution goes to.
    fn locate_contribution(&self, origin: Origin, now: BlockNumber, project_index: ProjectIndex) -> (r:
        Result<(usize, usize), Error>)
        ensures
            match r {
                Ok((k, g)) => self@.contribution_target(origin, now, project_index) == Ok::<
                    (int, int),
                    Error,
                >((k as int, g as int)) && k < self.grant_rounds.len() && g
                    < self.grant_rounds@[k as int].grants.len(),
                Err(e) => self@.contribution_target(origin, now, project_index) == Err::<
                    (int, int),
                    Error,
                >(e),
            },
    {
        if let Err(e) = ensure_signed(origin) {
            return Err(e);
        }
        if self.grant_rounds.len() == 0 {
            return Err(Error::NoActiveRound);
        }
        let k = match find_processing_round(&self.grant_rounds, now) {
            Some(k) => k,
            None => {
                return Err(Error::RoundNotProcessing);
            },
        };
        let g = match find_grant(&self.grant_rounds[k], project_index) {
            Some(g) => g,
            None => {
                return Err(Error::NoActiveGrant);
            },
        };
        if self.grant_rounds[k].grants[g].is_canceled {
            return Err(Error::GrantCanceled);
        }
        Ok((k, g))
    }

    /// The movement that a contribution needs (see
    /// [`ModuleView::contribution_payment`]).
    pub fn contribution_payment(
        &self,
        origin: Origin,
        now: BlockNumber,
        project_index: ProjectIndex,
        value: Balance,
    ) -> (r: Result<Transfer, Error>)
        ensures
            r == self@.contribution_payment(origin, now, project_index, value),
    {
        match self.locate_contribution(origin, now, project_index) {
            Err(e) => Err(e),
            Ok(_) => {
                let who = match origin {
                    Origin::Signed(who) => who,
                    _ => {
                        return Err(Error::BadOrigin);
                    },
                };
                Ok(Transfer { from: who, to: self.project_account_id(project_index), amount: value })
            },
        }
    }

    /// Contributes `value` to project `project_index` in the round that takes
    /// contributions now (see [`ModuleView::contribute`]); `paid` is what
    /// became of the movement that [`Module::contribution_payment`] names.
    pub fn contribute(
        &mut self,
        origin: Origin,
        now: BlockNumber,
        project_index: ProjectIndex,
        value: Balance,
        paid: Result<(), CurrencyError>,
    ) -> (r: Result<Event, Error>)
        requires
            old(self)@.contribute_fits(origin, now, project_index, value),
        ensures
            match old(self)@.contribute(origin, now, project_index, value, paid) {
                Ok((s, e)) => r == Ok::<Event, Error>(e) && final(self)@ == s,
                Err(e) => r == Err::<Event, Error>(e) && final(self)@ == old(self)@,
            },
    {
        proof {
            use_type_invariant(&*self);
        }
        let (k, g) = match self.locate_contribution(origin, now, project_index) {
            Ok(kg) => kg,
            Err(e) => {
                return Err(e);
            },
        };
        let who = match origin {
            Origin::Signed(who) => who,
            _ => {
                return Err(Error::BadOrigin);
            },
        };
        if let Err(c) = paid {
            return Err(Error::Currency(c));
        }
        let ghost old_round = old(self)@.rounds[k as int];
        let mut rounds: Vec<GrantRound> = Vec::new();
        std::mem::swap(&mut rounds, &mut self.grant_rounds);
        let mut contributions: Vec<Contribution> = Vec::new();
        std::mem::swap(&mut contributions, &mut rounds[k].grants[g].contributions);
        add_to_contributions(&mut contributions, who, value);
        rounds[k].grants[g].contributions = contributions;
        self.grant_rounds = rounds;
        proof {
            let grant2 = GrantView {
                contributions: add_contribution(old_round.grants[g as int].contributions, who, value),
                ..old_round.grants[g as int]
            };
            assert(self@.rounds[k as int].grants =~= old_round.grants.update(g as int, grant2));
            assert(self@.rounds =~= old(self)@.rounds.update(
                k as int,
                with_grant(old_round, g as int, grant2),
            ));
        }
        Ok(Event::ContributeSucceed(who, project_index, value, now))
    }

    /// Whether [`Module::contribute`] may be called: see
    /// [`ModuleView::contribute_fits`].
    pub fn contribute_fits(&self, origin: Origin, now: BlockNumber, project_index: ProjectIndex, value: Balance) -> (r:
        bool)
        ensures
            r == self@.contribute_fits(origin, now, project_index, value),
    {
        let (k, g) = match self.locate_contribution(origin, now, project_index) {
            Ok(kg) => kg,
            Err(_) => {
                return true;
            },
        };
        let who = match origin {
            Origin::Signed(who) => who,
            _ => {
                return true;
            },
        };
        let contributions = &self.grant_rounds[k].grants[g].contributions;
        match find_contribution(contributions, &who) {
            Some(c) => contributions[c].value.checked_add(value).is_some(),
            None => true,
        }
    }
    /// Approves a grant of a round that has ended (see [`ModuleView::approve`]).
    pub fn approve(
        &mut self,
        origin: Origin,
        now: BlockNumber,
        round_index: GrantRoundIndex,
        project_index: ProjectIndex,
    ) -> (r: Result<Event, Error>)
        requires
            old(self)@.approve_fits(origin, now, round_index, project_index),
        ensures
            match old(self)@.approve(origin, now, round_index, project_index) {
                Ok((s, e)) => r == Ok::<Event, Error>(e) && final(self)@ == s,
                Err(e) => r == Err::<Event, Error>(e) && final(self)@ == old(self)@,
            },
    {
        proof {
            use_type_invariant(&*self);
        }
        if !is_root(origin) {
            return Err(Error::BadOrigin);
        }
        let k = round_index as usize;
        if k >= self.grant_rounds.len() {
            return Err(Error::NoActiveRound);
        }
        if self.grant_rounds[k].is_canceled {
            return Err(Error::RoundCanceled);
        }
        if now <= self.grant_rounds[k].end {
            return Err(Error::RoundNotEnded);
        }
        let g = match find_grant(&self.grant_rounds[k], project_index) {
            Some(g) => g,
            None => {
                return Err(Error::NoActiveGrant);
            },
        };
        if self.grant_rounds[k].grants[g].is_canceled {
            return Err(Error::GrantCanceled);
        }
        let period = now + self.withdrawal_period;
        let ghost old_round = old(self)@.rounds[k as int];
        let mut rounds: Vec<GrantRound> = Vec::new();
        std::mem::swap(&mut rounds, &mut self.grant_rounds);
        rounds[k].grants[g].is_approved = true;
        rounds[k].grants[g].withdrawal_period = period;
        self.grant_rounds = rounds;
        proof {
            let grant2 = GrantView {
                is_approved: true,
                withdrawal_period: period,
                ..old_round.grants[g as int]
            };
            assert(self@.rounds[k as int].grants =~= old_round.grants.update(g as int, grant2));
            assert(self@.rounds =~= old(self)@.rounds.update(
                k as int,
                with_grant(old_round, g as int, grant2),
            ));
        }
        Ok(Event::GrantAllowedWithdraw(round_index, project_index))
    }

    /// Whether [`Module::approve`] may be called: see [`ModuleView::approve_fits`].
    pub fn approve_fits(
        &self,
        origin: Origin,
        now: BlockNumber,
        round_index: GrantRoundIndex,
        project_index: ProjectIndex,
    ) -> (r: bool)
        ensures
            r == self@.approve_fits(origin, now, round_index, project_index),
    {
        let k = round_index as usize;
        if !is_root(origin) || k >= self.grant_rounds.len() {
            return true;
        }
        let round = &self.grant_rounds[k];
        if round.is_canceled || now <= round.end {
            return true;
        }
        match find_grant(round, project_index) {
            None => true,
            Some(g) => round.grants[g].is_canceled || now.checked_add(self.withdrawal_period).is_some(),
        }
    }

    /// The grant that a withdrawal takes from.
    fn locate_withdrawal(
        &self,
        origin: Origin,
        now: BlockNumber,
        round_index: GrantRoundIndex,
        project_index: ProjectIndex,
    ) -> (r: Result<usize, Error>)
        ensures
            match r {
                Ok(g) => self@.withdrawal_target(origin, now, round_index, project_index) == Ok::<
                    int,
                    Error,
                >(g as int) && project_index < self.projects.len() && round_index
                    < self.grant_rounds.len() && g < self.grant_rounds@[round_index as int].grants.len(),
                Err(e) => self@.withdrawal_target(origin, now, round_index, project_index) == Err::<
                    int,
                    Error,
                >(e),
            },
    {
        let who = match ensure_signed(origin) {
            Ok(who) => who,
            Err(e) => {
                return Err(e);
            },
        };
        let p = project_index as usize;
        if p >= self.projects.len() {
            return Err(Error::NoActiveGrant);
        }
        if !same_account(&who, &self.projects[p].owner) {
            return Err(Error::InvalidAccount);
        }
        let k = round_index as usize;
        if k >= self.grant_rounds.len() {
            return Err(Error::NoActiveRound);
        }
        let round = &self.grant_rounds[k];
        let g = match find_grant(round, project_index) {
            Some(g) => g,
            None => {
                return Err(Error::NoActiveGrant);
            },
        };
        let grant = &round.grants[g];
        if now > grant.withdrawal_period {
            return Err(Error::WithdrawalPeriodExceed);
        }
        if !grant.is_approved {
            return Err(Error::GrantNotApproved);
        }
        if grant.is_withdrawn {
            return Err(Error::GrantWithdrawn);
        }
        Ok(g)
    }

    /// The movements that a withdrawal needs (see
    /// [`ModuleView::withdrawal_payments`]).
    pub fn withdrawal_payments(
        &self,
        origin: Origin,
        now: BlockNumber,
        round_index: GrantRoundIndex,
        project_index: ProjectIndex,
    ) -> (r: Result<(Transfer, Transfer), Error>)
        requires
            self@.withdrawal_total_fits(origin, now, round_index, project_index),
        ensures
            r == self@.withdrawal_payments(origin, now, round_index, project_index),
    {
        let g = match self.locate_withdrawal(origin, now, round_index, project_index) {
            Ok(g) => g,
            Err(e) => {
                return Err(e);
            },
        };
        let grant = &self.grant_rounds[round_index as usize].grants[g];
        let total = match sum_contributions(&grant.contributions) {
            Some(t) => t,
            None => {
                return Err(Error::Overflow);
            },
        };
        let owner = self.projects[project_index as usize].owner;
        Ok(
            (
                Transfer { from: self.account_id(), to: owner, amount: grant.matching_fund },
                Transfer { from: self.project_account_id(project_index), to: owner, amount: total },
            ),
        )
    }

    /// Withdraws an approved grant to its project's owner (see
    /// [`ModuleView::withdraw`]); `paid` is what became of the movements that
    /// [`Module::withdrawal_payments`] names, the first refusal if any.
    pub fn withdraw(
        &mut self,
        origin: Origin,
        now: BlockNumber,
        round_index: GrantRoundIndex,
        project_index: ProjectIndex,
        paid: Result<(), CurrencyError>,
    ) -> (r: Result<Event, Error>)
        requires
            old(self)@.withdraw_fits(origin, now, round_index, project_index, paid),
        ensures
            match old(self)@.withdraw(origin, now, round_index, project_index, paid) {
                Ok((s, e)) => r == Ok::<Event, Error>(e) && final(self)@ == s,
                Err(e) => r == Err::<Event, Error>(e) && final(self)@ == old(self)@,
            },
    {
        proof {
            use_type_invariant(&*self);
        }
        let g = match self.locate_withdrawal(origin, now, round_index, project_index) {
            Ok(g) => g,
            Err(e) => {
                return Err(e);
            },
        };
        let k = round_index as usize;
        let total = match sum_contributions(&self.grant_rounds[k].grants[g].contributions) {
            Some(t) => t,
            None => {
                return Err(Error::Overflow);
            },
        };
        let matching_fund = self.grant_rounds[k].grants[g].matching_fund;
        if let Err(c) = paid {
            return Err(Error::Currency(c));
        }
        let period = now + self.withdrawal_period;
        let ghost old_round = old(self)@.rounds[k as int];
        let mut rounds: Vec<GrantRound> = Vec::new();
        std::mem::swap(&mut rounds, &mut self.grant_rounds);
        rounds[k].grants[g].is_withdrawn = true;
        rounds[k].grants[g].withdrawal_period = period;
        self.grant_rounds = rounds;
        proof {
            let grant2 = GrantView {
                is_withdrawn: true,
                withdrawal_period: period,
                ..old_round.grants[g as int]
            };
            assert(self@.rounds[k as int].grants =~= old_round.grants.update(g as int, grant2));
            assert(self@.rounds =~= old(self)@.rounds.update(
                k as int,
                with_grant(old_round, g as int, grant2),
            ));
        }
        Ok(Event::GrantWithdrawn(round_index, project_index, matching_fund, total))
    }

    /// Whether [`Module::withdrawal_payments`] and then [`Module::withdraw`]
    /// may be called, whatever becomes of the payments: see
    /// [`ModuleView::withdraw_fits`].
    pub fn withdraw_fits(
        &self,
        origin: Origin,
        now: BlockNumber,
        round_index: GrantRoundIndex,
        project_index: ProjectIndex,
    ) -> (r: bool)
        ensures
            r == self@.withdraw_fits(origin, now, round_index, project_index, Ok(())),
            r ==> forall|paid: Result<(), CurrencyError>|
                self@.withdraw_fits(origin, now, round_index, project_index, paid),
    {
        let g = match self.locate_withdrawal(origin, now, round_index, project_index) {
            Ok(g) => g,
            Err(_) => {
                return true;
            },
        };
        sum_contributions(&self.grant_rounds[round_index as usize].grants[g].contributions).is_some()
            && now.checked_add(self.withdrawal_period).is_some()
    }

    /// Cancels a grant that is not approved (see [`ModuleView::cancel`]).
    pub fn cancel(&mut self, origin: Origin, round_index: GrantRoundIndex, project_index: ProjectIndex) -> (r:
        Result<Event, Error>)
        ensures
            match old(self)@.cancel(origin, round_index, project_index) {
                Ok((s, e)) => r == Ok::<Event, Error>(e) && final(self)@ == s,
                Err(e) => r == Err::<Event, Error>(e) && final(self)@ == old(self)@,
            },
    {
        proof {
            use_type_invariant(&*self);
        }
        if !is_root(origin) {
            return Err(Error::BadOrigin);
        }
        let k = round_index as usize;
        if k >= self.grant_rounds.len() {
            return Err(Error::NoActiveRound);
        }
        if self.grant_rounds[k].is_canceled {
            return Err(Error::RoundCanceled);
        }
        if self.grant_rounds[k].is_finalized {
            return Err(Error::RoundFinalized);
        }
        let g = match find_grant(&self.grant_rounds[k], project_index) {
            Some(g) => g,
            None => {
                return Err(Error::NoActiveGrant);
            },
        };
        if self.grant_rounds[k].grants[g].is_canceled {
            return Err(Error::GrantCanceled);
        }
        if self.grant_rounds[k].grants[g].is_approved {
            return Err(Error::GrantApproved);
        }
        let ghost old_round = old(self)@.rounds[k as int];
        let mut rounds: Vec<GrantRound> = Vec::new();
        std::mem::swap(&mut rounds, &mut self.grant_rounds);
        rounds[k].grants[g].is_canceled = true;
        self.grant_rounds = rounds;
        proof {
            let grant2 = GrantView { is_canceled: true, ..old_round.grants[g as int] };
            assert(self@.rounds[k as int].grants =~= old_round.grants.update(g as int, grant2));
            assert(self@.rounds =~= old(self)@.rounds.update(
                k as int,
                with_grant(old_round, g as int, grant2),
            ));
        }
        Ok(Event::GrantCanceled(round_index, project_index))
    }

    /// Sets how many projects a round may admit. Any origin may call it; zero
    /// is refused.
    pub fn set_max_round_grants(&mut self, _origin: Origin, max_round_grants: u32) -> (r: Result<(), Error>)
        ensures
            match old(self)@.set_max_round_grants(max_round_grants) {
                Ok(s) => r == Ok::<(), Error>(()) && final(self)@ == s,
                Err(e) => r == Err::<(), Error>(e) && final(self)@ == old(self)@,
            },
    {
        proof {
            use_type_invariant(&*self);
        }
        if max_round_grants == 0 {
            return Err(Error::InvalidParam);
        }
        self.max_round_grants = max_round_grants;
        Ok(())
    }

    /// Sets for how many blocks an approved grant may be withdrawn. Any origin
    /// may call it; zero is refused.
    pub fn set_withdrawal_period(&mut self, _origin: Origin, withdrawal_period: BlockNumber) -> (r:
        Result<(), Error>)
        ensures
            match old(self)@.set_withdrawal_period(withdrawal_period) {
                Ok(s) => r == Ok::<(), Error>(()) && final(self)@ == s,
                Err(e) => r == Err::<(), Error>(e) && final(self)@ == old(self)@,
            },
    {
        proof {
            use_type_invariant(&*self);
        }
        if withdrawal_period == 0 {
            return Err(Error::InvalidParam);
        }
        self.withdrawal_period = withdrawal_period;
        Ok(())
    }

    /// Sets whether a project's owner needs a verified identity. Any origin may
    /// call it.
    pub fn set_is_identity_needed(&mut self, _origin: Origin, is_identity_needed: bool) -> (r: Result<(), Error>)
        ensures
            r == Ok::<(), Error>(()),
            final(self)@ == old(self)@.set_is_identity_needed(is_identity_needed),
    {
        proof {
            use_type_invariant(&*self);
        }
        self.is_identity_needed = is_identity_needed;
        Ok(())
    }
}

} // verus!
