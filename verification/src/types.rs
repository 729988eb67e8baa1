//! The records that the pallet keeps: projects, grant rounds, the grants of a
//! round and the contributions to a grant, with their mathematical views.
use vstd::prelude::*;

verus! {

/// An account on the chain, as its 32 raw bytes.
pub type AccountId = [u8; 32];

/// An amount of the chain's currency.
pub type Balance = u128;

/// A block height.
pub type BlockNumber = u32;

/// The position of a project in the list of projects.
pub type ProjectIndex = u32;

/// The position of a round in the list of grant rounds.
pub type GrantRoundIndex = u32;

/// What one account has given to one grant, in total.
#[derive(Clone, Copy, Debug)]
pub struct Contribution {
    pub account_id: AccountId,
    pub value: Balance,
}

/// A project taking part in a grant round.
pub struct Grant {
    pub project_index: ProjectIndex,
    pub contributions: Vec<Contribution>,
    pub is_approved: bool,
    pub is_canceled: bool,
    pub is_withdrawn: bool,
    pub withdrawal_period: BlockNumber,
    pub matching_fund: Balance,
}

/// The view of a [`Grant`]: its contributions as a sequence.
pub struct GrantView {
    pub project_index: ProjectIndex,
    pub contributions: Seq<Contribution>,
    pub is_approved: bool,
    pub is_canceled: bool,
    pub is_withdrawn: bool,
    pub withdrawal_period: BlockNumber,
    pub matching_fund: Balance,
}

impl View for Grant {
    type V = GrantView;

    open spec fn view(&self) -> GrantView {
        GrantView {
            project_index: self.project_index,
            contributions: self.contributions@,
            is_approved: self.is_approved,
            is_canceled: self.is_canceled,
            is_withdrawn: self.is_withdrawn,
            withdrawal_period: self.withdrawal_period,
            matching_fund: self.matching_fund,
        }
    }
}

/// A funding campaign: a window of blocks, the matching pool set aside for it,
/// and the grants of the projects admitted to it.
pub struct GrantRound {
    pub start: BlockNumber,
    pub end: BlockNumber,
    pub matching_fund: Balance,
    pub grants: Vec<Grant>,
    pub is_canceled: bool,
    pub is_finalized: bool,
}

/// The view of a [`GrantRound`]: its grants as a sequence of grant views.
pub struct RoundView {
    pub start: BlockNumber,
    pub end: BlockNumber,
    pub matching_fund: Balance,
    pub grants: Seq<GrantView>,
    pub is_canceled: bool,
    pub is_finalized: bool,
}

impl View for GrantRound {
    type V = RoundView;

    open spec fn view(&self) -> RoundView {
        RoundView {
            start: self.start,
            end: self.end,
            matching_fund: self.matching_fund,
            grants: self.grants@.map_values(|g: Grant| g@),
            is_canceled: self.is_canceled,
            is_finalized: self.is_finalized,
        }
    }
}

/// An open-source project that asks for funding.
pub struct Project {
    pub name: Vec<u8>,
    pub logo: Vec<u8>,
    pub description: Vec<u8>,
    pub website: Vec<u8>,
    /// The account that receives the funds if the campaign is successful.
    pub owner: AccountId,
}

/// The view of a [`Project`]: its texts as byte sequences.
pub struct ProjectView {
    pub name: Seq<u8>,
    pub logo: Seq<u8>,
    pub description: Seq<u8>,
    pub website: Seq<u8>,
    pub owner: AccountId,
}

impl View for Project {
    type V = ProjectView;

    open spec fn view(&self) -> ProjectView {
        ProjectView {
            name: self.name@,
            logo: self.logo@,
            description: self.description@,
            website: self.website@,
            owner: self.owner,
        }
    }
}

/// A grant as a round creates it for an admitted project: no contributions,
/// nothing decided, nothing allocated.
pub open spec fn fresh_grant(project_index: ProjectIndex) -> GrantView {
    GrantView {
        project_index,
        contributions: Seq::empty(),
        is_approved: false,
        is_canceled: false,
        is_withdrawn: false,
        withdrawal_period: 0,
        matching_fund: 0,
    }
}

/// A copy of a byte string.
fn copy_bytes(v: &Vec<u8>) -> (r: Vec<u8>)
    ensures
        r@ == v@,
{
    let mut r: Vec<u8> = Vec::new();
    let mut i: usize = 0;
    while i < v.len()
        invariant
            i <= v.len(),
            r@ == v@.take(i as int),
        decreases v.len() - i,
    {
        r.push(v[i]);
        i = i + 1;
        assert(r@ =~= v@.take(i as int));
    }
    assert(v@.take(i as int) =~= v@);
    r
}

impl Project {
    /// A copy of the project.
    pub fn copy(&self) -> (r: Project)
        ensures
            r@ == self@,
    {
        Project {
            name: copy_bytes(&self.name),
            logo: copy_bytes(&self.logo),
            description: copy_bytes(&self.description),
            website: copy_bytes(&self.website),
            owner: self.owner,
        }
    }
}

impl GrantRound {
    /// Creates a round over the given window and matching pool, with one fresh
    /// grant for each project index, in the order given.
    pub fn new(
        start: BlockNumber,
        end: BlockNumber,
        matching_fund: Balance,
        project_indexes: Vec<ProjectIndex>,
    ) -> (round: GrantRound)
        ensures
            round@ == (RoundView {
                start,
                end,
                matching_fund,
                grants: project_indexes@.map_values(|p: ProjectIndex| fresh_grant(p)),
                is_canceled: false,
                is_finalized: false,
            }),
    {
        let mut grant_round = GrantRound {
            start: start,
            end: end,
            matching_fund: matching_fund,
            grants: Vec::new(),
            is_canceled: false,
            is_finalized: false,
        };
        let n = project_indexes.len();
        let mut i: usize = 0;
        while i < n
            invariant
                n == project_indexes.len(),
                i <= n,
                grant_round.start == start,
                grant_round.end == end,
                grant_round.matching_fund == matching_fund,
                !grant_round.is_canceled,
                !grant_round.is_finalized,
                grant_round.grants.len() == i,
                forall|k: int|
                    0 <= k < i ==> #[trigger] grant_round.grants@[k]@ == fresh_grant(
                        project_indexes@[k],
                    ),
            decreases n - i,
        {
            grant_round.grants.push(
                Grant {
                    project_index: project_indexes[i],
                    contributions: Vec::new(),
                    is_approved: false,
                    is_canceled: false,
                    is_withdrawn: false,
                    withdrawal_period: 0,
                    matching_fund: 0,
                },
            );
            i = i + 1;
        }
        assert(grant_round@.grants =~= project_indexes@.map_values(|p: ProjectIndex| fresh_grant(p)));
        grant_round
    }
}

} // verus!
