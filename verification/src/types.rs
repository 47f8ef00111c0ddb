//! The records the engine keeps, and the mathematical value of each.
//!
//! A record owns strings and byte vectors; its view replaces them by
//! sequences, so that contracts can speak of records as plain values.

use vstd::prelude::*;

verus! {

/// Of two byte sequences of one length, `a` comes before `b`: at the first
/// place where they differ, `a` has the smaller byte.
pub open spec fn bytes_before(a: Seq<u8>, b: Seq<u8>) -> bool {
    exists|k: int|
        0 <= k < a.len() && k < b.len() && a[k] < b[k] && forall|j: int|
            0 <= j < k ==> a[j] == b[j]
}

/// The order of identities: a shorter identity comes before a longer one,
/// and of two of one length the first differing byte decides.
pub open spec fn identity_before(a: Seq<u8>, b: Seq<u8>) -> bool {
    a.len() < b.len() || (a.len() == b.len() && bytes_before(a, b))
}

/// The first place from `from` on at which `a` and `b` differ, or the
/// length of `a` where they agree to the end.
pub open spec fn first_difference(a: Seq<u8>, b: Seq<u8>, from: int) -> int
    decreases a.len() - from,
{
    if from < 0 || from >= a.len() {
        a.len() as int
    } else if a[from] != b[from] {
        from
    } else {
        first_difference(a, b, from + 1)
    }
}

/// The first difference is a difference, and the first.
pub proof fn lemma_first_difference(a: Seq<u8>, b: Seq<u8>, from: int)
    requires
        0 <= from <= a.len(),
        a.len() == b.len(),
    ensures
        from <= first_difference(a, b, from) <= a.len(),
        forall|j: int| from <= j < first_difference(a, b, from) ==> a[j] == b[j],
        first_difference(a, b, from) < a.len() ==> a[first_difference(a, b, from)]
            != b[first_difference(a, b, from)],
    decreases a.len() - from,
{
    if from < a.len() && a[from] == b[from] {
        lemma_first_difference(a, b, from + 1);
    }
}

/// The order of identities is a strict total order: no identity comes
/// before itself, of two different identities one comes before the other,
/// and what comes before an identity comes before all that come after it.
pub proof fn lemma_identity_order(a: Seq<u8>, b: Seq<u8>, c: Seq<u8>)
    ensures
        !identity_before(a, a),
        a != b ==> identity_before(a, b) || identity_before(b, a),
        identity_before(a, b) && identity_before(b, c) ==> identity_before(a, c),
{
    if a != b && a.len() == b.len() {
        lemma_first_difference(a, b, 0);
        let k = first_difference(a, b, 0);
        if k == a.len() {
            assert(a =~= b);
        } else if a[k] < b[k] {
            assert(bytes_before(a, b));
        } else {
            assert(b[k] < a[k]);
            assert(bytes_before(b, a));
        }
    }
    if identity_before(a, b) && identity_before(b, c) && a.len() == b.len() && b.len() == c.len() {
        let k1 = choose|k: int|
            0 <= k < a.len() && k < b.len() && a[k] < b[k] && forall|j: int|
                0 <= j < k ==> a[j] == b[j];
        let k2 = choose|k: int|
            0 <= k < b.len() && k < c.len() && b[k] < c[k] && forall|j: int|
                0 <= j < k ==> b[j] == c[j];
        let k = if k1 <= k2 {
            k1
        } else {
            k2
        };
        assert(a[k] < c[k]);
        assert forall|j: int| 0 <= j < k implies a[j] == c[j] by {
            assert(a[j] == b[j]);
            assert(b[j] == c[j]);
        }
        assert(bytes_before(a, c));
    }
}

/// The greatest number of bytes an identity can have.
pub const MAX_IDENTITY_BYTES: usize = 29;

/// Who a participant is: the bytes of the identity the host vouches for,
/// at most [`MAX_IDENTITY_BYTES`] of them.
///
/// Two identities are the same participant exactly when their bytes agree.
#[derive(Debug, PartialEq, Eq, Hash)]
pub struct Identity {
    bytes: Vec<u8>,
}

impl View for Identity {
    type V = Seq<u8>;

    closed spec fn view(&self) -> Seq<u8> {
        self.bytes@
    }
}

impl Identity {
    #[verifier::type_invariant]
    spec fn bounded(&self) -> bool {
        self.bytes@.len() <= MAX_IDENTITY_BYTES
    }

    /// Names the participant whose identity bytes are `bytes`; `None` where
    /// there are more than [`MAX_IDENTITY_BYTES`] of them.
    pub fn new(bytes: Vec<u8>) -> (id: Option<Identity>)
        ensures
            match id {
                Some(id) => id@ == bytes@ && bytes@.len() <= MAX_IDENTITY_BYTES,
                None => bytes@.len() > MAX_IDENTITY_BYTES,
            },
    {
        if bytes.len() <= MAX_IDENTITY_BYTES {
            Some(Identity { bytes })
        } else {
            None
        }
    }

    /// The bytes of the identity.
    pub fn as_bytes(&self) -> (bytes: &Vec<u8>)
        ensures
            bytes@ == self@,
            bytes@.len() <= MAX_IDENTITY_BYTES,
    {
        proof {
            use_type_invariant(self);
        }
        &self.bytes
    }

    /// Whether `self` and `other` name the same participant.
    pub fn same_as(&self, other: &Identity) -> (same: bool)
        ensures
            same == (self@ == other@),
    {
        if self.bytes.len() != other.bytes.len() {
            return false;
        }
        let mut i: usize = 0;
        while i < self.bytes.len()
            invariant
                self.bytes.len() == other.bytes.len(),
                i <= self.bytes.len(),
                forall|k: int| 0 <= k < i ==> self.bytes@[k] == other.bytes@[k],
            decreases self.bytes.len() - i,
        {
            if self.bytes[i] != other.bytes[i] {
                return false;
            }
            i += 1;
        }
        assert(self.bytes@ =~= other.bytes@);
        true
    }

    /// Whether `self` comes before `other` in the order of identities.
    pub fn precedes(&self, other: &Identity) -> (before: bool)
        ensures
            before == identity_before(self@, other@),
    {
        if self.bytes.len() != other.bytes.len() {
            return self.bytes.len() < other.bytes.len();
        }
        let mut i: usize = 0;
        while i < self.bytes.len()
            invariant
                self.bytes.len() == other.bytes.len(),
                i <= self.bytes.len(),
                forall|k: int| 0 <= k < i ==> self.bytes@[k] == other.bytes@[k],
            decreases self.bytes.len() - i,
        {
            if self.bytes[i] != other.bytes[i] {
                let before = self.bytes[i] < other.bytes[i];
                proof {
                    if before {
                        assert(self@[i as int] < other@[i as int]);
                    } else if bytes_before(self@, other@) {
                        let k = choose|k: int|
                            0 <= k < self@.len() && k < other@.len() && self@[k] < other@[k]
                                && forall|j: int| 0 <= j < k ==> self@[j] == other@[j];
                        if k > i {
                            assert(self@[i as int] == other@[i as int]);
                        }
                    }
                }
                return before;
            }
            i += 1;
        }
        proof {
            if bytes_before(self@, other@) {
                let k = choose|k: int|
                    0 <= k < self@.len() && k < other@.len() && self@[k] < other@[k]
                        && forall|j: int| 0 <= j < k ==> self@[j] == other@[j];
                assert(self@[k] == other@[k]);
            }
        }
        false
    }
}

impl Clone for Identity {
    fn clone(&self) -> (copy: Self)
        ensures
            copy@ == self@,
    {
        proof {
            use_type_invariant(self);
        }
        Identity { bytes: self.bytes.clone() }
    }
}

/// The view of an optional identity.
pub open spec fn identity_option_view(who: Option<Identity>) -> Option<Seq<u8>> {
    match who {
        Some(id) => Some(id@),
        None => None,
    }
}

/// Where a proposal stands in its life.
///
/// A proposal starts `Open`. Voting settles it as `Passed` or `Rejected`.
/// A passed proposal is `Executing` while its action is with the executor,
/// and ends `Executed` or `Failed`. Nothing ever leads back.
#[derive(Clone, Copy, Debug, PartialEq, Eq, Hash, Structural)]
pub enum ProposalStatus {
    Open,
    Passed,
    Rejected,
    Executing,
    Executed,
    Failed,
}

/// The side a voter takes.
#[derive(Clone, Copy, Debug, PartialEq, Eq, Hash, Structural)]
pub enum VoteOption {
    For,
    Against,
    Abstain,
}

impl VoteOption {
    /// The number under which a side is kept: 0 for, 1 against, 2 abstain.
    pub open spec fn code_of(self) -> u8 {
        match self {
            VoteOption::For => 0,
            VoteOption::Against => 1,
            VoteOption::Abstain => 2,
        }
    }

    /// The side kept under a number; every number above 1 is an abstention.
    pub open spec fn of_code(code: u8) -> VoteOption {
        if code == 0 {
            VoteOption::For
        } else if code == 1 {
            VoteOption::Against
        } else {
            VoteOption::Abstain
        }
    }

    /// The number under which this side is kept.
    pub fn code(&self) -> (code: u8)
        ensures
            code == self.code_of(),
            VoteOption::of_code(code) == *self,
    {
        match self {
            VoteOption::For => 0,
            VoteOption::Against => 1,
            VoteOption::Abstain => 2,
        }
    }

    /// The side kept under `code`.
    pub fn from_code(code: u8) -> (side: VoteOption)
        ensures
            side == VoteOption::of_code(code),
    {
        if code == 0 {
            VoteOption::For
        } else if code == 1 {
            VoteOption::Against
        } else {
            VoteOption::Abstain
        }
    }
}

/// The governance parameters.
#[derive(Clone, Copy, Debug, PartialEq, Eq, Structural)]
pub struct DAOConfig {
    /// Least voting power that may submit a proposal.
    pub min_proposal_threshold: u64,
    /// Least participation, as a percentage of the frozen total, for a tally to be decisive.
    pub quorum_threshold: u64,
    /// Least share in favour, as a percentage of the power that took a side, to pass.
    pub pass_threshold: u64,
    /// Length of the voting window, in nanoseconds.
    pub voting_period: u64,
    /// Wait between the end of the voting window and execution, in nanoseconds.
    pub execution_delay: u64,
    /// The pass threshold that applies to emergency proposals.
    pub emergency_threshold: u64,
}

/// Nanoseconds in a day.
pub const NANOS_PER_DAY: u64 = 86_400_000_000_000;

impl Default for DAOConfig {
    /// 1000 units of power to propose, 20% quorum, 51% to pass, seven days of
    /// voting, two days of delay, 75% to pass an emergency proposal.
    fn default() -> (config: DAOConfig)
        ensures
            config == (DAOConfig {
                min_proposal_threshold: 1000,
                quorum_threshold: 20,
                pass_threshold: 51,
                voting_period: 604_800_000_000_000,
                execution_delay: 172_800_000_000_000,
                emergency_threshold: 75,
            }),
    {
        DAOConfig {
            min_proposal_threshold: 1000,
            quorum_threshold: 20,
            pass_threshold: 51,
            voting_period: 7 * NANOS_PER_DAY,
            execution_delay: 2 * NANOS_PER_DAY,
            emergency_threshold: 75,
        }
    }
}

/// What a proposal asks for: one variant per kind of action, each with the
/// arguments of that action.
#[derive(Debug, PartialEq, Eq)]
pub enum ProposalType {
    EarlyUnlock { stream_id: u64, reason: String },
    CampaignRefund { campaign_id: u64, reason: String },
    UpdateRevenueShare { campaign_id: u64, new_percentage: u8 },
    DisputeResolution { campaign_id: u64, disputed_amount: u64, resolution: String },
    OracleUpdate { campaign_id: u64, new_endpoints: Vec<String> },
    Emergency { action: String, justification: String },
}

/// The value of a [`ProposalType`].
pub enum ProposalTypeView {
    EarlyUnlock { stream_id: u64, reason: Seq<char> },
    CampaignRefund { campaign_id: u64, reason: Seq<char> },
    UpdateRevenueShare { campaign_id: u64, new_percentage: u8 },
    DisputeResolution { campaign_id: u64, disputed_amount: u64, resolution: Seq<char> },
    OracleUpdate { campaign_id: u64, new_endpoints: Seq<Seq<char>> },
    Emergency { action: Seq<char>, justification: Seq<char> },
}

/// The texts of a list of strings.
pub open spec fn texts(list: Seq<String>) -> Seq<Seq<char>> {
    list.map_values(|s: String| s@)
}

impl View for ProposalType {
    type V = ProposalTypeView;

    open spec fn view(&self) -> ProposalTypeView {
        match *self {
            ProposalType::EarlyUnlock { stream_id, reason } => ProposalTypeView::EarlyUnlock {
                stream_id,
                reason: reason@,
            },
            ProposalType::CampaignRefund { campaign_id, reason } => ProposalTypeView::CampaignRefund {
                campaign_id,
                reason: reason@,
            },
            ProposalType::UpdateRevenueShare {
                campaign_id,
                new_percentage,
            } => ProposalTypeView::UpdateRevenueShare { campaign_id, new_percentage },
            ProposalType::DisputeResolution {
                campaign_id,
                disputed_amount,
                resolution,
            } => ProposalTypeView::DisputeResolution {
                campaign_id,
                disputed_amount,
                resolution: resolution@,
            },
            ProposalType::OracleUpdate { campaign_id, new_endpoints } => ProposalTypeView::OracleUpdate {
                campaign_id,
                new_endpoints: texts(new_endpoints@),
            },
            ProposalType::Emergency { action, justification } => ProposalTypeView::Emergency {
                action: action@,
                justification: justification@,
            },
        }
    }
}

impl ProposalTypeView {
    /// Whether this is an emergency proposal.
    pub open spec fn is_emergency(self) -> bool {
        self is Emergency
    }

    /// The campaign the proposal concerns, for the variants that name one.
    pub open spec fn campaign(self) -> Option<u64> {
        match self {
            ProposalTypeView::CampaignRefund { campaign_id, .. } => Some(campaign_id),
            ProposalTypeView::UpdateRevenueShare { campaign_id, .. } => Some(campaign_id),
            ProposalTypeView::DisputeResolution { campaign_id, .. } => Some(campaign_id),
            ProposalTypeView::OracleUpdate { campaign_id, .. } => Some(campaign_id),
            _ => None,
        }
    }
}

/// Copies a list of strings.
pub(crate) fn clone_strings(list: &Vec<String>) -> (copy: Vec<String>)
    ensures
        texts(copy@) == texts(list@),
{
    let mut copy: Vec<String> = Vec::new();
    let mut i: usize = 0;
    while i < list.len()
        invariant
            i <= list.len(),
            copy@.len() == i,
            forall|k: int| 0 <= k < i ==> copy@[k]@ == list@[k]@,
        decreases list.len() - i,
    {
        copy.push(list[i].clone());
        i += 1;
    }
    assert(texts(copy@) =~= texts(list@));
    copy
}

impl ProposalType {
    /// Whether this is an emergency proposal.
    pub fn is_emergency(&self) -> (emergency: bool)
        ensures
            emergency == self@.is_emergency(),
    {
        match self {
            ProposalType::Emergency { .. } => true,
            _ => false,
        }
    }

    /// The campaign the proposal concerns, for the variants that name one.
    pub fn campaign(&self) -> (campaign: Option<u64>)
        ensures
            campaign == self@.campaign(),
    {
        match self {
            ProposalType::CampaignRefund { campaign_id, .. } => Some(*campaign_id),
            ProposalType::UpdateRevenueShare { campaign_id, .. } => Some(*campaign_id),
            ProposalType::DisputeResolution { campaign_id, .. } => Some(*campaign_id),
            ProposalType::OracleUpdate { campaign_id, .. } => Some(*campaign_id),
            _ => None,
        }
    }
}

impl Clone for ProposalType {
    fn clone(&self) -> (copy: Self)
        ensures
            copy@ == self@,
    {
        match self {
            ProposalType::EarlyUnlock { stream_id, reason } => ProposalType::EarlyUnlock {
                stream_id: *stream_id,
                reason: reason.clone(),
            },
            ProposalType::CampaignRefund { campaign_id, reason } => ProposalType::CampaignRefund {
                campaign_id: *campaign_id,
                reason: reason.clone(),
            },
            ProposalType::UpdateRevenueShare {
                campaign_id,
                new_percentage,
            } => ProposalType::UpdateRevenueShare {
                campaign_id: *campaign_id,
                new_percentage: *new_percentage,
            },
            ProposalType::DisputeResolution {
                campaign_id,
                disputed_amount,
                resolution,
            } => ProposalType::DisputeResolution {
                campaign_id: *campaign_id,
                disputed_amount: *disputed_amount,
                resolution: resolution.clone(),
            },
            ProposalType::OracleUpdate { campaign_id, new_endpoints } => ProposalType::OracleUpdate {
                campaign_id: *campaign_id,
                new_endpoints: clone_strings(new_endpoints),
            },
            ProposalType::Emergency { action, justification } => ProposalType::Emergency {
                action: action.clone(),
                justification: justification.clone(),
            },
        }
    }
}

/// A governance request: a typed action, put to the vote and executed after a delay.
#[derive(Debug, PartialEq, Eq)]
pub struct Proposal {
    /// Allocated at submission, never changed, never reused.
    pub id: u64,
    pub proposer: Identity,
    pub title: String,
    pub description: String,
    pub proposal_type: ProposalType,
    /// The campaign that `proposal_type` names, if it names one.
    pub campaign_id: Option<u64>,
    pub target_canister: Option<Identity>,
    pub payload: Vec<u8>,
    pub created_at: u64,
    /// `created_at` plus the voting period in force at submission.
    pub voting_deadline: u64,
    pub status: ProposalStatus,
    /// Power cast in favour.
    pub votes_for: u64,
    /// Power cast against.
    pub votes_against: u64,
    /// The ledger's total at submission; later ledger changes do not reach it.
    pub total_voting_power: u64,
    pub execution_delay: u64,
}

/// The value of a [`Proposal`].
pub struct ProposalView {
    pub id: u64,
    pub proposer: Seq<u8>,
    pub title: Seq<char>,
    pub description: Seq<char>,
    pub proposal_type: ProposalTypeView,
    pub campaign_id: Option<u64>,
    pub target_canister: Option<Seq<u8>>,
    pub payload: Seq<u8>,
    pub created_at: u64,
    pub voting_deadline: u64,
    pub status: ProposalStatus,
    pub votes_for: u64,
    pub votes_against: u64,
    pub total_voting_power: u64,
    pub execution_delay: u64,
}

impl View for Proposal {
    type V = ProposalView;

    open spec fn view(&self) -> ProposalView {
        ProposalView {
            id: self.id,
            proposer: self.proposer@,
            title: self.title@,
            description: self.description@,
            proposal_type: self.proposal_type@,
            campaign_id: self.campaign_id,
            target_canister: identity_option_view(self.target_canister),
            payload: self.payload@,
            created_at: self.created_at,
            voting_deadline: self.voting_deadline,
            status: self.status,
            votes_for: self.votes_for,
            votes_against: self.votes_against,
            total_voting_power: self.total_voting_power,
            execution_delay: self.execution_delay,
        }
    }
}

impl Clone for Proposal {
    fn clone(&self) -> (copy: Self)
        ensures
            copy@ == self@,
    {
        let target_canister = match &self.target_canister {
            Some(id) => Some(id.clone()),
            None => None,
        };
        Proposal {
            id: self.id,
            proposer: self.proposer.clone(),
            title: self.title.clone(),
            description: self.description.clone(),
            proposal_type: self.proposal_type.clone(),
            campaign_id: self.campaign_id,
            target_canister,
            payload: self.payload.clone(),
            created_at: self.created_at,
            voting_deadline: self.voting_deadline,
            status: self.status,
            votes_for: self.votes_for,
            votes_against: self.votes_against,
            total_voting_power: self.total_voting_power,
            execution_delay: self.execution_delay,
        }
    }
}

/// The values of a list of proposals.
pub open spec fn proposal_views(list: Seq<Proposal>) -> Seq<ProposalView> {
    list.map_values(|p: Proposal| p@)
}

/// One participant's vote on one proposal. Once recorded it never changes.
#[derive(Debug, PartialEq, Eq)]
pub struct Vote {
    pub proposal_id: u64,
    pub voter: Identity,
    pub vote: VoteOption,
    /// The voter's power when the vote was cast.
    pub voting_power: u64,
    pub timestamp: u64,
}

/// The value of a [`Vote`].
pub struct VoteView {
    pub proposal_id: u64,
    pub voter: Seq<u8>,
    pub vote: VoteOption,
    pub voting_power: u64,
    pub timestamp: u64,
}

impl View for Vote {
    type V = VoteView;

    open spec fn view(&self) -> VoteView {
        VoteView {
            proposal_id: self.proposal_id,
            voter: self.voter@,
            vote: self.vote,
            voting_power: self.voting_power,
            timestamp: self.timestamp,
        }
    }
}

impl Clone for Vote {
    fn clone(&self) -> (copy: Self)
        ensures
            copy@ == self@,
    {
        Vote {
            proposal_id: self.proposal_id,
            voter: self.voter.clone(),
            vote: self.vote,
            voting_power: self.voting_power,
            timestamp: self.timestamp,
        }
    }
}

/// The values of a list of votes.
pub open spec fn vote_views(list: Seq<Vote>) -> Seq<VoteView> {
    list.map_values(|v: Vote| v@)
}

/// No campaign occurs in two of the pairs of campaign and amount.
pub open spec fn distinct_campaigns(investments: Seq<(u64, u64)>) -> bool {
    forall|i: int, j: int|
        0 <= i < j < investments.len() ==> (#[trigger] investments[i]).0 != (
        #[trigger] investments[j]).0
}

/// A participant's voting power, with the holdings it was derived from.
#[derive(Debug, PartialEq, Eq)]
pub struct VotingPower {
    pub holder: Identity,
    pub power: u64,
    /// Amount invested per campaign: pairs of campaign and amount, one pair
    /// per campaign.
    pub campaign_investments: Vec<(u64, u64)>,
    /// The tokens held.
    pub nft_holdings: Vec<u64>,
    pub last_updated: u64,
}

/// The value of a [`VotingPower`].
pub struct VotingPowerView {
    pub holder: Seq<u8>,
    pub power: u64,
    pub campaign_investments: Seq<(u64, u64)>,
    pub nft_holdings: Seq<u64>,
    pub last_updated: u64,
}

impl View for VotingPower {
    type V = VotingPowerView;

    open spec fn view(&self) -> VotingPowerView {
        VotingPowerView {
            holder: self.holder@,
            power: self.power,
            campaign_investments: self.campaign_investments@,
            nft_holdings: self.nft_holdings@,
            last_updated: self.last_updated,
        }
    }
}

/// Copies a list of pairs.
fn clone_pairs(list: &Vec<(u64, u64)>) -> (copy: Vec<(u64, u64)>)
    ensures
        copy@ == list@,
{
    let mut copy: Vec<(u64, u64)> = Vec::new();
    let mut i: usize = 0;
    while i < list.len()
        invariant
            i <= list.len(),
            copy@ == list@.take(i as int),
        decreases list.len() - i,
    {
        let pair = list[i];
        copy.push(pair);
        assert(list@.take(i + 1) =~= list@.take(i as int).push(pair));
        i += 1;
    }
    assert(list@.take(list@.len() as int) =~= list@);
    copy
}

impl Clone for VotingPower {
    fn clone(&self) -> (copy: Self)
        ensures
            copy@ == self@,
    {
        VotingPower {
            holder: self.holder.clone(),
            power: self.power,
            campaign_investments: clone_pairs(&self.campaign_investments),
            nft_holdings: self.nft_holdings.clone(),
            last_updated: self.last_updated,
        }
    }
}

impl VotingPowerView {
    /// The record names each campaign once.
    pub open spec fn wf(self) -> bool {
        distinct_campaigns(self.campaign_investments)
    }
}

/// The values of a list of voting-power records.
pub open spec fn power_views(list: Seq<VotingPower>) -> Seq<VotingPowerView> {
    list.map_values(|r: VotingPower| r@)
}

} // verus!
