use vstd::prelude::*;

use crate::account::AccountId;
use crate::campaign::{Campaign, Contribution, Error, credited, payouts, zeroed};

verus! {

/// Emitted when a campaign is created.
#[derive(Clone, Copy, Debug)]
pub struct CampaignCreated {
    pub campaign_id: u32,
    pub creator: AccountId,
    pub goal: u128,
    pub deadline: u32,
}

/// Emitted when a contribution is recorded.
#[derive(Clone, Copy, Debug)]
pub struct ContributionMade {
    pub campaign_id: u32,
    pub contributor: AccountId,
    pub amount: u128,
}

/// Emitted for each contributor paid back by a refund; the host transfers
/// `amount` to `contributor`.
#[derive(Clone, Copy, Debug)]
pub struct RefundIssued {
    pub campaign_id: u32,
    pub contributor: AccountId,
    pub amount: u128,
}

/// Emitted when the creator withdraws; the host transfers `amount` to
/// `creator`.
#[derive(Clone, Copy, Debug)]
pub struct FundsWithdrawn {
    pub campaign_id: u32,
    pub creator: AccountId,
    pub amount: u128,
}

/// A summary of one campaign.
#[derive(Clone, Copy, Debug)]
pub struct CampaignInfo {
    pub creator: AccountId,
    pub goal: u128,
    pub deadline: u32,
    pub total_raised: u128,
    pub contributor_count: usize,
}

/// The refund events for a list of payouts.
pub open spec fn refund_events(campaign_id: u32, p: Seq<Contribution>) -> Seq<RefundIssued> {
    p.map_values(
        |c: Contribution| RefundIssued { campaign_id, contributor: c.contributor, amount: c.amount },
    )
}

/// All campaigns, indexed by their identifier. Identifiers are handed out
/// from zero upwards and never reused; campaigns are never removed.
pub struct Crowdfunding {
    campaigns: Vec<Campaign>,
}

impl View for Crowdfunding {
    type V = Seq<Campaign>;

    closed spec fn view(&self) -> Seq<Campaign> {
        self.campaigns@
    }
}

impl Crowdfunding {
    /// Every identifier fits in a `u32` and every campaign keeps its ledger
    /// invariant.
    pub open spec fn wf(&self) -> bool {
        &&& self@.len() <= u32::MAX
        &&& forall|i: int| 0 <= i < self@.len() ==> (#[trigger] self@[i]).wf()
    }

    /// A ledger with no campaigns.
    pub fn new() -> (r: Crowdfunding)
        ensures
            r.wf(),
            r@.len() == 0,
    {
        Crowdfunding { campaigns: Vec::new() }
    }

    /// Rebuilds a ledger from campaigns read back from storage, in
    /// identifier order; `None` where one of them breaks its invariant or
    /// there are more than identifiers allow.
    pub fn from_campaigns(campaigns: Vec<Campaign>) -> (r: Option<Crowdfunding>)
        ensures
            r is Some <==> campaigns@.len() <= u32::MAX && forall|i: int|
                0 <= i < campaigns@.len() ==> (#[trigger] campaigns@[i]).wf(),
            r matches Some(cf) ==> cf@ == campaigns@ && cf.wf(),
    {
        if campaigns.len() > u32::MAX as usize {
            return None;
        }
        let n = campaigns.len();
        let mut i: usize = 0;
        while i < n
            invariant
                n == campaigns@.len(),
                0 <= i <= n,
                forall|k: int| 0 <= k < i ==> (#[trigger] campaigns@[k]).wf(),
            decreases n - i,
        {
            if !campaigns[i].is_consistent() {
                return None;
            }
            i = i + 1;
        }
        Some(Crowdfunding { campaigns })
    }

    /// The campaigns in identifier order, for writing back to storage.
    pub fn into_campaigns(self) -> (r: Vec<Campaign>)
        ensures
            r@ == self@,
    {
        self.campaigns
    }

    /// Number of campaigns created so far; also the next identifier.
    pub fn campaign_count(&self) -> (r: u32)
        requires
            self.wf(),
        ensures
            r == self@.len(),
    {
        self.campaigns.len() as u32
    }

    /// Opens a campaign by `creator` with the given goal and deadline, at
    /// time `now`. A deadline already past is refused.
    pub fn create_campaign(&mut self, creator: AccountId, goal: u128, deadline: u32, now: u32) -> (r:
        Result<CampaignCreated, Error>)
        requires
            old(self).wf(),
        ensures
            final(self).wf(),
            now > deadline ==> r == Err::<CampaignCreated, Error>(Error::DeadlinePassed),
            now <= deadline && old(self)@.len() == u32::MAX ==> r == Err::<CampaignCreated, Error>(
                Error::ArithmeticOverflow,
            ),
            now <= deadline && old(self)@.len() < u32::MAX ==> r is Ok,
            r is Err ==> final(self)@ == old(self)@,
            r matches Ok(ev) ==> {
                &&& ev == (CampaignCreated {
                    campaign_id: old(self)@.len() as u32,
                    creator,
                    goal,
                    deadline,
                })
                &&& final(self)@.len() == old(self)@.len() + 1
                &&& final(self)@.drop_last() == old(self)@
                &&& final(self)@.last().creator == creator
                &&& final(self)@.last().goal == goal
                &&& final(self)@.last().deadline == deadline
                &&& final(self)@.last().total_raised == 0
                &&& final(self)@.last().contributions@.len() == 0
            },
    {
        if now > deadline {
            return Err(Error::DeadlinePassed);
        }
        if self.campaigns.len() >= u32::MAX as usize {
            return Err(Error::ArithmeticOverflow);
        }
        let campaign_id = self.campaigns.len() as u32;
        self.campaigns.push(Campaign::new(creator, goal, deadline));
        proof {
            assert(self@.drop_last() =~= old(self)@);
        }
        Ok(CampaignCreated { campaign_id, creator, goal, deadline })
    }

    /// Records `amount` from `contributor` in campaign `campaign_id` at time
    /// `now`.
    pub fn contribute(
        &mut self,
        campaign_id: u32,
        contributor: AccountId,
        amount: u128,
        now: u32,
    ) -> (r: Result<ContributionMade, Error>)
        requires
            old(self).wf(),
        ensures
            final(self).wf(),
            final(self)@.len() == old(self)@.len(),
            campaign_id >= old(self)@.len() ==> r == Err::<ContributionMade, Error>(
                Error::CampaignNotFound,
            ),
            campaign_id < old(self)@.len() ==> ({
                let c = old(self)@[campaign_id as int];
                &&& now > c.deadline ==> r == Err::<ContributionMade, Error>(Error::DeadlinePassed)
                &&& now <= c.deadline && c.total_raised + amount > u128::MAX ==> r == Err::<
                    ContributionMade,
                    Error,
                >(Error::ArithmeticOverflow)
                &&& now <= c.deadline && c.total_raised + amount <= u128::MAX ==> r is Ok
            }),
            r is Err ==> final(self)@ == old(self)@,
            r matches Ok(ev) ==> ({
                let c = old(self)@[campaign_id as int];
                let d = final(self)@[campaign_id as int];
                &&& ev == (ContributionMade { campaign_id, contributor, amount })
                &&& final(self)@ == old(self)@.update(campaign_id as int, d)
                &&& d.same_terms(&c)
                &&& d.total_raised == c.total_raised + amount
                &&& d.contributions@ == credited(c.contributions@, contributor, amount as int)
                &&& d.contribution(contributor) == c.contribution(contributor) + amount
            }),
    {
        if campaign_id as usize >= self.campaigns.len() {
            return Err(Error::CampaignNotFound);
        }
        let i = campaign_id as usize;
        let result = self.campaigns[i].contribute(contributor, amount, now);
        match result {
            Ok(()) => Ok(ContributionMade { campaign_id, contributor, amount }),
            Err(e) => Err(e),
        }
    }

    /// The creator of campaign `campaign_id` takes the whole total once the
    /// goal is reached and the deadline has passed.
    pub fn withdraw(&mut self, campaign_id: u32, caller: AccountId, now: u32) -> (r: Result<
        FundsWithdrawn,
        Error,
    >)
        requires
            old(self).wf(),
        ensures
            final(self).wf(),
            final(self)@.len() == old(self)@.len(),
            campaign_id >= old(self)@.len() ==> r == Err::<FundsWithdrawn, Error>(
                Error::CampaignNotFound,
            ),
            campaign_id < old(self)@.len() ==> ({
                let c = old(self)@[campaign_id as int];
                &&& caller != c.creator ==> r == Err::<FundsWithdrawn, Error>(Error::Unauthorized)
                &&& caller == c.creator && c.total_raised < c.goal ==> r == Err::<
                    FundsWithdrawn,
                    Error,
                >(Error::GoalNotReached)
                &&& caller == c.creator && c.total_raised >= c.goal && now <= c.deadline ==> r
                    == Err::<FundsWithdrawn, Error>(Error::DeadlineNotPassed)
                &&& caller == c.creator && c.total_raised >= c.goal && now > c.deadline ==> r
                    is Ok
            }),
            r is Err ==> final(self)@ == old(self)@,
            r matches Ok(ev) ==> ({
                let c = old(self)@[campaign_id as int];
                let d = final(self)@[campaign_id as int];
                &&& ev == (FundsWithdrawn { campaign_id, creator: c.creator, amount: c.total_raised })
                &&& c.withdraw_result(caller, now) == Ok::<u128, Error>(ev.amount)
                &&& d.settled_from(&c)
                &&& final(self)@ == old(self)@.update(campaign_id as int, d)
                &&& d.same_terms(&c)
                &&& d.total_raised == 0
                &&& zeroed(c.contributions@, d.contributions@)
            }),
    {
        if campaign_id as usize >= self.campaigns.len() {
            return Err(Error::CampaignNotFound);
        }
        let i = campaign_id as usize;
        let creator = self.campaigns[i].creator;
        let result = self.campaigns[i].withdraw(caller, now);
        match result {
            Ok(amount) => Ok(FundsWithdrawn { campaign_id, creator, amount }),
            Err(e) => Err(e),
        }
    }

    /// Pays back every contributor of campaign `campaign_id` once the
    /// deadline has passed with the goal missed. Anyone may call it. The
    /// events come in the order of first contribution, one per contributor
    /// with a positive amount.
    pub fn refund(&mut self, campaign_id: u32, now: u32) -> (r: Result<Vec<RefundIssued>, Error>)
        requires
            old(self).wf(),
        ensures
            final(self).wf(),
            final(self)@.len() == old(self)@.len(),
            campaign_id >= old(self)@.len() ==> r == Err::<Vec<RefundIssued>, Error>(
                Error::CampaignNotFound,
            ),
            campaign_id < old(self)@.len() ==> ({
                let c = old(self)@[campaign_id as int];
                &&& now <= c.deadline ==> r == Err::<Vec<RefundIssued>, Error>(
                    Error::DeadlineNotPassed,
                )
                &&& now > c.deadline && c.total_raised >= c.goal ==> r == Err::<
                    Vec<RefundIssued>,
                    Error,
                >(Error::CampaignSucceeded)
                &&& now > c.deadline && c.total_raised < c.goal ==> r is Ok
            }),
            r is Err ==> final(self)@ == old(self)@,
            r matches Ok(evs) ==> ({
                let c = old(self)@[campaign_id as int];
                let d = final(self)@[campaign_id as int];
                &&& evs@ == refund_events(campaign_id, payouts(c.contributions@))
                &&& c.refund_result(now) == Ok::<Seq<Contribution>, Error>(payouts(c.contributions@))
                &&& d.settled_from(&c)
                &&& final(self)@ == old(self)@.update(campaign_id as int, d)
                &&& d.same_terms(&c)
                &&& d.total_raised == 0
                &&& zeroed(c.contributions@, d.contributions@)
            }),
    {
        if campaign_id as usize >= self.campaigns.len() {
            return Err(Error::CampaignNotFound);
        }
        let i = campaign_id as usize;
        let result = self.campaigns[i].refund(now);
        match result {
            Ok(paid) => {
                let mut events: Vec<RefundIssued> = Vec::new();
                let mut k: usize = 0;
                while k < paid.len()
                    invariant
                        0 <= k <= paid@.len(),
                        events@ == refund_events(campaign_id, paid@.subrange(0, k as int)),
                    decreases paid@.len() - k,
                {
                    let p = paid[k];
                    events.push(
                        RefundIssued { campaign_id, contributor: p.contributor, amount: p.amount },
                    );
                    proof {
                        assert(refund_events(campaign_id, paid@.subrange(0, k + 1)) =~= refund_events(
                            campaign_id,
                            paid@.subrange(0, k as int),
                        ).push(
                            RefundIssued { campaign_id, contributor: p.contributor, amount: p.amount },
                        ));
                    }
                    k = k + 1;
                }
                proof {
                    assert(paid@.subrange(0, paid@.len() as int) =~= paid@);
                }
                Ok(events)
            },
            Err(e) => Err(e),
        }
    }

    /// Whether campaign `campaign_id` has reached its goal; false for an
    /// unknown identifier.
    pub fn is_goal_reached(&self, campaign_id: u32) -> (r: bool)
        ensures
            r == (campaign_id < self@.len() && self@[campaign_id as int].total_raised
                >= self@[campaign_id as int].goal),
    {
        if (campaign_id as usize) < self.campaigns.len() {
            self.campaigns[campaign_id as usize].goal_reached()
        } else {
            false
        }
    }

    /// Campaign `campaign_id`, if it exists.
    pub fn get_campaign(&self, campaign_id: u32) -> (r: Option<&Campaign>)
        ensures
            campaign_id >= self@.len() ==> r is None,
            campaign_id < self@.len() ==> r == Some(&self@[campaign_id as int]),
    {
        if (campaign_id as usize) < self.campaigns.len() {
            Some(&self.campaigns[campaign_id as usize])
        } else {
            None
        }
    }

    /// A summary of campaign `campaign_id`, if it exists.
    pub fn get_campaign_info(&self, campaign_id: u32) -> (r: Option<CampaignInfo>)
        ensures
            campaign_id >= self@.len() ==> r is None,
            campaign_id < self@.len() ==> r == Some(
                CampaignInfo {
                    creator: self@[campaign_id as int].creator,
                    goal: self@[campaign_id as int].goal,
                    deadline: self@[campaign_id as int].deadline,
                    total_raised: self@[campaign_id as int].total_raised,
                    contributor_count: self@[campaign_id as int].contributions@.len() as usize,
                },
            ),
    {
        if (campaign_id as usize) < self.campaigns.len() {
            let c = &self.campaigns[campaign_id as usize];
            Some(
                CampaignInfo {
                    creator: c.creator,
                    goal: c.goal,
                    deadline: c.deadline,
                    total_raised: c.total_raised,
                    contributor_count: c.contributions.len(),
                },
            )
        } else {
            None
        }
    }

    /// For every campaign in identifier order: its identifier, creator,
    /// goal, deadline and total raised.
    pub fn get_all_campaigns(&self) -> (r: Vec<(u32, AccountId, u128, u32, u128)>)
        requires
            self.wf(),
        ensures
            r@.len() == self@.len(),
            forall|i: int|
                0 <= i < self@.len() ==> #[trigger] r@[i] == (
                    i as u32,
                    self@[i].creator,
                    self@[i].goal,
                    self@[i].deadline,
                    self@[i].total_raised,
                ),
    {
        let mut all: Vec<(u32, AccountId, u128, u32, u128)> = Vec::new();
        let n = self.campaigns.len();
        let mut i: usize = 0;
        while i < n
            invariant
                n == self@.len(),
                n <= u32::MAX,
                0 <= i <= n,
                all@.len() == i,
                forall|k: int|
                    0 <= k < i ==> #[trigger] all@[k] == (
                        k as u32,
                        self@[k].creator,
                        self@[k].goal,
                        self@[k].deadline,
                        self@[k].total_raised,
                    ),
            decreases n - i,
        {
            let c = &self.campaigns[i];
            all.push((i as u32, c.creator, c.goal, c.deadline, c.total_raised));
            i = i + 1;
        }
        all
    }
}

} // verus!
