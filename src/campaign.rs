use vstd::prelude::*;

use crate::account::AccountId;

verus! {

/// Why an operation on the ledger was refused. Every refusal leaves the
/// ledger exactly as it was.
#[derive(Clone, Copy, Debug, PartialEq, Eq, Structural)]
pub enum Error {
    CampaignNotFound,
    DeadlinePassed,
    DeadlineNotPassed,
    Unauthorized,
    GoalNotReached,
    CampaignSucceeded,
    ArithmeticOverflow,
    TransferFailed,
}

/// One contributor's entry in a campaign's ledger: what they have put in
/// and not yet had paid back.
#[derive(Clone, Copy, Debug)]
pub struct Contribution {
    pub contributor: AccountId,
    pub amount: u128,
}

/// A single funding round. `contributions` lists each contributor once, in
/// the order of their first contribution.
#[derive(Clone, Debug)]
pub struct Campaign {
    pub creator: AccountId,
    pub goal: u128,
    pub deadline: u32,
    pub total_raised: u128,
    pub contributions: Vec<Contribution>,
}

/// Sum of the amounts in a ledger.
pub open spec fn sum_amounts(s: Seq<Contribution>) -> int
    decreases s.len(),
{
    if s.len() == 0 {
        0
    } else {
        sum_amounts(s.drop_last()) + s.last().amount
    }
}

/// What `who` has recorded in a ledger; absence means zero.
pub open spec fn amount_of(s: Seq<Contribution>, who: AccountId) -> int
    decreases s.len(),
{
    if s.len() == 0 {
        0
    } else if s.last().contributor == who {
        s.last().amount as int
    } else {
        amount_of(s.drop_last(), who)
    }
}

/// Position of `who` in a ledger, or -1 where it has no entry.
pub open spec fn index_of(s: Seq<Contribution>, who: AccountId) -> int
    decreases s.len(),
{
    if s.len() == 0 {
        -1
    } else if s.last().contributor == who {
        s.len() - 1
    } else {
        index_of(s.drop_last(), who)
    }
}

/// No contributor has two entries.
pub open spec fn distinct(s: Seq<Contribution>) -> bool {
    forall|i: int, j: int|
        0 <= i < j < s.len() ==> #[trigger] s[i].contributor != #[trigger] s[j].contributor
}

/// The ledger after `amount` more from `who`: their entry grows, or a new
/// entry is appended.
pub open spec fn credited(s: Seq<Contribution>, who: AccountId, amount: int) -> Seq<Contribution> {
    let i = index_of(s, who);
    if i >= 0 {
        s.update(i, Contribution { contributor: who, amount: (s[i].amount + amount) as u128 })
    } else {
        s.push(Contribution { contributor: who, amount: amount as u128 })
    }
}

/// The ledger with the same contributors and every amount zero.
pub open spec fn zeroed(s: Seq<Contribution>, t: Seq<Contribution>) -> bool {
    &&& t.len() == s.len()
    &&& forall|k: int|
        0 <= k < s.len() ==> (#[trigger] t[k]).contributor == s[k].contributor && t[k].amount == 0
}

/// The refunds owed by a ledger: the entries with a positive amount, in order.
pub open spec fn payouts(s: Seq<Contribution>) -> Seq<Contribution>
    decreases s.len(),
{
    if s.len() == 0 {
        Seq::empty()
    } else if s.last().amount > 0 {
        payouts(s.drop_last()).push(s.last())
    } else {
        payouts(s.drop_last())
    }
}

/// How much a list of payouts sends to `who`.
pub open spec fn paid_to(p: Seq<Contribution>, who: AccountId) -> int
    decreases p.len(),
{
    if p.len() == 0 {
        0
    } else if p.last().contributor == who {
        paid_to(p.drop_last(), who) + p.last().amount
    } else {
        paid_to(p.drop_last(), who)
    }
}

/// How many of a list of payouts go to `who`.
pub open spec fn times_paid(p: Seq<Contribution>, who: AccountId) -> int
    decreases p.len(),
{
    if p.len() == 0 {
        0
    } else if p.last().contributor == who {
        times_paid(p.drop_last(), who) + 1
    } else {
        times_paid(p.drop_last(), who)
    }
}

pub proof fn lemma_distinct_prefix(s: Seq<Contribution>)
    requires
        distinct(s),
        s.len() > 0,
    ensures
        distinct(s.drop_last()),
        forall|k: int| 0 <= k < s.len() - 1 ==> s[k].contributor != s.last().contributor,
{
    assert forall|k: int| 0 <= k < s.len() - 1 implies s[k].contributor != s.last().contributor by {
        assert(s[k].contributor != s[s.len() - 1].contributor);
    }
}

pub proof fn lemma_index_of(s: Seq<Contribution>, who: AccountId)
    ensures
        -1 <= index_of(s, who) < s.len(),
        index_of(s, who) >= 0 ==> s[index_of(s, who)].contributor == who,
        index_of(s, who) >= 0 ==> amount_of(s, who) == s[index_of(s, who)].amount,
        index_of(s, who) < 0 ==> amount_of(s, who) == 0,
        index_of(s, who) < 0 ==> forall|k: int| 0 <= k < s.len() ==> s[k].contributor != who,
    decreases s.len(),
{
    if s.len() > 0 {
        lemma_index_of(s.drop_last(), who);
        if index_of(s, who) < 0 {
            assert forall|k: int| 0 <= k < s.len() implies s[k].contributor != who by {
                if k < s.len() - 1 {
                    assert(s.drop_last()[k] == s[k]);
                }
            }
        }
    }
}

pub proof fn lemma_index_of_unique(s: Seq<Contribution>, who: AccountId, k: int)
    requires
        distinct(s),
        0 <= k < s.len(),
        s[k].contributor == who,
    ensures
        index_of(s, who) == k,
    decreases s.len(),
{
    if k < s.len() - 1 {
        lemma_distinct_prefix(s);
        assert(s.drop_last()[k] == s[k]);
        lemma_index_of_unique(s.drop_last(), who, k);
    }
}

pub proof fn lemma_amount_le_sum(s: Seq<Contribution>, who: AccountId)
    ensures
        0 <= amount_of(s, who) <= sum_amounts(s),
    decreases s.len(),
{
    if s.len() > 0 {
        lemma_amount_le_sum(s.drop_last(), who);
        lemma_sum_nonneg(s.drop_last());
    }
}

pub proof fn lemma_sum_nonneg(s: Seq<Contribution>)
    ensures
        sum_amounts(s) >= 0,
    decreases s.len(),
{
    if s.len() > 0 {
        lemma_sum_nonneg(s.drop_last());
    }
}

pub proof fn lemma_sum_prefix_le(s: Seq<Contribution>, k: int)
    requires
        0 <= k <= s.len(),
    ensures
        sum_amounts(s.subrange(0, k)) <= sum_amounts(s),
    decreases s.len(),
{
    if k < s.len() {
        assert(s.drop_last().subrange(0, k) =~= s.subrange(0, k));
        lemma_sum_prefix_le(s.drop_last(), k);
    } else {
        assert(s.subrange(0, k) =~= s);
    }
}

pub proof fn lemma_sum_update(s: Seq<Contribution>, i: int, c: Contribution)
    requires
        0 <= i < s.len(),
    ensures
        sum_amounts(s.update(i, c)) == sum_amounts(s) - s[i].amount + c.amount,
    decreases s.len(),
{
    let t = s.update(i, c);
    if i < s.len() - 1 {
        assert(t.drop_last() =~= s.drop_last().update(i, c));
        lemma_sum_update(s.drop_last(), i, c);
    } else {
        assert(t.drop_last() =~= s.drop_last());
    }
}

pub proof fn lemma_sum_zeroed(s: Seq<Contribution>, t: Seq<Contribution>)
    requires
        zeroed(s, t),
    ensures
        sum_amounts(t) == 0,
    decreases s.len(),
{
    if s.len() > 0 {
        assert(zeroed(s.drop_last(), t.drop_last()));
        lemma_sum_zeroed(s.drop_last(), t.drop_last());
    }
}

pub proof fn lemma_credited(s: Seq<Contribution>, who: AccountId, amount: int)
    requires
        distinct(s),
        0 <= amount,
        sum_amounts(s) + amount <= u128::MAX,
    ensures
        distinct(credited(s, who, amount)),
        sum_amounts(credited(s, who, amount)) == sum_amounts(s) + amount,
        amount_of(credited(s, who, amount), who) == amount_of(s, who) + amount,
{
    let t = credited(s, who, amount);
    lemma_index_of(s, who);
    lemma_amount_le_sum(s, who);
    let i = index_of(s, who);
    if i >= 0 {
        let c = Contribution { contributor: who, amount: (s[i].amount + amount) as u128 };
        lemma_sum_update(s, i, c);
        assert forall|a: int, b: int|
            0 <= a < b < t.len() implies #[trigger] t[a].contributor != #[trigger] t[b].contributor by {
            assert(s[a].contributor != s[b].contributor);
        }
        lemma_index_of_unique(t, who, i);
        lemma_index_of(t, who);
    } else {
        assert(t.drop_last() =~= s);
        lemma_index_of_unique(t, who, s.len() as int);
        lemma_index_of(t, who);
    }
}

pub proof fn lemma_absent_unpaid(s: Seq<Contribution>, who: AccountId)
    requires
        forall|k: int| 0 <= k < s.len() ==> s[k].contributor != who,
    ensures
        paid_to(payouts(s), who) == 0,
        times_paid(payouts(s), who) == 0,
    decreases s.len(),
{
    if s.len() > 0 {
        assert(s[s.len() - 1].contributor != who);
        assert forall|k: int| 0 <= k < s.len() - 1 implies s.drop_last()[k].contributor != who by {
            assert(s[k].contributor != who);
        }
        lemma_absent_unpaid(s.drop_last(), who);
        lemma_payouts_step(s);
    }
}

proof fn lemma_payouts_step(s: Seq<Contribution>)
    requires
        s.len() > 0,
    ensures
        s.last().amount > 0 ==> payouts(s).drop_last() == payouts(s.drop_last()),
        s.last().amount > 0 ==> payouts(s).last() == s.last(),
        s.last().amount > 0 ==> payouts(s).len() > 0,
{
    if s.last().amount > 0 {
        assert(payouts(s).drop_last() =~= payouts(s.drop_last()));
    }
}

/// Refunding a ledger whose contributors are distinct pays each contributor
/// exactly what they have recorded, in at most one payout.
pub proof fn lemma_payouts_exact(s: Seq<Contribution>, who: AccountId)
    requires
        distinct(s),
    ensures
        paid_to(payouts(s), who) == amount_of(s, who),
        times_paid(payouts(s), who) <= 1,
        amount_of(s, who) > 0 ==> times_paid(payouts(s), who) == 1,
    decreases s.len(),
{
    if s.len() > 0 {
        lemma_distinct_prefix(s);
        lemma_payouts_step(s);
        if s.last().contributor == who {
            lemma_absent_unpaid(s.drop_last(), who);
        } else {
            lemma_payouts_exact(s.drop_last(), who);
        }
    }
}

impl Campaign {
    /// The ledger's invariant: contributors are distinct and the total is
    /// the sum of the recorded amounts.
    pub open spec fn wf(&self) -> bool {
        &&& distinct(self.contributions@)
        &&& self.total_raised == sum_amounts(self.contributions@)
    }

    /// What `who` has recorded in this campaign.
    pub open spec fn contribution(&self, who: AccountId) -> int {
        amount_of(self.contributions@, who)
    }

    /// The parameters that never change after creation.
    pub open spec fn same_terms(&self, other: &Campaign) -> bool {
        &&& self.creator == other.creator
        &&& self.goal == other.goal
        &&& self.deadline == other.deadline
    }

    /// A fresh campaign: nothing raised and nobody recorded.
    pub fn new(creator: AccountId, goal: u128, deadline: u32) -> (r: Campaign)
        ensures
            r.wf(),
            r.creator == creator,
            r.goal == goal,
            r.deadline == deadline,
            r.total_raised == 0,
            r.contributions@.len() == 0,
    {
        Campaign { creator, goal, deadline, total_raised: 0, contributions: Vec::new() }
    }

    /// Checks the ledger invariant, for a campaign read back from storage.
    pub fn is_consistent(&self) -> (r: bool)
        ensures
            r == self.wf(),
    {
        let ghost s = self.contributions@;
        let n = self.contributions.len();
        let mut sum: u128 = 0;
        let mut i: usize = 0;
        while i < n
            invariant
                n == s.len(),
                s == self.contributions@,
                0 <= i <= n,
                distinct(s.subrange(0, i as int)),
                sum == sum_amounts(s.subrange(0, i as int)),
            decreases n - i,
        {
            let who = self.contributions[i].contributor;
            let mut j: usize = 0;
            while j < i
                invariant
                    n == s.len(),
                    s == self.contributions@,
                    0 <= j <= i < n,
                    who == s[i as int].contributor,
                    forall|k: int| 0 <= k < j ==> s[k].contributor != who,
                decreases i - j,
            {
                if self.contributions[j].contributor == who {
                    assert(s[j as int].contributor == s[i as int].contributor);
                    return false;
                }
                j = j + 1;
            }
            assert(s.subrange(0, i + 1).drop_last() =~= s.subrange(0, i as int));
            proof {
                lemma_sum_prefix_le(s, i + 1);
            }
            sum = match sum.checked_add(self.contributions[i].amount) {
                Some(t) => t,
                None => {
                    return false;
                },
            };
            assert forall|a: int, b: int|
                0 <= a < b < i + 1 implies #[trigger] s.subrange(0, i + 1)[a].contributor
                != #[trigger] s.subrange(0, i + 1)[b].contributor by {
                if b < i {
                    assert(s.subrange(0, i as int)[a].contributor != s.subrange(0, i as int)[b].contributor);
                }
            }
            i = i + 1;
        }
        assert(s.subrange(0, n as int) =~= s);
        sum == self.total_raised
    }

    /// Whether the total raised has reached the goal.
    pub fn goal_reached(&self) -> (r: bool)
        ensures
            r == (self.total_raised >= self.goal),
    {
        self.total_raised >= self.goal
    }

    /// Position of `who` in the ledger, if they have an entry.
    fn find(&self, who: &AccountId) -> (r: Option<usize>)
        requires
            distinct(self.contributions@),
        ensures
            r matches Some(i) ==> i == index_of(self.contributions@, *who),
            r is None ==> index_of(self.contributions@, *who) == -1,
    {
        let n = self.contributions.len();
        let mut i: usize = 0;
        while i < n
            invariant
                n == self.contributions@.len(),
                distinct(self.contributions@),
                0 <= i <= n,
                forall|k: int| 0 <= k < i ==> self.contributions@[k].contributor != *who,
            decreases n - i,
        {
            if self.contributions[i].contributor == *who {
                proof {
                    lemma_index_of_unique(self.contributions@, *who, i as int);
                }
                return Some(i);
            }
            i = i + 1;
        }
        proof {
            lemma_index_of(self.contributions@, *who);
        }
        None
    }

    /// Records `amount` from `contributor` at time `now`.
    pub fn contribute(&mut self, contributor: AccountId, amount: u128, now: u32) -> (r: Result<
        (),
        Error,
    >)
        requires
            old(self).wf(),
        ensures
            final(self).wf(),
            final(self).same_terms(old(self)),
            now > old(self).deadline ==> r == Err::<(), Error>(Error::DeadlinePassed),
            now <= old(self).deadline && old(self).total_raised + amount > u128::MAX ==> r
                == Err::<(), Error>(Error::ArithmeticOverflow),
            now <= old(self).deadline && old(self).total_raised + amount <= u128::MAX ==> r
                is Ok,
            r is Err ==> *final(self) == *old(self),
            r is Ok ==> {
                &&& final(self).total_raised == old(self).total_raised + amount
                &&& final(self).contributions@ == credited(
                    old(self).contributions@,
                    contributor,
                    amount as int,
                )
                &&& final(self).contribution(contributor) == old(self).contribution(contributor)
                    + amount
            },
    {
        if now > self.deadline {
            return Err(Error::DeadlinePassed);
        }
        let total = match self.total_raised.checked_add(amount) {
            Some(t) => t,
            None => {
                return Err(Error::ArithmeticOverflow);
            },
        };
        proof {
            lemma_credited(self.contributions@, contributor, amount as int);
            lemma_index_of(self.contributions@, contributor);
            lemma_amount_le_sum(self.contributions@, contributor);
        }
        match self.find(&contributor) {
            Some(i) => {
                let previous = self.contributions[i].amount;
                self.contributions.set(i, Contribution { contributor, amount: previous + amount });
            },
            None => {
                self.contributions.push(Contribution { contributor, amount });
            },
        }
        self.total_raised = total;
        Ok(())
    }

    /// Sets every recorded amount to zero and the total with them; returns
    /// the entries that were positive, in ledger order.
    fn settle(&mut self) -> (paid: Vec<Contribution>)
        requires
            old(self).wf(),
        ensures
            final(self).wf(),
            final(self).same_terms(old(self)),
            final(self).total_raised == 0,
            zeroed(old(self).contributions@, final(self).contributions@),
            paid@ == payouts(old(self).contributions@),
    {
        let ghost s = self.contributions@;
        let n = self.contributions.len();
        let mut paid: Vec<Contribution> = Vec::new();
        let mut i: usize = 0;
        while i < n
            invariant
                n == s.len(),
                self.contributions@.len() == n,
                0 <= i <= n,
                self.creator == old(self).creator,
                self.goal == old(self).goal,
                self.deadline == old(self).deadline,
                s == old(self).contributions@,
                paid@ == payouts(s.subrange(0, i as int)),
                forall|k: int| 0 <= k < i ==> (#[trigger] self.contributions@[k]).amount == 0,
                forall|k: int|
                    0 <= k < n ==> (#[trigger] self.contributions@[k]).contributor
                        == s[k].contributor,
                forall|k: int| i <= k < n ==> (#[trigger] self.contributions@[k]) == s[k],
            decreases n - i,
        {
            let c = self.contributions[i];
            assert(s.subrange(0, i + 1).drop_last() =~= s.subrange(0, i as int));
            if c.amount > 0 {
                paid.push(c);
            }
            self.contributions.set(i, Contribution { contributor: c.contributor, amount: 0 });
            i = i + 1;
        }
        assert(s.subrange(0, n as int) =~= s);
        self.total_raised = 0;
        proof {
            lemma_sum_zeroed(s, self.contributions@);
            assert forall|a: int, b: int|
                0 <= a < b < self.contributions@.len() implies #[trigger] self.contributions@[a].contributor
                != #[trigger] self.contributions@[b].contributor by {
                assert(s[a].contributor != s[b].contributor);
            }
        }
        paid
    }

    /// What a withdraw by `caller` at time `now` returns: the checks in
    /// order, then the whole total.
    pub open spec fn withdraw_result(&self, caller: AccountId, now: u32) -> Result<u128, Error> {
        if caller != self.creator {
            Err(Error::Unauthorized)
        } else if self.total_raised < self.goal {
            Err(Error::GoalNotReached)
        } else if now <= self.deadline {
            Err(Error::DeadlineNotPassed)
        } else {
            Ok(self.total_raised)
        }
    }

    /// What a refund at time `now` returns: the checks in order, then the
    /// payouts owed.
    pub open spec fn refund_result(&self, now: u32) -> Result<Seq<Contribution>, Error> {
        if now <= self.deadline {
            Err(Error::DeadlineNotPassed)
        } else if self.total_raised >= self.goal {
            Err(Error::CampaignSucceeded)
        } else {
            Ok(payouts(self.contributions@))
        }
    }

    /// `self` is `before` after settlement: same terms and contributors,
    /// nothing raised and nothing recorded.
    pub open spec fn settled_from(&self, before: &Campaign) -> bool {
        &&& self.same_terms(before)
        &&& self.total_raised == 0
        &&& zeroed(before.contributions@, self.contributions@)
    }

    /// Pays the whole total out to the creator, if `caller` is the creator,
    /// the goal is reached and the deadline has passed. Returns the amount.
    pub fn withdraw(&mut self, caller: AccountId, now: u32) -> (r: Result<u128, Error>)
        requires
            old(self).wf(),
        ensures
            final(self).wf(),
            r == old(self).withdraw_result(caller, now),
            r is Err ==> *final(self) == *old(self),
            r is Ok ==> final(self).settled_from(old(self)),
    {
        if caller != self.creator {
            return Err(Error::Unauthorized);
        }
        if self.total_raised < self.goal {
            return Err(Error::GoalNotReached);
        }
        if now <= self.deadline {
            return Err(Error::DeadlineNotPassed);
        }
        let amount = self.total_raised;
        let _ = self.settle();
        Ok(amount)
    }

    /// Pays every contributor back what they recorded, if the deadline has
    /// passed and the goal was missed. Returns the payouts in ledger order.
    pub fn refund(&mut self, now: u32) -> (r: Result<Vec<Contribution>, Error>)
        requires
            old(self).wf(),
        ensures
            final(self).wf(),
            r is Err ==> r == Err::<Vec<Contribution>, Error>(
                old(self).refund_result(now)->Err_0,
            ),
            r is Err <==> old(self).refund_result(now) is Err,
            r is Err ==> *final(self) == *old(self),
            r matches Ok(paid) ==> {
                &&& Ok::<Seq<Contribution>, Error>(paid@) == old(self).refund_result(now)
                &&& final(self).settled_from(old(self))
            },
    {
        if now <= self.deadline {
            return Err(Error::DeadlineNotPassed);
        }
        if self.total_raised >= self.goal {
            return Err(Error::CampaignSucceeded);
        }
        Ok(self.settle())
    }
}

} // verus!
