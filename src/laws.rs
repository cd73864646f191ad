use vstd::prelude::*;

use crate::account::AccountId;
use crate::campaign::{
    Campaign,
    Contribution,
    Error,
    lemma_payouts_exact,
    paid_to,
    payouts,
    sum_amounts,
    times_paid,
    zeroed,
};
use crate::crowdfunding::Crowdfunding;

verus! {

/// In a well-formed ledger, every campaign's total raised is the sum of the
/// amounts recorded for its contributors.
pub proof fn total_is_sum_of_contributions(cf: &Crowdfunding, campaign_id: int)
    requires
        cf.wf(),
        0 <= campaign_id < cf@.len(),
    ensures
        cf@[campaign_id].total_raised == sum_amounts(cf@[campaign_id].contributions@),
{
}

/// A successful refund pays each contributor exactly what they recorded,
/// no more and no less, and pays nobody twice.
pub proof fn refund_pays_each_exactly(c: Campaign, now: u32, who: AccountId)
    requires
        c.wf(),
        c.refund_result(now) is Ok,
    ensures
        paid_to(c.refund_result(now)->Ok_0, who) == c.contribution(who),
        times_paid(c.refund_result(now)->Ok_0, who) <= 1,
        c.contribution(who) > 0 ==> times_paid(c.refund_result(now)->Ok_0, who) == 1,
{
    lemma_payouts_exact(c.contributions@, who);
}

proof fn lemma_payouts_of_zeroed(s: Seq<Contribution>, t: Seq<Contribution>)
    requires
        zeroed(s, t),
    ensures
        payouts(t).len() == 0,
    decreases s.len(),
{
    if s.len() > 0 {
        assert(zeroed(s.drop_last(), t.drop_last()));
        lemma_payouts_of_zeroed(s.drop_last(), t.drop_last());
    }
}

/// Funds leave a campaign once: after a withdraw or a refund has succeeded,
/// a later withdraw is refused or pays zero (refused whenever the goal is
/// positive), and a later refund is refused or pays nobody.
pub proof fn settlement_pays_once(
    c: Campaign,
    d: Campaign,
    caller: AccountId,
    now: u32,
    later_caller: AccountId,
    later: u32,
)
    requires
        c.wf(),
        c.withdraw_result(caller, now) is Ok || c.refund_result(now) is Ok,
        d.settled_from(&c),
    ensures
        d.withdraw_result(later_caller, later) is Err || d.withdraw_result(later_caller, later)
            == Ok::<u128, Error>(0),
        d.goal > 0 ==> d.withdraw_result(later_caller, later) is Err,
        c.refund_result(now) is Ok ==> d.withdraw_result(later_caller, later) is Err,
        d.refund_result(later) is Err || d.refund_result(later) == Ok::<Seq<Contribution>, Error>(
            Seq::empty(),
        ),
{
    lemma_payouts_of_zeroed(c.contributions@, d.contributions@);
    assert(payouts(d.contributions@) =~= Seq::empty());
}

} // verus!
