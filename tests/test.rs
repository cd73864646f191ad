use crowdfunding::account::AccountId;
use crowdfunding::campaign::Error;
use crowdfunding::crowdfunding::Crowdfunding;

fn account(n: u8) -> AccountId {
    AccountId { bytes: [n; 32] }
}

#[test]
fn test_create_campaign() {
    let mut cf = Crowdfunding::new();
    let creator = account(1);
    let goal: u128 = 1000;
    let deadline: u32 = 100;

    let created = cf.create_campaign(creator, goal, deadline, 0).unwrap();
    let campaign_id = created.campaign_id;
    assert_eq!(campaign_id, 0);

    let info = cf.get_campaign_info(campaign_id).unwrap();
    assert_eq!(info.creator, creator);
    assert_eq!(info.goal, goal);
    assert_eq!(info.deadline, deadline);
    assert_eq!(info.total_raised, 0);
    assert_eq!(info.contributor_count, 0);

    assert_eq!(created.creator, creator);
    assert_eq!(created.goal, goal);
    assert_eq!(created.deadline, deadline);
}

#[test]
fn test_contribute() {
    let mut cf = Crowdfunding::new();
    let creator = account(1);
    let contributor = account(2);
    let campaign_id = cf.create_campaign(creator, 1000, 100, 0).unwrap().campaign_id;

    let amount: u128 = 500;
    let made = cf.contribute(campaign_id, contributor, amount, 0).unwrap();

    let info = cf.get_campaign_info(campaign_id).unwrap();
    assert_eq!(info.total_raised, amount);
    assert_eq!(info.contributor_count, 1);

    assert_eq!(made.campaign_id, campaign_id);
    assert_eq!(made.contributor, contributor);
    assert_eq!(made.amount, amount);
}

#[test]
fn test_withdraw_success() {
    let mut cf = Crowdfunding::new();
    let creator = account(1);
    let goal: u128 = 1000;
    let deadline: u32 = 100;
    let campaign_id = cf.create_campaign(creator, goal, deadline, 50).unwrap().campaign_id;

    cf.contribute(campaign_id, creator, goal, 50).unwrap();
    cf.withdraw(campaign_id, creator, deadline + 1).unwrap();

    let info = cf.get_campaign_info(campaign_id).unwrap();
    assert_eq!(info.total_raised, 0);
}

#[test]
fn test_refund() {
    let mut cf = Crowdfunding::new();
    let creator = account(1);
    let contributor = account(2);
    let deadline: u32 = 100;
    let campaign_id = cf.create_campaign(creator, 1000, deadline, 50).unwrap().campaign_id;

    cf.contribute(campaign_id, contributor, 500, 50).unwrap();
    cf.refund(campaign_id, deadline + 1).unwrap();

    let info = cf.get_campaign_info(campaign_id).unwrap();
    assert_eq!(info.total_raised, 0);
}

#[test]
fn test_contribute_after_deadline() {
    let mut cf = Crowdfunding::new();
    let creator = account(1);
    let deadline: u32 = 100;
    let campaign_id = cf.create_campaign(creator, 1000, deadline, 50).unwrap().campaign_id;

    let r = cf.contribute(campaign_id, creator, 500, deadline + 1);
    assert_eq!(r.unwrap_err(), Error::DeadlinePassed);
}

#[test]
fn funded_campaign_pays_creator() {
    let mut cf = Crowdfunding::new();
    let creator = account(1);
    let a = account(2);
    let b = account(3);
    let id = cf.create_campaign(creator, 1000, 100, 50).unwrap().campaign_id;
    assert_eq!(id, 0);
    cf.contribute(id, a, 600, 50).unwrap();
    cf.contribute(id, b, 500, 60).unwrap();
    assert_eq!(cf.get_campaign_info(id).unwrap().total_raised, 1100);

    let w = cf.withdraw(id, creator, 101).unwrap();
    assert_eq!(w.campaign_id, id);
    assert_eq!(w.creator, creator);
    assert_eq!(w.amount, 1100);
    assert_eq!(cf.get_campaign_info(id).unwrap().total_raised, 0);
}

#[test]
fn failed_campaign_refunds_contributor() {
    let mut cf = Crowdfunding::new();
    let creator = account(1);
    let a = account(2);
    let id = cf.create_campaign(creator, 1000, 100, 50).unwrap().campaign_id;
    cf.contribute(id, a, 400, 50).unwrap();

    let refunds = cf.refund(id, 101).unwrap();
    assert_eq!(refunds.len(), 1);
    assert_eq!(refunds[0].campaign_id, id);
    assert_eq!(refunds[0].contributor, a);
    assert_eq!(refunds[0].amount, 400);
    assert_eq!(cf.get_campaign_info(id).unwrap().total_raised, 0);
}

#[test]
fn late_contribution_leaves_total() {
    let mut cf = Crowdfunding::new();
    let id = cf.create_campaign(account(1), 1000, 100, 50).unwrap().campaign_id;
    cf.contribute(id, account(2), 300, 100).unwrap();
    assert_eq!(cf.contribute(id, account(3), 200, 101).unwrap_err(), Error::DeadlinePassed);
    let c = cf.get_campaign(id).unwrap();
    assert_eq!(c.total_raised, 300);
    assert_eq!(c.contributions.len(), 1);
}

#[test]
fn withdraw_by_stranger_is_unauthorized() {
    let mut cf = Crowdfunding::new();
    let creator = account(1);
    let stranger = account(9);
    let id = cf.create_campaign(creator, 1000, 100, 50).unwrap().campaign_id;
    // before the deadline, goal missed
    assert_eq!(cf.withdraw(id, stranger, 60).unwrap_err(), Error::Unauthorized);
    cf.contribute(id, account(2), 1500, 60).unwrap();
    // after the deadline, goal reached
    assert_eq!(cf.withdraw(id, stranger, 101).unwrap_err(), Error::Unauthorized);
    assert_eq!(cf.get_campaign_info(id).unwrap().total_raised, 1500);
}

#[test]
fn unknown_campaign_is_not_found() {
    let mut cf = Crowdfunding::new();
    assert_eq!(cf.contribute(0, account(2), 1, 0).unwrap_err(), Error::CampaignNotFound);
    assert_eq!(cf.withdraw(0, account(1), 0).unwrap_err(), Error::CampaignNotFound);
    assert_eq!(cf.refund(0, 0).unwrap_err(), Error::CampaignNotFound);
    assert!(!cf.is_goal_reached(0));
    assert!(cf.get_campaign_info(0).is_none());
}

#[test]
fn withdraw_checks_goal_then_deadline() {
    let mut cf = Crowdfunding::new();
    let creator = account(1);
    let id = cf.create_campaign(creator, 1000, 100, 50).unwrap().campaign_id;
    cf.contribute(id, account(2), 999, 50).unwrap();
    assert_eq!(cf.withdraw(id, creator, 101).unwrap_err(), Error::GoalNotReached);
    cf.contribute(id, account(3), 1, 50).unwrap();
    assert_eq!(cf.withdraw(id, creator, 100).unwrap_err(), Error::DeadlineNotPassed);
    assert_eq!(cf.withdraw(id, creator, 101).unwrap().amount, 1000);
}

#[test]
fn refund_refused_before_deadline_or_on_success() {
    let mut cf = Crowdfunding::new();
    let id = cf.create_campaign(account(1), 1000, 100, 50).unwrap().campaign_id;
    cf.contribute(id, account(2), 1000, 50).unwrap();
    assert_eq!(cf.refund(id, 100).unwrap_err(), Error::DeadlineNotPassed);
    assert_eq!(cf.refund(id, 101).unwrap_err(), Error::CampaignSucceeded);
    assert_eq!(cf.get_campaign_info(id).unwrap().total_raised, 1000);
}

#[test]
fn overflowing_contribution_is_refused() {
    let mut cf = Crowdfunding::new();
    let id = cf.create_campaign(account(1), 10, 100, 0).unwrap().campaign_id;
    cf.contribute(id, account(2), u128::MAX - 5, 0).unwrap();
    assert_eq!(cf.contribute(id, account(3), 6, 0).unwrap_err(), Error::ArithmeticOverflow);
    cf.contribute(id, account(3), 5, 0).unwrap();
    assert_eq!(cf.get_campaign_info(id).unwrap().total_raised, u128::MAX);
}

#[test]
fn creation_with_past_deadline_is_refused() {
    let mut cf = Crowdfunding::new();
    assert_eq!(cf.create_campaign(account(1), 10, 100, 101).unwrap_err(), Error::DeadlinePassed);
    assert_eq!(cf.campaign_count(), 0);
    assert_eq!(cf.create_campaign(account(1), 10, 100, 100).unwrap().campaign_id, 0);
    assert_eq!(cf.create_campaign(account(1), 10, 100, 0).unwrap().campaign_id, 1);
    assert_eq!(cf.campaign_count(), 2);
}

#[test]
fn repeated_contributions_share_one_entry() {
    let mut cf = Crowdfunding::new();
    let a = account(2);
    let b = account(3);
    let id = cf.create_campaign(account(1), 1000, 100, 0).unwrap().campaign_id;
    cf.contribute(id, a, 100, 0).unwrap();
    cf.contribute(id, b, 0, 0).unwrap();
    cf.contribute(id, a, 50, 0).unwrap();
    let c = cf.get_campaign(id).unwrap();
    assert_eq!(c.contributions.len(), 2);
    assert_eq!(c.contributions[0].contributor, a);
    assert_eq!(c.contributions[0].amount, 150);
    assert_eq!(c.contributions[1].contributor, b);
    assert_eq!(c.contributions[1].amount, 0);
    let sum: u128 = c.contributions.iter().map(|e| e.amount).sum();
    assert_eq!(c.total_raised, sum);
}

#[test]
fn refund_pays_in_order_and_skips_zero() {
    let mut cf = Crowdfunding::new();
    let a = account(2);
    let b = account(3);
    let z = account(4);
    let id = cf.create_campaign(account(1), 1000, 100, 0).unwrap().campaign_id;
    cf.contribute(id, b, 30, 0).unwrap();
    cf.contribute(id, z, 0, 0).unwrap();
    cf.contribute(id, a, 20, 0).unwrap();
    cf.contribute(id, b, 5, 0).unwrap();
    let refunds = cf.refund(id, 101).unwrap();
    assert_eq!(refunds.len(), 2);
    assert_eq!(refunds[0].contributor, b);
    assert_eq!(refunds[0].amount, 35);
    assert_eq!(refunds[1].contributor, a);
    assert_eq!(refunds[1].amount, 20);
    let c = cf.get_campaign(id).unwrap();
    assert_eq!(c.contributions.len(), 3);
    assert!(c.contributions.iter().all(|e| e.amount == 0));
}

#[test]
fn second_settlement_pays_nothing() {
    let mut cf = Crowdfunding::new();
    let creator = account(1);
    let id = cf.create_campaign(creator, 100, 10, 0).unwrap().campaign_id;
    cf.contribute(id, account(2), 150, 0).unwrap();
    assert_eq!(cf.withdraw(id, creator, 11).unwrap().amount, 150);
    assert_eq!(cf.withdraw(id, creator, 12).unwrap_err(), Error::GoalNotReached);
    assert_eq!(cf.refund(id, 12).unwrap().len(), 0);

    let id2 = cf.create_campaign(creator, 100, 10, 0).unwrap().campaign_id;
    cf.contribute(id2, account(2), 40, 0).unwrap();
    assert_eq!(cf.refund(id2, 11).unwrap().len(), 1);
    assert_eq!(cf.refund(id2, 12).unwrap().len(), 0);
    assert_eq!(cf.withdraw(id2, creator, 12).unwrap_err(), Error::GoalNotReached);
    assert_eq!(cf.get_campaign_info(id2).unwrap().total_raised, 0);
}

#[test]
fn goal_reached_and_listing() {
    let mut cf = Crowdfunding::new();
    let c1 = account(1);
    let c2 = account(2);
    let a = cf.create_campaign(c1, 100, 10, 0).unwrap().campaign_id;
    let b = cf.create_campaign(c2, 0, 20, 0).unwrap().campaign_id;
    assert!(!cf.is_goal_reached(a));
    assert!(cf.is_goal_reached(b));
    cf.contribute(a, account(3), 100, 5).unwrap();
    assert!(cf.is_goal_reached(a));
    let all = cf.get_all_campaigns();
    assert_eq!(all.len(), 2);
    assert_eq!(all[0], (0, c1, 100, 10, 100));
    assert_eq!(all[1], (1, c2, 0, 20, 0));
}

#[test]
fn account_equality_reads_every_byte() {
    let mut x = [7u8; 32];
    let y = [7u8; 32];
    assert_eq!(AccountId { bytes: x }, AccountId { bytes: y });
    x[31] = 8;
    assert_ne!(AccountId { bytes: x }, AccountId { bytes: y });
}
