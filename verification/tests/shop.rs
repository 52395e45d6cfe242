use relay_panel::shop::buy_plan;
use relay_panel::shop::list_my_orders;
use relay_panel::shop::list_public_plans;
use relay_panel::shop::Plan;
use relay_panel::shop::Purchase;
use relay_panel::shop::PurchaseAction;
use relay_panel::shop::PurchaseEvent;
use relay_panel::shop::Reply;

fn plan() -> Plan {
    Plan {
        id: 7,
        name: "Monthly".to_string(),
        hidden: false,
        plan_type: "time".to_string(),
        duration_days: 30,
        price: "9.90".to_string(),
        traffic: 1000,
        max_rules: 5,
        reset_traffic: true,
    }
}

fn reply_text<T>(reply: &Reply<T>) -> String {
    match reply {
        Reply::Success(_) => "success".to_string(),
        Reply::Failure { code, message } => format!("{} {}", code, message),
    }
}

/// What is pending, in words.
fn pending(purchase: &Purchase) -> String {
    match purchase.action() {
        PurchaseAction::FindPlan { plan_id } => format!("find {}", plan_id),
        PurchaseAction::ReadPrice { price } => format!("price {}", price),
        PurchaseAction::Charge { charge } => format!(
            "charge user={} plan={} name={} cents={} traffic={} rules={} days={} reset={}",
            charge.user_id,
            charge.plan_id,
            charge.plan_name,
            charge.price_cents,
            charge.traffic,
            charge.max_rules,
            charge.duration_days,
            charge.reset_traffic
        ),
        PurchaseAction::Broadcast { message } => format!("broadcast {}", message),
        PurchaseAction::Answer { reply } => format!("answer {}", reply_text(reply)),
    }
}

fn charging() -> Purchase {
    buy_plan(3, 7)
        .step(PurchaseEvent::Found(Some(plan())))
        .step(PurchaseEvent::Priced(Some(990)))
}

#[test]
fn purchase_charges_announces_and_succeeds() {
    let purchase = buy_plan(3, 7);
    assert_eq!(pending(&purchase), "find 7");
    let purchase = purchase.step(PurchaseEvent::Found(Some(plan())));
    assert_eq!(pending(&purchase), "price 9.90");
    let purchase = purchase.step(PurchaseEvent::Priced(Some(990)));
    assert_eq!(
        pending(&purchase),
        "charge user=3 plan=7 name=Monthly cents=990 traffic=1000 rules=5 days=30 reset=true"
    );
    let purchase = purchase.step(PurchaseEvent::Charged);
    assert_eq!(
        pending(&purchase),
        "broadcast {\"type\":\"config_changed\"}"
    );
    let purchase = purchase.step(PurchaseEvent::Announced);
    assert_eq!(pending(&purchase), "answer success");
}

#[test]
fn hidden_and_missing_plans_look_alike() {
    let mut hidden = plan();
    hidden.hidden = true;
    let a = buy_plan(3, 7).step(PurchaseEvent::Found(Some(hidden)));
    let b = buy_plan(3, 7).step(PurchaseEvent::Found(None));
    assert_eq!(pending(&a), "answer 404 Plan not found");
    assert_eq!(pending(&b), pending(&a));
}

#[test]
fn hidden_is_looked_at_before_the_duration() {
    let mut bad = plan();
    bad.hidden = true;
    bad.duration_days = 0;
    let purchase = buy_plan(3, 7).step(PurchaseEvent::Found(Some(bad)));
    assert_eq!(pending(&purchase), "answer 404 Plan not found");
}

#[test]
fn timed_plan_needs_a_positive_duration() {
    for days in [0, -1, i64::MIN] {
        let mut bad = plan();
        bad.duration_days = days;
        let purchase = buy_plan(3, 7).step(PurchaseEvent::Found(Some(bad)));
        assert_eq!(
            pending(&purchase),
            "answer 400 This plan has no valid duration"
        );
    }
}

#[test]
fn other_plans_do_not_run_out() {
    let mut data = plan();
    data.plan_type = "data".to_string();
    data.duration_days = -5;
    let purchase = buy_plan(3, 7)
        .step(PurchaseEvent::Found(Some(data)))
        .step(PurchaseEvent::Priced(Some(0)));
    assert_eq!(
        pending(&purchase),
        "charge user=3 plan=7 name=Monthly cents=0 traffic=1000 rules=5 days=0 reset=true"
    );
}

#[test]
fn failures_of_the_database() {
    let lookup = buy_plan(3, 7).step(PurchaseEvent::LookupFailed);
    assert_eq!(pending(&lookup), "answer 500 database error");
    let price = buy_plan(3, 7)
        .step(PurchaseEvent::Found(Some(plan())))
        .step(PurchaseEvent::Priced(None));
    assert_eq!(pending(&price), "answer 500 database error");
    let charge = charging().step(PurchaseEvent::ChargeFailed);
    assert_eq!(pending(&charge), "answer 500 database error");
}

#[test]
fn balance_too_low() {
    let purchase = charging().step(PurchaseEvent::BalanceTooLow);
    assert_eq!(pending(&purchase), "answer 400 余额不足");
}

#[test]
fn stray_purchase_events_change_nothing() {
    let purchase = buy_plan(3, 7).step(PurchaseEvent::Charged);
    assert_eq!(pending(&purchase), "find 7");
    let purchase = charging()
        .step(PurchaseEvent::Charged)
        .step(PurchaseEvent::Announced)
        .step(PurchaseEvent::ChargeFailed)
        .step(PurchaseEvent::Charged);
    assert_eq!(pending(&purchase), "answer success");
}

#[test]
fn public_plans() {
    let rows: Result<Vec<i64>, String> = Ok(vec![1, 2]);
    assert!(matches!(list_public_plans(rows), Reply::Success(list) if list == vec![1, 2]));
    let rows: Result<Vec<i64>, String> = Err("down".to_string());
    assert!(matches!(list_public_plans(rows), Reply::Success(list) if list.is_empty()));
}

#[test]
fn own_orders() {
    let rows: Result<Vec<i64>, String> = Ok(vec![9, 4]);
    assert!(matches!(list_my_orders(rows), Reply::Success(list) if list == vec![9, 4]));
    let rows: Result<Vec<i64>, String> = Err("down".to_string());
    assert_eq!(reply_text(&list_my_orders(rows)), "500 database error");
}
