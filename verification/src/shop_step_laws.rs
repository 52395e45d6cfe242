//! What a purchase does at each point, in plain terms: what it asks for, what it charges, and
//! what it answers.
use vstd::prelude::*;

use crate::shop::charge_for;
use crate::shop::purchase_next;
use crate::shop::purchase_pending;
use crate::shop::ChargeView;
use crate::shop::PlanView;
use crate::shop::PurchaseActionView;
use crate::shop::PurchaseEventView;
use crate::shop::PurchaseView;
use crate::shop::ReplyView;
use crate::shop_laws::done;
use crate::shop_laws::found;
use crate::shop_laws::law_charge_is_for_the_plan;
use crate::shop_laws::priced;
use crate::shop_laws::run;

verus! {

/// Whenever a purchase charges, it charges the user who asked the whole price that was read
/// for the plan that was found, and grants what that plan holds: its traffic, its rules, and
/// its days where it is timed, else no days. The plan is not hidden, and a timed one has days.
pub proof fn law_charge_field_by_field(
    events: Seq<PurchaseEventView>,
    user_id: int,
    plan_id: int,
    charge: ChargeView,
)
    requires
        purchase_pending(run(PurchaseView::Finding { user_id, plan_id }, events)) == (
        PurchaseActionView::Charge { charge }),
    ensures
        exists|plan: PlanView, cents: int|
            {
                &&& #[trigger] done(
                    PurchaseView::Finding { user_id, plan_id },
                    events,
                    PurchaseActionView::ReadPrice { price: plan.price },
                    PurchaseEventView::Priced(Some(cents)),
                )
                &&& #[trigger] done(
                    PurchaseView::Finding { user_id, plan_id },
                    events,
                    PurchaseActionView::FindPlan { plan_id },
                    PurchaseEventView::Found(Some(plan)),
                )
                &&& !plan.hidden
                &&& plan.plan_type == "time"@ ==> plan.duration_days > 0
                &&& charge.user_id == user_id
                &&& charge.plan_id == plan.id
                &&& charge.plan_name == plan.name
                &&& charge.price_cents == cents
                &&& charge.traffic == plan.traffic
                &&& charge.max_rules == plan.max_rules
                &&& charge.reset_traffic == plan.reset_traffic
                &&& plan.plan_type == "time"@ ==> charge.duration_days == plan.duration_days
                &&& plan.plan_type != "time"@ ==> charge.duration_days == 0
            },
{
    let start = PurchaseView::Finding { user_id, plan_id };
    law_charge_is_for_the_plan(events, user_id, plan_id, charge);
    let (plan, cents) = choose|plan: PlanView, cents: int| #[trigger]
        priced(start, events, plan, cents) && found(start, events, plan_id, plan) && charge
            == charge_for(user_id, plan, cents);
    assert(done(
        start,
        events,
        PurchaseActionView::ReadPrice { price: plan.price },
        PurchaseEventView::Priced(Some(cents)),
    ));
    assert(done(
        start,
        events,
        PurchaseActionView::FindPlan { plan_id },
        PurchaseEventView::Found(Some(plan)),
    ));
}

/// What a purchase waits for in each state.
pub proof fn law_purchase_asks(
    user_id: int,
    plan_id: int,
    plan: PlanView,
    charge: ChargeView,
    reply: ReplyView<()>,
)
    ensures
        purchase_pending(PurchaseView::Finding { user_id, plan_id }) == (
        PurchaseActionView::FindPlan { plan_id }),
        purchase_pending(PurchaseView::Pricing { user_id, plan }) == (
        PurchaseActionView::ReadPrice { price: plan.price }),
        purchase_pending(PurchaseView::Charging { charge }) == (PurchaseActionView::Charge {
            charge,
        }),
        purchase_pending(PurchaseView::Announcing) == (PurchaseActionView::Broadcast {
            message: "{\"type\":\"config_changed\"}"@,
        }),
        purchase_pending(PurchaseView::Answered { reply }) == (PurchaseActionView::Answer {
            reply,
        }),
{
}

/// A purchase goes on with the plan that was found where that is not hidden and, if it is
/// timed, has days; then to the charge at the price that was read; then it tells the nodes,
/// and then it answers with success.
pub proof fn law_purchase_goes_on(
    user_id: int,
    plan_id: int,
    plan: PlanView,
    cents: int,
    charge: ChargeView,
)
    ensures
        !plan.hidden && (plan.plan_type == "time"@ ==> plan.duration_days > 0) ==> purchase_next(
            PurchaseView::Finding { user_id, plan_id },
            PurchaseEventView::Found(Some(plan)),
        ) == (PurchaseView::Pricing { user_id, plan }),
        purchase_next(
            PurchaseView::Pricing { user_id, plan },
            PurchaseEventView::Priced(Some(cents)),
        ) == (PurchaseView::Charging {
            charge: ChargeView {
                user_id,
                plan_id: plan.id,
                plan_name: plan.name,
                price_cents: cents,
                traffic: plan.traffic,
                max_rules: plan.max_rules,
                duration_days: if plan.plan_type == "time"@ {
                    plan.duration_days
                } else {
                    0
                },
                reset_traffic: plan.reset_traffic,
            },
        }),
        purchase_next(PurchaseView::Charging { charge }, PurchaseEventView::Charged)
            == PurchaseView::Announcing,
        purchase_next(PurchaseView::Announcing, PurchaseEventView::Announced) == (
        PurchaseView::Answered { reply: ReplyView::Success(()) }),
{
}

/// Each refusal and each failure of a purchase has its code and its message.
pub proof fn law_purchase_refusals(
    user_id: int,
    plan_id: int,
    plan: PlanView,
    charge: ChargeView,
)
    ensures
        purchase_next(
            PurchaseView::Finding { user_id, plan_id },
            PurchaseEventView::Found(None),
        ) == (PurchaseView::Answered {
            reply: ReplyView::Failure { code: 404, message: "Plan not found"@ },
        }),
        plan.hidden ==> purchase_next(
            PurchaseView::Finding { user_id, plan_id },
            PurchaseEventView::Found(Some(plan)),
        ) == (PurchaseView::Answered {
            reply: ReplyView::Failure { code: 404, message: "Plan not found"@ },
        }),
        !plan.hidden && plan.plan_type == "time"@ && plan.duration_days <= 0 ==> purchase_next(
            PurchaseView::Finding { user_id, plan_id },
            PurchaseEventView::Found(Some(plan)),
        ) == (PurchaseView::Answered {
            reply: ReplyView::Failure { code: 400, message: "This plan has no valid duration"@ },
        }),
        purchase_next(
            PurchaseView::Finding { user_id, plan_id },
            PurchaseEventView::LookupFailed,
        ) == (PurchaseView::Answered {
            reply: ReplyView::Failure { code: 500, message: "database error"@ },
        }),
        purchase_next(
            PurchaseView::Pricing { user_id, plan },
            PurchaseEventView::Priced(None),
        ) == (PurchaseView::Answered {
            reply: ReplyView::Failure { code: 500, message: "database error"@ },
        }),
        purchase_next(PurchaseView::Charging { charge }, PurchaseEventView::BalanceTooLow) == (
        PurchaseView::Answered { reply: ReplyView::Failure { code: 400, message: "余额不足"@ } }),
        purchase_next(PurchaseView::Charging { charge }, PurchaseEventView::ChargeFailed) == (
        PurchaseView::Answered {
            reply: ReplyView::Failure { code: 500, message: "database error"@ },
        }),
{
}

/// An event that does not answer what a purchase waits for leaves it as it is.
pub proof fn law_stray_purchase_events_are_ignored(state: PurchaseView, event: PurchaseEventView)
    requires
        match state {
            PurchaseView::Finding { .. } => !(event is Found) && !(event is LookupFailed),
            PurchaseView::Pricing { .. } => !(event is Priced),
            PurchaseView::Charging { .. } => !(event is Charged) && !(event is BalanceTooLow) && !(
            event is ChargeFailed),
            PurchaseView::Announcing => !(event is Announced),
            PurchaseView::Answered { .. } => true,
        },
    ensures
        purchase_next(state, event) == state,
{
}

} // verus!
