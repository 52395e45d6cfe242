//! What holds of every purchase, whatever events it meets.
use vstd::prelude::*;

use crate::shop::charge_for;
use crate::shop::purchase_next;
use crate::shop::purchase_pending;
use crate::shop::ChargeView;
use crate::shop::PlanView;
use crate::shop::PurchaseActionView;
use crate::shop::PurchaseEventView;
use crate::shop::PurchaseView;
use crate::shop::ReplyView;

verus! {

/// The state that `events` lead to from `start`.
pub open spec fn run(start: PurchaseView, events: Seq<PurchaseEventView>) -> PurchaseView
    decreases events.len(),
{
    if events.len() == 0 {
        start
    } else {
        purchase_next(run(start, events.drop_last()), events.last())
    }
}

/// The event at `k` is `event`, and `action` was pending when it came.
pub open spec fn answered_at(
    start: PurchaseView,
    events: Seq<PurchaseEventView>,
    k: int,
    action: PurchaseActionView,
    event: PurchaseEventView,
) -> bool {
    &&& 0 <= k < events.len()
    &&& events[k] == event
    &&& purchase_pending(run(start, events.take(k))) == action
}

/// In the course of `events`, `action` was pending and `event` came of it.
pub open spec fn done(
    start: PurchaseView,
    events: Seq<PurchaseEventView>,
    action: PurchaseActionView,
    event: PurchaseEventView,
) -> bool {
    exists|k: int| answered_at(start, events, k, action, event)
}

/// The user was charged `charge`.
pub open spec fn charged(
    start: PurchaseView,
    events: Seq<PurchaseEventView>,
    charge: ChargeView,
) -> bool {
    done(start, events, PurchaseActionView::Charge { charge }, PurchaseEventView::Charged)
}

/// The plan was found under `plan_id`, and it is for sale.
pub open spec fn found(
    start: PurchaseView,
    events: Seq<PurchaseEventView>,
    plan_id: int,
    plan: PlanView,
) -> bool {
    &&& plan.for_sale()
    &&& done(
        start,
        events,
        PurchaseActionView::FindPlan { plan_id },
        PurchaseEventView::Found(Some(plan)),
    )
}

/// The plan's price was read as `cents`.
pub open spec fn priced(
    start: PurchaseView,
    events: Seq<PurchaseEventView>,
    plan: PlanView,
    cents: int,
) -> bool {
    done(
        start,
        events,
        PurchaseActionView::ReadPrice { price: plan.price },
        PurchaseEventView::Priced(Some(cents)),
    )
}

/// The nodes were told that their configuration has changed.
pub open spec fn announced(start: PurchaseView, events: Seq<PurchaseEventView>) -> bool {
    done(
        start,
        events,
        PurchaseActionView::Broadcast { message: "{\"type\":\"config_changed\"}"@ },
        PurchaseEventView::Announced,
    )
}

/// `charge` is the charge to `user_id` for a plan that was found and priced.
pub open spec fn owed(
    start: PurchaseView,
    events: Seq<PurchaseEventView>,
    user_id: int,
    plan_id: int,
    charge: ChargeView,
) -> bool {
    exists|plan: PlanView, cents: int| #[trigger]
        priced(start, events, plan, cents) && found(start, events, plan_id, plan) && charge
            == charge_for(user_id, plan, cents)
}

proof fn lemma_run_push(
    start: PurchaseView,
    events: Seq<PurchaseEventView>,
    event: PurchaseEventView,
)
    ensures
        run(start, events.push(event)) == purchase_next(run(start, events), event),
        forall|action: PurchaseActionView, e: PurchaseEventView|
            #![trigger done(start, events, action, e)]
            #![trigger done(start, events.push(event), action, e)]
            done(start, events.push(event), action, e) <==> done(start, events, action, e) || (
            purchase_pending(run(start, events)) == action && e == event),
{
    let longer = events.push(event);
    assert(longer.drop_last() == events);
    assert forall|action: PurchaseActionView, e: PurchaseEventView|
        #![trigger done(start, events, action, e)]
        #![trigger done(start, longer, action, e)]
        done(start, longer, action, e) <==> done(start, events, action, e) || (purchase_pending(
            run(start, events),
        ) == action && e == event) by {
        if done(start, events, action, e) {
            let k = choose|k: int| answered_at(start, events, k, action, e);
            assert(longer.take(k) == events.take(k));
            assert(answered_at(start, longer, k, action, e));
        }
        if purchase_pending(run(start, events)) == action && e == event {
            assert(longer.take(events.len() as int) == events);
            assert(answered_at(start, longer, events.len() as int, action, e));
        }
        if done(start, longer, action, e) {
            let k = choose|k: int| answered_at(start, longer, k, action, e);
            if k < events.len() {
                assert(longer.take(k) == events.take(k));
                assert(answered_at(start, events, k, action, e));
            } else {
                assert(longer.take(k) == events);
            }
        }
    }
}

/// What a purchase has done by the time it is in a state.
spec fn earned(events: Seq<PurchaseEventView>, user_id: int, plan_id: int) -> bool {
    let start = PurchaseView::Finding { user_id, plan_id };
    match run(start, events) {
        PurchaseView::Finding { user_id: u, plan_id: p } => u == user_id && p == plan_id,
        PurchaseView::Pricing { user_id: u, plan } => u == user_id && found(
            start,
            events,
            plan_id,
            plan,
        ),
        PurchaseView::Charging { charge } => owed(start, events, user_id, plan_id, charge),
        PurchaseView::Announcing => exists|charge: ChargeView| #[trigger]
            charged(start, events, charge) && owed(start, events, user_id, plan_id, charge),
        PurchaseView::Answered { reply } => reply is Success ==> announced(start, events)
            && exists|charge: ChargeView| #[trigger]
            charged(start, events, charge) && owed(start, events, user_id, plan_id, charge),
    }
}

proof fn lemma_owed_stays(
    start: PurchaseView,
    events: Seq<PurchaseEventView>,
    event: PurchaseEventView,
    user_id: int,
    plan_id: int,
    charge: ChargeView,
)
    requires
        owed(start, events, user_id, plan_id, charge),
    ensures
        owed(start, events.push(event), user_id, plan_id, charge),
{
    lemma_run_push(start, events, event);
    let (plan, cents) = choose|plan: PlanView, cents: int| #[trigger]
        priced(start, events, plan, cents) && found(start, events, plan_id, plan) && charge
            == charge_for(user_id, plan, cents);
    assert(priced(start, events.push(event), plan, cents));
    assert(found(start, events.push(event), plan_id, plan));
}

proof fn lemma_earned(events: Seq<PurchaseEventView>, user_id: int, plan_id: int)
    ensures
        earned(events, user_id, plan_id),
    decreases events.len(),
{
    let start = PurchaseView::Finding { user_id, plan_id };
    if events.len() > 0 {
        let before = events.drop_last();
        let event = events.last();
        lemma_earned(before, user_id, plan_id);
        lemma_run_push(start, before, event);
        assert(before.push(event) == events);
        match run(start, before) {
            PurchaseView::Finding { .. } => {
                if let PurchaseEventView::Found(Some(plan)) = event {
                    assert(plan.for_sale() ==> found(start, events, plan_id, plan));
                }
            },
            PurchaseView::Pricing { plan, .. } => {
                assert(found(start, events, plan_id, plan));
                if let PurchaseEventView::Priced(Some(cents)) = event {
                    assert(priced(start, events, plan, cents));
                    assert(owed(
                        start,
                        events,
                        user_id,
                        plan_id,
                        charge_for(user_id, plan, cents),
                    ));
                }
            },
            PurchaseView::Charging { charge } => {
                lemma_owed_stays(start, before, event, user_id, plan_id, charge);
                assert(event is Charged ==> charged(start, events, charge));
            },
            PurchaseView::Announcing => {
                let charge = choose|charge: ChargeView| #[trigger]
                    charged(start, before, charge) && owed(
                        start,
                        before,
                        user_id,
                        plan_id,
                        charge,
                    );
                lemma_owed_stays(start, before, event, user_id, plan_id, charge);
                assert(charged(start, events, charge));
            },
            PurchaseView::Answered { reply } => {
                if reply is Success {
                    let charge = choose|charge: ChargeView| #[trigger]
                        charged(start, before, charge) && owed(
                            start,
                            before,
                            user_id,
                            plan_id,
                            charge,
                        );
                    lemma_owed_stays(start, before, event, user_id, plan_id, charge);
                    assert(charged(start, events, charge));
                }
            },
        }
    }
}

/// A hidden plan is answered exactly as a plan that does not exist.
pub proof fn law_hidden_plan_looks_missing(user_id: int, plan_id: int, plan: PlanView)
    requires
        plan.hidden,
    ensures
        purchase_next(
            PurchaseView::Finding { user_id, plan_id },
            PurchaseEventView::Found(Some(plan)),
        ) == purchase_next(
            PurchaseView::Finding { user_id, plan_id },
            PurchaseEventView::Found(None),
        ),
{
}

/// A purchase charges the user who asked, and only for a plan that was found under the id
/// that was asked for, that is not hidden, that has a positive duration if it is timed, and
/// at the price that was read for it. A timed plan is granted for its days, any other
/// without an end.
pub proof fn law_charge_is_for_the_plan(
    events: Seq<PurchaseEventView>,
    user_id: int,
    plan_id: int,
    charge: ChargeView,
)
    requires
        purchase_pending(run(PurchaseView::Finding { user_id, plan_id }, events)) == (
        PurchaseActionView::Charge { charge }),
    ensures
        owed(PurchaseView::Finding { user_id, plan_id }, events, user_id, plan_id, charge),
{
    lemma_earned(events, user_id, plan_id);
}

/// A purchase is answered with success only after the user was charged and the nodes were
/// told.
pub proof fn law_success_is_paid_and_announced(
    events: Seq<PurchaseEventView>,
    user_id: int,
    plan_id: int,
)
    requires
        purchase_pending(run(PurchaseView::Finding { user_id, plan_id }, events)) == (
        PurchaseActionView::Answer { reply: ReplyView::Success(()) }),
    ensures
        announced(PurchaseView::Finding { user_id, plan_id }, events),
        exists|charge: ChargeView| #[trigger]
            charged(PurchaseView::Finding { user_id, plan_id }, events, charge) && owed(
                PurchaseView::Finding { user_id, plan_id },
                events,
                user_id,
                plan_id,
                charge,
            ),
{
    lemma_earned(events, user_id, plan_id);
}

/// Once the user was charged, the purchase is announced or answered with success: it never
/// ends in a failure and never charges again.
pub proof fn law_charged_purchase_succeeds(
    start: PurchaseView,
    events: Seq<PurchaseEventView>,
    charge: ChargeView,
)
    requires
        charged(start, events, charge),
    ensures
        run(start, events) is Announcing || run(start, events) == (PurchaseView::Answered {
            reply: ReplyView::Success(()),
        }),
    decreases events.len(),
{
    if events.len() > 0 {
        let before = events.drop_last();
        assert(before.push(events.last()) == events);
        lemma_run_push(start, before, events.last());
        if charged(start, before, charge) {
            law_charged_purchase_succeeds(start, before, charge);
        }
    }
}

/// The purchase of a plan that is for sale succeeds where its price can be read and the charge
/// is committed.
pub proof fn law_clean_purchase_succeeds(user_id: int, plan_id: int, plan: PlanView, cents: int)
    requires
        plan.for_sale(),
    ensures
        run(
            PurchaseView::Finding { user_id, plan_id },
            seq![
                PurchaseEventView::Found(Some(plan)),
                PurchaseEventView::Priced(Some(cents)),
                PurchaseEventView::Charged,
                PurchaseEventView::Announced,
            ],
        ) == (PurchaseView::Answered { reply: ReplyView::Success(()) }),
{
    let start = PurchaseView::Finding { user_id, plan_id };
    let e0 = Seq::<PurchaseEventView>::empty();
    let e1 = e0.push(PurchaseEventView::Found(Some(plan)));
    let e2 = e1.push(PurchaseEventView::Priced(Some(cents)));
    let e3 = e2.push(PurchaseEventView::Charged);
    lemma_run_push(start, e0, PurchaseEventView::Found(Some(plan)));
    lemma_run_push(start, e1, PurchaseEventView::Priced(Some(cents)));
    lemma_run_push(start, e2, PurchaseEventView::Charged);
    lemma_run_push(start, e3, PurchaseEventView::Announced);
    assert(e3.push(PurchaseEventView::Announced) =~= seq![
        PurchaseEventView::Found(Some(plan)),
        PurchaseEventView::Priced(Some(cents)),
        PurchaseEventView::Charged,
        PurchaseEventView::Announced,
    ]);
}

/// The nodes are told of a change only after the user was charged, so a refused purchase
/// tells them nothing.
pub proof fn law_announcement_follows_the_charge(
    events: Seq<PurchaseEventView>,
    user_id: int,
    plan_id: int,
    message: Seq<char>,
)
    requires
        purchase_pending(run(PurchaseView::Finding { user_id, plan_id }, events)) == (
        PurchaseActionView::Broadcast { message }),
    ensures
        exists|charge: ChargeView| #[trigger]
            charged(PurchaseView::Finding { user_id, plan_id }, events, charge) && owed(
                PurchaseView::Finding { user_id, plan_id },
                events,
                user_id,
                plan_id,
                charge,
            ),
{
    lemma_earned(events, user_id, plan_id);
}

} // verus!
