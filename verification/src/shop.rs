//! The shop: the list of plans, the purchase of one, and a user's orders.
//!
//! A purchase is a state (`Purchase`) that says what to do next (`Purchase::action`) and
//! takes what came of it (`Purchase::step`).
use vstd::prelude::*;

use crate::text::same_text;

verus! {

/// The answer to a request.
pub enum Reply<T> {
    Success(T),
    Failure { code: i32, message: &'static str },
}

/// The model of a `Reply`.
#[verifier::ext_equal]
pub enum ReplyView<T> {
    Success(T),
    Failure { code: int, message: Seq<char> },
}

impl<T> View for Reply<T> {
    type V = ReplyView<T>;

    open spec fn view(&self) -> ReplyView<T> {
        match *self {
            Reply::Success(value) => ReplyView::Success(value),
            Reply::Failure { code, message } => ReplyView::Failure {
                code: code as int,
                message: message@,
            },
        }
    }
}

/// The answer where the database failed.
pub open spec fn database_error<T>() -> ReplyView<T> {
    ReplyView::Failure { code: 500, message: "database error"@ }
}

/// The answer where there is no plan that the user may buy.
pub open spec fn plan_not_found<T>() -> ReplyView<T> {
    ReplyView::Failure { code: 404, message: "Plan not found"@ }
}

/// The public list of plans, from what the database gave of the visible ones. Where it
/// failed the list is empty.
pub fn list_public_plans<P, E>(plans: Result<Vec<P>, E>) -> (reply: Reply<Vec<P>>)
    ensures
        match plans {
            Ok(list) => reply@ == ReplyView::Success(list),
            Err(_) => reply@ matches ReplyView::Success(list) && list@ == Seq::<P>::empty(),
        },
{
    match plans {
        Ok(list) => Reply::Success(list),
        Err(_) => Reply::Success(Vec::new()),
    }
}

/// The orders of the user who asks, from what the database gave of them.
pub fn list_my_orders<O, E>(orders: Result<Vec<O>, E>) -> (reply: Reply<Vec<O>>)
    ensures
        match orders {
            Ok(list) => reply@ == ReplyView::Success(list),
            Err(_) => reply@ == (ReplyView::<Vec<O>>::Failure {
                code: 500,
                message: "database error"@,
            }),
        },
{
    match orders {
        Ok(list) => Reply::Success(list),
        Err(_) => Reply::Failure { code: 500, message: "database error" },
    }
}

/// A plan as the shop reads it.
pub struct Plan {
    pub id: i64,
    pub name: String,
    pub hidden: bool,
    pub plan_type: String,
    pub duration_days: i64,
    pub price: String,
    pub traffic: i64,
    pub max_rules: i64,
    pub reset_traffic: bool,
}

/// The model of a `Plan`.
#[verifier::ext_equal]
pub struct PlanView {
    pub id: int,
    pub name: Seq<char>,
    pub hidden: bool,
    pub plan_type: Seq<char>,
    pub duration_days: int,
    pub price: Seq<char>,
    pub traffic: int,
    pub max_rules: int,
    pub reset_traffic: bool,
}

impl View for Plan {
    type V = PlanView;

    open spec fn view(&self) -> PlanView {
        PlanView {
            id: self.id as int,
            name: self.name@,
            hidden: self.hidden,
            plan_type: self.plan_type@,
            duration_days: self.duration_days as int,
            price: self.price@,
            traffic: self.traffic as int,
            max_rules: self.max_rules as int,
            reset_traffic: self.reset_traffic,
        }
    }
}

impl PlanView {
    /// The plan runs out after some days.
    pub open spec fn timed(self) -> bool {
        self.plan_type == "time"@
    }

    /// The days for which a purchase runs; zero for a plan that does not run out.
    pub open spec fn days(self) -> int {
        if self.timed() {
            self.duration_days
        } else {
            0
        }
    }

    /// A user may buy the plan.
    pub open spec fn for_sale(self) -> bool {
        !self.hidden && (self.timed() ==> self.duration_days > 0)
    }
}

/// What is charged and granted in one transaction.
pub struct Charge {
    pub user_id: i64,
    pub plan_id: i64,
    pub plan_name: String,
    pub price_cents: i64,
    pub traffic: i64,
    pub max_rules: i64,
    pub duration_days: i64,
    pub reset_traffic: bool,
}

/// The model of a `Charge`.
#[verifier::ext_equal]
pub struct ChargeView {
    pub user_id: int,
    pub plan_id: int,
    pub plan_name: Seq<char>,
    pub price_cents: int,
    pub traffic: int,
    pub max_rules: int,
    pub duration_days: int,
    pub reset_traffic: bool,
}

impl View for Charge {
    type V = ChargeView;

    open spec fn view(&self) -> ChargeView {
        ChargeView {
            user_id: self.user_id as int,
            plan_id: self.plan_id as int,
            plan_name: self.plan_name@,
            price_cents: self.price_cents as int,
            traffic: self.traffic as int,
            max_rules: self.max_rules as int,
            duration_days: self.duration_days as int,
            reset_traffic: self.reset_traffic,
        }
    }
}

/// The charge for a plan whose price is `cents`.
pub open spec fn charge_for(user_id: int, plan: PlanView, cents: int) -> ChargeView {
    ChargeView {
        user_id,
        plan_id: plan.id,
        plan_name: plan.name,
        price_cents: cents,
        traffic: plan.traffic,
        max_rules: plan.max_rules,
        duration_days: plan.days(),
        reset_traffic: plan.reset_traffic,
    }
}

/// The state of one purchase: what it is waiting for.
pub enum Purchase {
    /// The plan with this id.
    Finding { user_id: i64, plan_id: i64 },
    /// The price of the plan in cents.
    Pricing { user_id: i64, plan: Plan },
    /// The transaction that charges the user.
    Charging { charge: Charge },
    /// The word to all nodes that their configuration has changed.
    Announcing,
    /// Nothing more.
    Answered { reply: Reply<()> },
}

/// The model of a `Purchase`.
#[verifier::ext_equal]
pub enum PurchaseView {
    Finding { user_id: int, plan_id: int },
    Pricing { user_id: int, plan: PlanView },
    Charging { charge: ChargeView },
    Announcing,
    Answered { reply: ReplyView<()> },
}

impl View for Purchase {
    type V = PurchaseView;

    open spec fn view(&self) -> PurchaseView {
        match *self {
            Purchase::Finding { user_id, plan_id } => PurchaseView::Finding {
                user_id: user_id as int,
                plan_id: plan_id as int,
            },
            Purchase::Pricing { user_id, plan } => PurchaseView::Pricing {
                user_id: user_id as int,
                plan: plan@,
            },
            Purchase::Charging { charge } => PurchaseView::Charging { charge: charge@ },
            Purchase::Announcing => PurchaseView::Announcing,
            Purchase::Answered { reply } => PurchaseView::Answered { reply: reply@ },
        }
    }
}

/// What came of an action.
pub enum PurchaseEvent {
    /// The plan, or none.
    Found(Option<Plan>),
    /// The plan could not be looked up.
    LookupFailed,
    /// The price in cents; none if it is not written as an amount of money.
    Priced(Option<i64>),
    /// The charge and the grant were committed.
    Charged,
    /// The user's balance does not cover the price; nothing was changed.
    BalanceTooLow,
    /// The transaction failed; nothing was changed.
    ChargeFailed,
    /// The nodes were told.
    Announced,
}

/// The model of a `PurchaseEvent`.
#[verifier::ext_equal]
pub enum PurchaseEventView {
    Found(Option<PlanView>),
    LookupFailed,
    Priced(Option<int>),
    Charged,
    BalanceTooLow,
    ChargeFailed,
    Announced,
}

impl View for PurchaseEvent {
    type V = PurchaseEventView;

    open spec fn view(&self) -> PurchaseEventView {
        match *self {
            PurchaseEvent::Found(Some(plan)) => PurchaseEventView::Found(Some(plan@)),
            PurchaseEvent::Found(None) => PurchaseEventView::Found(None),
            PurchaseEvent::LookupFailed => PurchaseEventView::LookupFailed,
            PurchaseEvent::Priced(Some(cents)) => PurchaseEventView::Priced(Some(cents as int)),
            PurchaseEvent::Priced(None) => PurchaseEventView::Priced(None),
            PurchaseEvent::Charged => PurchaseEventView::Charged,
            PurchaseEvent::BalanceTooLow => PurchaseEventView::BalanceTooLow,
            PurchaseEvent::ChargeFailed => PurchaseEventView::ChargeFailed,
            PurchaseEvent::Announced => PurchaseEventView::Announced,
        }
    }
}

/// The purchase is refused or has failed.
pub open spec fn refused(reply: ReplyView<()>) -> PurchaseView {
    PurchaseView::Answered { reply }
}

/// The state after the plan was looked up. A hidden plan is answered like a missing one.
pub open spec fn looked_up(user_id: int, plan: Option<PlanView>) -> PurchaseView {
    match plan {
        None => refused(plan_not_found()),
        Some(plan) => if plan.hidden {
            refused(plan_not_found())
        } else if plan.timed() && plan.duration_days <= 0 {
            refused(
                ReplyView::Failure { code: 400, message: "This plan has no valid duration"@ },
            )
        } else {
            PurchaseView::Pricing { user_id, plan }
        },
    }
}

/// The next state. An event that does not answer the pending action changes nothing.
pub open spec fn purchase_next(state: PurchaseView, event: PurchaseEventView) -> PurchaseView {
    match (state, event) {
        (PurchaseView::Finding { user_id, .. }, PurchaseEventView::Found(plan)) => looked_up(
            user_id,
            plan,
        ),
        (PurchaseView::Finding { .. }, PurchaseEventView::LookupFailed) => refused(
            database_error(),
        ),
        (PurchaseView::Pricing { user_id, plan }, PurchaseEventView::Priced(cents)) => match cents {
            None => refused(database_error()),
            Some(cents) => PurchaseView::Charging { charge: charge_for(user_id, plan, cents) },
        },
        (PurchaseView::Charging { .. }, PurchaseEventView::Charged) => PurchaseView::Announcing,
        (PurchaseView::Charging { .. }, PurchaseEventView::BalanceTooLow) => refused(
            ReplyView::Failure { code: 400, message: "余额不足"@ },
        ),
        (PurchaseView::Charging { .. }, PurchaseEventView::ChargeFailed) => refused(
            database_error(),
        ),
        (PurchaseView::Announcing, PurchaseEventView::Announced) => PurchaseView::Answered {
            reply: ReplyView::Success(()),
        },
        _ => state,
    }
}

/// Starts the purchase of the plan `plan_id` by the user `user_id`.
pub fn buy_plan(user_id: i64, plan_id: i64) -> (purchase: Purchase)
    ensures
        purchase@ == (PurchaseView::Finding { user_id: user_id as int, plan_id: plan_id as int }),
{
    Purchase::Finding { user_id, plan_id }
}

fn refuse(code: i32, message: &'static str) -> (purchase: Purchase)
    ensures
        purchase@ == refused(ReplyView::Failure { code: code as int, message: message@ }),
{
    Purchase::Answered { reply: Reply::Failure { code, message } }
}

impl Purchase {
    /// Goes on with what came of the pending action.
    pub fn step(self, event: PurchaseEvent) -> (purchase: Purchase)
        ensures
            purchase@ == purchase_next(self@, event@),
    {
        match (self, event) {
            (Purchase::Finding { user_id, .. }, PurchaseEvent::Found(plan)) => match plan {
                None => refuse(404, "Plan not found"),
                Some(plan) => {
                    if plan.hidden {
                        refuse(404, "Plan not found")
                    } else if same_text(plan.plan_type.as_str(), "time") && plan.duration_days
                        <= 0 {
                        refuse(400, "This plan has no valid duration")
                    } else {
                        Purchase::Pricing { user_id, plan }
                    }
                },
            },
            (Purchase::Finding { .. }, PurchaseEvent::LookupFailed) => refuse(
                500,
                "database error",
            ),
            (Purchase::Pricing { user_id, plan }, PurchaseEvent::Priced(cents)) => match cents {
                None => refuse(500, "database error"),
                Some(price_cents) => {
                    let duration_days: i64 = if same_text(plan.plan_type.as_str(), "time") {
                        plan.duration_days
                    } else {
                        0
                    };
                    Purchase::Charging {
                        charge: Charge {
                            user_id,
                            plan_id: plan.id,
                            plan_name: plan.name,
                            price_cents,
                            traffic: plan.traffic,
                            max_rules: plan.max_rules,
                            duration_days,
                            reset_traffic: plan.reset_traffic,
                        },
                    }
                },
            },
            (Purchase::Charging { .. }, PurchaseEvent::Charged) => Purchase::Announcing,
            (Purchase::Charging { .. }, PurchaseEvent::BalanceTooLow) => refuse(400, "余额不足"),
            (Purchase::Charging { .. }, PurchaseEvent::ChargeFailed) => refuse(
                500,
                "database error",
            ),
            (Purchase::Announcing, PurchaseEvent::Announced) => Purchase::Answered {
                reply: Reply::Success(()),
            },
            (state, _) => state,
        }
    }
}

/// What is to be done next.
pub enum PurchaseAction<'a> {
    /// Look up a plan, hidden or not.
    FindPlan { plan_id: i64 },
    /// Read an amount of money as cents.
    ReadPrice { price: &'a str },
    /// Charge the user and grant the plan, in one transaction.
    Charge { charge: &'a Charge },
    /// Send a message to all connected nodes.
    Broadcast { message: &'static str },
    /// Answer the request.
    Answer { reply: &'a Reply<()> },
}

/// The model of a `PurchaseAction`.
#[verifier::ext_equal]
pub enum PurchaseActionView {
    FindPlan { plan_id: int },
    ReadPrice { price: Seq<char> },
    Charge { charge: ChargeView },
    Broadcast { message: Seq<char> },
    Answer { reply: ReplyView<()> },
}

impl<'a> View for PurchaseAction<'a> {
    type V = PurchaseActionView;

    open spec fn view(&self) -> PurchaseActionView {
        match *self {
            PurchaseAction::FindPlan { plan_id } => PurchaseActionView::FindPlan {
                plan_id: plan_id as int,
            },
            PurchaseAction::ReadPrice { price } => PurchaseActionView::ReadPrice { price: price@ },
            PurchaseAction::Charge { charge } => PurchaseActionView::Charge { charge: charge@ },
            PurchaseAction::Broadcast { message } => PurchaseActionView::Broadcast {
                message: message@,
            },
            PurchaseAction::Answer { reply } => PurchaseActionView::Answer { reply: reply@ },
        }
    }
}

/// The action that a state waits for.
pub open spec fn purchase_pending(state: PurchaseView) -> PurchaseActionView {
    match state {
        PurchaseView::Finding { plan_id, .. } => PurchaseActionView::FindPlan { plan_id },
        PurchaseView::Pricing { plan, .. } => PurchaseActionView::ReadPrice { price: plan.price },
        PurchaseView::Charging { charge } => PurchaseActionView::Charge { charge },
        PurchaseView::Announcing => PurchaseActionView::Broadcast {
            message: "{\"type\":\"config_changed\"}"@,
        },
        PurchaseView::Answered { reply } => PurchaseActionView::Answer { reply },
    }
}

impl Purchase {
    /// The pending action.
    pub fn action(&self) -> (action: PurchaseAction<'_>)
        ensures
            action@ == purchase_pending(self@),
    {
        match self {
            Purchase::Finding { plan_id, .. } => PurchaseAction::FindPlan { plan_id: *plan_id },
            Purchase::Pricing { plan, .. } => PurchaseAction::ReadPrice {
                price: plan.price.as_str(),
            },
            Purchase::Charging { charge } => PurchaseAction::Charge { charge },
            Purchase::Announcing => PurchaseAction::Broadcast {
                message: "{\"type\":\"config_changed\"}",
            },
            Purchase::Answered { reply } => PurchaseAction::Answer { reply },
        }
    }
}

} // verus!
