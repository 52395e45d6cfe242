//! What the models keep of the values that they stand for: every field, unchanged.
use vstd::prelude::*;

use crate::authorization;
use crate::db::DbAction;
use crate::db::DbActionView;
use crate::db::DbError;
use crate::db::DbReply;
use crate::db::DbReplyView;
use crate::db::UserGroup;
use crate::group_update;
use crate::group_update::GroupChange;
use crate::group_update::Review;
use crate::link_update;
use crate::shop::Charge;
use crate::shop::Plan;
use crate::shop::Purchase;
use crate::shop::PurchaseAction;
use crate::shop::PurchaseActionView;
use crate::shop::PurchaseEvent;
use crate::shop::PurchaseEventView;
use crate::shop::PurchaseView;
use crate::shop::Reply;
use crate::shop::ReplyView;
use crate::sql::Bind;
use crate::sql::BindView;
use crate::sql::Statement;
use crate::text::outcome;
use crate::updater::Action;
use crate::updater::ActionView;
use crate::updater::Event;
use crate::updater::EventView;
use crate::updater::Job;
use crate::updater::Upgrade;
use crate::updater::UpgradeView;
use crate::user_groups::option_bind;
use crate::user_groups::option_text;

verus! {

/// The model of a result keeps whether it is an error, and the message.
pub proof fn law_outcome_keeps_the_message(message: String)
    ensures
        outcome(Ok(())) == Ok::<(), Seq<char>>(()),
        outcome(Err(message)) == Err::<(), Seq<char>>(message@),
{
}

/// The model of an optional text is the text, and of nothing nothing.
pub proof fn law_options_keep_their_text(text: &str, bind: Bind)
    ensures
        option_text(Some(text)) == Some(text@),
        option_text(None) == None::<Seq<char>>,
        option_bind(Some(bind)) == Some(bind@),
        option_bind(None) == None::<BindView>,
{
}

/// The models of an upgrade and of what it is to install keep every field.
pub proof fn law_upgrades_keep_their_fields(
    version: String,
    arch: String,
    job: Job,
    binary: Vec<u8>,
    temp: String,
    message: String,
    release: bool,
)
    ensures
        job@.version == job.version@,
        job@.asset == job.asset@,
        (Upgrade::Claiming { version, arch })@ == (UpgradeView::Claiming {
            version: version@,
            arch: arch@,
        }),
        (Upgrade::Locating { job })@ == (UpgradeView::Locating { job: job@ }),
        (Upgrade::Building { job })@ == (UpgradeView::Building { job: job@ }),
        (Upgrade::FetchingBinary { job })@ == (UpgradeView::FetchingBinary { job: job@ }),
        (Upgrade::ReadingBinary { job })@ == (UpgradeView::ReadingBinary { job: job@ }),
        (Upgrade::FetchingDigest { job, binary })@ == (UpgradeView::FetchingDigest {
            job: job@,
            binary: binary@,
        }),
        (Upgrade::ReadingDigest { job, binary })@ == (UpgradeView::ReadingDigest {
            job: job@,
            binary: binary@,
        }),
        (Upgrade::Stamping { binary })@ == (UpgradeView::Stamping { binary: binary@ }),
        (Upgrade::Writing { binary, temp })@ == (UpgradeView::Writing {
            binary: binary@,
            temp: temp@,
        }),
        (Upgrade::Marking { temp })@ == (UpgradeView::Marking { temp: temp@ }),
        (Upgrade::BackingUp { temp })@ == (UpgradeView::BackingUp { temp: temp@ }),
        (Upgrade::Swapping { temp })@ == (UpgradeView::Swapping { temp: temp@ }),
        (Upgrade::Discarding { temp, message })@ == (UpgradeView::Discarding {
            temp: temp@,
            message: message@,
        }),
        (Upgrade::Finished { release, result: Ok(()) })@ == (UpgradeView::Finished {
            release,
            result: Ok(()),
        }),
        (Upgrade::Finished { release, result: Err(message) })@ == (UpgradeView::Finished {
            release,
            result: Err(message@),
        }),
{
}

/// The models of what comes of the actions of an upgrade keep every field.
pub proof fn law_events_keep_their_fields(
    free: bool,
    message: String,
    bytes: Vec<u8>,
    text: String,
    pid: u32,
    nanos: u128,
    path: String,
)
    ensures
        Event::Claimed(free)@ == EventView::Claimed(free),
        Event::Located(Ok(()))@ == EventView::Located(Ok(())),
        Event::Located(Err(message))@ == EventView::Located(Err(message@)),
        Event::ClientBuilt(Ok(()))@ == EventView::ClientBuilt(Ok(())),
        Event::ClientBuilt(Err(message))@ == EventView::ClientBuilt(Err(message@)),
        Event::Responded(Ok(()))@ == EventView::Responded(Ok(())),
        Event::Responded(Err(message))@ == EventView::Responded(Err(message@)),
        Event::Bytes(Ok(bytes))@ == EventView::Bytes(Ok(bytes@)),
        Event::Bytes(Err(message))@ == EventView::Bytes(Err(message@)),
        Event::Text(Ok(text))@ == EventView::Text(Ok(text@)),
        Event::Text(Err(message))@ == EventView::Text(Err(message@)),
        (Event::Stamp { pid, nanos: Some(nanos) })@ == (EventView::Stamp {
            pid: pid as nat,
            nanos: Some(nanos as nat),
        }),
        (Event::Stamp { pid, nanos: None })@ == (EventView::Stamp { pid: pid as nat, nanos: None }),
        Event::Written(Ok(()))@ == EventView::Written(Ok(())),
        Event::Written(Err(message))@ == EventView::Written(Err(message@)),
        Event::Marked(Ok(()))@ == EventView::Marked(Ok(())),
        Event::Marked(Err(message))@ == EventView::Marked(Err(message@)),
        (Event::BackedUp { path, result: Ok(()) })@ == (EventView::BackedUp {
            path: path@,
            result: Ok(()),
        }),
        (Event::BackedUp { path, result: Err(message) })@ == (EventView::BackedUp {
            path: path@,
            result: Err(message@),
        }),
        Event::Swapped(Ok(()))@ == EventView::Swapped(Ok(())),
        Event::Swapped(Err(message))@ == EventView::Swapped(Err(message@)),
        Event::Removed@ == EventView::Removed,
{
}

/// The models of the actions of an upgrade keep every field.
pub proof fn law_actions_keep_their_fields(
    timeout_secs: u64,
    url: String,
    extension: &str,
    bytes: &[u8],
    mode: u32,
    release: bool,
    message: String,
)
    ensures
        Action::Claim@ == ActionView::Claim,
        Action::Locate@ == ActionView::Locate,
        (Action::BuildClient { timeout_secs })@ == (ActionView::BuildClient {
            timeout_secs: timeout_secs as nat,
        }),
        (Action::Request { url })@ == (ActionView::Request { url: url@ }),
        Action::ReadBytes@ == ActionView::ReadBytes,
        Action::ReadText@ == ActionView::ReadText,
        Action::ReadStamp@ == ActionView::ReadStamp,
        (Action::Write { extension, bytes })@ == (ActionView::Write {
            extension: extension@,
            bytes: bytes@,
        }),
        (Action::SetMode { extension, mode })@ == (ActionView::SetMode {
            extension: extension@,
            mode: mode as nat,
        }),
        (Action::BackUp { extension })@ == (ActionView::BackUp { extension: extension@ }),
        (Action::Swap { extension })@ == (ActionView::Swap { extension: extension@ }),
        (Action::Remove { extension })@ == (ActionView::Remove { extension: extension@ }),
        (Action::Finish { release, result: &Ok(()) })@ == (ActionView::Finish {
            release,
            result: Ok(()),
        }),
        (Action::Finish { release, result: &Err(message) })@ == (ActionView::Finish {
            release,
            result: Err(message@),
        }),
{
}

/// The models of plans, charges and replies keep every field.
pub proof fn law_goods_keep_their_fields<T>(
    plan: Plan,
    charge: Charge,
    value: T,
    code: i32,
    message: &'static str,
)
    ensures
        plan@.id == plan.id,
        plan@.name == plan.name@,
        plan@.hidden == plan.hidden,
        plan@.plan_type == plan.plan_type@,
        plan@.duration_days == plan.duration_days,
        plan@.price == plan.price@,
        plan@.traffic == plan.traffic,
        plan@.max_rules == plan.max_rules,
        plan@.reset_traffic == plan.reset_traffic,
        charge@.user_id == charge.user_id,
        charge@.plan_id == charge.plan_id,
        charge@.plan_name == charge.plan_name@,
        charge@.price_cents == charge.price_cents,
        charge@.traffic == charge.traffic,
        charge@.max_rules == charge.max_rules,
        charge@.duration_days == charge.duration_days,
        charge@.reset_traffic == charge.reset_traffic,
        Reply::Success(value)@ == ReplyView::Success(value),
        (Reply::<T>::Failure { code, message })@ == (ReplyView::<T>::Failure {
            code: code as int,
            message: message@,
        }),
{
}

/// The models of purchases, of their events and of their actions keep every field.
pub proof fn law_purchases_keep_their_fields(
    user_id: i64,
    plan_id: i64,
    plan: Plan,
    charge: Charge,
    reply: Reply<()>,
    cents: i64,
    price: &str,
    message: &'static str,
)
    ensures
        (Purchase::Finding { user_id, plan_id })@ == (PurchaseView::Finding {
            user_id: user_id as int,
            plan_id: plan_id as int,
        }),
        (Purchase::Pricing { user_id, plan })@ == (PurchaseView::Pricing {
            user_id: user_id as int,
            plan: plan@,
        }),
        (Purchase::Charging { charge })@ == (PurchaseView::Charging { charge: charge@ }),
        Purchase::Announcing@ == PurchaseView::Announcing,
        (Purchase::Answered { reply })@ == (PurchaseView::Answered { reply: reply@ }),
        PurchaseEvent::Found(Some(plan))@ == PurchaseEventView::Found(Some(plan@)),
        PurchaseEvent::Found(None)@ == PurchaseEventView::Found(None),
        PurchaseEvent::LookupFailed@ == PurchaseEventView::LookupFailed,
        PurchaseEvent::Priced(Some(cents))@ == PurchaseEventView::Priced(Some(cents as int)),
        PurchaseEvent::Priced(None)@ == PurchaseEventView::Priced(None),
        PurchaseEvent::Charged@ == PurchaseEventView::Charged,
        PurchaseEvent::BalanceTooLow@ == PurchaseEventView::BalanceTooLow,
        PurchaseEvent::ChargeFailed@ == PurchaseEventView::ChargeFailed,
        PurchaseEvent::Announced@ == PurchaseEventView::Announced,
        (PurchaseAction::FindPlan { plan_id })@ == (PurchaseActionView::FindPlan {
            plan_id: plan_id as int,
        }),
        (PurchaseAction::ReadPrice { price })@ == (PurchaseActionView::ReadPrice { price: price@ }),
        (PurchaseAction::Charge { charge: &charge })@ == (PurchaseActionView::Charge {
            charge: charge@,
        }),
        (PurchaseAction::Broadcast { message })@ == (PurchaseActionView::Broadcast {
            message: message@,
        }),
        (PurchaseAction::Answer { reply: &reply })@ == (PurchaseActionView::Answer {
            reply: reply@,
        }),
{
}

/// The models of statements and of bound values keep the text and every value, in order.
pub proof fn law_statements_keep_their_values(
    statement: Statement,
    i: int,
    number: i64,
    small: i32,
    flag: bool,
    text: String,
)
    requires
        0 <= i < statement.binds@.len(),
    ensures
        statement@.sql == statement.sql@,
        statement@.binds.len() == statement.binds@.len(),
        statement@.binds[i] == statement.binds@[i]@,
        Bind::Int(number)@ == BindView::Int(number),
        Bind::Small(small)@ == BindView::Small(small),
        Bind::Flag(flag)@ == BindView::Flag(flag),
        Bind::Text(text)@ == BindView::Text(text@),
{
}

/// The models of database actions, replies and user groups keep every field.
pub proof fn law_replies_keep_their_fields<E>(
    statement: Statement,
    group: UserGroup,
    ids: Vec<i64>,
    affected: u64,
    count: i64,
    flag: Option<bool>,
    error: E,
)
    ensures
        group@.id == group.id,
        group@.name == group.name@,
        group@.remark == group.remark@,
        group@.allow_all_groups == group.allow_all_groups,
        group@.created_at == group.created_at@,
        DbAction::Begin@ == DbActionView::Begin,
        DbAction::Execute(statement)@ == DbActionView::Execute(statement@),
        DbAction::FetchIds(statement)@ == DbActionView::FetchIds(statement@),
        DbAction::FetchFlag(statement)@ == DbActionView::FetchFlag(statement@),
        DbAction::FetchCount(statement)@ == DbActionView::FetchCount(statement@),
        DbAction::FetchGroup(statement)@ == DbActionView::FetchGroup(statement@),
        DbAction::Commit@ == DbActionView::Commit,
        DbAction::Return@ == DbActionView::Return,
        DbReply::<E>::Begun@ == DbReplyView::<E>::Begun,
        DbReply::<E>::Affected(affected)@ == DbReplyView::<E>::Affected(affected),
        DbReply::<E>::Ids(ids)@ == DbReplyView::<E>::Ids(ids@),
        DbReply::<E>::Flag(flag)@ == DbReplyView::<E>::Flag(flag),
        DbReply::<E>::Count(count)@ == DbReplyView::<E>::Count(count),
        DbReply::<E>::Group(Some(group))@ == DbReplyView::<E>::Group(Some(group@)),
        DbReply::<E>::Group(None)@ == DbReplyView::<E>::Group(None),
        DbReply::<E>::Committed@ == DbReplyView::<E>::Committed,
        DbReply::Failed(error)@ == DbReplyView::Failed(error),
{
}

/// The models of the stages of a question, of an update and of a replacement keep every field.
pub proof fn law_stages_keep_their_fields<E>(
    ids: Vec<i64>,
    change: GroupChange,
    name: String,
    review: Review,
    paused: u128,
    group: UserGroup,
    error: E,
    next: usize,
)
    ensures
        (authorization::Stage::<E>::CountingGroup)@
            == authorization::StageView::<E>::CountingGroup,
        (authorization::Stage::<E>::ReadingFlag)@ == authorization::StageView::<E>::ReadingFlag,
        (authorization::Stage::<E>::ListingAll)@ == authorization::StageView::<E>::ListingAll,
        (authorization::Stage::<E>::ListingLinked)@
            == authorization::StageView::<E>::ListingLinked,
        (authorization::Stage::<E>::ListingOwn { linked: ids })@ == (authorization::StageView::<
            E,
        >::ListingOwn { linked: ids@ }),
        (authorization::Stage::<E>::Finished { result: Ok(ids) })@ == (authorization::StageView::<
            E,
        >::Finished { result: Ok(ids@) }),
        (authorization::Stage::<E>::Finished { result: Err(error) })@ == (
        authorization::StageView::<E>::Finished { result: Err(error) }),
        change@.id == change.id,
        change.name == Some(name) ==> change@.name == Some(name@),
        change.name is None ==> change@.name is None,
        change.remark == Some(name) ==> change@.remark == Some(name@),
        change.remark is None ==> change@.remark is None,
        change@.allow_all_groups == change.allow_all_groups,
        review@.members == review.members@,
        review@.next == review.next,
        review@.paused == review.paused,
        (group_update::Stage::<E>::Opening)@ == group_update::StageView::<E>::Opening,
        (group_update::Stage::<E>::Updating)@ == group_update::StageView::<E>::Updating,
        (group_update::Stage::<E>::ListingMembers)@
            == group_update::StageView::<E>::ListingMembers,
        (group_update::Stage::<E>::ReadingAll { review })@ == (group_update::StageView::<
            E,
        >::ReadingAll { review: review@ }),
        (group_update::Stage::<E>::ReadingLinked { review })@ == (group_update::StageView::<
            E,
        >::ReadingLinked { review: review@ }),
        (group_update::Stage::<E>::ReadingOwn { review, linked: ids })@ == (
        group_update::StageView::<E>::ReadingOwn { review: review@, linked: ids@ }),
        (group_update::Stage::<E>::Pausing { review, allowed: ids })@ == (
        group_update::StageView::<E>::Pausing { review: review@, allowed: ids@ }),
        (group_update::Stage::<E>::Committing { paused })@ == (group_update::StageView::<
            E,
        >::Committing { paused: paused as int }),
        (group_update::Stage::<E>::ReadingBack)@ == group_update::StageView::<E>::ReadingBack,
        (group_update::Stage::<E>::Finished { result: Ok(group) })@ == (
        group_update::StageView::<E>::Finished { result: Ok(group@) }),
        (group_update::Stage::<E>::Finished { result: Err(DbError::Database(error)) })@ == (
        group_update::StageView::<E>::Finished { result: Err(DbError::Database(error)) }),
        (group_update::Stage::<E>::Finished { result: Err(DbError::NotFound) })@ == (
        group_update::StageView::<E>::Finished { result: Err(DbError::NotFound) }),
        (link_update::Stage::<E>::Opening)@ == link_update::StageView::<E>::Opening,
        (link_update::Stage::<E>::Unlinking)@ == link_update::StageView::<E>::Unlinking,
        (link_update::Stage::<E>::Linking { next })@ == (link_update::StageView::<E>::Linking {
            next: next as int,
        }),
        (link_update::Stage::<E>::Committing)@ == link_update::StageView::<E>::Committing,
        (link_update::Stage::<E>::Finished { result: Ok(()) })@ == (link_update::StageView::<
            E,
        >::Finished { result: Ok(()) }),
        (link_update::Stage::<E>::Finished { result: Err(error) })@ == (link_update::StageView::<
            E,
        >::Finished { result: Err(error) }),
{
}

} // verus!
