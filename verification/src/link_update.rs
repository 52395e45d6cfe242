//! The replacement of the device groups that a user group is linked to.
//!
//! The replacement is a state (`LinkUpdate`) that says what to do next (`LinkUpdate::action`)
//! and takes what came of it (`LinkUpdate::step`). All changes lie in one transaction: the old
//! links go, then each device group is linked.
use vstd::prelude::*;

use crate::db::DbAction;
use crate::db::DbActionView;
use crate::db::DbReply;
use crate::db::DbReplyView;
use crate::sql::assembled;
use crate::sql::Dialect;
use crate::sql::StatementView;
use crate::user_groups::link_pieces;
use crate::user_groups::unlink_pieces;
use crate::user_groups::UserGroupRepository;

verus! {

/// What the replacement is waiting for.
pub enum Stage<E> {
    /// A transaction.
    Opening,
    /// The removal of the old links.
    Unlinking,
    /// The link to the device group at `next`.
    Linking { next: usize },
    /// The end of the transaction.
    Committing,
    /// Nothing more.
    Finished { result: Result<(), E> },
}

/// The model of a `Stage`.
#[verifier::ext_equal]
pub enum StageView<E> {
    Opening,
    Unlinking,
    Linking { next: int },
    Committing,
    Finished { result: Result<(), E> },
}

impl<E> View for Stage<E> {
    type V = StageView<E>;

    open spec fn view(&self) -> StageView<E> {
        match *self {
            Stage::Opening => StageView::Opening,
            Stage::Unlinking => StageView::Unlinking,
            Stage::Linking { next } => StageView::Linking { next: next as int },
            Stage::Committing => StageView::Committing,
            Stage::Finished { result } => StageView::Finished { result },
        }
    }
}

impl<E> StageView<E> {
    /// The device group whose turn it is exists.
    pub open spec fn wf(self, device_groups: nat) -> bool {
        self matches StageView::Linking { next } ==> 0 <= next < device_groups
    }
}

/// The replacement of the links of a user group in the course of its transaction.
pub struct LinkUpdate<E> {
    pub repository: UserGroupRepository,
    pub user_group_id: i64,
    pub device_group_ids: Vec<i64>,
    pub stage: Stage<E>,
}

/// The statements that replace the links, in order.
pub open spec fn replacement(dialect: Dialect, user_group_id: i64, ids: Seq<i64>) -> Seq<
    StatementView,
> {
    seq![assembled(dialect, unlink_pieces(user_group_id))] + ids.map_values(
        |id: i64| assembled(dialect, link_pieces(user_group_id, id)),
    )
}

/// The stage in which the device groups before `next` are linked.
pub open spec fn link_from<E>(device_groups: nat, next: int) -> StageView<E> {
    if next < device_groups {
        StageView::Linking { next }
    } else {
        StageView::Committing
    }
}

/// The next stage. A reply that does not answer the pending action changes nothing; a
/// failure ends the replacement.
pub open spec fn next<E>(
    device_groups: nat,
    stage: StageView<E>,
    reply: DbReplyView<E>,
) -> StageView<E> {
    match (stage, reply) {
        (StageView::Finished { .. }, _) => stage,
        (_, DbReplyView::Failed(e)) => StageView::Finished { result: Err(e) },
        (StageView::Opening, DbReplyView::Begun) => StageView::Unlinking,
        (StageView::Unlinking, DbReplyView::Affected(_)) => link_from(device_groups, 0),
        (StageView::Linking { next }, DbReplyView::Affected(_)) => link_from(
            device_groups,
            next + 1,
        ),
        (StageView::Committing, DbReplyView::Committed) => StageView::Finished { result: Ok(()) },
        _ => stage,
    }
}

/// The action that a stage waits for.
pub open spec fn pending<E>(
    dialect: Dialect,
    user_group_id: i64,
    ids: Seq<i64>,
    stage: StageView<E>,
) -> DbActionView {
    match stage {
        StageView::Opening => DbActionView::Begin,
        StageView::Unlinking => DbActionView::Execute(
            assembled(dialect, unlink_pieces(user_group_id)),
        ),
        StageView::Linking { next } => DbActionView::Execute(
            assembled(dialect, link_pieces(user_group_id, ids[next])),
        ),
        StageView::Committing => DbActionView::Commit,
        StageView::Finished { .. } => DbActionView::Return,
    }
}

impl UserGroupRepository {
    /// Starts the replacement of the links of the user group by links to the device groups.
    pub fn set_user_group_device_groups<E>(&self, user_group_id: i64, device_group_ids: &[i64]) -> (
    update: LinkUpdate<E>)
        ensures
            update.repository == *self,
            update.user_group_id == user_group_id,
            update.device_group_ids@ == device_group_ids@,
            update.stage@ == StageView::<E>::Opening,
    {
        let mut ids: Vec<i64> = Vec::new();
        let mut i: usize = 0;
        while i < device_group_ids.len()
            invariant
                i <= device_group_ids@.len(),
                ids@ == device_group_ids@.take(i as int),
            decreases device_group_ids@.len() - i,
        {
            ids.push(device_group_ids[i]);
            i += 1;
        }
        LinkUpdate {
            repository: *self,
            user_group_id,
            device_group_ids: ids,
            stage: Stage::Opening,
        }
    }
}

fn link_stage<E>(device_groups: usize, next: usize) -> (stage: Stage<E>)
    ensures
        stage@ == link_from::<E>(device_groups as nat, next as int),
{
    if next < device_groups {
        Stage::Linking { next }
    } else {
        Stage::Committing
    }
}

impl<E> LinkUpdate<E> {
    /// The stage is one of this replacement.
    pub open spec fn wf(self) -> bool {
        self.stage@.wf(self.device_group_ids@.len())
    }

    /// Goes on with what came of the pending action.
    pub fn step(self, reply: DbReply<E>) -> (update: LinkUpdate<E>)
        requires
            self.wf(),
        ensures
            update.wf(),
            update.repository == self.repository,
            update.user_group_id == self.user_group_id,
            update.device_group_ids == self.device_group_ids,
            update.stage@ == next(self.device_group_ids@.len(), self.stage@, reply@),
    {
        let device_groups: usize = self.device_group_ids.len();
        let stage = match (self.stage, reply) {
            (Stage::Finished { result }, _) => Stage::Finished { result },
            (_, DbReply::Failed(e)) => Stage::Finished { result: Err(e) },
            (Stage::Opening, DbReply::Begun) => Stage::Unlinking,
            (Stage::Unlinking, DbReply::Affected(_)) => link_stage(device_groups, 0),
            (Stage::Linking { next }, DbReply::Affected(_)) => link_stage(device_groups, next + 1),
            (Stage::Committing, DbReply::Committed) => Stage::Finished { result: Ok(()) },
            (stage, _) => stage,
        };
        LinkUpdate {
            repository: self.repository,
            user_group_id: self.user_group_id,
            device_group_ids: self.device_group_ids,
            stage,
        }
    }

    /// The pending action.
    pub fn action(&self) -> (action: DbAction)
        requires
            self.wf(),
        ensures
            action@ == pending(
                self.repository.dialect,
                self.user_group_id,
                self.device_group_ids@,
                self.stage@,
            ),
    {
        match &self.stage {
            Stage::Opening => DbAction::Begin,
            Stage::Unlinking => DbAction::Execute(self.repository.unlink(self.user_group_id)),
            Stage::Linking { next } => DbAction::Execute(
                self.repository.link(self.user_group_id, self.device_group_ids[*next]),
            ),
            Stage::Committing => DbAction::Commit,
            Stage::Finished { .. } => DbAction::Return,
        }
    }

    /// The result, once the replacement is finished.
    pub fn result(self) -> (result: Option<Result<(), E>>)
        ensures
            match self.stage {
                Stage::Finished { result: r } => result == Some(r),
                _ => result is None,
            },
    {
        match self.stage {
            Stage::Finished { result } => Some(result),
            _ => None,
        }
    }
}

} // verus!
