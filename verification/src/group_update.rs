//! The update of a user group together with the pause of the rules that its members are no
//! longer authorized for.
//!
//! The update is a state (`GroupUpdate`) that says what to do next (`GroupUpdate::action`)
//! and takes what came of it (`GroupUpdate::step`). All changes lie in one transaction.
use vstd::prelude::*;

use crate::authorization::ascending;
use crate::authorization::authorized_ids;
use crate::authorization::with_own;
use crate::db::DbAction;
use crate::db::DbActionView;
use crate::db::DbError;
use crate::db::DbReply;
use crate::db::DbReplyView;
use crate::db::UserGroup;
use crate::db::UserGroupView;
use crate::sql::assembled;
use crate::sql::Dialect;
use crate::user_groups::all_inbound_pieces;
use crate::user_groups::full_assignments;
use crate::user_groups::linked_pieces;
use crate::user_groups::members_pieces;
use crate::user_groups::option_text;
use crate::user_groups::own_pieces;
use crate::user_groups::pause_pieces;
use crate::user_groups::read_back_pieces;
use crate::user_groups::update_pieces;
use crate::user_groups::UserGroupRepository;

verus! {

/// What an update sets.
pub struct GroupChange {
    pub id: i64,
    pub name: Option<String>,
    pub remark: Option<String>,
    pub allow_all_groups: bool,
}

/// The model of a `GroupChange`.
#[verifier::ext_equal]
pub struct GroupChangeView {
    pub id: i64,
    pub name: Option<Seq<char>>,
    pub remark: Option<Seq<char>>,
    pub allow_all_groups: bool,
}

/// The text that an option holds.
pub open spec fn option_string(text: Option<String>) -> Option<Seq<char>> {
    match text {
        Some(t) => Some(t@),
        None => None,
    }
}

impl View for GroupChange {
    type V = GroupChangeView;

    open spec fn view(&self) -> GroupChangeView {
        GroupChangeView {
            id: self.id,
            name: option_string(self.name),
            remark: option_string(self.remark),
            allow_all_groups: self.allow_all_groups,
        }
    }
}

/// The review of the members of a group, the users in it who are no administrators. Those
/// before `next` are done, and `paused` of their rules were paused.
pub struct Review {
    pub members: Vec<i64>,
    pub next: usize,
    pub paused: u128,
}

/// The model of a `Review`.
#[verifier::ext_equal]
pub struct ReviewView {
    pub members: Seq<i64>,
    pub next: int,
    pub paused: int,
}

impl View for Review {
    type V = ReviewView;

    open spec fn view(&self) -> ReviewView {
        ReviewView { members: self.members@, next: self.next as int, paused: self.paused as int }
    }
}

impl ReviewView {
    /// There is a member whose turn it is, and each one before had as many rules paused as a
    /// database can count.
    pub open spec fn wf(self) -> bool {
        &&& 0 <= self.next < self.members.len()
        &&& 0 <= self.paused <= self.next * u64::MAX
    }

    /// The member whose turn it is.
    pub open spec fn member(self) -> i64 {
        self.members[self.next]
    }

    /// The review after the pause of `n` rules of the member whose turn it is.
    pub open spec fn after(self, n: int) -> ReviewView {
        ReviewView { next: self.next + 1, paused: self.paused + n, ..self }
    }
}

/// What the update is waiting for.
pub enum Stage<E> {
    /// A transaction.
    Opening,
    /// The update of the group.
    Updating,
    /// The users of the group who are no administrators.
    ListingMembers,
    /// All inbound device groups, which a member of a group that allows all may use.
    ReadingAll { review: Review },
    /// The inbound device groups that the member's group is linked to.
    ReadingLinked { review: Review },
    /// The inbound device groups that belong to the member.
    ReadingOwn { review: Review, linked: Vec<i64> },
    /// The pause of the member's rules outside the device groups that the member may use.
    Pausing { review: Review, allowed: Vec<i64> },
    /// The end of the transaction, in which so many rules were paused.
    Committing { paused: u128 },
    /// The group as it is now.
    ReadingBack,
    /// Nothing more.
    Finished { result: Result<UserGroup, DbError<E>> },
}

/// The model of a `Stage`.
#[verifier::ext_equal]
pub enum StageView<E> {
    Opening,
    Updating,
    ListingMembers,
    ReadingAll { review: ReviewView },
    ReadingLinked { review: ReviewView },
    ReadingOwn { review: ReviewView, linked: Seq<i64> },
    Pausing { review: ReviewView, allowed: Seq<i64> },
    Committing { paused: int },
    ReadingBack,
    Finished { result: Result<UserGroupView, DbError<E>> },
}

impl<E> View for Stage<E> {
    type V = StageView<E>;

    open spec fn view(&self) -> StageView<E> {
        match *self {
            Stage::Opening => StageView::Opening,
            Stage::Updating => StageView::Updating,
            Stage::ListingMembers => StageView::ListingMembers,
            Stage::ReadingAll { review } => StageView::ReadingAll { review: review@ },
            Stage::ReadingLinked { review } => StageView::ReadingLinked { review: review@ },
            Stage::ReadingOwn { review, linked } => StageView::ReadingOwn {
                review: review@,
                linked: linked@,
            },
            Stage::Pausing { review, allowed } => StageView::Pausing {
                review: review@,
                allowed: allowed@,
            },
            Stage::Committing { paused } => StageView::Committing { paused: paused as int },
            Stage::ReadingBack => StageView::ReadingBack,
            Stage::Finished { result: Ok(group) } => StageView::Finished { result: Ok(group@) },
            Stage::Finished { result: Err(e) } => StageView::Finished { result: Err(e) },
        }
    }
}

impl<E> StageView<E> {
    /// A review that is under way is well formed.
    pub open spec fn wf(self) -> bool {
        match self {
            StageView::ReadingAll { review } => review.wf(),
            StageView::ReadingLinked { review } => review.wf(),
            StageView::ReadingOwn { review, .. } => review.wf(),
            StageView::Pausing { review, .. } => review.wf(),
            _ => true,
        }
    }
}

/// The update of a group in the course of its transaction.
pub struct GroupUpdate<E> {
    pub repository: UserGroupRepository,
    pub change: GroupChange,
    pub stage: Stage<E>,
}

/// The stage in which the members before `review.next` are done.
pub open spec fn visit<E>(change: GroupChangeView, review: ReviewView) -> StageView<E> {
    if review.next >= review.members.len() {
        StageView::Committing { paused: review.paused }
    } else if change.allow_all_groups {
        StageView::ReadingAll { review }
    } else {
        StageView::ReadingLinked { review }
    }
}

/// The next stage. A reply that does not answer the pending action changes nothing; a
/// failure ends the update. The device groups that a member may use are those of
/// `authorized_device_group_ids`: all inbound ones where the group now allows all, else the
/// linked ones and the member's own.
pub open spec fn next<E>(
    change: GroupChangeView,
    stage: StageView<E>,
    reply: DbReplyView<E>,
) -> StageView<E> {
    match (stage, reply) {
        (StageView::Finished { .. }, _) => stage,
        (_, DbReplyView::Failed(e)) => StageView::Finished { result: Err(DbError::Database(e)) },
        (StageView::Opening, DbReplyView::Begun) => StageView::Updating,
        (StageView::Updating, DbReplyView::Affected(n)) => if n == 0 {
            StageView::Finished { result: Err(DbError::NotFound) }
        } else {
            StageView::ListingMembers
        },
        (StageView::ListingMembers, DbReplyView::Ids(members)) => visit(
            change,
            ReviewView { members, next: 0, paused: 0 },
        ),
        (StageView::ReadingAll { review }, DbReplyView::Ids(all)) => StageView::Pausing {
            review,
            allowed: all,
        },
        (StageView::ReadingLinked { review }, DbReplyView::Ids(linked)) => StageView::ReadingOwn {
            review,
            linked,
        },
        (StageView::ReadingOwn { review, linked }, DbReplyView::Ids(own)) => StageView::Pausing {
            review,
            allowed: ascending(with_own(linked, own)),
        },
        (StageView::Pausing { review, .. }, DbReplyView::Affected(n)) => visit(
            change,
            review.after(n as int),
        ),
        (StageView::Committing { .. }, DbReplyView::Committed) => StageView::ReadingBack,
        (StageView::ReadingBack, DbReplyView::Group(row)) => match row {
            Some(group) => StageView::Finished { result: Ok(group) },
            None => StageView::Finished { result: Err(DbError::NotFound) },
        },
        _ => stage,
    }
}

/// The action that a stage waits for.
pub open spec fn pending<E>(
    dialect: Dialect,
    change: GroupChangeView,
    stage: StageView<E>,
) -> DbActionView {
    match stage {
        StageView::Opening => DbActionView::Begin,
        StageView::Updating => DbActionView::Execute(
            assembled(
                dialect,
                update_pieces(
                    change.id,
                    full_assignments(
                        dialect,
                        change.name,
                        change.remark,
                        change.allow_all_groups,
                    ),
                ),
            ),
        ),
        StageView::ListingMembers => DbActionView::FetchIds(
            assembled(dialect, members_pieces(dialect, change.id)),
        ),
        StageView::ReadingAll { .. } => DbActionView::FetchIds(
            assembled(dialect, all_inbound_pieces()),
        ),
        StageView::ReadingLinked { review } => DbActionView::FetchIds(
            assembled(dialect, linked_pieces(review.member())),
        ),
        StageView::ReadingOwn { review, .. } => DbActionView::FetchIds(
            assembled(dialect, own_pieces(review.member())),
        ),
        StageView::Pausing { review, allowed } => DbActionView::Execute(
            assembled(dialect, pause_pieces(dialect, review.member(), allowed)),
        ),
        StageView::Committing { .. } => DbActionView::Commit,
        StageView::ReadingBack => DbActionView::FetchGroup(
            assembled(dialect, read_back_pieces(change.id)),
        ),
        StageView::Finished { .. } => DbActionView::Return,
    }
}

impl UserGroupRepository {
    /// Starts the update of the group `id` and the pause, in the same transaction, of every
    /// rule of its members on a device group that the member may no longer use.
    pub fn update_user_group_with_pause<E>(
        &self,
        id: i64,
        name: Option<&str>,
        remark: Option<&str>,
        allow_all_groups: bool,
    ) -> (update: GroupUpdate<E>)
        ensures
            update.repository == *self,
            update.change@ == (GroupChangeView {
                id,
                name: option_text(name),
                remark: option_text(remark),
                allow_all_groups,
            }),
            update.stage@ == StageView::<E>::Opening,
    {
        GroupUpdate {
            repository: *self,
            change: GroupChange {
                id,
                name: match name {
                    Some(t) => Some(t.to_owned()),
                    None => None,
                },
                remark: match remark {
                    Some(t) => Some(t.to_owned()),
                    None => None,
                },
                allow_all_groups,
            },
            stage: Stage::Opening,
        }
    }
}

fn visit_stage<E>(allow_all_groups: bool, review: Review) -> (stage: Stage<E>)
    requires
        review.next < review.members@.len() ==> review@.wf(),
    ensures
        stage@.wf(),
        forall|change: GroupChangeView|
            change.allow_all_groups == allow_all_groups ==> stage@ == #[trigger] visit::<E>(
                change,
                review@,
            ),
{
    if review.next >= review.members.len() {
        Stage::Committing { paused: review.paused }
    } else if allow_all_groups {
        Stage::ReadingAll { review }
    } else {
        Stage::ReadingLinked { review }
    }
}

impl<E> GroupUpdate<E> {
    /// Goes on with what came of the pending action.
    pub fn step(self, reply: DbReply<E>) -> (update: GroupUpdate<E>)
        requires
            self.stage@.wf(),
        ensures
            update.stage@.wf(),
            update.repository == self.repository,
            update.change == self.change,
            update.stage@ == next(self.change@, self.stage@, reply@),
    {
        let all: bool = self.change.allow_all_groups;
        let stage = match (self.stage, reply) {
            (Stage::Finished { result }, _) => Stage::Finished { result },
            (_, DbReply::Failed(e)) => Stage::Finished { result: Err(DbError::Database(e)) },
            (Stage::Opening, DbReply::Begun) => Stage::Updating,
            (Stage::Updating, DbReply::Affected(n)) => if n == 0 {
                Stage::Finished { result: Err(DbError::NotFound) }
            } else {
                Stage::ListingMembers
            },
            (Stage::ListingMembers, DbReply::Ids(members)) => visit_stage(
                all,
                Review { members, next: 0, paused: 0 },
            ),
            (Stage::ReadingAll { review }, DbReply::Ids(allowed)) => {
                Stage::Pausing { review, allowed }
            },
            (Stage::ReadingLinked { review }, DbReply::Ids(linked)) => {
                Stage::ReadingOwn { review, linked }
            },
            (Stage::ReadingOwn { review, linked }, DbReply::Ids(own)) => Stage::Pausing {
                review,
                allowed: authorized_ids(linked, own.as_slice()),
            },
            (Stage::Pausing { review, .. }, DbReply::Affected(n)) => {
                let Review { members, next, paused } = review;
                assert(next < members.len());
                visit_stage(all, Review { members, next: next + 1, paused: paused + n as u128 })
            },
            (Stage::Committing { .. }, DbReply::Committed) => Stage::ReadingBack,
            (Stage::ReadingBack, DbReply::Group(row)) => match row {
                Some(group) => Stage::Finished { result: Ok(group) },
                None => Stage::Finished { result: Err(DbError::NotFound) },
            },
            (stage, _) => stage,
        };
        GroupUpdate { repository: self.repository, change: self.change, stage }
    }

    /// The pending action.
    pub fn action(&self) -> (action: DbAction)
        requires
            self.stage@.wf(),
        ensures
            action@ == pending(self.repository.dialect, self.change@, self.stage@),
    {
        match &self.stage {
            Stage::Opening => DbAction::Begin,
            Stage::Updating => {
                let name = match &self.change.name {
                    Some(t) => Some(t.as_str()),
                    None => None,
                };
                let remark = match &self.change.remark {
                    Some(t) => Some(t.as_str()),
                    None => None,
                };
                DbAction::Execute(
                    self.repository.full_update(
                        self.change.id,
                        name,
                        remark,
                        self.change.allow_all_groups,
                    ),
                )
            },
            Stage::ListingMembers => DbAction::FetchIds(self.repository.members(self.change.id)),
            Stage::ReadingAll { .. } => DbAction::FetchIds(self.repository.all_inbound()),
            Stage::ReadingLinked { review } => DbAction::FetchIds(
                self.repository.linked(review.members[review.next]),
            ),
            Stage::ReadingOwn { review, .. } => DbAction::FetchIds(
                self.repository.own(review.members[review.next]),
            ),
            Stage::Pausing { review, allowed } => DbAction::Execute(
                self.repository.pause_rules_outside_groups(
                    review.members[review.next],
                    allowed.as_slice(),
                ),
            ),
            Stage::Committing { .. } => DbAction::Commit,
            Stage::ReadingBack => DbAction::FetchGroup(self.repository.read_back(self.change.id)),
            Stage::Finished { .. } => DbAction::Return,
        }
    }

    /// How many rules the update has paused, to be noted when it is about to be committed;
    /// nothing where there are none.
    pub fn paused_total(&self) -> (total: Option<u128>)
        ensures
            match self.stage@ {
                StageView::Committing { paused } if paused > 0 => total matches Some(n) && n
                    == paused,
                _ => total is None,
            },
    {
        match &self.stage {
            Stage::Committing { paused } if *paused > 0 => Some(*paused),
            _ => None,
        }
    }

    /// The result, once the update is finished.
    pub fn result(self) -> (result: Option<Result<UserGroup, DbError<E>>>)
        ensures
            match self.stage {
                Stage::Finished { result: r } => result == Some(r),
                _ => result is None,
            },
    {
        match self.stage {
            Stage::Finished { result } => Some(result),
            _ => None,
        }
    }
}

} // verus!
