//! The device groups that a user may use.
//!
//! The question is a state (`Authorization`) that says what to ask the database next
//! (`Authorization::action`) and takes the answer (`Authorization::step`).
use vstd::prelude::*;

use crate::db::DbAction;
use crate::db::DbActionView;
use crate::db::DbReply;
use crate::db::DbReplyView;
use crate::sql::assembled;
use crate::sql::Dialect;
use crate::user_groups::all_inbound_pieces;
use crate::user_groups::allows_all;
use crate::user_groups::allows_all_pieces;
use crate::user_groups::has_group_pieces;
use crate::user_groups::linked_pieces;
use crate::user_groups::own_pieces;
use crate::user_groups::UserGroupRepository;

verus! {

/// `ids` and, behind them, each id of `own` that is not there yet.
pub open spec fn with_own(ids: Seq<i64>, own: Seq<i64>) -> Seq<i64>
    decreases own.len(),
{
    if own.len() == 0 {
        ids
    } else {
        let before = with_own(ids, own.drop_last());
        if before.contains(own.last()) {
            before
        } else {
            before.push(own.last())
        }
    }
}

/// The ascending list `ids` with `id` put behind all that are not greater.
pub open spec fn inserted(ids: Seq<i64>, id: i64) -> Seq<i64>
    decreases ids.len(),
{
    if ids.len() == 0 || ids.last() <= id {
        ids.push(id)
    } else {
        inserted(ids.drop_last(), id).push(ids.last())
    }
}

/// `ids` in ascending order.
pub open spec fn ascending(ids: Seq<i64>) -> Seq<i64>
    decreases ids.len(),
{
    if ids.len() == 0 {
        ids
    } else {
        inserted(ascending(ids.drop_last()), ids.last())
    }
}

proof fn lemma_inserted_at(ids: Seq<i64>, id: i64, p: int)
    requires
        0 <= p <= ids.len(),
        forall|i: int| p <= i < ids.len() ==> #[trigger] ids[i] > id,
        p > 0 ==> ids[p - 1] <= id,
    ensures
        inserted(ids, id) == ids.insert(p, id),
    decreases ids.len(),
{
    if ids.len() == 0 || ids.last() <= id {
        assert(p == ids.len());
        assert(ids.push(id) =~= ids.insert(p, id));
    } else {
        assert(p < ids.len());
        lemma_inserted_at(ids.drop_last(), id, p);
        assert(ids.drop_last().insert(p, id).push(ids.last()) =~= ids.insert(p, id));
    }
}

/// Whether `ids` holds `id`.
fn holds(ids: &Vec<i64>, id: i64) -> (found: bool)
    ensures
        found == ids@.contains(id),
{
    let mut i: usize = 0;
    while i < ids.len()
        invariant
            i <= ids@.len(),
            forall|k: int| 0 <= k < i ==> ids@[k] != id,
        decreases ids@.len() - i,
    {
        if ids[i] == id {
            return true;
        }
        i += 1;
    }
    false
}

/// Sorts ids in ascending order.
fn sorted(ids: &Vec<i64>) -> (result: Vec<i64>)
    ensures
        result@ == ascending(ids@),
{
    let mut result: Vec<i64> = Vec::new();
    let mut i: usize = 0;
    while i < ids.len()
        invariant
            i <= ids@.len(),
            result@ == ascending(ids@.take(i as int)),
        decreases ids@.len() - i,
    {
        let id: i64 = ids[i];
        let mut p: usize = result.len();
        while p > 0 && result[p - 1] > id
            invariant
                p <= result@.len(),
                forall|k: int| p <= k < result@.len() ==> #[trigger] result@[k] > id,
            decreases p,
        {
            p -= 1;
        }
        proof {
            lemma_inserted_at(result@, id, p as int);
            assert(ids@.take(i + 1).drop_last() =~= ids@.take(i as int));
        }
        result.insert(p, id);
        i += 1;
    }
    proof {
        assert(ids@.take(i as int) =~= ids@);
    }
    result
}

/// The ids of the linked device groups and of the user's own, without those that are linked
/// already, in ascending order.
pub fn authorized_ids(linked: Vec<i64>, own: &[i64]) -> (ids: Vec<i64>)
    ensures
        ids@ == ascending(with_own(linked@, own@)),
{
    let ghost start = linked@;
    let mut ids: Vec<i64> = linked;
    let mut i: usize = 0;
    while i < own.len()
        invariant
            i <= own@.len(),
            ids@ == with_own(start, own@.take(i as int)),
        decreases own@.len() - i,
    {
        proof {
            assert(own@.take(i + 1).drop_last() =~= own@.take(i as int));
        }
        if !holds(&ids, own[i]) {
            ids.push(own[i]);
        }
        i += 1;
    }
    proof {
        assert(own@.take(i as int) =~= own@);
    }
    sorted(&ids)
}

/// What the question is waiting for.
pub enum Stage<E> {
    /// Whether the user is in a group.
    CountingGroup,
    /// Whether the user's group allows all device groups.
    ReadingFlag,
    /// All inbound device groups.
    ListingAll,
    /// The inbound device groups that the user's group is linked to.
    ListingLinked,
    /// The inbound device groups that belong to the user.
    ListingOwn { linked: Vec<i64> },
    /// Nothing more.
    Finished { result: Result<Vec<i64>, E> },
}

/// The model of a `Stage`.
#[verifier::ext_equal]
pub enum StageView<E> {
    CountingGroup,
    ReadingFlag,
    ListingAll,
    ListingLinked,
    ListingOwn { linked: Seq<i64> },
    Finished { result: Result<Seq<i64>, E> },
}

impl<E> View for Stage<E> {
    type V = StageView<E>;

    open spec fn view(&self) -> StageView<E> {
        match *self {
            Stage::CountingGroup => StageView::CountingGroup,
            Stage::ReadingFlag => StageView::ReadingFlag,
            Stage::ListingAll => StageView::ListingAll,
            Stage::ListingLinked => StageView::ListingLinked,
            Stage::ListingOwn { linked } => StageView::ListingOwn { linked: linked@ },
            Stage::Finished { result: Ok(ids) } => StageView::Finished { result: Ok(ids@) },
            Stage::Finished { result: Err(e) } => StageView::Finished { result: Err(e) },
        }
    }
}

/// The question which device groups a user may use.
pub struct Authorization<E> {
    pub repository: UserGroupRepository,
    pub user_id: i64,
    pub stage: Stage<E>,
}

/// The next stage. A reply that does not answer the pending action changes nothing; a
/// failure ends the question.
pub open spec fn next<E>(stage: StageView<E>, reply: DbReplyView<E>) -> StageView<E> {
    match (stage, reply) {
        (StageView::Finished { .. }, _) => stage,
        (_, DbReplyView::Failed(e)) => StageView::Finished { result: Err(e) },
        (StageView::CountingGroup, DbReplyView::Count(n)) => if n == 0 {
            StageView::ListingAll
        } else {
            StageView::ReadingFlag
        },
        (StageView::ReadingFlag, DbReplyView::Flag(row)) => if row == Some(true) {
            StageView::ListingAll
        } else {
            StageView::ListingLinked
        },
        (StageView::ListingAll, DbReplyView::Ids(ids)) => StageView::Finished { result: Ok(ids) },
        (StageView::ListingLinked, DbReplyView::Ids(ids)) => StageView::ListingOwn { linked: ids },
        (StageView::ListingOwn { linked }, DbReplyView::Ids(own)) => StageView::Finished {
            result: Ok(ascending(with_own(linked, own))),
        },
        _ => stage,
    }
}

/// The action that a stage waits for.
pub open spec fn pending<E>(dialect: Dialect, user_id: i64, stage: StageView<E>) -> DbActionView {
    match stage {
        StageView::CountingGroup => DbActionView::FetchCount(
            assembled(dialect, has_group_pieces(user_id)),
        ),
        StageView::ReadingFlag => DbActionView::FetchFlag(
            assembled(dialect, allows_all_pieces(user_id)),
        ),
        StageView::ListingAll => DbActionView::FetchIds(assembled(dialect, all_inbound_pieces())),
        StageView::ListingLinked => DbActionView::FetchIds(
            assembled(dialect, linked_pieces(user_id)),
        ),
        StageView::ListingOwn { .. } => DbActionView::FetchIds(
            assembled(dialect, own_pieces(user_id)),
        ),
        StageView::Finished { .. } => DbActionView::Return,
    }
}

impl UserGroupRepository {
    /// Asks which device groups the user may use: a user without a group, or in a group that
    /// allows all, may use every inbound device group; any other those that the group is
    /// linked to and the user's own.
    pub fn authorized_device_group_ids<E>(&self, user_id: i64) -> (question: Authorization<E>)
        ensures
            question.repository == *self,
            question.user_id == user_id,
            question.stage@ == StageView::<E>::CountingGroup,
    {
        Authorization { repository: *self, user_id, stage: Stage::CountingGroup }
    }
}

impl<E> Authorization<E> {
    /// Goes on with what came of the pending action.
    pub fn step(self, reply: DbReply<E>) -> (question: Authorization<E>)
        ensures
            question.repository == self.repository,
            question.user_id == self.user_id,
            question.stage@ == next(self.stage@, reply@),
    {
        let stage = match (self.stage, reply) {
            (Stage::Finished { result }, _) => Stage::Finished { result },
            (_, DbReply::Failed(e)) => Stage::Finished { result: Err(e) },
            (Stage::CountingGroup, DbReply::Count(n)) => if n == 0 {
                Stage::ListingAll
            } else {
                Stage::ReadingFlag
            },
            (Stage::ReadingFlag, DbReply::Flag(row)) => if allows_all(row) {
                Stage::ListingAll
            } else {
                Stage::ListingLinked
            },
            (Stage::ListingAll, DbReply::Ids(ids)) => Stage::Finished { result: Ok(ids) },
            (Stage::ListingLinked, DbReply::Ids(ids)) => Stage::ListingOwn { linked: ids },
            (Stage::ListingOwn { linked }, DbReply::Ids(own)) => Stage::Finished {
                result: Ok(authorized_ids(linked, own.as_slice())),
            },
            (stage, _) => stage,
        };
        Authorization { repository: self.repository, user_id: self.user_id, stage }
    }

    /// The pending action.
    pub fn action(&self) -> (action: DbAction)
        ensures
            action@ == pending(self.repository.dialect, self.user_id, self.stage@),
    {
        match &self.stage {
            Stage::CountingGroup => DbAction::FetchCount(self.repository.has_group(self.user_id)),
            Stage::ReadingFlag => DbAction::FetchFlag(
                self.repository.user_group_allows_all(self.user_id),
            ),
            Stage::ListingAll => DbAction::FetchIds(self.repository.all_inbound()),
            Stage::ListingLinked => DbAction::FetchIds(self.repository.linked(self.user_id)),
            Stage::ListingOwn { .. } => DbAction::FetchIds(self.repository.own(self.user_id)),
            Stage::Finished { .. } => DbAction::Return,
        }
    }

    /// The result, once the question is finished.
    pub fn result(self) -> (result: Option<Result<Vec<i64>, E>>)
        ensures
            match self.stage {
                Stage::Finished { result: r } => result == Some(r),
                _ => result is None,
            },
    {
        match self.stage {
            Stage::Finished { result } => Some(result),
            _ => None,
        }
    }
}

} // verus!
