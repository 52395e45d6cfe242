//! Which device groups a user may use, by the rows of the tables.
use vstd::prelude::*;

use crate::authorization::ascending;
use crate::authorization::with_own;
use crate::authorization::StageView;
use crate::authorization_laws::is_ascending;
use crate::authorization_laws::law_authorized_groups;
use crate::authorization_laws::run;
use crate::db::DbReplyView;
use crate::sql::assembled;
use crate::sql::BindView;
use crate::sql::Dialect;
use crate::sql::StatementView;
use crate::table_laws::lemma_one_bind;
use crate::tables::answers_all;
use crate::tables::answers_count;
use crate::tables::answers_flag;
use crate::tables::answers_linked;
use crate::tables::answers_own;
use crate::tables::Tables;
use crate::user_groups::allows_all_pieces;
use crate::user_groups::flag_question_pieces;
use crate::user_groups::has_group_pieces;
use crate::user_groups::linked_pieces;
use crate::user_groups::own_pieces;
use crate::user_groups::restricted_pieces;

verus! {

/// The user is in a group.
pub open spec fn in_group(tables: Tables, user_id: i64) -> bool {
    exists|i: int| tables.grouped(BindView::Int(user_id), i)
}

/// The user is in a group that has a row with this flag.
pub open spec fn group_has_flag(tables: Tables, user_id: i64, flag: bool) -> bool {
    exists|i: int, j: int| #[trigger]
        tables.joined(BindView::Int(user_id), i, j) && tables.groups[j].allow_all_groups == flag
}

/// The user may use the device group: any inbound one without a group or with a group that
/// allows all, else one that the group is linked to or that belongs to the user.
pub open spec fn may_use(tables: Tables, user_id: i64, device_group: i64) -> bool {
    if !in_group(tables, user_id) || group_has_flag(tables, user_id, true) {
        tables.inbound(device_group)
    } else {
        tables.linked(BindView::Int(user_id), device_group) || tables.owned(
            BindView::Int(user_id),
            device_group,
        )
    }
}

/// `reply` is what the tables give for the question that is pending, or a failure.
pub open spec fn truthful<E>(
    tables: Tables,
    dialect: Dialect,
    user_id: i64,
    stage: StageView<E>,
    reply: DbReplyView<E>,
) -> bool {
    match (stage, reply) {
        (StageView::CountingGroup, DbReplyView::Count(n)) => answers_count(
            assembled(dialect, has_group_pieces(user_id)),
            tables,
            n,
        ),
        (StageView::ReadingFlag, DbReplyView::Flag(row)) => answers_flag(
            assembled(dialect, allows_all_pieces(user_id)),
            tables,
            row,
        ),
        (StageView::ListingAll, DbReplyView::Ids(ids)) => answers_all(tables, ids),
        (StageView::ListingLinked, DbReplyView::Ids(ids)) => answers_linked(
            assembled(dialect, linked_pieces(user_id)),
            tables,
            ids,
        ),
        (StageView::ListingOwn { .. }, DbReplyView::Ids(ids)) => answers_own(
            assembled(dialect, own_pieces(user_id)),
            tables,
            ids,
        ),
        _ => true,
    }
}

/// Each of `replies` is what the tables give for the question that was pending when it came.
pub open spec fn all_truthful<E>(
    tables: Tables,
    dialect: Dialect,
    user_id: i64,
    replies: Seq<DbReplyView<E>>,
) -> bool
    decreases replies.len(),
{
    replies.len() > 0 ==> {
        &&& all_truthful(tables, dialect, user_id, replies.drop_last())
        &&& truthful(
            tables,
            dialect,
            user_id,
            run(StageView::<E>::CountingGroup, replies.drop_last()),
            replies.last(),
        )
    }
}

/// The questions on a user bind the id of the user.
proof fn lemma_question_binds(dialect: Dialect, user_id: i64)
    ensures
        assembled(dialect, has_group_pieces(user_id)).binds == seq![BindView::Int(user_id)],
        assembled(dialect, allows_all_pieces(user_id)).binds == seq![BindView::Int(user_id)],
        assembled(dialect, restricted_pieces(user_id)).binds == seq![BindView::Int(user_id)],
        assembled(dialect, linked_pieces(user_id)).binds == seq![BindView::Int(user_id)],
        assembled(dialect, own_pieces(user_id)).binds == seq![BindView::Int(user_id)],
{
    lemma_one_bind(dialect, has_group_pieces(user_id), 1, BindView::Int(user_id));
    lemma_one_bind(dialect, allows_all_pieces(user_id), 7, BindView::Int(user_id));
    lemma_one_bind(dialect, restricted_pieces(user_id), 7, BindView::Int(user_id));
    lemma_one_bind(dialect, linked_pieces(user_id), 1, BindView::Int(user_id));
    lemma_one_bind(dialect, own_pieces(user_id), 1, BindView::Int(user_id));
}

/// A user has one group, so it has one flag.
proof fn lemma_one_flag(tables: Tables, user_id: i64)
    requires
        tables.wf(),
    ensures
        !(group_has_flag(tables, user_id, true) && group_has_flag(tables, user_id, false)),
{
    let user = BindView::Int(user_id);
    if group_has_flag(tables, user_id, true) && group_has_flag(tables, user_id, false) {
        let (i, j) = choose|i: int, j: int| #[trigger]
            tables.joined(user, i, j) && tables.groups[j].allow_all_groups == true;
        let (k, l) = choose|k: int, l: int| #[trigger]
            tables.joined(user, k, l) && tables.groups[l].allow_all_groups == false;
        assert(tables.users[i].id == tables.users[k].id);
        assert(i == k);
        assert(tables.groups[j].id == tables.groups[l].id);
        assert(j == l);
    }
}

proof fn lemma_flag_row(
    question: StatementView,
    user_id: i64,
    tables: Tables,
    row: Option<bool>,
)
    requires
        tables.wf(),
        question.binds == seq![BindView::Int(user_id)],
        answers_flag(question, tables, row),
    ensures
        row == Some(false) <==> group_has_flag(tables, user_id, false),
        row == Some(true) <==> group_has_flag(tables, user_id, true),
        !in_group(tables, user_id) ==> row is None,
{
    let user = BindView::Int(user_id);
    assert(question.binds[0] == user);
    lemma_one_flag(tables, user_id);
    match row {
        Some(flag) => {
            let (i, j) = choose|i: int, j: int| #[trigger]
                tables.joined(user, i, j) && tables.groups[j].allow_all_groups == flag;
            assert(tables.grouped(user, i));
            assert(group_has_flag(tables, user_id, flag));
        },
        None => {
            assert(forall|i: int, j: int| !tables.joined(user, i, j));
        },
    }
}

/// What is settled of the user by the time the question is at a stage.
spec fn settled<E>(
    tables: Tables,
    dialect: Dialect,
    user_id: i64,
    stage: StageView<E>,
) -> bool {
    let restricted = in_group(tables, user_id) && !group_has_flag(tables, user_id, true);
    match stage {
        StageView::CountingGroup => true,
        StageView::ReadingFlag => in_group(tables, user_id),
        StageView::ListingAll => !restricted,
        StageView::ListingLinked => restricted,
        StageView::ListingOwn { linked } => restricted && answers_linked(
            assembled(dialect, linked_pieces(user_id)),
            tables,
            linked,
        ),
        StageView::Finished { result } => match result {
            Ok(ids) => is_ascending(ids) && forall|x: i64| #[trigger]
                ids.contains(x) <==> may_use(tables, user_id, x),
            Err(_) => true,
        },
    }
}

proof fn lemma_settled<E>(
    tables: Tables,
    dialect: Dialect,
    user_id: i64,
    replies: Seq<DbReplyView<E>>,
)
    requires
        tables.wf(),
        all_truthful(tables, dialect, user_id, replies),
    ensures
        settled(tables, dialect, user_id, run(StageView::<E>::CountingGroup, replies)),
    decreases replies.len(),
{
    if replies.len() > 0 {
        let before = run(StageView::<E>::CountingGroup, replies.drop_last());
        lemma_settled(tables, dialect, user_id, replies.drop_last());
        lemma_question_binds(dialect, user_id);
        lemma_one_flag(tables, user_id);
        match (before, replies.last()) {
            (StageView::CountingGroup, DbReplyView::Count(n)) => {
                assert(assembled(dialect, has_group_pieces(user_id)).binds[0] == BindView::Int(
                    user_id,
                ));
            },
            (StageView::ReadingFlag, DbReplyView::Flag(row)) => {
                lemma_flag_row(
                    assembled(dialect, allows_all_pieces(user_id)),
                    user_id,
                    tables,
                    row,
                );
            },
            (StageView::ListingOwn { linked }, DbReplyView::Ids(own)) => {
                assert(assembled(dialect, linked_pieces(user_id)).binds[0] == BindView::Int(
                    user_id,
                ));
                assert(assembled(dialect, own_pieces(user_id)).binds[0] == BindView::Int(user_id));
                law_authorized_groups(linked, own);
            },
            _ => {},
        }
    }
}

/// The question which device groups a user may use is answered, where no query fails, by
/// exactly those that the rows allow, in ascending order: all inbound ones where the user has
/// no group or one that allows all, else the linked inbound ones and the user's own.
pub proof fn law_authorized_by_the_rows<E>(
    tables: Tables,
    dialect: Dialect,
    user_id: i64,
    replies: Seq<DbReplyView<E>>,
    ids: Seq<i64>,
)
    requires
        tables.wf(),
        all_truthful(tables, dialect, user_id, replies),
        run(StageView::<E>::CountingGroup, replies) == (StageView::<E>::Finished {
            result: Ok(ids),
        }),
    ensures
        is_ascending(ids),
        forall|x: i64| #[trigger] ids.contains(x) <==> may_use(tables, user_id, x),
{
    lemma_settled(tables, dialect, user_id, replies);
}

/// The list of device groups that the update of a group takes a member to be allowed holds
/// exactly those that the member may use, by the rows after the change: `read` is all inbound
/// device groups where the group allows all, else the linked ones, and `own` the member's own.
pub proof fn law_members_are_reviewed_by_the_rows(
    tables: Tables,
    dialect: Dialect,
    user_id: i64,
    allow_all_groups: bool,
    read: Seq<i64>,
    own: Seq<i64>,
    device_group: i64,
)
    requires
        tables.wf(),
        group_has_flag(tables, user_id, allow_all_groups),
        allow_all_groups ==> answers_all(tables, read),
        !allow_all_groups ==> answers_linked(
            assembled(dialect, linked_pieces(user_id)),
            tables,
            read,
        ) && answers_own(assembled(dialect, own_pieces(user_id)), tables, own),
    ensures
        allow_all_groups ==> (read.contains(device_group) <==> may_use(
            tables,
            user_id,
            device_group,
        )),
        !allow_all_groups ==> (ascending(with_own(read, own)).contains(device_group) <==> may_use(
            tables,
            user_id,
            device_group,
        )),
{
    lemma_question_binds(dialect, user_id);
    lemma_one_flag(tables, user_id);
    let (i, j) = choose|i: int, j: int| #[trigger]
        tables.joined(BindView::Int(user_id), i, j) && tables.groups[j].allow_all_groups
            == allow_all_groups;
    assert(tables.grouped(BindView::Int(user_id), i));
    law_authorized_groups(read, own);
}

/// The two questions on the flag of a user's group are one question, but for the white space
/// between its clauses: they bind the same user and read the same row.
pub proof fn law_flag_questions_agree(
    dialect: Dialect,
    user_id: i64,
    tables: Tables,
    row: Option<bool>,
)
    ensures
        allows_all_pieces(user_id) == flag_question_pieces("\n             "@, user_id),
        restricted_pieces(user_id) == flag_question_pieces(" "@, user_id),
        assembled(dialect, allows_all_pieces(user_id)).binds == assembled(
            dialect,
            restricted_pieces(user_id),
        ).binds,
        answers_flag(assembled(dialect, allows_all_pieces(user_id)), tables, row)
            <==> answers_flag(assembled(dialect, restricted_pieces(user_id)), tables, row),
{
    lemma_question_binds(dialect, user_id);
}

/// Read as `restricted` and as `allows_all` do, the row says that the user is in a group that
/// does not allow all, or in one that does; for a user without a group it says neither.
pub proof fn law_flag_row_tells_the_group(
    dialect: Dialect,
    user_id: i64,
    tables: Tables,
    row: Option<bool>,
)
    requires
        tables.wf(),
        answers_flag(assembled(dialect, restricted_pieces(user_id)), tables, row),
    ensures
        row == Some(false) <==> group_has_flag(tables, user_id, false),
        row == Some(true) <==> group_has_flag(tables, user_id, true),
        !in_group(tables, user_id) ==> row is None,
{
    lemma_question_binds(dialect, user_id);
    lemma_flag_row(assembled(dialect, restricted_pieces(user_id)), user_id, tables, row);
}

} // verus!
