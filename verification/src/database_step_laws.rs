//! What the operations on the database do at each point, in plain terms: what they ask for,
//! what they take for an answer, and what they give back.
use vstd::prelude::*;

use crate::authorization;
use crate::authorization::ascending;
use crate::authorization::with_own;
use crate::authorization_laws::law_ascending_sorts;
use crate::db::DbActionView;
use crate::db::DbError;
use crate::db::DbReplyView;
use crate::db::UserGroupView;
use crate::group_update;
use crate::group_update::GroupChangeView;
use crate::group_update::ReviewView;
use crate::link_update;
use crate::sql::assembled;
use crate::sql::BindView;
use crate::sql::Dialect;
use crate::sql::StatementView;
use crate::statement_texts::law_all_inbound_text;
use crate::statement_texts::law_allows_all_text;
use crate::statement_texts::law_has_group_text;
use crate::statement_texts::law_link_text;
use crate::statement_texts::law_linked_text;
use crate::statement_texts::law_members_text;
use crate::statement_texts::law_own_text;
use crate::statement_texts::law_read_back_text;
use crate::statement_texts::law_unlink_text;
use crate::user_groups::full_assignments;
use crate::user_groups::pause_pieces;
use crate::user_groups::update_pieces;

verus! {

proof fn lemma_merged_count(linked: Seq<i64>, own: Seq<i64>, x: i64)
    ensures
        with_own(linked, own).to_multiset().count(x) == if linked.contains(x) {
            linked.to_multiset().count(x)
        } else if own.contains(x) {
            1
        } else {
            0
        },
    decreases own.len(),
{
    broadcast use vstd::seq_lib::group_to_multiset_ensures;

    assert(linked.contains(x) <==> linked.to_multiset().count(x) > 0);
    if own.len() > 0 {
        let rest = own.drop_last();
        let before = with_own(linked, rest);
        let last = own.last();
        lemma_merged_count(linked, rest, x);
        lemma_merged_count(linked, rest, last);
        assert(before.contains(last) <==> before.to_multiset().count(last) > 0);
        assert(before.push(last).to_multiset() =~= before.to_multiset().insert(last));
        assert(own.contains(x) <==> rest.contains(x) || x == last) by {
            assert(own =~= rest.push(last));
            if own.contains(x) {
                let i = choose|i: int| 0 <= i < own.len() && own[i] == x;
                if i < rest.len() {
                    assert(rest[i] == x);
                }
            }
            if rest.contains(x) {
                let i = choose|i: int| 0 <= i < rest.len() && rest[i] == x;
                assert(own[i] == x);
            }
            assert(own[own.len() - 1] == last);
        }
    } else {
        assert(!own.contains(x));
    }
}

/// The device groups of a restricted user are in ascending order, hold each linked one as often
/// as it was linked, each own one that is not linked once, and nothing else.
pub proof fn law_merged_groups(linked: Seq<i64>, own: Seq<i64>, x: i64)
    ensures
        forall|i: int, j: int|
            0 <= i < j < ascending(with_own(linked, own)).len() ==> #[trigger] ascending(
                with_own(linked, own),
            )[i] <= #[trigger] ascending(with_own(linked, own))[j],
        ascending(with_own(linked, own)).to_multiset().count(x) == if linked.contains(x) {
            linked.to_multiset().count(x)
        } else if own.contains(x) {
            1
        } else {
            0
        },
{
    law_ascending_sorts(with_own(linked, own));
    lemma_merged_count(linked, own, x);
}

/// What the question which device groups a user may use asks the database, word for word.
pub proof fn law_question_asks<E>(user_id: i64, linked: Seq<i64>, result: Result<Seq<i64>, E>)
    ensures
        authorization::pending(
            Dialect::Sqlite,
            user_id,
            authorization::StageView::<E>::CountingGroup,
        ) == DbActionView::FetchCount(
            StatementView {
                sql: "SELECT COUNT(*) FROM users WHERE id = "@ + "?"@ + " AND group_id IS NOT NULL"@,
                binds: seq![BindView::Int(user_id)],
            },
        ),
        authorization::pending(
            Dialect::Postgres,
            user_id,
            authorization::StageView::<E>::CountingGroup,
        ) == DbActionView::FetchCount(
            StatementView {
                sql: "SELECT COUNT(*) FROM users WHERE id = "@ + "$1"@
                    + " AND group_id IS NOT NULL"@,
                binds: seq![BindView::Int(user_id)],
            },
        ),
        authorization::pending(
            Dialect::Sqlite,
            user_id,
            authorization::StageView::<E>::ReadingFlag,
        ) == DbActionView::FetchFlag(
            StatementView {
                sql: "SELECT ug.allow_all_groups"@ + "\n             "@ + "FROM user_groups ug"@
                    + "\n             "@ + "JOIN users u ON u.group_id = ug.id"@
                    + "\n             "@ + "WHERE u.id = "@ + "?"@,
                binds: seq![BindView::Int(user_id)],
            },
        ),
        authorization::pending(
            Dialect::Postgres,
            user_id,
            authorization::StageView::<E>::ReadingFlag,
        ) == DbActionView::FetchFlag(
            StatementView {
                sql: "SELECT ug.allow_all_groups"@ + "\n             "@ + "FROM user_groups ug"@
                    + "\n             "@ + "JOIN users u ON u.group_id = ug.id"@
                    + "\n             "@ + "WHERE u.id = "@ + "$1"@,
                binds: seq![BindView::Int(user_id)],
            },
        ),
        forall|dialect: Dialect| #[trigger]
            authorization::pending(
                dialect,
                user_id,
                authorization::StageView::<E>::ListingAll,
            ) == DbActionView::FetchIds(
                StatementView {
                    sql: "SELECT id FROM device_groups WHERE group_type = 'in' ORDER BY id"@,
                    binds: Seq::empty(),
                },
            ),
        authorization::pending(
            Dialect::Sqlite,
            user_id,
            authorization::StageView::<E>::ListingLinked,
        ) == DbActionView::FetchIds(
            StatementView {
                sql:
                    "SELECT dg.id FROM device_groups dg JOIN user_group_device_groups ugdg ON ugdg.device_group_id = dg.id JOIN users u ON u.group_id = ugdg.user_group_id WHERE u.id = "@
                    + "?"@ + " AND dg.group_type = 'in' ORDER BY dg.id"@,
                binds: seq![BindView::Int(user_id)],
            },
        ),
        authorization::pending(
            Dialect::Postgres,
            user_id,
            authorization::StageView::<E>::ListingLinked,
        ) == DbActionView::FetchIds(
            StatementView {
                sql:
                    "SELECT dg.id FROM device_groups dg JOIN user_group_device_groups ugdg ON ugdg.device_group_id = dg.id JOIN users u ON u.group_id = ugdg.user_group_id WHERE u.id = "@
                    + "$1"@ + " AND dg.group_type = 'in' ORDER BY dg.id"@,
                binds: seq![BindView::Int(user_id)],
            },
        ),
        authorization::pending(
            Dialect::Sqlite,
            user_id,
            authorization::StageView::<E>::ListingOwn { linked },
        ) == DbActionView::FetchIds(
            StatementView {
                sql: "SELECT id FROM device_groups WHERE uid = "@ + "?"@
                    + " AND group_type = 'in'"@,
                binds: seq![BindView::Int(user_id)],
            },
        ),
        authorization::pending(
            Dialect::Postgres,
            user_id,
            authorization::StageView::<E>::ListingOwn { linked },
        ) == DbActionView::FetchIds(
            StatementView {
                sql: "SELECT id FROM device_groups WHERE uid = "@ + "$1"@
                    + " AND group_type = 'in'"@,
                binds: seq![BindView::Int(user_id)],
            },
        ),
        forall|dialect: Dialect| #[trigger]
            authorization::pending(
                dialect,
                user_id,
                authorization::StageView::<E>::Finished { result },
            ) == DbActionView::Return,
{
    law_has_group_text(user_id);
    law_allows_all_text(user_id);
    law_all_inbound_text();
    law_linked_text(user_id);
    law_own_text(user_id);
    assert forall|dialect: Dialect| #[trigger]
        authorization::pending(
            dialect,
            user_id,
            authorization::StageView::<E>::ListingAll,
        ) == DbActionView::FetchIds(
            StatementView {
                sql: "SELECT id FROM device_groups WHERE group_type = 'in' ORDER BY id"@,
                binds: Seq::empty(),
            },
        ) by {
        assert(dialect == Dialect::Sqlite || dialect == Dialect::Postgres);
    }
}

/// Where the question goes after each answer: to all inbound device groups without a group or
/// with one that allows all, else to the linked ones and then to the user's own.
pub proof fn law_question_goes_on<E>(n: i64, linked: Seq<i64>, ids: Seq<i64>)
    ensures
        n != 0 ==> authorization::next(
            authorization::StageView::<E>::CountingGroup,
            DbReplyView::Count(n),
        ) == authorization::StageView::<E>::ReadingFlag,
        authorization::next(authorization::StageView::<E>::CountingGroup, DbReplyView::Count(0))
            == authorization::StageView::<E>::ListingAll,
        authorization::next(
            authorization::StageView::<E>::ReadingFlag,
            DbReplyView::Flag(Some(true)),
        ) == authorization::StageView::<E>::ListingAll,
        authorization::next(
            authorization::StageView::<E>::ReadingFlag,
            DbReplyView::Flag(Some(false)),
        ) == authorization::StageView::<E>::ListingLinked,
        authorization::next(authorization::StageView::<E>::ReadingFlag, DbReplyView::Flag(None))
            == authorization::StageView::<E>::ListingLinked,
        authorization::next(authorization::StageView::<E>::ListingAll, DbReplyView::Ids(ids)) == (
        authorization::StageView::<E>::Finished { result: Ok(ids) }),
        authorization::next(authorization::StageView::<E>::ListingLinked, DbReplyView::Ids(ids))
            == (authorization::StageView::<E>::ListingOwn { linked: ids }),
        authorization::next(
            authorization::StageView::<E>::ListingOwn { linked },
            DbReplyView::Ids(ids),
        ) == (authorization::StageView::<E>::Finished {
            result: Ok(ascending(with_own(linked, ids))),
        }),
{
}

/// A failure ends the question with that failure; an answer to another question leaves it where
/// it is, and so does anything once it is finished.
pub proof fn law_question_is_not_misled<E>(
    stage: authorization::StageView<E>,
    reply: DbReplyView<E>,
    error: E,
)
    ensures
        !(stage is Finished) ==> authorization::next(stage, DbReplyView::Failed(error)) == (
        authorization::StageView::<E>::Finished { result: Err(error) }),
        stage is Finished ==> authorization::next(stage, reply) == stage,
        stage is CountingGroup && !(reply is Count) && !(reply is Failed) ==> authorization::next(
            stage,
            reply,
        ) == stage,
        stage is ReadingFlag && !(reply is Flag) && !(reply is Failed) ==> authorization::next(
            stage,
            reply,
        ) == stage,
        (stage is ListingAll || stage is ListingLinked || stage is ListingOwn) && !(reply is Ids)
            && !(reply is Failed) ==> authorization::next(stage, reply) == stage,
{
}

/// What the update of a group asks the database. The texts of its update and of its pauses are
/// those of `law_update_with_pause_text` and of the laws on the text of a pause.
pub proof fn law_group_update_asks<E>(
    dialect: Dialect,
    change: GroupChangeView,
    review: ReviewView,
    linked: Seq<i64>,
    allowed: Seq<i64>,
    paused: int,
    result: Result<UserGroupView, DbError<E>>,
)
    ensures
        group_update::pending(dialect, change, group_update::StageView::<E>::Opening)
            == DbActionView::Begin,
        group_update::pending(dialect, change, group_update::StageView::<E>::Updating)
            == DbActionView::Execute(
            assembled(
                dialect,
                update_pieces(
                    change.id,
                    full_assignments(
                        dialect,
                        change.name,
                        change.remark,
                        change.allow_all_groups,
                    ),
                ),
            ),
        ),
        group_update::pending(dialect, change, group_update::StageView::<E>::ListingMembers)
            == DbActionView::FetchIds(
            StatementView {
                sql: match dialect {
                    Dialect::Sqlite => "SELECT id"@ + " FROM users WHERE group_id = "@ + "?"@
                        + " AND admin = "@ + "0"@,
                    Dialect::Postgres => "SELECT id"@ + " FROM users WHERE group_id = "@ + "$1"@
                        + " AND admin = "@ + "FALSE"@,
                },
                binds: seq![BindView::Int(change.id)],
            },
        ),
        group_update::pending(dialect, change, group_update::StageView::<E>::ReadingAll { review })
            == DbActionView::FetchIds(
            StatementView {
                sql: "SELECT id FROM device_groups WHERE group_type = 'in' ORDER BY id"@,
                binds: Seq::empty(),
            },
        ),
        group_update::pending(
            dialect,
            change,
            group_update::StageView::<E>::ReadingLinked { review },
        ) == DbActionView::FetchIds(
            StatementView {
                sql:
                    "SELECT dg.id FROM device_groups dg JOIN user_group_device_groups ugdg ON ugdg.device_group_id = dg.id JOIN users u ON u.group_id = ugdg.user_group_id WHERE u.id = "@
                    + match dialect {
                    Dialect::Sqlite => "?"@,
                    Dialect::Postgres => "$1"@,
                } + " AND dg.group_type = 'in' ORDER BY dg.id"@,
                binds: seq![BindView::Int(review.members[review.next])],
            },
        ),
        group_update::pending(
            dialect,
            change,
            group_update::StageView::<E>::ReadingOwn { review, linked },
        ) == DbActionView::FetchIds(
            StatementView {
                sql: "SELECT id FROM device_groups WHERE uid = "@ + match dialect {
                    Dialect::Sqlite => "?"@,
                    Dialect::Postgres => "$1"@,
                } + " AND group_type = 'in'"@,
                binds: seq![BindView::Int(review.members[review.next])],
            },
        ),
        group_update::pending(
            dialect,
            change,
            group_update::StageView::<E>::Pausing { review, allowed },
        ) == DbActionView::Execute(
            assembled(dialect, pause_pieces(dialect, review.members[review.next], allowed)),
        ),
        group_update::pending(dialect, change, group_update::StageView::<E>::Committing { paused })
            == DbActionView::Commit,
        group_update::pending(dialect, change, group_update::StageView::<E>::ReadingBack)
            == DbActionView::FetchGroup(
            StatementView {
                sql:
                    "SELECT id, name, COALESCE(remark, ''), allow_all_groups, created_at FROM user_groups WHERE id = "@
                    + match dialect {
                    Dialect::Sqlite => "?"@,
                    Dialect::Postgres => "$1"@,
                },
                binds: seq![BindView::Int(change.id)],
            },
        ),
        group_update::pending(dialect, change, group_update::StageView::<E>::Finished { result })
            == DbActionView::Return,
{
    law_members_text(change.id);
    law_all_inbound_text();
    law_linked_text(review.members[review.next]);
    law_own_text(review.members[review.next]);
    law_read_back_text(change.id);
}

/// Where the update of a group goes after each answer. It reviews its members one after the
/// other, from the first to the last, and sums up the rules that were paused.
pub proof fn law_group_update_goes_on<E>(
    change: GroupChangeView,
    members: Seq<i64>,
    at: int,
    paused: int,
    n: u64,
    linked: Seq<i64>,
    ids: Seq<i64>,
    group: UserGroupView,
)
    ensures
        group_update::next(change, group_update::StageView::<E>::Opening, DbReplyView::Begun)
            == group_update::StageView::<E>::Updating,
        n > 0 ==> group_update::next(
            change,
            group_update::StageView::<E>::Updating,
            DbReplyView::Affected(n),
        ) == group_update::StageView::<E>::ListingMembers,
        group_update::next(
            change,
            group_update::StageView::<E>::Updating,
            DbReplyView::Affected(0),
        ) == (group_update::StageView::<E>::Finished { result: Err(DbError::NotFound) }),
        group_update::next(
            change,
            group_update::StageView::<E>::ListingMembers,
            DbReplyView::Ids(members),
        ) == if members.len() == 0 {
            group_update::StageView::<E>::Committing { paused: 0 }
        } else if change.allow_all_groups {
            group_update::StageView::<E>::ReadingAll {
                review: ReviewView { members, next: 0, paused: 0 },
            }
        } else {
            group_update::StageView::<E>::ReadingLinked {
                review: ReviewView { members, next: 0, paused: 0 },
            }
        },
        group_update::next(
            change,
            group_update::StageView::<E>::ReadingAll {
                review: ReviewView { members, next: at, paused },
            },
            DbReplyView::Ids(ids),
        ) == (group_update::StageView::<E>::Pausing {
            review: ReviewView { members, next: at, paused },
            allowed: ids,
        }),
        group_update::next(
            change,
            group_update::StageView::<E>::ReadingLinked {
                review: ReviewView { members, next: at, paused },
            },
            DbReplyView::Ids(ids),
        ) == (group_update::StageView::<E>::ReadingOwn {
            review: ReviewView { members, next: at, paused },
            linked: ids,
        }),
        group_update::next(
            change,
            group_update::StageView::<E>::ReadingOwn {
                review: ReviewView { members, next: at, paused },
                linked,
            },
            DbReplyView::Ids(ids),
        ) == (group_update::StageView::<E>::Pausing {
            review: ReviewView { members, next: at, paused },
            allowed: ascending(with_own(linked, ids)),
        }),
        group_update::next(
            change,
            group_update::StageView::<E>::Pausing {
                review: ReviewView { members, next: at, paused },
                allowed: ids,
            },
            DbReplyView::Affected(n),
        ) == if at + 1 >= members.len() {
            group_update::StageView::<E>::Committing { paused: paused + n }
        } else if change.allow_all_groups {
            group_update::StageView::<E>::ReadingAll {
                review: ReviewView { members, next: at + 1, paused: paused + n },
            }
        } else {
            group_update::StageView::<E>::ReadingLinked {
                review: ReviewView { members, next: at + 1, paused: paused + n },
            }
        },
        group_update::next(
            change,
            group_update::StageView::<E>::Committing { paused },
            DbReplyView::Committed,
        ) == group_update::StageView::<E>::ReadingBack,
        group_update::next(
            change,
            group_update::StageView::<E>::ReadingBack,
            DbReplyView::Group(Some(group)),
        ) == (group_update::StageView::<E>::Finished { result: Ok(group) }),
        group_update::next(
            change,
            group_update::StageView::<E>::ReadingBack,
            DbReplyView::Group(None),
        ) == (group_update::StageView::<E>::Finished { result: Err(DbError::NotFound) }),
{
}

/// A failure ends the update with that failure; an answer to another question leaves it where
/// it is, and so does anything once it is finished.
pub proof fn law_group_update_is_not_misled<E>(
    change: GroupChangeView,
    stage: group_update::StageView<E>,
    reply: DbReplyView<E>,
    error: E,
)
    ensures
        !(stage is Finished) ==> group_update::next(change, stage, DbReplyView::Failed(error)) == (
        group_update::StageView::<E>::Finished { result: Err(DbError::Database(error)) }),
        stage is Finished ==> group_update::next(change, stage, reply) == stage,
        stage is Opening && !(reply is Begun) && !(reply is Failed) ==> group_update::next(
            change,
            stage,
            reply,
        ) == stage,
        (stage is Updating || stage is Pausing) && !(reply is Affected) && !(reply is Failed)
            ==> group_update::next(change, stage, reply) == stage,
        (stage is ListingMembers || stage is ReadingAll || stage is ReadingLinked
            || stage is ReadingOwn) && !(reply is Ids) && !(reply is Failed)
            ==> group_update::next(change, stage, reply) == stage,
        stage is Committing && !(reply is Committed) && !(reply is Failed) ==> group_update::next(
            change,
            stage,
            reply,
        ) == stage,
        stage is ReadingBack && !(reply is Group) && !(reply is Failed) ==> group_update::next(
            change,
            stage,
            reply,
        ) == stage,
{
}

/// What the replacement of links asks the database, word for word.
pub proof fn law_replacement_asks<E>(
    dialect: Dialect,
    user_group_id: i64,
    ids: Seq<i64>,
    at: int,
    result: Result<(), E>,
)
    ensures
        link_update::pending(dialect, user_group_id, ids, link_update::StageView::<E>::Opening)
            == DbActionView::Begin,
        link_update::pending(dialect, user_group_id, ids, link_update::StageView::<E>::Unlinking)
            == DbActionView::Execute(
            StatementView {
                sql: "DELETE FROM user_group_device_groups WHERE user_group_id = "@
                    + match dialect {
                    Dialect::Sqlite => "?"@,
                    Dialect::Postgres => "$1"@,
                },
                binds: seq![BindView::Int(user_group_id)],
            },
        ),
        link_update::pending(
            dialect,
            user_group_id,
            ids,
            link_update::StageView::<E>::Linking { next: at },
        ) == DbActionView::Execute(
            StatementView {
                sql:
                    "INSERT INTO user_group_device_groups (user_group_id, device_group_id) VALUES ("@
                    + match dialect {
                    Dialect::Sqlite => "?"@,
                    Dialect::Postgres => "$1"@,
                } + ", "@ + match dialect {
                    Dialect::Sqlite => "?"@,
                    Dialect::Postgres => "$2"@,
                } + ")"@,
                binds: seq![BindView::Int(user_group_id), BindView::Int(ids[at])],
            },
        ),
        link_update::pending(dialect, user_group_id, ids, link_update::StageView::<E>::Committing)
            == DbActionView::Commit,
        link_update::pending(
            dialect,
            user_group_id,
            ids,
            link_update::StageView::<E>::Finished { result },
        ) == DbActionView::Return,
{
    law_unlink_text(user_group_id);
    law_link_text(user_group_id, ids[at]);
}

/// Where the replacement of links goes after each answer: the old links go first, then each
/// device group is linked, from the first to the last, then all is committed.
pub proof fn law_replacement_goes_on<E>(device_groups: nat, at: int, n: u64)
    ensures
        link_update::next(
            device_groups,
            link_update::StageView::<E>::Opening,
            DbReplyView::Begun,
        ) == link_update::StageView::<E>::Unlinking,
        link_update::next(
            device_groups,
            link_update::StageView::<E>::Unlinking,
            DbReplyView::Affected(n),
        ) == if device_groups > 0 {
            link_update::StageView::<E>::Linking { next: 0 }
        } else {
            link_update::StageView::<E>::Committing
        },
        link_update::next(
            device_groups,
            link_update::StageView::<E>::Linking { next: at },
            DbReplyView::Affected(n),
        ) == if at + 1 < device_groups {
            link_update::StageView::<E>::Linking { next: at + 1 }
        } else {
            link_update::StageView::<E>::Committing
        },
        link_update::next(
            device_groups,
            link_update::StageView::<E>::Committing,
            DbReplyView::Committed,
        ) == (link_update::StageView::<E>::Finished { result: Ok(()) }),
{
}

/// A failure ends the replacement with that failure; an answer to another question leaves it
/// where it is, and so does anything once it is finished.
pub proof fn law_replacement_is_not_misled<E>(
    device_groups: nat,
    stage: link_update::StageView<E>,
    reply: DbReplyView<E>,
    error: E,
)
    ensures
        !(stage is Finished) ==> link_update::next(
            device_groups,
            stage,
            DbReplyView::Failed(error),
        ) == (link_update::StageView::<E>::Finished { result: Err(error) }),
        stage is Finished ==> link_update::next(device_groups, stage, reply) == stage,
        stage is Opening && !(reply is Begun) && !(reply is Failed) ==> link_update::next(
            device_groups,
            stage,
            reply,
        ) == stage,
        (stage is Unlinking || stage is Linking) && !(reply is Affected) && !(reply is Failed)
            ==> link_update::next(device_groups, stage, reply) == stage,
        stage is Committing && !(reply is Committed) && !(reply is Failed) ==> link_update::next(
            device_groups,
            stage,
            reply,
        ) == stage,
{
}

} // verus!
