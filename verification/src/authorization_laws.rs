//! What holds of the device groups that a user may use.
use vstd::prelude::*;

use crate::authorization::ascending;
use crate::authorization::inserted;
use crate::authorization::next;
use crate::authorization::with_own;
use crate::authorization::StageView;
use crate::db::DbReplyView;

verus! {

/// No id is greater than one behind it.
pub open spec fn is_ascending(ids: Seq<i64>) -> bool {
    forall|i: int, j: int| 0 <= i < j < ids.len() ==> #[trigger] ids[i] <= #[trigger] ids[j]
}

proof fn lemma_inserted(ids: Seq<i64>, id: i64)
    requires
        is_ascending(ids),
    ensures
        is_ascending(inserted(ids, id)),
        inserted(ids, id).to_multiset() == ids.to_multiset().insert(id),
        inserted(ids, id).len() == ids.len() + 1,
        forall|i: int|
            0 <= i < inserted(ids, id).len() ==> #[trigger] inserted(ids, id)[i] == id
                || exists|j: int| 0 <= j < ids.len() && ids[j] == inserted(ids, id)[i],
    decreases ids.len(),
{
    broadcast use vstd::seq_lib::group_to_multiset_ensures;

    let result = inserted(ids, id);
    if ids.len() == 0 || ids.last() <= id {
        assert forall|i: int, j: int| 0 <= i < j < result.len() implies #[trigger] result[i]
            <= #[trigger] result[j] by {
            if j == ids.len() {
                assert(ids[i] <= ids[ids.len() - 1]);
            }
        }
    } else {
        let rest = ids.drop_last();
        let smaller = inserted(rest, id);
        assert(is_ascending(rest));
        lemma_inserted(rest, id);
        assert(rest.push(ids.last()) =~= ids);
        assert(result.to_multiset() =~= ids.to_multiset().insert(id));
        assert forall|i: int, j: int| 0 <= i < j < result.len() implies #[trigger] result[i]
            <= #[trigger] result[j] by {
            if j == smaller.len() {
                assert(result[i] == smaller[i]);
                if smaller[i] != id {
                    let k = choose|k: int| 0 <= k < rest.len() && rest[k] == smaller[i];
                    assert(ids[k] <= ids[ids.len() - 1]);
                }
            } else {
                assert(smaller[i] <= smaller[j]);
            }
        }
        assert forall|i: int| 0 <= i < result.len() implies #[trigger] result[i] == id || exists|
            j: int,
        | 0 <= j < ids.len() && ids[j] == result[i] by {
            if i < smaller.len() {
                assert(result[i] == smaller[i]);
                if smaller[i] != id {
                    let k = choose|k: int| 0 <= k < rest.len() && rest[k] == smaller[i];
                    assert(ids[k] == result[i]);
                }
            } else {
                assert(ids[ids.len() - 1] == result[i]);
            }
        }
    }
}

/// Sorting keeps the ids, each as often as it was there, and puts them in ascending order.
pub proof fn law_ascending_sorts(ids: Seq<i64>)
    ensures
        is_ascending(ascending(ids)),
        ascending(ids).to_multiset() == ids.to_multiset(),
    decreases ids.len(),
{
    broadcast use vstd::seq_lib::group_to_multiset_ensures;

    if ids.len() > 0 {
        law_ascending_sorts(ids.drop_last());
        lemma_inserted(ascending(ids.drop_last()), ids.last());
        assert(ids.drop_last().push(ids.last()) =~= ids);
    }
}

proof fn lemma_with_own(ids: Seq<i64>, own: Seq<i64>)
    ensures
        forall|x: i64| #[trigger]
            with_own(ids, own).contains(x) <==> ids.contains(x) || own.contains(x),
        ids.no_duplicates() ==> with_own(ids, own).no_duplicates(),
    decreases own.len(),
{
    if own.len() > 0 {
        let before = with_own(ids, own.drop_last());
        lemma_with_own(ids, own.drop_last());
        let last = own.last();
        assert forall|x: i64| #[trigger]
            with_own(ids, own).contains(x) <==> ids.contains(x) || own.contains(x) by {
            assert(own.drop_last().push(last) =~= own);
            assert(own.contains(x) <==> own.drop_last().contains(x) || x == last) by {
                if own.contains(x) {
                    let i = choose|i: int| 0 <= i < own.len() && own[i] == x;
                    if i < own.len() - 1 {
                        assert(own.drop_last()[i] == x);
                    }
                }
                if own.drop_last().contains(x) {
                    let i = choose|i: int|
                        0 <= i < own.drop_last().len() && own.drop_last()[i] == x;
                    assert(own[i] == x);
                }
                assert(own[own.len() - 1] == last);
            }
            if !before.contains(last) {
                let longer = before.push(last);
                if before.contains(x) {
                    let i = choose|i: int| 0 <= i < before.len() && before[i] == x;
                    assert(longer[i] == x);
                }
                assert(longer[before.len() as int] == last);
                if longer.contains(x) && x != last {
                    let i = choose|i: int| 0 <= i < longer.len() && longer[i] == x;
                    assert(before[i] == x);
                }
            }
        }
    }
}

/// A user whose group does not allow all may use exactly the device groups that the group is
/// linked to and the user's own. They come in ascending order, and each once where the
/// linked ones did.
pub proof fn law_authorized_groups(linked: Seq<i64>, own: Seq<i64>)
    ensures
        is_ascending(ascending(with_own(linked, own))),
        forall|x: i64| #[trigger]
            ascending(with_own(linked, own)).contains(x) <==> linked.contains(x) || own.contains(x),
        linked.no_duplicates() ==> ascending(with_own(linked, own)).no_duplicates(),
{
    broadcast use vstd::seq_lib::group_to_multiset_ensures;

    let all = with_own(linked, own);
    let result = ascending(all);
    lemma_with_own(linked, own);
    law_ascending_sorts(all);
    assert forall|x: i64| #[trigger]
        result.contains(x) <==> linked.contains(x) || own.contains(x) by {
        assert(result.contains(x) <==> result.to_multiset().count(x) > 0);
        assert(all.contains(x) <==> all.to_multiset().count(x) > 0);
    }
    if linked.no_duplicates() {
        all.lemma_multiset_has_no_duplicates();
        result.lemma_multiset_has_no_duplicates_conv();
    }
}

/// The stage that `replies` lead to.
pub open spec fn run<E>(start: StageView<E>, replies: Seq<DbReplyView<E>>) -> StageView<E>
    decreases replies.len(),
{
    if replies.len() == 0 {
        start
    } else {
        next(run(start, replies.drop_last()), replies.last())
    }
}

proof fn lemma_run_push<E>(
    start: StageView<E>,
    replies: Seq<DbReplyView<E>>,
    reply: DbReplyView<E>,
)
    ensures
        run(start, replies.push(reply)) == next(run(start, replies), reply),
{
    assert(replies.push(reply).drop_last() =~= replies);
}

/// A user without a group may use every inbound device group, and so may one whose group
/// allows all.
pub proof fn law_unrestricted_user_gets_all<E>(count: i64, all: Seq<i64>)
    requires
        count != 0,
    ensures
        run(
            StageView::<E>::CountingGroup,
            seq![DbReplyView::Count(0), DbReplyView::Ids(all)],
        ) == (StageView::<E>::Finished { result: Ok(all) }),
        run(
            StageView::<E>::CountingGroup,
            seq![DbReplyView::Count(count), DbReplyView::Flag(Some(true)), DbReplyView::Ids(all)],
        ) == (StageView::<E>::Finished { result: Ok(all) }),
{
    let start = StageView::<E>::CountingGroup;
    let none = Seq::<DbReplyView<E>>::empty();
    lemma_run_push(start, none, DbReplyView::Count(0));
    let ungrouped = none.push(DbReplyView::Count(0));
    lemma_run_push(start, ungrouped, DbReplyView::Ids(all));
    assert(ungrouped.push(DbReplyView::Ids(all)) =~= seq![
        DbReplyView::Count(0),
        DbReplyView::Ids(all),
    ]);
    let counted = none.push(DbReplyView::Count(count));
    lemma_run_push(start, none, DbReplyView::Count(count));
    lemma_run_push(start, counted, DbReplyView::Flag(Some(true)));
    let flagged = counted.push(DbReplyView::Flag(Some(true)));
    lemma_run_push(start, flagged, DbReplyView::Ids(all));
    assert(flagged.push(DbReplyView::Ids(all)) =~= seq![
        DbReplyView::Count(count),
        DbReplyView::Flag(Some(true)),
        DbReplyView::Ids(all),
    ]);
}

/// A user in a group that does not allow all may use the linked device groups and the
/// user's own.
pub proof fn law_restricted_user_gets_linked_and_own<E>(
    count: i64,
    row: Option<bool>,
    linked: Seq<i64>,
    own: Seq<i64>,
)
    requires
        count != 0,
        row != Some(true),
    ensures
        run(
            StageView::<E>::CountingGroup,
            seq![
                DbReplyView::Count(count),
                DbReplyView::Flag(row),
                DbReplyView::Ids(linked),
                DbReplyView::Ids(own),
            ],
        ) == (StageView::<E>::Finished { result: Ok(ascending(with_own(linked, own))) }),
{
    let start = StageView::<E>::CountingGroup;
    let none = Seq::<DbReplyView<E>>::empty();
    let a = none.push(DbReplyView::Count(count));
    let b = a.push(DbReplyView::Flag(row));
    let c = b.push(DbReplyView::Ids(linked));
    lemma_run_push(start, none, DbReplyView::Count(count));
    lemma_run_push(start, a, DbReplyView::Flag(row));
    lemma_run_push(start, b, DbReplyView::Ids(linked));
    lemma_run_push(start, c, DbReplyView::Ids(own));
    assert(c.push(DbReplyView::Ids(own)) =~= seq![
        DbReplyView::Count(count),
        DbReplyView::Flag(row),
        DbReplyView::Ids(linked),
        DbReplyView::Ids(own),
    ]);
}

/// A failure of the database at any point before the end is the result, and stays it.
pub proof fn law_failure_is_returned<E>(stage: StageView<E>, error: E, more: Seq<DbReplyView<E>>)
    requires
        !(stage is Finished),
    ensures
        run(next(stage, DbReplyView::Failed(error)), more) == (StageView::<E>::Finished {
            result: Err(error),
        }),
    decreases more.len(),
{
    if more.len() > 0 {
        law_failure_is_returned(stage, error, more.drop_last());
    }
}

} // verus!
