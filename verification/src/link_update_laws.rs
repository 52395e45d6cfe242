//! What holds of every replacement of links, whatever replies it meets.
use vstd::prelude::*;

use crate::db::DbActionView;
use crate::db::DbReplyView;
use crate::link_update::link_from;
use crate::link_update::next;
use crate::link_update::pending;
use crate::link_update::replacement;
use crate::link_update::StageView;
use crate::sql::Dialect;
use crate::sql::StatementView;

verus! {

/// One replacement of links: the database, the user group, the device groups, and the replies
/// that came.
#[verifier::ext_equal]
pub struct Course<E> {
    pub dialect: Dialect,
    pub user_group_id: i64,
    pub ids: Seq<i64>,
    pub replies: Seq<DbReplyView<E>>,
}

impl<E> Course<E> {
    /// The replacement before its last reply.
    pub open spec fn before(self) -> Course<E> {
        Course { replies: self.replies.drop_last(), ..self }
    }

    /// The replacement after more replies.
    pub open spec fn then_meets(self, more: Seq<DbReplyView<E>>) -> Course<E> {
        Course { replies: self.replies + more, ..self }
    }

    /// The stage that the replacement is in.
    pub open spec fn stage(self) -> StageView<E>
        decreases self.replies.len(),
    {
        if self.replies.len() == 0 {
            StageView::Opening
        } else {
            next(self.ids.len(), self.before().stage(), self.replies.last())
        }
    }

    /// The action that the replacement waits for.
    pub open spec fn pending(self) -> DbActionView {
        pending(self.dialect, self.user_group_id, self.ids, self.stage())
    }

    /// The transaction was opened.
    pub open spec fn opened(self) -> bool
        decreases self.replies.len(),
    {
        self.replies.len() > 0 && (self.before().opened() || (self.before().pending() is Begin
            && self.replies.last() is Begun))
    }

    /// The transaction was committed.
    pub open spec fn committed(self) -> bool
        decreases self.replies.len(),
    {
        self.replies.len() > 0 && (self.before().committed() || (self.before().pending() is Commit
            && self.replies.last() is Committed))
    }

    /// The statements that were run without a failure, in order.
    pub open spec fn executed(self) -> Seq<StatementView>
        decreases self.replies.len(),
    {
        if self.replies.len() == 0 {
            Seq::empty()
        } else {
            match (self.before().pending(), self.replies.last()) {
                (
                    DbActionView::Execute(statement),
                    DbReplyView::Affected(_),
                ) => self.before().executed().push(statement),
                _ => self.before().executed(),
            }
        }
    }

    /// All statements of the replacement.
    pub open spec fn all(self) -> Seq<StatementView> {
        replacement(self.dialect, self.user_group_id, self.ids)
    }

    /// What the replacement has done by the time it is in a stage.
    spec fn earned(self) -> bool {
        match self.stage() {
            StageView::Opening => !self.committed() && !self.opened() && self.executed().len() == 0,
            StageView::Unlinking => !self.committed() && self.opened() && self.executed().len()
                == 0,
            StageView::Linking { next } => !self.committed() && self.opened() && 0 <= next
                < self.ids.len() && self.executed() == self.all().take(next + 1),
            StageView::Committing => !self.committed() && self.opened() && self.executed()
                == self.all(),
            StageView::Finished { result } => {
                &&& self.committed() == (result is Ok)
                &&& result is Ok ==> self.opened() && self.executed() == self.all()
            },
        }
    }
}

proof fn lemma_earned<E>(course: Course<E>)
    ensures
        course.earned(),
    decreases course.replies.len(),
{
    let all = course.all();
    if course.replies.len() > 0 {
        let before = course.before();
        lemma_earned(before);
        assert(before.all() == all);
        match before.stage() {
            StageView::Unlinking => {
                if course.replies.last() is Affected {
                    assert(course.executed() =~= all.take(1));
                    assert(course.ids.len() == 0 ==> all.take(1) =~= all);
                }
            },
            StageView::Linking { next } => {
                if course.replies.last() is Affected {
                    assert(course.executed() =~= all.take(next + 2));
                    assert(course.ids.len() == next + 1 ==> all.take(next + 2) =~= all);
                }
            },
            _ => {},
        }
    }
}

/// Every statement of a replacement lies between the begin of its transaction and the commit.
pub proof fn law_links_change_in_the_transaction<E>(course: Course<E>)
    requires
        course.pending() is Execute,
    ensures
        course.opened(),
        !course.committed(),
{
    lemma_earned(course);
}

/// A commit comes only after all statements were run, each once and in order: the old links
/// went, then each device group was linked.
pub proof fn law_links_are_committed_together<E>(course: Course<E>)
    requires
        course.pending() is Commit || course.committed(),
    ensures
        course.opened(),
        course.executed() == course.all(),
{
    lemma_earned(course);
}

/// A replacement succeeds exactly when it was committed.
pub proof fn law_link_success_is_the_commit<E>(course: Course<E>, result: Result<(), E>)
    requires
        course.stage() == (StageView::<E>::Finished { result }),
    ensures
        result is Ok <==> course.committed(),
{
    lemma_earned(course);
}

/// A failure at any point ends the replacement with that failure, without a commit, now and
/// later; so the transaction is left before its commit and the old links stay.
pub proof fn law_failed_links_roll_back<E>(course: Course<E>, error: E, more: Seq<DbReplyView<E>>)
    requires
        !(course.stage() is Finished),
    ensures
        course.then_meets(seq![DbReplyView::Failed(error)] + more).stage() == (StageView::<
            E,
        >::Finished { result: Err(error) }),
        !course.then_meets(seq![DbReplyView::Failed(error)] + more).committed(),
    decreases more.len(),
{
    let failed = seq![DbReplyView::<E>::Failed(error)];
    let whole = course.then_meets(failed + more);
    if more.len() == 0 {
        lemma_earned(course);
        assert(whole.before() =~= course);
    } else {
        law_failed_links_roll_back(course, error, more.drop_last());
        assert(whole.before() =~= course.then_meets(failed + more.drop_last()));
    }
}

/// The replies to a replacement that nothing stands in the way of, up to the removal of the
/// old links and the first `k` new ones.
pub open spec fn clean_replies<E>(affected: Seq<u64>, k: nat) -> Seq<DbReplyView<E>>
    decreases k,
{
    if k == 0 {
        seq![DbReplyView::Begun, DbReplyView::Affected(affected[0])]
    } else {
        clean_replies(affected, (k - 1) as nat).push(DbReplyView::Affected(affected[k as int]))
    }
}

proof fn lemma_clean<E>(course: Course<E>, affected: Seq<u64>, k: nat)
    requires
        course.replies == clean_replies::<E>(affected, k),
        k <= course.ids.len(),
    ensures
        course.stage() == link_from::<E>(course.ids.len(), k as int),
    decreases k,
{
    if k == 0 {
        let begun = course.before();
        assert(begun.replies =~= seq![DbReplyView::<E>::Begun]);
        assert(begun.before().replies.len() == 0);
        assert(begun.before().stage() == StageView::<E>::Opening);
        assert(begun.stage() == StageView::<E>::Unlinking);
    } else {
        assert(course.before().replies =~= clean_replies::<E>(affected, (k - 1) as nat));
        lemma_clean(course.before(), affected, (k - 1) as nat);
    }
}

/// A replacement that nothing stands in the way of links every device group, commits and
/// succeeds.
pub proof fn law_clean_links_succeed<E>(course: Course<E>, affected: Seq<u64>)
    requires
        affected.len() == course.ids.len() + 1,
        course.replies == clean_replies::<E>(affected, course.ids.len()).push(
            DbReplyView::Committed,
        ),
    ensures
        course.stage() == (StageView::<E>::Finished { result: Ok(()) }),
{
    assert(course.before().replies =~= clean_replies::<E>(affected, course.ids.len()));
    lemma_clean(course.before(), affected, course.ids.len());
}

} // verus!
