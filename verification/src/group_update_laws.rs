//! What holds of every update of a user group, whatever replies it meets.
use vstd::prelude::*;

use crate::authorization;
use crate::authorization::ascending;
use crate::authorization::with_own;
use crate::authorization_laws;
use crate::authorization_laws::law_restricted_user_gets_linked_and_own;
use crate::authorization_laws::law_unrestricted_user_gets_all;
use crate::db::DbActionView;
use crate::db::DbError;
use crate::db::DbReplyView;
use crate::db::UserGroupView;
use crate::group_update::next;
use crate::group_update::pending;
use crate::group_update::visit;
use crate::group_update::GroupChangeView;
use crate::group_update::ReviewView;
use crate::group_update::StageView;
use crate::sql::assembled;
use crate::sql::BindView;
use crate::sql::Dialect;
use crate::statement_laws::law_pause_binds_the_user_and_the_groups;
use crate::user_groups::all_inbound_pieces;
use crate::user_groups::full_assignments;
use crate::user_groups::linked_pieces;
use crate::user_groups::members_pieces;
use crate::user_groups::own_pieces;
use crate::user_groups::pause_pieces;
use crate::user_groups::read_back_pieces;
use crate::user_groups::update_pieces;

verus! {

/// The stage that `replies` lead to.
pub open spec fn run<E>(change: GroupChangeView, replies: Seq<DbReplyView<E>>) -> StageView<E>
    decreases replies.len(),
{
    if replies.len() == 0 {
        StageView::Opening
    } else {
        next(change, run(change, replies.drop_last()), replies.last())
    }
}

/// One update of a group: the database, the change, and the replies that came.
#[verifier::ext_equal]
pub struct Course<E> {
    pub dialect: Dialect,
    pub change: GroupChangeView,
    pub replies: Seq<DbReplyView<E>>,
}

impl<E> Course<E> {
    /// The stage that the update is in.
    pub open spec fn stage(self) -> StageView<E> {
        run(self.change, self.replies)
    }

    /// The action that the update waits for.
    pub open spec fn pending(self) -> DbActionView {
        pending(self.dialect, self.change, self.stage())
    }

    /// The update before its reply at `k`.
    pub open spec fn before(self, k: int) -> Course<E> {
        Course { replies: self.replies.take(k), ..self }
    }

    /// The update after one more reply.
    pub open spec fn after(self, reply: DbReplyView<E>) -> Course<E> {
        Course { replies: self.replies.push(reply), ..self }
    }

    /// The reply at `k` is `reply`, and `action` was pending when it came.
    pub open spec fn answered_at(
        self,
        k: int,
        action: DbActionView,
        reply: DbReplyView<E>,
    ) -> bool {
        &&& 0 <= k < self.replies.len()
        &&& self.replies[k] == reply
        &&& self.before(k).pending() == action
    }

    /// `action` was pending and `reply` came of it.
    pub open spec fn done(self, action: DbActionView, reply: DbReplyView<E>) -> bool {
        exists|k: int| self.answered_at(k, action, reply)
    }

    /// The transaction was opened.
    pub open spec fn opened(self) -> bool {
        self.done(DbActionView::Begin, DbReplyView::Begun)
    }

    /// The transaction was committed.
    pub open spec fn committed(self) -> bool {
        self.done(DbActionView::Commit, DbReplyView::Committed)
    }

    /// The update of the group row.
    pub open spec fn update_action(self) -> DbActionView {
        DbActionView::Execute(
            assembled(
                self.dialect,
                update_pieces(
                    self.change.id,
                    full_assignments(
                        self.dialect,
                        self.change.name,
                        self.change.remark,
                        self.change.allow_all_groups,
                    ),
                ),
            ),
        )
    }

    /// The group row was updated.
    pub open spec fn updated(self) -> bool {
        exists|n: u64|
            n > 0 && #[trigger] self.done(self.update_action(), DbReplyView::Affected(n))
    }

    /// `members` were read as the users of the group who are no administrators.
    pub open spec fn listed(self, members: Seq<i64>) -> bool {
        self.done(
            DbActionView::FetchIds(
                assembled(self.dialect, members_pieces(self.dialect, self.change.id)),
            ),
            DbReplyView::Ids(members),
        )
    }

    /// All inbound device groups were read.
    pub open spec fn read_all(self, all: Seq<i64>) -> bool {
        self.done(
            DbActionView::FetchIds(assembled(self.dialect, all_inbound_pieces())),
            DbReplyView::Ids(all),
        )
    }

    /// `linked` was read as the device groups that the group of the user is linked to.
    pub open spec fn read_linked(self, user_id: i64, linked: Seq<i64>) -> bool {
        self.done(
            DbActionView::FetchIds(assembled(self.dialect, linked_pieces(user_id))),
            DbReplyView::Ids(linked),
        )
    }

    /// `own` was read as the device groups that belong to the user.
    pub open spec fn read_own(self, user_id: i64, own: Seq<i64>) -> bool {
        self.done(
            DbActionView::FetchIds(assembled(self.dialect, own_pieces(user_id))),
            DbReplyView::Ids(own),
        )
    }

    /// `allowed` are the device groups that the user may use after the change, by what was
    /// read: all inbound ones where the group allows all, else the linked ones and the user's
    /// own.
    pub open spec fn allowed(self, user_id: i64, allowed: Seq<i64>) -> bool {
        if self.change.allow_all_groups {
            self.read_all(allowed)
        } else {
            exists|linked: Seq<i64>, own: Seq<i64>| #[trigger]
                self.read_linked(user_id, linked) && #[trigger] self.read_own(user_id, own)
                    && allowed == ascending(with_own(linked, own))
        }
    }

    /// The rules of the user outside `allowed` were paused.
    pub open spec fn paused(self, user_id: i64, allowed: Seq<i64>) -> bool {
        exists|n: u64| #[trigger]
            self.done(
                DbActionView::Execute(
                    assembled(self.dialect, pause_pieces(self.dialect, user_id, allowed)),
                ),
                DbReplyView::Affected(n),
            )
    }

    /// The rules of the user were paused outside the device groups that were read as allowed.
    pub open spec fn reviewed(self, user_id: i64) -> bool {
        exists|allowed: Seq<i64>| #[trigger]
            self.paused(user_id, allowed) && self.allowed(user_id, allowed)
    }

    /// The pauses that were made, in order: the user, and the device groups that were spared.
    pub open spec fn pauses(self) -> Seq<(i64, Seq<i64>)>
        decreases self.replies.len(),
    {
        if self.replies.len() == 0 {
            Seq::empty()
        } else {
            let shorter = self.before(self.replies.len() - 1);
            match (shorter.stage(), self.replies.last()) {
                (
                    StageView::Pausing { review, allowed },
                    DbReplyView::Affected(_),
                ) => shorter.pauses().push((review.member(), allowed)),
                _ => shorter.pauses(),
            }
        }
    }

    /// The pauses that were made are one for each of `members`, in order, outside the device
    /// groups that the member may use.
    pub open spec fn pauses_cover(self, members: Seq<i64>) -> bool {
        &&& self.pauses().len() == members.len()
        &&& forall|i: int|
            #![trigger self.pauses()[i]]
            0 <= i < members.len() ==> self.pauses()[i].0 == members[i] && self.allowed(
                members[i],
                self.pauses()[i].1,
            )
    }

    /// The pauses that were made are one for each member.
    pub open spec fn pauses_are_complete(self) -> bool {
        exists|members: Seq<i64>| #[trigger] self.listed(members) && self.pauses_cover(members)
    }

    /// The group row was updated and every member was reviewed.
    pub open spec fn complete(self) -> bool {
        &&& self.updated()
        &&& exists|members: Seq<i64>| #[trigger]
            self.listed(members) && forall|i: int|
                0 <= i < members.len() ==> self.reviewed(#[trigger] members[i])
    }

    /// The group row was updated, its members were listed, and those before the one whose turn
    /// it is were reviewed.
    spec fn underway(self, review: ReviewView) -> bool {
        &&& !self.committed() && self.opened() && self.updated() && self.listed(review.members)
        &&& 0 <= review.next < review.members.len()
        &&& forall|i: int| 0 <= i < review.next ==> self.reviewed(#[trigger] review.members[i])
    }

    /// What the update has done by the time it is in a stage.
    spec fn earned(self) -> bool {
        match self.stage() {
            StageView::Opening => !self.committed(),
            StageView::Updating => !self.committed() && self.opened(),
            StageView::ListingMembers => !self.committed() && self.opened() && self.updated(),
            StageView::ReadingAll { review } => self.change.allow_all_groups && self.underway(
                review,
            ),
            StageView::ReadingLinked { review } => !self.change.allow_all_groups && self.underway(
                review,
            ),
            StageView::ReadingOwn { review, linked } => !self.change.allow_all_groups
                && self.underway(review) && self.read_linked(review.member(), linked),
            StageView::Pausing { review, allowed } => self.underway(review) && self.allowed(
                review.member(),
                allowed,
            ),
            StageView::Committing { .. } => !self.committed() && self.opened() && self.complete(),
            StageView::ReadingBack => self.committed() && self.complete(),
            StageView::Finished { result } => match result {
                Ok(group) => self.committed() && self.complete() && self.done(
                    DbActionView::FetchGroup(
                        assembled(self.dialect, read_back_pieces(self.change.id)),
                    ),
                    DbReplyView::Group(Some(group)),
                ),
                Err(_) => self.committed() ==> self.complete(),
            },
        }
    }
}

proof fn lemma_after<E>(course: Course<E>, reply: DbReplyView<E>)
    ensures
        course.after(reply).stage() == next(course.change, course.stage(), reply),
        forall|action: DbActionView, r: DbReplyView<E>|
            #![trigger course.done(action, r)]
            #![trigger course.after(reply).done(action, r)]
            course.after(reply).done(action, r) <==> course.done(action, r) || (course.pending()
                == action && r == reply),
{
    let longer = course.after(reply);
    assert(longer.replies.drop_last() =~= course.replies);
    assert forall|action: DbActionView, r: DbReplyView<E>|
        #![trigger course.done(action, r)]
        #![trigger longer.done(action, r)]
        longer.done(action, r) <==> course.done(action, r) || (course.pending() == action && r
            == reply) by {
        let n = course.replies.len() as int;
        assert(longer.before(n) =~= course);
        if course.done(action, r) {
            let k = choose|k: int| course.answered_at(k, action, r);
            assert(longer.before(k) =~= course.before(k));
            assert(longer.answered_at(k, action, r));
        }
        if course.pending() == action && r == reply {
            assert(longer.answered_at(n, action, r));
        }
        if longer.done(action, r) {
            let k = choose|k: int| longer.answered_at(k, action, r);
            if k < n {
                assert(longer.before(k) =~= course.before(k));
                assert(course.answered_at(k, action, r));
            }
        }
    }
}

proof fn lemma_allowed_stays<E>(
    course: Course<E>,
    reply: DbReplyView<E>,
    user_id: i64,
    allowed: Seq<i64>,
)
    requires
        course.allowed(user_id, allowed),
    ensures
        course.after(reply).allowed(user_id, allowed),
{
    lemma_after(course, reply);
    let longer = course.after(reply);
    if course.change.allow_all_groups {
        assert(longer.read_all(allowed));
    } else {
        let (linked, own) = choose|linked: Seq<i64>, own: Seq<i64>| #[trigger]
            course.read_linked(user_id, linked) && #[trigger] course.read_own(user_id, own)
                && allowed == ascending(with_own(linked, own));
        assert(longer.read_linked(user_id, linked));
        assert(longer.read_own(user_id, own));
    }
}

proof fn lemma_reviewed_stays<E>(course: Course<E>, reply: DbReplyView<E>, user_id: i64)
    requires
        course.reviewed(user_id),
    ensures
        course.after(reply).reviewed(user_id),
{
    lemma_after(course, reply);
    let longer = course.after(reply);
    let allowed = choose|allowed: Seq<i64>| #[trigger]
        course.paused(user_id, allowed) && course.allowed(user_id, allowed);
    let action = DbActionView::Execute(
        assembled(course.dialect, pause_pieces(course.dialect, user_id, allowed)),
    );
    let n = choose|n: u64| #[trigger] course.done(action, DbReplyView::Affected(n));
    assert(longer.done(action, DbReplyView::Affected(n)));
    assert(longer.paused(user_id, allowed));
    lemma_allowed_stays(course, reply, user_id, allowed);
}

proof fn lemma_underway_stays<E>(course: Course<E>, reply: DbReplyView<E>, review: ReviewView)
    requires
        course.underway(review),
        !(course.pending() is Commit),
    ensures
        course.after(reply).underway(review),
{
    lemma_after(course, reply);
    lemma_updated_stays(course, reply);
    let longer = course.after(reply);
    assert(longer.opened());
    assert(longer.listed(review.members));
    assert forall|i: int| 0 <= i < review.next implies longer.reviewed(
        #[trigger] review.members[i],
    ) by {
        lemma_reviewed_stays(course, reply, review.members[i]);
    }
}

proof fn lemma_updated_stays<E>(course: Course<E>, reply: DbReplyView<E>)
    requires
        course.updated(),
    ensures
        course.after(reply).updated(),
{
    lemma_after(course, reply);
    let n = choose|n: u64|
        n > 0 && #[trigger] course.done(course.update_action(), DbReplyView::Affected(n));
    assert(course.after(reply).done(course.update_action(), DbReplyView::Affected(n)));
}

proof fn lemma_complete_stays<E>(course: Course<E>, reply: DbReplyView<E>)
    requires
        course.complete(),
    ensures
        course.after(reply).complete(),
{
    lemma_after(course, reply);
    lemma_updated_stays(course, reply);
    let longer = course.after(reply);
    let members = choose|members: Seq<i64>| #[trigger]
        course.listed(members) && forall|i: int|
            0 <= i < members.len() ==> course.reviewed(#[trigger] members[i]);
    assert(longer.listed(members));
    assert forall|i: int| 0 <= i < members.len() implies longer.reviewed(#[trigger] members[i]) by {
        lemma_reviewed_stays(course, reply, members[i]);
    }
}

proof fn lemma_earned_opening<E>(course: Course<E>, reply: DbReplyView<E>)
    requires
        course.earned(),
        course.stage() is Opening || course.stage() is Updating || course.stage() is ListingMembers,
    ensures
        course.after(reply).earned(),
{
    let longer = course.after(reply);
    lemma_after(course, reply);
    assert(course.opened() ==> longer.opened());
    match course.stage() {
        StageView::Updating => {
            if let DbReplyView::Affected(n) = reply {
                if n > 0 {
                    assert(longer.done(course.update_action(), DbReplyView::Affected(n)));
                    assert(longer.updated());
                }
            }
        },
        StageView::ListingMembers => {
            lemma_updated_stays(course, reply);
            if let DbReplyView::Ids(members) = reply {
                assert(longer.listed(members));
                if members.len() == 0 {
                    assert(longer.complete());
                }
            }
        },
        _ => {},
    }
}

proof fn lemma_earned_reading<E>(course: Course<E>, reply: DbReplyView<E>)
    requires
        course.earned(),
        course.stage() is ReadingAll || course.stage() is ReadingLinked || course.stage() is ReadingOwn,
    ensures
        course.after(reply).earned(),
{
    let longer = course.after(reply);
    lemma_after(course, reply);
    match course.stage() {
        StageView::ReadingAll { review } => {
            lemma_underway_stays(course, reply, review);
            if let DbReplyView::Ids(all) = reply {
                assert(longer.read_all(all));
            }
        },
        StageView::ReadingLinked { review } => {
            lemma_underway_stays(course, reply, review);
            if let DbReplyView::Ids(linked) = reply {
                assert(longer.read_linked(review.member(), linked));
            }
        },
        StageView::ReadingOwn { review, linked } => {
            lemma_underway_stays(course, reply, review);
            assert(longer.read_linked(review.member(), linked));
            if let DbReplyView::Ids(own) = reply {
                assert(longer.read_own(review.member(), own));
            }
        },
        _ => {},
    }
}

proof fn lemma_reviewed_now<E>(
    course: Course<E>,
    n: u64,
    review: ReviewView,
    allowed: Seq<i64>,
)
    requires
        course.stage() == (StageView::<E>::Pausing { review, allowed }),
        course.allowed(review.member(), allowed),
    ensures
        course.after(DbReplyView::Affected(n)).reviewed(review.member()),
{
    let reply = DbReplyView::<E>::Affected(n);
    let longer = course.after(reply);
    lemma_after(course, reply);
    lemma_allowed_stays(course, reply, review.member(), allowed);
    let action = DbActionView::Execute(
        assembled(course.dialect, pause_pieces(course.dialect, review.member(), allowed)),
    );
    assert(longer.done(action, reply));
    assert(longer.paused(review.member(), allowed));
}

/// After the pause for one member the review goes on to the next, or is complete.
proof fn lemma_underway_grows<E>(
    course: Course<E>,
    n: u64,
    review: ReviewView,
    allowed: Seq<i64>,
)
    requires
        course.stage() == (StageView::<E>::Pausing { review, allowed }),
        course.underway(review),
        course.allowed(review.member(), allowed),
    ensures
        review.next + 1 < review.members.len() ==> course.after(
            DbReplyView::Affected(n),
        ).underway(review.after(n as int)),
        review.next + 1 == review.members.len() ==> course.after(
            DbReplyView::Affected(n),
        ).complete(),
        course.after(DbReplyView::Affected(n)).opened(),
        !course.after(DbReplyView::Affected(n)).committed(),
{
    let longer = course.after(DbReplyView::Affected(n));
    lemma_underway_stays(course, DbReplyView::Affected(n), review);
    lemma_reviewed_now(course, n, review, allowed);
    assert forall|i: int| 0 <= i < review.next + 1 implies longer.reviewed(
        #[trigger] review.members[i],
    ) by {
        if i == review.next {
            assert(review.members[i] == review.member());
        }
    }
    assert(longer.listed(review.members));
}

proof fn lemma_stage_after<E>(course: Course<E>, reply: DbReplyView<E>)
    ensures
        course.after(reply).stage() == next(course.change, course.stage(), reply),
{
    assert(course.after(reply).replies.drop_last() =~= course.replies);
}

proof fn lemma_earned_pausing<E>(course: Course<E>, reply: DbReplyView<E>)
    requires
        course.earned(),
        course.stage() is Pausing,
    ensures
        course.after(reply).earned(),
{
    lemma_stage_after(course, reply);
    let review = course.stage()->Pausing_review;
    let allowed = course.stage()->Pausing_allowed;
    if let DbReplyView::Affected(n) = reply {
        lemma_underway_grows(course, n, review, allowed);
    } else {
        lemma_underway_stays(course, reply, review);
        lemma_allowed_stays(course, reply, review.member(), allowed);
    }
}

proof fn lemma_earned_closing<E>(course: Course<E>, reply: DbReplyView<E>)
    requires
        course.earned(),
        course.stage() is Committing || course.stage() is ReadingBack || course.stage() is Finished,
    ensures
        course.after(reply).earned(),
{
    let longer = course.after(reply);
    lemma_after(course, reply);
    assert(course.opened() ==> longer.opened());
    if course.stage() is Finished {
        assert(course.committed() == longer.committed());
        if course.committed() {
            lemma_complete_stays(course, reply);
        }
    } else {
        lemma_complete_stays(course, reply);
    }
}

proof fn lemma_earned_step<E>(course: Course<E>, reply: DbReplyView<E>)
    requires
        course.earned(),
    ensures
        course.after(reply).earned(),
{
    match course.stage() {
        StageView::Opening => lemma_earned_opening(course, reply),
        StageView::Updating => lemma_earned_opening(course, reply),
        StageView::ListingMembers => lemma_earned_opening(course, reply),
        StageView::ReadingAll { .. } => lemma_earned_reading(course, reply),
        StageView::ReadingLinked { .. } => lemma_earned_reading(course, reply),
        StageView::ReadingOwn { .. } => lemma_earned_reading(course, reply),
        StageView::Pausing { .. } => lemma_earned_pausing(course, reply),
        _ => lemma_earned_closing(course, reply),
    }
}

proof fn lemma_earned<E>(course: Course<E>)
    ensures
        course.earned(),
    decreases course.replies.len(),
{
    if course.replies.len() > 0 {
        let n = course.replies.len() - 1;
        let shorter = course.before(n);
        lemma_earned(shorter);
        lemma_earned_step(shorter, course.replies.last());
        assert(shorter.after(course.replies.last()) =~= course);
    }
}

/// An update is committed only after the group row was updated and the rules of every member
/// were reviewed, so a group is never left updated with rules that were not reviewed.
pub proof fn law_commit_is_complete<E>(course: Course<E>)
    requires
        course.pending() is Commit || course.committed(),
    ensures
        course.complete(),
{
    lemma_earned(course);
}

/// Every change of an update is made inside its transaction.
pub proof fn law_changes_stay_in_the_transaction<E>(course: Course<E>)
    requires
        course.pending() is Execute,
    ensures
        course.opened(),
        !course.committed(),
{
    lemma_earned(course);
}

/// The pause of a member's rules spares exactly the device groups that the member may use: a
/// device group is among the ids bound behind the user if and only if it is allowed.
pub proof fn law_pause_spares_exactly_the_allowed(
    dialect: Dialect,
    user_id: i64,
    allowed: Seq<i64>,
    device_group: i64,
)
    ensures
        assembled(dialect, pause_pieces(dialect, user_id, allowed)).binds.skip(1).contains(
            BindView::Int(device_group),
        ) <==> allowed.contains(device_group),
{
    law_pause_binds_the_user_and_the_groups(dialect, user_id, allowed);
    let spared = allowed.map_values(|id: i64| BindView::Int(id));
    assert((seq![BindView::Int(user_id)] + spared).skip(1) =~= spared);
    if spared.contains(BindView::Int(device_group)) {
        let i = choose|i: int| 0 <= i < spared.len() && spared[i] == BindView::Int(device_group);
        assert(allowed[i] == device_group);
    }
    if allowed.contains(device_group) {
        let i = choose|i: int| 0 <= i < allowed.len() && allowed[i] == device_group;
        assert(spared[i] == BindView::Int(device_group));
    }
}

/// Every pause of an update is that of a member's rules outside the device groups that the
/// member may use after the change, by what was read in the transaction.
pub proof fn law_pauses_follow_the_authorization<E>(
    course: Course<E>,
    review: ReviewView,
    allowed: Seq<i64>,
)
    requires
        course.stage() == (StageView::<E>::Pausing { review, allowed }),
    ensures
        course.pending() == DbActionView::Execute(
            assembled(course.dialect, pause_pieces(course.dialect, review.member(), allowed)),
        ),
        course.listed(review.members),
        review.members.contains(review.member()),
        course.allowed(review.member(), allowed),
{
    lemma_earned(course);
}

/// The pauses that were made by the time an update is in a stage.
spec fn pauses_so_far<E>(course: Course<E>) -> bool {
    match course.stage() {
        StageView::Opening => course.pauses().len() == 0,
        StageView::Updating => course.pauses().len() == 0,
        StageView::ListingMembers => course.pauses().len() == 0,
        StageView::ReadingAll { review } => course.pauses_cover(review.members.take(review.next)),
        StageView::ReadingLinked { review } => course.pauses_cover(
            review.members.take(review.next),
        ),
        StageView::ReadingOwn { review, .. } => course.pauses_cover(
            review.members.take(review.next),
        ),
        StageView::Pausing { review, .. } => course.pauses_cover(review.members.take(review.next)),
        StageView::Committing { .. } => course.pauses_are_complete(),
        StageView::ReadingBack => course.pauses_are_complete(),
        StageView::Finished { .. } => course.committed() ==> course.pauses_are_complete(),
    }
}

proof fn lemma_cover_stays<E>(course: Course<E>, reply: DbReplyView<E>, members: Seq<i64>)
    requires
        course.pauses_cover(members),
        course.after(reply).pauses() == course.pauses(),
    ensures
        course.after(reply).pauses_cover(members),
{
    let longer = course.after(reply);
    assert forall|i: int|
        #![trigger longer.pauses()[i]]
        0 <= i < members.len() implies longer.pauses()[i].0 == members[i] && longer.allowed(
        members[i],
        longer.pauses()[i].1,
    ) by {
        assert(course.pauses()[i].0 == members[i]);
        lemma_allowed_stays(course, reply, members[i], course.pauses()[i].1);
    }
}

proof fn lemma_cover_grows<E>(
    course: Course<E>,
    reply: DbReplyView<E>,
    review: ReviewView,
    allowed: Seq<i64>,
)
    requires
        course.pauses_cover(review.members.take(review.next)),
        0 <= review.next < review.members.len(),
        course.allowed(review.member(), allowed),
        course.after(reply).pauses() == course.pauses().push((review.member(), allowed)),
    ensures
        course.after(reply).pauses_cover(review.members.take(review.next + 1)),
{
    let longer = course.after(reply);
    let members = review.members.take(review.next + 1);
    assert forall|i: int|
        #![trigger longer.pauses()[i]]
        0 <= i < members.len() implies longer.pauses()[i].0 == members[i] && longer.allowed(
        members[i],
        longer.pauses()[i].1,
    ) by {
        if i < review.next {
            assert(course.pauses()[i].0 == review.members.take(review.next)[i]);
            lemma_allowed_stays(course, reply, members[i], course.pauses()[i].1);
        } else {
            lemma_allowed_stays(course, reply, review.member(), allowed);
        }
    }
}

proof fn lemma_pauses_after<E>(course: Course<E>, reply: DbReplyView<E>)
    ensures
        course.after(reply).pauses() == match (course.stage(), reply) {
            (StageView::Pausing { review, allowed }, DbReplyView::Affected(_)) => {
                course.pauses().push((review.member(), allowed))
            },
            _ => course.pauses(),
        },
{
    let longer = course.after(reply);
    assert(longer.before(longer.replies.len() - 1) =~= course);
}

proof fn lemma_pauses_step<E>(course: Course<E>, reply: DbReplyView<E>)
    requires
        pauses_so_far(course),
        course.earned(),
    ensures
        pauses_so_far(course.after(reply)),
{
    let longer = course.after(reply);
    lemma_after(course, reply);
    lemma_pauses_after(course, reply);
    match course.stage() {
        StageView::ListingMembers => {
            if let DbReplyView::Ids(members) = reply {
                assert(longer.pauses_cover(members.take(0)));
                assert(members.len() == 0 ==> members.take(0) =~= members);
                assert(longer.listed(members));
            }
        },
        StageView::ReadingAll { review } => {
            lemma_cover_stays(course, reply, review.members.take(review.next));
        },
        StageView::ReadingLinked { review } => {
            lemma_cover_stays(course, reply, review.members.take(review.next));
        },
        StageView::ReadingOwn { review, .. } => {
            lemma_cover_stays(course, reply, review.members.take(review.next));
        },
        StageView::Pausing { review, allowed } => {
            if reply is Affected {
                lemma_cover_grows(course, reply, review, allowed);
                assert(longer.listed(review.members));
                assert(review.next + 1 == review.members.len() ==> review.members.take(
                    review.next + 1,
                ) =~= review.members);
            } else {
                lemma_cover_stays(course, reply, review.members.take(review.next));
            }
        },
        StageView::Committing { .. } => {
            lemma_complete_pauses_stay(course, reply);
        },
        StageView::ReadingBack => {
            lemma_complete_pauses_stay(course, reply);
        },
        StageView::Finished { .. } => {
            assert(course.committed() == longer.committed());
            if course.committed() {
                lemma_complete_pauses_stay(course, reply);
            }
        },
        _ => {},
    }
}

proof fn lemma_pauses_so_far<E>(course: Course<E>)
    ensures
        pauses_so_far(course),
    decreases course.replies.len(),
{
    if course.replies.len() > 0 {
        let shorter = course.before(course.replies.len() - 1);
        lemma_pauses_so_far(shorter);
        lemma_earned(shorter);
        lemma_pauses_step(shorter, course.replies.last());
        assert(shorter.after(course.replies.last()) =~= course);
    }
}

proof fn lemma_complete_pauses_stay<E>(course: Course<E>, reply: DbReplyView<E>)
    requires
        course.pauses_are_complete(),
        course.after(reply).pauses() == course.pauses(),
    ensures
        course.after(reply).pauses_are_complete(),
{
    lemma_after(course, reply);
    let members = choose|members: Seq<i64>| #[trigger]
        course.listed(members) && course.pauses_cover(members);
    lemma_cover_stays(course, reply, members);
    assert(course.after(reply).listed(members));
}

/// When an update is about to be committed, and ever after it was, it has made one pause for
/// each member, in order, outside the device groups that the member may use.
pub proof fn law_pauses_cover_the_members<E>(course: Course<E>)
    requires
        course.pending() is Commit || course.committed(),
    ensures
        course.pauses_are_complete(),
{
    lemma_pauses_so_far(course);
    lemma_earned(course);
}

/// What an update takes a member to be allowed is what the question of
/// `authorized_device_group_ids` gives for a user in a group with the new flag, from the same
/// replies.
pub proof fn law_allowed_is_authorized<E>(course: Course<E>, user_id: i64, allowed: Seq<i64>)
    requires
        course.allowed(user_id, allowed),
    ensures
        course.change.allow_all_groups ==> course.read_all(allowed) && authorization_laws::run(
            authorization::StageView::<E>::CountingGroup,
            seq![DbReplyView::Count(1), DbReplyView::Flag(Some(true)), DbReplyView::Ids(allowed)],
        ) == (authorization::StageView::<E>::Finished { result: Ok(allowed) }),
        !course.change.allow_all_groups ==> exists|linked: Seq<i64>, own: Seq<i64>| #[trigger]
            course.read_linked(user_id, linked) && #[trigger] course.read_own(user_id, own)
                && authorization_laws::run(
                authorization::StageView::<E>::CountingGroup,
                seq![
                    DbReplyView::Count(1),
                    DbReplyView::Flag(Some(false)),
                    DbReplyView::Ids(linked),
                    DbReplyView::Ids(own),
                ],
            ) == (authorization::StageView::<E>::Finished { result: Ok(allowed) }),
{
    if course.change.allow_all_groups {
        law_unrestricted_user_gets_all::<E>(1, allowed);
    } else {
        let (linked, own) = choose|linked: Seq<i64>, own: Seq<i64>| #[trigger]
            course.read_linked(user_id, linked) && #[trigger] course.read_own(user_id, own)
                && allowed == ascending(with_own(linked, own));
        law_restricted_user_gets_linked_and_own::<E>(1, Some(false), linked, own);
    }
}

/// The number of rules that the pauses of an update changed, by the replies to them.
pub open spec fn paused_rules<E>(change: GroupChangeView, replies: Seq<DbReplyView<E>>) -> int
    decreases replies.len(),
{
    if replies.len() == 0 {
        0
    } else {
        let before = paused_rules(change, replies.drop_last());
        match (run(change, replies.drop_last()), replies.last()) {
            (StageView::Pausing { .. }, DbReplyView::Affected(n)) => before + n,
            _ => before,
        }
    }
}

/// The total that is noted before the commit is the sum over all pauses.
pub proof fn law_paused_total_is_the_sum<E>(change: GroupChangeView, replies: Seq<DbReplyView<E>>)
    ensures
        run(change, replies) matches StageView::Committing { paused } ==> paused == paused_rules(
            change,
            replies,
        ),
{
    lemma_paused_so_far(change, replies);
}

proof fn lemma_paused_so_far<E>(change: GroupChangeView, replies: Seq<DbReplyView<E>>)
    ensures
        match run(change, replies) {
            StageView::Opening => paused_rules(change, replies) == 0,
            StageView::Updating => paused_rules(change, replies) == 0,
            StageView::ListingMembers => paused_rules(change, replies) == 0,
            StageView::ReadingAll { review } => paused_rules(change, replies) == review.paused,
            StageView::ReadingLinked { review } => paused_rules(change, replies) == review.paused,
            StageView::ReadingOwn { review, .. } => paused_rules(change, replies) == review.paused,
            StageView::Pausing { review, .. } => paused_rules(change, replies) == review.paused,
            StageView::Committing { paused } => paused_rules(change, replies) == paused,
            _ => true,
        },
    decreases replies.len(),
{
    if replies.len() > 0 {
        lemma_paused_so_far(change, replies.drop_last());
    }
}

/// An update succeeds only with a group that was read after the commit.
pub proof fn law_success_is_committed<E>(course: Course<E>, group: UserGroupView)
    requires
        course.stage() == (StageView::<E>::Finished { result: Ok(group) }),
    ensures
        course.committed(),
        course.done(
            DbActionView::FetchGroup(
                assembled(course.dialect, read_back_pieces(course.change.id)),
            ),
            DbReplyView::Group(Some(group)),
        ),
{
    lemma_earned(course);
}

/// A failure at any point before the commit ends the update with that failure, without a
/// commit, now and later.
pub proof fn law_failure_before_the_commit_rolls_back<E>(
    course: Course<E>,
    error: E,
    more: Seq<DbReplyView<E>>,
)
    requires
        !(course.stage() is ReadingBack),
        !(course.stage() is Finished),
    ensures
        (Course { replies: course.replies.push(DbReplyView::Failed(error)) + more, ..course }).stage()
            == (StageView::<E>::Finished { result: Err(DbError::Database(error)) }),
        !(Course {
            replies: course.replies.push(DbReplyView::Failed(error)) + more,
            ..course
        }).committed(),
    decreases more.len(),
{
    let failed = course.replies.push(DbReplyView::Failed(error));
    let whole = Course { replies: failed + more, ..course };
    if more.len() == 0 {
        lemma_earned(course);
        lemma_after(course, DbReplyView::Failed(error));
        assert(whole =~= course.after(DbReplyView::Failed(error)));
    } else {
        law_failure_before_the_commit_rolls_back(course, error, more.drop_last());
        let shorter = Course { replies: failed + more.drop_last(), ..course };
        lemma_after(shorter, more.last());
        assert(whole =~= shorter.after(more.last()));
    }
}

/// Where there is no such group, the update says so without a commit, now and later.
pub proof fn law_missing_group_changes_nothing<E>(
    course: Course<E>,
    more: Seq<DbReplyView<E>>,
)
    requires
        course.stage() is Updating,
    ensures
        (Course { replies: course.replies.push(DbReplyView::Affected(0)) + more, ..course }).stage()
            == (StageView::<E>::Finished { result: Err(DbError::NotFound) }),
        !(Course {
            replies: course.replies.push(DbReplyView::Affected(0)) + more,
            ..course
        }).committed(),
    decreases more.len(),
{
    let missing = course.replies.push(DbReplyView::Affected(0));
    let whole = Course { replies: missing + more, ..course };
    if more.len() == 0 {
        lemma_earned(course);
        lemma_after(course, DbReplyView::Affected(0));
        assert(whole =~= course.after(DbReplyView::Affected(0)));
    } else {
        law_missing_group_changes_nothing(course, more.drop_last());
        let shorter = Course { replies: missing + more.drop_last(), ..course };
        lemma_after(shorter, more.last());
        assert(whole =~= shorter.after(more.last()));
    }
}

/// The replies to an update that nothing stands in the way of, up to the review of the first
/// `k` members. For each member, `linked` is what was read first and `own` what was read of a
/// member of a group that does not allow all.
pub open spec fn clean_replies<E>(
    change: GroupChangeView,
    members: Seq<i64>,
    linked: Seq<Seq<i64>>,
    own: Seq<Seq<i64>>,
    paused: Seq<u64>,
    k: nat,
) -> Seq<DbReplyView<E>>
    decreases k,
{
    if k == 0 {
        seq![DbReplyView::Begun, DbReplyView::Affected(1), DbReplyView::Ids(members)]
    } else {
        let before = clean_replies(change, members, linked, own, paused, (k - 1) as nat);
        let first = before.push(DbReplyView::Ids(linked[k - 1]));
        let read = if change.allow_all_groups {
            first
        } else {
            first.push(DbReplyView::Ids(own[k - 1]))
        };
        read.push(DbReplyView::Affected(paused[k - 1]))
    }
}

proof fn lemma_run_push<E>(
    change: GroupChangeView,
    replies: Seq<DbReplyView<E>>,
    reply: DbReplyView<E>,
)
    ensures
        run(change, replies.push(reply)) == next(change, run(change, replies), reply),
{
    assert(replies.push(reply).drop_last() =~= replies);
}

proof fn lemma_clean<E>(
    change: GroupChangeView,
    members: Seq<i64>,
    linked: Seq<Seq<i64>>,
    own: Seq<Seq<i64>>,
    paused: Seq<u64>,
    k: nat,
)
    requires
        k <= members.len(),
    ensures
        exists|total: int|
            run(change, clean_replies::<E>(change, members, linked, own, paused, k))
                == #[trigger] visit::<E>(
                change,
                ReviewView { members, next: k as int, paused: total },
            ),
    decreases k,
{
    let replies = clean_replies::<E>(change, members, linked, own, paused, k);
    if k == 0 {
        let none = Seq::<DbReplyView<E>>::empty();
        let begun = none.push(DbReplyView::Begun);
        let updated = begun.push(DbReplyView::Affected(1));
        lemma_run_push(change, none, DbReplyView::Begun);
        lemma_run_push(change, begun, DbReplyView::Affected(1));
        lemma_run_push(change, updated, DbReplyView::Ids(members));
        assert(updated.push(DbReplyView::Ids(members)) =~= replies);
        assert(run(change, replies) == visit::<E>(
            change,
            ReviewView { members, next: 0, paused: 0 },
        ));
    } else {
        let before = clean_replies::<E>(change, members, linked, own, paused, (k - 1) as nat);
        lemma_clean::<E>(change, members, linked, own, paused, (k - 1) as nat);
        let total = choose|total: int|
            run(change, before) == #[trigger] visit::<E>(
                change,
                ReviewView { members, next: k - 1, paused: total },
            );
        let review = ReviewView { members, next: k - 1, paused: total };
        let first = before.push(DbReplyView::Ids(linked[k - 1]));
        lemma_run_push(change, before, DbReplyView::Ids(linked[k - 1]));
        lemma_run_push(change, first, DbReplyView::Ids(own[k - 1]));
        let read = if change.allow_all_groups {
            first
        } else {
            first.push(DbReplyView::Ids(own[k - 1]))
        };
        lemma_run_push(change, read, DbReplyView::Affected(paused[k - 1]));
        assert(run(change, replies) == visit::<E>(change, review.after(paused[k - 1] as int)));
    }
}

/// An update that nothing stands in the way of reviews its members one by one, commits, and
/// succeeds with the group that is read back.
pub proof fn law_clean_update_succeeds<E>(
    change: GroupChangeView,
    members: Seq<i64>,
    linked: Seq<Seq<i64>>,
    own: Seq<Seq<i64>>,
    paused: Seq<u64>,
    group: UserGroupView,
)
    requires
        linked.len() == members.len(),
        own.len() == members.len(),
        paused.len() == members.len(),
    ensures
        run(
            change,
            clean_replies::<E>(change, members, linked, own, paused, members.len()).push(
                DbReplyView::Committed,
            ).push(DbReplyView::Group(Some(group))),
        ) == (StageView::<E>::Finished { result: Ok(group) }),
{
    lemma_clean::<E>(change, members, linked, own, paused, members.len());
    let before = clean_replies::<E>(change, members, linked, own, paused, members.len());
    lemma_run_push(change, before, DbReplyView::Committed);
    lemma_run_push(
        change,
        before.push(DbReplyView::Committed),
        DbReplyView::Group(Some(group)),
    );
}

} // verus!
