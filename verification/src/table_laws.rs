//! What holds of the rows that the statements read and change, over several statements.
use vstd::prelude::*;

use crate::authorization::ascending;
use crate::authorization_laws::is_ascending;
use crate::authorization_laws::law_ascending_sorts;
use crate::db::DbActionView;
use crate::db::UserGroupView;
use crate::group_update::StageView;
use crate::group_update_laws::law_pause_spares_exactly_the_allowed;
use crate::group_update_laws::law_pauses_cover_the_members;
use crate::group_update_laws::law_success_is_committed;
use crate::group_update_laws::Course;
use crate::link_update::replacement;
use crate::sql::assembled;
use crate::sql::law_values_are_bound_in_order;
use crate::sql::lemma_params_one;
use crate::sql::lemma_params_push;
use crate::sql::params;
use crate::sql::BindView;
use crate::sql::Dialect;
use crate::sql::Piece;
use crate::sql::StatementView;
use crate::statement_laws::law_pause_binds_the_user_and_the_groups;
use crate::statement_laws::law_update_binds_the_values_and_the_id;
use crate::tables::after_deletion;
use crate::tables::after_link;
use crate::tables::after_pause;
use crate::tables::after_pauses;
use crate::tables::after_replacement;
use crate::tables::after_unlink;
use crate::tables::after_update;
use crate::tables::counted_members;
use crate::tables::device_groups_of;
use crate::tables::found_group;
use crate::tables::group_after_update;
use crate::tables::inserted_group;
use crate::tables::is_member;
use crate::tables::listed_links;
use crate::tables::listed_members;
use crate::tables::members_of;
use crate::tables::pause_selects;
use crate::tables::paused_count;
use crate::tables::rule_after_pause;
use crate::tables::stored_flag;
use crate::tables::with_column;
use crate::tables::with_columns;
use crate::tables::LinkRow;
use crate::tables::RuleRow;
use crate::tables::UserRow;
use crate::user_groups::all_inbound_pieces;
use crate::user_groups::assignments;
use crate::user_groups::count_pieces;
use crate::user_groups::delete_pieces;
use crate::user_groups::find_pieces;
use crate::user_groups::flag_bind;
use crate::user_groups::flag_text;
use crate::user_groups::full_assignments;
use crate::user_groups::insert_pieces;
use crate::user_groups::link_pieces;
use crate::user_groups::linked_pieces;
use crate::user_groups::links_pieces;
use crate::user_groups::member_list_pieces;
use crate::user_groups::members_pieces;
use crate::user_groups::own_pieces;
use crate::user_groups::pause_pieces;
use crate::user_groups::plain_assignments;
use crate::user_groups::read_back_pieces;
use crate::user_groups::set_flag_bind;
use crate::user_groups::unlink_pieces;
use crate::user_groups::update_pieces;
use crate::user_groups::AssignmentView;

verus! {

/// The pause of a user's rules outside the allowed device groups.
pub open spec fn pause(dialect: Dialect, user_id: i64, allowed: Seq<i64>) -> StatementView {
    assembled(dialect, pause_pieces(dialect, user_id, allowed))
}

proof fn lemma_pause_selects(dialect: Dialect, user_id: i64, allowed: Seq<i64>, rule: RuleRow)
    ensures
        pause_selects(pause(dialect, user_id, allowed), rule) <==> rule.uid == user_id
            && !rule.paused && !allowed.contains(rule.device_group_in),
{
    law_pause_binds_the_user_and_the_groups(dialect, user_id, allowed);
    law_pause_spares_exactly_the_allowed(dialect, user_id, allowed, rule.device_group_in);
}

/// After a pause, an active rule of the user is paused exactly where its device group is not
/// allowed; a rule that was paused stays so, and a rule of another user stays as it was.
pub proof fn law_pause_is_exact(dialect: Dialect, user_id: i64, allowed: Seq<i64>, rule: RuleRow)
    ensures
        rule.uid == user_id && !rule.paused ==> (rule_after_pause(
            pause(dialect, user_id, allowed),
            rule,
        ).paused <==> !allowed.contains(rule.device_group_in)),
        rule.uid != user_id || rule.paused ==> rule_after_pause(
            pause(dialect, user_id, allowed),
            rule,
        ) == rule,
        rule_after_pause(pause(dialect, user_id, allowed), rule).uid == rule.uid,
        rule_after_pause(pause(dialect, user_id, allowed), rule).device_group_in
            == rule.device_group_in,
{
    lemma_pause_selects(dialect, user_id, allowed, rule);
}

/// A pause that selects no rule changes none and counts none.
proof fn lemma_idle_pause(statement: StatementView, rules: Seq<RuleRow>)
    requires
        forall|i: int| 0 <= i < rules.len() ==> !pause_selects(statement, #[trigger] rules[i]),
    ensures
        after_pause(statement, rules) == rules,
        paused_count(statement, rules) == 0,
    decreases rules.len(),
{
    assert(after_pause(statement, rules) =~= rules);
    if rules.len() > 0 {
        assert(!pause_selects(statement, rules[rules.len() - 1]));
        lemma_idle_pause(statement, rules.drop_last());
    }
}

/// A pause that allows the device group of every rule, as that of a member of a group that
/// allows all does where each rule is on an inbound device group, leaves the rules as they are.
pub proof fn law_pause_of_none(
    dialect: Dialect,
    user_id: i64,
    allowed: Seq<i64>,
    rules: Seq<RuleRow>,
)
    requires
        forall|i: int|
            0 <= i < rules.len() ==> allowed.contains((#[trigger] rules[i]).device_group_in),
    ensures
        after_pause(pause(dialect, user_id, allowed), rules) == rules,
        paused_count(pause(dialect, user_id, allowed), rules) == 0,
{
    assert forall|i: int| 0 <= i < rules.len() implies !pause_selects(
        pause(dialect, user_id, allowed),
        #[trigger] rules[i],
    ) by {
        lemma_pause_selects(dialect, user_id, allowed, rules[i]);
    }
    lemma_idle_pause(pause(dialect, user_id, allowed), rules);
}

/// A second pause of the same user's rules that allows all that the first allowed changes
/// nothing and counts none: only active rules are paused, and a wider list never pauses more.
pub proof fn law_second_pause_is_idle(
    dialect: Dialect,
    user_id: i64,
    first: Seq<i64>,
    wider: Seq<i64>,
    rules: Seq<RuleRow>,
)
    requires
        forall|id: i64| #[trigger] first.contains(id) ==> wider.contains(id),
    ensures
        after_pause(
            pause(dialect, user_id, wider),
            after_pause(pause(dialect, user_id, first), rules),
        ) == after_pause(pause(dialect, user_id, first), rules),
        paused_count(
            pause(dialect, user_id, wider),
            after_pause(pause(dialect, user_id, first), rules),
        ) == 0,
{
    let once = after_pause(pause(dialect, user_id, first), rules);
    assert forall|i: int| 0 <= i < once.len() implies !pause_selects(
        pause(dialect, user_id, wider),
        #[trigger] once[i],
    ) by {
        lemma_pause_selects(dialect, user_id, first, rules[i]);
        lemma_pause_selects(dialect, user_id, wider, once[i]);
        assert(once[i] == rule_after_pause(pause(dialect, user_id, first), rules[i]));
    }
    lemma_idle_pause(pause(dialect, user_id, wider), once);
}

/// Pauses for different users do not meet: after all of them a rule of one of these users is
/// paused exactly where it was before or its device group was not spared in the pause for that
/// user, and any other rule is as it was.
pub proof fn law_pauses_do_not_meet(
    dialect: Dialect,
    pauses: Seq<(i64, Seq<i64>)>,
    rules: Seq<RuleRow>,
    k: int,
)
    requires
        0 <= k < rules.len(),
        forall|i: int, j: int|
            0 <= i < j < pauses.len() ==> (#[trigger] pauses[i]).0 != (#[trigger] pauses[j]).0,
    ensures
        after_pauses(dialect, pauses, rules).len() == rules.len(),
        forall|i: int|
            0 <= i < pauses.len() && (#[trigger] pauses[i]).0 == rules[k].uid ==> after_pauses(
                dialect,
                pauses,
                rules,
            )[k] == (RuleRow {
                paused: rules[k].paused || !pauses[i].1.contains(rules[k].device_group_in),
                ..rules[k]
            }),
        (forall|i: int| 0 <= i < pauses.len() ==> (#[trigger] pauses[i]).0 != rules[k].uid)
            ==> after_pauses(dialect, pauses, rules)[k] == rules[k],
    decreases pauses.len(),
{
    if pauses.len() > 0 {
        let fewer = pauses.drop_last();
        let (user_id, allowed) = pauses.last();
        assert forall|i: int, j: int| 0 <= i < j < fewer.len() implies (#[trigger] fewer[i]).0 != (
        #[trigger] fewer[j]).0 by {
            assert(pauses[i].0 != pauses[j].0);
        }
        law_pauses_do_not_meet(dialect, fewer, rules, k);
        let before = after_pauses(dialect, fewer, rules);
        law_pause_is_exact(dialect, user_id, allowed, before[k]);
        assert(after_pauses(dialect, pauses, rules)[k] == rule_after_pause(
            pause(dialect, user_id, allowed),
            before[k],
        ));
        assert(pauses[pauses.len() - 1] == (user_id, allowed));
        if rules[k].uid == user_id {
            assert forall|i: int| 0 <= i < fewer.len() implies (#[trigger] fewer[i]).0
                != rules[k].uid by {
                assert(pauses[i].0 != pauses[pauses.len() - 1].0);
            }
        } else {
            assert forall|i: int|
                0 <= i < pauses.len() && (#[trigger] pauses[i]).0 == rules[k].uid implies i
                < fewer.len() && fewer[i] == pauses[i] by {}
            if forall|i: int| 0 <= i < pauses.len() ==> (#[trigger] pauses[i]).0 != rules[k].uid {
                assert forall|i: int| 0 <= i < fewer.len() implies (#[trigger] fewer[i]).0
                    != rules[k].uid by {
                    assert(pauses[i].0 != rules[k].uid);
                }
            }
        }
    }
}

/// Every list of members that an update read holds each of them once, as the ids of users are
/// unique.
pub open spec fn members_are_distinct<E>(course: Course<E>) -> bool {
    forall|members: Seq<i64>| #[trigger] course.listed(members) ==> members.no_duplicates()
}

/// Of the rules of the members that an update listed exactly those are paused that were before
/// or are on a device group that the member may not use after the change; any other rule is as
/// it was.
pub open spec fn paused_the_unauthorized<E>(
    course: Course<E>,
    rules: Seq<RuleRow>,
    k: int,
) -> bool {
    let after = after_pauses(course.dialect, course.pauses(), rules);
    exists|members: Seq<i64>|
        {
            &&& #[trigger] course.listed(members)
            &&& members.contains(rules[k].uid) ==> exists|allowed: Seq<i64>|
                {
                    &&& #[trigger] course.allowed(rules[k].uid, allowed)
                    &&& after[k] == (RuleRow {
                        paused: rules[k].paused || !allowed.contains(rules[k].device_group_in),
                        ..rules[k]
                    })
                }
            &&& !members.contains(rules[k].uid) ==> after[k] == rules[k]
        }
}

/// An update that is about to be committed, or was, has paused exactly the rules of its members
/// on device groups that the member may not use after the change.
pub proof fn law_update_pauses_the_unauthorized<E>(
    course: Course<E>,
    rules: Seq<RuleRow>,
    k: int,
)
    requires
        course.pending() is Commit || course.committed(),
        members_are_distinct(course),
        0 <= k < rules.len(),
    ensures
        paused_the_unauthorized(course, rules, k),
{
    law_pauses_cover_the_members(course);
    let members = choose|members: Seq<i64>| #[trigger]
        course.listed(members) && course.pauses_cover(members);
    let pauses = course.pauses();
    assert forall|i: int, j: int| 0 <= i < j < pauses.len() implies (#[trigger] pauses[i]).0 != (
    #[trigger] pauses[j]).0 by {
        assert(pauses[i].0 == members[i]);
        assert(pauses[j].0 == members[j]);
    }
    law_pauses_do_not_meet(course.dialect, pauses, rules, k);
    if members.contains(rules[k].uid) {
        let i = choose|i: int| 0 <= i < members.len() && members[i] == rules[k].uid;
        assert(pauses[i].0 == members[i]);
        assert(course.allowed(rules[k].uid, pauses[i].1));
    } else {
        assert forall|i: int| 0 <= i < pauses.len() implies (#[trigger] pauses[i]).0
            != rules[k].uid by {
            assert(pauses[i].0 == members[i]);
            assert(members.contains(members[i]));
        }
    }
}

/// An update that succeeded has paused exactly the rules of its members on device groups that
/// the member may not use after the change.
pub proof fn law_successful_update_pauses_the_unauthorized<E>(
    course: Course<E>,
    group: UserGroupView,
    rules: Seq<RuleRow>,
    k: int,
)
    requires
        course.stage() == (StageView::<E>::Finished { result: Ok(group) }),
        members_are_distinct(course),
        0 <= k < rules.len(),
    ensures
        course.committed(),
        paused_the_unauthorized(course, rules, k),
{
    law_success_is_committed(course, group);
    law_update_pauses_the_unauthorized(course, rules, k);
}

/// An update to a group that allows all, about to be committed or after that, has paused no
/// rule, where each rule is on an inbound device group that was read.
pub proof fn law_allowing_all_pauses_nothing<E>(course: Course<E>, rules: Seq<RuleRow>)
    requires
        course.pending() is Commit || course.committed(),
        course.change.allow_all_groups,
        forall|all: Seq<i64>, k: int| #[trigger]
            course.read_all(all) && 0 <= k < rules.len() ==> all.contains(
                (#[trigger] rules[k]).device_group_in,
            ),
    ensures
        after_pauses(course.dialect, course.pauses(), rules) == rules,
{
    law_pauses_cover_the_members(course);
    let members = choose|members: Seq<i64>| #[trigger]
        course.listed(members) && course.pauses_cover(members);
    let pauses = course.pauses();
    assert forall|i: int, k: int|
        0 <= i < pauses.len() && 0 <= k < rules.len() implies (#[trigger] pauses[i]).1.contains(
        (#[trigger] rules[k]).device_group_in,
    ) by {
        assert(course.allowed(members[i], pauses[i].1));
        assert(course.read_all(pauses[i].1));
    }
    lemma_idle_pauses(course.dialect, pauses, rules);
}

proof fn lemma_idle_pauses(dialect: Dialect, pauses: Seq<(i64, Seq<i64>)>, rules: Seq<RuleRow>)
    requires
        forall|i: int, k: int|
            0 <= i < pauses.len() && 0 <= k < rules.len() ==> (
            #[trigger] pauses[i]).1.contains((#[trigger] rules[k]).device_group_in),
    ensures
        after_pauses(dialect, pauses, rules) == rules,
    decreases pauses.len(),
{
    if pauses.len() > 0 {
        let fewer = pauses.drop_last();
        assert forall|i: int, k: int| 0 <= i < fewer.len() && 0 <= k < rules.len() implies (
        #[trigger] fewer[i]).1.contains((#[trigger] rules[k]).device_group_in) by {
            assert(pauses[i].1.contains(rules[k].device_group_in));
        }
        lemma_idle_pauses(dialect, fewer, rules);
        let (user_id, allowed) = pauses.last();
        assert forall|k: int| 0 <= k < rules.len() implies allowed.contains(
            (#[trigger] rules[k]).device_group_in,
        ) by {
            assert(pauses[pauses.len() - 1].1.contains(rules[k].device_group_in));
        }
        law_pause_of_none(dialect, user_id, allowed, rules);
    }
}

pub(crate) proof fn lemma_one_bind(dialect: Dialect, pieces: Seq<Piece>, k: int, bind: BindView)
    requires
        0 <= k < pieces.len(),
        pieces[k] == Piece::Param(bind),
        forall|i: int| 0 <= i < pieces.len() && i != k ==> #[trigger] pieces[i] is Fixed,
    ensures
        assembled(dialect, pieces).binds == seq![bind],
{
    law_values_are_bound_in_order(dialect, pieces);
    lemma_params_one(pieces, k, bind);
}

/// A new link binds the user group and then the device group.
proof fn lemma_link_binds(dialect: Dialect, user_group_id: i64, device_group_id: i64)
    ensures
        assembled(dialect, link_pieces(user_group_id, device_group_id)).binds == seq![
            BindView::Int(user_group_id),
            BindView::Int(device_group_id),
        ],
{
    let pieces = link_pieces(user_group_id, device_group_id);
    let three = pieces.take(3);
    lemma_params_one(three, 1, BindView::Int(user_group_id));
    let device = Piece::Param(BindView::Int(device_group_id));
    lemma_params_push(three, device);
    lemma_params_push(three.push(device), Piece::Fixed(")"@));
    assert(three.push(device).push(Piece::Fixed(")"@)) =~= pieces);
    law_values_are_bound_in_order(dialect, pieces);
    assert(params(pieces) =~= seq![
        BindView::Int(user_group_id),
        BindView::Int(device_group_id),
    ]);
}

proof fn lemma_unlinked(unlink: StatementView, user_group_id: i64, other: i64, links: Seq<LinkRow>)
    requires
        unlink.binds == seq![BindView::Int(user_group_id)],
    ensures
        device_groups_of(user_group_id, after_unlink(unlink, links)) == Seq::<i64>::empty(),
        other != user_group_id ==> device_groups_of(other, after_unlink(unlink, links))
            == device_groups_of(other, links),
    decreases links.len(),
{
    if links.len() > 0 {
        lemma_unlinked(unlink, user_group_id, other, links.drop_last());
        let before = after_unlink(unlink, links.drop_last());
        assert(before.push(links.last()).drop_last() =~= before);
    }
}

proof fn lemma_replaced(
    dialect: Dialect,
    user_group_id: i64,
    other: i64,
    ids: Seq<i64>,
    links: Seq<LinkRow>,
)
    ensures
        device_groups_of(
            user_group_id,
            after_replacement(replacement(dialect, user_group_id, ids), links),
        ) == ids,
        other != user_group_id ==> device_groups_of(
            other,
            after_replacement(replacement(dialect, user_group_id, ids), links),
        ) == device_groups_of(other, links),
    decreases ids.len(),
{
    let statements = replacement(dialect, user_group_id, ids);
    let unlink = assembled(dialect, unlink_pieces(user_group_id));
    if ids.len() == 0 {
        lemma_one_bind(dialect, unlink_pieces(user_group_id), 1, BindView::Int(user_group_id));
        lemma_unlinked(unlink, user_group_id, other, links);
        assert(ids =~= seq![]);
    } else {
        let shorter = ids.drop_last();
        lemma_replaced(dialect, user_group_id, other, shorter, links);
        assert(statements.drop_last() =~= replacement(dialect, user_group_id, shorter));
        lemma_link_binds(dialect, user_group_id, ids.last());
        let before = after_replacement(statements.drop_last(), links);
        let after = after_link(statements.last(), before);
        assert(after.drop_last() =~= before);
        assert(shorter.push(ids.last()) =~= ids);
    }
}

/// The links that are listed after a replacement are those that were set, in ascending order
/// and each as often as it was given; the links of other user groups stay.
pub proof fn law_links_are_read_back(
    dialect: Dialect,
    user_group_id: i64,
    other: i64,
    ids: Seq<i64>,
    links: Seq<LinkRow>,
)
    requires
        other != user_group_id,
    ensures
        listed_links(
            assembled(dialect, links_pieces(user_group_id)),
            after_replacement(replacement(dialect, user_group_id, ids), links),
        ) == ascending(ids),
        is_ascending(ascending(ids)),
        ascending(ids).to_multiset() == ids.to_multiset(),
        listed_links(
            assembled(dialect, links_pieces(other)),
            after_replacement(replacement(dialect, user_group_id, ids), links),
        ) == listed_links(assembled(dialect, links_pieces(other)), links),
{
    lemma_one_bind(dialect, links_pieces(user_group_id), 1, BindView::Int(user_group_id));
    lemma_one_bind(dialect, links_pieces(other), 1, BindView::Int(other));
    lemma_replaced(dialect, user_group_id, other, ids, links);
    law_ascending_sorts(ids);
}

/// Both databases store the truth value that was given, on insertion and on update.
pub proof fn law_flag_is_stored(dialect: Dialect, flag: bool)
    ensures
        stored_flag(flag_bind(dialect, flag)) == flag,
        stored_flag(set_flag_bind(dialect, flag)) == flag,
        dialect == Dialect::Postgres ==> flag_bind(dialect, flag) is Flag && set_flag_bind(
            dialect,
            flag,
        ) is Flag,
{
    reveal_strlit("1");
    reveal_strlit("0");
    assert("1"@[0] == '1');
    assert("0"@[0] == '0');
}

/// The two values mean the same to their databases: they are equal, or stand for the same
/// truth value in an update.
pub open spec fn same_value(a: Dialect, x: BindView, b: Dialect, y: BindView) -> bool {
    x == y || exists|flag: bool|
        x == #[trigger] set_flag_bind(a, flag) && y == set_flag_bind(b, flag)
}

/// The two statements bind values of the same meaning.
pub open spec fn same_values(a: Dialect, x: StatementView, b: Dialect, y: StatementView) -> bool {
    &&& x.binds.len() == y.binds.len()
    &&& forall|i: int|
        0 <= i < x.binds.len() ==> same_value(a, #[trigger] x.binds[i], b, y.binds[i])
}

/// The two actions are of one kind, with values of the same meaning.
pub open spec fn same_demand(a: Dialect, x: DbActionView, b: Dialect, y: DbActionView) -> bool {
    match (x, y) {
        (DbActionView::Begin, DbActionView::Begin) => true,
        (DbActionView::Execute(s), DbActionView::Execute(t)) => same_values(a, s, b, t),
        (DbActionView::FetchIds(s), DbActionView::FetchIds(t)) => same_values(a, s, b, t),
        (DbActionView::FetchGroup(s), DbActionView::FetchGroup(t)) => same_values(a, s, b, t),
        (DbActionView::Commit, DbActionView::Commit) => true,
        (DbActionView::Return, DbActionView::Return) => true,
        _ => false,
    }
}

proof fn lemma_update_values(
    a: Dialect,
    b: Dialect,
    id: i64,
    name: Option<Seq<char>>,
    remark: Option<Seq<char>>,
    flag: bool,
)
    ensures
        same_values(
            a,
            assembled(a, update_pieces(id, full_assignments(a, name, remark, flag))),
            b,
            assembled(b, update_pieces(id, full_assignments(b, name, remark, flag))),
        ),
{
    let x = full_assignments(a, name, remark, flag);
    let y = full_assignments(b, name, remark, flag);
    law_update_binds_the_values_and_the_id(a, id, x);
    law_update_binds_the_values_and_the_id(b, id, y);
    let s = assembled(a, update_pieces(id, x));
    let t = assembled(b, update_pieces(id, y));
    assert forall|i: int| 0 <= i < s.binds.len() implies same_value(
        a,
        #[trigger] s.binds[i],
        b,
        t.binds[i],
    ) by {
        if i == x.len() - 1 {
            assert(s.binds[i] == set_flag_bind(a, flag));
            assert(t.binds[i] == set_flag_bind(b, flag));
        }
    }
}

/// The update of a group takes the same course on both databases: the same replies lead to the
/// same stage and result, and to actions of one kind whose values mean the same.
pub proof fn law_databases_take_one_course<E>(one: Course<E>, two: Course<E>)
    requires
        one.change == two.change,
        one.replies == two.replies,
    ensures
        one.stage() == two.stage(),
        same_demand(one.dialect, one.pending(), two.dialect, two.pending()),
{
    let a = one.dialect;
    let b = two.dialect;
    let change = one.change;
    match one.stage() {
        StageView::Updating => {
            lemma_update_values(
                a,
                b,
                change.id,
                change.name,
                change.remark,
                change.allow_all_groups,
            );
        },
        StageView::ListingMembers => {
            lemma_one_bind(a, members_pieces(a, change.id), 2, BindView::Int(change.id));
            lemma_one_bind(b, members_pieces(b, change.id), 2, BindView::Int(change.id));
        },
        StageView::ReadingAll { .. } => {
            law_values_are_bound_in_order(a, all_inbound_pieces());
            law_values_are_bound_in_order(b, all_inbound_pieces());
        },
        StageView::ReadingLinked { review } => {
            law_values_are_bound_in_order(a, linked_pieces(review.member()));
            law_values_are_bound_in_order(b, linked_pieces(review.member()));
        },
        StageView::ReadingOwn { review, .. } => {
            law_values_are_bound_in_order(a, own_pieces(review.member()));
            law_values_are_bound_in_order(b, own_pieces(review.member()));
        },
        StageView::Pausing { review, allowed } => {
            law_pause_binds_the_user_and_the_groups(a, review.member(), allowed);
            law_pause_binds_the_user_and_the_groups(b, review.member(), allowed);
        },
        StageView::ReadingBack => {
            law_values_are_bound_in_order(a, read_back_pieces(change.id));
            law_values_are_bound_in_order(b, read_back_pieces(change.id));
        },
        _ => {},
    }
}

proof fn lemma_insert_binds(
    dialect: Dialect,
    name: Seq<char>,
    remark: Seq<char>,
    allow_all_groups: bool,
)
    ensures
        assembled(dialect, insert_pieces(dialect, name, remark, allow_all_groups)).binds == seq![
            BindView::Text(name),
            BindView::Text(remark),
            flag_bind(dialect, allow_all_groups),
        ],
{
    let pieces = insert_pieces(dialect, name, remark, allow_all_groups);
    let three = pieces.take(3);
    let four = three.push(pieces[3]);
    let five = four.push(pieces[4]);
    let six = five.push(pieces[5]);
    lemma_params_one(three, 1, BindView::Text(name));
    lemma_params_push(three, pieces[3]);
    lemma_params_push(four, pieces[4]);
    lemma_params_push(five, pieces[5]);
    lemma_params_push(six, pieces[6]);
    assert(six.push(pieces[6]) =~= pieces);
    law_values_are_bound_in_order(dialect, pieces);
    assert(params(pieces) =~= seq![
        BindView::Text(name),
        BindView::Text(remark),
        flag_bind(dialect, allow_all_groups),
    ]);
}

proof fn lemma_found_last(lookup: StatementView, groups: Seq<UserGroupView>, group: UserGroupView)
    requires
        lookup.binds == seq![BindView::Int(group.id)],
        forall|i: int| 0 <= i < groups.len() ==> (#[trigger] groups[i]).id != group.id,
    ensures
        found_group(lookup, groups.push(group)) == Some(group),
    decreases groups.len(),
{
    let all = groups.push(group);
    if groups.len() > 0 {
        assert(groups[0].id != group.id);
        assert forall|i: int| 0 <= i < groups.len() - 1 implies (
        #[trigger] groups.skip(1)[i]).id != group.id by {
            assert(groups[i + 1].id != group.id);
        }
        lemma_found_last(lookup, groups.skip(1), group);
        assert(all.skip(1) =~= groups.skip(1).push(group));
    }
}

/// A group that was inserted is found by the id that it was given, with the name, the remark
/// and the flag that were inserted.
pub proof fn law_inserted_group_is_found(
    dialect: Dialect,
    name: Seq<char>,
    remark: Seq<char>,
    allow_all_groups: bool,
    id: i64,
    created_at: Seq<char>,
    groups: Seq<UserGroupView>,
)
    requires
        forall|i: int| 0 <= i < groups.len() ==> (#[trigger] groups[i]).id != id,
    ensures
        found_group(
            assembled(dialect, find_pieces(id)),
            groups.push(
                inserted_group(
                    assembled(dialect, insert_pieces(dialect, name, remark, allow_all_groups)),
                    id,
                    created_at,
                ),
            ),
        ) == Some(UserGroupView { id, name, remark, allow_all_groups, created_at }),
{
    lemma_insert_binds(dialect, name, remark, allow_all_groups);
    law_flag_is_stored(dialect, allow_all_groups);
    lemma_one_bind(dialect, find_pieces(id), 1, BindView::Int(id));
    lemma_found_last(
        assembled(dialect, find_pieces(id)),
        groups,
        inserted_group(
            assembled(dialect, insert_pieces(dialect, name, remark, allow_all_groups)),
            id,
            created_at,
        ),
    );
}

/// The columns of assignments.
pub open spec fn columns_of(list: Seq<AssignmentView>) -> Seq<Seq<char>> {
    list.map_values(|a: AssignmentView| a.column)
}

/// The group with the given values in place of its own.
pub open spec fn changed_group(
    group: UserGroupView,
    name: Option<Seq<char>>,
    remark: Option<Seq<char>>,
    flag: Option<bool>,
) -> UserGroupView {
    UserGroupView {
        name: match name {
            Some(value) => value,
            None => group.name,
        },
        remark: match remark {
            Some(value) => value,
            None => group.remark,
        },
        allow_all_groups: match flag {
            Some(value) => value,
            None => group.allow_all_groups,
        },
        ..group
    }
}

/// The truth value that an optional value is stored as.
pub open spec fn stored(flag: Option<BindView>) -> Option<bool> {
    match flag {
        Some(bind) => Some(stored_flag(bind)),
        None => None,
    }
}

proof fn lemma_with_columns_push(
    group: UserGroupView,
    list: Seq<AssignmentView>,
    last: AssignmentView,
    values: Seq<BindView>,
)
    requires
        values[list.len() as int] == last.value,
    ensures
        with_columns(group, columns_of(list.push(last)), values) == with_column(
            with_columns(group, columns_of(list), values),
            last.column,
            last.value,
        ),
{
    assert(columns_of(list.push(last)).drop_last() =~= columns_of(list));
}

proof fn lemma_changed_columns(
    group: UserGroupView,
    name: Option<Seq<char>>,
    remark: Option<Seq<char>>,
    flag: Option<BindView>,
    values: Seq<BindView>,
)
    requires
        forall|i: int|
            0 <= i < assignments(name, remark, flag).len() ==> values[i] == (
            #[trigger] assignments(name, remark, flag)[i]).value,
    ensures
        with_columns(group, columns_of(assignments(name, remark, flag)), values) == changed_group(
            group,
            name,
            remark,
            stored(flag),
        ),
{
    let all = assignments(name, remark, flag);
    let named = assignments(name, None, None);
    let remarked = assignments(name, remark, None);
    let none = Seq::<AssignmentView>::empty();
    reveal_strlit("name");
    reveal_strlit("remark");
    reveal_strlit("allow_all_groups");
    assert("name"@.len() == 4);
    assert("remark"@.len() == 6);
    assert("allow_all_groups"@.len() == 16);
    assert(with_columns(group, columns_of(none), values) == group);
    if let Some(value) = name {
        let a = AssignmentView { column: "name"@, value: BindView::Text(value) };
        assert(named =~= none.push(a));
        assert(all[0] == a);
        lemma_with_columns_push(group, none, a, values);
    } else {
        assert(named =~= none);
    }
    if let Some(value) = remark {
        let b = AssignmentView { column: "remark"@, value: BindView::Text(value) };
        assert(remarked =~= named.push(b));
        assert(all[named.len() as int] == b);
        lemma_with_columns_push(group, named, b, values);
    }
    if let Some(value) = flag {
        let c = AssignmentView { column: "allow_all_groups"@, value };
        assert(all =~= remarked.push(c));
        assert(all[remarked.len() as int] == c);
        lemma_with_columns_push(group, remarked, c, values);
    }
}

/// The update of a group sets the given columns of the row with its id, and leaves the other
/// columns and all other rows as they were.
pub proof fn law_update_changes_one_row(
    dialect: Dialect,
    id: i64,
    name: Option<Seq<char>>,
    remark: Option<Seq<char>>,
    flag: Option<BindView>,
    group: UserGroupView,
)
    ensures
        group_after_update(
            assembled(dialect, update_pieces(id, assignments(name, remark, flag))),
            columns_of(assignments(name, remark, flag)),
            group,
        ) == if group.id == id {
            changed_group(group, name, remark, stored(flag))
        } else {
            group
        },
{
    let list = assignments(name, remark, flag);
    let update = assembled(dialect, update_pieces(id, list));
    law_update_binds_the_values_and_the_id(dialect, id, list);
    lemma_changed_columns(group, name, remark, flag, update.binds);
}

/// A lookup after each row was changed, but for its id, gives the changed row.
proof fn lemma_found_changed(
    lookup: StatementView,
    groups: Seq<UserGroupView>,
    change: spec_fn(UserGroupView) -> UserGroupView,
)
    requires
        forall|g: UserGroupView| (#[trigger] change(g)).id == g.id,
    ensures
        found_group(lookup, groups.map_values(change)) == match found_group(lookup, groups) {
            Some(group) => Some(change(group)),
            None => None,
        },
    decreases groups.len(),
{
    let changed = groups.map_values(change);
    if groups.len() > 0 {
        lemma_found_changed(lookup, groups.skip(1), change);
        assert(changed.skip(1) =~= groups.skip(1).map_values(change));
        assert(changed[0] == change(groups[0]));
    }
}

proof fn lemma_found_has_the_id(lookup: StatementView, groups: Seq<UserGroupView>, id: i64)
    requires
        lookup.binds == seq![BindView::Int(id)],
    ensures
        found_group(lookup, groups) matches Some(group) ==> group.id == id,
    decreases groups.len(),
{
    if groups.len() > 0 {
        lemma_found_has_the_id(lookup, groups.skip(1), id);
    }
}

/// The groups after the update of the group `id` by the assignments.
pub open spec fn groups_after(
    dialect: Dialect,
    id: i64,
    list: Seq<AssignmentView>,
    groups: Seq<UserGroupView>,
) -> Seq<UserGroupView> {
    after_update(assembled(dialect, update_pieces(id, list)), columns_of(list), groups)
}

proof fn lemma_read_after_update(
    dialect: Dialect,
    id: i64,
    name: Option<Seq<char>>,
    remark: Option<Seq<char>>,
    flag: Option<BindView>,
    groups: Seq<UserGroupView>,
    lookup: StatementView,
    looked_up: i64,
)
    requires
        lookup.binds == seq![BindView::Int(looked_up)],
    ensures
        found_group(lookup, groups_after(dialect, id, assignments(name, remark, flag), groups))
            == match found_group(lookup, groups) {
            Some(group) => Some(
                if looked_up == id {
                    changed_group(group, name, remark, stored(flag))
                } else {
                    group
                },
            ),
            None => None,
        },
{
    let list = assignments(name, remark, flag);
    let update = assembled(dialect, update_pieces(id, list));
    let change = |g: UserGroupView| group_after_update(update, columns_of(list), g);
    assert forall|g: UserGroupView| (#[trigger] change(g)).id == g.id by {
        law_update_changes_one_row(dialect, id, name, remark, flag, g);
    }
    assert(groups_after(dialect, id, list, groups) =~= groups.map_values(change));
    lemma_found_changed(lookup, groups, change);
    lemma_found_has_the_id(lookup, groups, looked_up);
    if let Some(group) = found_group(lookup, groups) {
        law_update_changes_one_row(dialect, id, name, remark, flag, group);
    }
}

/// What the update with a pause reads back is the group with the name, the remark and the flag
/// that were set, and its own ones where none was given; nothing where there is no such group.
/// A lookup of any other group gives what it gave before.
pub proof fn law_updated_group_is_read_back(
    dialect: Dialect,
    id: i64,
    name: Option<Seq<char>>,
    remark: Option<Seq<char>>,
    allow_all_groups: bool,
    groups: Seq<UserGroupView>,
    other: i64,
)
    requires
        other != id,
    ensures
        found_group(
            assembled(dialect, read_back_pieces(id)),
            groups_after(
                dialect,
                id,
                full_assignments(dialect, name, remark, allow_all_groups),
                groups,
            ),
        ) == match found_group(assembled(dialect, find_pieces(id)), groups) {
            Some(group) => Some(changed_group(group, name, remark, Some(allow_all_groups))),
            None => None,
        },
        found_group(
            assembled(dialect, find_pieces(other)),
            groups_after(
                dialect,
                id,
                full_assignments(dialect, name, remark, allow_all_groups),
                groups,
            ),
        ) == found_group(assembled(dialect, find_pieces(other)), groups),
{
    let flag = Some(set_flag_bind(dialect, allow_all_groups));
    let back = assembled(dialect, read_back_pieces(id));
    let lookup = assembled(dialect, find_pieces(id));
    lemma_one_bind(dialect, read_back_pieces(id), 1, BindView::Int(id));
    lemma_one_bind(dialect, find_pieces(id), 1, BindView::Int(id));
    lemma_one_bind(dialect, find_pieces(other), 1, BindView::Int(other));
    law_flag_is_stored(dialect, allow_all_groups);
    lemma_same_lookup(back, lookup, groups);
    lemma_read_after_update(dialect, id, name, remark, flag, groups, back, id);
    lemma_read_after_update(
        dialect,
        id,
        name,
        remark,
        flag,
        groups,
        assembled(dialect, find_pieces(other)),
        other,
    );
}

/// The group that is found after an update has the name, the remark and the flag that were
/// set, and its own ones where none was given; any other group is as it was. A flag on
/// Postgres is left out: it is bound as a text, which is none for a column of truth values.
pub proof fn law_plainly_updated_group_is_found(
    dialect: Dialect,
    id: i64,
    name: Option<Seq<char>>,
    remark: Option<Seq<char>>,
    allow_all_groups: Option<bool>,
    groups: Seq<UserGroupView>,
    looked_up: i64,
)
    requires
        dialect == Dialect::Postgres ==> allow_all_groups is None,
    ensures
        found_group(
            assembled(dialect, find_pieces(looked_up)),
            groups_after(
                dialect,
                id,
                plain_assignments(dialect, name, remark, allow_all_groups),
                groups,
            ),
        ) == match found_group(assembled(dialect, find_pieces(looked_up)), groups) {
            Some(group) => Some(
                if looked_up == id {
                    changed_group(group, name, remark, allow_all_groups)
                } else {
                    group
                },
            ),
            None => None,
        },
{
    let flag = match allow_all_groups {
        Some(f) => Some(BindView::Text(flag_text(dialect, f))),
        None => None,
    };
    if let Some(f) = allow_all_groups {
        law_flag_is_stored(dialect, f);
    }
    let lookup = assembled(dialect, find_pieces(looked_up));
    lemma_one_bind(dialect, find_pieces(looked_up), 1, BindView::Int(looked_up));
    lemma_read_after_update(dialect, id, name, remark, flag, groups, lookup, looked_up);
}

proof fn lemma_same_lookup(a: StatementView, b: StatementView, groups: Seq<UserGroupView>)
    requires
        a.binds == b.binds,
    ensures
        found_group(a, groups) == found_group(b, groups),
    decreases groups.len(),
{
    if groups.len() > 0 {
        lemma_same_lookup(a, b, groups.skip(1));
    }
}

proof fn lemma_found_after_deletion(
    deletion: StatementView,
    id: i64,
    lookup: StatementView,
    looked_up: i64,
    groups: Seq<UserGroupView>,
)
    requires
        deletion.binds == seq![BindView::Int(id)],
        lookup.binds == seq![BindView::Int(looked_up)],
    ensures
        found_group(lookup, after_deletion(deletion, groups)) == if looked_up == id {
            None
        } else {
            found_group(lookup, groups)
        },
    decreases groups.len(),
{
    if groups.len() > 0 {
        let rest = after_deletion(deletion, groups.skip(1));
        lemma_found_after_deletion(deletion, id, lookup, looked_up, groups.skip(1));
        assert((seq![groups[0]] + rest).skip(1) =~= rest);
    }
}

/// After the deletion of a group a lookup finds nothing under its id, and under any other what
/// it found before.
pub proof fn law_deleted_group_is_gone(
    dialect: Dialect,
    id: i64,
    looked_up: i64,
    groups: Seq<UserGroupView>,
)
    ensures
        found_group(
            assembled(dialect, find_pieces(looked_up)),
            after_deletion(assembled(dialect, delete_pieces(id)), groups),
        ) == if looked_up == id {
            None
        } else {
            found_group(assembled(dialect, find_pieces(looked_up)), groups)
        },
{
    lemma_one_bind(dialect, delete_pieces(id), 1, BindView::Int(id));
    lemma_one_bind(dialect, find_pieces(looked_up), 1, BindView::Int(looked_up));
    lemma_found_after_deletion(
        assembled(dialect, delete_pieces(id)),
        id,
        assembled(dialect, find_pieces(looked_up)),
        looked_up,
        groups,
    );
}

proof fn lemma_members(
    statement: StatementView,
    count: StatementView,
    users: Seq<UserRow>,
)
    requires
        statement.binds == count.binds,
    ensures
        counted_members(count, users) == members_of(statement, users).len(),
        forall|id: i64| #[trigger]
            members_of(statement, users).contains(id) <==> exists|k: int|
                0 <= k < users.len() && (#[trigger] users[k]).id == id && is_member(
                    statement,
                    users[k],
                ),
        (forall|i: int, j: int|
            0 <= i < j < users.len() ==> (#[trigger] users[i]).id != (#[trigger] users[j]).id)
            ==> members_of(statement, users).no_duplicates(),
    decreases users.len(),
{
    if users.len() > 0 {
        let fewer = users.drop_last();
        let last = users.last();
        let before = members_of(statement, fewer);
        let now = members_of(statement, users);
        lemma_members(statement, count, fewer);
        assert forall|id: i64| #[trigger]
            now.contains(id) <==> exists|k: int|
                0 <= k < users.len() && (#[trigger] users[k]).id == id && is_member(
                    statement,
                    users[k],
                ) by {
            if now.contains(id) {
                let i = choose|i: int| 0 <= i < now.len() && now[i] == id;
                if i < before.len() {
                    assert(before[i] == id);
                    assert(before.contains(id));
                    let k = choose|k: int|
                        0 <= k < fewer.len() && (#[trigger] fewer[k]).id == id && is_member(
                            statement,
                            fewer[k],
                        );
                    assert(users[k] == fewer[k]);
                } else {
                    assert(users[users.len() - 1].id == id);
                }
            }
            if exists|k: int|
                0 <= k < users.len() && (#[trigger] users[k]).id == id && is_member(
                    statement,
                    users[k],
                ) {
                let k = choose|k: int|
                    0 <= k < users.len() && (#[trigger] users[k]).id == id && is_member(
                        statement,
                        users[k],
                    );
                if k < fewer.len() {
                    assert(fewer[k] == users[k]);
                    assert(before.contains(id));
                    let i = choose|i: int| 0 <= i < before.len() && before[i] == id;
                    assert(now[i] == id);
                } else {
                    assert(now[before.len() as int] == id);
                }
            }
        }
        if forall|i: int, j: int|
            0 <= i < j < users.len() ==> (#[trigger] users[i]).id != (#[trigger] users[j]).id {
            assert forall|i: int, j: int| 0 <= i < j < fewer.len() implies (
            #[trigger] fewer[i]).id != (#[trigger] fewer[j]).id by {
                assert(users[i].id != users[j].id);
            }
            if before.contains(last.id) {
                let k = choose|k: int|
                    0 <= k < fewer.len() && (#[trigger] fewer[k]).id == last.id && is_member(
                        statement,
                        fewer[k],
                    );
                assert(users[k].id != users[users.len() - 1].id);
            }
        }
    }
}

/// The count of members is the length of their list. The list holds exactly the users of the
/// group who are no administrators, in ascending order, and each once where the ids of users
/// are unique.
pub proof fn law_count_is_the_length_of_the_list(
    dialect: Dialect,
    group_id: i64,
    users: Seq<UserRow>,
)
    requires
        forall|i: int, j: int|
            0 <= i < j < users.len() ==> (#[trigger] users[i]).id != (#[trigger] users[j]).id,
    ensures
        counted_members(assembled(dialect, count_pieces(dialect, group_id)), users)
            == listed_members(
            assembled(dialect, member_list_pieces(dialect, group_id)),
            users,
        ).len(),
        ({
            let ids = listed_members(
                assembled(dialect, member_list_pieces(dialect, group_id)),
                users,
            );
            &&& is_ascending(ids)
            &&& ids.no_duplicates()
            &&& forall|id: i64| #[trigger]
                ids.contains(id) <==> exists|k: int|
                    0 <= k < users.len() && (#[trigger] users[k]).id == id && users[k].group_id
                        == Some(group_id) && !users[k].admin
        }),
{
    broadcast use vstd::seq_lib::group_to_multiset_ensures;

    let count = assembled(dialect, count_pieces(dialect, group_id));
    let list = assembled(dialect, member_list_pieces(dialect, group_id));
    lemma_one_bind(dialect, count_pieces(dialect, group_id), 2, BindView::Int(group_id));
    lemma_one_bind(dialect, member_list_pieces(dialect, group_id), 2, BindView::Int(group_id));
    lemma_members(list, count, users);
    let rows = members_of(list, users);
    let ids = listed_members(list, users);
    law_ascending_sorts(rows);
    assert(ids.len() == ids.to_multiset().len());
    rows.lemma_multiset_has_no_duplicates();
    ids.lemma_multiset_has_no_duplicates_conv();
    assert forall|id: i64| #[trigger]
        ids.contains(id) <==> exists|k: int|
            0 <= k < users.len() && (#[trigger] users[k]).id == id && users[k].group_id == Some(
                group_id,
            ) && !users[k].admin by {
        assert(ids.contains(id) <==> ids.to_multiset().count(id) > 0);
        assert(rows.contains(id) <==> rows.to_multiset().count(id) > 0);
        assert forall|k: int| 0 <= k < users.len() implies is_member(list, #[trigger] users[k]) == (
        users[k].group_id == Some(group_id) && !users[k].admin) by {}
    }
}

} // verus!
