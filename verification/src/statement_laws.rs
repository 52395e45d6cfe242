//! What holds of all statements of the user group repository.
use vstd::prelude::*;

use crate::sql::assembled;
use crate::sql::clean;
use crate::sql::law_one_placeholder_per_value;
use crate::sql::law_values_are_bound_in_order;
use crate::sql::lemma_params_one;
use crate::sql::lemma_params_push;
use crate::sql::mark;
use crate::sql::occurrences;
use crate::sql::params;
use crate::sql::unmarked;
use crate::sql::BindView;
use crate::sql::Dialect;
use crate::sql::Piece;
use crate::user_groups::all_inbound_pieces;
use crate::user_groups::allows_all_pieces;
use crate::user_groups::assignments;
use crate::user_groups::count_pieces;
use crate::user_groups::delete_pieces;
use crate::user_groups::find_pieces;
use crate::user_groups::has_group_pieces;
use crate::user_groups::id_list_pieces;
use crate::user_groups::insert_pieces;
use crate::user_groups::last_id_pieces;
use crate::user_groups::link_pieces;
use crate::user_groups::linked_pieces;
use crate::user_groups::links_pieces;
use crate::user_groups::list_pieces;
use crate::user_groups::member_condition;
use crate::user_groups::member_list_pieces;
use crate::user_groups::members_pieces;
use crate::user_groups::no;
use crate::user_groups::own_pieces;
use crate::user_groups::pause_all_pieces;
use crate::user_groups::pause_pieces;
use crate::user_groups::read_back_pieces;
use crate::user_groups::restricted_pieces;
use crate::user_groups::set_pieces;
use crate::user_groups::unlink_pieces;
use crate::user_groups::update_pieces;
use crate::user_groups::yes;
use crate::user_groups::AssignmentView;

verus! {

/// The statement made of `pieces` has one placeholder for each value that it binds.
pub open spec fn matched(dialect: Dialect, pieces: Seq<Piece>) -> bool {
    let statement = assembled(dialect, pieces);
    occurrences(statement.sql, mark(dialect)) == statement.binds.len()
}

proof fn lemma_truth_values(dialect: Dialect)
    ensures
        unmarked(yes(dialect)),
        unmarked(no(dialect)),
{
    reveal_strlit("1");
    reveal_strlit("0");
    reveal_strlit("TRUE");
    reveal_strlit("FALSE");
}

/// The statements on groups have a placeholder for each value.
pub proof fn law_group_statements_match(
    dialect: Dialect,
    id: i64,
    name: Seq<char>,
    remark: Seq<char>,
    allow_all_groups: bool,
)
    ensures
        matched(dialect, list_pieces()),
        matched(dialect, find_pieces(id)),
        matched(dialect, insert_pieces(dialect, name, remark, allow_all_groups)),
        matched(dialect, last_id_pieces()),
        matched(dialect, delete_pieces(id)),
        matched(dialect, read_back_pieces(id)),
{
    reveal_strlit("SELECT * FROM user_groups ORDER BY id");
    reveal_strlit("SELECT * FROM user_groups WHERE id = ");
    reveal_strlit("INSERT INTO user_groups (name, remark, allow_all_groups) VALUES (");
    reveal_strlit(", ");
    reveal_strlit(")");
    reveal_strlit(") RETURNING id");
    reveal_strlit("SELECT last_insert_rowid()");
    reveal_strlit("DELETE FROM user_groups WHERE id = ");
    reveal_strlit("SELECT id, name, COALESCE(remark, ''), allow_all_groups, created_at FROM user_groups WHERE id = ");
    law_one_placeholder_per_value(dialect, list_pieces());
    law_one_placeholder_per_value(dialect, find_pieces(id));
    law_one_placeholder_per_value(dialect, insert_pieces(dialect, name, remark, allow_all_groups));
    law_one_placeholder_per_value(dialect, last_id_pieces());
    law_one_placeholder_per_value(dialect, delete_pieces(id));
    law_one_placeholder_per_value(dialect, read_back_pieces(id));
}

/// The statements on the members of a group have a placeholder for each value.
pub proof fn law_member_statements_match(dialect: Dialect, id: i64)
    ensures
        matched(dialect, count_pieces(dialect, id)),
        matched(dialect, members_pieces(dialect, id)),
        matched(dialect, member_list_pieces(dialect, id)),
        matched(dialect, has_group_pieces(id)),
        matched(dialect, allows_all_pieces(id)),
        matched(dialect, restricted_pieces(id)),
{
    reveal_strlit("SELECT COUNT(*)");
    reveal_strlit(" FROM users WHERE group_id = ");
    reveal_strlit(" AND admin = ");
    reveal_strlit("SELECT id");
    reveal_strlit(" ORDER BY id");
    reveal_strlit("SELECT COUNT(*) FROM users WHERE id = ");
    reveal_strlit(" AND group_id IS NOT NULL");
    reveal_strlit("SELECT ug.allow_all_groups");
    reveal_strlit("FROM user_groups ug");
    reveal_strlit("JOIN users u ON u.group_id = ug.id");
    reveal_strlit("WHERE u.id = ");
    reveal_strlit("\n             ");
    reveal_strlit(" ");
    lemma_truth_values(dialect);
    law_one_placeholder_per_value(dialect, count_pieces(dialect, id));
    law_one_placeholder_per_value(dialect, members_pieces(dialect, id));
    law_one_placeholder_per_value(dialect, member_list_pieces(dialect, id));
    law_one_placeholder_per_value(dialect, has_group_pieces(id));
    law_one_placeholder_per_value(dialect, allows_all_pieces(id));
    law_one_placeholder_per_value(dialect, restricted_pieces(id));
}

/// A statement that starts with fixed text is that text and the statement of the rest.
proof fn lemma_assembled_behind(dialect: Dialect, text: Seq<char>, pieces: Seq<Piece>)
    ensures
        assembled(dialect, seq![Piece::Fixed(text)] + pieces).sql == text + assembled(
            dialect,
            pieces,
        ).sql,
        assembled(dialect, seq![Piece::Fixed(text)] + pieces).binds == assembled(
            dialect,
            pieces,
        ).binds,
    decreases pieces.len(),
{
    let whole = seq![Piece::Fixed(text)] + pieces;
    if pieces.len() == 0 {
        let none = Seq::<Piece>::empty();
        assert(whole.drop_last() =~= none);
        assert(assembled(dialect, none).sql =~= seq![]);
        assert(assembled(dialect, whole).sql =~= text + assembled(dialect, pieces).sql);
    } else {
        lemma_assembled_behind(dialect, text, pieces.drop_last());
        assert(whole.drop_last() =~= seq![Piece::Fixed(text)] + pieces.drop_last());
        assert(assembled(dialect, whole).sql =~= text + assembled(dialect, pieces).sql);
    }
}

/// The count and the list of members select by one and the same condition, with the same
/// values.
pub proof fn law_count_and_list_share_the_condition(dialect: Dialect, group_id: i64)
    ensures
        ({
            let condition = assembled(dialect, member_condition(dialect, group_id));
            let count = assembled(dialect, count_pieces(dialect, group_id));
            let list = assembled(dialect, member_list_pieces(dialect, group_id));
            &&& count.sql == "SELECT COUNT(*)"@ + condition.sql
            &&& list.sql == "SELECT id"@ + condition.sql + " ORDER BY id"@
            &&& count.binds == condition.binds
            &&& list.binds == condition.binds
        }),
{
    lemma_assembled_behind(dialect, "SELECT COUNT(*)"@, member_condition(dialect, group_id));
    lemma_assembled_behind(dialect, "SELECT id"@, member_condition(dialect, group_id));
    assert(member_list_pieces(dialect, group_id).drop_last() =~= members_pieces(dialect, group_id));
}

/// The statements on device groups have a placeholder for each value.
pub proof fn law_link_statements_match(dialect: Dialect, id: i64, device_group_id: i64)
    ensures
        matched(dialect, links_pieces(id)),
        matched(dialect, unlink_pieces(id)),
        matched(dialect, link_pieces(id, device_group_id)),
        matched(dialect, all_inbound_pieces()),
        matched(dialect, linked_pieces(id)),
        matched(dialect, own_pieces(id)),
{
    reveal_strlit("SELECT device_group_id FROM user_group_device_groups WHERE user_group_id = ");
    reveal_strlit(" ORDER BY device_group_id");
    reveal_strlit("DELETE FROM user_group_device_groups WHERE user_group_id = ");
    reveal_strlit("INSERT INTO user_group_device_groups (user_group_id, device_group_id) VALUES (");
    reveal_strlit(", ");
    reveal_strlit(")");
    reveal_strlit("SELECT id FROM device_groups WHERE group_type = 'in' ORDER BY id");
    reveal_strlit("SELECT dg.id FROM device_groups dg JOIN user_group_device_groups ugdg ON ugdg.device_group_id = dg.id JOIN users u ON u.group_id = ugdg.user_group_id WHERE u.id = ");
    reveal_strlit(" AND dg.group_type = 'in' ORDER BY dg.id");
    reveal_strlit("SELECT id FROM device_groups WHERE uid = ");
    reveal_strlit(" AND group_type = 'in'");
    law_one_placeholder_per_value(dialect, links_pieces(id));
    law_one_placeholder_per_value(dialect, unlink_pieces(id));
    law_one_placeholder_per_value(dialect, link_pieces(id, device_group_id));
    law_one_placeholder_per_value(dialect, all_inbound_pieces());
    law_one_placeholder_per_value(dialect, linked_pieces(id));
    law_one_placeholder_per_value(dialect, own_pieces(id));
}

proof fn lemma_set_clean(list: Seq<AssignmentView>)
    requires
        forall|i: int| 0 <= i < list.len() ==> unmarked(#[trigger] list[i].column),
    ensures
        clean(set_pieces(list)),
    decreases list.len(),
{
    if list.len() > 0 {
        assert forall|i: int| 0 <= i < list.len() - 1 implies unmarked(
            #[trigger] list.drop_last()[i].column,
        ) by {
            assert(unmarked(list[i].column));
        }
        lemma_set_clean(list.drop_last());
        assert(unmarked(list[list.len() - 1].column));
        reveal_strlit(", ");
        reveal_strlit(" = ");
        assert(unmarked(", "@));
        assert(unmarked(" = "@));
    }
}

/// An update of a group has a placeholder for each value.
pub proof fn law_update_statement_matches(
    dialect: Dialect,
    id: i64,
    name: Option<Seq<char>>,
    remark: Option<Seq<char>>,
    flag: Option<BindView>,
)
    ensures
        matched(dialect, update_pieces(id, assignments(name, remark, flag))),
{
    let list = assignments(name, remark, flag);
    reveal_strlit("name");
    reveal_strlit("remark");
    reveal_strlit("allow_all_groups");
    assert(unmarked("name"@));
    assert(unmarked("remark"@));
    assert(unmarked("allow_all_groups"@));
    lemma_set_clean(list);
    reveal_strlit("UPDATE user_groups SET ");
    reveal_strlit(" WHERE id = ");
    assert(unmarked("UPDATE user_groups SET "@));
    assert(unmarked(" WHERE id = "@));
    law_one_placeholder_per_value(dialect, update_pieces(id, list));
}

proof fn lemma_id_list_clean(ids: Seq<i64>)
    ensures
        clean(id_list_pieces(ids)),
    decreases ids.len(),
{
    if ids.len() > 0 {
        lemma_id_list_clean(ids.drop_last());
        reveal_strlit(", ");
        assert(unmarked(", "@));
    }
}

/// A pause of rules has a placeholder for each value: the user and every allowed group.
pub proof fn law_pause_statement_matches(dialect: Dialect, user_id: i64, allowed: Seq<i64>)
    ensures
        matched(dialect, pause_pieces(dialect, user_id, allowed)),
{
    reveal_strlit("UPDATE forward_rules SET paused = ");
    reveal_strlit(" WHERE uid = ");
    reveal_strlit(" AND paused = ");
    reveal_strlit(" AND device_group_in NOT IN (");
    reveal_strlit(")");
    lemma_truth_values(dialect);
    assert(unmarked("UPDATE forward_rules SET paused = "@));
    assert(unmarked(" WHERE uid = "@));
    assert(unmarked(" AND paused = "@));
    assert(unmarked(" AND device_group_in NOT IN ("@));
    assert(unmarked(")"@));
    assert(clean(pause_all_pieces(dialect, user_id)));
    lemma_id_list_clean(allowed);
    law_one_placeholder_per_value(dialect, pause_pieces(dialect, user_id, allowed));
}

proof fn lemma_params_concat(a: Seq<Piece>, b: Seq<Piece>)
    ensures
        params(a + b) == params(a) + params(b),
    decreases b.len(),
{
    if b.len() == 0 {
        assert(a + b =~= a);
        assert(params(a) + params(b) =~= params(a));
    } else {
        assert((a + b).drop_last() =~= a + b.drop_last());
        lemma_params_concat(a, b.drop_last());
        assert(params(a + b) =~= params(a) + params(b));
    }
}

proof fn lemma_id_list_params(ids: Seq<i64>)
    ensures
        params(id_list_pieces(ids)) == ids.map_values(|id: i64| BindView::Int(id)),
    decreases ids.len(),
{
    let pieces = id_list_pieces(ids);
    if ids.len() > 0 {
        lemma_id_list_params(ids.drop_last());
        let inner = id_list_pieces(ids.drop_last());
        let before = pieces.drop_last();
        if ids.len() == 1 {
            assert(before =~= seq![]);
        } else {
            assert(before =~= inner.push(Piece::Fixed(", "@)));
            assert(before.drop_last() =~= inner);
        }
        assert(params(before) =~= ids.drop_last().map_values(|id: i64| BindView::Int(id)));
        assert(pieces.last() == Piece::Param(BindView::Int(ids.last())));
        assert(params(pieces) =~= ids.map_values(|id: i64| BindView::Int(id)));
    } else {
        assert(params(pieces) =~= ids.map_values(|id: i64| BindView::Int(id)));
    }
}

/// A pause of rules binds the user and then every allowed group, in order.
pub proof fn law_pause_binds_the_user_and_the_groups(
    dialect: Dialect,
    user_id: i64,
    allowed: Seq<i64>,
)
    ensures
        assembled(dialect, pause_pieces(dialect, user_id, allowed)).binds == seq![
            BindView::Int(user_id),
        ] + allowed.map_values(|id: i64| BindView::Int(id)),
{
    let pieces = pause_pieces(dialect, user_id, allowed);
    let all = pause_all_pieces(dialect, user_id);
    let user = seq![BindView::Int(user_id)];
    law_values_are_bound_in_order(dialect, pieces);
    lemma_params_one(all, 3, BindView::Int(user_id));
    if allowed.len() > 0 {
        lemma_id_list_params(allowed);
        let open = all.push(Piece::Fixed(" AND device_group_in NOT IN ("@));
        lemma_params_push(all, Piece::Fixed(" AND device_group_in NOT IN ("@));
        lemma_params_concat(open, id_list_pieces(allowed));
        lemma_params_push(open + id_list_pieces(allowed), Piece::Fixed(")"@));
    } else {
        assert(user + allowed.map_values(|id: i64| BindView::Int(id)) =~= user);
    }
}

proof fn lemma_set_params(list: Seq<AssignmentView>)
    ensures
        params(set_pieces(list)) == list.map_values(|a: AssignmentView| a.value),
    decreases list.len(),
{
    let values = |a: AssignmentView| a.value;
    let pieces = set_pieces(list);
    if list.len() > 0 {
        lemma_set_params(list.drop_last());
        let inner = set_pieces(list.drop_last());
        let before = pieces.drop_last().drop_last().drop_last();
        if list.len() == 1 {
            assert(before =~= seq![]);
        } else {
            assert(before =~= inner.push(Piece::Fixed(", "@)));
            assert(before.drop_last() =~= inner);
        }
        assert(params(before) =~= list.drop_last().map_values(values));
        assert(pieces.drop_last().drop_last().last() == Piece::Fixed(list.last().column));
        assert(params(pieces.drop_last().drop_last()) == params(before));
        assert(params(pieces.drop_last()) == params(before));
        assert(params(pieces) =~= list.map_values(values));
    } else {
        assert(params(pieces) =~= list.map_values(values));
    }
}

/// An update binds the new values in the order of their columns and then the id of the group.
pub proof fn law_update_binds_the_values_and_the_id(
    dialect: Dialect,
    id: i64,
    list: Seq<AssignmentView>,
)
    ensures
        assembled(dialect, update_pieces(id, list)).binds == list.map_values(
            |a: AssignmentView| a.value,
        ).push(BindView::Int(id)),
{
    let pieces = update_pieces(id, list);
    let head = seq![Piece::Fixed("UPDATE user_groups SET "@)];
    law_values_are_bound_in_order(dialect, pieces);
    lemma_set_params(list);
    lemma_params_concat(head, set_pieces(list));
    assert(params(head.drop_last()) =~= seq![]);
    assert(pieces.drop_last().drop_last() =~= head + set_pieces(list));
    assert(pieces.drop_last().last() == Piece::Fixed(" WHERE id = "@));
    assert(params(pieces.drop_last()) == params(head + set_pieces(list)));
    assert(params(head) + params(set_pieces(list)) =~= params(set_pieces(list)));
}

} // verus!
