//! What the statements of the user group repository read and change, row by row.
//!
//! The tables are modelled as sequences of rows with the columns that the statements name. Each
//! function here takes a statement for its values, in the order in which they are bound, and
//! says what the text around them says of the rows.
use vstd::prelude::*;

use crate::authorization::ascending;
use crate::authorization_laws::is_ascending;
use crate::db::UserGroupView;
use crate::sql::assembled;
use crate::sql::BindView;
use crate::sql::Dialect;
use crate::sql::StatementView;
use crate::user_groups::pause_pieces;

verus! {

/// A row of `forward_rules`.
#[verifier::ext_equal]
pub struct RuleRow {
    pub uid: i64,
    pub device_group_in: i64,
    pub paused: bool,
}

/// A pause selects the active rules of the user that is bound first, outside the device groups
/// that are bound behind.
pub open spec fn pause_selects(pause: StatementView, rule: RuleRow) -> bool {
    &&& BindView::Int(rule.uid) == pause.binds[0]
    &&& !rule.paused
    &&& !pause.binds.skip(1).contains(BindView::Int(rule.device_group_in))
}

/// The rule after a pause.
pub open spec fn rule_after_pause(pause: StatementView, rule: RuleRow) -> RuleRow {
    if pause_selects(pause, rule) {
        RuleRow { paused: true, ..rule }
    } else {
        rule
    }
}

/// The rules after a pause.
pub open spec fn after_pause(pause: StatementView, rules: Seq<RuleRow>) -> Seq<RuleRow> {
    rules.map_values(|rule: RuleRow| rule_after_pause(pause, rule))
}

/// The rules after several pauses, each of a user's rules outside the device groups that are
/// spared.
pub open spec fn after_pauses(
    dialect: Dialect,
    pauses: Seq<(i64, Seq<i64>)>,
    rules: Seq<RuleRow>,
) -> Seq<RuleRow>
    decreases pauses.len(),
{
    if pauses.len() == 0 {
        rules
    } else {
        let (user_id, allowed) = pauses.last();
        after_pause(
            assembled(dialect, pause_pieces(dialect, user_id, allowed)),
            after_pauses(dialect, pauses.drop_last(), rules),
        )
    }
}

/// The number of rules that a pause changes.
pub open spec fn paused_count(pause: StatementView, rules: Seq<RuleRow>) -> nat
    decreases rules.len(),
{
    if rules.len() == 0 {
        0
    } else {
        paused_count(pause, rules.drop_last()) + if pause_selects(pause, rules.last()) {
            1nat
        } else {
            0
        }
    }
}

/// A row of `user_group_device_groups`.
#[verifier::ext_equal]
pub struct LinkRow {
    pub user_group_id: i64,
    pub device_group_id: i64,
}

/// The links without those of the user group that is bound.
pub open spec fn after_unlink(unlink: StatementView, links: Seq<LinkRow>) -> Seq<LinkRow>
    decreases links.len(),
{
    if links.len() == 0 {
        links
    } else {
        let before = after_unlink(unlink, links.drop_last());
        if BindView::Int(links.last().user_group_id) == unlink.binds[0] {
            before
        } else {
            before.push(links.last())
        }
    }
}

/// The links and one more, between the two that are bound.
pub open spec fn after_link(link: StatementView, links: Seq<LinkRow>) -> Seq<LinkRow> {
    links.push(
        LinkRow {
            user_group_id: link.binds[0]->Int_0,
            device_group_id: link.binds[1]->Int_0,
        },
    )
}

/// The links after a removal and, behind it, insertions.
pub open spec fn after_replacement(statements: Seq<StatementView>, links: Seq<LinkRow>) -> Seq<
    LinkRow,
>
    decreases statements.len(),
{
    if statements.len() == 0 {
        links
    } else if statements.len() == 1 {
        after_unlink(statements[0], links)
    } else {
        after_link(statements.last(), after_replacement(statements.drop_last(), links))
    }
}

/// The device groups that a user group is linked to, in the order of the rows.
pub open spec fn device_groups_of(user_group_id: i64, links: Seq<LinkRow>) -> Seq<i64>
    decreases links.len(),
{
    if links.len() == 0 {
        seq![]
    } else {
        let before = device_groups_of(user_group_id, links.drop_last());
        if links.last().user_group_id == user_group_id {
            before.push(links.last().device_group_id)
        } else {
            before
        }
    }
}

/// What the list of links gives: the device groups of the user group that is bound, in
/// ascending order.
pub open spec fn listed_links(list: StatementView, links: Seq<LinkRow>) -> Seq<i64> {
    ascending(device_groups_of(list.binds[0]->Int_0, links))
}

/// The truth value that a bound value is stored as.
pub open spec fn stored_flag(bind: BindView) -> bool {
    match bind {
        BindView::Int(n) => n != 0,
        BindView::Small(n) => n != 0,
        BindView::Flag(flag) => flag,
        BindView::Text(text) => text == "1"@,
    }
}

/// The row of `user_groups` that an insertion makes; the database gives it `id` and
/// `created_at`.
pub open spec fn inserted_group(
    insertion: StatementView,
    id: i64,
    created_at: Seq<char>,
) -> UserGroupView {
    UserGroupView {
        id,
        name: insertion.binds[0]->Text_0,
        remark: insertion.binds[1]->Text_0,
        allow_all_groups: stored_flag(insertion.binds[2]),
        created_at,
    }
}

/// What the lookup of a group gives: the row with the id that is bound.
pub open spec fn found_group(lookup: StatementView, groups: Seq<UserGroupView>) -> Option<
    UserGroupView,
>
    decreases groups.len(),
{
    if groups.len() == 0 {
        None
    } else if BindView::Int(groups[0].id) == lookup.binds[0] {
        Some(groups[0])
    } else {
        found_group(lookup, groups.skip(1))
    }
}

/// The group with one column set.
pub open spec fn with_column(group: UserGroupView, column: Seq<char>, value: BindView) -> UserGroupView {
    if column == "name"@ {
        UserGroupView { name: value->Text_0, ..group }
    } else if column == "remark"@ {
        UserGroupView { remark: value->Text_0, ..group }
    } else if column == "allow_all_groups"@ {
        UserGroupView { allow_all_groups: stored_flag(value), ..group }
    } else {
        group
    }
}

/// The group with several columns set, each to the value at the same place.
pub open spec fn with_columns(
    group: UserGroupView,
    columns: Seq<Seq<char>>,
    values: Seq<BindView>,
) -> UserGroupView
    decreases columns.len(),
{
    if columns.len() == 0 {
        group
    } else {
        with_column(
            with_columns(group, columns.drop_last(), values),
            columns.last(),
            values[columns.len() - 1],
        )
    }
}

/// The group after an update of `columns`: the one with the id that is bound behind their
/// values has them set, any other stays.
pub open spec fn group_after_update(
    update: StatementView,
    columns: Seq<Seq<char>>,
    group: UserGroupView,
) -> UserGroupView {
    if BindView::Int(group.id) == update.binds[columns.len() as int] {
        with_columns(group, columns, update.binds)
    } else {
        group
    }
}

/// The groups after an update of `columns`.
pub open spec fn after_update(
    update: StatementView,
    columns: Seq<Seq<char>>,
    groups: Seq<UserGroupView>,
) -> Seq<UserGroupView> {
    groups.map_values(|group: UserGroupView| group_after_update(update, columns, group))
}

/// The groups after a deletion: without those with the id that is bound.
pub open spec fn after_deletion(deletion: StatementView, groups: Seq<UserGroupView>) -> Seq<
    UserGroupView,
>
    decreases groups.len(),
{
    if groups.len() == 0 {
        groups
    } else if BindView::Int(groups[0].id) == deletion.binds[0] {
        after_deletion(deletion, groups.skip(1))
    } else {
        seq![groups[0]] + after_deletion(deletion, groups.skip(1))
    }
}

/// A row of `users`.
#[verifier::ext_equal]
pub struct UserRow {
    pub id: i64,
    pub group_id: Option<i64>,
    pub admin: bool,
}

/// The user is in the group that is bound and no administrator.
pub open spec fn is_member(statement: StatementView, user: UserRow) -> bool {
    &&& user.group_id matches Some(group) && BindView::Int(group) == statement.binds[0]
    &&& !user.admin
}

/// The ids of the members of the group that is bound, in the order of the rows.
pub open spec fn members_of(statement: StatementView, users: Seq<UserRow>) -> Seq<i64>
    decreases users.len(),
{
    if users.len() == 0 {
        seq![]
    } else {
        let before = members_of(statement, users.drop_last());
        if is_member(statement, users.last()) {
            before.push(users.last().id)
        } else {
            before
        }
    }
}

/// What the count of members gives.
pub open spec fn counted_members(count: StatementView, users: Seq<UserRow>) -> nat
    decreases users.len(),
{
    if users.len() == 0 {
        0
    } else {
        counted_members(count, users.drop_last()) + if is_member(count, users.last()) {
            1nat
        } else {
            0
        }
    }
}

/// What the list of members gives: their ids in ascending order.
pub open spec fn listed_members(list: StatementView, users: Seq<UserRow>) -> Seq<i64> {
    ascending(members_of(list, users))
}

/// A row of `device_groups`.
#[verifier::ext_equal]
pub struct DeviceGroupRow {
    pub id: i64,
    pub uid: Option<i64>,
    pub group_type: Seq<char>,
}

impl DeviceGroupRow {
    /// The device group is inbound.
    pub open spec fn inbound(self) -> bool {
        self.group_type == "in"@
    }

    /// The device group belongs to the user.
    pub open spec fn belongs_to(self, user: BindView) -> bool {
        self.uid matches Some(uid) && BindView::Int(uid) == user
    }
}

/// The rows that decide which device groups a user may use.
#[verifier::ext_equal]
pub struct Tables {
    pub users: Seq<UserRow>,
    pub groups: Seq<UserGroupView>,
    pub links: Seq<LinkRow>,
    pub device_groups: Seq<DeviceGroupRow>,
}

impl Tables {
    /// The ids of users are unique, and so are those of user groups.
    pub open spec fn wf(self) -> bool {
        &&& forall|i: int, j: int|
            0 <= i < j < self.users.len() ==> (#[trigger] self.users[i]).id != (
            #[trigger] self.users[j]).id
        &&& forall|i: int, j: int|
            0 <= i < j < self.groups.len() ==> (#[trigger] self.groups[i]).id != (
            #[trigger] self.groups[j]).id
    }

    /// The row at `i` is that of the user `user` and names a group.
    pub open spec fn grouped(self, user: BindView, i: int) -> bool {
        &&& 0 <= i < self.users.len()
        &&& BindView::Int(self.users[i].id) == user
        &&& self.users[i].group_id is Some
    }

    /// The row at `i` is that of the user `user`, and its group has the row at `j`.
    pub open spec fn joined(self, user: BindView, i: int, j: int) -> bool {
        &&& self.grouped(user, i)
        &&& 0 <= j < self.groups.len()
        &&& self.users[i].group_id == Some(self.groups[j].id)
    }

    /// The device group is inbound.
    pub open spec fn inbound(self, device_group: i64) -> bool {
        exists|k: int|
            0 <= k < self.device_groups.len() && (#[trigger] self.device_groups[k]).id
                == device_group && self.device_groups[k].inbound()
    }

    /// The group of the row at `i`, that of the user `user`, has the link at `l` to the device
    /// group.
    pub open spec fn links_to(self, user: BindView, device_group: i64, i: int, l: int) -> bool {
        &&& self.grouped(user, i)
        &&& 0 <= l < self.links.len()
        &&& self.users[i].group_id == Some(self.links[l].user_group_id)
        &&& self.links[l].device_group_id == device_group
    }

    /// The device group is inbound, and the user's group is linked to it.
    pub open spec fn linked(self, user: BindView, device_group: i64) -> bool {
        &&& self.inbound(device_group)
        &&& exists|i: int, l: int| self.links_to(user, device_group, i, l)
    }

    /// The device group is inbound and belongs to the user.
    pub open spec fn owned(self, user: BindView, device_group: i64) -> bool {
        exists|k: int|
            0 <= k < self.device_groups.len() && (#[trigger] self.device_groups[k]).id
                == device_group && self.device_groups[k].inbound()
                && self.device_groups[k].belongs_to(user)
    }
}

/// `n` is what the count of a user's groups gives: it is zero exactly where no row of the user
/// that is bound names a group.
pub open spec fn answers_count(question: StatementView, tables: Tables, n: i64) -> bool {
    n != 0 <==> exists|i: int| tables.grouped(question.binds[0], i)
}

/// `row` is what the question on the flag gives: the flag of the group of the user that is
/// bound, or nothing where there is no such group.
pub open spec fn answers_flag(question: StatementView, tables: Tables, row: Option<bool>) -> bool {
    match row {
        Some(flag) => exists|i: int, j: int| #[trigger]
            tables.joined(question.binds[0], i, j) && tables.groups[j].allow_all_groups == flag,
        None => forall|i: int, j: int| !tables.joined(question.binds[0], i, j),
    }
}

/// `ids` is what the list of all inbound device groups gives, in ascending order.
pub open spec fn answers_all(tables: Tables, ids: Seq<i64>) -> bool {
    &&& is_ascending(ids)
    &&& forall|x: i64| #[trigger] ids.contains(x) <==> tables.inbound(x)
}

/// `ids` is what the list of the linked device groups of the user that is bound gives, in
/// ascending order.
pub open spec fn answers_linked(question: StatementView, tables: Tables, ids: Seq<i64>) -> bool {
    &&& is_ascending(ids)
    &&& forall|x: i64| #[trigger] ids.contains(x) <==> tables.linked(question.binds[0], x)
}

/// `ids` is what the list of the device groups that belong to the user that is bound gives, in
/// any order.
pub open spec fn answers_own(question: StatementView, tables: Tables, ids: Seq<i64>) -> bool {
    forall|x: i64| #[trigger] ids.contains(x) <==> tables.owned(question.binds[0], x)
}

} // verus!
