//! The statements of the user group repository and what is read from their results.
use vstd::prelude::*;

use crate::sql::assembled;
use crate::sql::Bind;
use crate::sql::BindView;
use crate::sql::Builder;
use crate::sql::Dialect;
use crate::sql::Piece;
use crate::sql::Statement;

verus! {

/// User groups in a database of one dialect.
#[derive(Clone, Copy)]
pub struct UserGroupRepository {
    pub dialect: Dialect,
}

/// How the database writes the truth value `true`.
pub open spec fn yes(dialect: Dialect) -> Seq<char> {
    match dialect {
        Dialect::Sqlite => "1"@,
        Dialect::Postgres => "TRUE"@,
    }
}

/// How the database writes the truth value `false`.
pub open spec fn no(dialect: Dialect) -> Seq<char> {
    match dialect {
        Dialect::Sqlite => "0"@,
        Dialect::Postgres => "FALSE"@,
    }
}

fn yes_text(dialect: Dialect) -> (text: &'static str)
    ensures
        text@ == yes(dialect),
{
    match dialect {
        Dialect::Sqlite => "1",
        Dialect::Postgres => "TRUE",
    }
}

fn no_text(dialect: Dialect) -> (text: &'static str)
    ensures
        text@ == no(dialect),
{
    match dialect {
        Dialect::Sqlite => "0",
        Dialect::Postgres => "FALSE",
    }
}

/// All groups, by id.
pub open spec fn list_pieces() -> Seq<Piece> {
    seq![Piece::Fixed("SELECT * FROM user_groups ORDER BY id"@)]
}

/// The group `id`.
pub open spec fn find_pieces(id: i64) -> Seq<Piece> {
    seq![
        Piece::Fixed("SELECT * FROM user_groups WHERE id = "@),
        Piece::Param(BindView::Int(id)),
    ]
}

/// The value that an insertion binds for a truth value.
pub open spec fn flag_bind(dialect: Dialect, flag: bool) -> BindView {
    match dialect {
        Dialect::Sqlite => BindView::Small(
            if flag {
                1
            } else {
                0
            },
        ),
        Dialect::Postgres => BindView::Flag(flag),
    }
}

/// The text that `update_user_group` binds for a truth value.
pub open spec fn flag_text(dialect: Dialect, flag: bool) -> Seq<char> {
    match dialect {
        Dialect::Sqlite => if flag {
            "1"@
        } else {
            "0"@
        },
        Dialect::Postgres => if flag {
            "true"@
        } else {
            "false"@
        },
    }
}

fn flag_string(dialect: Dialect, flag: bool) -> (text: String)
    ensures
        text@ == flag_text(dialect, flag),
{
    match dialect {
        Dialect::Sqlite => if flag {
            "1".to_owned()
        } else {
            "0".to_owned()
        },
        Dialect::Postgres => if flag {
            "true".to_owned()
        } else {
            "false".to_owned()
        },
    }
}

/// The value that `update_user_group_with_pause` binds for a truth value. SQLite, which
/// converts it to the type of the column, is given a text; Postgres, which does not, a truth
/// value.
pub open spec fn set_flag_bind(dialect: Dialect, flag: bool) -> BindView {
    match dialect {
        Dialect::Sqlite => BindView::Text(flag_text(dialect, flag)),
        Dialect::Postgres => BindView::Flag(flag),
    }
}

fn set_flag(dialect: Dialect, flag: bool) -> (bind: Bind)
    ensures
        bind@ == set_flag_bind(dialect, flag),
{
    match dialect {
        Dialect::Sqlite => Bind::Text(flag_string(dialect, flag)),
        Dialect::Postgres => Bind::Flag(flag),
    }
}

/// A new group. Postgres gives its id back.
pub open spec fn insert_pieces(
    dialect: Dialect,
    name: Seq<char>,
    remark: Seq<char>,
    allow_all_groups: bool,
) -> Seq<Piece> {
    seq![
        Piece::Fixed("INSERT INTO user_groups (name, remark, allow_all_groups) VALUES ("@),
        Piece::Param(BindView::Text(name)),
        Piece::Fixed(", "@),
        Piece::Param(BindView::Text(remark)),
        Piece::Fixed(", "@),
        Piece::Param(flag_bind(dialect, allow_all_groups)),
        Piece::Fixed(
            match dialect {
                Dialect::Sqlite => ")"@,
                Dialect::Postgres => ") RETURNING id"@,
            },
        ),
    ]
}

/// The id of the row that was inserted last.
pub open spec fn last_id_pieces() -> Seq<Piece> {
    seq![Piece::Fixed("SELECT last_insert_rowid()"@)]
}

/// The deletion of the group `id`.
pub open spec fn delete_pieces(id: i64) -> Seq<Piece> {
    seq![
        Piece::Fixed("DELETE FROM user_groups WHERE id = "@),
        Piece::Param(BindView::Int(id)),
    ]
}

/// The condition of being a user in a group and no administrator.
pub open spec fn member_condition(dialect: Dialect, group_id: i64) -> Seq<Piece> {
    seq![
        Piece::Fixed(" FROM users WHERE group_id = "@),
        Piece::Param(BindView::Int(group_id)),
        Piece::Fixed(" AND admin = "@),
        Piece::Fixed(no(dialect)),
    ]
}

/// The number of users in a group who are no administrators.
pub open spec fn count_pieces(dialect: Dialect, group_id: i64) -> Seq<Piece> {
    seq![Piece::Fixed("SELECT COUNT(*)"@)] + member_condition(dialect, group_id)
}

/// The device groups that a user group is linked to, by id.
pub open spec fn links_pieces(user_group_id: i64) -> Seq<Piece> {
    seq![
        Piece::Fixed(
            "SELECT device_group_id FROM user_group_device_groups WHERE user_group_id = "@,
        ),
        Piece::Param(BindView::Int(user_group_id)),
        Piece::Fixed(" ORDER BY device_group_id"@),
    ]
}

/// The removal of all links of a user group.
pub open spec fn unlink_pieces(user_group_id: i64) -> Seq<Piece> {
    seq![
        Piece::Fixed("DELETE FROM user_group_device_groups WHERE user_group_id = "@),
        Piece::Param(BindView::Int(user_group_id)),
    ]
}

/// A new link of a user group to a device group.
pub open spec fn link_pieces(user_group_id: i64, device_group_id: i64) -> Seq<Piece> {
    seq![
        Piece::Fixed(
            "INSERT INTO user_group_device_groups (user_group_id, device_group_id) VALUES ("@,
        ),
        Piece::Param(BindView::Int(user_group_id)),
        Piece::Fixed(", "@),
        Piece::Param(BindView::Int(device_group_id)),
        Piece::Fixed(")"@),
    ]
}

/// Whether the user is in a group, as a count.
pub open spec fn has_group_pieces(user_id: i64) -> Seq<Piece> {
    seq![
        Piece::Fixed("SELECT COUNT(*) FROM users WHERE id = "@),
        Piece::Param(BindView::Int(user_id)),
        Piece::Fixed(" AND group_id IS NOT NULL"@),
    ]
}

/// All inbound device groups, by id.
pub open spec fn all_inbound_pieces() -> Seq<Piece> {
    seq![Piece::Fixed("SELECT id FROM device_groups WHERE group_type = 'in' ORDER BY id"@)]
}

/// The inbound device groups that the user's group is linked to, by id.
pub open spec fn linked_pieces(user_id: i64) -> Seq<Piece> {
    seq![
        Piece::Fixed(
            "SELECT dg.id FROM device_groups dg JOIN user_group_device_groups ugdg ON ugdg.device_group_id = dg.id JOIN users u ON u.group_id = ugdg.user_group_id WHERE u.id = "@,
        ),
        Piece::Param(BindView::Int(user_id)),
        Piece::Fixed(" AND dg.group_type = 'in' ORDER BY dg.id"@),
    ]
}

/// The inbound device groups that belong to the user.
pub open spec fn own_pieces(user_id: i64) -> Seq<Piece> {
    seq![
        Piece::Fixed("SELECT id FROM device_groups WHERE uid = "@),
        Piece::Param(BindView::Int(user_id)),
        Piece::Fixed(" AND group_type = 'in'"@),
    ]
}

/// The question whether the user's group allows all device groups, with `gap` between its
/// clauses.
pub open spec fn flag_question_pieces(gap: Seq<char>, user_id: i64) -> Seq<Piece> {
    seq![
        Piece::Fixed("SELECT ug.allow_all_groups"@),
        Piece::Fixed(gap),
        Piece::Fixed("FROM user_groups ug"@),
        Piece::Fixed(gap),
        Piece::Fixed("JOIN users u ON u.group_id = ug.id"@),
        Piece::Fixed(gap),
        Piece::Fixed("WHERE u.id = "@),
        Piece::Param(BindView::Int(user_id)),
    ]
}

/// Whether the user's group allows all device groups, a clause to a line.
pub open spec fn allows_all_pieces(user_id: i64) -> Seq<Piece> {
    flag_question_pieces("\n             "@, user_id)
}

/// The same question on one line, as it is asked for a restriction.
pub open spec fn restricted_pieces(user_id: i64) -> Seq<Piece> {
    flag_question_pieces(" "@, user_id)
}

/// The users in a group who are no administrators, in any order.
pub open spec fn members_pieces(dialect: Dialect, group_id: i64) -> Seq<Piece> {
    seq![Piece::Fixed("SELECT id"@)] + member_condition(dialect, group_id)
}

/// The users in a group who are no administrators, by id.
pub open spec fn member_list_pieces(dialect: Dialect, group_id: i64) -> Seq<Piece> {
    members_pieces(dialect, group_id).push(Piece::Fixed(" ORDER BY id"@))
}

/// The group `id` after a change.
pub open spec fn read_back_pieces(id: i64) -> Seq<Piece> {
    seq![
        Piece::Fixed(
            "SELECT id, name, COALESCE(remark, ''), allow_all_groups, created_at FROM user_groups WHERE id = "@,
        ),
        Piece::Param(BindView::Int(id)),
    ]
}

/// A column and the value that it is set to.
#[verifier::ext_equal]
pub struct AssignmentView {
    pub column: Seq<char>,
    pub value: BindView,
}

/// The columns of a group that an update sets, in order; `flag` is the value for the flag.
pub open spec fn assignments(
    name: Option<Seq<char>>,
    remark: Option<Seq<char>>,
    flag: Option<BindView>,
) -> Seq<AssignmentView> {
    let a = match name {
        Some(value) => seq![AssignmentView { column: "name"@, value: BindView::Text(value) }],
        None => seq![],
    };
    let b = match remark {
        Some(value) => a.push(
            AssignmentView { column: "remark"@, value: BindView::Text(value) },
        ),
        None => a,
    };
    match flag {
        Some(value) => b.push(AssignmentView { column: "allow_all_groups"@, value }),
        None => b,
    }
}

/// The columns that `update_user_group` sets.
pub open spec fn plain_assignments(
    dialect: Dialect,
    name: Option<Seq<char>>,
    remark: Option<Seq<char>>,
    allow_all_groups: Option<bool>,
) -> Seq<AssignmentView> {
    assignments(
        name,
        remark,
        match allow_all_groups {
            Some(flag) => Some(BindView::Text(flag_text(dialect, flag))),
            None => None,
        },
    )
}

/// The columns that `update_user_group_with_pause` sets.
pub open spec fn full_assignments(
    dialect: Dialect,
    name: Option<Seq<char>>,
    remark: Option<Seq<char>>,
    allow_all_groups: bool,
) -> Seq<AssignmentView> {
    assignments(name, remark, Some(set_flag_bind(dialect, allow_all_groups)))
}

/// `column = value` for each assignment, with commas between.
pub open spec fn set_pieces(list: Seq<AssignmentView>) -> Seq<Piece>
    decreases list.len(),
{
    if list.len() == 0 {
        seq![]
    } else {
        let before = if list.len() == 1 {
            seq![]
        } else {
            set_pieces(list.drop_last()).push(Piece::Fixed(", "@))
        };
        before.push(Piece::Fixed(list.last().column)).push(Piece::Fixed(" = "@)).push(
            Piece::Param(list.last().value),
        )
    }
}

/// The update of the group `id`.
pub open spec fn update_pieces(id: i64, list: Seq<AssignmentView>) -> Seq<Piece> {
    (seq![Piece::Fixed("UPDATE user_groups SET "@)] + set_pieces(list)).push(
        Piece::Fixed(" WHERE id = "@),
    ).push(Piece::Param(BindView::Int(id)))
}

/// A parameter for each id, with commas between.
pub open spec fn id_list_pieces(ids: Seq<i64>) -> Seq<Piece>
    decreases ids.len(),
{
    if ids.len() == 0 {
        seq![]
    } else {
        let before = if ids.len() == 1 {
            seq![]
        } else {
            id_list_pieces(ids.drop_last()).push(Piece::Fixed(", "@))
        };
        before.push(Piece::Param(BindView::Int(ids.last())))
    }
}

/// The pause of all active rules of a user.
pub open spec fn pause_all_pieces(dialect: Dialect, user_id: i64) -> Seq<Piece> {
    seq![
        Piece::Fixed("UPDATE forward_rules SET paused = "@),
        Piece::Fixed(yes(dialect)),
        Piece::Fixed(" WHERE uid = "@),
        Piece::Param(BindView::Int(user_id)),
        Piece::Fixed(" AND paused = "@),
        Piece::Fixed(no(dialect)),
    ]
}

/// The pause of the active rules of a user outside the allowed device groups; where none is
/// allowed, of all of them.
pub open spec fn pause_pieces(dialect: Dialect, user_id: i64, allowed: Seq<i64>) -> Seq<Piece> {
    if allowed.len() == 0 {
        pause_all_pieces(dialect, user_id)
    } else {
        (pause_all_pieces(dialect, user_id).push(Piece::Fixed(" AND device_group_in NOT IN ("@))
            + id_list_pieces(allowed)).push(Piece::Fixed(")"@))
    }
}

/// A column and the value that it is set to.
struct Assignment {
    column: &'static str,
    value: Bind,
}

impl View for Assignment {
    type V = AssignmentView;

    closed spec fn view(&self) -> AssignmentView {
        AssignmentView { column: self.column@, value: self.value@ }
    }
}

/// The same value once more.
fn copy_of(bind: &Bind) -> (copy: Bind)
    ensures
        copy@ == bind@,
{
    match bind {
        Bind::Int(n) => Bind::Int(*n),
        Bind::Small(n) => Bind::Small(*n),
        Bind::Flag(flag) => Bind::Flag(*flag),
        Bind::Text(text) => Bind::Text(text.clone()),
    }
}

/// The text that an option holds.
pub open spec fn option_text(text: Option<&str>) -> Option<Seq<char>> {
    match text {
        Some(t) => Some(t@),
        None => None,
    }
}

spec fn assignment_views(sets: Seq<Assignment>) -> Seq<AssignmentView> {
    sets.map_values(|a: Assignment| a@)
}

/// The columns of a group that are to be set, in order.
fn assigned(name: Option<&str>, remark: Option<&str>, flag: Option<Bind>) -> (sets: Vec<Assignment>)
    ensures
        assignment_views(sets@) == assignments(
            option_text(name),
            option_text(remark),
            option_bind(flag),
        ),
{
    let ghost flag_view = option_bind(flag);
    let mut sets: Vec<Assignment> = Vec::new();
    let ghost mut views: Seq<AssignmentView> = seq![];
    if let Some(value) = name {
        sets.push(Assignment { column: "name", value: Bind::Text(value.to_owned()) });
        proof {
            views = views.push(sets@.last()@);
        }
    }
    if let Some(value) = remark {
        sets.push(Assignment { column: "remark", value: Bind::Text(value.to_owned()) });
        proof {
            views = views.push(sets@.last()@);
        }
    }
    if let Some(value) = flag {
        sets.push(Assignment { column: "allow_all_groups", value });
        proof {
            views = views.push(sets@.last()@);
        }
    }
    proof {
        assert(views =~= assignments(option_text(name), option_text(remark), flag_view));
        assert(views =~= assignment_views(sets@));
    }
    sets
}

/// The value that an option holds.
pub open spec fn option_bind(bind: Option<Bind>) -> Option<BindView> {
    match bind {
        Some(b) => Some(b@),
        None => None,
    }
}

impl UserGroupRepository {
    /// All groups, by id.
    pub fn list_user_groups(&self) -> (statement: Statement)
        ensures
            statement@ == assembled(self.dialect, list_pieces()),
    {
        let b = Builder::new(self.dialect).fixed("SELECT * FROM user_groups ORDER BY id");
        proof {
            assert(b.pieces() =~= list_pieces());
        }
        b.build()
    }

    /// The group `id`, if there is one.
    pub fn find_user_group_by_id(&self, id: i64) -> (statement: Statement)
        ensures
            statement@ == assembled(self.dialect, find_pieces(id)),
    {
        let b = Builder::new(self.dialect).fixed("SELECT * FROM user_groups WHERE id = ").param(
            Bind::Int(id),
        );
        proof {
            assert(b.pieces() =~= find_pieces(id));
        }
        b.build()
    }

    /// A new group. On Postgres the statement gives back its id; on SQLite
    /// `last_inserted_id` asks for it.
    pub fn insert_user_group(&self, name: &str, remark: &str, allow_all_groups: bool) -> (statement:
        Statement)
        ensures
            statement@ == assembled(
                self.dialect,
                insert_pieces(self.dialect, name@, remark@, allow_all_groups),
            ),
    {
        let flag = match self.dialect {
            Dialect::Sqlite => Bind::Small(
                if allow_all_groups {
                    1
                } else {
                    0
                },
            ),
            Dialect::Postgres => Bind::Flag(allow_all_groups),
        };
        let end = match self.dialect {
            Dialect::Sqlite => ")",
            Dialect::Postgres => ") RETURNING id",
        };
        let b = Builder::new(self.dialect).fixed(
            "INSERT INTO user_groups (name, remark, allow_all_groups) VALUES (",
        ).param(Bind::Text(name.to_owned())).fixed(", ").param(
            Bind::Text(remark.to_owned()),
        ).fixed(", ").param(flag).fixed(end);
        proof {
            assert(b.pieces() =~= insert_pieces(self.dialect, name@, remark@, allow_all_groups));
        }
        b.build()
    }

    /// The id of the group that was inserted last, where the insertion does not give it back.
    pub fn last_inserted_id(&self) -> (statement: Option<Statement>)
        ensures
            match self.dialect {
                Dialect::Sqlite => statement matches Some(s) && s@ == assembled(
                    self.dialect,
                    last_id_pieces(),
                ),
                Dialect::Postgres => statement is None,
            },
    {
        match self.dialect {
            Dialect::Sqlite => {
                let b = Builder::new(self.dialect).fixed("SELECT last_insert_rowid()");
                proof {
                    assert(b.pieces() =~= last_id_pieces());
                }
                Some(b.build())
            },
            Dialect::Postgres => None,
        }
    }

    /// The update of the group `id`, or nothing where there is nothing to set. A flag is bound
    /// as text.
    pub fn update_user_group(
        &self,
        id: i64,
        name: Option<&str>,
        remark: Option<&str>,
        allow_all_groups: Option<bool>,
    ) -> (statement: Option<Statement>)
        ensures
            statement is None <==> name is None && remark is None && allow_all_groups is None,
            statement matches Some(s) ==> s@ == assembled(
                self.dialect,
                update_pieces(
                    id,
                    plain_assignments(
                        self.dialect,
                        option_text(name),
                        option_text(remark),
                        allow_all_groups,
                    ),
                ),
            ),
    {
        let flag = match allow_all_groups {
            Some(flag) => Some(Bind::Text(flag_string(self.dialect, flag))),
            None => None,
        };
        let sets: Vec<Assignment> = assigned(name, remark, flag);
        assert(assignment_views(sets@).len() == sets@.len());
        if sets.len() == 0 {
            return None;
        }
        Some(self.update(id, &sets))
    }

    /// The update of the group `id` with its flag, as the update with a pause makes it.
    pub(crate) fn full_update(
        &self,
        id: i64,
        name: Option<&str>,
        remark: Option<&str>,
        allow_all_groups: bool,
    ) -> (statement: Statement)
        ensures
            statement@ == assembled(
                self.dialect,
                update_pieces(
                    id,
                    full_assignments(
                        self.dialect,
                        option_text(name),
                        option_text(remark),
                        allow_all_groups,
                    ),
                ),
            ),
    {
        let flag = set_flag(self.dialect, allow_all_groups);
        self.update(id, &assigned(name, remark, Some(flag)))
    }

    /// The update of the group `id` by the assignments.
    fn update(&self, id: i64, sets: &Vec<Assignment>) -> (statement: Statement)
        ensures
            statement@ == assembled(self.dialect, update_pieces(id, assignment_views(sets@))),
    {
        let ghost views = assignment_views(sets@);
        let mut b = Builder::new(self.dialect).fixed("UPDATE user_groups SET ");
        let ghost start = b.pieces();
        let mut i: usize = 0;
        while i < sets.len()
            invariant
                i <= sets@.len(),
                views == assignment_views(sets@),
                b.wf(),
                b.dialect() == self.dialect,
                b.pieces() == start + set_pieces(views.take(i as int)),
            decreases sets@.len() - i,
        {
            if i > 0 {
                b = b.fixed(", ");
            }
            b = b.fixed(sets[i].column).fixed(" = ").param(copy_of(&sets[i].value));
            proof {
                let shorter = views.take(i as int);
                let longer = views.take(i + 1);
                assert(longer.drop_last() =~= shorter);
                assert(longer.last() == sets@[i as int]@);
                assert(b.pieces() =~= start + set_pieces(longer));
            }
            i += 1;
        }
        proof {
            assert(views.take(i as int) =~= views);
            assert(start =~= seq![Piece::Fixed("UPDATE user_groups SET "@)]);
        }
        b.fixed(" WHERE id = ").param(Bind::Int(id)).build()
    }

    /// The deletion of the group `id`.
    pub fn delete_user_group(&self, id: i64) -> (statement: Statement)
        ensures
            statement@ == assembled(self.dialect, delete_pieces(id)),
    {
        let b = Builder::new(self.dialect).fixed("DELETE FROM user_groups WHERE id = ").param(
            Bind::Int(id),
        );
        proof {
            assert(b.pieces() =~= delete_pieces(id));
        }
        b.build()
    }

    /// The number of users in the group who are no administrators.
    pub fn count_users_in_group(&self, group_id: i64) -> (statement: Statement)
        ensures
            statement@ == assembled(self.dialect, count_pieces(self.dialect, group_id)),
    {
        let b = Builder::new(self.dialect).fixed("SELECT COUNT(*)").fixed(
            " FROM users WHERE group_id = ",
        ).param(Bind::Int(group_id)).fixed(" AND admin = ").fixed(no_text(self.dialect));
        proof {
            assert(b.pieces() =~= count_pieces(self.dialect, group_id));
        }
        b.build()
    }

    /// The device groups that the user group is linked to, by id.
    pub fn list_user_group_device_groups(&self, user_group_id: i64) -> (statement: Statement)
        ensures
            statement@ == assembled(self.dialect, links_pieces(user_group_id)),
    {
        let b = Builder::new(self.dialect).fixed(
            "SELECT device_group_id FROM user_group_device_groups WHERE user_group_id = ",
        ).param(Bind::Int(user_group_id)).fixed(" ORDER BY device_group_id");
        proof {
            assert(b.pieces() =~= links_pieces(user_group_id));
        }
        b.build()
    }

    /// The removal of all links of the user group.
    pub(crate) fn unlink(&self, user_group_id: i64) -> (statement: Statement)
        ensures
            statement@ == assembled(self.dialect, unlink_pieces(user_group_id)),
    {
        let b = Builder::new(self.dialect).fixed(
            "DELETE FROM user_group_device_groups WHERE user_group_id = ",
        ).param(Bind::Int(user_group_id));
        proof {
            assert(b.pieces() =~= unlink_pieces(user_group_id));
        }
        b.build()
    }

    /// A new link of the user group to a device group.
    pub(crate) fn link(&self, user_group_id: i64, device_group_id: i64) -> (statement: Statement)
        ensures
            statement@ == assembled(self.dialect, link_pieces(user_group_id, device_group_id)),
    {
        let b = Builder::new(self.dialect).fixed(
            "INSERT INTO user_group_device_groups (user_group_id, device_group_id) VALUES (",
        ).param(Bind::Int(user_group_id)).fixed(", ").param(Bind::Int(device_group_id)).fixed(")");
        proof {
            assert(b.pieces() =~= link_pieces(user_group_id, device_group_id));
        }
        b.build()
    }

    /// Whether the user is in a group, as a count.
    pub(crate) fn has_group(&self, user_id: i64) -> (statement: Statement)
        ensures
            statement@ == assembled(self.dialect, has_group_pieces(user_id)),
    {
        let b = Builder::new(self.dialect).fixed("SELECT COUNT(*) FROM users WHERE id = ").param(
            Bind::Int(user_id),
        ).fixed(" AND group_id IS NOT NULL");
        proof {
            assert(b.pieces() =~= has_group_pieces(user_id));
        }
        b.build()
    }

    /// All inbound device groups, by id.
    pub(crate) fn all_inbound(&self) -> (statement: Statement)
        ensures
            statement@ == assembled(self.dialect, all_inbound_pieces()),
    {
        let b = Builder::new(self.dialect).fixed(
            "SELECT id FROM device_groups WHERE group_type = 'in' ORDER BY id",
        );
        proof {
            assert(b.pieces() =~= all_inbound_pieces());
        }
        b.build()
    }

    /// The inbound device groups that the user's group is linked to, by id.
    pub(crate) fn linked(&self, user_id: i64) -> (statement: Statement)
        ensures
            statement@ == assembled(self.dialect, linked_pieces(user_id)),
    {
        let b = Builder::new(self.dialect).fixed(
            "SELECT dg.id FROM device_groups dg JOIN user_group_device_groups ugdg ON ugdg.device_group_id = dg.id JOIN users u ON u.group_id = ugdg.user_group_id WHERE u.id = ",
        ).param(Bind::Int(user_id)).fixed(" AND dg.group_type = 'in' ORDER BY dg.id");
        proof {
            assert(b.pieces() =~= linked_pieces(user_id));
        }
        b.build()
    }

    /// The inbound device groups that belong to the user.
    pub(crate) fn own(&self, user_id: i64) -> (statement: Statement)
        ensures
            statement@ == assembled(self.dialect, own_pieces(user_id)),
    {
        let b = Builder::new(self.dialect).fixed("SELECT id FROM device_groups WHERE uid = ").param(
            Bind::Int(user_id),
        ).fixed(" AND group_type = 'in'");
        proof {
            assert(b.pieces() =~= own_pieces(user_id));
        }
        b.build()
    }

    /// The question whether the user's group allows all device groups.
    fn flag_question(&self, gap: &str, user_id: i64) -> (statement: Statement)
        ensures
            statement@ == assembled(self.dialect, flag_question_pieces(gap@, user_id)),
    {
        let b = Builder::new(self.dialect).fixed("SELECT ug.allow_all_groups").fixed(gap).fixed(
            "FROM user_groups ug",
        ).fixed(gap).fixed("JOIN users u ON u.group_id = ug.id").fixed(gap).fixed(
            "WHERE u.id = ",
        ).param(Bind::Int(user_id));
        proof {
            assert(b.pieces() =~= flag_question_pieces(gap@, user_id));
        }
        b.build()
    }

    /// Whether the user's group allows all device groups: one row where the user is in a
    /// group, to be read by `allows_all`.
    pub fn user_group_allows_all(&self, user_id: i64) -> (statement: Statement)
        ensures
            statement@ == assembled(self.dialect, allows_all_pieces(user_id)),
    {
        self.flag_question("\n             ", user_id)
    }

    /// The pause of the active rules of a user outside the allowed device groups; where none
    /// is allowed, of all of them.
    pub fn pause_rules_outside_groups(&self, user_id: i64, allowed_group_ids: &[i64]) -> (statement:
        Statement)
        ensures
            statement@ == assembled(
                self.dialect,
                pause_pieces(self.dialect, user_id, allowed_group_ids@),
            ),
    {
        let mut b = Builder::new(self.dialect).fixed("UPDATE forward_rules SET paused = ").fixed(
            yes_text(self.dialect),
        ).fixed(" WHERE uid = ").param(Bind::Int(user_id)).fixed(" AND paused = ").fixed(
            no_text(self.dialect),
        );
        proof {
            assert(b.pieces() =~= pause_all_pieces(self.dialect, user_id));
        }
        if allowed_group_ids.len() == 0 {
            return b.build();
        }
        b = b.fixed(" AND device_group_in NOT IN (");
        let ghost start = b.pieces();
        let mut i: usize = 0;
        while i < allowed_group_ids.len()
            invariant
                i <= allowed_group_ids@.len(),
                b.wf(),
                b.dialect() == self.dialect,
                b.pieces() == start + id_list_pieces(allowed_group_ids@.take(i as int)),
            decreases allowed_group_ids@.len() - i,
        {
            if i > 0 {
                b = b.fixed(", ");
            }
            b = b.param(Bind::Int(allowed_group_ids[i]));
            proof {
                let longer = allowed_group_ids@.take(i + 1);
                assert(longer.drop_last() =~= allowed_group_ids@.take(i as int));
                assert(b.pieces() =~= start + id_list_pieces(longer));
            }
            i += 1;
        }
        proof {
            assert(allowed_group_ids@.take(i as int) =~= allowed_group_ids@);
        }
        b.fixed(")").build()
    }

    /// The users in a group who are no administrators, in any order.
    pub(crate) fn members(&self, group_id: i64) -> (statement: Statement)
        ensures
            statement@ == assembled(self.dialect, members_pieces(self.dialect, group_id)),
    {
        let b = Builder::new(self.dialect).fixed("SELECT id").fixed(
            " FROM users WHERE group_id = ",
        ).param(Bind::Int(group_id)).fixed(" AND admin = ").fixed(no_text(self.dialect));
        proof {
            assert(b.pieces() =~= members_pieces(self.dialect, group_id));
        }
        b.build()
    }

    /// The users in a group who are no administrators, by id.
    pub fn list_user_ids_in_group(&self, user_group_id: i64) -> (statement: Statement)
        ensures
            statement@ == assembled(self.dialect, member_list_pieces(self.dialect, user_group_id)),
    {
        let b = Builder::new(self.dialect).fixed("SELECT id").fixed(
            " FROM users WHERE group_id = ",
        ).param(Bind::Int(user_group_id)).fixed(" AND admin = ").fixed(
            no_text(self.dialect),
        ).fixed(" ORDER BY id");
        proof {
            assert(b.pieces() =~= member_list_pieces(self.dialect, user_group_id));
        }
        b.build()
    }

    /// Whether the user is in a group that does not allow all device groups: one row where
    /// the user is in a group, to be read by `restricted`.
    pub fn is_user_restricted(&self, user_id: i64) -> (statement: Statement)
        ensures
            statement@ == assembled(self.dialect, restricted_pieces(user_id)),
    {
        self.flag_question(" ", user_id)
    }

    /// The group `id` after a change.
    pub(crate) fn read_back(&self, id: i64) -> (statement: Statement)
        ensures
            statement@ == assembled(self.dialect, read_back_pieces(id)),
    {
        let b = Builder::new(self.dialect).fixed(
            "SELECT id, name, COALESCE(remark, ''), allow_all_groups, created_at FROM user_groups WHERE id = ",
        ).param(Bind::Int(id));
        proof {
            assert(b.pieces() =~= read_back_pieces(id));
        }
        b.build()
    }
}

/// Reads the row of `user_group_allows_all`: a user without a group is not allowed all.
pub fn allows_all(row: Option<bool>) -> (all: bool)
    ensures
        all == (row == Some(true)),
{
    match row {
        Some(flag) => flag,
        None => false,
    }
}

/// Reads the row of `is_user_restricted`: a user is restricted who has a group that does not
/// allow all.
pub fn restricted(row: Option<bool>) -> (is_restricted: bool)
    ensures
        is_restricted == (row == Some(false)),
{
    match row {
        Some(flag) => !flag,
        None => false,
    }
}

} // verus!
