//! The texts of all statements, word for word, with the values that they bind.
use vstd::prelude::*;

use crate::sql::assembled;
use crate::sql::extended;
use crate::sql::placeholder;
use crate::sql::BindView;
use crate::sql::Dialect;
use crate::sql::Piece;
use crate::sql::StatementView;
use crate::statement_laws::law_pause_binds_the_user_and_the_groups;
use crate::text::decimal;
use crate::user_groups::all_inbound_pieces;
use crate::user_groups::allows_all_pieces;
use crate::user_groups::assignments;
use crate::user_groups::count_pieces;
use crate::user_groups::delete_pieces;
use crate::user_groups::find_pieces;
use crate::user_groups::full_assignments;
use crate::user_groups::has_group_pieces;
use crate::user_groups::id_list_pieces;
use crate::user_groups::insert_pieces;
use crate::user_groups::last_id_pieces;
use crate::user_groups::link_pieces;
use crate::user_groups::linked_pieces;
use crate::user_groups::links_pieces;
use crate::user_groups::list_pieces;
use crate::user_groups::member_list_pieces;
use crate::user_groups::members_pieces;
use crate::user_groups::own_pieces;
use crate::user_groups::pause_all_pieces;
use crate::user_groups::pause_pieces;
use crate::user_groups::plain_assignments;
use crate::user_groups::read_back_pieces;
use crate::user_groups::restricted_pieces;
use crate::user_groups::set_pieces;
use crate::user_groups::unlink_pieces;
use crate::user_groups::update_pieces;
use crate::user_groups::AssignmentView;

verus! {

proof fn lemma_next_piece(dialect: Dialect, pieces: Seq<Piece>, k: int)
    requires
        0 <= k < pieces.len(),
    ensures
        assembled(dialect, pieces.take(k + 1)) == extended(
            dialect,
            assembled(dialect, pieces.take(k)),
            pieces[k],
        ),
{
    assert(pieces.take(k + 1).drop_last() =~= pieces.take(k));
}

proof fn lemma_one_more(dialect: Dialect, pieces: Seq<Piece>, piece: Piece)
    ensures
        assembled(dialect, pieces.push(piece)) == extended(
            dialect,
            assembled(dialect, pieces),
            piece,
        ),
{
    assert(pieces.push(piece).drop_last() =~= pieces);
}

proof fn lemma_dollars()
    ensures
        "$"@ + decimal(1) == "$1"@,
        "$"@ + decimal(2) == "$2"@,
        "$"@ + decimal(3) == "$3"@,
        "$"@ + decimal(4) == "$4"@,
{
    reveal_strlit("$");
    reveal_strlit("$1");
    reveal_strlit("$2");
    reveal_strlit("$3");
    reveal_strlit("$4");
    assert("$"@ + decimal(1) =~= "$1"@);
    assert("$"@ + decimal(2) =~= "$2"@);
    assert("$"@ + decimal(3) =~= "$3"@);
    assert("$"@ + decimal(4) =~= "$4"@);
}

proof fn lemma_one_id(id: i64)
    ensures
        id_list_pieces(seq![id]) == seq![Piece::Param(BindView::Int(id))],
{
    assert(id_list_pieces(seq![id]) =~= seq![Piece::Param(BindView::Int(id))]);
}

/// One more allowed device group adds one more placeholder to the list of a pause, and nothing
/// else to its text: with the texts for none and for one, this gives the text for any number.
pub proof fn law_pause_text_grows(
    dialect: Dialect,
    user_id: i64,
    allowed: Seq<i64>,
    device_group: i64,
)
    requires
        allowed.len() > 0,
    ensures
        ({
            let fewer = assembled(dialect, pause_pieces(dialect, user_id, allowed));
            let more = assembled(
                dialect,
                pause_pieces(dialect, user_id, allowed.push(device_group)),
            );
            &&& fewer.sql.last() == ')'
            &&& dialect == Dialect::Sqlite ==> more.sql == fewer.sql.drop_last() + ", "@ + "?"@
                + ")"@
            &&& dialect == Dialect::Postgres ==> more.sql == fewer.sql.drop_last() + ", "@ + "$"@
                + decimal((allowed.len() + 2) as nat) + ")"@
            &&& more.binds == fewer.binds.push(BindView::Int(device_group))
        }),
{
    let longer = allowed.push(device_group);
    let open = pause_all_pieces(dialect, user_id).push(
        Piece::Fixed(" AND device_group_in NOT IN ("@),
    );
    let q = open + id_list_pieces(allowed);
    let comma = q.push(Piece::Fixed(", "@));
    let param = comma.push(Piece::Param(BindView::Int(device_group)));
    let end = Piece::Fixed(")"@);
    assert(longer.drop_last() =~= allowed);
    assert(id_list_pieces(longer) =~= id_list_pieces(allowed).push(Piece::Fixed(", "@)).push(
        Piece::Param(BindView::Int(device_group)),
    ));
    assert(pause_pieces(dialect, user_id, allowed) =~= q.push(end));
    assert(pause_pieces(dialect, user_id, longer) =~= param.push(end));
    lemma_one_more(dialect, q, end);
    lemma_one_more(dialect, q, Piece::Fixed(", "@));
    lemma_one_more(dialect, comma, Piece::Param(BindView::Int(device_group)));
    lemma_one_more(dialect, param, end);
    law_pause_binds_the_user_and_the_groups(dialect, user_id, allowed);
    let before = assembled(dialect, q);
    let fewer = assembled(dialect, q.push(end));
    reveal_strlit(")");
    assert(fewer.sql == before.sql + ")"@);
    assert(fewer.sql.drop_last() =~= before.sql);
    assert(before.binds.len() == allowed.len() + 1);
    let more = assembled(dialect, param.push(end));
    assert(more.sql == before.sql + ", "@ + placeholder(dialect, (allowed.len() + 2) as nat) + ")"@);
    if dialect == Dialect::Postgres {
        assert(more.sql =~= fewer.sql.drop_last() + ", "@ + "$"@ + decimal(
            (allowed.len() + 2) as nat,
        ) + ")"@);
    }
}

/// The text of a pause depends on how many device groups are allowed, not on which, nor on the
/// user.
pub proof fn law_pause_text_by_number(
    dialect: Dialect,
    user1: i64,
    allowed1: Seq<i64>,
    user2: i64,
    allowed2: Seq<i64>,
)
    requires
        allowed1.len() == allowed2.len(),
    ensures
        assembled(dialect, pause_pieces(dialect, user1, allowed1)).sql == assembled(
            dialect,
            pause_pieces(dialect, user2, allowed2),
        ).sql,
    decreases allowed1.len(),
{
    let n = allowed1.len() as int;
    if n == 0 {
        assert(allowed1 =~= seq![]);
        assert(allowed2 =~= seq![]);
        law_pause_all_text(user1);
        law_pause_all_text(user2);
    } else if n == 1 {
        assert(allowed1 =~= seq![allowed1[0]]);
        assert(allowed2 =~= seq![allowed2[0]]);
        law_pause_one_text(user1, allowed1[0]);
        law_pause_one_text(user2, allowed2[0]);
    } else {
        law_pause_text_by_number(dialect, user1, allowed1.drop_last(), user2, allowed2.drop_last());
        law_pause_text_grows(dialect, user1, allowed1.drop_last(), allowed1.last());
        law_pause_text_grows(dialect, user2, allowed2.drop_last(), allowed2.last());
        assert(allowed1.drop_last().push(allowed1.last()) =~= allowed1);
        assert(allowed2.drop_last().push(allowed2.last()) =~= allowed2);
    }
}

/// The list of groups reads them all, by id.
pub proof fn law_list_text()
    ensures
        assembled(Dialect::Sqlite, list_pieces()) == (StatementView {
            sql: "SELECT * FROM user_groups ORDER BY id"@,
            binds: Seq::empty(),
        }),
        assembled(Dialect::Postgres, list_pieces()) == (StatementView {
            sql: "SELECT * FROM user_groups ORDER BY id"@,
            binds: Seq::empty(),
        }),
{
    lemma_dollars();
    let p = list_pieces();
    lemma_next_piece(Dialect::Sqlite, p, 0);
    assert(p.take(0) =~= seq![]);
    assert(p.take(1) =~= p);
    assert(assembled(Dialect::Sqlite, p) =~= (StatementView {
            sql: "SELECT * FROM user_groups ORDER BY id"@,
            binds: Seq::empty(),
        }));
    let q = list_pieces();
    lemma_next_piece(Dialect::Postgres, q, 0);
    assert(q.take(0) =~= seq![]);
    assert(q.take(1) =~= q);
    assert(assembled(Dialect::Postgres, q) =~= (StatementView {
            sql: "SELECT * FROM user_groups ORDER BY id"@,
            binds: Seq::empty(),
        }));
}

/// The lookup of a group reads the row with the bound id.
pub proof fn law_find_text(
    id: i64,
)
    ensures
        assembled(Dialect::Sqlite, find_pieces(id)) == (StatementView {
            sql: "SELECT * FROM user_groups WHERE id = "@ + "?"@,
            binds: seq![BindView::Int(id)],
        }),
        assembled(Dialect::Postgres, find_pieces(id)) == (StatementView {
            sql: "SELECT * FROM user_groups WHERE id = "@ + "$1"@,
            binds: seq![BindView::Int(id)],
        }),
{
    lemma_dollars();
    let p = find_pieces(id);
    lemma_next_piece(Dialect::Sqlite, p, 0);
    lemma_next_piece(Dialect::Sqlite, p, 1);
    assert(p.take(0) =~= seq![]);
    assert(p.take(2) =~= p);
    assert(assembled(Dialect::Sqlite, p) =~= (StatementView {
            sql: "SELECT * FROM user_groups WHERE id = "@ + "?"@,
            binds: seq![BindView::Int(id)],
        }));
    let q = find_pieces(id);
    lemma_next_piece(Dialect::Postgres, q, 0);
    lemma_next_piece(Dialect::Postgres, q, 1);
    assert(q.take(0) =~= seq![]);
    assert(q.take(2) =~= q);
    assert(assembled(Dialect::Postgres, q) =~= (StatementView {
            sql: "SELECT * FROM user_groups WHERE id = "@ + "$1"@,
            binds: seq![BindView::Int(id)],
        }));
}

/// An insertion binds the name, the remark and the flag to these columns, in this order,
/// whatever they are.
pub proof fn law_insertion_text(
    name: Seq<char>,
    remark: Seq<char>,
    flag: bool,
)
    ensures
        assembled(Dialect::Sqlite, insert_pieces(Dialect::Sqlite, name, remark, flag)) == (StatementView {
            sql: "INSERT INTO user_groups (name, remark, allow_all_groups) VALUES ("@
                + "?"@
                + ", "@
                + "?"@
                + ", "@
                + "?"@
                + ")"@,
            binds: seq![
                BindView::Text(name),
                BindView::Text(remark),
                BindView::Small(
                    if flag {
                        1
                    } else {
                        0
                    },
                ),
            ],
        }),
        assembled(Dialect::Postgres, insert_pieces(Dialect::Postgres, name, remark, flag)) == (StatementView {
            sql: "INSERT INTO user_groups (name, remark, allow_all_groups) VALUES ("@
                + "$1"@
                + ", "@
                + "$2"@
                + ", "@
                + "$3"@
                + ") RETURNING id"@,
            binds: seq![BindView::Text(name), BindView::Text(remark), BindView::Flag(flag)],
        }),
{
    lemma_dollars();
    let p = insert_pieces(Dialect::Sqlite, name, remark, flag);
    lemma_next_piece(Dialect::Sqlite, p, 0);
    lemma_next_piece(Dialect::Sqlite, p, 1);
    lemma_next_piece(Dialect::Sqlite, p, 2);
    lemma_next_piece(Dialect::Sqlite, p, 3);
    lemma_next_piece(Dialect::Sqlite, p, 4);
    lemma_next_piece(Dialect::Sqlite, p, 5);
    lemma_next_piece(Dialect::Sqlite, p, 6);
    assert(p.take(0) =~= seq![]);
    assert(p.take(7) =~= p);
    assert(assembled(Dialect::Sqlite, p) =~= (StatementView {
            sql: "INSERT INTO user_groups (name, remark, allow_all_groups) VALUES ("@
                + "?"@
                + ", "@
                + "?"@
                + ", "@
                + "?"@
                + ")"@,
            binds: seq![
                BindView::Text(name),
                BindView::Text(remark),
                BindView::Small(
                    if flag {
                        1
                    } else {
                        0
                    },
                ),
            ],
        }));
    let q = insert_pieces(Dialect::Postgres, name, remark, flag);
    lemma_next_piece(Dialect::Postgres, q, 0);
    lemma_next_piece(Dialect::Postgres, q, 1);
    lemma_next_piece(Dialect::Postgres, q, 2);
    lemma_next_piece(Dialect::Postgres, q, 3);
    lemma_next_piece(Dialect::Postgres, q, 4);
    lemma_next_piece(Dialect::Postgres, q, 5);
    lemma_next_piece(Dialect::Postgres, q, 6);
    assert(q.take(0) =~= seq![]);
    assert(q.take(7) =~= q);
    assert(assembled(Dialect::Postgres, q) =~= (StatementView {
            sql: "INSERT INTO user_groups (name, remark, allow_all_groups) VALUES ("@
                + "$1"@
                + ", "@
                + "$2"@
                + ", "@
                + "$3"@
                + ") RETURNING id"@,
            binds: seq![BindView::Text(name), BindView::Text(remark), BindView::Flag(flag)],
        }));
}

/// The id of the last insertion is asked of the connection.
pub proof fn law_last_id_text()
    ensures
        assembled(Dialect::Sqlite, last_id_pieces()) == (StatementView {
            sql: "SELECT last_insert_rowid()"@,
            binds: Seq::empty(),
        }),
{
    lemma_dollars();
    let p = last_id_pieces();
    lemma_next_piece(Dialect::Sqlite, p, 0);
    assert(p.take(0) =~= seq![]);
    assert(p.take(1) =~= p);
    assert(assembled(Dialect::Sqlite, p) =~= (StatementView {
            sql: "SELECT last_insert_rowid()"@,
            binds: Seq::empty(),
        }));
}

/// A deletion removes the row with the bound id.
pub proof fn law_deletion_text(
    id: i64,
)
    ensures
        assembled(Dialect::Sqlite, delete_pieces(id)) == (StatementView {
            sql: "DELETE FROM user_groups WHERE id = "@ + "?"@,
            binds: seq![BindView::Int(id)],
        }),
        assembled(Dialect::Postgres, delete_pieces(id)) == (StatementView {
            sql: "DELETE FROM user_groups WHERE id = "@ + "$1"@,
            binds: seq![BindView::Int(id)],
        }),
{
    lemma_dollars();
    let p = delete_pieces(id);
    lemma_next_piece(Dialect::Sqlite, p, 0);
    lemma_next_piece(Dialect::Sqlite, p, 1);
    assert(p.take(0) =~= seq![]);
    assert(p.take(2) =~= p);
    assert(assembled(Dialect::Sqlite, p) =~= (StatementView {
            sql: "DELETE FROM user_groups WHERE id = "@ + "?"@,
            binds: seq![BindView::Int(id)],
        }));
    let q = delete_pieces(id);
    lemma_next_piece(Dialect::Postgres, q, 0);
    lemma_next_piece(Dialect::Postgres, q, 1);
    assert(q.take(0) =~= seq![]);
    assert(q.take(2) =~= q);
    assert(assembled(Dialect::Postgres, q) =~= (StatementView {
            sql: "DELETE FROM user_groups WHERE id = "@ + "$1"@,
            binds: seq![BindView::Int(id)],
        }));
}

/// The count of members counts the users of the bound group who are no administrators.
pub proof fn law_count_text(
    group_id: i64,
)
    ensures
        assembled(Dialect::Sqlite, count_pieces(Dialect::Sqlite, group_id)) == (StatementView {
            sql: "SELECT COUNT(*)"@
                + " FROM users WHERE group_id = "@
                + "?"@
                + " AND admin = "@
                + "0"@,
            binds: seq![BindView::Int(group_id)],
        }),
        assembled(Dialect::Postgres, count_pieces(Dialect::Postgres, group_id)) == (StatementView {
            sql: "SELECT COUNT(*)"@
                + " FROM users WHERE group_id = "@
                + "$1"@
                + " AND admin = "@
                + "FALSE"@,
            binds: seq![BindView::Int(group_id)],
        }),
{
    lemma_dollars();
    let p = count_pieces(Dialect::Sqlite, group_id);
    lemma_next_piece(Dialect::Sqlite, p, 0);
    lemma_next_piece(Dialect::Sqlite, p, 1);
    lemma_next_piece(Dialect::Sqlite, p, 2);
    lemma_next_piece(Dialect::Sqlite, p, 3);
    lemma_next_piece(Dialect::Sqlite, p, 4);
    assert(p.take(0) =~= seq![]);
    assert(p.take(5) =~= p);
    assert(assembled(Dialect::Sqlite, p) =~= (StatementView {
            sql: "SELECT COUNT(*)"@
                + " FROM users WHERE group_id = "@
                + "?"@
                + " AND admin = "@
                + "0"@,
            binds: seq![BindView::Int(group_id)],
        }));
    let q = count_pieces(Dialect::Postgres, group_id);
    lemma_next_piece(Dialect::Postgres, q, 0);
    lemma_next_piece(Dialect::Postgres, q, 1);
    lemma_next_piece(Dialect::Postgres, q, 2);
    lemma_next_piece(Dialect::Postgres, q, 3);
    lemma_next_piece(Dialect::Postgres, q, 4);
    assert(q.take(0) =~= seq![]);
    assert(q.take(5) =~= q);
    assert(assembled(Dialect::Postgres, q) =~= (StatementView {
            sql: "SELECT COUNT(*)"@
                + " FROM users WHERE group_id = "@
                + "$1"@
                + " AND admin = "@
                + "FALSE"@,
            binds: seq![BindView::Int(group_id)],
        }));
}

/// The members of a group are the users of the bound group who are no administrators.
pub proof fn law_members_text(
    group_id: i64,
)
    ensures
        assembled(Dialect::Sqlite, members_pieces(Dialect::Sqlite, group_id)) == (StatementView {
            sql: "SELECT id"@
                + " FROM users WHERE group_id = "@
                + "?"@
                + " AND admin = "@
                + "0"@,
            binds: seq![BindView::Int(group_id)],
        }),
        assembled(Dialect::Postgres, members_pieces(Dialect::Postgres, group_id)) == (StatementView {
            sql: "SELECT id"@
                + " FROM users WHERE group_id = "@
                + "$1"@
                + " AND admin = "@
                + "FALSE"@,
            binds: seq![BindView::Int(group_id)],
        }),
{
    lemma_dollars();
    let p = members_pieces(Dialect::Sqlite, group_id);
    lemma_next_piece(Dialect::Sqlite, p, 0);
    lemma_next_piece(Dialect::Sqlite, p, 1);
    lemma_next_piece(Dialect::Sqlite, p, 2);
    lemma_next_piece(Dialect::Sqlite, p, 3);
    lemma_next_piece(Dialect::Sqlite, p, 4);
    assert(p.take(0) =~= seq![]);
    assert(p.take(5) =~= p);
    assert(assembled(Dialect::Sqlite, p) =~= (StatementView {
            sql: "SELECT id"@
                + " FROM users WHERE group_id = "@
                + "?"@
                + " AND admin = "@
                + "0"@,
            binds: seq![BindView::Int(group_id)],
        }));
    let q = members_pieces(Dialect::Postgres, group_id);
    lemma_next_piece(Dialect::Postgres, q, 0);
    lemma_next_piece(Dialect::Postgres, q, 1);
    lemma_next_piece(Dialect::Postgres, q, 2);
    lemma_next_piece(Dialect::Postgres, q, 3);
    lemma_next_piece(Dialect::Postgres, q, 4);
    assert(q.take(0) =~= seq![]);
    assert(q.take(5) =~= q);
    assert(assembled(Dialect::Postgres, q) =~= (StatementView {
            sql: "SELECT id"@
                + " FROM users WHERE group_id = "@
                + "$1"@
                + " AND admin = "@
                + "FALSE"@,
            binds: seq![BindView::Int(group_id)],
        }));
}

/// The list of members is in the order of their ids.
pub proof fn law_member_list_text(
    group_id: i64,
)
    ensures
        assembled(Dialect::Sqlite, member_list_pieces(Dialect::Sqlite, group_id)) == (StatementView {
            sql: "SELECT id"@
                + " FROM users WHERE group_id = "@
                + "?"@
                + " AND admin = "@
                + "0"@
                + " ORDER BY id"@,
            binds: seq![BindView::Int(group_id)],
        }),
        assembled(Dialect::Postgres, member_list_pieces(Dialect::Postgres, group_id)) == (StatementView {
            sql: "SELECT id"@
                + " FROM users WHERE group_id = "@
                + "$1"@
                + " AND admin = "@
                + "FALSE"@
                + " ORDER BY id"@,
            binds: seq![BindView::Int(group_id)],
        }),
{
    lemma_dollars();
    let p = member_list_pieces(Dialect::Sqlite, group_id);
    lemma_next_piece(Dialect::Sqlite, p, 0);
    lemma_next_piece(Dialect::Sqlite, p, 1);
    lemma_next_piece(Dialect::Sqlite, p, 2);
    lemma_next_piece(Dialect::Sqlite, p, 3);
    lemma_next_piece(Dialect::Sqlite, p, 4);
    lemma_next_piece(Dialect::Sqlite, p, 5);
    assert(p.take(0) =~= seq![]);
    assert(p.take(6) =~= p);
    assert(assembled(Dialect::Sqlite, p) =~= (StatementView {
            sql: "SELECT id"@
                + " FROM users WHERE group_id = "@
                + "?"@
                + " AND admin = "@
                + "0"@
                + " ORDER BY id"@,
            binds: seq![BindView::Int(group_id)],
        }));
    let q = member_list_pieces(Dialect::Postgres, group_id);
    lemma_next_piece(Dialect::Postgres, q, 0);
    lemma_next_piece(Dialect::Postgres, q, 1);
    lemma_next_piece(Dialect::Postgres, q, 2);
    lemma_next_piece(Dialect::Postgres, q, 3);
    lemma_next_piece(Dialect::Postgres, q, 4);
    lemma_next_piece(Dialect::Postgres, q, 5);
    assert(q.take(0) =~= seq![]);
    assert(q.take(6) =~= q);
    assert(assembled(Dialect::Postgres, q) =~= (StatementView {
            sql: "SELECT id"@
                + " FROM users WHERE group_id = "@
                + "$1"@
                + " AND admin = "@
                + "FALSE"@
                + " ORDER BY id"@,
            binds: seq![BindView::Int(group_id)],
        }));
}

/// The list of links reads those of the bound user group, by device group.
pub proof fn law_links_text(
    user_group_id: i64,
)
    ensures
        assembled(Dialect::Sqlite, links_pieces(user_group_id)) == (StatementView {
            sql: "SELECT device_group_id FROM user_group_device_groups WHERE user_group_id = "@
                + "?"@
                + " ORDER BY device_group_id"@,
            binds: seq![BindView::Int(user_group_id)],
        }),
        assembled(Dialect::Postgres, links_pieces(user_group_id)) == (StatementView {
            sql: "SELECT device_group_id FROM user_group_device_groups WHERE user_group_id = "@
                + "$1"@
                + " ORDER BY device_group_id"@,
            binds: seq![BindView::Int(user_group_id)],
        }),
{
    lemma_dollars();
    let p = links_pieces(user_group_id);
    lemma_next_piece(Dialect::Sqlite, p, 0);
    lemma_next_piece(Dialect::Sqlite, p, 1);
    lemma_next_piece(Dialect::Sqlite, p, 2);
    assert(p.take(0) =~= seq![]);
    assert(p.take(3) =~= p);
    assert(assembled(Dialect::Sqlite, p) =~= (StatementView {
            sql: "SELECT device_group_id FROM user_group_device_groups WHERE user_group_id = "@
                + "?"@
                + " ORDER BY device_group_id"@,
            binds: seq![BindView::Int(user_group_id)],
        }));
    let q = links_pieces(user_group_id);
    lemma_next_piece(Dialect::Postgres, q, 0);
    lemma_next_piece(Dialect::Postgres, q, 1);
    lemma_next_piece(Dialect::Postgres, q, 2);
    assert(q.take(0) =~= seq![]);
    assert(q.take(3) =~= q);
    assert(assembled(Dialect::Postgres, q) =~= (StatementView {
            sql: "SELECT device_group_id FROM user_group_device_groups WHERE user_group_id = "@
                + "$1"@
                + " ORDER BY device_group_id"@,
            binds: seq![BindView::Int(user_group_id)],
        }));
}

/// The removal of links removes all of the bound user group.
pub proof fn law_unlink_text(
    user_group_id: i64,
)
    ensures
        assembled(Dialect::Sqlite, unlink_pieces(user_group_id)) == (StatementView {
            sql: "DELETE FROM user_group_device_groups WHERE user_group_id = "@ + "?"@,
            binds: seq![BindView::Int(user_group_id)],
        }),
        assembled(Dialect::Postgres, unlink_pieces(user_group_id)) == (StatementView {
            sql: "DELETE FROM user_group_device_groups WHERE user_group_id = "@ + "$1"@,
            binds: seq![BindView::Int(user_group_id)],
        }),
{
    lemma_dollars();
    let p = unlink_pieces(user_group_id);
    lemma_next_piece(Dialect::Sqlite, p, 0);
    lemma_next_piece(Dialect::Sqlite, p, 1);
    assert(p.take(0) =~= seq![]);
    assert(p.take(2) =~= p);
    assert(assembled(Dialect::Sqlite, p) =~= (StatementView {
            sql: "DELETE FROM user_group_device_groups WHERE user_group_id = "@ + "?"@,
            binds: seq![BindView::Int(user_group_id)],
        }));
    let q = unlink_pieces(user_group_id);
    lemma_next_piece(Dialect::Postgres, q, 0);
    lemma_next_piece(Dialect::Postgres, q, 1);
    assert(q.take(0) =~= seq![]);
    assert(q.take(2) =~= q);
    assert(assembled(Dialect::Postgres, q) =~= (StatementView {
            sql: "DELETE FROM user_group_device_groups WHERE user_group_id = "@ + "$1"@,
            binds: seq![BindView::Int(user_group_id)],
        }));
}

/// A new link binds the user group and then the device group to these columns.
pub proof fn law_link_text(
    user_group_id: i64,
    device_group_id: i64,
)
    ensures
        assembled(Dialect::Sqlite, link_pieces(user_group_id, device_group_id)) == (StatementView {
            sql: "INSERT INTO user_group_device_groups (user_group_id, device_group_id) VALUES ("@
                + "?"@
                + ", "@
                + "?"@
                + ")"@,
            binds: seq![BindView::Int(user_group_id), BindView::Int(device_group_id)],
        }),
        assembled(Dialect::Postgres, link_pieces(user_group_id, device_group_id)) == (StatementView {
            sql: "INSERT INTO user_group_device_groups (user_group_id, device_group_id) VALUES ("@
                + "$1"@
                + ", "@
                + "$2"@
                + ")"@,
            binds: seq![BindView::Int(user_group_id), BindView::Int(device_group_id)],
        }),
{
    lemma_dollars();
    let p = link_pieces(user_group_id, device_group_id);
    lemma_next_piece(Dialect::Sqlite, p, 0);
    lemma_next_piece(Dialect::Sqlite, p, 1);
    lemma_next_piece(Dialect::Sqlite, p, 2);
    lemma_next_piece(Dialect::Sqlite, p, 3);
    lemma_next_piece(Dialect::Sqlite, p, 4);
    assert(p.take(0) =~= seq![]);
    assert(p.take(5) =~= p);
    assert(assembled(Dialect::Sqlite, p) =~= (StatementView {
            sql: "INSERT INTO user_group_device_groups (user_group_id, device_group_id) VALUES ("@
                + "?"@
                + ", "@
                + "?"@
                + ")"@,
            binds: seq![BindView::Int(user_group_id), BindView::Int(device_group_id)],
        }));
    let q = link_pieces(user_group_id, device_group_id);
    lemma_next_piece(Dialect::Postgres, q, 0);
    lemma_next_piece(Dialect::Postgres, q, 1);
    lemma_next_piece(Dialect::Postgres, q, 2);
    lemma_next_piece(Dialect::Postgres, q, 3);
    lemma_next_piece(Dialect::Postgres, q, 4);
    assert(q.take(0) =~= seq![]);
    assert(q.take(5) =~= q);
    assert(assembled(Dialect::Postgres, q) =~= (StatementView {
            sql: "INSERT INTO user_group_device_groups (user_group_id, device_group_id) VALUES ("@
                + "$1"@
                + ", "@
                + "$2"@
                + ")"@,
            binds: seq![BindView::Int(user_group_id), BindView::Int(device_group_id)],
        }));
}

/// Whether a user has a group is asked as a count.
pub proof fn law_has_group_text(
    user_id: i64,
)
    ensures
        assembled(Dialect::Sqlite, has_group_pieces(user_id)) == (StatementView {
            sql: "SELECT COUNT(*) FROM users WHERE id = "@
                + "?"@
                + " AND group_id IS NOT NULL"@,
            binds: seq![BindView::Int(user_id)],
        }),
        assembled(Dialect::Postgres, has_group_pieces(user_id)) == (StatementView {
            sql: "SELECT COUNT(*) FROM users WHERE id = "@
                + "$1"@
                + " AND group_id IS NOT NULL"@,
            binds: seq![BindView::Int(user_id)],
        }),
{
    lemma_dollars();
    let p = has_group_pieces(user_id);
    lemma_next_piece(Dialect::Sqlite, p, 0);
    lemma_next_piece(Dialect::Sqlite, p, 1);
    lemma_next_piece(Dialect::Sqlite, p, 2);
    assert(p.take(0) =~= seq![]);
    assert(p.take(3) =~= p);
    assert(assembled(Dialect::Sqlite, p) =~= (StatementView {
            sql: "SELECT COUNT(*) FROM users WHERE id = "@
                + "?"@
                + " AND group_id IS NOT NULL"@,
            binds: seq![BindView::Int(user_id)],
        }));
    let q = has_group_pieces(user_id);
    lemma_next_piece(Dialect::Postgres, q, 0);
    lemma_next_piece(Dialect::Postgres, q, 1);
    lemma_next_piece(Dialect::Postgres, q, 2);
    assert(q.take(0) =~= seq![]);
    assert(q.take(3) =~= q);
    assert(assembled(Dialect::Postgres, q) =~= (StatementView {
            sql: "SELECT COUNT(*) FROM users WHERE id = "@
                + "$1"@
                + " AND group_id IS NOT NULL"@,
            binds: seq![BindView::Int(user_id)],
        }));
}

/// All inbound device groups are read by id.
pub proof fn law_all_inbound_text()
    ensures
        assembled(Dialect::Sqlite, all_inbound_pieces()) == (StatementView {
            sql: "SELECT id FROM device_groups WHERE group_type = 'in' ORDER BY id"@,
            binds: Seq::empty(),
        }),
        assembled(Dialect::Postgres, all_inbound_pieces()) == (StatementView {
            sql: "SELECT id FROM device_groups WHERE group_type = 'in' ORDER BY id"@,
            binds: Seq::empty(),
        }),
{
    lemma_dollars();
    let p = all_inbound_pieces();
    lemma_next_piece(Dialect::Sqlite, p, 0);
    assert(p.take(0) =~= seq![]);
    assert(p.take(1) =~= p);
    assert(assembled(Dialect::Sqlite, p) =~= (StatementView {
            sql: "SELECT id FROM device_groups WHERE group_type = 'in' ORDER BY id"@,
            binds: Seq::empty(),
        }));
    let q = all_inbound_pieces();
    lemma_next_piece(Dialect::Postgres, q, 0);
    assert(q.take(0) =~= seq![]);
    assert(q.take(1) =~= q);
    assert(assembled(Dialect::Postgres, q) =~= (StatementView {
            sql: "SELECT id FROM device_groups WHERE group_type = 'in' ORDER BY id"@,
            binds: Seq::empty(),
        }));
}

/// The linked device groups of a user are the inbound ones that the group of the bound user is
/// linked to, by id.
pub proof fn law_linked_text(
    user_id: i64,
)
    ensures
        assembled(Dialect::Sqlite, linked_pieces(user_id)) == (StatementView {
            sql: "SELECT dg.id FROM device_groups dg JOIN user_group_device_groups ugdg ON ugdg.device_group_id = dg.id JOIN users u ON u.group_id = ugdg.user_group_id WHERE u.id = "@
                + "?"@
                + " AND dg.group_type = 'in' ORDER BY dg.id"@,
            binds: seq![BindView::Int(user_id)],
        }),
        assembled(Dialect::Postgres, linked_pieces(user_id)) == (StatementView {
            sql: "SELECT dg.id FROM device_groups dg JOIN user_group_device_groups ugdg ON ugdg.device_group_id = dg.id JOIN users u ON u.group_id = ugdg.user_group_id WHERE u.id = "@
                + "$1"@
                + " AND dg.group_type = 'in' ORDER BY dg.id"@,
            binds: seq![BindView::Int(user_id)],
        }),
{
    lemma_dollars();
    let p = linked_pieces(user_id);
    lemma_next_piece(Dialect::Sqlite, p, 0);
    lemma_next_piece(Dialect::Sqlite, p, 1);
    lemma_next_piece(Dialect::Sqlite, p, 2);
    assert(p.take(0) =~= seq![]);
    assert(p.take(3) =~= p);
    assert(assembled(Dialect::Sqlite, p) =~= (StatementView {
            sql: "SELECT dg.id FROM device_groups dg JOIN user_group_device_groups ugdg ON ugdg.device_group_id = dg.id JOIN users u ON u.group_id = ugdg.user_group_id WHERE u.id = "@
                + "?"@
                + " AND dg.group_type = 'in' ORDER BY dg.id"@,
            binds: seq![BindView::Int(user_id)],
        }));
    let q = linked_pieces(user_id);
    lemma_next_piece(Dialect::Postgres, q, 0);
    lemma_next_piece(Dialect::Postgres, q, 1);
    lemma_next_piece(Dialect::Postgres, q, 2);
    assert(q.take(0) =~= seq![]);
    assert(q.take(3) =~= q);
    assert(assembled(Dialect::Postgres, q) =~= (StatementView {
            sql: "SELECT dg.id FROM device_groups dg JOIN user_group_device_groups ugdg ON ugdg.device_group_id = dg.id JOIN users u ON u.group_id = ugdg.user_group_id WHERE u.id = "@
                + "$1"@
                + " AND dg.group_type = 'in' ORDER BY dg.id"@,
            binds: seq![BindView::Int(user_id)],
        }));
}

/// The own device groups of a user are the inbound ones of the bound user.
pub proof fn law_own_text(
    user_id: i64,
)
    ensures
        assembled(Dialect::Sqlite, own_pieces(user_id)) == (StatementView {
            sql: "SELECT id FROM device_groups WHERE uid = "@
                + "?"@
                + " AND group_type = 'in'"@,
            binds: seq![BindView::Int(user_id)],
        }),
        assembled(Dialect::Postgres, own_pieces(user_id)) == (StatementView {
            sql: "SELECT id FROM device_groups WHERE uid = "@
                + "$1"@
                + " AND group_type = 'in'"@,
            binds: seq![BindView::Int(user_id)],
        }),
{
    lemma_dollars();
    let p = own_pieces(user_id);
    lemma_next_piece(Dialect::Sqlite, p, 0);
    lemma_next_piece(Dialect::Sqlite, p, 1);
    lemma_next_piece(Dialect::Sqlite, p, 2);
    assert(p.take(0) =~= seq![]);
    assert(p.take(3) =~= p);
    assert(assembled(Dialect::Sqlite, p) =~= (StatementView {
            sql: "SELECT id FROM device_groups WHERE uid = "@
                + "?"@
                + " AND group_type = 'in'"@,
            binds: seq![BindView::Int(user_id)],
        }));
    let q = own_pieces(user_id);
    lemma_next_piece(Dialect::Postgres, q, 0);
    lemma_next_piece(Dialect::Postgres, q, 1);
    lemma_next_piece(Dialect::Postgres, q, 2);
    assert(q.take(0) =~= seq![]);
    assert(q.take(3) =~= q);
    assert(assembled(Dialect::Postgres, q) =~= (StatementView {
            sql: "SELECT id FROM device_groups WHERE uid = "@
                + "$1"@
                + " AND group_type = 'in'"@,
            binds: seq![BindView::Int(user_id)],
        }));
}

/// The flag of the group of the bound user is read a clause to a line.
pub proof fn law_allows_all_text(
    user_id: i64,
)
    ensures
        assembled(Dialect::Sqlite, allows_all_pieces(user_id)) == (StatementView {
            sql: "SELECT ug.allow_all_groups"@
                + "\n             "@
                + "FROM user_groups ug"@
                + "\n             "@
                + "JOIN users u ON u.group_id = ug.id"@
                + "\n             "@
                + "WHERE u.id = "@
                + "?"@,
            binds: seq![BindView::Int(user_id)],
        }),
        assembled(Dialect::Postgres, allows_all_pieces(user_id)) == (StatementView {
            sql: "SELECT ug.allow_all_groups"@
                + "\n             "@
                + "FROM user_groups ug"@
                + "\n             "@
                + "JOIN users u ON u.group_id = ug.id"@
                + "\n             "@
                + "WHERE u.id = "@
                + "$1"@,
            binds: seq![BindView::Int(user_id)],
        }),
{
    lemma_dollars();
    let p = allows_all_pieces(user_id);
    lemma_next_piece(Dialect::Sqlite, p, 0);
    lemma_next_piece(Dialect::Sqlite, p, 1);
    lemma_next_piece(Dialect::Sqlite, p, 2);
    lemma_next_piece(Dialect::Sqlite, p, 3);
    lemma_next_piece(Dialect::Sqlite, p, 4);
    lemma_next_piece(Dialect::Sqlite, p, 5);
    lemma_next_piece(Dialect::Sqlite, p, 6);
    lemma_next_piece(Dialect::Sqlite, p, 7);
    assert(p.take(0) =~= seq![]);
    assert(p.take(8) =~= p);
    assert(assembled(Dialect::Sqlite, p) =~= (StatementView {
            sql: "SELECT ug.allow_all_groups"@
                + "\n             "@
                + "FROM user_groups ug"@
                + "\n             "@
                + "JOIN users u ON u.group_id = ug.id"@
                + "\n             "@
                + "WHERE u.id = "@
                + "?"@,
            binds: seq![BindView::Int(user_id)],
        }));
    let q = allows_all_pieces(user_id);
    lemma_next_piece(Dialect::Postgres, q, 0);
    lemma_next_piece(Dialect::Postgres, q, 1);
    lemma_next_piece(Dialect::Postgres, q, 2);
    lemma_next_piece(Dialect::Postgres, q, 3);
    lemma_next_piece(Dialect::Postgres, q, 4);
    lemma_next_piece(Dialect::Postgres, q, 5);
    lemma_next_piece(Dialect::Postgres, q, 6);
    lemma_next_piece(Dialect::Postgres, q, 7);
    assert(q.take(0) =~= seq![]);
    assert(q.take(8) =~= q);
    assert(assembled(Dialect::Postgres, q) =~= (StatementView {
            sql: "SELECT ug.allow_all_groups"@
                + "\n             "@
                + "FROM user_groups ug"@
                + "\n             "@
                + "JOIN users u ON u.group_id = ug.id"@
                + "\n             "@
                + "WHERE u.id = "@
                + "$1"@,
            binds: seq![BindView::Int(user_id)],
        }));
}

/// For a restriction the same flag is read on one line.
pub proof fn law_restriction_text(
    user_id: i64,
)
    ensures
        assembled(Dialect::Sqlite, restricted_pieces(user_id)) == (StatementView {
            sql: "SELECT ug.allow_all_groups"@
                + " "@
                + "FROM user_groups ug"@
                + " "@
                + "JOIN users u ON u.group_id = ug.id"@
                + " "@
                + "WHERE u.id = "@
                + "?"@,
            binds: seq![BindView::Int(user_id)],
        }),
        assembled(Dialect::Postgres, restricted_pieces(user_id)) == (StatementView {
            sql: "SELECT ug.allow_all_groups"@
                + " "@
                + "FROM user_groups ug"@
                + " "@
                + "JOIN users u ON u.group_id = ug.id"@
                + " "@
                + "WHERE u.id = "@
                + "$1"@,
            binds: seq![BindView::Int(user_id)],
        }),
{
    lemma_dollars();
    let p = restricted_pieces(user_id);
    lemma_next_piece(Dialect::Sqlite, p, 0);
    lemma_next_piece(Dialect::Sqlite, p, 1);
    lemma_next_piece(Dialect::Sqlite, p, 2);
    lemma_next_piece(Dialect::Sqlite, p, 3);
    lemma_next_piece(Dialect::Sqlite, p, 4);
    lemma_next_piece(Dialect::Sqlite, p, 5);
    lemma_next_piece(Dialect::Sqlite, p, 6);
    lemma_next_piece(Dialect::Sqlite, p, 7);
    assert(p.take(0) =~= seq![]);
    assert(p.take(8) =~= p);
    assert(assembled(Dialect::Sqlite, p) =~= (StatementView {
            sql: "SELECT ug.allow_all_groups"@
                + " "@
                + "FROM user_groups ug"@
                + " "@
                + "JOIN users u ON u.group_id = ug.id"@
                + " "@
                + "WHERE u.id = "@
                + "?"@,
            binds: seq![BindView::Int(user_id)],
        }));
    let q = restricted_pieces(user_id);
    lemma_next_piece(Dialect::Postgres, q, 0);
    lemma_next_piece(Dialect::Postgres, q, 1);
    lemma_next_piece(Dialect::Postgres, q, 2);
    lemma_next_piece(Dialect::Postgres, q, 3);
    lemma_next_piece(Dialect::Postgres, q, 4);
    lemma_next_piece(Dialect::Postgres, q, 5);
    lemma_next_piece(Dialect::Postgres, q, 6);
    lemma_next_piece(Dialect::Postgres, q, 7);
    assert(q.take(0) =~= seq![]);
    assert(q.take(8) =~= q);
    assert(assembled(Dialect::Postgres, q) =~= (StatementView {
            sql: "SELECT ug.allow_all_groups"@
                + " "@
                + "FROM user_groups ug"@
                + " "@
                + "JOIN users u ON u.group_id = ug.id"@
                + " "@
                + "WHERE u.id = "@
                + "$1"@,
            binds: seq![BindView::Int(user_id)],
        }));
}

/// A group is read back with an empty text for a missing remark.
pub proof fn law_read_back_text(
    id: i64,
)
    ensures
        assembled(Dialect::Sqlite, read_back_pieces(id)) == (StatementView {
            sql: "SELECT id, name, COALESCE(remark, ''), allow_all_groups, created_at FROM user_groups WHERE id = "@
                + "?"@,
            binds: seq![BindView::Int(id)],
        }),
        assembled(Dialect::Postgres, read_back_pieces(id)) == (StatementView {
            sql: "SELECT id, name, COALESCE(remark, ''), allow_all_groups, created_at FROM user_groups WHERE id = "@
                + "$1"@,
            binds: seq![BindView::Int(id)],
        }),
{
    lemma_dollars();
    let p = read_back_pieces(id);
    lemma_next_piece(Dialect::Sqlite, p, 0);
    lemma_next_piece(Dialect::Sqlite, p, 1);
    assert(p.take(0) =~= seq![]);
    assert(p.take(2) =~= p);
    assert(assembled(Dialect::Sqlite, p) =~= (StatementView {
            sql: "SELECT id, name, COALESCE(remark, ''), allow_all_groups, created_at FROM user_groups WHERE id = "@
                + "?"@,
            binds: seq![BindView::Int(id)],
        }));
    let q = read_back_pieces(id);
    lemma_next_piece(Dialect::Postgres, q, 0);
    lemma_next_piece(Dialect::Postgres, q, 1);
    assert(q.take(0) =~= seq![]);
    assert(q.take(2) =~= q);
    assert(assembled(Dialect::Postgres, q) =~= (StatementView {
            sql: "SELECT id, name, COALESCE(remark, ''), allow_all_groups, created_at FROM user_groups WHERE id = "@
                + "$1"@,
            binds: seq![BindView::Int(id)],
        }));
}

/// Where no device group is allowed, a pause selects all active rules of the bound user.
pub proof fn law_pause_all_text(
    user_id: i64,
)
    ensures
        assembled(Dialect::Sqlite, pause_pieces(Dialect::Sqlite, user_id, Seq::empty())) == (StatementView {
            sql: "UPDATE forward_rules SET paused = "@
                + "1"@
                + " WHERE uid = "@
                + "?"@
                + " AND paused = "@
                + "0"@,
            binds: seq![BindView::Int(user_id)],
        }),
        assembled(Dialect::Postgres, pause_pieces(Dialect::Postgres, user_id, Seq::empty())) == (StatementView {
            sql: "UPDATE forward_rules SET paused = "@
                + "TRUE"@
                + " WHERE uid = "@
                + "$1"@
                + " AND paused = "@
                + "FALSE"@,
            binds: seq![BindView::Int(user_id)],
        }),
{
    lemma_dollars();
    let p = pause_pieces(Dialect::Sqlite, user_id, Seq::empty());
    lemma_next_piece(Dialect::Sqlite, p, 0);
    lemma_next_piece(Dialect::Sqlite, p, 1);
    lemma_next_piece(Dialect::Sqlite, p, 2);
    lemma_next_piece(Dialect::Sqlite, p, 3);
    lemma_next_piece(Dialect::Sqlite, p, 4);
    lemma_next_piece(Dialect::Sqlite, p, 5);
    assert(p.take(0) =~= seq![]);
    assert(p.take(6) =~= p);
    assert(assembled(Dialect::Sqlite, p) =~= (StatementView {
            sql: "UPDATE forward_rules SET paused = "@
                + "1"@
                + " WHERE uid = "@
                + "?"@
                + " AND paused = "@
                + "0"@,
            binds: seq![BindView::Int(user_id)],
        }));
    let q = pause_pieces(Dialect::Postgres, user_id, Seq::empty());
    lemma_next_piece(Dialect::Postgres, q, 0);
    lemma_next_piece(Dialect::Postgres, q, 1);
    lemma_next_piece(Dialect::Postgres, q, 2);
    lemma_next_piece(Dialect::Postgres, q, 3);
    lemma_next_piece(Dialect::Postgres, q, 4);
    lemma_next_piece(Dialect::Postgres, q, 5);
    assert(q.take(0) =~= seq![]);
    assert(q.take(6) =~= q);
    assert(assembled(Dialect::Postgres, q) =~= (StatementView {
            sql: "UPDATE forward_rules SET paused = "@
                + "TRUE"@
                + " WHERE uid = "@
                + "$1"@
                + " AND paused = "@
                + "FALSE"@,
            binds: seq![BindView::Int(user_id)],
        }));
}

/// Where one device group is allowed, a pause selects the active rules of the bound user, and
/// of these those outside the one that is bound behind.
pub proof fn law_pause_one_text(
    user_id: i64,
    device_group: i64,
)
    ensures
        assembled(Dialect::Sqlite, pause_pieces(Dialect::Sqlite, user_id, seq![device_group])) == (StatementView {
            sql: "UPDATE forward_rules SET paused = "@
                + "1"@
                + " WHERE uid = "@
                + "?"@
                + " AND paused = "@
                + "0"@
                + " AND device_group_in NOT IN ("@
                + "?"@
                + ")"@,
            binds: seq![BindView::Int(user_id), BindView::Int(device_group)],
        }),
        assembled(Dialect::Postgres, pause_pieces(Dialect::Postgres, user_id, seq![device_group])) == (StatementView {
            sql: "UPDATE forward_rules SET paused = "@
                + "TRUE"@
                + " WHERE uid = "@
                + "$1"@
                + " AND paused = "@
                + "FALSE"@
                + " AND device_group_in NOT IN ("@
                + "$2"@
                + ")"@,
            binds: seq![BindView::Int(user_id), BindView::Int(device_group)],
        }),
{
    lemma_dollars();
    let p = pause_pieces(Dialect::Sqlite, user_id, seq![device_group]);
    lemma_one_id(device_group);
    assert(p =~= pause_all_pieces(Dialect::Sqlite, user_id).push(
        Piece::Fixed(" AND device_group_in NOT IN ("@),
    ).push(Piece::Param(BindView::Int(device_group))).push(Piece::Fixed(")"@)));
    lemma_next_piece(Dialect::Sqlite, p, 0);
    lemma_next_piece(Dialect::Sqlite, p, 1);
    lemma_next_piece(Dialect::Sqlite, p, 2);
    lemma_next_piece(Dialect::Sqlite, p, 3);
    lemma_next_piece(Dialect::Sqlite, p, 4);
    lemma_next_piece(Dialect::Sqlite, p, 5);
    lemma_next_piece(Dialect::Sqlite, p, 6);
    lemma_next_piece(Dialect::Sqlite, p, 7);
    lemma_next_piece(Dialect::Sqlite, p, 8);
    assert(p.take(0) =~= seq![]);
    assert(p.take(9) =~= p);
    assert(assembled(Dialect::Sqlite, p) =~= (StatementView {
            sql: "UPDATE forward_rules SET paused = "@
                + "1"@
                + " WHERE uid = "@
                + "?"@
                + " AND paused = "@
                + "0"@
                + " AND device_group_in NOT IN ("@
                + "?"@
                + ")"@,
            binds: seq![BindView::Int(user_id), BindView::Int(device_group)],
        }));
    let q = pause_pieces(Dialect::Postgres, user_id, seq![device_group]);
    lemma_one_id(device_group);
    assert(q =~= pause_all_pieces(Dialect::Postgres, user_id).push(
        Piece::Fixed(" AND device_group_in NOT IN ("@),
    ).push(Piece::Param(BindView::Int(device_group))).push(Piece::Fixed(")"@)));
    lemma_next_piece(Dialect::Postgres, q, 0);
    lemma_next_piece(Dialect::Postgres, q, 1);
    lemma_next_piece(Dialect::Postgres, q, 2);
    lemma_next_piece(Dialect::Postgres, q, 3);
    lemma_next_piece(Dialect::Postgres, q, 4);
    lemma_next_piece(Dialect::Postgres, q, 5);
    lemma_next_piece(Dialect::Postgres, q, 6);
    lemma_next_piece(Dialect::Postgres, q, 7);
    lemma_next_piece(Dialect::Postgres, q, 8);
    assert(q.take(0) =~= seq![]);
    assert(q.take(9) =~= q);
    assert(assembled(Dialect::Postgres, q) =~= (StatementView {
            sql: "UPDATE forward_rules SET paused = "@
                + "TRUE"@
                + " WHERE uid = "@
                + "$1"@
                + " AND paused = "@
                + "FALSE"@
                + " AND device_group_in NOT IN ("@
                + "$2"@
                + ")"@,
            binds: seq![BindView::Int(user_id), BindView::Int(device_group)],
        }));
}

/// An update sets the columns that are given and no others, each to its own value, in the row
/// with the bound id.
pub proof fn law_update_text(
    id: i64,
    name: Seq<char>,
    remark: Seq<char>,
    flag: bool,
)
    ensures
        assembled(
            Dialect::Sqlite,
            update_pieces(id, plain_assignments(Dialect::Sqlite, Some(name), None, None)),
        ) == (StatementView {
            sql: "UPDATE user_groups SET "@
                + "name"@
                + " = "@
                + "?"@
                + " WHERE id = "@
                + "?"@,
            binds: seq![BindView::Text(name), BindView::Int(id)],
        }),
        assembled(
            Dialect::Sqlite,
            update_pieces(id, plain_assignments(Dialect::Sqlite, None, Some(remark), None)),
        ) == (StatementView {
            sql: "UPDATE user_groups SET "@
                + "remark"@
                + " = "@
                + "?"@
                + " WHERE id = "@
                + "?"@,
            binds: seq![BindView::Text(remark), BindView::Int(id)],
        }),
        assembled(
            Dialect::Sqlite,
            update_pieces(id, plain_assignments(Dialect::Sqlite, Some(name), Some(remark), None)),
        ) == (StatementView {
            sql: "UPDATE user_groups SET "@
                + "name"@
                + " = "@
                + "?"@
                + ", "@
                + "remark"@
                + " = "@
                + "?"@
                + " WHERE id = "@
                + "?"@,
            binds: seq![BindView::Text(name), BindView::Text(remark), BindView::Int(id)],
        }),
        assembled(
            Dialect::Sqlite,
            update_pieces(id, plain_assignments(Dialect::Sqlite, None, None, Some(flag))),
        ) == (StatementView {
            sql: "UPDATE user_groups SET "@
                + "allow_all_groups"@
                + " = "@
                + "?"@
                + " WHERE id = "@
                + "?"@,
            binds: seq![
                BindView::Text(
                    if flag {
                        "1"@
                    } else {
                        "0"@
                    },
                ),
                BindView::Int(id),
            ],
        }),
        assembled(
            Dialect::Sqlite,
            update_pieces(id, plain_assignments(Dialect::Sqlite, Some(name), None, Some(flag))),
        ) == (StatementView {
            sql: "UPDATE user_groups SET "@
                + "name"@
                + " = "@
                + "?"@
                + ", "@
                + "allow_all_groups"@
                + " = "@
                + "?"@
                + " WHERE id = "@
                + "?"@,
            binds: seq![
                BindView::Text(name),
                BindView::Text(
                    if flag {
                        "1"@
                    } else {
                        "0"@
                    },
                ),
                BindView::Int(id),
            ],
        }),
        assembled(
            Dialect::Sqlite,
            update_pieces(id, plain_assignments(Dialect::Sqlite, None, Some(remark), Some(flag))),
        ) == (StatementView {
            sql: "UPDATE user_groups SET "@
                + "remark"@
                + " = "@
                + "?"@
                + ", "@
                + "allow_all_groups"@
                + " = "@
                + "?"@
                + " WHERE id = "@
                + "?"@,
            binds: seq![
                BindView::Text(remark),
                BindView::Text(
                    if flag {
                        "1"@
                    } else {
                        "0"@
                    },
                ),
                BindView::Int(id),
            ],
        }),
        assembled(
            Dialect::Sqlite,
            update_pieces(id, plain_assignments(Dialect::Sqlite, Some(name), Some(remark), Some(flag))),
        ) == (StatementView {
            sql: "UPDATE user_groups SET "@
                + "name"@
                + " = "@
                + "?"@
                + ", "@
                + "remark"@
                + " = "@
                + "?"@
                + ", "@
                + "allow_all_groups"@
                + " = "@
                + "?"@
                + " WHERE id = "@
                + "?"@,
            binds: seq![
                BindView::Text(name),
                BindView::Text(remark),
                BindView::Text(
                    if flag {
                        "1"@
                    } else {
                        "0"@
                    },
                ),
                BindView::Int(id),
            ],
        }),
        assembled(
            Dialect::Postgres,
            update_pieces(id, plain_assignments(Dialect::Postgres, Some(name), None, None)),
        ) == (StatementView {
            sql: "UPDATE user_groups SET "@
                + "name"@
                + " = "@
                + "$1"@
                + " WHERE id = "@
                + "$2"@,
            binds: seq![BindView::Text(name), BindView::Int(id)],
        }),
        assembled(
            Dialect::Postgres,
            update_pieces(id, plain_assignments(Dialect::Postgres, None, Some(remark), None)),
        ) == (StatementView {
            sql: "UPDATE user_groups SET "@
                + "remark"@
                + " = "@
                + "$1"@
                + " WHERE id = "@
                + "$2"@,
            binds: seq![BindView::Text(remark), BindView::Int(id)],
        }),
        assembled(
            Dialect::Postgres,
            update_pieces(id, plain_assignments(Dialect::Postgres, Some(name), Some(remark), None)),
        ) == (StatementView {
            sql: "UPDATE user_groups SET "@
                + "name"@
                + " = "@
                + "$1"@
                + ", "@
                + "remark"@
                + " = "@
                + "$2"@
                + " WHERE id = "@
                + "$3"@,
            binds: seq![BindView::Text(name), BindView::Text(remark), BindView::Int(id)],
        }),
        assembled(
            Dialect::Postgres,
            update_pieces(id, plain_assignments(Dialect::Postgres, None, None, Some(flag))),
        ) == (StatementView {
            sql: "UPDATE user_groups SET "@
                + "allow_all_groups"@
                + " = "@
                + "$1"@
                + " WHERE id = "@
                + "$2"@,
            binds: seq![
                BindView::Text(
                    if flag {
                        "true"@
                    } else {
                        "false"@
                    },
                ),
                BindView::Int(id),
            ],
        }),
        assembled(
            Dialect::Postgres,
            update_pieces(id, plain_assignments(Dialect::Postgres, Some(name), None, Some(flag))),
        ) == (StatementView {
            sql: "UPDATE user_groups SET "@
                + "name"@
                + " = "@
                + "$1"@
                + ", "@
                + "allow_all_groups"@
                + " = "@
                + "$2"@
                + " WHERE id = "@
                + "$3"@,
            binds: seq![
                BindView::Text(name),
                BindView::Text(
                    if flag {
                        "true"@
                    } else {
                        "false"@
                    },
                ),
                BindView::Int(id),
            ],
        }),
        assembled(
            Dialect::Postgres,
            update_pieces(id, plain_assignments(Dialect::Postgres, None, Some(remark), Some(flag))),
        ) == (StatementView {
            sql: "UPDATE user_groups SET "@
                + "remark"@
                + " = "@
                + "$1"@
                + ", "@
                + "allow_all_groups"@
                + " = "@
                + "$2"@
                + " WHERE id = "@
                + "$3"@,
            binds: seq![
                BindView::Text(remark),
                BindView::Text(
                    if flag {
                        "true"@
                    } else {
                        "false"@
                    },
                ),
                BindView::Int(id),
            ],
        }),
        assembled(
            Dialect::Postgres,
            update_pieces(id, plain_assignments(Dialect::Postgres, Some(name), Some(remark), Some(flag))),
        ) == (StatementView {
            sql: "UPDATE user_groups SET "@
                + "name"@
                + " = "@
                + "$1"@
                + ", "@
                + "remark"@
                + " = "@
                + "$2"@
                + ", "@
                + "allow_all_groups"@
                + " = "@
                + "$3"@
                + " WHERE id = "@
                + "$4"@,
            binds: seq![
                BindView::Text(name),
                BindView::Text(remark),
                BindView::Text(
                    if flag {
                        "true"@
                    } else {
                        "false"@
                    },
                ),
                BindView::Int(id),
            ],
        }),
{
    lemma_dollars();
    lemma_update_1(Dialect::Sqlite, id, name, remark, BindView::Int(0));
    lemma_update_2(Dialect::Sqlite, id, name, remark, BindView::Int(0));
    lemma_update_3(Dialect::Sqlite, id, name, remark, BindView::Int(0));
    lemma_update_4(Dialect::Sqlite, id, name, remark, BindView::Text(
                if flag {
                    "1"@
                } else {
                    "0"@
                },
            ));
    lemma_update_5(Dialect::Sqlite, id, name, remark, BindView::Text(
                if flag {
                    "1"@
                } else {
                    "0"@
                },
            ));
    lemma_update_6(Dialect::Sqlite, id, name, remark, BindView::Text(
                if flag {
                    "1"@
                } else {
                    "0"@
                },
            ));
    lemma_update_7(Dialect::Sqlite, id, name, remark, BindView::Text(
                if flag {
                    "1"@
                } else {
                    "0"@
                },
            ));
    lemma_update_1(Dialect::Postgres, id, name, remark, BindView::Int(0));
    lemma_update_2(Dialect::Postgres, id, name, remark, BindView::Int(0));
    lemma_update_3(Dialect::Postgres, id, name, remark, BindView::Int(0));
    lemma_update_4(Dialect::Postgres, id, name, remark, BindView::Text(
                if flag {
                    "true"@
                } else {
                    "false"@
                },
            ));
    lemma_update_5(Dialect::Postgres, id, name, remark, BindView::Text(
                if flag {
                    "true"@
                } else {
                    "false"@
                },
            ));
    lemma_update_6(Dialect::Postgres, id, name, remark, BindView::Text(
                if flag {
                    "true"@
                } else {
                    "false"@
                },
            ));
    lemma_update_7(Dialect::Postgres, id, name, remark, BindView::Text(
                if flag {
                    "true"@
                } else {
                    "false"@
                },
            ));
}

/// The update with a pause always sets the flag, and the name and the remark where they are
/// given, in the row with the bound id.
pub proof fn law_update_with_pause_text(
    id: i64,
    name: Seq<char>,
    remark: Seq<char>,
    flag: bool,
)
    ensures
        assembled(
            Dialect::Sqlite,
            update_pieces(id, full_assignments(Dialect::Sqlite, None, None, flag)),
        ) == (StatementView {
            sql: "UPDATE user_groups SET "@
                + "allow_all_groups"@
                + " = "@
                + "?"@
                + " WHERE id = "@
                + "?"@,
            binds: seq![
                BindView::Text(
                    if flag {
                        "1"@
                    } else {
                        "0"@
                    },
                ),
                BindView::Int(id),
            ],
        }),
        assembled(
            Dialect::Sqlite,
            update_pieces(id, full_assignments(Dialect::Sqlite, Some(name), None, flag)),
        ) == (StatementView {
            sql: "UPDATE user_groups SET "@
                + "name"@
                + " = "@
                + "?"@
                + ", "@
                + "allow_all_groups"@
                + " = "@
                + "?"@
                + " WHERE id = "@
                + "?"@,
            binds: seq![
                BindView::Text(name),
                BindView::Text(
                    if flag {
                        "1"@
                    } else {
                        "0"@
                    },
                ),
                BindView::Int(id),
            ],
        }),
        assembled(
            Dialect::Sqlite,
            update_pieces(id, full_assignments(Dialect::Sqlite, None, Some(remark), flag)),
        ) == (StatementView {
            sql: "UPDATE user_groups SET "@
                + "remark"@
                + " = "@
                + "?"@
                + ", "@
                + "allow_all_groups"@
                + " = "@
                + "?"@
                + " WHERE id = "@
                + "?"@,
            binds: seq![
                BindView::Text(remark),
                BindView::Text(
                    if flag {
                        "1"@
                    } else {
                        "0"@
                    },
                ),
                BindView::Int(id),
            ],
        }),
        assembled(
            Dialect::Sqlite,
            update_pieces(id, full_assignments(Dialect::Sqlite, Some(name), Some(remark), flag)),
        ) == (StatementView {
            sql: "UPDATE user_groups SET "@
                + "name"@
                + " = "@
                + "?"@
                + ", "@
                + "remark"@
                + " = "@
                + "?"@
                + ", "@
                + "allow_all_groups"@
                + " = "@
                + "?"@
                + " WHERE id = "@
                + "?"@,
            binds: seq![
                BindView::Text(name),
                BindView::Text(remark),
                BindView::Text(
                    if flag {
                        "1"@
                    } else {
                        "0"@
                    },
                ),
                BindView::Int(id),
            ],
        }),
        assembled(
            Dialect::Postgres,
            update_pieces(id, full_assignments(Dialect::Postgres, None, None, flag)),
        ) == (StatementView {
            sql: "UPDATE user_groups SET "@
                + "allow_all_groups"@
                + " = "@
                + "$1"@
                + " WHERE id = "@
                + "$2"@,
            binds: seq![BindView::Flag(flag), BindView::Int(id)],
        }),
        assembled(
            Dialect::Postgres,
            update_pieces(id, full_assignments(Dialect::Postgres, Some(name), None, flag)),
        ) == (StatementView {
            sql: "UPDATE user_groups SET "@
                + "name"@
                + " = "@
                + "$1"@
                + ", "@
                + "allow_all_groups"@
                + " = "@
                + "$2"@
                + " WHERE id = "@
                + "$3"@,
            binds: seq![BindView::Text(name), BindView::Flag(flag), BindView::Int(id)],
        }),
        assembled(
            Dialect::Postgres,
            update_pieces(id, full_assignments(Dialect::Postgres, None, Some(remark), flag)),
        ) == (StatementView {
            sql: "UPDATE user_groups SET "@
                + "remark"@
                + " = "@
                + "$1"@
                + ", "@
                + "allow_all_groups"@
                + " = "@
                + "$2"@
                + " WHERE id = "@
                + "$3"@,
            binds: seq![BindView::Text(remark), BindView::Flag(flag), BindView::Int(id)],
        }),
        assembled(
            Dialect::Postgres,
            update_pieces(id, full_assignments(Dialect::Postgres, Some(name), Some(remark), flag)),
        ) == (StatementView {
            sql: "UPDATE user_groups SET "@
                + "name"@
                + " = "@
                + "$1"@
                + ", "@
                + "remark"@
                + " = "@
                + "$2"@
                + ", "@
                + "allow_all_groups"@
                + " = "@
                + "$3"@
                + " WHERE id = "@
                + "$4"@,
            binds: seq![
                BindView::Text(name),
                BindView::Text(remark),
                BindView::Flag(flag),
                BindView::Int(id),
            ],
        }),
{
    lemma_dollars();
    lemma_update_4(Dialect::Sqlite, id, name, remark, BindView::Text(
                if flag {
                    "1"@
                } else {
                    "0"@
                },
            ));
    lemma_update_5(Dialect::Sqlite, id, name, remark, BindView::Text(
                if flag {
                    "1"@
                } else {
                    "0"@
                },
            ));
    lemma_update_6(Dialect::Sqlite, id, name, remark, BindView::Text(
                if flag {
                    "1"@
                } else {
                    "0"@
                },
            ));
    lemma_update_7(Dialect::Sqlite, id, name, remark, BindView::Text(
                if flag {
                    "1"@
                } else {
                    "0"@
                },
            ));
    lemma_update_4(Dialect::Postgres, id, name, remark, BindView::Flag(flag));
    lemma_update_5(Dialect::Postgres, id, name, remark, BindView::Flag(flag));
    lemma_update_6(Dialect::Postgres, id, name, remark, BindView::Flag(flag));
    lemma_update_7(Dialect::Postgres, id, name, remark, BindView::Flag(flag));
}

proof fn lemma_update_1(
    dialect: Dialect,
    id: i64,
    name: Seq<char>,
    remark: Seq<char>,
    flag: BindView,
)
    ensures
        assembled(dialect, update_pieces(id, assignments(Some(name), None, None))) == (StatementView {
            sql: "UPDATE user_groups SET "@
                + "name"@
                + " = "@
                + placeholder(dialect, 1)
                + " WHERE id = "@
                + placeholder(dialect, 2),
            binds: seq![BindView::Text(name), BindView::Int(id)],
        }),
{
    let list = assignments(Some(name), None, None);
    assert(list =~= seq![
        AssignmentView { column: "name"@, value: BindView::Text(name) },
    ]);
    assert(list.take(1).drop_last() =~= list.take(0));
    assert(list.take(1) =~= list);
    reveal_with_fuel(set_pieces, 2);
    let p = update_pieces(id, list);
    assert(p =~= seq![
        Piece::Fixed("UPDATE user_groups SET "@),
        Piece::Fixed("name"@),
        Piece::Fixed(" = "@),
        Piece::Param(BindView::Text(name)),
        Piece::Fixed(" WHERE id = "@),
        Piece::Param(BindView::Int(id)),
    ]);
    lemma_next_piece(dialect, p, 0);
    lemma_next_piece(dialect, p, 1);
    lemma_next_piece(dialect, p, 2);
    lemma_next_piece(dialect, p, 3);
    lemma_next_piece(dialect, p, 4);
    lemma_next_piece(dialect, p, 5);
    assert(p.take(0) =~= seq![]);
    assert(p.take(6) =~= p);
    assert(assembled(dialect, p) =~= (StatementView {
            sql: "UPDATE user_groups SET "@
                + "name"@
                + " = "@
                + placeholder(dialect, 1)
                + " WHERE id = "@
                + placeholder(dialect, 2),
            binds: seq![BindView::Text(name), BindView::Int(id)],
        }));
}

proof fn lemma_update_2(
    dialect: Dialect,
    id: i64,
    name: Seq<char>,
    remark: Seq<char>,
    flag: BindView,
)
    ensures
        assembled(dialect, update_pieces(id, assignments(None, Some(remark), None))) == (StatementView {
            sql: "UPDATE user_groups SET "@
                + "remark"@
                + " = "@
                + placeholder(dialect, 1)
                + " WHERE id = "@
                + placeholder(dialect, 2),
            binds: seq![BindView::Text(remark), BindView::Int(id)],
        }),
{
    let list = assignments(None, Some(remark), None);
    assert(list =~= seq![
        AssignmentView { column: "remark"@, value: BindView::Text(remark) },
    ]);
    assert(list.take(1).drop_last() =~= list.take(0));
    assert(list.take(1) =~= list);
    reveal_with_fuel(set_pieces, 2);
    let p = update_pieces(id, list);
    assert(p =~= seq![
        Piece::Fixed("UPDATE user_groups SET "@),
        Piece::Fixed("remark"@),
        Piece::Fixed(" = "@),
        Piece::Param(BindView::Text(remark)),
        Piece::Fixed(" WHERE id = "@),
        Piece::Param(BindView::Int(id)),
    ]);
    lemma_next_piece(dialect, p, 0);
    lemma_next_piece(dialect, p, 1);
    lemma_next_piece(dialect, p, 2);
    lemma_next_piece(dialect, p, 3);
    lemma_next_piece(dialect, p, 4);
    lemma_next_piece(dialect, p, 5);
    assert(p.take(0) =~= seq![]);
    assert(p.take(6) =~= p);
    assert(assembled(dialect, p) =~= (StatementView {
            sql: "UPDATE user_groups SET "@
                + "remark"@
                + " = "@
                + placeholder(dialect, 1)
                + " WHERE id = "@
                + placeholder(dialect, 2),
            binds: seq![BindView::Text(remark), BindView::Int(id)],
        }));
}

proof fn lemma_update_3(
    dialect: Dialect,
    id: i64,
    name: Seq<char>,
    remark: Seq<char>,
    flag: BindView,
)
    ensures
        assembled(dialect, update_pieces(id, assignments(Some(name), Some(remark), None))) == (StatementView {
            sql: "UPDATE user_groups SET "@
                + "name"@
                + " = "@
                + placeholder(dialect, 1)
                + ", "@
                + "remark"@
                + " = "@
                + placeholder(dialect, 2)
                + " WHERE id = "@
                + placeholder(dialect, 3),
            binds: seq![BindView::Text(name), BindView::Text(remark), BindView::Int(id)],
        }),
{
    let list = assignments(Some(name), Some(remark), None);
    assert(list =~= seq![
        AssignmentView { column: "name"@, value: BindView::Text(name) },
        AssignmentView { column: "remark"@, value: BindView::Text(remark) },
    ]);
    assert(list.take(2).drop_last() =~= list.take(1));
    assert(list.take(1).drop_last() =~= list.take(0));
    assert(list.take(2) =~= list);
    reveal_with_fuel(set_pieces, 3);
    let p = update_pieces(id, list);
    assert(p =~= seq![
        Piece::Fixed("UPDATE user_groups SET "@),
        Piece::Fixed("name"@),
        Piece::Fixed(" = "@),
        Piece::Param(BindView::Text(name)),
        Piece::Fixed(", "@),
        Piece::Fixed("remark"@),
        Piece::Fixed(" = "@),
        Piece::Param(BindView::Text(remark)),
        Piece::Fixed(" WHERE id = "@),
        Piece::Param(BindView::Int(id)),
    ]);
    lemma_next_piece(dialect, p, 0);
    lemma_next_piece(dialect, p, 1);
    lemma_next_piece(dialect, p, 2);
    lemma_next_piece(dialect, p, 3);
    lemma_next_piece(dialect, p, 4);
    lemma_next_piece(dialect, p, 5);
    lemma_next_piece(dialect, p, 6);
    lemma_next_piece(dialect, p, 7);
    lemma_next_piece(dialect, p, 8);
    lemma_next_piece(dialect, p, 9);
    assert(p.take(0) =~= seq![]);
    assert(p.take(10) =~= p);
    assert(assembled(dialect, p) =~= (StatementView {
            sql: "UPDATE user_groups SET "@
                + "name"@
                + " = "@
                + placeholder(dialect, 1)
                + ", "@
                + "remark"@
                + " = "@
                + placeholder(dialect, 2)
                + " WHERE id = "@
                + placeholder(dialect, 3),
            binds: seq![BindView::Text(name), BindView::Text(remark), BindView::Int(id)],
        }));
}

proof fn lemma_update_4(
    dialect: Dialect,
    id: i64,
    name: Seq<char>,
    remark: Seq<char>,
    flag: BindView,
)
    ensures
        assembled(dialect, update_pieces(id, assignments(None, None, Some(flag)))) == (StatementView {
            sql: "UPDATE user_groups SET "@
                + "allow_all_groups"@
                + " = "@
                + placeholder(dialect, 1)
                + " WHERE id = "@
                + placeholder(dialect, 2),
            binds: seq![flag, BindView::Int(id)],
        }),
{
    let list = assignments(None, None, Some(flag));
    assert(list =~= seq![
        AssignmentView { column: "allow_all_groups"@, value: flag },
    ]);
    assert(list.take(1).drop_last() =~= list.take(0));
    assert(list.take(1) =~= list);
    reveal_with_fuel(set_pieces, 2);
    let p = update_pieces(id, list);
    assert(p =~= seq![
        Piece::Fixed("UPDATE user_groups SET "@),
        Piece::Fixed("allow_all_groups"@),
        Piece::Fixed(" = "@),
        Piece::Param(flag),
        Piece::Fixed(" WHERE id = "@),
        Piece::Param(BindView::Int(id)),
    ]);
    lemma_next_piece(dialect, p, 0);
    lemma_next_piece(dialect, p, 1);
    lemma_next_piece(dialect, p, 2);
    lemma_next_piece(dialect, p, 3);
    lemma_next_piece(dialect, p, 4);
    lemma_next_piece(dialect, p, 5);
    assert(p.take(0) =~= seq![]);
    assert(p.take(6) =~= p);
    assert(assembled(dialect, p) =~= (StatementView {
            sql: "UPDATE user_groups SET "@
                + "allow_all_groups"@
                + " = "@
                + placeholder(dialect, 1)
                + " WHERE id = "@
                + placeholder(dialect, 2),
            binds: seq![flag, BindView::Int(id)],
        }));
}

proof fn lemma_update_5(
    dialect: Dialect,
    id: i64,
    name: Seq<char>,
    remark: Seq<char>,
    flag: BindView,
)
    ensures
        assembled(dialect, update_pieces(id, assignments(Some(name), None, Some(flag)))) == (StatementView {
            sql: "UPDATE user_groups SET "@
                + "name"@
                + " = "@
                + placeholder(dialect, 1)
                + ", "@
                + "allow_all_groups"@
                + " = "@
                + placeholder(dialect, 2)
                + " WHERE id = "@
                + placeholder(dialect, 3),
            binds: seq![BindView::Text(name), flag, BindView::Int(id)],
        }),
{
    let list = assignments(Some(name), None, Some(flag));
    assert(list =~= seq![
        AssignmentView { column: "name"@, value: BindView::Text(name) },
        AssignmentView { column: "allow_all_groups"@, value: flag },
    ]);
    assert(list.take(2).drop_last() =~= list.take(1));
    assert(list.take(1).drop_last() =~= list.take(0));
    assert(list.take(2) =~= list);
    reveal_with_fuel(set_pieces, 3);
    let p = update_pieces(id, list);
    assert(p =~= seq![
        Piece::Fixed("UPDATE user_groups SET "@),
        Piece::Fixed("name"@),
        Piece::Fixed(" = "@),
        Piece::Param(BindView::Text(name)),
        Piece::Fixed(", "@),
        Piece::Fixed("allow_all_groups"@),
        Piece::Fixed(" = "@),
        Piece::Param(flag),
        Piece::Fixed(" WHERE id = "@),
        Piece::Param(BindView::Int(id)),
    ]);
    lemma_next_piece(dialect, p, 0);
    lemma_next_piece(dialect, p, 1);
    lemma_next_piece(dialect, p, 2);
    lemma_next_piece(dialect, p, 3);
    lemma_next_piece(dialect, p, 4);
    lemma_next_piece(dialect, p, 5);
    lemma_next_piece(dialect, p, 6);
    lemma_next_piece(dialect, p, 7);
    lemma_next_piece(dialect, p, 8);
    lemma_next_piece(dialect, p, 9);
    assert(p.take(0) =~= seq![]);
    assert(p.take(10) =~= p);
    assert(assembled(dialect, p) =~= (StatementView {
            sql: "UPDATE user_groups SET "@
                + "name"@
                + " = "@
                + placeholder(dialect, 1)
                + ", "@
                + "allow_all_groups"@
                + " = "@
                + placeholder(dialect, 2)
                + " WHERE id = "@
                + placeholder(dialect, 3),
            binds: seq![BindView::Text(name), flag, BindView::Int(id)],
        }));
}

proof fn lemma_update_6(
    dialect: Dialect,
    id: i64,
    name: Seq<char>,
    remark: Seq<char>,
    flag: BindView,
)
    ensures
        assembled(dialect, update_pieces(id, assignments(None, Some(remark), Some(flag)))) == (StatementView {
            sql: "UPDATE user_groups SET "@
                + "remark"@
                + " = "@
                + placeholder(dialect, 1)
                + ", "@
                + "allow_all_groups"@
                + " = "@
                + placeholder(dialect, 2)
                + " WHERE id = "@
                + placeholder(dialect, 3),
            binds: seq![BindView::Text(remark), flag, BindView::Int(id)],
        }),
{
    let list = assignments(None, Some(remark), Some(flag));
    assert(list =~= seq![
        AssignmentView { column: "remark"@, value: BindView::Text(remark) },
        AssignmentView { column: "allow_all_groups"@, value: flag },
    ]);
    assert(list.take(2).drop_last() =~= list.take(1));
    assert(list.take(1).drop_last() =~= list.take(0));
    assert(list.take(2) =~= list);
    reveal_with_fuel(set_pieces, 3);
    let p = update_pieces(id, list);
    assert(p =~= seq![
        Piece::Fixed("UPDATE user_groups SET "@),
        Piece::Fixed("remark"@),
        Piece::Fixed(" = "@),
        Piece::Param(BindView::Text(remark)),
        Piece::Fixed(", "@),
        Piece::Fixed("allow_all_groups"@),
        Piece::Fixed(" = "@),
        Piece::Param(flag),
        Piece::Fixed(" WHERE id = "@),
        Piece::Param(BindView::Int(id)),
    ]);
    lemma_next_piece(dialect, p, 0);
    lemma_next_piece(dialect, p, 1);
    lemma_next_piece(dialect, p, 2);
    lemma_next_piece(dialect, p, 3);
    lemma_next_piece(dialect, p, 4);
    lemma_next_piece(dialect, p, 5);
    lemma_next_piece(dialect, p, 6);
    lemma_next_piece(dialect, p, 7);
    lemma_next_piece(dialect, p, 8);
    lemma_next_piece(dialect, p, 9);
    assert(p.take(0) =~= seq![]);
    assert(p.take(10) =~= p);
    assert(assembled(dialect, p) =~= (StatementView {
            sql: "UPDATE user_groups SET "@
                + "remark"@
                + " = "@
                + placeholder(dialect, 1)
                + ", "@
                + "allow_all_groups"@
                + " = "@
                + placeholder(dialect, 2)
                + " WHERE id = "@
                + placeholder(dialect, 3),
            binds: seq![BindView::Text(remark), flag, BindView::Int(id)],
        }));
}

proof fn lemma_update_7(
    dialect: Dialect,
    id: i64,
    name: Seq<char>,
    remark: Seq<char>,
    flag: BindView,
)
    ensures
        assembled(dialect, update_pieces(id, assignments(Some(name), Some(remark), Some(flag)))) == (StatementView {
            sql: "UPDATE user_groups SET "@
                + "name"@
                + " = "@
                + placeholder(dialect, 1)
                + ", "@
                + "remark"@
                + " = "@
                + placeholder(dialect, 2)
                + ", "@
                + "allow_all_groups"@
                + " = "@
                + placeholder(dialect, 3)
                + " WHERE id = "@
                + placeholder(dialect, 4),
            binds: seq![BindView::Text(name), BindView::Text(remark), flag, BindView::Int(id)],
        }),
{
    let list = assignments(Some(name), Some(remark), Some(flag));
    assert(list =~= seq![
        AssignmentView { column: "name"@, value: BindView::Text(name) },
        AssignmentView { column: "remark"@, value: BindView::Text(remark) },
        AssignmentView { column: "allow_all_groups"@, value: flag },
    ]);
    assert(list.take(3).drop_last() =~= list.take(2));
    assert(list.take(2).drop_last() =~= list.take(1));
    assert(list.take(1).drop_last() =~= list.take(0));
    assert(list.take(3) =~= list);
    reveal_with_fuel(set_pieces, 4);
    let p = update_pieces(id, list);
    assert(p =~= seq![
        Piece::Fixed("UPDATE user_groups SET "@),
        Piece::Fixed("name"@),
        Piece::Fixed(" = "@),
        Piece::Param(BindView::Text(name)),
        Piece::Fixed(", "@),
        Piece::Fixed("remark"@),
        Piece::Fixed(" = "@),
        Piece::Param(BindView::Text(remark)),
        Piece::Fixed(", "@),
        Piece::Fixed("allow_all_groups"@),
        Piece::Fixed(" = "@),
        Piece::Param(flag),
        Piece::Fixed(" WHERE id = "@),
        Piece::Param(BindView::Int(id)),
    ]);
    lemma_next_piece(dialect, p, 0);
    lemma_next_piece(dialect, p, 1);
    lemma_next_piece(dialect, p, 2);
    lemma_next_piece(dialect, p, 3);
    lemma_next_piece(dialect, p, 4);
    lemma_next_piece(dialect, p, 5);
    lemma_next_piece(dialect, p, 6);
    lemma_next_piece(dialect, p, 7);
    lemma_next_piece(dialect, p, 8);
    lemma_next_piece(dialect, p, 9);
    lemma_next_piece(dialect, p, 10);
    lemma_next_piece(dialect, p, 11);
    lemma_next_piece(dialect, p, 12);
    lemma_next_piece(dialect, p, 13);
    assert(p.take(0) =~= seq![]);
    assert(p.take(14) =~= p);
    assert(assembled(dialect, p) =~= (StatementView {
            sql: "UPDATE user_groups SET "@
                + "name"@
                + " = "@
                + placeholder(dialect, 1)
                + ", "@
                + "remark"@
                + " = "@
                + placeholder(dialect, 2)
                + ", "@
                + "allow_all_groups"@
                + " = "@
                + placeholder(dialect, 3)
                + " WHERE id = "@
                + placeholder(dialect, 4),
            binds: seq![BindView::Text(name), BindView::Text(remark), flag, BindView::Int(id)],
        }));
}

} // verus!
