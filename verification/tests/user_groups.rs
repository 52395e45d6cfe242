use relay_panel::sql::Bind;
use relay_panel::sql::Dialect;
use relay_panel::sql::Statement;
use relay_panel::user_groups::allows_all;
use relay_panel::user_groups::restricted;
use relay_panel::user_groups::UserGroupRepository;

const SQLITE: UserGroupRepository = UserGroupRepository {
    dialect: Dialect::Sqlite,
};

const POSTGRES: UserGroupRepository = UserGroupRepository {
    dialect: Dialect::Postgres,
};

fn binds(statement: &Statement) -> Vec<String> {
    statement
        .binds
        .iter()
        .map(|bind| match bind {
            Bind::Int(n) => format!("int {}", n),
            Bind::Small(n) => format!("small {}", n),
            Bind::Flag(b) => format!("flag {}", b),
            Bind::Text(s) => format!("text {}", s),
        })
        .collect()
}

fn check(statement: Statement, sql: &str, values: &[&str]) {
    assert_eq!(statement.sql, sql);
    assert_eq!(binds(&statement), values);
}

#[test]
fn list_and_find() {
    check(SQLITE.list_user_groups(), "SELECT * FROM user_groups ORDER BY id", &[]);
    check(POSTGRES.list_user_groups(), "SELECT * FROM user_groups ORDER BY id", &[]);
    check(
        SQLITE.find_user_group_by_id(5),
        "SELECT * FROM user_groups WHERE id = ?",
        &["int 5"],
    );
    check(
        POSTGRES.find_user_group_by_id(-5),
        "SELECT * FROM user_groups WHERE id = $1",
        &["int -5"],
    );
}

#[test]
fn insert() {
    check(
        SQLITE.insert_user_group("n", "r", true),
        "INSERT INTO user_groups (name, remark, allow_all_groups) VALUES (?, ?, ?)",
        &["text n", "text r", "small 1"],
    );
    check(
        SQLITE.insert_user_group("n", "r", false),
        "INSERT INTO user_groups (name, remark, allow_all_groups) VALUES (?, ?, ?)",
        &["text n", "text r", "small 0"],
    );
    check(
        POSTGRES.insert_user_group("n", "r", true),
        "INSERT INTO user_groups (name, remark, allow_all_groups) VALUES ($1, $2, $3) RETURNING id",
        &["text n", "text r", "flag true"],
    );
    match SQLITE.last_inserted_id() {
        Some(statement) => check(statement, "SELECT last_insert_rowid()", &[]),
        None => panic!("SQLite asks for the id"),
    }
    assert!(POSTGRES.last_inserted_id().is_none());
}

fn updated(statement: Option<Statement>, sql: &str, values: &[&str]) {
    match statement {
        Some(statement) => check(statement, sql, values),
        None => panic!("there is something to set"),
    }
}

#[test]
fn update_sets_what_is_given() {
    updated(
        SQLITE.update_user_group(3, Some("n"), Some("r"), Some(true)),
        "UPDATE user_groups SET name = ?, remark = ?, allow_all_groups = ? WHERE id = ?",
        &["text n", "text r", "text 1", "int 3"],
    );
    updated(
        POSTGRES.update_user_group(3, Some("n"), Some("r"), Some(true)),
        "UPDATE user_groups SET name = $1, remark = $2, allow_all_groups = $3 WHERE id = $4",
        &["text n", "text r", "text true", "int 3"],
    );
    updated(
        SQLITE.update_user_group(3, None, Some("r"), None),
        "UPDATE user_groups SET remark = ? WHERE id = ?",
        &["text r", "int 3"],
    );
    updated(
        POSTGRES.update_user_group(3, None, None, Some(false)),
        "UPDATE user_groups SET allow_all_groups = $1 WHERE id = $2",
        &["text false", "int 3"],
    );
    updated(
        SQLITE.update_user_group(3, Some("n"), None, Some(false)),
        "UPDATE user_groups SET name = ?, allow_all_groups = ? WHERE id = ?",
        &["text n", "text 0", "int 3"],
    );
    updated(
        POSTGRES.update_user_group(3, Some("n"), None, None),
        "UPDATE user_groups SET name = $1 WHERE id = $2",
        &["text n", "int 3"],
    );
}

#[test]
fn update_of_nothing_needs_no_statement() {
    assert!(SQLITE.update_user_group(3, None, None, None).is_none());
    assert!(POSTGRES.update_user_group(3, None, None, None).is_none());
}

#[test]
fn values_stay_out_of_the_text() {
    let evil = "x'; DROP TABLE users; -- $9 ?";
    updated(
        POSTGRES.update_user_group(3, Some(evil), None, None),
        "UPDATE user_groups SET name = $1 WHERE id = $2",
        &["text x'; DROP TABLE users; -- $9 ?", "int 3"],
    );
}

#[test]
fn delete_and_count() {
    check(
        SQLITE.delete_user_group(4),
        "DELETE FROM user_groups WHERE id = ?",
        &["int 4"],
    );
    check(
        POSTGRES.delete_user_group(4),
        "DELETE FROM user_groups WHERE id = $1",
        &["int 4"],
    );
    check(
        SQLITE.count_users_in_group(4),
        "SELECT COUNT(*) FROM users WHERE group_id = ? AND admin = 0",
        &["int 4"],
    );
    check(
        POSTGRES.count_users_in_group(4),
        "SELECT COUNT(*) FROM users WHERE group_id = $1 AND admin = FALSE",
        &["int 4"],
    );
}

#[test]
fn device_group_links() {
    check(
        SQLITE.list_user_group_device_groups(4),
        "SELECT device_group_id FROM user_group_device_groups WHERE user_group_id = ? ORDER BY device_group_id",
        &["int 4"],
    );
    check(
        POSTGRES.list_user_group_device_groups(4),
        "SELECT device_group_id FROM user_group_device_groups WHERE user_group_id = $1 ORDER BY device_group_id",
        &["int 4"],
    );
}

#[test]
fn group_flag_questions() {
    check(
        SQLITE.user_group_allows_all(6),
        "SELECT ug.allow_all_groups
             FROM user_groups ug
             JOIN users u ON u.group_id = ug.id
             WHERE u.id = ?",
        &["int 6"],
    );
    check(
        POSTGRES.user_group_allows_all(6),
        "SELECT ug.allow_all_groups
             FROM user_groups ug
             JOIN users u ON u.group_id = ug.id
             WHERE u.id = $1",
        &["int 6"],
    );
    check(
        SQLITE.is_user_restricted(6),
        "SELECT ug.allow_all_groups FROM user_groups ug JOIN users u ON u.group_id = ug.id WHERE u.id = ?",
        &["int 6"],
    );
    check(
        POSTGRES.is_user_restricted(6),
        "SELECT ug.allow_all_groups FROM user_groups ug JOIN users u ON u.group_id = ug.id WHERE u.id = $1",
        &["int 6"],
    );
    assert!(allows_all(Some(true)));
    assert!(!allows_all(Some(false)));
    assert!(!allows_all(None));
    assert!(restricted(Some(false)));
    assert!(!restricted(Some(true)));
    assert!(!restricted(None));
}

#[test]
fn pause_outside_groups() {
    check(
        SQLITE.pause_rules_outside_groups(2, &[]),
        "UPDATE forward_rules SET paused = 1 WHERE uid = ? AND paused = 0",
        &["int 2"],
    );
    check(
        POSTGRES.pause_rules_outside_groups(2, &[]),
        "UPDATE forward_rules SET paused = TRUE WHERE uid = $1 AND paused = FALSE",
        &["int 2"],
    );
    check(
        SQLITE.pause_rules_outside_groups(2, &[10]),
        "UPDATE forward_rules SET paused = 1 WHERE uid = ? AND paused = 0 AND device_group_in NOT IN (?)",
        &["int 2", "int 10"],
    );
    check(
        POSTGRES.pause_rules_outside_groups(2, &[10, 11, 12]),
        "UPDATE forward_rules SET paused = TRUE WHERE uid = $1 AND paused = FALSE AND device_group_in NOT IN ($2, $3, $4)",
        &["int 2", "int 10", "int 11", "int 12"],
    );
}

#[test]
fn placeholders_count_past_nine() {
    let ids: Vec<i64> = (1..=12).collect();
    let statement = POSTGRES.pause_rules_outside_groups(2, &ids);
    assert!(statement
        .sql
        .ends_with("NOT IN ($2, $3, $4, $5, $6, $7, $8, $9, $10, $11, $12, $13)"));
    assert_eq!(statement.binds.len(), 13);
    let statement = SQLITE.pause_rules_outside_groups(2, &ids);
    assert_eq!(statement.sql.matches('?').count(), statement.binds.len());
}

#[test]
fn user_ids() {
    check(
        SQLITE.list_user_ids_in_group(4),
        "SELECT id FROM users WHERE group_id = ? AND admin = 0 ORDER BY id",
        &["int 4"],
    );
    check(
        POSTGRES.list_user_ids_in_group(4),
        "SELECT id FROM users WHERE group_id = $1 AND admin = FALSE ORDER BY id",
        &["int 4"],
    );
}
