use relay_panel::authorization::authorized_ids;
use relay_panel::authorization::Authorization;
use relay_panel::db::DbAction;
use relay_panel::db::DbReply;
use relay_panel::sql::Bind;
use relay_panel::sql::Dialect;
use relay_panel::sql::Statement;
use relay_panel::user_groups::UserGroupRepository;

fn question(dialect: Dialect) -> Authorization<String> {
    UserGroupRepository { dialect }.authorized_device_group_ids(6)
}

fn text(statement: &Statement) -> String {
    let mut out = statement.sql.clone();
    for bind in &statement.binds {
        match bind {
            Bind::Int(n) => out.push_str(&format!(" [{}]", n)),
            _ => panic!("ids only"),
        }
    }
    out
}

fn pending(question: &Authorization<String>) -> String {
    match question.action() {
        DbAction::FetchCount(s) => format!("count {}", text(&s)),
        DbAction::FetchFlag(s) => format!("flag {}", text(&s)),
        DbAction::FetchIds(s) => format!("ids {}", text(&s)),
        DbAction::Return => "return".to_string(),
        _ => panic!("the question changes nothing"),
    }
}

const ALL: &str = "ids SELECT id FROM device_groups WHERE group_type = 'in' ORDER BY id";

#[test]
fn user_without_a_group_gets_all() {
    let q = question(Dialect::Sqlite);
    assert_eq!(
        pending(&q),
        "count SELECT COUNT(*) FROM users WHERE id = ? AND group_id IS NOT NULL [6]"
    );
    let q = q.step(DbReply::Count(0));
    assert_eq!(pending(&q), ALL);
    let q = q.step(DbReply::Ids(vec![1, 2, 3]));
    assert_eq!(pending(&q), "return");
    assert_eq!(q.result(), Some(Ok(vec![1, 2, 3])));
}

#[test]
fn group_that_allows_all_gets_all() {
    let q = question(Dialect::Postgres).step(DbReply::Count(1));
    assert!(pending(&q).starts_with("flag SELECT ug.allow_all_groups\n"));
    assert!(pending(&q).ends_with("WHERE u.id = $1 [6]"));
    let q = q.step(DbReply::Flag(Some(true)));
    assert_eq!(pending(&q), ALL);
    assert_eq!(q.step(DbReply::Ids(vec![])).result(), Some(Ok(vec![])));
}

#[test]
fn restricted_user_gets_linked_and_own() {
    let q = question(Dialect::Postgres)
        .step(DbReply::Count(1))
        .step(DbReply::Flag(Some(false)));
    assert_eq!(
        pending(&q),
        "ids SELECT dg.id FROM device_groups dg JOIN user_group_device_groups ugdg ON ugdg.device_group_id = dg.id JOIN users u ON u.group_id = ugdg.user_group_id WHERE u.id = $1 AND dg.group_type = 'in' ORDER BY dg.id [6]"
    );
    let q = q.step(DbReply::Ids(vec![2, 9]));
    assert_eq!(
        pending(&q),
        "ids SELECT id FROM device_groups WHERE uid = $1 AND group_type = 'in' [6]"
    );
    let q = q.step(DbReply::Ids(vec![9, 5, 1, 5]));
    assert_eq!(q.result(), Some(Ok(vec![1, 2, 5, 9])));
}

#[test]
fn missing_flag_restricts() {
    let q = question(Dialect::Sqlite)
        .step(DbReply::Count(1))
        .step(DbReply::Flag(None));
    assert!(pending(&q).starts_with("ids SELECT dg.id"));
}

#[test]
fn failures_are_returned() {
    let replies: Vec<DbReply<String>> = vec![
        DbReply::Count(1),
        DbReply::Flag(Some(false)),
        DbReply::Ids(vec![1]),
    ];
    let mut q = question(Dialect::Sqlite);
    let failed = question(Dialect::Sqlite).step(DbReply::Failed("down".to_string()));
    assert_eq!(failed.result(), Some(Err("down".to_string())));
    for reply in replies {
        q = q.step(reply);
    }
    let q = q
        .step(DbReply::Failed("down".to_string()))
        .step(DbReply::Ids(vec![3]));
    assert_eq!(q.result(), Some(Err("down".to_string())));
}

#[test]
fn stray_replies_change_nothing() {
    let q = question(Dialect::Sqlite).step(DbReply::Committed);
    assert!(pending(&q).starts_with("count "));
    assert!(q.result().is_none());
}

#[test]
fn own_groups_join_once_and_in_order() {
    assert_eq!(authorized_ids(vec![], &[]), Vec::<i64>::new());
    assert_eq!(authorized_ids(vec![3, 1], &[]), vec![1, 3]);
    assert_eq!(authorized_ids(vec![1, 3], &[2, 3, 2]), vec![1, 2, 3]);
    // Linked ids are not thinned out.
    assert_eq!(authorized_ids(vec![4, 4], &[4]), vec![4, 4]);
    assert_eq!(
        authorized_ids(vec![i64::MAX, i64::MIN], &[0]),
        vec![i64::MIN, 0, i64::MAX]
    );
}
