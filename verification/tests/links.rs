use relay_panel::db::DbAction;
use relay_panel::db::DbReply;
use relay_panel::link_update::LinkUpdate;
use relay_panel::sql::Bind;
use relay_panel::sql::Dialect;
use relay_panel::user_groups::UserGroupRepository;

fn replacement(dialect: Dialect, ids: &[i64]) -> LinkUpdate<String> {
    UserGroupRepository { dialect }.set_user_group_device_groups(4, ids)
}

fn pending(update: &LinkUpdate<String>) -> String {
    match update.action() {
        DbAction::Begin => "begin".to_string(),
        DbAction::Execute(statement) => {
            let mut out = statement.sql.clone();
            for bind in &statement.binds {
                match bind {
                    Bind::Int(n) => out.push_str(&format!(" [{}]", n)),
                    _ => panic!("ids only"),
                }
            }
            out
        }
        DbAction::Commit => "commit".to_string(),
        DbAction::Return => "return".to_string(),
        _ => panic!("nothing is read"),
    }
}

#[test]
fn links_are_replaced_in_one_transaction() {
    let mut run = replacement(Dialect::Sqlite, &[8, 9]);
    let mut seen: Vec<String> = vec![pending(&run)];
    let replies: Vec<DbReply<String>> = vec![
        DbReply::Begun,
        DbReply::Affected(3),
        DbReply::Affected(1),
        DbReply::Affected(1),
        DbReply::Committed,
    ];
    for reply in replies {
        run = run.step(reply);
        seen.push(pending(&run));
    }
    assert_eq!(
        seen,
        vec![
            "begin",
            "DELETE FROM user_group_device_groups WHERE user_group_id = ? [4]",
            "INSERT INTO user_group_device_groups (user_group_id, device_group_id) VALUES (?, ?) [4] [8]",
            "INSERT INTO user_group_device_groups (user_group_id, device_group_id) VALUES (?, ?) [4] [9]",
            "commit",
            "return",
        ]
    );
    assert_eq!(run.result(), Some(Ok(())));
}

#[test]
fn links_on_postgres() {
    let run = replacement(Dialect::Postgres, &[8]).step(DbReply::Begun);
    assert_eq!(
        pending(&run),
        "DELETE FROM user_group_device_groups WHERE user_group_id = $1 [4]"
    );
    let run = run.step(DbReply::Affected(0));
    assert_eq!(
        pending(&run),
        "INSERT INTO user_group_device_groups (user_group_id, device_group_id) VALUES ($1, $2) [4] [8]"
    );
}

#[test]
fn no_links_at_all() {
    let run = replacement(Dialect::Sqlite, &[])
        .step(DbReply::Begun)
        .step(DbReply::Affected(2));
    assert_eq!(pending(&run), "commit");
}

#[test]
fn refused_link_ends_without_a_commit() {
    let run = replacement(Dialect::Sqlite, &[8, 9, 10])
        .step(DbReply::Begun)
        .step(DbReply::Affected(2))
        .step(DbReply::Affected(1))
        .step(DbReply::Failed("constraint".to_string()));
    assert_eq!(pending(&run), "return");
    // Nothing that comes later leads to a commit.
    let run = run.step(DbReply::Affected(1)).step(DbReply::Committed);
    assert_eq!(pending(&run), "return");
    assert_eq!(run.result(), Some(Err("constraint".to_string())));
}

#[test]
fn failures_of_the_transaction_itself() {
    let begin = replacement(Dialect::Sqlite, &[8]).step(DbReply::Failed("begin".to_string()));
    assert_eq!(begin.result(), Some(Err("begin".to_string())));
    let commit = replacement(Dialect::Sqlite, &[])
        .step(DbReply::Begun)
        .step(DbReply::Affected(0))
        .step(DbReply::Failed("commit".to_string()));
    assert_eq!(commit.result(), Some(Err("commit".to_string())));
}

#[test]
fn stray_replies_leave_the_links_where_they_are() {
    let run = replacement(Dialect::Sqlite, &[8]).step(DbReply::Committed);
    assert_eq!(pending(&run), "begin");
    assert_eq!(run.result(), None);
}
