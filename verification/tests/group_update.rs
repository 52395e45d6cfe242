use relay_panel::authorization::authorized_ids;
use relay_panel::db::DbAction;
use relay_panel::db::DbError;
use relay_panel::db::DbReply;
use relay_panel::db::UserGroup;
use relay_panel::group_update::GroupUpdate;
use relay_panel::sql::Bind;
use relay_panel::sql::Dialect;
use relay_panel::sql::Statement;
use relay_panel::user_groups::UserGroupRepository;

fn update(dialect: Dialect) -> GroupUpdate<String> {
    UserGroupRepository { dialect }.update_user_group_with_pause(3, Some("n"), None, false)
}

fn group() -> UserGroup {
    UserGroup {
        id: 3,
        name: "n".to_string(),
        remark: "".to_string(),
        allow_all_groups: false,
        created_at: "now".to_string(),
    }
}

fn text(statement: &Statement) -> String {
    let mut out = statement.sql.clone();
    for bind in &statement.binds {
        match bind {
            Bind::Int(n) => out.push_str(&format!(" [{}]", n)),
            Bind::Text(s) => out.push_str(&format!(" ['{}']", s)),
            Bind::Flag(flag) => out.push_str(&format!(" [{}]", flag)),
            Bind::Small(_) => panic!("no small numbers"),
        }
    }
    out
}

fn pending(update: &GroupUpdate<String>) -> String {
    match update.action() {
        DbAction::Begin => "begin".to_string(),
        DbAction::Execute(s) => format!("run {}", text(&s)),
        DbAction::FetchIds(s) => format!("ids {}", text(&s)),
        DbAction::FetchGroup(s) => format!("group {}", text(&s)),
        DbAction::Commit => "commit".to_string(),
        DbAction::Return => "return".to_string(),
        _ => panic!("neither flags nor counts are read"),
    }
}

fn outcome(update: GroupUpdate<String>) -> String {
    match update.result() {
        None => "running".to_string(),
        Some(Ok(group)) => format!("group {}", group.id),
        Some(Err(DbError::NotFound)) => "not found".to_string(),
        Some(Err(DbError::Database(e))) => e,
    }
}

#[test]
fn every_member_is_reviewed_in_one_transaction() {
    let replies: Vec<DbReply<String>> = vec![
        DbReply::Begun,
        DbReply::Affected(1),
        DbReply::Ids(vec![21, 22]),
        DbReply::Ids(vec![]),
        DbReply::Ids(vec![]),
        DbReply::Affected(4),
        DbReply::Ids(vec![8]),
        DbReply::Ids(vec![9, 8, 7]),
        DbReply::Affected(0),
        DbReply::Committed,
        DbReply::Group(Some(group())),
    ];
    let linked = "ids SELECT dg.id FROM device_groups dg JOIN user_group_device_groups ugdg ON ugdg.device_group_id = dg.id JOIN users u ON u.group_id = ugdg.user_group_id WHERE u.id = ? AND dg.group_type = 'in' ORDER BY dg.id";
    let own = "ids SELECT id FROM device_groups WHERE uid = ? AND group_type = 'in'";
    let mut run = update(Dialect::Sqlite);
    let mut seen: Vec<String> = vec![pending(&run)];
    for reply in replies {
        run = run.step(reply);
        seen.push(pending(&run));
    }
    let expected: Vec<String> = vec![
        "begin".to_string(),
        "run UPDATE user_groups SET name = ?, allow_all_groups = ? WHERE id = ? ['n'] ['0'] [3]".to_string(),
        "ids SELECT id FROM users WHERE group_id = ? AND admin = 0 [3]".to_string(),
        format!("{} [21]", linked),
        format!("{} [21]", own),
        "run UPDATE forward_rules SET paused = 1 WHERE uid = ? AND paused = 0 [21]".to_string(),
        format!("{} [22]", linked),
        format!("{} [22]", own),
        "run UPDATE forward_rules SET paused = 1 WHERE uid = ? AND paused = 0 AND device_group_in NOT IN (?, ?, ?) [22] [7] [8] [9]".to_string(),
        "commit".to_string(),
        "group SELECT id, name, COALESCE(remark, ''), allow_all_groups, created_at FROM user_groups WHERE id = ? [3]".to_string(),
        "return".to_string(),
    ];
    assert_eq!(seen, expected);
    assert_eq!(outcome(run), "group 3");
}

#[test]
fn postgres_statements() {
    let run = update(Dialect::Postgres).step(DbReply::Begun);
    assert_eq!(
        pending(&run),
        "run UPDATE user_groups SET name = $1, allow_all_groups = $2 WHERE id = $3 ['n'] [false] [3]"
    );
    let run = run.step(DbReply::Affected(1));
    assert_eq!(
        pending(&run),
        "ids SELECT id FROM users WHERE group_id = $1 AND admin = FALSE [3]"
    );
    let run = run
        .step(DbReply::Ids(vec![21]))
        .step(DbReply::Ids(vec![9]))
        .step(DbReply::Ids(vec![8]));
    assert_eq!(
        pending(&run),
        "run UPDATE forward_rules SET paused = TRUE WHERE uid = $1 AND paused = FALSE AND device_group_in NOT IN ($2, $3) [21] [8] [9]"
    );
    let run = run.step(DbReply::Affected(2)).step(DbReply::Committed);
    assert_eq!(
        pending(&run),
        "group SELECT id, name, COALESCE(remark, ''), allow_all_groups, created_at FROM user_groups WHERE id = $1 [3]"
    );
}

#[test]
fn group_without_members_is_committed_at_once() {
    let run = update(Dialect::Sqlite)
        .step(DbReply::Begun)
        .step(DbReply::Affected(1))
        .step(DbReply::Ids(vec![]));
    assert_eq!(pending(&run), "commit");
}

#[test]
fn missing_group_is_not_found() {
    let run = update(Dialect::Sqlite)
        .step(DbReply::Begun)
        .step(DbReply::Affected(0));
    assert_eq!(pending(&run), "return");
    assert_eq!(outcome(run), "not found");
}

#[test]
fn group_that_is_gone_after_the_commit_is_not_found() {
    let run = update(Dialect::Sqlite)
        .step(DbReply::Begun)
        .step(DbReply::Affected(1))
        .step(DbReply::Ids(vec![]))
        .step(DbReply::Committed)
        .step(DbReply::Group(None));
    assert_eq!(outcome(run), "not found");
}

#[test]
fn failed_pause_ends_without_a_commit() {
    let run = update(Dialect::Sqlite)
        .step(DbReply::Begun)
        .step(DbReply::Affected(1))
        .step(DbReply::Ids(vec![21]))
        .step(DbReply::Ids(vec![8]))
        .step(DbReply::Ids(vec![]))
        .step(DbReply::Failed("locked".to_string()));
    assert_eq!(pending(&run), "return");
    // Nothing that comes later leads to a commit.
    let run = run.step(DbReply::Affected(1)).step(DbReply::Committed);
    assert_eq!(pending(&run), "return");
    assert_eq!(outcome(run), "locked");
}

#[test]
fn stray_replies_leave_the_update_where_it_is() {
    let run = update(Dialect::Sqlite).step(DbReply::Committed);
    assert_eq!(pending(&run), "begin");
    assert_eq!(outcome(run), "running");
}

#[test]
fn pause_spares_what_the_member_may_use() {
    let run = update(Dialect::Postgres)
        .step(DbReply::Begun)
        .step(DbReply::Affected(1))
        .step(DbReply::Ids(vec![21]))
        .step(DbReply::Ids(vec![8]))
        .step(DbReply::Ids(vec![9]));
    // Device group 8 is linked, 9 is the member's own, 7 is neither.
    assert_eq!(authorized_ids(vec![8], &[9]), vec![8, 9]);
    assert!(pending(&run).ends_with("NOT IN ($2, $3) [21] [8] [9]"));
    assert!(!pending(&run).contains("[7]"));
}

#[test]
fn group_that_allows_all_spares_every_inbound_group() {
    for dialect in [Dialect::Sqlite, Dialect::Postgres] {
        let repository = UserGroupRepository { dialect };
        let run: GroupUpdate<String> = repository
            .update_user_group_with_pause(3, None, None, true)
            .step(DbReply::Begun);
        match dialect {
            Dialect::Sqlite => assert_eq!(
                pending(&run),
                "run UPDATE user_groups SET allow_all_groups = ? WHERE id = ? ['1'] [3]"
            ),
            Dialect::Postgres => assert_eq!(
                pending(&run),
                "run UPDATE user_groups SET allow_all_groups = $1 WHERE id = $2 [true] [3]"
            ),
        }
        let run = run
            .step(DbReply::Affected(1))
            .step(DbReply::Ids(vec![21, 22]));
        let all = "ids SELECT id FROM device_groups WHERE group_type = 'in' ORDER BY id";
        assert_eq!(pending(&run), all);
        let run = run.step(DbReply::Ids(vec![1, 2, 3]));
        assert!(pending(&run).ends_with("[21] [1] [2] [3]"));
        let run = run.step(DbReply::Affected(0));
        assert_eq!(pending(&run), all);
        let run = run.step(DbReply::Ids(vec![1, 2, 3]));
        assert!(pending(&run).ends_with("[22] [1] [2] [3]"));
        assert_eq!(pending(&run.step(DbReply::Affected(0))), "commit");
    }
}

#[test]
fn paused_rules_are_summed_up() {
    let run = update(Dialect::Sqlite)
        .step(DbReply::Begun)
        .step(DbReply::Affected(1))
        .step(DbReply::Ids(vec![21, 22]))
        .step(DbReply::Ids(vec![]))
        .step(DbReply::Ids(vec![]))
        .step(DbReply::Affected(u64::MAX));
    assert_eq!(run.paused_total(), None);
    let run = run.step(DbReply::Ids(vec![])).step(DbReply::Ids(vec![]));
    let run = run.step(DbReply::Affected(2));
    assert_eq!(pending(&run), "commit");
    assert_eq!(run.paused_total(), Some(u64::MAX as u128 + 2));
    assert_eq!(run.step(DbReply::Committed).paused_total(), None);
    let idle = update(Dialect::Sqlite)
        .step(DbReply::Begun)
        .step(DbReply::Affected(1))
        .step(DbReply::Ids(vec![]));
    assert_eq!(idle.paused_total(), None);
}
