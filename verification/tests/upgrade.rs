use relay_panel::updater::screen_request;
use relay_panel::updater::self_upgrade;
use relay_panel::updater::Action;
use relay_panel::updater::Event;
use relay_panel::updater::Upgrade;

const HELLO: &str = "b94d27b9934d3e08a52e52d7da7dabfac484efe37a5380ee9088f7ace2efcde9";

fn ok() -> Result<(), String> {
    Ok(())
}

fn err() -> Result<(), String> {
    Err("boom".to_string())
}

fn backed_up(result: Result<(), String>) -> Event {
    Event::BackedUp {
        path: "/opt/relay-node.bak".to_string(),
        result,
    }
}

/// The events of an upgrade that nothing stands in the way of.
fn clean_events() -> Vec<Event> {
    vec![
        Event::Claimed(true),
        Event::Located(ok()),
        Event::ClientBuilt(ok()),
        Event::Responded(ok()),
        Event::Bytes(Ok(b"hello world".to_vec())),
        Event::Responded(ok()),
        Event::Text(Ok(format!("{}  relay-node-linux-amd64\n", HELLO))),
        Event::Stamp {
            pid: 42,
            nanos: Some(1700000000),
        },
        Event::Written(ok()),
        Event::Marked(ok()),
        backed_up(ok()),
        Event::Swapped(ok()),
    ]
}

/// What is pending, in words.
fn pending(upgrade: &Upgrade) -> String {
    match upgrade.action() {
        Action::Claim => "claim".to_string(),
        Action::Locate => "locate".to_string(),
        Action::BuildClient { timeout_secs } => format!("client {}", timeout_secs),
        Action::Request { url } => format!("get {}", url),
        Action::ReadBytes => "bytes".to_string(),
        Action::ReadText => "text".to_string(),
        Action::ReadStamp => "stamp".to_string(),
        Action::Write { extension, bytes } => format!("write {} {}", extension, bytes.len()),
        Action::SetMode { extension, mode } => format!("mode {} {:o}", extension, mode),
        Action::BackUp { extension } => format!("backup {}", extension),
        Action::Swap { extension } => format!("swap {}", extension),
        Action::Remove { extension } => format!("remove {}", extension),
        Action::Finish { release, result } => format!("finish {} {:?}", release, result),
    }
}

fn start() -> Upgrade {
    self_upgrade("systemd", "1.0.10", "x86_64")
}

/// Runs the clean events up to `n`, then `last`.
fn after(n: usize, last: Event) -> Upgrade {
    let mut upgrade = start();
    for event in clean_events().into_iter().take(n) {
        upgrade = upgrade.step(event);
    }
    upgrade.step(last)
}

#[test]
fn clean_upgrade_takes_every_step_in_order() {
    let mut upgrade = start();
    let mut seen: Vec<String> = vec![pending(&upgrade)];
    for event in clean_events() {
        upgrade = upgrade.step(event);
        seen.push(pending(&upgrade));
    }
    let url = "get https://github.com/MoeShinX/relay-panel/releases/download/v1.0.10/relay-node-linux-amd64";
    let expected: Vec<String> = vec![
        "claim".to_string(),
        "locate".to_string(),
        "client 180".to_string(),
        url.to_string(),
        "bytes".to_string(),
        format!("{}.sha256", url),
        "text".to_string(),
        "stamp".to_string(),
        "write upgrade.42.1700000000.tmp 11".to_string(),
        "mode upgrade.42.1700000000.tmp 755".to_string(),
        "backup bak".to_string(),
        "swap upgrade.42.1700000000.tmp".to_string(),
        "finish false Ok(())".to_string(),
    ];
    assert_eq!(seen, expected);
}

#[test]
fn arm_nodes_fetch_the_arm_asset() {
    let upgrade = self_upgrade("systemd", "2.0.0-rc.1", "aarch64")
        .step(Event::Claimed(true))
        .step(Event::Located(ok()))
        .step(Event::ClientBuilt(ok()));
    assert_eq!(
        pending(&upgrade),
        "get https://github.com/MoeShinX/relay-panel/releases/download/v2.0.0-rc.1/relay-node-linux-arm64"
    );
}

#[test]
fn only_systemd_may_upgrade() {
    for method in ["docker", "manual"] {
        let upgrade = self_upgrade(method, "1.0.10", "x86_64");
        let message = format!(
            "self-upgrade is only supported for systemd installs (this node is '{}'); update the container image / re-run the install script instead",
            method
        );
        let expected: Result<(), String> = Err(message);
        assert_eq!(pending(&upgrade), format!("finish false {:?}", expected));
    }
}

#[test]
fn only_plain_versions_are_admissible() {
    let upgrade = self_upgrade("systemd", "1.0.10/\"..\"", "x86_64");
    let expected: Result<(), String> = Err(format!(
        "refusing to upgrade to a non-semver version {:?}",
        "1.0.10/\"..\""
    ));
    assert_eq!(pending(&upgrade), format!("finish false {:?}", expected));
    // The method is looked at first.
    let upgrade = screen_request("manual", "latest", "quoted", "x86_64");
    assert!(pending(&upgrade).contains("this node is 'manual'"));
    let upgrade = screen_request("systemd", "latest", "quoted", "x86_64");
    assert_eq!(
        pending(&upgrade),
        "finish false Err(\"refusing to upgrade to a non-semver version quoted\")"
    );
    let upgrade = screen_request("systemd", "1.2.3", "quoted", "x86_64");
    assert_eq!(pending(&upgrade), "claim");
}

#[test]
fn second_upgrade_is_rejected_and_keeps_the_flag() {
    let upgrade = start().step(Event::Claimed(false));
    assert_eq!(
        pending(&upgrade),
        "finish false Err(\"an upgrade is already in progress\")"
    );
}

#[test]
fn unsupported_architecture_gives_the_flag_back() {
    let upgrade = self_upgrade("systemd", "1.0.10", "mips").step(Event::Claimed(true));
    assert_eq!(
        pending(&upgrade),
        "finish true Err(\"unsupported arch: mips\")"
    );
}

#[test]
fn failures_before_the_temporary_file() {
    let bytes: Result<Vec<u8>, String> = Err("boom".to_string());
    let text: Result<String, String> = Err("boom".to_string());
    let cases: Vec<(usize, Event, &str)> = vec![
        (1, Event::Located(err()), "current_exe: boom"),
        (2, Event::ClientBuilt(err()), "http client: boom"),
        (3, Event::Responded(err()), "download binary: boom"),
        (4, Event::Bytes(bytes), "read binary: boom"),
        (4, Event::Bytes(Ok(vec![])), "downloaded binary is empty"),
        (5, Event::Responded(err()), "download sha256: boom"),
        (6, Event::Text(text), "read sha256: boom"),
        (8, Event::Written(err()), "write temp binary: boom"),
    ];
    for (n, event, message) in cases {
        let expected: Result<(), String> = Err(message.to_string());
        assert_eq!(
            pending(&after(n, event)),
            format!("finish true {:?}", expected)
        );
    }
}

#[test]
fn wrong_digest_stops_the_upgrade() {
    let other = "ba7816bf8f01cfea414140de5dae2223b00361a396177a9cb410ff61f20015ad";
    let expected: Result<(), String> = Err(format!(
        "sha256 mismatch: expected {}, got {}",
        other, HELLO
    ));
    assert_eq!(
        pending(&after(6, Event::Text(Ok(other.to_string())))),
        format!("finish true {:?}", expected)
    );
    let expected: Result<(), String> = Err("malformed sha256 file: \"Not Found\"".to_string());
    assert_eq!(
        pending(&after(6, Event::Text(Ok("Not Found".to_string())))),
        format!("finish true {:?}", expected)
    );
}

#[test]
fn failures_after_the_temporary_file_remove_it() {
    let cases: Vec<(usize, Event, &str)> = vec![
        (9, Event::Marked(err()), "chmod temp binary: boom"),
        (
            10,
            backed_up(err()),
            "backup to /opt/relay-node.bak failed, aborting upgrade: boom",
        ),
        (11, Event::Swapped(err()), "swap binary: boom"),
    ];
    for (n, event, message) in cases {
        let upgrade = after(n, event);
        assert_eq!(pending(&upgrade), "remove upgrade.42.1700000000.tmp");
        let upgrade = upgrade.step(Event::Removed);
        let expected: Result<(), String> = Err(message.to_string());
        assert_eq!(pending(&upgrade), format!("finish true {:?}", expected));
    }
}

#[test]
fn clock_before_the_epoch_counts_as_zero() {
    let upgrade = after(
        7,
        Event::Stamp {
            pid: 7,
            nanos: None,
        },
    );
    assert_eq!(pending(&upgrade), "write upgrade.7.0.tmp 11");
}

#[test]
fn stray_events_change_nothing() {
    let upgrade = start().step(Event::Swapped(ok())).step(Event::Removed);
    assert_eq!(pending(&upgrade), "claim");
    let upgrade = after(11, Event::Swapped(ok())).step(Event::Swapped(err()));
    assert_eq!(pending(&upgrade), "finish false Ok(())");
}
