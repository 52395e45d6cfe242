//! What an upgrade does at each point, in plain terms: what it asks for, what it takes for an
//! answer, and what it says when it fails.
use vstd::prelude::*;

use crate::digest::debug_quoted;
use crate::digest::digest_verdict;
use crate::digest::first_word;
use crate::digest::sha256;
use crate::semver::law_version_stays_in_its_segment;
use crate::semver::plain_semver;
use crate::text::decimal;
use crate::updater::asset_arch_text;
use crate::updater::install_method_text;
use crate::updater::next;
use crate::updater::pending;
use crate::updater::screened;
use crate::updater::temp_extension;
use crate::updater::ActionView;
use crate::updater::EventView;
use crate::updater::JobView;
use crate::updater::UpgradeView;
use crate::updater::BINARY_LIMIT;
use crate::upgrade_laws::job_for;
use crate::upgrade_laws::law_requests_come_in_order;
use crate::upgrade_laws::planned_requests;
use crate::upgrade_laws::requests;

verus! {

/// A node is run by docker where there is a `/.dockerenv`, else by systemd where there is an
/// `INVOCATION_ID`, else by hand.
pub proof fn law_install_methods(dockerenv: bool, invocation_id: bool)
    ensures
        dockerenv <==> install_method_text(dockerenv, invocation_id) == "docker"@,
        !dockerenv && invocation_id <==> install_method_text(dockerenv, invocation_id)
            == "systemd"@,
        !dockerenv && !invocation_id <==> install_method_text(dockerenv, invocation_id)
            == "manual"@,
{
    reveal_strlit("docker");
    reveal_strlit("systemd");
    reveal_strlit("manual");
    assert("docker"@[0] == 'd');
    assert("manual"@[0] == 'm');
    assert("systemd"@[0] == 's');
}

/// There are assets for two architectures, and for no other.
pub proof fn law_assets(arch: Seq<char>)
    ensures
        asset_arch_text("x86_64"@) == Some("amd64"@),
        asset_arch_text("aarch64"@) == Some("arm64"@),
        asset_arch_text(arch) is Some <==> arch == "x86_64"@ || arch == "aarch64"@,
{
    reveal_strlit("x86_64");
    reveal_strlit("aarch64");
    assert("x86_64"@[0] == 'x');
    assert("aarch64"@[0] == 'a');
}

/// The temporary file is named by the process and the time, each in decimal.
pub proof fn law_temporary_names(pid: nat, nanos: nat)
    ensures
        temp_extension(pid, nanos) == "upgrade."@ + decimal(pid) + "."@ + decimal(nanos) + ".tmp"@,
        BINARY_LIMIT == 0x2000_0000_0000_0000,
{
}

/// The first request of an upgrade is for the whole requested version of the asset for the
/// node's architecture, at the official release; the second is for the same URL with
/// `.sha256`; there is no third.
pub proof fn law_request_urls(
    method: Seq<char>,
    version: Seq<char>,
    quoted: Seq<char>,
    arch: Seq<char>,
    events: Seq<EventView>,
)
    ensures
        ({
            let urls = requests(screened(method, version, quoted, arch), events);
            &&& urls.len() <= 2
            &&& urls.len() > 0 ==> {
                ||| arch == "x86_64"@ && urls[0]
                    == "https://github.com/MoeShinX/relay-panel/releases/download/v"@ + version
                    + "/relay-node-linux-"@ + "amd64"@
                ||| arch == "aarch64"@ && urls[0]
                    == "https://github.com/MoeShinX/relay-panel/releases/download/v"@ + version
                    + "/relay-node-linux-"@ + "arm64"@
            }
            &&& urls.len() == 2 ==> urls[1] == urls[0] + ".sha256"@
        }),
{
    let start = screened(method, version, quoted, arch);
    let urls = requests(start, events);
    let planned = planned_requests(version, arch);
    law_requests_come_in_order(start, events, version, arch);
    law_assets(arch);
    if urls.len() > 0 {
        assert(urls[0] == planned[0]);
        let job = job_for(version, arch)->Some_0;
        reveal_strlit("/");
        reveal_strlit("relay-node-linux-");
        reveal_strlit("/relay-node-linux-");
        assert("/"@ + "relay-node-linux-"@ =~= "/relay-node-linux-"@);
        let head = "https://github.com/MoeShinX/relay-panel/releases/download/v"@;
        assert(job.binary_url() == head + version + "/"@ + job.asset);
        assert(forall|suffix: Seq<char>|
            head + version + "/"@ + #[trigger] ("relay-node-linux-"@ + suffix) =~= head + version + (
            "/"@ + "relay-node-linux-"@) + suffix);
    }
    if urls.len() == 2 {
        assert(urls[1] == planned[1]);
    }
}

/// The requests for two different versions go to different URLs, whatever the architectures.
pub proof fn law_versions_do_not_share_urls(
    version1: Seq<char>,
    asset1: Seq<char>,
    version2: Seq<char>,
    asset2: Seq<char>,
)
    requires
        plain_semver(version1),
        plain_semver(version2),
        version1 != version2,
    ensures
        (JobView { version: version1, asset: asset1 }).binary_url() != (JobView {
            version: version2,
            asset: asset2,
        }).binary_url(),
        (JobView { version: version1, asset: asset1 }).digest_url() != (JobView {
            version: version2,
            asset: asset2,
        }).digest_url(),
{
    let head = "https://github.com/MoeShinX/relay-panel/releases/download/v"@;
    law_version_stays_in_its_segment(version1);
    law_version_stays_in_its_segment(version2);
    lemma_segments(head, version1, asset1, version2, asset2);
    lemma_segments(head, version1, asset1 + ".sha256"@, version2, asset2 + ".sha256"@);
    assert((JobView { version: version1, asset: asset1 }).digest_url() =~= head + version1 + "/"@ + (
    asset1 + ".sha256"@));
    assert((JobView { version: version2, asset: asset2 }).digest_url() =~= head + version2 + "/"@ + (
    asset2 + ".sha256"@));
}

proof fn lemma_segments(
    head: Seq<char>,
    version1: Seq<char>,
    asset1: Seq<char>,
    version2: Seq<char>,
    asset2: Seq<char>,
)
    requires
        !version1.contains('/'),
        !version2.contains('/'),
    ensures
        head + version1 + "/"@ + asset1 == head + version2 + "/"@ + asset2 ==> version1 == version2,
{
    reveal_strlit("/");
    let a = head + version1 + "/"@ + asset1;
    let b = head + version2 + "/"@ + asset2;
    let n = head.len() as int;
    let p = version1.len() as int;
    let q = version2.len() as int;
    assert(a[n + p] == '/');
    assert(b[n + q] == '/');
    if a == b && p < q {
        assert(b[n + p] == version2[p]);
        assert(version2.contains('/'));
    }
    if a == b && q < p {
        assert(a[n + q] == version1[q]);
        assert(version1.contains('/'));
    }
    assert(a.subrange(n, n + p) =~= version1);
    assert(b.subrange(n, n + q) =~= version2);
}

/// A request is refused at once where the node is not run by systemd, or else where the version
/// is not plain; else it goes on to claim the right with the whole version and architecture.
pub proof fn law_requests_are_screened(
    method: Seq<char>,
    version: Seq<char>,
    quoted: Seq<char>,
    arch: Seq<char>,
)
    ensures
        method != "systemd"@ ==> screened(method, version, quoted, arch) == (
        UpgradeView::Finished {
            release: false,
            result: Err(
                "self-upgrade is only supported for systemd installs (this node is '"@ + method
                    + "'); update the container image / re-run the install script instead"@,
            ),
        }),
        method == "systemd"@ && !plain_semver(version) ==> screened(method, version, quoted, arch)
            == (UpgradeView::Finished {
            release: false,
            result: Err("refusing to upgrade to a non-semver version "@ + quoted),
        }),
        method == "systemd"@ && plain_semver(version) ==> screened(method, version, quoted, arch)
            == (UpgradeView::Claiming { version, arch }),
{
}

/// What an upgrade waits for in each state.
pub proof fn law_upgrade_asks(
    version: Seq<char>,
    arch: Seq<char>,
    job: JobView,
    binary: Seq<u8>,
    temp: Seq<char>,
    message: Seq<char>,
    release: bool,
    result: Result<(), Seq<char>>,
)
    ensures
        pending(UpgradeView::Claiming { version, arch }) == ActionView::Claim,
        pending(UpgradeView::Locating { job }) == ActionView::Locate,
        pending(UpgradeView::Building { job }) == (ActionView::BuildClient { timeout_secs: 180 }),
        pending(UpgradeView::FetchingBinary { job }) == (ActionView::Request {
            url: "https://github.com/MoeShinX/relay-panel/releases/download/v"@ + job.version
                + "/"@ + job.asset,
        }),
        pending(UpgradeView::ReadingBinary { job }) == ActionView::ReadBytes,
        pending(UpgradeView::FetchingDigest { job, binary }) == (ActionView::Request {
            url: "https://github.com/MoeShinX/relay-panel/releases/download/v"@ + job.version
                + "/"@ + job.asset + ".sha256"@,
        }),
        pending(UpgradeView::ReadingDigest { job, binary }) == ActionView::ReadText,
        pending(UpgradeView::Stamping { binary }) == ActionView::ReadStamp,
        pending(UpgradeView::Writing { binary, temp }) == (ActionView::Write {
            extension: temp,
            bytes: binary,
        }),
        pending(UpgradeView::Marking { temp }) == (ActionView::SetMode {
            extension: temp,
            mode: 0o755,
        }),
        pending(UpgradeView::BackingUp { temp }) == (ActionView::BackUp { extension: "bak"@ }),
        pending(UpgradeView::Swapping { temp }) == (ActionView::Swap { extension: temp }),
        pending(UpgradeView::Discarding { temp, message }) == (ActionView::Remove {
            extension: temp,
        }),
        pending(UpgradeView::Finished { release, result }) == (ActionView::Finish {
            release,
            result,
        }),
{
}

/// Where what it asked for succeeds, an upgrade goes on, and hands on the job, the binary and
/// the name of the temporary file unchanged.
pub proof fn law_upgrade_goes_on(
    version: Seq<char>,
    job: JobView,
    binary: Seq<u8>,
    text: Seq<char>,
    pid: nat,
    nanos: nat,
    temp: Seq<char>,
    path: Seq<char>,
)
    ensures
        next(
            UpgradeView::Claiming { version, arch: "x86_64"@ },
            EventView::Claimed(true),
        ) == (UpgradeView::Locating {
            job: JobView { version, asset: "relay-node-linux-"@ + "amd64"@ },
        }),
        next(
            UpgradeView::Claiming { version, arch: "aarch64"@ },
            EventView::Claimed(true),
        ) == (UpgradeView::Locating {
            job: JobView { version, asset: "relay-node-linux-"@ + "arm64"@ },
        }),
        next(UpgradeView::Locating { job }, EventView::Located(Ok(()))) == (UpgradeView::Building {
            job,
        }),
        next(UpgradeView::Building { job }, EventView::ClientBuilt(Ok(()))) == (
        UpgradeView::FetchingBinary { job }),
        next(UpgradeView::FetchingBinary { job }, EventView::Responded(Ok(()))) == (
        UpgradeView::ReadingBinary { job }),
        binary.len() > 0 ==> next(
            UpgradeView::ReadingBinary { job },
            EventView::Bytes(Ok(binary)),
        ) == (UpgradeView::FetchingDigest { job, binary }),
        next(UpgradeView::FetchingDigest { job, binary }, EventView::Responded(Ok(()))) == (
        UpgradeView::ReadingDigest { job, binary }),
        digest_verdict(first_word(text), debug_quoted(text), sha256(binary)) is Ok ==> next(
            UpgradeView::ReadingDigest { job, binary },
            EventView::Text(Ok(text)),
        ) == (UpgradeView::Stamping { binary }),
        next(
            UpgradeView::Stamping { binary },
            EventView::Stamp { pid, nanos: Some(nanos) },
        ) == (UpgradeView::Writing {
            binary,
            temp: "upgrade."@ + decimal(pid) + "."@ + decimal(nanos) + ".tmp"@,
        }),
        next(UpgradeView::Stamping { binary }, EventView::Stamp { pid, nanos: None }) == (
        UpgradeView::Writing {
            binary,
            temp: "upgrade."@ + decimal(pid) + "."@ + decimal(0) + ".tmp"@,
        }),
        next(UpgradeView::Writing { binary, temp }, EventView::Written(Ok(()))) == (
        UpgradeView::Marking { temp }),
        next(UpgradeView::Marking { temp }, EventView::Marked(Ok(()))) == (UpgradeView::BackingUp {
            temp,
        }),
        next(UpgradeView::BackingUp { temp }, EventView::BackedUp { path, result: Ok(()) }) == (
        UpgradeView::Swapping { temp }),
        next(UpgradeView::Swapping { temp }, EventView::Swapped(Ok(()))) == (
        UpgradeView::Finished { release: false, result: Ok(()) }),
{
    law_assets("x86_64"@);
}

/// Where what it asked for fails, an upgrade ends with the step that failed and the cause, and
/// gives the right back; a temporary file that was written is removed first. One that does not
/// get the right ends without giving it back.
pub proof fn law_upgrade_failures(
    version: Seq<char>,
    arch: Seq<char>,
    job: JobView,
    binary: Seq<u8>,
    text: Seq<char>,
    temp: Seq<char>,
    path: Seq<char>,
    e: Seq<char>,
)
    ensures
        next(UpgradeView::Claiming { version, arch }, EventView::Claimed(false)) == (
        UpgradeView::Finished {
            release: false,
            result: Err("an upgrade is already in progress"@),
        }),
        arch != "x86_64"@ && arch != "aarch64"@ ==> next(
            UpgradeView::Claiming { version, arch },
            EventView::Claimed(true),
        ) == (UpgradeView::Finished { release: true, result: Err("unsupported arch: "@ + arch) }),
        next(UpgradeView::Locating { job }, EventView::Located(Err(e))) == (UpgradeView::Finished {
            release: true,
            result: Err("current_exe: "@ + e),
        }),
        next(UpgradeView::Building { job }, EventView::ClientBuilt(Err(e))) == (
        UpgradeView::Finished { release: true, result: Err("http client: "@ + e) }),
        next(UpgradeView::FetchingBinary { job }, EventView::Responded(Err(e))) == (
        UpgradeView::Finished { release: true, result: Err("download binary: "@ + e) }),
        next(UpgradeView::ReadingBinary { job }, EventView::Bytes(Err(e))) == (
        UpgradeView::Finished { release: true, result: Err("read binary: "@ + e) }),
        next(UpgradeView::ReadingBinary { job }, EventView::Bytes(Ok(Seq::empty()))) == (
        UpgradeView::Finished { release: true, result: Err("downloaded binary is empty"@) }),
        next(UpgradeView::FetchingDigest { job, binary }, EventView::Responded(Err(e))) == (
        UpgradeView::Finished { release: true, result: Err("download sha256: "@ + e) }),
        next(UpgradeView::ReadingDigest { job, binary }, EventView::Text(Err(e))) == (
        UpgradeView::Finished { release: true, result: Err("read sha256: "@ + e) }),
        digest_verdict(first_word(text), debug_quoted(text), sha256(binary)) == Err::<
            (),
            Seq<char>,
        >(e) ==> next(
            UpgradeView::ReadingDigest { job, binary },
            EventView::Text(Ok(text)),
        ) == (UpgradeView::Finished { release: true, result: Err(e) }),
        next(UpgradeView::Writing { binary, temp }, EventView::Written(Err(e))) == (
        UpgradeView::Finished { release: true, result: Err("write temp binary: "@ + e) }),
        next(UpgradeView::Marking { temp }, EventView::Marked(Err(e))) == (
        UpgradeView::Discarding { temp, message: "chmod temp binary: "@ + e }),
        next(UpgradeView::BackingUp { temp }, EventView::BackedUp { path, result: Err(e) }) == (
        UpgradeView::Discarding {
            temp,
            message: "backup to "@ + path + " failed, aborting upgrade: "@ + e,
        }),
        next(UpgradeView::Swapping { temp }, EventView::Swapped(Err(e))) == (
        UpgradeView::Discarding { temp, message: "swap binary: "@ + e }),
        next(UpgradeView::Discarding { temp, message: e }, EventView::Removed) == (
        UpgradeView::Finished { release: true, result: Err(e) }),
{
    law_assets(arch);
}

/// An event that does not answer what an upgrade waits for leaves it as it is.
pub proof fn law_stray_events_are_ignored(state: UpgradeView, event: EventView)
    requires
        match state {
            UpgradeView::Claiming { .. } => !(event is Claimed),
            UpgradeView::Locating { .. } => !(event is Located),
            UpgradeView::Building { .. } => !(event is ClientBuilt),
            UpgradeView::FetchingBinary { .. } => !(event is Responded),
            UpgradeView::ReadingBinary { .. } => !(event is Bytes),
            UpgradeView::FetchingDigest { .. } => !(event is Responded),
            UpgradeView::ReadingDigest { .. } => !(event is Text),
            UpgradeView::Stamping { .. } => !(event is Stamp),
            UpgradeView::Writing { .. } => !(event is Written),
            UpgradeView::Marking { .. } => !(event is Marked),
            UpgradeView::BackingUp { .. } => !(event is BackedUp),
            UpgradeView::Swapping { .. } => !(event is Swapped),
            UpgradeView::Discarding { .. } => !(event is Removed),
            UpgradeView::Finished { .. } => true,
        },
    ensures
        next(state, event) == state,
{
}

} // verus!
