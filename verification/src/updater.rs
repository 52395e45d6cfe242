//! Self-upgrade of a node: whether it may run, what it downloads, and the order in which the
//! running binary is checked, backed up and replaced.
//!
//! An upgrade is a state (`Upgrade`) that says what to do next (`Upgrade::action`) and takes
//! what came of it (`Upgrade::step`). The caller performs the actions one after the other
//! until the state is finished.
use vstd::prelude::*;
use vstd::string::StringExecFns;

use crate::digest::debug_quoted;
use crate::digest::debug_text;
use crate::digest::digest_verdict;
use crate::digest::first_word;
use crate::digest::sha256;
use crate::digest::verify_binary;
use crate::semver::is_plain_semver;
use crate::semver::plain_semver;
use crate::text::decimal;
use crate::text::decimal_text;
use crate::text::outcome;
use crate::text::same_text;

verus! {

/// How a node is run: `docker` where `/.dockerenv` exists, else `systemd` where
/// `INVOCATION_ID` is set, else `manual`.
pub open spec fn install_method_text(dockerenv: bool, invocation_id: bool) -> Seq<char> {
    if dockerenv {
        "docker"@
    } else if invocation_id {
        "systemd"@
    } else {
        "manual"@
    }
}

/// Names how this node is run, from whether `/.dockerenv` exists and whether the
/// environment holds `INVOCATION_ID`.
pub fn install_method(dockerenv: bool, invocation_id: bool) -> (method: &'static str)
    ensures
        method@ == install_method_text(dockerenv, invocation_id),
{
    if dockerenv {
        "docker"
    } else if invocation_id {
        "systemd"
    } else {
        "manual"
    }
}

/// The suffix of the release asset for a target architecture.
pub open spec fn asset_arch_text(arch: Seq<char>) -> Option<Seq<char>> {
    if arch == "x86_64"@ {
        Some("amd64"@)
    } else if arch == "aarch64"@ {
        Some("arm64"@)
    } else {
        None
    }
}

/// Maps a target architecture to the suffix of its release asset.
pub fn asset_arch(arch: &str) -> (suffix: Option<&'static str>)
    ensures
        match suffix {
            Some(text) => asset_arch_text(arch@) == Some(text@),
            None => asset_arch_text(arch@) is None,
        },
{
    if same_text(arch, "x86_64") {
        Some("amd64")
    } else if same_text(arch, "aarch64") {
        Some("arm64")
    } else {
        None
    }
}

/// What is to be installed: a version of the asset for one architecture.
pub struct Job {
    pub version: String,
    pub asset: String,
}

/// The model of a `Job`.
#[verifier::ext_equal]
pub struct JobView {
    pub version: Seq<char>,
    pub asset: Seq<char>,
}

impl View for Job {
    type V = JobView;

    open spec fn view(&self) -> JobView {
        JobView { version: self.version@, asset: self.asset@ }
    }
}

impl JobView {
    /// Where the official release keeps the binary.
    pub open spec fn binary_url(self) -> Seq<char> {
        "https://github.com/MoeShinX/relay-panel/releases/download/v"@ + self.version + "/"@
            + self.asset
    }

    /// Where the official release keeps the digest of the binary.
    pub open spec fn digest_url(self) -> Seq<char> {
        self.binary_url() + ".sha256"@
    }
}

impl Job {
    /// The URL of the binary, pinned to the exact release tag.
    pub fn binary_url(&self) -> (url: String)
        ensures
            url@ == self@.binary_url(),
    {
        "https://github.com/MoeShinX/relay-panel/releases/download/v".to_owned().concat(
            self.version.as_str(),
        ).concat("/").concat(self.asset.as_str())
    }

    /// The URL of the binary's published digest.
    pub fn digest_url(&self) -> (url: String)
        ensures
            url@ == self@.digest_url(),
    {
        self.binary_url().concat(".sha256")
    }
}

/// The extension of the temporary file, from the process and the time of the upgrade.
pub open spec fn temp_extension(pid: nat, nanos: nat) -> Seq<char> {
    "upgrade."@ + decimal(pid) + "."@ + decimal(nanos) + ".tmp"@
}

/// Writes the extension of the temporary file.
pub fn temp_extension_text(pid: u32, nanos: u128) -> (extension: String)
    ensures
        extension@ == temp_extension(pid as nat, nanos as nat),
{
    "upgrade.".to_owned().concat(decimal_text(pid as u128).as_str()).concat(".").concat(
        decimal_text(nanos).as_str(),
    ).concat(".tmp")
}

/// The state of one upgrade: what it is waiting for.
pub enum Upgrade {
    /// The right to upgrade: at most one upgrade runs at a time.
    Claiming { version: String, arch: String },
    /// The path of the running binary.
    Locating { job: Job },
    /// An HTTP client.
    Building { job: Job },
    /// The response to the request for the binary.
    FetchingBinary { job: Job },
    /// The bytes of the binary.
    ReadingBinary { job: Job },
    /// The response to the request for the published digest.
    FetchingDigest { job: Job, binary: Vec<u8> },
    /// The text of the published digest.
    ReadingDigest { job: Job, binary: Vec<u8> },
    /// The process id and the time, which name the temporary file.
    Stamping { binary: Vec<u8> },
    /// The temporary file with the new binary in it.
    Writing { binary: Vec<u8>, temp: String },
    /// The permission to execute the temporary file.
    Marking { temp: String },
    /// The copy of the running binary to which one can go back.
    BackingUp { temp: String },
    /// The replacement of the running binary.
    Swapping { temp: String },
    /// The removal of the temporary file after a failure.
    Discarding { temp: String, message: String },
    /// Nothing more. `release` says that the right to upgrade is to be given back.
    Finished { release: bool, result: Result<(), String> },
}

/// The model of an `Upgrade`.
#[verifier::ext_equal]
pub enum UpgradeView {
    Claiming { version: Seq<char>, arch: Seq<char> },
    Locating { job: JobView },
    Building { job: JobView },
    FetchingBinary { job: JobView },
    ReadingBinary { job: JobView },
    FetchingDigest { job: JobView, binary: Seq<u8> },
    ReadingDigest { job: JobView, binary: Seq<u8> },
    Stamping { binary: Seq<u8> },
    Writing { binary: Seq<u8>, temp: Seq<char> },
    Marking { temp: Seq<char> },
    BackingUp { temp: Seq<char> },
    Swapping { temp: Seq<char> },
    Discarding { temp: Seq<char>, message: Seq<char> },
    Finished { release: bool, result: Result<(), Seq<char>> },
}

impl View for Upgrade {
    type V = UpgradeView;

    open spec fn view(&self) -> UpgradeView {
        match *self {
            Upgrade::Claiming { version, arch } => UpgradeView::Claiming {
                version: version@,
                arch: arch@,
            },
            Upgrade::Locating { job } => UpgradeView::Locating { job: job@ },
            Upgrade::Building { job } => UpgradeView::Building { job: job@ },
            Upgrade::FetchingBinary { job } => UpgradeView::FetchingBinary { job: job@ },
            Upgrade::ReadingBinary { job } => UpgradeView::ReadingBinary { job: job@ },
            Upgrade::FetchingDigest { job, binary } => UpgradeView::FetchingDigest {
                job: job@,
                binary: binary@,
            },
            Upgrade::ReadingDigest { job, binary } => UpgradeView::ReadingDigest {
                job: job@,
                binary: binary@,
            },
            Upgrade::Stamping { binary } => UpgradeView::Stamping { binary: binary@ },
            Upgrade::Writing { binary, temp } => UpgradeView::Writing {
                binary: binary@,
                temp: temp@,
            },
            Upgrade::Marking { temp } => UpgradeView::Marking { temp: temp@ },
            Upgrade::BackingUp { temp } => UpgradeView::BackingUp { temp: temp@ },
            Upgrade::Swapping { temp } => UpgradeView::Swapping { temp: temp@ },
            Upgrade::Discarding { temp, message } => UpgradeView::Discarding {
                temp: temp@,
                message: message@,
            },
            Upgrade::Finished { release, result } => UpgradeView::Finished {
                release,
                result: outcome(result),
            },
        }
    }
}

/// What came of an action. Errors are given as text.
pub enum Event {
    /// Whether the right to upgrade was free and is now taken.
    Claimed(bool),
    Located(Result<(), String>),
    ClientBuilt(Result<(), String>),
    /// A response with a status of success, or why there is none.
    Responded(Result<(), String>),
    Bytes(Result<Vec<u8>, String>),
    Text(Result<String, String>),
    /// The process id and the nanoseconds since the Unix epoch, where the clock has them.
    Stamp { pid: u32, nanos: Option<u128> },
    Written(Result<(), String>),
    Marked(Result<(), String>),
    /// Where the copy went and, if it failed, why.
    BackedUp { path: String, result: Result<(), String> },
    Swapped(Result<(), String>),
    /// The removal was tried.
    Removed,
}

/// The model of an `Event`.
#[verifier::ext_equal]
pub enum EventView {
    Claimed(bool),
    Located(Result<(), Seq<char>>),
    ClientBuilt(Result<(), Seq<char>>),
    Responded(Result<(), Seq<char>>),
    Bytes(Result<Seq<u8>, Seq<char>>),
    Text(Result<Seq<char>, Seq<char>>),
    Stamp { pid: nat, nanos: Option<nat> },
    Written(Result<(), Seq<char>>),
    Marked(Result<(), Seq<char>>),
    BackedUp { path: Seq<char>, result: Result<(), Seq<char>> },
    Swapped(Result<(), Seq<char>>),
    Removed,
}

impl View for Event {
    type V = EventView;

    open spec fn view(&self) -> EventView {
        match *self {
            Event::Claimed(claimed) => EventView::Claimed(claimed),
            Event::Located(result) => EventView::Located(outcome(result)),
            Event::ClientBuilt(result) => EventView::ClientBuilt(outcome(result)),
            Event::Responded(result) => EventView::Responded(outcome(result)),
            Event::Bytes(Ok(bytes)) => EventView::Bytes(Ok(bytes@)),
            Event::Bytes(Err(message)) => EventView::Bytes(Err(message@)),
            Event::Text(Ok(text)) => EventView::Text(Ok(text@)),
            Event::Text(Err(message)) => EventView::Text(Err(message@)),
            Event::Stamp { pid, nanos } => EventView::Stamp {
                pid: pid as nat,
                nanos: match nanos {
                    Some(n) => Some(n as nat),
                    None => None,
                },
            },
            Event::Written(result) => EventView::Written(outcome(result)),
            Event::Marked(result) => EventView::Marked(outcome(result)),
            Event::BackedUp { path, result } => EventView::BackedUp {
                path: path@,
                result: outcome(result),
            },
            Event::Swapped(result) => EventView::Swapped(outcome(result)),
            Event::Removed => EventView::Removed,
        }
    }
}

/// The longest binary that can be hashed is one byte shorter than this.
pub const BINARY_LIMIT: u64 = 0x2000_0000_0000_0000;

impl Event {
    /// A binary stays below `BINARY_LIMIT`.
    pub open spec fn wf(self) -> bool {
        self matches Event::Bytes(Ok(bytes)) ==> bytes@.len() < BINARY_LIMIT
    }
}

impl Upgrade {
    /// A binary that is held for hashing stays below `BINARY_LIMIT`.
    pub open spec fn wf(self) -> bool {
        match self {
            Upgrade::FetchingDigest { binary, .. } => binary@.len() < BINARY_LIMIT,
            Upgrade::ReadingDigest { binary, .. } => binary@.len() < BINARY_LIMIT,
            _ => true,
        }
    }
}

/// The upgrade has failed and gives back the right to upgrade.
pub open spec fn failed(message: Seq<char>) -> UpgradeView {
    UpgradeView::Finished { release: true, result: Err(message) }
}

/// The state in which a request for an upgrade starts. `quoted` is the version in quotes.
pub open spec fn screened(
    method: Seq<char>,
    version: Seq<char>,
    quoted: Seq<char>,
    arch: Seq<char>,
) -> UpgradeView {
    if method != "systemd"@ {
        UpgradeView::Finished {
            release: false,
            result: Err(
                "self-upgrade is only supported for systemd installs (this node is '"@ + method
                    + "'); update the container image / re-run the install script instead"@,
            ),
        }
    } else if !plain_semver(version) {
        UpgradeView::Finished {
            release: false,
            result: Err("refusing to upgrade to a non-semver version "@ + quoted),
        }
    } else {
        UpgradeView::Claiming { version, arch }
    }
}

/// Only a systemd install may upgrade, and only to a plain version; `quoted` is the version
/// as a refusal shows it.
pub fn screen_request(method: &str, version: &str, quoted: &str, arch: &str) -> (upgrade: Upgrade)
    ensures
        upgrade.wf(),
        upgrade@ == screened(method@, version@, quoted@, arch@),
{
    if !same_text(method, "systemd") {
        Upgrade::Finished {
            release: false,
            result: Err(
                "self-upgrade is only supported for systemd installs (this node is '".to_owned().concat(
                    method,
                ).concat("'); update the container image / re-run the install script instead"),
            ),
        }
    } else if !is_plain_semver(version) {
        Upgrade::Finished {
            release: false,
            result: Err("refusing to upgrade to a non-semver version ".to_owned().concat(quoted)),
        }
    } else {
        Upgrade::Claiming { version: version.to_owned(), arch: arch.to_owned() }
    }
}

/// Starts the upgrade of a node, run by `method` on the architecture `arch`, to `version`,
/// a plain version without a leading `v`.
pub fn self_upgrade(method: &str, version: &str, arch: &str) -> (upgrade: Upgrade)
    ensures
        upgrade.wf(),
        upgrade@ == screened(method@, version@, debug_quoted(version@), arch@),
{
    let quoted = debug_text(version);
    screen_request(method, version, quoted.as_str(), arch)
}

/// The state after the right to upgrade was taken, or was not to be had.
pub open spec fn claimed(version: Seq<char>, arch: Seq<char>, claimed: bool) -> UpgradeView {
    if !claimed {
        UpgradeView::Finished {
            release: false,
            result: Err("an upgrade is already in progress"@),
        }
    } else {
        match asset_arch_text(arch) {
            None => failed("unsupported arch: "@ + arch),
            Some(suffix) => UpgradeView::Locating {
                job: JobView { version, asset: "relay-node-linux-"@ + suffix },
            },
        }
    }
}

/// The state after the published digest was read.
pub open spec fn verified(
    binary: Seq<u8>,
    word: Seq<char>,
    quoted: Seq<char>,
    digest: Seq<u8>,
) -> UpgradeView {
    match digest_verdict(word, quoted, digest) {
        Err(message) => failed(message),
        Ok(_) => UpgradeView::Stamping { binary },
    }
}

/// The next state. An event that does not answer the pending action changes nothing.
pub open spec fn next(state: UpgradeView, event: EventView) -> UpgradeView {
    match (state, event) {
        (UpgradeView::Claiming { version, arch }, EventView::Claimed(free)) => claimed(
            version,
            arch,
            free,
        ),
        (UpgradeView::Locating { job }, EventView::Located(result)) => match result {
            Ok(_) => UpgradeView::Building { job },
            Err(e) => failed("current_exe: "@ + e),
        },
        (UpgradeView::Building { job }, EventView::ClientBuilt(result)) => match result {
            Ok(_) => UpgradeView::FetchingBinary { job },
            Err(e) => failed("http client: "@ + e),
        },
        (UpgradeView::FetchingBinary { job }, EventView::Responded(result)) => match result {
            Ok(_) => UpgradeView::ReadingBinary { job },
            Err(e) => failed("download binary: "@ + e),
        },
        (UpgradeView::ReadingBinary { job }, EventView::Bytes(result)) => match result {
            Ok(binary) => if binary.len() == 0 {
                failed("downloaded binary is empty"@)
            } else {
                UpgradeView::FetchingDigest { job, binary }
            },
            Err(e) => failed("read binary: "@ + e),
        },
        (UpgradeView::FetchingDigest { job, binary }, EventView::Responded(result)) => match result {
            Ok(_) => UpgradeView::ReadingDigest { job, binary },
            Err(e) => failed("download sha256: "@ + e),
        },
        (UpgradeView::ReadingDigest { job, binary }, EventView::Text(result)) => match result {
            Ok(text) => verified(
                binary,
                first_word(text),
                debug_quoted(text),
                sha256(binary),
            ),
            Err(e) => failed("read sha256: "@ + e),
        },
        (UpgradeView::Stamping { binary }, EventView::Stamp { pid, nanos }) => UpgradeView::Writing {
            binary,
            temp: temp_extension(
                pid,
                match nanos {
                    Some(n) => n,
                    None => 0,
                },
            ),
        },
        (UpgradeView::Writing { binary, temp }, EventView::Written(result)) => match result {
            Ok(_) => UpgradeView::Marking { temp },
            Err(e) => failed("write temp binary: "@ + e),
        },
        (UpgradeView::Marking { temp }, EventView::Marked(result)) => match result {
            Ok(_) => UpgradeView::BackingUp { temp },
            Err(e) => UpgradeView::Discarding { temp, message: "chmod temp binary: "@ + e },
        },
        (UpgradeView::BackingUp { temp }, EventView::BackedUp { path, result }) => match result {
            Ok(_) => UpgradeView::Swapping { temp },
            Err(e) => UpgradeView::Discarding {
                temp,
                message: "backup to "@ + path + " failed, aborting upgrade: "@ + e,
            },
        },
        (UpgradeView::Swapping { temp }, EventView::Swapped(result)) => match result {
            Ok(_) => UpgradeView::Finished { release: false, result: Ok(()) },
            Err(e) => UpgradeView::Discarding { temp, message: "swap binary: "@ + e },
        },
        (UpgradeView::Discarding { temp, message }, EventView::Removed) => failed(message),
        _ => state,
    }
}

/// A failure with its message and the error that caused it.
fn fail(message: &str, error: &str) -> (upgrade: Upgrade)
    ensures
        upgrade.wf(),
        upgrade@ == failed(message@ + error@),
{
    Upgrade::Finished { release: true, result: Err(message.to_owned().concat(error)) }
}

impl Upgrade {
    /// Goes on with what came of the pending action.
    pub fn step(self, event: Event) -> (upgrade: Upgrade)
        requires
            self.wf(),
            event.wf(),
        ensures
            upgrade.wf(),
            upgrade@ == next(self@, event@),
    {
        match (self, event) {
            (Upgrade::Claiming { version, arch }, Event::Claimed(free)) => {
                if !free {
                    return Upgrade::Finished {
                        release: false,
                        result: Err("an upgrade is already in progress".to_owned()),
                    };
                }
                match asset_arch(arch.as_str()) {
                    None => fail("unsupported arch: ", arch.as_str()),
                    Some(suffix) => Upgrade::Locating {
                        job: Job { version, asset: "relay-node-linux-".to_owned().concat(suffix) },
                    },
                }
            },
            (Upgrade::Locating { job }, Event::Located(result)) => match result {
                Ok(_) => Upgrade::Building { job },
                Err(e) => fail("current_exe: ", e.as_str()),
            },
            (Upgrade::Building { job }, Event::ClientBuilt(result)) => match result {
                Ok(_) => Upgrade::FetchingBinary { job },
                Err(e) => fail("http client: ", e.as_str()),
            },
            (Upgrade::FetchingBinary { job }, Event::Responded(result)) => match result {
                Ok(_) => Upgrade::ReadingBinary { job },
                Err(e) => fail("download binary: ", e.as_str()),
            },
            (Upgrade::ReadingBinary { job }, Event::Bytes(result)) => match result {
                Ok(binary) => {
                    if binary.len() == 0 {
                        Upgrade::Finished {
                            release: true,
                            result: Err("downloaded binary is empty".to_owned()),
                        }
                    } else {
                        Upgrade::FetchingDigest { job, binary }
                    }
                },
                Err(e) => fail("read binary: ", e.as_str()),
            },
            (Upgrade::FetchingDigest { job, binary }, Event::Responded(result)) => match result {
                Ok(_) => Upgrade::ReadingDigest { job, binary },
                Err(e) => fail("download sha256: ", e.as_str()),
            },
            (Upgrade::ReadingDigest { job: _, binary }, Event::Text(result)) => match result {
                Ok(text) => match verify_binary(binary.as_slice(), text.as_str()) {
                    Ok(_) => Upgrade::Stamping { binary },
                    Err(message) => Upgrade::Finished { release: true, result: Err(message) },
                },
                Err(e) => fail("read sha256: ", e.as_str()),
            },
            (Upgrade::Stamping { binary }, Event::Stamp { pid, nanos }) => {
                let n: u128 = match nanos {
                    Some(n) => n,
                    None => 0,
                };
                Upgrade::Writing { binary, temp: temp_extension_text(pid, n) }
            },
            (Upgrade::Writing { binary: _, temp }, Event::Written(result)) => match result {
                Ok(_) => Upgrade::Marking { temp },
                Err(e) => fail("write temp binary: ", e.as_str()),
            },
            (Upgrade::Marking { temp }, Event::Marked(result)) => match result {
                Ok(_) => Upgrade::BackingUp { temp },
                Err(e) => Upgrade::Discarding {
                    temp,
                    message: "chmod temp binary: ".to_owned().concat(e.as_str()),
                },
            },
            (Upgrade::BackingUp { temp }, Event::BackedUp { path, result }) => match result {
                Ok(_) => Upgrade::Swapping { temp },
                Err(e) => Upgrade::Discarding {
                    temp,
                    message: "backup to ".to_owned().concat(path.as_str()).concat(
                        " failed, aborting upgrade: ",
                    ).concat(e.as_str()),
                },
            },
            (Upgrade::Swapping { temp }, Event::Swapped(result)) => match result {
                Ok(_) => Upgrade::Finished { release: false, result: Ok(()) },
                Err(e) => Upgrade::Discarding {
                    temp,
                    message: "swap binary: ".to_owned().concat(e.as_str()),
                },
            },
            (Upgrade::Discarding { temp: _, message }, Event::Removed) => Upgrade::Finished {
                release: true,
                result: Err(message),
            },
            (state, _) => state,
        }
    }
}

/// What is to be done next. Files other than the running binary lie beside it and are named
/// by their extensions.
pub enum Action<'a> {
    /// Take the right to upgrade if it is free, in one step.
    Claim,
    /// Find the path of the running binary.
    Locate,
    /// Build an HTTP client whose requests end after so many seconds.
    BuildClient { timeout_secs: u64 },
    /// Send a GET request; a status of failure is an error.
    Request { url: String },
    /// Read the body of the response as bytes.
    ReadBytes,
    /// Read the body of the response as text.
    ReadText,
    /// Read the process id and the clock.
    ReadStamp,
    /// Write the temporary file.
    Write { extension: &'a str, bytes: &'a [u8] },
    /// Set the permission bits of the temporary file.
    SetMode { extension: &'a str, mode: u32 },
    /// Copy the running binary to the backup file.
    BackUp { extension: &'a str },
    /// Rename the temporary file to the running binary.
    Swap { extension: &'a str },
    /// Remove the temporary file.
    Remove { extension: &'a str },
    /// Give back the right to upgrade if `release` says so, and return the result.
    Finish { release: bool, result: &'a Result<(), String> },
}

/// The model of an `Action`.
#[verifier::ext_equal]
pub enum ActionView {
    Claim,
    Locate,
    BuildClient { timeout_secs: nat },
    Request { url: Seq<char> },
    ReadBytes,
    ReadText,
    ReadStamp,
    Write { extension: Seq<char>, bytes: Seq<u8> },
    SetMode { extension: Seq<char>, mode: nat },
    BackUp { extension: Seq<char> },
    Swap { extension: Seq<char> },
    Remove { extension: Seq<char> },
    Finish { release: bool, result: Result<(), Seq<char>> },
}

impl<'a> View for Action<'a> {
    type V = ActionView;

    open spec fn view(&self) -> ActionView {
        match *self {
            Action::Claim => ActionView::Claim,
            Action::Locate => ActionView::Locate,
            Action::BuildClient { timeout_secs } => ActionView::BuildClient {
                timeout_secs: timeout_secs as nat,
            },
            Action::Request { url } => ActionView::Request { url: url@ },
            Action::ReadBytes => ActionView::ReadBytes,
            Action::ReadText => ActionView::ReadText,
            Action::ReadStamp => ActionView::ReadStamp,
            Action::Write { extension, bytes } => ActionView::Write {
                extension: extension@,
                bytes: bytes@,
            },
            Action::SetMode { extension, mode } => ActionView::SetMode {
                extension: extension@,
                mode: mode as nat,
            },
            Action::BackUp { extension } => ActionView::BackUp { extension: extension@ },
            Action::Swap { extension } => ActionView::Swap { extension: extension@ },
            Action::Remove { extension } => ActionView::Remove { extension: extension@ },
            Action::Finish { release, result } => ActionView::Finish {
                release,
                result: outcome(*result),
            },
        }
    }
}

/// The action that a state waits for.
pub open spec fn pending(state: UpgradeView) -> ActionView {
    match state {
        UpgradeView::Claiming { .. } => ActionView::Claim,
        UpgradeView::Locating { .. } => ActionView::Locate,
        UpgradeView::Building { .. } => ActionView::BuildClient { timeout_secs: 180 },
        UpgradeView::FetchingBinary { job } => ActionView::Request { url: job.binary_url() },
        UpgradeView::ReadingBinary { .. } => ActionView::ReadBytes,
        UpgradeView::FetchingDigest { job, .. } => ActionView::Request { url: job.digest_url() },
        UpgradeView::ReadingDigest { .. } => ActionView::ReadText,
        UpgradeView::Stamping { .. } => ActionView::ReadStamp,
        UpgradeView::Writing { binary, temp } => ActionView::Write {
            extension: temp,
            bytes: binary,
        },
        UpgradeView::Marking { temp } => ActionView::SetMode { extension: temp, mode: 0o755 },
        UpgradeView::BackingUp { .. } => ActionView::BackUp { extension: "bak"@ },
        UpgradeView::Swapping { temp } => ActionView::Swap { extension: temp },
        UpgradeView::Discarding { temp, .. } => ActionView::Remove { extension: temp },
        UpgradeView::Finished { release, result } => ActionView::Finish { release, result },
    }
}

impl Upgrade {
    /// The pending action.
    pub fn action(&self) -> (action: Action<'_>)
        ensures
            action@ == pending(self@),
    {
        match self {
            Upgrade::Claiming { .. } => Action::Claim,
            Upgrade::Locating { .. } => Action::Locate,
            Upgrade::Building { .. } => Action::BuildClient { timeout_secs: 180 },
            Upgrade::FetchingBinary { job } => Action::Request { url: job.binary_url() },
            Upgrade::ReadingBinary { .. } => Action::ReadBytes,
            Upgrade::FetchingDigest { job, .. } => Action::Request { url: job.digest_url() },
            Upgrade::ReadingDigest { .. } => Action::ReadText,
            Upgrade::Stamping { .. } => Action::ReadStamp,
            Upgrade::Writing { binary, temp } => Action::Write {
                extension: temp.as_str(),
                bytes: binary.as_slice(),
            },
            Upgrade::Marking { temp } => Action::SetMode { extension: temp.as_str(), mode: 0o755 },
            Upgrade::BackingUp { .. } => Action::BackUp { extension: "bak" },
            Upgrade::Swapping { temp } => Action::Swap { extension: temp.as_str() },
            Upgrade::Discarding { temp, .. } => Action::Remove { extension: temp.as_str() },
            Upgrade::Finished { release, result } => Action::Finish { release: *release, result },
        }
    }
}

} // verus!
