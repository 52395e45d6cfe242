//! What holds of every upgrade, whatever events it meets.
use vstd::prelude::*;

use crate::digest::ascii_lower;
use crate::digest::debug_quoted;
use crate::digest::digest_verdict;
use crate::digest::first_word;
use crate::digest::law_only_the_folded_word_matters;
use crate::digest::sha256;
use crate::semver::law_version_stays_in_its_segment;
use crate::semver::plain_semver;
use crate::text::decimal;
use crate::text::law_decimal_is_injective;
use crate::text::lemma_decimal_digits;
use crate::updater::asset_arch_text;
use crate::updater::install_method_text;
use crate::updater::next;
use crate::updater::pending;
use crate::updater::screened;
use crate::updater::temp_extension;
use crate::updater::ActionView;
use crate::updater::EventView;
use crate::updater::JobView;
use crate::updater::UpgradeView;

verus! {

/// The state that `events` lead to from `start`.
pub open spec fn run(start: UpgradeView, events: Seq<EventView>) -> UpgradeView
    decreases events.len(),
{
    if events.len() == 0 {
        start
    } else {
        next(run(start, events.drop_last()), events.last())
    }
}

/// The event at `k` is `event`, and `action` was pending when it came.
pub open spec fn answered_at(
    start: UpgradeView,
    events: Seq<EventView>,
    k: int,
    action: ActionView,
    event: EventView,
) -> bool {
    &&& 0 <= k < events.len()
    &&& events[k] == event
    &&& pending(run(start, events.take(k))) == action
}

/// In the course of `events`, `action` was pending and `event` came of it.
pub open spec fn done(
    start: UpgradeView,
    events: Seq<EventView>,
    action: ActionView,
    event: EventView,
) -> bool {
    exists|k: int| answered_at(start, events, k, action, event)
}

/// The right to upgrade was taken.
pub open spec fn took_right(start: UpgradeView, events: Seq<EventView>) -> bool {
    done(start, events, ActionView::Claim, EventView::Claimed(true))
}

/// `binary` was downloaded, is not empty, and agrees with the digest that was downloaded.
pub open spec fn genuine(start: UpgradeView, events: Seq<EventView>, binary: Seq<u8>) -> bool {
    &&& binary.len() > 0
    &&& done(start, events, ActionView::ReadBytes, EventView::Bytes(Ok(binary)))
    &&& exists|text: Seq<char>|
        #[trigger] done(start, events, ActionView::ReadText, EventView::Text(Ok(text)))
            && digest_verdict(
            first_word(text),
            debug_quoted(text),
            sha256(binary),
        ) is Ok
}

/// A genuine binary was written to the temporary file `temp`.
pub open spec fn wrote(start: UpgradeView, events: Seq<EventView>, temp: Seq<char>) -> bool {
    exists|binary: Seq<u8>|
        genuine(start, events, binary) && #[trigger] done(
            start,
            events,
            ActionView::Write { extension: temp, bytes: binary },
            EventView::Written(Ok(())),
        )
}

/// The temporary file `temp` was made executable.
pub open spec fn marked(start: UpgradeView, events: Seq<EventView>, temp: Seq<char>) -> bool {
    done(
        start,
        events,
        ActionView::SetMode { extension: temp, mode: 0o755 },
        EventView::Marked(Ok(())),
    )
}

/// The running binary was copied to the backup file.
pub open spec fn backed_up(start: UpgradeView, events: Seq<EventView>) -> bool {
    exists|path: Seq<char>|
        #[trigger] done(
            start,
            events,
            ActionView::BackUp { extension: "bak"@ },
            EventView::BackedUp { path, result: Ok(()) },
        )
}

/// The temporary file `temp` took the place of the running binary.
pub open spec fn swapped(start: UpgradeView, events: Seq<EventView>, temp: Seq<char>) -> bool {
    done(start, events, ActionView::Swap { extension: temp }, EventView::Swapped(Ok(())))
}

/// The asset of the official release `version` for the architecture `arch`.
pub open spec fn official(job: JobView, version: Seq<char>, arch: Seq<char>) -> bool {
    &&& plain_semver(version)
    &&& job.version == version
    &&& asset_arch_text(arch) matches Some(suffix) && job.asset == "relay-node-linux-"@ + suffix
}

/// What an upgrade to `version` has done by the time it is in a state.
spec fn earned(
    start: UpgradeView,
    events: Seq<EventView>,
    version: Seq<char>,
    arch: Seq<char>,
) -> bool {
    let right = took_right(start, events);
    match run(start, events) {
        UpgradeView::Claiming { version: v, arch: a } => !right && v == version && a == arch
            && plain_semver(version),
        UpgradeView::Locating { job } => right && official(job, version, arch),
        UpgradeView::Building { job } => right && official(job, version, arch),
        UpgradeView::FetchingBinary { job } => right && official(job, version, arch),
        UpgradeView::ReadingBinary { job } => right && official(job, version, arch),
        UpgradeView::FetchingDigest { job, binary } => right && official(job, version, arch)
            && binary.len() > 0 && done(
            start,
            events,
            ActionView::ReadBytes,
            EventView::Bytes(Ok(binary)),
        ),
        UpgradeView::ReadingDigest { job, binary } => right && official(job, version, arch)
            && binary.len() > 0 && done(
            start,
            events,
            ActionView::ReadBytes,
            EventView::Bytes(Ok(binary)),
        ),
        UpgradeView::Stamping { binary } => right && genuine(start, events, binary),
        UpgradeView::Writing { binary, temp } => right && genuine(start, events, binary)
            && is_temp(temp),
        UpgradeView::Marking { temp } => right && wrote(start, events, temp) && is_temp(temp),
        UpgradeView::BackingUp { temp } => right && wrote(start, events, temp) && marked(
            start,
            events,
            temp,
        ) && is_temp(temp),
        UpgradeView::Swapping { temp } => right && wrote(start, events, temp) && marked(
            start,
            events,
            temp,
        ) && backed_up(start, events) && is_temp(temp),
        UpgradeView::Discarding { temp, .. } => right && wrote(start, events, temp) && is_temp(
            temp,
        ),
        UpgradeView::Finished { release, result } => match result {
            Ok(_) => !release && right && exists|temp: Seq<char>| #[trigger]
                swapped(start, events, temp),
            Err(_) => release == right,
        },
    }
}

/// The extension of some temporary file.
pub open spec fn is_temp(extension: Seq<char>) -> bool {
    exists|pid: nat, nanos: nat| extension == #[trigger] temp_extension(pid, nanos)
}

proof fn lemma_run_push(start: UpgradeView, events: Seq<EventView>, event: EventView)
    ensures
        run(start, events.push(event)) == next(run(start, events), event),
        forall|action: ActionView, e: EventView|
            #![trigger done(start, events, action, e)]
            #![trigger done(start, events.push(event), action, e)]
            done(start, events.push(event), action, e) <==> done(start, events, action, e) || (
            pending(run(start, events)) == action && e == event),
{
    let longer = events.push(event);
    assert(longer.drop_last() == events);
    assert forall|action: ActionView, e: EventView|
        #![trigger done(start, events, action, e)]
        #![trigger done(start, longer, action, e)]
        done(start, longer, action, e) <==> done(start, events, action, e) || (pending(
            run(start, events),
        ) == action && e == event) by {
        if done(start, events, action, e) {
            let k = choose|k: int| answered_at(start, events, k, action, e);
            assert(longer.take(k) == events.take(k));
            assert(answered_at(start, longer, k, action, e));
        }
        if pending(run(start, events)) == action && e == event {
            assert(longer.take(events.len() as int) == events);
            assert(answered_at(start, longer, events.len() as int, action, e));
        }
        if done(start, longer, action, e) {
            let k = choose|k: int| answered_at(start, longer, k, action, e);
            if k < events.len() {
                assert(longer.take(k) == events.take(k));
                assert(answered_at(start, events, k, action, e));
            } else {
                assert(longer.take(k) == events);
            }
        }
    }
}

proof fn lemma_genuine_stays(
    start: UpgradeView,
    events: Seq<EventView>,
    event: EventView,
    binary: Seq<u8>,
)
    requires
        genuine(start, events, binary),
    ensures
        genuine(start, events.push(event), binary),
{
    lemma_run_push(start, events, event);
    let text = choose|text: Seq<char>|
        #[trigger] done(start, events, ActionView::ReadText, EventView::Text(Ok(text)))
            && digest_verdict(
            first_word(text),
            debug_quoted(text),
            sha256(binary),
        ) is Ok;
    assert(done(start, events.push(event), ActionView::ReadText, EventView::Text(Ok(text))));
}

proof fn lemma_wrote_stays(
    start: UpgradeView,
    events: Seq<EventView>,
    event: EventView,
    temp: Seq<char>,
)
    requires
        wrote(start, events, temp),
    ensures
        wrote(start, events.push(event), temp),
{
    lemma_run_push(start, events, event);
    let binary = choose|binary: Seq<u8>|
        genuine(start, events, binary) && #[trigger] done(
            start,
            events,
            ActionView::Write { extension: temp, bytes: binary },
            EventView::Written(Ok(())),
        );
    lemma_genuine_stays(start, events, event, binary);
    assert(done(
        start,
        events.push(event),
        ActionView::Write { extension: temp, bytes: binary },
        EventView::Written(Ok(())),
    ));
}

proof fn lemma_unit(result: Result<(), Seq<char>>)
    ensures
        result is Ok ==> result == Ok::<(), Seq<char>>(()),
{
    if result is Ok {
        assert(result->Ok_0 == ());
    }
}

#[verifier::rlimit(40)]
proof fn lemma_earned_step(
    start: UpgradeView,
    events: Seq<EventView>,
    event: EventView,
    version: Seq<char>,
    arch: Seq<char>,
)
    requires
        earned(start, events, version, arch),
    ensures
        earned(start, events.push(event), version, arch),
{
    let state = run(start, events);
    let longer = events.push(event);
    lemma_run_push(start, events, event);
    assert(took_right(start, events) ==> took_right(start, longer));
    match state {
        UpgradeView::ReadingBinary { .. } => {
            if let EventView::Bytes(Ok(binary)) = event {
                assert(done(start, longer, ActionView::ReadBytes, EventView::Bytes(Ok(binary))));
            }
        },
        UpgradeView::FetchingDigest { binary, .. } => {
            assert(done(start, longer, ActionView::ReadBytes, EventView::Bytes(Ok(binary))));
        },
        UpgradeView::ReadingDigest { job, binary } => {
            assert(done(start, longer, ActionView::ReadBytes, EventView::Bytes(Ok(binary))));
            if let EventView::Text(Ok(text)) = event {
                assert(done(start, longer, ActionView::ReadText, EventView::Text(Ok(text))));
            }
        },
        UpgradeView::Stamping { binary } => {
            lemma_genuine_stays(start, events, event, binary);
        },
        UpgradeView::Writing { binary, temp } => {
            lemma_genuine_stays(start, events, event, binary);
            if let EventView::Written(result) = event {
                lemma_unit(result);
                if result is Ok {
                    assert(done(
                        start,
                        longer,
                        ActionView::Write { extension: temp, bytes: binary },
                        EventView::Written(Ok(())),
                    ));
                    assert(wrote(start, longer, temp));
                }
            }
        },
        UpgradeView::Marking { temp } => {
            lemma_wrote_stays(start, events, event, temp);
            if let EventView::Marked(result) = event {
                lemma_unit(result);
                assert(result is Ok ==> marked(start, longer, temp));
            }
        },
        UpgradeView::BackingUp { temp } => {
            lemma_wrote_stays(start, events, event, temp);
            assert(marked(start, longer, temp));
            if let EventView::BackedUp { path, result } = event {
                lemma_unit(result);
                if result is Ok {
                    assert(done(
                        start,
                        longer,
                        ActionView::BackUp { extension: "bak"@ },
                        EventView::BackedUp { path, result: Ok(()) },
                    ));
                    assert(backed_up(start, longer));
                }
            }
        },
        UpgradeView::Swapping { temp } => {
            lemma_wrote_stays(start, events, event, temp);
            assert(marked(start, longer, temp));
            let path = choose|path: Seq<char>| #[trigger]
                done(
                    start,
                    events,
                    ActionView::BackUp { extension: "bak"@ },
                    EventView::BackedUp { path, result: Ok(()) },
                );
            assert(done(
                start,
                longer,
                ActionView::BackUp { extension: "bak"@ },
                EventView::BackedUp { path, result: Ok(()) },
            ));
            assert(backed_up(start, longer));
            if let EventView::Swapped(result) = event {
                lemma_unit(result);
                assert(result is Ok ==> swapped(start, longer, temp));
            }
        },
        UpgradeView::Discarding { temp, .. } => {
            lemma_wrote_stays(start, events, event, temp);
        },
        UpgradeView::Finished { release, result } => {
            assert(took_right(start, events) == took_right(start, longer));
            if result is Ok {
                let temp = choose|temp: Seq<char>| #[trigger] swapped(start, events, temp);
                assert(swapped(start, longer, temp));
            }
        },
        _ => {},
    }
}

proof fn lemma_earned(
    start: UpgradeView,
    events: Seq<EventView>,
    version: Seq<char>,
    arch: Seq<char>,
)
    requires
        earned(start, Seq::empty(), version, arch),
    ensures
        earned(start, events, version, arch),
    decreases events.len(),
{
    if events.len() == 0 {
        assert(events == Seq::<EventView>::empty());
    } else {
        lemma_earned(start, events.drop_last(), version, arch);
        lemma_earned_step(start, events.drop_last(), events.last(), version, arch);
        assert(events.drop_last().push(events.last()) == events);
    }
}

/// `start` is a state in which a request to upgrade a node on the architecture `arch` to
/// `version` starts.
pub open spec fn starts(start: UpgradeView, version: Seq<char>, arch: Seq<char>) -> bool {
    exists|method: Seq<char>, quoted: Seq<char>|
        start == #[trigger] screened(method, version, quoted, arch)
}

proof fn lemma_started(
    start: UpgradeView,
    events: Seq<EventView>,
    version: Seq<char>,
    arch: Seq<char>,
)
    requires
        starts(start, version, arch),
    ensures
        earned(start, events, version, arch),
{
    assert forall|action: ActionView, e: EventView| !done(
        start,
        Seq::<EventView>::empty(),
        action,
        e,
    ) by {}
    lemma_earned(start, events, version, arch);
}

/// Every request of an upgrade goes to the official release of the version that was asked
/// for, a plain version, and to its asset for the node's architecture, and to nothing else.
pub proof fn law_requests_are_official(
    start: UpgradeView,
    events: Seq<EventView>,
    version: Seq<char>,
    arch: Seq<char>,
    url: Seq<char>,
)
    requires
        starts(start, version, arch),
        pending(run(start, events)) == (ActionView::Request { url }),
    ensures
        exists|job: JobView| #[trigger]
            official(job, version, arch) && (url == job.binary_url() || url == job.digest_url()),
        !version.contains('/'),
{
    lemma_started(start, events, version, arch);
    match run(start, events) {
        UpgradeView::FetchingBinary { job } => {
            assert(official(job, version, arch));
        },
        UpgradeView::FetchingDigest { job, .. } => {
            assert(official(job, version, arch));
        },
        _ => {},
    }
    law_version_stays_in_its_segment(version);
}

/// The URLs of the requests that an upgrade has made, in order: those that were answered, and
/// the one that is pending.
pub open spec fn requests(start: UpgradeView, events: Seq<EventView>) -> Seq<Seq<char>> {
    match pending(run(start, events)) {
        ActionView::Request { url } => answered_requests(start, events).push(url),
        _ => answered_requests(start, events),
    }
}

/// The URLs of the requests of an upgrade that were answered, in order.
pub open spec fn answered_requests(start: UpgradeView, events: Seq<EventView>) -> Seq<Seq<char>>
    decreases events.len(),
{
    if events.len() == 0 {
        Seq::empty()
    } else {
        let before = answered_requests(start, events.drop_last());
        match (pending(run(start, events.drop_last())), events.last()) {
            (ActionView::Request { url }, EventView::Responded(_)) => before.push(url),
            _ => before,
        }
    }
}

/// The asset of the release `version` for the architecture `arch`, where there is one.
pub open spec fn job_for(version: Seq<char>, arch: Seq<char>) -> Option<JobView> {
    match asset_arch_text(arch) {
        Some(suffix) => Some(JobView { version, asset: "relay-node-linux-"@ + suffix }),
        None => None,
    }
}

/// The requests that an upgrade makes where nothing stands in its way: the binary and then its
/// published digest.
pub open spec fn planned_requests(version: Seq<char>, arch: Seq<char>) -> Seq<Seq<char>> {
    match job_for(version, arch) {
        Some(job) => seq![job.binary_url(), job.binary_url() + ".sha256"@],
        None => Seq::empty(),
    }
}

/// How many requests were answered by the time an upgrade is in a state.
spec fn request_count(state: UpgradeView, count: nat) -> bool {
    match state {
        UpgradeView::Claiming { .. } => count == 0,
        UpgradeView::Locating { .. } => count == 0,
        UpgradeView::Building { .. } => count == 0,
        UpgradeView::FetchingBinary { .. } => count == 0,
        UpgradeView::ReadingBinary { .. } => count == 1,
        UpgradeView::FetchingDigest { .. } => count == 1,
        UpgradeView::Finished { result, .. } => result is Ok ==> count == 2,
        _ => count == 2,
    }
}

proof fn lemma_requests(
    start: UpgradeView,
    events: Seq<EventView>,
    version: Seq<char>,
    arch: Seq<char>,
)
    requires
        starts(start, version, arch),
    ensures
        answered_requests(start, events).is_prefix_of(planned_requests(version, arch)),
        request_count(run(start, events), answered_requests(start, events).len()),
    decreases events.len(),
{
    if events.len() > 0 {
        let before = events.drop_last();
        lemma_requests(start, before, version, arch);
        lemma_started(start, before, version, arch);
        let answered = answered_requests(start, before);
        let planned = planned_requests(version, arch);
        match run(start, before) {
            UpgradeView::FetchingBinary { job } => {
                assert(job_for(version, arch) == Some(job));
                assert(answered.push(job.binary_url()).is_prefix_of(planned));
            },
            UpgradeView::FetchingDigest { job, .. } => {
                assert(job_for(version, arch) == Some(job));
                assert(answered.push(job.digest_url()).is_prefix_of(planned));
            },
            _ => {},
        }
    }
}

/// The requests of an upgrade are, in this order and each at most once, the one for the binary
/// of the official release for the node's architecture and the one for that URL with
/// `.sha256`; an upgrade may stop before either, but one that succeeds has made both. On an
/// architecture without an asset there is none.
pub proof fn law_requests_come_in_order(
    start: UpgradeView,
    events: Seq<EventView>,
    version: Seq<char>,
    arch: Seq<char>,
)
    requires
        starts(start, version, arch),
    ensures
        requests(start, events).is_prefix_of(planned_requests(version, arch)),
        succeeded(run(start, events)) ==> requests(start, events) == planned_requests(
            version,
            arch,
        ),
{
    lemma_requests(start, events, version, arch);
    lemma_started(start, events, version, arch);
    let answered = answered_requests(start, events);
    let planned = planned_requests(version, arch);
    match run(start, events) {
        UpgradeView::FetchingBinary { job } => {
            assert(job_for(version, arch) == Some(job));
            assert(answered.push(job.binary_url()).is_prefix_of(planned));
        },
        UpgradeView::FetchingDigest { job, .. } => {
            assert(job_for(version, arch) == Some(job));
            assert(answered.push(job.digest_url()).is_prefix_of(planned));
        },
        UpgradeView::Finished { result, .. } => {
            if result is Ok {
                assert(answered =~= planned);
            }
        },
        _ => {},
    }
}

/// The upgrade has succeeded.
pub open spec fn succeeded(state: UpgradeView) -> bool {
    state matches UpgradeView::Finished { result, .. } && result is Ok
}

/// The upgrade has failed.
spec fn has_failed(state: UpgradeView) -> bool {
    state matches UpgradeView::Finished { result, .. } && result is Err
}

/// The two states are the same, or both are failures.
spec fn alike(a: UpgradeView, b: UpgradeView) -> bool {
    a == b || has_failed(a) && has_failed(b)
}

/// Of the published digest file only the first word matters, and of that not the case of its
/// ASCII letters: two upgrades that differ in nothing else succeed or fail together. White
/// space before the word and all that follows it are left out by `first_word`.
pub proof fn law_only_the_first_word_matters(
    start: UpgradeView,
    before: Seq<EventView>,
    text1: Seq<char>,
    text2: Seq<char>,
    after: Seq<EventView>,
)
    requires
        ascii_lower(first_word(text1)) == ascii_lower(first_word(text2)),
    ensures
        succeeded(run(start, before.push(EventView::Text(Ok(text1))) + after)) <==> succeeded(
            run(start, before.push(EventView::Text(Ok(text2))) + after),
        ),
{
    lemma_alike(start, before, text1, text2, after);
}

proof fn lemma_alike(
    start: UpgradeView,
    before: Seq<EventView>,
    text1: Seq<char>,
    text2: Seq<char>,
    after: Seq<EventView>,
)
    requires
        ascii_lower(first_word(text1)) == ascii_lower(first_word(text2)),
    ensures
        alike(
            run(start, before.push(EventView::Text(Ok(text1))) + after),
            run(start, before.push(EventView::Text(Ok(text2))) + after),
        ),
    decreases after.len(),
{
    let one = before.push(EventView::Text(Ok(text1)));
    let two = before.push(EventView::Text(Ok(text2)));
    if after.len() == 0 {
        assert(one + after == one);
        assert(two + after == two);
        lemma_run_push(start, before, EventView::Text(Ok(text1)));
        lemma_run_push(start, before, EventView::Text(Ok(text2)));
        if let UpgradeView::ReadingDigest { binary, .. } = run(start, before) {
            law_only_the_folded_word_matters(
                first_word(text1),
                debug_quoted(text1),
                first_word(text2),
                debug_quoted(text2),
                sha256(binary),
            );
        }
    } else {
        lemma_alike(start, before, text1, text2, after.drop_last());
        assert((one + after).drop_last() == one + after.drop_last());
        assert((two + after).drop_last() == two + after.drop_last());
    }
}

/// The bytes that an upgrade writes are bytes that it downloaded and that agree with the
/// published digest, and it writes them to a temporary file.
pub proof fn law_only_genuine_bytes_are_written(
    start: UpgradeView,
    events: Seq<EventView>,
    version: Seq<char>,
    arch: Seq<char>,
    extension: Seq<char>,
    bytes: Seq<u8>,
)
    requires
        starts(start, version, arch),
        pending(run(start, events)) == (ActionView::Write { extension, bytes }),
    ensures
        genuine(start, events, bytes),
        is_temp(extension),
{
    lemma_started(start, events, version, arch);
}

/// The running binary is replaced only by a genuine binary that was written and made
/// executable, and only after the running one was backed up.
pub proof fn law_swap_comes_after_the_backup(
    start: UpgradeView,
    events: Seq<EventView>,
    version: Seq<char>,
    arch: Seq<char>,
    extension: Seq<char>,
)
    requires
        starts(start, version, arch),
        pending(run(start, events)) == (ActionView::Swap { extension }),
    ensures
        wrote(start, events, extension),
        marked(start, events, extension),
        backed_up(start, events),
{
    lemma_started(start, events, version, arch);
}

proof fn lemma_swap_finishes(start: UpgradeView, events: Seq<EventView>, temp: Seq<char>)
    requires
        swapped(start, events, temp),
    ensures
        run(start, events) == (UpgradeView::Finished { release: false, result: Ok(()) }),
    decreases events.len(),
{
    if events.len() > 0 {
        let before = events.drop_last();
        assert(before.push(events.last()) == events);
        lemma_run_push(start, before, events.last());
        if swapped(start, before, temp) {
            lemma_swap_finishes(start, before, temp);
        }
    }
}

/// An upgrade succeeds exactly when it has replaced the running binary; so one that fails
/// has left it as it was.
pub proof fn law_success_is_the_swap(
    start: UpgradeView,
    events: Seq<EventView>,
    version: Seq<char>,
    arch: Seq<char>,
    release: bool,
    result: Result<(), Seq<char>>,
)
    requires
        starts(start, version, arch),
        pending(run(start, events)) == (ActionView::Finish { release, result }),
    ensures
        result is Ok <==> exists|temp: Seq<char>| #[trigger] swapped(start, events, temp),
{
    lemma_started(start, events, version, arch);
    if exists|temp: Seq<char>| #[trigger] swapped(start, events, temp) {
        let temp = choose|temp: Seq<char>| #[trigger] swapped(start, events, temp);
        lemma_swap_finishes(start, events, temp);
    }
}

/// A failed upgrade gives back the right to upgrade exactly when it had taken it; a
/// successful one keeps it.
pub proof fn law_right_is_given_back_on_failure(
    start: UpgradeView,
    events: Seq<EventView>,
    version: Seq<char>,
    arch: Seq<char>,
    release: bool,
    result: Result<(), Seq<char>>,
)
    requires
        starts(start, version, arch),
        pending(run(start, events)) == (ActionView::Finish { release, result }),
    ensures
        release == (result is Err && took_right(start, events)),
{
    lemma_started(start, events, version, arch);
}

/// The temporary file `temp` was written.
pub open spec fn wrote_file(start: UpgradeView, events: Seq<EventView>, temp: Seq<char>) -> bool {
    exists|bytes: Seq<u8>| #[trigger]
        done(
            start,
            events,
            ActionView::Write { extension: temp, bytes },
            EventView::Written(Ok(())),
        )
}

/// The removal of the temporary file `temp` was tried.
pub open spec fn removed(start: UpgradeView, events: Seq<EventView>, temp: Seq<char>) -> bool {
    done(start, events, ActionView::Remove { extension: temp }, EventView::Removed)
}

/// Where a temporary file stands that was written.
spec fn accounted(start: UpgradeView, events: Seq<EventView>, temp: Seq<char>) -> bool {
    match run(start, events) {
        UpgradeView::Marking { temp: t } => t == temp,
        UpgradeView::BackingUp { temp: t } => t == temp,
        UpgradeView::Swapping { temp: t } => t == temp,
        UpgradeView::Discarding { temp: t, .. } => t == temp,
        UpgradeView::Finished { result, .. } => result is Err ==> removed(start, events, temp),
        _ => false,
    }
}

proof fn lemma_accounted(start: UpgradeView, events: Seq<EventView>, temp: Seq<char>)
    requires
        wrote_file(start, events, temp),
    ensures
        accounted(start, events, temp),
    decreases events.len(),
{
    if events.len() > 0 {
        let before = events.drop_last();
        assert(before.push(events.last()) == events);
        lemma_run_push(start, before, events.last());
        let bytes = choose|bytes: Seq<u8>| #[trigger]
            done(
                start,
                events,
                ActionView::Write { extension: temp, bytes },
                EventView::Written(Ok(())),
            );
        if done(
            start,
            before,
            ActionView::Write { extension: temp, bytes },
            EventView::Written(Ok(())),
        ) {
            lemma_accounted(start, before, temp);
            assert(removed(start, before, temp) ==> removed(start, events, temp));
        }
    }
}

/// A failed upgrade removes the temporary file that it wrote.
pub proof fn law_failure_removes_the_temporary_file(
    start: UpgradeView,
    events: Seq<EventView>,
    temp: Seq<char>,
    release: bool,
    message: Seq<char>,
)
    requires
        pending(run(start, events)) == (ActionView::Finish { release, result: Err(message) }),
        wrote_file(start, events, temp),
    ensures
        removed(start, events, temp),
{
    lemma_accounted(start, events, temp);
}

/// A node that runs in docker, or that nothing would start again, is refused before
/// anything is claimed, whatever the version.
pub proof fn law_only_systemd_upgrades(
    dockerenv: bool,
    invocation_id: bool,
    version: Seq<char>,
    quoted: Seq<char>,
    arch: Seq<char>,
)
    requires
        dockerenv || !invocation_id,
    ensures
        screened(
            install_method_text(dockerenv, invocation_id),
            version,
            quoted,
            arch,
        ) matches UpgradeView::Finished { release, result } && !release && result is Err,
{
    reveal_strlit("docker");
    reveal_strlit("systemd");
    reveal_strlit("manual");
    assert("docker"@.len() == 6);
    assert("systemd"@.len() == 7);
    assert("manual"@.len() == 6);
}

/// The events of an upgrade that nothing stands in the way of.
pub open spec fn clean_events(
    binary: Seq<u8>,
    text: Seq<char>,
    pid: nat,
    nanos: Option<nat>,
    path: Seq<char>,
) -> Seq<EventView> {
    seq![
        EventView::Claimed(true),
        EventView::Located(Ok(())),
        EventView::ClientBuilt(Ok(())),
        EventView::Responded(Ok(())),
        EventView::Bytes(Ok(binary)),
        EventView::Responded(Ok(())),
        EventView::Text(Ok(text)),
        EventView::Stamp { pid, nanos },
        EventView::Written(Ok(())),
        EventView::Marked(Ok(())),
        EventView::BackedUp { path, result: Ok(()) },
        EventView::Swapped(Ok(())),
    ]
}

/// An upgrade of a systemd install on a supported architecture to a plain version succeeds
/// where nothing stands in its way and the binary agrees with the published digest.
pub proof fn law_clean_upgrade_succeeds(
    version: Seq<char>,
    quoted: Seq<char>,
    arch: Seq<char>,
    binary: Seq<u8>,
    text: Seq<char>,
    pid: nat,
    nanos: Option<nat>,
    path: Seq<char>,
)
    requires
        plain_semver(version),
        asset_arch_text(arch) is Some,
        binary.len() > 0,
        digest_verdict(first_word(text), debug_quoted(text), sha256(binary)) is Ok,
    ensures
        run(
            screened("systemd"@, version, quoted, arch),
            clean_events(binary, text, pid, nanos, path),
        ) == (UpgradeView::Finished { release: false, result: Ok(()) }),
{
    let start = screened("systemd"@, version, quoted, arch);
    let e0 = Seq::<EventView>::empty();
    let e1 = e0.push(EventView::Claimed(true));
    let e2 = e1.push(EventView::Located(Ok(())));
    let e3 = e2.push(EventView::ClientBuilt(Ok(())));
    let e4 = e3.push(EventView::Responded(Ok(())));
    let e5 = e4.push(EventView::Bytes(Ok(binary)));
    let e6 = e5.push(EventView::Responded(Ok(())));
    let e7 = e6.push(EventView::Text(Ok(text)));
    let e8 = e7.push(EventView::Stamp { pid, nanos });
    let e9 = e8.push(EventView::Written(Ok(())));
    let e10 = e9.push(EventView::Marked(Ok(())));
    let e11 = e10.push(EventView::BackedUp { path, result: Ok(()) });
    let e12 = e11.push(EventView::Swapped(Ok(())));
    lemma_run_push(start, e0, EventView::Claimed(true));
    lemma_run_push(start, e1, EventView::Located(Ok(())));
    lemma_run_push(start, e2, EventView::ClientBuilt(Ok(())));
    lemma_run_push(start, e3, EventView::Responded(Ok(())));
    lemma_run_push(start, e4, EventView::Bytes(Ok(binary)));
    lemma_run_push(start, e5, EventView::Responded(Ok(())));
    lemma_run_push(start, e6, EventView::Text(Ok(text)));
    lemma_run_push(start, e7, EventView::Stamp { pid, nanos });
    lemma_run_push(start, e8, EventView::Written(Ok(())));
    lemma_run_push(start, e9, EventView::Marked(Ok(())));
    lemma_run_push(start, e10, EventView::BackedUp { path, result: Ok(()) });
    lemma_run_push(start, e11, EventView::Swapped(Ok(())));
    assert(e12 =~= clean_events(binary, text, pid, nanos, path));
}

/// Upgrades of different processes, or begun at different times, write different temporary
/// files.
pub proof fn law_temporary_files_differ(pid1: nat, nanos1: nat, pid2: nat, nanos2: nat)
    requires
        temp_extension(pid1, nanos1) == temp_extension(pid2, nanos2),
    ensures
        pid1 == pid2,
        nanos1 == nanos2,
{
    reveal_strlit("upgrade.");
    reveal_strlit(".");
    reveal_strlit(".tmp");
    lemma_decimal_digits(pid1);
    lemma_decimal_digits(pid2);
    let a = temp_extension(pid1, nanos1);
    let b = temp_extension(pid2, nanos2);
    let p1 = decimal(pid1);
    let p2 = decimal(pid2);
    let n1 = decimal(nanos1);
    let n2 = decimal(nanos2);
    let m1 = p1.len() as int;
    let m2 = p2.len() as int;
    assert(a[8 + m1] == '.');
    assert(b[8 + m2] == '.');
    if m1 < m2 {
        assert(b[8 + m1] == p2[m1]);
    }
    if m2 < m1 {
        assert(a[8 + m2] == p1[m2]);
    }
    assert(m1 == m2);
    assert(a.len() == 8 + m1 + 1 + n1.len() + 4);
    assert(b.len() == 8 + m2 + 1 + n2.len() + 4);
    assert(a.subrange(8, 8 + m1) == p1);
    assert(b.subrange(8, 8 + m2) == p2);
    assert(a.subrange(9 + m1, 9 + m1 + n1.len()) == n1);
    assert(b.subrange(9 + m1, 9 + m1 + n2.len()) == n2);
    law_decimal_is_injective(pid1, pid2);
    law_decimal_is_injective(nanos1, nanos2);
}

/// The temporary file is never the backup file.
pub proof fn law_temporary_file_is_not_the_backup(extension: Seq<char>)
    requires
        is_temp(extension),
    ensures
        extension != "bak"@,
{
    reveal_strlit("upgrade.");
    reveal_strlit(".");
    reveal_strlit(".tmp");
    reveal_strlit("bak");
    let (pid, nanos) = choose|pid: nat, nanos: nat|
        extension == #[trigger] temp_extension(pid, nanos);
    assert(extension[0] == 'u');
}

/// The upgrades that were requested of one process, and whether the right to upgrade is
/// taken.
#[verifier::ext_equal]
pub struct NodeView {
    pub taken: bool,
    pub upgrades: Seq<UpgradeView>,
}

/// The upgrade has the right to upgrade.
pub open spec fn holds_right(state: UpgradeView) -> bool {
    match state {
        UpgradeView::Claiming { .. } => false,
        UpgradeView::Finished { release, result } => release || result is Ok,
        _ => true,
    }
}

/// At most one upgrade has the right to upgrade, and while one has it, it is taken. Only a
/// failed upgrade gives it back.
pub open spec fn single_flight(node: NodeView) -> bool {
    &&& forall|i: int|
        0 <= i < node.upgrades.len() ==> (#[trigger] node.upgrades[i] matches UpgradeView::Finished {
            release: true,
            result,
        } ==> result is Err)
    &&& forall|i: int|
        0 <= i < node.upgrades.len() && holds_right(#[trigger] node.upgrades[i]) ==> node.taken
    &&& forall|i: int, j: int|
        0 <= i < j < node.upgrades.len() ==> !(holds_right(#[trigger] node.upgrades[i])
            && holds_right(#[trigger] node.upgrades[j]))
}

/// The node after its `i`-th upgrade has gone one step. A claim is answered by whether the
/// right is free, and takes it; a finished upgrade gives it back if it says so.
pub open spec fn node_next(node: NodeView, i: int, event: EventView) -> NodeView {
    match node.upgrades[i] {
        UpgradeView::Claiming { .. } => NodeView {
            taken: true,
            upgrades: node.upgrades.update(
                i,
                next(node.upgrades[i], EventView::Claimed(!node.taken)),
            ),
        },
        UpgradeView::Finished { release: true, result } => NodeView {
            taken: false,
            upgrades: node.upgrades.update(
                i,
                UpgradeView::Finished { release: false, result },
            ),
        },
        _ => NodeView {
            upgrades: node.upgrades.update(i, next(node.upgrades[i], event)),
            ..node
        },
    }
}

/// A node that was asked for nothing yet has no upgrade at work.
pub proof fn law_new_node_is_single_flight()
    ensures
        single_flight(NodeView { taken: false, upgrades: Seq::empty() }),
{
}

/// Whatever its upgrades meet, a node keeps to one upgrade at a time.
pub proof fn law_single_flight_is_kept(node: NodeView, i: int, event: EventView)
    requires
        single_flight(node),
        0 <= i < node.upgrades.len(),
    ensures
        single_flight(node_next(node, i, event)),
{
}

/// A new request leaves a node with one upgrade at a time.
pub proof fn law_request_keeps_single_flight(
    node: NodeView,
    start: UpgradeView,
    version: Seq<char>,
    arch: Seq<char>,
)
    requires
        single_flight(node),
        starts(start, version, arch),
    ensures
        single_flight(NodeView { upgrades: node.upgrades.push(start), ..node }),
{
}

/// While one upgrade is at work, any other on the node has nothing to do but to claim the
/// right or to return its result.
pub proof fn law_upgrades_do_not_race(node: NodeView, i: int, j: int)
    requires
        single_flight(node),
        0 <= i < node.upgrades.len(),
        0 <= j < node.upgrades.len(),
        i != j,
        holds_right(node.upgrades[i]),
    ensures
        pending(node.upgrades[j]) is Claim || pending(node.upgrades[j]) is Finish,
{
}

/// While the right is taken a claim is refused, and the refused upgrade leaves it taken.
pub proof fn law_second_upgrade_is_refused(node: NodeView, i: int, event: EventView)
    requires
        node.taken,
        0 <= i < node.upgrades.len(),
        node.upgrades[i] is Claiming,
    ensures
        node_next(node, i, event).taken,
        node_next(node, i, event).upgrades[i] == (UpgradeView::Finished {
            release: false,
            result: Err("an upgrade is already in progress"@),
        }),
{
}

/// After a failed upgrade has given back the right, a claim is granted again.
pub proof fn law_retry_after_failure(node: NodeView, i: int, j: int, event: EventView)
    requires
        0 <= i < node.upgrades.len(),
        0 <= j < node.upgrades.len(),
        i != j,
        node.upgrades[i] matches UpgradeView::Finished { release, .. } && release,
        node.upgrades[j] matches UpgradeView::Claiming { arch, .. } && asset_arch_text(
            arch,
        ) is Some,
    ensures
        node_next(node_next(node, i, event), j, event).upgrades[j] is Locating,
{
}

} // verus!
