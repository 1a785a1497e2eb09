//! Decisions of the backend worker: how a
//! finished pipeline is handled, how the reconnect loop proceeds, which
//! inputs a stream start uses and which configurations may be saved.
//!
//! The worker itself (threads, locks, capture and the running pipeline)
//! lives outside the library; it reads its state into the plain values
//! below, performs the returned action and feeds the outcome back.

use vstd::prelude::*;
use crate::config::{bitrate_ok, Profile, MAX_AUDIO_KBPS, MAX_VIDEO_KBPS};
use crate::gst::pipeline::names_view;
use crate::gst::probe::{info_view, infos_view, usable_names, EncoderInfo};
use crate::gst::supervisor::{
    backoff_ms, exit_success_spec, retry_backoff_ms, run_result_spec, BusMessage, StopStep,
    MAX_RETRIES,
};
use crate::text::{
    chars_of, decimal, push_decimal, push_str, starts_with, str_eq, trim, trimmed, vec_starts_with,
};

verus! {

/// How a pipeline run ended: `success` for a requested stop (EOS), not
/// for a bus error.
pub struct ExitStatus {
    success: bool,
}

impl ExitStatus {
    /// True when the run ended on request.
    pub closed spec fn is_success(&self) -> bool {
        self.success
    }

    /// True when the run ended on request.
    pub fn success(&self) -> (r: bool)
        ensures
            r == self.is_success(),
    {
        self.success
    }
}

/// The exit of a pipeline whose run reported `done` (`None` while it is
/// still running, `Some(ok)` once it has finished).
pub fn exit_status(done: Option<bool>) -> (r: Option<ExitStatus>)
    ensures
        match done {
            None => r is None,
            Some(ok) => r matches Some(e) && e.is_success() == ok,
        },
{
    match done {
        None => None,
        Some(ok) => Some(ExitStatus { success: ok }),
    }
}

/// Coarse UI state for the operations that block the worker.
#[derive(Clone, Copy, Debug, PartialEq, Eq, Structural)]
pub enum Busy {
    Starting,
    Stopping,
    Picking,
}

/// Builds without a media backend have no bundled runtime to point at.
pub fn ensure_bundled_runtime() {
}

/// Encoder list of a build without a media backend: the software encoder,
/// reported unusable.
pub fn probe_encoder_infos() -> (r: Vec<EncoderInfo>)
    ensures
        infos_view(r@) == seq![("libx264"@, false, Some("this build has no media backend"@))],
{
    let mut v: Vec<EncoderInfo> = Vec::new();
    v.push(
        EncoderInfo {
            name: String::from_str("libx264"),
            usable: false,
            reason: Some(String::from_str("this build has no media backend")),
        },
    );
    assert(infos_view(v@) =~= seq![info_view(v@[0])]);
    v
}

// ---------------------------------------------------------------------------
// supervision of the running stream

/// What the worker knows about the stream between two polls.
#[derive(Clone, Copy, Debug, PartialEq, Eq, Structural)]
pub struct Supervisor {
    /// Retry attempt in backoff (`Some(n)`: "reconnecting n/3").
    pub retrying: Option<u32>,
    /// The inputs of the live stream are kept, so a retry can respawn it.
    pub has_session: bool,
    /// `retry_count` of the installed pipeline; `None` when none is.
    pub stream: Option<u32>,
}

/// Retry attempts and retry counts stay within the budget.
pub open spec fn supervisor_wf(s: Supervisor) -> bool {
    &&& (s.retrying matches Some(n) ==> 1 <= n <= MAX_RETRIES)
    &&& (s.stream matches Some(c) ==> c <= MAX_RETRIES)
}

/// What the worker does after polling the installed pipeline.
#[derive(Clone, Copy, Debug, PartialEq, Eq, Structural)]
pub enum PollAction {
    /// Nothing: still running, no pipeline, or a retry is already pending.
    Keep,
    /// The run ended on request: the stream is no longer live.
    Ended,
    /// Abnormal end with retries left: start the reconnect loop at
    /// `attempt` (the pipeline shows "reconnecting attempt/3").
    Retry { attempt: u32 },
    /// Abnormal end and no retry left: drop the session and the pipeline.
    GiveUp,
}

/// The poll decision for pipeline exit `exit` (`None`: still running).
pub open spec fn poll_spec(s: Supervisor, exit: Option<bool>) -> PollAction {
    match s.stream {
        None => PollAction::Keep,
        Some(count) => match exit {
            None => PollAction::Keep,
            Some(true) => PollAction::Ended,
            Some(false) => if count < MAX_RETRIES && s.has_session {
                if s.retrying is None {
                    PollAction::Retry { attempt: (count + 1) as u32 }
                } else {
                    PollAction::Keep
                }
            } else if s.retrying is None {
                PollAction::GiveUp
            } else {
                PollAction::Keep
            },
        },
    }
}

/// The state after the poll decision `a` has been carried out.
pub open spec fn after_poll(s: Supervisor, a: PollAction) -> Supervisor {
    match a {
        PollAction::Retry { attempt } => Supervisor { retrying: Some(attempt), ..s },
        PollAction::GiveUp => Supervisor { has_session: false, stream: None, ..s },
        _ => s,
    }
}

/// The reconnect attempt shown in the status after decision `a`.
pub open spec fn shown_retrying(s: Supervisor, a: PollAction) -> Option<u32> {
    match a {
        PollAction::Retry { attempt } => Some(attempt),
        PollAction::GiveUp => None,
        _ => s.retrying,
    }
}

impl Supervisor {
    /// No stream, no session, no retry.
    pub fn idle() -> (r: Supervisor)
        ensures
            r == (Supervisor { retrying: None, has_session: false, stream: None }),
            supervisor_wf(r),
    {
        Supervisor { retrying: None, has_session: false, stream: None }
    }

    /// A stream start installed its first pipeline.
    pub fn started() -> (r: Supervisor)
        ensures
            r == (Supervisor { retrying: None, has_session: true, stream: Some(0) }),
            supervisor_wf(r),
    {
        Supervisor { retrying: None, has_session: true, stream: Some(0) }
    }

    /// A user stop: it cancels a pending retry and drops the session and
    /// the pipeline.
    pub fn stopped(self) -> (r: Supervisor)
        ensures
            r == Supervisor::idle_spec(),
    {
        Supervisor { retrying: None, has_session: false, stream: None }
    }

    /// The idle state.
    pub open spec fn idle_spec() -> Supervisor {
        Supervisor { retrying: None, has_session: false, stream: None }
    }

    /// The decision after polling the installed pipeline, whose run
    /// reported `exit`, with the state after the decision is carried out.
    /// A requested stop ends the stream; an abnormal end starts the
    /// reconnect loop while the budget lasts and no retry is pending, and
    /// gives up once it is spent.
    pub fn poll(self, exit: Option<ExitStatus>) -> (r: (Supervisor, PollAction))
        requires
            supervisor_wf(self),
        ensures
            r.1 == poll_spec(
                self,
                match exit {
                    None => None,
                    Some(e) => Some(e.is_success()),
                },
            ),
            r.0 == after_poll(self, r.1),
            supervisor_wf(r.0),
    {
        let action = match self.stream {
            None => PollAction::Keep,
            Some(count) => match exit {
                None => PollAction::Keep,
                Some(e) => {
                    if e.success() {
                        PollAction::Ended
                    } else if count < MAX_RETRIES && self.has_session {
                        if self.retrying.is_none() {
                            PollAction::Retry { attempt: count + 1 }
                        } else {
                            PollAction::Keep
                        }
                    } else if self.retrying.is_none() {
                        PollAction::GiveUp
                    } else {
                        PollAction::Keep
                    }
                },
            },
        };
        let next = match action {
            PollAction::Retry { attempt } => Supervisor { retrying: Some(attempt), ..self },
            PollAction::GiveUp => Supervisor { has_session: false, stream: None, ..self },
            _ => self,
        };
        (next, action)
    }

    /// The reconnect attempt the status shows after decision `action`.
    pub fn shown_retrying(self, action: PollAction) -> (r: Option<u32>)
        ensures
            r == shown_retrying(self, action),
    {
        match action {
            PollAction::Retry { attempt } => Some(attempt),
            PollAction::GiveUp => None,
            _ => self.retrying,
        }
    }
}

/// A finished run never leaves the stream live; a successful one never
/// starts a retry; a retry is started only while none is pending, with the
/// next attempt number inside the budget.
pub proof fn poll_properties(s: Supervisor, exit: Option<bool>)
    requires
        supervisor_wf(s),
    ensures
        exit == Some(true) ==> poll_spec(s, exit) is Ended || s.stream is None,
        poll_spec(s, exit) matches PollAction::Retry { attempt } ==> {
            &&& s.retrying is None
            &&& exit == Some(false)
            &&& s.has_session
            &&& s.stream == Some((attempt - 1) as u32)
            &&& 1 <= attempt <= MAX_RETRIES
        },
        s.retrying is Some ==> !(poll_spec(s, exit) is Retry),
        exit is None ==> poll_spec(s, exit) is Keep,
{
}

/// A stop the user requested never leads to a reconnect: the run it ends,
/// by EOS or by the drain deadline, is a success, which the poll only
/// marks as ended. A bus error always counts as an abnormal end.
pub proof fn requested_stop_never_retries(s: Supervisor, stopping: bool, msg: Option<BusMessage>)
    requires
        supervisor_wf(s),
        s.stream is Some,
    ensures
        poll_spec(s, exit_success_spec(true, StopStep::Drain, Some(BusMessage::Eos)))
            == PollAction::Ended,
        exit_success_spec(true, StopStep::Force, msg) == Some(true),
        poll_spec(s, exit_success_spec(true, StopStep::Force, msg)) == PollAction::Ended,
        poll_spec(s, run_result_spec(Some(BusMessage::Eos), true)) == PollAction::Ended,
        poll_spec(s, Some(true)) == PollAction::Ended,
        run_result_spec(Some(BusMessage::Error), stopping) == Some(false),
        run_result_spec(Some(BusMessage::Eos), false) == Some(false),
{
}

// ---------------------------------------------------------------------------
// the reconnect loop

/// A step of the reconnect loop.
#[derive(Clone, Copy, Debug, PartialEq, Eq, Structural)]
pub enum RetryStep {
    /// Sleep `delay_ms`, then check whether attempt `attempt` should run.
    Wait { attempt: u32, delay_ms: u64 },
    /// Rebuild capture and pipeline for attempt `attempt`.
    Launch { attempt: u32 },
    /// The new pipeline of attempt `attempt` is installed; the loop ends.
    Install { attempt: u32 },
    /// A stop landed while the pipeline was built: stop it; the loop ends.
    Discard,
    /// A stop landed during the wait, or the session is gone; the loop ends.
    Cancelled,
    /// Every attempt failed: tear everything down and report it.
    Exhausted,
}

/// What the loop observed after a step.
#[derive(Clone, Copy, Debug, PartialEq, Eq, Structural)]
pub enum RetryEvent {
    /// The wait ended; whether a retry is still pending and a session kept.
    Woke { retrying: bool, has_session: bool },
    /// The launch finished (`ok`); whether a retry is still pending.
    Launched { ok: bool, retrying: bool },
}

/// The first step of a loop started at attempt `first`.
pub open spec fn retry_first_spec(first: u32) -> RetryStep {
    if first <= MAX_RETRIES {
        RetryStep::Wait { attempt: first, delay_ms: backoff_ms((first - 1) as nat) as u64 }
    } else {
        RetryStep::Exhausted
    }
}

/// The step after `step` once `ev` was observed. A pending retry that was
/// cancelled ends the loop; a failed launch moves to the next attempt
/// after its backoff, until the budget is spent. Any other pairing leaves
/// the step as it is.
pub open spec fn retry_next_spec(step: RetryStep, ev: RetryEvent) -> RetryStep {
    match (step, ev) {
        (RetryStep::Wait { attempt, .. }, RetryEvent::Woke { retrying, has_session }) => {
            if !retrying || !has_session {
                RetryStep::Cancelled
            } else {
                RetryStep::Launch { attempt }
            }
        },
        (RetryStep::Launch { attempt }, RetryEvent::Launched { ok, retrying }) => {
            if ok {
                if retrying {
                    RetryStep::Install { attempt }
                } else {
                    RetryStep::Discard
                }
            } else if attempt < MAX_RETRIES {
                RetryStep::Wait {
                    attempt: (attempt + 1) as u32,
                    delay_ms: backoff_ms(attempt as nat) as u64,
                }
            } else {
                RetryStep::Exhausted
            }
        },
        _ => step,
    }
}

/// Attempt numbers of the loop stay in `1..=MAX_RETRIES`.
pub open spec fn retry_step_wf(step: RetryStep) -> bool {
    match step {
        RetryStep::Wait { attempt, delay_ms } => 1 <= attempt <= MAX_RETRIES && delay_ms
            == backoff_ms((attempt - 1) as nat),
        RetryStep::Launch { attempt } => 1 <= attempt <= MAX_RETRIES,
        RetryStep::Install { attempt } => 1 <= attempt <= MAX_RETRIES,
        _ => true,
    }
}

/// The first step of a reconnect loop started at attempt `first`
/// (the retry count of the failed pipeline plus one).
pub fn retry_first(first: u32) -> (r: RetryStep)
    requires
        first >= 1,
    ensures
        r == retry_first_spec(first),
        retry_step_wf(r),
{
    if first <= MAX_RETRIES {
        RetryStep::Wait { attempt: first, delay_ms: retry_backoff_ms(first - 1) }
    } else {
        RetryStep::Exhausted
    }
}

/// The next step of the reconnect loop.
pub fn retry_next(step: RetryStep, ev: RetryEvent) -> (r: RetryStep)
    requires
        retry_step_wf(step),
    ensures
        r == retry_next_spec(step, ev),
        retry_step_wf(r),
{
    match (step, ev) {
        (RetryStep::Wait { attempt, .. }, RetryEvent::Woke { retrying, has_session }) => {
            if !retrying || !has_session {
                RetryStep::Cancelled
            } else {
                RetryStep::Launch { attempt }
            }
        },
        (RetryStep::Launch { attempt }, RetryEvent::Launched { ok, retrying }) => {
            if ok {
                if retrying {
                    RetryStep::Install { attempt }
                } else {
                    RetryStep::Discard
                }
            } else if attempt < MAX_RETRIES {
                RetryStep::Wait { attempt: attempt + 1, delay_ms: retry_backoff_ms(attempt) }
            } else {
                RetryStep::Exhausted
            }
        },
        _ => step,
    }
}

/// The event the loop observes after `step` in state `s`, given whether a
/// launch succeeded.
pub open spec fn observe(s: Supervisor, step: RetryStep, launched_ok: bool) -> RetryEvent {
    match step {
        RetryStep::Launch { .. } => RetryEvent::Launched {
            ok: launched_ok,
            retrying: s.retrying is Some,
        },
        _ => RetryEvent::Woke { retrying: s.retrying is Some, has_session: s.has_session },
    }
}

/// The state after the loop reached `step`.
pub open spec fn after_retry(s: Supervisor, step: RetryStep) -> Supervisor {
    match step {
        RetryStep::Install { attempt } => Supervisor { retrying: None, stream: Some(attempt), ..s },
        RetryStep::Exhausted => Supervisor { retrying: None, has_session: false, stream: None },
        _ => s,
    }
}

impl Supervisor {
    /// The state after the reconnect loop reached `step`: an installed
    /// pipeline replaces the failed one and clears the pending retry;
    /// exhaustion drops the session and the pipeline.
    pub fn after_retry(self, step: RetryStep) -> (r: Supervisor)
        requires
            supervisor_wf(self),
            retry_step_wf(step),
        ensures
            r == after_retry(self, step),
            supervisor_wf(r),
    {
        match step {
            RetryStep::Install { attempt } => Supervisor {
                retrying: None,
                stream: Some(attempt),
                ..self
            },
            RetryStep::Exhausted => Supervisor { retrying: None, has_session: false, stream: None },
            _ => self,
        }
    }
}

/// The message shown when every reconnect attempt failed.
pub fn exhausted_message() -> (r: String)
    ensures
        r@ == "stream: reconnection failed (3 attempts)"@,
{
    String::from_str("stream: reconnection failed (3 attempts)")
}

/// A user stop always wins over the reconnect loop: after the stop, the
/// loop's next observation ends it without installing a pipeline, and the
/// state stays idle.
pub proof fn stop_wins(s: Supervisor, step: RetryStep, launched_ok: bool)
    requires
        step is Wait || step is Launch,
    ensures
        ({
            let t = s.stopped_spec();
            let next = retry_next_spec(step, observe(t, step, launched_ok));
            &&& (next is Cancelled || next is Discard || next is Wait || next is Exhausted)
            &&& !(next is Install)
            &&& (step is Wait ==> next is Cancelled)
            &&& (next is Cancelled || next is Discard ==> after_retry(t, next) == t)
        }),
{
}

impl Supervisor {
    /// The state after a user stop.
    pub open spec fn stopped_spec(self) -> Supervisor {
        Supervisor::idle_spec()
    }
}

/// Every attempt waits its backoff first (1s, 2s, 4s for attempts 1, 2,
/// 3); a failed attempt leads to the next one while the budget lasts and
/// to exhaustion after attempt `MAX_RETRIES`, so a loop launches at most
/// `MAX_RETRIES` pipelines.
pub proof fn failed_attempts_advance(attempt: u32, still_retrying: bool)
    requires
        1 <= attempt <= MAX_RETRIES,
    ensures
        retry_next_spec(
            retry_next_spec(
                RetryStep::Wait { attempt, delay_ms: backoff_ms((attempt - 1) as nat) as u64 },
                RetryEvent::Woke { retrying: true, has_session: true },
            ),
            RetryEvent::Launched { ok: false, retrying: still_retrying },
        ) == (if attempt < MAX_RETRIES {
            RetryStep::Wait {
                attempt: (attempt + 1) as u32,
                delay_ms: backoff_ms(attempt as nat) as u64,
            }
        } else {
            RetryStep::Exhausted
        }),
        retry_first_spec(1) == (RetryStep::Wait { attempt: 1, delay_ms: 1000 }),
        backoff_ms(1) == 2000,
        backoff_ms(2) == 4000,
{
    vstd::arithmetic::power2::lemma2_to64();
}

// ---------------------------------------------------------------------------
// stream start and configuration checks

/// Why a stream start was refused before any plan was built.
#[derive(Debug, Clone, PartialEq, Eq)]
pub enum StartRefusal {
    /// A stream is already running.
    AlreadyRunning,
    /// No profile is configured under the requested id.
    UnknownProfile(String),
}

impl StartRefusal {
    /// The message shown to the user.
    pub fn message(&self) -> (r: String)
        ensures
            match self {
                StartRefusal::AlreadyRunning => r@ == "stream already running"@,
                StartRefusal::UnknownProfile(id) => r@ == "unknown profile: "@ + id@,
            },
    {
        match self {
            StartRefusal::AlreadyRunning => String::from_str("stream already running"),
            StartRefusal::UnknownProfile(id) => {
                let mut s = String::from_str("unknown profile: ");
                push_str(&mut s, id.as_str());
                s
            },
        }
    }
}

/// True when `ov` asks for automatic encoder selection (empty or "auto"
/// once trimmed).
pub open spec fn wants_auto(ov: Seq<char>) -> bool {
    trim(ov).len() == 0 || trim(ov) == "auto"@
}

/// The index of the first profile stored under `id`, if any.
pub open spec fn profile_index(profiles: Seq<(String, Profile)>, id: Seq<char>) -> Option<int> {
    if exists|i: int| 0 <= i < profiles.len() && profiles[i].0@ == id {
        Some(choose|i: int| 0 <= i < profiles.len() && profiles[i].0@ == id && forall|j: int|
            0 <= j < i ==> profiles[j].0@ != id)
    } else {
        None
    }
}

fn find_profile(profiles: &Vec<(String, Profile)>, id: &str) -> (r: Option<usize>)
    ensures
        match r {
            None => profile_index(profiles@, id@) is None,
            Some(i) => profile_index(profiles@, id@) == Some(i as int) && i < profiles.len(),
        },
{
    let mut i: usize = 0;
    while i < profiles.len()
        invariant
            i <= profiles.len(),
            forall|j: int| 0 <= j < i ==> profiles@[j].0@ != id@,
        decreases profiles.len() - i,
    {
        if str_eq(profiles[i].0.as_str(), id) {
            proof {
                let w = choose|k: int|
                    0 <= k < profiles@.len() && profiles@[k].0@ == id@ && forall|j: int|
                        0 <= j < k ==> profiles@[j].0@ != id@;
                assert(0 <= i < profiles@.len() && profiles@[i as int].0@ == id@ && forall|j: int|
                    0 <= j < i ==> profiles@[j].0@ != id@);
                assert(w == i as int) by {
                    if w < i {
                        assert(profiles@[w].0@ != id@);
                    }
                    if w > i {
                        assert(profiles@[i as int].0@ != id@);
                    }
                }
            }
            return Some(i);
        }
        i = i + 1;
    }
    None
}

/// The inputs of a stream start: the selected profile, the trimmed
/// encoder override and the encoders automatic selection may use.
pub struct StreamInputs {
    pub profile: Profile,
    pub encoder_override: String,
    pub usable: Vec<String>,
}

/// Chooses the inputs of a stream start. A running stream or
/// an unknown profile id refuses the start. The override is trimmed, so a
/// blank one means "auto"; automatic selection may use only the encoders
/// the probe reported usable, in probe order, while a manual override is
/// used as is with no list.
pub fn stream_inputs(
    running: bool,
    profiles: &Vec<(String, Profile)>,
    profile_id: &str,
    encoder_override: &str,
    probed: &Vec<EncoderInfo>,
) -> (r: Result<StreamInputs, StartRefusal>)
    ensures
        running ==> r == Err::<StreamInputs, StartRefusal>(StartRefusal::AlreadyRunning),
        !running && profile_index(profiles@, profile_id@) is None ==> (r matches Err(
            StartRefusal::UnknownProfile(id),
        ) && id@ == profile_id@),
        !running && profile_index(profiles@, profile_id@) is Some <==> r is Ok,
        r matches Ok(inp) ==> {
            &&& inp.profile == profiles@[profile_index(profiles@, profile_id@)->0].1
            &&& inp.encoder_override@ == trim(encoder_override@)
            &&& names_view(inp.usable@) == (if wants_auto(encoder_override@) {
                usable_names(probed@)
            } else {
                Seq::empty()
            })
        },
{
    if running {
        return Err(StartRefusal::AlreadyRunning);
    }
    let i = match find_profile(profiles, profile_id) {
        Some(i) => i,
        None => {
            return Err(StartRefusal::UnknownProfile(String::from_str(profile_id)));
        },
    };
    let profile = profiles[i].1.duplicate();
    let ov = trimmed(encoder_override);
    let auto = ov.unicode_len() == 0 || str_eq(ov.as_str(), "auto");
    let mut usable: Vec<String> = Vec::new();
    if auto {
        let mut k: usize = 0;
        while k < probed.len()
            invariant
                k <= probed.len(),
                names_view(usable@) == usable_names(probed@.take(k as int)),
            decreases probed.len() - k,
        {
            let ghost before = names_view(usable@);
            if probed[k].usable {
                usable.push(probed[k].name.clone());
            }
            proof {
                assert(probed@.take(k + 1).drop_last() =~= probed@.take(k as int));
                if probed@[k as int].usable {
                    assert(names_view(usable@) =~= before.push(probed@[k as int].name@));
                } else {
                    assert(names_view(usable@) =~= before);
                }
            }
            k = k + 1;
        }
        assert(probed@.take(probed.len() as int) =~= probed@);
    } else {
        assert(names_view(usable@) =~= Seq::empty());
    }
    Ok(StreamInputs { profile, encoder_override: ov, usable })
}

/// Why a configuration was refused before saving.
#[derive(Debug, Clone, PartialEq, Eq)]
pub enum ConfigRefusal {
    /// The profile stored under `id` exceeds the TopazChat limits.
    BitrateOver { id: String, v_kbps: u32, a_kbps: u32 },
    /// The ingest URL is neither `rtmp://` nor `rtmps://`.
    IngestScheme,
}

/// The details of a refusal to save an over-limit profile: the profile's
/// id, its two bitrates and the two limits. They follow the bitrate
/// error's own text, in parentheses, when the refusal is reported.
pub open spec fn config_refusal_text(id: Seq<char>, v_kbps: u32, a_kbps: u32) -> Seq<char> {
    id + ": video "@ + decimal(v_kbps as nat) + "/audio "@ + decimal(a_kbps as nat)
        + " kbps, limits "@ + decimal(MAX_VIDEO_KBPS as nat) + "/"@ + decimal(
        MAX_AUDIO_KBPS as nat,
    ) + " kbps"@
}

impl ConfigRefusal {
    /// The message shown to the user.
    pub fn message(&self) -> (r: String)
        ensures
            match self {
                ConfigRefusal::BitrateOver { id, v_kbps, a_kbps } => r@ == config_refusal_text(
                    id@,
                    *v_kbps,
                    *a_kbps,
                ),
                ConfigRefusal::IngestScheme => r@ == "ingest URL must start with rtmp:// or rtmps://"@,
            },
    {
        match self {
            ConfigRefusal::BitrateOver { id, v_kbps, a_kbps } => {
                let mut s = String::new();
                push_str(&mut s, id.as_str());
                push_str(&mut s, ": video ");
                push_decimal(&mut s, *v_kbps as u64);
                push_str(&mut s, "/audio ");
                push_decimal(&mut s, *a_kbps as u64);
                push_str(&mut s, " kbps, limits ");
                push_decimal(&mut s, MAX_VIDEO_KBPS as u64);
                push_str(&mut s, "/");
                push_decimal(&mut s, MAX_AUDIO_KBPS as u64);
                push_str(&mut s, " kbps");
                s
            },
            ConfigRefusal::IngestScheme => String::from_str(
                "ingest URL must start with rtmp:// or rtmps://",
            ),
        }
    }
}

/// True when the ingest URL has an RTMP scheme.
pub open spec fn ingest_scheme_ok(url: Seq<char>) -> bool {
    starts_with(url, "rtmp://"@) || starts_with(url, "rtmps://"@)
}

/// A configuration may be saved only when every profile is within
/// the TopazChat limits and the ingest URL is `rtmp://` or `rtmps://`. The
/// first profile over the limits is reported; the URL is checked after the
/// profiles.
pub fn check_config(profiles: &Vec<(String, Profile)>, ingest_url: &str) -> (r: Result<
    (),
    ConfigRefusal,
>)
    ensures
        r is Ok <==> (forall|i: int|
            0 <= i < profiles.len() ==> bitrate_ok(#[trigger] profiles@[i].1.v_kbps, profiles@[i].1.a_kbps))
            && ingest_scheme_ok(ingest_url@),
        r matches Err(ConfigRefusal::BitrateOver { id, v_kbps, a_kbps }) ==> exists|i: int|
            0 <= i < profiles.len() && !bitrate_ok(profiles@[i].1.v_kbps, profiles@[i].1.a_kbps)
                && (forall|j: int|
                0 <= j < i ==> bitrate_ok(#[trigger] profiles@[j].1.v_kbps, profiles@[j].1.a_kbps))
                && id@ == profiles@[i].0@ && v_kbps == profiles@[i].1.v_kbps && a_kbps
                == profiles@[i].1.a_kbps,
        r == Err::<(), ConfigRefusal>(ConfigRefusal::IngestScheme) ==> (forall|i: int|
            0 <= i < profiles.len() ==> bitrate_ok(#[trigger] profiles@[i].1.v_kbps, profiles@[i].1.a_kbps)),
{
    let mut i: usize = 0;
    while i < profiles.len()
        invariant
            i <= profiles.len(),
            forall|j: int| 0 <= j < i ==> bitrate_ok(#[trigger] profiles@[j].1.v_kbps, profiles@[j].1.a_kbps),
        decreases profiles.len() - i,
    {
        let p = &profiles[i].1;
        if p.v_kbps > MAX_VIDEO_KBPS || p.a_kbps > MAX_AUDIO_KBPS {
            return Err(
                ConfigRefusal::BitrateOver {
                    id: profiles[i].0.clone(),
                    v_kbps: p.v_kbps,
                    a_kbps: p.a_kbps,
                },
            );
        }
        i = i + 1;
    }
    let url = chars_of(ingest_url);
    if vec_starts_with(&url, "rtmp://") || vec_starts_with(&url, "rtmps://") {
        Ok(())
    } else {
        Err(ConfigRefusal::IngestScheme)
    }
}

} // verus!
