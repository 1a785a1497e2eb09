//! Pipeline supervision policy: retry budget,
//! exponential backoff, how the bus watcher ends a run, and the frame
//! statistics of a running stream.

use vstd::prelude::*;
use vstd::arithmetic::power2::pow2;

verus! {

/// Max automatic reconnects after an abnormal bus EOS/ERROR.
pub const MAX_RETRIES: u32 = 3;

/// Backoff before retry `retry` (0-based): 1s, 2s, 4s, … doubling, capped
/// at 16s from the fifth retry on.
pub open spec fn backoff_ms(retry: nat) -> nat {
    if retry >= 4 {
        16000
    } else {
        1000 * pow2(retry)
    }
}

/// Exponential backoff 1s/2s/4s, capped at 16s.
pub fn retry_backoff_ms(retry: u32) -> (r: u64)
    ensures
        r == backoff_ms(retry as nat),
{
    let shift: u64 = if retry < 4 { retry as u64 } else { 4 };
    proof {
        vstd::arithmetic::power2::lemma2_to64();
    }
    let r = 1000u64 << shift;
    assert(r == 1000 * pow2(shift as nat)) by {
        if shift == 0 {
            assert(1000u64 << 0u64 == 1000) by (bit_vector);
        } else if shift == 1 {
            assert(1000u64 << 1u64 == 2000) by (bit_vector);
        } else if shift == 2 {
            assert(1000u64 << 2u64 == 4000) by (bit_vector);
        } else if shift == 3 {
            assert(1000u64 << 3u64 == 8000) by (bit_vector);
        } else {
            assert(1000u64 << 4u64 == 16000) by (bit_vector);
        }
    }
    r
}

/// The backoff doubles from one retry to the next until it reaches the
/// 16s cap, and stays there.
pub proof fn backoff_doubles_then_caps(retry: nat)
    ensures
        retry < 4 ==> backoff_ms(retry + 1) == 2 * backoff_ms(retry),
        retry >= 4 ==> backoff_ms(retry + 1) == backoff_ms(retry),
        backoff_ms(retry) <= 16000,
        backoff_ms(0) == 1000,
{
    vstd::arithmetic::power2::lemma2_to64();
}

/// How long a requested stop waits for EOS to drain before forcing the
/// pipeline down (ms).
pub const EOS_DRAIN_MS: u64 = 3000;

/// What the bus watcher does about a requested stop.
#[derive(Clone, Copy, Debug, PartialEq, Eq, Structural)]
pub enum StopStep {
    /// No stop requested.
    Idle,
    /// Send EOS now and force the shutdown at `deadline_ms`.
    SendEos { deadline_ms: u64 },
    /// EOS was sent; keep draining.
    Drain,
    /// EOS did not arrive in time: end the run as a successful stop.
    Force,
}

/// The bus watcher's step for a stop: nothing without a request; EOS with
/// a deadline `EOS_DRAIN_MS` ahead at the first pass; then draining until
/// the deadline, and forcing the shutdown from it on.
pub open spec fn stop_step_spec(stop_requested: bool, deadline_ms: Option<u64>, now_ms: u64) -> StopStep {
    if !stop_requested {
        StopStep::Idle
    } else {
        match deadline_ms {
            None => StopStep::SendEos { deadline_ms: (now_ms + EOS_DRAIN_MS) as u64 },
            Some(d) => if now_ms >= d {
                StopStep::Force
            } else {
                StopStep::Drain
            },
        }
    }
}

/// The bus watcher's step for a stop: `deadline_ms` is `Some` once EOS
/// was sent.
pub fn stop_step(stop_requested: bool, deadline_ms: Option<u64>, now_ms: u64) -> (r: StopStep)
    requires
        now_ms + EOS_DRAIN_MS <= u64::MAX,
    ensures
        r == stop_step_spec(stop_requested, deadline_ms, now_ms),
{
    if !stop_requested {
        StopStep::Idle
    } else {
        match deadline_ms {
            None => StopStep::SendEos { deadline_ms: now_ms + EOS_DRAIN_MS },
            Some(d) => if now_ms >= d {
                StopStep::Force
            } else {
                StopStep::Drain
            },
        }
    }
}

/// A message popped from the pipeline bus.
#[derive(Clone, Copy, Debug, PartialEq, Eq, Structural)]
pub enum BusMessage {
    Eos,
    Error,
    Other,
}

/// The result of a run the bus message `msg` ends (`Some(success)`), or
/// `None` when the run goes on.
pub open spec fn run_result_spec(msg: Option<BusMessage>, stop_requested: bool) -> Option<bool> {
    match msg {
        Some(BusMessage::Eos) => Some(stop_requested),
        Some(BusMessage::Error) => Some(false),
        _ => None,
    }
}

/// The result of a run the bus message `msg` ends (`Some(success)`), or
/// `None` when the run goes on: EOS is a success exactly when a stop was
/// requested; a bus error is always a failure.
pub fn run_result(msg: Option<BusMessage>, stop_requested: bool) -> (r: Option<bool>)
    ensures
        r == run_result_spec(msg, stop_requested),
{
    match msg {
        Some(BusMessage::Eos) => Some(stop_requested),
        Some(BusMessage::Error) => Some(false),
        _ => None,
    }
}

/// How one pass of the bus watcher ends the run (`Some(success)`), or
/// `None` when it goes on: the stop check comes first, and a stop forced
/// by the drain deadline ends the run as a success without reading the
/// bus; otherwise the popped message decides.
pub open spec fn exit_success_spec(
    stop_requested: bool,
    step: StopStep,
    msg: Option<BusMessage>,
) -> Option<bool> {
    if step is Force {
        Some(true)
    } else {
        run_result_spec(msg, stop_requested)
    }
}

/// The end of a bus-watcher pass: `Some(success)` when the run ends.
pub fn exit_success(stop_requested: bool, step: StopStep, msg: Option<BusMessage>) -> (r: Option<
    bool,
>)
    ensures
        r == exit_success_spec(stop_requested, step, msg),
{
    match step {
        StopStep::Force => Some(true),
        _ => run_result(msg, stop_requested),
    }
}

/// A bus-watcher pass that ends the run reports success exactly when a
/// stop was requested and the run ends by the EOS it sent or by the drain
/// deadline; a bus error before the deadline is a failure, even while
/// stopping, and an EOS nobody asked for is one too.
pub proof fn run_succeeds_only_when_stopped(
    stop_requested: bool,
    deadline_ms: Option<u64>,
    now_ms: u64,
    msg: Option<BusMessage>,
)
    ensures
        ({
            let step = stop_step_spec(stop_requested, deadline_ms, now_ms);
            &&& exit_success_spec(stop_requested, step, msg) == Some(true) <==> (stop_requested && (
            step is Force || msg == Some(BusMessage::Eos)))
            &&& step is Force ==> (stop_requested && (deadline_ms matches Some(d) && now_ms >= d))
            &&& (step !is Force && msg == Some(BusMessage::Error)) ==> exit_success_spec(
                stop_requested,
                step,
                msg,
            ) == Some(false)
            &&& (!stop_requested && msg == Some(BusMessage::Eos)) ==> exit_success_spec(
                stop_requested,
                step,
                msg,
            ) == Some(false)
        }),
{
}

/// Frames the stream should have sent but did not: `fps` per second over
/// the elapsed seconds (at least one), less the frames pushed, floored at 0.
pub fn dropped_frames(fps: u32, elapsed_secs: u64, frames: u64) -> (r: u64)
    requires
        fps as int * (if elapsed_secs < 1 { 1 } else { elapsed_secs as int }) <= u64::MAX,
    ensures
        r as int == ({
            let expected = fps as int * (if elapsed_secs < 1 { 1 } else { elapsed_secs as int });
            if expected > frames { expected - frames } else { 0 }
        }),
{
    let elapsed: u64 = if elapsed_secs < 1 { 1 } else { elapsed_secs };
    let expected: u64 = fps as u64 * elapsed;
    expected.saturating_sub(frames)
}

} // verus!
