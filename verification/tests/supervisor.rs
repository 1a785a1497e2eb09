use ezstreamer_core::gst::{retry_backoff_ms, MAX_RETRIES};

#[test]
fn backoff_is_exponential_and_capped() {
    assert_eq!(retry_backoff_ms(0), 1000);
    assert_eq!(retry_backoff_ms(1), 2000);
    assert_eq!(retry_backoff_ms(2), 4000);
    assert_eq!(retry_backoff_ms(9), 16000);
}

#[test]
fn retry_backoff_sequence_is_documented() {
    assert_eq!(retry_backoff_ms(0), 1000);
    assert_eq!(retry_backoff_ms(1), 2000);
    assert_eq!(retry_backoff_ms(2), 4000);
    assert_eq!(MAX_RETRIES, 3);
}

#[test]
fn backoff_doubles_until_the_cap() {
    assert_eq!(retry_backoff_ms(3), 8000);
    assert_eq!(retry_backoff_ms(4), 16000);
    assert_eq!(retry_backoff_ms(u32::MAX), 16000);
}

use ezstreamer_core::gst::supervisor::{dropped_frames, run_result, stop_step, BusMessage, StopStep, EOS_DRAIN_MS};

#[test]
fn stop_sends_eos_then_forces_after_the_drain_window() {
    assert_eq!(stop_step(false, None, 100), StopStep::Idle);
    assert_eq!(stop_step(true, None, 100), StopStep::SendEos { deadline_ms: 100 + EOS_DRAIN_MS });
    assert_eq!(stop_step(true, Some(3100), 3000), StopStep::Drain);
    assert_eq!(stop_step(true, Some(3100), 3100), StopStep::Force);
    assert_eq!(EOS_DRAIN_MS, 3000);
}

#[test]
fn bus_messages_end_runs() {
    assert_eq!(run_result(Some(BusMessage::Eos), true), Some(true));
    assert_eq!(run_result(Some(BusMessage::Eos), false), Some(false));
    assert_eq!(run_result(Some(BusMessage::Error), true), Some(false));
    assert_eq!(run_result(Some(BusMessage::Other), true), None);
    assert_eq!(run_result(None, false), None);
}

#[test]
fn dropped_frames_count_missing_frames() {
    assert_eq!(dropped_frames(30, 10, 290), 10);
    assert_eq!(dropped_frames(30, 10, 400), 0);
    assert_eq!(dropped_frames(60, 0, 10), 50);
}

use ezstreamer_core::gst::supervisor::exit_success;

#[test]
fn forced_stop_ends_as_success() {
    assert_eq!(exit_success(true, StopStep::Force, None), Some(true));
    assert_eq!(exit_success(true, StopStep::Force, Some(BusMessage::Error)), Some(true));
    assert_eq!(exit_success(true, StopStep::Drain, Some(BusMessage::Eos)), Some(true));
    assert_eq!(exit_success(false, StopStep::Idle, Some(BusMessage::Eos)), Some(false));
    assert_eq!(exit_success(true, StopStep::Drain, Some(BusMessage::Error)), Some(false));
    assert_eq!(exit_success(true, StopStep::Drain, None), None);
}

#[test]
fn a_run_succeeds_only_when_it_was_stopped() {
    // stop requested, deadline passed: forced, a success whatever the bus says
    let step = stop_step(true, Some(5_000), 5_000);
    assert_eq!(exit_success(true, step, Some(BusMessage::Error)), Some(true));
    // stop requested, still draining: the sent EOS is a success, an error is not
    let step = stop_step(true, Some(5_000), 4_999);
    assert_eq!(exit_success(true, step, Some(BusMessage::Eos)), Some(true));
    assert_eq!(exit_success(true, step, Some(BusMessage::Error)), Some(false));
    // nobody asked for a stop: EOS and errors both fail the run
    let step = stop_step(false, None, 10);
    assert_eq!(exit_success(false, step, Some(BusMessage::Eos)), Some(false));
    assert_eq!(exit_success(false, step, Some(BusMessage::Error)), Some(false));
    assert_eq!(exit_success(false, step, None), None);
}
