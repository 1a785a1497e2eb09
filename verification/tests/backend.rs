use ezstreamer_core::backend::{
    check_config, exhausted_message, exit_status, probe_encoder_infos, retry_first, retry_next,
    stream_inputs, ConfigRefusal, PollAction, RetryEvent, RetryStep, StartRefusal, Supervisor,
};
use ezstreamer_core::config::{default_profiles, Profile};
use ezstreamer_core::gst::probe::{probe_with_elements, EncoderInfo};
use ezstreamer_core::gst::build_plan;

fn failed() -> Option<ezstreamer_core::backend::ExitStatus> {
    exit_status(Some(false))
}

#[test]
fn exit_status_reports_the_run_result() {
    assert!(exit_status(None).is_none());
    assert!(exit_status(Some(true)).unwrap().success());
    assert!(!exit_status(Some(false)).unwrap().success());
}

#[test]
fn stub_build_reports_software_encoder_unusable() {
    let infos = probe_encoder_infos();
    assert_eq!(infos.len(), 1);
    assert_eq!(infos[0].name, "libx264");
    assert!(!infos[0].usable);
    assert_eq!(infos[0].reason.as_deref(), Some("this build has no media backend"));
}

#[test]
fn running_stream_is_kept() {
    let s = Supervisor::started();
    let (next, action) = s.poll(None);
    assert_eq!(action, PollAction::Keep);
    assert_eq!(next, s);
    assert_eq!(s.shown_retrying(action), None);
}

#[test]
fn requested_stop_ends_without_retry() {
    let s = Supervisor::started();
    let (next, action) = s.poll(exit_status(Some(true)));
    assert_eq!(action, PollAction::Ended);
    assert_eq!(next, s);
}

#[test]
fn abnormal_exit_starts_one_retry() {
    let s = Supervisor::started();
    let (next, action) = s.poll(failed());
    assert_eq!(action, PollAction::Retry { attempt: 1 });
    assert_eq!(next.retrying, Some(1));
    assert_eq!(s.shown_retrying(action), Some(1));
    // a second poll while the retry is pending does not start another one
    let (again, action2) = next.poll(failed());
    assert_eq!(action2, PollAction::Keep);
    assert_eq!(again, next);
    assert_eq!(next.shown_retrying(action2), Some(1));
}

#[test]
fn exhausted_budget_gives_up() {
    let s = Supervisor { retrying: None, has_session: true, stream: Some(3) };
    let (next, action) = s.poll(failed());
    assert_eq!(action, PollAction::GiveUp);
    assert_eq!(next, Supervisor::idle());
    assert_eq!(s.shown_retrying(action), None);
}

#[test]
fn no_session_means_give_up() {
    let s = Supervisor { retrying: None, has_session: false, stream: Some(0) };
    assert_eq!(s.poll(failed()).1, PollAction::GiveUp);
}

#[test]
fn no_pipeline_means_nothing_to_do() {
    let s = Supervisor::idle();
    assert_eq!(s.poll(failed()), (s, PollAction::Keep));
}

#[test]
fn all_attempts_failing_wait_1_2_4_seconds_then_exhaust() {
    let mut step = retry_first(1);
    let mut delays = Vec::new();
    let mut launches = 0;
    loop {
        match step {
            RetryStep::Wait { delay_ms, .. } => {
                delays.push(delay_ms);
                step = retry_next(step, RetryEvent::Woke { retrying: true, has_session: true });
            }
            RetryStep::Launch { .. } => {
                launches += 1;
                step = retry_next(step, RetryEvent::Launched { ok: false, retrying: true });
            }
            _ => break,
        }
    }
    assert_eq!(step, RetryStep::Exhausted);
    assert_eq!(delays, vec![1000, 2000, 4000]);
    assert_eq!(launches, 3);
    assert_eq!(exhausted_message(), "stream: reconnection failed (3 attempts)");
    let s = Supervisor { retrying: Some(3), has_session: true, stream: Some(2) };
    assert_eq!(s.after_retry(step), Supervisor::idle());
}

#[test]
fn successful_retry_installs_pipeline() {
    let step = retry_first(2);
    assert_eq!(step, RetryStep::Wait { attempt: 2, delay_ms: 2000 });
    let step = retry_next(step, RetryEvent::Woke { retrying: true, has_session: true });
    assert_eq!(step, RetryStep::Launch { attempt: 2 });
    let step = retry_next(step, RetryEvent::Launched { ok: true, retrying: true });
    assert_eq!(step, RetryStep::Install { attempt: 2 });
    let s = Supervisor { retrying: Some(2), has_session: true, stream: Some(1) };
    assert_eq!(
        s.after_retry(step),
        Supervisor { retrying: None, has_session: true, stream: Some(2) }
    );
}

#[test]
fn user_stop_wins_over_retry() {
    let stopped = Supervisor::started().stopped();
    assert_eq!(stopped, Supervisor::idle());
    let wait = retry_first(1);
    assert_eq!(
        retry_next(wait, RetryEvent::Woke { retrying: stopped.retrying.is_some(), has_session: true }),
        RetryStep::Cancelled
    );
    let launch = RetryStep::Launch { attempt: 1 };
    let next = retry_next(launch, RetryEvent::Launched { ok: true, retrying: false });
    assert_eq!(next, RetryStep::Discard);
    assert_eq!(stopped.after_retry(next), stopped);
    assert_eq!(
        retry_next(wait, RetryEvent::Woke { retrying: true, has_session: false }),
        RetryStep::Cancelled
    );
}

#[test]
fn first_retry_beyond_budget_is_exhausted() {
    assert_eq!(retry_first(4), RetryStep::Exhausted);
    assert_eq!(retry_next(RetryStep::Cancelled, RetryEvent::Launched { ok: true, retrying: true }), RetryStep::Cancelled);
}

fn profiles() -> Vec<(String, Profile)> {
    default_profiles()
}

#[test]
fn stream_start_refusals() {
    let infos = probe_with_elements(&["x264enc"]);
    match stream_inputs(true, &profiles(), "mid", "auto", &infos) {
        Err(StartRefusal::AlreadyRunning) => {}
        _ => panic!("expected AlreadyRunning"),
    }
    match stream_inputs(false, &profiles(), "nope", "auto", &infos) {
        Err(e @ StartRefusal::UnknownProfile(_)) => assert_eq!(e.message(), "unknown profile: nope"),
        _ => panic!("expected UnknownProfile"),
    }
    assert_eq!(StartRefusal::AlreadyRunning.message(), "stream already running");
}

#[test]
fn auto_start_uses_usable_encoders_only() {
    let infos = probe_with_elements(&["nvh264enc", "x264enc"]);
    let inp = stream_inputs(false, &profiles(), "mid", "  auto ", &infos).ok().unwrap();
    assert_eq!(inp.profile.name, "中画質");
    assert_eq!(inp.encoder_override, "auto");
    assert_eq!(inp.usable, vec!["h264_nvenc", "libx264"]);
    let plan = build_plan(&inp.profile, &inp.encoder_override, &inp.usable, "rtmp://topaz.chat/live", "abc123", None)
        .unwrap();
    assert_eq!(plan.encoder.id(), "h264_nvenc");
    let blank = stream_inputs(false, &profiles(), "low", "   ", &infos).ok().unwrap();
    assert_eq!(blank.encoder_override, "");
    assert_eq!(blank.usable.len(), 2);
}

#[test]
fn manual_start_passes_no_usable_list() {
    let infos: Vec<EncoderInfo> = probe_with_elements(&[]);
    let inp = stream_inputs(false, &profiles(), "high", " h264_vulkan ", &infos).ok().unwrap();
    assert_eq!(inp.encoder_override, "h264_vulkan");
    assert!(inp.usable.is_empty());
    assert_eq!(inp.profile.fps, 60);
}

#[test]
fn config_save_guards_limits_and_scheme() {
    assert!(check_config(&profiles(), "rtmp://topaz.chat/live").is_ok());
    assert!(check_config(&profiles(), "rtmps://topaz.chat/live").is_ok());
    let bad = check_config(&profiles(), "http://topaz.chat/live").unwrap_err();
    assert_eq!(bad, ConfigRefusal::IngestScheme);
    assert_eq!(bad.message(), "ingest URL must start with rtmp:// or rtmps://");

    let mut ps = profiles();
    ps[1].1.v_kbps = 2500;
    ps[2].1.a_kbps = 400;
    let err = check_config(&ps, "ftp://x").unwrap_err();
    assert_eq!(
        err,
        ConfigRefusal::BitrateOver { id: "mid".into(), v_kbps: 2500, a_kbps: 192 }
    );
    assert_eq!(err.message(), "mid: video 2500/audio 192 kbps, limits 2000/320 kbps");
}
