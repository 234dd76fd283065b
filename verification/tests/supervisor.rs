use mpvfrog::config::{ArgType, Command};
use mpvfrog::ipc::{Bridge, IpcEvent};
use mpvfrog::modal::{ModalPayloadKind, ModalPopup};
use mpvfrog::mpv_handler::{
    ActivePtyInput, ChildStatus, ConnectOutcome, CustomDemuxer, MpvHandler, ReadOutcome,
    RetryDecision, UpdateInput, build_mpv_args, run_retry, CONNECT_ATTEMPTS,
};

fn quiet_input() -> UpdateInput {
    UpdateInput {
        ipc_data: Vec::new(),
        ipc_error: None,
        child: ChildStatus::Running,
        mpv_read: ReadOutcome::Data(Vec::new()),
        demux_read: ReadOutcome::Data(Vec::new()),
    }
}

fn live_handler() -> MpvHandler {
    let mut h = MpvHandler::default();
    h.begin_play();
    h.attach_session(Bridge::new());
    h
}

#[test]
fn retry_aborts_early_when_process_exits() {
    // A simulated player that exits at once makes the connection loop report
    // failure without exhausting the retry budget.
    let r = run_retry(&vec![ConnectOutcome::FailedProcessExited]);
    assert_eq!(r.decision, RetryDecision::AbortProcessExited);
    assert_eq!(r.attempts_used, 1);
    assert!(r.attempts_used < CONNECT_ATTEMPTS);
}

#[test]
fn retry_exhausts_budget_when_socket_never_appears() {
    let r = run_retry(&vec![]);
    assert_eq!(r.decision, RetryDecision::AbortRetriesExhausted);
    assert_eq!(r.attempts_used, CONNECT_ATTEMPTS);
}

#[test]
fn retry_proceeds_on_late_connection() {
    let r = run_retry(&vec![
        ConnectOutcome::FailedProcessRunning,
        ConnectOutcome::FailedProcessRunning,
        ConnectOutcome::Connected,
    ]);
    assert_eq!(r.decision, RetryDecision::Proceed);
    assert_eq!(r.attempts_used, 3);
}

#[test]
fn update_feeds_player_output_into_the_terminal() {
    let mut h = live_handler();
    let mut modal = ModalPopup::default();
    let mut input = quiet_input();
    input.mpv_read = ReadOutcome::Data(b"hello".to_vec());
    let actions = h.update(input, &mut modal);
    assert!(!actions.stop);
    assert_eq!(h.mpv_output(), "hello\n");
}

#[test]
fn update_dispatches_control_channel_bytes() {
    let mut h = live_handler();
    let mut modal = ModalPopup::default();
    let mut input = quiet_input();
    input.ipc_data = b"{\"event\":\"property-change\",\"name\":\"volume\",\"data\":42}\n".to_vec();
    h.update(input, &mut modal);
    assert_eq!(h.inner.as_ref().unwrap().observed.volume, 42);
}

#[test]
fn player_read_error_is_session_fatal() {
    let mut h = live_handler();
    let mut modal = ModalPopup::default();
    let mut input = quiet_input();
    input.mpv_read = ReadOutcome::Failed(String::from("gone"));
    let actions = h.update(input, &mut modal);
    assert!(actions.stop);
    assert!(!h.active());
}

#[test]
fn demuxer_read_error_only_disables_demuxer_reads() {
    let mut h = live_handler();
    let mut modal = ModalPopup::default();
    assert!(h.demuxer_active());
    let mut input = quiet_input();
    input.demux_read = ReadOutcome::Failed(String::from("gone"));
    let actions = h.update(input, &mut modal);
    assert!(!actions.stop);
    assert!(h.active());
    assert!(!h.demuxer_active());
}

#[test]
fn abnormal_exit_raises_an_error() {
    let mut h = live_handler();
    let mut modal = ModalPopup::default();
    let mut input = quiet_input();
    input.child = ChildStatus::Exited(false, String::from("signal: 9"));
    h.update(input, &mut modal);
    let payload = modal.payload.expect("an error should be reported");
    assert_eq!(payload.kind, ModalPayloadKind::Error);
    assert_eq!(payload.title, "Abnormal mpv termination");
    assert_eq!(payload.msg, "Mpv exited with status signal: 9");
}

#[test]
fn clean_exit_raises_nothing() {
    let mut h = live_handler();
    let mut modal = ModalPopup::default();
    let mut input = quiet_input();
    input.child = ChildStatus::Exited(true, String::from("exit status: 0"));
    h.update(input, &mut modal);
    assert!(modal.payload.is_none());
}

#[test]
fn ipc_error_warns_but_continues() {
    let mut h = live_handler();
    let mut modal = ModalPopup::default();
    let mut input = quiet_input();
    input.ipc_error = Some(String::from("broken pipe"));
    let actions = h.update(input, &mut modal);
    assert!(!actions.stop);
    assert!(h.active());
    let payload = modal.payload.expect("a warning should be reported");
    assert_eq!(payload.kind, ModalPayloadKind::Warning);
    assert_eq!(payload.title, "Mpv IPC error");
}

#[test]
fn poll_event_delivers_each_event_once() {
    let mut h = live_handler();
    let mut modal = ModalPopup::default();
    let mut input = quiet_input();
    input.ipc_data = b"{\"event\":\"end-file\"}\n".to_vec();
    h.update(input, &mut modal);
    assert_eq!(h.poll_event(), Some(IpcEvent::EndFile));
    assert_eq!(h.poll_event(), None);
}

#[test]
fn send_input_routes_to_the_selected_pty() {
    let mut h = live_handler();
    let (target, bytes) = h.send_input("q").expect("session is live");
    assert_eq!(target, ActivePtyInput::Mpv);
    assert_eq!(bytes, b"q".to_vec());
    h.active_pty_input = ActivePtyInput::Demuxer;
    let (target2, _) = h.send_input("x").expect("session is live");
    assert_eq!(target2, ActivePtyInput::Demuxer);
}

#[test]
fn send_input_without_session_goes_nowhere() {
    let h = MpvHandler::default();
    assert!(h.send_input("q").is_none());
}

#[test]
fn paused_without_session() {
    let h = MpvHandler::default();
    assert!(h.paused());
    assert!(!h.active());
}

#[test]
fn begin_play_resets_terminals_and_session() {
    let mut h = live_handler();
    let mut modal = ModalPopup::default();
    let mut input = quiet_input();
    input.mpv_read = ReadOutcome::Data(b"old output".to_vec());
    h.update(input, &mut modal);
    let stop_needed = h.begin_play();
    assert!(stop_needed);
    assert!(!h.active());
    assert!(h.demuxer_active());
    assert_eq!(h.mpv_output(), "");
}

#[test]
fn stop_music_reports_whether_a_session_was_live() {
    let mut h = live_handler();
    assert!(h.stop_music());
    assert!(!h.stop_music());
}

#[test]
fn time_info_and_ab_loop_snapshot() {
    let mut h = live_handler();
    let mut modal = ModalPopup::default();
    let mut input = quiet_input();
    input.ipc_data = b"{\"event\":\"property-change\",\"name\":\"time-pos\",\"data\":1.5}\n{\"event\":\"property-change\",\"name\":\"duration\",\"data\":10}\n{\"event\":\"property-change\",\"name\":\"ab-loop-a\",\"data\":2}\n".to_vec();
    h.update(input, &mut modal);
    let ti = h.time_info().unwrap();
    assert_eq!(ti.pos_millis, 1500);
    assert_eq!(ti.duration_millis, 10000);
    assert_eq!(h.ab_loop(), Some((Some(2000), None)));
}

#[test]
fn mpv_output_trims_trailing_padding() {
    let mut h = live_handler();
    let mut modal = ModalPopup::default();
    let mut input = quiet_input();
    input.mpv_read = ReadOutcome::Data(b"hi\nthere".to_vec());
    h.update(input, &mut modal);
    assert_eq!(h.mpv_output(), "hi\nthere\n");
}

#[test]
fn toggle_pause_through_the_handler() {
    let mut h = live_handler();
    let cmd = h.toggle_pause().expect("session is live");
    assert_eq!(cmd, "{\"command\":[\"set_property\",\"pause\",true]}\n");
    assert!(h.paused());
    let mut idle = MpvHandler::default();
    assert!(idle.toggle_pause().is_none());
}

#[test]
fn mpv_args_plain_file() {
    let args = build_mpv_args("song.mp3", 57, 1500, false, &Vec::new(), false);
    assert_eq!(
        args,
        vec![
            String::from("song.mp3"),
            String::from("--input-ipc-server=/tmp/mpvfrog.sock"),
            String::from("--volume=57"),
            String::from("--speed=1.500"),
            String::from("--no-video"),
        ]
    );
}

#[test]
fn mpv_args_with_demuxer_omit_the_path() {
    let extra = vec![String::from("--demuxer=rawaudio")];
    let args = build_mpv_args("song.xm", 100, 1000, true, &extra, true);
    assert_eq!(
        args,
        vec![
            String::from("--input-ipc-server=/tmp/mpvfrog.sock"),
            String::from("--volume=100"),
            String::from("--speed=1.000"),
            String::from("--demuxer=rawaudio"),
        ]
    );
}

#[test]
fn demuxer_from_config_cmd_substitutes_the_path() {
    let cmd = Command {
        name: String::from("xmp"),
        args: vec![
            ArgType::Custom(String::from("-o")),
            ArgType::SongPath,
        ],
    };
    let demux: CustomDemuxer = CustomDemuxer::from_config_cmd(&cmd, "dir/song.xm");
    assert_eq!(demux.cmd, "xmp");
    assert_eq!(
        demux.args,
        vec![String::from("-o"), String::from("dir/song.xm")]
    );
}
