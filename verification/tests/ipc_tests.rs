use mpvfrog::ipc::{Bridge, IpcEvent};
use mpvfrog::ipc_command::IpcCommand;
use mpvfrog::ipc_property::{PropValue, PropertyId};

#[test]
fn set_property_pause_wire_text() {
    // The pause command serializes to the exact envelope, newline-terminated.
    let b = Bridge::new();
    let cmd = b.set_property(PropertyId::Pause, PropValue::Bool(true));
    assert_eq!(cmd, "{\"command\":[\"set_property\",\"pause\",true]}\n");
}

#[test]
fn observe_property_wire_text() {
    let b = Bridge::new();
    let cmd = b.observe_property(PropertyId::Speed);
    assert_eq!(cmd, "{\"command\":[\"observe_property\",1,\"speed\"]}\n");
}

#[test]
fn connect_commands_cover_all_observed_properties() {
    let b = Bridge::new();
    let cmds = b.connect_commands();
    assert_eq!(cmds.len(), 9);
    assert_eq!(cmds[0], "{\"command\":[\"observe_property\",1,\"speed\"]}\n");
    assert_eq!(cmds[1], "{\"command\":[\"observe_property\",1,\"volume\"]}\n");
    assert_eq!(
        cmds[8],
        "{\"command\":[\"observe_property\",1,\"loop-file\"]}\n"
    );
}

#[test]
fn volume_property_change_updates_observed() {
    // An incoming volume property-change updates the observed volume; one
    // without a data key leaves it unchanged and does not stop the loop.
    let mut b = Bridge::new();
    b.handle_responses(b"{\"event\":\"property-change\",\"name\":\"volume\",\"data\":57}\n");
    assert_eq!(b.observed.volume, 57);
    b.handle_responses(
        b"{\"event\":\"property-change\",\"name\":\"volume\"}\n{\"event\":\"property-change\",\"name\":\"volume\",\"data\":31}\n",
    );
    assert_eq!(b.observed.volume, 31);
}

#[test]
fn end_file_enqueues_exactly_one_event() {
    // An end-file event is retrievable exactly once.
    let mut b = Bridge::new();
    b.handle_responses(b"{\"event\":\"end-file\"}\n");
    assert_eq!(b.event_queue.pop_front(), Some(IpcEvent::EndFile));
    assert_eq!(b.event_queue.pop_front(), None);
}

#[test]
fn malformed_line_is_discarded_and_processing_continues() {
    let mut b = Bridge::new();
    b.handle_responses(b"this is not json\n{\"event\":\"pause\"}\n");
    assert!(b.observed.paused);
}

#[test]
fn pause_and_unpause_events() {
    let mut b = Bridge::new();
    b.handle_responses(b"{\"event\":\"pause\"}\n");
    assert!(b.observed.paused);
    b.handle_responses(b"{\"event\":\"unpause\"}\n");
    assert!(!b.observed.paused);
}

#[test]
fn unknown_event_is_ignored() {
    let mut b = Bridge::new();
    b.handle_responses(b"{\"event\":\"seek\"}\n{\"event\":\"playback-restart\"}\n");
    assert!(!b.observed.paused);
    assert_eq!(b.event_queue.pop_front(), None);
}

#[test]
fn fractional_speed_change() {
    let mut b = Bridge::new();
    b.handle_responses(b"{\"event\":\"property-change\",\"name\":\"speed\",\"data\":1.5}\n");
    assert_eq!(b.observed.speed_millis, 1500);
}

#[test]
fn time_pos_and_duration_changes() {
    let mut b = Bridge::new();
    b.handle_responses(
        b"{\"event\":\"property-change\",\"name\":\"time-pos\",\"data\":24.56}\n{\"event\":\"property-change\",\"name\":\"duration\",\"data\":119.885}\n",
    );
    assert_eq!(b.observed.time_pos_millis, 24560);
    assert_eq!(b.observed.duration_millis, 119885);
}

#[test]
fn ab_loop_set_and_cleared() {
    let mut b = Bridge::new();
    b.handle_responses(b"{\"event\":\"property-change\",\"name\":\"ab-loop-a\",\"data\":2.25}\n");
    assert_eq!(b.observed.ab_loop_a, Some(2250));
    // The player reports the "no" sentinel when the bound is unset.
    b.handle_responses(b"{\"event\":\"property-change\",\"name\":\"ab-loop-a\",\"data\":\"no\"}\n");
    assert_eq!(b.observed.ab_loop_a, None);
}

#[test]
fn volume_is_truncated_and_clamped() {
    let mut b = Bridge::new();
    b.handle_responses(b"{\"event\":\"property-change\",\"name\":\"volume\",\"data\":57.4}\n");
    assert_eq!(b.observed.volume, 57);
    b.handle_responses(b"{\"event\":\"property-change\",\"name\":\"volume\",\"data\":300}\n");
    assert_eq!(b.observed.volume, 255);
    b.handle_responses(b"{\"event\":\"property-change\",\"name\":\"volume\",\"data\":-5}\n");
    assert_eq!(b.observed.volume, 0);
}

#[test]
fn non_integer_track_count_is_ignored() {
    let mut b = Bridge::new();
    b.handle_responses(
        b"{\"event\":\"property-change\",\"name\":\"track-list/count\",\"data\":2}\n{\"event\":\"property-change\",\"name\":\"track-list/count\",\"data\":2.5}\n",
    );
    assert_eq!(b.observed.track_count, 2);
}

#[test]
fn track_count_change() {
    let mut b = Bridge::new();
    b.handle_responses(
        b"{\"event\":\"property-change\",\"name\":\"track-list/count\",\"data\":3}\n",
    );
    assert_eq!(b.observed.track_count, 3);
}

#[test]
fn lavfi_complex_change() {
    let mut b = Bridge::new();
    b.handle_responses(
        b"{\"event\":\"property-change\",\"name\":\"lavfi-complex\",\"data\":\"[aid1] [aid2] amix [ao]\"}\n",
    );
    assert_eq!(b.observed.lavfi_complex, "[aid1] [aid2] amix [ao]");
}

#[test]
fn loop_file_change() {
    let mut b = Bridge::new();
    b.handle_responses(b"{\"event\":\"property-change\",\"name\":\"loop-file\",\"data\":\"inf\"}\n");
    assert!(b.observed.loop_file);
    b.handle_responses(b"{\"event\":\"property-change\",\"name\":\"loop-file\",\"data\":\"no\"}\n");
    assert!(!b.observed.loop_file);
}

#[test]
fn unknown_property_is_ignored() {
    let mut b = Bridge::new();
    b.handle_responses(b"{\"event\":\"property-change\",\"name\":\"chapters\",\"data\":4}\n");
    assert_eq!(b.observed.volume, 0);
    assert_eq!(b.observed.track_count, 0);
}

#[test]
fn toggle_pause_is_optimistic() {
    let mut b = Bridge::new();
    let cmd = b.toggle_pause();
    assert!(b.observed.paused);
    assert_eq!(cmd, "{\"command\":[\"set_property\",\"pause\",true]}\n");
    let cmd2 = b.toggle_pause();
    assert!(!b.observed.paused);
    assert_eq!(cmd2, "{\"command\":[\"set_property\",\"pause\",false]}\n");
}

#[test]
fn set_volume_wire_text() {
    let b = Bridge::new();
    assert_eq!(
        b.set_volume(57),
        "{\"command\":[\"set_property\",\"volume\",57.000]}\n"
    );
}

#[test]
fn set_speed_and_seek_wire_text() {
    let b = Bridge::new();
    assert_eq!(
        b.set_speed(1500),
        "{\"command\":[\"set_property\",\"speed\",1.500]}\n"
    );
    assert_eq!(
        b.seek(24560),
        "{\"command\":[\"set_property\",\"time-pos\",24.560]}\n"
    );
}

#[test]
fn set_ab_loop_uses_no_sentinel() {
    let b = Bridge::new();
    let (a, bb) = b.set_ab_loop(Some(1000), None);
    assert_eq!(a, "{\"command\":[\"set_property\",\"ab-loop-a\",1.000]}\n");
    assert_eq!(bb, "{\"command\":[\"set_property\",\"ab-loop-b\",\"no\"]}\n");
}

#[test]
fn set_video_wire_text() {
    let b = Bridge::new();
    assert_eq!(
        b.set_video(true),
        "{\"command\":[\"set_property\",\"vid\",\"1\"]}\n"
    );
    assert_eq!(
        b.set_video(false),
        "{\"command\":[\"set_property\",\"vid\",\"no\"]}\n"
    );
}

#[test]
fn add_audio_escapes_the_path() {
    let b = Bridge::new();
    let (add, mix) = b.add_audio("pa\"th\\x");
    assert_eq!(add, "{\"command\":[\"audio-add\",\"pa\\\"th\\\\x\"]}\n");
    assert_eq!(
        mix,
        "{\"command\":[\"set_property\",\"lavfi-complex\",\"[aid1] [aid2] amix [ao]\"]}\n"
    );
}

#[test]
fn mix_t1_with_track_wire_text() {
    let b = Bridge::new();
    assert_eq!(
        b.mix_t1_with_track(3),
        "{\"command\":[\"set_property\",\"lavfi-complex\",\"[aid1] [aid3] amix [ao]\"]}\n"
    );
}

#[test]
fn switch_and_remove_track_wire_text() {
    let b = Bridge::new();
    let (clear, select) = b.switch_to_track(2);
    assert_eq!(
        clear,
        "{\"command\":[\"set_property\",\"lavfi-complex\",\"\"]}\n"
    );
    assert_eq!(select, "{\"command\":[\"set_property\",\"aid\",2]}\n");
    assert_eq!(
        b.remove_track(2),
        "{\"command\":[\"audio-remove\",2]}\n"
    );
}

#[test]
fn set_loop_file_wire_text() {
    let b = Bridge::new();
    assert_eq!(
        b.set_loop_file(true),
        "{\"command\":[\"set_property\",\"loop-file\",\"inf\"]}\n"
    );
    assert_eq!(
        b.set_loop_file(false),
        "{\"command\":[\"set_property\",\"loop-file\",\"no\"]}\n"
    );
}

#[test]
fn write_str_appends_newline() {
    let b = Bridge::new();
    assert_eq!(b.write_str("hello"), "hello\n");
}

#[test]
fn encode_raw_command_audio_add() {
    let cmd = IpcCommand::AudioAdd(String::from("x.mp3")).encode();
    assert_eq!(cmd, "{\"command\":[\"audio-add\",\"x.mp3\"]}\n");
}

#[test]
fn commands_parse_back_as_json() {
    // Every encoded command is one JSON object with a single "command" key.
    let b = Bridge::new();
    for cmd in b.connect_commands() {
        let v: serde_json::Value = serde_json::from_str(cmd.trim_end()).unwrap();
        assert!(v.get("command").is_some());
    }
    let v: serde_json::Value =
        serde_json::from_str(b.add_audio("we\"ird\\path").0.trim_end()).unwrap();
    assert_eq!(v["command"][1], serde_json::Value::from("we\"ird\\path"));
}

#[test]
fn control_characters_escape_as_hex() {
    let b = Bridge::new();
    let (add, _) = b.add_audio("a\nb\x01c");
    assert_eq!(add, "{\"command\":[\"audio-add\",\"a\\nb\\u0001c\"]}\n");
}

#[test]
fn lines_with_carriage_returns_are_handled() {
    let mut b = Bridge::new();
    b.handle_responses(b"{\"event\":\"pause\"}\r\n");
    assert!(b.observed.paused);
}
