use mpvfrog::bool_ext::BoolExt;
use mpvfrog::config::{ArgType, Command, Config, CustomPlayerEntry, Predicate, PredicateKind,
    PredicateSliceExt, default_speed, default_volume};
use mpvfrog::modal::{ModalPayloadKind, ModalPopup, ResultModalExt};
use mpvfrog::numfmt::{millis_to_string, parse_millis, u64_to_string};
use mpvfrog::playlist::{next_index, prev_index, Item, Playlist, PlaylistBehavior};
use mpvfrog::rect_math::{Rect, Vec2, rect_ensure_within};
use mpvfrog::str_ext::StrExt;
use mpvfrog::time_fmt::FfmpegTimeFmt;
use mpvfrog::tray::EventFlags;

#[test]
fn test_time_fmt() {
    assert_eq!(&FfmpegTimeFmt(0).to_string()[..], "00:00:00.000");
    assert_eq!(&FfmpegTimeFmt(24560).to_string()[..], "00:00:24.560");
    assert_eq!(&FfmpegTimeFmt(119885).to_string()[..], "00:01:59.885");
    assert_eq!(&FfmpegTimeFmt(52349345).to_string()[..], "14:32:29.345");
}

#[test]
fn decimal_rendering() {
    assert_eq!(u64_to_string(0), "0");
    assert_eq!(u64_to_string(57), "57");
    assert_eq!(u64_to_string(1200300), "1200300");
    assert_eq!(millis_to_string(0), "0.000");
    assert_eq!(millis_to_string(1500), "1.500");
    assert_eq!(millis_to_string(-500), "-0.500");
    assert_eq!(millis_to_string(57000), "57.000");
}

#[test]
fn decimal_parsing() {
    assert_eq!(parse_millis("57"), Some(57000));
    assert_eq!(parse_millis("1.5"), Some(1500));
    assert_eq!(parse_millis("-0.5"), Some(-500));
    assert_eq!(parse_millis("1.2345"), Some(1234));
    assert_eq!(parse_millis("0.05"), Some(50));
    assert_eq!(parse_millis(""), None);
    assert_eq!(parse_millis("no"), None);
    assert_eq!(parse_millis("1."), None);
    assert_eq!(parse_millis("-"), None);
    assert_eq!(parse_millis(".5"), None);
    assert_eq!(parse_millis("99999999999999999999"), Some(i64::MAX));
    assert_eq!(parse_millis("-99999999999999999999"), Some(i64::MIN));
}

#[test]
fn command_from_str_parses_tokens() {
    let cmd = Command::from_str("xmp -o {}  extra").unwrap();
    assert_eq!(cmd.name, "xmp");
    assert_eq!(cmd.args.len(), 3);
    assert!(matches!(&cmd.args[0], ArgType::Custom(s) if s == "-o"));
    assert!(matches!(&cmd.args[1], ArgType::SongPath));
    assert!(matches!(&cmd.args[2], ArgType::Custom(s) if s == "extra"));
}

#[test]
fn command_from_str_empty_is_an_error() {
    let err = Command::from_str("   ").unwrap_err();
    assert_eq!(err.message(), "parse error: Expected command, but reached end.");
}

#[test]
fn command_to_string_round() {
    let cmd = Command::from_str("xmp -o {}").unwrap();
    assert_eq!(cmd.to_string(), "xmp -o {} ");
}

#[test]
fn predicate_begins_with() {
    let p = Predicate::BeginsWith(String::from("ab"));
    assert!(p.matches("dir/abc.mp3"));
    assert!(!p.matches("dir/xabc.mp3"));
    assert!(!p.matches("ab/c.mp3"));
    assert_eq!(p.kind(), PredicateKind::BeginsWith);
}

#[test]
fn predicate_has_ext() {
    let p = Predicate::HasExt(String::from("mp3"));
    assert!(p.matches("dir/song.mp3"));
    assert!(!p.matches("dir/song.ogg"));
    assert!(!p.matches("dir/songmp3"));
    // A hidden file's leading dot is no extension marker.
    assert!(!p.matches("dir/.mp3"));
    assert_eq!(p.kind(), PredicateKind::HasExt);
}

#[test]
fn predicate_slice_any_match() {
    let preds = vec![
        Predicate::HasExt(String::from("xm")),
        Predicate::BeginsWith(String::from("mod.")),
    ];
    assert!(preds.as_slice().find_predicate_match("music/mod.house"));
    assert!(preds.as_slice().find_predicate_match("music/tune.xm"));
    assert!(!preds.as_slice().find_predicate_match("music/tune.mp3"));
    let empty: Vec<Predicate> = Vec::new();
    assert!(!empty.as_slice().find_predicate_match("music/tune.xm"));
}

#[test]
fn find_custom_player_picks_the_first_match() {
    let mut cfg = Config::default();
    cfg.custom_players.push(CustomPlayerEntry {
        predicates: vec![Predicate::HasExt(String::from("xm"))],
        reader_cmd: Command::default(),
        extra_mpv_args: Vec::new(),
        name: String::from("xm player"),
    });
    cfg.custom_players.push(CustomPlayerEntry {
        predicates: vec![Predicate::BeginsWith(String::from("tune"))],
        reader_cmd: Command::default(),
        extra_mpv_args: Vec::new(),
        name: String::from("tune player"),
    });
    assert_eq!(cfg.find_custom_player("music/tune.xm"), Some(0));
    assert_eq!(cfg.find_custom_player("music/tune.mp3"), Some(1));
    assert_eq!(cfg.find_custom_player("music/other.mp3"), None);
}

#[test]
fn config_defaults() {
    let cfg = Config::default();
    assert_eq!(cfg.volume, default_volume());
    assert_eq!(cfg.speed_millis, default_speed());
    assert!(!cfg.video);
    assert!(cfg.music_folder.is_none());
}

#[test]
fn playlist_read_songs_filters_and_sorts() {
    let mut pl = Playlist::default();
    pl.read_songs(vec![
        String::from("b.mp3"),
        String::from("a.mp3"),
        String::from("notes.txt"),
        String::from("cover.jpg"),
        String::from("art.png"),
        String::from("c.ogg"),
    ]);
    assert_eq!(pl.len(), 3);
    assert_eq!(pl.get(0).unwrap().path, "a.mp3");
    assert_eq!(pl.get(1).unwrap().path, "b.mp3");
    assert_eq!(pl.get(2).unwrap().path, "c.ogg");
    assert!(pl.get(3).is_none());
}

#[test]
fn playlist_sort_orders_duplicates_and_prefixes() {
    let mut pl = Playlist::default();
    pl.items.push(Item::new(String::from("b/track")));
    pl.items.push(Item::new(String::from("a/track")));
    pl.items.push(Item::new(String::from("a/tr")));
    pl.items.push(Item::new(String::from("a/track")));
    pl.sort();
    let paths: Vec<&str> = pl.iter().iter().map(|it| it.path.as_str()).collect();
    assert_eq!(paths, vec!["a/tr", "a/track", "a/track", "b/track"]);
}

#[test]
fn predicate_kind_labels() {
    assert_eq!(PredicateKind::BeginsWith.label(), "Begins with...");
    assert_eq!(PredicateKind::HasExt.label(), "Has extension...");
}

#[test]
fn playlist_behavior_labels() {
    assert_eq!(PlaylistBehavior::Stop.label(), "Stop");
    assert_eq!(PlaylistBehavior::Continue.label(), "Continue");
    assert_eq!(PlaylistBehavior::RepeatOne.label(), "Repeat one");
    assert_eq!(PlaylistBehavior::RepeatPlaylist.label(), "Repeat playlist");
}

#[test]
fn playlist_behavior_next_song() {
    assert_eq!(PlaylistBehavior::Stop.next_song_index(0, 3), None);
    assert_eq!(PlaylistBehavior::Continue.next_song_index(0, 3), Some(1));
    assert_eq!(PlaylistBehavior::Continue.next_song_index(2, 3), None);
    assert_eq!(PlaylistBehavior::RepeatOne.next_song_index(2, 3), Some(2));
    assert_eq!(PlaylistBehavior::RepeatPlaylist.next_song_index(2, 3), Some(0));
    assert_eq!(PlaylistBehavior::RepeatPlaylist.next_song_index(0, 3), Some(1));
}

#[test]
fn selection_stepping_wraps() {
    assert_eq!(next_index(0, 3), 1);
    assert_eq!(next_index(2, 3), 0);
    assert_eq!(prev_index(0, 3), 2);
    assert_eq!(prev_index(2, 3), 1);
}

#[test]
fn rect_moved_inside() {
    let a = Rect { pos: Vec2 { x: -5, y: 3 }, size: Vec2 { x: 10, y: 10 } };
    let b = Rect { pos: Vec2 { x: 0, y: 0 }, size: Vec2 { x: 100, y: 100 } };
    let pad = Vec2 { x: 2, y: 2 };
    let r = rect_ensure_within(a, b, pad);
    assert_eq!(r.pos.x, 2);
    assert_eq!(r.pos.y, 3);
    assert_eq!(r.size.x, 10);
}

#[test]
fn rect_already_inside_is_unchanged() {
    let a = Rect { pos: Vec2 { x: 10, y: 10 }, size: Vec2 { x: 5, y: 5 } };
    let b = Rect { pos: Vec2 { x: 0, y: 0 }, size: Vec2 { x: 100, y: 100 } };
    let pad = Vec2 { x: 2, y: 2 };
    let r = rect_ensure_within(a, b, pad);
    assert_eq!(r.pos.x, 10);
    assert_eq!(r.pos.y, 10);
}

#[test]
fn rect_pushed_back_from_the_far_edge() {
    let a = Rect { pos: Vec2 { x: 95, y: 0 }, size: Vec2 { x: 10, y: 10 } };
    let b = Rect { pos: Vec2 { x: 0, y: 0 }, size: Vec2 { x: 100, y: 100 } };
    let pad = Vec2 { x: 0, y: 0 };
    let r = rect_ensure_within(a, b, pad);
    assert_eq!(r.pos.x, 90);
}

#[test]
fn event_flags_take_clears() {
    let mut flags = EventFlags::default();
    flags.activated = true;
    flags.ctx_menu = Some((3, 4));
    let taken = flags.take();
    assert!(taken.activated);
    assert_eq!(taken.ctx_menu, Some((3, 4)));
    assert!(!flags.activated);
    assert!(flags.ctx_menu.is_none());
}

#[test]
fn bool_take_resets() {
    let mut flag = true;
    assert!(flag.take());
    assert!(!flag.take());
}

#[test]
fn str_find_after_and_token() {
    assert_eq!("A: 12 B".find_after("A: "), Some(3));
    assert_eq!("A: 12 B".find_after("C"), None);
    let rg = "A: 12 B".find_token_after("A: ").unwrap();
    assert_eq!(rg, 3..5);
    assert_eq!(&"A: 12 B"[rg], "12");
    assert_eq!("A: 12".find_token_after("A: "), None);
}

#[test]
fn modal_warn_and_error() {
    let mut modal = ModalPopup::default();
    modal.warn("title", "message");
    let p = modal.payload.as_ref().unwrap();
    assert_eq!(p.kind, ModalPayloadKind::Warning);
    modal.error("worse", "boom");
    let p = modal.payload.as_ref().unwrap();
    assert_eq!(p.kind, ModalPayloadKind::Error);
    assert_eq!(p.title, "worse");
}

#[test]
fn err_popup_reports_only_errors() {
    let mut modal = ModalPopup::default();
    let ok: Result<u8, String> = Ok(1);
    ok.err_popup("nope", &mut modal);
    assert!(modal.payload.is_none());
    let bad: Result<u8, String> = Err(String::from("x failed"));
    bad.err_popup("bad", &mut modal);
    let p = modal.payload.unwrap();
    assert_eq!(p.kind, ModalPayloadKind::Error);
    assert_eq!(p.msg, "x failed");
}

#[test]
fn arg_type_display_text() {
    assert_eq!(ArgType::SongPath.to_string(), "{}");
    assert_eq!(ArgType::Custom(String::from("-x")).to_string(), "-x");
}
