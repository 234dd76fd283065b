//! The control-channel bridge: it tracks the last-known player state, encodes
//! outgoing commands, decodes incoming line-delimited JSON events and
//! property changes, and queues discrete lifecycle events for the caller.
//!
//! The bridge itself performs no I/O. The embedding application owns the
//! control socket: it writes the strings the encoding methods here return,
//! and hands whatever bytes it drained from the socket to
//! [`Bridge::handle_responses`].

use crate::ipc_command::{IpcCommand, command_text};
use crate::ipc_property::{PropValue, PropertyId, json_string_text, spec_wire_name};
use crate::numfmt::{clamp_i64, dec_digits, is_num_text, num_millis, parse_millis};
use crate::strutil::{push_char, str_eq};
use std::collections::VecDeque;
use vstd::prelude::*;
use vstd::string::StrSliceExecFns;
use vstd::string::StringExecFns;

verus! {

/// A discrete lifecycle notification queued for the caller; delivered once.
#[derive(Clone, Copy, PartialEq, Eq, Debug, Structural)]
pub enum IpcEvent {
    EndFile,
}

/// Last-known player state, updated from incoming property-change events (and
/// optimistically by [`Bridge::toggle_pause`]). Times and rates are integer
/// millisecond counts.
pub struct Properties {
    pub paused: bool,
    pub volume: u8,
    pub speed_millis: i64,
    pub duration_millis: i64,
    pub time_pos_millis: i64,
    pub ab_loop_a: Option<i64>,
    pub ab_loop_b: Option<i64>,
    pub track_count: u8,
    pub lavfi_complex: String,
    pub loop_file: bool,
}

/// The mathematical state of [`Properties`].
#[verifier::ext_equal]
pub struct PropsView {
    pub paused: bool,
    pub volume: u8,
    pub speed_millis: i64,
    pub duration_millis: i64,
    pub time_pos_millis: i64,
    pub ab_loop_a: Option<i64>,
    pub ab_loop_b: Option<i64>,
    pub track_count: u8,
    pub lavfi_complex: Seq<char>,
    pub loop_file: bool,
}

impl View for Properties {
    type V = PropsView;

    open spec fn view(&self) -> PropsView {
        PropsView {
            paused: self.paused,
            volume: self.volume,
            speed_millis: self.speed_millis,
            duration_millis: self.duration_millis,
            time_pos_millis: self.time_pos_millis,
            ab_loop_a: self.ab_loop_a,
            ab_loop_b: self.ab_loop_b,
            track_count: self.track_count,
            lavfi_complex: self.lavfi_complex@,
            loop_file: self.loop_file,
        }
    }
}

/// The state before any property change has been observed.
pub open spec fn fresh_props() -> PropsView {
    PropsView {
        paused: false,
        volume: 0,
        speed_millis: 0,
        duration_millis: 0,
        time_pos_millis: 0,
        ab_loop_a: None,
        ab_loop_b: None,
        track_count: 0,
        lavfi_complex: Seq::<char>::empty(),
        loop_file: false,
    }
}

impl Default for Properties {
    fn default() -> (r: Self)
        ensures
            r@ == fresh_props(),
    {
        let r = Properties {
            paused: false,
            volume: 0,
            speed_millis: 0,
            duration_millis: 0,
            time_pos_millis: 0,
            ab_loop_a: None,
            ab_loop_b: None,
            track_count: 0,
            lavfi_complex: String::new(),
            loop_file: false,
        };
        proof {
            assert(r@ =~= fresh_props());
        }
        r
    }
}

/// The `data` field of a decoded response line, reduced to plain values: a
/// boolean, a number (as its decimal text), a string, or anything else.
pub enum RawData {
    Bool(bool),
    Num(String),
    Str(String),
    Other,
}

#[verifier::ext_equal]
pub enum DataView {
    Bool(bool),
    Num(Seq<char>),
    Str(Seq<char>),
    Other,
}

impl View for RawData {
    type V = DataView;

    open spec fn view(&self) -> DataView {
        match self {
            RawData::Bool(b) => DataView::Bool(*b),
            RawData::Num(s) => DataView::Num(s@),
            RawData::Str(s) => DataView::Str(s@),
            RawData::Other => DataView::Other,
        }
    }
}

/// The fields of one decoded response line that the bridge dispatches on.
pub struct RawMsg {
    pub event: Option<String>,
    pub name: Option<String>,
    pub data: Option<RawData>,
}

#[verifier::ext_equal]
pub struct MsgView {
    pub event: Option<Seq<char>>,
    pub name: Option<Seq<char>>,
    pub data: Option<DataView>,
}

impl View for RawMsg {
    type V = MsgView;

    open spec fn view(&self) -> MsgView {
        MsgView {
            event: match &self.event {
                Some(s) => Some(s@),
                None => None,
            },
            name: match &self.name {
                Some(s) => Some(s@),
                None => None,
            },
            data: match &self.data {
                Some(d) => Some(d@),
                None => None,
            },
        }
    }
}

/// What one response line decodes to: `None` for a line that is not a JSON
/// object, otherwise its `event`, `name` and `data` fields.
pub uninterp spec fn msg_fields_of(line: Seq<u8>) -> Option<MsgView>;

/// Relies on `serde_json::from_slice`: decodes one line as a JSON object and
/// projects out its `"event"`, `"name"` and `"data"` fields as plain values;
/// a line that does not parse as an object gives `None`. The result depends
/// on the line's bytes alone.
#[verifier::external_body]
fn parse_response_line(line: &[u8]) -> (r: Option<RawMsg>)
    ensures
        match r {
            Some(m) => msg_fields_of(line@) == Some(m@),
            None => msg_fields_of(line@) is None,
        },
{
    let map: std::collections::HashMap<String, serde_json::Value> =
        serde_json::from_slice(line).ok()?;
    let data = map.get("data").map(|v| match v {
        serde_json::Value::Bool(b) => RawData::Bool(*b),
        serde_json::Value::Number(n) => RawData::Num(n.to_string()),
        serde_json::Value::String(s) => RawData::Str(s.clone()),
        _ => RawData::Other,
    });
    Some(RawMsg {
        event: map.get("event").and_then(|v| v.as_str()).map(|s| s.to_owned()),
        name: map.get("name").and_then(|v| v.as_str()).map(|s| s.to_owned()),
        data,
    })
}

/// The observed volume a numeric property value maps to: whole units,
/// truncated toward zero and clamped to the `u8` range.
pub open spec fn volume_of(v: i64) -> u8 {
    if v < 0 {
        0
    } else if v / 1000 > 255 {
        255
    } else {
        (v / 1000) as u8
    }
}

/// One property-change applied to the observed state. A `data` value of the
/// wrong shape for its property leaves the state unchanged, except for the
/// loop bounds, where any non-numeric value (the player reports the `"no"`
/// sentinel when a bound is unset) clears the bound, and the loop-file flag,
/// which is set exactly by the string `"inf"`.
pub open spec fn apply_prop_change(p: PropsView, name: Seq<char>, data: DataView) -> PropsView {
    if name == spec_wire_name(PropertyId::Speed) {
        match data {
            DataView::Num(t) => if is_num_text(t) {
                PropsView { speed_millis: clamp_i64(num_millis(t)), ..p }
            } else {
                p
            },
            _ => p,
        }
    } else if name == spec_wire_name(PropertyId::Volume) {
        match data {
            DataView::Num(t) => if is_num_text(t) {
                PropsView { volume: volume_of(clamp_i64(num_millis(t))), ..p }
            } else {
                p
            },
            _ => p,
        }
    } else if name == spec_wire_name(PropertyId::Duration) {
        match data {
            DataView::Num(t) => if is_num_text(t) {
                PropsView { duration_millis: clamp_i64(num_millis(t)), ..p }
            } else {
                p
            },
            _ => p,
        }
    } else if name == spec_wire_name(PropertyId::TimePos) {
        match data {
            DataView::Num(t) => if is_num_text(t) {
                PropsView { time_pos_millis: clamp_i64(num_millis(t)), ..p }
            } else {
                p
            },
            _ => p,
        }
    } else if name == spec_wire_name(PropertyId::AbLoopA) {
        match data {
            DataView::Num(t) => if is_num_text(t) {
                PropsView { ab_loop_a: Some(clamp_i64(num_millis(t))), ..p }
            } else {
                p
            },
            _ => PropsView { ab_loop_a: None, ..p },
        }
    } else if name == spec_wire_name(PropertyId::AbLoopB) {
        match data {
            DataView::Num(t) => if is_num_text(t) {
                PropsView { ab_loop_b: Some(clamp_i64(num_millis(t))), ..p }
            } else {
                p
            },
            _ => PropsView { ab_loop_b: None, ..p },
        }
    } else if name == spec_wire_name(PropertyId::TrackListCount) {
        match data {
            DataView::Num(t) => if is_num_text(t) && clamp_i64(num_millis(t)) >= 0 && clamp_i64(
                num_millis(t),
            ) % 1000 == 0 {
                PropsView { track_count: ((clamp_i64(num_millis(t)) / 1000) % 256) as u8, ..p }
            } else {
                p
            },
            _ => p,
        }
    } else if name == spec_wire_name(PropertyId::LavfiComplex) {
        match data {
            DataView::Str(s) => PropsView { lavfi_complex: s, ..p },
            _ => p,
        }
    } else if name == spec_wire_name(PropertyId::LoopFile) {
        PropsView { loop_file: data == DataView::Str("inf"@), ..p }
    } else {
        p
    }
}

/// One decoded message dispatched against the observed state and the event
/// queue. Unrecognized events, a property-change without a name, and a
/// property-change without data all leave the state unchanged.
pub open spec fn apply_msg_spec(p: PropsView, q: Seq<IpcEvent>, m: MsgView) -> (
    PropsView,
    Seq<IpcEvent>,
) {
    match m.event {
        None => (p, q),
        Some(ev) => if ev == "pause"@ {
            (PropsView { paused: true, ..p }, q)
        } else if ev == "unpause"@ {
            (PropsView { paused: false, ..p }, q)
        } else if ev == "property-change"@ {
            match (m.name, m.data) {
                (Some(name), Some(d)) => (apply_prop_change(p, name, d), q),
                _ => (p, q),
            }
        } else if ev == "end-file"@ {
            (p, q.push(IpcEvent::EndFile))
        } else {
            (p, q)
        },
    }
}

/// A line with one trailing carriage return removed.
pub open spec fn strip_cr(line: Seq<u8>) -> Seq<u8> {
    if line.len() > 0 && line.last() == 0x0d {
        line.drop_last()
    } else {
        line
    }
}

/// One raw line handled: decoded and dispatched, or discarded when it does
/// not decode.
pub open spec fn apply_line(p: PropsView, q: Seq<IpcEvent>, line: Seq<u8>) -> (
    PropsView,
    Seq<IpcEvent>,
) {
    match msg_fields_of(strip_cr(line)) {
        None => (p, q),
        Some(m) => apply_msg_spec(p, q, m),
    }
}

pub open spec fn apply_lines(p: PropsView, q: Seq<IpcEvent>, lines: Seq<Seq<u8>>) -> (
    PropsView,
    Seq<IpcEvent>,
)
    decreases lines.len(),
{
    if lines.len() == 0 {
        (p, q)
    } else {
        let r = apply_line(p, q, lines[0]);
        apply_lines(r.0, r.1, lines.drop_first())
    }
}

/// The length of the first line of `data`: the index of its first newline
/// byte, or its whole length.
pub open spec fn line_len(data: Seq<u8>) -> nat
    decreases data.len(),
{
    if data.len() > 0 && data[0] != 0x0a {
        (1 + line_len(data.drop_first())) as nat
    } else {
        0
    }
}

/// `data` split at newline bytes; a trailing newline produces no empty line.
pub open spec fn split_lines(data: Seq<u8>) -> Seq<Seq<u8>>
    decreases data.len(),
{
    if data.len() == 0 {
        seq![]
    } else {
        let k = line_len(data) as int;
        if k >= data.len() {
            seq![data]
        } else {
            seq![data.take(k)] + split_lines(data.skip(k + 1))
        }
    }
}

/// A scan that saw no newline before `k` and one (or the end) at `k` pins
/// down `line_len`.
proof fn lemma_line_len_is(data: Seq<u8>, k: int)
    requires
        0 <= k <= data.len(),
        forall|j: int| 0 <= j < k ==> data[j] != 0x0a,
        k < data.len() ==> data[k] == 0x0a,
    ensures
        line_len(data) == k,
    decreases data.len(),
{
    if k == 0 {
    } else {
        assert(forall|j: int| 0 <= j < k - 1 ==> data.drop_first()[j] == data[j + 1] && data[j + 1]
            != 0x0a);
        lemma_line_len_is(data.drop_first(), k - 1);
    }
}

/// The control-channel bridge: observed player state plus the FIFO queue of
/// pending lifecycle events.
pub struct Bridge {
    pub observed: Properties,
    pub event_queue: VecDeque<IpcEvent>,
}

impl Bridge {
    /// A bridge for a fresh connection: nothing observed, nothing pending.
    pub fn new() -> (r: Self)
        ensures
            r.observed@ == fresh_props(),
            r.event_queue@ == Seq::<IpcEvent>::empty(),
    {
        Bridge { observed: Properties::default(), event_queue: VecDeque::new() }
    }

    /// The properties observed on connect, in the order the observe commands
    /// are issued.
    pub open spec fn observed_properties() -> Seq<PropertyId> {
        seq![
            PropertyId::Speed,
            PropertyId::Volume,
            PropertyId::TimePos,
            PropertyId::Duration,
            PropertyId::AbLoopA,
            PropertyId::AbLoopB,
            PropertyId::TrackListCount,
            PropertyId::LavfiComplex,
            PropertyId::LoopFile,
        ]
    }

    /// The observe command for one property.
    pub fn observe_property(&self, p: PropertyId) -> (cmd: String)
        ensures
            cmd@ == command_text(IpcCommand::ObserveProperty(p)),
    {
        IpcCommand::ObserveProperty(p).encode()
    }

    /// The batch of observe commands a fresh connection must send, one per
    /// tracked property, in order.
    pub fn connect_commands(&self) -> (cmds: Vec<String>)
        ensures
            cmds@.len() == Self::observed_properties().len(),
            forall|i: int|
                0 <= i < cmds@.len() ==> (#[trigger] cmds@[i])@ == command_text(
                    IpcCommand::ObserveProperty(Self::observed_properties()[i]),
                ),
    {
        let mut cmds: Vec<String> = Vec::new();
        cmds.push(self.observe_property(PropertyId::Speed));
        cmds.push(self.observe_property(PropertyId::Volume));
        cmds.push(self.observe_property(PropertyId::TimePos));
        cmds.push(self.observe_property(PropertyId::Duration));
        cmds.push(self.observe_property(PropertyId::AbLoopA));
        cmds.push(self.observe_property(PropertyId::AbLoopB));
        cmds.push(self.observe_property(PropertyId::TrackListCount));
        cmds.push(self.observe_property(PropertyId::LavfiComplex));
        cmds.push(self.observe_property(PropertyId::LoopFile));
        cmds
    }

    /// The set-property command for one property and value.
    pub fn set_property(&self, p: PropertyId, v: PropValue) -> (cmd: String)
        requires
            v.valid(),
        ensures
            cmd@ == command_text(IpcCommand::SetProperty(p, v)),
    {
        IpcCommand::SetProperty(p, v).encode()
    }

    /// Flip the locally cached paused flag and return the command that asks
    /// the player to match it. The flip is optimistic: the player does not
    /// reliably confirm pause commands it was itself asked to perform, so the
    /// cached flag must not wait for confirmation.
    pub fn toggle_pause(&mut self) -> (cmd: String)
        ensures
            final(self).observed@ == (PropsView { paused: !old(self).observed@.paused, ..old(
                self,
            ).observed@ }),
            final(self).event_queue@ == old(self).event_queue@,
            cmd@ == command_text(
                IpcCommand::SetProperty(
                    PropertyId::Pause,
                    PropValue::Bool(!old(self).observed@.paused),
                ),
            ),
    {
        self.observed.paused = !self.observed.paused;
        proof {
            assert(self.observed@ =~= (PropsView {
                paused: !old(self).observed@.paused,
                ..old(self).observed@
            }));
        }
        self.set_property(PropertyId::Pause, PropValue::Bool(self.observed.paused))
    }

    /// Raw text routed to the control channel, newline-terminated.
    pub fn write_str(&self, text: &str) -> (r: String)
        ensures
            r@ == text@.push('\n'),
    {
        let mut r = text.to_owned();
        push_char(&mut r, '\n');
        r
    }

    /// The command that sets the player volume (in whole units).
    pub fn set_volume(&self, vol: u8) -> (cmd: String)
        ensures
            cmd@ == command_text(
                IpcCommand::SetProperty(
                    PropertyId::Volume,
                    PropValue::Num(((vol as int) * 1000) as i64),
                ),
            ),
    {
        self.set_property(PropertyId::Volume, PropValue::Num(vol as i64 * 1000))
    }

    /// The command that sets the playback speed (milliunits).
    pub fn set_speed(&self, speed_millis: i64) -> (cmd: String)
        requires
            speed_millis != i64::MIN,
        ensures
            cmd@ == command_text(
                IpcCommand::SetProperty(PropertyId::Speed, PropValue::Num(speed_millis)),
            ),
    {
        self.set_property(PropertyId::Speed, PropValue::Num(speed_millis))
    }

    /// The command that seeks to a playback position (milliseconds).
    pub fn seek(&self, pos_millis: i64) -> (cmd: String)
        requires
            pos_millis != i64::MIN,
        ensures
            cmd@ == command_text(
                IpcCommand::SetProperty(PropertyId::TimePos, PropValue::Num(pos_millis)),
            ),
    {
        self.set_property(PropertyId::TimePos, PropValue::Num(pos_millis))
    }

    /// The command that shows or hides video output.
    pub fn set_video(&self, show: bool) -> (cmd: String)
        ensures
            show ==> cmd@ == set_opt_str_property_text(PropertyId::Video, Some("1"@)),
            !show ==> cmd@ == set_opt_str_property_text(PropertyId::Video, None),
    {
        let v = if show {
            PropValue::OptStr(Some("1".to_owned()))
        } else {
            PropValue::OptStr(None)
        };
        let cmd = self.set_property(PropertyId::Video, v);
        proof {
            assert(cmd@ =~= if show {
                set_opt_str_property_text(PropertyId::Video, Some("1"@))
            } else {
                set_opt_str_property_text(PropertyId::Video, None)
            });
        }
        cmd
    }

    /// The two commands that set both loop-region bounds (milliseconds; an
    /// unset bound is the `"no"` sentinel).
    pub fn set_ab_loop(&self, a: Option<i64>, b: Option<i64>) -> (cmds: (String, String))
        requires
            a matches Some(m) ==> m != i64::MIN,
            b matches Some(m) ==> m != i64::MIN,
        ensures
            cmds.0@ == command_text(
                IpcCommand::SetProperty(PropertyId::AbLoopA, PropValue::OptNum(a)),
            ),
            cmds.1@ == command_text(
                IpcCommand::SetProperty(PropertyId::AbLoopB, PropValue::OptNum(b)),
            ),
    {
        (
            self.set_property(PropertyId::AbLoopA, PropValue::OptNum(a)),
            self.set_property(PropertyId::AbLoopB, PropValue::OptNum(b)),
        )
    }

    /// The commands that add an auxiliary audio stream and mix it into the
    /// output: an audio-add for its path, then the two-track mix filter.
    pub fn add_audio(&self, path: &str) -> (cmds: (String, String))
        ensures
            cmds.0@ == audio_add_text(path@),
            cmds.1@ == set_str_property_text(
                PropertyId::LavfiComplex,
                "[aid1] [aid2] amix [ao]"@,
            ),
    {
        let add = IpcCommand::AudioAdd(path.to_owned()).encode();
        proof {
            assert(add@ =~= audio_add_text(path@));
        }
        let mix = self.set_property(
            PropertyId::LavfiComplex,
            PropValue::Str("[aid1] [aid2] amix [ao]".to_owned()),
        );
        proof {
            assert(mix@ =~= set_str_property_text(
                PropertyId::LavfiComplex,
                "[aid1] [aid2] amix [ao]"@,
            ));
        }
        (add, mix)
    }

    /// The command that mixes audio track one with the given track.
    pub fn mix_t1_with_track(&self, track: u64) -> (cmd: String)
        ensures
            cmd@ == set_str_property_text(PropertyId::LavfiComplex, mix_filter_text(track)),
    {
        let mut filter = String::new();
        filter.append("[aid1] [aid");
        crate::numfmt::append_u64(&mut filter, track);
        filter.append("] amix [ao]");
        let cmd = self.set_property(PropertyId::LavfiComplex, PropValue::Str(filter));
        proof {
            assert(cmd@ =~= set_str_property_text(PropertyId::LavfiComplex, mix_filter_text(track)));
        }
        cmd
    }

    /// The commands that switch playback to one audio track: the mix filter
    /// cleared, then the track selected.
    pub fn switch_to_track(&self, id: u64) -> (cmds: (String, String))
        ensures
            cmds.0@ == set_str_property_text(PropertyId::LavfiComplex, Seq::<char>::empty()),
            cmds.1@ == command_text(
                IpcCommand::SetProperty(PropertyId::Aid, PropValue::Uint(id)),
            ),
    {
        let clear = self.set_property(PropertyId::LavfiComplex, PropValue::Str(String::new()));
        proof {
            assert(clear@ =~= set_str_property_text(PropertyId::LavfiComplex, Seq::<char>::empty()));
        }
        (clear, self.set_property(PropertyId::Aid, PropValue::Uint(id)))
    }

    /// The command that removes an audio track.
    pub fn remove_track(&self, track_num: u64) -> (cmd: String)
        ensures
            cmd@ == command_text(IpcCommand::AudioRemove(track_num)),
    {
        IpcCommand::AudioRemove(track_num).encode()
    }

    /// The command that turns looping of the current file on or off.
    pub fn set_loop_file(&self, loop_file: bool) -> (cmd: String)
        ensures
            loop_file ==> cmd@ == set_opt_str_property_text(PropertyId::LoopFile, Some("inf"@)),
            !loop_file ==> cmd@ == set_opt_str_property_text(PropertyId::LoopFile, None),
    {
        let v = if loop_file {
            PropValue::OptStr(Some("inf".to_owned()))
        } else {
            PropValue::OptStr(None)
        };
        let cmd = self.set_property(PropertyId::LoopFile, v);
        proof {
            assert(cmd@ =~= if loop_file {
                set_opt_str_property_text(PropertyId::LoopFile, Some("inf"@))
            } else {
                set_opt_str_property_text(PropertyId::LoopFile, None)
            });
        }
        cmd
    }

    /// Dispatch one decoded message: update the observed state or queue an
    /// event, exactly as [`apply_msg_spec`] says.
    pub fn apply_msg(&mut self, msg: &RawMsg)
        ensures
            ({
                let r = apply_msg_spec(old(self).observed@, old(self).event_queue@, msg@);
                &&& final(self).observed@ == r.0
                &&& final(self).event_queue@ == r.1
            }),
    {
        let event = match &msg.event {
            Some(ev) => ev,
            None => {
                return ;
            },
        };
        if str_eq(event.as_str(), "pause") {
            self.observed.paused = true;
            proof {
                assert(self.observed@ =~= apply_msg_spec(
                    old(self).observed@,
                    old(self).event_queue@,
                    msg@,
                ).0);
            }
        } else if str_eq(event.as_str(), "unpause") {
            self.observed.paused = false;
            proof {
                assert(self.observed@ =~= apply_msg_spec(
                    old(self).observed@,
                    old(self).event_queue@,
                    msg@,
                ).0);
            }
        } else if str_eq(event.as_str(), "property-change") {
            let name = match &msg.name {
                Some(n) => n,
                None => {
                    return ;
                },
            };
            let data = match &msg.data {
                Some(d) => d,
                None => {
                    return ;
                },
            };
            self.apply_prop_change_exec(name.as_str(), data);
        } else if str_eq(event.as_str(), "end-file") {
            self.event_queue.push_back(IpcEvent::EndFile);
        }
    }

    /// Update one observed property from a property-change's name and data.
    fn apply_prop_change_exec(&mut self, name: &str, data: &RawData)
        ensures
            final(self).observed@ == apply_prop_change(old(self).observed@, name@, data@),
            final(self).event_queue@ == old(self).event_queue@,
    {
        if str_eq(name, "speed") {
            if let RawData::Num(t) = data {
                if let Some(v) = parse_millis(t.as_str()) {
                    self.observed.speed_millis = v;
                }
            }
        } else if str_eq(name, "volume") {
            if let RawData::Num(t) = data {
                if let Some(v) = parse_millis(t.as_str()) {
                    self.observed.volume = if v < 0 {
                        0
                    } else if v / 1000 > 255 {
                        255
                    } else {
                        (v / 1000) as u8
                    };
                }
            }
        } else if str_eq(name, "duration") {
            if let RawData::Num(t) = data {
                if let Some(v) = parse_millis(t.as_str()) {
                    self.observed.duration_millis = v;
                }
            }
        } else if str_eq(name, "time-pos") {
            if let RawData::Num(t) = data {
                if let Some(v) = parse_millis(t.as_str()) {
                    self.observed.time_pos_millis = v;
                }
            }
        } else if str_eq(name, "ab-loop-a") {
            match data {
                RawData::Num(t) => {
                    if let Some(v) = parse_millis(t.as_str()) {
                        self.observed.ab_loop_a = Some(v);
                    }
                },
                _ => {
                    self.observed.ab_loop_a = None;
                },
            }
        } else if str_eq(name, "ab-loop-b") {
            match data {
                RawData::Num(t) => {
                    if let Some(v) = parse_millis(t.as_str()) {
                        self.observed.ab_loop_b = Some(v);
                    }
                },
                _ => {
                    self.observed.ab_loop_b = None;
                },
            }
        } else if str_eq(name, "track-list/count") {
            if let RawData::Num(t) = data {
                if let Some(v) = parse_millis(t.as_str()) {
                    if v >= 0 && v % 1000 == 0 {
                        self.observed.track_count = ((v / 1000) % 256) as u8;
                    }
                }
            }
        } else if str_eq(name, "lavfi-complex") {
            if let RawData::Str(s) = data {
                self.observed.lavfi_complex = s.clone();
            }
        } else if str_eq(name, "loop-file") {
            let is_inf = match data {
                RawData::Str(s) => str_eq(s.as_str(), "inf"),
                _ => false,
            };
            self.observed.loop_file = is_inf;
        }
        proof {
            assert(self.observed@ =~= apply_prop_change(old(self).observed@, name@, data@));
        }
    }

    /// Handle one raw response line: strip a trailing carriage return, decode
    /// it, dispatch it; a line that does not decode is discarded.
    fn handle_response_line(&mut self, line: &[u8])
        ensures
            ({
                let r = apply_line(old(self).observed@, old(self).event_queue@, line@);
                &&& final(self).observed@ == r.0
                &&& final(self).event_queue@ == r.1
            }),
    {
        let n: usize = line.len();
        let stripped: &[u8] = if n > 0 && line[n - 1] == 0x0d {
            vstd::slice::slice_subrange(line, 0, n - 1)
        } else {
            line
        };
        proof {
            assert(stripped@ =~= strip_cr(line@));
        }
        match parse_response_line(stripped) {
            Some(msg) => self.apply_msg(&msg),
            None => (),
        }
    }

    /// Drain one batch of bytes read from the control socket: split them on
    /// newlines and handle each line in order.
    pub fn handle_responses(&mut self, data: &[u8])
        ensures
            ({
                let r = apply_lines(old(self).observed@, old(self).event_queue@, split_lines(data@));
                &&& final(self).observed@ == r.0
                &&& final(self).event_queue@ == r.1
            }),
    {
        self.handle_from(data, 0);
        proof {
            assert(data@.skip(0) =~= data@);
        }
    }

    /// Handle every line of `data` from byte `start` on.
    fn handle_from(&mut self, data: &[u8], start: usize)
        requires
            start <= data@.len(),
        ensures
            ({
                let r = apply_lines(
                    old(self).observed@,
                    old(self).event_queue@,
                    split_lines(data@.skip(start as int)),
                );
                &&& final(self).observed@ == r.0
                &&& final(self).event_queue@ == r.1
            }),
        decreases data@.len() - start,
    {
        let n: usize = data.len();
        if start >= n {
            return ;
        }
        let ghost rest = data@.skip(start as int);
        let mut j: usize = start;
        while j < n
            invariant_except_break
                start <= j <= n,
                n == data@.len(),
                rest == data@.skip(start as int),
                forall|q: int| start <= q < j ==> data@[q] != 0x0a,
            ensures
                start <= j <= n,
                n == data@.len(),
                forall|q: int| start <= q < j ==> data@[q] != 0x0a,
                j < n ==> data@[j as int] == 0x0a,
            decreases n - j,
        {
            if data[j] == 0x0a {
                break ;
            }
            j = j + 1;
        }
        proof {
            assert(forall|q: int| 0 <= q < j - start ==> rest[q] == data@[start + q]);
            if j < n {
                assert(rest[(j - start) as int] == data@[j as int]);
            }
            lemma_line_len_is(rest, j - start);
            assert(rest.take((j - start) as int) =~= data@.subrange(start as int, j as int));
        }
        let ghost p0 = self.observed@;
        let ghost q0 = self.event_queue@;
        let line: &[u8] = vstd::slice::slice_subrange(data, start, j);
        self.handle_response_line(line);
        let ghost mid = apply_line(p0, q0, line@);
        if j < n {
            proof {
                assert(rest.skip((j - start) as int + 1) =~= data@.skip(j as int + 1));
                assert(split_lines(rest) == seq![rest.take((j - start) as int)] + split_lines(
                    data@.skip(j as int + 1),
                ));
                assert(split_lines(rest)[0] == line@);
                assert(split_lines(rest).drop_first() =~= split_lines(data@.skip(j as int + 1)));
            }
            self.handle_from(data, j + 1);
            proof {
                assert(apply_lines(p0, q0, split_lines(rest)) == apply_lines(
                    mid.0,
                    mid.1,
                    split_lines(rest).drop_first(),
                ));
            }
        } else {
            proof {
                reveal_with_fuel(apply_lines, 3);
                assert(rest.take((j - start) as int) =~= rest);
                assert(line@ == rest);
                assert(split_lines(rest) == seq![rest]);
                assert(seq![rest][0] == rest);
                assert(seq![rest].drop_first() =~= Seq::<Seq<u8>>::empty());
                assert(apply_lines(p0, q0, split_lines(rest)) == mid);
            }
        }
    }
}

/// The wire text of a set-property command whose value is a JSON string.
pub open spec fn set_str_property_text(p: PropertyId, s: Seq<char>) -> Seq<char> {
    "{\"command\":["@ + "\"set_property\","@ + json_string_text(spec_wire_name(p)) + seq![',']
        + json_string_text(s) + "]}\n"@
}

/// The wire text of a set-property command whose value is a JSON string or
/// the `"no"` sentinel.
pub open spec fn set_opt_str_property_text(p: PropertyId, os: Option<Seq<char>>) -> Seq<char> {
    "{\"command\":["@ + "\"set_property\","@ + json_string_text(spec_wire_name(p)) + seq![',']
        + (match os {
        Some(s) => json_string_text(s),
        None => "\"no\""@,
    }) + "]}\n"@
}

/// The wire text of an audio-add command for a file path.
pub open spec fn audio_add_text(path: Seq<char>) -> Seq<char> {
    "{\"command\":["@ + "\"audio-add\","@ + json_string_text(path) + "]}\n"@
}

/// The two-track mix filter for a given track number.
pub open spec fn mix_filter_text(track: u64) -> Seq<char> {
    "[aid1] [aid"@ + dec_digits(track as nat) + "] amix [ao]"@
}

} // verus!
