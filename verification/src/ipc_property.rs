//! The closed set of player properties the control channel speaks about, and
//! the typed values they carry.
//!
//! Each property has a fixed wire name. Numeric values are held as integer
//! millisecond counts; the "unset" state of an optional value is encoded on
//! the wire as the literal string `"no"`, distinct from an absent value.

use crate::numfmt::{dec_digits, millis_text};
use crate::strutil::push_char;
use vstd::prelude::*;
use vstd::string::StringExecFns;
use vstd::string::StrSliceExecFns;

verus! {

/// A property of the supervised player, keyed by identifier; each carries its
/// wire name.
#[derive(Clone, Copy, PartialEq, Eq, Debug, Structural)]
pub enum PropertyId {
    Volume,
    Speed,
    Pause,
    TimePos,
    Duration,
    Video,
    AbLoopA,
    AbLoopB,
    TrackListCount,
    LavfiComplex,
    Aid,
    LoopFile,
}

/// The wire name of a property.
pub open spec fn spec_wire_name(p: PropertyId) -> Seq<char> {
    match p {
        PropertyId::Volume => "volume"@,
        PropertyId::Speed => "speed"@,
        PropertyId::Pause => "pause"@,
        PropertyId::TimePos => "time-pos"@,
        PropertyId::Duration => "duration"@,
        PropertyId::Video => "vid"@,
        PropertyId::AbLoopA => "ab-loop-a"@,
        PropertyId::AbLoopB => "ab-loop-b"@,
        PropertyId::TrackListCount => "track-list/count"@,
        PropertyId::LavfiComplex => "lavfi-complex"@,
        PropertyId::Aid => "aid"@,
        PropertyId::LoopFile => "loop-file"@,
    }
}

impl PropertyId {
    pub fn wire_name(&self) -> (r: &'static str)
        ensures
            r@ == spec_wire_name(*self),
    {
        match self {
            PropertyId::Volume => "volume",
            PropertyId::Speed => "speed",
            PropertyId::Pause => "pause",
            PropertyId::TimePos => "time-pos",
            PropertyId::Duration => "duration",
            PropertyId::Video => "vid",
            PropertyId::AbLoopA => "ab-loop-a",
            PropertyId::AbLoopB => "ab-loop-b",
            PropertyId::TrackListCount => "track-list/count",
            PropertyId::LavfiComplex => "lavfi-complex",
            PropertyId::Aid => "aid",
            PropertyId::LoopFile => "loop-file",
        }
    }
}

/// A typed value assigned to a property on the wire. `Num` and the `Some`
/// side of `OptNum` are millisecond counts.
pub enum PropValue {
    Bool(bool),
    Uint(u64),
    Num(i64),
    OptNum(Option<i64>),
    Str(String),
    OptStr(Option<String>),
}

impl PropValue {
    /// Serialization never fails for any value drawn from the closed property
    /// set; the one machine-level exclusion is the unrepresentable negation
    /// of `i64::MIN`.
    pub open spec fn valid(&self) -> bool {
        match self {
            PropValue::Num(m) => *m != i64::MIN,
            PropValue::OptNum(Some(m)) => *m != i64::MIN,
            _ => true,
        }
    }
}

/// The JSON text of a property value: booleans and numbers bare, strings
/// quoted and escaped, an unset optional as the string `"no"`.
pub open spec fn prop_value_text(v: PropValue) -> Seq<char> {
    match v {
        PropValue::Bool(b) => if b {
            "true"@
        } else {
            "false"@
        },
        PropValue::Uint(n) => dec_digits(n as nat),
        PropValue::Num(m) => millis_text(m as int),
        PropValue::OptNum(om) => match om {
            Some(m) => millis_text(m as int),
            None => "\"no\""@,
        },
        PropValue::Str(s) => json_string_text(s@),
        PropValue::OptStr(os) => match os {
            Some(s) => json_string_text(s@),
            None => "\"no\""@,
        },
    }
}

/// A lowercase hexadecimal digit.
pub open spec fn hex_char(d: nat) -> char {
    if d < 10 {
        ((0x30 + d) as u8) as char
    } else {
        ((0x61 + (d - 10)) as u8) as char
    }
}

/// The JSON escape of one character: quote and backslash escaped, the named
/// control characters short-escaped, other control characters as `\u00XX`.
pub open spec fn esc_char(c: char) -> Seq<char> {
    if c == '"' {
        seq!['\\', '"']
    } else if c == '\\' {
        seq!['\\', '\\']
    } else if c == '\n' {
        seq!['\\', 'n']
    } else if c == '\r' {
        seq!['\\', 'r']
    } else if c == '\t' {
        seq!['\\', 't']
    } else if c as u32 == 0x08 {
        seq!['\\', 'b']
    } else if c as u32 == 0x0c {
        seq!['\\', 'f']
    } else if (c as u32) < 0x20 {
        seq!['\\', 'u', '0', '0', hex_char((c as u32 / 16) as nat), hex_char((c as u32 % 16) as nat)]
    } else {
        seq![c]
    }
}

/// A character sequence JSON-escaped.
pub open spec fn escaped(s: Seq<char>) -> Seq<char>
    decreases s.len(),
{
    if s.len() == 0 {
        seq![]
    } else {
        escaped(s.drop_last()) + esc_char(s.last())
    }
}

/// A JSON string: quoted, escaped text.
pub open spec fn json_string_text(s: Seq<char>) -> Seq<char> {
    seq!['"'] + escaped(s) + seq!['"']
}

/// Append one character's JSON escape.
fn append_esc_char(out: &mut String, c: char)
    ensures
        final(out)@ == old(out)@ + esc_char(c),
{
    let u: u32 = c as u32;
    if c == '"' {
        push_char(out, '\\');
        push_char(out, '"');
    } else if c == '\\' {
        push_char(out, '\\');
        push_char(out, '\\');
    } else if c == '\n' {
        push_char(out, '\\');
        push_char(out, 'n');
    } else if c == '\r' {
        push_char(out, '\\');
        push_char(out, 'r');
    } else if c == '\t' {
        push_char(out, '\\');
        push_char(out, 't');
    } else if u == 0x08 {
        push_char(out, '\\');
        push_char(out, 'b');
    } else if u == 0x0c {
        push_char(out, '\\');
        push_char(out, 'f');
    } else if u < 0x20 {
        push_char(out, '\\');
        push_char(out, 'u');
        push_char(out, '0');
        push_char(out, '0');
        let hi: u8 = (u / 16) as u8;
        let lo: u8 = (u % 16) as u8;
        push_char(out, if hi < 10 {
            (0x30 + hi) as char
        } else {
            (0x61 + (hi - 10)) as char
        });
        push_char(out, if lo < 10 {
            (0x30 + lo) as char
        } else {
            (0x61 + (lo - 10)) as char
        });
    } else {
        push_char(out, c);
    }
    proof {
        assert(final(out)@ =~= old(out)@ + esc_char(c));
    }
}

/// Append text JSON-escaped.
pub fn append_escaped(out: &mut String, s: &str)
    ensures
        final(out)@ == old(out)@ + escaped(s@),
{
    let n: usize = s.unicode_len();
    let mut i: usize = 0;
    proof {
        assert(escaped(s@.take(0)) =~= Seq::<char>::empty());
        assert(out@ =~= old(out)@ + escaped(s@.take(0)));
    }
    while i < n
        invariant
            i <= n,
            n == s@.len(),
            out@ == old(out)@ + escaped(s@.take(i as int)),
        decreases n - i,
    {
        let c: char = s.get_char(i);
        append_esc_char(out, c);
        proof {
            assert(s@.take(i + 1).drop_last() =~= s@.take(i as int));
            assert(s@.take(i + 1).last() == c);
            assert(out@ =~= old(out)@ + escaped(s@.take(i + 1)));
        }
        i = i + 1;
    }
    proof {
        assert(s@.take(n as int) =~= s@);
    }
}

/// Append a quoted, escaped JSON string.
pub fn append_json_string(out: &mut String, s: &str)
    ensures
        final(out)@ == old(out)@ + json_string_text(s@),
{
    push_char(out, '"');
    append_escaped(out, s);
    push_char(out, '"');
    proof {
        assert(final(out)@ =~= old(out)@ + json_string_text(s@));
    }
}

/// Append the JSON text of a property value.
pub fn append_prop_value(out: &mut String, v: &PropValue)
    requires
        v.valid(),
    ensures
        final(out)@ == old(out)@ + prop_value_text(*v),
{
    match v {
        PropValue::Bool(b) => {
            if *b {
                out.append("true");
            } else {
                out.append("false");
            }
        },
        PropValue::Uint(n) => {
            crate::numfmt::append_u64(out, *n);
        },
        PropValue::Num(m) => {
            crate::numfmt::append_millis(out, *m);
        },
        PropValue::OptNum(om) => {
            match om {
                Some(m) => crate::numfmt::append_millis(out, *m),
                None => out.append("\"no\""),
            }
        },
        PropValue::Str(s) => {
            append_json_string(out, s.as_str());
        },
        PropValue::OptStr(os) => {
            match os {
                Some(s) => append_json_string(out, s.as_str()),
                None => out.append("\"no\""),
            }
        },
    }
}

} // verus!
