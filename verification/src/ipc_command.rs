//! The closed set of outgoing control-channel commands, and their wire
//! encoding.
//!
//! Every command serializes to a JSON array of at most three elements wrapped
//! in a single-key envelope, `{"command":[...]}`, terminated by a newline.
//! Serialization is total over the closed command set: there is no runtime
//! failure path.

use crate::ipc_property::{PropValue, PropertyId, append_json_string, append_prop_value,
    json_string_text, prop_value_text, spec_wire_name};
use crate::numfmt::{append_u64, dec_digits};
use crate::strutil::push_char;
use vstd::prelude::*;
use vstd::string::StringExecFns;

verus! {

/// One outgoing control-channel command.
pub enum IpcCommand {
    /// Ask the player to report every change of the named property.
    ObserveProperty(PropertyId),
    /// Set the named property to a typed value.
    SetProperty(PropertyId, PropValue),
    /// Add an auxiliary audio stream from a file path.
    AudioAdd(String),
    /// Remove the audio track with this identifier.
    AudioRemove(u64),
}

impl IpcCommand {
    pub open spec fn valid(&self) -> bool {
        match self {
            IpcCommand::SetProperty(_, v) => v.valid(),
            _ => true,
        }
    }
}

/// The JSON array elements of a command.
pub open spec fn command_args_text(c: IpcCommand) -> Seq<char> {
    match c {
        IpcCommand::ObserveProperty(p) => "\"observe_property\",1,"@ + json_string_text(
            spec_wire_name(p),
        ),
        IpcCommand::SetProperty(p, v) => "\"set_property\","@ + json_string_text(spec_wire_name(p))
            + seq![','] + prop_value_text(v),
        IpcCommand::AudioAdd(path) => "\"audio-add\","@ + json_string_text(path@),
        IpcCommand::AudioRemove(n) => "\"audio-remove\","@ + dec_digits(n as nat),
    }
}

/// The full wire text of a command: the envelope around its arguments, and
/// the terminating newline every command needs.
pub open spec fn command_text(c: IpcCommand) -> Seq<char> {
    "{\"command\":["@ + command_args_text(c) + "]}\n"@
}

impl IpcCommand {
    /// Encode the command for the wire.
    pub fn encode(&self) -> (r: String)
        requires
            self.valid(),
        ensures
            r@ == command_text(*self),
    {
        let mut r = String::new();
        r.append("{\"command\":[");
        match self {
            IpcCommand::ObserveProperty(p) => {
                r.append("\"observe_property\",1,");
                append_json_string(&mut r, p.wire_name());
            },
            IpcCommand::SetProperty(p, v) => {
                r.append("\"set_property\",");
                append_json_string(&mut r, p.wire_name());
                push_char(&mut r, ',');
                append_prop_value(&mut r, v);
            },
            IpcCommand::AudioAdd(path) => {
                r.append("\"audio-add\",");
                append_json_string(&mut r, path.as_str());
            },
            IpcCommand::AudioRemove(n) => {
                r.append("\"audio-remove\",");
                append_u64(&mut r, *n);
            },
        }
        r.append("]}\n");
        proof {
            assert(r@ =~= command_text(*self));
        }
        r
    }
}

} // verus!
