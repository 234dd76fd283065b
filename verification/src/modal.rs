//! A one-slot modal message: the latest warning or error waiting to be shown
//! to the user. Setting a new message replaces the previous one.

use vstd::prelude::*;

verus! {

#[derive(Clone, Copy, PartialEq, Eq, Debug, Structural)]
pub enum ModalPayloadKind {
    Warning,
    Error,
}

pub struct ModalPayload {
    pub title: String,
    pub msg: String,
    pub kind: ModalPayloadKind,
}

pub struct ModalPopup {
    pub payload: Option<ModalPayload>,
}

/// The mathematical state of a modal slot.
#[verifier::ext_equal]
pub struct ModalView {
    pub payload: Option<(Seq<char>, Seq<char>, ModalPayloadKind)>,
}

impl View for ModalPopup {
    type V = ModalView;

    open spec fn view(&self) -> ModalView {
        ModalView {
            payload: match &self.payload {
                Some(p) => Some((p.title@, p.msg@, p.kind)),
                None => None,
            },
        }
    }
}

/// A modal slot holding a warning.
pub open spec fn warn_view(title: Seq<char>, msg: Seq<char>) -> ModalView {
    ModalView { payload: Some((title, msg, ModalPayloadKind::Warning)) }
}

/// A modal slot holding an error.
pub open spec fn error_view(title: Seq<char>, msg: Seq<char>) -> ModalView {
    ModalView { payload: Some((title, msg, ModalPayloadKind::Error)) }
}

impl Default for ModalPopup {
    /// An empty slot: nothing to show.
    fn default() -> (r: Self)
        ensures
            r@.payload is None,
    {
        ModalPopup { payload: None }
    }
}

impl ModalPopup {
    /// Replace the slot with a warning.
    pub fn warn(&mut self, title: &str, msg: &str)
        ensures
            final(self)@ == warn_view(title@, msg@),
    {
        self.payload = Some(
            ModalPayload {
                title: title.to_owned(),
                msg: msg.to_owned(),
                kind: ModalPayloadKind::Warning,
            },
        );
        proof {
            assert(self@ =~= warn_view(title@, msg@));
        }
    }

    /// Replace the slot with an error.
    pub fn error(&mut self, title: &str, msg: &str)
        ensures
            final(self)@ == error_view(title@, msg@),
    {
        self.payload = Some(
            ModalPayload {
                title: title.to_owned(),
                msg: msg.to_owned(),
                kind: ModalPayloadKind::Error,
            },
        );
        proof {
            assert(self@ =~= error_view(title@, msg@));
        }
    }
}

/// Put the error side of a result, if any, into the modal slot.
pub trait ResultModalExt {
    fn err_popup(&self, title: &str, modal: &mut ModalPopup);
}

impl<T> ResultModalExt for Result<T, String> {
    fn err_popup(&self, title: &str, modal: &mut ModalPopup)
        ensures
            self matches Err(e) ==> final(modal)@ == error_view(title@, e@),
            self is Ok ==> *final(modal) == *old(modal),
    {
        match self {
            Err(e) => modal.error(title, e.as_str()),
            Ok(_) => (),
        }
    }
}

} // verus!
