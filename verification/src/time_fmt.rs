//! Time formatting for display: `HH:MM:SS.mmm` from a millisecond count.

use crate::numfmt::{pad2, pad3, append_pad2, append_pad3};
use crate::strutil::push_char;
use vstd::prelude::*;

verus! {

/// A playback time as a millisecond count, displayable as `HH:MM:SS.mmm`
/// (hours grow past two digits when needed).
pub struct FfmpegTimeFmt(pub u64);

/// The rendered form of a millisecond count.
pub open spec fn time_text(ms: nat) -> Seq<char> {
    pad2(ms / 3600000) + seq![':'] + pad2((ms / 60000) % 60) + seq![':'] + pad2((ms / 1000) % 60)
        + seq!['.'] + pad3(ms % 1000)
}

impl FfmpegTimeFmt {
    /// Render the time as zero-padded hours, minutes, seconds and
    /// milliseconds.
    pub fn to_string(&self) -> (r: String)
        ensures
            r@ == time_text(self.0 as nat),
    {
        let ms: u64 = self.0;
        let mut r = String::new();
        append_pad2(&mut r, ms / 3600000);
        push_char(&mut r, ':');
        append_pad2(&mut r, (ms / 60000) % 60);
        push_char(&mut r, ':');
        append_pad2(&mut r, (ms / 1000) % 60);
        push_char(&mut r, '.');
        append_pad3(&mut r, ms % 1000);
        proof {
            assert(r@ =~= time_text(ms as nat));
        }
        r
    }
}

} // verus!
