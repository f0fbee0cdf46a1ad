//! Input events as every platform has them.

use vstd::prelude::*;

use crate::bytes::{filled, text_in, utf8_lossy};

verus! {

pub const EVENT_KEYBOARD: i32 = 1;
pub const EVENT_MOUSE: i32 = 2;
pub const STATUS_PRESSED: i32 = 1;

/// A key or mouse event. The first `buffer_len` bytes of `buffer` hold the text of the key.
#[derive(Debug, Clone, Copy, PartialEq, Eq)]
pub struct InputEvent {
    pub event_type: i32,
    pub status: i32,
    pub key_code: u32,
    pub buffer: [u8; 64],
    pub buffer_len: usize,
}

impl InputEvent {
    /// The text of the key.
    pub fn text(&self) -> (r: String)
        ensures
            r@ == utf8_lossy(filled(self.buffer@, self.buffer_len)),
            vstd::utf8::valid_utf8(filled(self.buffer@, self.buffer_len)) ==> r@
                == vstd::utf8::decode_utf8(filled(self.buffer@, self.buffer_len)),
    {
        text_in(&self.buffer, self.buffer_len)
    }
}

} // verus!
