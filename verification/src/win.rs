//! Keys and injected input on Windows.

use vstd::prelude::*;

use crate::bytes::{check_nul, host_takes, NulError};

verus! {

pub const PLATFORM_NAME: &'static str = "Windows";

pub const KEY_BACKSPACE: u32 = 0x08;
pub const KEY_ENTER: u32 = 0x0D;
pub const KEY_ESCAPE: u32 = 0x1B;
pub const KEY_ARROW_LEFT: u32 = 0x25;
pub const KEY_ARROW_UP: u32 = 0x26;
pub const KEY_ARROW_RIGHT: u32 = 0x27;
pub const KEY_ARROW_DOWN: u32 = 0x28;

/// Is this the backspace key?
pub fn is_backspace_key(key_code: u32) -> (r: bool)
    ensures
        r == (key_code == KEY_BACKSPACE),
{
    key_code == KEY_BACKSPACE
}

/// Does this key end what was typed: enter, escape or an arrow?
pub fn is_buffer_boundary_key(key_code: u32) -> (r: bool)
    ensures
        r == (key_code == KEY_ENTER || key_code == KEY_ESCAPE || key_code == KEY_ARROW_LEFT
            || key_code == KEY_ARROW_RIGHT || key_code == KEY_ARROW_DOWN || key_code
            == KEY_ARROW_UP),
{
    matches!(
        key_code,
        KEY_ENTER | KEY_ESCAPE | KEY_ARROW_LEFT | KEY_ARROW_RIGHT | KEY_ARROW_DOWN | KEY_ARROW_UP
    )
}

/// Input that the host is made to receive.
#[derive(Debug, PartialEq, Eq)]
pub enum Injection {
    Backspaces { count: u32, delay_ms: i32 },
    Text { text: String, delay_ms: i32 },
}

/// Backspaces for the host to receive; it counts them in 32 bits.
pub fn inject_backspaces(count: usize, delay_ms: i32) -> (r: Injection)
    ensures
        r == (Injection::Backspaces { count: count as u32, delay_ms }),
{
    Injection::Backspaces { count: #[verifier::truncate] (count as u32), delay_ms }
}

/// Text for the host to receive; it takes none with a NUL in it.
pub fn inject_string(text: &str, delay_ms: i32) -> (r: Result<Injection, NulError>)
    ensures
        host_takes(text@) is Ok <==> r is Ok,
        r matches Ok(injection) ==> (injection matches Injection::Text { text: t, delay_ms: d }
            && t@ == text@ && d == delay_ms),
        r matches Err(e) ==> host_takes(text@) == Err::<(), NulError>(e),
{
    match check_nul(text) {
        Ok(_) => Ok(Injection::Text { text: text.to_owned(), delay_ms }),
        Err(error) => Err(error),
    }
}

} // verus!
