//! HTTP status codes as the `http` crate reads them.
use vstd::prelude::*;
use crate::numbers::{digit_value, is_digit};
use crate::text::chars_of;

verus! {

/// What `StatusCode::from_str` accepts: exactly three ASCII digits, the first
/// not `0`; the code is their value.
pub open spec fn status_code_spec(s: Seq<char>) -> Option<u16> {
    if s.len() == 3 && '1' <= s[0] && s[0] <= '9' && is_digit(s[1]) && is_digit(s[2]) {
        Some((digit_value(s[0]) * 100 + digit_value(s[1]) * 10 + digit_value(s[2])) as u16)
    } else {
        None
    }
}

/// What `StatusCode::from_u16` accepts: 100 to 999.
pub open spec fn valid_status_code(code: int) -> bool {
    100 <= code <= 999
}

/// What `StatusCode::is_success` says: the code is within 200-299.
pub open spec fn is_success_code(code: int) -> bool {
    200 <= code <= 299
}

/// The status code written in `s`, as `s.parse::<StatusCode>().ok()` gives it.
pub fn parse_status_code(s: &str) -> (r: Option<u16>)
    ensures
        r == status_code_spec(s@),
{
    let cs = chars_of(s);
    if cs.len() != 3 {
        return None;
    }
    let a = cs[0];
    let b = cs[1];
    let c = cs[2];
    if '1' <= a && a <= '9' && '0' <= b && b <= '9' && '0' <= c && c <= '9' {
        let v = (a as u32 - '0' as u32) * 100 + (b as u32 - '0' as u32) * 10 + (c as u32 - '0' as u32);
        Some(v as u16)
    } else {
        None
    }
}

/// Whether `code` is a success code (200-299).
pub fn is_success(code: u16) -> (r: bool)
    ensures
        r == is_success_code(code as int),
{
    200 <= code && code <= 299
}

/// Whether `code` is a status code at all (`StatusCode::from_u16` succeeds).
pub fn is_valid_status_code(code: u16) -> (r: bool)
    ensures
        r == valid_status_code(code as int),
{
    100 <= code && code <= 999
}

} // verus!
