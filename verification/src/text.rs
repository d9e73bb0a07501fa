//! Decimal rendering and the fixed message texts that task outcomes carry.

use vstd::prelude::*;
use vstd::string::StringExecFns;

verus! {

/// The character for one decimal digit.
pub open spec fn digit_char(d: nat) -> char {
    if d == 0 {
        '0'
    } else if d == 1 {
        '1'
    } else if d == 2 {
        '2'
    } else if d == 3 {
        '3'
    } else if d == 4 {
        '4'
    } else if d == 5 {
        '5'
    } else if d == 6 {
        '6'
    } else if d == 7 {
        '7'
    } else if d == 8 {
        '8'
    } else {
        '9'
    }
}

/// The decimal rendering of `n`, most significant digit first, without
/// leading zeros (a lone zero for 0).
pub open spec fn dec_str(n: nat) -> Seq<char>
    decreases n,
{
    if n < 10 {
        seq![digit_char(n)]
    } else {
        dec_str(n / 10).push(digit_char(n % 10))
    }
}

/// The message of the validation error for a forbidden identifier.
pub open spec fn invalid_id_msg() -> Seq<char> {
    "Invalid ID: cannot be zero"@
}

/// The text a processing task completes with.
pub open spec fn processed_msg(id: u32, data: Seq<char>) -> Seq<char> {
    "Processed(id="@ + dec_str(id as nat) + ", data="@ + data + ")"@
}

/// The message of the transport error for a non-success response status.
pub open spec fn http_error_msg(status: u16) -> Seq<char> {
    "HTTP error: "@ + dec_str(status as nat)
}

/// Relies on String::push: appends the character at the end of the string.
#[verifier::external_body]
fn push_char(s: &mut String, c: char)
    ensures
        final(s)@ == old(s)@.push(c),
{
    s.push(c);
}

fn digit_of(d: u64) -> (c: char)
    requires
        d < 10,
    ensures
        c == digit_char(d as nat),
{
    if d == 0 {
        '0'
    } else if d == 1 {
        '1'
    } else if d == 2 {
        '2'
    } else if d == 3 {
        '3'
    } else if d == 4 {
        '4'
    } else if d == 5 {
        '5'
    } else if d == 6 {
        '6'
    } else if d == 7 {
        '7'
    } else if d == 8 {
        '8'
    } else {
        '9'
    }
}

/// Appends the decimal rendering of `n` to `s`.
fn push_decimal(s: &mut String, n: u64)
    ensures
        final(s)@ == old(s)@ + dec_str(n as nat),
    decreases n,
{
    if n >= 10 {
        push_decimal(s, n / 10);
    }
    let ghost before: Seq<char> = s@;
    let c = digit_of(n % 10);
    push_char(s, c);
    proof {
        assert(s@ =~= before + seq![c]);
        if n < 10 {
            assert(before + seq![c] =~= old(s)@ + dec_str(n as nat));
        } else {
            assert(before + seq![c] =~= old(s)@ + dec_str(n as nat));
        }
    }
}

/// The decimal rendering of `n` as a fresh string.
pub fn decimal_string(n: u64) -> (s: String)
    ensures
        s@ == dec_str(n as nat),
{
    let mut s = String::new();
    push_decimal(&mut s, n);
    proof {
        assert(s@ =~= dec_str(n as nat));
    }
    s
}

/// Builds the completion text of a processing task.
pub fn render_processed(id: u32, data: &str) -> (s: String)
    ensures
        s@ == processed_msg(id, data@),
{
    let mut s = String::from_str("Processed(id=");
    push_decimal(&mut s, id as u64);
    s.append(", data=");
    s.append(data);
    s.append(")");
    proof {
        assert(s@ =~= processed_msg(id, data@));
    }
    s
}

/// Builds the message of the validation error for a forbidden identifier.
pub fn render_invalid_id() -> (s: String)
    ensures
        s@ == invalid_id_msg(),
{
    String::from_str("Invalid ID: cannot be zero")
}

/// Builds the message of the transport error for a non-success status.
pub fn render_http_error(status: u16) -> (s: String)
    ensures
        s@ == http_error_msg(status),
{
    let mut s = String::from_str("HTTP error: ");
    push_decimal(&mut s, status as u64);
    proof {
        assert(s@ =~= http_error_msg(status));
    }
    s
}

} // verus!
