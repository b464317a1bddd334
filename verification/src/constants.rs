//! Status codes of the counter subsystem, and their readable names.

use vstd::prelude::*;

verus! {

/// Status code returned by the counter subsystem's calls.
pub type PDHStatus = u32;

/// A call completed successfully.
pub const ERROR_SUCCESS: PDHStatus = 0;

/// Longest rendered counter path the subsystem accepts, in characters.
pub const PDH_MAX_COUNTER_PATH: u32 = 2048;

/// Longest counter name the subsystem accepts, in characters.
pub const PDH_MAX_COUNTER_NAME: u32 = 1024;

/// Longest instance name the subsystem accepts, in characters.
pub const PDH_MAX_INSTANCE_NAME: u32 = 1024;

/// The browse dialog was cancelled by the user.
pub const PDH_DIALOG_CANCELLED: PDHStatus = 0x800007D9;

/// The subsystem asks for a second call with a buffer of the size it reports.
pub const PDH_MORE_DATA: PDHStatus = 0x800007D2;

/// The subsystem could not allocate memory.
pub const PDH_MEMORY_ALLOCATION_FAILURE: PDHStatus = 0xC0000BBB;

/// An argument to a subsystem call was invalid.
pub const PDH_INVALID_ARGUMENT: PDHStatus = 0xC0000BBD;

/// The subsystem returned data it considers invalid.
pub const PDH_INVALID_DATA: PDHStatus = 0xC0000BC6;

/// A handle passed to the subsystem was not a live query or counter.
pub const PDH_INVALID_HANDLE: PDHStatus = 0xC0000BBC;

/// No counter object of the requested name exists.
pub const PDH_CSTATUS_NO_OBJECT: PDHStatus = 0xC0000BB8;

/// The requested machine could not be reached.
pub const PDH_CSTATUS_NO_MACHINE: PDHStatus = 0x800007D0;

/// No instance of the requested name exists.
pub const PDH_CSTATUS_NO_INSTANCE: PDHStatus = 0x800007D1;

/// No counter of the requested name exists.
pub const PDH_CSTATUS_NO_COUNTER: PDHStatus = 0xC0000BB9;

/// The counter path is syntactically malformed.
pub const PDH_CSTATUS_BAD_COUNTERNAME: PDHStatus = 0xC0000BC0;

/// Ask the subsystem to format a counter reading as a 64-bit float.
pub const PDH_FMT_DOUBLE: u32 = 0x00000200;

/// Ask the subsystem to format a counter reading as a 32-bit integer.
pub const PDH_FMT_LONG: u32 = 0x00000100;

/// Ask the subsystem to format a counter reading as a 64-bit integer.
pub const PDH_FMT_LARGE: u32 = 0x00000400;

/// Ask the subsystem for the raw counter reading.
pub const PDH_FMT_RAW: u32 = 0x00000010;

/// Ask the subsystem for the reading as an ANSI string.
pub const PDH_FMT_ANSI: u32 = 0x00000020;

/// Ask the subsystem for the reading as a UTF-16 string.
pub const PDH_FMT_UNICODE: u32 = 0x00000040;

/// The character for one decimal digit.
pub open spec fn decimal_digit(d: int) -> char
    recommends
        0 <= d < 10,
{
    if d == 0 {
        '0'
    } else if d == 1 {
        '1'
    } else if d == 2 {
        '2'
    } else if d == 3 {
        '3'
    } else if d == 4 {
        '4'
    } else if d == 5 {
        '5'
    } else if d == 6 {
        '6'
    } else if d == 7 {
        '7'
    } else if d == 8 {
        '8'
    } else {
        '9'
    }
}

/// The decimal rendering of a number, most significant digit first,
/// with no leading zero except for the number zero itself.
pub open spec fn decimal_chars(n: nat) -> Seq<char>
    decreases n,
{
    if n < 10 {
        seq![decimal_digit(n as int)]
    } else {
        decimal_chars(n / 10).push(decimal_digit((n % 10) as int))
    }
}

fn digit_str(d: u32) -> (r: &'static str)
    requires
        d < 10,
    ensures
        r@ == seq![decimal_digit(d as int)],
{
    proof {
        reveal_strlit("0");
        reveal_strlit("1");
        reveal_strlit("2");
        reveal_strlit("3");
        reveal_strlit("4");
        reveal_strlit("5");
        reveal_strlit("6");
        reveal_strlit("7");
        reveal_strlit("8");
        reveal_strlit("9");
        assert(("0")@ =~= seq!['0']);
        assert(("1")@ =~= seq!['1']);
        assert(("2")@ =~= seq!['2']);
        assert(("3")@ =~= seq!['3']);
        assert(("4")@ =~= seq!['4']);
        assert(("5")@ =~= seq!['5']);
        assert(("6")@ =~= seq!['6']);
        assert(("7")@ =~= seq!['7']);
        assert(("8")@ =~= seq!['8']);
        assert(("9")@ =~= seq!['9']);
    }
    if d == 0 {
        "0"
    } else if d == 1 {
        "1"
    } else if d == 2 {
        "2"
    } else if d == 3 {
        "3"
    } else if d == 4 {
        "4"
    } else if d == 5 {
        "5"
    } else if d == 6 {
        "6"
    } else if d == 7 {
        "7"
    } else if d == 8 {
        "8"
    } else {
        "9"
    }
}

/// Renders a status code in decimal, for codes with no known name.
pub fn u32_decimal_string(n: u32) -> (r: String)
    ensures
        r@ == decimal_chars(n as nat),
    decreases n,
{
    if n < 10 {
        let mut s = String::new();
        s.append(digit_str(n));
        proof {
            assert(s@ =~= decimal_chars(n as nat));
        }
        s
    } else {
        let mut s = u32_decimal_string(n / 10);
        s.append(digit_str(n % 10));
        proof {
            assert(s@ =~= decimal_chars(n as nat));
        }
        s
    }
}

/// The readable name of a status code: the subsystem's symbolic name where
/// one is known, otherwise the code in decimal.
pub open spec fn spec_status_name(s: PDHStatus) -> Seq<char> {
    if s == PDH_CSTATUS_NO_OBJECT {
        "PDH_CSTATUS_NO_OBJECT"@
    } else if s == PDH_CSTATUS_NO_MACHINE {
        "PDH_CSTATUS_NO_MACHINE"@
    } else if s == PDH_MORE_DATA {
        "PDH_MORE_DATA"@
    } else if s == PDH_MEMORY_ALLOCATION_FAILURE {
        "PDH_MEMORY_ALLOCATION_FAILURE"@
    } else if s == PDH_INVALID_ARGUMENT {
        "PDH_INVALID_ARGUMENT"@
    } else if s == PDH_INVALID_DATA {
        "PDH_INVALID_DATA"@
    } else if s == PDH_INVALID_HANDLE {
        "PDH_INVALID_HANDLE"@
    } else if s == PDH_CSTATUS_NO_INSTANCE {
        "PDH_CSTATUS_NO_INSTANCE"@
    } else if s == PDH_CSTATUS_NO_COUNTER {
        "PDH_CSTATUS_NO_COUNTER"@
    } else if s == PDH_CSTATUS_BAD_COUNTERNAME {
        "PDH_CSTATUS_BAD_COUNTERNAME"@
    } else {
        decimal_chars(s as nat)
    }
}

/// Translates a status code to a human-readable name where a mapping
/// exists, otherwise to the raw numeric code.
pub fn pdh_status_friendly_name(s: PDHStatus) -> (r: String)
    ensures
        r@ == spec_status_name(s),
{
    if s == PDH_CSTATUS_NO_OBJECT {
        "PDH_CSTATUS_NO_OBJECT".to_owned()
    } else if s == PDH_CSTATUS_NO_MACHINE {
        "PDH_CSTATUS_NO_MACHINE".to_owned()
    } else if s == PDH_MORE_DATA {
        "PDH_MORE_DATA".to_owned()
    } else if s == PDH_MEMORY_ALLOCATION_FAILURE {
        "PDH_MEMORY_ALLOCATION_FAILURE".to_owned()
    } else if s == PDH_INVALID_ARGUMENT {
        "PDH_INVALID_ARGUMENT".to_owned()
    } else if s == PDH_INVALID_DATA {
        "PDH_INVALID_DATA".to_owned()
    } else if s == PDH_INVALID_HANDLE {
        "PDH_INVALID_HANDLE".to_owned()
    } else if s == PDH_CSTATUS_NO_INSTANCE {
        "PDH_CSTATUS_NO_INSTANCE".to_owned()
    } else if s == PDH_CSTATUS_NO_COUNTER {
        "PDH_CSTATUS_NO_COUNTER".to_owned()
    } else if s == PDH_CSTATUS_BAD_COUNTERNAME {
        "PDH_CSTATUS_BAD_COUNTERNAME".to_owned()
    } else {
        u32_decimal_string(s)
    }
}

} // verus!
