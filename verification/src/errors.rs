//! The single typed error of the storage layer, and the verified
//! construction of its human-readable messages.

use vstd::prelude::*;
use vstd::string::StringExecFns;

verus! {

/// The only error the CRUD surface reports: the requested record (or any
/// record at all, for a listing) does not exist. Fatal storage conditions
/// are not represented here; they are excluded by precondition instead.
#[derive(Debug)]
pub enum Error {
    NotFound { msg: String },
}

impl Error {
    /// The message carried by the error, as a sequence of characters.
    pub open spec fn spec_msg(&self) -> Seq<char> {
        match self {
            Error::NotFound { msg } => msg@,
        }
    }

    /// Read access to the message, for callers outside the library.
    pub fn message(&self) -> (r: &String)
        ensures
            r@ == self.spec_msg(),
    {
        match self {
            Error::NotFound { msg } => msg,
        }
    }
}

/// The character for one decimal digit value.
pub open spec fn digit_char(d: u64) -> char {
    if d == 0 {
        '0'
    } else if d == 1 {
        '1'
    } else if d == 2 {
        '2'
    } else if d == 3 {
        '3'
    } else if d == 4 {
        '4'
    } else if d == 5 {
        '5'
    } else if d == 6 {
        '6'
    } else if d == 7 {
        '7'
    } else if d == 8 {
        '8'
    } else {
        '9'
    }
}

/// The usual decimal rendering of an unsigned 64-bit number: most
/// significant digit first, no leading zeros (except for zero itself).
pub open spec fn u64_dec(n: u64) -> Seq<char>
    decreases n,
{
    if n < 10 {
        seq![digit_char(n)]
    } else {
        u64_dec(n / 10).push(digit_char(n % 10))
    }
}

/// One decimal digit as a string slice.
fn digit_str(d: u64) -> (r: &'static str)
    requires
        d < 10,
    ensures
        r@ == seq![digit_char(d)],
{
    proof {
        reveal_strlit("0");
        reveal_strlit("1");
        reveal_strlit("2");
        reveal_strlit("3");
        reveal_strlit("4");
        reveal_strlit("5");
        reveal_strlit("6");
        reveal_strlit("7");
        reveal_strlit("8");
        reveal_strlit("9");
    }
    match d {
        0 => "0",
        1 => "1",
        2 => "2",
        3 => "3",
        4 => "4",
        5 => "5",
        6 => "6",
        7 => "7",
        8 => "8",
        _ => "9",
    }
}

/// Renders `n` in decimal.
pub fn u64_to_string(n: u64) -> (r: String)
    ensures
        r@ == u64_dec(n),
    decreases n,
{
    let d: u64 = n % 10;
    let ds = digit_str(d);
    if n < 10 {
        String::from_str(ds)
    } else {
        let mut s = u64_to_string(n / 10);
        s.append(ds);
        s
    }
}

/// Builds the message reported when a record with a given id is absent:
/// `"<kind> with the id=<id> not found"`.
pub open spec fn spec_id_not_found_msg(kind: Seq<char>, id: u64) -> Seq<char> {
    kind + " with the id="@ + u64_dec(id) + " not found"@
}

/// Builds an id-not-found message for one entity kind.
pub fn id_not_found_msg(kind: &str, id: u64) -> (r: String)
    ensures
        r@ == spec_id_not_found_msg(kind@, id),
{
    let mut s = String::from_str(kind);
    s.append(" with the id=");
    let ids = u64_to_string(id);
    s.append(ids.as_str());
    s.append(" not found");
    s
}

} // verus!
