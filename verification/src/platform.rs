//! The few calls into the outside world that the library makes: the wall
//! clock, random identifiers and random choices.  Nothing is known of their
//! results beyond what each contract states.  Also the text form of
//! identifiers.

use rand::Rng;
use vstd::prelude::*;

verus! {

/// Milliseconds since the Unix epoch, read from `chrono::Utc::now()` and
/// `DateTime::timestamp_millis`.  `Utc::now` panics on a clock set before the
/// epoch, so a value that is returned is never negative.  The value depends
/// on the time of the call and nothing else is said of it.
#[verifier::external_body]
pub fn wall_clock_millis() -> (ms: i64)
    ensures
        ms >= 0,
{
    chrono::Utc::now().timestamp_millis()
}

/// The current time in milliseconds as an unsigned value.
pub fn now_millis() -> (ms: u64) {
    let t = wall_clock_millis();
    t as u64
}

/// The current time in whole seconds since the Unix epoch.
pub fn now_secs() -> (s: u64) {
    now_millis() / 1000
}

/// A fresh version-4 identifier from `uuid::Uuid::new_v4`, as its 128-bit
/// value.  The version bits are always set, so the value is never zero;
/// nothing else is known of it.
#[verifier::external_body]
pub fn new_identifier() -> (id: u128)
    ensures
        id != 0,
{
    uuid::Uuid::new_v4().as_u128()
}

/// The lower-case hexadecimal digit of `d`.
pub open spec fn hex_char(d: nat) -> char {
    if d < 10 {
        (('0' as nat) + d) as char
    } else {
        (('a' as nat) + d - 10) as char
    }
}

/// The `n` lowest hexadecimal digits of `v`, most significant first.
pub open spec fn hex_digits(v: nat, n: nat) -> Seq<char>
    decreases n,
{
    if n == 0 {
        Seq::empty()
    } else {
        hex_digits(v / 16, (n - 1) as nat).push(hex_char(v % 16))
    }
}

/// The hyphenated lower-case text of a 128-bit identifier read as a UUID:
/// its 32 hexadecimal digits in groups of 8, 4, 4, 4 and 12.
pub open spec fn uuid_hyphenated(id: u128) -> Seq<char> {
    hex_digits(id as nat / 0x1_0000_0000_0000_0000_0000_0000, 8) + seq!['-'] + hex_digits(
        id as nat / 0x1_0000_0000_0000_0000_0000,
        4,
    ) + seq!['-'] + hex_digits(id as nat / 0x1_0000_0000_0000_0000, 4) + seq!['-'] + hex_digits(
        id as nat / 0x1_0000_0000_0000,
        4,
    ) + seq!['-'] + hex_digits(id as nat, 12)
}

/// The text of hexadecimal digit `d`.
fn hex_text(d: u128) -> (s: &'static str)
    requires
        d < 16,
    ensures
        s@ == seq![hex_char(d as nat)],
{
    let s = match d {
        0 => "0",
        1 => "1",
        2 => "2",
        3 => "3",
        4 => "4",
        5 => "5",
        6 => "6",
        7 => "7",
        8 => "8",
        9 => "9",
        10 => "a",
        11 => "b",
        12 => "c",
        13 => "d",
        14 => "e",
        _ => "f",
    };
    proof {
        reveal_strlit("0");
        reveal_strlit("1");
        reveal_strlit("2");
        reveal_strlit("3");
        reveal_strlit("4");
        reveal_strlit("5");
        reveal_strlit("6");
        reveal_strlit("7");
        reveal_strlit("8");
        reveal_strlit("9");
        reveal_strlit("a");
        reveal_strlit("b");
        reveal_strlit("c");
        reveal_strlit("d");
        reveal_strlit("e");
        reveal_strlit("f");
        assert(s@ =~= seq![hex_char(d as nat)]);
    }
    s
}

/// The `n` lowest hexadecimal digits of `v`.
fn hex_string(v: u128, n: u32) -> (s: String)
    ensures
        s@ == hex_digits(v as nat, n as nat),
    decreases n,
{
    if n == 0 {
        let s = String::new();
        proof {
            assert(s@ =~= hex_digits(v as nat, 0));
        }
        s
    } else {
        let mut s = hex_string(v / 16, n - 1);
        s.append(hex_text(v % 16));
        s
    }
}

/// The text `uuid::Uuid::from_u128(id)` displays: the identifier in the
/// hyphenated 8-4-4-4-12 lower-case hexadecimal form.
pub fn uuid_text(id: u128) -> (s: String)
    ensures
        s@ == uuid_hyphenated(id),
{
    let mut s = hex_string(id / 0x1_0000_0000_0000_0000_0000_0000, 8);
    s.append("-");
    let g2 = hex_string(id / 0x1_0000_0000_0000_0000_0000, 4);
    s.append(g2.as_str());
    s.append("-");
    let g3 = hex_string(id / 0x1_0000_0000_0000_0000, 4);
    s.append(g3.as_str());
    s.append("-");
    let g4 = hex_string(id / 0x1_0000_0000_0000, 4);
    s.append(g4.as_str());
    s.append("-");
    let g5 = hex_string(id, 12);
    s.append(g5.as_str());
    proof {
        reveal_strlit("-");
    }
    s
}

/// A random index below `bound`, from `fastrand::usize(0..bound)`, which
/// panics on an empty range.
#[verifier::external_body]
pub fn random_index(bound: usize) -> (i: usize)
    requires
        bound > 0,
    ensures
        i < bound,
{
    fastrand::usize(0..bound)
}

/// A random value of the closed range `low..=high`, from
/// `rand::thread_rng().gen_range(low..=high)`, which panics on an empty range.
#[verifier::external_body]
pub fn random_between(low: u64, high: u64) -> (v: u64)
    requires
        low <= high,
    ensures
        low <= v <= high,
{
    rand::thread_rng().gen_range(low..=high)
}

/// A random value below `bound`, from `rand::thread_rng().gen_range(0..bound)`,
/// which panics on an empty range.
#[verifier::external_body]
pub fn random_below(bound: u64) -> (v: u64)
    requires
        bound > 0,
    ensures
        v < bound,
{
    rand::thread_rng().gen_range(0..bound)
}

} // verus!
