//! Lower-case hexadecimal rendering of byte strings.

use vstd::prelude::*;
use vstd::slice::slice_subrange;
use vstd::string::StringExecFns;

verus! {

/// The lower-case hexadecimal digit that stands for `n`, for `n` below 16.
pub open spec fn hex_digit(n: u8) -> char
    recommends
        n < 16,
{
    if n < 10 {
        ('0' as u8 + n) as char
    } else {
        ('a' as u8 + n - 10) as char
    }
}

/// The hexadecimal rendering of a byte string: two digits for each byte,
/// the high half first.
pub open spec fn hex(bytes: Seq<u8>) -> Seq<char> {
    Seq::new(
        2 * bytes.len(),
        |i: int|
            if i % 2 == 0 {
                hex_digit(bytes[i / 2] / 16)
            } else {
                hex_digit(bytes[i / 2] % 16)
            },
    )
}

/// The rendering of a byte string that is cut short where the string has
/// more than `max_len` bytes: its first sixteen bytes, and three dots.
pub open spec fn hex_truncated(bytes: Seq<u8>, max_len: nat) -> Seq<char> {
    if bytes.len() > max_len {
        hex(bytes.take(16)) + seq!['.', '.', '.']
    } else {
        hex(bytes)
    }
}

/// The digit that stands for `n`, as a string of one character.
fn digit(n: u8) -> (d: &'static str)
    requires
        n < 16,
    ensures
        d@ == seq![hex_digit(n)],
{
    proof {
        reveal_strlit("0");
        reveal_strlit("1");
        reveal_strlit("2");
        reveal_strlit("3");
        reveal_strlit("4");
        reveal_strlit("5");
        reveal_strlit("6");
        reveal_strlit("7");
        reveal_strlit("8");
        reveal_strlit("9");
        reveal_strlit("a");
        reveal_strlit("b");
        reveal_strlit("c");
        reveal_strlit("d");
        reveal_strlit("e");
        reveal_strlit("f");
    }
    let d = match n {
        0 => "0",
        1 => "1",
        2 => "2",
        3 => "3",
        4 => "4",
        5 => "5",
        6 => "6",
        7 => "7",
        8 => "8",
        9 => "9",
        10 => "a",
        11 => "b",
        12 => "c",
        13 => "d",
        14 => "e",
        _ => "f",
    };
    d
}

/// Renders a byte string in hexadecimal.
pub fn bytes_to_hex(bytes: &[u8]) -> (text: String)
    ensures
        text@ == hex(bytes@),
{
    let mut text = String::new();
    let mut i: usize = 0;
    while i < bytes.len()
        invariant
            i <= bytes@.len(),
            text@ == hex(bytes@.take(i as int)),
        decreases bytes@.len() - i,
    {
        let b = bytes[i];
        text.append(digit(b / 16));
        text.append(digit(b % 16));
        i = i + 1;
    }
    text
}

/// Renders a byte string in hexadecimal; of a string with more than
/// `max_len` bytes only the first sixteen, followed by three dots.
pub fn bytes_to_hex_truncated(bytes: &[u8], max_len: usize) -> (text: String)
    requires
        bytes@.len() > max_len ==> bytes@.len() >= 16,
    ensures
        text@ == hex_truncated(bytes@, max_len as nat),
{
    if bytes.len() > max_len {
        let head = slice_subrange(bytes, 0, 16);
        let mut text = bytes_to_hex(head);
        proof {
            reveal_strlit("...");
        }
        text.append("...");
        text
    } else {
        bytes_to_hex(bytes)
    }
}

} // verus!
