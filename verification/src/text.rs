use vstd::prelude::*;
use vstd::string::StringExecFns;

pub mod laws;

verus! {

/// The character of a hexadecimal digit, in lower case.
pub open spec fn digit(d: nat) -> char {
    if d < 10 {
        (48 + d) as char
    } else {
        (87 + d) as char
    }
}

/// `n` written in decimal, without leading zeros.
pub open spec fn decimal(n: nat) -> Seq<char>
    decreases n,
{
    if n < 10 {
        seq![digit(n)]
    } else {
        decimal(n / 10).push(digit(n % 10))
    }
}

/// `b` written as two hexadecimal digits.
pub open spec fn hex_pair(b: u8) -> Seq<char> {
    seq![digit((b / 16) as nat), digit((b % 16) as nat)]
}

/// Every byte of `s` written as two hexadecimal digits, in order.
pub open spec fn hex(s: Seq<u8>) -> Seq<char>
    decreases s.len(),
{
    if s.len() == 0 {
        seq![]
    } else {
        hex(s.drop_last()) + hex_pair(s.last())
    }
}

/// `b` in hexadecimal behind `0x`, without leading zeros.
pub open spec fn prefixed_hex(b: u8) -> Seq<char> {
    "0x"@ + if b < 16 {
        seq![digit(b as nat)]
    } else {
        hex_pair(b)
    }
}

fn digit_str(d: u8) -> (r: &'static str)
    requires
        d < 16,
    ensures
        r@ == seq![digit(d as nat)],
{
    proof {
        reveal_strlit("0");
        reveal_strlit("1");
        reveal_strlit("2");
        reveal_strlit("3");
        reveal_strlit("4");
        reveal_strlit("5");
        reveal_strlit("6");
        reveal_strlit("7");
        reveal_strlit("8");
        reveal_strlit("9");
        reveal_strlit("a");
        reveal_strlit("b");
        reveal_strlit("c");
        reveal_strlit("d");
        reveal_strlit("e");
        reveal_strlit("f");
    }
    let r: &'static str = match d {
        0 => "0",
        1 => "1",
        2 => "2",
        3 => "3",
        4 => "4",
        5 => "5",
        6 => "6",
        7 => "7",
        8 => "8",
        9 => "9",
        10 => "a",
        11 => "b",
        12 => "c",
        13 => "d",
        14 => "e",
        _ => "f",
    };
    assert(r@ =~= seq![digit(d as nat)]);
    r
}

/// `n` in decimal.
pub fn decimal_text(n: usize) -> (r: String)
    ensures
        r@ == decimal(n as nat),
    decreases n,
{
    if n < 10 {
        let mut r: String = String::new();
        r.append(digit_str(n as u8));
        assert(r@ =~= decimal(n as nat));
        r
    } else {
        let mut r: String = decimal_text(n / 10);
        r.append(digit_str((n % 10) as u8));
        assert(r@ =~= decimal(n as nat));
        r
    }
}

/// The bytes of `s` in hexadecimal, two digits each.
pub fn hex_text(s: &[u8]) -> (r: String)
    ensures
        r@ == hex(s@),
{
    let mut r: String = String::new();
    let mut i: usize = 0;
    while i < s.len()
        invariant
            i <= s@.len(),
            r@ == hex(s@.take(i as int)),
        decreases s@.len() - i,
    {
        let ghost before = r@;
        r.append(digit_str(s[i] / 16));
        r.append(digit_str(s[i] % 16));
        proof {
            assert(s@.take(i + 1).drop_last() =~= s@.take(i as int));
            assert(r@ =~= before + hex_pair(s@[i as int]));
        }
        i = i + 1;
    }
    assert(s@.take(i as int) =~= s@);
    r
}

/// `b` in hexadecimal behind `0x`.
pub fn prefixed_hex_text(b: u8) -> (r: String)
    ensures
        r@ == prefixed_hex(b),
{
    let mut r: String = "0x".to_string();
    if b >= 16 {
        r.append(digit_str(b / 16));
    }
    r.append(digit_str(b % 16));
    assert(r@ =~= prefixed_hex(b));
    r
}

/// `before`, then `n` in decimal, then `after`.
pub fn with_number(before: &str, n: usize, after: &str) -> (r: String)
    ensures
        r@ == before@ + decimal(n as nat) + after@,
{
    let mut r: String = before.to_string();
    r.append(decimal_text(n).as_str());
    r.append(after);
    r
}

} // verus!
