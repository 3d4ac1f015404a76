use vstd::prelude::*;

use crate::text;

verus! {

/// What a lower-case hexadecimal digit is worth, or -1 for any other character.
pub open spec fn worth(c: char) -> int {
    if 48 <= c as int <= 57 {
        c as int - 48
    } else if 97 <= c as int <= 102 {
        c as int - 87
    } else {
        -1
    }
}

/// The number that a row of decimal digits stands for.
pub open spec fn read_decimal(s: Seq<char>) -> int
    decreases s.len(),
{
    if s.len() == 0 {
        0
    } else {
        10 * read_decimal(s.drop_last()) + worth(s.last())
    }
}

/// A number in decimal is made of decimal digits, has no needless zero before it, and reads as
/// the number.
pub proof fn law_decimal_reads_back(n: nat)
    ensures
        read_decimal(text::decimal(n)) == n,
        text::decimal(n).len() >= 1,
        forall|i: int|
            0 <= i < text::decimal(n).len() ==> 0 <= worth(#[trigger] text::decimal(n)[i]) <= 9,
        text::decimal(n).len() > 1 ==> text::decimal(n)[0] != '0',
    decreases n,
{
    let s = text::decimal(n);
    if n < 10 {
        assert(s.drop_last() =~= Seq::<char>::empty());
        assert(read_decimal(s.drop_last()) == 0);
    } else {
        law_decimal_reads_back(n / 10);
        let front = text::decimal(n / 10);
        assert(s.drop_last() =~= front);
        assert(s[0] == front[0]);
        if front.len() == 1 {
            assert(read_decimal(front.drop_last()) == 0) by {
                assert(front.drop_last() =~= Seq::<char>::empty());
            }
            assert(front.last() == front[0]);
        }
    }
}

/// Bytes in hexadecimal have two digits each, in the order of the bytes, and these read as the
/// byte.
pub proof fn law_hex_reads_back(s: Seq<u8>, i: int)
    ensures
        text::hex(s).len() == 2 * s.len(),
        0 <= i < s.len() ==> {
            &&& 0 <= worth(text::hex(s)[2 * i]) <= 15
            &&& 0 <= worth(text::hex(s)[2 * i + 1]) <= 15
            &&& 16 * worth(text::hex(s)[2 * i]) + worth(text::hex(s)[2 * i + 1]) == s[i]
        },
    decreases s.len(),
{
    if s.len() > 0 {
        law_hex_reads_back(s.drop_last(), i);
    }
}

/// A byte behind `0x` has one or two digits, the first of two not being zero, and they read as
/// the byte.
pub proof fn law_prefixed_hex_reads_back(b: u8)
    ensures
        ({
            let s = text::prefixed_hex(b);
            &&& 3 <= s.len() <= 4
            &&& s[0] == '0'
            &&& s[1] == 'x'
            &&& forall|i: int| 2 <= i < s.len() ==> 0 <= worth(#[trigger] s[i]) <= 15
            &&& s.len() == 3 ==> worth(s[2]) == b
            &&& s.len() == 4 ==> s[2] != '0' && 16 * worth(s[2]) + worth(s[3]) == b
        }),
{
    reveal_strlit("0x");
}

} // verus!
