//! How numbers are written as text: the decimal form that `Display` gives and
//! the lower-case hexadecimal form that `{:x}` gives.

use vstd::prelude::*;

verus! {

/// The character that writes the digit `d` (0 to 15), lower case past 9.
pub open spec fn digit_char(d: nat) -> char {
    seq!['0', '1', '2', '3', '4', '5', '6', '7', '8', '9', 'a', 'b', 'c', 'd', 'e', 'f'][d as int]
}

/// The digits of `n` in base `b`, most significant first, with no leading zero
/// ("0" for zero).
pub open spec fn digits(n: nat, b: nat) -> Seq<char>
    recommends
        2 <= b <= 16,
    decreases n,
{
    if n < b || b < 2 {
        seq![digit_char(n)]
    } else {
        proof {
            assert(n / b < n) by (nonlinear_arith)
                requires
                    n >= b,
                    b >= 2,
            ;
        }
        digits(n / b, b).push(digit_char(n % b))
    }
}

/// Decimal text of `n`.
pub open spec fn decimal(n: nat) -> Seq<char> {
    digits(n, 10)
}

/// Lower-case hexadecimal text of `n`, without prefix.
pub open spec fn lower_hex(n: nat) -> Seq<char> {
    digits(n, 16)
}

/// The one-character text of digit `d`.
fn digit_text(d: u8) -> (text: &'static str)
    requires
        d < 16,
    ensures
        text@ == seq![digit_char(d as nat)],
{
    match d {
        0 => {
            proof {
                reveal_strlit("0");
            }
            "0"
        },
        1 => {
            proof {
                reveal_strlit("1");
            }
            "1"
        },
        2 => {
            proof {
                reveal_strlit("2");
            }
            "2"
        },
        3 => {
            proof {
                reveal_strlit("3");
            }
            "3"
        },
        4 => {
            proof {
                reveal_strlit("4");
            }
            "4"
        },
        5 => {
            proof {
                reveal_strlit("5");
            }
            "5"
        },
        6 => {
            proof {
                reveal_strlit("6");
            }
            "6"
        },
        7 => {
            proof {
                reveal_strlit("7");
            }
            "7"
        },
        8 => {
            proof {
                reveal_strlit("8");
            }
            "8"
        },
        9 => {
            proof {
                reveal_strlit("9");
            }
            "9"
        },
        10 => {
            proof {
                reveal_strlit("a");
            }
            "a"
        },
        11 => {
            proof {
                reveal_strlit("b");
            }
            "b"
        },
        12 => {
            proof {
                reveal_strlit("c");
            }
            "c"
        },
        13 => {
            proof {
                reveal_strlit("d");
            }
            "d"
        },
        14 => {
            proof {
                reveal_strlit("e");
            }
            "e"
        },
        15 => {
            proof {
                reveal_strlit("f");
            }
            "f"
        },
        _ => {
            proof {
                reveal_strlit("f");
            }
            "f"
        },
    }
}

/// Appends the digits of `n` in base `b` to `out`.
fn push_digits(n: u128, b: u128, out: &mut String)
    requires
        2 <= b <= 16,
    ensures
        final(out)@ == old(out)@ + digits(n as nat, b as nat),
    decreases n,
{
    let ghost before = old(out)@;
    if n >= b {
        assert(n / b < n) by (nonlinear_arith)
            requires
                n >= b,
                b >= 2,
        ;
        push_digits(n / b, b, out);
    }
    assert(n % b < b);
    let d = (n % b) as u8;
    out.append(digit_text(d));
    if n >= b {
        assert(digits(n as nat, b as nat) == digits((n / b) as nat, b as nat).push(
            digit_char((n % b) as nat),
        ));
        assert(out@ =~= before + digits(n as nat, b as nat));
    } else {
        proof {
            vstd::arithmetic::div_mod::lemma_small_mod(n as nat, b as nat);
        }
        assert(out@ =~= before + digits(n as nat, b as nat));
    }
}

/// The decimal text of a `u16`, as its `Display` writes it: no sign, no leading zero.
pub fn u16_decimal(n: u16) -> (text: String)
    ensures
        text@ == decimal(n as nat),
{
    let mut text = String::new();
    push_digits(n as u128, 10, &mut text);
    assert(text@ =~= decimal(n as nat));
    text
}

/// The lower-case hexadecimal text of a `u128`, as `{:x}` writes it: digits `0-9a-f`,
/// no prefix, no leading zero.
pub fn u128_lower_hex(n: u128) -> (text: String)
    ensures
        text@ == lower_hex(n as nat),
{
    let mut text = String::new();
    push_digits(n, 16, &mut text);
    assert(text@ =~= lower_hex(n as nat));
    text
}

/// A written number holds no '-' and is never empty.
pub proof fn lemma_digits_shape(n: nat, b: nat)
    requires
        2 <= b <= 16,
    ensures
        digits(n, b).len() >= 1,
        !digits(n, b).contains('-'),
        forall|i: int| 0 <= i < digits(n, b).len() ==> #[trigger] digits(n, b)[i] != '-',
    decreases n,
{
    let table = seq!['0', '1', '2', '3', '4', '5', '6', '7', '8', '9', 'a', 'b', 'c', 'd', 'e', 'f'];
    assert forall|d: nat| d < 16 implies #[trigger] digit_char(d) != '-' by {
        assert(table[d as int] != '-');
    }
    if n >= b {
        lemma_digits_shape(n / b, b);
        let s = digits(n / b, b).push(digit_char(n % b));
        assert forall|i: int| 0 <= i < s.len() implies #[trigger] s[i] != '-' by {
            if i < s.len() - 1 {
                assert(s[i] == digits(n / b, b)[i]);
            }
        }
    }
}

/// The digit that a character writes (16 for a character that writes none).
spec fn digit_value(c: char) -> nat {
    if c == '0' { 0 } else if c == '1' { 1 } else if c == '2' { 2 } else if c == '3' { 3 } else if c == '4' { 4 } else if c == '5' { 5 } else if c == '6' { 6 } else if c == '7' { 7 } else if c == '8' { 8 } else if c == '9' { 9 } else if c == 'a' { 10 } else if c == 'b' { 11 } else if c == 'c' { 12 } else if c == 'd' { 13 } else if c == 'e' { 14 } else if c == 'f' { 15 } else { 16 }
}

/// Reading back a written digit gives the digit.
proof fn lemma_digit_value(d: nat)
    requires
        d < 16,
    ensures
        digit_value(digit_char(d)) == d,
{
    if d == 0 {
        assert(digit_char(d) == '0');
    } else if d == 1 {
        assert(digit_char(d) == '1');
    } else if d == 2 {
        assert(digit_char(d) == '2');
    } else if d == 3 {
        assert(digit_char(d) == '3');
    } else if d == 4 {
        assert(digit_char(d) == '4');
    } else if d == 5 {
        assert(digit_char(d) == '5');
    } else if d == 6 {
        assert(digit_char(d) == '6');
    } else if d == 7 {
        assert(digit_char(d) == '7');
    } else if d == 8 {
        assert(digit_char(d) == '8');
    } else if d == 9 {
        assert(digit_char(d) == '9');
    } else if d == 10 {
        assert(digit_char(d) == 'a');
    } else if d == 11 {
        assert(digit_char(d) == 'b');
    } else if d == 12 {
        assert(digit_char(d) == 'c');
    } else if d == 13 {
        assert(digit_char(d) == 'd');
    } else if d == 14 {
        assert(digit_char(d) == 'e');
    } else if d == 15 {
        assert(digit_char(d) == 'f');
    }
}

/// Distinct digits are written by distinct characters.
proof fn lemma_digit_char_injective(a: nat, b: nat)
    requires
        a < 16,
        b < 16,
        digit_char(a) == digit_char(b),
    ensures
        a == b,
{
    lemma_digit_value(a);
    lemma_digit_value(b);
}

/// Distinct numbers are written differently.
pub proof fn lemma_digits_injective(m: nat, n: nat, b: nat)
    requires
        2 <= b <= 16,
        digits(m, b) == digits(n, b),
    ensures
        m == n,
    decreases m + n,
{
    lemma_digits_shape(m, b);
    lemma_digits_shape(n, b);
    let dm = digits(m, b);
    let dn = digits(n, b);
    if m < b && n < b {
        assert(dm[0] == dn[0]);
        lemma_digit_char_injective(m, n);
    } else if m >= b && n >= b {
        assert(dm.drop_last() =~= digits(m / b, b));
        assert(dn.drop_last() =~= digits(n / b, b));
        lemma_digits_injective(m / b, n / b, b);
        assert(dm.last() == dn.last());
        lemma_digit_char_injective(m % b, n % b);
        vstd::arithmetic::div_mod::lemma_fundamental_div_mod(m as int, b as int);
        vstd::arithmetic::div_mod::lemma_fundamental_div_mod(n as int, b as int);
    } else if m < b {
        lemma_digits_shape(n / b, b);
        assert(dn.len() >= 2);
    } else {
        lemma_digits_shape(m / b, b);
        assert(dm.len() >= 2);
    }
}

} // verus!
