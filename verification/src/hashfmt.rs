//! Rendering of hashrates for display.
//!
//! Hashrates are carried as fixed-point integers in milli-hashes per
//! second (1 H/s == 1000 milli-H/s), so the whole pipeline stays in
//! integer arithmetic.  Rendering scales by 1000 across the units
//! H/s, KH/s, MH/s, GH/s, TH/s and PH/s, picks the largest unit whose
//! value is at least 1, and prints 0 fractional digits when the value
//! is at least 100, 1 when at least 10, and 2 otherwise, truncating.
//! Zero renders as `0 H/s`.

use vstd::prelude::*;
use vstd::string::StringExecFns;

verus! {

/// The decimal digit character for `d` (0 through 9).
pub open spec fn digit_char(d: int) -> char {
    if d == 0 {
        '0'
    } else if d == 1 {
        '1'
    } else if d == 2 {
        '2'
    } else if d == 3 {
        '3'
    } else if d == 4 {
        '4'
    } else if d == 5 {
        '5'
    } else if d == 6 {
        '6'
    } else if d == 7 {
        '7'
    } else if d == 8 {
        '8'
    } else {
        '9'
    }
}

/// Decimal rendering of `n`, most significant digit first, no sign,
/// no leading zeros (except for `n == 0` itself).
pub open spec fn dec_str(n: nat) -> Seq<char>
    decreases n,
{
    if n < 10 {
        seq![digit_char(n as int)]
    } else {
        dec_str(n / 10).push(digit_char((n % 10) as int))
    }
}

/// 1000 raised to `k`.
pub open spec fn pow1000(k: nat) -> nat
    decreases k,
{
    if k == 0 {
        1
    } else {
        1000 * pow1000((k - 1) as nat)
    }
}

/// Index of the display unit for `m` milli-H/s: the largest `k <= 5`
/// such that the value in that unit is at least 1.
pub open spec fn unit_index(m: nat) -> nat {
    if m >= pow1000(6) {
        5
    } else if m >= pow1000(5) {
        4
    } else if m >= pow1000(4) {
        3
    } else if m >= pow1000(3) {
        2
    } else if m >= pow1000(2) {
        1
    } else {
        0
    }
}

/// The unit suffix, with its leading space.
pub open spec fn unit_chars(k: nat) -> Seq<char> {
    if k == 0 {
        seq![' ', 'H', '/', 's']
    } else if k == 1 {
        seq![' ', 'K', 'H', '/', 's']
    } else if k == 2 {
        seq![' ', 'M', 'H', '/', 's']
    } else if k == 3 {
        seq![' ', 'G', 'H', '/', 's']
    } else if k == 4 {
        seq![' ', 'T', 'H', '/', 's']
    } else {
        seq![' ', 'P', 'H', '/', 's']
    }
}

/// The value of `m` milli-H/s in its display unit, scaled by
/// `scale` and rounded to the nearest integer, half away from zero.
pub open spec fn rounded_value(m: nat, div: nat, scale: nat) -> nat {
    (m * scale + div / 2) / div
}

/// The rendered form of `m` milli-H/s: the display unit is the
/// largest whose value is at least 1, and the value is printed with
/// 0, 1 or 2 fractional digits (value at least 100, at least 10,
/// less than 10), rounded at the last printed digit.
pub open spec fn spec_format_hashrate_milli(m: nat) -> Seq<char> {
    if m == 0 {
        seq!['0', ' ', 'H', '/', 's']
    } else {
        let k = unit_index(m);
        let div = pow1000(k + 1);
        if m >= 100 * div {
            dec_str(rounded_value(m, div, 1)) + unit_chars(k)
        } else if m >= 10 * div {
            let d = rounded_value(m, div, 10);
            dec_str(d / 10) + seq!['.', digit_char((d % 10) as int)] + unit_chars(k)
        } else {
            let c = rounded_value(m, div, 100);
            dec_str(c / 100) + seq!['.', digit_char(((c % 100) / 10) as int), digit_char(
                (c % 10) as int,
            )] + unit_chars(k)
        }
    }
}

fn digit_literal(d: u64) -> (r: &'static str)
    requires
        d < 10,
    ensures
        r@ == seq![digit_char(d as int)],
{
    if d == 0 {
        proof {
            reveal_strlit("0");
            assert("0"@ =~= seq![digit_char(0)]);
        }
        "0"
    } else if d == 1 {
        proof {
            reveal_strlit("1");
            assert("1"@ =~= seq![digit_char(1)]);
        }
        "1"
    } else if d == 2 {
        proof {
            reveal_strlit("2");
            assert("2"@ =~= seq![digit_char(2)]);
        }
        "2"
    } else if d == 3 {
        proof {
            reveal_strlit("3");
            assert("3"@ =~= seq![digit_char(3)]);
        }
        "3"
    } else if d == 4 {
        proof {
            reveal_strlit("4");
            assert("4"@ =~= seq![digit_char(4)]);
        }
        "4"
    } else if d == 5 {
        proof {
            reveal_strlit("5");
            assert("5"@ =~= seq![digit_char(5)]);
        }
        "5"
    } else if d == 6 {
        proof {
            reveal_strlit("6");
            assert("6"@ =~= seq![digit_char(6)]);
        }
        "6"
    } else if d == 7 {
        proof {
            reveal_strlit("7");
            assert("7"@ =~= seq![digit_char(7)]);
        }
        "7"
    } else if d == 8 {
        proof {
            reveal_strlit("8");
            assert("8"@ =~= seq![digit_char(8)]);
        }
        "8"
    } else {
        proof {
            reveal_strlit("9");
            assert("9"@ =~= seq![digit_char(9)]);
        }
        "9"
    }
}

/// Decimal rendering of `n` as a fresh string.
pub fn u64_to_dec_string(n: u64) -> (s: String)
    ensures
        s@ == dec_str(n as nat),
    decreases n,
{
    if n < 10 {
        String::from_str(digit_literal(n))
    } else {
        let mut s = u64_to_dec_string(n / 10);
        s.append(digit_literal(n % 10));
        proof {
            assert(s@ =~= dec_str((n / 10) as nat).push(digit_char((n % 10) as int)));
        }
        s
    }
}

fn unit_literal(k: u32) -> (r: &'static str)
    requires
        k <= 5,
    ensures
        r@ == unit_chars(k as nat),
{
    if k == 0 {
        proof {
            reveal_strlit(" H/s");
            assert(" H/s"@ =~= unit_chars(0));
        }
        " H/s"
    } else if k == 1 {
        proof {
            reveal_strlit(" KH/s");
            assert(" KH/s"@ =~= unit_chars(1));
        }
        " KH/s"
    } else if k == 2 {
        proof {
            reveal_strlit(" MH/s");
            assert(" MH/s"@ =~= unit_chars(2));
        }
        " MH/s"
    } else if k == 3 {
        proof {
            reveal_strlit(" GH/s");
            assert(" GH/s"@ =~= unit_chars(3));
        }
        " GH/s"
    } else if k == 4 {
        proof {
            reveal_strlit(" TH/s");
            assert(" TH/s"@ =~= unit_chars(4));
        }
        " TH/s"
    } else {
        proof {
            reveal_strlit(" PH/s");
            assert(" PH/s"@ =~= unit_chars(5));
        }
        " PH/s"
    }
}

proof fn lemma_pow1000_values()
    ensures
        pow1000(1) == 1000,
        pow1000(2) == 1000000,
        pow1000(3) == 1000000000,
        pow1000(4) == 1000000000000,
        pow1000(5) == 1000000000000000,
        pow1000(6) == 1000000000000000000,
{
    assert(pow1000(0) == 1);
    assert(pow1000(1) == 1000);
    assert(pow1000(2) == 1000000);
    assert(pow1000(3) == 1000000000);
    assert(pow1000(4) == 1000000000000);
    assert(pow1000(5) == 1000000000000000);
    assert(pow1000(6) == 1000000000000000000);
}

/// Core renderer over fixed-point milli-H/s.
fn format_milli_wide(m: u128) -> (s: String)
    requires
        m <= 0xffff_ffff_ffff_ffff_u128 * 1000,
    ensures
        s@ == spec_format_hashrate_milli(m as nat),
{
    proof {
        lemma_pow1000_values();
    }
    if m == 0 {
        proof {
            reveal_strlit("0 H/s");
            assert("0 H/s"@ =~= seq!['0', ' ', 'H', '/', 's']);
        }
        return String::from_str("0 H/s");
    }
    let k: u32 = if m >= 1000000000000000000 {
        5
    } else if m >= 1000000000000000 {
        4
    } else if m >= 1000000000000 {
        3
    } else if m >= 1000000000 {
        2
    } else if m >= 1000000 {
        1
    } else {
        0
    };
    proof {
        assert(k as nat == unit_index(m as nat));
    }
    let div: u128 = if k == 5 {
        1000000000000000000
    } else if k == 4 {
        1000000000000000
    } else if k == 3 {
        1000000000000
    } else if k == 2 {
        1000000000
    } else if k == 1 {
        1000000
    } else {
        1000
    };
    proof {
        assert(div as nat == pow1000(k as nat + 1));
    }
    // past the chosen unit the value is below 1000, or the unit is
    // the largest and the value is small; either way the rounded
    // figures below fit comfortably
    proof {
        if k < 5 {
            assert(m < 1000 * div);
        }
    }
    if m >= 100 * div {
        let whole: u128 = (m + div / 2) / div;
        proof {
            assert(whole as nat == rounded_value(m as nat, div as nat, 1));
        }
        let mut s = u64_to_dec_string((whole / 1000 * 1000 + whole % 1000) as u64);
        s.append(unit_literal(k));
        proof {
            assert(whole / 1000 * 1000 + whole % 1000 == whole) by (nonlinear_arith);
            assert(s@ =~= spec_format_hashrate_milli(m as nat));
        }
        s
    } else if m >= 10 * div {
        let d128: u128 = (m * 10 + div / 2) / div;
        let d: u64 = (d128 / 1000 * 1000 + d128 % 1000) as u64;
        proof {
            assert(d128 / 1000 * 1000 + d128 % 1000 == d128) by (nonlinear_arith);
            assert(d as nat == rounded_value(m as nat, div as nat, 10));
            reveal_strlit(".");
            assert("."@ =~= seq!['.']);
        }
        let mut s = u64_to_dec_string(d / 10);
        s.append(".");
        s.append(digit_literal(d % 10));
        s.append(unit_literal(k));
        proof {
            assert(s@ =~= spec_format_hashrate_milli(m as nat));
        }
        s
    } else {
        let c128: u128 = (m * 100 + div / 2) / div;
        let c: u64 = (c128 / 1000 * 1000 + c128 % 1000) as u64;
        proof {
            assert(c128 / 1000 * 1000 + c128 % 1000 == c128) by (nonlinear_arith);
            assert(c as nat == rounded_value(m as nat, div as nat, 100));
            reveal_strlit(".");
            assert("."@ =~= seq!['.']);
        }
        let mut s = u64_to_dec_string(c / 100);
        s.append(".");
        s.append(digit_literal((c % 100) / 10));
        s.append(digit_literal(c % 10));
        s.append(unit_literal(k));
        proof {
            assert(s@ =~= spec_format_hashrate_milli(m as nat));
        }
        s
    }
}

/// Renders a whole number of hashes per second.
pub fn format_hashrate(h: u64) -> (s: String)
    ensures
        s@ == spec_format_hashrate_milli(h as nat * 1000),
{
    format_milli_wide(h as u128 * 1000)
}

/// Renders a fixed-point hashrate given in milli-H/s.
pub fn format_hashrate_milli(m: u64) -> (s: String)
    ensures
        s@ == spec_format_hashrate_milli(m as nat),
{
    format_milli_wide(m as u128)
}

} // verus!
