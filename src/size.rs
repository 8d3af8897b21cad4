//! Conversion of byte counts into fixed-width, human-readable text.

use vstd::prelude::*;

verus! {

/// Unit system used to render sizes.
#[derive(Clone, Copy, PartialEq, Eq, Structural, Debug)]
pub enum Format {
    /// Powers of 1024: B, KiB, MiB, ...
    Iec,
    /// Powers of 1000: B, KB, MB, ...
    Si,
}

/// Index of the largest unit on either ladder.
pub const TOP_UNIT: usize = 6;

/// Divisor between two neighbouring units.
pub open spec fn divisor(f: Format) -> nat {
    match f {
        Format::Iec => 1024,
        Format::Si => 1000,
    }
}

/// Width of the numeric part (`1023.00` or `999.00`).
pub open spec fn number_width(f: Format) -> nat {
    match f {
        Format::Iec => 7,
        Format::Si => 6,
    }
}

/// Total width of a rendered size.
pub open spec fn text_width(f: Format) -> nat {
    match f {
        Format::Iec => 11,
        Format::Si => 9,
    }
}

/// `d` raised to the power `k`.
pub open spec fn scale_of(d: nat, k: nat) -> nat
    decreases k,
{
    if k == 0 {
        1
    } else {
        d * scale_of(d, (k - 1) as nat)
    }
}

/// Starting from unit `k`, move up while the value still reaches the divisor
/// and a larger unit exists.
pub open spec fn unit_from(d: nat, b: nat, k: nat) -> nat
    decreases TOP_UNIT - k,
{
    if k < TOP_UNIT && b >= scale_of(d, k + 1) {
        unit_from(d, b, k + 1)
    } else {
        k
    }
}

/// Unit index at which `b` bytes are shown.
pub open spec fn unit_index(f: Format, b: nat) -> nat {
    unit_from(divisor(f), b, 0)
}

/// `n / m` rounded to the nearest integer, ties to the even neighbour.
pub open spec fn round_half_even(n: nat, m: nat) -> nat
    recommends
        m > 0,
{
    let q = n / m;
    let r = n % m;
    if 2 * r > m || (2 * r == m && q % 2 == 1) {
        q + 1
    } else {
        q
    }
}

/// The shown value in hundredths of its unit.
pub open spec fn hundredths(f: Format, b: nat) -> nat {
    round_half_even(b * 100, scale_of(divisor(f), unit_index(f, b)))
}

pub open spec fn digit_char(d: nat) -> char {
    if d == 0 {
        '0'
    } else if d == 1 {
        '1'
    } else if d == 2 {
        '2'
    } else if d == 3 {
        '3'
    } else if d == 4 {
        '4'
    } else if d == 5 {
        '5'
    } else if d == 6 {
        '6'
    } else if d == 7 {
        '7'
    } else if d == 8 {
        '8'
    } else {
        '9'
    }
}

/// Decimal digits of `n`, without leading zeros.
pub open spec fn digits(n: nat) -> Seq<char>
    decreases n,
{
    if n < 10 {
        seq![digit_char(n)]
    } else {
        digits(n / 10).push(digit_char(n % 10))
    }
}

/// `h` hundredths written with exactly two fraction digits.
pub open spec fn fixed_two(h: nat) -> Seq<char> {
    digits(h / 100) + seq!['.', digit_char((h % 100) / 10), digit_char(h % 10)]
}

/// `n` spaces.
pub open spec fn spaces(n: nat) -> Seq<char> {
    Seq::new(n, |i: int| ' ')
}

/// `s` right-aligned in a field of width `w`.
pub open spec fn pad_left(s: Seq<char>, w: nat) -> Seq<char> {
    if s.len() < w {
        spaces((w - s.len()) as nat) + s
    } else {
        s
    }
}

/// Label of unit `k`, padded to the ladder's label width.
pub open spec fn unit_label(f: Format, k: nat) -> Seq<char> {
    match f {
        Format::Iec => if k == 0 {
            "  B"@
        } else if k == 1 {
            "KiB"@
        } else if k == 2 {
            "MiB"@
        } else if k == 3 {
            "GiB"@
        } else if k == 4 {
            "TiB"@
        } else if k == 5 {
            "PiB"@
        } else {
            "EiB"@
        },
        Format::Si => if k == 0 {
            " B"@
        } else if k == 1 {
            "KB"@
        } else if k == 2 {
            "MB"@
        } else if k == 3 {
            "GB"@
        } else if k == 4 {
            "TB"@
        } else if k == 5 {
            "PB"@
        } else {
            "EB"@
        },
    }
}

/// The text shown for `b` bytes.
pub open spec fn size_text(f: Format, b: nat) -> Seq<char> {
    pad_left(fixed_two(hundredths(f, b)), number_width(f)) + " "@ + unit_label(f, unit_index(f, b))
}

fn divisor_of(f: Format) -> (r: u64)
    ensures
        r as nat == divisor(f),
{
    match f {
        Format::Iec => 1024,
        Format::Si => 1000,
    }
}

fn unit_str(f: Format, k: usize) -> (r: &'static str)
    ensures
        r@ == unit_label(f, k as nat),
{
    match f {
        Format::Iec => if k == 0 {
            "  B"
        } else if k == 1 {
            "KiB"
        } else if k == 2 {
            "MiB"
        } else if k == 3 {
            "GiB"
        } else if k == 4 {
            "TiB"
        } else if k == 5 {
            "PiB"
        } else {
            "EiB"
        },
        Format::Si => if k == 0 {
            " B"
        } else if k == 1 {
            "KB"
        } else if k == 2 {
            "MB"
        } else if k == 3 {
            "GB"
        } else if k == 4 {
            "TB"
        } else if k == 5 {
            "PB"
        } else {
            "EB"
        },
    }
}

fn digit_str(d: u128) -> (r: &'static str)
    requires
        d < 10,
    ensures
        r@ == seq![digit_char(d as nat)],
{
    proof {
        reveal_strlit("0");
        reveal_strlit("1");
        reveal_strlit("2");
        reveal_strlit("3");
        reveal_strlit("4");
        reveal_strlit("5");
        reveal_strlit("6");
        reveal_strlit("7");
        reveal_strlit("8");
        reveal_strlit("9");
    }
    let r = if d == 0 {
        "0"
    } else if d == 1 {
        "1"
    } else if d == 2 {
        "2"
    } else if d == 3 {
        "3"
    } else if d == 4 {
        "4"
    } else if d == 5 {
        "5"
    } else if d == 6 {
        "6"
    } else if d == 7 {
        "7"
    } else if d == 8 {
        "8"
    } else {
        "9"
    };
    assert(r@ =~= seq![digit_char(d as nat)]);
    r
}

/// Decimal text of `n`.
pub fn decimal_text(n: u128) -> (r: String)
    ensures
        r@ == digits(n as nat),
    decreases n,
{
    if n < 10 {
        String::from_str(digit_str(n))
    } else {
        let mut s = decimal_text(n / 10);
        s.append(digit_str(n % 10));
        s
    }
}

/// Repeated division moves the unit up one step at a time, never past the top.
proof fn lemma_unit_from(d: nat, b: nat, k: nat)
    requires
        k <= TOP_UNIT,
    ensures
        k <= unit_from(d, b, k) <= TOP_UNIT,
        unit_from(d, b, k) < TOP_UNIT ==> b < scale_of(d, unit_from(d, b, k) + 1),
    decreases TOP_UNIT - k,
{
    if k < TOP_UNIT && b >= scale_of(d, k + 1) {
        lemma_unit_from(d, b, k + 1);
    }
}

/// Rounding a quotient below `c` gives at most `c`.
proof fn lemma_round_bound(n: nat, m: nat, c: nat)
    requires
        m > 0,
        n < c * m,
    ensures
        round_half_even(n, m) <= c,
{
    let q = n / m;
    let r = n % m;
    vstd::arithmetic::div_mod::lemma_fundamental_div_mod(n as int, m as int);
    assert(q < c) by (nonlinear_arith)
        requires
            n == m * q + r,
            0 <= r,
            n < c * m,
            m > 0,
    ;
}

proof fn lemma_digits_len(n: nat)
    requires
        n < 10000,
    ensures
        digits(n).len() <= 4,
        n < 1000 ==> digits(n).len() <= 3,
{
    reveal_with_fuel(digits, 5);
}

/// For every byte count the rendered size has the unit system's fixed width;
/// in SI units this holds while the rounded value stays below 1000.00, and
/// only a value that rounds up to 1000.00 of a unit is one character wider.
pub proof fn lemma_size_text_width(f: Format, b: u64)
    requires
        f == Format::Iec || hundredths(f, b as nat) < 100000,
    ensures
        size_text(f, b as nat).len() == text_width(f),
{
    let d = divisor(f);
    let k = unit_index(f, b as nat);
    let sc = scale_of(d, k);
    let h = hundredths(f, b as nat);
    lemma_unit_from(d, b as nat, 0);
    reveal_with_fuel(scale_of, 7);
    assert(sc > 0) by {
        if k == 0 {
        } else if k == 1 {
        } else if k == 2 {
        } else if k == 3 {
        } else if k == 4 {
        } else if k == 5 {
        } else {
        }
    }
    if f == Format::Iec {
        assert(b < 1024 * sc) by {
            if k == 6 {
                assert(sc == 1152921504606846976);
            }
        }
        assert((b as nat) * 100 < 102400 * sc) by (nonlinear_arith)
            requires
                b < 1024 * sc,
        ;
        lemma_round_bound((b as nat) * 100, sc, 102400);
        lemma_digits_len(h / 100);
    } else {
        lemma_digits_len(h / 100);
    }
    reveal_strlit("  B");
    reveal_strlit("KiB");
    reveal_strlit("MiB");
    reveal_strlit("GiB");
    reveal_strlit("TiB");
    reveal_strlit("PiB");
    reveal_strlit("EiB");
    reveal_strlit(" B");
    reveal_strlit("KB");
    reveal_strlit("MB");
    reveal_strlit("GB");
    reveal_strlit("TB");
    reveal_strlit("PB");
    reveal_strlit("EB");
    reveal_strlit(" ");
}

/// Converts `bytes` into a right-aligned value with two fraction digits,
/// followed by a space and the unit label.
pub fn get_human_readable_size_as_string(format: Format, bytes: u64) -> (r: String)
    ensures
        r@ == size_text(format, bytes as nat),
{
    let d = divisor_of(format);
    let mut k: usize = 0;
    let mut scale: u64 = 1;
    while k < TOP_UNIT && bytes / scale >= d
        invariant
            d == divisor(format),
            k <= TOP_UNIT,
            scale as nat == scale_of(d as nat, k as nat),
            scale > 0,
            unit_from(d as nat, bytes as nat, k as nat) == unit_index(format, bytes as nat),
        decreases TOP_UNIT - k,
    {
        let ghost q = bytes / scale;
        proof {
            vstd::arithmetic::div_mod::lemma_fundamental_div_mod(bytes as int, scale as int);
            assert(scale * d <= bytes) by (nonlinear_arith)
                requires
                    bytes == scale * q + bytes % scale,
                    bytes % scale >= 0,
                    q >= d,
                    scale > 0,
            ;
        }
        scale = scale * d;
        k = k + 1;
    }
    proof {
        if k < TOP_UNIT {
            vstd::arithmetic::div_mod::lemma_fundamental_div_mod(bytes as int, scale as int);
            let q = bytes / scale;
            assert(bytes < scale * d) by (nonlinear_arith)
                requires
                    bytes == scale * q + bytes % scale,
                    bytes % scale < scale,
                    q < d,
                    q >= 0,
            ;
        }
    }
    assert(k as nat == unit_index(format, bytes as nat));
    let n: u128 = (bytes as u128) * 100;
    let m: u128 = scale as u128;
    let q: u128 = n / m;
    let rem: u128 = n % m;
    let h: u128 = if 2 * rem > m || (2 * rem == m && q % 2 == 1) {
        q + 1
    } else {
        q
    };
    assert(h as nat == hundredths(format, bytes as nat));
    let mut num = decimal_text(h / 100);
    num.append(".");
    num.append(digit_str((h % 100) / 10));
    num.append(digit_str(h % 10));
    proof {
        reveal_strlit(".");
    }
    assert(num@ =~= fixed_two(h as nat));
    let width: usize = match format {
        Format::Iec => 7,
        Format::Si => 6,
    };
    let len = num.as_str().unicode_len();
    let mut out = String::new();
    if len < width {
        let fill = width - len;
        let mut i: usize = 0;
        while i < fill
            invariant
                i <= fill,
                out@ =~= spaces(i as nat),
            decreases fill - i,
        {
            proof {
                reveal_strlit(" ");
            }
            out.append(" ");
            i = i + 1;
        }
    }
    out.append(num.as_str());
    assert(out@ =~= pad_left(fixed_two(h as nat), number_width(format)));
    out.append(" ");
    out.append(unit_str(format, k));
    out
}

} // verus!
