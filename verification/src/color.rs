//! Color strings: recognizing hex and rgb()/rgba() color values on the
//! clipboard and rendering a color back as a hex string. The HSL
//! conversion used for on-screen swatches is floating-point work and
//! lives with the rendering shell.

use vstd::prelude::*;
use vstd::string::*;

use crate::strutil::{
    has_prefix, rfind_char, split_commas, str_starts_with, trim_spaces, trim_spec,
};

verus! {

/// A parsed color value with an alpha channel.
#[derive(Clone, Copy, PartialEq, Eq, Structural, Debug)]
pub struct Color {
    /// Red component.
    pub r: u8,
    /// Green component.
    pub g: u8,
    /// Blue component.
    pub b: u8,
    /// Alpha component; 255 is opaque.
    pub a: u8,
}

/// The value of a hexadecimal digit character, if it is one.
pub open spec fn hex_val(c: char) -> Option<u8> {
    let v = c as int;
    if 48 <= v <= 57 {
        Some((v - 48) as u8)
    } else if 97 <= v <= 102 {
        Some((v - 97 + 10) as u8)
    } else if 65 <= v <= 70 {
        Some((v - 65 + 10) as u8)
    } else {
        None
    }
}

/// Executable form of `hex_val`.
fn hex_digit(c: char) -> (r: Option<u8>)
    ensures
        r == hex_val(c),
{
    let v = c as u32;
    if v >= 48 && v <= 57 {
        Some((v - 48) as u8)
    } else if v >= 97 && v <= 102 {
        Some((v - 97 + 10) as u8)
    } else if v >= 65 && v <= 70 {
        Some((v - 65 + 10) as u8)
    } else {
        None
    }
}

/// The byte named by two hexadecimal digit characters, if both are
/// digits.
pub open spec fn hex_byte(c1: char, c2: char) -> Option<u8> {
    match (hex_val(c1), hex_val(c2)) {
        (Some(h), Some(l)) => Some((h * 16 + l) as u8),
        _ => None,
    }
}

/// Executable form of `hex_byte`.
fn hex_byte_exec(c1: char, c2: char) -> (r: Option<u8>)
    ensures
        r == hex_byte(c1, c2),
{
    match (hex_digit(c1), hex_digit(c2)) {
        (Some(h), Some(l)) => Some(h * 16 + l),
        _ => None,
    }
}

/// The color named by the digits after a `#`: three digits name a color
/// with each digit doubled, six name the three components, eight add an
/// alpha component; anything else is no color.
pub open spec fn hex_color_spec(h: Seq<char>) -> Option<Color> {
    if h.len() == 3 {
        match (hex_val(h[0]), hex_val(h[1]), hex_val(h[2])) {
            (Some(r), Some(g), Some(b)) => Some(
                Color { r: (r * 17) as u8, g: (g * 17) as u8, b: (b * 17) as u8, a: 255 },
            ),
            _ => None,
        }
    } else if h.len() == 6 {
        match (hex_byte(h[0], h[1]), hex_byte(h[2], h[3]), hex_byte(h[4], h[5])) {
            (Some(r), Some(g), Some(b)) => Some(Color { r, g, b, a: 255 }),
            _ => None,
        }
    } else if h.len() == 8 {
        match (
            hex_byte(h[0], h[1]),
            hex_byte(h[2], h[3]),
            hex_byte(h[4], h[5]),
            hex_byte(h[6], h[7]),
        ) {
            (Some(r), Some(g), Some(b), Some(a)) => Some(Color { r, g, b, a }),
            _ => None,
        }
    } else {
        None
    }
}

/// A decimal digit character.
pub open spec fn is_digit(c: char) -> bool {
    48 <= c as int <= 57
}

/// Every character of `s` is a decimal digit.
pub open spec fn all_digits(s: Seq<char>) -> bool {
    forall|k: int| 0 <= k < s.len() ==> is_digit(#[trigger] s[k])
}

/// The numeric value of a sequence of decimal digit characters.
pub open spec fn dec_val(s: Seq<char>) -> nat
    decreases s.len(),
{
    if s.len() == 0 {
        0
    } else {
        dec_val(s.drop_last()) * 10 + (if is_digit(s[s.len() - 1]) {
            (s[s.len() - 1] as int - 48) as nat
        } else {
            0
        })
    }
}

/// What a byte-sized component string parses to: its value, when the
/// string is non-empty, all digits and at most 255.
pub open spec fn u8_dec_spec(s: Seq<char>) -> Option<u8> {
    if s.len() > 0 && all_digits(s) && dec_val(s) <= 255 {
        Some(dec_val(s) as u8)
    } else {
        None
    }
}

/// Parse a byte-sized decimal component.
fn parse_u8_dec(s: &str) -> (r: Option<u8>)
    ensures
        r == u8_dec_spec(s@),
{
    let n = s.unicode_len();
    if n == 0 {
        return None;
    }
    let mut acc: u32 = 0;
    let mut i: usize = 0;
    while i < n
        invariant
            n == s@.len(),
            i <= n,
            acc == vstd::math::min(300, dec_val(s@.take(i as int)) as int),
            all_digits(s@.take(i as int)),
        decreases n - i,
    {
        let c = s.get_char(i);
        let v = c as u32;
        if v < 48 || v > 57 {
            proof {
                assert(!is_digit(s@[i as int]));
                assert(!all_digits(s@));
            }
            return None;
        }
        let d = v - 48;
        acc = if acc >= 300 {
            300
        } else {
            let t = acc * 10 + d;
            if t > 300 {
                300
            } else {
                t
            }
        };
        proof {
            assert(s@.take(i as int + 1).drop_last() =~= s@.take(i as int));
            assert(s@.take(i as int + 1)[i as int] == s@[i as int]);
        }
        i = i + 1;
    }
    proof {
        assert(s@.take(n as int) =~= s@);
    }
    if acc <= 255 {
        Some(acc as u8)
    } else {
        None
    }
}

/// Ten to the `k`.
pub open spec fn pow10(k: nat) -> nat
    decreases k,
{
    if k == 0 {
        1
    } else {
        10 * pow10((k - 1) as nat)
    }
}

/// What an alpha component string parses to, scaled to a byte: the
/// string is a plain decimal number, digits with at most one point and
/// at least one digit; its value times 255, truncated, and capped at
/// 255. The fraction is read to nine digits.
pub open spec fn alpha_spec(s: Seq<char>) -> Option<u8> {
    match crate::strutil::find_char(s, '.', 0) {
        None => if s.len() > 0 && all_digits(s) {
            Some(vstd::math::min(255, dec_val(s) as int * 255) as u8)
        } else {
            None
        },
        Some(p) => {
            let ip = s.take(p);
            let fp = s.skip(p + 1);
            if all_digits(ip) && all_digits(fp) && ip.len() + fp.len() > 0 {
                let fk = vstd::math::min(9, fp.len() as int) as nat;
                let scaled = (dec_val(ip) * pow10(fk) + dec_val(fp.take(fk as int))) * 255
                    / pow10(fk);
                Some(vstd::math::min(255, scaled as int) as u8)
            } else {
                None
            }
        },
    }
}

/// The color named by the component list of an `rgb(`/`rgba(` form: the
/// text between the opening parenthesis and the last closing one, split
/// on commas; the first three parts are byte components, a fourth, when
/// present, is a fractional alpha; extra parts are ignored.
pub open spec fn rgb_color_spec(t: Seq<char>, start: int) -> Option<Color> {
    match rfind_char(t, ')') {
        None => None,
        Some(end) => if end < start {
            None
        } else {
            let parts = split_commas(t.subrange(start, end));
            if parts.len() < 3 {
                None
            } else {
                match (
                    u8_dec_spec(trim_spec(parts[0])),
                    u8_dec_spec(trim_spec(parts[1])),
                    u8_dec_spec(trim_spec(parts[2])),
                ) {
                    (Some(r), Some(g), Some(b)) => if parts.len() >= 4 {
                        match alpha_spec(trim_spec(parts[3])) {
                            Some(a) => Some(Color { r, g, b, a }),
                            None => None,
                        }
                    } else {
                        Some(Color { r, g, b, a: 255 })
                    },
                    _ => None,
                }
            }
        },
    }
}

/// What `parse_color` recognizes in a string, after trimming: a `#` hex
/// form, an `rgb(` form, or an `rgba(` form.
pub open spec fn parse_color_spec(raw: Seq<char>) -> Option<Color> {
    let t = trim_spec(raw);
    if has_prefix(t, "#"@) {
        hex_color_spec(t.skip(1))
    } else if has_prefix(t, "rgb("@) {
        rgb_color_spec(t, 4)
    } else if has_prefix(t, "rgba("@) {
        rgb_color_spec(t, 5)
    } else {
        None
    }
}

/// Try to parse a color string: `#RGB`, `#RRGGBB`, `#RRGGBBAA`,
/// `rgb(r, g, b)` or `rgba(r, g, b, a)`. Signs and exponent forms are
/// not recognized in components.
pub fn parse_color(text: &str) -> (r: Option<Color>)
    ensures
        r == parse_color_spec(text@),
{
    let t = trim_spaces(text);
    proof {
        reveal_strlit("#");
        reveal_strlit("rgb(");
        reveal_strlit("rgba(");
    }
    if str_starts_with(t, "#") {
        let n = t.unicode_len();
        proof {
            assert(t@.subrange(0, 1)[0] == t@[0]);
        }
        let h = t.substring_char(1, n);
        proof {
            assert(h@ =~= t@.skip(1));
        }
        parse_hex_color(h)
    } else if str_starts_with(t, "rgb(") {
        parse_rgb_color(t, 4)
    } else if str_starts_with(t, "rgba(") {
        parse_rgb_color(t, 5)
    } else {
        None
    }
}

/// Parse the digits after a `#`.
fn parse_hex_color(h: &str) -> (r: Option<Color>)
    ensures
        r == hex_color_spec(h@),
{
    let n = h.unicode_len();
    if n == 3 {
        match (hex_digit(h.get_char(0)), hex_digit(h.get_char(1)), hex_digit(h.get_char(2))) {
            (Some(r), Some(g), Some(b)) => Some(
                Color { r: r * 17, g: g * 17, b: b * 17, a: 255 },
            ),
            _ => None,
        }
    } else if n == 6 {
        match (
            hex_byte_exec(h.get_char(0), h.get_char(1)),
            hex_byte_exec(h.get_char(2), h.get_char(3)),
            hex_byte_exec(h.get_char(4), h.get_char(5)),
        ) {
            (Some(r), Some(g), Some(b)) => Some(Color { r, g, b, a: 255 }),
            _ => None,
        }
    } else if n == 8 {
        match (
            hex_byte_exec(h.get_char(0), h.get_char(1)),
            hex_byte_exec(h.get_char(2), h.get_char(3)),
            hex_byte_exec(h.get_char(4), h.get_char(5)),
            hex_byte_exec(h.get_char(6), h.get_char(7)),
        ) {
            (Some(r), Some(g), Some(b), Some(a)) => Some(Color { r, g, b, a }),
            _ => None,
        }
    } else {
        None
    }
}

/// Parse the component list of an `rgb(`/`rgba(` form, `start` pointing
/// just past the opening parenthesis.
fn parse_rgb_color(t: &str, start: usize) -> (r: Option<Color>)
    requires
        start as int <= t@.len(),
    ensures
        r == rgb_color_spec(t@, start as int),
{
    let n = t.unicode_len();
    proof {
        crate::strutil::lemma_rfind_char_some(t@, ')');
    }
    let end = match crate::strutil::rfind_char_exec(t, ')') {
        Some(e) => e,
        None => {
            return None;
        },
    };
    if end < start {
        return None;
    }
    let values = t.substring_char(start, end);
    let parts = crate::strutil::split_commas_exec(values);
    if parts.len() < 3 {
        return None;
    }
    proof {
        assert(parts.deep_view()[0] == parts@[0]@);
        assert(parts.deep_view()[1] == parts@[1]@);
        assert(parts.deep_view()[2] == parts@[2]@);
    }
    let pr = parse_u8_dec(trim_spaces(parts[0].as_str()));
    let pg = parse_u8_dec(trim_spaces(parts[1].as_str()));
    let pb = parse_u8_dec(trim_spaces(parts[2].as_str()));
    match (pr, pg, pb) {
        (Some(r), Some(g), Some(b)) => {
            if parts.len() >= 4 {
                proof {
                    assert(parts.deep_view()[3] == parts@[3]@);
                }
                match parse_alpha(trim_spaces(parts[3].as_str())) {
                    Some(a) => Some(Color { r, g, b, a }),
                    None => None,
                }
            } else {
                Some(Color { r, g, b, a: 255 })
            }
        },
        _ => None,
    }
}

/// Parse a fractional alpha component and scale it to a byte.
fn parse_alpha(s: &str) -> (r: Option<u8>)
    ensures
        r == alpha_spec(s@),
{
    let n = s.unicode_len();
    match crate::strutil::find_char_from(s, '.', 0) {
        None => {
            match parse_int_capped(s, 0, n) {
                Some(v) => {
                    proof {
                        assert(s@.subrange(0, n as int) =~= s@);
                        lemma_capped_scale(dec_val(s@), v as int);
                    }
                    if v >= 2 {
                        Some(255)
                    } else {
                        Some(min_u32(v * 255, 255) as u8)
                    }
                },
                None => {
                    proof {
                        assert(s@.subrange(0, n as int) =~= s@);
                    }
                    None
                },
            }
        },
        Some(p) => {
            proof {
                crate::strutil::lemma_find_char_some(s@, '.', 0);
            }
            let ip_ok = check_digits(s, 0, p);
            let fp_ok = check_digits(s, p + 1, n);
            proof {
                assert(s@.subrange(0, p as int) =~= s@.take(p as int));
                assert(s@.subrange(p as int + 1, n as int) =~= s@.skip(p as int + 1));
            }
            if !ip_ok || !fp_ok || (p == 0 && p + 1 == n) {
                return None;
            }
            let iv: u32 = if p == 0 {
                0
            } else {
                match parse_int_capped(s, 0, p) {
                    Some(v) => v,
                    None => {
                        return None;
                    },
                }
            };
            proof {
                lemma_capped_scale_frac(dec_val(s@.take(p as int)), iv as int);
            }
            if iv >= 2 {
                proof {
                    let fp = s@.skip(p as int + 1);
                    let fk9 = vstd::math::min(9, fp.len() as int) as nat;
                    lemma_alpha_saturates(
                        dec_val(s@.take(p as int)),
                        dec_val(fp.take(fk9 as int)),
                        fk9,
                    );
                }
                return Some(255);
            }
            let fk: usize = if n - (p + 1) > 9 {
                9
            } else {
                n - (p + 1)
            };
            let mut fv: u64 = 0;
            let mut j: usize = 0;
            while j < fk
                invariant
                    n == s@.len(),
                    p + 1 + fk <= n,
                    fk <= 9,
                    j <= fk,
                    forall|k: int| 0 <= k < n - p - 1 ==> is_digit(#[trigger] s@.skip(p as int + 1)[k]),
                    fv == dec_val(s@.skip(p as int + 1).take(j as int)),
                    fv < pow10(j as nat),
                    fv < 1000000000,
                decreases fk - j,
            {
                let c = s.get_char(p + 1 + j);
                proof {
                    assert(s@.skip(p as int + 1)[j as int] == s@[p as int + 1 + j]);
                    assert(s@.skip(p as int + 1).take(j as int + 1).drop_last() =~= s@.skip(
                        p as int + 1,
                    ).take(j as int));
                    assert(s@.skip(p as int + 1).take(j as int + 1)[j as int] == s@.skip(
                        p as int + 1,
                    )[j as int]);
                    lemma_pow10_step(j as nat);
                    lemma_pow10_cap((j + 1) as nat);
                }
                let d = (c as u32) - 48;
                fv = fv * 10 + d as u64;
                j = j + 1;
            }
            let p10 = pow10_exec(fk);
            let base: u64 = if iv == 1 {
                p10
            } else {
                0
            };
            proof {
                if iv == 1 {
                    assert(iv as int * p10 as int == p10 as int) by (nonlinear_arith)
                        requires
                            iv == 1,
                    ;
                } else {
                    assert(iv as int * p10 as int == 0) by (nonlinear_arith)
                        requires
                            iv == 0,
                    ;
                }
            }
            let scaled = (base + fv) * 255 / p10;
            let a = if scaled > 255 {
                255u64
            } else {
                scaled
            };
            proof {
                let fp = s@.skip(p as int + 1);
                assert(fp.take(fk as int) =~= s@.skip(p as int + 1).take(fk as int));
                assert(fk as int == vstd::math::min(9, fp.len() as int));
            }
            Some(a as u8)
        },
    }
}

/// The smaller of two values.
fn min_u32(a: u32, b: u32) -> (r: u32)
    ensures
        r == vstd::math::min(a as int, b as int),
{
    if a < b {
        a
    } else {
        b
    }
}

/// A capped accumulator still tells whether the true value reached two:
/// the scaled-by-255 alpha saturates either way.
proof fn lemma_capped_scale(v: nat, capped: int)
    requires
        capped == vstd::math::min(300, v as int),
    ensures
        capped >= 2 ==> vstd::math::min(255, v as int * 255) == 255,
        capped < 2 ==> v == capped && vstd::math::min(255, v as int * 255) == vstd::math::min(
            255,
            capped * 255,
        ),
{
}

/// The same saturation argument for the integer part of a fractional
/// alpha.
proof fn lemma_capped_scale_frac(v: nat, capped: int)
    requires
        capped == vstd::math::min(300, v as int),
    ensures
        capped >= 2 ==> v >= 2,
        capped < 2 ==> v == capped,
{
}

/// An alpha whose integer part is at least two scales past the cap, so
/// the result saturates at 255.
proof fn lemma_alpha_saturates(iv: nat, fv: nat, fk: nat)
    requires
        iv >= 2,
    ensures
        (iv * pow10(fk) + fv) * 255 / pow10(fk) >= 255,
{
    let p = pow10(fk);
    lemma_pow10_step(fk);
    vstd::arithmetic::mul::lemma_mul_inequality(2, iv as int, p as int);
    assert((iv * p + fv) * 255 >= (iv * p) * 255) by {
        vstd::arithmetic::mul::lemma_mul_inequality(
            (iv * p) as int,
            (iv * p + fv) as int,
            255,
        );
        vstd::arithmetic::mul::lemma_mul_is_commutative((iv * p) as int, 255);
        vstd::arithmetic::mul::lemma_mul_is_commutative((iv * p + fv) as int, 255);
    }
    assert((iv * p) * 255 >= 255 * p) by {
        vstd::arithmetic::mul::lemma_mul_is_commutative(iv as int, p as int);
        vstd::arithmetic::mul::lemma_mul_is_associative(p as int, iv as int, 255);
        vstd::arithmetic::mul::lemma_mul_inequality(1, (iv * 255) as int, p as int);
        vstd::arithmetic::mul::lemma_mul_is_commutative(p as int, (iv * 255) as int);
    }
    vstd::arithmetic::div_mod::lemma_div_is_ordered(
        255 * p as int,
        ((iv * p + fv) * 255) as int,
        p as int,
    );
    vstd::arithmetic::div_mod::lemma_div_multiples_vanish(255, p as int);
}

/// One more decimal digit multiplies the bound by ten.
proof fn lemma_pow10_step(k: nat)
    ensures
        pow10(k + 1) == 10 * pow10(k),
        pow10(k) >= 1,
    decreases k,
{
    if k > 0 {
        lemma_pow10_step((k - 1) as nat);
    }
}

/// Ten to the `k`, for `k` at most nine.
fn pow10_exec(k: usize) -> (r: u64)
    requires
        k <= 9,
    ensures
        r == pow10(k as nat),
        1 <= r <= 1000000000,
{
    let mut r: u64 = 1;
    let mut j: usize = 0;
    while j < k
        invariant
            j <= k,
            k <= 9,
            r == pow10(j as nat),
            r <= 1000000000,
        decreases k - j,
    {
        proof {
            lemma_pow10_step(j as nat);
            lemma_pow10_cap((j + 1) as nat);
        }
        r = r * 10;
        j = j + 1;
    }
    proof {
        lemma_pow10_step(k as nat);
    }
    r
}

/// Powers of ten grow with the exponent.
proof fn lemma_pow10_mono(a: nat, b: nat)
    requires
        a <= b,
    ensures
        pow10(a) <= pow10(b),
    decreases b,
{
    if a < b {
        lemma_pow10_mono(a, (b - 1) as nat);
        lemma_pow10_step((b - 1) as nat);
    }
}

/// Ten to the ninth, spelled out.
proof fn lemma_pow10_nine()
    ensures
        pow10(9) == 1000000000,
{
    assert(pow10(0) == 1);
    assert(pow10(1) == 10);
    assert(pow10(2) == 100);
    assert(pow10(3) == 1000);
    assert(pow10(4) == 10000);
    assert(pow10(5) == 100000);
    assert(pow10(6) == 1000000);
    assert(pow10(7) == 10000000);
    assert(pow10(8) == 100000000);
    assert(pow10(9) == 1000000000);
}

/// Ten to the `k` is at most ten to the ninth for `k` up to nine.
proof fn lemma_pow10_cap(k: nat)
    requires
        k <= 9,
    ensures
        pow10(k) <= 1000000000,
{
    lemma_pow10_mono(k, 9);
    lemma_pow10_nine();
}

/// Are the characters of `s` in `[from, to)` all decimal digits?
fn check_digits(s: &str, from: usize, to: usize) -> (r: bool)
    requires
        from <= to <= s@.len(),
    ensures
        r == all_digits(s@.subrange(from as int, to as int)),
{
    let mut i = from;
    while i < to
        invariant
            from <= i <= to,
            to <= s@.len(),
            forall|k: int| from <= k < i ==> is_digit(#[trigger] s@[k]),
        decreases to - i,
    {
        let v = s.get_char(i) as u32;
        if v < 48 || v > 57 {
            proof {
                assert(s@.subrange(from as int, to as int)[i - from] == s@[i as int]);
            }
            return false;
        }
        i = i + 1;
    }
    proof {
        assert forall|k: int| 0 <= k < to - from implies is_digit(
            #[trigger] s@.subrange(from as int, to as int)[k],
        ) by {
            assert(s@.subrange(from as int, to as int)[k] == s@[k + from]);
        }
    }
    true
}

/// Parse the digits of `s` in `[from, to)` as an integer capped at 300;
/// `None` when the range is empty or holds a non-digit.
fn parse_int_capped(s: &str, from: usize, to: usize) -> (r: Option<u32>)
    requires
        from <= to <= s@.len(),
    ensures
        r is Some <==> (to > from && all_digits(s@.subrange(from as int, to as int))),
        r matches Some(v) ==> v == vstd::math::min(
            300,
            dec_val(s@.subrange(from as int, to as int)) as int,
        ),
{
    if to == from {
        return None;
    }
    let mut acc: u32 = 0;
    let mut i = from;
    while i < to
        invariant
            from <= i <= to,
            to <= s@.len(),
            acc == vstd::math::min(300, dec_val(s@.subrange(from as int, i as int)) as int),
            all_digits(s@.subrange(from as int, i as int)),
        decreases to - i,
    {
        let c = s.get_char(i);
        let v = c as u32;
        if v < 48 || v > 57 {
            proof {
                assert(s@.subrange(from as int, to as int)[i - from] == s@[i as int]);
            }
            return None;
        }
        let d = v - 48;
        acc = if acc >= 300 {
            300
        } else {
            let t = acc * 10 + d;
            if t > 300 {
                300
            } else {
                t
            }
        };
        proof {
            assert(s@.subrange(from as int, i as int + 1).drop_last() =~= s@.subrange(
                from as int,
                i as int,
            ));
            assert(s@.subrange(from as int, i as int + 1)[i - from] == s@[i as int]);
        }
        i = i + 1;
    }
    Some(acc)
}

/// The hexadecimal digit character for a value below sixteen, upper
/// case.
pub open spec fn hex_char(d: nat) -> char {
    if d < 10 {
        crate::strutil::digit_char(d)
    } else if d == 10 {
        'A'
    } else if d == 11 {
        'B'
    } else if d == 12 {
        'C'
    } else if d == 13 {
        'D'
    } else if d == 14 {
        'E'
    } else {
        'F'
    }
}

/// The two hexadecimal digit characters of a byte, upper case.
pub open spec fn byte_hex(b: nat) -> Seq<char> {
    seq![hex_char(b / 16), hex_char(b % 16)]
}

/// The hex string of a color: `#RRGGBB` when opaque, `#RRGGBBAA`
/// otherwise.
pub open spec fn to_hex_spec(c: Color) -> Seq<char> {
    if c.a == 255 {
        "#"@ + byte_hex(c.r as nat) + byte_hex(c.g as nat) + byte_hex(c.b as nat)
    } else {
        "#"@ + byte_hex(c.r as nat) + byte_hex(c.g as nat) + byte_hex(c.b as nat) + byte_hex(
            c.a as nat,
        )
    }
}

/// One upper-case hexadecimal digit as a string slice.
fn hex_char_str(d: u8) -> (r: &'static str)
    requires
        d < 16,
    ensures
        r@ == seq![hex_char(d as nat)],
{
    if d < 10 {
        crate::strutil::digit_str(d as u64)
    } else if d == 10 {
        proof {
            reveal_strlit("A");
            assert("A"@ =~= seq![hex_char(10)]);
        }
        "A"
    } else if d == 11 {
        proof {
            reveal_strlit("B");
            assert("B"@ =~= seq![hex_char(11)]);
        }
        "B"
    } else if d == 12 {
        proof {
            reveal_strlit("C");
            assert("C"@ =~= seq![hex_char(12)]);
        }
        "C"
    } else if d == 13 {
        proof {
            reveal_strlit("D");
            assert("D"@ =~= seq![hex_char(13)]);
        }
        "D"
    } else if d == 14 {
        proof {
            reveal_strlit("E");
            assert("E"@ =~= seq![hex_char(14)]);
        }
        "E"
    } else {
        proof {
            reveal_strlit("F");
            assert("F"@ =~= seq![hex_char(15)]);
        }
        "F"
    }
}

impl Color {
    /// Render this color as an upper-case hex string, with the alpha
    /// component only when it is not fully opaque.
    pub fn to_hex(&self) -> (r: String)
        ensures
            r@ == to_hex_spec(*self),
    {
        proof {
            reveal_strlit("#");
        }
        let mut s = String::from_str("#");
        append_byte_hex(&mut s, self.r);
        append_byte_hex(&mut s, self.g);
        append_byte_hex(&mut s, self.b);
        if self.a != 255 {
            append_byte_hex(&mut s, self.a);
            proof {
                assert(s@ =~= to_hex_spec(*self));
            }
        } else {
            proof {
                assert(s@ =~= to_hex_spec(*self));
            }
        }
        s
    }
}

/// Append the two hex digits of a byte.
fn append_byte_hex(s: &mut String, b: u8)
    ensures
        final(s)@ == old(s)@ + byte_hex(b as nat),
{
    s.append(hex_char_str(b / 16));
    s.append(hex_char_str(b % 16));
    proof {
        assert(s@ =~= old(s)@ + byte_hex(b as nat));
    }
}

} // verus!
