//! JSON codec for the gateway's two message shapes.
//!
//! The request body is a JSON object that must carry a `"prompt"` member
//! whose value is a string; other members are allowed and skipped. The
//! response body is the object `{"response": <text>}`. Both directions work
//! on UTF-8 bytes: the parser decodes string escapes to bytes, the encoder
//! escapes the bytes of the generated text.

use vstd::prelude::*;

verus! {

/// First index at or after `i` that does not hold JSON whitespace.
pub open spec fn spec_skip_ws(s: Seq<u8>, i: int) -> int
    decreases s.len() - i,
{
    if 0 <= i < s.len() && crate::is_json_ws(s[i]) {
        spec_skip_ws(s, i + 1)
    } else {
        i
    }
}

fn skip_ws(s: &Vec<u8>, i: usize) -> (r: usize)
    requires
        i <= s.len(),
    ensures
        r == spec_skip_ws(s@, i as int),
        i <= r <= s.len(),
{
    let mut j: usize = i;
    while j < s.len() && (s[j] == 0x20 || s[j] == 0x09 || s[j] == 0x0a || s[j] == 0x0d)
        invariant
            i <= j <= s.len(),
            spec_skip_ws(s@, i as int) == spec_skip_ws(s@, j as int),
        decreases s.len() - j,
    {
        j = j + 1;
    }
    j
}

/// Value of an ASCII hex digit, or `None` for any other byte.
pub open spec fn spec_hex_val(b: u8) -> Option<int> {
    if 0x30 <= b <= 0x39 {
        Some((b - 0x30) as int)
    } else if 0x41 <= b <= 0x46 {
        Some((b - 0x41 + 10) as int)
    } else if 0x61 <= b <= 0x66 {
        Some((b - 0x61 + 10) as int)
    } else {
        None
    }
}

/// Four hex digits at `i` read as one number.
pub open spec fn spec_hex4(s: Seq<u8>, i: int) -> Option<int> {
    if 0 <= i && i + 4 <= s.len() {
        match (spec_hex_val(s[i]), spec_hex_val(s[i + 1]), spec_hex_val(s[i + 2]), spec_hex_val(
            s[i + 3],
        )) {
            (Some(a), Some(b), Some(c), Some(d)) => Some(a * 4096 + b * 256 + c * 16 + d),
            _ => None,
        }
    } else {
        None
    }
}

/// The UTF-8 bytes of the code point `cp`.
pub open spec fn spec_utf8_enc(cp: int) -> Seq<u8>
    recommends
        0 <= cp < 0x110000,
{
    if cp < 0x80 {
        seq![cp as u8]
    } else if cp < 0x800 {
        seq![(0xC0 + cp / 64) as u8, (0x80 + cp % 64) as u8]
    } else if cp < 0x10000 {
        seq![(0xE0 + cp / 4096) as u8, (0x80 + (cp / 64) % 64) as u8, (0x80 + cp % 64) as u8]
    } else {
        seq![
            (0xF0 + cp / 262144) as u8,
            (0x80 + (cp / 4096) % 64) as u8,
            (0x80 + (cp / 64) % 64) as u8,
            (0x80 + cp % 64) as u8,
        ]
    }
}

/// Decodes the escape that starts right after a backslash at `i`: one of the
/// nine JSON escapes, where `\uXXXX` may be a surrogate pair. Yields the
/// decoded UTF-8 bytes and the index after the escape.
pub open spec fn spec_parse_escape(s: Seq<u8>, i: int) -> Option<(Seq<u8>, int)> {
    if !(0 <= i < s.len()) {
        None
    } else {
        let b = s[i];
        if b == 0x22 {
            Some((seq![0x22u8], i + 1))
        } else if b == 0x5C {
            Some((seq![0x5Cu8], i + 1))
        } else if b == 0x2F {
            Some((seq![0x2Fu8], i + 1))
        } else if b == 0x62 {
            Some((seq![0x08u8], i + 1))
        } else if b == 0x66 {
            Some((seq![0x0Cu8], i + 1))
        } else if b == 0x6E {
            Some((seq![0x0Au8], i + 1))
        } else if b == 0x72 {
            Some((seq![0x0Du8], i + 1))
        } else if b == 0x74 {
            Some((seq![0x09u8], i + 1))
        } else if b == 0x75 {
            match spec_hex4(s, i + 1) {
                None => None,
                Some(cp) => {
                    if 0xD800 <= cp < 0xDC00 {
                        if i + 11 <= s.len() && s[i + 5] == 0x5C && s[i + 6] == 0x75 {
                            match spec_hex4(s, i + 7) {
                                None => None,
                                Some(lo) => if 0xDC00 <= lo < 0xE000 {
                                    Some(
                                        (
                                            spec_utf8_enc(
                                                0x10000 + (cp - 0xD800) * 1024 + (lo - 0xDC00),
                                            ),
                                            i + 11,
                                        ),
                                    )
                                } else {
                                    None
                                },
                            }
                        } else {
                            None
                        }
                    } else if 0xDC00 <= cp < 0xE000 {
                        None
                    } else {
                        Some((spec_utf8_enc(cp), i + 5))
                    }
                },
            }
        } else {
            None
        }
    }
}

fn hex_val(b: u8) -> (r: Option<u8>)
    ensures
        match r {
            Some(v) => spec_hex_val(b) == Some(v as int) && v < 16,
            None => spec_hex_val(b) is None,
        },
{
    if 0x30 <= b && b <= 0x39 {
        Some(b - 0x30)
    } else if 0x41 <= b && b <= 0x46 {
        Some(b - 0x41 + 10)
    } else if 0x61 <= b && b <= 0x66 {
        Some(b - 0x61 + 10)
    } else {
        None
    }
}

fn hex4(s: &Vec<u8>, i: usize) -> (r: Option<u32>)
    requires
        i <= s.len(),
    ensures
        match r {
            Some(cp) => spec_hex4(s@, i as int) == Some(cp as int) && cp < 0x10000,
            None => spec_hex4(s@, i as int) is None,
        },
{
    if s.len() - i < 4 {
        return None;
    }
    let (a, b, c, d) = (hex_val(s[i]), hex_val(s[i + 1]), hex_val(s[i + 2]), hex_val(s[i + 3]));
    match (a, b, c, d) {
        (Some(a), Some(b), Some(c), Some(d)) => Some(
            (a as u32) * 4096 + (b as u32) * 256 + (c as u32) * 16 + (d as u32),
        ),
        _ => None,
    }
}

fn utf8_encode(cp: u32) -> (r: Vec<u8>)
    requires
        cp < 0x110000,
    ensures
        r@ == spec_utf8_enc(cp as int),
{
    let mut out: Vec<u8> = Vec::new();
    if cp < 0x80 {
        out.push(cp as u8);
    } else if cp < 0x800 {
        out.push((0xC0 + cp / 64) as u8);
        out.push((0x80 + cp % 64) as u8);
    } else if cp < 0x10000 {
        out.push((0xE0 + cp / 4096) as u8);
        out.push((0x80 + (cp / 64) % 64) as u8);
        out.push((0x80 + cp % 64) as u8);
    } else {
        out.push((0xF0 + cp / 262144) as u8);
        out.push((0x80 + (cp / 4096) % 64) as u8);
        out.push((0x80 + (cp / 64) % 64) as u8);
        out.push((0x80 + cp % 64) as u8);
    }
    proof {
        assert(out@ =~= spec_utf8_enc(cp as int));
    }
    out
}

fn parse_escape(s: &Vec<u8>, i: usize) -> (r: Option<(Vec<u8>, usize)>)
    requires
        i <= s.len(),
    ensures
        match r {
            Some((d, j)) => spec_parse_escape(s@, i as int) == Some((d@, j as int)) && i < j
                <= s.len() && d@.len() >= 1,
            None => spec_parse_escape(s@, i as int) is None,
        },
{
    if i >= s.len() {
        return None;
    }
    let b = s[i];
    if b == 0x22 || b == 0x5C || b == 0x2F {
        let mut d: Vec<u8> = Vec::new();
        d.push(b);
        proof {
            assert(d@ =~= seq![b]);
        }
        Some((d, i + 1))
    } else if b == 0x62 || b == 0x66 || b == 0x6E || b == 0x72 || b == 0x74 {
        let c: u8 = if b == 0x62 {
            0x08
        } else if b == 0x66 {
            0x0C
        } else if b == 0x6E {
            0x0A
        } else if b == 0x72 {
            0x0D
        } else {
            0x09
        };
        let mut d: Vec<u8> = Vec::new();
        d.push(c);
        proof {
            assert(d@ =~= seq![c]);
        }
        Some((d, i + 1))
    } else if b == 0x75 {
        match hex4(s, i + 1) {
            None => None,
            Some(cp) => {
                if 0xD800 <= cp && cp < 0xDC00 {
                    if s.len() - i >= 11 && s[i + 5] == 0x5C && s[i + 6] == 0x75 {
                        match hex4(s, i + 7) {
                            None => None,
                            Some(lo) => if 0xDC00 <= lo && lo < 0xE000 {
                                let combined: u32 = 0x10000 + (cp - 0xD800) * 1024 + (lo - 0xDC00);
                                Some((utf8_encode(combined), i + 11))
                            } else {
                                None
                            },
                        }
                    } else {
                        None
                    }
                } else if 0xDC00 <= cp && cp < 0xE000 {
                    None
                } else {
                    Some((utf8_encode(cp), i + 5))
                }
            },
        }
    } else {
        None
    }
}

/// Decodes a string body from `i` (the index right after the opening quote)
/// up to and over the closing quote. Yields the decoded bytes and the index
/// after the closing quote. Unescaped control characters are refused.
pub open spec fn spec_parse_string_body(s: Seq<u8>, i: int) -> Option<(Seq<u8>, int)>
    decreases s.len() - i,
{
    if !(0 <= i < s.len()) {
        None
    } else if s[i] == 0x22 {
        Some((Seq::empty(), i + 1))
    } else if s[i] == 0x5C {
        match spec_parse_escape(s, i + 1) {
            None => None,
            Some((d, j)) => if !(i + 1 < j <= s.len()) {
                None
            } else {
                match spec_parse_string_body(s, j) {
                    None => None,
                    Some((rest, k)) => Some((d + rest, k)),
                }
            },
        }
    } else if s[i] < 0x20 {
        None
    } else {
        match spec_parse_string_body(s, i + 1) {
            None => None,
            Some((rest, k)) => Some((seq![s[i]] + rest, k)),
        }
    }
}

fn parse_string_body(s: &Vec<u8>, i: usize) -> (r: Option<(Vec<u8>, usize)>)
    requires
        i <= s.len(),
    ensures
        match r {
            Some((c, k)) => spec_parse_string_body(s@, i as int) == Some((c@, k as int)) && i < k
                <= s.len(),
            None => spec_parse_string_body(s@, i as int) is None,
        },
    decreases s.len() - i,
{
    if i >= s.len() {
        return None;
    }
    let b = s[i];
    if b == 0x22 {
        let c: Vec<u8> = Vec::new();
        proof {
            assert(c@ =~= Seq::<u8>::empty());
        }
        Some((c, i + 1))
    } else if b == 0x5C {
        match parse_escape(s, i + 1) {
            None => None,
            Some((d, j)) => {
                match parse_string_body(s, j) {
                    None => None,
                    Some((rest, k)) => {
                        let mut c = d;
                        let mut rest = rest;
                        c.append(&mut rest);
                        Some((c, k))
                    },
                }
            },
        }
    } else if b < 0x20 {
        None
    } else {
        match parse_string_body(s, i + 1) {
            None => None,
            Some((rest, k)) => {
                let ghost rest0 = rest@;
                let mut c: Vec<u8> = Vec::new();
                c.push(b);
                let mut rest = rest;
                c.append(&mut rest);
                proof {
                    assert(c@ =~= seq![b] + rest0);
                }
                Some((c, k))
            },
        }
    }
}

/// First index at or after `i` that does not hold an ASCII digit.
pub open spec fn spec_skip_digits(s: Seq<u8>, i: int) -> int
    decreases s.len() - i,
{
    if 0 <= i < s.len() && 0x30 <= s[i] <= 0x39 {
        spec_skip_digits(s, i + 1)
    } else {
        i
    }
}

fn skip_digits(s: &Vec<u8>, i: usize) -> (r: usize)
    requires
        i <= s.len(),
    ensures
        r == spec_skip_digits(s@, i as int),
        i <= r <= s.len(),
        i < s.len() && 0x30 <= s@[i as int] <= 0x39 ==> r > i,
{
    let mut j: usize = i;
    while j < s.len() && 0x30 <= s[j] && s[j] <= 0x39
        invariant
            i <= j <= s.len(),
            spec_skip_digits(s@, i as int) == spec_skip_digits(s@, j as int),
        decreases s.len() - j,
    {
        j = j + 1;
    }
    j
}

/// Skips over a number in JSON's grammar: an optional minus sign, an integer
/// part without superfluous leading zeros, then optional fraction and
/// exponent parts. Yields the index after the number.
pub open spec fn spec_skip_number(s: Seq<u8>, i: int) -> Option<int> {
    if !(0 <= i < s.len()) {
        None
    } else {
        let i1: int = if s[i] == 0x2D {
            i + 1
        } else {
            i
        };
        if !(i1 < s.len() && 0x30 <= s[i1] <= 0x39) {
            None
        } else {
            let i2: int = if s[i1] == 0x30 {
                i1 + 1
            } else {
                spec_skip_digits(s, i1)
            };
            match spec_skip_frac(s, i2) {
                None => None,
                Some(i3) => spec_skip_exp(s, i3),
            }
        }
    }
}

/// Skips a fraction part if one starts at `i`; a bare decimal point without
/// digits is refused.
pub open spec fn spec_skip_frac(s: Seq<u8>, i: int) -> Option<int> {
    if 0 <= i < s.len() && s[i] == 0x2E {
        let d: int = spec_skip_digits(s, i + 1);
        if d > i + 1 {
            Some(d)
        } else {
            None
        }
    } else {
        Some(i)
    }
}

/// Skips an exponent part if one starts at `i`; a marker without digits is
/// refused.
pub open spec fn spec_skip_exp(s: Seq<u8>, i: int) -> Option<int> {
    if 0 <= i < s.len() && (s[i] == 0x65 || s[i] == 0x45) {
        let j: int = if i + 1 < s.len() && (s[i + 1] == 0x2B || s[i + 1] == 0x2D) {
            i + 2
        } else {
            i + 1
        };
        let d: int = spec_skip_digits(s, j);
        if d > j {
            Some(d)
        } else {
            None
        }
    } else {
        Some(i)
    }
}

fn skip_number(s: &Vec<u8>, i: usize) -> (r: Option<usize>)
    requires
        i <= s.len(),
    ensures
        match r {
            Some(j) => spec_skip_number(s@, i as int) == Some(j as int) && i < j <= s.len(),
            None => spec_skip_number(s@, i as int) is None,
        },
{
    if i >= s.len() {
        return None;
    }
    let i1: usize = if s[i] == 0x2D {
        i + 1
    } else {
        i
    };
    if !(i1 < s.len() && 0x30 <= s[i1] && s[i1] <= 0x39) {
        return None;
    }
    let i2: usize = if s[i1] == 0x30 {
        i1 + 1
    } else {
        skip_digits(s, i1)
    };
    let i3: usize = if i2 < s.len() && s[i2] == 0x2E {
        let d = skip_digits(s, i2 + 1);
        if d > i2 + 1 {
            d
        } else {
            return None;
        }
    } else {
        i2
    };
    if i3 < s.len() && (s[i3] == 0x65 || s[i3] == 0x45) {
        let j: usize = if i3 + 1 < s.len() && (s[i3 + 1] == 0x2B || s[i3 + 1] == 0x2D) {
            i3 + 2
        } else {
            i3 + 1
        };
        let d = skip_digits(s, j);
        if d > j {
            Some(d)
        } else {
            None
        }
    } else {
        Some(i3)
    }
}

/// Skips over one JSON value that starts at `i` (whitespace before it
/// already consumed). Yields the index after the value.
pub open spec fn spec_skip_value(s: Seq<u8>, i: int) -> Option<int>
    decreases s.len() - i, 0int,
{
    if !(0 <= i < s.len()) {
        None
    } else if s[i] == 0x22 {
        match spec_parse_string_body(s, i + 1) {
            None => None,
            Some((c, j)) => Some(j),
        }
    } else if s[i] == 0x7B {
        spec_skip_object_rest(s, i + 1)
    } else if s[i] == 0x5B {
        spec_skip_array_rest(s, i + 1)
    } else if s[i] == 0x74 {
        if i + 4 <= s.len() && s[i + 1] == 0x72 && s[i + 2] == 0x75 && s[i + 3] == 0x65 {
            Some(i + 4)
        } else {
            None
        }
    } else if s[i] == 0x66 {
        if i + 5 <= s.len() && s[i + 1] == 0x61 && s[i + 2] == 0x6C && s[i + 3] == 0x73 && s[i + 4]
            == 0x65 {
            Some(i + 5)
        } else {
            None
        }
    } else if s[i] == 0x6E {
        if i + 4 <= s.len() && s[i + 1] == 0x75 && s[i + 2] == 0x6C && s[i + 3] == 0x6C {
            Some(i + 4)
        } else {
            None
        }
    } else if s[i] == 0x2D || 0x30 <= s[i] <= 0x39 {
        spec_skip_number(s, i)
    } else {
        None
    }
}

/// Skips the remainder of an object from `i`, the index right after `{`.
pub open spec fn spec_skip_object_rest(s: Seq<u8>, i: int) -> Option<int>
    decreases s.len() - i, 2int,
{
    let j: int = spec_skip_ws(s, i);
    if !(i <= j < s.len()) {
        None
    } else if s[j] == 0x7D {
        Some(j + 1)
    } else {
        spec_skip_members(s, j)
    }
}

/// Skips members of an object from `i`, the index of a key's opening quote.
pub open spec fn spec_skip_members(s: Seq<u8>, i: int) -> Option<int>
    decreases s.len() - i, 1int,
{
    if !(0 <= i < s.len() && s[i] == 0x22) {
        None
    } else {
        match spec_parse_string_body(s, i + 1) {
            None => None,
            Some((key, j)) => {
                let k: int = spec_skip_ws(s, j);
                if !(k < s.len() && s[k] == 0x3A) {
                    None
                } else {
                    let m: int = spec_skip_ws(s, k + 1);
                    if !(i < m <= s.len()) {
                        None
                    } else {
                        match spec_skip_value(s, m) {
                            None => None,
                            Some(e) => {
                                let t: int = spec_skip_ws(s, e);
                                if !(t < s.len()) {
                                    None
                                } else if s[t] == 0x7D {
                                    Some(t + 1)
                                } else if s[t] == 0x2C {
                                    let n: int = spec_skip_ws(s, t + 1);
                                    if !(i < n <= s.len()) {
                                        None
                                    } else {
                                        spec_skip_members(s, n)
                                    }
                                } else {
                                    None
                                }
                            },
                        }
                    }
                }
            },
        }
    }
}

/// Skips the remainder of an array from `i`, the index right after `[`.
pub open spec fn spec_skip_array_rest(s: Seq<u8>, i: int) -> Option<int>
    decreases s.len() - i, 2int,
{
    let j: int = spec_skip_ws(s, i);
    if !(i <= j < s.len()) {
        None
    } else if s[j] == 0x5D {
        Some(j + 1)
    } else {
        spec_skip_elements(s, j)
    }
}

/// Skips elements of an array from `i`, the index of the first byte of an
/// element.
pub open spec fn spec_skip_elements(s: Seq<u8>, i: int) -> Option<int>
    decreases s.len() - i, 1int,
{
    if !(0 <= i < s.len()) {
        None
    } else {
        match spec_skip_value(s, i) {
            None => None,
            Some(e) => {
                let t: int = spec_skip_ws(s, e);
                if !(t < s.len()) {
                    None
                } else if s[t] == 0x5D {
                    Some(t + 1)
                } else if s[t] == 0x2C {
                    let n: int = spec_skip_ws(s, t + 1);
                    if !(i < n <= s.len()) {
                        None
                    } else {
                        spec_skip_elements(s, n)
                    }
                } else {
                    None
                }
            },
        }
    }
}

fn skip_value(s: &Vec<u8>, i: usize) -> (r: Option<usize>)
    requires
        i <= s.len(),
    ensures
        match r {
            Some(j) => spec_skip_value(s@, i as int) == Some(j as int) && i < j <= s.len(),
            None => spec_skip_value(s@, i as int) is None,
        },
    decreases s.len() - i, 0int,
{
    if i >= s.len() {
        return None;
    }
    let b = s[i];
    if b == 0x22 {
        match parse_string_body(s, i + 1) {
            None => None,
            Some((c, j)) => Some(j),
        }
    } else if b == 0x7B {
        skip_object_rest(s, i + 1)
    } else if b == 0x5B {
        skip_array_rest(s, i + 1)
    } else if b == 0x74 {
        if s.len() - i >= 4 && s[i + 1] == 0x72 && s[i + 2] == 0x75 && s[i + 3] == 0x65 {
            Some(i + 4)
        } else {
            None
        }
    } else if b == 0x66 {
        if s.len() - i >= 5 && s[i + 1] == 0x61 && s[i + 2] == 0x6C && s[i + 3] == 0x73 && s[i + 4]
            == 0x65 {
            Some(i + 5)
        } else {
            None
        }
    } else if b == 0x6E {
        if s.len() - i >= 4 && s[i + 1] == 0x75 && s[i + 2] == 0x6C && s[i + 3] == 0x6C {
            Some(i + 4)
        } else {
            None
        }
    } else if b == 0x2D || (0x30 <= b && b <= 0x39) {
        skip_number(s, i)
    } else {
        None
    }
}

fn skip_object_rest(s: &Vec<u8>, i: usize) -> (r: Option<usize>)
    requires
        i <= s.len(),
    ensures
        match r {
            Some(j) => spec_skip_object_rest(s@, i as int) == Some(j as int) && i < j <= s.len(),
            None => spec_skip_object_rest(s@, i as int) is None,
        },
    decreases s.len() - i, 2int,
{
    let j = skip_ws(s, i);
    if j >= s.len() {
        None
    } else if s[j] == 0x7D {
        Some(j + 1)
    } else {
        skip_members(s, j)
    }
}

fn skip_members(s: &Vec<u8>, i: usize) -> (r: Option<usize>)
    requires
        i <= s.len(),
    ensures
        match r {
            Some(j) => spec_skip_members(s@, i as int) == Some(j as int) && i < j <= s.len(),
            None => spec_skip_members(s@, i as int) is None,
        },
    decreases s.len() - i, 1int,
{
    if !(i < s.len() && s[i] == 0x22) {
        return None;
    }
    match parse_string_body(s, i + 1) {
        None => None,
        Some((key, j)) => {
            let k = skip_ws(s, j);
            if !(k < s.len() && s[k] == 0x3A) {
                return None;
            }
            let m = skip_ws(s, k + 1);
            match skip_value(s, m) {
                None => None,
                Some(e) => {
                    let t = skip_ws(s, e);
                    if !(t < s.len()) {
                        None
                    } else if s[t] == 0x7D {
                        Some(t + 1)
                    } else if s[t] == 0x2C {
                        let n = skip_ws(s, t + 1);
                        skip_members(s, n)
                    } else {
                        None
                    }
                },
            }
        },
    }
}

fn skip_array_rest(s: &Vec<u8>, i: usize) -> (r: Option<usize>)
    requires
        i <= s.len(),
    ensures
        match r {
            Some(j) => spec_skip_array_rest(s@, i as int) == Some(j as int) && i < j <= s.len(),
            None => spec_skip_array_rest(s@, i as int) is None,
        },
    decreases s.len() - i, 2int,
{
    let j = skip_ws(s, i);
    if j >= s.len() {
        None
    } else if s[j] == 0x5D {
        Some(j + 1)
    } else {
        skip_elements(s, j)
    }
}

fn skip_elements(s: &Vec<u8>, i: usize) -> (r: Option<usize>)
    requires
        i <= s.len(),
    ensures
        match r {
            Some(j) => spec_skip_elements(s@, i as int) == Some(j as int) && i < j <= s.len(),
            None => spec_skip_elements(s@, i as int) is None,
        },
    decreases s.len() - i, 1int,
{
    if i >= s.len() {
        return None;
    }
    match skip_value(s, i) {
        None => None,
        Some(e) => {
            let t = skip_ws(s, e);
            if !(t < s.len()) {
                None
            } else if s[t] == 0x5D {
                Some(t + 1)
            } else if s[t] == 0x2C {
                let n = skip_ws(s, t + 1);
                skip_elements(s, n)
            } else {
                None
            }
        },
    }
}

/// The bytes of the member name `prompt`.
pub open spec fn prompt_key() -> Seq<u8> {
    seq![0x70u8, 0x72, 0x6F, 0x6D, 0x70, 0x74]
}

/// The view of an optional byte vector.
pub open spec fn opt_view(o: Option<Vec<u8>>) -> Option<Seq<u8>> {
    match o {
        Some(v) => Some(v@),
        None => None,
    }
}

/// Walks the members of the request object from `i`, the index of a key's
/// opening quote, carrying the prompt text seen so far. A `prompt` member
/// must hold a string and may appear only once; every other member is
/// skipped whatever its value. Yields the prompt found, if any, and the
/// index after the closing brace.
pub open spec fn spec_parse_fields(s: Seq<u8>, i: int, found: Option<Seq<u8>>) -> Option<
    (Option<Seq<u8>>, int),
>
    decreases s.len() - i,
{
    if !(0 <= i < s.len()) {
        None
    } else if s[i] != 0x22 {
        None
    } else {
        match spec_parse_string_body(s, i + 1) {
            None => None,
            Some((key, j)) => {
                let k: int = spec_skip_ws(s, j);
                if !(k < s.len() && s[k] == 0x3A) {
                    None
                } else {
                    let m: int = spec_skip_ws(s, k + 1);
                    if key == prompt_key() {
                        if found is Some {
                            None
                        } else if !(m < s.len() && s[m] == 0x22) {
                            None
                        } else {
                            match spec_parse_string_body(s, m + 1) {
                                None => None,
                                Some((p, e)) => {
                                    let t: int = spec_skip_ws(s, e);
                                    if !(t < s.len()) {
                                        None
                                    } else if s[t] == 0x7D {
                                        Some((Some(p), t + 1))
                                    } else if s[t] == 0x2C {
                                        let n: int = spec_skip_ws(s, t + 1);
                                        if !(i < n <= s.len()) {
                                            None
                                        } else {
                                            spec_parse_fields(s, n, Some(p))
                                        }
                                    } else {
                                        None
                                    }
                                },
                            }
                        }
                    } else {
                        if !(i < m <= s.len()) {
                            None
                        } else {
                            match spec_skip_value(s, m) {
                                None => None,
                                Some(e) => {
                                    let t: int = spec_skip_ws(s, e);
                                    if !(t < s.len()) {
                                        None
                                    } else if s[t] == 0x7D {
                                        Some((found, t + 1))
                                    } else if s[t] == 0x2C {
                                        let n: int = spec_skip_ws(s, t + 1);
                                        if !(i < n <= s.len()) {
                                            None
                                        } else {
                                            spec_parse_fields(s, n, found)
                                        }
                                    } else {
                                        None
                                    }
                                },
                            }
                        }
                    }
                }
            },
        }
    }
}

/// The prompt text of a well-formed request body, or `None` where the body
/// is not a JSON object carrying a string member named `prompt`.
pub open spec fn spec_parse_request(s: Seq<u8>) -> Option<Seq<u8>> {
    let i: int = spec_skip_ws(s, 0);
    if !(i < s.len() && s[i] == 0x7B) {
        None
    } else {
        let j: int = spec_skip_ws(s, i + 1);
        if j < s.len() && s[j] == 0x7D {
            // The empty object is well-formed JSON, but carries no prompt.
            None
        } else {
            match spec_parse_fields(s, j, None) {
                None => None,
                Some((found, e)) => {
                    let t: int = spec_skip_ws(s, e);
                    if t == s.len() {
                        found
                    } else {
                        None
                    }
                },
            }
        }
    }
}

fn is_prompt_key(key: &Vec<u8>) -> (r: bool)
    ensures
        r == (key@ == prompt_key()),
{
    let r = key.len() == 6 && key[0] == 0x70 && key[1] == 0x72 && key[2] == 0x6F && key[3] == 0x6D
        && key[4] == 0x70 && key[5] == 0x74;
    proof {
        if r {
            assert(key@ =~= prompt_key());
        }
    }
    r
}

fn parse_fields(s: &Vec<u8>, i: usize, found: Option<Vec<u8>>) -> (r: Option<
    (Option<Vec<u8>>, usize),
>)
    requires
        i <= s.len(),
    ensures
        match r {
            Some((f, e)) => spec_parse_fields(s@, i as int, opt_view(found)) == Some(
                (opt_view(f), e as int),
            ) && i < e <= s.len(),
            None => spec_parse_fields(s@, i as int, opt_view(found)) is None,
        },
    decreases s.len() - i,
{
    if i >= s.len() {
        return None;
    }
    if s[i] != 0x22 {
        return None;
    }
    match parse_string_body(s, i + 1) {
        None => None,
        Some((key, j)) => {
            let k = skip_ws(s, j);
            if !(k < s.len() && s[k] == 0x3A) {
                return None;
            }
            let m = skip_ws(s, k + 1);
            if is_prompt_key(&key) {
                if found.is_some() {
                    return None;
                }
                if !(m < s.len() && s[m] == 0x22) {
                    return None;
                }
                match parse_string_body(s, m + 1) {
                    None => None,
                    Some((p, e)) => {
                        let t = skip_ws(s, e);
                        if !(t < s.len()) {
                            None
                        } else if s[t] == 0x7D {
                            Some((Some(p), t + 1))
                        } else if s[t] == 0x2C {
                            let n = skip_ws(s, t + 1);
                            parse_fields(s, n, Some(p))
                        } else {
                            None
                        }
                    },
                }
            } else {
                match skip_value(s, m) {
                    None => None,
                    Some(e) => {
                        let t = skip_ws(s, e);
                        if !(t < s.len()) {
                            None
                        } else if s[t] == 0x7D {
                            Some((found, t + 1))
                        } else if s[t] == 0x2C {
                            let n = skip_ws(s, t + 1);
                            parse_fields(s, n, found)
                        } else {
                            None
                        }
                    },
                }
            }
        },
    }
}

/// Parses a request body. Returns the prompt text exactly when the body is
/// a JSON object with a string member named `prompt` (other members are
/// allowed and ignored), and `None` for every other body.
pub fn parse_request(body: &Vec<u8>) -> (r: Option<Vec<u8>>)
    ensures
        match r {
            Some(p) => spec_parse_request(body@) == Some(p@),
            None => spec_parse_request(body@) is None,
        },
{
    let i = skip_ws(body, 0);
    if !(i < body.len() && body[i] == 0x7B) {
        return None;
    }
    let j = skip_ws(body, i + 1);
    if j < body.len() && body[j] == 0x7D {
        return None;
    }
    match parse_fields(body, j, None) {
        None => None,
        Some((found, e)) => {
            let t = skip_ws(body, e);
            if t == body.len() {
                found
            } else {
                None
            }
        },
    }
}

/// Lowercase hex digit for a value below sixteen.
pub open spec fn spec_hex_digit(v: u8) -> u8
    recommends
        v < 16,
{
    if v < 10 {
        (0x30 + v) as u8
    } else {
        (0x61 + (v - 10)) as u8
    }
}

/// How one byte of text stands inside a JSON string: quote, backslash and
/// the named control characters get their short escapes, any other control
/// character a `\u00..` escape, and every other byte stands as itself.
pub open spec fn spec_escape_byte(b: u8) -> Seq<u8> {
    if b == 0x22 {
        seq![0x5Cu8, 0x22]
    } else if b == 0x5C {
        seq![0x5Cu8, 0x5C]
    } else if b == 0x08 {
        seq![0x5Cu8, 0x62]
    } else if b == 0x09 {
        seq![0x5Cu8, 0x74]
    } else if b == 0x0A {
        seq![0x5Cu8, 0x6E]
    } else if b == 0x0C {
        seq![0x5Cu8, 0x66]
    } else if b == 0x0D {
        seq![0x5Cu8, 0x72]
    } else if b < 0x20 {
        seq![0x5Cu8, 0x75, 0x30, 0x30, spec_hex_digit(b / 16), spec_hex_digit(b % 16)]
    } else {
        seq![b]
    }
}

/// The text `s` escaped for the inside of a JSON string.
pub open spec fn spec_escape(s: Seq<u8>) -> Seq<u8>
    decreases s.len(),
{
    if s.len() == 0 {
        Seq::empty()
    } else {
        spec_escape_byte(s[0]) + spec_escape(s.drop_first())
    }
}

pub proof fn lemma_escape_snoc(t: Seq<u8>, b: u8)
    ensures
        spec_escape(t.push(b)) == spec_escape(t) + spec_escape_byte(b),
    decreases t.len(),
{
    if t.len() == 0 {
        assert(t.push(b).drop_first() =~= Seq::<u8>::empty());
        assert(t.push(b)[0] == b);
        assert(spec_escape(Seq::<u8>::empty()) == Seq::<u8>::empty());
        assert(spec_escape(t.push(b)) == spec_escape_byte(b) + Seq::<u8>::empty());
        assert(spec_escape_byte(b) + Seq::<u8>::empty() =~= spec_escape_byte(b));
        assert(spec_escape(t) + spec_escape_byte(b) =~= spec_escape_byte(b));
    } else {
        lemma_escape_snoc(t.drop_first(), b);
        assert(t.push(b).len() == t.len() + 1);
        assert(t.push(b)[0] == t[0]);
        assert(t.push(b).drop_first() =~= t.drop_first().push(b));
        assert(spec_escape(t.push(b)) == spec_escape_byte(t[0]) + spec_escape(
            t.drop_first().push(b),
        ));
        assert(spec_escape(t) == spec_escape_byte(t[0]) + spec_escape(t.drop_first()));
        assert(spec_escape_byte(t[0]) + (spec_escape(t.drop_first()) + spec_escape_byte(b)) =~= (
        spec_escape_byte(t[0]) + spec_escape(t.drop_first())) + spec_escape_byte(b));
        assert(spec_escape(t.push(b)) =~= spec_escape(t) + spec_escape_byte(b));
    }
}

/// The bytes before the text in a response body: `{"response":"`.
pub open spec fn resp_prefix() -> Seq<u8> {
    seq![0x7Bu8, 0x22, 0x72, 0x65, 0x73, 0x70, 0x6F, 0x6E, 0x73, 0x65, 0x22, 0x3A, 0x22]
}

/// The bytes after the text in a response body: `"}`.
pub open spec fn resp_suffix() -> Seq<u8> {
    seq![0x22u8, 0x7D]
}

/// The whole response body `{"response": <text>}` for the text `t`.
pub open spec fn spec_response_body(t: Seq<u8>) -> Seq<u8> {
    resp_prefix() + spec_escape(t) + resp_suffix()
}

fn push_escaped_byte(out: &mut Vec<u8>, b: u8)
    ensures
        final(out)@ == old(out)@ + spec_escape_byte(b),
{
    if b == 0x22 || b == 0x5C {
        out.push(0x5C);
        out.push(b);
    } else if b == 0x08 {
        out.push(0x5C);
        out.push(0x62);
    } else if b == 0x09 {
        out.push(0x5C);
        out.push(0x74);
    } else if b == 0x0A {
        out.push(0x5C);
        out.push(0x6E);
    } else if b == 0x0C {
        out.push(0x5C);
        out.push(0x66);
    } else if b == 0x0D {
        out.push(0x5C);
        out.push(0x72);
    } else if b < 0x20 {
        out.push(0x5C);
        out.push(0x75);
        out.push(0x30);
        out.push(0x30);
        let hi = b / 16;
        let lo = b % 16;
        out.push(if hi < 10 { 0x30 + hi } else { 0x61 + (hi - 10) });
        out.push(if lo < 10 { 0x30 + lo } else { 0x61 + (lo - 10) });
    } else {
        out.push(b);
    }
    proof {
        assert(out@ =~= old(out)@ + spec_escape_byte(b));
    }
}

/// Encodes the response body `{"response": <text>}` for the text `t`.
pub fn encode_response(t: &Vec<u8>) -> (r: Vec<u8>)
    ensures
        r@ == spec_response_body(t@),
{
    let mut out: Vec<u8> = Vec::new();
    out.push(0x7B);
    out.push(0x22);
    out.push(0x72);
    out.push(0x65);
    out.push(0x73);
    out.push(0x70);
    out.push(0x6F);
    out.push(0x6E);
    out.push(0x73);
    out.push(0x65);
    out.push(0x22);
    out.push(0x3A);
    out.push(0x22);
    proof {
        assert(out@ =~= resp_prefix());
        assert(t@.take(0) =~= Seq::<u8>::empty());
    }
    let mut i: usize = 0;
    while i < t.len()
        invariant
            i <= t.len(),
            out@ == resp_prefix() + spec_escape(t@.take(i as int)),
        decreases t.len() - i,
    {
        let b = t[i];
        push_escaped_byte(&mut out, b);
        proof {
            assert(t@.take(i + 1 as int) =~= t@.take(i as int).push(b));
            lemma_escape_snoc(t@.take(i as int), b);
            assert(out@ =~= resp_prefix() + spec_escape(t@.take(i + 1 as int)));
        }
        i = i + 1;
    }
    out.push(0x22);
    out.push(0x7D);
    proof {
        assert(t@.take(t@.len() as int) =~= t@);
        assert(out@ =~= spec_response_body(t@));
    }
    out
}

} // verus!
