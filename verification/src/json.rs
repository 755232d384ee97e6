//! Building blocks of the wire format: JSON string escaping, decimal
//! digits, and the unit-interval volume scalar written and read as a
//! plain decimal number.
//!
//! Volumes travel as permille integers inside the library; on the wire
//! they are JSON numbers in [0, 1]. `volume_number` writes a permille as
//! the shortest plain decimal; `parse_volume` reads a plain decimal (an
//! optional sign, digits, an optional fraction) into a permille,
//! truncating past the third fraction digit and clamping into the unit
//! interval.

use vstd::prelude::*;

verus! {

/// Whether a character is a decimal digit.
pub open spec fn is_digit(c: char) -> bool {
    '0' <= c && c <= '9'
}

/// The value of a decimal digit character.
pub open spec fn digit_val(c: char) -> int {
    c as int - '0' as int
}

/// Whether every character of a sequence is a decimal digit.
pub open spec fn all_digits(s: Seq<char>) -> bool {
    forall|i: int| 0 <= i < s.len() ==> is_digit(#[trigger] s[i])
}

/// The digit character of a value below ten.
pub open spec fn spec_digit_char(d: int) -> char {
    if d == 0 {
        '0'
    } else if d == 1 {
        '1'
    } else if d == 2 {
        '2'
    } else if d == 3 {
        '3'
    } else if d == 4 {
        '4'
    } else if d == 5 {
        '5'
    } else if d == 6 {
        '6'
    } else if d == 7 {
        '7'
    } else if d == 8 {
        '8'
    } else {
        '9'
    }
}

/// The hexadecimal digit character of a value below sixteen.
pub open spec fn spec_hex_char(d: int) -> char {
    if d < 10 {
        spec_digit_char(d)
    } else if d == 10 {
        'a'
    } else if d == 11 {
        'b'
    } else if d == 12 {
        'c'
    } else if d == 13 {
        'd'
    } else if d == 14 {
        'e'
    } else {
        'f'
    }
}

/// The decimal digits of a number, most significant first.
pub open spec fn spec_digits(n: int) -> Seq<char>
    decreases n,
{
    if n <= 0 {
        seq!['0']
    } else if n < 10 {
        seq![spec_digit_char(n)]
    } else {
        spec_digits(n / 10).push(spec_digit_char(n % 10))
    }
}

/// How one character is written inside a JSON string: the two-character
/// escapes of the quote, the backslash and the usual control characters,
/// `\u00..` for the other control characters, the character itself
/// otherwise.
pub open spec fn spec_escape_char(c: char) -> Seq<char> {
    if c == '"' {
        seq!['\\', '"']
    } else if c == '\\' {
        seq!['\\', '\\']
    } else if c == '\u{8}' {
        seq!['\\', 'b']
    } else if c == '\u{c}' {
        seq!['\\', 'f']
    } else if c == '\n' {
        seq!['\\', 'n']
    } else if c == '\r' {
        seq!['\\', 'r']
    } else if c == '\t' {
        seq!['\\', 't']
    } else if (c as int) < 32 {
        seq!['\\', 'u', '0', '0', spec_hex_char((c as int) / 16), spec_hex_char((c as int) % 16)]
    } else {
        seq![c]
    }
}

/// A text as it is written inside a JSON string.
pub open spec fn spec_escape(s: Seq<char>) -> Seq<char>
    decreases s.len(),
{
    if s.len() == 0 {
        Seq::empty()
    } else {
        spec_escape(s.drop_last()) + spec_escape_char(s.last())
    }
}

/// A text as a JSON string: quoted and escaped.
pub open spec fn spec_json_string(s: Seq<char>) -> Seq<char> {
    seq!['"'] + spec_escape(s) + seq!['"']
}

/// Relies on `String::push`: appends exactly the one character.
#[verifier::external_body]
pub fn push_char(s: &mut String, c: char)
    ensures
        final(s)@ == old(s)@.push(c),
{
    s.push(c);
}

/// The digit character of `d`, for `d` below ten.
pub fn digit_char(d: u32) -> (c: char)
    requires
        d < 10,
    ensures
        c == spec_digit_char(d as int),
{
    match d {
        0 => '0',
        1 => '1',
        2 => '2',
        3 => '3',
        4 => '4',
        5 => '5',
        6 => '6',
        7 => '7',
        8 => '8',
        _ => '9',
    }
}

/// The hexadecimal digit character of `d`, for `d` below sixteen.
pub fn hex_char(d: u32) -> (c: char)
    requires
        d < 16,
    ensures
        c == spec_hex_char(d as int),
{
    if d < 10 {
        digit_char(d)
    } else {
        match d {
            10 => 'a',
            11 => 'b',
            12 => 'c',
            13 => 'd',
            14 => 'e',
            _ => 'f',
        }
    }
}

/// The decimal digits of a number, most significant first.
pub fn u64_to_string(n: u64) -> (r: String)
    ensures
        r@ == spec_digits(n as int),
    decreases n,
{
    if n < 10 {
        let mut s = String::new();
        push_char(&mut s, digit_char(n as u32));
        proof {
            assert(s@ =~= spec_digits(n as int));
        }
        s
    } else {
        let mut s = u64_to_string(n / 10);
        push_char(&mut s, digit_char((n % 10) as u32));
        s
    }
}

/// The text of `s` as it stands inside a JSON string.
pub fn escape_json(s: &str) -> (r: String)
    ensures
        r@ == spec_escape(s@),
{
    let n = s.unicode_len();
    let mut out = String::new();
    let mut i: usize = 0;
    while i < n
        invariant
            n == s@.len(),
            i <= n,
            out@ == spec_escape(s@.take(i as int)),
        decreases n - i,
    {
        let c = s.get_char(i);
        proof {
            assert(s@.take(i + 1).drop_last() =~= s@.take(i as int));
            assert(s@.take(i + 1).last() == s@[i as int]);
        }
        if c == '"' {
            push_char(&mut out, '\\');
            push_char(&mut out, '"');
        } else if c == '\\' {
            push_char(&mut out, '\\');
            push_char(&mut out, '\\');
        } else if c == '\u{8}' {
            push_char(&mut out, '\\');
            push_char(&mut out, 'b');
        } else if c == '\u{c}' {
            push_char(&mut out, '\\');
            push_char(&mut out, 'f');
        } else if c == '\n' {
            push_char(&mut out, '\\');
            push_char(&mut out, 'n');
        } else if c == '\r' {
            push_char(&mut out, '\\');
            push_char(&mut out, 'r');
        } else if c == '\t' {
            push_char(&mut out, '\\');
            push_char(&mut out, 't');
        } else if (c as u32) < 32 {
            push_char(&mut out, '\\');
            push_char(&mut out, 'u');
            push_char(&mut out, '0');
            push_char(&mut out, '0');
            push_char(&mut out, hex_char((c as u32) / 16));
            push_char(&mut out, hex_char((c as u32) % 16));
        } else {
            push_char(&mut out, c);
        }
        proof {
            assert(out@ =~= spec_escape(s@.take(i as int)) + spec_escape_char(s@[i as int]));
        }
        i += 1;
    }
    proof {
        assert(s@.take(n as int) =~= s@);
    }
    out
}

/// The text of `s` as a JSON string: quoted and escaped.
pub fn json_string(s: &str) -> (r: String)
    ensures
        r@ == spec_json_string(s@),
{
    let mut out = String::new();
    push_char(&mut out, '"');
    let body = escape_json(s);
    out.append(body.as_str());
    push_char(&mut out, '"');
    proof {
        assert(out@ =~= spec_json_string(s@));
    }
    out
}

/// The JSON number of a volume permille: `1` at full volume, `0` when
/// silent, otherwise `0.` and up to three fraction digits without
/// trailing zeros.
pub open spec fn spec_volume_number(v: int) -> Seq<char> {
    if v >= 1000 {
        seq!['1']
    } else if v <= 0 {
        seq!['0']
    } else if v % 10 != 0 {
        seq!['0', '.', spec_digit_char(v / 100), spec_digit_char(v / 10 % 10), spec_digit_char(v % 10)]
    } else if v % 100 != 0 {
        seq!['0', '.', spec_digit_char(v / 100), spec_digit_char(v / 10 % 10)]
    } else {
        seq!['0', '.', spec_digit_char(v / 100)]
    }
}

/// The JSON number of a volume permille.
pub fn volume_number(v: u32) -> (r: String)
    ensures
        r@ == spec_volume_number(v as int),
{
    let mut out = String::new();
    if v >= 1000 {
        push_char(&mut out, '1');
        proof {
            assert(out@ =~= spec_volume_number(v as int));
        }
        return out;
    }
    if v == 0 {
        push_char(&mut out, '0');
        proof {
            assert(out@ =~= spec_volume_number(v as int));
        }
        return out;
    }
    push_char(&mut out, '0');
    push_char(&mut out, '.');
    push_char(&mut out, digit_char(v / 100));
    if v % 10 != 0 {
        push_char(&mut out, digit_char(v / 10 % 10));
        push_char(&mut out, digit_char(v % 10));
    } else if v % 100 != 0 {
        push_char(&mut out, digit_char(v / 10 % 10));
    }
    proof {
        assert(out@ =~= spec_volume_number(v as int));
    }
    out
}

/// The index of the first `.` of a sequence, or a negative value if
/// there is none.
pub open spec fn first_dot(s: Seq<char>) -> int
    decreases s.len(),
{
    if s.len() == 0 {
        -1
    } else if s[0] == '.' {
        0
    } else if first_dot(s.drop_first()) < 0 {
        -1
    } else {
        first_dot(s.drop_first()) + 1
    }
}

/// The value of a digit sequence, most significant first.
pub open spec fn digits_val(s: Seq<char>) -> int
    decreases s.len(),
{
    if s.len() == 0 {
        0
    } else {
        digits_val(s.drop_last()) * 10 + digit_val(s.last())
    }
}

/// The permille of up to the first three fraction digits.
pub open spec fn frac3_val(s: Seq<char>) -> int {
    (if s.len() >= 1 {
        digit_val(s[0]) * 100
    } else {
        0
    }) + (if s.len() >= 2 {
        digit_val(s[1]) * 10
    } else {
        0
    }) + (if s.len() >= 3 {
        digit_val(s[2])
    } else {
        0
    })
}

/// The permille of an unsigned plain decimal: digits, optionally a dot
/// with more digits; the fraction is truncated past the third digit.
pub open spec fn spec_parse_unsigned(s: Seq<char>) -> Option<int> {
    let d = first_dot(s);
    if d < 0 {
        if s.len() > 0 && all_digits(s) {
            Some(digits_val(s) * 1000)
        } else {
            None
        }
    } else {
        let ip = s.take(d);
        let fp = s.skip(d + 1);
        if ip.len() > 0 && fp.len() > 0 && all_digits(ip) && all_digits(fp) {
            Some(digits_val(ip) * 1000 + frac3_val(fp))
        } else {
            None
        }
    }
}

/// A plain decimal, optionally signed, read as a volume permille clamped
/// into the unit interval.
pub open spec fn spec_parse_volume(s: Seq<char>) -> Option<u32> {
    if s.len() > 0 && s[0] == '-' {
        match spec_parse_unsigned(s.drop_first()) {
            Some(_) => Some(0),
            None => None,
        }
    } else {
        match spec_parse_unsigned(s) {
            Some(v) => Some(if v >= 1000 {
                1000
            } else {
                v as u32
            }),
            None => None,
        }
    }
}

/// `first_dot` is negative exactly when no character is a dot.
proof fn lemma_first_dot_none(m: Seq<char>)
    requires
        forall|j: int| 0 <= j < m.len() ==> (#[trigger] m[j]) != '.',
    ensures
        first_dot(m) < 0,
    decreases m.len(),
{
    if m.len() > 0 {
        assert(forall|j: int|
            0 <= j < m.drop_first().len() ==> (#[trigger] m.drop_first()[j]) == m[j + 1]);
        lemma_first_dot_none(m.drop_first());
    }
}

/// `first_dot` finds the first dot.
proof fn lemma_first_dot_at(m: Seq<char>, k: int)
    requires
        0 <= k < m.len(),
        m[k] == '.',
        forall|j: int| 0 <= j < k ==> (#[trigger] m[j]) != '.',
    ensures
        first_dot(m) == k,
    decreases m.len(),
{
    if k > 0 {
        assert(forall|j: int|
            0 <= j < m.drop_first().len() ==> (#[trigger] m.drop_first()[j]) == m[j + 1]);
        lemma_first_dot_at(m.drop_first(), k - 1);
    }
}

/// The value of a digit sequence is not negative.
proof fn lemma_digits_val_nonneg(m: Seq<char>)
    requires
        all_digits(m),
    ensures
        digits_val(m) >= 0,
    decreases m.len(),
{
    if m.len() > 0 {
        assert(all_digits(m.drop_last()));
        lemma_digits_val_nonneg(m.drop_last());
        assert(digit_val(m.last()) >= 0);
    }
}

/// A plain decimal, optionally signed, read as a volume permille clamped
/// into the unit interval. Everything else reads as nothing.
pub fn parse_volume(s: &str) -> (r: Option<u32>)
    ensures
        r == spec_parse_volume(s@),
{
    let n = s.unicode_len();
    let neg = n > 0 && s.get_char(0) == '-';
    let start: usize = if neg { 1 } else { 0 };
    let ghost m = s@.skip(start as int);
    proof {
        if neg {
            assert(m =~= s@.drop_first());
        } else {
            assert(m =~= s@);
        }
    }
    let mag = parse_unsigned_permille(s, start);
    proof {
        assert(s@.skip(start as int) == m);
    }
    match mag {
        None => None,
        Some(v) => {
            if neg {
                Some(0)
            } else {
                Some(v)
            }
        },
    }
}

/// The magnitude part of `parse_volume`: the characters of `s` from
/// `start` on, read as an unsigned plain decimal and clamped at full
/// volume.
fn parse_unsigned_permille(s: &str, start: usize) -> (r: Option<u32>)
    requires
        start <= s@.len(),
    ensures
        ({
            let m = s@.skip(start as int);
            match spec_parse_unsigned(m) {
                None => r is None,
                Some(v) => r == Some(
                    if v >= 1000 {
                        1000u32
                    } else {
                        v as u32
                    },
                ),
            }
        }),
{
    let ghost m = s@.skip(start as int);
    let n = s.unicode_len();
    // find the first dot at or after start
    let mut i: usize = start;
    let mut dot: usize = 0;
    let mut has_dot = false;
    while i < n && !has_dot
        invariant
            start <= s@.len(),
            n == s@.len(),
            start <= i <= n,
            m == s@.skip(start as int),
            forall|j: int| start <= j < i ==> (#[trigger] s@[j]) != '.',
            has_dot ==> i == dot && start <= dot < n && s@[dot as int] == '.',
        decreases n - i + (if has_dot { 0int } else { 1int }),
    {
        if s.get_char(i) == '.' {
            dot = i;
            has_dot = true;
        } else {
            i += 1;
        }
    }
    proof {
        assert(forall|j: int| 0 <= j < m.len() ==> (#[trigger] m[j]) == s@[j + start]);
        if has_dot {
            lemma_first_dot_at(m, dot - start);
        } else {
            assert forall|j: int| 0 <= j < m.len() implies (#[trigger] m[j]) != '.' by {
                assert(m[j] == s@[j + start]);
            }
            lemma_first_dot_none(m);
        }
    }
    if !has_dot {
        // digits only
        match scan_digits_value(s, start, n) {
            None => {
                proof {
                    assert(!all_digits(m) || m.len() == 0) by {
                        if m.len() > 0 && all_digits(m) {
                            assert(forall|j: int|
                                start <= j < n ==> is_digit(#[trigger] s@[j])) by {
                                assert(forall|j: int|
                                    start <= j < n ==> s@[j] == m[j - start] && is_digit(
                                        m[j - start],
                                    ));
                            }
                        }
                    }
                }
                None
            },
            Some(acc) => {
                proof {
                    assert(all_digits(m)) by {
                        assert(forall|j: int|
                            0 <= j < m.len() ==> is_digit(#[trigger] m[j]) && m[j] == s@[j
                                + start]);
                    }
                    assert(m.len() > 0);
                    assert(digits_val(s@.subrange(start as int, n as int)) == digits_val(m));
                    lemma_digits_val_nonneg(m);
                }
                if acc >= 1 {
                    Some(1000)
                } else {
                    Some(0)
                }
            },
        }
    } else {
        // digits, a dot, digits
        let iv = scan_digits_value(s, start, dot);
        let fv = scan_digits_value(s, dot + 1, n);
        let ghost ip = m.take(first_dot(m));
        let ghost fp = m.skip(first_dot(m) + 1);
        proof {
            assert(ip =~= s@.subrange(start as int, dot as int));
            assert(fp =~= s@.subrange(dot + 1, n as int));
        }
        match (iv, fv) {
            (Some(a), Some(_)) => {
                if start == dot || dot + 1 == n {
                    proof {
                        assert(ip.len() == 0 || fp.len() == 0);
                    }
                    return None;
                }
                proof {
                    lemma_digits_val_nonneg(ip);
                }
                if a >= 1 {
                    Some(1000)
                } else {
                    let f = frac3(s, dot + 1, n);
                    Some(f)
                }
            },
            _ => {
                proof {
                    if iv is None {
                        assert(!all_digits(ip) || ip.len() == 0);
                    } else {
                        assert(!all_digits(fp) || fp.len() == 0);
                    }
                }
                None
            },
        }
    }
}

/// The permille of up to the first three fraction digit characters of
/// `s` between `from` and `to`.
fn frac3(s: &str, from: usize, to: usize) -> (r: u32)
    requires
        from < to <= s@.len(),
        all_digits(s@.subrange(from as int, to as int)),
    ensures
        r == frac3_val(s@.subrange(from as int, to as int)),
        r < 1000,
{
    let ghost fp = s@.subrange(from as int, to as int);
    let c0 = s.get_char(from);
    proof {
        assert(fp[0] == s@[from as int]);
        assert(is_digit(fp[0]));
    }
    let mut r: u32 = (c0 as u32 - 48) * 100;
    if to - from >= 2 {
        let c1 = s.get_char(from + 1);
        proof {
            assert(fp[1] == s@[from + 1]);
            assert(is_digit(fp[1]));
        }
        r = r + (c1 as u32 - 48) * 10;
    }
    if to - from >= 3 {
        let c2 = s.get_char(from + 2);
        proof {
            assert(fp[2] == s@[from + 2]);
            assert(is_digit(fp[2]));
        }
        r = r + (c2 as u32 - 48);
    }
    r
}

/// Reads the characters of `s` between `from` and `to` as decimal
/// digits: nothing when the range is empty or holds a non-digit; else
/// their value, exact below full volume and otherwise held above it.
fn scan_digits_value(s: &str, from: usize, to: usize) -> (r: Option<u32>)
    requires
        from <= s@.len(),
        to <= s@.len(),
    ensures
        ({
            let part = s@.subrange(from as int, to as int);
            match r {
                None => from >= to || !all_digits(part),
                Some(acc) => from < to && all_digits(part) && (if digits_val(part) > 1000 {
                    acc > 1000
                } else {
                    acc == digits_val(part)
                }),
            }
        }),
{
    if from >= to {
        return None;
    }
    let ghost part = s@.subrange(from as int, to as int);
    let mut acc: u32 = 0;
    let mut i: usize = from;
    while i < to
        invariant
            from < to <= s@.len(),
            from <= i <= to,
            part == s@.subrange(from as int, to as int),
            all_digits(s@.subrange(from as int, i as int)),
            ({
                let pref = s@.subrange(from as int, i as int);
                if digits_val(pref) > 1000 {
                    acc > 1000 && acc <= 10009
                } else {
                    acc == digits_val(pref) && acc <= 1000
                }
            }),
        decreases to - i,
    {
        let c = s.get_char(i);
        let cv = c as u32;
        if cv < 48 || cv > 57 {
            proof {
                assert(part[i - from] == s@[i as int]);
                assert(!is_digit(part[i - from]));
            }
            return None;
        }
        proof {
            let prefn = s@.subrange(from as int, i + 1);
            assert(prefn.drop_last() =~= s@.subrange(from as int, i as int));
            assert(prefn.last() == s@[i as int]);
            assert(is_digit(s@[i as int]));
            assert(all_digits(prefn)) by {
                assert(forall|j: int|
                    0 <= j < prefn.len() - 1 ==> prefn[j] == (#[trigger] prefn.drop_last()[j]));
            }
            assert(digits_val(prefn) == digits_val(prefn.drop_last()) * 10 + digit_val(
                prefn.last(),
            ));
        }
        if acc <= 1000 {
            acc = acc * 10 + (cv - 48);
        }
        i += 1;
    }
    proof {
        assert(s@.subrange(from as int, to as int) == part);
        lemma_digits_val_nonneg(part);
    }
    Some(acc)
}


/// A digit character carries its value.
proof fn lemma_digit_char_val(d: int)
    requires
        0 <= d < 10,
    ensures
        is_digit(spec_digit_char(d)),
        digit_val(spec_digit_char(d)) == d,
{
}

/// A volume written as a JSON number reads back as itself, clamped into
/// the unit interval: what the wire carries is exactly the volume.
pub proof fn lemma_volume_number_round_trip(v: u32)
    ensures
        spec_parse_volume(spec_volume_number(v as int)) == Some(
            if v >= 1000 {
                1000u32
            } else {
                v
            },
        ),
{
    reveal_with_fuel(first_dot, 4);
    reveal_with_fuel(digits_val, 3);
    let s = spec_volume_number(v as int);
    if v >= 1000 {
        assert(s == seq!['1']);
        assert(first_dot(s) == -1) by {
            assert(s.drop_first() =~= Seq::<char>::empty());
        }
        assert(all_digits(s));
        assert(digits_val(s) == 1) by {
            assert(s.drop_last() =~= Seq::<char>::empty());
        }
        assert(spec_parse_unsigned(s) == Some(1000int));
    } else if v == 0 {
        assert(s == seq!['0']);
        assert(first_dot(s) == -1) by {
            assert(s.drop_first() =~= Seq::<char>::empty());
        }
        assert(all_digits(s));
        assert(digits_val(s) == 0) by {
            assert(s.drop_last() =~= Seq::<char>::empty());
        }
        assert(spec_parse_unsigned(s) == Some(0int));
    } else {
        let d1 = spec_digit_char(v as int / 100);
        let d2 = spec_digit_char(v as int / 10 % 10);
        let d3 = spec_digit_char(v as int % 10);
        lemma_digit_char_val(v as int / 100);
        lemma_digit_char_val(v as int / 10 % 10);
        lemma_digit_char_val(v as int % 10);
        assert(first_dot(s) == 1) by {
            assert(s.drop_first()[0] == '.');
            assert(s[0] == '0');
        }
        let ip = s.take(1);
        let fp = s.skip(2);
        assert(ip =~= seq!['0']);
        assert(all_digits(ip));
        assert(digits_val(ip) == 0) by {
            assert(ip.drop_last() =~= Seq::<char>::empty());
        }
        if v as int % 10 != 0 {
            assert(fp =~= seq![d1, d2, d3]);
            assert(all_digits(fp));
            assert(frac3_val(fp) == (v as int / 100) * 100 + (v as int / 10 % 10) * 10 + v as int
                % 10);
            assert((v as int / 100) * 100 + (v as int / 10 % 10) * 10 + v as int % 10
                == v as int) by {
                assert(v as int == (v as int / 10) * 10 + v as int % 10);
                assert(v as int / 10 == (v as int / 10 / 10) * 10 + v as int / 10 % 10);
                assert(v as int / 10 / 10 == v as int / 100);
            }
            assert(spec_parse_unsigned(s) == Some(v as int));
        } else if v as int % 100 != 0 {
            assert(fp =~= seq![d1, d2]);
            assert(all_digits(fp));
            assert(frac3_val(fp) == (v as int / 100) * 100 + (v as int / 10 % 10) * 10);
            assert((v as int / 100) * 100 + (v as int / 10 % 10) * 10 == v as int) by {
                assert(v as int == (v as int / 10) * 10 + v as int % 10);
                assert(v as int / 10 == (v as int / 10 / 10) * 10 + v as int / 10 % 10);
                assert(v as int / 10 / 10 == v as int / 100);
            }
            assert(spec_parse_unsigned(s) == Some(v as int));
        } else {
            assert(fp =~= seq![d1]);
            assert(all_digits(fp));
            assert(frac3_val(fp) == (v as int / 100) * 100);
            assert((v as int / 100) * 100 == v as int) by {
                assert(v as int == (v as int / 100) * 100 + v as int % 100);
            }
            assert(spec_parse_unsigned(s) == Some(v as int));
        }
        assert(s[0] != '-');
    }
}


} // verus!
