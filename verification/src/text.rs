//! Character-level string helpers shared by the parsers and renderers.
use vstd::prelude::*;

verus! {

/// `String::push` appends one character to the end of the string
/// (std documentation: "Appends the given char to the end of this String").
pub assume_specification[ String::push ](string: &mut String, ch: char)
    ensures
        final(string)@ == old(string)@.push(ch),
;

/// The concatenation of a sequence of character sequences, left to right.
pub open spec fn cat(parts: Seq<Seq<char>>) -> Seq<char>
    decreases parts.len(),
{
    if parts.len() == 0 {
        Seq::empty()
    } else {
        cat(parts.drop_last()) + parts.last()
    }
}

/// The character views of a slice of string slices.
pub open spec fn views(parts: Seq<&str>) -> Seq<Seq<char>> {
    Seq::new(parts.len(), |i: int| parts[i]@)
}

/// Concatenates the given pieces into a fresh `String`.
pub fn concat(parts: &[&str]) -> (r: String)
    ensures
        r@ == cat(views(parts@)),
{
    let mut r = String::new();
    let mut i: usize = 0;
    while i < parts.len()
        invariant
            i <= parts@.len(),
            r@ == cat(views(parts@.subrange(0, i as int))),
        decreases parts@.len() - i,
    {
        proof {
            let pre = parts@.subrange(0, i as int);
            let next = parts@.subrange(0, i + 1);
            assert(views(next).drop_last() =~= views(pre));
            assert(views(next).last() == parts@[i as int]@);
        }
        r.append(parts[i]);
        i = i + 1;
    }
    assert(parts@.subrange(0, parts@.len() as int) =~= parts@);
    r
}

/// `a` followed by `b`.
pub fn cat2(a: &str, b: &str) -> (r: String)
    ensures
        r@ == a@ + b@,
{
    let mut r = a.to_owned();
    r.append(b);
    r
}

pub fn cat3(a: &str, b: &str, c: &str) -> (r: String)
    ensures
        r@ == a@ + b@ + c@,
{
    let mut r = cat2(a, b);
    r.append(c);
    r
}

pub fn cat4(a: &str, b: &str, c: &str, d: &str) -> (r: String)
    ensures
        r@ == a@ + b@ + c@ + d@,
{
    let mut r = cat3(a, b, c);
    r.append(d);
    r
}

pub fn cat5(a: &str, b: &str, c: &str, d: &str, e: &str) -> (r: String)
    ensures
        r@ == a@ + b@ + c@ + d@ + e@,
{
    let mut r = cat4(a, b, c, d);
    r.append(e);
    r
}

pub fn cat6(a: &str, b: &str, c: &str, d: &str, e: &str, f: &str) -> (r: String)
    ensures
        r@ == a@ + b@ + c@ + d@ + e@ + f@,
{
    let mut r = cat5(a, b, c, d, e);
    r.append(f);
    r
}

/// The characters of a string slice, as a vector.
pub fn chars_of(s: &str) -> (v: Vec<char>)
    ensures
        v@ == s@,
{
    let n = s.unicode_len();
    let mut v: Vec<char> = Vec::new();
    let mut i: usize = 0;
    while i < n
        invariant
            n == s@.len(),
            i <= n,
            v@ == s@.subrange(0, i as int),
        decreases n - i,
    {
        let c = s.get_char(i);
        v.push(c);
        i = i + 1;
        assert(v@ =~= s@.subrange(0, i as int));
    }
    assert(v@ =~= s@);
    v
}

/// Builds a `String` from the characters `v[from..to]`.
pub fn string_of(v: &[char], from: usize, to: usize) -> (r: String)
    requires
        from <= to <= v@.len(),
    ensures
        r@ == v@.subrange(from as int, to as int),
{
    let mut r = String::new();
    let mut i: usize = from;
    while i < to
        invariant
            from <= i <= to <= v@.len(),
            r@ == v@.subrange(from as int, i as int),
        decreases to - i,
    {
        r.push(v[i]);
        i = i + 1;
        assert(r@ =~= v@.subrange(from as int, i as int));
    }
    r
}

/// Whether two string slices hold the same characters.
pub fn str_eq(a: &str, b: &str) -> (r: bool)
    ensures
        r == (a@ == b@),
{
    let x = a.to_owned();
    let y = b.to_owned();
    x == y
}

/// Whether `s` occurs in `list`.
pub fn str_in(s: &str, list: &[&str]) -> (r: bool)
    ensures
        r == views(list@).contains(s@),
{
    let mut i: usize = 0;
    while i < list.len()
        invariant
            i <= list@.len(),
            forall|j: int| 0 <= j < i ==> list@[j]@ != s@,
        decreases list@.len() - i,
    {
        if str_eq(s, list[i]) {
            assert(views(list@)[i as int] == s@);
            return true;
        }
        i = i + 1;
    }
    assert forall|j: int| 0 <= j < views(list@).len() implies views(list@)[j] != s@ by {}
    false
}

// ---------------------------------------------------------------------------
// Decimal rendering of integers.

pub open spec fn digit_char(d: nat) -> char {
    (48 + d) as char
}

/// Decimal digits of a natural number, most significant first, no leading zeros.
pub open spec fn dec(n: nat) -> Seq<char>
    decreases n,
{
    if n < 10 {
        seq![digit_char(n)]
    } else {
        dec(n / 10).push(digit_char(n % 10))
    }
}

/// Decimal text of an integer, with a leading `-` when negative.
pub open spec fn dec_int(n: int) -> Seq<char> {
    if n < 0 {
        seq!['-'] + dec((-n) as nat)
    } else {
        dec(n as nat)
    }
}

/// `n` zero characters.
pub open spec fn zeros(n: int) -> Seq<char> {
    Seq::new(if n > 0 { n as nat } else { 0 }, |i: int| '0')
}

/// Decimal text zero-padded to at least `width` characters, the sign counting
/// towards the width (the `{:0w}` format of an integer).
pub open spec fn dec_padded(n: int, width: nat) -> Seq<char> {
    if n < 0 {
        seq!['-'] + zeros(width - 1 - dec((-n) as nat).len()) + dec((-n) as nat)
    } else {
        zeros(width - dec(n as nat).len()) + dec(n as nat)
    }
}

pub proof fn lemma_dec_nonempty(n: nat)
    ensures
        dec(n).len() >= 1,
    decreases n,
{
    if n >= 10 {
        lemma_dec_nonempty(n / 10);
    }
}

/// Decimal text of an unsigned integer.
pub fn u64_text(n: u64) -> (r: String)
    ensures
        r@ == dec(n as nat),
{
    let mut digits: Vec<char> = Vec::new();
    let mut m: u64 = n;
    while m >= 10
        invariant
            dec(n as nat) == dec(m as nat) + digits@,
        decreases m,
    {
        let d = (m % 10) as u32;
        let c = char_of_digit(d);
        proof {
            assert(dec(m as nat) == dec((m / 10) as nat).push(digit_char((m % 10) as nat)));
            assert(dec((m / 10) as nat).push(c) + digits@ =~= dec((m / 10) as nat) + (seq![c] + digits@));
        }
        digits.insert(0, c);
        m = m / 10;
    }
    let c = char_of_digit(m as u32);
    digits.insert(0, c);
    let mut r = String::new();
    let mut i: usize = 0;
    while i < digits.len()
        invariant
            i <= digits@.len(),
            r@ == digits@.subrange(0, i as int),
        decreases digits@.len() - i,
    {
        r.push(digits[i]);
        i = i + 1;
        assert(r@ =~= digits@.subrange(0, i as int));
    }
    assert(digits@.subrange(0, digits@.len() as int) =~= digits@);
    r
}

/// The character of a decimal digit.
pub fn char_of_digit(d: u32) -> (c: char)
    requires
        d < 10,
    ensures
        c == digit_char(d as nat),
{
    match d {
        0 => '0',
        1 => '1',
        2 => '2',
        3 => '3',
        4 => '4',
        5 => '5',
        6 => '6',
        7 => '7',
        8 => '8',
        _ => '9',
    }
}


/// Decimal text of a signed integer.
pub fn i64_text(n: i64) -> (r: String)
    ensures
        r@ == dec_int(n as int),
{
    if n < 0 {
        let m: u64 = ((-(n + 1)) as u64) + 1;
        let d = u64_text(m);
        let mut r = String::from_str("-");
        r.append(d.as_str());
        proof {
            reveal_strlit("-");
            assert(r@ =~= seq!['-'] + dec((-n) as nat));
        }
        r
    } else {
        u64_text(n as u64)
    }
}

/// `count` zero characters.
fn zeros_text(count: usize) -> (r: String)
    ensures
        r@ == zeros(count as int),
{
    let mut r = String::new();
    let mut i: usize = 0;
    while i < count
        invariant
            i <= count,
            r@ == zeros(i as int),
        decreases count - i,
    {
        r.push('0');
        i = i + 1;
        assert(r@ =~= zeros(i as int));
    }
    r
}

/// Decimal text of `n`, zero-padded to `width` characters (`format!("{:0w}", n)`).
pub fn i64_text_padded(n: i64, width: usize) -> (r: String)
    ensures
        r@ == dec_padded(n as int, width as nat),
{
    if n < 0 {
        let m: u64 = ((-(n + 1)) as u64) + 1;
        let d = u64_text(m);
        let len = d.unicode_len();
        let pad: usize = if len < width && width - len > 1 { width - 1 - len } else { 0 };
        let z = zeros_text(pad);
        let mut r = String::from_str("-");
        r.append(z.as_str());
        r.append(d.as_str());
        proof {
            reveal_strlit("-");
            assert(zeros(pad as int) =~= zeros(width - 1 - dec((-n) as nat).len()));
            assert(r@ =~= seq!['-'] + zeros(width - 1 - dec((-n) as nat).len()) + dec((-n) as nat));
        }
        r
    } else {
        let d = u64_text(n as u64);
        let len = d.unicode_len();
        let pad: usize = if width > len { width - len } else { 0 };
        let mut r = zeros_text(pad);
        r.append(d.as_str());
        proof {
            assert(zeros(pad as int) =~= zeros(width - dec(n as nat).len()));
        }
        r
    }
}

// ---------------------------------------------------------------------------
// Integer parsing, as `str::parse` does it for the primitive integer types:
// an optional sign (`+`, or `-` for signed types) followed by one or more
// ASCII digits, the value in range of the type.

pub open spec fn is_digit(c: char) -> bool {
    '0' <= c && c <= '9'
}

pub open spec fn digit_value(c: char) -> int {
    c as int - 48
}

pub open spec fn all_digits(s: Seq<char>) -> bool {
    forall|i: int| 0 <= i < s.len() ==> is_digit(#[trigger] s[i])
}

/// The value of a sequence of decimal digits.
pub open spec fn digits_value(s: Seq<char>) -> int
    decreases s.len(),
{
    if s.len() == 0 {
        0
    } else {
        digits_value(s.drop_last()) * 10 + digit_value(s.last())
    }
}

/// The integer that `s` spells, if it is an optional sign and one or more digits.
pub open spec fn int_syntax(s: Seq<char>, signed: bool) -> Option<int> {
    let neg = signed && s.len() > 0 && s[0] == '-';
    let start: int = if s.len() > 0 && (s[0] == '+' || neg) { 1 } else { 0 };
    let body = s.subrange(start, s.len() as int);
    if body.len() == 0 || !all_digits(body) {
        None
    } else if neg {
        Some(-digits_value(body))
    } else {
        Some(digits_value(body))
    }
}

/// What `str::parse` of an integer type with the range `lo..=hi` gives.
pub open spec fn parse_int_spec(s: Seq<char>, signed: bool, lo: int, hi: int) -> Option<int> {
    match int_syntax(s, signed) {
        Some(v) => if lo <= v <= hi { Some(v) } else { None },
        None => None,
    }
}

pub proof fn lemma_digits_nonneg(s: Seq<char>)
    requires
        all_digits(s),
    ensures
        digits_value(s) >= 0,
    decreases s.len(),
{
    if s.len() > 0 {
        lemma_digits_nonneg(s.drop_last());
    }
}

pub proof fn lemma_digits_prefix_le(s: Seq<char>, k: int)
    requires
        all_digits(s),
        0 <= k <= s.len(),
    ensures
        digits_value(s.subrange(0, k)) <= digits_value(s),
    decreases s.len() - k,
{
    if k < s.len() {
        lemma_digits_prefix_le(s, k + 1);
        let p = s.subrange(0, k + 1);
        assert(p.drop_last() =~= s.subrange(0, k));
        lemma_digits_nonneg(s.subrange(0, k));
    } else {
        assert(s.subrange(0, k) =~= s);
    }
}

/// Parses an integer in `lo..=hi`; `signed` allows a leading `-`.
fn parse_int(s: &str, signed: bool, lo: i64, hi: i64) -> (r: Option<i64>)
    requires
        lo <= 0 <= hi,
        !signed ==> lo == 0,
        signed ==> lo < 0,
    ensures
        r == match parse_int_spec(s@, signed, lo as int, hi as int) {
            Some(v) => Some(v as i64),
            None => None::<i64>,
        },
{
    let v = chars_of(s);
    let n = v.len();
    let neg = signed && n > 0 && v[0] == '-';
    let start: usize = if n > 0 && (v[0] == '+' || neg) { 1 } else { 0 };
    let ghost body = s@.subrange(start as int, n as int);
    if start >= n {
        assert(body.len() == 0);
        return None;
    }
    assert(neg ==> lo + 1 <= 0);
    let limit: u64 = if neg { ((-(lo + 1)) as u64) + 1 } else { hi as u64 };
    let mut acc: u64 = 0;
    let mut i: usize = start;
    while i < n
        invariant
            v@ == s@,
            n == v@.len(),
            start <= i <= n,
            start == 0 || start == 1,
            body == s@.subrange(start as int, n as int),
            all_digits(s@.subrange(start as int, i as int)),
            acc as int == digits_value(s@.subrange(start as int, i as int)),
            acc <= limit,
            neg ==> limit as int == -(lo as int),
            !neg ==> limit as int == hi as int,
            neg == (signed && n > 0 && s@[0] == '-'),
            start == (if n > 0 && (s@[0] == '+' || neg) { 1usize } else { 0usize }),
        decreases n - i,
    {
        let c = v[i];
        if !('0' <= c && c <= '9') {
            proof {
                assert(body[i - start] == c);
                assert(!is_digit(body[i - start]));
                assert(!all_digits(body));
            }
            return None;
        }
        let d = (c as u32 - 48) as u64;
        proof {
            let p = s@.subrange(start as int, i + 1);
            assert(p.drop_last() =~= s@.subrange(start as int, i as int));
            assert(p.last() == c);
            assert(all_digits(p));
        }
        if d > limit || acc > (limit - d) / 10 {
            proof {
                let p = s@.subrange(start as int, i + 1);
                assert(digits_value(p) == acc * 10 + d);
                assert(acc * 10 + d > limit) by (nonlinear_arith)
                    requires d > limit || acc > (limit - d) / 10, limit >= 0, d >= 0, acc >= 0;
                // the rest, if all digits, only grows
                if all_digits(body) {
                    lemma_digits_prefix_le(body, i + 1 - start);
                    assert(body.subrange(0, i + 1 - start) =~= p);
                }
            }
            return None;
        }
        assert(acc * 10 + d <= limit) by (nonlinear_arith)
            requires acc <= (limit - d) / 10, d <= limit, acc >= 0;
        acc = acc * 10 + d;
        i = i + 1;
    }
    assert(s@.subrange(start as int, n as int) =~= body);
    if neg {
        let r: i64 = if acc == 0 { 0 } else { -((acc - 1) as i64) - 1 };
        Some(r)
    } else {
        Some(acc as i64)
    }
}

/// `s.parse::<u64>().ok()`: an optional `+` and one or more digits, at most `u64::MAX`.
pub fn parse_u64(s: &str) -> (r: Option<u64>)
    ensures
        r == match parse_int_spec(s@, false, 0, u64::MAX as int) {
            Some(v) => Some(v as u64),
            None => None::<u64>,
        },
{
    let v = chars_of(s);
    let n = v.len();
    let start: usize = if n > 0 && v[0] == '+' { 1 } else { 0 };
    let ghost body = s@.subrange(start as int, n as int);
    if start >= n {
        assert(body.len() == 0);
        return None;
    }
    let limit: u64 = u64::MAX;
    let mut acc: u64 = 0;
    let mut i: usize = start;
    while i < n
        invariant
            v@ == s@,
            n == v@.len(),
            start <= i <= n,
            start == 0 || start == 1,
            body == s@.subrange(start as int, n as int),
            all_digits(s@.subrange(start as int, i as int)),
            acc as int == digits_value(s@.subrange(start as int, i as int)),
            limit == u64::MAX,
            start == (if n > 0 && s@[0] == '+' { 1usize } else { 0usize }),
        decreases n - i,
    {
        let c = v[i];
        if !('0' <= c && c <= '9') {
            proof {
                assert(body[i - start] == c);
                assert(!is_digit(body[i - start]));
                assert(!all_digits(body));
            }
            return None;
        }
        let d = (c as u32 - 48) as u64;
        proof {
            let p = s@.subrange(start as int, i + 1);
            assert(p.drop_last() =~= s@.subrange(start as int, i as int));
            assert(p.last() == c);
            assert(all_digits(p));
        }
        if acc > (limit - d) / 10 {
            proof {
                let p = s@.subrange(start as int, i + 1);
                assert(digits_value(p) == acc * 10 + d);
                assert(acc * 10 + d > limit) by (nonlinear_arith)
                    requires acc > (limit - d) / 10, limit >= d, d >= 0, acc >= 0;
                if all_digits(body) {
                    lemma_digits_prefix_le(body, i + 1 - start);
                    assert(body.subrange(0, i + 1 - start) =~= p);
                }
            }
            return None;
        }
        assert(acc * 10 + d <= limit) by (nonlinear_arith)
            requires acc <= (limit - d) / 10, d <= limit, acc >= 0;
        acc = acc * 10 + d;
        i = i + 1;
    }
    assert(s@.subrange(start as int, n as int) =~= body);
    proof {
        lemma_digits_nonneg(body);
    }
    Some(acc)
}

/// `s.parse::<u32>().ok()`.
pub fn parse_u32(s: &str) -> (r: Option<u32>)
    ensures
        r == match parse_int_spec(s@, false, 0, u32::MAX as int) {
            Some(v) => Some(v as u32),
            None => None::<u32>,
        },
{
    match parse_int(s, false, 0, u32::MAX as i64) {
        Some(v) => Some(v as u32),
        None => None,
    }
}

/// `s.parse::<i32>().ok()`.
pub fn parse_i32(s: &str) -> (r: Option<i32>)
    ensures
        r == match parse_int_spec(s@, true, i32::MIN as int, i32::MAX as int) {
            Some(v) => Some(v as i32),
            None => None::<i32>,
        },
{
    match parse_int(s, true, i32::MIN as i64, i32::MAX as i64) {
        Some(v) => Some(v as i32),
        None => None,
    }
}


// ---------------------------------------------------------------------------
// Whitespace, trimming, splitting, case.

/// Unicode `White_Space`, as `char::is_whitespace` tests it.
pub open spec fn is_ws(c: char) -> bool {
    ||| ('\u{9}' <= c && c <= '\u{d}')
    ||| c == ' '
    ||| c == '\u{85}'
    ||| c == '\u{a0}'
    ||| c == '\u{1680}'
    ||| ('\u{2000}' <= c && c <= '\u{200a}')
    ||| c == '\u{2028}'
    ||| c == '\u{2029}'
    ||| c == '\u{202f}'
    ||| c == '\u{205f}'
    ||| c == '\u{3000}'
}

pub fn is_whitespace(c: char) -> (r: bool)
    ensures
        r == is_ws(c),
{
    ('\u{9}' <= c && c <= '\u{d}') || c == ' ' || c == '\u{85}' || c == '\u{a0}' || c == '\u{1680}'
        || ('\u{2000}' <= c && c <= '\u{200a}') || c == '\u{2028}' || c == '\u{2029}' || c
        == '\u{202f}' || c == '\u{205f}' || c == '\u{3000}'
}

pub open spec fn trim_start_seq(s: Seq<char>) -> Seq<char>
    decreases s.len(),
{
    if s.len() > 0 && is_ws(s[0]) {
        trim_start_seq(s.drop_first())
    } else {
        s
    }
}

pub open spec fn trim_end_seq(s: Seq<char>) -> Seq<char>
    decreases s.len(),
{
    if s.len() > 0 && is_ws(s.last()) {
        trim_end_seq(s.drop_last())
    } else {
        s
    }
}

/// `str::trim`: leading and trailing whitespace removed.
pub open spec fn trim_seq(s: Seq<char>) -> Seq<char> {
    trim_end_seq(trim_start_seq(s))
}

/// Bounds of `v[from..to]` with surrounding whitespace removed.
pub fn trim_bounds(v: &[char], from: usize, to: usize) -> (r: (usize, usize))
    requires
        from <= to <= v@.len(),
    ensures
        from <= r.0 <= r.1 <= to,
        v@.subrange(r.0 as int, r.1 as int) == trim_seq(v@.subrange(from as int, to as int)),
{
    let mut a = from;
    while a < to && is_whitespace(v[a])
        invariant
            from <= a <= to <= v@.len(),
            trim_start_seq(v@.subrange(from as int, to as int)) == trim_start_seq(
                v@.subrange(a as int, to as int),
            ),
        decreases to - a,
    {
        assert(v@.subrange(a as int, to as int).drop_first() =~= v@.subrange(a + 1, to as int));
        a = a + 1;
    }
    assert(trim_start_seq(v@.subrange(a as int, to as int)) == v@.subrange(a as int, to as int));
    let mut b = to;
    while b > a && is_whitespace(v[b - 1])
        invariant
            from <= a <= b <= to <= v@.len(),
            trim_end_seq(v@.subrange(a as int, to as int)) == trim_end_seq(
                v@.subrange(a as int, b as int),
            ),
        decreases b - a,
    {
        assert(v@.subrange(a as int, b as int).drop_last() =~= v@.subrange(a as int, b - 1));
        b = b - 1;
    }
    (a, b)
}

/// `str::trim_end_matches(c)`: trailing copies of `c` removed.
pub open spec fn strip_end_seq(s: Seq<char>, c: char) -> Seq<char>
    decreases s.len(),
{
    if s.len() > 0 && s.last() == c {
        strip_end_seq(s.drop_last(), c)
    } else {
        s
    }
}

pub fn strip_end(s: &str, c: char) -> (r: String)
    ensures
        r@ == strip_end_seq(s@, c),
{
    let v = chars_of(s);
    let mut b = v.len();
    assert(v@.subrange(0, b as int) =~= s@);
    while b > 0 && v[b - 1] == c
        invariant
            b <= v@.len(),
            v@ == s@,
            strip_end_seq(s@, c) == strip_end_seq(v@.subrange(0, b as int), c),
        decreases b,
    {
        assert(v@.subrange(0, b as int).drop_last() =~= v@.subrange(0, b - 1));
        b = b - 1;
    }
    assert(v@.subrange(0, v@.len() as int) =~= s@);
    string_of(&v, 0, b)
}

/// `str::split(sep)`: the pieces between separators (at least one piece).
pub open spec fn split_seq(s: Seq<char>, sep: char) -> Seq<Seq<char>>
    decreases s.len(),
{
    if s.len() == 0 {
        seq![Seq::empty()]
    } else {
        let init = split_seq(s.drop_last(), sep);
        if s.last() == sep {
            init.push(Seq::empty())
        } else {
            init.update(init.len() - 1, init.last().push(s.last()))
        }
    }
}

pub proof fn lemma_split_nonempty(s: Seq<char>, sep: char)
    ensures
        split_seq(s, sep).len() >= 1,
    decreases s.len(),
{
    if s.len() > 0 {
        lemma_split_nonempty(s.drop_last(), sep);
    }
}

/// The character views of a vector of strings.
pub open spec fn string_views(v: Seq<String>) -> Seq<Seq<char>> {
    Seq::new(v.len(), |i: int| v[i]@)
}

/// Splits `v[from..to]` at every `sep`, as `str::split` does.
pub fn split_chars(v: &[char], from: usize, to: usize, sep: char) -> (r: Vec<String>)
    requires
        from <= to <= v@.len(),
    ensures
        string_views(r@) == split_seq(v@.subrange(from as int, to as int), sep),
{
    let mut done: Vec<String> = Vec::new();
    let mut start = from;
    let mut i = from;
    proof {
        assert(v@.subrange(from as int, i as int) =~= Seq::<char>::empty());
        assert(string_views(done@) =~= Seq::<Seq<char>>::empty());
        assert(split_seq(Seq::<char>::empty(), sep) =~= string_views(done@).push(Seq::<char>::empty()));
    }
    while i < to
        invariant
            from <= start <= i <= to <= v@.len(),
            split_seq(v@.subrange(from as int, i as int), sep) == string_views(done@).push(
                v@.subrange(start as int, i as int),
            ),
            forall|j: int| start <= j < i ==> v@[j] != sep,
        decreases to - i,
    {
        let ghost pre = v@.subrange(from as int, i as int);
        proof {
            assert(v@.subrange(from as int, i + 1).drop_last() =~= pre);
        }
        if v[i] == sep {
            let piece = string_of(v, start, i);
            done.push(piece);
            start = i + 1;
            proof {
                assert(string_views(done@) =~= string_views(done@.drop_last()).push(piece@));
                assert(v@.subrange(start as int, i + 1) =~= Seq::<char>::empty());
            }
        } else {
            proof {
                assert(v@.subrange(start as int, i + 1) =~= v@.subrange(start as int, i as int).push(v@[i as int]));
                let sv = string_views(done@).push(v@.subrange(start as int, i as int));
                assert(sv.update(sv.len() - 1, sv.last().push(v@[i as int])) =~= string_views(done@).push(v@.subrange(start as int, i + 1)));
            }
        }
        i = i + 1;
    }
    let piece = string_of(v, start, to);
    done.push(piece);
    proof {
        assert(string_views(done@) =~= string_views(done@.drop_last()).push(piece@));
    }
    done
}

/// ASCII lower-casing of one character.
pub open spec fn lower_char(c: char) -> char {
    if 'A' <= c && c <= 'Z' {
        ((c as int) + 32) as char
    } else {
        c
    }
}

/// `str::to_ascii_lowercase`, on characters.
pub open spec fn lower_seq(s: Seq<char>) -> Seq<char> {
    Seq::new(s.len(), |i: int| lower_char(s[i]))
}

pub fn to_lower_char(c: char) -> (r: char)
    ensures
        r == lower_char(c),
{
    if 'A' <= c && c <= 'Z' {
        char_add_32(c)
    } else {
        c
    }
}

fn char_add_32(c: char) -> (r: char)
    requires
        'A' <= c && c <= 'Z',
    ensures
        r == ((c as int) + 32) as char,
{
    match c {
        'A' => 'a', 'B' => 'b', 'C' => 'c', 'D' => 'd', 'E' => 'e', 'F' => 'f', 'G' => 'g',
        'H' => 'h', 'I' => 'i', 'J' => 'j', 'K' => 'k', 'L' => 'l', 'M' => 'm', 'N' => 'n',
        'O' => 'o', 'P' => 'p', 'Q' => 'q', 'R' => 'r', 'S' => 's', 'T' => 't', 'U' => 'u',
        'V' => 'v', 'W' => 'w', 'X' => 'x', 'Y' => 'y', _ => 'z',
    }
}

/// `s.to_ascii_lowercase()`.
pub fn ascii_lowercase(s: &str) -> (r: String)
    ensures
        r@ == lower_seq(s@),
{
    let v = chars_of(s);
    let mut r = String::new();
    let mut i: usize = 0;
    while i < v.len()
        invariant
            v@ == s@,
            i <= v@.len(),
            r@ == lower_seq(s@.subrange(0, i as int)),
        decreases v@.len() - i,
    {
        let c = to_lower_char(v[i]);
        r.push(c);
        i = i + 1;
        assert(r@ =~= lower_seq(s@.subrange(0, i as int)));
    }
    assert(s@.subrange(0, v@.len() as int) =~= s@);
    r
}

/// Whether `p` is a prefix of `s`.
pub open spec fn is_prefix(p: Seq<char>, s: Seq<char>) -> bool {
    p.len() <= s.len() && s.subrange(0, p.len() as int) == p
}

/// `s.starts_with(p)`.
pub fn starts_with(s: &[char], p: &str) -> (r: bool)
    ensures
        r == is_prefix(p@, s@),
{
    let pv = chars_of(p);
    if pv.len() > s.len() {
        return false;
    }
    let mut i: usize = 0;
    while i < pv.len()
        invariant
            pv@ == p@,
            pv@.len() <= s@.len(),
            i <= pv@.len(),
            forall|j: int| 0 <= j < i ==> s@[j] == p@[j],
        decreases pv@.len() - i,
    {
        if s[i] != pv[i] {
            assert(s@.subrange(0, p@.len() as int)[i as int] != p@[i as int]);
            return false;
        }
        i = i + 1;
    }
    assert(s@.subrange(0, p@.len() as int) =~= p@);
    true
}

/// `s.strip_prefix(p)`: the rest of `s` after the prefix `p`, if `s` starts with it.
pub fn strip_prefix(s: &str, p: &str) -> (r: Option<String>)
    ensures
        match r {
            Some(t) => is_prefix(p@, s@) && t@ == s@.subrange(p@.len() as int, s@.len() as int),
            None => !is_prefix(p@, s@),
        },
{
    let v = chars_of(s);
    if starts_with(&v, p) {
        let n = p.unicode_len();
        Some(string_of(&v, n, v.len()))
    } else {
        None
    }
}

/// The first index of `c` in `s`, if any.
pub fn find_char(s: &[char], c: char) -> (r: Option<usize>)
    ensures
        match r {
            Some(i) => i < s@.len() && s@[i as int] == c && forall|j: int| 0 <= j < i ==> s@[j] != c,
            None => forall|j: int| 0 <= j < s@.len() ==> s@[j] != c,
        },
{
    let mut i: usize = 0;
    while i < s.len()
        invariant
            i <= s@.len(),
            forall|j: int| 0 <= j < i ==> s@[j] != c,
        decreases s@.len() - i,
    {
        if s[i] == c {
            return Some(i);
        }
        i = i + 1;
    }
    None
}

/// What `format!("{:?}", s)` gives for a string slice (std's `Debug` for `str`:
/// quoted, with escapes).
pub uninterp spec fn debug_text(s: Seq<char>) -> Seq<char>;

/// `format!("{:?}", s)`, std's `Debug` rendering of a string slice.
#[verifier::external_body]
pub(crate) fn debug_str(s: &str) -> (r: String)
    ensures
        r@ == debug_text(s@),
{
    format!("{:?}", s)
}


// ---------------------------------------------------------------------------
// Ordering of strings (code point order, which is also the byte order of
// their UTF-8 encodings and so the order of `String`'s `Ord`).

pub open spec fn seq_lt(a: Seq<char>, b: Seq<char>) -> bool
    decreases a.len(),
{
    if a.len() == 0 {
        b.len() > 0
    } else if b.len() == 0 {
        false
    } else if a[0] != b[0] {
        a[0] < b[0]
    } else {
        seq_lt(a.drop_first(), b.drop_first())
    }
}

/// `a < b` for the characters of two strings.
pub fn chars_lt(a: &[char], b: &[char]) -> (r: bool)
    ensures
        r == seq_lt(a@, b@),
{
    let mut i: usize = 0;
    assert(a@.subrange(0, a@.len() as int) =~= a@);
    assert(b@.subrange(0, b@.len() as int) =~= b@);
    while i < a.len() && i < b.len() && a[i] == b[i]
        invariant
            i <= a@.len(),
            i <= b@.len(),
            seq_lt(a@, b@) == seq_lt(a@.subrange(i as int, a@.len() as int), b@.subrange(i as int, b@.len() as int)),
        decreases a@.len() - i,
    {
        let ghost x = a@.subrange(i as int, a@.len() as int);
        let ghost y = b@.subrange(i as int, b@.len() as int);
        assert(x.drop_first() =~= a@.subrange(i + 1, a@.len() as int));
        assert(y.drop_first() =~= b@.subrange(i + 1, b@.len() as int));
        i = i + 1;
    }
    if i == a.len() {
        i < b.len()
    } else if i == b.len() {
        false
    } else {
        a[i] < b[i]
    }
}

pub fn str_lt(a: &str, b: &str) -> (r: bool)
    ensures
        r == seq_lt(a@, b@),
{
    let x = chars_of(a);
    let y = chars_of(b);
    chars_lt(&x, &y)
}

/// The position at which `k` belongs in an ascending list of keyed entries:
/// the number of leading entries whose key is smaller.
pub open spec fn pos_of<V>(entries: Seq<(Seq<char>, V)>, k: Seq<char>) -> nat
    decreases entries.len(),
{
    if entries.len() > 0 && seq_lt(entries[0].0, k) {
        1 + pos_of(entries.drop_first(), k)
    } else {
        0
    }
}

pub proof fn lemma_pos_of_bound<V>(entries: Seq<(Seq<char>, V)>, k: Seq<char>)
    ensures
        pos_of(entries, k) <= entries.len(),
        forall|j: int| 0 <= j < pos_of(entries, k) ==> seq_lt(#[trigger] entries[j].0, k),
        pos_of(entries, k) < entries.len() ==> !seq_lt(entries[pos_of(entries, k) as int].0, k),
    decreases entries.len(),
{
    if entries.len() > 0 && seq_lt(entries[0].0, k) {
        lemma_pos_of_bound(entries.drop_first(), k);
        assert forall|j: int| 0 <= j < pos_of(entries, k) implies seq_lt(#[trigger] entries[j].0, k) by {
            if j > 0 {
                assert(entries[j] == entries.drop_first()[j - 1]);
            }
        }
    }
}

/// Whether the entry at `pos_of(entries, k)` has the key `k`.
pub open spec fn has_at_pos<V>(entries: Seq<(Seq<char>, V)>, k: Seq<char>) -> bool {
    pos_of(entries, k) < entries.len() && entries[pos_of(entries, k) as int].0 == k
}

/// Ordered-map insertion: replaces the value of `k` where it sits, or inserts
/// `(k, v)` where `k` belongs.
pub open spec fn put<V>(entries: Seq<(Seq<char>, V)>, k: Seq<char>, v: V) -> Seq<(Seq<char>, V)> {
    if has_at_pos(entries, k) {
        entries.update(pos_of(entries, k) as int, (k, v))
    } else {
        entries.insert(pos_of(entries, k) as int, (k, v))
    }
}

/// The position at which `k` belongs in an ascending list of keys.
pub open spec fn kpos(keys: Seq<Seq<char>>, k: Seq<char>) -> nat
    decreases keys.len(),
{
    if keys.len() > 0 && seq_lt(keys[0], k) {
        1 + kpos(keys.drop_first(), k)
    } else {
        0
    }
}

/// Ordered-set insertion (`BTreeSet::insert`): `k` is added where it belongs
/// unless it is already there.
pub open spec fn set_put(keys: Seq<Seq<char>>, k: Seq<char>) -> Seq<Seq<char>> {
    let p = kpos(keys, k);
    if p < keys.len() && keys[p as int] == k {
        keys
    } else {
        keys.insert(p as int, k)
    }
}

/// Inserts `k` into an ascending key list (see [`set_put`]).
pub fn set_insert(keys: &mut Vec<String>, k: &str)
    ensures
        string_views(final(keys)@) == set_put(string_views(old(keys)@), k@),
{
    let ghost sv = string_views(keys@);
    let mut i: usize = 0;
    assert(sv.subrange(0, sv.len() as int) =~= sv);
    while i < keys.len() && str_lt(keys[i].as_str(), k)
        invariant
            i <= keys@.len(),
            sv == string_views(keys@),
            kpos(sv, k@) == i + kpos(sv.subrange(i as int, sv.len() as int), k@),
        decreases keys@.len() - i,
    {
        let ghost rest = sv.subrange(i as int, sv.len() as int);
        assert(rest.drop_first() =~= sv.subrange(i + 1, sv.len() as int));
        assert(rest[0] == keys@[i as int]@);
        i = i + 1;
    }
    proof {
        let rest = sv.subrange(i as int, sv.len() as int);
        if i < keys@.len() {
            assert(rest[0] == keys@[i as int]@);
        }
        assert(kpos(rest, k@) == 0);
    }
    if i < keys.len() && str_eq(keys[i].as_str(), k) {
        return;
    }
    keys.insert(i, k.to_owned());
    assert(string_views(keys@) =~= sv.insert(i as int, k@));
}

/// The pieces joined with `sep` between them.
pub open spec fn join(parts: Seq<Seq<char>>, sep: Seq<char>) -> Seq<char>
    decreases parts.len(),
{
    if parts.len() == 0 {
        Seq::empty()
    } else if parts.len() == 1 {
        parts[0]
    } else {
        join(parts.drop_last(), sep) + sep + parts.last()
    }
}

/// `parts.join(sep)`.
pub fn join_strings(parts: &Vec<String>, sep: &str) -> (r: String)
    ensures
        r@ == join(string_views(parts@), sep@),
{
    let mut r = String::new();
    let mut i: usize = 0;
    while i < parts.len()
        invariant
            i <= parts@.len(),
            r@ == join(string_views(parts@.subrange(0, i as int)), sep@),
        decreases parts@.len() - i,
    {
        let ghost pre = string_views(parts@.subrange(0, i as int));
        let ghost next = string_views(parts@.subrange(0, i + 1));
        assert(next.drop_last() =~= pre);
        if i > 0 {
            r.append(sep);
        }
        r.append(parts[i].as_str());
        i = i + 1;
    }
    assert(parts@.subrange(0, parts@.len() as int) =~= parts@);
    r
}

} // verus!
