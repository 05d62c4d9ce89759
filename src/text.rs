use vstd::prelude::*;

verus! {

/// Why a run of characters is not an integer of the wanted range.
#[derive(Clone, Copy, Debug, PartialEq, Eq, Structural)]
pub enum NumberError {
    /// Nothing was given.
    Empty,
    /// A character other than a digit, or a sign with no digits after it.
    InvalidDigit,
    /// The value is above the largest allowed.
    PosOverflow,
    /// The value is below the smallest allowed.
    NegOverflow,
}

impl NumberError {
    pub fn message(&self) -> (r: String)
        ensures
            r@ == number_error_text(*self),
    {
        match self {
            NumberError::Empty => String::from_str("cannot parse integer from empty string"),
            NumberError::InvalidDigit => String::from_str("invalid digit found in string"),
            NumberError::PosOverflow => String::from_str("number too large to fit in target type"),
            NumberError::NegOverflow => String::from_str("number too small to fit in target type"),
        }
    }
}

pub open spec fn number_error_text(e: NumberError) -> Seq<char> {
    match e {
        NumberError::Empty => "cannot parse integer from empty string"@,
        NumberError::InvalidDigit => "invalid digit found in string"@,
        NumberError::PosOverflow => "number too large to fit in target type"@,
        NumberError::NegOverflow => "number too small to fit in target type"@,
    }
}

/// The characters that carry Unicode's White_Space property
/// (PropList.txt): U+0009..U+000D, U+0020, U+0085, U+00A0, U+1680,
/// U+2000..U+200A, U+2028, U+2029, U+202F, U+205F and U+3000.
pub open spec fn white_space(c: char) -> bool {
    let n = c as u32;
    (0x09 <= n <= 0x0d) || n == 0x20 || n == 0x85 || n == 0xa0 || n == 0x1680 || (0x2000 <= n
        <= 0x200a) || n == 0x2028 || n == 0x2029 || n == 0x202f || n == 0x205f || n == 0x3000
}

/// Relies on `char::is_whitespace`: true exactly of the White_Space characters.
#[verifier::external_body]
pub(crate) fn is_white_space(c: char) -> (r: bool)
    ensures
        r == white_space(c),
{
    c.is_whitespace()
}

/// Relies on `str::chars` collected into a `Vec`: the characters of `s`, in order.
#[verifier::external_body]
pub(crate) fn chars_of(s: &str) -> (r: Vec<char>)
    ensures
        r@ == s@,
{
    s.chars().collect()
}

/// Relies on `String::push`: appends one character.
#[verifier::external_body]
pub(crate) fn push_char(s: &mut String, c: char)
    ensures
        final(s)@ == old(s)@.push(c),
{
    s.push(c)
}

/// `s` with leading white space removed.
pub open spec fn trim_start(s: Seq<char>) -> Seq<char>
    decreases s.len(),
{
    if s.len() > 0 && white_space(s[0]) {
        trim_start(s.drop_first())
    } else {
        s
    }
}

/// `s` with trailing white space removed.
pub open spec fn trim_end(s: Seq<char>) -> Seq<char>
    decreases s.len(),
{
    if s.len() > 0 && white_space(s.last()) {
        trim_end(s.drop_last())
    } else {
        s
    }
}

/// `s` with white space removed from both ends.
pub open spec fn trim(s: Seq<char>) -> Seq<char> {
    trim_end(trim_start(s))
}

/// Splits `s` at every `sep`: `n` separators give `n + 1` fields, some maybe empty.
pub open spec fn split(s: Seq<char>, sep: char) -> Seq<Seq<char>>
    decreases s.len(),
{
    if s.len() == 0 {
        seq![Seq::<char>::empty()]
    } else {
        let r = split(s.drop_last(), sep);
        if s.last() == sep {
            r.push(Seq::<char>::empty())
        } else {
            r.update(r.len() - 1, r.last().push(s.last()))
        }
    }
}

/// `i` is where `sep` first occurs in `s`.
pub open spec fn is_first(s: Seq<char>, sep: char, i: int) -> bool {
    0 <= i < s.len() && s[i] == sep && forall|j: int| 0 <= j < i ==> s[j] != sep
}

/// The parts of `s` before and after the first `sep`, if there is one.
pub open spec fn split_once(s: Seq<char>, sep: char) -> Option<(Seq<char>, Seq<char>)> {
    if exists|i: int| is_first(s, sep, i) {
        let i = choose|i: int| is_first(s, sep, i);
        Some((s.subrange(0, i), s.subrange(i + 1, s.len() as int)))
    } else {
        None
    }
}

/// The value of `c` as a digit of base `radix` (10 or 16), if it is one.
pub open spec fn digit_value(c: char, radix: u32) -> Option<int> {
    if '0' <= c <= '9' {
        Some(c as int - '0' as int)
    } else if radix == 16 && 'a' <= c <= 'f' {
        Some(c as int - 'a' as int + 10)
    } else if radix == 16 && 'A' <= c <= 'F' {
        Some(c as int - 'A' as int + 10)
    } else {
        None
    }
}

pub open spec fn all_digits(s: Seq<char>, radix: u32) -> bool {
    forall|i: int| 0 <= i < s.len() ==> (#[trigger] digit_value(s[i], radix)) is Some
}

/// The value of the digits `s`, most significant first.
pub open spec fn digits_value(s: Seq<char>, radix: u32) -> int
    decreases s.len(),
{
    if s.len() == 0 {
        0
    } else {
        radix * digits_value(s.drop_last(), radix) + digit_value(s.last(), radix).unwrap_or(0)
    }
}

/// Reads `s` as an integer of base `radix` within `[min, max]`: an optional
/// `+` (or `-` where `min` is negative), then at least one digit.
pub open spec fn parse_int(s: Seq<char>, radix: u32, min: int, max: int) -> Result<int, NumberError> {
    if s.len() == 0 {
        Err(NumberError::Empty)
    } else {
        let negative = s[0] == '-' && min < 0;
        let body = if s[0] == '+' || negative {
            s.drop_first()
        } else {
            s
        };
        if body.len() == 0 || !all_digits(body, radix) {
            Err(NumberError::InvalidDigit)
        } else {
            let v = if negative {
                -digits_value(body, radix)
            } else {
                digits_value(body, radix)
            };
            if v > max {
                Err(NumberError::PosOverflow)
            } else if v < min {
                Err(NumberError::NegOverflow)
            } else {
                Ok(v)
            }
        }
    }
}

/// The character of the decimal digit `d`.
pub open spec fn digit_char(d: int) -> char {
    ('0' as int + d) as char
}

/// The shortest decimal numeral of `n`.
pub open spec fn dec_nat(n: nat) -> Seq<char>
    decreases n,
{
    if n < 10 {
        seq![digit_char(n as int)]
    } else {
        dec_nat(n / 10).push(digit_char(n as int % 10))
    }
}

/// The decimal numeral of `n`, with `-` before a negative one.
pub open spec fn dec_int(n: int) -> Seq<char> {
    if n < 0 {
        seq!['-'].add(dec_nat((-n) as nat))
    } else {
        dec_nat(n as nat)
    }
}

/// Copies `s[from..to]`.
pub fn slice(s: &Vec<char>, from: usize, to: usize) -> (r: Vec<char>)
    requires
        from <= to <= s.len(),
    ensures
        r@ == s@.subrange(from as int, to as int),
{
    let mut r: Vec<char> = Vec::new();
    let mut i: usize = from;
    while i < to
        invariant
            from <= i <= to <= s.len(),
            r@ == s@.subrange(from as int, i as int),
        decreases to - i,
    {
        r.push(s[i]);
        i = i + 1;
    }
    r
}

proof fn lemma_trim_start_skip(s: Seq<char>, i: int)
    requires
        0 <= i <= s.len(),
        forall|j: int| 0 <= j < i ==> white_space(s[j]),
    ensures
        trim_start(s) == trim_start(s.subrange(i, s.len() as int)),
    decreases i,
{
    if i > 0 {
        assert(s.drop_first() == s.subrange(1, s.len() as int));
        assert(white_space(s[0]));
        assert forall|j: int| 0 <= j < i - 1 implies white_space(s.drop_first()[j]) by {
            assert(s.drop_first()[j] == s[j + 1]);
        }
        lemma_trim_start_skip(s.drop_first(), i - 1);
        assert(s.drop_first().subrange(i - 1, s.drop_first().len() as int) == s.subrange(
            i,
            s.len() as int,
        ));
    } else {
        assert(s.subrange(0, s.len() as int) == s);
    }
}

proof fn lemma_trim_end_skip(s: Seq<char>, k: int)
    requires
        0 <= k <= s.len(),
        forall|j: int| k <= j < s.len() ==> white_space(s[j]),
    ensures
        trim_end(s) == trim_end(s.subrange(0, k)),
    decreases s.len() - k,
{
    if k < s.len() {
        assert(s.drop_last() == s.subrange(0, s.len() - 1));
        lemma_trim_end_skip(s.drop_last(), k);
        assert(s.drop_last().subrange(0, k) == s.subrange(0, k));
    } else {
        assert(s.subrange(0, k) == s);
    }
}

/// `s` with white space removed from both ends.
pub fn trim_chars(s: &Vec<char>) -> (r: Vec<char>)
    ensures
        r@ == trim(s@),
{
    let mut start: usize = 0;
    while start < s.len() && is_white_space(s[start])
        invariant
            start <= s.len(),
            forall|j: int| 0 <= j < start ==> white_space(s@[j]),
        decreases s.len() - start,
    {
        start = start + 1;
    }
    proof {
        lemma_trim_start_skip(s@, start as int);
    }
    let ghost rest = s@.subrange(start as int, s.len() as int);
    assert(trim_start(rest) == rest);
    let mut end: usize = s.len();
    while end > start && is_white_space(s[end - 1])
        invariant
            start <= end <= s.len(),
            forall|j: int| end <= j < s.len() ==> white_space(s@[j]),
        decreases end,
    {
        end = end - 1;
    }
    proof {
        lemma_trim_end_skip(rest, end - start);
        assert(rest.subrange(0, end - start) == s@.subrange(start as int, end as int));
    }
    slice(s, start, end)
}

/// Splits at the first `sep`.
pub fn split_once_chars(s: &Vec<char>, sep: char) -> (r: Option<(Vec<char>, Vec<char>)>)
    ensures
        match split_once(s@, sep) {
            Some((a, b)) => r is Some && (r->0).0@ == a && (r->0).1@ == b,
            None => r is None,
        },
{
    let mut i: usize = 0;
    while i < s.len()
        invariant
            i <= s.len(),
            forall|j: int| 0 <= j < i ==> s@[j] != sep,
        decreases s.len() - i,
    {
        if s[i] == sep {
            assert(is_first(s@, sep, i as int));
            let ghost k = choose|k: int| is_first(s@, sep, k);
            assert(k == i);
            return Some((slice(s, 0, i), slice(s, i + 1, s.len())));
        }
        i = i + 1;
    }
    None
}

proof fn lemma_split_len(s: Seq<char>, sep: char)
    ensures
        split(s, sep).len() >= 1,
    decreases s.len(),
{
    if s.len() > 0 {
        lemma_split_len(s.drop_last(), sep);
    }
}

/// The views of a run of character vectors.
pub open spec fn views(v: Seq<Vec<char>>) -> Seq<Seq<char>> {
    Seq::new(v.len(), |i: int| v[i]@)
}

/// Splits at every `sep`.
pub fn split_chars(s: &Vec<char>, sep: char) -> (r: Vec<Vec<char>>)
    ensures
        views(r@) == split(s@, sep),
        r.len() >= 1,
{
    let mut done: Vec<Vec<char>> = Vec::new();
    let mut cur: Vec<char> = Vec::new();
    let mut i: usize = 0;
    while i < s.len()
        invariant
            i <= s.len(),
            views(done@).push(cur@) == split(s@.subrange(0, i as int), sep),
        decreases s.len() - i,
    {
        let ghost pre = s@.subrange(0, i as int);
        let ghost next = s@.subrange(0, i + 1);
        assert(next.drop_last() == pre);
        proof {
            lemma_split_len(pre, sep);
        }
        let c = s[i];
        if c == sep {
            let finished = cur;
            done.push(finished);
            cur = Vec::new();
            assert(views(done@).push(cur@) == split(next, sep));
        } else {
            cur.push(c);
            assert(views(done@).push(cur@) == split(next, sep));
        }
        i = i + 1;
    }
    assert(s@.subrange(0, s.len() as int) == s@);
    done.push(cur);
    assert(views(done@) =~= split(s@, sep));
    proof {
        lemma_split_len(s@, sep);
    }
    done
}

proof fn lemma_digits_value_bounds(s: Seq<char>, radix: u32)
    requires
        radix == 10 || radix == 16,
        all_digits(s, radix),
    ensures
        0 <= digits_value(s, radix),
        s.len() > 0 ==> digits_value(s.drop_last(), radix) <= digits_value(s, radix),
        s.len() > 0 && digits_value(s.drop_last(), radix) > 0 ==> digits_value(s.drop_last(), radix)
            * 10 <= digits_value(s, radix),
    decreases s.len(),
{
    if s.len() > 0 {
        assert(digit_value(s[s.len() - 1], radix) is Some);
        assert(all_digits(s.drop_last(), radix)) by {
            assert forall|i: int| 0 <= i < s.drop_last().len() implies (#[trigger] digit_value(
                s.drop_last()[i],
                radix,
            )) is Some by {
                assert(s.drop_last()[i] == s[i]);
            }
        }
        lemma_digits_value_bounds(s.drop_last(), radix);
    }
}

/// The digits of `s[from..to]` in base `radix`, capped above `cap`.
fn digits_capped(s: &Vec<char>, from: usize, to: usize, radix: u32, cap: u64) -> (r: Result<
    u64,
    NumberError,
>)
    requires
        from <= to <= s.len(),
        radix == 10 || radix == 16,
        cap <= 0x1_0000_0000,
    ensures
        match r {
            Ok(v) => {
                &&& all_digits(s@.subrange(from as int, to as int), radix)
                &&& v == if digits_value(s@.subrange(from as int, to as int), radix) > cap {
                    cap + 1
                } else {
                    digits_value(s@.subrange(from as int, to as int), radix)
                }
            },
            Err(e) => e == NumberError::InvalidDigit && !all_digits(
                s@.subrange(from as int, to as int),
                radix,
            ),
        },
{
    let mut acc: u64 = 0;
    let mut i: usize = from;
    while i < to
        invariant
            from <= i <= to <= s.len(),
            radix == 10 || radix == 16,
            cap <= 0x1_0000_0000,
            all_digits(s@.subrange(from as int, i as int), radix),
            acc == if digits_value(s@.subrange(from as int, i as int), radix) > cap {
                cap + 1
            } else {
                digits_value(s@.subrange(from as int, i as int), radix)
            },
        decreases to - i,
    {
        let ghost pre = s@.subrange(from as int, i as int);
        let ghost next = s@.subrange(from as int, i + 1);
        assert(next.drop_last() == pre);
        let c = s[i];
        let d: u64 = if '0' <= c && c <= '9' {
            (c as u64) - ('0' as u64)
        } else if radix == 16 && 'a' <= c && c <= 'f' {
            (c as u64) - ('a' as u64) + 10
        } else if radix == 16 && 'A' <= c && c <= 'F' {
            (c as u64) - ('A' as u64) + 10
        } else {
            assert(digit_value(next[next.len() - 1], radix) is None);
            return Err(NumberError::InvalidDigit);
        };
        assert(digit_value(next.last(), radix) == Some(d as int));
        assert(all_digits(next, radix)) by {
            assert forall|k: int| 0 <= k < next.len() implies (#[trigger] digit_value(
                next[k],
                radix,
            )) is Some by {
                if k < next.len() - 1 {
                    assert(next[k] == pre[k]);
                }
            }
        }
        proof {
            lemma_digits_value_bounds(next, radix);
        }
        if acc > cap {
            assert(digits_value(next, radix) == radix * digits_value(pre, radix) + d);
        } else {
            assert(acc * radix <= 0x1_0000_0000 * 16) by (nonlinear_arith)
                requires
                    acc <= 0x1_0000_0000,
                    radix <= 16,
            ;
            let v = acc * (radix as u64) + d;
            acc = if v > cap {
                cap + 1
            } else {
                v
            };
        }
        i = i + 1;
    }
    Ok(acc)
}

/// Reads `s` as an integer of base `radix` within `[min, max]`.
pub fn parse_int_chars(s: &Vec<char>, radix: u32, min: i64, max: i64) -> (r: Result<
    i64,
    NumberError,
>)
    requires
        radix == 10 || radix == 16,
        -0x8000_0000 <= min <= 0 <= max <= 0xffff_ffff,
    ensures
        match parse_int(s@, radix, min as int, max as int) {
            Ok(v) => r == Ok::<i64, NumberError>(v as i64),
            Err(e) => r == Err::<i64, NumberError>(e),
        },
{
    if s.len() == 0 {
        return Err(NumberError::Empty);
    }
    let negative = s[0] == '-' && min < 0;
    let from: usize = if s[0] == '+' || negative {
        1
    } else {
        0
    };
    let ghost body = s@.subrange(from as int, s.len() as int);
    assert(s@.drop_first() == s@.subrange(1, s.len() as int));
    assert(s@ == s@.subrange(0, s.len() as int));
    if from == s.len() {
        return Err(NumberError::InvalidDigit);
    }
    let cap: u64 = 0x1_0000_0000;
    let d = digits_capped(s, from, s.len(), radix, cap);
    match d {
        Err(e) => Err(e),
        Ok(m) => {
            proof {
                lemma_digits_value_bounds(body, radix);
            }
            if negative {
                if m > (-min) as u64 {
                    Err(NumberError::NegOverflow)
                } else {
                    Ok(-(m as i64))
                }
            } else {
                if m > max as u64 {
                    Err(NumberError::PosOverflow)
                } else {
                    Ok(m as i64)
                }
            }
        },
    }
}

/// Appends the decimal numeral of `n` to `out`.
pub fn push_dec_nat(out: &mut String, n: u64)
    ensures
        final(out)@ == old(out)@ + dec_nat(n as nat),
    decreases n,
{
    if n >= 10 {
        push_dec_nat(out, n / 10);
    }
    let d = n % 10;
    let c = char_of_digit(d);
    push_char(out, c);
    assert(dec_nat(n as nat) == if n < 10 {
        seq![digit_char(n as int)]
    } else {
        dec_nat((n / 10) as nat).push(digit_char(n as int % 10))
    });
}

fn char_of_digit(d: u64) -> (c: char)
    requires
        d < 10,
    ensures
        c == digit_char(d as int),
{
    if d == 0 {
        '0'
    } else if d == 1 {
        '1'
    } else if d == 2 {
        '2'
    } else if d == 3 {
        '3'
    } else if d == 4 {
        '4'
    } else if d == 5 {
        '5'
    } else if d == 6 {
        '6'
    } else if d == 7 {
        '7'
    } else if d == 8 {
        '8'
    } else {
        '9'
    }
}

/// Appends the decimal numeral of `n`, signed, to `out`.
pub fn push_dec_int(out: &mut String, n: i64)
    requires
        n > i64::MIN,
    ensures
        final(out)@ == old(out)@ + dec_int(n as int),
{
    if n < 0 {
        push_char(out, '-');
        push_dec_nat(out, (-n) as u64);
        assert(old(out)@.push('-') + dec_nat((-n) as nat) == old(out)@ + (seq!['-'] + dec_nat(
            (-n) as nat,
        )));
    } else {
        push_dec_nat(out, n as u64);
    }
}

/// Appends the characters of `s` to `out`.
pub fn push_chars(out: &mut String, s: &str)
    ensures
        final(out)@ == old(out)@ + s@,
{
    out.append(s);
}


proof fn lemma_digit_char(d: int)
    requires
        0 <= d < 10,
    ensures
        digit_value(digit_char(d), 10) == Some(d),
        '0' <= digit_char(d) <= '9',
{
}

/// The decimal numeral of `n` is a run of digits whose value is `n`.
pub proof fn lemma_dec_nat(n: nat)
    ensures
        dec_nat(n).len() > 0,
        all_digits(dec_nat(n), 10),
        digits_value(dec_nat(n), 10) == n,
        forall|i: int| 0 <= i < dec_nat(n).len() ==> '0' <= #[trigger] dec_nat(n)[i] <= '9',
    decreases n,
{
    if n < 10 {
        lemma_digit_char(n as int);
        assert(dec_nat(n).drop_last() =~= Seq::<char>::empty());
        assert(digits_value(dec_nat(n).drop_last(), 10) == 0);
        assert(dec_nat(n).last() == digit_char(n as int));
    } else {
        lemma_dec_nat(n / 10);
        lemma_digit_char(n as int % 10);
        let s = dec_nat(n);
        assert(s.drop_last() == dec_nat(n / 10));
        assert(s.last() == digit_char(n as int % 10));
        assert(digits_value(s, 10) == 10 * digits_value(s.drop_last(), 10) + (n as int % 10));
        assert forall|i: int| 0 <= i < s.len() implies '0' <= #[trigger] s[i] <= '9' by {
            if i < s.len() - 1 {
                assert(s[i] == dec_nat(n / 10)[i]);
            }
        }
        assert forall|i: int| 0 <= i < s.len() implies (#[trigger] digit_value(s[i], 10)) is Some by {
            assert('0' <= s[i] <= '9');
        }
    }
}

/// A decimal numeral reads back as its value.
pub proof fn lemma_parse_dec_nat(n: nat, min: int, max: int)
    requires
        min <= 0,
        n <= max,
    ensures
        parse_int(dec_nat(n), 10, min, max) == Ok::<int, NumberError>(n as int),
{
    lemma_dec_nat(n);
    let s = dec_nat(n);
    assert('0' <= s[0] <= '9');
}

/// A signed decimal numeral reads back as its value.
pub proof fn lemma_parse_dec_int(n: int, min: int, max: int)
    requires
        min <= n <= max,
        min <= 0,
    ensures
        parse_int(dec_int(n), 10, min, max) == Ok::<int, NumberError>(n),
{
    if n < 0 {
        lemma_dec_nat((-n) as nat);
        let s = dec_int(n);
        assert(s.drop_first() == dec_nat((-n) as nat));
    } else {
        lemma_parse_dec_nat(n as nat, min, max);
    }
}

/// White space around a run that neither starts nor ends with white space
/// is what trimming removes.
pub proof fn lemma_trim_padded(w1: Seq<char>, s: Seq<char>, w2: Seq<char>)
    requires
        forall|i: int| 0 <= i < w1.len() ==> white_space(#[trigger] w1[i]),
        forall|i: int| 0 <= i < w2.len() ==> white_space(#[trigger] w2[i]),
        s.len() > 0,
        !white_space(s[0]),
        !white_space(s.last()),
    ensures
        trim(w1 + s + w2) == s,
{
    let t = w1 + s + w2;
    assert forall|j: int| 0 <= j < w1.len() implies white_space(t[j]) by {
        assert(t[j] == w1[j]);
    }
    lemma_trim_start_skip(t, w1.len() as int);
    let u = t.subrange(w1.len() as int, t.len() as int);
    assert(u =~= s + w2);
    assert(u[0] == s[0]);
    assert(trim_start(u) == u);
    assert forall|j: int| s.len() <= j < u.len() implies white_space(u[j]) by {
        assert(u[j] == w2[j - s.len()]);
    }
    lemma_trim_end_skip(u, s.len() as int);
    assert(u.subrange(0, s.len() as int) =~= s);
    assert(s.drop_last().len() < s.len());
}

/// A decimal numeral has no white space to trim.
pub proof fn lemma_trim_dec(n: int)
    ensures
        trim(dec_int(n)) == dec_int(n),
{
    let s = dec_int(n);
    if n < 0 {
        lemma_dec_nat((-n) as nat);
        assert(s.last() == dec_nat((-n) as nat).last());
    } else {
        lemma_dec_nat(n as nat);
    }
    assert(s =~= Seq::<char>::empty() + s + Seq::<char>::empty());
    lemma_trim_padded(Seq::<char>::empty(), s, Seq::<char>::empty());
}

/// Text without `sep` is one field.
pub proof fn lemma_split_single(a: Seq<char>, sep: char)
    requires
        forall|i: int| 0 <= i < a.len() ==> a[i] != sep,
    ensures
        split(a, sep) == seq![a],
    decreases a.len(),
{
    if a.len() > 0 {
        assert forall|i: int| 0 <= i < a.drop_last().len() implies a.drop_last()[i] != sep by {
            assert(a.drop_last()[i] == a[i]);
        }
        assert(a.last() != sep);
        lemma_split_single(a.drop_last(), sep);
        assert(a.drop_last().push(a.last()) =~= a);
        assert(seq![a.drop_last()].update(0, a.drop_last().push(a.last())) =~= seq![a]);
    } else {
        assert(a =~= Seq::<char>::empty());
    }
}

/// A separator between two texts splits apart their fields.
pub proof fn lemma_split_join(a: Seq<char>, b: Seq<char>, sep: char)
    ensures
        split(a + seq![sep] + b, sep) == split(a, sep) + split(b, sep),
    decreases b.len(),
{
    let s = a + seq![sep] + b;
    lemma_split_len(a, sep);
    if b.len() == 0 {
        assert(s.drop_last() =~= a);
        assert(split(b, sep) == seq![Seq::<char>::empty()]);
        assert(split(a, sep).push(Seq::<char>::empty()) =~= split(a, sep) + split(b, sep));
    } else {
        assert(s.drop_last() =~= a + seq![sep] + b.drop_last());
        lemma_split_join(a, b.drop_last(), sep);
        lemma_split_len(b.drop_last(), sep);
        let r = split(a, sep) + split(b.drop_last(), sep);
        if b.last() == sep {
            assert(r.push(Seq::<char>::empty()) =~= split(a, sep) + split(b, sep));
        } else {
            let rb = split(b.drop_last(), sep);
            assert(r.update(r.len() - 1, r.last().push(s.last())) =~= split(a, sep) + rb.update(
                rb.len() - 1,
                rb.last().push(b.last()),
            ));
        }
    }
}

/// A decimal numeral holds none of the separators of the protocol.
pub proof fn lemma_dec_no_char(n: int, c: char)
    requires
        c == ',' || c == ';',
    ensures
        forall|i: int| 0 <= i < dec_int(n).len() ==> dec_int(n)[i] != c,
{
    if n < 0 {
        lemma_dec_nat((-n) as nat);
        assert forall|i: int| 0 <= i < dec_int(n).len() implies dec_int(n)[i] != c by {
            if i > 0 {
                assert(dec_int(n)[i] == dec_nat((-n) as nat)[i - 1]);
            }
        }
    } else {
        lemma_dec_nat(n as nat);
    }
}


/// Splitting at the first `sep` of a text that has none before `sep` gives
/// the parts before and after it.
pub proof fn lemma_split_once_at(a: Seq<char>, b: Seq<char>, sep: char)
    requires
        forall|i: int| 0 <= i < a.len() ==> a[i] != sep,
    ensures
        split_once(a + seq![sep] + b, sep) == Some((a, b)),
{
    let s = a + seq![sep] + b;
    let k = a.len() as int;
    assert(is_first(s, sep, k)) by {
        assert forall|j: int| 0 <= j < k implies s[j] != sep by {
            assert(s[j] == a[j]);
        }
    }
    let i = choose|i: int| is_first(s, sep, i);
    assert(i == k) by {
        if i < k {
            assert(s[i] == a[i]);
        }
    }
    assert(s.subrange(0, k) =~= a);
    assert(s.subrange(k + 1, s.len() as int) =~= b);
}

} // verus!
