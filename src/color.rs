use vstd::prelude::*;
use crate::text::{
    NumberError, dec_nat, parse_int, split, trim, white_space, chars_of, split_chars, trim_chars,
    parse_int_chars, push_dec_nat, push_char, views, lemma_parse_dec_int, lemma_split_join,
    lemma_split_single, lemma_trim_padded, lemma_dec_nat,
};

verus! {

/// Why a text is not a color.
#[derive(Clone, Copy, Debug, PartialEq, Eq, Structural)]
pub enum ColorError {
    /// The number of comma-separated fields does not fit the format.
    InvalidValueAmount,
    /// A channel or the packed value was not a number of its range.
    ParseI32(NumberError),
    /// The format tag was neither `v` nor `h`.
    InvalidFormat,
}

impl ColorError {
    /// The human-readable text of the error.
    pub fn message(&self) -> (r: String)
        ensures
            r@ == color_error_text(*self),
    {
        match self {
            ColorError::InvalidValueAmount => String::from_str(
                "There are not enough values in this raw split comma string for the specified format.",
            ),
            ColorError::ParseI32(_) => String::from_str(
                "Couldn't parse one of the numbers in the raw string.",
            ),
            ColorError::InvalidFormat => String::from_str(
                "The specified format is invalid, expected v for values or h for hex.",
            ),
        }
    }
}

pub open spec fn color_error_text(e: ColorError) -> Seq<char> {
    match e {
        ColorError::InvalidValueAmount => "There are not enough values in this raw split comma string for the specified format."@,
        ColorError::ParseI32(_) => "Couldn't parse one of the numbers in the raw string."@,
        ColorError::InvalidFormat => "The specified format is invalid, expected v for values or h for hex."@,
    }
}

/// A color of three 8-bit channels.
#[derive(Clone, Copy, Debug, PartialEq, Eq, Structural)]
pub struct Color {
    pub r: u8,
    pub g: u8,
    pub b: u8,
}

/// The packed form `(r << 16) | (g << 8) | b`.
pub open spec fn packed(c: Color) -> int {
    c.r as int * 65536 + c.g as int * 256 + c.b as int
}

/// The color whose channels are the low three bytes of `v`.
pub open spec fn unpacked(v: i32) -> Color {
    Color { r: ((v >> 16) & 0xff) as u8, g: ((v >> 8) & 0xff) as u8, b: (v & 0xff) as u8 }
}

/// The canonical textual form `v,<r>,<g>,<b>`.
pub open spec fn color_text(c: Color) -> Seq<char> {
    seq!['v', ','] + dec_nat(c.r as nat) + seq![','] + dec_nat(c.g as nat) + seq![','] + dec_nat(
        c.b as nat,
    )
}

/// Reads one channel, white space around it allowed.
pub open spec fn parse_channel(s: Seq<char>) -> Result<int, NumberError> {
    parse_int(trim(s), 10, 0, 255)
}

/// Reads `v,<r>,<g>,<b>` (decimal channels) or `h,<hex>` (the packed form in
/// base 16, as an `i32`).
pub open spec fn parse_color(s: Seq<char>) -> Result<Color, ColorError> {
    let f = split(s, ',');
    if f.len() <= 1 {
        Err(ColorError::InvalidValueAmount)
    } else if f[0] == seq!['v'] {
        if f.len() != 4 {
            Err(ColorError::InvalidValueAmount)
        } else {
            match parse_channel(f[1]) {
                Err(e) => Err(ColorError::ParseI32(e)),
                Ok(r) => match parse_channel(f[2]) {
                    Err(e) => Err(ColorError::ParseI32(e)),
                    Ok(g) => match parse_channel(f[3]) {
                        Err(e) => Err(ColorError::ParseI32(e)),
                        Ok(b) => Ok(Color { r: r as u8, g: g as u8, b: b as u8 }),
                    },
                },
            }
        }
    } else if f[0] == seq!['h'] {
        if f.len() != 2 {
            Err(ColorError::InvalidValueAmount)
        } else {
            match parse_int(trim(f[1]), 16, i32::MIN as int, i32::MAX as int) {
                Err(e) => Err(ColorError::ParseI32(e)),
                Ok(v) => Ok(unpacked(v as i32)),
            }
        }
    } else {
        Err(ColorError::InvalidFormat)
    }
}

fn parse_channel_chars(s: &Vec<char>) -> (r: Result<u8, NumberError>)
    ensures
        match parse_channel(s@) {
            Ok(v) => r == Ok::<u8, NumberError>(v as u8),
            Err(e) => r == Err::<u8, NumberError>(e),
        },
{
    let t = trim_chars(s);
    match parse_int_chars(&t, 10, 0, 255) {
        Ok(v) => Ok(v as u8),
        Err(e) => Err(e),
    }
}

fn is_tag(s: &Vec<char>, tag: char) -> (r: bool)
    ensures
        r == (s@ == seq![tag]),
{
    if s.len() == 1 && s[0] == tag {
        assert(s@ =~= seq![tag]);
        true
    } else {
        false
    }
}

impl Color {
    pub fn new(r: u8, g: u8, b: u8) -> (c: Color)
        ensures
            c.r == r,
            c.g == g,
            c.b == b,
    {
        Color { r, g, b }
    }

    pub fn r(&self) -> (v: u8)
        ensures
            v == self.r,
    {
        self.r
    }

    pub fn g(&self) -> (v: u8)
        ensures
            v == self.g,
    {
        self.g
    }

    pub fn b(&self) -> (v: u8)
        ensures
            v == self.b,
    {
        self.b
    }

    /// The packed form `(r << 16) | (g << 8) | b`.
    pub fn to_i32(&self) -> (v: i32)
        ensures
            v == packed(*self),
    {
        (self.r as i32) * 65536 + (self.g as i32) * 256 + (self.b as i32)
    }

    /// The color whose channels are the low three bytes of `value`.
    pub fn from_i32(value: i32) -> (c: Color)
        ensures
            c == unpacked(value),
    {
        Color {
            r: ((value >> 16) & 0xff) as u8,
            g: ((value >> 8) & 0xff) as u8,
            b: (value & 0xff) as u8,
        }
    }

    /// Reads `v,<r>,<g>,<b>` or `h,<hex>`.
    pub fn parse(text: &str) -> (r: Result<Color, ColorError>)
        ensures
            r == parse_color(text@),
    {
        let chars = chars_of(text);
        Self::parse_chars(&chars)
    }

    pub(crate) fn parse_chars(chars: &Vec<char>) -> (r: Result<Color, ColorError>)
        ensures
            r == parse_color(chars@),
    {
        let f = split_chars(chars, ',');
        if f.len() <= 1 {
            return Err(ColorError::InvalidValueAmount);
        }
        assert(views(f@)[0] == f@[0]@);
        assert(views(f@)[1] == f@[1]@);
        if is_tag(&f[0], 'v') {
            if f.len() != 4 {
                return Err(ColorError::InvalidValueAmount);
            }
            assert(views(f@)[2] == f@[2]@);
            assert(views(f@)[3] == f@[3]@);
            let r = match parse_channel_chars(&f[1]) {
                Ok(v) => v,
                Err(e) => {
                    return Err(ColorError::ParseI32(e));
                },
            };
            let g = match parse_channel_chars(&f[2]) {
                Ok(v) => v,
                Err(e) => {
                    return Err(ColorError::ParseI32(e));
                },
            };
            let b = match parse_channel_chars(&f[3]) {
                Ok(v) => v,
                Err(e) => {
                    return Err(ColorError::ParseI32(e));
                },
            };
            Ok(Color { r, g, b })
        } else if is_tag(&f[0], 'h') {
            if f.len() != 2 {
                return Err(ColorError::InvalidValueAmount);
            }
            let t = trim_chars(&f[1]);
            match parse_int_chars(&t, 16, i32::MIN as i64, i32::MAX as i64) {
                Ok(v) => Ok(Self::from_i32(v as i32)),
                Err(e) => Err(ColorError::ParseI32(e)),
            }
        } else {
            Err(ColorError::InvalidFormat)
        }
    }

    /// Appends the canonical textual form to `out`.
    pub(crate) fn push_text(&self, out: &mut String)
        ensures
            final(out)@ == old(out)@ + color_text(*self),
    {
        push_char(out, 'v');
        push_char(out, ',');
        push_dec_nat(out, self.r as u64);
        push_char(out, ',');
        push_dec_nat(out, self.g as u64);
        push_char(out, ',');
        push_dec_nat(out, self.b as u64);
        assert(final(out)@ =~= old(out)@ + color_text(*self));
    }

    /// The canonical textual form `v,<r>,<g>,<b>`.
    pub fn to_string(&self) -> (r: String)
        ensures
            r@ == color_text(*self),
    {
        let mut out = String::new();
        self.push_text(&mut out);
        assert(out@ =~= color_text(*self));
        out
    }
}

/// Runs of white space only.
pub open spec fn all_white(w: Seq<char>) -> bool {
    forall|i: int| 0 <= i < w.len() ==> white_space(#[trigger] w[i])
}

/// A channel numeral with white space around it.
pub open spec fn padded(w1: Seq<char>, n: u8, w2: Seq<char>) -> Seq<char> {
    w1 + dec_nat(n as nat) + w2
}

proof fn lemma_padded_channel(w1: Seq<char>, n: u8, w2: Seq<char>)
    requires
        all_white(w1),
        all_white(w2),
    ensures
        parse_channel(padded(w1, n, w2)) == Ok::<int, NumberError>(n as int),
        split(padded(w1, n, w2), ',') == seq![padded(w1, n, w2)],
{
    let d = dec_nat(n as nat);
    lemma_dec_nat(n as nat);
    assert('0' <= d[0] <= '9');
    assert('0' <= d[d.len() - 1] <= '9');
    lemma_trim_padded(w1, d, w2);
    lemma_parse_dec_int(n as int, 0, 255);
    let p = padded(w1, n, w2);
    assert forall|i: int| 0 <= i < p.len() implies p[i] != ',' by {
        if i < w1.len() {
            assert(p[i] == w1[i]);
            assert(white_space(w1[i]));
        } else if i < w1.len() + d.len() {
            assert(p[i] == d[i - w1.len()]);
        } else {
            assert(p[i] == w2[i - w1.len() - d.len()]);
            assert(white_space(w2[i - w1.len() - d.len()]));
        }
    }
    lemma_split_single(p, ',');
}

/// A `v`-form text whose channels have white space around them reads as the
/// color of those channels, whose canonical form is `v,<r>,<g>,<b>` again
/// with the white space gone.
pub proof fn lemma_color_decode_encode(
    c: Color,
    w1: Seq<char>,
    w2: Seq<char>,
    w3: Seq<char>,
    w4: Seq<char>,
    w5: Seq<char>,
    w6: Seq<char>,
)
    requires
        all_white(w1),
        all_white(w2),
        all_white(w3),
        all_white(w4),
        all_white(w5),
        all_white(w6),
    ensures
        parse_color(
            seq!['v', ','] + padded(w1, c.r, w2) + seq![','] + padded(w3, c.g, w4) + seq![',']
                + padded(w5, c.b, w6),
        ) == Ok::<Color, ColorError>(c),
        color_text(c) == seq!['v', ','] + dec_nat(c.r as nat) + seq![','] + dec_nat(c.g as nat)
            + seq![','] + dec_nat(c.b as nat),
{
    let pr = padded(w1, c.r, w2);
    let pg = padded(w3, c.g, w4);
    let pb = padded(w5, c.b, w6);
    lemma_padded_channel(w1, c.r, w2);
    lemma_padded_channel(w3, c.g, w4);
    lemma_padded_channel(w5, c.b, w6);
    lemma_split_join(pg, pb, ',');
    lemma_split_join(pr, pg + seq![','] + pb, ',');
    lemma_split_join(seq!['v'], pr + seq![','] + pg + seq![','] + pb, ',');
    lemma_split_single(seq!['v'], ',');
    let t = seq!['v', ','] + pr + seq![','] + pg + seq![','] + pb;
    assert(t =~= seq!['v'] + seq![','] + (pr + seq![','] + (pg + seq![','] + pb)));
    assert(pr + seq![','] + (pg + seq![','] + pb) =~= pr + seq![','] + pg + seq![','] + pb);
    assert(split(t, ',') =~= seq![seq!['v'], pr, pg, pb]);
}

/// Every color reads back from its canonical textual form.
pub proof fn lemma_color_round_trip(c: Color)
    ensures
        parse_color(color_text(c)) == Ok::<Color, ColorError>(c),
{
    let e = Seq::<char>::empty();
    lemma_color_decode_encode(c, e, e, e, e, e, e);
    assert(padded(e, c.r, e) =~= dec_nat(c.r as nat));
    assert(padded(e, c.g, e) =~= dec_nat(c.g as nat));
    assert(padded(e, c.b, e) =~= dec_nat(c.b as nat));
}


/// Whatever form a color was read from, `h` or `v`, its canonical `v` form
/// reads back as the same color.
pub proof fn lemma_color_canonical(t: Seq<char>)
    requires
        parse_color(t) is Ok,
    ensures
        parse_color(color_text(parse_color(t)->Ok_0)) == parse_color(t),
        color_text(parse_color(t)->Ok_0)[0] == 'v',
{
    lemma_color_round_trip(parse_color(t)->Ok_0);
}

} // verus!
