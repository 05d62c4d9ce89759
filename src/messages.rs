use vstd::prelude::*;
use crate::canvas::CanvasSpec;
use crate::color::{Color, color_text, color_error_text, parse_color, lemma_color_round_trip};
use crate::position::{
    Position, position_text, position_error_text, parse_position,
    lemma_position_round_trip,
};
use crate::text::{
    NumberError, number_error_text, parse_int, split_once, chars_of, split_once_chars,
    parse_int_chars, push_char, push_chars, dec_int, dec_nat, lemma_split_once_at,
    lemma_dec_no_char, lemma_parse_dec_nat,
};
use crate::user::{User, MaybeUser};

verus! {

/// A message of the canvas protocol: `<opcode>;<payload>`.
pub enum SocketMessage<'u> {
    /// A client asks to paint a cell (opcode 1).
    WriteCell(Position, Color),
    /// A client moves its cursor (opcode 2).
    MoveCursor(Position),
    /// A user painted a cell (opcode 3).
    WroteCell(&'u User, Position, Color),
    /// A user moved its cursor (opcode 4).
    MovedCursor(&'u User, Position),
    /// An error, for the client that caused it alone (opcode 5).
    SendError(String),
    /// The state of the canvas, sent once to a client that connects (opcode 6).
    InitConnection(&'u MaybeUser, CanvasSpec),
}

/// What a client may ask for.
#[derive(Clone, Copy, Debug, PartialEq, Eq, Structural)]
pub enum Request {
    WriteCell(Position, Color),
    MoveCursor(Position),
}

/// What the payload of a paint request asks for: `x,y,<color>`.
pub open spec fn decode_write(params: Seq<char>) -> Result<Request, Seq<char>> {
    match split_once(params, ',') {
        None => Err("Invalid parameter length"@),
        Some((x, rest)) => match split_once(rest, ',') {
            None => Err("Invalid parameter length"@),
            Some((y, color)) => match parse_position(x + seq![','] + y) {
                Err(e) => Err(position_error_text(e)),
                Ok(p) => match parse_color(color) {
                    Err(e) => Err(color_error_text(e)),
                    Ok(c) => Ok(Request::WriteCell(p, c)),
                },
            },
        },
    }
}

/// What a client's text asks for, or the text of the error to send back.
pub open spec fn decode_text(s: Seq<char>) -> Result<Request, Seq<char>> {
    match split_once(s, ';') {
        None => Err("Invalid message format."@),
        Some((op, params)) => match parse_int(op, 10, i32::MIN as int, i32::MAX as int) {
            Err(e) => Err(number_error_text(e)),
            Ok(code) => if code == 1 {
                decode_write(params)
            } else if code == 2 {
                match parse_position(params) {
                    Err(e) => Err(position_error_text(e)),
                    Ok(p) => Ok(Request::MoveCursor(p)),
                }
            } else {
                Err("Invalid OP code."@)
            },
        },
    }
}

/// The text of a request.
pub open spec fn request_text(q: Request) -> Seq<char> {
    match q {
        Request::WriteCell(p, c) => seq!['1', ';'] + position_text(p) + seq![','] + color_text(c),
        Request::MoveCursor(p) => seq!['2', ';'] + position_text(p),
    }
}

/// The text of a message.
pub open spec fn message_text(m: SocketMessage) -> Seq<char> {
    match m {
        SocketMessage::WriteCell(p, c) => request_text(Request::WriteCell(p, c)),
        SocketMessage::MoveCursor(p) => request_text(Request::MoveCursor(p)),
        SocketMessage::WroteCell(u, p, c) => seq!['3', ';'] + u@.username + seq![','] + position_text(p)
            + seq![','] + color_text(c),
        SocketMessage::MovedCursor(u, p) => seq!['4', ';'] + u@.username + seq![','] + position_text(p),
        SocketMessage::SendError(e) => seq!['5', ';'] + e@,
        SocketMessage::InitConnection(mu, spec) => seq!['6', ';'] + match mu {
            MaybeUser::Authorized(u) => u@.username,
            MaybeUser::Unauthorized => "null"@,
        } + seq![','] + spec.text(),
    }
}

/// The message is the request `q`.
pub open spec fn is_request<'u>(m: SocketMessage<'u>, q: Request) -> bool {
    match q {
        Request::WriteCell(p, c) => m matches SocketMessage::WriteCell(mp, mc) && mp == p && mc == c,
        Request::MoveCursor(p) => m matches SocketMessage::MoveCursor(mp) && mp == p,
    }
}

fn error_message<'u>(text: &str) -> (r: SocketMessage<'u>)
    ensures
        r matches SocketMessage::SendError(e) && e@ == text@,
{
    SocketMessage::SendError(String::from_str(text))
}

impl<'u> SocketMessage<'u> {
    /// Reads a client's text; what cannot be read becomes the error to send back.
    pub fn decode(text: &str) -> (r: SocketMessage<'u>)
        ensures
            match decode_text(text@) {
                Ok(q) => is_request(r, q),
                Err(m) => r matches SocketMessage::SendError(e) && e@ == m,
            },
    {
        let chars = chars_of(text);
        let (op, params) = match split_once_chars(&chars, ';') {
            Some(parts) => parts,
            None => {
                return error_message("Invalid message format.");
            },
        };
        let code = match parse_int_chars(&op, 10, i32::MIN as i64, i32::MAX as i64) {
            Ok(v) => v,
            Err(e) => {
                return SocketMessage::SendError(e.message());
            },
        };
        if code == 1 {
            Self::decode_write_chars(&params)
        } else if code == 2 {
            match Position::parse_chars(&params) {
                Ok(p) => SocketMessage::MoveCursor(p),
                Err(e) => SocketMessage::SendError(e.message()),
            }
        } else {
            error_message("Invalid OP code.")
        }
    }

    fn decode_write_chars(params: &Vec<char>) -> (r: SocketMessage<'u>)
        ensures
            match decode_write(params@) {
                Ok(q) => is_request(r, q),
                Err(m) => r matches SocketMessage::SendError(e) && e@ == m,
            },
    {
        let (x, rest) = match split_once_chars(params, ',') {
            Some(parts) => parts,
            None => {
                return error_message("Invalid parameter length");
            },
        };
        let (y, color) = match split_once_chars(&rest, ',') {
            Some(parts) => parts,
            None => {
                return error_message("Invalid parameter length");
            },
        };
        let ghost xv = x@;
        let mut left = x;
        left.push(',');
        let mut i: usize = 0;
        let ghost base = left@;
        while i < y.len()
            invariant
                i <= y.len(),
                left@ == base + y@.subrange(0, i as int),
            decreases y.len() - i,
        {
            left.push(y[i]);
            assert(left@ =~= base + y@.subrange(0, i + 1));
            i = i + 1;
        }
        assert(y@.subrange(0, y.len() as int) == y@);
        assert(left@ =~= xv + seq![','] + y@);
        let p = match Position::parse_chars(&left) {
            Ok(p) => p,
            Err(e) => {
                return SocketMessage::SendError(e.message());
            },
        };
        let c = match Color::parse_chars(&color) {
            Ok(c) => c,
            Err(e) => {
                return SocketMessage::SendError(e.message());
            },
        };
        SocketMessage::WriteCell(p, c)
    }

    /// Attaches the acting user to a client's request, giving what is
    /// broadcast; any other message becomes an error.
    pub fn to_sender(self, user: &'u User) -> (r: SocketMessage<'u>)
        ensures
            match self {
                SocketMessage::WriteCell(p, c) => r matches SocketMessage::WroteCell(u, rp, rc)
                    && u == user && rp == p && rc == c,
                SocketMessage::MoveCursor(p) => r matches SocketMessage::MovedCursor(u, rp) && u
                    == user && rp == p,
                _ => r matches SocketMessage::SendError(e) && e@
                    == "Internal message conversion error."@,
            },
    {
        match self {
            SocketMessage::WriteCell(position, color) => SocketMessage::WroteCell(
                user,
                position,
                color,
            ),
            SocketMessage::MoveCursor(position) => SocketMessage::MovedCursor(user, position),
            _ => error_message("Internal message conversion error."),
        }
    }

    /// The text of the message.
    pub fn encode(&self) -> (r: String)
        ensures
            r@ == message_text(*self),
    {
        let mut out = String::new();
        match self {
            SocketMessage::WriteCell(p, c) => {
                push_char(&mut out, '1');
                push_char(&mut out, ';');
                p.push_text(&mut out);
                push_char(&mut out, ',');
                c.push_text(&mut out);
            },
            SocketMessage::MoveCursor(p) => {
                push_char(&mut out, '2');
                push_char(&mut out, ';');
                p.push_text(&mut out);
            },
            SocketMessage::WroteCell(u, p, c) => {
                push_char(&mut out, '3');
                push_char(&mut out, ';');
                push_chars(&mut out, u.name().as_str());
                push_char(&mut out, ',');
                p.push_text(&mut out);
                push_char(&mut out, ',');
                c.push_text(&mut out);
            },
            SocketMessage::MovedCursor(u, p) => {
                push_char(&mut out, '4');
                push_char(&mut out, ';');
                push_chars(&mut out, u.name().as_str());
                push_char(&mut out, ',');
                p.push_text(&mut out);
            },
            SocketMessage::SendError(e) => {
                push_char(&mut out, '5');
                push_char(&mut out, ';');
                push_chars(&mut out, e.as_str());
            },
            SocketMessage::InitConnection(mu, spec) => {
                push_char(&mut out, '6');
                push_char(&mut out, ';');
                match mu {
                    MaybeUser::Authorized(u) => push_chars(&mut out, u.name().as_str()),
                    MaybeUser::Unauthorized => push_chars(&mut out, "null"),
                }
                push_char(&mut out, ',');
                spec.push_text(&mut out);
            },
        }
        assert(out@ =~= message_text(*self));
        out
    }
}

proof fn lemma_opcode(d: nat)
    requires
        1 <= d <= 2,
    ensures
        parse_int(dec_nat(d), 10, i32::MIN as int, i32::MAX as int) == Ok::<int, NumberError>(
            d as int,
        ),
        dec_nat(d) == seq![if d == 1 {
            '1'
        } else {
            '2'
        }],
        !(dec_nat(d)[0] == ';'),
{
    lemma_parse_dec_nat(d, i32::MIN as int, i32::MAX as int);
}

/// Every request that a client sends reads back from its text.
pub proof fn lemma_request_round_trip(q: Request)
    ensures
        decode_text(request_text(q)) == Ok::<Request, Seq<char>>(q),
{
    match q {
        Request::WriteCell(p, c) => {
            lemma_opcode(1);
            let xs = dec_int(p.x as int);
            let ys = dec_int(p.y as int);
            let cs = color_text(c);
            lemma_dec_no_char(p.x as int, ',');
            lemma_dec_no_char(p.y as int, ',');
            let params = xs + seq![','] + ys + seq![','] + cs;
            assert(request_text(q) =~= seq!['1'] + seq![';'] + params);
            lemma_split_once_at(seq!['1'], params, ';');
            assert(params =~= xs + seq![','] + (ys + seq![','] + cs));
            lemma_split_once_at(xs, ys + seq![','] + cs, ',');
            lemma_split_once_at(ys, cs, ',');
            lemma_position_round_trip(p);
            lemma_color_round_trip(c);
        },
        Request::MoveCursor(p) => {
            lemma_opcode(2);
            assert(request_text(q) =~= seq!['2'] + seq![';'] + position_text(p));
            lemma_split_once_at(seq!['2'], position_text(p), ';');
            lemma_position_round_trip(p);
        },
    }
}

} // verus!
