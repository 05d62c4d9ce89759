use canvadot::color::{Color, ColorError};
use canvadot::messages::SocketMessage;
use canvadot::position::{Position, PositionError};
use canvadot::text::NumberError;
use canvadot::user::{MaybeUser, User};
use canvadot::canvas::get_canvas_spec;

fn alice() -> User {
    User::new(
        7,
        String::from("alice@example.com"),
        String::from("alice"),
        String::from("hash"),
        0,
        0,
        true,
    )
}

#[test]
fn color_value_form_round_trips_canonically() {
    let c = Color::parse(" v ,1,2,3").unwrap_err();
    assert_eq!(c, ColorError::InvalidFormat);
    let c = Color::parse("v, 1 ,\t2,  3 ").unwrap();
    assert_eq!((c.r(), c.g(), c.b()), (1, 2, 3));
    assert_eq!(c.to_string(), "v,1,2,3");
    let again = Color::parse(&c.to_string()).unwrap();
    assert_eq!(again, c);
}

#[test]
fn color_hex_form_encodes_as_values() {
    let c = Color::parse("h, ff00Fe ").unwrap();
    assert_eq!((c.r(), c.g(), c.b()), (255, 0, 254));
    assert_eq!(c.to_string(), "v,255,0,254");
}

#[test]
fn color_all_channels_round_trip() {
    for v in [0u8, 9, 10, 99, 100, 255] {
        let c = Color::new(v, 255 - v, v / 2);
        assert_eq!(Color::parse(&c.to_string()).unwrap(), c);
    }
}

#[test]
fn color_packed_forms() {
    let c = Color::new(1, 2, 3);
    assert_eq!(c.to_i32(), 0x010203);
    assert_eq!(Color::from_i32(0x00abcdef), Color::new(0xab, 0xcd, 0xef));
    assert_eq!(Color::from_i32(-1), Color::new(255, 255, 255));
}

#[test]
fn color_errors() {
    assert_eq!(Color::parse("v").unwrap_err(), ColorError::InvalidValueAmount);
    assert_eq!(Color::parse("v,1,2").unwrap_err(), ColorError::InvalidValueAmount);
    assert_eq!(Color::parse("h,1,2").unwrap_err(), ColorError::InvalidValueAmount);
    assert_eq!(Color::parse("x,1").unwrap_err(), ColorError::InvalidFormat);
    assert_eq!(
        Color::parse("v,256,0,0").unwrap_err(),
        ColorError::ParseI32(NumberError::PosOverflow)
    );
    assert_eq!(
        Color::parse("v,1,a,0").unwrap_err(),
        ColorError::ParseI32(NumberError::InvalidDigit)
    );
    assert_eq!(
        Color::parse("v,1, ,0").unwrap_err(),
        ColorError::ParseI32(NumberError::Empty)
    );
    assert_eq!(
        Color::parse("v,-1,0,0").unwrap_err(),
        ColorError::ParseI32(NumberError::InvalidDigit)
    );
    assert_eq!(
        ColorError::InvalidFormat.message(),
        "The specified format is invalid, expected v for values or h for hex."
    );
}

#[test]
fn position_round_trips() {
    for (x, y) in [(0, 0), (5, 10), (1919, 1079), (-3, 42)] {
        let p = Position::new(x, y);
        let text = p.to_string();
        let back = Position::parse(&text).unwrap();
        assert_eq!((back.x(), back.y()), (x, y));
    }
    assert_eq!(Position::new(5, 10).to_string(), "5,10");
    assert_eq!(Position::parse(" 5 , 10 ").unwrap(), Position::new(5, 10));
}

#[test]
fn position_errors() {
    assert_eq!(Position::parse("1").unwrap_err(), PositionError::ParseLength);
    assert_eq!(Position::parse("1,2,3").unwrap_err(), PositionError::ParseLength);
    assert_eq!(
        Position::parse("a,1").unwrap_err(),
        PositionError::ParseI32(NumberError::InvalidDigit)
    );
    assert_eq!(
        Position::parse("2147483648,1").unwrap_err(),
        PositionError::ParseI32(NumberError::PosOverflow)
    );
    assert_eq!(
        Position::parse("-2147483649,1").unwrap_err(),
        PositionError::ParseI32(NumberError::NegOverflow)
    );
    assert_eq!(Position::parse("-2147483648,+1").unwrap(), Position::new(i32::MIN, 1));
}

#[test]
fn decode_write_cell() {
    match SocketMessage::decode("1;5,10,v,1,2,3") {
        SocketMessage::WriteCell(p, c) => {
            assert_eq!(p, Position::new(5, 10));
            assert_eq!(c, Color::new(1, 2, 3));
        }
        _ => panic!("expected a paint request"),
    }
}

#[test]
fn decode_missing_color_is_error() {
    match SocketMessage::decode("1;5,10") {
        SocketMessage::SendError(e) => assert_eq!(e, "Invalid parameter length"),
        _ => panic!("expected an error"),
    }
}

#[test]
fn decode_errors() {
    let cases = [
        ("15,10", "Invalid message format."),
        ("x;5,10", "invalid digit found in string"),
        (";5,10", "cannot parse integer from empty string"),
        ("9;5,10", "Invalid OP code."),
        ("1;5", "Invalid parameter length"),
        ("1;5,x,v,1,2,3", "Couldn't parse one of the numbers in the raw string."),
        ("1;5,10,q,1", "The specified format is invalid, expected v for values or h for hex."),
        ("2;5", "The length of the raw split coma string wasn't two."),
    ];
    for (text, expected) in cases {
        match SocketMessage::decode(text) {
            SocketMessage::SendError(e) => assert_eq!(e, expected, "for {text}"),
            _ => panic!("expected an error for {text}"),
        }
    }
}

#[test]
fn decode_move_cursor() {
    match SocketMessage::decode("2; 7 ,8") {
        SocketMessage::MoveCursor(p) => assert_eq!(p, Position::new(7, 8)),
        _ => panic!("expected a cursor move"),
    }
}

#[test]
fn requests_round_trip() {
    let w = SocketMessage::WriteCell(Position::new(12, 34), Color::new(200, 100, 0));
    assert_eq!(w.encode(), "1;12,34,v,200,100,0");
    match SocketMessage::decode(&w.encode()) {
        SocketMessage::WriteCell(p, c) => {
            assert_eq!(p, Position::new(12, 34));
            assert_eq!(c, Color::new(200, 100, 0));
        }
        _ => panic!("expected a paint request"),
    }
    let m = SocketMessage::MoveCursor(Position::new(3, 4));
    assert_eq!(m.encode(), "2;3,4");
    assert!(matches!(SocketMessage::decode("2;3,4"), SocketMessage::MoveCursor(p) if p == Position::new(3, 4)));
}

#[test]
fn to_sender_attaches_user() {
    let u = alice();
    let w = SocketMessage::WriteCell(Position::new(5, 10), Color::new(1, 2, 3)).to_sender(&u);
    assert_eq!(w.encode(), "3;alice,5,10,v,1,2,3");
    let m = SocketMessage::MoveCursor(Position::new(5, 10)).to_sender(&u);
    assert_eq!(m.encode(), "4;alice,5,10");
    let e = SocketMessage::SendError(String::from("boom")).to_sender(&u);
    assert_eq!(e.encode(), "5;Internal message conversion error.");
}

#[test]
fn init_message_forms() {
    let who = MaybeUser::Authorized(alice());
    let spec = get_canvas_spec(vec![0, 255, 7]);
    assert_eq!(SocketMessage::InitConnection(&who, spec).encode(), "6;alice,1920,1080,0 255 7");
    let nobody = MaybeUser::Unauthorized;
    let spec = get_canvas_spec(vec![]);
    assert_eq!(SocketMessage::InitConnection(&nobody, spec).encode(), "6;null,1920,1080,");
    assert_eq!(SocketMessage::SendError(String::from("oops")).encode(), "5;oops");
}

#[test]
fn color_leading_zeros_and_sign_become_canonical() {
    let c = Color::parse("v,007,+10,0255").unwrap();
    assert_eq!(c.to_string(), "v,7,10,255");
    let c = Color::parse("h,-1").unwrap();
    assert_eq!(c.to_string(), "v,255,255,255");
    assert_eq!(
        Color::parse("h,80000000").unwrap_err(),
        ColorError::ParseI32(NumberError::PosOverflow)
    );
    assert_eq!(
        Color::parse("v,\u{3000}9\u{a0},1,2").unwrap(),
        Color::new(9, 1, 2)
    );
}
