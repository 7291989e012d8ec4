use termdrawascii::codec::{ClientMessage, Colour, Coordinate, DrawCommand};
use termdrawascii::config::{get_args, parse_scale, Args};
use termdrawascii::emitter::{Action, Pacing};
use termdrawascii::error::{ErrorKind, Failure};
use termdrawascii::handshake::{step, Directive, Event, Handshake, HandshakeState};
use termdrawascii::inbound::{classify, decode, Outline, ServerMessage};
use termdrawascii::raster::Raster;
use termdrawascii::room::RoomId;
use termdrawascii::sampler::Sampler;
use termdrawascii::session::Session;
use termdrawascii::text::{chars_of, string_of, trim};

const ROOM: &str = "550e8400-e29b-41d4-a716-446655440000";
const ROOM_VALUE: u128 = 0x550e8400_e29b_41d4_a716_446655440000;

fn draw(x: u32, y: u32) -> DrawCommand {
    DrawCommand { at: Coordinate { x, y }, colour: Colour::White }
}

#[test]
fn draw_has_the_wire_shape() {
    assert_eq!(draw(3, 1).encode(), r#"{"Draw":{"x":3,"y":1,"colour":"White"}}"#);
    assert_eq!(draw(0, 0).encode(), r#"{"Draw":{"x":0,"y":0,"colour":"White"}}"#);
    assert_eq!(
        ClientMessage::Draw(draw(4294967295, 1000)).encode(),
        r#"{"Draw":{"x":4294967295,"y":1000,"colour":"White"}}"#
    );
    assert_eq!(Colour::White.name(), "White");
}

#[test]
fn join_room_has_the_wire_shape() {
    let room = RoomId::parse(ROOM).unwrap();
    assert_eq!(
        ClientMessage::JoinRoom(room).encode(),
        r#"{"JoinRoom":"550e8400-e29b-41d4-a716-446655440000"}"#
    );
}

#[test]
fn draw_round_trips_through_a_json_reader() {
    for (x, y) in [(0, 0), (3, 1), (10, 99), (65535, 65536), (u32::MAX, u32::MAX - 1)] {
        let text = draw(x, y).encode();
        let value: serde_json::Value = serde_json::from_str(&text).unwrap();
        let object = value.as_object().unwrap();
        assert_eq!(object.len(), 1);
        let pixel = object["Draw"].as_object().unwrap();
        assert_eq!(pixel.len(), 3);
        assert_eq!(pixel["x"].as_u64(), Some(x as u64));
        assert_eq!(pixel["y"].as_u64(), Some(y as u64));
        assert_eq!(pixel["colour"].as_str(), Some("White"));
    }
}

#[test]
fn join_room_round_trips_through_a_json_reader() {
    let room = RoomId::parse(ROOM).unwrap();
    let text = ClientMessage::JoinRoom(room).encode();
    let value: serde_json::Value = serde_json::from_str(&text).unwrap();
    let id = value["JoinRoom"].as_str().unwrap();
    assert_eq!(uuid::Uuid::parse_str(id).unwrap().as_u128(), room.value());
}

#[test]
fn room_id_is_read_in_every_form_the_parser_takes() {
    assert_eq!(RoomId::parse(ROOM).unwrap().value(), ROOM_VALUE);
    assert_eq!(RoomId::parse("550E8400-E29B-41D4-A716-446655440000").unwrap().value(), ROOM_VALUE);
    assert_eq!(RoomId::parse("550e8400e29b41d4a716446655440000").unwrap().value(), ROOM_VALUE);
    assert_eq!(
        RoomId::parse("urn:uuid:550e8400-e29b-41d4-a716-446655440000").unwrap().value(),
        ROOM_VALUE
    );
}

#[test]
fn room_id_is_trimmed_before_it_is_read() {
    assert_eq!(RoomId::parse("  550e8400-e29b-41d4-a716-446655440000\r\n").unwrap().value(), ROOM_VALUE);
    assert_eq!(
        RoomId::parse("\t not-a-uuid \n"),
        Err(Failure::InvalidRoomId("not-a-uuid".to_string()))
    );
}

#[test]
fn room_id_text_is_hyphenated_lower_case() {
    let room = RoomId::from_value(0xA1A2A3A4_B1B2_41C2_91D2_D3D4D5D6D7D8).unwrap();
    assert_eq!(room.to_text(), "a1a2a3a4-b1b2-41c2-91d2-d3d4d5d6d7d8");
    assert_eq!(room.value(), 0xA1A2A3A4_B1B2_41C2_91D2_D3D4D5D6D7D8);
}

#[test]
fn room_id_must_be_of_version_4() {
    assert!(RoomId::from_value(ROOM_VALUE).is_some());
    assert!(RoomId::from_value(0).is_none());
    assert!(RoomId::from_value(0x02f09a3f_1624_3b1d_8409_44eff7708208).is_none());
    assert_eq!(
        RoomId::parse("02f09a3f-1624-3b1d-8409-44eff7708208"),
        Err(Failure::InvalidRoomId("02f09a3f-1624-3b1d-8409-44eff7708208".to_string()))
    );
}

#[test]
fn invalid_room_id_fails_before_anything_is_sent() {
    let err = Handshake::begin("not-a-uuid").unwrap_err();
    assert_eq!(err, Failure::InvalidRoomId("not-a-uuid".to_string()));
    assert_eq!(err.kind(), ErrorKind::Protocol);
    assert_eq!(err.message(), "Invalid v4 UUID not-a-uuid");
    assert!(RoomId::parse("").is_err());
}

#[test]
fn server_messages_are_told_apart_by_tag() {
    assert_eq!(decode(r#"{"Join":{"room":{"id":"x","pixels":[]}}}"#), ServerMessage::Join);
    assert_eq!(decode(r#" { "Join" : null } "#), ServerMessage::Join);
    assert_eq!(decode(r#""RoomNotFound""#), ServerMessage::RoomNotFound);
    assert_eq!(decode(r#"{"RoomNotFound":null}"#), ServerMessage::RoomNotFound);
}

#[test]
fn unknown_server_messages_are_ignored() {
    assert_eq!(decode(r#"{"NewRoom":{"room_id":"x"}}"#), ServerMessage::Other);
    assert_eq!(decode(r#"{"Join":1,"RoomNotFound":2}"#), ServerMessage::Other);
    assert_eq!(decode(r#""Join""#), ServerMessage::Other);
    assert_eq!(decode(r#""Reset""#), ServerMessage::Other);
    assert_eq!(decode("{}"), ServerMessage::Other);
    assert_eq!(decode("[\"Join\"]"), ServerMessage::Other);
    assert_eq!(decode("null"), ServerMessage::Other);
    assert_eq!(decode("true"), ServerMessage::Other);
    assert_eq!(decode("12"), ServerMessage::Other);
    assert_eq!(decode("not json"), ServerMessage::Other);
    assert_eq!(decode(""), ServerMessage::Other);
    assert_eq!(decode(r#"{"Join":"#), ServerMessage::Other);
}

#[test]
fn outlines_are_classified() {
    assert_eq!(classify(&Outline::Object(vec!["Join".to_string()])), ServerMessage::Join);
    assert_eq!(
        classify(&Outline::Object(vec!["RoomNotFound".to_string()])),
        ServerMessage::RoomNotFound
    );
    assert_eq!(
        classify(&Outline::Object(vec!["Join".to_string(), "x".to_string()])),
        ServerMessage::Other
    );
    assert_eq!(classify(&Outline::Object(Vec::new())), ServerMessage::Other);
    assert_eq!(classify(&Outline::Text("RoomNotFound".to_string())), ServerMessage::RoomNotFound);
    assert_eq!(classify(&Outline::Text("Join".to_string())), ServerMessage::Other);
    assert_eq!(classify(&Outline::Null), ServerMessage::Other);
    assert_eq!(classify(&Outline::Bool(true)), ServerMessage::Other);
    assert_eq!(classify(&Outline::Number), ServerMessage::Other);
    assert_eq!(classify(&Outline::Array), ServerMessage::Other);
}

#[test]
fn room_not_found_ends_in_rejected_and_never_streams() {
    let mut h = Handshake::begin(ROOM).unwrap();
    assert_eq!(h.state(), HandshakeState::Connecting);
    assert_eq!(h.on_event(Event::Connected), Directive::SendJoin);
    assert_eq!(h.join_request(), r#"{"JoinRoom":"550e8400-e29b-41d4-a716-446655440000"}"#);
    assert_eq!(h.on_text(r#"{"Chat":"hello"}"#), Directive::Read);
    assert_eq!(h.state(), HandshakeState::AwaitingJoinAck);
    assert_eq!(h.on_text(r#""RoomNotFound""#), Directive::AbortUnknownRoom);
    assert_eq!(h.state(), HandshakeState::Rejected);
    assert!(!h.may_stream());
    assert!(Session::open(&h).is_none());
    assert_eq!(h.failure(), Some(Failure::RoomNotFound(ROOM.to_string())));
    assert_eq!(h.on_text(r#"{"Join":{}}"#), Directive::Stop);
    assert_eq!(h.state(), HandshakeState::Rejected);
    assert!(Session::open(&h).is_none());
}

#[test]
fn join_ends_in_joined_and_transmission_proceeds() {
    let mut h = Handshake::begin(ROOM).unwrap();
    assert_eq!(h.on_event(Event::Connected), Directive::SendJoin);
    assert!(Session::open(&h).is_none());
    assert_eq!(h.on_text("garbage"), Directive::Read);
    assert_eq!(h.on_text(r#"{"Join":{"room":{}}}"#), Directive::Stream);
    assert_eq!(h.state(), HandshakeState::Joined);
    assert!(h.may_stream());
    assert_eq!(h.failure(), None);
    let session = Session::open(&h).unwrap();
    assert_eq!(session.room(), h.room());
    let img = Raster::from_raw(2, 1, vec![255; 8]).unwrap();
    let actions = session.stream(&Sampler::from_scale(1).unwrap(), &img, Pacing::standard());
    assert_eq!(actions, vec![Action::Send(draw(0, 0)), Action::Send(draw(1, 0))]);
}

#[test]
fn closed_transport_is_fatal() {
    let mut h = Handshake::new(RoomId::parse(ROOM).unwrap());
    assert_eq!(h.on_event(Event::Closed), Directive::AbortDisconnected);
    assert_eq!(h.state(), HandshakeState::Disconnected);
    let mut waiting = Handshake::new(RoomId::parse(ROOM).unwrap());
    waiting.on_event(Event::Connected);
    assert_eq!(waiting.on_event(Event::Closed), Directive::AbortDisconnected);
    assert_eq!(waiting.failure(), Some(Failure::Disconnected(ROOM.to_string())));
    assert_eq!(waiting.on_event(Event::Received(ServerMessage::Join)), Directive::Stop);
    assert!(!waiting.may_stream());
}

#[test]
fn every_transition_is_as_tabled() {
    let connecting = HandshakeState::Connecting;
    let waiting = HandshakeState::AwaitingJoinAck;
    let lost = HandshakeState::Disconnected;
    let join = Event::Received(ServerMessage::Join);
    let missing = Event::Received(ServerMessage::RoomNotFound);
    let other = Event::Received(ServerMessage::Other);
    assert_eq!(step(connecting, Event::Connected), (waiting, Directive::SendJoin));
    assert_eq!(step(connecting, join), (connecting, Directive::Read));
    assert_eq!(step(connecting, Event::Closed), (lost, Directive::AbortDisconnected));
    assert_eq!(step(waiting, join), (HandshakeState::Joined, Directive::Stream));
    assert_eq!(step(waiting, missing), (HandshakeState::Rejected, Directive::AbortUnknownRoom));
    assert_eq!(step(waiting, other), (waiting, Directive::Read));
    assert_eq!(step(waiting, Event::Connected), (waiting, Directive::Read));
    assert_eq!(step(waiting, Event::Closed), (lost, Directive::AbortDisconnected));
    for terminal in [HandshakeState::Joined, HandshakeState::Rejected, lost] {
        for event in [Event::Connected, join, missing, other, Event::Closed] {
            assert_eq!(step(terminal, event), (terminal, Directive::Stop));
        }
    }
}

#[test]
fn arguments_are_endpoint_path_and_optional_scale() {
    let two = vec!["ws://host:1".to_string(), "cat.png".to_string()];
    assert_eq!(
        get_args(&two),
        Ok(Args { server_url: "ws://host:1".to_string(), filename: "cat.png".to_string(), scale: 1 })
    );
    let three = vec!["ws://host:1".to_string(), "cat.png".to_string(), "4".to_string()];
    assert_eq!(get_args(&three).unwrap().scale, 4);
    let four = vec!["a".to_string(), "b".to_string(), "12".to_string(), "extra".to_string()];
    assert_eq!(get_args(&four).unwrap().scale, 12);
}

#[test]
fn missing_arguments_are_a_usage_error() {
    assert_eq!(get_args(&Vec::new()), Err(Failure::Usage));
    assert_eq!(get_args(&vec!["ws://host:1".to_string()]), Err(Failure::Usage));
    assert_eq!(Failure::Usage.kind(), ErrorKind::Configuration);
    assert_eq!(
        Failure::Usage.message(),
        "Usage: termdrawascii <termdrawserver url> <image-path> [zoom-in-scale=1]"
    );
}

#[test]
fn scale_must_be_a_number_of_at_least_one() {
    assert_eq!(parse_scale("1"), Ok(1));
    assert_eq!(parse_scale("007"), Ok(7));
    assert_eq!(parse_scale("+3"), Ok(3));
    assert_eq!(parse_scale("65536"), Ok(65536));
    for bad in ["0", "+0", "000", "", "+", "-1", "1.5", " 2", "2 ", "two", "++1", "1e3", "0x10"] {
        assert_eq!(parse_scale(bad), Err(Failure::InvalidScale(bad.to_string())));
    }
    let args = vec!["a".to_string(), "b".to_string(), "0".to_string()];
    assert_eq!(get_args(&args), Err(Failure::InvalidScale("0".to_string())));
}

#[test]
fn failures_belong_to_their_families() {
    let s = || "x".to_string();
    assert_eq!(Failure::InvalidScale(s()).kind(), ErrorKind::Configuration);
    assert_eq!(Failure::ImageUnreadable(s()).kind(), ErrorKind::Image);
    assert_eq!(Failure::ImageUndecodable(s()).kind(), ErrorKind::Image);
    assert_eq!(Failure::EndpointUnreachable(s()).kind(), ErrorKind::Connection);
    assert_eq!(Failure::SendFailed(s()).kind(), ErrorKind::Connection);
    assert_eq!(Failure::InvalidRoomId(s()).kind(), ErrorKind::Protocol);
    assert_eq!(Failure::RoomNotFound(s()).kind(), ErrorKind::Protocol);
    assert_eq!(Failure::Disconnected(s()).kind(), ErrorKind::Protocol);
}

#[test]
fn failures_name_the_input_they_are_about() {
    assert_eq!(
        Failure::InvalidScale("zero".to_string()).message(),
        "Scale must be a whole number of at least 1 that fits a machine word, got zero"
    );
    assert_eq!(Failure::ImageUnreadable("a.png".to_string()).message(), "Could not open file a.png");
    assert_eq!(Failure::ImageUndecodable("a.png".to_string()).message(), "Could not decode file a.png");
    assert_eq!(
        Failure::EndpointUnreachable("ws://h".to_string()).message(),
        "Could not connect to termdrawserver instance on ws://h"
    );
    assert_eq!(Failure::SendFailed("ws://h".to_string()).message(), "Could not send to ws://h");
    assert_eq!(Failure::RoomNotFound(ROOM.to_string()).message(), format!("Unknown room {}", ROOM));
    assert_eq!(
        Failure::Disconnected(ROOM.to_string()).message(),
        format!("Connection lost while joining room {}", ROOM)
    );
}

#[test]
fn trimming_drops_white_space_at_both_ends_only() {
    let t = |s: &str| string_of(&trim(&chars_of(s)));
    assert_eq!(t("  a b \t\n"), "a b");
    assert_eq!(t("\u{a0}\u{3000}x\u{2028}"), "x");
    assert_eq!(t("   "), "");
    assert_eq!(t(""), "");
    assert_eq!(t("none"), "none");
    for s in ["  a b \t\n", "\u{85}é\u{1680}", "\u{200b}x ", " \u{feff}"] {
        assert_eq!(t(s), s.trim());
    }
}

#[test]
fn draw_is_read_back_from_its_wire_text() {
    for (x, y) in [(0, 0), (3, 1), (9, 10), (100, 99), (65535, 65536), (u32::MAX, u32::MAX - 1)] {
        let text = draw(x, y).encode();
        assert_eq!(DrawCommand::decode(&text), Some(draw(x, y)));
    }
    assert_eq!(
        DrawCommand::decode(r#"{"Draw":{"x":12,"y":7,"colour":"White"}}"#),
        Some(draw(12, 7))
    );
}

#[test]
fn what_is_no_wire_text_of_a_draw_is_not_read() {
    for bad in [
        "",
        "{}",
        r#"{"Draw":{"x":1,"y":2,"colour":"White"}"#,
        r#"{"Draw":{"x":1,"y":2,"colour":"White"}} "#,
        r#" {"Draw":{"x":1,"y":2,"colour":"White"}}"#,
        r#"{"Draw":{"x":01,"y":2,"colour":"White"}}"#,
        r#"{"Draw":{"x":1,"y":00,"colour":"White"}}"#,
        r#"{"Draw":{"x":,"y":2,"colour":"White"}}"#,
        r#"{"Draw":{"x":1,"y":,"colour":"White"}}"#,
        r#"{"Draw":{"x":-1,"y":2,"colour":"White"}}"#,
        r#"{"Draw":{"x":4294967296,"y":2,"colour":"White"}}"#,
        r#"{"Draw":{"x":1,"y":4294967296,"colour":"White"}}"#,
        r#"{"Draw":{"x":1,"y":2,"colour":"Black"}}"#,
        r#"{"Draw":{"x":1,"y":2,"colour":"white"}}"#,
        r#"{"Draw":{"y":2,"x":1,"colour":"White"}}"#,
        r#"{"Draw":{"x":1, "y":2,"colour":"White"}}"#,
        r#"{"JoinRoom":"550e8400-e29b-41d4-a716-446655440000"}"#,
    ] {
        assert_eq!(DrawCommand::decode(bad), None, "{}", bad);
    }
}

#[test]
fn scale_may_be_any_number_the_machine_word_holds() {
    let largest = usize::MAX.to_string();
    assert_eq!(parse_scale(&largest), Ok(usize::MAX));
    assert_eq!(parse_scale(&format!("+{}", largest)), Ok(usize::MAX));
    assert_eq!(parse_scale(&format!("000{}", largest)), Ok(usize::MAX));
    assert_eq!(parse_scale(&(usize::MAX / 2).to_string()), Ok(usize::MAX / 2));
    for power in [16u32, 31, 32, 33, 63] {
        if power < usize::BITS {
            let n = 1usize << power;
            assert_eq!(parse_scale(&n.to_string()), Ok(n));
            assert_eq!(parse_scale(&(n - 1).to_string()), Ok(n - 1));
        }
    }
    let args = vec!["ws://127.0.0.1:3000".to_string(), "cat.png".to_string(), largest];
    assert_eq!(get_args(&args).unwrap().scale, usize::MAX);
}

#[test]
fn scale_beyond_the_machine_word_is_refused() {
    let beyond = (usize::MAX as u128 + 1).to_string();
    assert_eq!(parse_scale(&beyond), Err(Failure::InvalidScale(beyond.clone())));
    let tenfold = format!("{}0", usize::MAX);
    assert_eq!(parse_scale(&tenfold), Err(Failure::InvalidScale(tenfold.clone())));
    let long = "9".repeat(60);
    assert_eq!(parse_scale(&long), Err(Failure::InvalidScale(long.clone())));
    let args = vec!["a".to_string(), "b".to_string(), beyond.clone()];
    assert_eq!(get_args(&args), Err(Failure::InvalidScale(beyond)));
}

#[test]
fn scale_agrees_with_the_standard_parser() {
    let largest = usize::MAX.to_string();
    let beyond = (usize::MAX as u128 + 1).to_string();
    for text in ["1", "+1", "0", "-0", "", "+", "12a", "007", "4294967296", " 1", "٣", &largest, &beyond] {
        let expected = match text.parse::<usize>() {
            Ok(n) if n >= 1 => Ok(n),
            _ => Err(Failure::InvalidScale(text.to_string())),
        };
        assert_eq!(parse_scale(text), expected, "{}", text);
    }
}
