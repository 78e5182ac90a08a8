use bytes::BytesMut;
use iridium::events::{Cancelable, EventBus, EventError, EventPriority};
use iridium::network::event::ServerListPingEvent;
use iridium::network::packets::configuration::ClientInformationPacket;
use iridium::network::packets::handshake::HandshakePacket;
use iridium::network::packets::login::{
    LoginDisconnectionPacket, LoginStartPacket, LoginSuccessPacket,
};
use iridium::network::packets::status::{PingRequestPacket, PingResponsePacket, StatusResponsePacket};
use iridium::network::packets::PacketHandler;
use iridium::network::player_connection::{ConnectionState, PlayerConnection};
use iridium::network::states::configuration::ConfigurationPacketHandler;
use iridium::network::states::handshaking::HandshakePacketHandler;
use iridium::network::states::login::LoginPacketHandler;
use iridium::network::states::status::StatusPacketHandler;
use iridium::protocol::serial::{PacketError, PacketRead, PacketWrite};
use iridium::protocol::var_int::VarInt;
use serde_json::Value;
use std::cell::RefCell;
use std::rc::Rc;

type PingHandler = Box<dyn Fn(ServerListPingEvent) -> (ServerListPingEvent, Result<(), EventError>)>;

const HANDSHAKE_TO_STATUS: [u8; 17] = [
    0x10, 0x00, 0xf6, 0x05, 0x09, 0x6c, 0x6f, 0x63, 0x61, 0x6c, 0x68, 0x6f, 0x73, 0x74, 0x63, 0xdd,
    0x01,
];
const STATUS_REQUEST: [u8; 2] = [0x01, 0x00];
const PING_42: [u8; 10] = [0x09, 0x01, 0x00, 0x00, 0x00, 0x00, 0x00, 0x00, 0x00, 0x2a];

fn no_handlers() -> EventBus<PingHandler> {
    EventBus::new()
}

fn framed<P: PacketWrite>(packet: &P) -> Vec<u8> {
    let mut body = BytesMut::new();
    packet.write(&mut body).unwrap();
    let mut frame = BytesMut::new();
    VarInt(body.len() as i32).write(&mut frame).unwrap();
    frame.extend_from_slice(&body);
    frame.to_vec()
}

fn handshake(protocol: i32, next_state: i32) -> Vec<u8> {
    framed(&HandshakePacket {
        protocol_version: VarInt(protocol),
        server_address: "localhost".to_string(),
        server_port: 25565,
        next_state: VarInt(next_state),
    })
}

/// Splits what the connection wants to send into the packet id and the
/// bytes behind it.
fn sent(connection: &PlayerConnection) -> (i32, BytesMut) {
    let mut frame = BytesMut::from(connection.outbound());
    let length = VarInt::read(&mut frame).unwrap();
    assert_eq!(length.0 as usize, frame.len());
    let id = VarInt::read(&mut frame).unwrap();
    (id.0, frame)
}

fn connection_in(state: ConnectionState, protocol: i32) -> PlayerConnection {
    let mut connection = PlayerConnection::new();
    connection.set_state(state);
    connection.set_protocol(protocol);
    connection
}

#[test]
fn new_connection_is_handshaking() {
    let connection = PlayerConnection::new();
    assert_eq!(*connection.get_state(), ConnectionState::Handshaking);
    assert_eq!(connection.get_protocol(), 0);
    assert_eq!(connection.get_username(), None);
    assert_eq!(connection.get_uuid(), None);
    assert!(connection.get_client_information().is_none());
    assert!(connection.pending().is_empty());
    assert!(connection.outbound().is_empty());
}

#[test]
fn framer_waits_for_incomplete_payload_without_consuming() {
    let mut connection = PlayerConnection::new();
    let mut bytes = vec![0x10];
    bytes.extend_from_slice(&[7; 10]);
    connection.feed(&bytes);
    assert_eq!(connection.next_frame().unwrap_err(), PacketError::Incomplete);
    assert_eq!(connection.pending(), &bytes[..]);
    assert_eq!(connection.process(&no_handlers()), Ok(false));
    assert_eq!(connection.pending(), &bytes[..]);
    assert_eq!(*connection.get_state(), ConnectionState::Handshaking);
}

#[test]
fn framer_waits_for_incomplete_length_prefix() {
    let mut connection = PlayerConnection::new();
    assert_eq!(connection.next_frame().unwrap_err(), PacketError::Incomplete);
    connection.feed(&[0x80]);
    assert_eq!(connection.next_frame().unwrap_err(), PacketError::Incomplete);
    assert_eq!(connection.pending(), &[0x80]);
}

#[test]
fn framer_leaves_exactly_the_trailing_bytes() {
    let mut connection = PlayerConnection::new();
    connection.feed(&[0x03, 0xaa, 0xbb, 0xcc, 0x02, 0x11]);
    let frame = connection.next_frame().unwrap();
    assert_eq!(&frame[..], &[0xaa, 0xbb, 0xcc]);
    assert_eq!(connection.pending(), &[0x02, 0x11]);
    assert_eq!(connection.next_frame().unwrap_err(), PacketError::Incomplete);
    connection.feed(&[0x22]);
    let frame = connection.next_frame().unwrap();
    assert_eq!(&frame[..], &[0x11, 0x22]);
    assert!(connection.pending().is_empty());
}

#[test]
fn framer_accepts_bytes_in_pieces() {
    let mut connection = PlayerConnection::new();
    for byte in &HANDSHAKE_TO_STATUS[..16] {
        connection.feed(&[*byte]);
        assert_eq!(connection.process(&no_handlers()), Ok(false));
    }
    connection.feed(&HANDSHAKE_TO_STATUS[16..]);
    assert_eq!(connection.process(&no_handlers()), Ok(true));
    assert_eq!(*connection.get_state(), ConnectionState::Status);
}

#[test]
fn framer_accepts_empty_frame() {
    let mut connection = PlayerConnection::new();
    connection.feed(&[0x00, 0x01]);
    let frame = connection.next_frame().unwrap();
    assert!(frame.is_empty());
    assert_eq!(connection.pending(), &[0x01]);
}

#[test]
fn framer_rejects_malformed_length() {
    let mut connection = PlayerConnection::new();
    connection.feed(&[0xff, 0xff, 0xff, 0xff, 0xff, 0xff]);
    let error = connection.process(&no_handlers()).unwrap_err();
    assert_eq!(error, PacketError::VarIntTooBig);
    assert!(error.is_malformed());
    assert!(!error.is_recoverable());
    assert_eq!(connection.pending().len(), 6);
}

#[test]
fn framer_rejects_lengths_beyond_the_limit() {
    let mut connection = PlayerConnection::new();
    connection.feed(&[0x80, 0x80, 0x80, 0x01]);
    assert_eq!(connection.next_frame().unwrap_err(), PacketError::BadLength);
    let mut largest = PlayerConnection::new();
    largest.feed(&[0xff, 0xff, 0x7f]);
    assert_eq!(largest.next_frame().unwrap_err(), PacketError::Incomplete);
    let mut negative = PlayerConnection::new();
    negative.feed(&[0xff, 0xff, 0xff, 0xff, 0x0f]);
    let error = negative.next_frame().unwrap_err();
    assert_eq!(error, PacketError::BadLength);
    assert!(error.is_malformed());
}

#[test]
fn handshake_to_status_to_ping() {
    let bus = no_handlers();
    let mut connection = PlayerConnection::new();
    connection.feed(&HANDSHAKE_TO_STATUS);
    connection.feed(&STATUS_REQUEST);
    assert_eq!(connection.process(&bus), Ok(true));
    assert_eq!(*connection.get_state(), ConnectionState::Status);
    assert_eq!(connection.get_protocol(), 758);
    assert!(connection.outbound().is_empty());
    assert_eq!(connection.pending(), &STATUS_REQUEST[..]);

    assert_eq!(connection.process(&bus), Ok(true));
    let (id, mut body) = sent(&connection);
    assert_eq!(id, 0x00);
    let payload = String::read(&mut body).unwrap();
    assert!(body.is_empty());
    let status: Value = serde_json::from_str(&payload).unwrap();
    assert_eq!(status["version"]["protocol"], 774);
    assert_eq!(status["version"]["name"], "Iridium 1.21.11");
    assert_eq!(status["players"]["max"], 20);
    assert_eq!(status["players"]["online"], 0);
    assert_eq!(status["players"]["sample"], Value::Array(vec![]));
    assert_eq!(status["enforcesSecureChat"], false);
    assert!(status.get("favicon").is_none());
    assert!(status["description"].is_object());

    assert_eq!(connection.process(&bus), Ok(false));
    connection.feed(&PING_42);
    assert_eq!(connection.process(&bus), Ok(true));
    assert_eq!(connection.outbound(), &PING_42[..]);
    assert!(connection.pending().is_empty());
    assert_eq!(*connection.get_state(), ConnectionState::Status);
}

#[test]
fn status_description_follows_client_protocol() {
    let bus = no_handlers();
    let mut connection = PlayerConnection::new();
    connection.feed(&handshake(47, 1));
    connection.feed(&STATUS_REQUEST);
    assert_eq!(connection.process(&bus), Ok(true));
    assert_eq!(connection.process(&bus), Ok(true));
    let (_, mut body) = sent(&connection);
    let status: Value = serde_json::from_str(&String::read(&mut body).unwrap()).unwrap();
    let extra = status["description"]["extra"].as_array().unwrap();
    assert_eq!(extra[0]["text"], "reds");
    assert_eq!(extra[0]["color"], "red");
    assert_eq!(extra.last().unwrap()["text"], "Hello World");
    assert_eq!(extra.last().unwrap()["bold"], true);
}

#[test]
fn status_handlers_change_what_is_sent() {
    let observed = Rc::new(RefCell::new(Vec::new()));
    let mut bus: EventBus<PingHandler> = EventBus::new();
    let seen = observed.clone();
    bus.subscribe_with_priority(
        EventPriority::Monitor,
        Box::new(move |event: ServerListPingEvent| {
            seen.borrow_mut().push(event.status.get_online_players());
            (event, Ok(()))
        }),
    );
    bus.subscribe_with_priority(
        EventPriority::Normal,
        Box::new(|mut event: ServerListPingEvent| {
            event.status = event.status.online_players(10);
            (event, Ok(()))
        }),
    );
    let mut connection = connection_in(ConnectionState::Status, 774);
    connection.feed(&STATUS_REQUEST);
    assert_eq!(connection.process(&bus), Ok(true));
    let (id, mut body) = sent(&connection);
    assert_eq!(id, 0);
    let status: Value = serde_json::from_str(&String::read(&mut body).unwrap()).unwrap();
    assert_eq!(status["players"]["online"], 10);
    assert_eq!(*observed.borrow(), vec![10]);
}

#[test]
fn canceled_status_event_is_still_answered() {
    let mut bus: EventBus<PingHandler> = EventBus::new();
    bus.subscribe(Box::new(|mut event: ServerListPingEvent| {
        event.status = event.status.max_players(5);
        event.set_canceled(true);
        (event, Ok(()))
    }));
    bus.subscribe_with_priority(
        EventPriority::Low,
        Box::new(|mut event: ServerListPingEvent| {
            event.status = event.status.max_players(99);
            (event, Ok(()))
        }),
    );
    let mut connection = connection_in(ConnectionState::Status, 774);
    connection.feed(&STATUS_REQUEST);
    assert_eq!(connection.process(&bus), Ok(true));
    let (_, mut body) = sent(&connection);
    let status: Value = serde_json::from_str(&String::read(&mut body).unwrap()).unwrap();
    assert_eq!(status["players"]["max"], 5);
}

#[test]
fn failing_status_handler_sends_nothing() {
    let mut bus: EventBus<PingHandler> = EventBus::new();
    bus.subscribe(Box::new(|event: ServerListPingEvent| {
        (event, Err(EventError::UnexpectedType("ServerListPingEvent".to_string())))
    }));
    let mut connection = connection_in(ConnectionState::Status, 774);
    connection.feed(&STATUS_REQUEST);
    assert_eq!(connection.process(&bus), Ok(true));
    assert!(connection.outbound().is_empty());
    assert_eq!(*connection.get_state(), ConnectionState::Status);
}

#[test]
fn unknown_packet_in_status_state() {
    let mut connection = connection_in(ConnectionState::Status, 774);
    connection.feed(&[0x01, 0x07]);
    assert_eq!(connection.process(&no_handlers()), Err(PacketError::UnknownPacket));
    assert!(connection.outbound().is_empty());
}

#[test]
fn short_ping_is_incomplete_inside_its_frame() {
    let mut connection = connection_in(ConnectionState::Status, 774);
    connection.feed(&[0x03, 0x01, 0x00, 0x00]);
    assert_eq!(connection.process(&no_handlers()), Err(PacketError::Incomplete));
}

#[test]
fn empty_frame_has_no_packet_id() {
    let mut connection = PlayerConnection::new();
    connection.feed(&[0x00]);
    assert_eq!(connection.process(&no_handlers()), Err(PacketError::Incomplete));
}

#[test]
fn handshake_next_state_one_moves_to_status() {
    let mut connection = PlayerConnection::new();
    connection.feed(&handshake(774, 1));
    assert_eq!(connection.process(&no_handlers()), Ok(true));
    assert_eq!(*connection.get_state(), ConnectionState::Status);
    assert_eq!(connection.get_protocol(), 774);
}

#[test]
fn handshake_next_state_two_moves_to_login() {
    let mut connection = PlayerConnection::new();
    connection.feed(&handshake(774, 2));
    assert_eq!(connection.process(&no_handlers()), Ok(true));
    assert_eq!(*connection.get_state(), ConnectionState::Login);
}

#[test]
fn handshake_next_state_three_is_invalid_data() {
    let mut connection = PlayerConnection::new();
    connection.feed(&handshake(774, 3));
    assert_eq!(connection.process(&no_handlers()), Err(PacketError::InvalidData));
    assert_eq!(*connection.get_state(), ConnectionState::Handshaking);
}

#[test]
fn handshake_other_next_states_are_invalid_data() {
    for next in [0, 4, -1, 100] {
        let mut connection = PlayerConnection::new();
        connection.feed(&handshake(774, next));
        assert_eq!(connection.process(&no_handlers()), Err(PacketError::InvalidData));
        assert_eq!(*connection.get_state(), ConnectionState::Handshaking);
        assert_eq!(connection.get_protocol(), 774);
    }
}

#[test]
fn unknown_packet_in_handshaking_state() {
    let mut connection = PlayerConnection::new();
    connection.feed(&[0x01, 0x01]);
    assert_eq!(connection.process(&no_handlers()), Err(PacketError::UnknownPacket));
}

#[test]
fn login_start_records_identity_and_answers() {
    let mut connection = connection_in(ConnectionState::Login, 774);
    let uuid = 0x0102030405060708090a0b0c0d0e0f10u128;
    connection.feed(&framed(&LoginStartPacket { name: "Steve".to_string(), uuid }));
    assert_eq!(connection.process(&no_handlers()), Ok(true));
    assert_eq!(connection.get_username(), Some(&"Steve".to_string()));
    assert_eq!(connection.get_uuid(), Some(uuid));
    assert_eq!(*connection.get_state(), ConnectionState::Login);
    let (id, mut body) = sent(&connection);
    assert_eq!(id, 0x02);
    let success = LoginSuccessPacket::read(&mut body).unwrap();
    assert!(body.is_empty());
    assert_eq!(success.uuid, uuid);
    assert_eq!(success.name, "Steve");
    assert!(success.properties.is_empty());
}

#[test]
fn uuid_travels_as_sixteen_raw_bytes() {
    let uuid = uuid::Uuid::parse_str("01020304-0506-0708-090a-0b0c0d0e0f10").unwrap();
    let mut buffer = BytesMut::new();
    uuid.as_u128().write(&mut buffer).unwrap();
    assert_eq!(&buffer[..], uuid.as_bytes());
    let back = u128::read(&mut buffer).unwrap();
    assert_eq!(uuid::Uuid::from_u128(back), uuid);
}

#[test]
fn first_identity_stays() {
    let mut connection = PlayerConnection::new();
    connection.register("Alex".to_string(), 1);
    connection.register("Steve".to_string(), 2);
    assert_eq!(connection.get_username(), Some(&"Alex".to_string()));
    assert_eq!(connection.get_uuid(), Some(1));
}

#[test]
fn login_acknowledged_moves_to_configuration() {
    let mut connection = connection_in(ConnectionState::Login, 774);
    connection.feed(&[0x01, 0x03]);
    assert_eq!(connection.process(&no_handlers()), Ok(true));
    assert_eq!(*connection.get_state(), ConnectionState::Configuration);
    assert!(connection.outbound().is_empty());
}

#[test]
fn unknown_packet_in_login_state() {
    let mut connection = connection_in(ConnectionState::Login, 774);
    connection.feed(&[0x01, 0x01]);
    assert_eq!(connection.process(&no_handlers()), Err(PacketError::UnknownPacket));
}

#[test]
fn version_mismatch_sends_reason_and_closes() {
    let bus = no_handlers();
    let mut connection = PlayerConnection::new();
    connection.feed(&handshake(47, 2));
    connection.feed(&framed(&LoginStartPacket { name: "Steve".to_string(), uuid: 7 }));
    assert_eq!(connection.process(&bus), Ok(true));
    assert_eq!(*connection.get_state(), ConnectionState::Login);
    assert_eq!(connection.get_protocol(), 47);
    assert_eq!(connection.process(&bus), Err(PacketError::VersionMismatch));
    assert_eq!(connection.get_username(), None);
    let (id, mut body) = sent(&connection);
    assert_eq!(id, 0x00);
    let disconnect = LoginDisconnectionPacket::read(&mut body).unwrap();
    let reason: Value = serde_json::from_str(&disconnect.reason).unwrap();
    assert_eq!(reason["text"], "");
    let extra = reason["extra"].as_array().unwrap();
    assert_eq!(extra.len(), 1);
    assert_eq!(extra[0]["text"], "Invalid version please update your client.");
    assert_eq!(extra[0]["color"], "red");
}

#[test]
fn version_mismatch_at_newer_protocol_uses_hex_color() {
    let packet = LoginDisconnectionPacket::version_mismatch(800);
    let reason: Value = serde_json::from_str(&packet.reason).unwrap();
    assert_eq!(reason["extra"][0]["color"], "#ff5555");
}

#[test]
fn version_mismatch_answers_any_packet_id() {
    let mut connection = connection_in(ConnectionState::Login, 47);
    connection.feed(&[0x01, 0x55]);
    assert_eq!(connection.process(&no_handlers()), Err(PacketError::VersionMismatch));
    assert!(!connection.outbound().is_empty());
}

fn client_information() -> ClientInformationPacket {
    ClientInformationPacket {
        locale: "en_US".to_string(),
        view_distance: 12,
        chat_mode: VarInt(0),
        chat_colors: true,
        displayed_skin_parts: 0x7f,
        main_hand: VarInt(1),
        enable_text_filtering: false,
        allow_server_listing: true,
    }
}

#[test]
fn client_information_is_stored() {
    let mut connection = connection_in(ConnectionState::Configuration, 774);
    connection.feed(&framed(&client_information()));
    assert_eq!(connection.process(&no_handlers()), Ok(true));
    let stored = connection.get_client_information().unwrap();
    assert_eq!(stored.locale, "en_US");
    assert_eq!(stored.view_distance, 12);
    assert_eq!(stored.chat_mode, VarInt(0));
    assert!(stored.chat_colors);
    assert_eq!(stored.displayed_skin_parts, 0x7f);
    assert_eq!(stored.main_hand, VarInt(1));
    assert!(!stored.enable_text_filtering);
    assert!(stored.allow_server_listing);
    assert_eq!(*connection.get_state(), ConnectionState::Configuration);
}

#[test]
fn finish_configuration_moves_to_play() {
    let mut connection = connection_in(ConnectionState::Configuration, 774);
    connection.feed(&[0x01, 0x02]);
    assert_eq!(connection.process(&no_handlers()), Ok(true));
    assert_eq!(*connection.get_state(), ConnectionState::Play);
}

#[test]
fn unknown_packet_in_configuration_state() {
    let mut connection = connection_in(ConnectionState::Configuration, 774);
    connection.feed(&[0x01, 0x01]);
    assert_eq!(connection.process(&no_handlers()), Err(PacketError::UnknownPacket));
}

#[test]
fn play_state_is_not_implemented() {
    let mut connection = connection_in(ConnectionState::Play, 774);
    connection.feed(&[0x01, 0x00]);
    assert_eq!(connection.process(&no_handlers()), Err(PacketError::NotImplemented));
    assert_eq!(*connection.get_state(), ConnectionState::Play);
}

#[test]
fn whole_login_sequence() {
    let bus = no_handlers();
    let mut connection = PlayerConnection::new();
    connection.feed(&handshake(774, 2));
    connection.feed(&framed(&LoginStartPacket { name: "Alex".to_string(), uuid: 9 }));
    connection.feed(&[0x01, 0x03]);
    connection.feed(&framed(&client_information()));
    connection.feed(&[0x01, 0x02]);
    connection.feed(&[0x01, 0x00]);
    let mut states = Vec::new();
    loop {
        match connection.process(&bus) {
            Ok(true) => states.push(*connection.get_state()),
            Ok(false) => panic!("ran out of frames"),
            Err(error) => {
                assert_eq!(error, PacketError::NotImplemented);
                break;
            }
        }
    }
    assert_eq!(
        states,
        vec![
            ConnectionState::Login,
            ConnectionState::Login,
            ConnectionState::Configuration,
            ConnectionState::Configuration,
            ConnectionState::Play,
        ]
    );
    assert!(connection.pending().is_empty());
}

#[test]
fn send_packet_frames_id_and_fields() {
    let mut connection = PlayerConnection::new();
    connection.send_packet(&PingResponsePacket { payload: 42 }).unwrap();
    assert_eq!(connection.outbound(), &PING_42[..]);
    connection.send_packet(&StatusResponsePacket { pay_load: "{}".to_string() }).unwrap();
    assert_eq!(connection.outbound(), &[0x04, 0x00, 0x02, b'{', b'}']);
    connection.clear_outbound();
    assert!(connection.outbound().is_empty());
}

#[test]
fn send_packet_rejects_unwritable_packet() {
    let mut connection = PlayerConnection::new();
    connection.send_packet(&PingResponsePacket { payload: 1 }).unwrap();
    let too_long = StatusResponsePacket { pay_load: "x".repeat(32768) };
    assert_eq!(connection.send_packet(&too_long), Err(PacketError::StringTooLong));
    assert!(connection.outbound().is_empty());
}

#[test]
fn send_packet_rejects_overlong_frame() {
    let mut connection = PlayerConnection::new();
    let huge: Vec<u64> = vec![0; 300_000];
    assert_eq!(connection.send_packet(&huge), Err(PacketError::BadLength));
    assert!(connection.outbound().is_empty());
}

#[test]
fn try_feed_appends_when_there_is_room() {
    let mut connection = PlayerConnection::new();
    assert!(connection.try_feed(&[1, 2]));
    assert!(connection.try_feed(&[3]));
    assert_eq!(connection.pending(), &[1, 2, 3]);
}

#[test]
fn room_shrinks_with_pending_bytes() {
    let mut connection = PlayerConnection::new();
    let before = connection.room();
    connection.feed(&[1, 2, 3]);
    assert_eq!(connection.room(), before - 3);
}

#[test]
fn from_id_reads_known_packets() {
    let mut data = BytesMut::from(&HANDSHAKE_TO_STATUS[2..]);
    match HandshakePacketHandler::from_id(0, &mut data).unwrap() {
        HandshakePacketHandler::Handshake(packet) => {
            assert_eq!(packet.protocol_version, VarInt(758));
            assert_eq!(packet.server_address, "localhost");
            assert_eq!(packet.server_port, 25565);
            assert_eq!(packet.next_state, VarInt(1));
        }
    }
    assert!(data.is_empty());
    let mut ping = BytesMut::from(&PING_42[2..]);
    assert!(matches!(
        StatusPacketHandler::from_id(1, &mut ping),
        Ok(StatusPacketHandler::Ping(PingRequestPacket { payload: 42 }))
    ));
    let mut empty = BytesMut::new();
    assert!(matches!(StatusPacketHandler::from_id(0, &mut empty), Ok(StatusPacketHandler::StatusRequest(_))));
    assert!(matches!(
        ConfigurationPacketHandler::from_id(2, &mut empty),
        Ok(ConfigurationPacketHandler::FinishConfiguration(_))
    ));
}

#[test]
fn from_id_rejects_unknown_ids_and_keeps_data() {
    let mut data = BytesMut::from(&[1u8, 2, 3][..]);
    assert!(matches!(HandshakePacketHandler::from_id(1, &mut data), Err(PacketError::UnknownPacket)));
    assert!(matches!(StatusPacketHandler::from_id(2, &mut data), Err(PacketError::UnknownPacket)));
    assert!(matches!(ConfigurationPacketHandler::from_id(1, &mut data), Err(PacketError::UnknownPacket)));
    let connection = connection_in(ConnectionState::Login, 774);
    assert!(matches!(LoginPacketHandler::from_id(&connection, 1, &mut data), Err(PacketError::UnknownPacket)));
    assert_eq!(&data[..], &[1, 2, 3]);
}

#[test]
fn from_id_keeps_data_on_short_packet() {
    let mut data = BytesMut::from(&[0xf6u8, 0x05, 0x09, b'l'][..]);
    assert!(matches!(HandshakePacketHandler::from_id(0, &mut data), Err(PacketError::Incomplete)));
    assert_eq!(&data[..], &[0xf6, 0x05, 0x09, b'l']);
}

#[test]
fn handlers_can_be_called_directly() {
    let mut connection = PlayerConnection::new();
    let packet = HandshakePacket {
        protocol_version: VarInt(760),
        server_address: "example.org".to_string(),
        server_port: 1,
        next_state: VarInt(2),
    };
    assert_eq!(packet.handle(&mut connection), Ok(()));
    assert_eq!(*connection.get_state(), ConnectionState::Login);
    assert_eq!(connection.get_protocol(), 760);
    assert_eq!(PingRequestPacket { payload: -1 }.handle(&mut connection), Ok(()));
    assert_eq!(connection.outbound(), &[0x09, 0x01, 0xff, 0xff, 0xff, 0xff, 0xff, 0xff, 0xff, 0xff]);
}

#[test]
fn packets_write_their_id_first() {
    let mut buffer = BytesMut::new();
    PingRequestPacket { payload: 42 }.write(&mut buffer).unwrap();
    assert_eq!(&buffer[..], &PING_42[1..]);
    let mut buffer = BytesMut::new();
    LoginSuccessPacket { uuid: 1, name: "a".to_string(), properties: vec![] }.write(&mut buffer).unwrap();
    assert_eq!(buffer[0], 0x02);
    assert_eq!(buffer.len(), 1 + 16 + 2 + 1);
    assert_eq!(framed(&handshake_packet()), HANDSHAKE_TO_STATUS.to_vec());
}

fn handshake_packet() -> HandshakePacket {
    HandshakePacket {
        protocol_version: VarInt(758),
        server_address: "localhost".to_string(),
        server_port: 25565,
        next_state: VarInt(1),
    }
}
