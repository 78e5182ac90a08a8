use iridium::components::{get_protocol_version, get_version_name, Component};
use iridium::events::{Cancelable, Event};
use iridium::network::event::ServerListPingEvent;
use iridium::network::packets::status_builder::{PlayerSample, StatusBuilder};
use iridium::protocol::var_int::VarInt;
use serde_json::Value;

fn json_of(status: &StatusBuilder) -> Value {
    serde_json::from_str(&status.build().pay_load).unwrap()
}

#[test]
fn server_version_constants() {
    assert_eq!(get_protocol_version(), 774);
    assert_eq!(get_version_name(), "Iridium 1.21.11");
}

#[test]
fn default_status() {
    let status = StatusBuilder::new();
    let json = json_of(&status);
    assert_eq!(json["version"]["name"], "Iridium 1.21.11");
    assert_eq!(json["version"]["protocol"], 774);
    assert_eq!(json["players"]["max"], 20);
    assert_eq!(json["players"]["online"], 0);
    assert_eq!(json["players"]["sample"], Value::Array(vec![]));
    assert_eq!(json["enforcesSecureChat"], false);
    assert!(json.get("favicon").is_none());
    assert_eq!(json["description"]["color"], "#692aa8");
    assert_eq!(json["description"]["extra"][0]["text"], "Iridium Server");
    assert_eq!(status.get_protocol_version(), VarInt(774));
    assert_eq!(status.get_online_players(), 0);
    assert_eq!(status.get_max_players(), 20);
}

#[test]
fn status_has_exactly_the_documented_keys() {
    let json = json_of(&StatusBuilder::new().favicon(Some("data:image/png;base64,AAAA".to_string())));
    let mut keys: Vec<&String> = json.as_object().unwrap().keys().collect();
    keys.sort();
    assert_eq!(keys, vec!["description", "enforcesSecureChat", "favicon", "players", "version"]);
    let mut version: Vec<&String> = json["version"].as_object().unwrap().keys().collect();
    version.sort();
    assert_eq!(version, vec!["name", "protocol"]);
    let mut players: Vec<&String> = json["players"].as_object().unwrap().keys().collect();
    players.sort();
    assert_eq!(players, vec!["max", "online", "sample"]);
}

#[test]
fn status_key_order_in_text() {
    let text = StatusBuilder::new().build().pay_load;
    let version = text.find("\"version\"").unwrap();
    let players = text.find("\"players\"").unwrap();
    let description = text.find("\"description\"").unwrap();
    let secure = text.find("\"enforcesSecureChat\"").unwrap();
    assert!(version < players && players < description && description < secure);
}

#[test]
fn status_builders_set_their_fields() {
    let status = StatusBuilder::new()
        .version("Custom 1.0", 5)
        .max_players(100)
        .online_players(3)
        .motd(Component::text("hello"))
        .favicon(Some("icon".to_string()))
        .enforcers_secure_chat(Some(true));
    let json = json_of(&status);
    assert_eq!(json["version"]["name"], "Custom 1.0");
    assert_eq!(json["version"]["protocol"], 5);
    assert_eq!(json["players"]["max"], 100);
    assert_eq!(json["players"]["online"], 3);
    assert_eq!(json["description"], serde_json::from_str::<Value>("{\"text\":\"hello\"}").unwrap());
    assert_eq!(json["favicon"], "icon");
    assert_eq!(json["enforcesSecureChat"], true);
}

#[test]
fn status_players_sets_both_counts() {
    let status = StatusBuilder::new().players(7, 70);
    assert_eq!(status.get_online_players(), 7);
    assert_eq!(status.get_max_players(), 70);
}

#[test]
fn status_optional_fields_can_be_absent() {
    let json = json_of(&StatusBuilder::new().enforcers_secure_chat(None).favicon(None));
    assert!(json.get("enforcesSecureChat").is_none());
    assert!(json.get("favicon").is_none());
}

#[test]
fn status_samples() {
    let status = StatusBuilder::new().add_sample("Steve").add_sample("Alex");
    let json = json_of(&status);
    let sample = json["players"]["sample"].as_array().unwrap();
    assert_eq!(sample.len(), 2);
    assert_eq!(sample[0]["name"], "Steve");
    assert_eq!(sample[0]["id"], "00000000-0000-0000-0000-000000000000");
    assert_eq!(sample[1]["name"], "Alex");
    let replaced = status.sample(vec![PlayerSample { name: "Bob".to_string(), id: "1-2-3".to_string() }]);
    let json = json_of(&replaced);
    assert_eq!(json["players"]["sample"].as_array().unwrap().len(), 1);
    assert_eq!(json["players"]["sample"][0]["id"], "1-2-3");
}

#[test]
fn status_protocol_reaches_the_whole_message() {
    let status = StatusBuilder::new().motd(Component::modern_text("<#692aa8>a")).protocol(47);
    assert_eq!(status.get_protocol_version(), VarInt(47));
    let json = json_of(&status);
    assert_eq!(json["description"]["extra"][0]["color"], "dark_purple");
    assert_eq!(json["version"]["protocol"], 774);
}

#[test]
fn status_json_value_matches_payload() {
    let status = StatusBuilder::new().add_sample("x");
    assert_eq!(status.to_json_value().render(), status.build().pay_load);
}

#[test]
fn server_list_ping_event_starts_uncanceled() {
    let mut event = ServerListPingEvent::new(StatusBuilder::new().online_players(4));
    assert!(!event.is_canceled());
    assert!(!event.is_canceled);
    assert_eq!(event.status.get_online_players(), 4);
    assert_eq!(event.name(), "ServerListPingEvent");
    event.set_canceled(true);
    assert!(event.is_canceled());
    assert_eq!(event.status.get_online_players(), 4);
    event.set_canceled(false);
    assert!(!event.is_canceled());
}
