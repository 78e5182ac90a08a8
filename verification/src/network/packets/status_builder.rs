//! The status a server shows in the client's server list, and the JSON it
//! is sent as.

use crate::components::colors::Color;
use crate::components::parse::modern_component;
use crate::components::serialize::{component_json, member_views, push_member};
use crate::components::{get_protocol_version, get_version_name, Component, ComponentView, StyleView};
use crate::json::{json_text, Json, JsonView, Member, MemberView};
use crate::network::packets::status::StatusResponsePacket;
use crate::protocol::var_int::VarInt;
use vstd::prelude::*;

verus! {

/// The identifier shown for a sampled player whose own is not known.
pub open spec fn nil_uuid() -> Seq<char> {
    "00000000-0000-0000-0000-000000000000"@
}

/// One of the players a status names.
#[derive(Debug)]
pub struct PlayerSample {
    pub name: String,
    pub id: String,
}

/// A [`PlayerSample`] as contracts see it.
pub struct PlayerSampleView {
    pub name: Seq<char>,
    pub id: Seq<char>,
}

impl View for PlayerSample {
    type V = PlayerSampleView;

    open spec fn view(&self) -> PlayerSampleView {
        PlayerSampleView { name: self.name@, id: self.id@ }
    }
}

/// The views of `samples`, in order.
pub open spec fn sample_views(samples: Seq<PlayerSample>) -> Seq<PlayerSampleView> {
    Seq::new(samples.len(), |i: int| samples[i]@)
}

/// What a status holds.
pub struct StatusBuilder {
    version_name: String,
    protocol: VarInt,
    max_players: VarInt,
    online_players: VarInt,
    sample: Vec<PlayerSample>,
    motd: Component,
    favicon: Option<String>,
    enforcers_secure_chat: Option<bool>,
}

/// A status as contracts see it.
pub struct StatusView {
    pub version_name: Seq<char>,
    pub protocol: i32,
    pub max_players: i32,
    pub online_players: i32,
    pub sample: Seq<PlayerSampleView>,
    pub motd: ComponentView,
    pub favicon: Option<Seq<char>>,
    pub enforces_secure_chat: Option<bool>,
}

impl View for StatusBuilder {
    type V = StatusView;

    closed spec fn view(&self) -> StatusView {
        StatusView {
            version_name: self.version_name@,
            protocol: self.protocol.0,
            max_players: self.max_players.0,
            online_players: self.online_players.0,
            sample: sample_views(self.sample@),
            motd: self.motd@,
            favicon: match self.favicon {
                Some(f) => Some(f@),
                None => None,
            },
            enforces_secure_chat: self.enforcers_secure_chat,
        }
    }
}

/// The colour of the message a new status shows.
pub open spec fn default_motd_color() -> Color {
    Color { r: 0x69, g: 0x2a, b: 0xa8 }
}

impl StatusView {
    /// The status of a server nobody has said anything about.
    pub open spec fn initial() -> StatusView {
        let text = modern_component("Iridium Server"@, 774);
        StatusView {
            version_name: "Iridium 1.21.11"@,
            protocol: 774,
            max_players: 20,
            online_players: 0,
            sample: Seq::empty(),
            motd: ComponentView {
                style: StyleView { color: Some(default_motd_color()), ..text.style },
                ..text
            },
            favicon: None,
            enforces_secure_chat: Some(false),
        }
    }
}

/// The member `key` with the number `value`.
pub open spec fn number_member(key: Seq<char>, value: int) -> MemberView {
    MemberView { key, value: JsonView::Number(value) }
}

/// A sampled player as JSON.
pub open spec fn sample_json(sample: PlayerSampleView) -> JsonView {
    JsonView::Object(
        seq![
            MemberView { key: "name"@, value: JsonView::Text(sample.name) },
            MemberView { key: "id"@, value: JsonView::Text(sample.id) },
        ],
    )
}

/// The JSON of a status: the version with its name and protocol number,
/// the players with their limit, their count and the sample, the message
/// as a component, and, where they are set, whether the server enforces
/// secure chat and its icon.
pub open spec fn status_json(status: StatusView) -> JsonView {
    JsonView::Object(
        seq![
            MemberView {
                key: "version"@,
                value: JsonView::Object(
                    seq![
                        MemberView { key: "name"@, value: JsonView::Text(status.version_name) },
                        number_member("protocol"@, status.protocol as int),
                    ],
                ),
            },
            MemberView {
                key: "players"@,
                value: JsonView::Object(
                    seq![
                        number_member("max"@, status.max_players as int),
                        number_member("online"@, status.online_players as int),
                        MemberView {
                            key: "sample"@,
                            value: JsonView::Array(
                                Seq::new(
                                    status.sample.len(),
                                    |i: int| sample_json(status.sample[i]),
                                ),
                            ),
                        },
                    ],
                ),
            },
            MemberView { key: "description"@, value: component_json(status.motd) },
        ] + (match status.enforces_secure_chat {
            Some(b) => seq![MemberView { key: "enforcesSecureChat"@, value: JsonView::Bool(b) }],
            None => Seq::empty(),
        }) + (match status.favicon {
            Some(f) => seq![MemberView { key: "favicon"@, value: JsonView::Text(f) }],
            None => Seq::empty(),
        }),
    )
}

fn object(members: Vec<Member>) -> (j: Json)
    ensures
        j@ == JsonView::Object(member_views(members@)),
{
    let j = Json::Object(members);
    assert(j@->Object_0 =~= member_views(members@));
    j
}

impl StatusBuilder {
    /// The status of a server nobody has said anything about.
    pub fn new() -> (status: StatusBuilder)
        ensures
            status@ == StatusView::initial(),
    {
        let status = StatusBuilder {
            version_name: get_version_name(),
            protocol: VarInt(get_protocol_version()),
            max_players: VarInt(20),
            online_players: VarInt(0),
            sample: Vec::new(),
            motd: Component::modern_text("Iridium Server").color(Color::new(0x69, 0x2a, 0xa8)),
            favicon: None,
            enforcers_secure_chat: Some(false),
        };
        assert(status@.sample =~= Seq::empty());
        status
    }

    /// The protocol number the status's message is made for.
    pub fn get_protocol_version(&self) -> (protocol: VarInt)
        ensures
            protocol.0 == self@.motd.protocol,
    {
        VarInt(self.motd.protocol)
    }

    /// The number of players the status says are online.
    pub fn get_online_players(&self) -> (online_players: i32)
        ensures
            online_players == self@.online_players,
    {
        self.online_players.0
    }

    /// The number of players the status says the server takes.
    pub fn get_max_players(&self) -> (max_players: i32)
        ensures
            max_players == self@.max_players,
    {
        self.max_players.0
    }

    /// This status with the version called `name`, of the protocol number
    /// `protocol`.
    pub fn version(self, name: &str, protocol: i32) -> (status: StatusBuilder)
        ensures
            status@ == (StatusView { version_name: name@, protocol, ..self@ }),
    {
        let mut this = self;
        this.version_name = name.to_owned();
        this.protocol = VarInt(protocol);
        this
    }

    /// This status with room for `max_players` players.
    pub fn max_players(self, max_players: i32) -> (status: StatusBuilder)
        ensures
            status@ == (StatusView { max_players, ..self@ }),
    {
        let mut this = self;
        this.max_players = VarInt(max_players);
        this
    }

    /// This status with `online_players` players online.
    pub fn online_players(self, online_players: i32) -> (status: StatusBuilder)
        ensures
            status@ == (StatusView { online_players, ..self@ }),
    {
        let mut this = self;
        this.online_players = VarInt(online_players);
        this
    }

    /// This status with `online_players` of `max_players` players online.
    pub fn players(self, online_players: i32, max_players: i32) -> (status: StatusBuilder)
        ensures
            status@ == (StatusView { online_players, max_players, ..self@ }),
    {
        let mut this = self;
        this.online_players = VarInt(online_players);
        this.max_players = VarInt(max_players);
        this
    }

    /// Names one more player, under the identifier of all zeros.
    pub fn add_sample(self, sample: &str) -> (status: StatusBuilder)
        ensures
            status@ == (StatusView {
                sample: self@.sample.push(PlayerSampleView { name: sample@, id: nil_uuid() }),
                ..self@
            }),
    {
        let mut this = self;
        this.sample.push(
            PlayerSample {
                name: sample.to_owned(),
                id: "00000000-0000-0000-0000-000000000000".to_owned(),
            },
        );
        assert(this@.sample =~= self@.sample.push(
            PlayerSampleView { name: sample@, id: nil_uuid() },
        ));
        this
    }

    /// This status naming the players of `sample`, and no others.
    pub fn sample(self, sample: Vec<PlayerSample>) -> (status: StatusBuilder)
        ensures
            status@ == (StatusView { sample: sample_views(sample@), ..self@ }),
    {
        let mut this = self;
        this.sample = sample;
        this
    }

    /// This status with the message `motd`.
    pub fn motd(self, motd: Component) -> (status: StatusBuilder)
        ensures
            status@ == (StatusView { motd: motd@, ..self@ }),
    {
        let mut this = self;
        this.motd = motd;
        this
    }

    /// Tells the status's message, through and through, the protocol
    /// number it is sent under.
    pub fn protocol(self, protocol: i32) -> (status: StatusBuilder)
        ensures
            status@ == (StatusView { motd: self@.motd.with_protocol(protocol), ..self@ }),
    {
        let StatusBuilder {
            version_name,
            protocol: version,
            max_players,
            online_players,
            sample,
            motd,
            favicon,
            enforcers_secure_chat,
        } = self;
        StatusBuilder {
            version_name,
            protocol: version,
            max_players,
            online_players,
            sample,
            motd: motd.protocol(protocol),
            favicon,
            enforcers_secure_chat,
        }
    }

    /// This status with the icon `favicon`, or without one.
    pub fn favicon(self, favicon: Option<String>) -> (status: StatusBuilder)
        ensures
            status@ == (StatusView {
                favicon: match favicon {
                    Some(f) => Some(f@),
                    None => None,
                },
                ..self@
            }),
    {
        let mut this = self;
        this.favicon = favicon;
        this
    }

    /// This status saying whether the server enforces secure chat, or
    /// saying nothing of it.
    pub fn enforcers_secure_chat(self, enforcers_secure_chat: Option<bool>) -> (status:
        StatusBuilder)
        ensures
            status@ == (StatusView { enforces_secure_chat: enforcers_secure_chat, ..self@ }),
    {
        let mut this = self;
        this.enforcers_secure_chat = enforcers_secure_chat;
        this
    }

    fn samples_json(&self) -> (list: Json)
        ensures
            list@ == JsonView::Array(
                Seq::new(self@.sample.len(), |i: int| sample_json(self@.sample[i])),
            ),
    {
        let mut items: Vec<Json> = Vec::new();
        let mut i: usize = 0;
        while i < self.sample.len()
            invariant
                i <= self.sample@.len(),
                items@.len() == i,
                forall|k: int| 0 <= k < i ==> (#[trigger] items@[k])@ == sample_json(self.sample@[k]@),
            decreases self.sample@.len() - i,
        {
            let mut members: Vec<Member> = Vec::new();
            assert(member_views(members@) =~= Seq::empty());
            push_member(&mut members, "name", Json::Text(self.sample[i].name.clone()));
            push_member(&mut members, "id", Json::Text(self.sample[i].id.clone()));
            assert(member_views(members@) =~= seq![
                MemberView { key: "name"@, value: JsonView::Text(self.sample@[i as int]@.name) },
                MemberView { key: "id"@, value: JsonView::Text(self.sample@[i as int]@.id) },
            ]);
            let item = object(members);
            items.push(item);
            i += 1;
        }
        let list = Json::Array(items);
        assert(list@->Array_0 =~= Seq::new(
            self@.sample.len(),
            |i: int| sample_json(self@.sample[i]),
        ));
        list
    }

    /// The status as a JSON value.
    pub fn to_json_value(&self) -> (j: Json)
        ensures
            j@ == status_json(self@),
    {
        let mut version: Vec<Member> = Vec::new();
        assert(member_views(version@) =~= Seq::empty());
        push_member(&mut version, "name", Json::Text(self.version_name.clone()));
        push_member(&mut version, "protocol", Json::Number(self.protocol.0 as i64));
        assert(member_views(version@) =~= seq![
            MemberView { key: "name"@, value: JsonView::Text(self@.version_name) },
            number_member("protocol"@, self@.protocol as int),
        ]);
        let mut players: Vec<Member> = Vec::new();
        assert(member_views(players@) =~= Seq::empty());
        push_member(&mut players, "max", Json::Number(self.max_players.0 as i64));
        push_member(&mut players, "online", Json::Number(self.online_players.0 as i64));
        push_member(&mut players, "sample", self.samples_json());
        assert(member_views(players@) =~= seq![
            number_member("max"@, self@.max_players as int),
            number_member("online"@, self@.online_players as int),
            MemberView {
                key: "sample"@,
                value: JsonView::Array(
                    Seq::new(self@.sample.len(), |i: int| sample_json(self@.sample[i])),
                ),
            },
        ]);
        let mut members: Vec<Member> = Vec::new();
        assert(member_views(members@) =~= Seq::empty());
        push_member(&mut members, "version", object(version));
        push_member(&mut members, "players", object(players));
        push_member(&mut members, "description", self.motd.to_json_value());
        match self.enforcers_secure_chat {
            Some(b) => {
                push_member(&mut members, "enforcesSecureChat", Json::Bool(b));
            },
            None => {},
        }
        match &self.favicon {
            Some(f) => {
                push_member(&mut members, "favicon", Json::Text(f.clone()));
            },
            None => {},
        }
        assert(member_views(members@) =~= status_json(self@)->Object_0);
        object(members)
    }

    /// The packet that answers a status request: the status as JSON text.
    pub fn build(&self) -> (packet: StatusResponsePacket)
        ensures
            packet.pay_load@ == json_text(status_json(self@)),
    {
        StatusResponsePacket { pay_load: self.to_json_value().render() }
    }
}

} // verus!
