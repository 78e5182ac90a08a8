//! The packets of the configuration state.

use crate::buffer::contents;
use crate::protocol::serial::{saturating_sum, PacketError, PacketRead, PacketWrite};
use crate::protocol::var_int::VarInt;
use crate::network::packets::PacketHandler;
use crate::network::player_connection::{ConnectionState, PlayerConnection, PlayerConnectionView};
use bytes::BytesMut;
use vstd::prelude::*;

verus! {

/// The client's settings.
#[derive(Debug)]
pub struct ClientInformationPacket {
    pub locale: String,
    pub view_distance: i8,
    pub chat_mode: VarInt,
    pub chat_colors: bool,
    pub displayed_skin_parts: u8,
    pub main_hand: VarInt,
    pub enable_text_filtering: bool,
    pub allow_server_listing: bool,
}

/// What a [`ClientInformationPacket`] holds, as plain values.
pub struct ClientInformationView {
    pub locale: Seq<char>,
    pub view_distance: i8,
    pub chat_mode: VarInt,
    pub chat_colors: bool,
    pub displayed_skin_parts: u8,
    pub main_hand: VarInt,
    pub enable_text_filtering: bool,
    pub allow_server_listing: bool,
}

impl DeepView for ClientInformationPacket {
    type V = ClientInformationView;

    open spec fn deep_view(&self) -> ClientInformationView {
        ClientInformationView {
            locale: self.locale.deep_view(),
            view_distance: self.view_distance.deep_view(),
            chat_mode: self.chat_mode.deep_view(),
            chat_colors: self.chat_colors.deep_view(),
            displayed_skin_parts: self.displayed_skin_parts.deep_view(),
            main_hand: self.main_hand.deep_view(),
            enable_text_filtering: self.enable_text_filtering.deep_view(),
            allow_server_listing: self.allow_server_listing.deep_view(),
        }
    }
}

impl PacketWrite for ClientInformationPacket {
    open spec fn wire(&self) -> Seq<u8> {
        VarInt(0x00).wire() + self.locale.wire() + self.view_distance.wire() + self.chat_mode.wire()
            + self.chat_colors.wire() + self.displayed_skin_parts.wire() + self.main_hand.wire()
            + self.enable_text_filtering.wire() + self.allow_server_listing.wire()
    }

    open spec fn wire_error(&self) -> Option<PacketError> {
        self.locale.wire_error()
    }

    fn check(&self) -> (r: Result<(), PacketError>) {
        self.locale.check()
    }

    fn size(&self) -> (n: usize) {
        let n: usize = VarInt(0x00).size();
        let n: usize = saturating_sum(n, self.locale.size());
        let n: usize = saturating_sum(n, self.view_distance.size());
        let n: usize = saturating_sum(n, self.chat_mode.size());
        let n: usize = saturating_sum(n, self.chat_colors.size());
        let n: usize = saturating_sum(n, self.displayed_skin_parts.size());
        let n: usize = saturating_sum(n, self.main_hand.size());
        let n: usize = saturating_sum(n, self.enable_text_filtering.size());
        saturating_sum(n, self.allow_server_listing.size())
    }

    fn put(&self, buffer: &mut BytesMut) {
        VarInt(0x00).put(buffer);
        self.locale.put(buffer);
        self.view_distance.put(buffer);
        self.chat_mode.put(buffer);
        self.chat_colors.put(buffer);
        self.displayed_skin_parts.put(buffer);
        self.main_hand.put(buffer);
        self.enable_text_filtering.put(buffer);
        self.allow_server_listing.put(buffer);
        assert(contents(*buffer) =~= contents(*old(buffer)) + self.wire());
    }
}

impl PacketRead for ClientInformationPacket {
    open spec fn parse(bytes: Seq<u8>) -> Result<(ClientInformationView, nat), PacketError> {
        match String::parse(bytes) {
            Err(e) => Err(e),
            Ok((locale, u0)) => {
                match i8::parse(bytes.skip(u0 as int)) {
                    Err(e) => Err(e),
                    Ok((view_distance, u1)) => {
                        match VarInt::parse(bytes.skip((u0 + u1) as int)) {
                            Err(e) => Err(e),
                            Ok((chat_mode, u2)) => {
                                match bool::parse(bytes.skip((u0 + u1 + u2) as int)) {
                                    Err(e) => Err(e),
                                    Ok((chat_colors, u3)) => {
                                        match u8::parse(bytes.skip((u0 + u1 + u2 + u3) as int)) {
                                            Err(e) => Err(e),
                                            Ok((displayed_skin_parts, u4)) => {
                                                match VarInt::parse(
                                                    bytes.skip((u0 + u1 + u2 + u3 + u4) as int),
                                                ) {
                                                    Err(e) => Err(e),
                                                    Ok((main_hand, u5)) => {
                                                        match bool::parse(
                                                            bytes.skip((u0 + u1 + u2 + u3 + u4 + u5) as int),
                                                        ) {
                                                            Err(e) => Err(e),
                                                            Ok((enable_text_filtering, u6)) => {
                                                                match bool::parse(
                                                                    bytes.skip((u0 + u1 + u2 + u3 + u4 + u5 + u6) as int),
                                                                ) {
                                                                    Err(e) => Err(e),
                                                                    Ok((allow_server_listing, u7)) => Ok(
                                                                        (
                                                                            ClientInformationView {
                                                                                locale,
                                                                                view_distance,
                                                                                chat_mode,
                                                                                chat_colors,
                                                                                displayed_skin_parts,
                                                                                main_hand,
                                                                                enable_text_filtering,
                                                                                allow_server_listing,
                                                                            },
                                                                            (u0 + u1 + u2 + u3 + u4
                                                                                + u5 + u6
                                                                                + u7) as nat,
                                                                        ),
                                                                    ),
                                                                }
                                                            },
                                                        }
                                                    },
                                                }
                                            },
                                        }
                                    },
                                }
                            },
                        }
                    },
                }
            },
        }
    }

    fn decode(data: &[u8], start: usize) -> (r: Result<(ClientInformationPacket, usize), PacketError>) {
        let ghost bytes = data@.skip(start as int);
        let (locale, pos0) = match String::decode(data, start) {
            Ok(x) => x,
            Err(e) => {
                return Err(e);
            },
        };
        assert(bytes.skip(pos0 - start) =~= data@.skip(pos0 as int));
        let (view_distance, pos1) = match i8::decode(data, pos0) {
            Ok(x) => x,
            Err(e) => {
                return Err(e);
            },
        };
        assert(bytes.skip(pos1 - start) =~= data@.skip(pos1 as int));
        let (chat_mode, pos2) = match VarInt::decode(data, pos1) {
            Ok(x) => x,
            Err(e) => {
                return Err(e);
            },
        };
        assert(bytes.skip(pos2 - start) =~= data@.skip(pos2 as int));
        let (chat_colors, pos3) = match bool::decode(data, pos2) {
            Ok(x) => x,
            Err(e) => {
                return Err(e);
            },
        };
        assert(bytes.skip(pos3 - start) =~= data@.skip(pos3 as int));
        let (displayed_skin_parts, pos4) = match u8::decode(data, pos3) {
            Ok(x) => x,
            Err(e) => {
                return Err(e);
            },
        };
        assert(bytes.skip(pos4 - start) =~= data@.skip(pos4 as int));
        let (main_hand, pos5) = match VarInt::decode(data, pos4) {
            Ok(x) => x,
            Err(e) => {
                return Err(e);
            },
        };
        assert(bytes.skip(pos5 - start) =~= data@.skip(pos5 as int));
        let (enable_text_filtering, pos6) = match bool::decode(data, pos5) {
            Ok(x) => x,
            Err(e) => {
                return Err(e);
            },
        };
        assert(bytes.skip(pos6 - start) =~= data@.skip(pos6 as int));
        let (allow_server_listing, pos7) = match bool::decode(data, pos6) {
            Ok(x) => x,
            Err(e) => {
                return Err(e);
            },
        };
        Ok(
            (
                ClientInformationPacket {
                    locale,
                    view_distance,
                    chat_mode,
                    chat_colors,
                    displayed_skin_parts,
                    main_hand,
                    enable_text_filtering,
                    allow_server_listing,
                },
                pos7,
            ),
        )
    }
}

/// Ends the configuration state. It has no fields.
#[derive(Debug, Clone, Copy)]
pub struct FinishConfigurationPacket {}

impl DeepView for FinishConfigurationPacket {
    type V = FinishConfigurationPacket;

    open spec fn deep_view(&self) -> FinishConfigurationPacket {
        *self
    }
}

impl PacketWrite for FinishConfigurationPacket {
    open spec fn wire(&self) -> Seq<u8> {
        VarInt(0x02).wire()
    }

    open spec fn wire_error(&self) -> Option<PacketError> {
        None
    }

    fn check(&self) -> (r: Result<(), PacketError>) {
        Ok(())
    }

    fn size(&self) -> (n: usize) {
        VarInt(0x02).size()
    }

    fn put(&self, buffer: &mut BytesMut) {
        VarInt(0x02).put(buffer)
    }
}

impl PacketRead for FinishConfigurationPacket {
    open spec fn parse(bytes: Seq<u8>) -> Result<(FinishConfigurationPacket, nat), PacketError> {
        Ok((FinishConfigurationPacket {}, 0))
    }

    fn decode(data: &[u8], start: usize) -> (r: Result<(FinishConfigurationPacket, usize), PacketError>) {
        Ok((FinishConfigurationPacket {}, start))
    }
}

/// What the client's settings do: the connection keeps them.
pub open spec fn client_information_effect(
    ctx: PlayerConnectionView,
    packet: ClientInformationView,
) -> (PlayerConnectionView, Result<(), PacketError>) {
    (PlayerConnectionView { client_information: Some(packet), ..ctx }, Ok(()))
}

/// What the end of the configuration does: the connection goes on to play.
pub open spec fn finish_configuration_effect(ctx: PlayerConnectionView) -> (
    PlayerConnectionView,
    Result<(), PacketError>,
) {
    (PlayerConnectionView { state: ConnectionState::Play, ..ctx }, Ok(()))
}

impl ClientInformationPacket {
    fn duplicate(&self) -> (copy: ClientInformationPacket)
        ensures
            copy.deep_view() == self.deep_view(),
    {
        ClientInformationPacket {
            locale: self.locale.clone(),
            view_distance: self.view_distance,
            chat_mode: self.chat_mode,
            chat_colors: self.chat_colors,
            displayed_skin_parts: self.displayed_skin_parts,
            main_hand: self.main_hand,
            enable_text_filtering: self.enable_text_filtering,
            allow_server_listing: self.allow_server_listing,
        }
    }
}

impl PacketHandler for ClientInformationPacket {
    open spec fn handled(&self, ctx: PlayerConnectionView) -> (
        PlayerConnectionView,
        Result<(), PacketError>,
    ) {
        client_information_effect(ctx, self.deep_view())
    }

    fn handle(&self, ctx: &mut PlayerConnection) -> (r: Result<(), PacketError>) {
        ctx.set_client_information(self.duplicate());
        Ok(())
    }
}

impl PacketHandler for FinishConfigurationPacket {
    open spec fn handled(&self, ctx: PlayerConnectionView) -> (
        PlayerConnectionView,
        Result<(), PacketError>,
    ) {
        finish_configuration_effect(ctx)
    }

    fn handle(&self, ctx: &mut PlayerConnection) -> (r: Result<(), PacketError>) {
        ctx.set_state(ConnectionState::Play);
        Ok(())
    }
}

} // verus!
