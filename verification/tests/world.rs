use iridium::entity::{
    uuid_from_ints, uuid_to_ints, BaseEntity, CardinalDirection, Entity, EntityType, Gamemode,
    Player, Transform,
};
use iridium::nbt::{Entry, TagId, Value};
use iridium::server::{
    assert_config, listen_address, parse_command, react, ConsoleCommand, ServerAction, ServerEvent,
    ServerLoop,
};
use iridium::world::chunk::{Chunk, ChunkSection};
use iridium::world::generator::flat::FlatGenerator;
use iridium::world::generator::pregen::Pregenerator;
use iridium::world::generator::WorldGenerator;
use iridium::world::DimensionId;

#[test]
fn new_section_is_air() {
    let section = ChunkSection::new();
    assert_eq!(section.blocks_count, 0);
    assert_eq!(section.blocks.len(), 4096);
    assert!(section.blocks.iter().all(|b| *b == 0));
    assert!(section.biomes.is_none());
}

#[test]
fn set_block_counts_blocks() {
    let mut section = ChunkSection::new();
    section.set_block(1, 2, 3, 7);
    assert_eq!(section.get_block(1, 2, 3), 7);
    assert_eq!(section.blocks[(2 * 16 + 3) * 16 + 1], 7);
    assert_eq!(section.blocks_count, 1);
    section.set_block(1, 2, 3, 9);
    assert_eq!(section.blocks_count, 1);
    section.set_block(15, 15, 15, 1);
    assert_eq!(section.blocks_count, 2);
    assert_eq!(section.get_block(15, 15, 15), 1);
    section.set_block(1, 2, 3, 0);
    assert_eq!(section.blocks_count, 1);
    section.set_block(0, 0, 0, 0);
    assert_eq!(section.blocks_count, 1);
    assert_eq!(section.get_block(0, 0, 0), 0);
}

#[test]
fn new_chunk_has_24_sections_of_air() {
    let chunk = Chunk::new(3, -4);
    assert_eq!(chunk.x, 3);
    assert_eq!(chunk.z, -4);
    assert_eq!(chunk.sections.len(), 24);
    assert!(chunk.sections.iter().all(|s| s.blocks_count == 0));
}

#[test]
fn fill_layer_fills_one_layer() {
    let mut chunk = Chunk::new(0, 0);
    chunk.fill_layer(0, 33);
    let section = &chunk.sections[4];
    assert_eq!(section.blocks_count, 256);
    for x in 0..16 {
        for z in 0..16 {
            assert_eq!(section.get_block(x, 0, z), 33);
            assert_eq!(section.get_block(x, 1, z), 0);
        }
    }
    chunk.fill_layer(0, 10);
    assert_eq!(chunk.sections[4].blocks_count, 256);
    chunk.fill_layer(0, 0);
    assert_eq!(chunk.sections[4].blocks_count, 0);
    chunk.fill_layer(-64, 1);
    assert_eq!(chunk.sections[0].get_block(5, 0, 5), 1);
    chunk.fill_layer(319, 2);
    assert_eq!(chunk.sections[23].get_block(5, 15, 5), 2);
    chunk.fill_layer(-49, 3);
    assert_eq!(chunk.sections[0].get_block(0, 15, 0), 3);
}

#[test]
fn fill_layer_outside_the_chunk_changes_nothing() {
    let mut chunk = Chunk::new(0, 0);
    chunk.fill_layer(-65, 1);
    chunk.fill_layer(320, 1);
    chunk.fill_layer(i32::MAX, 1);
    chunk.fill_layer(i32::MIN, 1);
    assert!(chunk.sections.iter().all(|s| s.blocks_count == 0));
}

#[test]
fn fill_layer_keeps_count_right_over_mixed_blocks() {
    let mut chunk = Chunk::new(0, 0);
    chunk.sections[4].set_block(1, 1, 1, 5);
    chunk.sections[4].set_block(2, 0, 2, 5);
    chunk.fill_layer(0, 8);
    assert_eq!(chunk.sections[4].blocks_count, 257);
    chunk.fill_layer(1, 0);
    assert_eq!(chunk.sections[4].blocks_count, 256);
}

#[test]
fn fill_section_fills_all_blocks() {
    let mut chunk = Chunk::new(0, 0);
    chunk.fill_section(2, 9);
    assert_eq!(chunk.sections[2].blocks_count, 4096);
    assert!(chunk.sections[2].blocks.iter().all(|b| *b == 9));
    assert_eq!(chunk.sections[1].blocks_count, 0);
    chunk.fill_section(2, 0);
    assert_eq!(chunk.sections[2].blocks_count, 0);
    chunk.fill_section(24, 9);
    chunk.fill_section(usize::MAX, 9);
    assert!(chunk.sections.iter().all(|s| s.blocks_count == 0));
}

#[test]
fn flat_generator_lays_five_layers() {
    let chunk = FlatGenerator::new().generate_chunk(7, 8);
    assert_eq!(chunk.x, 7);
    assert_eq!(chunk.z, 8);
    let section = &chunk.sections[4];
    assert_eq!(section.blocks_count, 5 * 256);
    for (y, block) in [(0, 33), (1, 10), (2, 10), (3, 10), (4, 9), (5, 0)] {
        assert_eq!(section.get_block(0, y, 0), block);
        assert_eq!(section.get_block(15, y, 15), block);
    }
    for (i, other) in chunk.sections.iter().enumerate() {
        if i != 4 {
            assert_eq!(other.blocks_count, 0);
        }
    }
}

#[test]
fn pregenerator_starts_at_the_centre() {
    let mut pregenerator = Pregenerator::new(1);
    assert_eq!(pregenerator.radius, 1);
    assert!(!pregenerator.is_finished);
    assert_eq!(pregenerator.next_chunk(), Some((0, 0)));
    assert_eq!(pregenerator.current_r, 1);
}

#[test]
fn pregenerator_walks_the_square_of_radius_one() {
    let mut pregenerator = Pregenerator::new(1);
    let mut chunks = Vec::new();
    while let Some(chunk) = pregenerator.next_chunk() {
        chunks.push(chunk);
        assert!(chunks.len() < 100);
    }
    assert_eq!(
        chunks,
        vec![(0, 0), (-1, -1), (0, -1), (1, -1), (-1, 0), (0, 0), (1, 0), (-1, 1), (0, 1)]
    );
    assert!(pregenerator.is_finished);
    assert_eq!(pregenerator.next_chunk(), None);
}

#[test]
fn pregenerator_of_radius_zero_gives_the_centre_only() {
    let mut pregenerator = Pregenerator::new(0);
    assert_eq!(pregenerator.next_chunk(), Some((0, 0)));
    assert_eq!(pregenerator.next_chunk(), None);
    assert!(pregenerator.is_finished);
}

#[test]
fn pregenerator_of_negative_radius_gives_nothing() {
    let mut pregenerator = Pregenerator::new(-1);
    assert_eq!(pregenerator.next_chunk(), None);
    assert!(pregenerator.is_finished);
}

#[test]
fn pregenerator_respects_the_centre() {
    let mut pregenerator = Pregenerator::new(1);
    pregenerator.center_x = 10;
    pregenerator.center_z = -20;
    assert_eq!(pregenerator.next_chunk(), Some((10, -20)));
    assert_eq!(pregenerator.next_chunk(), Some((9, -21)));
    assert_eq!(pregenerator.next_chunk(), Some((10, -21)));
}

#[test]
fn dimension_bounds() {
    assert_eq!(DimensionId::Overworld.bounds(), (-64, 320));
    assert_eq!(DimensionId::Nether.bounds(), (0, 128));
    assert_eq!(DimensionId::TheEnd.bounds(), (0, 256));
}

#[test]
fn entity_names() {
    assert_eq!(EntityType::Player.name(), "player");
    assert_eq!(EntityType::Zombie.name(), "zombie");
    assert_eq!(EntityType::Player.ident(), "minecraft:player");
    assert_eq!(EntityType::Zombie.ident(), "minecraft:zombie");
    assert_ne!(CardinalDirection::North, CardinalDirection::South);
}

#[test]
fn gamemode_numbers() {
    assert_eq!(Gamemode::Survival.id(), 0);
    assert_eq!(Gamemode::Creative.id(), 1);
    assert_eq!(Gamemode::Adventure.id(), 2);
    assert_eq!(Gamemode::Spectator.id(), 3);
}

#[test]
fn uuid_words() {
    assert_eq!(uuid_to_ints(0), [0, 0, 0, 0]);
    assert_eq!(uuid_to_ints(1), [0, 0, 0, 1]);
    assert_eq!(uuid_to_ints(u128::MAX), [-1, -1, -1, -1]);
    let uuid = 0x0102_0304_8506_0708_090a_0b0c_fd0e_0f10u128;
    assert_eq!(
        uuid_to_ints(uuid),
        [0x0102_0304, 0x8506_0708u32 as i32, 0x090a_0b0c, 0xfd0e_0f10u32 as i32]
    );
    assert_eq!(uuid_from_ints(uuid_to_ints(uuid)), uuid);
    assert_eq!(uuid_from_ints([0, 0, 0, -1]), 0xffff_ffff);
    assert_eq!(uuid_from_ints([1, 0, 0, 0]), 1u128 << 96);
    let parsed = uuid::Uuid::from_u128(uuid);
    let ints = uuid_to_ints(parsed.as_u128());
    assert_eq!(uuid::Uuid::from_u128(uuid_from_ints(ints)), parsed);
}

#[test]
fn tag_ids() {
    let tags = [
        TagId::End,
        TagId::Byte,
        TagId::Short,
        TagId::Int,
        TagId::Long,
        TagId::Float,
        TagId::Double,
        TagId::ByteArray,
        TagId::String,
        TagId::List,
        TagId::Compound,
        TagId::IntArray,
        TagId::LongArray,
    ];
    for (i, tag) in tags.iter().enumerate() {
        assert_eq!(tag.id() as usize, i);
        assert_eq!(TagId::from(i as u8), *tag);
    }
    assert_eq!(TagId::from(13), TagId::End);
    assert_eq!(TagId::from(255), TagId::End);
}

#[test]
fn config_accepts_valid_address() {
    assert_eq!(assert_config(Some("127.0.0.1"), Some(25565)), Some(("127.0.0.1".to_string(), 25565)));
    assert_eq!(assert_config(Some("localhost"), Some(1024)), Some(("localhost".to_string(), 1024)));
    assert_eq!(assert_config(Some("h"), Some(65534)), Some(("h".to_string(), 65534)));
    assert_eq!(assert_config(None, None), Some(("0.0.0.0".to_string(), 25565)));
    assert_eq!(assert_config(None, Some(3000)), Some(("0.0.0.0".to_string(), 3000)));
    assert_eq!(assert_config(Some(" padded "), None), Some((" padded ".to_string(), 25565)));
}

#[test]
fn config_rejects_invalid_address() {
    assert_eq!(assert_config(Some(""), Some(25565)), None);
    assert_eq!(assert_config(Some("   \t"), Some(25565)), None);
    assert_eq!(assert_config(Some("h"), Some(1023)), None);
    assert_eq!(assert_config(Some("h"), Some(65535)), None);
    assert_eq!(assert_config(Some("h"), Some(-1)), None);
    assert_eq!(assert_config(Some("h"), Some(i64::MAX)), None);
}

#[test]
fn invalid_config_falls_back_to_defaults() {
    assert_eq!(listen_address(Some(""), Some(4000)), ("0.0.0.0".to_string(), 25565));
    assert_eq!(listen_address(Some("example.org"), Some(80)), ("0.0.0.0".to_string(), 25565));
    assert_eq!(listen_address(Some("example.org"), Some(4000)), ("example.org".to_string(), 4000));
    assert_eq!(listen_address(None, None), ("0.0.0.0".to_string(), 25565));
}

#[test]
fn console_commands() {
    assert_eq!(parse_command("stop"), ConsoleCommand::Stop);
    assert_eq!(parse_command("reload"), ConsoleCommand::Reload);
    assert_eq!(parse_command(""), ConsoleCommand::Other);
    assert_eq!(parse_command("Stop"), ConsoleCommand::Other);
    assert_eq!(parse_command("stop "), ConsoleCommand::Other);
    assert_eq!(parse_command("help"), ConsoleCommand::Other);
}

#[test]
fn server_reactions() {
    assert_eq!(react(ServerEvent::Accepted), ServerAction::Serve);
    assert_eq!(react(ServerEvent::AcceptFailed), ServerAction::Continue);
    assert_eq!(react(ServerEvent::Command(ConsoleCommand::Stop)), ServerAction::Shutdown);
    assert_eq!(react(ServerEvent::Command(ConsoleCommand::Reload)), ServerAction::Reload);
    assert_eq!(react(ServerEvent::Command(ConsoleCommand::Other)), ServerAction::Continue);
    assert_eq!(react(ServerEvent::ConsoleClosed), ServerAction::Shutdown);
    assert_eq!(react(ServerEvent::ConsoleFailed), ServerAction::Continue);
    assert_eq!(react(ServerEvent::Interrupt), ServerAction::Shutdown);
}

#[test]
fn entity_save_and_load() {
    let transform = Transform::new(1.5f64.to_bits(), 64.0f64.to_bits(), (-3.0f64).to_bits(), 90.0f32.to_bits(), 0.5f32.to_bits());
    let uuid = 0x0102_0304_8506_0708_090a_0b0c_fd0e_0f10u128;
    let entity = BaseEntity::new(7, uuid, transform, EntityType::Zombie);
    assert!(entity.on_ground);
    assert_eq!(entity.entity_type, EntityType::Zombie);
    let saved = entity.save_to_nbt();
    assert_eq!(saved.len(), 3);
    assert_eq!(saved[0].name, "Pos");
    assert_eq!(saved[1].name, "Rotation");
    assert_eq!(saved[2].name, "UUID");
    assert_eq!(format!("{:?}", saved[2].value), format!("{:?}", Value::IntArray(uuid_to_ints(uuid).to_vec())));
    assert_eq!(
        format!("{:?}", saved[0].value),
        format!("{:?}", Value::List(vec![Value::Double(transform.x), Value::Double(transform.y), Value::Double(transform.z)]))
    );

    let mut other = BaseEntity::new(8, 0, Transform::new(0, 0, 0, 0, 0), EntityType::Player);
    other.load_from_nbt(&saved);
    assert_eq!(other.transform, transform);
    assert_eq!(other.uuid, uuid);
    assert_eq!(other.id, 8);
    assert_eq!(other.entity_type, EntityType::Player);

    let partial = vec![
        Entry { name: "Pos".to_string(), value: Value::List(vec![Value::Double(5), Value::Int(1), Value::Double(6)]) },
        Entry { name: "Rotation".to_string(), value: Value::List(vec![Value::Float(9)]) },
        Entry { name: "UUID".to_string(), value: Value::IntArray(vec![1, 2, 3]) },
    ];
    other.load_from_nbt(&partial);
    assert_eq!(other.transform.x, 5);
    assert_eq!(other.transform.y, transform.y);
    assert_eq!(other.transform.z, 6);
    assert_eq!(other.transform.yaw, transform.yaw);
    assert_eq!(other.uuid, uuid);
    other.load_from_nbt(&vec![]);
    assert_eq!(other.uuid, uuid);

    let mut player = Player::new(1, 99, "Steve".to_string(), transform);
    assert_eq!(player.type_id(), EntityType::Player);
    assert_eq!(player.base().uuid, 99);
    assert_eq!(player.gamemode, Gamemode::Survival);
    assert!(!player.flying);
    player.base_mut().on_ground = false;
    assert!(!player.base().on_ground);
    player.tick();
    assert_eq!(player.username, "Steve");
}

#[test]
fn server_shuts_down_once() {
    let mut server = ServerLoop::new();
    assert!(!server.stopped);
    assert_eq!(server.on(ServerEvent::Accepted), ServerAction::Serve);
    assert_eq!(server.on(ServerEvent::Command(ConsoleCommand::Reload)), ServerAction::Reload);
    assert_eq!(server.on(ServerEvent::Accepted), ServerAction::Serve);
    assert_eq!(server.on(ServerEvent::Accepted), ServerAction::Serve);
    assert!(!server.stopped);
    assert_eq!(server.on(ServerEvent::Command(ConsoleCommand::Stop)), ServerAction::Shutdown);
    assert!(server.stopped);
    assert_eq!(server.on(ServerEvent::Command(ConsoleCommand::Stop)), ServerAction::Continue);
    assert_eq!(server.on(ServerEvent::Interrupt), ServerAction::Continue);
    assert_eq!(server.on(ServerEvent::Accepted), ServerAction::Continue);
    assert!(server.stopped);
}
