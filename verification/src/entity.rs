//! Entities: their kinds, where they are and what they are saved as.
//!
//! A coordinate and an angle are floating-point numbers; they are held as
//! their bits.

use crate::nbt::{entry_index, entry_views, Entry, EntryView, Value, ValueView};
use crate::text::str_chars;
use vstd::prelude::*;
use vstd::string::StringExecFns;

verus! {

/// The kind of an entity.
#[derive(Debug, Clone, Copy, PartialEq, Eq, Structural, Hash)]
pub enum EntityType {
    Player,
    Zombie,
}

/// One of the four directions of the compass.
#[derive(Debug, Clone, Copy, PartialEq, Eq, Structural)]
pub enum CardinalDirection {
    North,
    South,
    East,
    West,
}

/// The way a player plays.
#[derive(Debug, Clone, Copy, PartialEq, Eq, Structural)]
pub enum Gamemode {
    Survival,
    Creative,
    Adventure,
    Spectator,
}

impl EntityType {
    /// The name of the kind.
    pub open spec fn name_text(self) -> Seq<char> {
        match self {
            EntityType::Player => "player"@,
            EntityType::Zombie => "zombie"@,
        }
    }

    /// The name of the kind.
    pub fn name(&self) -> (name: String)
        ensures
            name@ == self.name_text(),
    {
        match self {
            EntityType::Player => "player".to_owned(),
            EntityType::Zombie => "zombie".to_owned(),
        }
    }

    /// The name of the kind behind the namespace of the game.
    pub fn ident(&self) -> (ident: String)
        ensures
            ident@ == "minecraft:"@ + self.name_text(),
    {
        "minecraft:".to_owned().concat(self.name().as_str())
    }
}

impl Gamemode {
    /// The number the protocol knows the game mode by.
    pub open spec fn number(self) -> u8 {
        match self {
            Gamemode::Survival => 0,
            Gamemode::Creative => 1,
            Gamemode::Adventure => 2,
            Gamemode::Spectator => 3,
        }
    }

    /// The number the protocol knows the game mode by.
    pub fn id(&self) -> (id: u8)
        ensures
            id == self.number(),
    {
        match self {
            Gamemode::Survival => 0,
            Gamemode::Creative => 1,
            Gamemode::Adventure => 2,
            Gamemode::Spectator => 3,
        }
    }
}

/// The 32 bits of `v`, read as a number without a sign.
pub open spec fn word(v: i32) -> nat {
    if v >= 0 {
        v as nat
    } else {
        (v + 0x1_0000_0000) as nat
    }
}

/// The 128-bit number whose four 32-bit words, the highest first, are
/// `ints`.
pub open spec fn ints_value(ints: Seq<i32>) -> nat {
    ((word(ints[0]) * 0x1_0000_0000 + word(ints[1])) * 0x1_0000_0000 + word(ints[2]))
        * 0x1_0000_0000 + word(ints[3])
}

fn to_word(v: i32) -> (w: u128)
    ensures
        w == word(v),
        w < 0x1_0000_0000,
{
    if v >= 0 {
        v as u128
    } else {
        (v as i64 + 0x1_0000_0000) as u128
    }
}

fn from_word(w: u128) -> (v: i32)
    requires
        w < 0x1_0000_0000,
    ensures
        word(v) == w,
        v == unword(w as nat),
{
    if w < 0x8000_0000 {
        w as i32
    } else {
        (w as i64 - 0x1_0000_0000) as i32
    }
}

/// The identifier that the four integers `ints` spell, the highest word
/// first, each integer standing for its 32 bits.
pub fn uuid_from_ints(ints: [i32; 4]) -> (uuid: u128)
    ensures
        uuid == ints_value(ints@),
{
    let a = to_word(ints[0]);
    let b = to_word(ints[1]);
    let c = to_word(ints[2]);
    let d = to_word(ints[3]);
    ((a * 0x1_0000_0000 + b) * 0x1_0000_0000 + c) * 0x1_0000_0000 + d
}

/// The four integers that spell the identifier `uuid`, the highest word
/// first. They spell it back: `uuid_from_ints` of them is `uuid`.
pub fn uuid_to_ints(uuid: u128) -> (ints: [i32; 4])
    ensures
        ints@ == uuid_words(uuid),
        ints_value(ints@) == uuid,
{
    let d = uuid % 0x1_0000_0000;
    let rest = uuid / 0x1_0000_0000;
    let c = rest % 0x1_0000_0000;
    let rest = rest / 0x1_0000_0000;
    let b = rest % 0x1_0000_0000;
    let a = rest / 0x1_0000_0000;
    let ints = [from_word(a), from_word(b), from_word(c), from_word(d)];
    assert(ints@ =~= uuid_words(uuid));
    ints
}

/// Where an entity is and where it looks: three coordinates, as the
/// bits of double-precision numbers, and two angles, as the bits of
/// single-precision numbers.
#[derive(Debug, Clone, Copy, PartialEq, Eq, Structural)]
pub struct Transform {
    pub x: u64,
    pub y: u64,
    pub z: u64,
    pub yaw: u32,
    pub pitch: u32,
}

/// What every entity has.
#[derive(Debug, Clone, Copy, PartialEq, Eq, Structural)]
pub struct BaseEntity {
    pub id: i32,
    pub uuid: u128,
    pub transform: Transform,
    pub on_ground: bool,
    pub entity_type: EntityType,
}

/// Something that lives in the world.
pub trait Entity {
    /// What the entity has in common with all others.
    spec fn base_view(&self) -> BaseEntity;

    fn base(&self) -> (base: &BaseEntity)
        ensures
            *base == self.base_view(),
    ;

    /// The entity's base, to change it.
    fn base_mut(&mut self) -> (base: &mut BaseEntity)
        ensures
            *base == old(self).base_view(),
            final(self).base_view() == *final(base),
    ;

    /// Lets a tick of the world pass.
    fn tick(&mut self);

    fn type_id(&self) -> (entity_type: EntityType)
        ensures
            entity_type == self.base_view().entity_type,
    ;
}

/// A player.
#[derive(Debug)]
pub struct Player {
    pub base: BaseEntity,
    pub username: String,
    pub gamemode: Gamemode,
    pub flying: bool,
}

impl Transform {
    /// The place `x`, `y`, `z` with the angles `yaw` and `pitch`, all as bits.
    pub fn new(x: u64, y: u64, z: u64, yaw: u32, pitch: u32) -> (transform: Transform)
        ensures
            transform == (Transform { x, y, z, yaw, pitch }),
    {
        Transform { x, y, z, yaw, pitch }
    }
}

/// The value under `name` in `entries`, if there is one.
pub open spec fn entry_named(entries: Seq<EntryView>, name: Seq<char>) -> Option<ValueView> {
    let at = entry_index(entries, name, 0);
    if at < entries.len() {
        Some(entries[at].value)
    } else {
        None
    }
}

/// The coordinate that `value` gives in place of `old`: its bits, if it
/// is a double-precision number.
pub open spec fn double_or(value: ValueView, old: u64) -> u64 {
    match value {
        ValueView::Double(bits) => bits,
        _ => old,
    }
}

/// The angle that `value` gives in place of `old`: its bits, if it is a
/// single-precision number.
pub open spec fn float_or(value: ValueView, old: u32) -> u32 {
    match value {
        ValueView::Float(bits) => bits,
        _ => old,
    }
}

/// The entries an entity is saved as: its place under `Pos`, where it
/// looks under `Rotation`, its identifier under `UUID`.
pub open spec fn saved(entity: BaseEntity) -> Seq<EntryView> {
    seq![
        EntryView {
            name: "Pos"@,
            value: ValueView::List(
                seq![
                    ValueView::Double(entity.transform.x),
                    ValueView::Double(entity.transform.y),
                    ValueView::Double(entity.transform.z),
                ],
            ),
        },
        EntryView {
            name: "Rotation"@,
            value: ValueView::List(
                seq![
                    ValueView::Float(entity.transform.yaw),
                    ValueView::Float(entity.transform.pitch),
                ],
            ),
        },
        EntryView { name: "UUID"@, value: ValueView::IntArray(uuid_words(entity.uuid)) },
    ]
}

/// The four integers that spell `uuid`, the highest word first.
pub open spec fn uuid_words(uuid: u128) -> Seq<i32> {
    seq![
        unword(uuid as nat / 0x1_0000_0000_0000_0000_0000_0000),
        unword(uuid as nat / 0x1_0000_0000_0000_0000 % 0x1_0000_0000),
        unword(uuid as nat / 0x1_0000_0000 % 0x1_0000_0000),
        unword(uuid as nat % 0x1_0000_0000),
    ]
}

/// The integer whose 32 bits are `w`.
pub open spec fn unword(w: nat) -> i32 {
    if w < 0x8000_0000 {
        w as i32
    } else {
        (w - 0x1_0000_0000) as i32
    }
}

/// The place an entity has after it was loaded from `entries`: under
/// `Pos`, a list of three gives the coordinates, each where it is a
/// double-precision number; any other value changes nothing.
pub open spec fn loaded_position(old: Transform, entries: Seq<EntryView>) -> Transform {
    match entry_named(entries, "Pos"@) {
        Some(ValueView::List(pos)) => if pos.len() == 3 {
            Transform {
                x: double_or(pos[0], old.x),
                y: double_or(pos[1], old.y),
                z: double_or(pos[2], old.z),
                ..old
            }
        } else {
            old
        },
        _ => old,
    }
}

/// Where an entity looks after it was loaded from `entries`: under
/// `Rotation`, a list of two gives the angles, each where it is a
/// single-precision number.
pub open spec fn loaded_rotation(old: Transform, entries: Seq<EntryView>) -> Transform {
    match entry_named(entries, "Rotation"@) {
        Some(ValueView::List(rot)) => if rot.len() == 2 {
            Transform { yaw: float_or(rot[0], old.yaw), pitch: float_or(rot[1], old.pitch), ..old }
        } else {
            old
        },
        _ => old,
    }
}

/// The identifier an entity has after it was loaded from `entries`: under
/// `UUID`, an array of four integers spells it.
pub open spec fn loaded_uuid(old: u128, entries: Seq<EntryView>) -> u128 {
    match entry_named(entries, "UUID"@) {
        Some(ValueView::IntArray(ints)) => if ints.len() == 4 {
            ints_value(ints) as u128
        } else {
            old
        },
        _ => old,
    }
}

/// An entity after it was loaded from `entries`.
pub open spec fn loaded(old: BaseEntity, entries: Seq<EntryView>) -> BaseEntity {
    BaseEntity {
        transform: loaded_rotation(loaded_position(old.transform, entries), entries),
        uuid: loaded_uuid(old.uuid, entries),
        ..old
    }
}

fn double_bits(value: &Value, old: u64) -> (bits: u64)
    ensures
        bits == double_or(value@, old),
{
    match value {
        Value::Double(bits) => *bits,
        _ => old,
    }
}

fn float_bits(value: &Value, old: u32) -> (bits: u32)
    ensures
        bits == float_or(value@, old),
{
    match value {
        Value::Float(bits) => *bits,
        _ => old,
    }
}

/// The value under `name` in `entries`, if there is one.
fn find_entry<'a>(entries: &'a Vec<Entry>, name: &str) -> (value: Option<&'a Value>)
    ensures
        match entry_named(entry_views(entries@), name@) {
            Some(v) => value matches Some(x) && x@ == v,
            None => value is None,
        },
{
    let wanted = str_chars(name);
    let ghost views = entry_views(entries@);
    let mut at: usize = 0;
    while at < entries.len()
        invariant
            at <= entries@.len(),
            views == entry_views(entries@),
            wanted@ == name@,
            entry_index(views, name@, 0) == entry_index(views, name@, at as int),
        decreases entries@.len() - at,
    {
        assert(views[at as int] == entries@[at as int]@);
        let letters = str_chars(entries[at].name.as_str());
        if same_chars(&letters, &wanted) {
            return Some(&entries[at].value);
        }
        at += 1;
    }
    None
}

fn same_chars(a: &Vec<char>, b: &Vec<char>) -> (same: bool)
    ensures
        same == (a@ == b@),
{
    if a.len() != b.len() {
        return false;
    }
    let same = crate::text::holds_at(a, 0, b);
    assert(a@.subrange(0, b@.len() as int) =~= a@);
    same
}

impl BaseEntity {
    /// An entity on the ground.
    pub fn new(id: i32, uuid: u128, transform: Transform, entity_type: EntityType) -> (entity:
        BaseEntity)
        ensures
            entity == (BaseEntity { id, uuid, transform, on_ground: true, entity_type }),
    {
        BaseEntity { id, uuid, transform, on_ground: true, entity_type }
    }

    /// The entries the entity is saved as.
    pub fn save_to_nbt(&self) -> (entries: Vec<Entry>)
        ensures
            entry_views(entries@) == saved(*self),
    {
        let mut pos: Vec<Value> = Vec::new();
        pos.push(Value::Double(self.transform.x));
        pos.push(Value::Double(self.transform.y));
        pos.push(Value::Double(self.transform.z));
        let mut rot: Vec<Value> = Vec::new();
        rot.push(Value::Float(self.transform.yaw));
        rot.push(Value::Float(self.transform.pitch));
        let ints = uuid_to_ints(self.uuid);
        let mut words: Vec<i32> = Vec::new();
        words.push(ints[0]);
        words.push(ints[1]);
        words.push(ints[2]);
        words.push(ints[3]);
        assert(words@ =~= uuid_words(self.uuid));
        let position = Value::List(pos);
        let rotation = Value::List(rot);
        proof {
            reveal_with_fuel(crate::nbt::value_view, 2);
        }
        assert(position@->List_0 =~= seq![
            ValueView::Double(self.transform.x),
            ValueView::Double(self.transform.y),
            ValueView::Double(self.transform.z),
        ]);
        assert(rotation@->List_0 =~= seq![
            ValueView::Float(self.transform.yaw),
            ValueView::Float(self.transform.pitch),
        ]);
        let mut entries: Vec<Entry> = Vec::new();
        entries.push(Entry { name: "Pos".to_owned(), value: position });
        entries.push(Entry { name: "Rotation".to_owned(), value: rotation });
        entries.push(Entry { name: "UUID".to_owned(), value: Value::IntArray(words) });
        assert(entry_views(entries@) =~= saved(*self));
        entries
    }

    /// Takes from `nbt` what it says of the entity's place, of where it
    /// looks and of its identifier; what it does not say stays as it is.
    pub fn load_from_nbt(&mut self, nbt: &Vec<Entry>)
        ensures
            *final(self) == loaded(*old(self), entry_views(nbt@)),
    {
        match find_entry(nbt, "Pos") {
            Some(Value::List(pos)) => {
                if pos.len() == 3 {
                    self.transform.x = double_bits(&pos[0], self.transform.x);
                    self.transform.y = double_bits(&pos[1], self.transform.y);
                    self.transform.z = double_bits(&pos[2], self.transform.z);
                }
            },
            _ => {},
        }
        match find_entry(nbt, "Rotation") {
            Some(Value::List(rot)) => {
                if rot.len() == 2 {
                    self.transform.yaw = float_bits(&rot[0], self.transform.yaw);
                    self.transform.pitch = float_bits(&rot[1], self.transform.pitch);
                }
            },
            _ => {},
        }
        match find_entry(nbt, "UUID") {
            Some(Value::IntArray(ints)) => {
                if ints.len() == 4 {
                    let words: [i32; 4] = [ints[0], ints[1], ints[2], ints[3]];
                    assert(words@ =~= ints@);
                    self.uuid = uuid_from_ints(words);
                }
            },
            _ => {},
        }
    }
}

impl Player {
    /// A player in survival mode, on foot.
    pub fn new(id: i32, uuid: u128, username: String, transform: Transform) -> (player: Player)
        ensures
            player.base == BaseEntity::new_view(id, uuid, transform),
            player.username == username,
            player.gamemode == Gamemode::Survival,
            !player.flying,
    {
        Player {
            base: BaseEntity::new(id, uuid, transform, EntityType::Player),
            username,
            gamemode: Gamemode::Survival,
            flying: false,
        }
    }
}

impl BaseEntity {
    /// The base of a new player.
    pub open spec fn new_view(id: i32, uuid: u128, transform: Transform) -> BaseEntity {
        BaseEntity { id, uuid, transform, on_ground: true, entity_type: EntityType::Player }
    }
}

impl Entity for Player {
    open spec fn base_view(&self) -> BaseEntity {
        self.base
    }

    fn base(&self) -> (base: &BaseEntity) {
        &self.base
    }

    fn base_mut(&mut self) -> (base: &mut BaseEntity) {
        &mut self.base
    }

    fn tick(&mut self)
        ensures
            *final(self) == *old(self),
    {
    }

    fn type_id(&self) -> (entity_type: EntityType) {
        self.base.entity_type
    }
}

} // verus!
