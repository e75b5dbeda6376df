use vstd::prelude::*;

use super::cursor::Cursor;
use super::io::{Error, ProtocolVersion, Readable, Slot, String16, WireFormat, Writeable};
use crate::game::BlockPosition;
use super::packets::{
    DiggingStatus, EntityActionKind, EntityAnimationType, EntityEffectKind, EntityStatusKind, Face,
    VariantOf,
};

verus! {

/// The first packet of a login: the player's name.
#[derive(Debug)]
pub struct Handshake {
    pub username: String16,
}

impl DeepView for Handshake {
    type V = <(String16, ()) as DeepView>::V;

    open spec fn deep_view(&self) -> Self::V {
        (self.username.deep_view(), ())
    }
}

impl Readable for Handshake {
    open spec fn read_defined(bytes: Seq<u8>) -> bool {
        <(String16, ())>::read_defined(bytes)
    }

    open spec fn spec_read(bytes: Seq<u8>) -> Option<(Self::V, nat)> {
        <(String16, ())>::spec_read(bytes)
    }

    proof fn lemma_read_bounded(bytes: Seq<u8>) {
        <(String16, ())>::lemma_read_bounded(bytes);
    }

    fn read(buffer: &mut Cursor, version: ProtocolVersion) -> (r: Result<Handshake, Error>) {
        let (username, ()) = <(String16, ())>::read(buffer, version)?;
        Ok(Handshake { username })
    }
}

impl Writeable for Handshake {
    open spec fn write_defined(v: Self::V) -> bool {
        <(String16, ())>::write_defined(v)
    }

    open spec fn spec_write(v: Self::V) -> Option<Seq<u8>> {
        <(String16, ())>::spec_write(v)
    }

    fn write(&self, buffer: &mut Vec<u8>, version: ProtocolVersion) -> (r: Result<(), Error>) {
        let fields: (&String16, ()) = (&self.username, ());
        fields.write(buffer, version)
    }
}

impl WireFormat for Handshake {
    open spec fn round_trips(v: Self::V) -> bool {
        <(String16, ())>::round_trips(v)
    }

    proof fn lemma_round_trip(v: Self::V, extra: Seq<u8>) {
        <(String16, ())>::lemma_round_trip(v, extra);
    }
}

/// A request for the server list reply.
#[derive(Debug)]
pub struct ServerListPing {
}

impl DeepView for ServerListPing {
    type V = <() as DeepView>::V;

    open spec fn deep_view(&self) -> Self::V {
        ()
    }
}

impl Readable for ServerListPing {
    open spec fn read_defined(bytes: Seq<u8>) -> bool {
        <()>::read_defined(bytes)
    }

    open spec fn spec_read(bytes: Seq<u8>) -> Option<(Self::V, nat)> {
        <()>::spec_read(bytes)
    }

    proof fn lemma_read_bounded(bytes: Seq<u8>) {
        <()>::lemma_read_bounded(bytes);
    }

    fn read(buffer: &mut Cursor, version: ProtocolVersion) -> (r: Result<ServerListPing, Error>) {
        let () = <()>::read(buffer, version)?;
        Ok(ServerListPing {  })
    }
}

impl Writeable for ServerListPing {
    open spec fn write_defined(v: Self::V) -> bool {
        <()>::write_defined(v)
    }

    open spec fn spec_write(v: Self::V) -> Option<Seq<u8>> {
        <()>::spec_write(v)
    }

    fn write(&self, buffer: &mut Vec<u8>, version: ProtocolVersion) -> (r: Result<(), Error>) {
        let fields: () = ();
        fields.write(buffer, version)
    }
}

impl WireFormat for ServerListPing {
    open spec fn round_trips(v: Self::V) -> bool {
        <()>::round_trips(v)
    }

    proof fn lemma_round_trip(v: Self::V, extra: Seq<u8>) {
        <()>::lemma_round_trip(v, extra);
    }
}

/// The login request of a client.
#[derive(Debug)]
pub struct LoginRequest {
    pub protocol_version: i32,
    pub username: String16,
    pub unused_1: i64,
    pub unused_2: i32,
    pub unused_3: i8,
    pub unused_4: i8,
    pub unused_5: u8,
    pub unused_6: u8,
}

impl DeepView for LoginRequest {
    type V = <(i32, (String16, (i64, (i32, (i8, (i8, (u8, (u8, ())))))))) as DeepView>::V;

    open spec fn deep_view(&self) -> Self::V {
        (self.protocol_version.deep_view(), (self.username.deep_view(), (self.unused_1.deep_view(), (self.unused_2.deep_view(), (self.unused_3.deep_view(), (self.unused_4.deep_view(), (self.unused_5.deep_view(), (self.unused_6.deep_view(), ()))))))))
    }
}

impl Readable for LoginRequest {
    open spec fn read_defined(bytes: Seq<u8>) -> bool {
        <(i32, (String16, (i64, (i32, (i8, (i8, (u8, (u8, ()))))))))>::read_defined(bytes)
    }

    open spec fn spec_read(bytes: Seq<u8>) -> Option<(Self::V, nat)> {
        <(i32, (String16, (i64, (i32, (i8, (i8, (u8, (u8, ()))))))))>::spec_read(bytes)
    }

    proof fn lemma_read_bounded(bytes: Seq<u8>) {
        <(i32, (String16, (i64, (i32, (i8, (i8, (u8, (u8, ()))))))))>::lemma_read_bounded(bytes);
    }

    fn read(buffer: &mut Cursor, version: ProtocolVersion) -> (r: Result<LoginRequest, Error>) {
        let (protocol_version, (username, (unused_1, (unused_2, (unused_3, (unused_4, (unused_5, (unused_6, ())))))))) = <(i32, (String16, (i64, (i32, (i8, (i8, (u8, (u8, ()))))))))>::read(buffer, version)?;
        Ok(LoginRequest { protocol_version, username, unused_1, unused_2, unused_3, unused_4, unused_5, unused_6 })
    }
}

impl Writeable for LoginRequest {
    open spec fn write_defined(v: Self::V) -> bool {
        <(i32, (String16, (i64, (i32, (i8, (i8, (u8, (u8, ()))))))))>::write_defined(v)
    }

    open spec fn spec_write(v: Self::V) -> Option<Seq<u8>> {
        <(i32, (String16, (i64, (i32, (i8, (i8, (u8, (u8, ()))))))))>::spec_write(v)
    }

    fn write(&self, buffer: &mut Vec<u8>, version: ProtocolVersion) -> (r: Result<(), Error>) {
        let fields: (&i32, (&String16, (&i64, (&i32, (&i8, (&i8, (&u8, (&u8, ())))))))) = (&self.protocol_version, (&self.username, (&self.unused_1, (&self.unused_2, (&self.unused_3, (&self.unused_4, (&self.unused_5, (&self.unused_6, ()))))))));
        fields.write(buffer, version)
    }
}

impl WireFormat for LoginRequest {
    open spec fn round_trips(v: Self::V) -> bool {
        <(i32, (String16, (i64, (i32, (i8, (i8, (u8, (u8, ()))))))))>::round_trips(v)
    }

    proof fn lemma_round_trip(v: Self::V, extra: Seq<u8>) {
        <(i32, (String16, (i64, (i32, (i8, (i8, (u8, (u8, ()))))))))>::lemma_round_trip(v, extra);
    }
}

/// A chat line or command typed by the player.
#[derive(Debug)]
pub struct ChatMessage {
    pub message: String16,
}

impl DeepView for ChatMessage {
    type V = <(String16, ()) as DeepView>::V;

    open spec fn deep_view(&self) -> Self::V {
        (self.message.deep_view(), ())
    }
}

impl Readable for ChatMessage {
    open spec fn read_defined(bytes: Seq<u8>) -> bool {
        <(String16, ())>::read_defined(bytes)
    }

    open spec fn spec_read(bytes: Seq<u8>) -> Option<(Self::V, nat)> {
        <(String16, ())>::spec_read(bytes)
    }

    proof fn lemma_read_bounded(bytes: Seq<u8>) {
        <(String16, ())>::lemma_read_bounded(bytes);
    }

    fn read(buffer: &mut Cursor, version: ProtocolVersion) -> (r: Result<ChatMessage, Error>) {
        let (message, ()) = <(String16, ())>::read(buffer, version)?;
        Ok(ChatMessage { message })
    }
}

impl Writeable for ChatMessage {
    open spec fn write_defined(v: Self::V) -> bool {
        <(String16, ())>::write_defined(v)
    }

    open spec fn spec_write(v: Self::V) -> Option<Seq<u8>> {
        <(String16, ())>::spec_write(v)
    }

    fn write(&self, buffer: &mut Vec<u8>, version: ProtocolVersion) -> (r: Result<(), Error>) {
        let fields: (&String16, ()) = (&self.message, ());
        fields.write(buffer, version)
    }
}

impl WireFormat for ChatMessage {
    open spec fn round_trips(v: Self::V) -> bool {
        <(String16, ())>::round_trips(v)
    }

    proof fn lemma_round_trip(v: Self::V, extra: Seq<u8>) {
        <(String16, ())>::lemma_round_trip(v, extra);
    }
}

/// The player is standing still.
#[derive(Debug)]
pub struct PlayerMovement {
    pub on_ground: bool,
}

impl DeepView for PlayerMovement {
    type V = <(bool, ()) as DeepView>::V;

    open spec fn deep_view(&self) -> Self::V {
        (self.on_ground.deep_view(), ())
    }
}

impl Readable for PlayerMovement {
    open spec fn read_defined(bytes: Seq<u8>) -> bool {
        <(bool, ())>::read_defined(bytes)
    }

    open spec fn spec_read(bytes: Seq<u8>) -> Option<(Self::V, nat)> {
        <(bool, ())>::spec_read(bytes)
    }

    proof fn lemma_read_bounded(bytes: Seq<u8>) {
        <(bool, ())>::lemma_read_bounded(bytes);
    }

    fn read(buffer: &mut Cursor, version: ProtocolVersion) -> (r: Result<PlayerMovement, Error>) {
        let (on_ground, ()) = <(bool, ())>::read(buffer, version)?;
        Ok(PlayerMovement { on_ground })
    }
}

impl Writeable for PlayerMovement {
    open spec fn write_defined(v: Self::V) -> bool {
        <(bool, ())>::write_defined(v)
    }

    open spec fn spec_write(v: Self::V) -> Option<Seq<u8>> {
        <(bool, ())>::spec_write(v)
    }

    fn write(&self, buffer: &mut Vec<u8>, version: ProtocolVersion) -> (r: Result<(), Error>) {
        let fields: (&bool, ()) = (&self.on_ground, ());
        fields.write(buffer, version)
    }
}

impl WireFormat for PlayerMovement {
    open spec fn round_trips(v: Self::V) -> bool {
        <(bool, ())>::round_trips(v)
    }

    proof fn lemma_round_trip(v: Self::V, extra: Seq<u8>) {
        <(bool, ())>::lemma_round_trip(v, extra);
    }
}

/// An answer to a keep-alive.
#[derive(Debug)]
pub struct KeepAlive {
    pub id: i32,
}

impl DeepView for KeepAlive {
    type V = <(i32, ()) as DeepView>::V;

    open spec fn deep_view(&self) -> Self::V {
        (self.id.deep_view(), ())
    }
}

impl Readable for KeepAlive {
    open spec fn read_defined(bytes: Seq<u8>) -> bool {
        <(i32, ())>::read_defined(bytes)
    }

    open spec fn spec_read(bytes: Seq<u8>) -> Option<(Self::V, nat)> {
        <(i32, ())>::spec_read(bytes)
    }

    proof fn lemma_read_bounded(bytes: Seq<u8>) {
        <(i32, ())>::lemma_read_bounded(bytes);
    }

    fn read(buffer: &mut Cursor, version: ProtocolVersion) -> (r: Result<KeepAlive, Error>) {
        let (id, ()) = <(i32, ())>::read(buffer, version)?;
        Ok(KeepAlive { id })
    }
}

impl Writeable for KeepAlive {
    open spec fn write_defined(v: Self::V) -> bool {
        <(i32, ())>::write_defined(v)
    }

    open spec fn spec_write(v: Self::V) -> Option<Seq<u8>> {
        <(i32, ())>::spec_write(v)
    }

    fn write(&self, buffer: &mut Vec<u8>, version: ProtocolVersion) -> (r: Result<(), Error>) {
        let fields: (&i32, ()) = (&self.id, ());
        fields.write(buffer, version)
    }
}

impl WireFormat for KeepAlive {
    open spec fn round_trips(v: Self::V) -> bool {
        <(i32, ())>::round_trips(v)
    }

    proof fn lemma_round_trip(v: Self::V, extra: Seq<u8>) {
        <(i32, ())>::lemma_round_trip(v, extra);
    }
}

/// The client leaves.
#[derive(Debug)]
pub struct Disconnect {
    pub reason: String16,
}

impl DeepView for Disconnect {
    type V = <(String16, ()) as DeepView>::V;

    open spec fn deep_view(&self) -> Self::V {
        (self.reason.deep_view(), ())
    }
}

impl Readable for Disconnect {
    open spec fn read_defined(bytes: Seq<u8>) -> bool {
        <(String16, ())>::read_defined(bytes)
    }

    open spec fn spec_read(bytes: Seq<u8>) -> Option<(Self::V, nat)> {
        <(String16, ())>::spec_read(bytes)
    }

    proof fn lemma_read_bounded(bytes: Seq<u8>) {
        <(String16, ())>::lemma_read_bounded(bytes);
    }

    fn read(buffer: &mut Cursor, version: ProtocolVersion) -> (r: Result<Disconnect, Error>) {
        let (reason, ()) = <(String16, ())>::read(buffer, version)?;
        Ok(Disconnect { reason })
    }
}

impl Writeable for Disconnect {
    open spec fn write_defined(v: Self::V) -> bool {
        <(String16, ())>::write_defined(v)
    }

    open spec fn spec_write(v: Self::V) -> Option<Seq<u8>> {
        <(String16, ())>::spec_write(v)
    }

    fn write(&self, buffer: &mut Vec<u8>, version: ProtocolVersion) -> (r: Result<(), Error>) {
        let fields: (&String16, ()) = (&self.reason, ());
        fields.write(buffer, version)
    }
}

impl WireFormat for Disconnect {
    open spec fn round_trips(v: Self::V) -> bool {
        <(String16, ())>::round_trips(v)
    }

    proof fn lemma_round_trip(v: Self::V, extra: Seq<u8>) {
        <(String16, ())>::lemma_round_trip(v, extra);
    }
}

/// The player started or stopped an action.
#[derive(Debug)]
pub struct EntityAction {
    pub eid: i32,
    pub action_id: EntityActionKind,
}

impl DeepView for EntityAction {
    type V = <(i32, (EntityActionKind, ())) as DeepView>::V;

    open spec fn deep_view(&self) -> Self::V {
        (self.eid.deep_view(), (self.action_id.deep_view(), ()))
    }
}

impl Readable for EntityAction {
    open spec fn read_defined(bytes: Seq<u8>) -> bool {
        <(i32, (EntityActionKind, ()))>::read_defined(bytes)
    }

    open spec fn spec_read(bytes: Seq<u8>) -> Option<(Self::V, nat)> {
        <(i32, (EntityActionKind, ()))>::spec_read(bytes)
    }

    proof fn lemma_read_bounded(bytes: Seq<u8>) {
        <(i32, (EntityActionKind, ()))>::lemma_read_bounded(bytes);
    }

    fn read(buffer: &mut Cursor, version: ProtocolVersion) -> (r: Result<EntityAction, Error>) {
        let (eid, (action_id, ())) = <(i32, (EntityActionKind, ()))>::read(buffer, version)?;
        Ok(EntityAction { eid, action_id })
    }
}

impl Writeable for EntityAction {
    open spec fn write_defined(v: Self::V) -> bool {
        <(i32, (EntityActionKind, ()))>::write_defined(v)
    }

    open spec fn spec_write(v: Self::V) -> Option<Seq<u8>> {
        <(i32, (EntityActionKind, ()))>::spec_write(v)
    }

    fn write(&self, buffer: &mut Vec<u8>, version: ProtocolVersion) -> (r: Result<(), Error>) {
        let fields: (&i32, (&EntityActionKind, ())) = (&self.eid, (&self.action_id, ()));
        fields.write(buffer, version)
    }
}

impl WireFormat for EntityAction {
    open spec fn round_trips(v: Self::V) -> bool {
        <(i32, (EntityActionKind, ()))>::round_trips(v)
    }

    proof fn lemma_round_trip(v: Self::V, extra: Seq<u8>) {
        <(i32, (EntityActionKind, ()))>::lemma_round_trip(v, extra);
    }
}

/// The player played an animation.
#[derive(Debug)]
pub struct Animation {
    pub eid: i32,
    pub animation: EntityAnimationType,
}

impl DeepView for Animation {
    type V = <(i32, (EntityAnimationType, ())) as DeepView>::V;

    open spec fn deep_view(&self) -> Self::V {
        (self.eid.deep_view(), (self.animation.deep_view(), ()))
    }
}

impl Readable for Animation {
    open spec fn read_defined(bytes: Seq<u8>) -> bool {
        <(i32, (EntityAnimationType, ()))>::read_defined(bytes)
    }

    open spec fn spec_read(bytes: Seq<u8>) -> Option<(Self::V, nat)> {
        <(i32, (EntityAnimationType, ()))>::spec_read(bytes)
    }

    proof fn lemma_read_bounded(bytes: Seq<u8>) {
        <(i32, (EntityAnimationType, ()))>::lemma_read_bounded(bytes);
    }

    fn read(buffer: &mut Cursor, version: ProtocolVersion) -> (r: Result<Animation, Error>) {
        let (eid, (animation, ())) = <(i32, (EntityAnimationType, ()))>::read(buffer, version)?;
        Ok(Animation { eid, animation })
    }
}

impl Writeable for Animation {
    open spec fn write_defined(v: Self::V) -> bool {
        <(i32, (EntityAnimationType, ()))>::write_defined(v)
    }

    open spec fn spec_write(v: Self::V) -> Option<Seq<u8>> {
        <(i32, (EntityAnimationType, ()))>::spec_write(v)
    }

    fn write(&self, buffer: &mut Vec<u8>, version: ProtocolVersion) -> (r: Result<(), Error>) {
        let fields: (&i32, (&EntityAnimationType, ())) = (&self.eid, (&self.animation, ()));
        fields.write(buffer, version)
    }
}

impl WireFormat for Animation {
    open spec fn round_trips(v: Self::V) -> bool {
        <(i32, (EntityAnimationType, ()))>::round_trips(v)
    }

    proof fn lemma_round_trip(v: Self::V, extra: Seq<u8>) {
        <(i32, (EntityAnimationType, ()))>::lemma_round_trip(v, extra);
    }
}

/// The player dug at a block or dropped an item.
#[derive(Debug)]
pub struct PlayerDigging {
    pub status: DiggingStatus,
    pub x: i32,
    pub y: i8,
    pub z: i32,
    pub face: Face,
}

impl DeepView for PlayerDigging {
    type V = <(DiggingStatus, (i32, (i8, (i32, (Face, ()))))) as DeepView>::V;

    open spec fn deep_view(&self) -> Self::V {
        (self.status.deep_view(), (self.x.deep_view(), (self.y.deep_view(), (self.z.deep_view(), (self.face.deep_view(), ())))))
    }
}

impl Readable for PlayerDigging {
    open spec fn read_defined(bytes: Seq<u8>) -> bool {
        <(DiggingStatus, (i32, (i8, (i32, (Face, ())))))>::read_defined(bytes)
    }

    open spec fn spec_read(bytes: Seq<u8>) -> Option<(Self::V, nat)> {
        <(DiggingStatus, (i32, (i8, (i32, (Face, ())))))>::spec_read(bytes)
    }

    proof fn lemma_read_bounded(bytes: Seq<u8>) {
        <(DiggingStatus, (i32, (i8, (i32, (Face, ())))))>::lemma_read_bounded(bytes);
    }

    fn read(buffer: &mut Cursor, version: ProtocolVersion) -> (r: Result<PlayerDigging, Error>) {
        let (status, (x, (y, (z, (face, ()))))) = <(DiggingStatus, (i32, (i8, (i32, (Face, ())))))>::read(buffer, version)?;
        Ok(PlayerDigging { status, x, y, z, face })
    }
}

impl Writeable for PlayerDigging {
    open spec fn write_defined(v: Self::V) -> bool {
        <(DiggingStatus, (i32, (i8, (i32, (Face, ())))))>::write_defined(v)
    }

    open spec fn spec_write(v: Self::V) -> Option<Seq<u8>> {
        <(DiggingStatus, (i32, (i8, (i32, (Face, ())))))>::spec_write(v)
    }

    fn write(&self, buffer: &mut Vec<u8>, version: ProtocolVersion) -> (r: Result<(), Error>) {
        let fields: (&DiggingStatus, (&i32, (&i8, (&i32, (&Face, ()))))) = (&self.status, (&self.x, (&self.y, (&self.z, (&self.face, ())))));
        fields.write(buffer, version)
    }
}

impl WireFormat for PlayerDigging {
    open spec fn round_trips(v: Self::V) -> bool {
        <(DiggingStatus, (i32, (i8, (i32, (Face, ())))))>::round_trips(v)
    }

    proof fn lemma_round_trip(v: Self::V, extra: Seq<u8>) {
        <(DiggingStatus, (i32, (i8, (i32, (Face, ())))))>::lemma_round_trip(v, extra);
    }
}

/// The fields of a block placement on the wire: x, y as a byte, z, the
/// clicked face and the held stack.
pub type PlacementFields = (i32, (i8, (i32, (Face, (Slot, ())))));

/// The player placed a block, or used an item, against a face of a block.
#[derive(Debug)]
pub struct PlayerBlockPlacement {
    /// The clicked block; the world is left 0, for the receiver to set.
    pub pos: BlockPosition,
    pub direction: Face,
    pub block_or_item: Slot,
}

impl DeepView for PlayerBlockPlacement {
    type V = (BlockPosition, <Face as DeepView>::V, Option<(i16, i8, i16)>);

    open spec fn deep_view(&self) -> Self::V {
        (self.pos, self.direction.deep_view(), self.block_or_item.deep_view())
    }
}

/// The placement that the wire fields give.
pub open spec fn placement_of(f: <PlacementFields as DeepView>::V) -> <PlayerBlockPlacement as DeepView>::V {
    let (x, (y, (z, (face, (slot, _))))) = f;
    (BlockPosition { x, y: y as i32, z, world: 0 }, face, slot)
}

impl Readable for PlayerBlockPlacement {
    open spec fn read_defined(bytes: Seq<u8>) -> bool {
        PlacementFields::read_defined(bytes)
    }

    open spec fn spec_read(bytes: Seq<u8>) -> Option<(Self::V, nat)> {
        match PlacementFields::spec_read(bytes) {
            Some((f, n)) => Some((placement_of(f), n)),
            None => None,
        }
    }

    proof fn lemma_read_bounded(bytes: Seq<u8>) {
        PlacementFields::lemma_read_bounded(bytes);
    }

    fn read(buffer: &mut Cursor, version: ProtocolVersion) -> (r: Result<PlayerBlockPlacement, Error>) {
        let (x, (y, (z, (direction, (block_or_item, ()))))) = PlacementFields::read(buffer, version)?;
        Ok(PlayerBlockPlacement {
            pos: BlockPosition { x, y: y as i32, z, world: 0 },
            direction,
            block_or_item,
        })
    }
}

/// A creative-mode player set an inventory slot.
#[derive(Debug)]
pub struct CreativeInventoryAction {
    pub slot_id: i16,
    pub item_id: i16,
    pub quantity: i16,
    pub meta: i16,
}

impl DeepView for CreativeInventoryAction {
    type V = <(i16, (i16, (i16, (i16, ())))) as DeepView>::V;

    open spec fn deep_view(&self) -> Self::V {
        (self.slot_id.deep_view(), (self.item_id.deep_view(), (self.quantity.deep_view(), (self.meta.deep_view(), ()))))
    }
}

impl Readable for CreativeInventoryAction {
    open spec fn read_defined(bytes: Seq<u8>) -> bool {
        <(i16, (i16, (i16, (i16, ()))))>::read_defined(bytes)
    }

    open spec fn spec_read(bytes: Seq<u8>) -> Option<(Self::V, nat)> {
        <(i16, (i16, (i16, (i16, ()))))>::spec_read(bytes)
    }

    proof fn lemma_read_bounded(bytes: Seq<u8>) {
        <(i16, (i16, (i16, (i16, ()))))>::lemma_read_bounded(bytes);
    }

    fn read(buffer: &mut Cursor, version: ProtocolVersion) -> (r: Result<CreativeInventoryAction, Error>) {
        let (slot_id, (item_id, (quantity, (meta, ())))) = <(i16, (i16, (i16, (i16, ()))))>::read(buffer, version)?;
        Ok(CreativeInventoryAction { slot_id, item_id, quantity, meta })
    }
}

impl Writeable for CreativeInventoryAction {
    open spec fn write_defined(v: Self::V) -> bool {
        <(i16, (i16, (i16, (i16, ()))))>::write_defined(v)
    }

    open spec fn spec_write(v: Self::V) -> Option<Seq<u8>> {
        <(i16, (i16, (i16, (i16, ()))))>::spec_write(v)
    }

    fn write(&self, buffer: &mut Vec<u8>, version: ProtocolVersion) -> (r: Result<(), Error>) {
        let fields: (&i16, (&i16, (&i16, (&i16, ())))) = (&self.slot_id, (&self.item_id, (&self.quantity, (&self.meta, ()))));
        fields.write(buffer, version)
    }
}

impl WireFormat for CreativeInventoryAction {
    open spec fn round_trips(v: Self::V) -> bool {
        <(i16, (i16, (i16, (i16, ()))))>::round_trips(v)
    }

    proof fn lemma_round_trip(v: Self::V, extra: Seq<u8>) {
        <(i16, (i16, (i16, (i16, ()))))>::lemma_round_trip(v, extra);
    }
}

/// The player selected another hotbar slot.
#[derive(Debug)]
pub struct HoldingChange {
    pub slot_id: i16,
}

impl DeepView for HoldingChange {
    type V = <(i16, ()) as DeepView>::V;

    open spec fn deep_view(&self) -> Self::V {
        (self.slot_id.deep_view(), ())
    }
}

impl Readable for HoldingChange {
    open spec fn read_defined(bytes: Seq<u8>) -> bool {
        <(i16, ())>::read_defined(bytes)
    }

    open spec fn spec_read(bytes: Seq<u8>) -> Option<(Self::V, nat)> {
        <(i16, ())>::spec_read(bytes)
    }

    proof fn lemma_read_bounded(bytes: Seq<u8>) {
        <(i16, ())>::lemma_read_bounded(bytes);
    }

    fn read(buffer: &mut Cursor, version: ProtocolVersion) -> (r: Result<HoldingChange, Error>) {
        let (slot_id, ()) = <(i16, ())>::read(buffer, version)?;
        Ok(HoldingChange { slot_id })
    }
}

impl Writeable for HoldingChange {
    open spec fn write_defined(v: Self::V) -> bool {
        <(i16, ())>::write_defined(v)
    }

    open spec fn spec_write(v: Self::V) -> Option<Seq<u8>> {
        <(i16, ())>::spec_write(v)
    }

    fn write(&self, buffer: &mut Vec<u8>, version: ProtocolVersion) -> (r: Result<(), Error>) {
        let fields: (&i16, ()) = (&self.slot_id, ());
        fields.write(buffer, version)
    }
}

impl WireFormat for HoldingChange {
    open spec fn round_trips(v: Self::V) -> bool {
        <(i16, ())>::round_trips(v)
    }

    proof fn lemma_round_trip(v: Self::V, extra: Seq<u8>) {
        <(i16, ())>::lemma_round_trip(v, extra);
    }
}

/// The player closed a window.
#[derive(Debug)]
pub struct CloseWindow {
    pub window_id: i8,
}

impl DeepView for CloseWindow {
    type V = <(i8, ()) as DeepView>::V;

    open spec fn deep_view(&self) -> Self::V {
        (self.window_id.deep_view(), ())
    }
}

impl Readable for CloseWindow {
    open spec fn read_defined(bytes: Seq<u8>) -> bool {
        <(i8, ())>::read_defined(bytes)
    }

    open spec fn spec_read(bytes: Seq<u8>) -> Option<(Self::V, nat)> {
        <(i8, ())>::spec_read(bytes)
    }

    proof fn lemma_read_bounded(bytes: Seq<u8>) {
        <(i8, ())>::lemma_read_bounded(bytes);
    }

    fn read(buffer: &mut Cursor, version: ProtocolVersion) -> (r: Result<CloseWindow, Error>) {
        let (window_id, ()) = <(i8, ())>::read(buffer, version)?;
        Ok(CloseWindow { window_id })
    }
}

impl Writeable for CloseWindow {
    open spec fn write_defined(v: Self::V) -> bool {
        <(i8, ())>::write_defined(v)
    }

    open spec fn spec_write(v: Self::V) -> Option<Seq<u8>> {
        <(i8, ())>::spec_write(v)
    }

    fn write(&self, buffer: &mut Vec<u8>, version: ProtocolVersion) -> (r: Result<(), Error>) {
        let fields: (&i8, ()) = (&self.window_id, ());
        fields.write(buffer, version)
    }
}

impl WireFormat for CloseWindow {
    open spec fn round_trips(v: Self::V) -> bool {
        <(i8, ())>::round_trips(v)
    }

    proof fn lemma_round_trip(v: Self::V, extra: Seq<u8>) {
        <(i8, ())>::lemma_round_trip(v, extra);
    }
}

/// The player attacked or used an entity.
#[derive(Debug)]
pub struct UseEntity {
    pub user: i32,
    pub target: i32,
    pub left_click: bool,
}

impl DeepView for UseEntity {
    type V = <(i32, (i32, (bool, ()))) as DeepView>::V;

    open spec fn deep_view(&self) -> Self::V {
        (self.user.deep_view(), (self.target.deep_view(), (self.left_click.deep_view(), ())))
    }
}

impl Readable for UseEntity {
    open spec fn read_defined(bytes: Seq<u8>) -> bool {
        <(i32, (i32, (bool, ())))>::read_defined(bytes)
    }

    open spec fn spec_read(bytes: Seq<u8>) -> Option<(Self::V, nat)> {
        <(i32, (i32, (bool, ())))>::spec_read(bytes)
    }

    proof fn lemma_read_bounded(bytes: Seq<u8>) {
        <(i32, (i32, (bool, ())))>::lemma_read_bounded(bytes);
    }

    fn read(buffer: &mut Cursor, version: ProtocolVersion) -> (r: Result<UseEntity, Error>) {
        let (user, (target, (left_click, ()))) = <(i32, (i32, (bool, ())))>::read(buffer, version)?;
        Ok(UseEntity { user, target, left_click })
    }
}

impl Writeable for UseEntity {
    open spec fn write_defined(v: Self::V) -> bool {
        <(i32, (i32, (bool, ())))>::write_defined(v)
    }

    open spec fn spec_write(v: Self::V) -> Option<Seq<u8>> {
        <(i32, (i32, (bool, ())))>::spec_write(v)
    }

    fn write(&self, buffer: &mut Vec<u8>, version: ProtocolVersion) -> (r: Result<(), Error>) {
        let fields: (&i32, (&i32, (&bool, ()))) = (&self.user, (&self.target, (&self.left_click, ())));
        fields.write(buffer, version)
    }
}

impl WireFormat for UseEntity {
    open spec fn round_trips(v: Self::V) -> bool {
        <(i32, (i32, (bool, ())))>::round_trips(v)
    }

    proof fn lemma_round_trip(v: Self::V, extra: Seq<u8>) {
        <(i32, (i32, (bool, ())))>::lemma_round_trip(v, extra);
    }
}

/// The client answered a window transaction.
#[derive(Debug)]
pub struct Transaction {
    pub window_id: i8,
    pub action_number: i16,
    pub accepted: bool,
}

impl DeepView for Transaction {
    type V = <(i8, (i16, (bool, ()))) as DeepView>::V;

    open spec fn deep_view(&self) -> Self::V {
        (self.window_id.deep_view(), (self.action_number.deep_view(), (self.accepted.deep_view(), ())))
    }
}

impl Readable for Transaction {
    open spec fn read_defined(bytes: Seq<u8>) -> bool {
        <(i8, (i16, (bool, ())))>::read_defined(bytes)
    }

    open spec fn spec_read(bytes: Seq<u8>) -> Option<(Self::V, nat)> {
        <(i8, (i16, (bool, ())))>::spec_read(bytes)
    }

    proof fn lemma_read_bounded(bytes: Seq<u8>) {
        <(i8, (i16, (bool, ())))>::lemma_read_bounded(bytes);
    }

    fn read(buffer: &mut Cursor, version: ProtocolVersion) -> (r: Result<Transaction, Error>) {
        let (window_id, (action_number, (accepted, ()))) = <(i8, (i16, (bool, ())))>::read(buffer, version)?;
        Ok(Transaction { window_id, action_number, accepted })
    }
}

impl Writeable for Transaction {
    open spec fn write_defined(v: Self::V) -> bool {
        <(i8, (i16, (bool, ())))>::write_defined(v)
    }

    open spec fn spec_write(v: Self::V) -> Option<Seq<u8>> {
        <(i8, (i16, (bool, ())))>::spec_write(v)
    }

    fn write(&self, buffer: &mut Vec<u8>, version: ProtocolVersion) -> (r: Result<(), Error>) {
        let fields: (&i8, (&i16, (&bool, ()))) = (&self.window_id, (&self.action_number, (&self.accepted, ())));
        fields.write(buffer, version)
    }
}

impl WireFormat for Transaction {
    open spec fn round_trips(v: Self::V) -> bool {
        <(i8, (i16, (bool, ())))>::round_trips(v)
    }

    proof fn lemma_round_trip(v: Self::V, extra: Seq<u8>) {
        <(i8, (i16, (bool, ())))>::lemma_round_trip(v, extra);
    }
}

/// The player asked to respawn.
#[derive(Debug)]
pub struct Respawn {
    pub world: i8,
    pub difficulty: i8,
    pub gamemode: i8,
    pub world_height: i16,
    pub map_seed: i64,
}

impl DeepView for Respawn {
    type V = <(i8, (i8, (i8, (i16, (i64, ()))))) as DeepView>::V;

    open spec fn deep_view(&self) -> Self::V {
        (self.world.deep_view(), (self.difficulty.deep_view(), (self.gamemode.deep_view(), (self.world_height.deep_view(), (self.map_seed.deep_view(), ())))))
    }
}

impl Readable for Respawn {
    open spec fn read_defined(bytes: Seq<u8>) -> bool {
        <(i8, (i8, (i8, (i16, (i64, ())))))>::read_defined(bytes)
    }

    open spec fn spec_read(bytes: Seq<u8>) -> Option<(Self::V, nat)> {
        <(i8, (i8, (i8, (i16, (i64, ())))))>::spec_read(bytes)
    }

    proof fn lemma_read_bounded(bytes: Seq<u8>) {
        <(i8, (i8, (i8, (i16, (i64, ())))))>::lemma_read_bounded(bytes);
    }

    fn read(buffer: &mut Cursor, version: ProtocolVersion) -> (r: Result<Respawn, Error>) {
        let (world, (difficulty, (gamemode, (world_height, (map_seed, ()))))) = <(i8, (i8, (i8, (i16, (i64, ())))))>::read(buffer, version)?;
        Ok(Respawn { world, difficulty, gamemode, world_height, map_seed })
    }
}

impl Writeable for Respawn {
    open spec fn write_defined(v: Self::V) -> bool {
        <(i8, (i8, (i8, (i16, (i64, ())))))>::write_defined(v)
    }

    open spec fn spec_write(v: Self::V) -> Option<Seq<u8>> {
        <(i8, (i8, (i8, (i16, (i64, ())))))>::spec_write(v)
    }

    fn write(&self, buffer: &mut Vec<u8>, version: ProtocolVersion) -> (r: Result<(), Error>) {
        let fields: (&i8, (&i8, (&i8, (&i16, (&i64, ()))))) = (&self.world, (&self.difficulty, (&self.gamemode, (&self.world_height, (&self.map_seed, ())))));
        fields.write(buffer, version)
    }
}

impl WireFormat for Respawn {
    open spec fn round_trips(v: Self::V) -> bool {
        <(i8, (i8, (i8, (i16, (i64, ())))))>::round_trips(v)
    }

    proof fn lemma_round_trip(v: Self::V, extra: Seq<u8>) {
        <(i8, (i8, (i8, (i16, (i64, ())))))>::lemma_round_trip(v, extra);
    }
}

/// The player wrote on a sign.
#[derive(Debug)]
pub struct UpdateSign {
    pub x: i32,
    pub y: i16,
    pub z: i32,
    pub text1: String16,
    pub text2: String16,
    pub text3: String16,
    pub text4: String16,
}

impl DeepView for UpdateSign {
    type V = <(i32, (i16, (i32, (String16, (String16, (String16, (String16, ()))))))) as DeepView>::V;

    open spec fn deep_view(&self) -> Self::V {
        (self.x.deep_view(), (self.y.deep_view(), (self.z.deep_view(), (self.text1.deep_view(), (self.text2.deep_view(), (self.text3.deep_view(), (self.text4.deep_view(), ())))))))
    }
}

impl Readable for UpdateSign {
    open spec fn read_defined(bytes: Seq<u8>) -> bool {
        <(i32, (i16, (i32, (String16, (String16, (String16, (String16, ())))))))>::read_defined(bytes)
    }

    open spec fn spec_read(bytes: Seq<u8>) -> Option<(Self::V, nat)> {
        <(i32, (i16, (i32, (String16, (String16, (String16, (String16, ())))))))>::spec_read(bytes)
    }

    proof fn lemma_read_bounded(bytes: Seq<u8>) {
        <(i32, (i16, (i32, (String16, (String16, (String16, (String16, ())))))))>::lemma_read_bounded(bytes);
    }

    fn read(buffer: &mut Cursor, version: ProtocolVersion) -> (r: Result<UpdateSign, Error>) {
        let (x, (y, (z, (text1, (text2, (text3, (text4, ()))))))) = <(i32, (i16, (i32, (String16, (String16, (String16, (String16, ())))))))>::read(buffer, version)?;
        Ok(UpdateSign { x, y, z, text1, text2, text3, text4 })
    }
}

impl Writeable for UpdateSign {
    open spec fn write_defined(v: Self::V) -> bool {
        <(i32, (i16, (i32, (String16, (String16, (String16, (String16, ())))))))>::write_defined(v)
    }

    open spec fn spec_write(v: Self::V) -> Option<Seq<u8>> {
        <(i32, (i16, (i32, (String16, (String16, (String16, (String16, ())))))))>::spec_write(v)
    }

    fn write(&self, buffer: &mut Vec<u8>, version: ProtocolVersion) -> (r: Result<(), Error>) {
        let fields: (&i32, (&i16, (&i32, (&String16, (&String16, (&String16, (&String16, ()))))))) = (&self.x, (&self.y, (&self.z, (&self.text1, (&self.text2, (&self.text3, (&self.text4, ())))))));
        fields.write(buffer, version)
    }
}

impl WireFormat for UpdateSign {
    open spec fn round_trips(v: Self::V) -> bool {
        <(i32, (i16, (i32, (String16, (String16, (String16, (String16, ())))))))>::round_trips(v)
    }

    proof fn lemma_round_trip(v: Self::V, extra: Seq<u8>) {
        <(i32, (i16, (i32, (String16, (String16, (String16, (String16, ())))))))>::lemma_round_trip(v, extra);
    }
}

/// Packets a client sends before logging in.
#[derive(Debug)]
pub enum ClientHandshakePacket {
    Handshake(Handshake),
    ServerListPing(ServerListPing),
}

/// The models of the packets of `ClientHandshakePacket`, by variant.
pub enum ClientHandshakePacketModel {
    Handshake(<Handshake as DeepView>::V),
    ServerListPing(<ServerListPing as DeepView>::V),
}

impl DeepView for ClientHandshakePacket {
    type V = ClientHandshakePacketModel;

    open spec fn deep_view(&self) -> ClientHandshakePacketModel {
        match self {
            ClientHandshakePacket::Handshake(p) => ClientHandshakePacketModel::Handshake(p.deep_view()),
            ClientHandshakePacket::ServerListPing(p) => ClientHandshakePacketModel::ServerListPing(p.deep_view()),
        }
    }
}

impl ClientHandshakePacket {
    pub open spec fn spec_id(self) -> u8 {
        match self {
            ClientHandshakePacket::Handshake(_) => 2u8,
            ClientHandshakePacket::ServerListPing(_) => 254u8,
        }
    }

    /// Returns the packet ID of this packet.
    pub fn id(&self) -> (r: u8)
        ensures
            r == self.spec_id(),
    {
        match self {
            ClientHandshakePacket::Handshake(_) => 2,
            ClientHandshakePacket::ServerListPing(_) => 254,
        }
    }

    /// The name of this packet.
    pub open spec fn spec_name(self) -> Seq<char> {
        match self {
            ClientHandshakePacket::Handshake(_) => "Handshake"@,
            ClientHandshakePacket::ServerListPing(_) => "ServerListPing"@,
        }
    }

    /// Returns the name of this packet.
    pub fn name(&self) -> (r: &'static str)
        ensures
            r@ == self.spec_name(),
    {
        match self {
            ClientHandshakePacket::Handshake(_) => "Handshake",
            ClientHandshakePacket::ServerListPing(_) => "ServerListPing",
        }
    }
}

impl Readable for ClientHandshakePacket {
    open spec fn read_defined(bytes: Seq<u8>) -> bool {
        bytes.len() >= 1 ==> (
            (bytes[0] == 2u8 ==> Handshake::read_defined(bytes.skip(1)))
            &&
            (bytes[0] == 254u8 ==> ServerListPing::read_defined(bytes.skip(1)))
        )
    }

    open spec fn spec_read(bytes: Seq<u8>) -> Option<(ClientHandshakePacketModel, nat)> {
        if bytes.len() < 1 {
            None
        } else if bytes[0] == 2u8 {
            match Handshake::spec_read(bytes.skip(1)) {
                Some((p, n)) => Some((ClientHandshakePacketModel::Handshake(p), n + 1)),
                None => None,
            }
        } else if bytes[0] == 254u8 {
            match ServerListPing::spec_read(bytes.skip(1)) {
                Some((p, n)) => Some((ClientHandshakePacketModel::ServerListPing(p), n + 1)),
                None => None,
            }
        } else {
            None
        }
    }

    proof fn lemma_read_bounded(bytes: Seq<u8>) {
        if bytes.len() >= 1 {
            Handshake::lemma_read_bounded(bytes.skip(1));
            ServerListPing::lemma_read_bounded(bytes.skip(1));
        }
    }

    fn read(buffer: &mut Cursor, version: ProtocolVersion) -> (r: Result<ClientHandshakePacket, Error>) {
        buffer.note_in_bounds();
        let ghost before = *buffer;
        let packet_id = u8::read(buffer, version)?;
        proof {
            Cursor::lemma_advance(before, *buffer, 1);
        }
        if packet_id == 2 {
            Ok(ClientHandshakePacket::Handshake(Handshake::read(buffer, version)?))
        } else if packet_id == 254 {
            Ok(ClientHandshakePacket::ServerListPing(ServerListPing::read(buffer, version)?))
        } else {
            Err(Error::UnknownVariant("ClientHandshakePacket"))
        }
    }
}

impl Writeable for ClientHandshakePacket {
    open spec fn write_defined(v: ClientHandshakePacketModel) -> bool {
        match v {
            ClientHandshakePacketModel::Handshake(p) => Handshake::write_defined(p),
            ClientHandshakePacketModel::ServerListPing(p) => ServerListPing::write_defined(p),
        }
    }

    /// The packet id, then the packet.
    open spec fn spec_write(v: ClientHandshakePacketModel) -> Option<Seq<u8>> {
        match v {
            ClientHandshakePacketModel::Handshake(p) => match Handshake::spec_write(p) {
                Some(b) => Some(seq![2u8] + b),
                None => None,
            },
            ClientHandshakePacketModel::ServerListPing(p) => match ServerListPing::spec_write(p) {
                Some(b) => Some(seq![254u8] + b),
                None => None,
            },
        }
    }

    fn write(&self, buffer: &mut Vec<u8>, version: ProtocolVersion) -> (r: Result<(), Error>) {
        self.id().write(buffer, version)?;
        match self {
            ClientHandshakePacket::Handshake(packet) => {
                packet.write(buffer, version)?;
            },
            ClientHandshakePacket::ServerListPing(packet) => {
                packet.write(buffer, version)?;
            },
        }
        proof {
            let b = Self::spec_write(self.deep_view())->0;
            assert(buffer@ =~= old(buffer)@ + b);
        }
        Ok(())
    }
}

impl WireFormat for ClientHandshakePacket {
    open spec fn round_trips(v: ClientHandshakePacketModel) -> bool {
        match v {
            ClientHandshakePacketModel::Handshake(p) => Handshake::round_trips(p),
            ClientHandshakePacketModel::ServerListPing(p) => ServerListPing::round_trips(p),
        }
    }

    proof fn lemma_round_trip(v: ClientHandshakePacketModel, extra: Seq<u8>) {
        match v {
            ClientHandshakePacketModel::Handshake(p) => {
                let b = Handshake::spec_write(p)->0;
                Handshake::lemma_round_trip(p, extra);
                assert((seq![2u8] + b + extra).skip(1) =~= b + extra);
            },
            ClientHandshakePacketModel::ServerListPing(p) => {
                let b = ServerListPing::spec_write(p)->0;
                ServerListPing::lemma_round_trip(p, extra);
                assert((seq![254u8] + b + extra).skip(1) =~= b + extra);
            },
        }
    }
}

impl VariantOf<ClientHandshakePacket> for Handshake {
    open spec fn spec_discriminant_id() -> u8 {
        2u8
    }

    open spec fn spec_destructure(e: ClientHandshakePacket) -> Option<Self> {
        match e {
            ClientHandshakePacket::Handshake(p) => Some(p),
            #[allow(unreachable_patterns)]
            _ => None,
        }
    }

    fn discriminant_id() -> (r: u8) {
        2
    }

    fn destructure(e: ClientHandshakePacket) -> (r: Option<Self>) {
        match e {
            ClientHandshakePacket::Handshake(p) => Some(p),
            #[allow(unreachable_patterns)]
            _ => None,
        }
    }
}

impl VariantOf<ClientHandshakePacket> for ServerListPing {
    open spec fn spec_discriminant_id() -> u8 {
        254u8
    }

    open spec fn spec_destructure(e: ClientHandshakePacket) -> Option<Self> {
        match e {
            ClientHandshakePacket::ServerListPing(p) => Some(p),
            #[allow(unreachable_patterns)]
            _ => None,
        }
    }

    fn discriminant_id() -> (r: u8) {
        254
    }

    fn destructure(e: ClientHandshakePacket) -> (r: Option<Self>) {
        match e {
            ClientHandshakePacket::ServerListPing(p) => Some(p),
            #[allow(unreachable_patterns)]
            _ => None,
        }
    }
}

/// Packets a client sends while logging in.
#[derive(Debug)]
pub enum ClientLoginPacket {
    LoginRequest(LoginRequest),
}

/// The models of the packets of `ClientLoginPacket`, by variant.
pub enum ClientLoginPacketModel {
    LoginRequest(<LoginRequest as DeepView>::V),
}

impl DeepView for ClientLoginPacket {
    type V = ClientLoginPacketModel;

    open spec fn deep_view(&self) -> ClientLoginPacketModel {
        match self {
            ClientLoginPacket::LoginRequest(p) => ClientLoginPacketModel::LoginRequest(p.deep_view()),
        }
    }
}

impl ClientLoginPacket {
    pub open spec fn spec_id(self) -> u8 {
        match self {
            ClientLoginPacket::LoginRequest(_) => 1u8,
        }
    }

    /// Returns the packet ID of this packet.
    pub fn id(&self) -> (r: u8)
        ensures
            r == self.spec_id(),
    {
        match self {
            ClientLoginPacket::LoginRequest(_) => 1,
        }
    }

    /// The name of this packet.
    pub open spec fn spec_name(self) -> Seq<char> {
        match self {
            ClientLoginPacket::LoginRequest(_) => "LoginRequest"@,
        }
    }

    /// Returns the name of this packet.
    pub fn name(&self) -> (r: &'static str)
        ensures
            r@ == self.spec_name(),
    {
        match self {
            ClientLoginPacket::LoginRequest(_) => "LoginRequest",
        }
    }
}

impl Readable for ClientLoginPacket {
    open spec fn read_defined(bytes: Seq<u8>) -> bool {
        bytes.len() >= 1 ==> (
            (bytes[0] == 1u8 ==> LoginRequest::read_defined(bytes.skip(1)))
        )
    }

    open spec fn spec_read(bytes: Seq<u8>) -> Option<(ClientLoginPacketModel, nat)> {
        if bytes.len() < 1 {
            None
        } else if bytes[0] == 1u8 {
            match LoginRequest::spec_read(bytes.skip(1)) {
                Some((p, n)) => Some((ClientLoginPacketModel::LoginRequest(p), n + 1)),
                None => None,
            }
        } else {
            None
        }
    }

    proof fn lemma_read_bounded(bytes: Seq<u8>) {
        if bytes.len() >= 1 {
            LoginRequest::lemma_read_bounded(bytes.skip(1));
        }
    }

    fn read(buffer: &mut Cursor, version: ProtocolVersion) -> (r: Result<ClientLoginPacket, Error>) {
        buffer.note_in_bounds();
        let ghost before = *buffer;
        let packet_id = u8::read(buffer, version)?;
        proof {
            Cursor::lemma_advance(before, *buffer, 1);
        }
        if packet_id == 1 {
            Ok(ClientLoginPacket::LoginRequest(LoginRequest::read(buffer, version)?))
        } else {
            Err(Error::UnknownVariant("ClientLoginPacket"))
        }
    }
}

impl Writeable for ClientLoginPacket {
    open spec fn write_defined(v: ClientLoginPacketModel) -> bool {
        match v {
            ClientLoginPacketModel::LoginRequest(p) => LoginRequest::write_defined(p),
        }
    }

    /// The packet id, then the packet.
    open spec fn spec_write(v: ClientLoginPacketModel) -> Option<Seq<u8>> {
        match v {
            ClientLoginPacketModel::LoginRequest(p) => match LoginRequest::spec_write(p) {
                Some(b) => Some(seq![1u8] + b),
                None => None,
            },
        }
    }

    fn write(&self, buffer: &mut Vec<u8>, version: ProtocolVersion) -> (r: Result<(), Error>) {
        self.id().write(buffer, version)?;
        match self {
            ClientLoginPacket::LoginRequest(packet) => {
                packet.write(buffer, version)?;
            },
        }
        proof {
            let b = Self::spec_write(self.deep_view())->0;
            assert(buffer@ =~= old(buffer)@ + b);
        }
        Ok(())
    }
}

impl WireFormat for ClientLoginPacket {
    open spec fn round_trips(v: ClientLoginPacketModel) -> bool {
        match v {
            ClientLoginPacketModel::LoginRequest(p) => LoginRequest::round_trips(p),
        }
    }

    proof fn lemma_round_trip(v: ClientLoginPacketModel, extra: Seq<u8>) {
        match v {
            ClientLoginPacketModel::LoginRequest(p) => {
                let b = LoginRequest::spec_write(p)->0;
                LoginRequest::lemma_round_trip(p, extra);
                assert((seq![1u8] + b + extra).skip(1) =~= b + extra);
            },
        }
    }
}

impl VariantOf<ClientLoginPacket> for LoginRequest {
    open spec fn spec_discriminant_id() -> u8 {
        1u8
    }

    open spec fn spec_destructure(e: ClientLoginPacket) -> Option<Self> {
        match e {
            ClientLoginPacket::LoginRequest(p) => Some(p),
            #[allow(unreachable_patterns)]
            _ => None,
        }
    }

    fn discriminant_id() -> (r: u8) {
        1
    }

    fn destructure(e: ClientLoginPacket) -> (r: Option<Self>) {
        match e {
            ClientLoginPacket::LoginRequest(p) => Some(p),
            #[allow(unreachable_patterns)]
            _ => None,
        }
    }
}

} // verus!
