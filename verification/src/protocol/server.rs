use vstd::prelude::*;

use super::cursor::Cursor;
use super::io::{Error, ProtocolVersion, Readable, String16, WireFormat, Writeable};
use super::packets::{
    DiggingStatus, EntityActionKind, EntityAnimationType, EntityEffectKind, EntityStatusKind, Face,
    VariantOf,
};

verus! {

/// An empty login reply.
#[derive(Debug)]
pub struct S {
}

impl DeepView for S {
    type V = <() as DeepView>::V;

    open spec fn deep_view(&self) -> Self::V {
        ()
    }
}

impl Readable for S {
    open spec fn read_defined(bytes: Seq<u8>) -> bool {
        <()>::read_defined(bytes)
    }

    open spec fn spec_read(bytes: Seq<u8>) -> Option<(Self::V, nat)> {
        <()>::spec_read(bytes)
    }

    proof fn lemma_read_bounded(bytes: Seq<u8>) {
        <()>::lemma_read_bounded(bytes);
    }

    fn read(buffer: &mut Cursor, version: ProtocolVersion) -> (r: Result<S, Error>) {
        let () = <()>::read(buffer, version)?;
        Ok(S {  })
    }
}

impl Writeable for S {
    open spec fn write_defined(v: Self::V) -> bool {
        <()>::write_defined(v)
    }

    open spec fn spec_write(v: Self::V) -> Option<Seq<u8>> {
        <()>::spec_write(v)
    }

    fn write(&self, buffer: &mut Vec<u8>, version: ProtocolVersion) -> (r: Result<(), Error>) {
        let fields: () = ();
        fields.write(buffer, version)
    }
}

impl WireFormat for S {
    open spec fn round_trips(v: Self::V) -> bool {
        <()>::round_trips(v)
    }

    proof fn lemma_round_trip(v: Self::V, extra: Seq<u8>) {
        <()>::lemma_round_trip(v, extra);
    }
}

/// The server's answer to a login.
#[derive(Debug)]
pub struct LoginRequest {
    pub entity_id: i32,
    pub not_used: String16,
    pub map_seed: i64,
    pub server_mode: i32,
    pub dimension: i8,
    pub difficulty: i8,
    pub world_height: u8,
    pub max_players: u8,
}

impl DeepView for LoginRequest {
    type V = <(i32, (String16, (i64, (i32, (i8, (i8, (u8, (u8, ())))))))) as DeepView>::V;

    open spec fn deep_view(&self) -> Self::V {
        (self.entity_id.deep_view(), (self.not_used.deep_view(), (self.map_seed.deep_view(), (self.server_mode.deep_view(), (self.dimension.deep_view(), (self.difficulty.deep_view(), (self.world_height.deep_view(), (self.max_players.deep_view(), ()))))))))
    }
}

impl Readable for LoginRequest {
    open spec fn read_defined(bytes: Seq<u8>) -> bool {
        <(i32, (String16, (i64, (i32, (i8, (i8, (u8, (u8, ()))))))))>::read_defined(bytes)
    }

    open spec fn spec_read(bytes: Seq<u8>) -> Option<(Self::V, nat)> {
        <(i32, (String16, (i64, (i32, (i8, (i8, (u8, (u8, ()))))))))>::spec_read(bytes)
    }

    proof fn lemma_read_bounded(bytes: Seq<u8>) {
        <(i32, (String16, (i64, (i32, (i8, (i8, (u8, (u8, ()))))))))>::lemma_read_bounded(bytes);
    }

    fn read(buffer: &mut Cursor, version: ProtocolVersion) -> (r: Result<LoginRequest, Error>) {
        let (entity_id, (not_used, (map_seed, (server_mode, (dimension, (difficulty, (world_height, (max_players, ())))))))) = <(i32, (String16, (i64, (i32, (i8, (i8, (u8, (u8, ()))))))))>::read(buffer, version)?;
        Ok(LoginRequest { entity_id, not_used, map_seed, server_mode, dimension, difficulty, world_height, max_players })
    }
}

impl Writeable for LoginRequest {
    open spec fn write_defined(v: Self::V) -> bool {
        <(i32, (String16, (i64, (i32, (i8, (i8, (u8, (u8, ()))))))))>::write_defined(v)
    }

    open spec fn spec_write(v: Self::V) -> Option<Seq<u8>> {
        <(i32, (String16, (i64, (i32, (i8, (i8, (u8, (u8, ()))))))))>::spec_write(v)
    }

    fn write(&self, buffer: &mut Vec<u8>, version: ProtocolVersion) -> (r: Result<(), Error>) {
        let fields: (&i32, (&String16, (&i64, (&i32, (&i8, (&i8, (&u8, (&u8, ())))))))) = (&self.entity_id, (&self.not_used, (&self.map_seed, (&self.server_mode, (&self.dimension, (&self.difficulty, (&self.world_height, (&self.max_players, ()))))))));
        fields.write(buffer, version)
    }
}

impl WireFormat for LoginRequest {
    open spec fn round_trips(v: Self::V) -> bool {
        <(i32, (String16, (i64, (i32, (i8, (i8, (u8, (u8, ()))))))))>::round_trips(v)
    }

    proof fn lemma_round_trip(v: Self::V, extra: Seq<u8>) {
        <(i32, (String16, (i64, (i32, (i8, (i8, (u8, (u8, ()))))))))>::lemma_round_trip(v, extra);
    }
}

/// The server's answer to a handshake.
#[derive(Debug)]
pub struct Handshake {
    pub connection_hash: String16,
}

impl DeepView for Handshake {
    type V = <(String16, ()) as DeepView>::V;

    open spec fn deep_view(&self) -> Self::V {
        (self.connection_hash.deep_view(), ())
    }
}

impl Readable for Handshake {
    open spec fn read_defined(bytes: Seq<u8>) -> bool {
        <(String16, ())>::read_defined(bytes)
    }

    open spec fn spec_read(bytes: Seq<u8>) -> Option<(Self::V, nat)> {
        <(String16, ())>::spec_read(bytes)
    }

    proof fn lemma_read_bounded(bytes: Seq<u8>) {
        <(String16, ())>::lemma_read_bounded(bytes);
    }

    fn read(buffer: &mut Cursor, version: ProtocolVersion) -> (r: Result<Handshake, Error>) {
        let (connection_hash, ()) = <(String16, ())>::read(buffer, version)?;
        Ok(Handshake { connection_hash })
    }
}

impl Writeable for Handshake {
    open spec fn write_defined(v: Self::V) -> bool {
        <(String16, ())>::write_defined(v)
    }

    open spec fn spec_write(v: Self::V) -> Option<Seq<u8>> {
        <(String16, ())>::spec_write(v)
    }

    fn write(&self, buffer: &mut Vec<u8>, version: ProtocolVersion) -> (r: Result<(), Error>) {
        let fields: (&String16, ()) = (&self.connection_hash, ());
        fields.write(buffer, version)
    }
}

impl WireFormat for Handshake {
    open spec fn round_trips(v: Self::V) -> bool {
        <(String16, ())>::round_trips(v)
    }

    proof fn lemma_round_trip(v: Self::V, extra: Seq<u8>) {
        <(String16, ())>::lemma_round_trip(v, extra);
    }
}

/// Where the world spawn is.
#[derive(Debug)]
pub struct SpawnPosition {
    pub x: i32,
    pub y: i32,
    pub z: i32,
}

impl DeepView for SpawnPosition {
    type V = <(i32, (i32, (i32, ()))) as DeepView>::V;

    open spec fn deep_view(&self) -> Self::V {
        (self.x.deep_view(), (self.y.deep_view(), (self.z.deep_view(), ())))
    }
}

impl Readable for SpawnPosition {
    open spec fn read_defined(bytes: Seq<u8>) -> bool {
        <(i32, (i32, (i32, ())))>::read_defined(bytes)
    }

    open spec fn spec_read(bytes: Seq<u8>) -> Option<(Self::V, nat)> {
        <(i32, (i32, (i32, ())))>::spec_read(bytes)
    }

    proof fn lemma_read_bounded(bytes: Seq<u8>) {
        <(i32, (i32, (i32, ())))>::lemma_read_bounded(bytes);
    }

    fn read(buffer: &mut Cursor, version: ProtocolVersion) -> (r: Result<SpawnPosition, Error>) {
        let (x, (y, (z, ()))) = <(i32, (i32, (i32, ())))>::read(buffer, version)?;
        Ok(SpawnPosition { x, y, z })
    }
}

impl Writeable for SpawnPosition {
    open spec fn write_defined(v: Self::V) -> bool {
        <(i32, (i32, (i32, ())))>::write_defined(v)
    }

    open spec fn spec_write(v: Self::V) -> Option<Seq<u8>> {
        <(i32, (i32, (i32, ())))>::spec_write(v)
    }

    fn write(&self, buffer: &mut Vec<u8>, version: ProtocolVersion) -> (r: Result<(), Error>) {
        let fields: (&i32, (&i32, (&i32, ()))) = (&self.x, (&self.y, (&self.z, ())));
        fields.write(buffer, version)
    }
}

impl WireFormat for SpawnPosition {
    open spec fn round_trips(v: Self::V) -> bool {
        <(i32, (i32, (i32, ())))>::round_trips(v)
    }

    proof fn lemma_round_trip(v: Self::V, extra: Seq<u8>) {
        <(i32, (i32, (i32, ())))>::lemma_round_trip(v, extra);
    }
}

/// Prepares or forgets a chunk column on the client.
#[derive(Debug)]
pub struct PreChunk {
    pub chunk_x: i32,
    pub chunk_z: i32,
    pub mode: bool,
}

impl DeepView for PreChunk {
    type V = <(i32, (i32, (bool, ()))) as DeepView>::V;

    open spec fn deep_view(&self) -> Self::V {
        (self.chunk_x.deep_view(), (self.chunk_z.deep_view(), (self.mode.deep_view(), ())))
    }
}

impl Readable for PreChunk {
    open spec fn read_defined(bytes: Seq<u8>) -> bool {
        <(i32, (i32, (bool, ())))>::read_defined(bytes)
    }

    open spec fn spec_read(bytes: Seq<u8>) -> Option<(Self::V, nat)> {
        <(i32, (i32, (bool, ())))>::spec_read(bytes)
    }

    proof fn lemma_read_bounded(bytes: Seq<u8>) {
        <(i32, (i32, (bool, ())))>::lemma_read_bounded(bytes);
    }

    fn read(buffer: &mut Cursor, version: ProtocolVersion) -> (r: Result<PreChunk, Error>) {
        let (chunk_x, (chunk_z, (mode, ()))) = <(i32, (i32, (bool, ())))>::read(buffer, version)?;
        Ok(PreChunk { chunk_x, chunk_z, mode })
    }
}

impl Writeable for PreChunk {
    open spec fn write_defined(v: Self::V) -> bool {
        <(i32, (i32, (bool, ())))>::write_defined(v)
    }

    open spec fn spec_write(v: Self::V) -> Option<Seq<u8>> {
        <(i32, (i32, (bool, ())))>::spec_write(v)
    }

    fn write(&self, buffer: &mut Vec<u8>, version: ProtocolVersion) -> (r: Result<(), Error>) {
        let fields: (&i32, (&i32, (&bool, ()))) = (&self.chunk_x, (&self.chunk_z, (&self.mode, ())));
        fields.write(buffer, version)
    }
}

impl WireFormat for PreChunk {
    open spec fn round_trips(v: Self::V) -> bool {
        <(i32, (i32, (bool, ())))>::round_trips(v)
    }

    proof fn lemma_round_trip(v: Self::V, extra: Seq<u8>) {
        <(i32, (i32, (bool, ())))>::lemma_round_trip(v, extra);
    }
}

/// A keep-alive.
#[derive(Debug)]
pub struct KeepAlive {
    pub id: i32,
}

impl DeepView for KeepAlive {
    type V = <(i32, ()) as DeepView>::V;

    open spec fn deep_view(&self) -> Self::V {
        (self.id.deep_view(), ())
    }
}

impl Readable for KeepAlive {
    open spec fn read_defined(bytes: Seq<u8>) -> bool {
        <(i32, ())>::read_defined(bytes)
    }

    open spec fn spec_read(bytes: Seq<u8>) -> Option<(Self::V, nat)> {
        <(i32, ())>::spec_read(bytes)
    }

    proof fn lemma_read_bounded(bytes: Seq<u8>) {
        <(i32, ())>::lemma_read_bounded(bytes);
    }

    fn read(buffer: &mut Cursor, version: ProtocolVersion) -> (r: Result<KeepAlive, Error>) {
        let (id, ()) = <(i32, ())>::read(buffer, version)?;
        Ok(KeepAlive { id })
    }
}

impl Writeable for KeepAlive {
    open spec fn write_defined(v: Self::V) -> bool {
        <(i32, ())>::write_defined(v)
    }

    open spec fn spec_write(v: Self::V) -> Option<Seq<u8>> {
        <(i32, ())>::spec_write(v)
    }

    fn write(&self, buffer: &mut Vec<u8>, version: ProtocolVersion) -> (r: Result<(), Error>) {
        let fields: (&i32, ()) = (&self.id, ());
        fields.write(buffer, version)
    }
}

impl WireFormat for KeepAlive {
    open spec fn round_trips(v: Self::V) -> bool {
        <(i32, ())>::round_trips(v)
    }

    proof fn lemma_round_trip(v: Self::V, extra: Seq<u8>) {
        <(i32, ())>::lemma_round_trip(v, extra);
    }
}

/// A chat line.
#[derive(Debug)]
pub struct ChatMessage {
    pub message: String16,
}

impl DeepView for ChatMessage {
    type V = <(String16, ()) as DeepView>::V;

    open spec fn deep_view(&self) -> Self::V {
        (self.message.deep_view(), ())
    }
}

impl Readable for ChatMessage {
    open spec fn read_defined(bytes: Seq<u8>) -> bool {
        <(String16, ())>::read_defined(bytes)
    }

    open spec fn spec_read(bytes: Seq<u8>) -> Option<(Self::V, nat)> {
        <(String16, ())>::spec_read(bytes)
    }

    proof fn lemma_read_bounded(bytes: Seq<u8>) {
        <(String16, ())>::lemma_read_bounded(bytes);
    }

    fn read(buffer: &mut Cursor, version: ProtocolVersion) -> (r: Result<ChatMessage, Error>) {
        let (message, ()) = <(String16, ())>::read(buffer, version)?;
        Ok(ChatMessage { message })
    }
}

impl Writeable for ChatMessage {
    open spec fn write_defined(v: Self::V) -> bool {
        <(String16, ())>::write_defined(v)
    }

    open spec fn spec_write(v: Self::V) -> Option<Seq<u8>> {
        <(String16, ())>::spec_write(v)
    }

    fn write(&self, buffer: &mut Vec<u8>, version: ProtocolVersion) -> (r: Result<(), Error>) {
        let fields: (&String16, ()) = (&self.message, ());
        fields.write(buffer, version)
    }
}

impl WireFormat for ChatMessage {
    open spec fn round_trips(v: Self::V) -> bool {
        <(String16, ())>::round_trips(v)
    }

    proof fn lemma_round_trip(v: Self::V, extra: Seq<u8>) {
        <(String16, ())>::lemma_round_trip(v, extra);
    }
}

/// Disconnects the client with a reason.
#[derive(Debug)]
pub struct Kick {
    pub reason: String16,
}

impl DeepView for Kick {
    type V = <(String16, ()) as DeepView>::V;

    open spec fn deep_view(&self) -> Self::V {
        (self.reason.deep_view(), ())
    }
}

impl Readable for Kick {
    open spec fn read_defined(bytes: Seq<u8>) -> bool {
        <(String16, ())>::read_defined(bytes)
    }

    open spec fn spec_read(bytes: Seq<u8>) -> Option<(Self::V, nat)> {
        <(String16, ())>::spec_read(bytes)
    }

    proof fn lemma_read_bounded(bytes: Seq<u8>) {
        <(String16, ())>::lemma_read_bounded(bytes);
    }

    fn read(buffer: &mut Cursor, version: ProtocolVersion) -> (r: Result<Kick, Error>) {
        let (reason, ()) = <(String16, ())>::read(buffer, version)?;
        Ok(Kick { reason })
    }
}

impl Writeable for Kick {
    open spec fn write_defined(v: Self::V) -> bool {
        <(String16, ())>::write_defined(v)
    }

    open spec fn spec_write(v: Self::V) -> Option<Seq<u8>> {
        <(String16, ())>::spec_write(v)
    }

    fn write(&self, buffer: &mut Vec<u8>, version: ProtocolVersion) -> (r: Result<(), Error>) {
        let fields: (&String16, ()) = (&self.reason, ());
        fields.write(buffer, version)
    }
}

impl WireFormat for Kick {
    open spec fn round_trips(v: Self::V) -> bool {
        <(String16, ())>::round_trips(v)
    }

    proof fn lemma_round_trip(v: Self::V, extra: Seq<u8>) {
        <(String16, ())>::lemma_round_trip(v, extra);
    }
}

/// Removes an entity from the client.
#[derive(Debug)]
pub struct DestroyEntity {
    pub eid: i32,
}

impl DeepView for DestroyEntity {
    type V = <(i32, ()) as DeepView>::V;

    open spec fn deep_view(&self) -> Self::V {
        (self.eid.deep_view(), ())
    }
}

impl Readable for DestroyEntity {
    open spec fn read_defined(bytes: Seq<u8>) -> bool {
        <(i32, ())>::read_defined(bytes)
    }

    open spec fn spec_read(bytes: Seq<u8>) -> Option<(Self::V, nat)> {
        <(i32, ())>::spec_read(bytes)
    }

    proof fn lemma_read_bounded(bytes: Seq<u8>) {
        <(i32, ())>::lemma_read_bounded(bytes);
    }

    fn read(buffer: &mut Cursor, version: ProtocolVersion) -> (r: Result<DestroyEntity, Error>) {
        let (eid, ()) = <(i32, ())>::read(buffer, version)?;
        Ok(DestroyEntity { eid })
    }
}

impl Writeable for DestroyEntity {
    open spec fn write_defined(v: Self::V) -> bool {
        <(i32, ())>::write_defined(v)
    }

    open spec fn spec_write(v: Self::V) -> Option<Seq<u8>> {
        <(i32, ())>::spec_write(v)
    }

    fn write(&self, buffer: &mut Vec<u8>, version: ProtocolVersion) -> (r: Result<(), Error>) {
        let fields: (&i32, ()) = (&self.eid, ());
        fields.write(buffer, version)
    }
}

impl WireFormat for DestroyEntity {
    open spec fn round_trips(v: Self::V) -> bool {
        <(i32, ())>::round_trips(v)
    }

    proof fn lemma_round_trip(v: Self::V, extra: Seq<u8>) {
        <(i32, ())>::lemma_round_trip(v, extra);
    }
}

/// Moves an entity by small steps.
#[derive(Debug)]
pub struct EntityRelativeMove {
    pub eid: i32,
    pub delta_x: i8,
    pub delta_y: i8,
    pub delta_z: i8,
}

impl DeepView for EntityRelativeMove {
    type V = <(i32, (i8, (i8, (i8, ())))) as DeepView>::V;

    open spec fn deep_view(&self) -> Self::V {
        (self.eid.deep_view(), (self.delta_x.deep_view(), (self.delta_y.deep_view(), (self.delta_z.deep_view(), ()))))
    }
}

impl Readable for EntityRelativeMove {
    open spec fn read_defined(bytes: Seq<u8>) -> bool {
        <(i32, (i8, (i8, (i8, ()))))>::read_defined(bytes)
    }

    open spec fn spec_read(bytes: Seq<u8>) -> Option<(Self::V, nat)> {
        <(i32, (i8, (i8, (i8, ()))))>::spec_read(bytes)
    }

    proof fn lemma_read_bounded(bytes: Seq<u8>) {
        <(i32, (i8, (i8, (i8, ()))))>::lemma_read_bounded(bytes);
    }

    fn read(buffer: &mut Cursor, version: ProtocolVersion) -> (r: Result<EntityRelativeMove, Error>) {
        let (eid, (delta_x, (delta_y, (delta_z, ())))) = <(i32, (i8, (i8, (i8, ()))))>::read(buffer, version)?;
        Ok(EntityRelativeMove { eid, delta_x, delta_y, delta_z })
    }
}

impl Writeable for EntityRelativeMove {
    open spec fn write_defined(v: Self::V) -> bool {
        <(i32, (i8, (i8, (i8, ()))))>::write_defined(v)
    }

    open spec fn spec_write(v: Self::V) -> Option<Seq<u8>> {
        <(i32, (i8, (i8, (i8, ()))))>::spec_write(v)
    }

    fn write(&self, buffer: &mut Vec<u8>, version: ProtocolVersion) -> (r: Result<(), Error>) {
        let fields: (&i32, (&i8, (&i8, (&i8, ())))) = (&self.eid, (&self.delta_x, (&self.delta_y, (&self.delta_z, ()))));
        fields.write(buffer, version)
    }
}

impl WireFormat for EntityRelativeMove {
    open spec fn round_trips(v: Self::V) -> bool {
        <(i32, (i8, (i8, (i8, ()))))>::round_trips(v)
    }

    proof fn lemma_round_trip(v: Self::V, extra: Seq<u8>) {
        <(i32, (i8, (i8, (i8, ()))))>::lemma_round_trip(v, extra);
    }
}

/// Adds or removes a tab-list entry.
#[derive(Debug)]
pub struct PlayerListItem {
    pub name: String16,
    pub online: bool,
    pub ping: i16,
}

impl DeepView for PlayerListItem {
    type V = <(String16, (bool, (i16, ()))) as DeepView>::V;

    open spec fn deep_view(&self) -> Self::V {
        (self.name.deep_view(), (self.online.deep_view(), (self.ping.deep_view(), ())))
    }
}

impl Readable for PlayerListItem {
    open spec fn read_defined(bytes: Seq<u8>) -> bool {
        <(String16, (bool, (i16, ())))>::read_defined(bytes)
    }

    open spec fn spec_read(bytes: Seq<u8>) -> Option<(Self::V, nat)> {
        <(String16, (bool, (i16, ())))>::spec_read(bytes)
    }

    proof fn lemma_read_bounded(bytes: Seq<u8>) {
        <(String16, (bool, (i16, ())))>::lemma_read_bounded(bytes);
    }

    fn read(buffer: &mut Cursor, version: ProtocolVersion) -> (r: Result<PlayerListItem, Error>) {
        let (name, (online, (ping, ()))) = <(String16, (bool, (i16, ())))>::read(buffer, version)?;
        Ok(PlayerListItem { name, online, ping })
    }
}

impl Writeable for PlayerListItem {
    open spec fn write_defined(v: Self::V) -> bool {
        <(String16, (bool, (i16, ())))>::write_defined(v)
    }

    open spec fn spec_write(v: Self::V) -> Option<Seq<u8>> {
        <(String16, (bool, (i16, ())))>::spec_write(v)
    }

    fn write(&self, buffer: &mut Vec<u8>, version: ProtocolVersion) -> (r: Result<(), Error>) {
        let fields: (&String16, (&bool, (&i16, ()))) = (&self.name, (&self.online, (&self.ping, ())));
        fields.write(buffer, version)
    }
}

impl WireFormat for PlayerListItem {
    open spec fn round_trips(v: Self::V) -> bool {
        <(String16, (bool, (i16, ())))>::round_trips(v)
    }

    proof fn lemma_round_trip(v: Self::V, extra: Seq<u8>) {
        <(String16, (bool, (i16, ())))>::lemma_round_trip(v, extra);
    }
}

/// Accepts or rejects a window click.
#[derive(Debug)]
pub struct Transaction {
    pub window_id: i8,
    pub action_number: i16,
    pub accepted: bool,
}

impl DeepView for Transaction {
    type V = <(i8, (i16, (bool, ()))) as DeepView>::V;

    open spec fn deep_view(&self) -> Self::V {
        (self.window_id.deep_view(), (self.action_number.deep_view(), (self.accepted.deep_view(), ())))
    }
}

impl Readable for Transaction {
    open spec fn read_defined(bytes: Seq<u8>) -> bool {
        <(i8, (i16, (bool, ())))>::read_defined(bytes)
    }

    open spec fn spec_read(bytes: Seq<u8>) -> Option<(Self::V, nat)> {
        <(i8, (i16, (bool, ())))>::spec_read(bytes)
    }

    proof fn lemma_read_bounded(bytes: Seq<u8>) {
        <(i8, (i16, (bool, ())))>::lemma_read_bounded(bytes);
    }

    fn read(buffer: &mut Cursor, version: ProtocolVersion) -> (r: Result<Transaction, Error>) {
        let (window_id, (action_number, (accepted, ()))) = <(i8, (i16, (bool, ())))>::read(buffer, version)?;
        Ok(Transaction { window_id, action_number, accepted })
    }
}

impl Writeable for Transaction {
    open spec fn write_defined(v: Self::V) -> bool {
        <(i8, (i16, (bool, ())))>::write_defined(v)
    }

    open spec fn spec_write(v: Self::V) -> Option<Seq<u8>> {
        <(i8, (i16, (bool, ())))>::spec_write(v)
    }

    fn write(&self, buffer: &mut Vec<u8>, version: ProtocolVersion) -> (r: Result<(), Error>) {
        let fields: (&i8, (&i16, (&bool, ()))) = (&self.window_id, (&self.action_number, (&self.accepted, ())));
        fields.write(buffer, version)
    }
}

impl WireFormat for Transaction {
    open spec fn round_trips(v: Self::V) -> bool {
        <(i8, (i16, (bool, ())))>::round_trips(v)
    }

    proof fn lemma_round_trip(v: Self::V, extra: Seq<u8>) {
        <(i8, (i16, (bool, ())))>::lemma_round_trip(v, extra);
    }
}

/// What an entity holds or wears.
#[derive(Debug)]
pub struct EntityEquipment {
    pub eid: i32,
    pub slot: i16,
    pub item_id: i16,
    pub damage: i16,
}

impl DeepView for EntityEquipment {
    type V = <(i32, (i16, (i16, (i16, ())))) as DeepView>::V;

    open spec fn deep_view(&self) -> Self::V {
        (self.eid.deep_view(), (self.slot.deep_view(), (self.item_id.deep_view(), (self.damage.deep_view(), ()))))
    }
}

impl Readable for EntityEquipment {
    open spec fn read_defined(bytes: Seq<u8>) -> bool {
        <(i32, (i16, (i16, (i16, ()))))>::read_defined(bytes)
    }

    open spec fn spec_read(bytes: Seq<u8>) -> Option<(Self::V, nat)> {
        <(i32, (i16, (i16, (i16, ()))))>::spec_read(bytes)
    }

    proof fn lemma_read_bounded(bytes: Seq<u8>) {
        <(i32, (i16, (i16, (i16, ()))))>::lemma_read_bounded(bytes);
    }

    fn read(buffer: &mut Cursor, version: ProtocolVersion) -> (r: Result<EntityEquipment, Error>) {
        let (eid, (slot, (item_id, (damage, ())))) = <(i32, (i16, (i16, (i16, ()))))>::read(buffer, version)?;
        Ok(EntityEquipment { eid, slot, item_id, damage })
    }
}

impl Writeable for EntityEquipment {
    open spec fn write_defined(v: Self::V) -> bool {
        <(i32, (i16, (i16, (i16, ()))))>::write_defined(v)
    }

    open spec fn spec_write(v: Self::V) -> Option<Seq<u8>> {
        <(i32, (i16, (i16, (i16, ()))))>::spec_write(v)
    }

    fn write(&self, buffer: &mut Vec<u8>, version: ProtocolVersion) -> (r: Result<(), Error>) {
        let fields: (&i32, (&i16, (&i16, (&i16, ())))) = (&self.eid, (&self.slot, (&self.item_id, (&self.damage, ()))));
        fields.write(buffer, version)
    }
}

impl WireFormat for EntityEquipment {
    open spec fn round_trips(v: Self::V) -> bool {
        <(i32, (i16, (i16, (i16, ()))))>::round_trips(v)
    }

    proof fn lemma_round_trip(v: Self::V, extra: Seq<u8>) {
        <(i32, (i16, (i16, (i16, ()))))>::lemma_round_trip(v, extra);
    }
}

/// A game state change.
#[derive(Debug)]
pub struct NewState {
    pub reason: i8,
    pub gamemode: i8,
}

impl DeepView for NewState {
    type V = <(i8, (i8, ())) as DeepView>::V;

    open spec fn deep_view(&self) -> Self::V {
        (self.reason.deep_view(), (self.gamemode.deep_view(), ()))
    }
}

impl Readable for NewState {
    open spec fn read_defined(bytes: Seq<u8>) -> bool {
        <(i8, (i8, ()))>::read_defined(bytes)
    }

    open spec fn spec_read(bytes: Seq<u8>) -> Option<(Self::V, nat)> {
        <(i8, (i8, ()))>::spec_read(bytes)
    }

    proof fn lemma_read_bounded(bytes: Seq<u8>) {
        <(i8, (i8, ()))>::lemma_read_bounded(bytes);
    }

    fn read(buffer: &mut Cursor, version: ProtocolVersion) -> (r: Result<NewState, Error>) {
        let (reason, (gamemode, ())) = <(i8, (i8, ()))>::read(buffer, version)?;
        Ok(NewState { reason, gamemode })
    }
}

impl Writeable for NewState {
    open spec fn write_defined(v: Self::V) -> bool {
        <(i8, (i8, ()))>::write_defined(v)
    }

    open spec fn spec_write(v: Self::V) -> Option<Seq<u8>> {
        <(i8, (i8, ()))>::spec_write(v)
    }

    fn write(&self, buffer: &mut Vec<u8>, version: ProtocolVersion) -> (r: Result<(), Error>) {
        let fields: (&i8, (&i8, ())) = (&self.reason, (&self.gamemode, ()));
        fields.write(buffer, version)
    }
}

impl WireFormat for NewState {
    open spec fn round_trips(v: Self::V) -> bool {
        <(i8, (i8, ()))>::round_trips(v)
    }

    proof fn lemma_round_trip(v: Self::V, extra: Seq<u8>) {
        <(i8, (i8, ()))>::lemma_round_trip(v, extra);
    }
}

/// Respawns the player.
#[derive(Debug)]
pub struct Respawn {
    pub world: i8,
    pub difficulty: i8,
    pub gamemode: i8,
    pub world_height: i16,
    pub map_seed: i64,
}

impl DeepView for Respawn {
    type V = <(i8, (i8, (i8, (i16, (i64, ()))))) as DeepView>::V;

    open spec fn deep_view(&self) -> Self::V {
        (self.world.deep_view(), (self.difficulty.deep_view(), (self.gamemode.deep_view(), (self.world_height.deep_view(), (self.map_seed.deep_view(), ())))))
    }
}

impl Readable for Respawn {
    open spec fn read_defined(bytes: Seq<u8>) -> bool {
        <(i8, (i8, (i8, (i16, (i64, ())))))>::read_defined(bytes)
    }

    open spec fn spec_read(bytes: Seq<u8>) -> Option<(Self::V, nat)> {
        <(i8, (i8, (i8, (i16, (i64, ())))))>::spec_read(bytes)
    }

    proof fn lemma_read_bounded(bytes: Seq<u8>) {
        <(i8, (i8, (i8, (i16, (i64, ())))))>::lemma_read_bounded(bytes);
    }

    fn read(buffer: &mut Cursor, version: ProtocolVersion) -> (r: Result<Respawn, Error>) {
        let (world, (difficulty, (gamemode, (world_height, (map_seed, ()))))) = <(i8, (i8, (i8, (i16, (i64, ())))))>::read(buffer, version)?;
        Ok(Respawn { world, difficulty, gamemode, world_height, map_seed })
    }
}

impl Writeable for Respawn {
    open spec fn write_defined(v: Self::V) -> bool {
        <(i8, (i8, (i8, (i16, (i64, ())))))>::write_defined(v)
    }

    open spec fn spec_write(v: Self::V) -> Option<Seq<u8>> {
        <(i8, (i8, (i8, (i16, (i64, ())))))>::spec_write(v)
    }

    fn write(&self, buffer: &mut Vec<u8>, version: ProtocolVersion) -> (r: Result<(), Error>) {
        let fields: (&i8, (&i8, (&i8, (&i16, (&i64, ()))))) = (&self.world, (&self.difficulty, (&self.gamemode, (&self.world_height, (&self.map_seed, ())))));
        fields.write(buffer, version)
    }
}

impl WireFormat for Respawn {
    open spec fn round_trips(v: Self::V) -> bool {
        <(i8, (i8, (i8, (i16, (i64, ())))))>::round_trips(v)
    }

    proof fn lemma_round_trip(v: Self::V, extra: Seq<u8>) {
        <(i8, (i8, (i8, (i16, (i64, ())))))>::lemma_round_trip(v, extra);
    }
}

/// An entity status change.
#[derive(Debug)]
pub struct EntityStatus {
    pub eid: i32,
    pub status: EntityStatusKind,
}

impl DeepView for EntityStatus {
    type V = <(i32, (EntityStatusKind, ())) as DeepView>::V;

    open spec fn deep_view(&self) -> Self::V {
        (self.eid.deep_view(), (self.status.deep_view(), ()))
    }
}

impl Readable for EntityStatus {
    open spec fn read_defined(bytes: Seq<u8>) -> bool {
        <(i32, (EntityStatusKind, ()))>::read_defined(bytes)
    }

    open spec fn spec_read(bytes: Seq<u8>) -> Option<(Self::V, nat)> {
        <(i32, (EntityStatusKind, ()))>::spec_read(bytes)
    }

    proof fn lemma_read_bounded(bytes: Seq<u8>) {
        <(i32, (EntityStatusKind, ()))>::lemma_read_bounded(bytes);
    }

    fn read(buffer: &mut Cursor, version: ProtocolVersion) -> (r: Result<EntityStatus, Error>) {
        let (eid, (status, ())) = <(i32, (EntityStatusKind, ()))>::read(buffer, version)?;
        Ok(EntityStatus { eid, status })
    }
}

impl Writeable for EntityStatus {
    open spec fn write_defined(v: Self::V) -> bool {
        <(i32, (EntityStatusKind, ()))>::write_defined(v)
    }

    open spec fn spec_write(v: Self::V) -> Option<Seq<u8>> {
        <(i32, (EntityStatusKind, ()))>::spec_write(v)
    }

    fn write(&self, buffer: &mut Vec<u8>, version: ProtocolVersion) -> (r: Result<(), Error>) {
        let fields: (&i32, (&EntityStatusKind, ())) = (&self.eid, (&self.status, ()));
        fields.write(buffer, version)
    }
}

impl WireFormat for EntityStatus {
    open spec fn round_trips(v: Self::V) -> bool {
        <(i32, (EntityStatusKind, ()))>::round_trips(v)
    }

    proof fn lemma_round_trip(v: Self::V, extra: Seq<u8>) {
        <(i32, (EntityStatusKind, ()))>::lemma_round_trip(v, extra);
    }
}

/// The world time.
#[derive(Debug)]
pub struct TimeUpdate {
    pub time: i64,
}

impl DeepView for TimeUpdate {
    type V = <(i64, ()) as DeepView>::V;

    open spec fn deep_view(&self) -> Self::V {
        (self.time.deep_view(), ())
    }
}

impl Readable for TimeUpdate {
    open spec fn read_defined(bytes: Seq<u8>) -> bool {
        <(i64, ())>::read_defined(bytes)
    }

    open spec fn spec_read(bytes: Seq<u8>) -> Option<(Self::V, nat)> {
        <(i64, ())>::spec_read(bytes)
    }

    proof fn lemma_read_bounded(bytes: Seq<u8>) {
        <(i64, ())>::lemma_read_bounded(bytes);
    }

    fn read(buffer: &mut Cursor, version: ProtocolVersion) -> (r: Result<TimeUpdate, Error>) {
        let (time, ()) = <(i64, ())>::read(buffer, version)?;
        Ok(TimeUpdate { time })
    }
}

impl Writeable for TimeUpdate {
    open spec fn write_defined(v: Self::V) -> bool {
        <(i64, ())>::write_defined(v)
    }

    open spec fn spec_write(v: Self::V) -> Option<Seq<u8>> {
        <(i64, ())>::spec_write(v)
    }

    fn write(&self, buffer: &mut Vec<u8>, version: ProtocolVersion) -> (r: Result<(), Error>) {
        let fields: (&i64, ()) = (&self.time, ());
        fields.write(buffer, version)
    }
}

impl WireFormat for TimeUpdate {
    open spec fn round_trips(v: Self::V) -> bool {
        <(i64, ())>::round_trips(v)
    }

    proof fn lemma_round_trip(v: Self::V, extra: Seq<u8>) {
        <(i64, ())>::lemma_round_trip(v, extra);
    }
}

/// The text of a sign.
#[derive(Debug)]
pub struct UpdateSign {
    pub x: i32,
    pub y: i16,
    pub z: i32,
    pub text1: String16,
    pub text2: String16,
    pub text3: String16,
    pub text4: String16,
}

impl DeepView for UpdateSign {
    type V = <(i32, (i16, (i32, (String16, (String16, (String16, (String16, ()))))))) as DeepView>::V;

    open spec fn deep_view(&self) -> Self::V {
        (self.x.deep_view(), (self.y.deep_view(), (self.z.deep_view(), (self.text1.deep_view(), (self.text2.deep_view(), (self.text3.deep_view(), (self.text4.deep_view(), ())))))))
    }
}

impl Readable for UpdateSign {
    open spec fn read_defined(bytes: Seq<u8>) -> bool {
        <(i32, (i16, (i32, (String16, (String16, (String16, (String16, ())))))))>::read_defined(bytes)
    }

    open spec fn spec_read(bytes: Seq<u8>) -> Option<(Self::V, nat)> {
        <(i32, (i16, (i32, (String16, (String16, (String16, (String16, ())))))))>::spec_read(bytes)
    }

    proof fn lemma_read_bounded(bytes: Seq<u8>) {
        <(i32, (i16, (i32, (String16, (String16, (String16, (String16, ())))))))>::lemma_read_bounded(bytes);
    }

    fn read(buffer: &mut Cursor, version: ProtocolVersion) -> (r: Result<UpdateSign, Error>) {
        let (x, (y, (z, (text1, (text2, (text3, (text4, ()))))))) = <(i32, (i16, (i32, (String16, (String16, (String16, (String16, ())))))))>::read(buffer, version)?;
        Ok(UpdateSign { x, y, z, text1, text2, text3, text4 })
    }
}

impl Writeable for UpdateSign {
    open spec fn write_defined(v: Self::V) -> bool {
        <(i32, (i16, (i32, (String16, (String16, (String16, (String16, ())))))))>::write_defined(v)
    }

    open spec fn spec_write(v: Self::V) -> Option<Seq<u8>> {
        <(i32, (i16, (i32, (String16, (String16, (String16, (String16, ())))))))>::spec_write(v)
    }

    fn write(&self, buffer: &mut Vec<u8>, version: ProtocolVersion) -> (r: Result<(), Error>) {
        let fields: (&i32, (&i16, (&i32, (&String16, (&String16, (&String16, (&String16, ()))))))) = (&self.x, (&self.y, (&self.z, (&self.text1, (&self.text2, (&self.text3, (&self.text4, ())))))));
        fields.write(buffer, version)
    }
}

impl WireFormat for UpdateSign {
    open spec fn round_trips(v: Self::V) -> bool {
        <(i32, (i16, (i32, (String16, (String16, (String16, (String16, ())))))))>::round_trips(v)
    }

    proof fn lemma_round_trip(v: Self::V, extra: Seq<u8>) {
        <(i32, (i16, (i32, (String16, (String16, (String16, (String16, ())))))))>::lemma_round_trip(v, extra);
    }
}

/// A block action such as a note or a piston.
#[derive(Debug)]
pub struct BlockAction {
    pub x: i32,
    pub y: i16,
    pub z: i32,
    pub byte1: i8,
    pub byte2: i8,
}

impl DeepView for BlockAction {
    type V = <(i32, (i16, (i32, (i8, (i8, ()))))) as DeepView>::V;

    open spec fn deep_view(&self) -> Self::V {
        (self.x.deep_view(), (self.y.deep_view(), (self.z.deep_view(), (self.byte1.deep_view(), (self.byte2.deep_view(), ())))))
    }
}

impl Readable for BlockAction {
    open spec fn read_defined(bytes: Seq<u8>) -> bool {
        <(i32, (i16, (i32, (i8, (i8, ())))))>::read_defined(bytes)
    }

    open spec fn spec_read(bytes: Seq<u8>) -> Option<(Self::V, nat)> {
        <(i32, (i16, (i32, (i8, (i8, ())))))>::spec_read(bytes)
    }

    proof fn lemma_read_bounded(bytes: Seq<u8>) {
        <(i32, (i16, (i32, (i8, (i8, ())))))>::lemma_read_bounded(bytes);
    }

    fn read(buffer: &mut Cursor, version: ProtocolVersion) -> (r: Result<BlockAction, Error>) {
        let (x, (y, (z, (byte1, (byte2, ()))))) = <(i32, (i16, (i32, (i8, (i8, ())))))>::read(buffer, version)?;
        Ok(BlockAction { x, y, z, byte1, byte2 })
    }
}

impl Writeable for BlockAction {
    open spec fn write_defined(v: Self::V) -> bool {
        <(i32, (i16, (i32, (i8, (i8, ())))))>::write_defined(v)
    }

    open spec fn spec_write(v: Self::V) -> Option<Seq<u8>> {
        <(i32, (i16, (i32, (i8, (i8, ())))))>::spec_write(v)
    }

    fn write(&self, buffer: &mut Vec<u8>, version: ProtocolVersion) -> (r: Result<(), Error>) {
        let fields: (&i32, (&i16, (&i32, (&i8, (&i8, ()))))) = (&self.x, (&self.y, (&self.z, (&self.byte1, (&self.byte2, ())))));
        fields.write(buffer, version)
    }
}

impl WireFormat for BlockAction {
    open spec fn round_trips(v: Self::V) -> bool {
        <(i32, (i16, (i32, (i8, (i8, ())))))>::round_trips(v)
    }

    proof fn lemma_round_trip(v: Self::V, extra: Seq<u8>) {
        <(i32, (i16, (i32, (i8, (i8, ())))))>::lemma_round_trip(v, extra);
    }
}

/// Gives an entity a potion effect.
#[derive(Debug)]
pub struct EntityEffect {
    pub eid: i32,
    pub effect_id: EntityEffectKind,
    pub amplifier: i8,
    pub duration: i16,
}

impl DeepView for EntityEffect {
    type V = <(i32, (EntityEffectKind, (i8, (i16, ())))) as DeepView>::V;

    open spec fn deep_view(&self) -> Self::V {
        (self.eid.deep_view(), (self.effect_id.deep_view(), (self.amplifier.deep_view(), (self.duration.deep_view(), ()))))
    }
}

impl Readable for EntityEffect {
    open spec fn read_defined(bytes: Seq<u8>) -> bool {
        <(i32, (EntityEffectKind, (i8, (i16, ()))))>::read_defined(bytes)
    }

    open spec fn spec_read(bytes: Seq<u8>) -> Option<(Self::V, nat)> {
        <(i32, (EntityEffectKind, (i8, (i16, ()))))>::spec_read(bytes)
    }

    proof fn lemma_read_bounded(bytes: Seq<u8>) {
        <(i32, (EntityEffectKind, (i8, (i16, ()))))>::lemma_read_bounded(bytes);
    }

    fn read(buffer: &mut Cursor, version: ProtocolVersion) -> (r: Result<EntityEffect, Error>) {
        let (eid, (effect_id, (amplifier, (duration, ())))) = <(i32, (EntityEffectKind, (i8, (i16, ()))))>::read(buffer, version)?;
        Ok(EntityEffect { eid, effect_id, amplifier, duration })
    }
}

impl Writeable for EntityEffect {
    open spec fn write_defined(v: Self::V) -> bool {
        <(i32, (EntityEffectKind, (i8, (i16, ()))))>::write_defined(v)
    }

    open spec fn spec_write(v: Self::V) -> Option<Seq<u8>> {
        <(i32, (EntityEffectKind, (i8, (i16, ()))))>::spec_write(v)
    }

    fn write(&self, buffer: &mut Vec<u8>, version: ProtocolVersion) -> (r: Result<(), Error>) {
        let fields: (&i32, (&EntityEffectKind, (&i8, (&i16, ())))) = (&self.eid, (&self.effect_id, (&self.amplifier, (&self.duration, ()))));
        fields.write(buffer, version)
    }
}

impl WireFormat for EntityEffect {
    open spec fn round_trips(v: Self::V) -> bool {
        <(i32, (EntityEffectKind, (i8, (i16, ()))))>::round_trips(v)
    }

    proof fn lemma_round_trip(v: Self::V, extra: Seq<u8>) {
        <(i32, (EntityEffectKind, (i8, (i16, ()))))>::lemma_round_trip(v, extra);
    }
}

/// Takes a potion effect from an entity.
#[derive(Debug)]
pub struct RemoveEntityEffect {
    pub eid: i32,
    pub effect_id: EntityEffectKind,
}

impl DeepView for RemoveEntityEffect {
    type V = <(i32, (EntityEffectKind, ())) as DeepView>::V;

    open spec fn deep_view(&self) -> Self::V {
        (self.eid.deep_view(), (self.effect_id.deep_view(), ()))
    }
}

impl Readable for RemoveEntityEffect {
    open spec fn read_defined(bytes: Seq<u8>) -> bool {
        <(i32, (EntityEffectKind, ()))>::read_defined(bytes)
    }

    open spec fn spec_read(bytes: Seq<u8>) -> Option<(Self::V, nat)> {
        <(i32, (EntityEffectKind, ()))>::spec_read(bytes)
    }

    proof fn lemma_read_bounded(bytes: Seq<u8>) {
        <(i32, (EntityEffectKind, ()))>::lemma_read_bounded(bytes);
    }

    fn read(buffer: &mut Cursor, version: ProtocolVersion) -> (r: Result<RemoveEntityEffect, Error>) {
        let (eid, (effect_id, ())) = <(i32, (EntityEffectKind, ()))>::read(buffer, version)?;
        Ok(RemoveEntityEffect { eid, effect_id })
    }
}

impl Writeable for RemoveEntityEffect {
    open spec fn write_defined(v: Self::V) -> bool {
        <(i32, (EntityEffectKind, ()))>::write_defined(v)
    }

    open spec fn spec_write(v: Self::V) -> Option<Seq<u8>> {
        <(i32, (EntityEffectKind, ()))>::spec_write(v)
    }

    fn write(&self, buffer: &mut Vec<u8>, version: ProtocolVersion) -> (r: Result<(), Error>) {
        let fields: (&i32, (&EntityEffectKind, ())) = (&self.eid, (&self.effect_id, ()));
        fields.write(buffer, version)
    }
}

impl WireFormat for RemoveEntityEffect {
    open spec fn round_trips(v: Self::V) -> bool {
        <(i32, (EntityEffectKind, ()))>::round_trips(v)
    }

    proof fn lemma_round_trip(v: Self::V, extra: Seq<u8>) {
        <(i32, (EntityEffectKind, ()))>::lemma_round_trip(v, extra);
    }
}

/// An entity picked up an item.
#[derive(Debug)]
pub struct CollectItem {
    pub collected_eid: i32,
    pub collector_eid: i32,
}

impl DeepView for CollectItem {
    type V = <(i32, (i32, ())) as DeepView>::V;

    open spec fn deep_view(&self) -> Self::V {
        (self.collected_eid.deep_view(), (self.collector_eid.deep_view(), ()))
    }
}

impl Readable for CollectItem {
    open spec fn read_defined(bytes: Seq<u8>) -> bool {
        <(i32, (i32, ()))>::read_defined(bytes)
    }

    open spec fn spec_read(bytes: Seq<u8>) -> Option<(Self::V, nat)> {
        <(i32, (i32, ()))>::spec_read(bytes)
    }

    proof fn lemma_read_bounded(bytes: Seq<u8>) {
        <(i32, (i32, ()))>::lemma_read_bounded(bytes);
    }

    fn read(buffer: &mut Cursor, version: ProtocolVersion) -> (r: Result<CollectItem, Error>) {
        let (collected_eid, (collector_eid, ())) = <(i32, (i32, ()))>::read(buffer, version)?;
        Ok(CollectItem { collected_eid, collector_eid })
    }
}

impl Writeable for CollectItem {
    open spec fn write_defined(v: Self::V) -> bool {
        <(i32, (i32, ()))>::write_defined(v)
    }

    open spec fn spec_write(v: Self::V) -> Option<Seq<u8>> {
        <(i32, (i32, ()))>::spec_write(v)
    }

    fn write(&self, buffer: &mut Vec<u8>, version: ProtocolVersion) -> (r: Result<(), Error>) {
        let fields: (&i32, (&i32, ())) = (&self.collected_eid, (&self.collector_eid, ()));
        fields.write(buffer, version)
    }
}

impl WireFormat for CollectItem {
    open spec fn round_trips(v: Self::V) -> bool {
        <(i32, (i32, ()))>::round_trips(v)
    }

    proof fn lemma_round_trip(v: Self::V, extra: Seq<u8>) {
        <(i32, (i32, ()))>::lemma_round_trip(v, extra);
    }
}

/// The velocity of an entity.
#[derive(Debug)]
pub struct EntityVelocity {
    pub eid: i32,
    pub velocity_x: i16,
    pub velocity_y: i16,
    pub velocity_z: i16,
}

impl DeepView for EntityVelocity {
    type V = <(i32, (i16, (i16, (i16, ())))) as DeepView>::V;

    open spec fn deep_view(&self) -> Self::V {
        (self.eid.deep_view(), (self.velocity_x.deep_view(), (self.velocity_y.deep_view(), (self.velocity_z.deep_view(), ()))))
    }
}

impl Readable for EntityVelocity {
    open spec fn read_defined(bytes: Seq<u8>) -> bool {
        <(i32, (i16, (i16, (i16, ()))))>::read_defined(bytes)
    }

    open spec fn spec_read(bytes: Seq<u8>) -> Option<(Self::V, nat)> {
        <(i32, (i16, (i16, (i16, ()))))>::spec_read(bytes)
    }

    proof fn lemma_read_bounded(bytes: Seq<u8>) {
        <(i32, (i16, (i16, (i16, ()))))>::lemma_read_bounded(bytes);
    }

    fn read(buffer: &mut Cursor, version: ProtocolVersion) -> (r: Result<EntityVelocity, Error>) {
        let (eid, (velocity_x, (velocity_y, (velocity_z, ())))) = <(i32, (i16, (i16, (i16, ()))))>::read(buffer, version)?;
        Ok(EntityVelocity { eid, velocity_x, velocity_y, velocity_z })
    }
}

impl Writeable for EntityVelocity {
    open spec fn write_defined(v: Self::V) -> bool {
        <(i32, (i16, (i16, (i16, ()))))>::write_defined(v)
    }

    open spec fn spec_write(v: Self::V) -> Option<Seq<u8>> {
        <(i32, (i16, (i16, (i16, ()))))>::spec_write(v)
    }

    fn write(&self, buffer: &mut Vec<u8>, version: ProtocolVersion) -> (r: Result<(), Error>) {
        let fields: (&i32, (&i16, (&i16, (&i16, ())))) = (&self.eid, (&self.velocity_x, (&self.velocity_y, (&self.velocity_z, ()))));
        fields.write(buffer, version)
    }
}

impl WireFormat for EntityVelocity {
    open spec fn round_trips(v: Self::V) -> bool {
        <(i32, (i16, (i16, (i16, ()))))>::round_trips(v)
    }

    proof fn lemma_round_trip(v: Self::V, extra: Seq<u8>) {
        <(i32, (i16, (i16, (i16, ()))))>::lemma_round_trip(v, extra);
    }
}

/// Closes a window on the client.
#[derive(Debug)]
pub struct CloseWindow {
    pub wid: i8,
}

impl DeepView for CloseWindow {
    type V = <(i8, ()) as DeepView>::V;

    open spec fn deep_view(&self) -> Self::V {
        (self.wid.deep_view(), ())
    }
}

impl Readable for CloseWindow {
    open spec fn read_defined(bytes: Seq<u8>) -> bool {
        <(i8, ())>::read_defined(bytes)
    }

    open spec fn spec_read(bytes: Seq<u8>) -> Option<(Self::V, nat)> {
        <(i8, ())>::spec_read(bytes)
    }

    proof fn lemma_read_bounded(bytes: Seq<u8>) {
        <(i8, ())>::lemma_read_bounded(bytes);
    }

    fn read(buffer: &mut Cursor, version: ProtocolVersion) -> (r: Result<CloseWindow, Error>) {
        let (wid, ()) = <(i8, ())>::read(buffer, version)?;
        Ok(CloseWindow { wid })
    }
}

impl Writeable for CloseWindow {
    open spec fn write_defined(v: Self::V) -> bool {
        <(i8, ())>::write_defined(v)
    }

    open spec fn spec_write(v: Self::V) -> Option<Seq<u8>> {
        <(i8, ())>::spec_write(v)
    }

    fn write(&self, buffer: &mut Vec<u8>, version: ProtocolVersion) -> (r: Result<(), Error>) {
        let fields: (&i8, ()) = (&self.wid, ());
        fields.write(buffer, version)
    }
}

impl WireFormat for CloseWindow {
    open spec fn round_trips(v: Self::V) -> bool {
        <(i8, ())>::round_trips(v)
    }

    proof fn lemma_round_trip(v: Self::V, extra: Seq<u8>) {
        <(i8, ())>::lemma_round_trip(v, extra);
    }
}

/// Plays an animation of an entity.
#[derive(Debug)]
pub struct SendEntityAnimation {
    pub eid: i32,
    pub animation: EntityAnimationType,
}

impl DeepView for SendEntityAnimation {
    type V = <(i32, (EntityAnimationType, ())) as DeepView>::V;

    open spec fn deep_view(&self) -> Self::V {
        (self.eid.deep_view(), (self.animation.deep_view(), ()))
    }
}

impl Readable for SendEntityAnimation {
    open spec fn read_defined(bytes: Seq<u8>) -> bool {
        <(i32, (EntityAnimationType, ()))>::read_defined(bytes)
    }

    open spec fn spec_read(bytes: Seq<u8>) -> Option<(Self::V, nat)> {
        <(i32, (EntityAnimationType, ()))>::spec_read(bytes)
    }

    proof fn lemma_read_bounded(bytes: Seq<u8>) {
        <(i32, (EntityAnimationType, ()))>::lemma_read_bounded(bytes);
    }

    fn read(buffer: &mut Cursor, version: ProtocolVersion) -> (r: Result<SendEntityAnimation, Error>) {
        let (eid, (animation, ())) = <(i32, (EntityAnimationType, ()))>::read(buffer, version)?;
        Ok(SendEntityAnimation { eid, animation })
    }
}

impl Writeable for SendEntityAnimation {
    open spec fn write_defined(v: Self::V) -> bool {
        <(i32, (EntityAnimationType, ()))>::write_defined(v)
    }

    open spec fn spec_write(v: Self::V) -> Option<Seq<u8>> {
        <(i32, (EntityAnimationType, ()))>::spec_write(v)
    }

    fn write(&self, buffer: &mut Vec<u8>, version: ProtocolVersion) -> (r: Result<(), Error>) {
        let fields: (&i32, (&EntityAnimationType, ())) = (&self.eid, (&self.animation, ()));
        fields.write(buffer, version)
    }
}

impl WireFormat for SendEntityAnimation {
    open spec fn round_trips(v: Self::V) -> bool {
        <(i32, (EntityAnimationType, ()))>::round_trips(v)
    }

    proof fn lemma_round_trip(v: Self::V, extra: Seq<u8>) {
        <(i32, (EntityAnimationType, ()))>::lemma_round_trip(v, extra);
    }
}

/// The server's handshake packets.
#[derive(Debug)]
pub enum ServerHandshakePacket {
    Handshake(Handshake),
}

/// The models of the packets of `ServerHandshakePacket`, by variant.
pub enum ServerHandshakePacketModel {
    Handshake(<Handshake as DeepView>::V),
}

impl DeepView for ServerHandshakePacket {
    type V = ServerHandshakePacketModel;

    open spec fn deep_view(&self) -> ServerHandshakePacketModel {
        match self {
            ServerHandshakePacket::Handshake(p) => ServerHandshakePacketModel::Handshake(p.deep_view()),
        }
    }
}

impl ServerHandshakePacket {
    pub open spec fn spec_id(self) -> u8 {
        match self {
            ServerHandshakePacket::Handshake(_) => 2u8,
        }
    }

    /// Returns the packet ID of this packet.
    pub fn id(&self) -> (r: u8)
        ensures
            r == self.spec_id(),
    {
        match self {
            ServerHandshakePacket::Handshake(_) => 2,
        }
    }

    /// The name of this packet.
    pub open spec fn spec_name(self) -> Seq<char> {
        match self {
            ServerHandshakePacket::Handshake(_) => "Handshake"@,
        }
    }

    /// Returns the name of this packet.
    pub fn name(&self) -> (r: &'static str)
        ensures
            r@ == self.spec_name(),
    {
        match self {
            ServerHandshakePacket::Handshake(_) => "Handshake",
        }
    }
}

impl Readable for ServerHandshakePacket {
    open spec fn read_defined(bytes: Seq<u8>) -> bool {
        bytes.len() >= 1 ==> (
            (bytes[0] == 2u8 ==> Handshake::read_defined(bytes.skip(1)))
        )
    }

    open spec fn spec_read(bytes: Seq<u8>) -> Option<(ServerHandshakePacketModel, nat)> {
        if bytes.len() < 1 {
            None
        } else if bytes[0] == 2u8 {
            match Handshake::spec_read(bytes.skip(1)) {
                Some((p, n)) => Some((ServerHandshakePacketModel::Handshake(p), n + 1)),
                None => None,
            }
        } else {
            None
        }
    }

    proof fn lemma_read_bounded(bytes: Seq<u8>) {
        if bytes.len() >= 1 {
            Handshake::lemma_read_bounded(bytes.skip(1));
        }
    }

    fn read(buffer: &mut Cursor, version: ProtocolVersion) -> (r: Result<ServerHandshakePacket, Error>) {
        buffer.note_in_bounds();
        let ghost before = *buffer;
        let packet_id = u8::read(buffer, version)?;
        proof {
            Cursor::lemma_advance(before, *buffer, 1);
        }
        if packet_id == 2 {
            Ok(ServerHandshakePacket::Handshake(Handshake::read(buffer, version)?))
        } else {
            Err(Error::UnknownVariant("ServerHandshakePacket"))
        }
    }
}

impl Writeable for ServerHandshakePacket {
    open spec fn write_defined(v: ServerHandshakePacketModel) -> bool {
        match v {
            ServerHandshakePacketModel::Handshake(p) => Handshake::write_defined(p),
        }
    }

    /// The packet id, then the packet.
    open spec fn spec_write(v: ServerHandshakePacketModel) -> Option<Seq<u8>> {
        match v {
            ServerHandshakePacketModel::Handshake(p) => match Handshake::spec_write(p) {
                Some(b) => Some(seq![2u8] + b),
                None => None,
            },
        }
    }

    fn write(&self, buffer: &mut Vec<u8>, version: ProtocolVersion) -> (r: Result<(), Error>) {
        self.id().write(buffer, version)?;
        match self {
            ServerHandshakePacket::Handshake(packet) => {
                packet.write(buffer, version)?;
            },
        }
        proof {
            let b = Self::spec_write(self.deep_view())->0;
            assert(buffer@ =~= old(buffer)@ + b);
        }
        Ok(())
    }
}

impl WireFormat for ServerHandshakePacket {
    open spec fn round_trips(v: ServerHandshakePacketModel) -> bool {
        match v {
            ServerHandshakePacketModel::Handshake(p) => Handshake::round_trips(p),
        }
    }

    proof fn lemma_round_trip(v: ServerHandshakePacketModel, extra: Seq<u8>) {
        match v {
            ServerHandshakePacketModel::Handshake(p) => {
                let b = Handshake::spec_write(p)->0;
                Handshake::lemma_round_trip(p, extra);
                assert((seq![2u8] + b + extra).skip(1) =~= b + extra);
            },
        }
    }
}

impl VariantOf<ServerHandshakePacket> for Handshake {
    open spec fn spec_discriminant_id() -> u8 {
        2u8
    }

    open spec fn spec_destructure(e: ServerHandshakePacket) -> Option<Self> {
        match e {
            ServerHandshakePacket::Handshake(p) => Some(p),
            #[allow(unreachable_patterns)]
            _ => None,
        }
    }

    fn discriminant_id() -> (r: u8) {
        2
    }

    fn destructure(e: ServerHandshakePacket) -> (r: Option<Self>) {
        match e {
            ServerHandshakePacket::Handshake(p) => Some(p),
            #[allow(unreachable_patterns)]
            _ => None,
        }
    }
}

/// The server's login packets.
#[derive(Debug)]
pub enum ServerLoginPacket {
    S(S),
}

/// The models of the packets of `ServerLoginPacket`, by variant.
pub enum ServerLoginPacketModel {
    S(<S as DeepView>::V),
}

impl DeepView for ServerLoginPacket {
    type V = ServerLoginPacketModel;

    open spec fn deep_view(&self) -> ServerLoginPacketModel {
        match self {
            ServerLoginPacket::S(p) => ServerLoginPacketModel::S(p.deep_view()),
        }
    }
}

impl ServerLoginPacket {
    pub open spec fn spec_id(self) -> u8 {
        match self {
            ServerLoginPacket::S(_) => 255u8,
        }
    }

    /// Returns the packet ID of this packet.
    pub fn id(&self) -> (r: u8)
        ensures
            r == self.spec_id(),
    {
        match self {
            ServerLoginPacket::S(_) => 255,
        }
    }

    /// The name of this packet.
    pub open spec fn spec_name(self) -> Seq<char> {
        match self {
            ServerLoginPacket::S(_) => "S"@,
        }
    }

    /// Returns the name of this packet.
    pub fn name(&self) -> (r: &'static str)
        ensures
            r@ == self.spec_name(),
    {
        match self {
            ServerLoginPacket::S(_) => "S",
        }
    }
}

impl Readable for ServerLoginPacket {
    open spec fn read_defined(bytes: Seq<u8>) -> bool {
        bytes.len() >= 1 ==> (
            (bytes[0] == 255u8 ==> S::read_defined(bytes.skip(1)))
        )
    }

    open spec fn spec_read(bytes: Seq<u8>) -> Option<(ServerLoginPacketModel, nat)> {
        if bytes.len() < 1 {
            None
        } else if bytes[0] == 255u8 {
            match S::spec_read(bytes.skip(1)) {
                Some((p, n)) => Some((ServerLoginPacketModel::S(p), n + 1)),
                None => None,
            }
        } else {
            None
        }
    }

    proof fn lemma_read_bounded(bytes: Seq<u8>) {
        if bytes.len() >= 1 {
            S::lemma_read_bounded(bytes.skip(1));
        }
    }

    fn read(buffer: &mut Cursor, version: ProtocolVersion) -> (r: Result<ServerLoginPacket, Error>) {
        buffer.note_in_bounds();
        let ghost before = *buffer;
        let packet_id = u8::read(buffer, version)?;
        proof {
            Cursor::lemma_advance(before, *buffer, 1);
        }
        if packet_id == 255 {
            Ok(ServerLoginPacket::S(S::read(buffer, version)?))
        } else {
            Err(Error::UnknownVariant("ServerLoginPacket"))
        }
    }
}

impl Writeable for ServerLoginPacket {
    open spec fn write_defined(v: ServerLoginPacketModel) -> bool {
        match v {
            ServerLoginPacketModel::S(p) => S::write_defined(p),
        }
    }

    /// The packet id, then the packet.
    open spec fn spec_write(v: ServerLoginPacketModel) -> Option<Seq<u8>> {
        match v {
            ServerLoginPacketModel::S(p) => match S::spec_write(p) {
                Some(b) => Some(seq![255u8] + b),
                None => None,
            },
        }
    }

    fn write(&self, buffer: &mut Vec<u8>, version: ProtocolVersion) -> (r: Result<(), Error>) {
        self.id().write(buffer, version)?;
        match self {
            ServerLoginPacket::S(packet) => {
                packet.write(buffer, version)?;
            },
        }
        proof {
            let b = Self::spec_write(self.deep_view())->0;
            assert(buffer@ =~= old(buffer)@ + b);
        }
        Ok(())
    }
}

impl WireFormat for ServerLoginPacket {
    open spec fn round_trips(v: ServerLoginPacketModel) -> bool {
        match v {
            ServerLoginPacketModel::S(p) => S::round_trips(p),
        }
    }

    proof fn lemma_round_trip(v: ServerLoginPacketModel, extra: Seq<u8>) {
        match v {
            ServerLoginPacketModel::S(p) => {
                let b = S::spec_write(p)->0;
                S::lemma_round_trip(p, extra);
                assert((seq![255u8] + b + extra).skip(1) =~= b + extra);
            },
        }
    }
}

impl VariantOf<ServerLoginPacket> for S {
    open spec fn spec_discriminant_id() -> u8 {
        255u8
    }

    open spec fn spec_destructure(e: ServerLoginPacket) -> Option<Self> {
        match e {
            ServerLoginPacket::S(p) => Some(p),
            #[allow(unreachable_patterns)]
            _ => None,
        }
    }

    fn discriminant_id() -> (r: u8) {
        255
    }

    fn destructure(e: ServerLoginPacket) -> (r: Option<Self>) {
        match e {
            ServerLoginPacket::S(p) => Some(p),
            #[allow(unreachable_patterns)]
            _ => None,
        }
    }
}

} // verus!
