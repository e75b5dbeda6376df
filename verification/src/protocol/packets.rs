use vstd::prelude::*;

use super::cursor::Cursor;
use super::io::{Error, ProtocolVersion, Readable, WireFormat, Writeable};
use crate::game::BlockPosition;

verus! {

/// Entity status codes. Sent as an `i8` discriminant.
#[derive(Clone, Copy, Debug, PartialEq, Eq)]
pub enum EntityStatusKind {
    NoStatus,
    EntityHurt,
    EntityDead,
    Unknown4,
    Unknown5,
}

impl DeepView for EntityStatusKind {
    type V = EntityStatusKind;

    open spec fn deep_view(&self) -> EntityStatusKind {
        *self
    }
}

impl EntityStatusKind {
    pub open spec fn spec_discriminant(self) -> i8 {
        match self {
            EntityStatusKind::NoStatus => 0i8,
            EntityStatusKind::EntityHurt => 2i8,
            EntityStatusKind::EntityDead => 3i8,
            EntityStatusKind::Unknown4 => 4i8,
            EntityStatusKind::Unknown5 => 5i8,
        }
    }

    pub open spec fn spec_from_discriminant(d: i8) -> Option<EntityStatusKind> {
        if d == 0i8 {
            Some(EntityStatusKind::NoStatus)
        } else if d == 2i8 {
            Some(EntityStatusKind::EntityHurt)
        } else if d == 3i8 {
            Some(EntityStatusKind::EntityDead)
        } else if d == 4i8 {
            Some(EntityStatusKind::Unknown4)
        } else if d == 5i8 {
            Some(EntityStatusKind::Unknown5)
        } else {
            None
        }
    }

    /// The wire discriminant of this variant.
    pub fn discriminant(self) -> (r: i8)
        ensures
            r == self.spec_discriminant(),
    {
        match self {
            EntityStatusKind::NoStatus => 0,
            EntityStatusKind::EntityHurt => 2,
            EntityStatusKind::EntityDead => 3,
            EntityStatusKind::Unknown4 => 4,
            EntityStatusKind::Unknown5 => 5,
        }
    }

    /// The variant with the given wire discriminant, if any.
    pub fn from_discriminant(d: i8) -> (r: Option<EntityStatusKind>)
        ensures
            r == Self::spec_from_discriminant(d),
    {
        if d == 0 {
            Some(EntityStatusKind::NoStatus)
        } else if d == 2 {
            Some(EntityStatusKind::EntityHurt)
        } else if d == 3 {
            Some(EntityStatusKind::EntityDead)
        } else if d == 4 {
            Some(EntityStatusKind::Unknown4)
        } else if d == 5 {
            Some(EntityStatusKind::Unknown5)
        } else {
            None
        }
    }
}

impl Readable for EntityStatusKind {
    open spec fn read_defined(bytes: Seq<u8>) -> bool {
        true
    }

    open spec fn spec_read(bytes: Seq<u8>) -> Option<(EntityStatusKind, nat)> {
        match i8::spec_read(bytes) {
            Some((d, n)) => match EntityStatusKind::spec_from_discriminant(d) {
                Some(v) => Some((v, n)),
                None => None,
            },
            None => None,
        }
    }

    proof fn lemma_read_bounded(bytes: Seq<u8>) {
    }

    fn read(buffer: &mut Cursor, version: ProtocolVersion) -> (r: Result<EntityStatusKind, Error>) {
        let d = i8::read(buffer, version)?;
        match EntityStatusKind::from_discriminant(d) {
            Some(v) => Ok(v),
            None => Err(Error::UnknownVariant("EntityStatusKind")),
        }
    }
}

impl Writeable for EntityStatusKind {
    open spec fn write_defined(v: EntityStatusKind) -> bool {
        true
    }

    open spec fn spec_write(v: EntityStatusKind) -> Option<Seq<u8>> {
        i8::spec_write(v.spec_discriminant())
    }

    fn write(&self, buffer: &mut Vec<u8>, version: ProtocolVersion) -> (r: Result<(), Error>) {
        self.discriminant().write(buffer, version)
    }
}

impl WireFormat for EntityStatusKind {
    open spec fn round_trips(v: EntityStatusKind) -> bool {
        true
    }

    proof fn lemma_round_trip(v: EntityStatusKind, extra: Seq<u8>) {
        i8::lemma_round_trip(v.spec_discriminant(), extra);
    }
}

/// Sound and particle effects. Sent as an `i32` discriminant.
#[derive(Clone, Copy, Debug, PartialEq, Eq)]
pub enum SoundEffectKind {
    Click2,
    Click1,
    BowFire,
    DoorToggle,
    Extinguish,
    RecordPlay,
    Smoke,
    BlockBreak,
}

impl DeepView for SoundEffectKind {
    type V = SoundEffectKind;

    open spec fn deep_view(&self) -> SoundEffectKind {
        *self
    }
}

impl SoundEffectKind {
    pub open spec fn spec_discriminant(self) -> i32 {
        match self {
            SoundEffectKind::Click2 => 1000i32,
            SoundEffectKind::Click1 => 1001i32,
            SoundEffectKind::BowFire => 1002i32,
            SoundEffectKind::DoorToggle => 1003i32,
            SoundEffectKind::Extinguish => 1004i32,
            SoundEffectKind::RecordPlay => 1005i32,
            SoundEffectKind::Smoke => 2000i32,
            SoundEffectKind::BlockBreak => 2001i32,
        }
    }

    pub open spec fn spec_from_discriminant(d: i32) -> Option<SoundEffectKind> {
        if d == 1000i32 {
            Some(SoundEffectKind::Click2)
        } else if d == 1001i32 {
            Some(SoundEffectKind::Click1)
        } else if d == 1002i32 {
            Some(SoundEffectKind::BowFire)
        } else if d == 1003i32 {
            Some(SoundEffectKind::DoorToggle)
        } else if d == 1004i32 {
            Some(SoundEffectKind::Extinguish)
        } else if d == 1005i32 {
            Some(SoundEffectKind::RecordPlay)
        } else if d == 2000i32 {
            Some(SoundEffectKind::Smoke)
        } else if d == 2001i32 {
            Some(SoundEffectKind::BlockBreak)
        } else {
            None
        }
    }

    /// The wire discriminant of this variant.
    pub fn discriminant(self) -> (r: i32)
        ensures
            r == self.spec_discriminant(),
    {
        match self {
            SoundEffectKind::Click2 => 1000,
            SoundEffectKind::Click1 => 1001,
            SoundEffectKind::BowFire => 1002,
            SoundEffectKind::DoorToggle => 1003,
            SoundEffectKind::Extinguish => 1004,
            SoundEffectKind::RecordPlay => 1005,
            SoundEffectKind::Smoke => 2000,
            SoundEffectKind::BlockBreak => 2001,
        }
    }

    /// The variant with the given wire discriminant, if any.
    pub fn from_discriminant(d: i32) -> (r: Option<SoundEffectKind>)
        ensures
            r == Self::spec_from_discriminant(d),
    {
        if d == 1000 {
            Some(SoundEffectKind::Click2)
        } else if d == 1001 {
            Some(SoundEffectKind::Click1)
        } else if d == 1002 {
            Some(SoundEffectKind::BowFire)
        } else if d == 1003 {
            Some(SoundEffectKind::DoorToggle)
        } else if d == 1004 {
            Some(SoundEffectKind::Extinguish)
        } else if d == 1005 {
            Some(SoundEffectKind::RecordPlay)
        } else if d == 2000 {
            Some(SoundEffectKind::Smoke)
        } else if d == 2001 {
            Some(SoundEffectKind::BlockBreak)
        } else {
            None
        }
    }
}

impl Readable for SoundEffectKind {
    open spec fn read_defined(bytes: Seq<u8>) -> bool {
        true
    }

    open spec fn spec_read(bytes: Seq<u8>) -> Option<(SoundEffectKind, nat)> {
        match i32::spec_read(bytes) {
            Some((d, n)) => match SoundEffectKind::spec_from_discriminant(d) {
                Some(v) => Some((v, n)),
                None => None,
            },
            None => None,
        }
    }

    proof fn lemma_read_bounded(bytes: Seq<u8>) {
    }

    fn read(buffer: &mut Cursor, version: ProtocolVersion) -> (r: Result<SoundEffectKind, Error>) {
        let d = i32::read(buffer, version)?;
        match SoundEffectKind::from_discriminant(d) {
            Some(v) => Ok(v),
            None => Err(Error::UnknownVariant("SoundEffectKind")),
        }
    }
}

impl Writeable for SoundEffectKind {
    open spec fn write_defined(v: SoundEffectKind) -> bool {
        true
    }

    open spec fn spec_write(v: SoundEffectKind) -> Option<Seq<u8>> {
        i32::spec_write(v.spec_discriminant())
    }

    fn write(&self, buffer: &mut Vec<u8>, version: ProtocolVersion) -> (r: Result<(), Error>) {
        self.discriminant().write(buffer, version)
    }
}

impl WireFormat for SoundEffectKind {
    open spec fn round_trips(v: SoundEffectKind) -> bool {
        true
    }

    proof fn lemma_round_trip(v: SoundEffectKind, extra: Seq<u8>) {
        i32::lemma_round_trip(v.spec_discriminant(), extra);
    }
}

/// What a digging packet reports. Sent as an `i8` discriminant.
#[derive(Clone, Copy, Debug, PartialEq, Eq)]
pub enum DiggingStatus {
    StartedDigging,
    FinishedDigging,
    DropItem,
    ShootArrow,
}

impl DeepView for DiggingStatus {
    type V = DiggingStatus;

    open spec fn deep_view(&self) -> DiggingStatus {
        *self
    }
}

impl DiggingStatus {
    pub open spec fn spec_discriminant(self) -> i8 {
        match self {
            DiggingStatus::StartedDigging => 0i8,
            DiggingStatus::FinishedDigging => 2i8,
            DiggingStatus::DropItem => 4i8,
            DiggingStatus::ShootArrow => 5i8,
        }
    }

    pub open spec fn spec_from_discriminant(d: i8) -> Option<DiggingStatus> {
        if d == 0i8 {
            Some(DiggingStatus::StartedDigging)
        } else if d == 2i8 {
            Some(DiggingStatus::FinishedDigging)
        } else if d == 4i8 {
            Some(DiggingStatus::DropItem)
        } else if d == 5i8 {
            Some(DiggingStatus::ShootArrow)
        } else {
            None
        }
    }

    /// The wire discriminant of this variant.
    pub fn discriminant(self) -> (r: i8)
        ensures
            r == self.spec_discriminant(),
    {
        match self {
            DiggingStatus::StartedDigging => 0,
            DiggingStatus::FinishedDigging => 2,
            DiggingStatus::DropItem => 4,
            DiggingStatus::ShootArrow => 5,
        }
    }

    /// The variant with the given wire discriminant, if any.
    pub fn from_discriminant(d: i8) -> (r: Option<DiggingStatus>)
        ensures
            r == Self::spec_from_discriminant(d),
    {
        if d == 0 {
            Some(DiggingStatus::StartedDigging)
        } else if d == 2 {
            Some(DiggingStatus::FinishedDigging)
        } else if d == 4 {
            Some(DiggingStatus::DropItem)
        } else if d == 5 {
            Some(DiggingStatus::ShootArrow)
        } else {
            None
        }
    }
}

impl Readable for DiggingStatus {
    open spec fn read_defined(bytes: Seq<u8>) -> bool {
        true
    }

    open spec fn spec_read(bytes: Seq<u8>) -> Option<(DiggingStatus, nat)> {
        match i8::spec_read(bytes) {
            Some((d, n)) => match DiggingStatus::spec_from_discriminant(d) {
                Some(v) => Some((v, n)),
                None => None,
            },
            None => None,
        }
    }

    proof fn lemma_read_bounded(bytes: Seq<u8>) {
    }

    fn read(buffer: &mut Cursor, version: ProtocolVersion) -> (r: Result<DiggingStatus, Error>) {
        let d = i8::read(buffer, version)?;
        match DiggingStatus::from_discriminant(d) {
            Some(v) => Ok(v),
            None => Err(Error::UnknownVariant("DiggingStatus")),
        }
    }
}

impl Writeable for DiggingStatus {
    open spec fn write_defined(v: DiggingStatus) -> bool {
        true
    }

    open spec fn spec_write(v: DiggingStatus) -> Option<Seq<u8>> {
        i8::spec_write(v.spec_discriminant())
    }

    fn write(&self, buffer: &mut Vec<u8>, version: ProtocolVersion) -> (r: Result<(), Error>) {
        self.discriminant().write(buffer, version)
    }
}

impl WireFormat for DiggingStatus {
    open spec fn round_trips(v: DiggingStatus) -> bool {
        true
    }

    proof fn lemma_round_trip(v: DiggingStatus, extra: Seq<u8>) {
        i8::lemma_round_trip(v.spec_discriminant(), extra);
    }
}

/// A face of a block. Sent as an `i8` discriminant.
#[derive(Clone, Copy, Debug, PartialEq, Eq)]
pub enum Face {
    Invalid,
    NegativeY,
    PositiveY,
    NegativeZ,
    PositiveZ,
    NegativeX,
    PositiveX,
}

impl DeepView for Face {
    type V = Face;

    open spec fn deep_view(&self) -> Face {
        *self
    }
}

impl Face {
    pub open spec fn spec_discriminant(self) -> i8 {
        match self {
            Face::Invalid => -1i8,
            Face::NegativeY => 0i8,
            Face::PositiveY => 1i8,
            Face::NegativeZ => 2i8,
            Face::PositiveZ => 3i8,
            Face::NegativeX => 4i8,
            Face::PositiveX => 5i8,
        }
    }

    pub open spec fn spec_from_discriminant(d: i8) -> Option<Face> {
        if d == -1i8 {
            Some(Face::Invalid)
        } else if d == 0i8 {
            Some(Face::NegativeY)
        } else if d == 1i8 {
            Some(Face::PositiveY)
        } else if d == 2i8 {
            Some(Face::NegativeZ)
        } else if d == 3i8 {
            Some(Face::PositiveZ)
        } else if d == 4i8 {
            Some(Face::NegativeX)
        } else if d == 5i8 {
            Some(Face::PositiveX)
        } else {
            None
        }
    }

    /// The wire discriminant of this variant.
    pub fn discriminant(self) -> (r: i8)
        ensures
            r == self.spec_discriminant(),
    {
        match self {
            Face::Invalid => -1,
            Face::NegativeY => 0,
            Face::PositiveY => 1,
            Face::NegativeZ => 2,
            Face::PositiveZ => 3,
            Face::NegativeX => 4,
            Face::PositiveX => 5,
        }
    }

    /// The variant with the given wire discriminant, if any.
    pub fn from_discriminant(d: i8) -> (r: Option<Face>)
        ensures
            r == Self::spec_from_discriminant(d),
    {
        if d == -1 {
            Some(Face::Invalid)
        } else if d == 0 {
            Some(Face::NegativeY)
        } else if d == 1 {
            Some(Face::PositiveY)
        } else if d == 2 {
            Some(Face::NegativeZ)
        } else if d == 3 {
            Some(Face::PositiveZ)
        } else if d == 4 {
            Some(Face::NegativeX)
        } else if d == 5 {
            Some(Face::PositiveX)
        } else {
            None
        }
    }
}

impl Readable for Face {
    open spec fn read_defined(bytes: Seq<u8>) -> bool {
        true
    }

    open spec fn spec_read(bytes: Seq<u8>) -> Option<(Face, nat)> {
        match i8::spec_read(bytes) {
            Some((d, n)) => match Face::spec_from_discriminant(d) {
                Some(v) => Some((v, n)),
                None => None,
            },
            None => None,
        }
    }

    proof fn lemma_read_bounded(bytes: Seq<u8>) {
    }

    fn read(buffer: &mut Cursor, version: ProtocolVersion) -> (r: Result<Face, Error>) {
        let d = i8::read(buffer, version)?;
        match Face::from_discriminant(d) {
            Some(v) => Ok(v),
            None => Err(Error::UnknownVariant("Face")),
        }
    }
}

impl Writeable for Face {
    open spec fn write_defined(v: Face) -> bool {
        true
    }

    open spec fn spec_write(v: Face) -> Option<Seq<u8>> {
        i8::spec_write(v.spec_discriminant())
    }

    fn write(&self, buffer: &mut Vec<u8>, version: ProtocolVersion) -> (r: Result<(), Error>) {
        self.discriminant().write(buffer, version)
    }
}

impl WireFormat for Face {
    open spec fn round_trips(v: Face) -> bool {
        true
    }

    proof fn lemma_round_trip(v: Face, extra: Seq<u8>) {
        i8::lemma_round_trip(v.spec_discriminant(), extra);
    }
}

/// Entity animations. Sent as an `i8` discriminant.
#[derive(Clone, Copy, Debug, PartialEq, Eq)]
pub enum EntityAnimationType {
    NoAnimation,
    SwingArm,
    Damage,
    LeaveBed,
    Crouch,
    Uncrouch,
    Unknown,
}

impl DeepView for EntityAnimationType {
    type V = EntityAnimationType;

    open spec fn deep_view(&self) -> EntityAnimationType {
        *self
    }
}

impl EntityAnimationType {
    pub open spec fn spec_discriminant(self) -> i8 {
        match self {
            EntityAnimationType::NoAnimation => 0i8,
            EntityAnimationType::SwingArm => 1i8,
            EntityAnimationType::Damage => 2i8,
            EntityAnimationType::LeaveBed => 3i8,
            EntityAnimationType::Crouch => 104i8,
            EntityAnimationType::Uncrouch => 105i8,
            EntityAnimationType::Unknown => 102i8,
        }
    }

    pub open spec fn spec_from_discriminant(d: i8) -> Option<EntityAnimationType> {
        if d == 0i8 {
            Some(EntityAnimationType::NoAnimation)
        } else if d == 1i8 {
            Some(EntityAnimationType::SwingArm)
        } else if d == 2i8 {
            Some(EntityAnimationType::Damage)
        } else if d == 3i8 {
            Some(EntityAnimationType::LeaveBed)
        } else if d == 104i8 {
            Some(EntityAnimationType::Crouch)
        } else if d == 105i8 {
            Some(EntityAnimationType::Uncrouch)
        } else if d == 102i8 {
            Some(EntityAnimationType::Unknown)
        } else {
            None
        }
    }

    /// The wire discriminant of this variant.
    pub fn discriminant(self) -> (r: i8)
        ensures
            r == self.spec_discriminant(),
    {
        match self {
            EntityAnimationType::NoAnimation => 0,
            EntityAnimationType::SwingArm => 1,
            EntityAnimationType::Damage => 2,
            EntityAnimationType::LeaveBed => 3,
            EntityAnimationType::Crouch => 104,
            EntityAnimationType::Uncrouch => 105,
            EntityAnimationType::Unknown => 102,
        }
    }

    /// The variant with the given wire discriminant, if any.
    pub fn from_discriminant(d: i8) -> (r: Option<EntityAnimationType>)
        ensures
            r == Self::spec_from_discriminant(d),
    {
        if d == 0 {
            Some(EntityAnimationType::NoAnimation)
        } else if d == 1 {
            Some(EntityAnimationType::SwingArm)
        } else if d == 2 {
            Some(EntityAnimationType::Damage)
        } else if d == 3 {
            Some(EntityAnimationType::LeaveBed)
        } else if d == 104 {
            Some(EntityAnimationType::Crouch)
        } else if d == 105 {
            Some(EntityAnimationType::Uncrouch)
        } else if d == 102 {
            Some(EntityAnimationType::Unknown)
        } else {
            None
        }
    }
}

impl Readable for EntityAnimationType {
    open spec fn read_defined(bytes: Seq<u8>) -> bool {
        true
    }

    open spec fn spec_read(bytes: Seq<u8>) -> Option<(EntityAnimationType, nat)> {
        match i8::spec_read(bytes) {
            Some((d, n)) => match EntityAnimationType::spec_from_discriminant(d) {
                Some(v) => Some((v, n)),
                None => None,
            },
            None => None,
        }
    }

    proof fn lemma_read_bounded(bytes: Seq<u8>) {
    }

    fn read(buffer: &mut Cursor, version: ProtocolVersion) -> (r: Result<EntityAnimationType, Error>) {
        let d = i8::read(buffer, version)?;
        match EntityAnimationType::from_discriminant(d) {
            Some(v) => Ok(v),
            None => Err(Error::UnknownVariant("EntityAnimationType")),
        }
    }
}

impl Writeable for EntityAnimationType {
    open spec fn write_defined(v: EntityAnimationType) -> bool {
        true
    }

    open spec fn spec_write(v: EntityAnimationType) -> Option<Seq<u8>> {
        i8::spec_write(v.spec_discriminant())
    }

    fn write(&self, buffer: &mut Vec<u8>, version: ProtocolVersion) -> (r: Result<(), Error>) {
        self.discriminant().write(buffer, version)
    }
}

impl WireFormat for EntityAnimationType {
    open spec fn round_trips(v: EntityAnimationType) -> bool {
        true
    }

    proof fn lemma_round_trip(v: EntityAnimationType, extra: Seq<u8>) {
        i8::lemma_round_trip(v.spec_discriminant(), extra);
    }
}

/// Potion effects. Sent as an `i8` discriminant.
#[derive(Clone, Copy, Debug, PartialEq, Eq)]
pub enum EntityEffectKind {
    MoveSpeed,
    MoveSlowdown,
    DigSpeed,
    DigSlowdown,
    DamageBoost,
    Heal,
    Harm,
    Jump,
    Confusion,
    Regeneration,
    Resistance,
    FireResistance,
    WaterBreathing,
    Invisibility,
    Blindness,
    NightVision,
    Hunger,
    Weakness,
    Poison,
}

impl DeepView for EntityEffectKind {
    type V = EntityEffectKind;

    open spec fn deep_view(&self) -> EntityEffectKind {
        *self
    }
}

impl EntityEffectKind {
    pub open spec fn spec_discriminant(self) -> i8 {
        match self {
            EntityEffectKind::MoveSpeed => 1i8,
            EntityEffectKind::MoveSlowdown => 2i8,
            EntityEffectKind::DigSpeed => 3i8,
            EntityEffectKind::DigSlowdown => 4i8,
            EntityEffectKind::DamageBoost => 5i8,
            EntityEffectKind::Heal => 6i8,
            EntityEffectKind::Harm => 7i8,
            EntityEffectKind::Jump => 8i8,
            EntityEffectKind::Confusion => 9i8,
            EntityEffectKind::Regeneration => 10i8,
            EntityEffectKind::Resistance => 11i8,
            EntityEffectKind::FireResistance => 12i8,
            EntityEffectKind::WaterBreathing => 13i8,
            EntityEffectKind::Invisibility => 14i8,
            EntityEffectKind::Blindness => 15i8,
            EntityEffectKind::NightVision => 16i8,
            EntityEffectKind::Hunger => 17i8,
            EntityEffectKind::Weakness => 18i8,
            EntityEffectKind::Poison => 19i8,
        }
    }

    pub open spec fn spec_from_discriminant(d: i8) -> Option<EntityEffectKind> {
        if d == 1i8 {
            Some(EntityEffectKind::MoveSpeed)
        } else if d == 2i8 {
            Some(EntityEffectKind::MoveSlowdown)
        } else if d == 3i8 {
            Some(EntityEffectKind::DigSpeed)
        } else if d == 4i8 {
            Some(EntityEffectKind::DigSlowdown)
        } else if d == 5i8 {
            Some(EntityEffectKind::DamageBoost)
        } else if d == 6i8 {
            Some(EntityEffectKind::Heal)
        } else if d == 7i8 {
            Some(EntityEffectKind::Harm)
        } else if d == 8i8 {
            Some(EntityEffectKind::Jump)
        } else if d == 9i8 {
            Some(EntityEffectKind::Confusion)
        } else if d == 10i8 {
            Some(EntityEffectKind::Regeneration)
        } else if d == 11i8 {
            Some(EntityEffectKind::Resistance)
        } else if d == 12i8 {
            Some(EntityEffectKind::FireResistance)
        } else if d == 13i8 {
            Some(EntityEffectKind::WaterBreathing)
        } else if d == 14i8 {
            Some(EntityEffectKind::Invisibility)
        } else if d == 15i8 {
            Some(EntityEffectKind::Blindness)
        } else if d == 16i8 {
            Some(EntityEffectKind::NightVision)
        } else if d == 17i8 {
            Some(EntityEffectKind::Hunger)
        } else if d == 18i8 {
            Some(EntityEffectKind::Weakness)
        } else if d == 19i8 {
            Some(EntityEffectKind::Poison)
        } else {
            None
        }
    }

    /// The wire discriminant of this variant.
    pub fn discriminant(self) -> (r: i8)
        ensures
            r == self.spec_discriminant(),
    {
        match self {
            EntityEffectKind::MoveSpeed => 1,
            EntityEffectKind::MoveSlowdown => 2,
            EntityEffectKind::DigSpeed => 3,
            EntityEffectKind::DigSlowdown => 4,
            EntityEffectKind::DamageBoost => 5,
            EntityEffectKind::Heal => 6,
            EntityEffectKind::Harm => 7,
            EntityEffectKind::Jump => 8,
            EntityEffectKind::Confusion => 9,
            EntityEffectKind::Regeneration => 10,
            EntityEffectKind::Resistance => 11,
            EntityEffectKind::FireResistance => 12,
            EntityEffectKind::WaterBreathing => 13,
            EntityEffectKind::Invisibility => 14,
            EntityEffectKind::Blindness => 15,
            EntityEffectKind::NightVision => 16,
            EntityEffectKind::Hunger => 17,
            EntityEffectKind::Weakness => 18,
            EntityEffectKind::Poison => 19,
        }
    }

    /// The variant with the given wire discriminant, if any.
    pub fn from_discriminant(d: i8) -> (r: Option<EntityEffectKind>)
        ensures
            r == Self::spec_from_discriminant(d),
    {
        if d == 1 {
            Some(EntityEffectKind::MoveSpeed)
        } else if d == 2 {
            Some(EntityEffectKind::MoveSlowdown)
        } else if d == 3 {
            Some(EntityEffectKind::DigSpeed)
        } else if d == 4 {
            Some(EntityEffectKind::DigSlowdown)
        } else if d == 5 {
            Some(EntityEffectKind::DamageBoost)
        } else if d == 6 {
            Some(EntityEffectKind::Heal)
        } else if d == 7 {
            Some(EntityEffectKind::Harm)
        } else if d == 8 {
            Some(EntityEffectKind::Jump)
        } else if d == 9 {
            Some(EntityEffectKind::Confusion)
        } else if d == 10 {
            Some(EntityEffectKind::Regeneration)
        } else if d == 11 {
            Some(EntityEffectKind::Resistance)
        } else if d == 12 {
            Some(EntityEffectKind::FireResistance)
        } else if d == 13 {
            Some(EntityEffectKind::WaterBreathing)
        } else if d == 14 {
            Some(EntityEffectKind::Invisibility)
        } else if d == 15 {
            Some(EntityEffectKind::Blindness)
        } else if d == 16 {
            Some(EntityEffectKind::NightVision)
        } else if d == 17 {
            Some(EntityEffectKind::Hunger)
        } else if d == 18 {
            Some(EntityEffectKind::Weakness)
        } else if d == 19 {
            Some(EntityEffectKind::Poison)
        } else {
            None
        }
    }
}

impl Readable for EntityEffectKind {
    open spec fn read_defined(bytes: Seq<u8>) -> bool {
        true
    }

    open spec fn spec_read(bytes: Seq<u8>) -> Option<(EntityEffectKind, nat)> {
        match i8::spec_read(bytes) {
            Some((d, n)) => match EntityEffectKind::spec_from_discriminant(d) {
                Some(v) => Some((v, n)),
                None => None,
            },
            None => None,
        }
    }

    proof fn lemma_read_bounded(bytes: Seq<u8>) {
    }

    fn read(buffer: &mut Cursor, version: ProtocolVersion) -> (r: Result<EntityEffectKind, Error>) {
        let d = i8::read(buffer, version)?;
        match EntityEffectKind::from_discriminant(d) {
            Some(v) => Ok(v),
            None => Err(Error::UnknownVariant("EntityEffectKind")),
        }
    }
}

impl Writeable for EntityEffectKind {
    open spec fn write_defined(v: EntityEffectKind) -> bool {
        true
    }

    open spec fn spec_write(v: EntityEffectKind) -> Option<Seq<u8>> {
        i8::spec_write(v.spec_discriminant())
    }

    fn write(&self, buffer: &mut Vec<u8>, version: ProtocolVersion) -> (r: Result<(), Error>) {
        self.discriminant().write(buffer, version)
    }
}

impl WireFormat for EntityEffectKind {
    open spec fn round_trips(v: EntityEffectKind) -> bool {
        true
    }

    proof fn lemma_round_trip(v: EntityEffectKind, extra: Seq<u8>) {
        i8::lemma_round_trip(v.spec_discriminant(), extra);
    }
}

/// Actions a player reports. Sent as an `i8` discriminant.
#[derive(Clone, Copy, Debug, PartialEq, Eq)]
pub enum EntityActionKind {
    StartSneaking,
    StopSneaking,
    LeaveBed,
    StartSprinting,
    StopSprinting,
}

impl DeepView for EntityActionKind {
    type V = EntityActionKind;

    open spec fn deep_view(&self) -> EntityActionKind {
        *self
    }
}

impl EntityActionKind {
    pub open spec fn spec_discriminant(self) -> i8 {
        match self {
            EntityActionKind::StartSneaking => 1i8,
            EntityActionKind::StopSneaking => 2i8,
            EntityActionKind::LeaveBed => 3i8,
            EntityActionKind::StartSprinting => 4i8,
            EntityActionKind::StopSprinting => 5i8,
        }
    }

    pub open spec fn spec_from_discriminant(d: i8) -> Option<EntityActionKind> {
        if d == 1i8 {
            Some(EntityActionKind::StartSneaking)
        } else if d == 2i8 {
            Some(EntityActionKind::StopSneaking)
        } else if d == 3i8 {
            Some(EntityActionKind::LeaveBed)
        } else if d == 4i8 {
            Some(EntityActionKind::StartSprinting)
        } else if d == 5i8 {
            Some(EntityActionKind::StopSprinting)
        } else {
            None
        }
    }

    /// The wire discriminant of this variant.
    pub fn discriminant(self) -> (r: i8)
        ensures
            r == self.spec_discriminant(),
    {
        match self {
            EntityActionKind::StartSneaking => 1,
            EntityActionKind::StopSneaking => 2,
            EntityActionKind::LeaveBed => 3,
            EntityActionKind::StartSprinting => 4,
            EntityActionKind::StopSprinting => 5,
        }
    }

    /// The variant with the given wire discriminant, if any.
    pub fn from_discriminant(d: i8) -> (r: Option<EntityActionKind>)
        ensures
            r == Self::spec_from_discriminant(d),
    {
        if d == 1 {
            Some(EntityActionKind::StartSneaking)
        } else if d == 2 {
            Some(EntityActionKind::StopSneaking)
        } else if d == 3 {
            Some(EntityActionKind::LeaveBed)
        } else if d == 4 {
            Some(EntityActionKind::StartSprinting)
        } else if d == 5 {
            Some(EntityActionKind::StopSprinting)
        } else {
            None
        }
    }
}

impl Readable for EntityActionKind {
    open spec fn read_defined(bytes: Seq<u8>) -> bool {
        true
    }

    open spec fn spec_read(bytes: Seq<u8>) -> Option<(EntityActionKind, nat)> {
        match i8::spec_read(bytes) {
            Some((d, n)) => match EntityActionKind::spec_from_discriminant(d) {
                Some(v) => Some((v, n)),
                None => None,
            },
            None => None,
        }
    }

    proof fn lemma_read_bounded(bytes: Seq<u8>) {
    }

    fn read(buffer: &mut Cursor, version: ProtocolVersion) -> (r: Result<EntityActionKind, Error>) {
        let d = i8::read(buffer, version)?;
        match EntityActionKind::from_discriminant(d) {
            Some(v) => Ok(v),
            None => Err(Error::UnknownVariant("EntityActionKind")),
        }
    }
}

impl Writeable for EntityActionKind {
    open spec fn write_defined(v: EntityActionKind) -> bool {
        true
    }

    open spec fn spec_write(v: EntityActionKind) -> Option<Seq<u8>> {
        i8::spec_write(v.spec_discriminant())
    }

    fn write(&self, buffer: &mut Vec<u8>, version: ProtocolVersion) -> (r: Result<(), Error>) {
        self.discriminant().write(buffer, version)
    }
}

impl WireFormat for EntityActionKind {
    open spec fn round_trips(v: EntityActionKind) -> bool {
        true
    }

    proof fn lemma_round_trip(v: EntityActionKind, extra: Seq<u8>) {
        i8::lemma_round_trip(v.spec_discriminant(), extra);
    }
}

impl Face {
    pub open spec fn spec_reverse(self) -> Face {
        match self {
            Face::NegativeY => Face::PositiveY,
            Face::PositiveY => Face::NegativeY,
            Face::PositiveX => Face::NegativeX,
            Face::NegativeX => Face::PositiveX,
            Face::PositiveZ => Face::NegativeZ,
            Face::NegativeZ => Face::PositiveZ,
            Face::Invalid => Face::Invalid,
        }
    }

    /// The face on the opposite side of a block.
    pub fn reverse(self) -> (r: Self)
        ensures
            r == self.spec_reverse(),
    {
        match self {
            Self::NegativeY => Self::PositiveY,
            Self::PositiveY => Self::NegativeY,
            Self::PositiveX => Self::NegativeX,
            Self::NegativeX => Self::PositiveX,
            Self::PositiveZ => Self::NegativeZ,
            Self::NegativeZ => Self::PositiveZ,
            Face::Invalid => Self::Invalid,
        }
    }

    pub open spec fn spec_all_faces() -> Seq<Face> {
        seq![
            Face::NegativeY,
            Face::PositiveY,
            Face::NegativeZ,
            Face::PositiveZ,
            Face::NegativeX,
            Face::PositiveX,
        ]
    }

    /// The six real faces, in discriminant order.
    pub fn all_faces() -> (r: Vec<Face>)
        ensures
            r@ == Self::spec_all_faces(),
    {
        let r = vec![
            Face::NegativeY,
            Face::PositiveY,
            Face::NegativeZ,
            Face::PositiveZ,
            Face::NegativeX,
            Face::PositiveX,
        ];
        assert(r@ =~= Self::spec_all_faces());
        r
    }

    pub open spec fn spec_offset(self, pos: BlockPosition) -> BlockPosition {
        match self {
            Face::Invalid => pos,
            Face::NegativeY => pos.spec_offset(0, -1, 0),
            Face::PositiveY => pos.spec_offset(0, 1, 0),
            Face::NegativeZ => pos.spec_offset(0, 0, -1),
            Face::PositiveZ => pos.spec_offset(0, 0, 1),
            Face::NegativeX => pos.spec_offset(-1, 0, 0),
            Face::PositiveX => pos.spec_offset(1, 0, 0),
        }
    }

    /// Whether the coordinate that this face moves can move one step
    /// within `i32`.
    pub open spec fn offset_fits(self, pos: BlockPosition) -> bool {
        match self {
            Face::Invalid => true,
            Face::NegativeY => pos.y > i32::MIN,
            Face::PositiveY => pos.y < i32::MAX,
            Face::NegativeZ => pos.z > i32::MIN,
            Face::PositiveZ => pos.z < i32::MAX,
            Face::NegativeX => pos.x > i32::MIN,
            Face::PositiveX => pos.x < i32::MAX,
        }
    }

    /// The neighbouring position across this face; `Invalid` stays put.
    pub fn offset(&self, pos: BlockPosition) -> (r: BlockPosition)
        requires
            self.offset_fits(pos),
        ensures
            r == self.spec_offset(pos),
    {
        let mut pos = pos;
        match self {
            Face::Invalid => (),
            Face::NegativeY => pos.y = pos.y - 1,
            Face::PositiveY => pos.y = pos.y + 1,
            Face::NegativeZ => pos.z = pos.z - 1,
            Face::PositiveZ => pos.z = pos.z + 1,
            Face::NegativeX => pos.x = pos.x - 1,
            Face::PositiveX => pos.x = pos.x + 1,
        };
        pos
    }
}

/// Reversing a face twice gives the face back.
pub proof fn law_reverse_involution(f: Face)
    ensures
        f.spec_reverse().spec_reverse() == f,
{
}

/// Stepping across a face and back across its reverse returns to the start.
pub proof fn law_offset_then_reverse(f: Face, pos: BlockPosition)
    requires
        f.offset_fits(pos),
    ensures
        f.spec_reverse().offset_fits(f.spec_offset(pos)),
        f.spec_reverse().spec_offset(f.spec_offset(pos)) == pos,
{
}

/// Every real face is one of the six, and they are all different.
pub proof fn law_all_faces_distinct(i: int, j: int)
    requires
        0 <= i < j < 6,
    ensures
        Face::spec_all_faces()[i] != Face::spec_all_faces()[j],
        Face::spec_all_faces()[i] != Face::Invalid,
{
}

/// Implemented by packets that are one variant of a packet enum.
pub trait VariantOf<Enum>: Sized {
    /// The packet id of this variant.
    spec fn spec_discriminant_id() -> u8;

    /// The packet inside `e` when `e` is this variant, else `None`.
    spec fn spec_destructure(e: Enum) -> Option<Self>;

    /// The packet id of this variant.
    fn discriminant_id() -> (r: u8)
        ensures
            r == Self::spec_discriminant_id(),
    ;

    /// The packet, if `e` is this variant.
    fn destructure(e: Enum) -> (r: Option<Self>)
        ensures
            r == Self::spec_destructure(e),
    ;
}

} // verus!
