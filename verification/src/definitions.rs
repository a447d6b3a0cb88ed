//! Static game definitions as they appear in packet data: character classes,
//! hit classification, trigger signals and raid bosses.

use vstd::prelude::*;

pub mod stat_type;
pub mod trigger_signal;

verus! {

/// Optional data attached to a skill cast; every field is present only when its
/// bit is set in the leading flag byte.
#[derive(Debug, Clone, Copy, PartialEq, Eq, Structural)]
pub struct SkillOptionData {
    pub layer_index: Option<u8>,
    pub start_stage_index: Option<u8>,
    pub transit_index: Option<u32>,
    pub stage_start_time: Option<u32>,
    pub farmost_dist: Option<u32>,
    pub tripod_index: Option<TripodIndex>,
    pub tripod_level: Option<TripodLevel>,
}

/// Optional movement data attached to a damage event.
#[derive(Debug, Clone, Copy, PartialEq, Eq, Structural)]
pub struct SkillMoveOptionData {
    pub move_time: Option<u32>,
    pub stand_up_time: Option<u32>,
    pub down_time: Option<u32>,
    pub freeze_time: Option<u32>,
    pub move_height: Option<u32>,
    pub farmost_dist: Option<u32>,
}

/// Optional data attached to a movement.
#[derive(Debug, Clone, Copy, PartialEq, Eq, Structural)]
pub struct MoveOptionData {
    pub modifier: Option<u8>,
    pub speed: Option<u32>,
    pub next_pos: Option<u64>,
}

#[derive(Debug, Clone, Copy, PartialEq, Eq, Structural)]
pub struct TripodIndex {
    pub first: u8,
    pub second: u8,
    pub third: u8,
}

#[derive(Debug, Clone, Copy, PartialEq, Eq, Structural)]
pub struct TripodLevel {
    pub first: u16,
    pub second: u16,
    pub third: u16,
}

impl SkillOptionData {
    /// The value with no field present.
    pub open spec fn empty() -> Self {
        SkillOptionData {
            layer_index: None,
            start_stage_index: None,
            transit_index: None,
            stage_start_time: None,
            farmost_dist: None,
            tripod_index: None,
            tripod_level: None,
        }
    }
}

impl Default for SkillOptionData {
    fn default() -> (r: Self)
        ensures
            r == Self::empty(),
    {
        SkillOptionData {
            layer_index: None,
            start_stage_index: None,
            transit_index: None,
            stage_start_time: None,
            farmost_dist: None,
            tripod_index: None,
            tripod_level: None,
        }
    }
}

impl SkillMoveOptionData {
    /// The value with no field present.
    pub open spec fn empty() -> Self {
        SkillMoveOptionData {
            move_time: None,
            stand_up_time: None,
            down_time: None,
            freeze_time: None,
            move_height: None,
            farmost_dist: None,
        }
    }
}

impl Default for SkillMoveOptionData {
    fn default() -> (r: Self)
        ensures
            r == Self::empty(),
    {
        SkillMoveOptionData {
            move_time: None,
            stand_up_time: None,
            down_time: None,
            freeze_time: None,
            move_height: None,
            farmost_dist: None,
        }
    }
}

impl MoveOptionData {
    /// The value with no field present.
    pub open spec fn empty() -> Self {
        MoveOptionData { modifier: None, speed: None, next_pos: None }
    }
}

impl Default for MoveOptionData {
    fn default() -> (r: Self)
        ensures
            r == Self::empty(),
    {
        MoveOptionData { modifier: None, speed: None, next_pos: None }
    }
}

/// A character class. Base classes and their advanced classes are both listed.
#[derive(Debug, Clone, Copy, PartialEq, Eq, Structural)]
pub enum Class {
    Warrior,
    Berserker,
    Destroyer,
    Gunlancer,
    Paladin,
    FemaleWarrior,
    Slayer,
    Mage,
    Arcanist,
    Summoner,
    Bard,
    Sorceress,
    MartialArtist,
    Wardancer,
    Scrapper,
    Soulfist,
    Glaivier,
    MaleMartialArtist,
    Striker,
    Assassin,
    Deathblade,
    Shadowhunter,
    Reaper,
    Souleater,
    Gunner,
    Sharpshooter,
    Deadeye,
    Artillerist,
    Scouter,
    FemaleGunner,
    Gunslinger,
    Specialist,
    Artist,
    Aeromancer,
    Unknown,
}

impl Class {
    /// The class that a numeric class id stands for; ids outside the table give `Unknown`.
    pub open spec fn of_id(id: u16) -> Class {
        match id {
            101 => Class::Warrior,
            201 => Class::Mage,
            301 => Class::MartialArtist,
            401 => Class::Assassin,
            501 => Class::Gunner,
            601 => Class::Specialist,
            102 => Class::Berserker,
            103 => Class::Destroyer,
            104 => Class::Gunlancer,
            105 => Class::Paladin,
            202 => Class::Arcanist,
            203 => Class::Summoner,
            204 => Class::Bard,
            205 => Class::Sorceress,
            302 => Class::Wardancer,
            303 => Class::Scrapper,
            304 => Class::Soulfist,
            305 => Class::Glaivier,
            402 => Class::Deathblade,
            403 => Class::Shadowhunter,
            404 => Class::Reaper,
            405 => Class::Souleater,
            502 => Class::Sharpshooter,
            503 => Class::Deadeye,
            504 => Class::Artillerist,
            505 => Class::Scouter,
            511 => Class::FemaleGunner,
            512 => Class::Gunslinger,
            311 => Class::MaleMartialArtist,
            312 => Class::Striker,
            602 => Class::Artist,
            603 => Class::Aeromancer,
            111 => Class::FemaleWarrior,
            112 => Class::Slayer,
            _ => Class::Unknown,
        }
    }

    /// Display colour as red, green, blue.
    pub open spec fn rgb(self) -> (u8, u8, u8) {
        match self {
            Class::Warrior => (0xff, 0xff, 0x00),
            Class::Berserker => (0xfe, 0xea, 0x30),
            Class::Destroyer => (0xb1, 0x5d, 0x42),
            Class::Gunlancer => (0xc9, 0x22, 0x57),
            Class::Paladin => (0xf8, 0xf3, 0x87),
            Class::FemaleWarrior => (0xff, 0xff, 0x00),
            Class::Slayer => (0x99, 0x00, 0x14),
            Class::Mage => (0x00, 0x00, 0xff),
            Class::Arcanist => (0x31, 0x8e, 0xff),
            Class::Summoner => (0x31, 0xdc, 0xff),
            Class::Bard => (0x8a, 0xc6, 0xf6),
            Class::Sorceress => (0x47, 0xa9, 0xf9),
            Class::MartialArtist => (0x00, 0xff, 0x7f),
            Class::Wardancer => (0x20, 0xe0, 0x1f),
            Class::Scrapper => (0x92, 0xdb, 0x1d),
            Class::Soulfist => (0x1f, 0xe0, 0x73),
            Class::Glaivier => (0x4e, 0xd5, 0x14),
            Class::MaleMartialArtist => (0x7f, 0xff, 0x00),
            Class::Striker => (0x0c, 0x8f, 0x26),
            Class::Assassin => (0x7f, 0x00, 0xff),
            Class::Deathblade => (0xac, 0x51, 0xf4),
            Class::Shadowhunter => (0x7b, 0x34, 0xdf),
            Class::Reaper => (0xa1, 0x31, 0xe1),
            Class::Souleater => (0xa8, 0x7f, 0xfa),
            Class::Gunner => (0xff, 0x00, 0x00),
            Class::Sharpshooter => (0xef, 0x31, 0x31),
            Class::Deadeye => (0xbb, 0x0b, 0x0b),
            Class::Artillerist => (0xe2, 0xa4, 0x50),
            Class::Scouter => (0xd6, 0x49, 0x21),
            Class::FemaleGunner => (0xff, 0x00, 0x7f),
            Class::Gunslinger => (0xe3, 0x77, 0x18),
            Class::Specialist => (0xff, 0x00, 0xff),
            Class::Artist => (0xea, 0x5a, 0xd9),
            Class::Aeromancer => (0xe1, 0x6f, 0x9f),
            Class::Unknown => (0xff, 0xff, 0xff),
        }
    }

    /// Position of the class in the icon sheet; `Unknown` has none.
    pub open spec fn icon_position(self) -> Option<usize> {
        match self {
            Class::Warrior => Some(0usize),
            Class::Berserker => Some(1usize),
            Class::Destroyer => Some(2usize),
            Class::Gunlancer => Some(3usize),
            Class::Paladin => Some(4usize),
            Class::FemaleWarrior => Some(5usize),
            Class::Slayer => Some(6usize),
            Class::Mage => Some(7usize),
            Class::Arcanist => Some(8usize),
            Class::Summoner => Some(9usize),
            Class::Bard => Some(10usize),
            Class::Sorceress => Some(11usize),
            Class::MartialArtist => Some(12usize),
            Class::Wardancer => Some(13usize),
            Class::Scrapper => Some(14usize),
            Class::Soulfist => Some(15usize),
            Class::Glaivier => Some(16usize),
            Class::MaleMartialArtist => Some(17usize),
            Class::Striker => Some(18usize),
            Class::Assassin => Some(19usize),
            Class::Deathblade => Some(20usize),
            Class::Shadowhunter => Some(21usize),
            Class::Reaper => Some(22usize),
            Class::Souleater => Some(23usize),
            Class::Gunner => Some(24usize),
            Class::Sharpshooter => Some(25usize),
            Class::Deadeye => Some(26usize),
            Class::Artillerist => Some(27usize),
            Class::Scouter => Some(28usize),
            Class::FemaleGunner => Some(29usize),
            Class::Gunslinger => Some(30usize),
            Class::Specialist => Some(31usize),
            Class::Artist => Some(32usize),
            Class::Aeromancer => Some(33usize),
            Class::Unknown => None,
        }
    }

    /// Display name of the class.
    pub open spec fn label(self) -> Seq<char> {
        match self {
            Class::Warrior => "Warrior"@,
            Class::Mage => "Mage"@,
            Class::MartialArtist => "Martial Artist"@,
            Class::Assassin => "Assassin"@,
            Class::Gunner => "Gunner"@,
            Class::Specialist => "Specialist"@,
            Class::Berserker => "Berserker"@,
            Class::Destroyer => "Destroyer"@,
            Class::Gunlancer => "Gunlancer"@,
            Class::Paladin => "Paladin"@,
            Class::Arcanist => "Arcanist"@,
            Class::Summoner => "Summoner"@,
            Class::Bard => "Bard"@,
            Class::Sorceress => "Sorceress"@,
            Class::Wardancer => "Wardancer"@,
            Class::Scrapper => "Scrapper"@,
            Class::Soulfist => "Soulfist"@,
            Class::Glaivier => "Glaivier"@,
            Class::Deathblade => "Deathblade"@,
            Class::Shadowhunter => "Shadowhunter"@,
            Class::Reaper => "Reaper"@,
            Class::Souleater => "Souleater"@,
            Class::Sharpshooter => "Sharpshooter"@,
            Class::Deadeye => "Deadeye"@,
            Class::Artillerist => "Artillerist"@,
            Class::Scouter => "Scouter"@,
            Class::FemaleGunner => "Female Gunner"@,
            Class::Gunslinger => "Gunslinger"@,
            Class::MaleMartialArtist => "Male Martial Artist"@,
            Class::Striker => "Striker"@,
            Class::Artist => "Artist"@,
            Class::Aeromancer => "Aeromancer"@,
            Class::FemaleWarrior => "Female Warrior"@,
            Class::Slayer => "Slayer"@,
            Class::Unknown => "UNKNOWN"@,
        }
    }

    pub fn from_id(id: u16) -> (class: Self)
        ensures
            class == Self::of_id(id),
    {
        match id {
            101 => Self::Warrior,
            201 => Self::Mage,
            301 => Self::MartialArtist,
            401 => Self::Assassin,
            501 => Self::Gunner,
            601 => Self::Specialist,
            102 => Self::Berserker,
            103 => Self::Destroyer,
            104 => Self::Gunlancer,
            105 => Self::Paladin,
            202 => Self::Arcanist,
            203 => Self::Summoner,
            204 => Self::Bard,
            205 => Self::Sorceress,
            302 => Self::Wardancer,
            303 => Self::Scrapper,
            304 => Self::Soulfist,
            305 => Self::Glaivier,
            402 => Self::Deathblade,
            403 => Self::Shadowhunter,
            404 => Self::Reaper,
            405 => Self::Souleater,
            502 => Self::Sharpshooter,
            503 => Self::Deadeye,
            504 => Self::Artillerist,
            505 => Self::Scouter,
            511 => Self::FemaleGunner,
            512 => Self::Gunslinger,
            311 => Self::MaleMartialArtist,
            312 => Self::Striker,
            602 => Self::Artist,
            603 => Self::Aeromancer,
            111 => Self::FemaleWarrior,
            112 => Self::Slayer,
            _ => Self::Unknown,
        }
    }

    pub fn color(&self) -> (rgb: (u8, u8, u8))
        ensures
            rgb == self.rgb(),
    {
        match self {
            Self::Warrior => (0xff, 0xff, 0x00),
            Self::Berserker => (0xfe, 0xea, 0x30),
            Self::Destroyer => (0xb1, 0x5d, 0x42),
            Self::Gunlancer => (0xc9, 0x22, 0x57),
            Self::Paladin => (0xf8, 0xf3, 0x87),
            Self::FemaleWarrior => (0xff, 0xff, 0x00),
            Self::Slayer => (0x99, 0x00, 0x14),
            Self::Mage => (0x00, 0x00, 0xff),
            Self::Arcanist => (0x31, 0x8e, 0xff),
            Self::Summoner => (0x31, 0xdc, 0xff),
            Self::Bard => (0x8a, 0xc6, 0xf6),
            Self::Sorceress => (0x47, 0xa9, 0xf9),
            Self::MartialArtist => (0x00, 0xff, 0x7f),
            Self::Wardancer => (0x20, 0xe0, 0x1f),
            Self::Scrapper => (0x92, 0xdb, 0x1d),
            Self::Soulfist => (0x1f, 0xe0, 0x73),
            Self::Glaivier => (0x4e, 0xd5, 0x14),
            Self::MaleMartialArtist => (0x7f, 0xff, 0x00),
            Self::Striker => (0x0c, 0x8f, 0x26),
            Self::Assassin => (0x7f, 0x00, 0xff),
            Self::Deathblade => (0xac, 0x51, 0xf4),
            Self::Shadowhunter => (0x7b, 0x34, 0xdf),
            Self::Reaper => (0xa1, 0x31, 0xe1),
            Self::Souleater => (0xa8, 0x7f, 0xfa),
            Self::Gunner => (0xff, 0x00, 0x00),
            Self::Sharpshooter => (0xef, 0x31, 0x31),
            Self::Deadeye => (0xbb, 0x0b, 0x0b),
            Self::Artillerist => (0xe2, 0xa4, 0x50),
            Self::Scouter => (0xd6, 0x49, 0x21),
            Self::FemaleGunner => (0xff, 0x00, 0x7f),
            Self::Gunslinger => (0xe3, 0x77, 0x18),
            Self::Specialist => (0xff, 0x00, 0xff),
            Self::Artist => (0xea, 0x5a, 0xd9),
            Self::Aeromancer => (0xe1, 0x6f, 0x9f),
            Self::Unknown => (0xff, 0xff, 0xff),
        }
    }

    pub fn icon_index(&self) -> (index: Option<usize>)
        ensures
            index == self.icon_position(),
            index matches Some(i) ==> i < 34,
    {
        match self {
            Class::Warrior => Some(0),
            Class::Berserker => Some(1),
            Class::Destroyer => Some(2),
            Class::Gunlancer => Some(3),
            Class::Paladin => Some(4),
            Class::FemaleWarrior => Some(5),
            Class::Slayer => Some(6),
            Class::Mage => Some(7),
            Class::Arcanist => Some(8),
            Class::Summoner => Some(9),
            Class::Bard => Some(10),
            Class::Sorceress => Some(11),
            Class::MartialArtist => Some(12),
            Class::Wardancer => Some(13),
            Class::Scrapper => Some(14),
            Class::Soulfist => Some(15),
            Class::Glaivier => Some(16),
            Class::MaleMartialArtist => Some(17),
            Class::Striker => Some(18),
            Class::Assassin => Some(19),
            Class::Deathblade => Some(20),
            Class::Shadowhunter => Some(21),
            Class::Reaper => Some(22),
            Class::Souleater => Some(23),
            Class::Gunner => Some(24),
            Class::Sharpshooter => Some(25),
            Class::Deadeye => Some(26),
            Class::Artillerist => Some(27),
            Class::Scouter => Some(28),
            Class::FemaleGunner => Some(29),
            Class::Gunslinger => Some(30),
            Class::Specialist => Some(31),
            Class::Artist => Some(32),
            Class::Aeromancer => Some(33),
            Class::Unknown => None,
        }
    }

    pub fn name(&self) -> (name: &'static str)
        ensures
            name@ == self.label(),
    {
        match self {
            Class::Warrior => "Warrior",
            Class::Mage => "Mage",
            Class::MartialArtist => "Martial Artist",
            Class::Assassin => "Assassin",
            Class::Gunner => "Gunner",
            Class::Specialist => "Specialist",
            Class::Berserker => "Berserker",
            Class::Destroyer => "Destroyer",
            Class::Gunlancer => "Gunlancer",
            Class::Paladin => "Paladin",
            Class::Arcanist => "Arcanist",
            Class::Summoner => "Summoner",
            Class::Bard => "Bard",
            Class::Sorceress => "Sorceress",
            Class::Wardancer => "Wardancer",
            Class::Scrapper => "Scrapper",
            Class::Soulfist => "Soulfist",
            Class::Glaivier => "Glaivier",
            Class::Deathblade => "Deathblade",
            Class::Shadowhunter => "Shadowhunter",
            Class::Reaper => "Reaper",
            Class::Souleater => "Souleater",
            Class::Sharpshooter => "Sharpshooter",
            Class::Deadeye => "Deadeye",
            Class::Artillerist => "Artillerist",
            Class::Scouter => "Scouter",
            Class::FemaleGunner => "Female Gunner",
            Class::Gunslinger => "Gunslinger",
            Class::MaleMartialArtist => "Male Martial Artist",
            Class::Striker => "Striker",
            Class::Artist => "Artist",
            Class::Aeromancer => "Aeromancer",
            Class::FemaleWarrior => "Female Warrior",
            Class::Slayer => "Slayer",
            Class::Unknown => "UNKNOWN",
        }
    }
}

/// How a hit landed, taken from the low four bits of a damage modifier.
#[derive(Debug, Copy, Clone, PartialEq, Eq, Structural)]
pub enum HitFlag {
    Normal,
    Critical,
    Miss,
    Invincible,
    Dot,
    Immmune,
    ImmuneSilenced,
    FontSilenced,
    DotCritical,
    Dodge,
    Reflect,
    DamageShare,
    DodgeHit,
}

impl HitFlag {
    /// The wire value of the flag.
    pub open spec fn raw(self) -> u8 {
        match self {
            HitFlag::Normal => 0,
            HitFlag::Critical => 1,
            HitFlag::Miss => 2,
            HitFlag::Invincible => 3,
            HitFlag::Dot => 4,
            HitFlag::Immmune => 5,
            HitFlag::ImmuneSilenced => 6,
            HitFlag::FontSilenced => 7,
            HitFlag::DotCritical => 8,
            HitFlag::Dodge => 9,
            HitFlag::Reflect => 10,
            HitFlag::DamageShare => 11,
            HitFlag::DodgeHit => 12,
        }
    }

    pub open spec fn dot(self) -> bool {
        self == HitFlag::Dot || self == HitFlag::DotCritical
    }

    pub open spec fn crit(self) -> bool {
        self == HitFlag::Critical || self == HitFlag::DotCritical
    }

    /// The flag with the given wire value; values above 12 name no flag.
    pub open spec fn of_raw(raw: u8) -> Option<HitFlag> {
        match raw {
            0 => Some(HitFlag::Normal),
            1 => Some(HitFlag::Critical),
            2 => Some(HitFlag::Miss),
            3 => Some(HitFlag::Invincible),
            4 => Some(HitFlag::Dot),
            5 => Some(HitFlag::Immmune),
            6 => Some(HitFlag::ImmuneSilenced),
            7 => Some(HitFlag::FontSilenced),
            8 => Some(HitFlag::DotCritical),
            9 => Some(HitFlag::Dodge),
            10 => Some(HitFlag::Reflect),
            11 => Some(HitFlag::DamageShare),
            12 => Some(HitFlag::DodgeHit),
            _ => None,
        }
    }

    pub fn from_raw(raw: u8) -> (flag: Option<Self>)
        ensures
            flag == Self::of_raw(raw),
            flag is Some <==> raw <= 12,
            flag matches Some(f) ==> f.raw() == raw,
    {
        Some(match raw {
            0 => Self::Normal,
            1 => Self::Critical,
            2 => Self::Miss,
            3 => Self::Invincible,
            4 => Self::Dot,
            5 => Self::Immmune,
            6 => Self::ImmuneSilenced,
            7 => Self::FontSilenced,
            8 => Self::DotCritical,
            9 => Self::Dodge,
            10 => Self::Reflect,
            11 => Self::DamageShare,
            12 => Self::DodgeHit,
            _ => return None,
        })
    }

    pub fn is_dot(&self) -> (b: bool)
        ensures
            b == self.dot(),
    {
        matches!(self, Self::Dot | Self::DotCritical)
    }

    pub fn is_crit(&self) -> (b: bool)
        ensures
            b == self.crit(),
    {
        matches!(self, Self::Critical | Self::DotCritical)
    }
}

/// From where a hit landed, taken from bits 4 to 6 of a damage modifier.
#[derive(Debug, Copy, Clone, PartialEq, Eq, Structural)]
pub enum HitOption {
    NoPosition,
    BackAttack,
    FrontalAttack,
    FlankAttack,
}

impl HitOption {
    /// The option with the given wire value; values above 3 name no option.
    pub open spec fn of_raw(raw: u8) -> Option<HitOption> {
        match raw {
            0 => Some(HitOption::NoPosition),
            1 => Some(HitOption::BackAttack),
            2 => Some(HitOption::FrontalAttack),
            3 => Some(HitOption::FlankAttack),
            _ => None,
        }
    }

    pub fn from_raw(raw: u8) -> (option: Option<Self>)
        ensures
            option == Self::of_raw(raw),
            option is Some <==> raw <= 3,
    {
        Some(match raw {
            0 => Self::NoPosition,
            1 => Self::BackAttack,
            2 => Self::FrontalAttack,
            3 => Self::FlankAttack,
            _ => return None,
        })
    }
}

/// A trigger signal, by name. `trigger_signal` holds the wire value of each.
#[derive(Debug, Copy, Clone, PartialEq, Eq, Structural)]
pub enum Trigger {
    Nothing,
    Out,
    ClickClick,
    DoorOpen,
    DoorClose,
    SwitchOn,
    SwitchOff,
    HitHit,
    HitDestruct,
    GripGrip,
    VolumeEnter,
    VolumeLeave,
    VolumeOn,
    VolumeOff,
    NpcSpawn,
    NpcDead,
    NpcEvent1,
    NpcEvent2,
    NpcEvent3,
    NpcEvent4,
    NpcEvent5,
    Yes,
    No,
    PropPickup,
    PropRotateStart,
    PropRotateCancel,
    PropRotateEnd,
    Assembled,
    UserSignal,
    VolumeInputkey,
    SharedClick,
    SharedDespawn,
    DungeonCleared,
    CoopQuestStart,
    CoopQuestComplete,
    CoopQuestFail,
    UserShipWreck,
    TowerHit,
    TowerDestruct,
    VehicleEnter,
    VehicleLeave,
    InstancezoneLoadComplete,
    RandomCase1,
    RandomCase2,
    RandomCase3,
    RandomCase4,
    RandomCase5,
    NpcPathevent,
    JointAttach,
    JointDetach,
    HitOn2,
    HitOn3,
    CoopQuestCancel,
    DungeonEnter,
    StationDisable,
    AllDead,
    AllExit,
    DungeonPhase1Clear,
    DungeonPhase1Fail,
    DungeonPhase2Clear,
    DungeonPhase2Fail,
    DungeonPhase3Clear,
    DungeonPhase3Fail,
    DungeonPhase4Clear,
    DungeonPhase4Fail,
    UserStatusEffect,
    InstanceTimerStart,
    InstanceTimerEnd,
    InstanceTimerCancel,
    InstanceTimerEvent1,
    InstanceTimerEvent2,
    InstanceTimerEvent3,
    InstanceTimerEvent4,
    InstanceTimerEvent5,
    DungeonPhase5Clear,
    DungeonPhase5Fail,
    DungeonPhase6Clear,
    DungeonPhase6Fail,
    DungeonPhase1Resume,
    DungeonPhase2Resume,
    DungeonPhase3Resume,
    DungeonPhase4Resume,
    DungeonPhase5Resume,
    DungeonPhase6Resume,
    TrackMoveStart1,
    TrackMoveStart2,
    TrackMoveStart3,
    TrackMoveFailure,
    HitRestoreStart,
    HitRestoreFinish,
    ZoneLevelNormal,
    ZoneLevelHard,
    ZoneLevelHellchaos,
    ZoneLevelChallenge,
    ZoneLevelSpecial,
    OccupationNoneToRed,
    OccupationNoneToBlue,
    OccupationBlueToRed,
    OccupationRedToBlue,
    InstanceTimerEvent6,
    InstanceTimerEvent7,
    InstanceTimerEvent8,
    InstanceTimerEvent9,
    InstanceTimerEvent10,
    UserStatusEffectRemoved,
}

impl Trigger {
    /// The wire value of the signal.
    pub open spec fn signal(self) -> u32 {
        match self {
            Trigger::Nothing => trigger_signal::NONE,
            Trigger::Out => trigger_signal::OUT,
            Trigger::ClickClick => trigger_signal::CLICK_CLICK,
            Trigger::DoorOpen => trigger_signal::DOOR_OPEN,
            Trigger::DoorClose => trigger_signal::DOOR_CLOSE,
            Trigger::SwitchOn => trigger_signal::SWITCH_ON,
            Trigger::SwitchOff => trigger_signal::SWITCH_OFF,
            Trigger::HitHit => trigger_signal::HIT_HIT,
            Trigger::HitDestruct => trigger_signal::HIT_DESTRUCT,
            Trigger::GripGrip => trigger_signal::GRIP_GRIP,
            Trigger::VolumeEnter => trigger_signal::VOLUME_ENTER,
            Trigger::VolumeLeave => trigger_signal::VOLUME_LEAVE,
            Trigger::VolumeOn => trigger_signal::VOLUME_ON,
            Trigger::VolumeOff => trigger_signal::VOLUME_OFF,
            Trigger::NpcSpawn => trigger_signal::NPC_SPAWN,
            Trigger::NpcDead => trigger_signal::NPC_DEAD,
            Trigger::NpcEvent1 => trigger_signal::NPC_EVENT_1,
            Trigger::NpcEvent2 => trigger_signal::NPC_EVENT_2,
            Trigger::NpcEvent3 => trigger_signal::NPC_EVENT_3,
            Trigger::NpcEvent4 => trigger_signal::NPC_EVENT_4,
            Trigger::NpcEvent5 => trigger_signal::NPC_EVENT_5,
            Trigger::Yes => trigger_signal::YES,
            Trigger::No => trigger_signal::NO,
            Trigger::PropPickup => trigger_signal::PROP_PICKUP,
            Trigger::PropRotateStart => trigger_signal::PROP_ROTATE_START,
            Trigger::PropRotateCancel => trigger_signal::PROP_ROTATE_CANCEL,
            Trigger::PropRotateEnd => trigger_signal::PROP_ROTATE_END,
            Trigger::Assembled => trigger_signal::ASSEMBLED,
            Trigger::UserSignal => trigger_signal::USER_SIGNAL,
            Trigger::VolumeInputkey => trigger_signal::VOLUME_INPUTKEY,
            Trigger::SharedClick => trigger_signal::SHARED_CLICK,
            Trigger::SharedDespawn => trigger_signal::SHARED_DESPAWN,
            Trigger::DungeonCleared => trigger_signal::DUNGEON_CLEARED,
            Trigger::CoopQuestStart => trigger_signal::COOP_QUEST_START,
            Trigger::CoopQuestComplete => trigger_signal::COOP_QUEST_COMPLETE,
            Trigger::CoopQuestFail => trigger_signal::COOP_QUEST_FAIL,
            Trigger::UserShipWreck => trigger_signal::USER_SHIP_WRECK,
            Trigger::TowerHit => trigger_signal::TOWER_HIT,
            Trigger::TowerDestruct => trigger_signal::TOWER_DESTRUCT,
            Trigger::VehicleEnter => trigger_signal::VEHICLE_ENTER,
            Trigger::VehicleLeave => trigger_signal::VEHICLE_LEAVE,
            Trigger::InstancezoneLoadComplete => trigger_signal::INSTANCEZONE_LOAD_COMPLETE,
            Trigger::RandomCase1 => trigger_signal::RANDOM_CASE_1,
            Trigger::RandomCase2 => trigger_signal::RANDOM_CASE_2,
            Trigger::RandomCase3 => trigger_signal::RANDOM_CASE_3,
            Trigger::RandomCase4 => trigger_signal::RANDOM_CASE_4,
            Trigger::RandomCase5 => trigger_signal::RANDOM_CASE_5,
            Trigger::NpcPathevent => trigger_signal::NPC_PATHEVENT,
            Trigger::JointAttach => trigger_signal::JOINT_ATTACH,
            Trigger::JointDetach => trigger_signal::JOINT_DETACH,
            Trigger::HitOn2 => trigger_signal::HIT_ON2,
            Trigger::HitOn3 => trigger_signal::HIT_ON3,
            Trigger::CoopQuestCancel => trigger_signal::COOP_QUEST_CANCEL,
            Trigger::DungeonEnter => trigger_signal::DUNGEON_ENTER,
            Trigger::StationDisable => trigger_signal::STATION_DISABLE,
            Trigger::AllDead => trigger_signal::ALL_DEAD,
            Trigger::AllExit => trigger_signal::ALL_EXIT,
            Trigger::DungeonPhase1Clear => trigger_signal::DUNGEON_PHASE1_CLEAR,
            Trigger::DungeonPhase1Fail => trigger_signal::DUNGEON_PHASE1_FAIL,
            Trigger::DungeonPhase2Clear => trigger_signal::DUNGEON_PHASE2_CLEAR,
            Trigger::DungeonPhase2Fail => trigger_signal::DUNGEON_PHASE2_FAIL,
            Trigger::DungeonPhase3Clear => trigger_signal::DUNGEON_PHASE3_CLEAR,
            Trigger::DungeonPhase3Fail => trigger_signal::DUNGEON_PHASE3_FAIL,
            Trigger::DungeonPhase4Clear => trigger_signal::DUNGEON_PHASE4_CLEAR,
            Trigger::DungeonPhase4Fail => trigger_signal::DUNGEON_PHASE4_FAIL,
            Trigger::UserStatusEffect => trigger_signal::USER_STATUS_EFFECT,
            Trigger::InstanceTimerStart => trigger_signal::INSTANCE_TIMER_START,
            Trigger::InstanceTimerEnd => trigger_signal::INSTANCE_TIMER_END,
            Trigger::InstanceTimerCancel => trigger_signal::INSTANCE_TIMER_CANCEL,
            Trigger::InstanceTimerEvent1 => trigger_signal::INSTANCE_TIMER_EVENT_1,
            Trigger::InstanceTimerEvent2 => trigger_signal::INSTANCE_TIMER_EVENT_2,
            Trigger::InstanceTimerEvent3 => trigger_signal::INSTANCE_TIMER_EVENT_3,
            Trigger::InstanceTimerEvent4 => trigger_signal::INSTANCE_TIMER_EVENT_4,
            Trigger::InstanceTimerEvent5 => trigger_signal::INSTANCE_TIMER_EVENT_5,
            Trigger::DungeonPhase5Clear => trigger_signal::DUNGEON_PHASE5_CLEAR,
            Trigger::DungeonPhase5Fail => trigger_signal::DUNGEON_PHASE5_FAIL,
            Trigger::DungeonPhase6Clear => trigger_signal::DUNGEON_PHASE6_CLEAR,
            Trigger::DungeonPhase6Fail => trigger_signal::DUNGEON_PHASE6_FAIL,
            Trigger::DungeonPhase1Resume => trigger_signal::DUNGEON_PHASE1_RESUME,
            Trigger::DungeonPhase2Resume => trigger_signal::DUNGEON_PHASE2_RESUME,
            Trigger::DungeonPhase3Resume => trigger_signal::DUNGEON_PHASE3_RESUME,
            Trigger::DungeonPhase4Resume => trigger_signal::DUNGEON_PHASE4_RESUME,
            Trigger::DungeonPhase5Resume => trigger_signal::DUNGEON_PHASE5_RESUME,
            Trigger::DungeonPhase6Resume => trigger_signal::DUNGEON_PHASE6_RESUME,
            Trigger::TrackMoveStart1 => trigger_signal::TRACK_MOVE_START_1,
            Trigger::TrackMoveStart2 => trigger_signal::TRACK_MOVE_START_2,
            Trigger::TrackMoveStart3 => trigger_signal::TRACK_MOVE_START_3,
            Trigger::TrackMoveFailure => trigger_signal::TRACK_MOVE_FAILURE,
            Trigger::HitRestoreStart => trigger_signal::HIT_RESTORE_START,
            Trigger::HitRestoreFinish => trigger_signal::HIT_RESTORE_FINISH,
            Trigger::ZoneLevelNormal => trigger_signal::ZONE_LEVEL_NORMAL,
            Trigger::ZoneLevelHard => trigger_signal::ZONE_LEVEL_HARD,
            Trigger::ZoneLevelHellchaos => trigger_signal::ZONE_LEVEL_HELLCHAOS,
            Trigger::ZoneLevelChallenge => trigger_signal::ZONE_LEVEL_CHALLENGE,
            Trigger::ZoneLevelSpecial => trigger_signal::ZONE_LEVEL_SPECIAL,
            Trigger::OccupationNoneToRed => trigger_signal::OCCUPATION_NONE_TO_RED,
            Trigger::OccupationNoneToBlue => trigger_signal::OCCUPATION_NONE_TO_BLUE,
            Trigger::OccupationBlueToRed => trigger_signal::OCCUPATION_BLUE_TO_RED,
            Trigger::OccupationRedToBlue => trigger_signal::OCCUPATION_RED_TO_BLUE,
            Trigger::InstanceTimerEvent6 => trigger_signal::INSTANCE_TIMER_EVENT_6,
            Trigger::InstanceTimerEvent7 => trigger_signal::INSTANCE_TIMER_EVENT_7,
            Trigger::InstanceTimerEvent8 => trigger_signal::INSTANCE_TIMER_EVENT_8,
            Trigger::InstanceTimerEvent9 => trigger_signal::INSTANCE_TIMER_EVENT_9,
            Trigger::InstanceTimerEvent10 => trigger_signal::INSTANCE_TIMER_EVENT_10,
            Trigger::UserStatusEffectRemoved => trigger_signal::USER_STATUS_EFFECT_REMOVED,
        }
    }

    pub fn from_raw(raw: u32) -> (trigger: Option<Self>)
        ensures
            trigger is Some <==> 1 <= raw <= 105,
            trigger matches Some(t) ==> t.signal() == raw,
    {
        Some(match raw {
            1 => Self::Nothing,
            2 => Self::Out,
            3 => Self::ClickClick,
            4 => Self::DoorOpen,
            5 => Self::DoorClose,
            6 => Self::SwitchOn,
            7 => Self::SwitchOff,
            8 => Self::HitHit,
            9 => Self::HitDestruct,
            10 => Self::GripGrip,
            11 => Self::VolumeEnter,
            12 => Self::VolumeLeave,
            13 => Self::VolumeOn,
            14 => Self::VolumeOff,
            15 => Self::NpcSpawn,
            16 => Self::NpcDead,
            17 => Self::NpcEvent1,
            18 => Self::NpcEvent2,
            19 => Self::NpcEvent3,
            20 => Self::NpcEvent4,
            21 => Self::NpcEvent5,
            22 => Self::Yes,
            23 => Self::No,
            24 => Self::PropPickup,
            25 => Self::PropRotateStart,
            26 => Self::PropRotateCancel,
            27 => Self::PropRotateEnd,
            28 => Self::Assembled,
            29 => Self::UserSignal,
            30 => Self::VolumeInputkey,
            31 => Self::SharedClick,
            32 => Self::SharedDespawn,
            33 => Self::DungeonCleared,
            34 => Self::CoopQuestStart,
            35 => Self::CoopQuestComplete,
            36 => Self::CoopQuestFail,
            37 => Self::UserShipWreck,
            38 => Self::TowerHit,
            39 => Self::TowerDestruct,
            40 => Self::VehicleEnter,
            41 => Self::VehicleLeave,
            42 => Self::InstancezoneLoadComplete,
            43 => Self::RandomCase1,
            44 => Self::RandomCase2,
            45 => Self::RandomCase3,
            46 => Self::RandomCase4,
            47 => Self::RandomCase5,
            48 => Self::NpcPathevent,
            49 => Self::JointAttach,
            50 => Self::JointDetach,
            51 => Self::HitOn2,
            52 => Self::HitOn3,
            53 => Self::CoopQuestCancel,
            54 => Self::DungeonEnter,
            55 => Self::StationDisable,
            56 => Self::AllDead,
            57 => Self::AllExit,
            58 => Self::DungeonPhase1Clear,
            59 => Self::DungeonPhase1Fail,
            60 => Self::DungeonPhase2Clear,
            61 => Self::DungeonPhase2Fail,
            62 => Self::DungeonPhase3Clear,
            63 => Self::DungeonPhase3Fail,
            64 => Self::DungeonPhase4Clear,
            65 => Self::DungeonPhase4Fail,
            66 => Self::UserStatusEffect,
            67 => Self::InstanceTimerStart,
            68 => Self::InstanceTimerEnd,
            69 => Self::InstanceTimerCancel,
            70 => Self::InstanceTimerEvent1,
            71 => Self::InstanceTimerEvent2,
            72 => Self::InstanceTimerEvent3,
            73 => Self::InstanceTimerEvent4,
            74 => Self::InstanceTimerEvent5,
            75 => Self::DungeonPhase5Clear,
            76 => Self::DungeonPhase5Fail,
            77 => Self::DungeonPhase6Clear,
            78 => Self::DungeonPhase6Fail,
            79 => Self::DungeonPhase1Resume,
            80 => Self::DungeonPhase2Resume,
            81 => Self::DungeonPhase3Resume,
            82 => Self::DungeonPhase4Resume,
            83 => Self::DungeonPhase5Resume,
            84 => Self::DungeonPhase6Resume,
            85 => Self::TrackMoveStart1,
            86 => Self::TrackMoveStart2,
            87 => Self::TrackMoveStart3,
            88 => Self::TrackMoveFailure,
            89 => Self::HitRestoreStart,
            90 => Self::HitRestoreFinish,
            91 => Self::ZoneLevelNormal,
            92 => Self::ZoneLevelHard,
            93 => Self::ZoneLevelHellchaos,
            94 => Self::ZoneLevelChallenge,
            95 => Self::ZoneLevelSpecial,
            96 => Self::OccupationNoneToRed,
            97 => Self::OccupationNoneToBlue,
            98 => Self::OccupationBlueToRed,
            99 => Self::OccupationRedToBlue,
            100 => Self::InstanceTimerEvent6,
            101 => Self::InstanceTimerEvent7,
            102 => Self::InstanceTimerEvent8,
            103 => Self::InstanceTimerEvent9,
            104 => Self::InstanceTimerEvent10,
            105 => Self::UserStatusEffectRemoved,
            _ => return None,
        })
    }
}

/// A raid or guardian boss that encounters are tracked for.
#[derive(Debug, Copy, Clone, PartialEq, Eq, Structural)]
pub enum Boss {
    ValtanG1,
    ValtanG2,
    ValtanG2Ghost,
    VykasG1,
    VykasG2,
    VykasG3,
    KakulSaydonG1,
    KakulSaydonG2,
    KakulSaydonG3,
    KakulSaydonG3Bingo,
    BrelshazaG1Dogs,
    BrelshazaG1Pre,
    BrelshazaG1,
    BrelshazaG2Prokel,
    BrelshazaG2,
    BrelshazaG3,
    BrelshazaG4,
    BrelshazaG5Cube,
    BrelshazaG5,
    BrelshazaG6,
    AkkanG1,
    AkkanG2,
    AkkanG3,
    AkkanG3Bonus,
    Bird,
    Tienis,
    Prunya,
    Lauriel,
    Deskaluda,
    Kungelanium,
    Caliligos,
    Hanumatan,
    Sonavel,
    Golem,
}

impl Boss {
    /// Short name of the boss, as used in file names.
    pub open spec fn label(self) -> Seq<char> {
        match self {
            Boss::ValtanG1 => "valtan-g1"@,
            Boss::ValtanG2 => "valtan-g2"@,
            Boss::ValtanG2Ghost => "valtan-g2-ghost"@,
            Boss::VykasG1 => "vykas-g1"@,
            Boss::VykasG2 => "vykas-g2"@,
            Boss::VykasG3 => "vykas-g3"@,
            Boss::KakulSaydonG1 => "clown-g1"@,
            Boss::KakulSaydonG2 => "clown-g2"@,
            Boss::KakulSaydonG3 => "clown-g3"@,
            Boss::KakulSaydonG3Bingo => "clown-g3-bingo"@,
            Boss::BrelshazaG1Dogs => "brel-g1-dogs"@,
            Boss::BrelshazaG1Pre => "brel-g1-pre"@,
            Boss::BrelshazaG1 => "brel-g1"@,
            Boss::BrelshazaG2Prokel => "brel-g2-prokel"@,
            Boss::BrelshazaG2 => "brel-g2"@,
            Boss::BrelshazaG3 => "brel-g3"@,
            Boss::BrelshazaG4 => "brel-g4"@,
            Boss::BrelshazaG5Cube => "brel-g5-cube"@,
            Boss::BrelshazaG5 => "brel-g5"@,
            Boss::BrelshazaG6 => "brel-g6"@,
            Boss::AkkanG1 => "akkan-g1"@,
            Boss::AkkanG2 => "akkan-g2"@,
            Boss::AkkanG3 => "akkan-g3"@,
            Boss::AkkanG3Bonus => "akkan-g3-bonus"@,
            Boss::Bird => "kayangel-bird"@,
            Boss::Tienis => "kayangel-g1"@,
            Boss::Prunya => "kayangel-g2"@,
            Boss::Lauriel => "kayangel-g3"@,
            Boss::Deskaluda => "deskaluda"@,
            Boss::Kungelanium => "kungelanium"@,
            Boss::Caliligos => "caliligos"@,
            Boss::Hanumatan => "hanumatan"@,
            Boss::Sonavel => "sonavel"@,
            Boss::Golem => "golem"@,
        }
    }

    /// The boss that an NPC species id belongs to, if any.
    pub open spec fn of_species(id: u32) -> Option<Boss> {
        match id {
            720011 => Some(Boss::Golem),
            480005 | 480026 | 480006 | 480031 | 480009 | 480010 => Some(Boss::ValtanG1),
            42063041 | 42063042 | 42063043 | 42063044 => Some(Boss::ValtanG2),
            480007 => Some(Boss::ValtanG2Ghost),
            480208 | 480209 => Some(Boss::VykasG1),
            480210 => Some(Boss::VykasG2),
            480211 => Some(Boss::VykasG3),
            480691 | 480601 => Some(Boss::KakulSaydonG1),
            480696 | 480611 | 480612 => Some(Boss::KakulSaydonG2),
            480631 => Some(Boss::KakulSaydonG3),
            480635 => Some(Boss::KakulSaydonG3Bingo),
            480805 | 480874 | 480875 | 480876 => Some(Boss::BrelshazaG1Dogs),
            480803 => Some(Boss::BrelshazaG1Pre),
            480802 => Some(Boss::BrelshazaG1),
            480808 => Some(Boss::BrelshazaG2Prokel),
            480809 => Some(Boss::BrelshazaG2),
            480810 => Some(Boss::BrelshazaG3),
            480811 => Some(Boss::BrelshazaG4),
            4221463 | 4221464 => Some(Boss::BrelshazaG5Cube),
            480813 | 480815 => Some(Boss::BrelshazaG5),
            480814 => Some(Boss::BrelshazaG6),
            480920 | 480934 | 480935 | 480954 | 480955 => Some(Boss::AkkanG1),
            481085 | 480902 | 480930 | 480931 | 480932 | 480936 | 480996 | 480997 | 480998 | 481050 | 481051 | 481053 | 481057 | 480059 | 481060 | 481061 | 481066 | 481067 | 481068 | 481069 | 481070 => Some(Boss::AkkanG2),
            481076 | 480903 | 480905 | 886045 | 131770 | 820109 => Some(Boss::AkkanG3),
            481078 | 481079 | 481080 | 481081 | 480904 | 480964 | 480965 | 480966 | 480967 | 480968 | 480969 => Some(Boss::AkkanG3Bonus),
            620260 => Some(Boss::Deskaluda),
            620250 => Some(Boss::Caliligos),
            620280 => Some(Boss::Hanumatan),
            620400 => Some(Boss::Sonavel),
            _ => None,
        }
    }

    /// Number of health bars the boss is shown with, where known.
    pub open spec fn bars(self) -> Option<u16> {
        match self {
            Boss::ValtanG1 => Some(50u16),
            Boss::ValtanG2 => Some(160u16),
            Boss::ValtanG2Ghost => Some(40u16),
            Boss::VykasG1 => Some(60u16),
            Boss::VykasG2 => Some(160u16),
            Boss::VykasG3 => Some(180u16),
            Boss::KakulSaydonG1 => Some(160u16),
            Boss::KakulSaydonG2 => Some(140u16),
            Boss::KakulSaydonG3 => Some(180u16),
            Boss::KakulSaydonG3Bingo => Some(77u16),
            Boss::BrelshazaG1Dogs => Some(20u16),
            Boss::BrelshazaG1Pre => Some(40u16),
            Boss::BrelshazaG1 => Some(120u16),
            Boss::BrelshazaG2Prokel => Some(160u16),
            Boss::BrelshazaG2 => Some(80u16),
            Boss::BrelshazaG3 => Some(170u16),
            Boss::BrelshazaG4 => Some(190u16),
            Boss::BrelshazaG5Cube => Some(20u16),
            Boss::BrelshazaG5 => Some(200u16),
            Boss::BrelshazaG6 => Some(250u16),
            _ => None,
        }
    }

    /// The species id that stands for the boss; known for the golem only, 0 otherwise.
    pub open spec fn species(self) -> u32 {
        match self {
            Boss::Golem => 720011,
            _ => 0,
        }
    }

    pub fn name(&self) -> (name: &'static str)
        ensures
            name@ == self.label(),
    {
        match self {
            Boss::ValtanG1 => "valtan-g1",
            Boss::ValtanG2 => "valtan-g2",
            Boss::ValtanG2Ghost => "valtan-g2-ghost",
            Boss::VykasG1 => "vykas-g1",
            Boss::VykasG2 => "vykas-g2",
            Boss::VykasG3 => "vykas-g3",
            Boss::KakulSaydonG1 => "clown-g1",
            Boss::KakulSaydonG2 => "clown-g2",
            Boss::KakulSaydonG3 => "clown-g3",
            Boss::KakulSaydonG3Bingo => "clown-g3-bingo",
            Boss::BrelshazaG1Dogs => "brel-g1-dogs",
            Boss::BrelshazaG1Pre => "brel-g1-pre",
            Boss::BrelshazaG1 => "brel-g1",
            Boss::BrelshazaG2Prokel => "brel-g2-prokel",
            Boss::BrelshazaG2 => "brel-g2",
            Boss::BrelshazaG3 => "brel-g3",
            Boss::BrelshazaG4 => "brel-g4",
            Boss::BrelshazaG5Cube => "brel-g5-cube",
            Boss::BrelshazaG5 => "brel-g5",
            Boss::BrelshazaG6 => "brel-g6",
            Boss::AkkanG1 => "akkan-g1",
            Boss::AkkanG2 => "akkan-g2",
            Boss::AkkanG3 => "akkan-g3",
            Boss::AkkanG3Bonus => "akkan-g3-bonus",
            Boss::Bird => "kayangel-bird",
            Boss::Tienis => "kayangel-g1",
            Boss::Prunya => "kayangel-g2",
            Boss::Lauriel => "kayangel-g3",
            Boss::Deskaluda => "deskaluda",
            Boss::Kungelanium => "kungelanium",
            Boss::Caliligos => "caliligos",
            Boss::Hanumatan => "hanumatan",
            Boss::Sonavel => "sonavel",
            Boss::Golem => "golem",
        }
    }

    pub fn from_id(id: u32) -> (boss: Option<Self>)
        ensures
            boss == Self::of_species(id),
    {
        match id {
            720011 => Some(Self::Golem),
            480005 | 480026 | 480006 | 480031 | 480009 | 480010 => Some(Self::ValtanG1),
            42063041 | 42063042 | 42063043 | 42063044 => Some(Self::ValtanG2),
            480007 => Some(Self::ValtanG2Ghost),
            480208 | 480209 => Some(Self::VykasG1),
            480210 => Some(Self::VykasG2),
            480211 => Some(Self::VykasG3),
            480691 | 480601 => Some(Self::KakulSaydonG1),
            480696 | 480611 | 480612 => Some(Self::KakulSaydonG2),
            480631 => Some(Self::KakulSaydonG3),
            480635 => Some(Self::KakulSaydonG3Bingo),
            480805 | 480874 | 480875 | 480876 => Some(Self::BrelshazaG1Dogs),
            480803 => Some(Self::BrelshazaG1Pre),
            480802 => Some(Self::BrelshazaG1),
            480808 => Some(Self::BrelshazaG2Prokel),
            480809 => Some(Self::BrelshazaG2),
            480810 => Some(Self::BrelshazaG3),
            480811 => Some(Self::BrelshazaG4),
            4221463 | 4221464 => Some(Self::BrelshazaG5Cube),
            480813 | 480815 => Some(Self::BrelshazaG5),
            480814 => Some(Self::BrelshazaG6),
            480920 | 480934 | 480935 | 480954 | 480955 => Some(Self::AkkanG1),
            481085 | 480902 | 480930 | 480931 | 480932 | 480936 | 480996 | 480997 | 480998 | 481050 | 481051 | 481053 | 481057 | 480059 | 481060 | 481061 | 481066 | 481067 | 481068 | 481069 | 481070 => Some(Self::AkkanG2),
            481076 | 480903 | 480905 | 886045 | 131770 | 820109 => Some(Self::AkkanG3),
            481078 | 481079 | 481080 | 481081 | 480904 | 480964 | 480965 | 480966 | 480967 | 480968 | 480969 => Some(Self::AkkanG3Bonus),
            620260 => Some(Self::Deskaluda),
            620250 => Some(Self::Caliligos),
            620280 => Some(Self::Hanumatan),
            620400 => Some(Self::Sonavel),
            _ => None,
        }
    }

    pub fn max_bars(&self) -> (bars: Option<u16>)
        ensures
            bars == self.bars(),
    {
        match self {
            Self::ValtanG1 => Some(50),
            Self::ValtanG2 => Some(160),
            Self::ValtanG2Ghost => Some(40),
            Self::VykasG1 => Some(60),
            Self::VykasG2 => Some(160),
            Self::VykasG3 => Some(180),
            Self::KakulSaydonG1 => Some(160),
            Self::KakulSaydonG2 => Some(140),
            Self::KakulSaydonG3 => Some(180),
            Self::KakulSaydonG3Bingo => Some(77),
            Self::BrelshazaG1Dogs => Some(20),
            Self::BrelshazaG1Pre => Some(40),
            Self::BrelshazaG1 => Some(120),
            Self::BrelshazaG2Prokel => Some(160),
            Self::BrelshazaG2 => Some(80),
            Self::BrelshazaG3 => Some(170),
            Self::BrelshazaG4 => Some(190),
            Self::BrelshazaG5Cube => Some(20),
            Self::BrelshazaG5 => Some(200),
            Self::BrelshazaG6 => Some(250),
            _ => None,
        }
    }

    pub fn id(&self) -> (id: u32)
        ensures
            id == self.species(),
            Boss::of_species(id) == (if id == 0 { None } else { Some(*self) }),
    {
        match self {
            Self::Golem => 720011,
            _ => 0,
        }
    }
}

} // verus!
