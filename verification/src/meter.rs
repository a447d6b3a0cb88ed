//! The model that decoded packets are folded into: the entities of the
//! current map, the encounters with their damage records, and the live state
//! of bosses, buffs and parties.
//!
//! Points in time are readings of a monotonic clock in nanoseconds.

use crate::definitions::{trigger_signal, Boss, Class, HitFlag, HitOption};
use crate::ordered::{is_sorted_keys, sorted_keys};
use crate::packet::{
    inner_events, member_views, PartyMemberData, PartyMemberView, PcStruct, PktInitEnv, PktInitLocal, PktInitPc, PktMigrationExecute, PktNewNpc, PktNewPc,
    PktNewProjectile, PktPartyInfo, PktPartyStatusEffectAddNotify,
    PktPartyStatusEffectRemoveNotify, PktPartyStatusEffectResultNotify, PktRaidBossKillNotify,
    PktRaidResult, PktSkillDamageAbnormalMoveNotify, PktSkillDamageNotify,
    PktStatusEffectAddNotify, PktStatusEffectRemoveNotify, PktTriggerBossBattleStatus,
    PktTriggerStartNotify, ProjectileInfo, SkillDamageEvent, StatusEffectData,
};
use std::collections::BTreeMap;
use std::collections::HashMap;
use vstd::prelude::*;

pub mod laws;
pub mod log;

verus! {

/// Time that a new encounter is held back after a raid ended, so that
/// trailing events still land in the old one.
pub const ENCOUNTER_RESET_DELAY_NANOS: u64 = 3_000_000_000;

/// The views of the values of a map.
pub open spec fn views<K, V: View>(m: Map<K, V>) -> Map<K, V::V> {
    m.map_values(|v: V| v@)
}

/// The view of a text that may be missing.
pub open spec fn text_view(text: Option<String>) -> Option<Seq<char>> {
    match text {
        Some(s) => Some(s@),
        None => None,
    }
}

/// Metadata about a player: name, class, gear level.
#[derive(Debug)]
pub struct Player {
    pub name: Option<String>,
    pub class: Class,
    /// Bit pattern of the gear level, a single-precision number.
    pub ilvl: u32,
    pub character_id: Option<u64>,
}

/// Mathematical content of [`Player`].
pub struct PlayerView {
    pub name: Option<Seq<char>>,
    pub class: Class,
    pub ilvl: u32,
    pub character_id: Option<u64>,
}

impl View for Player {
    type V = PlayerView;

    open spec fn view(&self) -> PlayerView {
        PlayerView {
            name: text_view(self.name),
            class: self.class,
            ilvl: self.ilvl,
            character_id: self.character_id,
        }
    }
}

impl PlayerView {
    /// A player of whom nothing is known.
    pub open spec fn unknown() -> PlayerView {
        PlayerView { name: None, class: Class::Unknown, ilvl: 0, character_id: None }
    }
}

impl Default for Player {
    fn default() -> (player: Self)
        ensures
            player@ == PlayerView::unknown(),
    {
        Player { name: None, class: Class::Unknown, ilvl: 0, character_id: None }
    }
}

impl Clone for Player {
    fn clone(&self) -> (player: Self)
        ensures
            player@ == self@,
    {
        let name = match &self.name {
            Some(name) => Some(name.clone()),
            None => None,
        };
        Player { name, class: self.class, ilvl: self.ilvl, character_id: self.character_id }
    }
}

impl Player {
    /// A player with the given name, class and gear level, whose character
    /// is not known yet.
    pub fn new(name: Option<String>, class: Class, ilvl: u32) -> (player: Self)
        ensures
            player@ == (PlayerView { name: text_view(name), class, ilvl, character_id: None }),
    {
        Player { name, class, ilvl, character_id: None }
    }

    /// The player that a character record of a packet describes.
    pub fn from_raw(pc_struct: &PcStruct) -> (player: Self)
        ensures
            player@ == (PlayerView {
                name: Some(pc_struct.name@),
                class: Class::of_id(pc_struct.class_id),
                ilvl: pc_struct.avg_item_level,
                character_id: Some(pc_struct.character_id),
            }),
    {
        Player {
            name: Some(pc_struct.name.to_owned()),
            class: Class::from_id(pc_struct.class_id),
            ilvl: pc_struct.avg_item_level,
            character_id: Some(pc_struct.character_id),
        }
    }
}

/// A non-player entity.
#[derive(Debug)]
pub struct Npc {
    pub id: u64,
    /// Species id.
    pub kind: u32,
    pub name: String,
}

/// Mathematical content of [`Npc`].
pub struct NpcView {
    pub id: u64,
    pub kind: u32,
    pub name: Seq<char>,
}

impl View for Npc {
    type V = NpcView;

    open spec fn view(&self) -> NpcView {
        NpcView { id: self.id, kind: self.kind, name: self.name@ }
    }
}

/// A projectile and the entity that launched it.
#[derive(Debug, Copy, Clone, PartialEq, Eq, Structural)]
pub struct Projectile {
    pub id: u64,
    pub owner_id: u64,
}

impl Projectile {
    pub fn from_raw(raw: ProjectileInfo) -> (projectile: Self)
        ensures
            projectile == (Projectile { id: raw.projectile_id, owner_id: raw.owner_id }),
    {
        Projectile { id: raw.projectile_id, owner_id: raw.owner_id }
    }
}

/// The entities present in a map. Object ids are valid in one environment
/// only.
pub struct Environment {
    /// Object id of the player running the meter, where known.
    pub pov: Option<u64>,
    /// Character id of the player running the meter, where known.
    pub pov_char_id: Option<u64>,
    pub players: BTreeMap<u64, Player>,
    pub npcs: BTreeMap<u64, Npc>,
    pub projectiles: BTreeMap<u64, Projectile>,
}

/// Mathematical content of [`Environment`].
pub struct EnvironmentView {
    pub pov: Option<u64>,
    pub pov_char_id: Option<u64>,
    pub players: Map<u64, PlayerView>,
    pub npcs: Map<u64, NpcView>,
    pub projectiles: Map<u64, Projectile>,
}

impl View for Environment {
    type V = EnvironmentView;

    open spec fn view(&self) -> EnvironmentView {
        EnvironmentView {
            pov: self.pov,
            pov_char_id: self.pov_char_id,
            players: views(self.players@),
            npcs: views(self.npcs@),
            projectiles: self.projectiles@,
        }
    }
}

impl EnvironmentView {
    /// An environment without entities.
    pub open spec fn empty() -> EnvironmentView {
        EnvironmentView {
            pov: None,
            pov_char_id: None,
            players: Map::empty(),
            npcs: Map::empty(),
            projectiles: Map::empty(),
        }
    }

    /// The record of the player running the meter, where there is one.
    pub open spec fn pov_player(self) -> Option<PlayerView> {
        match self.pov {
            Some(id) => if self.players.contains_key(id) {
                Some(self.players[id])
            } else {
                None
            },
            None => None,
        }
    }

    pub open spec fn with_players(self, players: Map<u64, PlayerView>) -> EnvironmentView {
        EnvironmentView { players, ..self }
    }
}

impl Environment {
    pub fn new() -> (env: Self)
        ensures
            env@ == EnvironmentView::empty(),
    {
        let env = Environment {
            pov: None,
            pov_char_id: None,
            players: BTreeMap::new(),
            npcs: BTreeMap::new(),
            projectiles: BTreeMap::new(),
        };
        assert(env@.players =~= Map::empty());
        assert(env@.npcs =~= Map::empty());
        env
    }

    /// The record of the player running the meter, where there is one.
    pub fn pov(&self) -> (player: Option<&Player>)
        ensures
            match player {
                Some(p) => self@.pov_player() == Some(p@),
                None => self@.pov_player() is None,
            },
    {
        match self.pov {
            Some(id) => self.players.get(&id),
            None => None,
        }
    }

    pub fn with_pov(self, id: u64) -> (env: Self)
        ensures
            env@ == (EnvironmentView { pov: Some(id), ..self@ }),
    {
        let mut env = self;
        env.pov = Some(id);
        env
    }

    pub fn with_player(self, id: u64, player: Player) -> (env: Self)
        ensures
            env@ == self@.with_players(self@.players.insert(id, player@)),
    {
        let mut env = self;
        env.add_player(id, player);
        env
    }

    pub fn add_player(&mut self, id: u64, player: Player)
        ensures
            final(self)@ == old(self)@.with_players(old(self)@.players.insert(id, player@)),
    {
        self.players.insert(id, player);
        assert(self@.players =~= old(self)@.players.insert(id, player@));
    }

    pub fn add_npc(&mut self, id: u64, npc: Npc)
        ensures
            final(self)@ == (EnvironmentView { npcs: old(self)@.npcs.insert(id, npc@), ..old(self)@ }),
    {
        self.npcs.insert(id, npc);
        assert(self@.npcs =~= old(self)@.npcs.insert(id, npc@));
    }

    pub fn add_projectile(&mut self, id: u64, projectile: Projectile)
        ensures
            final(self)@ == (EnvironmentView {
                projectiles: old(self)@.projectiles.insert(id, projectile),
                ..old(self)@
            }),
    {
        self.projectiles.insert(id, projectile);
    }
}

/// One hit of a skill.
#[derive(Debug, Copy, Clone, PartialEq, Eq, Structural)]
pub struct SkillHit {
    pub damage: i64,
    pub target_id: u64,
    pub is_crit: bool,
    pub is_back_attack: bool,
    pub is_front_attack: bool,
}

/// What one player did with one skill in an encounter.
#[derive(Debug)]
pub struct SkillUsage {
    /// Name of the skill, where the skill database has it.
    pub name: Option<String>,
    /// Number of hits.
    pub count: usize,
    pub crits: usize,
    /// Sum of the damage of the hits.
    pub damage: i64,
    pub back: usize,
    pub front: usize,
    /// Hits on a target branded by the player's party.
    pub brand: usize,
    /// Hits under an attack power buff.
    pub ap_buff: usize,
    /// Hits under an identity buff.
    pub ident_buff: usize,
    /// The hits, each with its time.
    pub hits: Vec<(u64, SkillHit)>,
}

/// Mathematical content of [`SkillUsage`].
pub struct SkillUsageView {
    pub name: Option<Seq<char>>,
    pub count: usize,
    pub crits: usize,
    pub damage: i64,
    pub back: usize,
    pub front: usize,
    pub brand: usize,
    pub ap_buff: usize,
    pub ident_buff: usize,
    pub hits: Seq<(u64, SkillHit)>,
}

impl View for SkillUsage {
    type V = SkillUsageView;

    open spec fn view(&self) -> SkillUsageView {
        SkillUsageView {
            name: text_view(self.name),
            count: self.count,
            crits: self.crits,
            damage: self.damage,
            back: self.back,
            front: self.front,
            brand: self.brand,
            ap_buff: self.ap_buff,
            ident_buff: self.ident_buff,
            hits: self.hits@,
        }
    }
}

impl SkillUsageView {
    /// A skill that has not hit yet.
    pub open spec fn unused(name: Option<Seq<char>>) -> SkillUsageView {
        SkillUsageView {
            name,
            count: 0,
            crits: 0,
            damage: 0,
            back: 0,
            front: 0,
            brand: 0,
            ap_buff: 0,
            ident_buff: 0,
            hits: Seq::empty(),
        }
    }
}

impl Default for SkillUsage {
    fn default() -> (skill: Self)
        ensures
            skill@ == SkillUsageView::unused(None),
    {
        SkillUsage {
            name: None,
            count: 0,
            crits: 0,
            damage: 0,
            back: 0,
            front: 0,
            brand: 0,
            ap_buff: 0,
            ident_buff: 0,
            hits: Vec::new(),
        }
    }
}

/// What one player did in an encounter.
#[derive(Debug)]
pub struct PlayerData {
    /// Total damage dealt.
    pub dmg_dealt: i64,
    pub hits: u64,
    /// Damage on targets branded by the player's party.
    pub brand_dmg: i64,
    pub brand_hits: u64,
    /// Damage under an attack power buff.
    pub ap_dmg: i64,
    pub ap_hits: u64,
    /// Damage under an identity buff.
    pub ident_dmg: i64,
    pub ident_hits: u64,
    /// Skill id to the record of that skill.
    pub skills: BTreeMap<u32, SkillUsage>,
    /// Time and damage of each hit, in order.
    pub damage: Vec<(u64, i64)>,
    /// Time and skill id of each hit, in order.
    pub casts: Vec<(u64, u32)>,
}

/// Mathematical content of [`PlayerData`].
pub struct PlayerDataView {
    pub dmg_dealt: i64,
    pub hits: u64,
    pub brand_dmg: i64,
    pub brand_hits: u64,
    pub ap_dmg: i64,
    pub ap_hits: u64,
    pub ident_dmg: i64,
    pub ident_hits: u64,
    pub skills: Map<u32, SkillUsageView>,
    pub damage: Seq<(u64, i64)>,
    pub casts: Seq<(u64, u32)>,
}

impl View for PlayerData {
    type V = PlayerDataView;

    open spec fn view(&self) -> PlayerDataView {
        PlayerDataView {
            dmg_dealt: self.dmg_dealt,
            hits: self.hits,
            brand_dmg: self.brand_dmg,
            brand_hits: self.brand_hits,
            ap_dmg: self.ap_dmg,
            ap_hits: self.ap_hits,
            ident_dmg: self.ident_dmg,
            ident_hits: self.ident_hits,
            skills: views(self.skills@),
            damage: self.damage@,
            casts: self.casts@,
        }
    }
}

impl PlayerDataView {
    /// A player who has done nothing yet.
    pub open spec fn idle() -> PlayerDataView {
        PlayerDataView {
            dmg_dealt: 0,
            hits: 0,
            brand_dmg: 0,
            brand_hits: 0,
            ap_dmg: 0,
            ap_hits: 0,
            ident_dmg: 0,
            ident_hits: 0,
            skills: Map::empty(),
            damage: Seq::empty(),
            casts: Seq::empty(),
        }
    }
}

impl Default for PlayerData {
    fn default() -> (player: Self)
        ensures
            player@ == PlayerDataView::idle(),
    {
        let player = PlayerData {
            dmg_dealt: 0,
            hits: 0,
            brand_dmg: 0,
            brand_hits: 0,
            ap_dmg: 0,
            ap_hits: 0,
            ident_dmg: 0,
            ident_hits: 0,
            skills: BTreeMap::new(),
            damage: Vec::new(),
            casts: Vec::new(),
        };
        assert(player@.skills =~= Map::empty());
        player
    }
}

/// A stretch of combat in one environment.
pub struct Encounter {
    /// Time recording began.
    pub start: u64,
    /// Time recording ended.
    pub end: Option<u64>,
    /// Time of the first damage, if any.
    pub first_damage: Option<u64>,
    /// Time of the last damage before recording ended, if any.
    pub last_damage: Option<u64>,
    /// Index of the environment that the object ids are valid in.
    pub environment: usize,
    /// Object id of a player to what the player did.
    pub players: BTreeMap<u64, PlayerData>,
    /// The bosses that the encounter is about, with their object ids.
    pub bosses: Vec<(u64, Boss)>,
    /// Whether the encounter ended in failure.
    pub wipe: bool,
    /// Whether the encounter ended in success.
    pub clear: bool,
}

/// Mathematical content of [`Encounter`].
pub struct EncounterView {
    pub start: u64,
    pub end: Option<u64>,
    pub first_damage: Option<u64>,
    pub last_damage: Option<u64>,
    pub environment: usize,
    pub players: Map<u64, PlayerDataView>,
    pub bosses: Seq<(u64, Boss)>,
    pub wipe: bool,
    pub clear: bool,
}

impl View for Encounter {
    type V = EncounterView;

    open spec fn view(&self) -> EncounterView {
        EncounterView {
            start: self.start,
            end: self.end,
            first_damage: self.first_damage,
            last_damage: self.last_damage,
            environment: self.environment,
            players: views(self.players@),
            bosses: self.bosses@,
            wipe: self.wipe,
            clear: self.clear,
        }
    }
}

impl EncounterView {
    /// An encounter that begins at `start` in the environment `environment`.
    pub open spec fn fresh(start: u64, environment: usize) -> EncounterView {
        EncounterView {
            start,
            end: None,
            first_damage: None,
            last_damage: None,
            environment,
            players: Map::empty(),
            bosses: Seq::empty(),
            wipe: false,
            clear: false,
        }
    }

    /// Time from the first damage, or else the start, to the last damage, or
    /// else the end, or else `now`; zero where that runs backwards.
    pub open spec fn duration(self, now: u64) -> int {
        let from = match self.first_damage {
            Some(t) => t,
            None => self.start,
        };
        let to = match self.last_damage {
            Some(t) => t,
            None => match self.end {
                Some(t) => t,
                None => now,
            },
        };
        if to >= from {
            to - from
        } else {
            0
        }
    }
}

impl Encounter {
    /// An encounter that begins at `start` in the environment `environment`.
    pub fn new(start: u64, environment: usize) -> (enc: Self)
        ensures
            enc@ == EncounterView::fresh(start, environment),
    {
        let enc = Encounter {
            start,
            end: None,
            first_damage: None,
            last_damage: None,
            environment,
            players: BTreeMap::new(),
            bosses: Vec::new(),
            wipe: false,
            clear: false,
        };
        assert(enc@.players =~= Map::empty());
        enc
    }

    /// Length of the encounter in nanoseconds; `now` stands in while neither
    /// a last damage nor an end is recorded.
    pub fn duration(&self, now: u64) -> (nanos: u64)
        ensures
            nanos == self@.duration(now),
    {
        let from = match self.first_damage {
            Some(t) => t,
            None => self.start,
        };
        let to = match self.last_damage {
            Some(t) => t,
            None => match self.end {
                Some(t) => t,
                None => now,
            },
        };
        if to >= from {
            to - from
        } else {
            0
        }
    }
}

/// Health of a boss that an encounter is about.
#[derive(Debug, Copy, Clone, PartialEq, Eq, Structural)]
pub struct BossInfo {
    pub max_hp: i64,
    pub cur_hp: i64,
    pub bar_count: Option<u16>,
}

/// A status effect on an entity.
#[derive(Debug, Copy, Clone, PartialEq, Eq, Structural)]
pub struct BuffInfo {
    pub stacks: u8,
    /// Object id of the entity that applied the effect.
    pub applicant: u64,
}

/// State that belongs to no encounter: boss health, parties and buffs.
pub struct LiveData {
    pub boss_health: BTreeMap<u64, BossInfo>,
    /// The boss whose health changed last.
    pub recently_tracked: Option<u64>,
    /// Object id, or character id while no object id is known, to party.
    pub parties: BTreeMap<u64, u32>,
    /// Object id to the status effects on it, by status effect id.
    pub buffs: BTreeMap<u64, BTreeMap<u32, BuffInfo>>,
    /// Effect instance id to status effect id.
    pub instance_id_lookup: BTreeMap<u32, u32>,
}

/// Mathematical content of [`LiveData`].
pub struct LiveView {
    pub boss_health: Map<u64, BossInfo>,
    pub recently_tracked: Option<u64>,
    pub parties: Map<u64, u32>,
    pub buffs: Map<u64, Map<u32, BuffInfo>>,
    pub instance_id_lookup: Map<u32, u32>,
}

impl View for LiveData {
    type V = LiveView;

    open spec fn view(&self) -> LiveView {
        LiveView {
            boss_health: self.boss_health@,
            recently_tracked: self.recently_tracked,
            parties: self.parties@,
            buffs: views(self.buffs@),
            instance_id_lookup: self.instance_id_lookup@,
        }
    }
}

/// Whether a status effect raises attack power.
pub open spec fn is_ap_buff(effect: u32) -> bool {
    effect == 211601 || effect == 211749 || effect == 361708 || effect == 362000 || effect
        == 314004 || effect == 314181
}

/// Whether a status effect is an identity buff.
pub open spec fn is_ident_buff(effect: u32) -> bool {
    effect == 211400 || effect == 211410 || effect == 211420 || effect == 500153 || effect
        == 310501
}

/// Whether a status effect is a brand.
pub open spec fn is_brand(effect: u32) -> bool {
    effect == 210230 || effect == 212610 || effect == 212906 || effect == 360506 || effect
        == 360804 || effect == 361004 || effect == 361505 || effect == 314260
}

impl LiveView {
    /// The state with nothing in it.
    pub open spec fn empty() -> LiveView {
        LiveView {
            boss_health: Map::empty(),
            recently_tracked: None,
            parties: Map::empty(),
            buffs: Map::empty(),
            instance_id_lookup: Map::empty(),
        }
    }

    /// The state without what belongs to the encounter that ends.
    pub open spec fn without_encounter_data(self) -> LiveView {
        LiveView { boss_health: Map::empty(), recently_tracked: None, ..self }
    }

    /// Whether the entity `id` carries the status effect `effect`.
    pub open spec fn has_buff(self, id: u64, effect: u32) -> bool {
        self.buffs.contains_key(id) && self.buffs[id].contains_key(effect)
    }

    /// Whether the player carries an attack power buff.
    pub open spec fn has_ap_buff(self, player: u64) -> bool {
        exists|effect: u32| is_ap_buff(effect) && #[trigger] self.has_buff(player, effect)
    }

    /// Whether the player carries an identity buff.
    pub open spec fn has_ident_buff(self, player: u64) -> bool {
        exists|effect: u32| is_ident_buff(effect) && #[trigger] self.has_buff(player, effect)
    }

    /// Whether the one who applied an effect counts for the source: it is
    /// the source itself, or it is in the given party of the source.
    pub open spec fn applied_for(self, applicant: u64, source: u64, party: Option<u32>) -> bool {
        applicant == source || (party matches Some(p) && self.parties.contains_key(applicant)
            && self.parties[applicant] == p)
    }

    /// Whether the target carries the given effect, applied for the source.
    pub open spec fn branded_by(self, source: u64, target: u64, party: Option<u32>, effect: u32) -> bool {
        self.has_buff(target, effect) && self.applied_for(
            self.buffs[target][effect].applicant,
            source,
            party,
        )
    }

    /// Whether the target carries a brand that counts for the source.
    pub open spec fn has_brand(self, source: u64, target: u64, party: Option<u32>) -> bool {
        exists|effect: u32| is_brand(effect) && #[trigger] self.branded_by(source, target, party, effect)
    }
}

impl Default for LiveData {
    fn default() -> (live: Self)
        ensures
            live@ == LiveView::empty(),
    {
        let live = LiveData {
            boss_health: BTreeMap::new(),
            recently_tracked: None,
            parties: BTreeMap::new(),
            buffs: BTreeMap::new(),
            instance_id_lookup: BTreeMap::new(),
        };
        assert(live@.buffs =~= Map::empty());
        live
    }
}

impl LiveData {
    /// Forgets what belongs to the encounter that ends.
    pub fn clear_encounter_data(&mut self)
        ensures
            final(self)@ == old(self)@.without_encounter_data(),
    {
        self.boss_health.clear();
        self.recently_tracked = None;
    }

    /// Forgets everything.
    pub fn clear_all(&mut self)
        ensures
            final(self)@ == LiveView::empty(),
    {
        self.boss_health.clear();
        self.recently_tracked = None;
        self.parties.clear();
        self.buffs.clear();
        self.instance_id_lookup.clear();
        assert(self@.buffs =~= Map::empty());
    }

    /// Whether the entity `id` carries the status effect `effect`.
    pub fn has_buff(&self, id: u64, effect: u32) -> (b: bool)
        ensures
            b == self@.has_buff(id, effect),
    {
        match self.buffs.get(&id) {
            Some(buffs) => buffs.contains_key(&effect),
            None => false,
        }
    }

    pub fn player_has_ap_buff(&self, player_id: u64) -> (b: bool)
        ensures
            b == self@.has_ap_buff(player_id),
    {
        self.has_buff(player_id, 211601) || self.has_buff(player_id, 211749) || self.has_buff(
            player_id,
            361708,
        ) || self.has_buff(player_id, 362000) || self.has_buff(player_id, 314004)
            || self.has_buff(player_id, 314181)
    }

    pub fn player_has_ident_buff(&self, player_id: u64) -> (b: bool)
        ensures
            b == self@.has_ident_buff(player_id),
    {
        self.has_buff(player_id, 211400) || self.has_buff(player_id, 211410) || self.has_buff(
            player_id,
            211420,
        ) || self.has_buff(player_id, 500153) || self.has_buff(player_id, 310501)
    }

    /// Whether the target carries the given effect, applied for the source.
    fn branded_by(&self, source_id: u64, target_id: u64, party: Option<u32>, effect: u32) -> (b:
        bool)
        ensures
            b == self@.branded_by(source_id, target_id, party, effect),
    {
        let info = match self.buffs.get(&target_id) {
            Some(buffs) => match buffs.get(&effect) {
                Some(info) => *info,
                None => {
                    return false;
                },
            },
            None => {
                return false;
            },
        };
        if info.applicant == source_id {
            return true;
        }
        match party {
            Some(p) => match self.parties.get(&info.applicant) {
                Some(q) => *q == p,
                None => false,
            },
            None => false,
        }
    }

    pub fn target_has_brand(&self, source_id: u64, target_id: u64, party: Option<u32>) -> (b: bool)
        ensures
            b == self@.has_brand(source_id, target_id, party),
    {
        self.branded_by(source_id, target_id, party, 210230) || self.branded_by(
            source_id,
            target_id,
            party,
            212610,
        ) || self.branded_by(source_id, target_id, party, 212906) || self.branded_by(
            source_id,
            target_id,
            party,
            360506,
        ) || self.branded_by(source_id, target_id, party, 360804) || self.branded_by(
            source_id,
            target_id,
            party,
            361004,
        ) || self.branded_by(source_id, target_id, party, 361505) || self.branded_by(
            source_id,
            target_id,
            party,
            314260,
        )
    }
}

/// The environments and encounters recorded so far, and the live state. The
/// last environment and the last encounter are the current ones.
pub struct Data {
    pub live: LiveData,
    pub environments: Vec<Environment>,
    pub encounters: Vec<Encounter>,
}

/// Mathematical content of [`Data`].
pub struct DataView {
    pub live: LiveView,
    pub environments: Seq<EnvironmentView>,
    pub encounters: Seq<EncounterView>,
}

impl View for Data {
    type V = DataView;

    open spec fn view(&self) -> DataView {
        DataView {
            live: self.live@,
            environments: self.environments@.map_values(|e: Environment| e@),
            encounters: self.encounters@.map_values(|e: Encounter| e@),
        }
    }
}

/// Whether `id` is a player of the character `cid`; with `distinct`, a
/// record filed under the character id itself does not count.
pub open spec fn character_match(
    players: Map<u64, PlayerView>,
    cid: u64,
    distinct: bool,
    id: u64,
) -> bool {
    players.contains_key(id) && players[id].character_id == Some(cid) && (distinct ==> id != cid)
}

/// Whether `id` is the smallest object id that matches the character.
pub open spec fn is_first_match(
    players: Map<u64, PlayerView>,
    cid: u64,
    distinct: bool,
    id: u64,
) -> bool {
    character_match(players, cid, distinct, id) && forall|j: u64| #[trigger]
        character_match(players, cid, distinct, j) ==> id <= j
}

/// The smallest object id that matches the character, if any does.
pub open spec fn first_match(players: Map<u64, PlayerView>, cid: u64, distinct: bool) -> Option<
    u64,
> {
    if exists|id: u64| is_first_match(players, cid, distinct, id) {
        Some(choose|id: u64| is_first_match(players, cid, distinct, id))
    } else {
        None
    }
}

/// The effects on `id`, none where nothing is recorded for it.
pub open spec fn buffs_of(buffs: Map<u64, Map<u32, BuffInfo>>, id: u64) -> Map<u32, BuffInfo> {
    if buffs.contains_key(id) {
        buffs[id]
    } else {
        Map::empty()
    }
}

impl LiveView {
    /// Records one status effect on `id`.
    pub open spec fn add_effect(self, id: u64, effect: StatusEffectData) -> LiveView {
        LiveView {
            buffs: self.buffs.insert(
                id,
                buffs_of(self.buffs, id).insert(
                    effect.status_effect_id,
                    BuffInfo { stacks: effect.stack_count, applicant: effect.source_id },
                ),
            ),
            instance_id_lookup: self.instance_id_lookup.insert(
                effect.effect_instance_id,
                effect.status_effect_id,
            ),
            ..self
        }
    }

    /// Records the status effects on `id`, one after the other.
    pub open spec fn add_effects(self, id: u64, effects: Seq<StatusEffectData>) -> LiveView
        decreases effects.len(),
    {
        if effects.len() == 0 {
            self
        } else {
            self.add_effect(id, effects[0]).add_effects(id, effects.skip(1))
        }
    }

    /// Ends the effect instance `instance` on `id`: where the instance is
    /// known, its status effect leaves `id`; the instance is forgotten.
    pub open spec fn remove_effect(self, id: u64, instance: u32) -> LiveView {
        LiveView {
            buffs: if self.instance_id_lookup.contains_key(instance) && self.buffs.contains_key(
                id,
            ) {
                self.buffs.insert(id, self.buffs[id].remove(self.instance_id_lookup[instance]))
            } else {
                self.buffs
            },
            instance_id_lookup: self.instance_id_lookup.remove(instance),
            ..self
        }
    }

    /// Ends the effect instances on `id`, one after the other.
    pub open spec fn remove_effects(self, id: u64, instances: Seq<u32>) -> LiveView
        decreases instances.len(),
    {
        if instances.len() == 0 {
            self
        } else {
            self.remove_effect(id, instances[0]).remove_effects(id, instances.skip(1))
        }
    }
}

impl DataView {
    /// Whether there is a current environment and a current encounter, and
    /// every encounter names an environment that exists.
    pub open spec fn wf(self) -> bool {
        &&& self.environments.len() >= 1
        &&& self.encounters.len() >= 1
        &&& self.environments.len() <= usize::MAX
        &&& forall|i: int|
            0 <= i < self.encounters.len() ==> (#[trigger] self.encounters[i]).environment
                < self.environments.len()
    }

    /// The current environment.
    pub open spec fn env(self) -> EnvironmentView {
        self.environments.last()
    }

    /// The current encounter.
    pub open spec fn enc(self) -> EncounterView {
        self.encounters.last()
    }

    pub open spec fn with_env(self, env: EnvironmentView) -> DataView {
        DataView {
            environments: self.environments.update(self.environments.len() - 1, env),
            ..self
        }
    }

    pub open spec fn with_enc(self, enc: EncounterView) -> DataView {
        DataView { encounters: self.encounters.update(self.encounters.len() - 1, enc), ..self }
    }

    pub open spec fn with_live(self, live: LiveView) -> DataView {
        DataView { live, ..self }
    }

    pub open spec fn with_players(self, players: Map<u64, PlayerView>) -> DataView {
        self.with_env(self.env().with_players(players))
    }

    /// The state at the start: one empty environment and one encounter in it.
    pub open spec fn initial(now: u64) -> DataView {
        DataView {
            live: LiveView::empty(),
            environments: seq![EnvironmentView::empty()],
            encounters: seq![EncounterView::fresh(now, 0)],
        }
    }

    /// Ends the current encounter at `now` and begins a new one in the
    /// current environment; what the live state holds of the old encounter
    /// is forgotten.
    pub open spec fn new_encounter(self, now: u64) -> DataView {
        DataView {
            live: self.live.without_encounter_data(),
            environments: self.environments,
            encounters: self.encounters.update(
                self.encounters.len() - 1,
                EncounterView { end: Some(now), ..self.enc() },
            ).push(EncounterView::fresh(now, (self.environments.len() - 1) as usize)),
        }
    }

    /// A map change: a new environment with the given point of view, into
    /// which the record of the player running the meter is carried under the
    /// new object id; the live state is emptied and a new encounter begins.
    pub open spec fn on_init_env(self, pov: u64, now: u64) -> DataView {
        let env = EnvironmentView {
            pov: Some(pov),
            players: match self.env().pov_player() {
                Some(player) => Map::<u64, PlayerView>::empty().insert(pov, player),
                None => Map::empty(),
            },
            ..EnvironmentView::empty()
        };
        (DataView {
            live: LiveView::empty(),
            environments: self.environments.push(env),
            encounters: self.encounters,
        }).new_encounter(now)
    }

    /// The character id of the player running the meter becomes known; a
    /// record of that character under another object id moves to the object
    /// id of the point of view.
    pub open spec fn on_init_local(self, cid: u64) -> DataView {
        let env = EnvironmentView { pov_char_id: Some(cid), ..self.env() };
        match (env.pov, first_match(env.players, cid, false)) {
            (Some(pov), Some(key)) => self.with_env(
                env.with_players(env.players.remove(key).insert(pov, env.players[key])),
            ),
            _ => self.with_env(env),
        }
    }

    /// The character of the player running the meter: a party entry filed
    /// under the character id moves to the object id, together with the end
    /// of the record filed there; then the player is recorded.
    pub open spec fn on_init_pc(self, player_id: u64, cid: u64, player: PlayerView) -> DataView {
        if self.live.parties.contains_key(cid) {
            let parties = self.live.parties.remove(cid).insert(player_id, self.live.parties[cid]);
            (DataView { live: LiveView { parties, ..self.live }, ..self }).with_players(
                self.env().players.remove(cid).insert(player_id, player),
            )
        } else {
            self.with_players(self.env().players.insert(player_id, player))
        }
    }

    pub open spec fn on_new_pc(self, player_id: u64, player: PlayerView) -> DataView {
        self.with_players(self.env().players.insert(player_id, player))
    }

    /// A non-player entity appears. One of a boss species is put on the list
    /// of the current encounter; where that list is empty, a new encounter
    /// begins first.
    pub open spec fn on_new_npc(self, id: u64, kind: u32, now: u64) -> DataView {
        let marked = match Boss::of_species(kind) {
            Some(boss) => {
                let begun = if self.enc().bosses.len() == 0 {
                    self.new_encounter(now)
                } else {
                    self
                };
                begun.with_enc(
                    EncounterView { bosses: begun.enc().bosses.push((id, boss)), ..begun.enc() },
                )
            },
            None => self,
        };
        marked.with_env(
            EnvironmentView {
                npcs: marked.env().npcs.insert(id, NpcView { id, kind, name: "Boss"@ }),
                ..marked.env()
            },
        )
    }

    pub open spec fn on_new_projectile(self, id: u64, owner_id: u64) -> DataView {
        self.with_env(
            EnvironmentView {
                projectiles: self.env().projectiles.insert(id, Projectile { id, owner_id }),
                ..self.env()
            },
        )
    }

    /// A phase of a dungeon ended: a fail signal marks the current encounter
    /// as a wipe, a clear signal as a clear, and the later signal counts.
    pub open spec fn on_trigger_start(self, signal: u32) -> DataView {
        if is_fail_signal(signal) {
            self.with_enc(EncounterView { wipe: true, clear: false, ..self.enc() })
        } else if is_clear_signal(signal) {
            self.with_enc(EncounterView { wipe: false, clear: true, ..self.enc() })
        } else {
            self
        }
    }

    pub open spec fn on_status_effect_add(self, id: u64, effect: StatusEffectData) -> DataView {
        self.with_live(self.live.add_effect(id, effect))
    }

    pub open spec fn on_status_effect_remove(self, id: u64, instances: Seq<u32>) -> DataView {
        self.with_live(self.live.remove_effects(id, instances))
    }

    /// The object id that effects on a party member go to: the smallest
    /// object id of a player with that character, apart from a record filed
    /// under the character id itself.
    pub open spec fn party_member(self, cid: u64) -> Option<u64> {
        first_match(self.env().players, cid, true)
    }

    pub open spec fn on_party_status_effect_add(
        self,
        cid: u64,
        effects: Seq<StatusEffectData>,
    ) -> DataView {
        match self.party_member(cid) {
            Some(id) => self.with_live(
                (LiveView {
                    buffs: self.live.buffs.insert(id, buffs_of(self.live.buffs, id)),
                    ..self.live
                }).add_effects(id, effects),
            ),
            None => self,
        }
    }

    pub open spec fn on_party_status_effect_remove(self, cid: u64, instances: Seq<u32>) -> DataView {
        match self.party_member(cid) {
            Some(id) => self.with_live(self.live.remove_effects(id, instances)),
            None => self,
        }
    }

    /// The party of a character: filed under the object id of the member
    /// where one is known, under the character id otherwise.
    pub open spec fn on_party_status_effect_result(self, cid: u64, party: u32) -> DataView {
        let key = match self.party_member(cid) {
            Some(id) => id,
            None => cid,
        };
        self.with_live(LiveView { parties: self.live.parties.insert(key, party), ..self.live })
    }

    /// The account of the player running the meter moves in: while the
    /// record of the point of view is missing, the smaller of the two ids is
    /// its character id, and a record of that character moves to the object
    /// id of the point of view.
    pub open spec fn on_migration_execute(self, id1: u64, id2: u64) -> DataView {
        let cid = if id1 <= id2 {
            id1
        } else {
            id2
        };
        if self.env().pov_player() is Some {
            self
        } else {
            let env = EnvironmentView { pov_char_id: Some(cid), ..self.env() };
            match (env.pov, first_match(env.players, cid, false)) {
                (Some(pov), Some(key)) => self.with_env(
                    env.with_players(env.players.remove(key).insert(pov, env.players[key])),
                ),
                _ => self.with_env(env),
            }
        }
    }
}

/// Whether a trigger signal says that a dungeon phase was failed.
pub open spec fn is_fail_signal(signal: u32) -> bool {
    signal == trigger_signal::DUNGEON_PHASE1_FAIL || signal == trigger_signal::DUNGEON_PHASE2_FAIL
        || signal == trigger_signal::DUNGEON_PHASE3_FAIL || signal
        == trigger_signal::DUNGEON_PHASE4_FAIL
}

/// Whether a trigger signal says that a dungeon phase was cleared.
pub open spec fn is_clear_signal(signal: u32) -> bool {
    signal == trigger_signal::DUNGEON_PHASE1_CLEAR || signal
        == trigger_signal::DUNGEON_PHASE2_CLEAR || signal == trigger_signal::DUNGEON_PHASE3_CLEAR
        || signal == trigger_signal::DUNGEON_PHASE4_CLEAR
}

/// The smallest object id of a player of the character `cid`.
pub fn find_character(players: &BTreeMap<u64, Player>, cid: u64, distinct: bool) -> (r: Option<u64>)
    ensures
        r == first_match(views(players@), cid, distinct),
{
    let keys = sorted_keys(players);
    let ghost pv = views(players@);
    let mut i: usize = 0;
    while i < keys.len()
        invariant
            0 <= i <= keys@.len(),
            is_sorted_keys(keys@, players@.dom()),
            pv == views(players@),
            forall|j: int| 0 <= j < i ==> !character_match(pv, cid, distinct, #[trigger] keys@[j]),
        decreases keys@.len() - i,
    {
        let id = keys[i];
        assert(keys@.contains(id));
        let player = match players.get(&id) {
            Some(player) => player,
            None => {
                assert(false);
                return None;
            },
        };
        let hit = match player.character_id {
            Some(c) => c == cid && (!distinct || id != cid),
            None => false,
        };
        if hit {
            proof {
                assert(character_match(pv, cid, distinct, id));
                assert forall|j: u64| #[trigger] character_match(pv, cid, distinct, j) implies id
                    <= j by {
                    assert(keys@.contains(j));
                    let at = choose|at: int| 0 <= at < keys@.len() && keys@[at] == j;
                    if at < i {
                        assert(!character_match(pv, cid, distinct, keys@[at]));
                    }
                }
                assert(is_first_match(pv, cid, distinct, id));
                let chosen = choose|x: u64| is_first_match(pv, cid, distinct, x);
                assert(character_match(pv, cid, distinct, chosen));
                assert(chosen <= id && id <= chosen);
            }
            return Some(id);
        }
        i = i + 1;
    }
    proof {
        assert forall|x: u64| !is_first_match(pv, cid, distinct, x) by {
            if character_match(pv, cid, distinct, x) {
                assert(keys@.contains(x));
                let at = choose|at: int| 0 <= at < keys@.len() && keys@[at] == x;
                assert(!character_match(pv, cid, distinct, keys@[at]));
            }
        }
    }
    None
}

impl Data {
    /// The state at the start: one empty environment and one encounter that
    /// begins at `now`.
    pub fn new(now: u64) -> (data: Self)
        ensures
            data@ == DataView::initial(now),
            data@.wf(),
    {
        let mut environments: Vec<Environment> = Vec::new();
        environments.push(Environment::new());
        let mut encounters: Vec<Encounter> = Vec::new();
        encounters.push(Encounter::new(now, 0));
        let data = Data { live: LiveData::default(), environments, encounters };
        assert(data@.environments =~= seq![EnvironmentView::empty()]);
        assert(data@.encounters =~= seq![EncounterView::fresh(now, 0)]);
        data
    }

    pub fn current_env(&self) -> (env: &Environment)
        requires
            self@.wf(),
        ensures
            env@ == self@.env(),
    {
        &self.environments[self.environments.len() - 1]
    }

    pub fn current_env_mut(&mut self) -> (env: &mut Environment)
        requires
            old(self)@.wf(),
        ensures
            env@ == old(self)@.env(),
            final(self)@ == old(self)@.with_env(final(env)@),
    {
        let n = self.environments.len();
        let ghost before = self.environments@;
        let env = &mut self.environments[n - 1];
        proof {
            assert(before.update(n - 1, *final(env)).map_values(|e: Environment| e@) =~= before.map_values(
                |e: Environment| e@,
            ).update(n - 1, final(env)@));
        }
        env
    }

    pub fn current_enc(&self) -> (enc: &Encounter)
        requires
            self@.wf(),
        ensures
            enc@ == self@.enc(),
    {
        &self.encounters[self.encounters.len() - 1]
    }

    pub fn current_enc_mut(&mut self) -> (enc: &mut Encounter)
        requires
            old(self)@.wf(),
        ensures
            enc@ == old(self)@.enc(),
            final(self)@ == old(self)@.with_enc(final(enc)@),
    {
        let n = self.encounters.len();
        let ghost before = self.encounters@;
        let enc = &mut self.encounters[n - 1];
        proof {
            assert(before.update(n - 1, *final(enc)).map_values(|e: Encounter| e@) =~= before.map_values(
                |e: Encounter| e@,
            ).update(n - 1, final(enc)@));
        }
        enc
    }

    /// Ends the current encounter at `now` and begins a new one.
    pub fn new_encounter(&mut self, now: u64)
        requires
            old(self)@.wf(),
        ensures
            final(self)@ == old(self)@.new_encounter(now),
            final(self)@.wf(),
    {
        let n = self.encounters.len();
        self.encounters[n - 1].end = Some(now);
        self.live.clear_encounter_data();
        let fresh = Encounter::new(now, self.environments.len() - 1);
        self.encounters.push(fresh);
        proof {
            assert(self@.encounters =~= old(self)@.new_encounter(now).encounters);
            assert(self@.environments =~= old(self)@.environments);
        }
    }
}

/// What the skill database holds of a skill.
#[derive(Debug)]
pub struct SkillInfo {
    pub name: String,
    pub class_id: Option<u16>,
    pub icon: Option<String>,
}

/// Mathematical content of [`SkillInfo`].
pub struct SkillInfoView {
    pub name: Seq<char>,
    pub class_id: Option<u16>,
    pub icon: Option<Seq<char>>,
}

impl View for SkillInfo {
    type V = SkillInfoView;

    open spec fn view(&self) -> SkillInfoView {
        SkillInfoView { name: self.name@, class_id: self.class_id, icon: text_view(self.icon) }
    }
}

impl SkillInfo {
    /// The entry for a skill as it is mined from the game's data, where a
    /// class id of 0 and an empty icon stand for none.
    pub fn from_mined(name: String, classid: u16, icon: String) -> (info: Self)
        ensures
            info@ == (SkillInfoView {
                name: name@,
                class_id: if classid != 0 {
                    Some(classid)
                } else {
                    None
                },
                icon: if icon@.len() != 0 {
                    Some(icon@)
                } else {
                    None
                },
            }),
    {
        let class_id = if classid != 0 {
            Some(classid)
        } else {
            None
        };
        let icon = if icon.as_str().is_empty() {
            None
        } else {
            Some(icon)
        };
        SkillInfo { name, class_id, icon }
    }
}

/// The skill database: skill id to name and class.
pub struct SkillData {
    pub skills: HashMap<u32, SkillInfo>,
}

impl View for SkillData {
    type V = Map<u32, SkillInfoView>;

    open spec fn view(&self) -> Map<u32, SkillInfoView> {
        views(self.skills@)
    }
}

/// The name of a skill in the database.
pub open spec fn skill_name(db: Map<u32, SkillInfoView>, id: u32) -> Option<Seq<char>> {
    if db.contains_key(id) {
        Some(db[id].name)
    } else {
        None
    }
}

/// The class that a skill belongs to, by the database.
pub open spec fn skill_class(db: Map<u32, SkillInfoView>, id: u32) -> Option<Class> {
    if db.contains_key(id) {
        match db[id].class_id {
            Some(class_id) => Some(Class::of_id(class_id)),
            None => None,
        }
    } else {
        None
    }
}

impl SkillData {
    /// An empty database.
    pub fn new() -> (db: Self)
        ensures
            db@ == Map::<u32, SkillInfoView>::empty(),
    {
        let db = SkillData { skills: HashMap::new() };
        assert(db@ =~= Map::empty());
        db
    }

    /// Files a skill under its id.
    pub fn insert(&mut self, id: u32, info: SkillInfo)
        ensures
            final(self)@ == old(self)@.insert(id, info@),
    {
        broadcast use vstd::std_specs::hash::group_hash_axioms;

        self.skills.insert(id, info);
        assert(self@ =~= old(self)@.insert(id, info@));
    }

    pub fn name(&self, id: u32) -> (name: Option<&str>)
        ensures
            match name {
                Some(text) => skill_name(self@, id) == Some(text@),
                None => skill_name(self@, id) is None,
            },
    {
        broadcast use vstd::std_specs::hash::group_hash_axioms;

        match self.skills.get(&id) {
            Some(info) => Some(info.name.as_str()),
            None => None,
        }
    }

    pub fn class_for(&self, id: u32) -> (class: Option<Class>)
        ensures
            class == skill_class(self@, id),
    {
        broadcast use vstd::std_specs::hash::group_hash_axioms;

        match self.skills.get(&id) {
            Some(info) => match info.class_id {
                Some(class_id) => Some(Class::from_id(class_id)),
                None => None,
            },
            None => None,
        }
    }
}

/// Why a packet could not be applied.
#[derive(Debug, Copy, Clone, PartialEq, Eq, Structural)]
pub enum MeterError {
    /// The low four bits of a damage modifier name no hit flag.
    InvalidHitFlag(u8),
    /// Bits 4 to 6 of a damage modifier name no hit option.
    InvalidHitOption(u8),
    /// A counter or a damage total would leave its range.
    CounterOverflow,
}

/// What is left to do outside the model after a packet was applied.
#[derive(Debug, Copy, Clone, PartialEq, Eq, Structural)]
pub enum Action {
    Nothing,
    /// Show the model anew.
    Repaint,
    /// Call [`Data::new_encounter`] once [`ENCOUNTER_RESET_DELAY_NANOS`]
    /// have passed.
    DeferNewEncounter,
}

/// Applies packets to the model.
pub struct Meter {
    pub data: Data,
    pub skill_data: SkillData,
}

/// Records one status effect on `id`.
fn add_effect(live: &mut LiveData, id: u64, effect: &StatusEffectData)
    ensures
        final(live)@ == old(live)@.add_effect(id, *effect),
{
    let mut inner = match live.buffs.remove(&id) {
        Some(inner) => inner,
        None => BTreeMap::new(),
    };
    inner.insert(
        effect.status_effect_id,
        BuffInfo { stacks: effect.stack_count, applicant: effect.source_id },
    );
    live.buffs.insert(id, inner);
    live.instance_id_lookup.insert(effect.effect_instance_id, effect.status_effect_id);
    proof {
        assert(live@.buffs =~= old(live)@.add_effect(id, *effect).buffs);
    }
}

/// Ends one effect instance on `id`.
fn remove_effect(live: &mut LiveData, id: u64, instance: u32)
    ensures
        final(live)@ == old(live)@.remove_effect(id, instance),
{
    let known = match live.instance_id_lookup.get(&instance) {
        Some(effect) => Some(*effect),
        None => None,
    };
    match known {
        Some(effect) => {
            match live.buffs.remove(&id) {
                Some(inner) => {
                    let mut inner = inner;
                    inner.remove(&effect);
                    live.buffs.insert(id, inner);
                },
                None => {},
            }
        },
        None => {},
    }
    live.instance_id_lookup.remove(&instance);
    proof {
        assert(live@.buffs =~= old(live)@.remove_effect(id, instance).buffs);
    }
}

/// Ends the effect instances on `id`, one after the other.
fn remove_effects(live: &mut LiveData, id: u64, instances: &Vec<u32>)
    ensures
        final(live)@ == old(live)@.remove_effects(id, instances@),
{
    let mut i: usize = 0;
    assert(instances@.skip(0) =~= instances@);
    while i < instances.len()
        invariant
            0 <= i <= instances@.len(),
            old(live)@.remove_effects(id, instances@) == live@.remove_effects(
                id,
                instances@.skip(i as int),
            ),
        decreases instances@.len() - i,
    {
        proof {
            let rest = instances@.skip(i as int);
            assert(rest[0] == instances@[i as int]);
            assert(rest.skip(1) =~= instances@.skip(i + 1));
        }
        remove_effect(live, id, instances[i]);
        i = i + 1;
    }
}

/// Drops the record filed under `gone` and files `player` under `id`.
fn replace_player(env: &mut Environment, gone: u64, id: u64, player: Player)
    ensures
        final(env)@ == old(env)@.with_players(old(env)@.players.remove(gone).insert(id, player@)),
{
    env.players.remove(&gone);
    env.players.insert(id, player);
    proof {
        assert(env@.players =~= old(env)@.players.remove(gone).insert(id, player@));
    }
}

/// Moves the record filed under `key` to `to`.
fn rekey_player(env: &mut Environment, key: u64, to: u64)
    requires
        old(env)@.players.contains_key(key),
    ensures
        final(env)@ == old(env)@.with_players(
            old(env)@.players.remove(key).insert(to, old(env)@.players[key]),
        ),
{
    match env.players.remove(&key) {
        Some(player) => {
            env.players.insert(to, player);
        },
        None => {},
    }
    proof {
        assert(env@.players =~= old(env)@.players.remove(key).insert(to, old(env)@.players[key]));
    }
}

impl Meter {
    pub fn new(data: Data, skill_data: SkillData) -> (meter: Self)
        ensures
            meter.data == data,
            meter.skill_data == skill_data,
    {
        Meter { data, skill_data }
    }

    pub fn on_trigger_start_notify(&mut self, pkt: PktTriggerStartNotify) -> (action: Action)
        requires
            old(self).data@.wf(),
        ensures
            final(self).data@ == old(self).data@.on_trigger_start(pkt.trigger_signal_type),
            final(self).data@.wf(),
            final(self).skill_data == old(self).skill_data,
            action == Action::Nothing,
    {
        let signal = pkt.trigger_signal_type;
        if signal == trigger_signal::DUNGEON_PHASE1_FAIL || signal
            == trigger_signal::DUNGEON_PHASE2_FAIL || signal
            == trigger_signal::DUNGEON_PHASE3_FAIL || signal
            == trigger_signal::DUNGEON_PHASE4_FAIL {
            let enc = self.data.current_enc_mut();
            enc.wipe = true;
            enc.clear = false;
        } else if signal == trigger_signal::DUNGEON_PHASE1_CLEAR || signal
            == trigger_signal::DUNGEON_PHASE2_CLEAR || signal
            == trigger_signal::DUNGEON_PHASE3_CLEAR || signal
            == trigger_signal::DUNGEON_PHASE4_CLEAR {
            let enc = self.data.current_enc_mut();
            enc.clear = true;
            enc.wipe = false;
        }
        proof {
            assert(self.data@.encounters =~= old(self).data@.on_trigger_start(signal).encounters);
        }
        Action::Nothing
    }

    pub fn on_new_projectile(&mut self, pkt: PktNewProjectile) -> (action: Action)
        requires
            old(self).data@.wf(),
        ensures
            final(self).data@ == old(self).data@.on_new_projectile(
                pkt.projectile_info.projectile_id,
                pkt.projectile_info.owner_id,
            ),
            final(self).data@.wf(),
            final(self).skill_data == old(self).skill_data,
            action == Action::Nothing,
    {
        let id = pkt.projectile_info.projectile_id;
        let projectile = Projectile::from_raw(pkt.projectile_info);
        self.data.current_env_mut().add_projectile(id, projectile);
        Action::Nothing
    }

    pub fn on_init_env(&mut self, pkt: PktInitEnv, now: u64) -> (action: Action)
        requires
            old(self).data@.wf(),
        ensures
            final(self).data@ == old(self).data@.on_init_env(pkt.player_id, now),
            final(self).data@.wf(),
            final(self).skill_data == old(self).skill_data,
            action == Action::Nothing,
    {
        let mut environment = Environment::new().with_pov(pkt.player_id);
        match self.data.current_env().pov() {
            Some(player) => {
                environment.add_player(pkt.player_id, player.clone());
            },
            None => {},
        }
        self.data.environments.push(environment);
        self.data.live.clear_all();
        proof {
            let staged = DataView {
                live: LiveView::empty(),
                environments: old(self).data@.environments.push(environment@),
                encounters: old(self).data@.encounters,
            };
            assert(self.data@.environments =~= staged.environments);
            assert(self.data@.encounters =~= staged.encounters);
        }
        let _count = self.data.environments.len();
        self.data.new_encounter(now);
        Action::Nothing
    }

    pub fn on_init_local(&mut self, pkt: PktInitLocal) -> (action: Action)
        requires
            old(self).data@.wf(),
        ensures
            final(self).data@ == old(self).data@.on_init_local(pkt.character_id),
            final(self).data@.wf(),
            final(self).skill_data == old(self).skill_data,
            action == Action::Nothing,
    {
        let cid = pkt.character_id;
        let env = self.data.current_env_mut();
        env.pov_char_id = Some(cid);
        match env.pov {
            Some(pov) => {
                match find_character(&env.players, cid, false) {
                    Some(key) => {
                        rekey_player(env, key, pov);
                    },
                    None => {},
                }
            },
            None => {},
        }
        Action::Nothing
    }

    pub fn on_raid_boss_kill_notify(&mut self, pkt: PktRaidBossKillNotify) -> (action: Action)
        ensures
            *final(self) == *old(self),
            action == Action::DeferNewEncounter,
    {
        Action::DeferNewEncounter
    }

    pub fn on_trigger_boss_battle_status(&mut self, pkt: PktTriggerBossBattleStatus) -> (action:
        Action)
        ensures
            *final(self) == *old(self),
            action == Action::DeferNewEncounter,
    {
        Action::DeferNewEncounter
    }

    pub fn on_raid_result(&mut self, pkt: PktRaidResult) -> (action: Action)
        ensures
            *final(self) == *old(self),
            action == Action::DeferNewEncounter,
    {
        Action::DeferNewEncounter
    }

    pub fn on_init_pc(&mut self, pkt: PktInitPc) -> (action: Action)
        requires
            old(self).data@.wf(),
        ensures
            final(self).data@ == old(self).data@.on_init_pc(
                pkt.player_id,
                pkt.character_id,
                PlayerView {
                    name: Some(pkt.name@),
                    class: Class::of_id(pkt.class_id),
                    ilvl: pkt.gear_level,
                    character_id: Some(pkt.character_id),
                },
            ),
            final(self).data@.wf(),
            final(self).skill_data == old(self).skill_data,
            action == Action::Nothing,
    {
        let player = Player {
            name: Some(pkt.name.to_owned()),
            class: Class::from_id(pkt.class_id),
            ilvl: pkt.gear_level,
            character_id: Some(pkt.character_id),
        };
        match self.data.live.parties.remove(&pkt.character_id) {
            Some(party) => {
                self.data.live.parties.insert(pkt.player_id, party);
                replace_player(
                    self.data.current_env_mut(),
                    pkt.character_id,
                    pkt.player_id,
                    player,
                );
            },
            None => {
                assert(self.data.live@.parties =~= old(self).data@.live.parties);
                self.data.current_env_mut().add_player(pkt.player_id, player);
            },
        }
        Action::Nothing
    }

    pub fn on_new_pc(&mut self, pkt: PktNewPc) -> (action: Action)
        requires
            old(self).data@.wf(),
        ensures
            final(self).data@ == old(self).data@.on_new_pc(
                pkt.pc_struct.player_id,
                PlayerView {
                    name: Some(pkt.pc_struct.name@),
                    class: Class::of_id(pkt.pc_struct.class_id),
                    ilvl: pkt.pc_struct.avg_item_level,
                    character_id: Some(pkt.pc_struct.character_id),
                },
            ),
            final(self).data@.wf(),
            final(self).skill_data == old(self).skill_data,
            action == Action::Nothing,
    {
        let id = pkt.pc_struct.player_id;
        let player = Player::from_raw(&pkt.pc_struct);
        self.data.current_env_mut().add_player(id, player);
        Action::Nothing
    }

    pub fn on_new_npc(&mut self, pkt: PktNewNpc, now: u64) -> (action: Action)
        requires
            old(self).data@.wf(),
        ensures
            final(self).data@ == old(self).data@.on_new_npc(
                pkt.npc_struct.object_id,
                pkt.npc_struct.type_id,
                now,
            ),
            final(self).data@.wf(),
            final(self).skill_data == old(self).skill_data,
            action == Action::Nothing,
    {
        let npc = Npc {
            id: pkt.npc_struct.object_id,
            kind: pkt.npc_struct.type_id,
            name: "Boss".to_owned(),
        };
        match Boss::from_id(npc.kind) {
            Some(boss) => {
                if self.data.current_enc().bosses.len() == 0 {
                    self.data.new_encounter(now);
                }
                let enc = self.data.current_enc_mut();
                enc.bosses.push((npc.id, boss));
            },
            None => {},
        }
        let id = npc.id;
        self.data.current_env_mut().add_npc(id, npc);
        Action::Nothing
    }

    pub fn on_status_effect_add_notify(&mut self, pkt: PktStatusEffectAddNotify) -> (action: Action)
        requires
            old(self).data@.wf(),
        ensures
            final(self).data@ == old(self).data@.on_status_effect_add(
                pkt.object_id,
                pkt.status_effect_data,
            ),
            final(self).data@.wf(),
            final(self).skill_data == old(self).skill_data,
            action == Action::Nothing,
    {
        add_effect(&mut self.data.live, pkt.object_id, &pkt.status_effect_data);
        Action::Nothing
    }

    pub fn on_status_effect_remove_notify(&mut self, pkt: PktStatusEffectRemoveNotify) -> (action:
        Action)
        requires
            old(self).data@.wf(),
        ensures
            final(self).data@ == old(self).data@.on_status_effect_remove(
                pkt.object_id,
                pkt.status_effect_ids@,
            ),
            final(self).data@.wf(),
            final(self).skill_data == old(self).skill_data,
            action == Action::Nothing,
    {
        remove_effects(&mut self.data.live, pkt.object_id, &pkt.status_effect_ids);
        Action::Nothing
    }

    pub fn on_party_status_effect_add_notify(&mut self, pkt: PktPartyStatusEffectAddNotify) -> (action:
        Action)
        requires
            old(self).data@.wf(),
        ensures
            final(self).data@ == old(self).data@.on_party_status_effect_add(
                pkt.character_id,
                pkt.status_effect_datas@,
            ),
            final(self).data@.wf(),
            final(self).skill_data == old(self).skill_data,
            action == Action::Nothing,
    {
        match find_character(&self.data.current_env().players, pkt.character_id, true) {
            Some(id) => {
                let inner = match self.data.live.buffs.remove(&id) {
                    Some(inner) => inner,
                    None => BTreeMap::new(),
                };
                self.data.live.buffs.insert(id, inner);
                let ghost staged = self.data.live@;
                proof {
                    assert(staged.buffs =~= old(self).data@.live.buffs.insert(
                        id,
                        buffs_of(old(self).data@.live.buffs, id),
                    ));
                }
                let mut i: usize = 0;
                assert(pkt.status_effect_datas@.skip(0) =~= pkt.status_effect_datas@);
                while i < pkt.status_effect_datas.len()
                    invariant
                        0 <= i <= pkt.status_effect_datas@.len(),
                        self.data.environments == old(self).data.environments,
                        self.data.encounters == old(self).data.encounters,
                        self.skill_data == old(self).skill_data,
                        staged.add_effects(id, pkt.status_effect_datas@)
                            == self.data.live@.add_effects(
                            id,
                            pkt.status_effect_datas@.skip(i as int),
                        ),
                    decreases pkt.status_effect_datas@.len() - i,
                {
                    proof {
                        let rest = pkt.status_effect_datas@.skip(i as int);
                        assert(rest[0] == pkt.status_effect_datas@[i as int]);
                        assert(rest.skip(1) =~= pkt.status_effect_datas@.skip(i + 1));
                    }
                    add_effect(&mut self.data.live, id, &pkt.status_effect_datas[i]);
                    i = i + 1;
                }
            },
            None => {},
        }
        Action::Nothing
    }

    pub fn on_party_status_effect_remove_notify(
        &mut self,
        pkt: PktPartyStatusEffectRemoveNotify,
    ) -> (action: Action)
        requires
            old(self).data@.wf(),
        ensures
            final(self).data@ == old(self).data@.on_party_status_effect_remove(
                pkt.character_id,
                pkt.status_effect_ids@,
            ),
            final(self).data@.wf(),
            final(self).skill_data == old(self).skill_data,
            action == Action::Nothing,
    {
        match find_character(&self.data.current_env().players, pkt.character_id, true) {
            Some(id) => {
                remove_effects(&mut self.data.live, id, &pkt.status_effect_ids);
            },
            None => {},
        }
        Action::Nothing
    }

    pub fn on_party_status_effect_result_notify(
        &mut self,
        pkt: PktPartyStatusEffectResultNotify,
    ) -> (action: Action)
        requires
            old(self).data@.wf(),
        ensures
            final(self).data@ == old(self).data@.on_party_status_effect_result(
                pkt.character_id,
                pkt.party_instance_id,
            ),
            final(self).data@.wf(),
            final(self).skill_data == old(self).skill_data,
            action == Action::Nothing,
    {
        let key = match find_character(&self.data.current_env().players, pkt.character_id, true) {
            Some(id) => id,
            None => pkt.character_id,
        };
        self.data.live.parties.insert(key, pkt.party_instance_id);
        Action::Nothing
    }

    pub fn on_migration_execute(&mut self, pkt: PktMigrationExecute) -> (action: Action)
        requires
            old(self).data@.wf(),
        ensures
            final(self).data@ == old(self).data@.on_migration_execute(
                pkt.account_character_id1,
                pkt.account_character_id2,
            ),
            final(self).data@.wf(),
            final(self).skill_data == old(self).skill_data,
            action == Action::Nothing,
    {
        let cid = if pkt.account_character_id1 <= pkt.account_character_id2 {
            pkt.account_character_id1
        } else {
            pkt.account_character_id2
        };
        if self.data.current_env().pov().is_none() {
            let env = self.data.current_env_mut();
            env.pov_char_id = Some(cid);
            match env.pov {
                Some(pov) => {
                    match find_character(&env.players, cid, false) {
                        Some(key) => {
                            rekey_player(env, key, pov);
                        },
                        None => {},
                    }
                },
                None => {},
            }
        }
        Action::Nothing
    }
}

impl PlayerView {
    /// The record with the data of a party member filled in, where it has no
    /// name yet.
    pub open spec fn filled(self, member: PartyMemberView) -> PlayerView {
        if self.name is None {
            PlayerView {
                name: Some(member.name),
                class: Class::of_id(member.class_id),
                ilvl: member.gear_level,
                character_id: Some(member.character_id),
            }
        } else {
            self
        }
    }
}

impl DataView {
    /// The key that a party member without a known object id is filed under:
    /// the object id of the point of view where the member is the player
    /// running the meter and that player's record is missing, the character
    /// id otherwise.
    pub open spec fn party_member_key(self, needs_pov: bool, cid: u64) -> u64 {
        match (self.env().pov, self.env().pov_char_id) {
            (Some(pov), Some(c)) => if needs_pov && c == cid {
                pov
            } else {
                cid
            },
            _ => cid,
        }
    }

    /// Takes one member of a party: the member's record is found by the
    /// character id, or begun; name, class and gear level are filled in where
    /// the record has no name; the party is filed under the object id where
    /// the record was found, under the character id otherwise.
    pub open spec fn add_party_member(
        self,
        needs_pov: bool,
        party: u32,
        member: PartyMemberView,
    ) -> DataView {
        let players = self.env().players;
        match first_match(players, member.character_id, true) {
            Some(id) => (DataView {
                live: LiveView { parties: self.live.parties.insert(id, party), ..self.live },
                ..self
            }).with_players(players.insert(id, players[id].filled(member))),
            None => {
                let key = self.party_member_key(needs_pov, member.character_id);
                let begun = if players.contains_key(key) {
                    players[key]
                } else {
                    PlayerView::unknown()
                };
                (DataView {
                    live: LiveView {
                        parties: self.live.parties.insert(member.character_id, party),
                        ..self.live
                    },
                    ..self
                }).with_players(players.insert(key, begun.filled(member)))
            },
        }
    }

    pub open spec fn add_party_members(
        self,
        needs_pov: bool,
        party: u32,
        members: Seq<PartyMemberView>,
    ) -> DataView
        decreases members.len(),
    {
        if members.len() == 0 {
            self
        } else {
            self.add_party_member(needs_pov, party, members[0]).add_party_members(
                needs_pov,
                party,
                members.skip(1),
            )
        }
    }

    /// The members of a party, taken one after the other.
    pub open spec fn on_party_info(self, party: u32, members: Seq<PartyMemberView>) -> DataView {
        self.add_party_members(self.env().pov_player() is None, party, members)
    }
}

/// Takes one member of a party.
fn add_party_member(data: &mut Data, needs_pov: bool, party: u32, member: &PartyMemberData)
    requires
        old(data)@.wf(),
    ensures
        final(data)@ == old(data)@.add_party_member(needs_pov, party, member@),
        final(data)@.wf(),
{
    let cid = member.character_id;
    let env = data.current_env_mut();
    let found = find_character(&env.players, cid, true);
    let key = match found {
        Some(id) => id,
        None => match (env.pov, env.pov_char_id) {
            (Some(pov), Some(c)) => if needs_pov && c == cid {
                pov
            } else {
                cid
            },
            _ => cid,
        },
    };
    let ghost players = env@.players;
    proof {
        if found is Some {
            assert(is_first_match(players, cid, true, key));
            assert(players.contains_key(key));
        }
    }
    let mut player = match env.players.remove(&key) {
        Some(player) => player,
        None => Player::default(),
    };
    if player.name.is_none() {
        player.name = Some(member.name.to_owned());
        player.class = Class::from_id(member.class_id);
        player.ilvl = member.gear_level;
        player.character_id = Some(cid);
    }
    env.players.insert(key, player);
    proof {
        let begun = if players.contains_key(key) {
            players[key]
        } else {
            PlayerView::unknown()
        };
        assert(env@.players =~= players.insert(key, begun.filled(member@)));
    }
    let party_key = match found {
        Some(id) => id,
        None => cid,
    };
    data.live.parties.insert(party_key, party);
}

/// How far over zero the health of a target went below it.
pub open spec fn overkill(cur_hp: i64) -> int {
    if cur_hp < 0 {
        -cur_hp
    } else {
        0
    }
}

/// The damage of a hit that counts: what is left of it after the overkill,
/// and never less than nothing.
pub open spec fn effective_damage(damage: i64, cur_hp: i64) -> int {
    if damage - overkill(cur_hp) > 0 {
        damage - overkill(cur_hp)
    } else {
        0
    }
}

/// Computes the damage of a hit that counts.
pub fn effective(damage: i64, cur_hp: i64) -> (r: i64)
    ensures
        r == effective_damage(damage, cur_hp),
{
    if cur_hp >= 0 {
        if damage > 0 {
            damage
        } else {
            0
        }
    } else if damage <= 0 {
        0
    } else {
        // Both fit: the damage is positive and the health negative.
        let left = damage + cur_hp;
        if left > 0 {
            left
        } else {
            0
        }
    }
}

/// The wire value of the hit flag in a damage modifier.
pub open spec fn flag_raw(modifier: u8) -> u8 {
    modifier % 16
}

/// The wire value of the hit option in a damage modifier.
pub open spec fn option_raw(modifier: u8) -> u8 {
    (modifier / 16) % 8
}

impl SkillDamageEvent {
    /// The hit flag of the event.
    pub fn flag(&self) -> (r: Result<HitFlag, MeterError>)
        ensures
            match r {
                Ok(flag) => HitFlag::of_raw(flag_raw(self.modifier)) == Some(flag),
                Err(e) => HitFlag::of_raw(flag_raw(self.modifier)) is None && e
                    == MeterError::InvalidHitFlag(flag_raw(self.modifier)),
            },
    {
        let raw = self.modifier % 16;
        match HitFlag::from_raw(raw) {
            Some(flag) => Ok(flag),
            None => Err(MeterError::InvalidHitFlag(raw)),
        }
    }

    /// The hit option of the event.
    pub fn option(&self) -> (r: Result<HitOption, MeterError>)
        ensures
            match r {
                Ok(option) => HitOption::of_raw(option_raw(self.modifier)) == Some(option),
                Err(e) => HitOption::of_raw(option_raw(self.modifier)) is None && e
                    == MeterError::InvalidHitOption(option_raw(self.modifier)),
            },
    {
        let raw = (self.modifier / 16) % 8;
        match HitOption::from_raw(raw) {
            Some(option) => Ok(option),
            None => Err(MeterError::InvalidHitOption(raw)),
        }
    }
}

/// A damage event that counts.
pub struct CountedHit {
    /// The damage after the overkill; more than nothing.
    pub damage: i64,
    pub flag: HitFlag,
    pub option: HitOption,
}

/// What a damage event counts as. The modifier is decoded first: it is an
/// error where it names no hit flag, and then where it names no hit option.
/// A hit without damage and shared damage count as nothing; all else is a
/// hit.
pub open spec fn classify(evt: SkillDamageEvent) -> Result<Option<CountedHit>, MeterError> {
    match HitFlag::of_raw(flag_raw(evt.modifier)) {
        None => Err(MeterError::InvalidHitFlag(flag_raw(evt.modifier))),
        Some(flag) => match HitOption::of_raw(option_raw(evt.modifier)) {
            None => Err(MeterError::InvalidHitOption(option_raw(evt.modifier))),
            Some(option) => if effective_damage(evt.damage, evt.cur_hp) == 0 || flag
                == HitFlag::DamageShare {
                Ok(None)
            } else {
                Ok(
                    Some(
                        CountedHit {
                            damage: effective_damage(evt.damage, evt.cur_hp) as i64,
                            flag,
                            option,
                        },
                    ),
                )
            },
        },
    }
}

/// Classifies a damage event.
pub fn classify_event(evt: &SkillDamageEvent) -> (r: Result<Option<CountedHit>, MeterError>)
    ensures
        r == classify(*evt),
{
    let flag = evt.flag()?;
    let option = evt.option()?;
    let damage = effective(evt.damage, evt.cur_hp);
    if damage == 0 {
        return Ok(None);
    }
    if flag == HitFlag::DamageShare {
        return Ok(None);
    }
    Ok(Some(CountedHit { damage, flag, option }))
}

/// One more where `on` holds.
pub open spec fn bumped(count: int, on: bool) -> int {
    if on {
        count + 1
    } else {
        count
    }
}

/// The damage more where `on` holds.
pub open spec fn raised(total: int, on: bool, damage: int) -> int {
    if on {
        total + damage
    } else {
        total
    }
}

/// What holds of a hit besides the hit itself.
pub struct HitMarks {
    /// The target carries a brand that counts for the source.
    pub branded: bool,
    /// The source carries an attack power buff.
    pub has_ap: bool,
    /// The source carries an identity buff.
    pub has_ident: bool,
}

impl SkillUsageView {
    /// Whether the counters have room for one more hit.
    pub open spec fn fits(self, hit: CountedHit) -> bool {
        self.count < usize::MAX && self.crits < usize::MAX && self.back < usize::MAX && self.front
            < usize::MAX && self.brand < usize::MAX && self.ap_buff < usize::MAX && self.ident_buff
            < usize::MAX && i64::MIN <= self.damage + hit.damage <= i64::MAX
    }

    /// The record with one more hit.
    pub open spec fn record_hit(self, now: u64, target_id: u64, hit: CountedHit, marks: HitMarks) -> SkillUsageView {
        SkillUsageView {
            name: self.name,
            count: (self.count + 1) as usize,
            crits: bumped(self.crits as int, hit.flag.crit()) as usize,
            damage: (self.damage + hit.damage) as i64,
            back: bumped(self.back as int, hit.option == HitOption::BackAttack) as usize,
            front: bumped(self.front as int, hit.option == HitOption::FrontalAttack) as usize,
            brand: bumped(self.brand as int, marks.branded) as usize,
            ap_buff: bumped(self.ap_buff as int, marks.has_ap) as usize,
            ident_buff: bumped(self.ident_buff as int, marks.has_ident) as usize,
            hits: self.hits.push(
                (
                    now,
                    SkillHit {
                        damage: hit.damage,
                        target_id,
                        is_crit: hit.flag.crit(),
                        is_back_attack: hit.option == HitOption::BackAttack,
                        is_front_attack: hit.option == HitOption::FrontalAttack,
                    },
                ),
            ),
        }
    }
}

/// The name that a skill is first recorded under: the name in the database,
/// and "Bleed" for the skill 0 of a damage over time that the database does
/// not have.
pub open spec fn first_name(db_name: Option<Seq<char>>, skill_id: u32, flag: HitFlag) -> Option<
    Seq<char>,
> {
    match db_name {
        None => if skill_id == 0 && flag.dot() {
            Some("Bleed"@)
        } else {
            None
        },
        Some(name) => Some(name),
    }
}

impl PlayerDataView {
    /// The record of a skill, a fresh one under `name` where there is none.
    pub open spec fn skill_entry(self, skill_id: u32, name: Option<Seq<char>>) -> SkillUsageView {
        if self.skills.contains_key(skill_id) {
            self.skills[skill_id]
        } else {
            SkillUsageView::unused(name)
        }
    }

    /// Whether the counters have room for one more hit.
    pub open spec fn fits(self, hit: CountedHit) -> bool {
        self.hits < u64::MAX && self.brand_hits < u64::MAX && self.ap_hits < u64::MAX
            && self.ident_hits < u64::MAX && i64::MIN <= self.dmg_dealt + hit.damage <= i64::MAX
            && i64::MIN <= self.brand_dmg + hit.damage <= i64::MAX && i64::MIN <= self.ap_dmg
            + hit.damage <= i64::MAX && i64::MIN <= self.ident_dmg + hit.damage <= i64::MAX
    }

    /// The record with one more hit of the skill.
    pub open spec fn record_hit(
        self,
        skill_id: u32,
        name: Option<Seq<char>>,
        now: u64,
        target_id: u64,
        hit: CountedHit,
        marks: HitMarks,
    ) -> PlayerDataView {
        PlayerDataView {
            dmg_dealt: (self.dmg_dealt + hit.damage) as i64,
            hits: (self.hits + 1) as u64,
            brand_dmg: raised(self.brand_dmg as int, marks.branded, hit.damage as int) as i64,
            brand_hits: bumped(self.brand_hits as int, marks.branded) as u64,
            ap_dmg: raised(self.ap_dmg as int, marks.has_ap, hit.damage as int) as i64,
            ap_hits: bumped(self.ap_hits as int, marks.has_ap) as u64,
            ident_dmg: raised(self.ident_dmg as int, marks.has_ident, hit.damage as int) as i64,
            ident_hits: bumped(self.ident_hits as int, marks.has_ident) as u64,
            skills: self.skills.insert(
                skill_id,
                self.skill_entry(skill_id, name).record_hit(now, target_id, hit, marks),
            ),
            damage: self.damage.push((now, hit.damage)),
            casts: self.casts.push((now, skill_id)),
        }
    }

    /// Whether both the player's and the skill's counters have room.
    pub open spec fn hit_fits(self, skill_id: u32, hit: CountedHit) -> bool {
        self.fits(hit) && self.skill_entry(skill_id, None).fits(hit)
    }
}

fn bump_usize(count: usize, on: bool) -> (r: Option<usize>)
    ensures
        match r {
            Some(v) => v == bumped(count as int, on) && count < usize::MAX,
            None => count == usize::MAX,
        },
{
    if on {
        count.checked_add(1)
    } else if count == usize::MAX {
        None
    } else {
        Some(count)
    }
}

fn bump_u64(count: u64, on: bool) -> (r: Option<u64>)
    ensures
        match r {
            Some(v) => v == bumped(count as int, on) && count < u64::MAX,
            None => count == u64::MAX,
        },
{
    if on {
        count.checked_add(1)
    } else if count == u64::MAX {
        None
    } else {
        Some(count)
    }
}

fn raise_i64(total: i64, on: bool, damage: i64) -> (r: Option<i64>)
    ensures
        match r {
            Some(v) => v == raised(total as int, on, damage as int) && i64::MIN <= total + damage
                <= i64::MAX,
            None => !(i64::MIN <= total + damage <= i64::MAX),
        },
{
    match total.checked_add(damage) {
        Some(sum) => if on {
            Some(sum)
        } else {
            Some(total)
        },
        None => None,
    }
}

/// Records one more hit of a skill; leaves the record as it is and returns
/// false where a counter has no room.
fn record_skill_hit(skill: &mut SkillUsage, now: u64, target_id: u64, hit: &CountedHit, marks: &HitMarks) -> (ok:
    bool)
    ensures
        ok == old(skill)@.fits(*hit),
        ok ==> final(skill)@ == old(skill)@.record_hit(now, target_id, *hit, *marks),
        !ok ==> *final(skill) == *old(skill),
{
    let is_crit = hit.flag.is_crit();
    let is_back = matches!(hit.option, HitOption::BackAttack);
    let is_front = matches!(hit.option, HitOption::FrontalAttack);
    let count = match bump_usize(skill.count, true) {
        Some(v) => v,
        None => {
            return false;
        },
    };
    let crits = match bump_usize(skill.crits, is_crit) {
        Some(v) => v,
        None => {
            return false;
        },
    };
    let back = match bump_usize(skill.back, is_back) {
        Some(v) => v,
        None => {
            return false;
        },
    };
    let front = match bump_usize(skill.front, is_front) {
        Some(v) => v,
        None => {
            return false;
        },
    };
    let brand = match bump_usize(skill.brand, marks.branded) {
        Some(v) => v,
        None => {
            return false;
        },
    };
    let ap_buff = match bump_usize(skill.ap_buff, marks.has_ap) {
        Some(v) => v,
        None => {
            return false;
        },
    };
    let ident_buff = match bump_usize(skill.ident_buff, marks.has_ident) {
        Some(v) => v,
        None => {
            return false;
        },
    };
    let damage = match raise_i64(skill.damage, true, hit.damage) {
        Some(v) => v,
        None => {
            return false;
        },
    };
    skill.count = count;
    skill.crits = crits;
    skill.back = back;
    skill.front = front;
    skill.brand = brand;
    skill.ap_buff = ap_buff;
    skill.ident_buff = ident_buff;
    skill.damage = damage;
    skill.hits.push(
        (
            now,
            SkillHit {
                damage: hit.damage,
                target_id,
                is_crit,
                is_back_attack: is_back,
                is_front_attack: is_front,
            },
        ),
    );
    true
}

/// The text as an owned value.
fn owned_name(name: Option<&str>) -> (r: Option<String>)
    ensures
        text_view(r) == match name {
            Some(text) => Some(text@),
            None => None,
        },
{
    match name {
        Some(text) => Some(text.to_owned()),
        None => None,
    }
}

/// Records one more hit of a player; leaves the record as it is and returns
/// false where a counter has no room.
fn record_player_hit(
    player: &mut PlayerData,
    skill_id: u32,
    name: Option<&str>,
    now: u64,
    target_id: u64,
    hit: &CountedHit,
    marks: &HitMarks,
) -> (ok: bool)
    ensures
        ok == old(player)@.hit_fits(skill_id, *hit),
        ok ==> final(player)@ == old(player)@.record_hit(
            skill_id,
            match name {
                Some(text) => Some(text@),
                None => None,
            },
            now,
            target_id,
            *hit,
            *marks,
        ),
        !ok ==> final(player)@ == old(player)@,
{
    let hits = match bump_u64(player.hits, true) {
        Some(v) => v,
        None => {
            return false;
        },
    };
    let brand_hits = match bump_u64(player.brand_hits, marks.branded) {
        Some(v) => v,
        None => {
            return false;
        },
    };
    let ap_hits = match bump_u64(player.ap_hits, marks.has_ap) {
        Some(v) => v,
        None => {
            return false;
        },
    };
    let ident_hits = match bump_u64(player.ident_hits, marks.has_ident) {
        Some(v) => v,
        None => {
            return false;
        },
    };
    let dmg_dealt = match raise_i64(player.dmg_dealt, true, hit.damage) {
        Some(v) => v,
        None => {
            return false;
        },
    };
    let brand_dmg = match raise_i64(player.brand_dmg, marks.branded, hit.damage) {
        Some(v) => v,
        None => {
            return false;
        },
    };
    let ap_dmg = match raise_i64(player.ap_dmg, marks.has_ap, hit.damage) {
        Some(v) => v,
        None => {
            return false;
        },
    };
    let ident_dmg = match raise_i64(player.ident_dmg, marks.has_ident, hit.damage) {
        Some(v) => v,
        None => {
            return false;
        },
    };
    let ghost skills = player@.skills;
    let mut skill = match player.skills.remove(&skill_id) {
        Some(skill) => skill,
        None => {
            let mut skill = SkillUsage::default();
            skill.name = owned_name(name);
            skill
        },
    };
    let ghost entry = skill@;
    let ok = record_skill_hit(&mut skill, now, target_id, hit, marks);
    player.skills.insert(skill_id, skill);
    if !ok {
        proof {
            assert(player@.skills =~= skills);
        }
        return false;
    }
    player.hits = hits;
    player.brand_hits = brand_hits;
    player.ap_hits = ap_hits;
    player.ident_hits = ident_hits;
    player.dmg_dealt = dmg_dealt;
    player.brand_dmg = brand_dmg;
    player.ap_dmg = ap_dmg;
    player.ident_dmg = ident_dmg;
    player.damage.push((now, hit.damage));
    player.casts.push((now, skill_id));
    proof {
        assert(player@.skills =~= skills.insert(
            skill_id,
            entry.record_hit(now, target_id, *hit, *marks),
        ));
    }
    true
}

/// The entity behind a chain of projectiles: the owner of the owner and so
/// on, until an id is no projectile. `None` where the chain is longer than
/// `hops`.
pub open spec fn resolve_source(projectiles: Map<u64, Projectile>, id: u64, hops: nat) -> Option<
    u64,
>
    decreases hops,
{
    if !projectiles.contains_key(id) {
        Some(id)
    } else if hops == 0 {
        None
    } else {
        resolve_source(projectiles, projectiles[id].owner_id, (hops - 1) as nat)
    }
}

/// The boss that the last entry for `target` on the list names.
pub open spec fn last_boss(bosses: Seq<(u64, Boss)>, target: u64) -> Option<Boss>
    decreases bosses.len(),
{
    if bosses.len() == 0 {
        None
    } else if bosses.last().0 == target {
        Some(bosses.last().1)
    } else {
        last_boss(bosses.drop_last(), target)
    }
}

/// What stays the same over the damage events of one packet.
pub struct DamageContext {
    /// The player that the damage goes to.
    pub source: u64,
    pub skill_id: u32,
    pub now: u64,
    /// Name of the skill in the database.
    pub db_name: Option<Seq<char>>,
    /// Party of the source.
    pub party: Option<u32>,
    pub has_ap: bool,
    pub has_ident: bool,
}

/// What the damage events of one packet leave.
pub struct Batch {
    pub state: DataView,
    /// Whether a hit that counts landed on a boss of the encounter.
    pub hit_boss: bool,
    /// The error that ended the batch early.
    pub error: Option<MeterError>,
}

impl DataView {
    /// What holds of a hit on `target` besides the hit itself.
    pub open spec fn marks(self, ctx: DamageContext, target: u64) -> HitMarks {
        HitMarks {
            branded: self.live.has_brand(ctx.source, target, ctx.party),
            has_ap: ctx.has_ap,
            has_ident: ctx.has_ident,
        }
    }

    /// Whether the event is a hit that counts on a boss of the encounter.
    pub open spec fn hits_boss(self, evt: SkillDamageEvent) -> bool {
        classify(evt) matches Ok(Some(_)) && last_boss(self.enc().bosses, evt.target_id) is Some
    }

    /// Applies one damage event of the player `ctx.source`, who has a record
    /// in the current encounter. A hit that counts is added to the player's
    /// record; where the target is a boss of the encounter, its health is
    /// noted. Nothing changes where a counter has no room.
    pub open spec fn apply_event(self, ctx: DamageContext, evt: SkillDamageEvent) -> Result<
        DataView,
        MeterError,
    > {
        match classify(evt) {
            Err(e) => Err(e),
            Ok(None) => Ok(self),
            Ok(Some(hit)) => {
                let player = self.enc().players[ctx.source];
                if !player.hit_fits(ctx.skill_id, hit) {
                    Err(MeterError::CounterOverflow)
                } else {
                    let recorded = player.record_hit(
                        ctx.skill_id,
                        first_name(ctx.db_name, ctx.skill_id, hit.flag),
                        ctx.now,
                        evt.target_id,
                        hit,
                        self.marks(ctx, evt.target_id),
                    );
                    let live = match last_boss(self.enc().bosses, evt.target_id) {
                        Some(boss) => LiveView {
                            boss_health: self.live.boss_health.insert(
                                evt.target_id,
                                BossInfo {
                                    max_hp: evt.max_hp,
                                    cur_hp: evt.cur_hp,
                                    bar_count: boss.bars(),
                                },
                            ),
                            recently_tracked: Some(evt.target_id),
                            ..self.live
                        },
                        None => self.live,
                    };
                    Ok(
                        (DataView { live, ..self }).with_enc(
                            EncounterView {
                                players: self.enc().players.insert(ctx.source, recorded),
                                ..self.enc()
                            },
                        ),
                    )
                }
            },
        }
    }

    /// Applies damage events one after the other, up to the first that
    /// fails.
    pub open spec fn apply_events(
        self,
        ctx: DamageContext,
        events: Seq<SkillDamageEvent>,
        hit_boss: bool,
    ) -> Batch
        decreases events.len(),
    {
        if events.len() == 0 {
            Batch { state: self, hit_boss, error: None }
        } else {
            match self.apply_event(ctx, events[0]) {
                Err(e) => Batch { state: self, hit_boss, error: Some(e) },
                Ok(next) => next.apply_events(
                    ctx,
                    events.skip(1),
                    hit_boss || self.hits_boss(events[0]),
                ),
            }
        }
    }

    /// Notes that damage was done at `now`, where the encounter has no boss
    /// on its list or one of them was hit.
    pub open spec fn mark_damage(self, now: u64, hit_boss: bool) -> DataView {
        if self.enc().bosses.len() == 0 || hit_boss {
            self.with_enc(
                EncounterView {
                    first_damage: match self.enc().first_damage {
                        Some(t) => Some(t),
                        None => Some(now),
                    },
                    last_damage: Some(now),
                    ..self.enc()
                },
            )
        } else {
            self
        }
    }

    /// The state in which the source of damage has a record in the current
    /// environment and in the current encounter. A source that is not known
    /// yet becomes a nameless player of the class that the skill belongs to;
    /// where the database has no class for the skill, there is no such state.
    pub open spec fn with_source(self, db: Map<u32, SkillInfoView>, source: u64, skill_id: u32) -> Option<
        DataView,
    > {
        let known = if self.env().players.contains_key(source) {
            Some(self)
        } else {
            match skill_class(db, skill_id) {
                Some(class) => Some(
                    self.with_players(
                        self.env().players.insert(
                            source,
                            PlayerView { name: None, class, ilvl: 0, character_id: None },
                        ),
                    ),
                ),
                None => None,
            }
        };
        match known {
            Some(s) => Some(
                if s.enc().players.contains_key(source) {
                    s
                } else {
                    s.with_enc(
                        EncounterView {
                            players: s.enc().players.insert(source, PlayerDataView::idle()),
                            ..s.enc()
                        },
                    )
                },
            ),
            None => None,
        }
    }

    /// What stays the same over the damage events of `source`.
    pub open spec fn damage_context(
        self,
        db: Map<u32, SkillInfoView>,
        source: u64,
        skill_id: u32,
        now: u64,
    ) -> DamageContext {
        DamageContext {
            source,
            skill_id,
            now,
            db_name: skill_name(db, skill_id),
            party: if self.live.parties.contains_key(source) {
                Some(self.live.parties[source])
            } else {
                None
            },
            has_ap: self.live.has_ap_buff(source),
            has_ident: self.live.has_ident_buff(source),
        }
    }

    /// The damage events of one packet. The source is followed through the
    /// projectiles to the entity behind them, over at most as many hops as
    /// there are projectiles; the events are dropped where that finds no end
    /// and where the source is unknown and its skill has no class. Else the
    /// events are applied in order, and after the last the time of damage is
    /// noted. An event that fails ends the packet with what came before it
    /// applied.
    pub open spec fn process_damages(
        self,
        db: Map<u32, SkillInfoView>,
        source_id: u64,
        skill_id: u32,
        events: Seq<SkillDamageEvent>,
        now: u64,
    ) -> (DataView, Result<Action, MeterError>) {
        match resolve_source(
            self.env().projectiles,
            source_id,
            self.env().projectiles.dom().len(),
        ) {
            None => (self, Ok(Action::Nothing)),
            Some(source) => match self.with_source(db, source, skill_id) {
                None => (self, Ok(Action::Nothing)),
                Some(ready) => {
                    let batch = ready.apply_events(
                        ready.damage_context(db, source, skill_id, now),
                        events,
                        false,
                    );
                    match batch.error {
                        Some(e) => (batch.state, Err(e)),
                        None => (batch.state.mark_damage(now, batch.hit_boss), Ok(Action::Repaint)),
                    }
                },
            },
        }
    }
}

/// Follows a source through the projectiles to the entity behind them.
pub fn resolve_projectile(projectiles: &BTreeMap<u64, Projectile>, source_id: u64) -> (r: Option<u64>)
    ensures
        r == resolve_source(projectiles@, source_id, projectiles@.dom().len()),
{
    broadcast use vstd::std_specs::btree::group_btree_axioms;

    let limit = projectiles.len();
    let mut id = source_id;
    let mut hops: usize = 0;
    loop
        invariant
            0 <= hops <= limit,
            limit == projectiles@.dom().len(),
            resolve_source(projectiles@, source_id, limit as nat) == resolve_source(
                projectiles@,
                id,
                (limit - hops) as nat,
            ),
        decreases limit - hops,
    {
        match projectiles.get(&id) {
            None => {
                return Some(id);
            },
            Some(projectile) => {
                if hops == limit {
                    return None;
                }
                id = projectile.owner_id;
                hops = hops + 1;
            },
        }
    }
}

/// The boss that the last entry for `target` on the list names.
pub fn find_boss(bosses: &Vec<(u64, Boss)>, target: u64) -> (r: Option<Boss>)
    ensures
        r == last_boss(bosses@, target),
{
    let mut i: usize = bosses.len();
    assert(bosses@.take(i as int) =~= bosses@);
    while i > 0
        invariant
            0 <= i <= bosses@.len(),
            last_boss(bosses@, target) == last_boss(bosses@.take(i as int), target),
        decreases i,
    {
        i = i - 1;
        proof {
            let head = bosses@.take(i + 1);
            assert(head.last() == bosses@[i as int]);
            assert(head.drop_last() =~= bosses@.take(i as int));
        }
        if bosses[i].0 == target {
            return Some(bosses[i].1);
        }
    }
    None
}

/// Applies one damage event of a player with a record in the current
/// encounter.
fn apply_damage_event(
    data: &mut Data,
    source: u64,
    skill_id: u32,
    now: u64,
    db_name: Option<&str>,
    party: Option<u32>,
    has_ap: bool,
    has_ident: bool,
    evt: &SkillDamageEvent,
) -> (r: Result<bool, MeterError>)
    requires
        old(data)@.wf(),
        old(data)@.enc().players.contains_key(source),
    ensures
        ({
            let ctx = DamageContext {
                source,
                skill_id,
                now,
                db_name: match db_name {
                    Some(text) => Some(text@),
                    None => None,
                },
                party,
                has_ap,
                has_ident,
            };
            match r {
                Ok(hit_boss) => old(data)@.apply_event(ctx, *evt) == Ok::<
                    DataView,
                    MeterError,
                >(final(data)@) && hit_boss == old(data)@.hits_boss(*evt),
                Err(e) => old(data)@.apply_event(ctx, *evt) == Err::<DataView, MeterError>(
                    e,
                ) && final(data)@ == old(data)@,
            }
        }),
        final(data)@.wf(),
        final(data)@.enc().players.contains_key(source),
{
    let hit = match classify_event(evt)? {
        Some(hit) => hit,
        None => {
            return Ok(false);
        },
    };
    let marks = HitMarks {
        branded: data.live.target_has_brand(source, evt.target_id, party),
        has_ap,
        has_ident,
    };
    let is_bleed = skill_id == 0 && hit.flag.is_dot();
    let name = match db_name {
        Some(text) => Some(text),
        None => if is_bleed {
            Some("Bleed")
        } else {
            None
        },
    };
    let enc = data.current_enc_mut();
    let ghost players = enc@.players;
    let mut player = match enc.players.remove(&source) {
        Some(player) => player,
        None => PlayerData::default(),
    };
    let ok = record_player_hit(&mut player, skill_id, name, now, evt.target_id, &hit, &marks);
    enc.players.insert(source, player);
    if !ok {
        proof {
            assert(enc@.players =~= players);
            assert(data@.encounters =~= old(data)@.encounters);
        }
        return Err(MeterError::CounterOverflow);
    }
    proof {
        assert(enc@.players =~= players.insert(
            source,
            players[source].record_hit(
                skill_id,
                first_name(
                    match db_name {
                        Some(text) => Some(text@),
                        None => None,
                    },
                    skill_id,
                    hit.flag,
                ),
                now,
                evt.target_id,
                hit,
                marks,
            ),
        ));
    }
    match find_boss(&enc.bosses, evt.target_id) {
        Some(boss) => {
            data.live.recently_tracked = Some(evt.target_id);
            data.live.boss_health.insert(
                evt.target_id,
                BossInfo { max_hp: evt.max_hp, cur_hp: evt.cur_hp, bar_count: boss.max_bars() },
            );
            Ok(true)
        },
        None => Ok(false),
    }
}


impl Meter {
    pub fn on_party_info(&mut self, pkt: PktPartyInfo) -> (action: Action)
        requires
            old(self).data@.wf(),
        ensures
            final(self).data@ == old(self).data@.on_party_info(
                pkt.party_instance_id,
                member_views(pkt.member_datas@),
            ),
            final(self).data@.wf(),
            final(self).skill_data == old(self).skill_data,
            action == Action::Nothing,
    {
        let needs_pov = self.data.current_env().pov().is_none();
        let ghost members = member_views(pkt.member_datas@);
        let mut i: usize = 0;
        assert(members.skip(0) =~= members);
        while i < pkt.member_datas.len()
            invariant
                0 <= i <= pkt.member_datas@.len(),
                members == member_views(pkt.member_datas@),
                self.skill_data == old(self).skill_data,
                self.data@.wf(),
                old(self).data@.add_party_members(needs_pov, pkt.party_instance_id, members)
                    == self.data@.add_party_members(
                    needs_pov,
                    pkt.party_instance_id,
                    members.skip(i as int),
                ),
            decreases pkt.member_datas@.len() - i,
        {
            proof {
                let rest = members.skip(i as int);
                assert(rest[0] == pkt.member_datas@[i as int]@);
                assert(rest.skip(1) =~= members.skip(i + 1));
            }
            add_party_member(
                &mut self.data,
                needs_pov,
                pkt.party_instance_id,
                &pkt.member_datas[i],
            );
            i = i + 1;
        }
        Action::Nothing
    }

    /// Finds the player that damage of `source_id` goes to and makes sure
    /// that the player has a record in the current environment and in the
    /// current encounter.
    fn prepare_source(&mut self, source_id: u64, skill_id: u32) -> (r: Option<u64>)
        requires
            old(self).data@.wf(),
        ensures
            r == match resolve_source(
                old(self).data@.env().projectiles,
                source_id,
                old(self).data@.env().projectiles.dom().len(),
            ) {
                Some(source) => if old(self).data@.with_source(
                    old(self).skill_data@,
                    source,
                    skill_id,
                ) is Some {
                    Some(source)
                } else {
                    None
                },
                None => None,
            },
            match r {
                Some(source) => old(self).data@.with_source(
                    old(self).skill_data@,
                    source,
                    skill_id,
                ) == Some(final(self).data@) && final(self).data@.enc().players.contains_key(
                    source,
                ),
                None => final(self).data@ == old(self).data@,
            },
            final(self).data@.wf(),
            final(self).skill_data == old(self).skill_data,
    {
        let source = match resolve_projectile(&self.data.current_env().projectiles, source_id) {
            Some(source) => source,
            None => {
                return None;
            },
        };
        if !self.data.current_env().players.contains_key(&source) {
            match self.skill_data.class_for(skill_id) {
                Some(class) => {
                    let player = Player { name: None, class, ilvl: 0, character_id: None };
                    self.data.current_env_mut().add_player(source, player);
                },
                None => {
                    return None;
                },
            }
        }
        let ghost known = self.data@;
        let enc = self.data.current_enc_mut();
        if !enc.players.contains_key(&source) {
            enc.players.insert(source, PlayerData::default());
            proof {
                assert(enc@.players =~= known.enc().players.insert(source, PlayerDataView::idle()));
            }
        } else {
            proof {
                assert(self.data@.encounters =~= known.encounters);
            }
        }
        Some(source)
    }

    /// Applies the damage events of a player with a record in the current
    /// encounter, up to the first that fails. Returns whether a boss of the
    /// encounter was hit.
    fn apply_batch(&mut self, source: u64, skill_id: u32, events: &Vec<SkillDamageEvent>, now: u64) -> (r:
        Result<bool, MeterError>)
        requires
            old(self).data@.wf(),
            old(self).data@.enc().players.contains_key(source),
        ensures
            ({
                let batch = old(self).data@.apply_events(
                    old(self).data@.damage_context(old(self).skill_data@, source, skill_id, now),
                    events@,
                    false,
                );
                &&& final(self).data@ == batch.state
                &&& match r {
                    Ok(hit_boss) => batch.error is None && batch.hit_boss == hit_boss,
                    Err(e) => batch.error == Some(e),
                }
            }),
            final(self).data@.wf(),
            final(self).skill_data == old(self).skill_data,
    {
        let party = match self.data.live.parties.get(&source) {
            Some(party) => Some(*party),
            None => None,
        };
        let has_ap = self.data.live.player_has_ap_buff(source);
        let has_ident = self.data.live.player_has_ident_buff(source);
        let ghost ctx = old(self).data@.damage_context(old(self).skill_data@, source, skill_id, now);
        let mut hit_boss = false;
        let mut i: usize = 0;
        assert(events@.skip(0) =~= events@);
        while i < events.len()
            invariant
                0 <= i <= events@.len(),
                self.skill_data == old(self).skill_data,
                self.data@.wf(),
                self.data@.enc().players.contains_key(source),
                ctx == old(self).data@.damage_context(old(self).skill_data@, source, skill_id, now),
                ctx.party == party,
                ctx.has_ap == has_ap,
                ctx.has_ident == has_ident,
                old(self).data@.apply_events(ctx, events@, false) == self.data@.apply_events(
                    ctx,
                    events@.skip(i as int),
                    hit_boss,
                ),
            decreases events@.len() - i,
        {
            proof {
                let rest = events@.skip(i as int);
                assert(rest[0] == events@[i as int]);
                assert(rest.skip(1) =~= events@.skip(i + 1));
            }
            let db_name = self.skill_data.name(skill_id);
            match apply_damage_event(
                &mut self.data,
                source,
                skill_id,
                now,
                db_name,
                party,
                has_ap,
                has_ident,
                &events[i],
            ) {
                Ok(hit) => {
                    hit_boss = hit_boss || hit;
                },
                Err(e) => {
                    return Err(e);
                },
            }
            i = i + 1;
        }
        Ok(hit_boss)
    }

    /// Applies the damage events of one packet.
    pub fn process_damages(
        &mut self,
        source_id: u64,
        skill_id: u32,
        events: &Vec<SkillDamageEvent>,
        now: u64,
    ) -> (r: Result<Action, MeterError>)
        requires
            old(self).data@.wf(),
        ensures
            final(self).data@ == old(self).data@.process_damages(
                old(self).skill_data@,
                source_id,
                skill_id,
                events@,
                now,
            ).0,
            r == old(self).data@.process_damages(
                old(self).skill_data@,
                source_id,
                skill_id,
                events@,
                now,
            ).1,
            final(self).data@.wf(),
            final(self).skill_data == old(self).skill_data,
    {
        let source = match self.prepare_source(source_id, skill_id) {
            Some(source) => source,
            None => {
                return Ok(Action::Nothing);
            },
        };
        let hit_boss = self.apply_batch(source, skill_id, events, now)?;
        if self.data.current_enc().bosses.len() == 0 || hit_boss {
            let enc = self.data.current_enc_mut();
            if enc.first_damage.is_none() {
                enc.first_damage = Some(now);
            }
            enc.last_damage = Some(now);
        }
        Ok(Action::Repaint)
    }

    pub fn on_skill_damage_notify(&mut self, pkt: PktSkillDamageNotify, now: u64) -> (r: Result<
        Action,
        MeterError,
    >)
        requires
            old(self).data@.wf(),
        ensures
            final(self).data@ == old(self).data@.process_damages(
                old(self).skill_data@,
                pkt.source_id,
                pkt.skill_id,
                pkt.skill_damage_events@,
                now,
            ).0,
            r == old(self).data@.process_damages(
                old(self).skill_data@,
                pkt.source_id,
                pkt.skill_id,
                pkt.skill_damage_events@,
                now,
            ).1,
            final(self).data@.wf(),
            final(self).skill_data == old(self).skill_data,
    {
        self.process_damages(pkt.source_id, pkt.skill_id, &pkt.skill_damage_events, now)
    }

    pub fn on_skill_damage_abnormal_move_notify(
        &mut self,
        pkt: PktSkillDamageAbnormalMoveNotify,
        now: u64,
    ) -> (r: Result<Action, MeterError>)
        requires
            old(self).data@.wf(),
        ensures
            final(self).data@ == old(self).data@.process_damages(
                old(self).skill_data@,
                pkt.source_id,
                pkt.skill_id,
                inner_events(pkt.skill_damage_abnormal_move_events@),
                now,
            ).0,
            r == old(self).data@.process_damages(
                old(self).skill_data@,
                pkt.source_id,
                pkt.skill_id,
                inner_events(pkt.skill_damage_abnormal_move_events@),
                now,
            ).1,
            final(self).data@.wf(),
            final(self).skill_data == old(self).skill_data,
    {
        let mut events: Vec<SkillDamageEvent> = Vec::new();
        let mut i: usize = 0;
        while i < pkt.skill_damage_abnormal_move_events.len()
            invariant
                0 <= i <= pkt.skill_damage_abnormal_move_events@.len(),
                events@ == inner_events(pkt.skill_damage_abnormal_move_events@).take(i as int),
            decreases pkt.skill_damage_abnormal_move_events@.len() - i,
        {
            events.push(pkt.skill_damage_abnormal_move_events[i].skill_damage_event);
            proof {
                let all = inner_events(pkt.skill_damage_abnormal_move_events@);
                assert(all.take(i as int).push(all[i as int]) =~= all.take(i + 1));
            }
            i = i + 1;
        }
        proof {
            let all = inner_events(pkt.skill_damage_abnormal_move_events@);
            assert(all.take(all.len() as int) =~= all);
        }
        self.process_damages(pkt.source_id, pkt.skill_id, &events, now)
    }
}

/// A decoded packet that the meter acts on.
pub enum MeterEvent<'a> {
    InitEnv(PktInitEnv),
    InitLocal(PktInitLocal),
    InitPc(PktInitPc<'a>),
    NewPc(PktNewPc<'a>),
    NewNpc(PktNewNpc),
    NewProjectile(PktNewProjectile),
    SkillDamage(PktSkillDamageNotify),
    SkillDamageAbnormalMove(PktSkillDamageAbnormalMoveNotify),
    StatusEffectAdd(PktStatusEffectAddNotify),
    StatusEffectRemove(PktStatusEffectRemoveNotify),
    PartyStatusEffectAdd(PktPartyStatusEffectAddNotify),
    PartyStatusEffectRemove(PktPartyStatusEffectRemoveNotify),
    PartyStatusEffectResult(PktPartyStatusEffectResultNotify),
    PartyInfo(PktPartyInfo<'a>),
    MigrationExecute(PktMigrationExecute),
    TriggerStart(PktTriggerStartNotify),
    RaidBossKill(PktRaidBossKillNotify),
    RaidResult(PktRaidResult),
    TriggerBossBattleStatus(PktTriggerBossBattleStatus),
}

/// A character as packets describe it.
pub struct CharacterView {
    pub player_id: u64,
    pub name: Seq<char>,
    pub class_id: u16,
    pub gear_level: u32,
    pub character_id: u64,
}

impl CharacterView {
    /// The record of the character.
    pub open spec fn player(self) -> PlayerView {
        PlayerView {
            name: Some(self.name),
            class: Class::of_id(self.class_id),
            ilvl: self.gear_level,
            character_id: Some(self.character_id),
        }
    }
}

/// Mathematical content of [`MeterEvent`].
pub enum EventView {
    InitEnv { player_id: u64 },
    InitLocal { character_id: u64 },
    InitPc { character: CharacterView },
    NewPc { character: CharacterView },
    NewNpc { object_id: u64, type_id: u32 },
    NewProjectile { projectile_id: u64, owner_id: u64 },
    SkillDamage { source_id: u64, skill_id: u32, events: Seq<SkillDamageEvent> },
    SkillDamageAbnormalMove { source_id: u64, skill_id: u32, events: Seq<SkillDamageEvent> },
    StatusEffectAdd { object_id: u64, effect: StatusEffectData },
    StatusEffectRemove { object_id: u64, instances: Seq<u32> },
    PartyStatusEffectAdd { character_id: u64, effects: Seq<StatusEffectData> },
    PartyStatusEffectRemove { character_id: u64, instances: Seq<u32> },
    PartyStatusEffectResult { character_id: u64, party_instance_id: u32 },
    PartyInfo { party_instance_id: u32, members: Seq<PartyMemberView> },
    MigrationExecute { account_character_id1: u64, account_character_id2: u64 },
    TriggerStart { trigger_signal_type: u32 },
    RaidBossKill,
    RaidResult,
    TriggerBossBattleStatus,
}

impl<'a> View for MeterEvent<'a> {
    type V = EventView;

    open spec fn view(&self) -> EventView {
        match *self {
            MeterEvent::InitEnv(p) => EventView::InitEnv { player_id: p.player_id },
            MeterEvent::InitLocal(p) => EventView::InitLocal { character_id: p.character_id },
            MeterEvent::InitPc(p) => EventView::InitPc {
                character: CharacterView {
                    player_id: p.player_id,
                    name: p.name@,
                    class_id: p.class_id,
                    gear_level: p.gear_level,
                    character_id: p.character_id,
                },
            },
            MeterEvent::NewPc(p) => EventView::NewPc {
                character: CharacterView {
                    player_id: p.pc_struct.player_id,
                    name: p.pc_struct.name@,
                    class_id: p.pc_struct.class_id,
                    gear_level: p.pc_struct.avg_item_level,
                    character_id: p.pc_struct.character_id,
                },
            },
            MeterEvent::NewNpc(p) => EventView::NewNpc {
                object_id: p.npc_struct.object_id,
                type_id: p.npc_struct.type_id,
            },
            MeterEvent::NewProjectile(p) => EventView::NewProjectile {
                projectile_id: p.projectile_info.projectile_id,
                owner_id: p.projectile_info.owner_id,
            },
            MeterEvent::SkillDamage(p) => EventView::SkillDamage {
                source_id: p.source_id,
                skill_id: p.skill_id,
                events: p.skill_damage_events@,
            },
            MeterEvent::SkillDamageAbnormalMove(p) => EventView::SkillDamageAbnormalMove {
                source_id: p.source_id,
                skill_id: p.skill_id,
                events: inner_events(p.skill_damage_abnormal_move_events@),
            },
            MeterEvent::StatusEffectAdd(p) => EventView::StatusEffectAdd {
                object_id: p.object_id,
                effect: p.status_effect_data,
            },
            MeterEvent::StatusEffectRemove(p) => EventView::StatusEffectRemove {
                object_id: p.object_id,
                instances: p.status_effect_ids@,
            },
            MeterEvent::PartyStatusEffectAdd(p) => EventView::PartyStatusEffectAdd {
                character_id: p.character_id,
                effects: p.status_effect_datas@,
            },
            MeterEvent::PartyStatusEffectRemove(p) => EventView::PartyStatusEffectRemove {
                character_id: p.character_id,
                instances: p.status_effect_ids@,
            },
            MeterEvent::PartyStatusEffectResult(p) => EventView::PartyStatusEffectResult {
                character_id: p.character_id,
                party_instance_id: p.party_instance_id,
            },
            MeterEvent::PartyInfo(p) => EventView::PartyInfo {
                party_instance_id: p.party_instance_id,
                members: member_views(p.member_datas@),
            },
            MeterEvent::MigrationExecute(p) => EventView::MigrationExecute {
                account_character_id1: p.account_character_id1,
                account_character_id2: p.account_character_id2,
            },
            MeterEvent::TriggerStart(p) => EventView::TriggerStart {
                trigger_signal_type: p.trigger_signal_type,
            },
            MeterEvent::RaidBossKill(_) => EventView::RaidBossKill,
            MeterEvent::RaidResult(_) => EventView::RaidResult,
            MeterEvent::TriggerBossBattleStatus(_) => EventView::TriggerBossBattleStatus,
        }
    }
}

/// What a step of the meter gives: the next state, and what is left to do
/// or why the packet failed.
pub struct Step {
    pub state: DataView,
    pub result: Result<Action, MeterError>,
}

impl DataView {
    /// The step that a packet makes at the time `now`, with the skill
    /// database `db`.
    pub open spec fn step(self, db: Map<u32, SkillInfoView>, event: EventView, now: u64) -> Step {
        match event {
            EventView::InitEnv { player_id } => Step {
                state: self.on_init_env(player_id, now),
                result: Ok(Action::Nothing),
            },
            EventView::InitLocal { character_id } => Step {
                state: self.on_init_local(character_id),
                result: Ok(Action::Nothing),
            },
            EventView::InitPc { character } => Step {
                state: self.on_init_pc(
                    character.player_id,
                    character.character_id,
                    character.player(),
                ),
                result: Ok(Action::Nothing),
            },
            EventView::NewPc { character } => Step {
                state: self.on_new_pc(character.player_id, character.player()),
                result: Ok(Action::Nothing),
            },
            EventView::NewNpc { object_id, type_id } => Step {
                state: self.on_new_npc(object_id, type_id, now),
                result: Ok(Action::Nothing),
            },
            EventView::NewProjectile { projectile_id, owner_id } => Step {
                state: self.on_new_projectile(projectile_id, owner_id),
                result: Ok(Action::Nothing),
            },
            EventView::SkillDamage { source_id, skill_id, events } => {
                let done = self.process_damages(db, source_id, skill_id, events, now);
                Step { state: done.0, result: done.1 }
            },
            EventView::SkillDamageAbnormalMove { source_id, skill_id, events } => {
                let done = self.process_damages(db, source_id, skill_id, events, now);
                Step { state: done.0, result: done.1 }
            },
            EventView::StatusEffectAdd { object_id, effect } => Step {
                state: self.on_status_effect_add(object_id, effect),
                result: Ok(Action::Nothing),
            },
            EventView::StatusEffectRemove { object_id, instances } => Step {
                state: self.on_status_effect_remove(object_id, instances),
                result: Ok(Action::Nothing),
            },
            EventView::PartyStatusEffectAdd { character_id, effects } => Step {
                state: self.on_party_status_effect_add(character_id, effects),
                result: Ok(Action::Nothing),
            },
            EventView::PartyStatusEffectRemove { character_id, instances } => Step {
                state: self.on_party_status_effect_remove(character_id, instances),
                result: Ok(Action::Nothing),
            },
            EventView::PartyStatusEffectResult { character_id, party_instance_id } => Step {
                state: self.on_party_status_effect_result(character_id, party_instance_id),
                result: Ok(Action::Nothing),
            },
            EventView::PartyInfo { party_instance_id, members } => Step {
                state: self.on_party_info(party_instance_id, members),
                result: Ok(Action::Nothing),
            },
            EventView::MigrationExecute { account_character_id1, account_character_id2 } => Step {
                state: self.on_migration_execute(account_character_id1, account_character_id2),
                result: Ok(Action::Nothing),
            },
            EventView::TriggerStart { trigger_signal_type } => Step {
                state: self.on_trigger_start(trigger_signal_type),
                result: Ok(Action::Nothing),
            },
            EventView::RaidBossKill => Step { state: self, result: Ok(Action::DeferNewEncounter) },
            EventView::RaidResult => Step { state: self, result: Ok(Action::DeferNewEncounter) },
            EventView::TriggerBossBattleStatus => Step {
                state: self,
                result: Ok(Action::DeferNewEncounter),
            },
        }
    }

    /// Whether the encounter `i` is one to show: it has seen damage, it has
    /// a player, and its environment has one.
    pub open spec fn is_recent(self, i: int) -> bool {
        &&& 0 <= i < self.encounters.len()
        &&& self.encounters[i].first_damage is Some
        &&& !self.encounters[i].players.dom().is_empty()
        &&& !self.environments[self.encounters[i].environment as int].players.dom().is_empty()
    }
}

/// Whether each element is greater than the ones after it.
pub open spec fn strictly_decreasing(s: Seq<usize>) -> bool {
    forall|i: int, j: int| 0 <= i < j < s.len() ==> s[i] > s[j]
}

impl Data {
    /// The encounters to show, the latest first.
    pub fn recent_encounters(&self) -> (recent: Vec<usize>)
        requires
            self@.wf(),
        ensures
            strictly_decreasing(recent@),
            forall|i: int| recent@.contains(i as usize) && 0 <= i <= usize::MAX <==> self@.is_recent(i),
    {
        let mut recent: Vec<usize> = Vec::new();
        let mut i: usize = self.encounters.len();
        while i > 0
            invariant
                0 <= i <= self.encounters@.len(),
                self@.wf(),
                strictly_decreasing(recent@),
                forall|k: int| 0 <= k < recent@.len() ==> recent@[k] >= i,
                forall|j: int|
                    recent@.contains(j as usize) && 0 <= j <= usize::MAX <==> i <= j
                        && self@.is_recent(j),
            decreases i,
        {
            i = i - 1;
            let enc = &self.encounters[i];
            assert(self@.encounters[i as int] == enc@);
            assert(enc@.players.dom() =~= enc.players@.dom());
            let env = &self.environments[enc.environment];
            assert(self@.environments[enc.environment as int] == env@);
            assert(env@.players.dom() =~= env.players@.dom());
            let shown = enc.first_damage.is_some() && !enc.players.is_empty()
                && !env.players.is_empty();
            let ghost before = recent@;
            if shown {
                recent.push(i);
                proof {
                    assert(recent@.last() == i);
                    assert forall|j: int|
                        recent@.contains(j as usize) && 0 <= j <= usize::MAX <==> i <= j
                            && self@.is_recent(j) by {
                        if recent@.contains(j as usize) && 0 <= j <= usize::MAX {
                            let at = choose|at: int| 0 <= at < recent@.len() && recent@[at] == j as usize;
                            if at < before.len() {
                                assert(before[at] == j as usize);
                                assert(before.contains(j as usize));
                            }
                        }
                        if i <= j && self@.is_recent(j) {
                            if j == i {
                                assert(recent@[recent@.len() - 1] == i);
                            } else {
                                assert(before.contains(j as usize));
                                let at = choose|at: int| 0 <= at < before.len() && before[at] == j as usize;
                                assert(recent@[at] == j as usize);
                            }
                        }
                    }
                }
            }
        }
        recent
    }
}

impl Meter {
    /// Applies a packet at the time `now`.
    #[verifier::rlimit(60)]
    pub fn handle(&mut self, event: MeterEvent, now: u64) -> (r: Result<Action, MeterError>)
        requires
            old(self).data@.wf(),
        ensures
            final(self).data@ == old(self).data@.step(old(self).skill_data@, event@, now).state,
            r == old(self).data@.step(old(self).skill_data@, event@, now).result,
            final(self).data@.wf(),
            final(self).skill_data == old(self).skill_data,
    {
        match event {
            MeterEvent::InitEnv(pkt) => Ok(self.on_init_env(pkt, now)),
            MeterEvent::InitLocal(pkt) => Ok(self.on_init_local(pkt)),
            MeterEvent::InitPc(pkt) => Ok(self.on_init_pc(pkt)),
            MeterEvent::NewPc(pkt) => Ok(self.on_new_pc(pkt)),
            MeterEvent::NewNpc(pkt) => Ok(self.on_new_npc(pkt, now)),
            MeterEvent::NewProjectile(pkt) => Ok(self.on_new_projectile(pkt)),
            MeterEvent::SkillDamage(pkt) => self.on_skill_damage_notify(pkt, now),
            MeterEvent::SkillDamageAbnormalMove(pkt) => self.on_skill_damage_abnormal_move_notify(
                pkt,
                now,
            ),
            MeterEvent::StatusEffectAdd(pkt) => Ok(self.on_status_effect_add_notify(pkt)),
            MeterEvent::StatusEffectRemove(pkt) => Ok(self.on_status_effect_remove_notify(pkt)),
            MeterEvent::PartyStatusEffectAdd(pkt) => Ok(
                self.on_party_status_effect_add_notify(pkt),
            ),
            MeterEvent::PartyStatusEffectRemove(pkt) => Ok(
                self.on_party_status_effect_remove_notify(pkt),
            ),
            MeterEvent::PartyStatusEffectResult(pkt) => Ok(
                self.on_party_status_effect_result_notify(pkt),
            ),
            MeterEvent::PartyInfo(pkt) => Ok(self.on_party_info(pkt)),
            MeterEvent::MigrationExecute(pkt) => Ok(self.on_migration_execute(pkt)),
            MeterEvent::TriggerStart(pkt) => Ok(self.on_trigger_start_notify(pkt)),
            MeterEvent::RaidBossKill(pkt) => Ok(self.on_raid_boss_kill_notify(pkt)),
            MeterEvent::RaidResult(pkt) => Ok(self.on_raid_result(pkt)),
            MeterEvent::TriggerBossBattleStatus(pkt) => Ok(self.on_trigger_boss_battle_status(pkt)),
        }
    }
}

} // verus!
