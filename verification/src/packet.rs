//! The decoded packets that the meter acts on, with the fields it reads.

use crate::opcode::Opcode;
use crate::parser::Packet;
use vstd::prelude::*;

verus! {

/// The local player entered a map; all object ids are new from here on.
pub struct PktInitEnv {
    pub player_id: u64,
}

/// The character id of the local player.
pub struct PktInitLocal {
    pub character_id: u64,
}

/// The local player's character.
pub struct PktInitPc<'a> {
    pub player_id: u64,
    pub name: &'a str,
    pub class_id: u16,
    /// Bit pattern of the gear level, a single-precision number.
    pub gear_level: u32,
    pub character_id: u64,
}

/// Another player's character.
pub struct PcStruct<'a> {
    pub player_id: u64,
    pub name: &'a str,
    pub class_id: u16,
    /// Bit pattern of the average item level, a single-precision number.
    pub avg_item_level: u32,
    pub character_id: u64,
}

/// Another player came into sight.
pub struct PktNewPc<'a> {
    pub pc_struct: PcStruct<'a>,
}

#[derive(Debug, Copy, Clone, PartialEq, Eq, Structural)]
pub struct NpcStruct {
    pub object_id: u64,
    pub type_id: u32,
}

/// A non-player entity came into sight.
#[derive(Debug, Copy, Clone, PartialEq, Eq, Structural)]
pub struct PktNewNpc {
    pub npc_struct: NpcStruct,
}

#[derive(Debug, Copy, Clone, PartialEq, Eq, Structural)]
pub struct ProjectileInfo {
    pub projectile_id: u64,
    pub owner_id: u64,
}

/// A projectile was launched.
#[derive(Debug, Copy, Clone, PartialEq, Eq, Structural)]
pub struct PktNewProjectile {
    pub projectile_info: ProjectileInfo,
}

/// One hit of a skill on one target.
#[derive(Debug, Copy, Clone, PartialEq, Eq, Structural)]
pub struct SkillDamageEvent {
    pub target_id: u64,
    pub damage: i64,
    /// Health of the target after the hit; negative by the overkill.
    pub cur_hp: i64,
    pub max_hp: i64,
    /// Hit flag in bits 0 to 3, hit option in bits 4 to 6.
    pub modifier: u8,
}

/// A skill hit its targets.
pub struct PktSkillDamageNotify {
    pub source_id: u64,
    pub skill_id: u32,
    pub skill_damage_events: Vec<SkillDamageEvent>,
}

#[derive(Debug, Copy, Clone, PartialEq, Eq, Structural)]
pub struct SkillDamageAbnormalMoveEvent {
    pub skill_damage_event: SkillDamageEvent,
}

/// A skill hit its targets and moved them.
pub struct PktSkillDamageAbnormalMoveNotify {
    pub source_id: u64,
    pub skill_id: u32,
    pub skill_damage_abnormal_move_events: Vec<SkillDamageAbnormalMoveEvent>,
}

/// One status effect as it is put on an entity.
#[derive(Debug, Copy, Clone, PartialEq, Eq, Structural)]
pub struct StatusEffectData {
    pub status_effect_id: u32,
    pub stack_count: u8,
    /// Object id of the entity that applied the effect.
    pub source_id: u64,
    pub effect_instance_id: u32,
}

pub struct PktStatusEffectAddNotify {
    pub object_id: u64,
    pub status_effect_data: StatusEffectData,
}

pub struct PktStatusEffectRemoveNotify {
    pub object_id: u64,
    /// Instance ids of the effects that end.
    pub status_effect_ids: Vec<u32>,
}

pub struct PktPartyStatusEffectAddNotify {
    pub character_id: u64,
    pub status_effect_datas: Vec<StatusEffectData>,
}

pub struct PktPartyStatusEffectRemoveNotify {
    pub character_id: u64,
    /// Instance ids of the effects that end.
    pub status_effect_ids: Vec<u32>,
}

#[derive(Debug, Copy, Clone, PartialEq, Eq, Structural)]
pub struct PktPartyStatusEffectResultNotify {
    pub character_id: u64,
    pub party_instance_id: u32,
}

pub struct PartyMemberData<'a> {
    pub character_id: u64,
    pub name: &'a str,
    pub class_id: u16,
    /// Bit pattern of the gear level, a single-precision number.
    pub gear_level: u32,
}

/// Mathematical content of [`PartyMemberData`].
pub struct PartyMemberView {
    pub character_id: u64,
    pub name: Seq<char>,
    pub class_id: u16,
    pub gear_level: u32,
}

impl<'a> View for PartyMemberData<'a> {
    type V = PartyMemberView;

    open spec fn view(&self) -> PartyMemberView {
        PartyMemberView {
            character_id: self.character_id,
            name: self.name@,
            class_id: self.class_id,
            gear_level: self.gear_level,
        }
    }
}

/// The views of the members of a party.
pub open spec fn member_views(members: Seq<PartyMemberData>) -> Seq<PartyMemberView> {
    Seq::new(members.len(), |i: int| members[i]@)
}

/// The damage events inside the events of a skill that also moves its
/// targets.
pub open spec fn inner_events(events: Seq<SkillDamageAbnormalMoveEvent>) -> Seq<SkillDamageEvent> {
    Seq::new(events.len(), |i: int| events[i].skill_damage_event)
}

pub struct PktPartyInfo<'a> {
    pub party_instance_id: u32,
    pub member_datas: Vec<PartyMemberData<'a>>,
}

#[derive(Debug, Copy, Clone, PartialEq, Eq, Structural)]
pub struct PktMigrationExecute {
    pub account_character_id1: u64,
    pub account_character_id2: u64,
}

#[derive(Debug, Copy, Clone, PartialEq, Eq, Structural)]
pub struct PktTriggerStartNotify {
    pub trigger_signal_type: u32,
}

#[derive(Debug, Copy, Clone, PartialEq, Eq, Structural)]
pub struct PktRaidBossKillNotify {}

#[derive(Debug, Copy, Clone, PartialEq, Eq, Structural)]
pub struct PktRaidResult {}

#[derive(Debug, Copy, Clone, PartialEq, Eq, Structural)]
pub struct PktTriggerBossBattleStatus {}

impl Packet for PktInitEnv {
    const OPCODE: Opcode = Opcode::InitEnv;
}

impl Packet for PktInitLocal {
    const OPCODE: Opcode = Opcode::InitLocal;
}

impl<'a> Packet for PktInitPc<'a> {
    const OPCODE: Opcode = Opcode::InitPc;
}

impl<'a> Packet for PktNewPc<'a> {
    const OPCODE: Opcode = Opcode::NewPc;
}

impl Packet for PktNewNpc {
    const OPCODE: Opcode = Opcode::NewNpc;
}

impl Packet for PktNewProjectile {
    const OPCODE: Opcode = Opcode::NewProjectile;
}

impl Packet for PktSkillDamageNotify {
    const OPCODE: Opcode = Opcode::SkillDamageNotify;
}

impl Packet for PktSkillDamageAbnormalMoveNotify {
    const OPCODE: Opcode = Opcode::SkillDamageAbnormalMoveNotify;
}

impl Packet for PktStatusEffectAddNotify {
    const OPCODE: Opcode = Opcode::StatusEffectAddNotify;
}

impl Packet for PktStatusEffectRemoveNotify {
    const OPCODE: Opcode = Opcode::StatusEffectRemoveNotify;
}

impl Packet for PktPartyStatusEffectAddNotify {
    const OPCODE: Opcode = Opcode::PartyStatusEffectAddNotify;
}

impl Packet for PktPartyStatusEffectRemoveNotify {
    const OPCODE: Opcode = Opcode::PartyStatusEffectRemoveNotify;
}

impl Packet for PktPartyStatusEffectResultNotify {
    const OPCODE: Opcode = Opcode::PartyStatusEffectResultNotify;
}

impl<'a> Packet for PktPartyInfo<'a> {
    const OPCODE: Opcode = Opcode::PartyInfo;
}

impl Packet for PktMigrationExecute {
    const OPCODE: Opcode = Opcode::MigrationExecute;
}

impl Packet for PktTriggerStartNotify {
    const OPCODE: Opcode = Opcode::TriggerStartNotify;
}

impl Packet for PktRaidBossKillNotify {
    const OPCODE: Opcode = Opcode::RaidBossKillNotify;
}

impl Packet for PktRaidResult {
    const OPCODE: Opcode = Opcode::RaidResult;
}

impl Packet for PktTriggerBossBattleStatus {
    const OPCODE: Opcode = Opcode::TriggerBossBattleStatus;
}

} // verus!
