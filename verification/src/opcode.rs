//! The packets that the meter knows by name, and the table that gives each
//! its number on the wire. The numbers change with the game client, so they
//! are data.

use vstd::prelude::*;

verus! {

/// A packet that the meter knows.
#[derive(Debug, Copy, Clone, PartialEq, Eq, Structural)]
pub enum Opcode {
    RaidBossKillNotify,
    NewPc,
    SkillDamageAbnormalMoveNotify,
    AddonSkillFeatureChangeNotify,
    StatusEffectDurationNotify,
    PassiveStatusEffectRemoveNotify,
    StatusEffectRemoveNotify,
    StatusEffectSyncDataNotify,
    TroopMemberUpdateMinNotify,
    InitItem,
    ActiveAbilityNotify,
    SkillStageNotify,
    StatusEffectAddNotify,
    NewNpc,
    DeathNotify,
    InitPc,
    IdentityStanceChangeNotify,
    SkillDamageNotify,
    ParalyzationStateNotify,
    EquipLifeToolChangeNotify,
    AuthTokenResult,
    CounterAttackNotify,
    TriggerBossBattleStatus,
    PartyStatusEffectAddNotify,
    InitAbility,
    SkillCastNotify,
    NewTrap,
    BlockSkillStateNotify,
    NewNpcSummon,
    PartyStatusEffectResultNotify,
    ZoneStatusEffectAddNotify,
    ZoneObjectUnpublishNotify,
    InitEnv,
    IdentityGaugeChangeNotify,
    SkillStartNotify,
    InitLocal,
    PartyLeaveResult,
    PassiveStatusEffectAddNotify,
    PartyPassiveStatusEffectAddNotify,
    PartyInfo,
    TriggerFinishNotify,
    PartyStatusEffectRemoveNotify,
    TriggerStartNotify,
    ZoneMemberLoadStatusNotify,
    NewProjectile,
    ZoneStatusEffectRemoveNotify,
    RemoveObject,
    StatChangeOriginNotify,
    PartyPassiveStatusEffectRemoveNotify,
    RaidResult,
    AbilityChangeNotify,
    MigrationExecute,
    EquipChangeNotify,
    RaidBegin,
}

/// Numbers of the known packets on the wire.
pub struct OpcodeTable {
    entries: Vec<(u16, Opcode)>,
}

/// The packet that the first entry with the number `raw` names.
pub open spec fn opcode_of(entries: Seq<(u16, Opcode)>, raw: u16) -> Option<Opcode>
    decreases entries.len(),
{
    if entries.len() == 0 {
        None
    } else if entries[0].0 == raw {
        Some(entries[0].1)
    } else {
        opcode_of(entries.skip(1), raw)
    }
}

/// The number that the first entry for the packet `opcode` gives.
pub open spec fn number_of(entries: Seq<(u16, Opcode)>, opcode: Opcode) -> Option<u16>
    decreases entries.len(),
{
    if entries.len() == 0 {
        None
    } else if entries[0].1 == opcode {
        Some(entries[0].0)
    } else {
        number_of(entries.skip(1), opcode)
    }
}

impl View for OpcodeTable {
    type V = Seq<(u16, Opcode)>;

    closed spec fn view(&self) -> Seq<(u16, Opcode)> {
        self.entries@
    }
}

impl OpcodeTable {
    /// A table with the given pairs of number and packet. Where a number or
    /// a packet stands twice, its first pair counts.
    pub fn new(entries: Vec<(u16, Opcode)>) -> (table: Self)
        ensures
            table@ == entries@,
    {
        OpcodeTable { entries }
    }

    /// The packet with the number `raw`, if the table has one.
    pub fn from_u16(&self, raw: u16) -> (opcode: Option<Opcode>)
        ensures
            opcode == opcode_of(self@, raw),
    {
        let mut i: usize = 0;
        assert(self.entries@.skip(0) =~= self.entries@);
        while i < self.entries.len()
            invariant
                0 <= i <= self.entries@.len(),
                opcode_of(self.entries@, raw) == opcode_of(self.entries@.skip(i as int), raw),
            decreases self.entries@.len() - i,
        {
            let entry = self.entries[i];
            proof {
                let rest = self.entries@.skip(i as int);
                assert(rest[0] == entry);
                assert(rest.skip(1) =~= self.entries@.skip(i + 1));
            }
            if entry.0 == raw {
                return Some(entry.1);
            }
            i = i + 1;
        }
        None
    }

    /// The number of the packet `opcode`, if the table has one.
    pub fn to_u16(&self, opcode: Opcode) -> (raw: Option<u16>)
        ensures
            raw == number_of(self@, opcode),
    {
        let mut i: usize = 0;
        assert(self.entries@.skip(0) =~= self.entries@);
        while i < self.entries.len()
            invariant
                0 <= i <= self.entries@.len(),
                number_of(self.entries@, opcode) == number_of(
                    self.entries@.skip(i as int),
                    opcode,
                ),
            decreases self.entries@.len() - i,
        {
            let entry = self.entries[i];
            proof {
                let rest = self.entries@.skip(i as int);
                assert(rest[0] == entry);
                assert(rest.skip(1) =~= self.entries@.skip(i + 1));
            }
            if entry.1 == opcode {
                return Some(entry.0);
            }
            i = i + 1;
        }
        None
    }
}

impl Opcode {
    /// Name of the structure that the packet is decoded into.
    pub open spec fn structure(self) -> Seq<char> {
        match self {
            Opcode::RaidBossKillNotify => "PktRaidBossKillNotify"@,
            Opcode::NewPc => "PktNewPc"@,
            Opcode::SkillDamageAbnormalMoveNotify => "PktSkillDamageAbnormalMoveNotify"@,
            Opcode::AddonSkillFeatureChangeNotify => "PktAddonSkillFeatureChangeNotify"@,
            Opcode::StatusEffectDurationNotify => "PktStatusEffectDurationNotify"@,
            Opcode::PassiveStatusEffectRemoveNotify => "PktPassiveStatusEffectRemoveNotify"@,
            Opcode::StatusEffectRemoveNotify => "PktStatusEffectRemoveNotify"@,
            Opcode::StatusEffectSyncDataNotify => "PktStatusEffectSyncDataNotify"@,
            Opcode::TroopMemberUpdateMinNotify => "PktTroopMemberUpdateMinNotify"@,
            Opcode::InitItem => "PktInitItem"@,
            Opcode::ActiveAbilityNotify => "PktActiveAbilityNotify"@,
            Opcode::SkillStageNotify => "PktSkillStageNotify"@,
            Opcode::StatusEffectAddNotify => "PktStatusEffectAddNotify"@,
            Opcode::NewNpc => "PktNewNpc"@,
            Opcode::DeathNotify => "PktDeathNotify"@,
            Opcode::InitPc => "PktInitPc"@,
            Opcode::IdentityStanceChangeNotify => "PktIdentityStanceChangeNotify"@,
            Opcode::SkillDamageNotify => "PktSkillDamageNotify"@,
            Opcode::ParalyzationStateNotify => "PktParalyzationStateNotify"@,
            Opcode::EquipLifeToolChangeNotify => "PktEquipLifeToolChangeNotify"@,
            Opcode::AuthTokenResult => "PktAuthTokenResult"@,
            Opcode::CounterAttackNotify => "PktCounterAttackNotify"@,
            Opcode::TriggerBossBattleStatus => "PktTriggerBossBattleStatus"@,
            Opcode::PartyStatusEffectAddNotify => "PktPartyStatusEffectAddNotify"@,
            Opcode::InitAbility => "PktInitAbility"@,
            Opcode::SkillCastNotify => "PktSkillCastNotify"@,
            Opcode::NewTrap => "PktNewTrap"@,
            Opcode::BlockSkillStateNotify => "PktBlockSkillStateNotify"@,
            Opcode::NewNpcSummon => "PktNewNpcSummon"@,
            Opcode::PartyStatusEffectResultNotify => "PktPartyStatusEffectResultNotify"@,
            Opcode::ZoneStatusEffectAddNotify => "PktZoneStatusEffectAddNotify"@,
            Opcode::ZoneObjectUnpublishNotify => "PktZoneObjectUnpublishNotify"@,
            Opcode::InitEnv => "PktInitEnv"@,
            Opcode::IdentityGaugeChangeNotify => "PktIdentityGaugeChangeNotify"@,
            Opcode::SkillStartNotify => "PktSkillStartNotify"@,
            Opcode::InitLocal => "PktInitLocal"@,
            Opcode::PartyLeaveResult => "PktPartyLeaveResult"@,
            Opcode::PassiveStatusEffectAddNotify => "PktPassiveStatusEffectAddNotify"@,
            Opcode::PartyPassiveStatusEffectAddNotify => "PktPartyPassiveStatusEffectAddNotify"@,
            Opcode::PartyInfo => "PktPartyInfo"@,
            Opcode::TriggerFinishNotify => "PktTriggerFinishNotify"@,
            Opcode::PartyStatusEffectRemoveNotify => "PktPartyStatusEffectRemoveNotify"@,
            Opcode::TriggerStartNotify => "PktTriggerStartNotify"@,
            Opcode::ZoneMemberLoadStatusNotify => "PktZoneMemberLoadStatusNotify"@,
            Opcode::NewProjectile => "PktNewProjectile"@,
            Opcode::ZoneStatusEffectRemoveNotify => "PktZoneStatusEffectRemoveNotify"@,
            Opcode::RemoveObject => "PktRemoveObject"@,
            Opcode::StatChangeOriginNotify => "PktStatChangeOriginNotify"@,
            Opcode::PartyPassiveStatusEffectRemoveNotify => "PktPartyPassiveStatusEffectRemoveNotify"@,
            Opcode::RaidResult => "PktRaidResult"@,
            Opcode::AbilityChangeNotify => "PktAbilityChangeNotify"@,
            Opcode::MigrationExecute => "PktMigrationExecute"@,
            Opcode::EquipChangeNotify => "PktEquipChangeNotify"@,
            Opcode::RaidBegin => "PktRaidBegin"@,
        }
    }

    /// The packet whose structure has the given name.
    pub open spec fn of_structure(name: Seq<char>) -> Option<Opcode> {
        if name == "PktRaidBossKillNotify"@ {
            Some(Opcode::RaidBossKillNotify)
        } else         if name == "PktNewPc"@ {
            Some(Opcode::NewPc)
        } else         if name == "PktSkillDamageAbnormalMoveNotify"@ {
            Some(Opcode::SkillDamageAbnormalMoveNotify)
        } else         if name == "PktAddonSkillFeatureChangeNotify"@ {
            Some(Opcode::AddonSkillFeatureChangeNotify)
        } else         if name == "PktStatusEffectDurationNotify"@ {
            Some(Opcode::StatusEffectDurationNotify)
        } else         if name == "PktPassiveStatusEffectRemoveNotify"@ {
            Some(Opcode::PassiveStatusEffectRemoveNotify)
        } else         if name == "PktStatusEffectRemoveNotify"@ {
            Some(Opcode::StatusEffectRemoveNotify)
        } else         if name == "PktStatusEffectSyncDataNotify"@ {
            Some(Opcode::StatusEffectSyncDataNotify)
        } else         if name == "PktTroopMemberUpdateMinNotify"@ {
            Some(Opcode::TroopMemberUpdateMinNotify)
        } else         if name == "PktInitItem"@ {
            Some(Opcode::InitItem)
        } else         if name == "PktActiveAbilityNotify"@ {
            Some(Opcode::ActiveAbilityNotify)
        } else         if name == "PktSkillStageNotify"@ {
            Some(Opcode::SkillStageNotify)
        } else         if name == "PktStatusEffectAddNotify"@ {
            Some(Opcode::StatusEffectAddNotify)
        } else         if name == "PktNewNpc"@ {
            Some(Opcode::NewNpc)
        } else         if name == "PktDeathNotify"@ {
            Some(Opcode::DeathNotify)
        } else         if name == "PktInitPc"@ {
            Some(Opcode::InitPc)
        } else         if name == "PktIdentityStanceChangeNotify"@ {
            Some(Opcode::IdentityStanceChangeNotify)
        } else         if name == "PktSkillDamageNotify"@ {
            Some(Opcode::SkillDamageNotify)
        } else         if name == "PktParalyzationStateNotify"@ {
            Some(Opcode::ParalyzationStateNotify)
        } else         if name == "PktEquipLifeToolChangeNotify"@ {
            Some(Opcode::EquipLifeToolChangeNotify)
        } else         if name == "PktAuthTokenResult"@ {
            Some(Opcode::AuthTokenResult)
        } else         if name == "PktCounterAttackNotify"@ {
            Some(Opcode::CounterAttackNotify)
        } else         if name == "PktTriggerBossBattleStatus"@ {
            Some(Opcode::TriggerBossBattleStatus)
        } else         if name == "PktPartyStatusEffectAddNotify"@ {
            Some(Opcode::PartyStatusEffectAddNotify)
        } else         if name == "PktInitAbility"@ {
            Some(Opcode::InitAbility)
        } else         if name == "PktSkillCastNotify"@ {
            Some(Opcode::SkillCastNotify)
        } else         if name == "PktNewTrap"@ {
            Some(Opcode::NewTrap)
        } else         if name == "PktBlockSkillStateNotify"@ {
            Some(Opcode::BlockSkillStateNotify)
        } else         if name == "PktNewNpcSummon"@ {
            Some(Opcode::NewNpcSummon)
        } else         if name == "PktPartyStatusEffectResultNotify"@ {
            Some(Opcode::PartyStatusEffectResultNotify)
        } else         if name == "PktZoneStatusEffectAddNotify"@ {
            Some(Opcode::ZoneStatusEffectAddNotify)
        } else         if name == "PktZoneObjectUnpublishNotify"@ {
            Some(Opcode::ZoneObjectUnpublishNotify)
        } else         if name == "PktInitEnv"@ {
            Some(Opcode::InitEnv)
        } else         if name == "PktIdentityGaugeChangeNotify"@ {
            Some(Opcode::IdentityGaugeChangeNotify)
        } else         if name == "PktSkillStartNotify"@ {
            Some(Opcode::SkillStartNotify)
        } else         if name == "PktInitLocal"@ {
            Some(Opcode::InitLocal)
        } else         if name == "PktPartyLeaveResult"@ {
            Some(Opcode::PartyLeaveResult)
        } else         if name == "PktPassiveStatusEffectAddNotify"@ {
            Some(Opcode::PassiveStatusEffectAddNotify)
        } else         if name == "PktPartyPassiveStatusEffectAddNotify"@ {
            Some(Opcode::PartyPassiveStatusEffectAddNotify)
        } else         if name == "PktPartyInfo"@ {
            Some(Opcode::PartyInfo)
        } else         if name == "PktTriggerFinishNotify"@ {
            Some(Opcode::TriggerFinishNotify)
        } else         if name == "PktPartyStatusEffectRemoveNotify"@ {
            Some(Opcode::PartyStatusEffectRemoveNotify)
        } else         if name == "PktTriggerStartNotify"@ {
            Some(Opcode::TriggerStartNotify)
        } else         if name == "PktZoneMemberLoadStatusNotify"@ {
            Some(Opcode::ZoneMemberLoadStatusNotify)
        } else         if name == "PktNewProjectile"@ {
            Some(Opcode::NewProjectile)
        } else         if name == "PktZoneStatusEffectRemoveNotify"@ {
            Some(Opcode::ZoneStatusEffectRemoveNotify)
        } else         if name == "PktRemoveObject"@ {
            Some(Opcode::RemoveObject)
        } else         if name == "PktStatChangeOriginNotify"@ {
            Some(Opcode::StatChangeOriginNotify)
        } else         if name == "PktPartyPassiveStatusEffectRemoveNotify"@ {
            Some(Opcode::PartyPassiveStatusEffectRemoveNotify)
        } else         if name == "PktRaidResult"@ {
            Some(Opcode::RaidResult)
        } else         if name == "PktAbilityChangeNotify"@ {
            Some(Opcode::AbilityChangeNotify)
        } else         if name == "PktMigrationExecute"@ {
            Some(Opcode::MigrationExecute)
        } else         if name == "PktEquipChangeNotify"@ {
            Some(Opcode::EquipChangeNotify)
        } else         if name == "PktRaidBegin"@ {
            Some(Opcode::RaidBegin)
        } else {
            None
        }
    }

    /// The packet whose structure has the given name.
    pub fn from_structure(name: &String) -> (opcode: Option<Opcode>)
        ensures
            opcode == Self::of_structure(name@),
    {
        if is_name(name, "PktRaidBossKillNotify") {
            return Some(Opcode::RaidBossKillNotify);
        }
        if is_name(name, "PktNewPc") {
            return Some(Opcode::NewPc);
        }
        if is_name(name, "PktSkillDamageAbnormalMoveNotify") {
            return Some(Opcode::SkillDamageAbnormalMoveNotify);
        }
        if is_name(name, "PktAddonSkillFeatureChangeNotify") {
            return Some(Opcode::AddonSkillFeatureChangeNotify);
        }
        if is_name(name, "PktStatusEffectDurationNotify") {
            return Some(Opcode::StatusEffectDurationNotify);
        }
        if is_name(name, "PktPassiveStatusEffectRemoveNotify") {
            return Some(Opcode::PassiveStatusEffectRemoveNotify);
        }
        if is_name(name, "PktStatusEffectRemoveNotify") {
            return Some(Opcode::StatusEffectRemoveNotify);
        }
        if is_name(name, "PktStatusEffectSyncDataNotify") {
            return Some(Opcode::StatusEffectSyncDataNotify);
        }
        if is_name(name, "PktTroopMemberUpdateMinNotify") {
            return Some(Opcode::TroopMemberUpdateMinNotify);
        }
        if is_name(name, "PktInitItem") {
            return Some(Opcode::InitItem);
        }
        if is_name(name, "PktActiveAbilityNotify") {
            return Some(Opcode::ActiveAbilityNotify);
        }
        if is_name(name, "PktSkillStageNotify") {
            return Some(Opcode::SkillStageNotify);
        }
        if is_name(name, "PktStatusEffectAddNotify") {
            return Some(Opcode::StatusEffectAddNotify);
        }
        if is_name(name, "PktNewNpc") {
            return Some(Opcode::NewNpc);
        }
        if is_name(name, "PktDeathNotify") {
            return Some(Opcode::DeathNotify);
        }
        if is_name(name, "PktInitPc") {
            return Some(Opcode::InitPc);
        }
        if is_name(name, "PktIdentityStanceChangeNotify") {
            return Some(Opcode::IdentityStanceChangeNotify);
        }
        if is_name(name, "PktSkillDamageNotify") {
            return Some(Opcode::SkillDamageNotify);
        }
        if is_name(name, "PktParalyzationStateNotify") {
            return Some(Opcode::ParalyzationStateNotify);
        }
        if is_name(name, "PktEquipLifeToolChangeNotify") {
            return Some(Opcode::EquipLifeToolChangeNotify);
        }
        if is_name(name, "PktAuthTokenResult") {
            return Some(Opcode::AuthTokenResult);
        }
        if is_name(name, "PktCounterAttackNotify") {
            return Some(Opcode::CounterAttackNotify);
        }
        if is_name(name, "PktTriggerBossBattleStatus") {
            return Some(Opcode::TriggerBossBattleStatus);
        }
        if is_name(name, "PktPartyStatusEffectAddNotify") {
            return Some(Opcode::PartyStatusEffectAddNotify);
        }
        if is_name(name, "PktInitAbility") {
            return Some(Opcode::InitAbility);
        }
        if is_name(name, "PktSkillCastNotify") {
            return Some(Opcode::SkillCastNotify);
        }
        if is_name(name, "PktNewTrap") {
            return Some(Opcode::NewTrap);
        }
        if is_name(name, "PktBlockSkillStateNotify") {
            return Some(Opcode::BlockSkillStateNotify);
        }
        if is_name(name, "PktNewNpcSummon") {
            return Some(Opcode::NewNpcSummon);
        }
        if is_name(name, "PktPartyStatusEffectResultNotify") {
            return Some(Opcode::PartyStatusEffectResultNotify);
        }
        if is_name(name, "PktZoneStatusEffectAddNotify") {
            return Some(Opcode::ZoneStatusEffectAddNotify);
        }
        if is_name(name, "PktZoneObjectUnpublishNotify") {
            return Some(Opcode::ZoneObjectUnpublishNotify);
        }
        if is_name(name, "PktInitEnv") {
            return Some(Opcode::InitEnv);
        }
        if is_name(name, "PktIdentityGaugeChangeNotify") {
            return Some(Opcode::IdentityGaugeChangeNotify);
        }
        if is_name(name, "PktSkillStartNotify") {
            return Some(Opcode::SkillStartNotify);
        }
        if is_name(name, "PktInitLocal") {
            return Some(Opcode::InitLocal);
        }
        if is_name(name, "PktPartyLeaveResult") {
            return Some(Opcode::PartyLeaveResult);
        }
        if is_name(name, "PktPassiveStatusEffectAddNotify") {
            return Some(Opcode::PassiveStatusEffectAddNotify);
        }
        if is_name(name, "PktPartyPassiveStatusEffectAddNotify") {
            return Some(Opcode::PartyPassiveStatusEffectAddNotify);
        }
        if is_name(name, "PktPartyInfo") {
            return Some(Opcode::PartyInfo);
        }
        if is_name(name, "PktTriggerFinishNotify") {
            return Some(Opcode::TriggerFinishNotify);
        }
        if is_name(name, "PktPartyStatusEffectRemoveNotify") {
            return Some(Opcode::PartyStatusEffectRemoveNotify);
        }
        if is_name(name, "PktTriggerStartNotify") {
            return Some(Opcode::TriggerStartNotify);
        }
        if is_name(name, "PktZoneMemberLoadStatusNotify") {
            return Some(Opcode::ZoneMemberLoadStatusNotify);
        }
        if is_name(name, "PktNewProjectile") {
            return Some(Opcode::NewProjectile);
        }
        if is_name(name, "PktZoneStatusEffectRemoveNotify") {
            return Some(Opcode::ZoneStatusEffectRemoveNotify);
        }
        if is_name(name, "PktRemoveObject") {
            return Some(Opcode::RemoveObject);
        }
        if is_name(name, "PktStatChangeOriginNotify") {
            return Some(Opcode::StatChangeOriginNotify);
        }
        if is_name(name, "PktPartyPassiveStatusEffectRemoveNotify") {
            return Some(Opcode::PartyPassiveStatusEffectRemoveNotify);
        }
        if is_name(name, "PktRaidResult") {
            return Some(Opcode::RaidResult);
        }
        if is_name(name, "PktAbilityChangeNotify") {
            return Some(Opcode::AbilityChangeNotify);
        }
        if is_name(name, "PktMigrationExecute") {
            return Some(Opcode::MigrationExecute);
        }
        if is_name(name, "PktEquipChangeNotify") {
            return Some(Opcode::EquipChangeNotify);
        }
        if is_name(name, "PktRaidBegin") {
            return Some(Opcode::RaidBegin);
        }
        None
    }
}

/// Whether a text is the given one.
fn is_name(a: &String, b: &str) -> (same: bool)
    ensures
        same == (a@ == b@),
{
    let other = b.to_owned();
    *a == other
}

} // verus!
