//! Numeric values of the character stat kinds carried by stat packets.

use vstd::prelude::*;

verus! {

pub const NONE: u8 = 0;

pub const HP: u8 = 1;

pub const MP: u8 = 2;

pub const STR: u8 = 3;

pub const AGI: u8 = 4;

pub const INT: u8 = 5;

pub const CON: u8 = 6;

pub const STR_X: u8 = 7;

pub const AGI_X: u8 = 8;

pub const INT_X: u8 = 9;

pub const CON_X: u8 = 10;

pub const STR_X_X_DELETED___: u8 = 11;

pub const AGI_X_X_DELETED___: u8 = 12;

pub const INT_X_X_DELETED___: u8 = 13;

pub const CON_X_X_DELETED___: u8 = 14;

pub const CRITICALHIT: u8 = 15;

pub const SPECIALTY: u8 = 16;

pub const OPPRESSION: u8 = 17;

pub const RAPIDITY: u8 = 18;

pub const ENDURANCE: u8 = 19;

pub const MASTERY: u8 = 20;

pub const CRITICALHIT_X: u8 = 21;

pub const SPECIALTY_X: u8 = 22;

pub const OPPRESSION_X: u8 = 23;

pub const RAPIDITY_X: u8 = 24;

pub const ENDURANCE_X: u8 = 25;

pub const MASTERY_X: u8 = 26;

pub const MAX_HP: u8 = 27;

pub const MAX_MP: u8 = 28;

pub const MAX_HP_X: u8 = 29;

pub const MAX_MP_X: u8 = 30;

pub const MAX_HP_X_X: u8 = 31;

pub const MAX_MP_X_X: u8 = 32;

pub const NORMAL_HP_RECOVERY: u8 = 33;

pub const COMBAT_HP_RECOVERY: u8 = 34;

pub const NORMAL_HP_RECOVERY_RATE: u8 = 35;

pub const COMBAT_HP_RECOVERY_RATE: u8 = 36;

pub const NORMAL_MP_RECOVERY: u8 = 37;

pub const COMBAT_MP_RECOVERY: u8 = 38;

pub const NORMAL_MP_RECOVERY_RATE: u8 = 39;

pub const COMBAT_MP_RECOVERY_RATE: u8 = 40;

pub const SELF_RECOVERY_RATE: u8 = 41;

pub const DRAIN_HP_DAM_RATE: u8 = 42;

pub const DRAIN_MP_DAM_RATE: u8 = 43;

pub const DAM_REFLECTION_RATE: u8 = 44;

pub const MIN_WEAPON_DAM_DELETED___: u8 = 45;

pub const MAX_WEAPON_DAM_DELETED___: u8 = 46;

pub const CHAR_ATTACK_DAM: u8 = 47;

pub const SKILL_EFFECT_DAM_ADDEND: u8 = 48;

pub const ATTACK_POWER_RATE: u8 = 49;

pub const SKILL_DAMAGE_RATE: u8 = 50;

pub const ATTACK_POWER_RATE_X: u8 = 51;

pub const SKILL_DAMAGE_RATE_X: u8 = 52;

pub const COOLDOWN_REDUCTION: u8 = 53;

pub const PARALYZATION_POINT_RATE: u8 = 54;

pub const DEF: u8 = 55;

pub const RES: u8 = 56;

pub const DEF_X: u8 = 57;

pub const RES_X: u8 = 58;

pub const DEF_X_X: u8 = 59;

pub const RES_X_X: u8 = 60;

pub const DEF_DEC_DELETED___: u8 = 61;

pub const RES_DEC_DELETED___: u8 = 62;

pub const DEF_DEC_X_DELETED___: u8 = 63;

pub const RES_DEC_X_DELETED___: u8 = 64;

pub const DEF_DEC_X_X_DELETED___: u8 = 65;

pub const RES_DEC_X_X_DELETED___: u8 = 66;

pub const DEF_PEN_RATE: u8 = 67;

pub const RES_PEN_RATE: u8 = 68;

pub const PHYSICAL_INC_RATE: u8 = 69;

pub const MAGICAL_INC_RATE: u8 = 70;

pub const SELF_SHIELD_RATE: u8 = 71;

pub const HIT_RATE: u8 = 72;

pub const DODGE_RATE: u8 = 73;

pub const CRITICAL_HIT_RATE: u8 = 74;

pub const CRITICAL_RES_RATE: u8 = 75;

pub const CRITICAL_DAM_RATE: u8 = 76;

pub const ATTACK_SPEED: u8 = 77;

pub const ATTACK_SPEED_RATE: u8 = 78;

pub const MOVE_SPEED: u8 = 79;

pub const MOVE_SPEED_RATE: u8 = 80;

pub const PROP_MOVE_SPEED: u8 = 81;

pub const PROP_MOVE_SPEED_RATE: u8 = 82;

pub const VEHICLE_MOVE_SPEED: u8 = 83;

pub const VEHICLE_MOVE_SPEED_RATE: u8 = 84;

pub const SHIP_MOVE_SPEED: u8 = 85;

pub const SHIP_MOVE_SPEED_RATE: u8 = 86;

pub const FIRE_DAM_RATE: u8 = 87;

pub const ICE_DAM_RATE: u8 = 88;

pub const ELECTRICITY_DAM_RATE: u8 = 89;

pub const WIND_DAM_RATE_DELETED___: u8 = 90;

pub const EARTH_DAM_RATE: u8 = 91;

pub const DARK_DAM_RATE: u8 = 92;

pub const HOLY_DAM_RATE: u8 = 93;

pub const ELEMENTS_DAM_RATE: u8 = 94;

pub const FIRE_RES_RATE: u8 = 95;

pub const ICE_RES_RATE: u8 = 96;

pub const ELECTRICITY_RES_RATE: u8 = 97;

pub const WIND_RES_RATE_DELETED___: u8 = 98;

pub const EARTH_RES_RATE: u8 = 99;

pub const DARK_RES_RATE: u8 = 100;

pub const HOLY_RES_RATE: u8 = 101;

pub const ELEMENTS_RES_RATE: u8 = 102;

pub const MOVE_CC_RES_RATE_DELETED___: u8 = 103;

pub const CONDITION_CC_RES_RATE_DELETED___: u8 = 104;

pub const SELF_CC_TIME_RATE: u8 = 105;

pub const ENEMY_CC_TIME_RATE: u8 = 106;

pub const IDENTITY_VALUE1: u8 = 107;

pub const IDENTITY_VALUE2: u8 = 108;

pub const IDENTITY_VALUE3: u8 = 109;

pub const AWAKENING_DAM_RATE: u8 = 110;

pub const ITEM_DROP_RATE: u8 = 111;

pub const GOLD_RATE: u8 = 112;

pub const EXP_RATE: u8 = 113;

pub const DAM_ATTR_VALUE_DELETED___: u8 = 114;

pub const CHAR_ATTR_ATTACK_DAM_DELETED___: u8 = 115;

pub const FIRE_DEF_DELETED___: u8 = 116;

pub const ICE_DEF_DELETED___: u8 = 117;

pub const ELECTRICITY_DEF_DELETED___: u8 = 118;

pub const EARTH_DEF_DELETED___: u8 = 119;

pub const DARK_DEF_DELETED___: u8 = 120;

pub const HOLY_DEF_DELETED___: u8 = 121;

pub const ELEMENTAL_DEF_DELETED___: u8 = 122;

pub const ATTACK_POWER_ADDEND: u8 = 123;

pub const ATTR_ATTACK_POWER_ADDEND_DELETED___: u8 = 124;

pub const NPC_SPECIES_HUMANOID_DAM_RATE: u8 = 125;

pub const NPC_SPECIES_DEVIL_DAM_RATE: u8 = 126;

pub const NPC_SPECIES_SUBSTANCE_DAM_RATE: u8 = 127;

pub const NPC_SPECIES_UNDEAD_DAM_RATE: u8 = 128;

pub const NPC_SPECIES_PLANT_DAM_RATE: u8 = 129;

pub const NPC_SPECIES_INSECT_DAM_RATE: u8 = 130;

pub const NPC_SPECIES_SPIRIT_DAM_RATE: u8 = 131;

pub const NPC_SPECIES_WILD_BEAST_DAM_RATE: u8 = 132;

pub const NPC_SPECIES_MECHANIC_DAM_RATE: u8 = 133;

pub const NPC_SPECIES_ANCIENT_DAM_RATE: u8 = 134;

pub const NPC_SPECIES_GOD_DAM_RATE: u8 = 135;

pub const NPC_SPECIES_ARCHFIEND_DAM_RATE: u8 = 136;

pub const VITALITY: u8 = 137;

pub const SHIP_BOOTER_SPEED: u8 = 138;

pub const SHIP_WRECK_SPEED_RATE: u8 = 139;

pub const ISLAND_SPEED_RATE: u8 = 140;

pub const ATTACK_POWER_SUB_RATE_2: u8 = 141;

pub const ATTACK_POWER_SUB_RATE_3: u8 = 142;

pub const PHYSICAL_INC_SUB_RATE_2: u8 = 143;

pub const PHYSICAL_INC_SUB_RATE_3: u8 = 144;

pub const MAGICAL_INC_SUB_RATE_2: u8 = 145;

pub const MAGICAL_INC_SUB_RATE_3: u8 = 146;

pub const SKILL_DAMAGE_SUB_RATE_2: u8 = 147;

pub const SKILL_DAMAGE_SUB_RATE_3: u8 = 148;

pub const RESOURCE_RECOVERY_RATE: u8 = 149;

pub const NPC_ADAPTATION_DELETED___: u8 = 150;

pub const WEAPON_DAM: u8 = 151;

pub const MAX: u8 = 152;

} // verus!
