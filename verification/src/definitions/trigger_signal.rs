//! Numeric values of the trigger signals carried by trigger packets.

use vstd::prelude::*;

verus! {

pub const NONE: u32 = 1;

pub const OUT: u32 = 2;

pub const CLICK_CLICK: u32 = 3;

pub const DOOR_OPEN: u32 = 4;

pub const DOOR_CLOSE: u32 = 5;

pub const SWITCH_ON: u32 = 6;

pub const SWITCH_OFF: u32 = 7;

pub const HIT_HIT: u32 = 8;

pub const HIT_DESTRUCT: u32 = 9;

pub const GRIP_GRIP: u32 = 10;

pub const VOLUME_ENTER: u32 = 11;

pub const VOLUME_LEAVE: u32 = 12;

pub const VOLUME_ON: u32 = 13;

pub const VOLUME_OFF: u32 = 14;

pub const NPC_SPAWN: u32 = 15;

pub const NPC_DEAD: u32 = 16;

pub const NPC_EVENT_1: u32 = 17;

pub const NPC_EVENT_2: u32 = 18;

pub const NPC_EVENT_3: u32 = 19;

pub const NPC_EVENT_4: u32 = 20;

pub const NPC_EVENT_5: u32 = 21;

pub const YES: u32 = 22;

pub const NO: u32 = 23;

pub const PROP_PICKUP: u32 = 24;

pub const PROP_ROTATE_START: u32 = 25;

pub const PROP_ROTATE_CANCEL: u32 = 26;

pub const PROP_ROTATE_END: u32 = 27;

pub const ASSEMBLED: u32 = 28;

pub const USER_SIGNAL: u32 = 29;

pub const VOLUME_INPUTKEY: u32 = 30;

pub const SHARED_CLICK: u32 = 31;

pub const SHARED_DESPAWN: u32 = 32;

pub const DUNGEON_CLEARED: u32 = 33;

pub const COOP_QUEST_START: u32 = 34;

pub const COOP_QUEST_COMPLETE: u32 = 35;

pub const COOP_QUEST_FAIL: u32 = 36;

pub const USER_SHIP_WRECK: u32 = 37;

pub const TOWER_HIT: u32 = 38;

pub const TOWER_DESTRUCT: u32 = 39;

pub const VEHICLE_ENTER: u32 = 40;

pub const VEHICLE_LEAVE: u32 = 41;

pub const INSTANCEZONE_LOAD_COMPLETE: u32 = 42;

pub const RANDOM_CASE_1: u32 = 43;

pub const RANDOM_CASE_2: u32 = 44;

pub const RANDOM_CASE_3: u32 = 45;

pub const RANDOM_CASE_4: u32 = 46;

pub const RANDOM_CASE_5: u32 = 47;

pub const NPC_PATHEVENT: u32 = 48;

pub const JOINT_ATTACH: u32 = 49;

pub const JOINT_DETACH: u32 = 50;

pub const HIT_ON2: u32 = 51;

pub const HIT_ON3: u32 = 52;

pub const COOP_QUEST_CANCEL: u32 = 53;

pub const DUNGEON_ENTER: u32 = 54;

pub const STATION_DISABLE: u32 = 55;

pub const ALL_DEAD: u32 = 56;

pub const ALL_EXIT: u32 = 57;

pub const DUNGEON_PHASE1_CLEAR: u32 = 58;

pub const DUNGEON_PHASE1_FAIL: u32 = 59;

pub const DUNGEON_PHASE2_CLEAR: u32 = 60;

pub const DUNGEON_PHASE2_FAIL: u32 = 61;

pub const DUNGEON_PHASE3_CLEAR: u32 = 62;

pub const DUNGEON_PHASE3_FAIL: u32 = 63;

pub const DUNGEON_PHASE4_CLEAR: u32 = 64;

pub const DUNGEON_PHASE4_FAIL: u32 = 65;

pub const USER_STATUS_EFFECT: u32 = 66;

pub const INSTANCE_TIMER_START: u32 = 67;

pub const INSTANCE_TIMER_END: u32 = 68;

pub const INSTANCE_TIMER_CANCEL: u32 = 69;

pub const INSTANCE_TIMER_EVENT_1: u32 = 70;

pub const INSTANCE_TIMER_EVENT_2: u32 = 71;

pub const INSTANCE_TIMER_EVENT_3: u32 = 72;

pub const INSTANCE_TIMER_EVENT_4: u32 = 73;

pub const INSTANCE_TIMER_EVENT_5: u32 = 74;

pub const DUNGEON_PHASE5_CLEAR: u32 = 75;

pub const DUNGEON_PHASE5_FAIL: u32 = 76;

pub const DUNGEON_PHASE6_CLEAR: u32 = 77;

pub const DUNGEON_PHASE6_FAIL: u32 = 78;

pub const DUNGEON_PHASE1_RESUME: u32 = 79;

pub const DUNGEON_PHASE2_RESUME: u32 = 80;

pub const DUNGEON_PHASE3_RESUME: u32 = 81;

pub const DUNGEON_PHASE4_RESUME: u32 = 82;

pub const DUNGEON_PHASE5_RESUME: u32 = 83;

pub const DUNGEON_PHASE6_RESUME: u32 = 84;

pub const TRACK_MOVE_START_1: u32 = 85;

pub const TRACK_MOVE_START_2: u32 = 86;

pub const TRACK_MOVE_START_3: u32 = 87;

pub const TRACK_MOVE_FAILURE: u32 = 88;

pub const HIT_RESTORE_START: u32 = 89;

pub const HIT_RESTORE_FINISH: u32 = 90;

pub const ZONE_LEVEL_NORMAL: u32 = 91;

pub const ZONE_LEVEL_HARD: u32 = 92;

pub const ZONE_LEVEL_HELLCHAOS: u32 = 93;

pub const ZONE_LEVEL_CHALLENGE: u32 = 94;

pub const ZONE_LEVEL_SPECIAL: u32 = 95;

pub const OCCUPATION_NONE_TO_RED: u32 = 96;

pub const OCCUPATION_NONE_TO_BLUE: u32 = 97;

pub const OCCUPATION_BLUE_TO_RED: u32 = 98;

pub const OCCUPATION_RED_TO_BLUE: u32 = 99;

pub const INSTANCE_TIMER_EVENT_6: u32 = 100;

pub const INSTANCE_TIMER_EVENT_7: u32 = 101;

pub const INSTANCE_TIMER_EVENT_8: u32 = 102;

pub const INSTANCE_TIMER_EVENT_9: u32 = 103;

pub const INSTANCE_TIMER_EVENT_10: u32 = 104;

pub const USER_STATUS_EFFECT_REMOVED: u32 = 105;

} // verus!
