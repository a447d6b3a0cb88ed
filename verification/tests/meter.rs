use larps::definitions::{Boss, Class};
use larps::meter::{
    effective, find_character, resolve_projectile, Action, BossInfo, BuffInfo, Data, Encounter,
    Environment, Meter, MeterError, MeterEvent, Player, Projectile, SkillData, SkillInfo,
    ENCOUNTER_RESET_DELAY_NANOS,
};
use larps::packet::{
    NpcStruct, PartyMemberData, PcStruct, PktInitEnv, PktInitLocal, PktInitPc,
    PktMigrationExecute, PktNewNpc, PktNewPc, PktNewProjectile, PktPartyInfo,
    PktPartyStatusEffectAddNotify, PktPartyStatusEffectRemoveNotify,
    PktPartyStatusEffectResultNotify, PktRaidBossKillNotify, PktRaidResult,
    PktSkillDamageAbnormalMoveNotify, PktSkillDamageNotify, PktStatusEffectAddNotify,
    PktStatusEffectRemoveNotify, PktTriggerBossBattleStatus, PktTriggerStartNotify,
    ProjectileInfo, SkillDamageAbnormalMoveEvent, SkillDamageEvent, StatusEffectData,
};
use std::collections::BTreeMap;

const SECOND: u64 = 1_000_000_000;

fn skills() -> SkillData {
    let mut db = SkillData::new();
    db.insert(100, SkillInfo::from_mined("Strike".to_string(), 102, String::new()));
    db.insert(21000, SkillInfo::from_mined("Hymn".to_string(), 204, "hymn.png".to_string()));
    db.insert(7, SkillInfo::from_mined("Basic".to_string(), 0, String::new()));
    db
}

fn meter() -> Meter {
    Meter::new(Data::new(0), skills())
}

fn hit(target_id: u64, damage: i64, cur_hp: i64, max_hp: i64, modifier: u8) -> SkillDamageEvent {
    SkillDamageEvent { target_id, damage, cur_hp, max_hp, modifier }
}

fn damage(m: &mut Meter, source_id: u64, skill_id: u32, events: Vec<SkillDamageEvent>, now: u64) -> Result<Action, MeterError> {
    m.on_skill_damage_notify(
        PktSkillDamageNotify { source_id, skill_id, skill_damage_events: events },
        now,
    )
}

fn new_pc(m: &mut Meter, player_id: u64, name: &str, class_id: u16, gear: f32, character_id: u64) {
    let pkt = PktNewPc {
        pc_struct: PcStruct {
            player_id,
            name,
            class_id,
            avg_item_level: gear.to_bits(),
            character_id,
        },
    };
    assert_eq!(m.on_new_pc(pkt), Action::Nothing);
}

fn effect(status_effect_id: u32, source_id: u64, effect_instance_id: u32) -> StatusEffectData {
    StatusEffectData { status_effect_id, stack_count: 1, source_id, effect_instance_id }
}

/// Init env with point of view 42, player 42 "A", a critical hit of 1000 on 500.
fn after_the_first_hit() -> Meter {
    let mut m = meter();
    assert_eq!(m.on_init_env(PktInitEnv { player_id: 42 }, SECOND), Action::Nothing);
    new_pc(&mut m, 42, "A", 102, 1500.0, 4200);
    let r = damage(&mut m, 42, 100, vec![hit(500, 1000, 5000, 10000, 0x01)], 2 * SECOND);
    assert_eq!(r, Ok(Action::Repaint));
    m
}

#[test]
fn init_env_new_player_damage() {
    let m = after_the_first_hit();
    // the state at the start has one environment and one encounter; the map
    // change adds one of each
    assert_eq!(m.data.environments.len(), 2);
    assert_eq!(m.data.encounters.len(), 2);
    let enc = m.data.current_enc();
    let player = &enc.players[&42];
    assert_eq!(player.dmg_dealt, 1000);
    assert_eq!(player.hits, 1);
    assert_eq!(player.damage, vec![(2 * SECOND, 1000)]);
    assert_eq!(player.casts, vec![(2 * SECOND, 100)]);
    let skill = &player.skills[&100];
    assert_eq!(skill.crits, 1);
    assert_eq!(skill.count, 1);
    assert_eq!(skill.damage, 1000);
    assert_eq!(skill.back, 0);
    assert_eq!(skill.front, 0);
    assert_eq!(skill.name.as_deref(), Some("Strike"));
    assert_eq!(skill.hits.len(), 1);
    assert_eq!(skill.hits[0].0, 2 * SECOND);
    assert_eq!(skill.hits[0].1.damage, 1000);
    assert_eq!(skill.hits[0].1.target_id, 500);
    assert!(skill.hits[0].1.is_crit);
    assert_eq!(enc.first_damage, Some(2 * SECOND));
    assert_eq!(enc.last_damage, Some(2 * SECOND));
    assert_eq!(enc.environment, 1);
    let info = &m.data.current_env().players[&42];
    assert_eq!(info.name.as_deref(), Some("A"));
    assert_eq!(info.class, Class::Berserker);
    assert_eq!(f32::from_bits(info.ilvl), 1500.0);
}

#[test]
fn a_fresh_model_has_one_environment_and_one_encounter() {
    let data = Data::new(5);
    assert_eq!(data.environments.len(), 1);
    assert_eq!(data.encounters.len(), 1);
    assert_eq!(data.current_enc().start, 5);
    assert_eq!(data.current_enc().environment, 0);
    assert!(data.current_env().players.is_empty());
    assert!(data.live.parties.is_empty());
}

#[test]
fn projectile_damage_goes_to_the_owner() {
    let mut m = after_the_first_hit();
    let pkt = PktNewProjectile { projectile_info: ProjectileInfo { projectile_id: 900, owner_id: 42 } };
    assert_eq!(m.on_new_projectile(pkt), Action::Nothing);
    let r = damage(&mut m, 900, 100, vec![hit(500, 200, 4800, 10000, 0x00)], 3 * SECOND);
    assert_eq!(r, Ok(Action::Repaint));
    let enc = m.data.current_enc();
    assert_eq!(enc.players.len(), 1);
    assert_eq!(enc.players[&42].dmg_dealt, 1200);
    assert_eq!(enc.players[&42].hits, 2);
    assert_eq!(m.data.current_env().players.len(), 1);
    assert!(!m.data.current_env().players.contains_key(&900));
}

#[test]
fn projectile_chains_are_followed_and_cycles_give_up() {
    let mut projectiles = BTreeMap::new();
    projectiles.insert(1, Projectile { id: 1, owner_id: 2 });
    projectiles.insert(2, Projectile { id: 2, owner_id: 3 });
    assert_eq!(resolve_projectile(&projectiles, 1), Some(3));
    assert_eq!(resolve_projectile(&projectiles, 2), Some(3));
    assert_eq!(resolve_projectile(&projectiles, 9), Some(9));
    projectiles.insert(3, Projectile { id: 3, owner_id: 1 });
    assert_eq!(resolve_projectile(&projectiles, 1), None);
    // a cycle drops the damage
    let mut m = after_the_first_hit();
    for (id, owner_id) in [(1u64, 2u64), (2, 1)] {
        m.on_new_projectile(PktNewProjectile {
            projectile_info: ProjectileInfo { projectile_id: id, owner_id },
        });
    }
    let r = damage(&mut m, 1, 100, vec![hit(500, 200, 4800, 10000, 0x00)], 3 * SECOND);
    assert_eq!(r, Ok(Action::Nothing));
    assert_eq!(m.data.current_enc().players[&42].dmg_dealt, 1000);
}

#[test]
fn brand_of_the_source_counts() {
    let mut m = after_the_first_hit();
    let pkt = PktStatusEffectAddNotify { object_id: 500, status_effect_data: effect(210230, 42, 1) };
    assert_eq!(m.on_status_effect_add_notify(pkt), Action::Nothing);
    let r = damage(&mut m, 42, 100, vec![hit(500, 500, 4500, 10000, 0x00)], 3 * SECOND);
    assert_eq!(r, Ok(Action::Repaint));
    let player = &m.data.current_enc().players[&42];
    assert_eq!(player.skills[&100].brand, 1);
    assert_eq!(player.brand_dmg, 500);
    assert_eq!(player.brand_hits, 1);
    assert_eq!(player.dmg_dealt, 1500);
    assert_eq!(player.skills[&100].crits, 1);
    assert_eq!(player.skills[&100].count, 2);
}

#[test]
fn brand_of_a_party_member_counts_and_of_a_stranger_does_not() {
    let mut m = after_the_first_hit();
    new_pc(&mut m, 43, "B", 204, 1490.0, 4300);
    new_pc(&mut m, 44, "C", 204, 1490.0, 4400);
    for (character_id, party_instance_id) in [(4200u64, 7u32), (4300, 7), (4400, 8)] {
        m.on_party_status_effect_result_notify(PktPartyStatusEffectResultNotify {
            character_id,
            party_instance_id,
        });
    }
    assert_eq!(m.data.live.parties.get(&42), Some(&7));
    assert_eq!(m.data.live.parties.get(&43), Some(&7));
    assert_eq!(m.data.live.parties.get(&44), Some(&8));
    // a brand by a stranger's party
    m.on_status_effect_add_notify(PktStatusEffectAddNotify {
        object_id: 500,
        status_effect_data: effect(360506, 44, 1),
    });
    assert!(!m.data.live.target_has_brand(42, 500, Some(7)));
    damage(&mut m, 42, 100, vec![hit(500, 10, 4000, 10000, 0x00)], 3 * SECOND).unwrap();
    assert_eq!(m.data.current_enc().players[&42].brand_hits, 0);
    // a brand by a member of the own party
    m.on_status_effect_add_notify(PktStatusEffectAddNotify {
        object_id: 500,
        status_effect_data: effect(314260, 43, 2),
    });
    assert!(m.data.live.target_has_brand(42, 500, Some(7)));
    assert!(!m.data.live.target_has_brand(42, 500, None));
    assert!(!m.data.live.target_has_brand(42, 501, Some(7)));
    damage(&mut m, 42, 100, vec![hit(500, 10, 3990, 10000, 0x00)], 4 * SECOND).unwrap();
    assert_eq!(m.data.current_enc().players[&42].brand_hits, 1);
    assert_eq!(m.data.current_enc().players[&42].brand_dmg, 10);
    // an effect that is no brand
    let mut m = after_the_first_hit();
    m.on_status_effect_add_notify(PktStatusEffectAddNotify {
        object_id: 500,
        status_effect_data: effect(210231, 42, 1),
    });
    assert!(!m.data.live.target_has_brand(42, 500, None));
}

#[test]
fn buffs_on_the_source_count() {
    let mut m = after_the_first_hit();
    assert!(!m.data.live.player_has_ap_buff(42));
    assert!(!m.data.live.player_has_ident_buff(42));
    m.on_status_effect_add_notify(PktStatusEffectAddNotify {
        object_id: 42,
        status_effect_data: effect(211601, 43, 1),
    });
    assert!(m.data.live.player_has_ap_buff(42));
    assert!(!m.data.live.player_has_ident_buff(42));
    damage(&mut m, 42, 100, vec![hit(500, 30, 4000, 10000, 0x00)], 3 * SECOND).unwrap();
    m.on_status_effect_add_notify(PktStatusEffectAddNotify {
        object_id: 42,
        status_effect_data: effect(500153, 43, 2),
    });
    assert!(m.data.live.player_has_ident_buff(42));
    damage(&mut m, 42, 100, vec![hit(500, 50, 3950, 10000, 0x00)], 4 * SECOND).unwrap();
    let player = &m.data.current_enc().players[&42];
    assert_eq!(player.ap_hits, 2);
    assert_eq!(player.ap_dmg, 80);
    assert_eq!(player.ident_hits, 1);
    assert_eq!(player.ident_dmg, 50);
    assert_eq!(player.skills[&100].ap_buff, 2);
    assert_eq!(player.skills[&100].ident_buff, 1);
    assert_eq!(
        m.data.live.buffs[&42][&211601],
        BuffInfo { stacks: 1, applicant: 43 }
    );
    // the buff ends
    m.on_status_effect_remove_notify(PktStatusEffectRemoveNotify {
        object_id: 42,
        status_effect_ids: vec![1, 99],
    });
    assert!(!m.data.live.player_has_ap_buff(42));
    assert!(m.data.live.player_has_ident_buff(42));
    assert!(!m.data.live.instance_id_lookup.contains_key(&1));
    assert!(m.data.live.instance_id_lookup.contains_key(&2));
}

#[test]
fn raid_boss_kill_defers_the_next_encounter() {
    let mut m = after_the_first_hit();
    m.on_new_npc(PktNewNpc { npc_struct: NpcStruct { object_id: 500, type_id: 480005 } }, 3 * SECOND);
    damage(&mut m, 42, 100, vec![hit(500, 1, 4999, 10000, 0x00)], 4 * SECOND).unwrap();
    assert!(!m.data.live.boss_health.is_empty());
    let before = m.data.encounters.len();
    assert_eq!(m.on_raid_boss_kill_notify(PktRaidBossKillNotify {}), Action::DeferNewEncounter);
    assert_eq!(m.on_raid_result(PktRaidResult {}), Action::DeferNewEncounter);
    assert_eq!(
        m.on_trigger_boss_battle_status(PktTriggerBossBattleStatus {}),
        Action::DeferNewEncounter
    );
    // nothing happens before the delay is over: trailing damage still lands
    assert_eq!(m.data.encounters.len(), before);
    damage(&mut m, 42, 100, vec![hit(500, 2, 4997, 10000, 0x00)], 5 * SECOND).unwrap();
    assert_eq!(m.data.current_enc().players[&42].dmg_dealt, 3);
    assert_eq!(ENCOUNTER_RESET_DELAY_NANOS, 3 * SECOND);
    m.data.new_encounter(4 * SECOND + ENCOUNTER_RESET_DELAY_NANOS);
    assert_eq!(m.data.encounters.len(), before + 1);
    assert!(m.data.current_enc().bosses.is_empty());
    assert!(m.data.current_enc().players.is_empty());
    assert!(m.data.live.boss_health.is_empty());
    assert_eq!(m.data.live.recently_tracked, None);
    assert_eq!(m.data.current_enc().start, 7 * SECOND);
    assert_eq!(m.data.encounters[before - 1].end, Some(7 * SECOND));
    // the counters of the old encounter stay
    assert_eq!(m.data.encounters[before - 1].players[&42].dmg_dealt, 3);
}

#[test]
fn rotation_after_any_damage() {
    let mut m = after_the_first_hit();
    assert_eq!(m.data.encounters.len(), 2);
    assert_eq!(
        m.handle(MeterEvent::RaidBossKill(PktRaidBossKillNotify {}), 2 * SECOND),
        Ok(Action::DeferNewEncounter)
    );
    m.data.new_encounter(5 * SECOND);
    assert_eq!(m.data.encounters.len(), 3);
    assert!(m.data.current_enc().bosses.is_empty());
    assert_eq!(m.data.current_enc().players.len(), 0);
    assert!(m.data.live.boss_health.is_empty());
}

#[test]
fn map_transition_carries_the_point_of_view() {
    let mut m = after_the_first_hit();
    m.on_status_effect_add_notify(PktStatusEffectAddNotify {
        object_id: 42,
        status_effect_data: effect(211601, 42, 1),
    });
    m.on_party_status_effect_result_notify(PktPartyStatusEffectResultNotify {
        character_id: 4200,
        party_instance_id: 7,
    });
    assert_eq!(m.on_init_env(PktInitEnv { player_id: 77 }, 9 * SECOND), Action::Nothing);
    assert_eq!(m.data.environments.len(), 3);
    assert_eq!(m.data.encounters.len(), 3);
    let env = m.data.current_env();
    assert_eq!(env.pov, Some(77));
    assert_eq!(env.players.len(), 1);
    let player = &env.players[&77];
    assert_eq!(player.name.as_deref(), Some("A"));
    assert_eq!(player.class, Class::Berserker);
    assert_eq!(f32::from_bits(player.ilvl), 1500.0);
    assert_eq!(player.character_id, Some(4200));
    assert!(env.pov().is_some());
    // the live state is empty again
    assert!(m.data.live.boss_health.is_empty());
    assert!(m.data.live.parties.is_empty());
    assert!(m.data.live.buffs.is_empty());
    assert!(m.data.live.instance_id_lookup.is_empty());
    assert_eq!(m.data.live.recently_tracked, None);
    // the new encounter is in the new environment
    assert_eq!(m.data.current_enc().environment, m.data.environments.len() - 1);
    assert_eq!(m.data.current_enc().start, 9 * SECOND);
    assert!(m.data.current_enc().players.is_empty());
    // the old environment and encounter are kept
    assert!(m.data.environments[1].players.contains_key(&42));
    assert_eq!(m.data.encounters[1].players[&42].dmg_dealt, 1000);
    assert_eq!(m.data.encounters[1].end, Some(9 * SECOND));
}

#[test]
fn map_transition_without_a_known_point_of_view() {
    let mut m = meter();
    m.on_init_env(PktInitEnv { player_id: 42 }, SECOND);
    m.on_init_env(PktInitEnv { player_id: 77 }, 2 * SECOND);
    assert!(m.data.current_env().players.is_empty());
    assert!(m.data.current_env().pov().is_none());
    assert_eq!(m.data.current_env().pov, Some(77));
}

#[test]
fn overkill_is_taken_off_the_damage() {
    assert_eq!(effective(1000, -250), 750);
    assert_eq!(effective(1000, 5000), 1000);
    assert_eq!(effective(1000, 0), 1000);
    assert_eq!(effective(100, -250), 0);
    assert_eq!(effective(250, -250), 0);
    assert_eq!(effective(-5, 10), 0);
    assert_eq!(effective(-5, -10), 0);
    assert_eq!(effective(i64::MAX, i64::MIN), 0);
    assert_eq!(effective(i64::MAX, -1), i64::MAX - 1);
    assert_eq!(effective(i64::MIN, i64::MIN), 0);
    let mut m = after_the_first_hit();
    damage(&mut m, 42, 100, vec![hit(500, 1000, -250, 10000, 0x00)], 3 * SECOND).unwrap();
    assert_eq!(m.data.current_enc().players[&42].dmg_dealt, 1750);
    assert_eq!(m.data.current_enc().players[&42].skills[&100].hits[1].1.damage, 750);
}

#[test]
fn hits_without_damage_and_shared_damage_are_skipped() {
    let mut m = after_the_first_hit();
    let events = vec![
        hit(500, 0, 5000, 10000, 0x00),
        hit(500, 100, -100, 10000, 0x00),
        hit(500, 100, 5000, 10000, 0x0b),
        hit(500, 0, 5000, 10000, 0x30),
    ];
    assert_eq!(damage(&mut m, 42, 100, events, 3 * SECOND), Ok(Action::Repaint));
    let player = &m.data.current_enc().players[&42];
    assert_eq!(player.hits, 1);
    assert_eq!(player.dmg_dealt, 1000);
    assert_eq!(m.data.current_enc().last_damage, Some(3 * SECOND));
    assert_eq!(m.data.current_enc().first_damage, Some(2 * SECOND));
    // the modifier is decoded before the damage is looked at
    let events = vec![hit(500, 0, 5000, 10000, 0x70)];
    assert_eq!(damage(&mut m, 42, 100, events, 4 * SECOND), Err(MeterError::InvalidHitOption(7)));
    let events = vec![hit(500, 100, 5000, 10000, 0x4b)];
    assert_eq!(damage(&mut m, 42, 100, events, 4 * SECOND), Err(MeterError::InvalidHitOption(4)));
    assert_eq!(m.data.current_enc().last_damage, Some(3 * SECOND));
}

#[test]
fn hit_options_are_counted() {
    let mut m = after_the_first_hit();
    let events = vec![
        hit(500, 10, 5000, 10000, 0x10),
        hit(500, 20, 5000, 10000, 0x20),
        hit(500, 30, 5000, 10000, 0x30),
        hit(500, 40, 5000, 10000, 0x18),
        hit(500, 50, 5000, 10000, 0x04),
    ];
    damage(&mut m, 42, 100, events, 3 * SECOND).unwrap();
    let skill = &m.data.current_enc().players[&42].skills[&100];
    assert_eq!(skill.count, 6);
    assert_eq!(skill.back, 2);
    assert_eq!(skill.front, 1);
    assert_eq!(skill.crits, 2);
    assert_eq!(skill.damage, 1150);
    assert!(skill.hits[1].1.is_back_attack);
    assert!(skill.hits[2].1.is_front_attack);
    assert!(!skill.hits[3].1.is_back_attack && !skill.hits[3].1.is_front_attack);
    assert!(skill.hits[4].1.is_crit && skill.hits[4].1.is_back_attack);
}

#[test]
fn invalid_modifiers_end_the_packet() {
    let mut m = after_the_first_hit();
    let events = vec![
        hit(500, 10, 5000, 10000, 0x00),
        hit(500, 20, 5000, 10000, 0x0d),
        hit(500, 30, 5000, 10000, 0x00),
    ];
    assert_eq!(damage(&mut m, 42, 100, events, 3 * SECOND), Err(MeterError::InvalidHitFlag(13)));
    // what came before the bad event is applied, what comes after is not
    let player = &m.data.current_enc().players[&42];
    assert_eq!(player.dmg_dealt, 1010);
    assert_eq!(player.hits, 2);
    // the time of damage is not marked
    assert_eq!(m.data.current_enc().last_damage, Some(2 * SECOND));
    let events = vec![hit(500, 20, 5000, 10000, 0x40)];
    assert_eq!(damage(&mut m, 42, 100, events, 4 * SECOND), Err(MeterError::InvalidHitOption(4)));
    let events = vec![hit(500, 20, 5000, 10000, 0xf0)];
    assert_eq!(damage(&mut m, 42, 100, events, 4 * SECOND), Err(MeterError::InvalidHitOption(7)));
    // the flag is looked at first
    let events = vec![hit(500, 0, 5000, 10000, 0x4f)];
    assert_eq!(damage(&mut m, 42, 100, events, 4 * SECOND), Err(MeterError::InvalidHitFlag(15)));
    assert_eq!(m.data.current_enc().players[&42].dmg_dealt, 1010);
    let e = hit(1, 1, 1, 1, 0x21);
    assert!(e.flag().is_ok());
    assert!(e.option().is_ok());
}

#[test]
fn a_full_counter_ends_the_packet() {
    let mut m = after_the_first_hit();
    let events = vec![hit(500, i64::MAX, 5000, 10000, 0x00)];
    assert_eq!(damage(&mut m, 42, 100, events, 3 * SECOND), Err(MeterError::CounterOverflow));
    let player = &m.data.current_enc().players[&42];
    assert_eq!(player.dmg_dealt, 1000);
    assert_eq!(player.hits, 1);
    assert_eq!(player.skills[&100].count, 1);
    assert_eq!(player.damage.len(), 1);
    // a fresh skill hits the full total of the player too
    let events = vec![hit(500, i64::MAX - 999, 5000, 10000, 0x00)];
    assert_eq!(damage(&mut m, 42, 21000, events, 3 * SECOND), Err(MeterError::CounterOverflow));
    let events = vec![hit(500, i64::MAX - 1000, 5000, 10000, 0x00)];
    assert_eq!(damage(&mut m, 42, 21000, events, 3 * SECOND), Ok(Action::Repaint));
    assert_eq!(m.data.current_enc().players[&42].dmg_dealt, i64::MAX);
}

#[test]
fn an_unknown_source_becomes_a_player_of_the_skills_class() {
    let mut m = meter();
    m.on_init_env(PktInitEnv { player_id: 42 }, SECOND);
    let r = damage(&mut m, 60, 21000, vec![hit(500, 5, 5000, 10000, 0x00)], 2 * SECOND);
    assert_eq!(r, Ok(Action::Repaint));
    let player = &m.data.current_env().players[&60];
    assert_eq!(player.name, None);
    assert_eq!(player.class, Class::Bard);
    assert_eq!(player.ilvl, 0);
    assert_eq!(player.character_id, None);
    assert_eq!(m.data.current_enc().players[&60].dmg_dealt, 5);
    // a skill without a class, and a skill that the database does not have
    for skill_id in [7u32, 12345] {
        let r = damage(&mut m, 61, skill_id, vec![hit(500, 5, 5000, 10000, 0x00)], 3 * SECOND);
        assert_eq!(r, Ok(Action::Nothing));
        assert!(!m.data.current_env().players.contains_key(&61));
        assert!(!m.data.current_enc().players.contains_key(&61));
        assert_eq!(m.data.current_enc().last_damage, Some(2 * SECOND));
    }
    // the source gets its records even if no event counts
    let r = damage(&mut m, 62, 100, vec![], 3 * SECOND);
    assert_eq!(r, Ok(Action::Repaint));
    assert_eq!(m.data.current_env().players[&62].class, Class::Berserker);
    assert_eq!(m.data.current_enc().players[&62].hits, 0);
}

#[test]
fn skill_zero_of_a_damage_over_time_is_bleed() {
    let mut m = after_the_first_hit();
    damage(&mut m, 42, 0, vec![hit(500, 5, 5000, 10000, 0x04)], 3 * SECOND).unwrap();
    assert_eq!(m.data.current_enc().players[&42].skills[&0].name.as_deref(), Some("Bleed"));
    let mut m = after_the_first_hit();
    damage(&mut m, 42, 0, vec![hit(500, 5, 5000, 10000, 0x08)], 3 * SECOND).unwrap();
    assert_eq!(m.data.current_enc().players[&42].skills[&0].name.as_deref(), Some("Bleed"));
    assert_eq!(m.data.current_enc().players[&42].skills[&0].crits, 1);
    let mut m = after_the_first_hit();
    damage(&mut m, 42, 0, vec![hit(500, 5, 5000, 10000, 0x00)], 3 * SECOND).unwrap();
    assert_eq!(m.data.current_enc().players[&42].skills[&0].name, None);
    let mut m = after_the_first_hit();
    damage(&mut m, 42, 5, vec![hit(500, 5, 5000, 10000, 0x04)], 3 * SECOND).unwrap();
    assert_eq!(m.data.current_enc().players[&42].skills[&5].name, None);
    // the name of the first hit stays
    damage(&mut m, 42, 0, vec![hit(500, 5, 5000, 10000, 0x00)], 3 * SECOND).unwrap();
    damage(&mut m, 42, 0, vec![hit(500, 5, 5000, 10000, 0x04)], 3 * SECOND).unwrap();
    assert_eq!(m.data.current_enc().players[&42].skills[&0].name, None);
}

#[test]
fn the_total_is_the_sum_over_the_hits_of_all_skills() {
    let mut m = after_the_first_hit();
    damage(&mut m, 42, 21000, vec![hit(500, 7, 1, 10000, 0x00), hit(501, 11, -1, 10000, 0x01)], 3 * SECOND).unwrap();
    damage(&mut m, 42, 100, vec![hit(500, 13, 1, 10000, 0x20)], 4 * SECOND).unwrap();
    damage(&mut m, 43, 100, vec![hit(500, 17, 1, 10000, 0x20)], 4 * SECOND).unwrap();
    for enc in &m.data.encounters {
        for player in enc.players.values() {
            let sum: i64 = player.skills.values().flat_map(|s| s.hits.iter()).map(|(_, h)| h.damage).sum();
            assert_eq!(player.dmg_dealt, sum);
            let series: i64 = player.damage.iter().map(|(_, d)| d).sum();
            assert_eq!(player.dmg_dealt, series);
            for skill in player.skills.values() {
                assert_eq!(skill.damage, skill.hits.iter().map(|(_, h)| h.damage).sum::<i64>());
                assert_eq!(skill.count, skill.hits.len());
            }
        }
    }
    assert_eq!(m.data.current_enc().players[&42].dmg_dealt, 1000 + 7 + 10 + 13);
}

#[test]
fn players_of_an_encounter_are_known_to_its_environment() {
    let mut m = after_the_first_hit();
    damage(&mut m, 60, 21000, vec![hit(500, 5, 5000, 10000, 0x00)], 3 * SECOND).unwrap();
    m.on_init_env(PktInitEnv { player_id: 77 }, 4 * SECOND);
    damage(&mut m, 61, 100, vec![hit(500, 5, 5000, 10000, 0x00)], 5 * SECOND).unwrap();
    for enc in &m.data.encounters {
        let env = &m.data.environments[enc.environment];
        for id in enc.players.keys() {
            assert!(env.players.contains_key(id));
        }
    }
}

#[test]
fn counters_never_fall() {
    let mut m = after_the_first_hit();
    m.on_status_effect_add_notify(PktStatusEffectAddNotify {
        object_id: 500,
        status_effect_data: effect(210230, 42, 1),
    });
    let mut last = (0u64, 0i64, 0u64);
    for step in 0..5u64 {
        damage(&mut m, 42, 100, vec![hit(500, 5, 5000, 10000, 0x00)], (3 + step) * SECOND).unwrap();
        m.on_trigger_start_notify(PktTriggerStartNotify { trigger_signal_type: 58 });
        let p = &m.data.encounters[1].players[&42];
        assert!(p.brand_hits >= last.0 && p.brand_dmg >= last.1 && p.hits >= last.2);
        last = (p.brand_hits, p.brand_dmg, p.hits);
    }
    m.data.new_encounter(20 * SECOND);
    let p = &m.data.encounters[1].players[&42];
    assert_eq!((p.brand_hits, p.brand_dmg, p.hits), last);
    assert_eq!(last.0, 5);
}

#[test]
fn bosses_are_listed_and_their_health_is_noted() {
    let mut m = after_the_first_hit();
    let before = m.data.encounters.len();
    // a boss opens a new encounter where none is listed yet
    m.on_new_npc(PktNewNpc { npc_struct: NpcStruct { object_id: 500, type_id: 42063041 } }, 3 * SECOND);
    assert_eq!(m.data.encounters.len(), before + 1);
    assert_eq!(m.data.current_enc().bosses, vec![(500, Boss::ValtanG2)]);
    assert_eq!(m.data.current_env().npcs[&500].kind, 42063041);
    assert_eq!(m.data.current_env().npcs[&500].name, "Boss");
    // a second boss joins the list
    m.on_new_npc(PktNewNpc { npc_struct: NpcStruct { object_id: 501, type_id: 480007 } }, 3 * SECOND);
    assert_eq!(m.data.encounters.len(), before + 1);
    assert_eq!(m.data.current_enc().bosses, vec![(500, Boss::ValtanG2), (501, Boss::ValtanG2Ghost)]);
    // another entity is recorded only
    m.on_new_npc(PktNewNpc { npc_struct: NpcStruct { object_id: 502, type_id: 1 } }, 3 * SECOND);
    assert_eq!(m.data.current_enc().bosses.len(), 2);
    assert!(m.data.current_env().npcs.contains_key(&502));
    // damage on another target does not mark the time
    assert_eq!(damage(&mut m, 42, 100, vec![hit(502, 5, 10, 20, 0x00)], 4 * SECOND), Ok(Action::Repaint));
    assert_eq!(m.data.current_enc().first_damage, None);
    assert_eq!(m.data.current_enc().last_damage, None);
    assert!(m.data.live.boss_health.is_empty());
    assert_eq!(m.data.current_enc().players[&42].dmg_dealt, 5);
    // damage on a boss does
    damage(&mut m, 42, 100, vec![hit(501, 5, 995, 1000, 0x00), hit(502, 5, 5, 20, 0x00)], 5 * SECOND).unwrap();
    assert_eq!(m.data.current_enc().first_damage, Some(5 * SECOND));
    assert_eq!(m.data.current_enc().last_damage, Some(5 * SECOND));
    assert_eq!(m.data.live.recently_tracked, Some(501));
    assert_eq!(
        m.data.live.boss_health[&501],
        BossInfo { max_hp: 1000, cur_hp: 995, bar_count: Some(40) }
    );
    damage(&mut m, 42, 100, vec![hit(500, 5, -3, 2000, 0x00)], 6 * SECOND).unwrap();
    assert_eq!(m.data.current_enc().first_damage, Some(5 * SECOND));
    assert_eq!(m.data.current_enc().last_damage, Some(6 * SECOND));
    assert_eq!(m.data.live.recently_tracked, Some(500));
    assert_eq!(
        m.data.live.boss_health[&500],
        BossInfo { max_hp: 2000, cur_hp: -3, bar_count: Some(160) }
    );
    assert_eq!(m.data.current_enc().players[&42].dmg_dealt, 5 + 5 + 5 + 2);
}

#[test]
fn trigger_signals_mark_the_outcome() {
    let mut m = after_the_first_hit();
    m.on_trigger_start_notify(PktTriggerStartNotify { trigger_signal_type: 33 });
    assert!(!m.data.current_enc().wipe && !m.data.current_enc().clear);
    for signal in [58u32, 60, 62, 64] {
        m.on_trigger_start_notify(PktTriggerStartNotify { trigger_signal_type: 59 });
        assert!(m.data.current_enc().wipe && !m.data.current_enc().clear);
        m.on_trigger_start_notify(PktTriggerStartNotify { trigger_signal_type: signal });
        assert!(m.data.current_enc().clear && !m.data.current_enc().wipe);
    }
    for signal in [59u32, 61, 63, 65] {
        m.on_trigger_start_notify(PktTriggerStartNotify { trigger_signal_type: signal });
        assert!(m.data.current_enc().wipe && !m.data.current_enc().clear);
        m.on_trigger_start_notify(PktTriggerStartNotify { trigger_signal_type: 58 });
    }
    m.on_trigger_start_notify(PktTriggerStartNotify { trigger_signal_type: 76 });
    assert!(m.data.current_enc().clear && !m.data.current_enc().wipe);
}

#[test]
fn init_pc_moves_the_party_entry_to_the_object_id() {
    let mut m = meter();
    m.on_init_env(PktInitEnv { player_id: 42 }, SECOND);
    m.on_party_info(PktPartyInfo {
        party_instance_id: 7,
        member_datas: vec![PartyMemberData {
            character_id: 4200,
            name: "A",
            class_id: 102,
            gear_level: 1500.0f32.to_bits(),
        }],
    });
    assert_eq!(m.data.live.parties.get(&4200), Some(&7));
    assert!(m.data.current_env().players.contains_key(&4200));
    let pkt = PktInitPc {
        player_id: 42,
        name: "A",
        class_id: 102,
        gear_level: 1510.0f32.to_bits(),
        character_id: 4200,
    };
    assert_eq!(m.on_init_pc(pkt), Action::Nothing);
    assert_eq!(m.data.live.parties.get(&4200), None);
    assert_eq!(m.data.live.parties.get(&42), Some(&7));
    assert!(!m.data.current_env().players.contains_key(&4200));
    let player = &m.data.current_env().players[&42];
    assert_eq!(player.name.as_deref(), Some("A"));
    assert_eq!(player.character_id, Some(4200));
    assert_eq!(f32::from_bits(player.ilvl), 1510.0);
    // without a party entry the record under the character id stays
    let mut m = meter();
    new_pc(&mut m, 4300, "X", 204, 1.0, 1);
    m.on_init_pc(PktInitPc { player_id: 43, name: "B", class_id: 204, gear_level: 0, character_id: 4300 });
    assert!(m.data.current_env().players.contains_key(&4300));
    assert!(m.data.current_env().players.contains_key(&43));
}

#[test]
fn party_info_finds_or_begins_the_records_of_the_members() {
    let mut m = after_the_first_hit();
    new_pc(&mut m, 43, "B", 204, 1490.0, 4300);
    let members = vec![
        PartyMemberData { character_id: 4300, name: "Other", class_id: 105, gear_level: 1 },
        PartyMemberData { character_id: 4400, name: "C", class_id: 105, gear_level: 1600.0f32.to_bits() },
    ];
    assert_eq!(m.on_party_info(PktPartyInfo { party_instance_id: 9, member_datas: members }), Action::Nothing);
    let env = m.data.current_env();
    // a known member keeps name and class; the party is filed under the object id
    assert_eq!(env.players[&43].name.as_deref(), Some("B"));
    assert_eq!(env.players[&43].class, Class::Bard);
    assert_eq!(m.data.live.parties.get(&43), Some(&9));
    assert_eq!(m.data.live.parties.get(&4300), None);
    // an unknown member is begun under the character id
    assert_eq!(env.players[&4400].name.as_deref(), Some("C"));
    assert_eq!(env.players[&4400].class, Class::Paladin);
    assert_eq!(env.players[&4400].character_id, Some(4400));
    assert_eq!(f32::from_bits(env.players[&4400].ilvl), 1600.0);
    assert_eq!(m.data.live.parties.get(&4400), Some(&9));
    // a nameless record is filled in
    damage(&mut m, 60, 21000, vec![], 3 * SECOND).unwrap();
    let mut env = Environment::new();
    env.add_player(60, Player::new(None, Class::Bard, 0));
    assert_eq!(env.players[&60].name, None);
}

#[test]
fn party_info_finds_the_point_of_view_by_its_character() {
    let mut m = meter();
    m.on_init_env(PktInitEnv { player_id: 42 }, SECOND);
    m.on_migration_execute(PktMigrationExecute { account_character_id1: 4200, account_character_id2: 9000 });
    assert_eq!(m.data.current_env().pov_char_id, Some(4200));
    let members = vec![
        PartyMemberData { character_id: 4200, name: "A", class_id: 102, gear_level: 7 },
        PartyMemberData { character_id: 4300, name: "B", class_id: 204, gear_level: 8 },
    ];
    m.on_party_info(PktPartyInfo { party_instance_id: 9, member_datas: members });
    let env = m.data.current_env();
    assert_eq!(env.players[&42].name.as_deref(), Some("A"));
    assert_eq!(env.players[&42].character_id, Some(4200));
    assert!(!env.players.contains_key(&4200));
    assert_eq!(env.players[&4300].name.as_deref(), Some("B"));
    // the party of a member without an object id is filed under the character id
    assert_eq!(m.data.live.parties.get(&4200), Some(&9));
    assert_eq!(m.data.live.parties.get(&42), None);
    assert!(env.pov().is_some());
}

#[test]
fn migration_execute_moves_the_record_to_the_point_of_view() {
    let mut m = meter();
    m.on_init_env(PktInitEnv { player_id: 42 }, SECOND);
    new_pc(&mut m, 50, "A", 102, 1500.0, 4200);
    new_pc(&mut m, 51, "A again", 102, 1500.0, 4200);
    m.on_migration_execute(PktMigrationExecute { account_character_id1: 9000, account_character_id2: 4200 });
    let env = m.data.current_env();
    assert_eq!(env.pov_char_id, Some(4200));
    // the record with the smallest object id moves
    assert!(!env.players.contains_key(&50));
    assert!(env.players.contains_key(&51));
    assert_eq!(env.players[&42].name.as_deref(), Some("A"));
    // once the point of view has a record nothing changes
    m.on_migration_execute(PktMigrationExecute { account_character_id1: 1, account_character_id2: 2 });
    assert_eq!(m.data.current_env().pov_char_id, Some(4200));
    assert!(m.data.current_env().players.contains_key(&51));
    // without a point of view only the character id is noted
    let mut m = meter();
    new_pc(&mut m, 50, "A", 102, 1500.0, 4200);
    m.on_migration_execute(PktMigrationExecute { account_character_id1: 4200, account_character_id2: 4200 });
    assert_eq!(m.data.current_env().pov_char_id, Some(4200));
    assert!(m.data.current_env().players.contains_key(&50));
}

#[test]
fn init_local_notes_the_character_and_moves_its_record() {
    let mut m = meter();
    m.on_init_env(PktInitEnv { player_id: 42 }, SECOND);
    new_pc(&mut m, 50, "A", 102, 1500.0, 4200);
    assert_eq!(m.on_init_local(PktInitLocal { character_id: 4200 }), Action::Nothing);
    let env = m.data.current_env();
    assert_eq!(env.pov_char_id, Some(4200));
    assert!(!env.players.contains_key(&50));
    assert_eq!(env.players[&42].name.as_deref(), Some("A"));
    // no record of the character: only the id is noted
    m.on_init_local(PktInitLocal { character_id: 4300 });
    assert_eq!(m.data.current_env().pov_char_id, Some(4300));
    assert_eq!(m.data.current_env().players.len(), 1);
}

#[test]
fn party_effects_go_to_the_object_id_of_the_member() {
    let mut m = after_the_first_hit();
    new_pc(&mut m, 43, "B", 204, 1490.0, 4300);
    let add = PktPartyStatusEffectAddNotify {
        character_id: 4300,
        status_effect_datas: vec![effect(211601, 42, 1), effect(211400, 42, 2)],
    };
    assert_eq!(m.on_party_status_effect_add_notify(add), Action::Nothing);
    assert!(m.data.live.player_has_ap_buff(43));
    assert!(m.data.live.player_has_ident_buff(43));
    assert_eq!(m.data.live.instance_id_lookup.get(&2), Some(&211400));
    let remove = PktPartyStatusEffectRemoveNotify { character_id: 4300, status_effect_ids: vec![1] };
    assert_eq!(m.on_party_status_effect_remove_notify(remove), Action::Nothing);
    assert!(!m.data.live.player_has_ap_buff(43));
    assert!(m.data.live.player_has_ident_buff(43));
    // a character without an object id gets nothing
    let add = PktPartyStatusEffectAddNotify { character_id: 1, status_effect_datas: vec![effect(211601, 42, 5)] };
    m.on_party_status_effect_add_notify(add);
    assert!(!m.data.live.instance_id_lookup.contains_key(&5));
    let remove = PktPartyStatusEffectRemoveNotify { character_id: 1, status_effect_ids: vec![2] };
    m.on_party_status_effect_remove_notify(remove);
    assert!(m.data.live.instance_id_lookup.contains_key(&2));
    // an empty list still begins the entry of the member
    new_pc(&mut m, 44, "C", 204, 1490.0, 4400);
    let add = PktPartyStatusEffectAddNotify { character_id: 4400, status_effect_datas: vec![] };
    m.on_party_status_effect_add_notify(add);
    assert!(m.data.live.buffs.contains_key(&44));
    // the party of an unknown character is filed under the character id
    m.on_party_status_effect_result_notify(PktPartyStatusEffectResultNotify { character_id: 1, party_instance_id: 3 });
    assert_eq!(m.data.live.parties.get(&1), Some(&3));
}

#[test]
fn the_first_player_of_a_character_is_found() {
    let mut players = BTreeMap::new();
    let mut a = Player::new(Some("a".to_string()), Class::Bard, 0);
    a.character_id = Some(7);
    players.insert(7u64, a.clone());
    players.insert(30u64, a.clone());
    players.insert(20u64, a.clone());
    players.insert(10u64, Player::default());
    assert_eq!(find_character(&players, 7, true), Some(20));
    assert_eq!(find_character(&players, 7, false), Some(7));
    assert_eq!(find_character(&players, 8, false), None);
    assert_eq!(find_character(&BTreeMap::new(), 7, false), None);
}

#[test]
fn abnormal_move_events_are_damage_events() {
    let mut m = after_the_first_hit();
    let pkt = PktSkillDamageAbnormalMoveNotify {
        source_id: 42,
        skill_id: 100,
        skill_damage_abnormal_move_events: vec![
            SkillDamageAbnormalMoveEvent { skill_damage_event: hit(500, 3, 5000, 10000, 0x00) },
            SkillDamageAbnormalMoveEvent { skill_damage_event: hit(500, 4, 5000, 10000, 0x00) },
        ],
    };
    assert_eq!(m.on_skill_damage_abnormal_move_notify(pkt, 3 * SECOND), Ok(Action::Repaint));
    assert_eq!(m.data.current_enc().players[&42].dmg_dealt, 1007);
    assert_eq!(m.data.current_enc().players[&42].hits, 3);
}

#[test]
fn handle_dispatches_every_packet() {
    let mut m = meter();
    assert_eq!(m.handle(MeterEvent::InitEnv(PktInitEnv { player_id: 42 }), SECOND), Ok(Action::Nothing));
    let pc = PktNewPc {
        pc_struct: PcStruct { player_id: 42, name: "A", class_id: 102, avg_item_level: 0, character_id: 4200 },
    };
    assert_eq!(m.handle(MeterEvent::NewPc(pc), SECOND), Ok(Action::Nothing));
    let dmg = PktSkillDamageNotify { source_id: 42, skill_id: 100, skill_damage_events: vec![hit(500, 9, 1, 1, 0)] };
    assert_eq!(m.handle(MeterEvent::SkillDamage(dmg), 2 * SECOND), Ok(Action::Repaint));
    let bad = PktSkillDamageNotify { source_id: 42, skill_id: 100, skill_damage_events: vec![hit(500, 9, 1, 1, 14)] };
    assert_eq!(m.handle(MeterEvent::SkillDamage(bad), 2 * SECOND), Err(MeterError::InvalidHitFlag(14)));
    assert_eq!(m.handle(MeterEvent::RaidResult(PktRaidResult {}), 2 * SECOND), Ok(Action::DeferNewEncounter));
    assert_eq!(
        m.handle(MeterEvent::TriggerBossBattleStatus(PktTriggerBossBattleStatus {}), 2 * SECOND),
        Ok(Action::DeferNewEncounter)
    );
    let npc = PktNewNpc { npc_struct: NpcStruct { object_id: 500, type_id: 720011 } };
    assert_eq!(m.handle(MeterEvent::NewNpc(npc), 3 * SECOND), Ok(Action::Nothing));
    assert_eq!(m.data.current_enc().bosses, vec![(500, Boss::Golem)]);
    assert_eq!(m.data.encounters.len(), 3);
    assert_eq!(m.data.current_enc().players.len(), 0);
    assert_eq!(m.data.encounters[1].players[&42].dmg_dealt, 9);
}

#[test]
fn recent_encounters_are_listed_latest_first() {
    let mut m = meter();
    assert_eq!(m.data.recent_encounters(), Vec::<usize>::new());
    m.on_init_env(PktInitEnv { player_id: 42 }, SECOND);
    new_pc(&mut m, 42, "A", 102, 1500.0, 4200);
    damage(&mut m, 42, 100, vec![hit(500, 1, 1, 1, 0)], 2 * SECOND).unwrap();
    m.data.new_encounter(3 * SECOND);
    m.data.new_encounter(4 * SECOND);
    damage(&mut m, 42, 100, vec![hit(500, 1, 1, 1, 0)], 5 * SECOND).unwrap();
    assert_eq!(m.data.encounters.len(), 4);
    assert_eq!(m.data.recent_encounters(), vec![3, 1]);
}

#[test]
fn encounter_duration() {
    let mut enc = Encounter::new(10, 0);
    assert_eq!(enc.duration(25), 15);
    assert_eq!(enc.duration(5), 0);
    enc.end = Some(40);
    assert_eq!(enc.duration(25), 30);
    enc.first_damage = Some(20);
    assert_eq!(enc.duration(25), 20);
    enc.last_damage = Some(35);
    assert_eq!(enc.duration(25), 15);
    enc.first_damage = Some(36);
    assert_eq!(enc.duration(25), 0);
}

#[test]
fn skill_database_lookups() {
    let db = skills();
    assert_eq!(db.name(100), Some("Strike"));
    assert_eq!(db.name(1), None);
    assert_eq!(db.class_for(100), Some(Class::Berserker));
    assert_eq!(db.class_for(21000), Some(Class::Bard));
    assert_eq!(db.class_for(7), None);
    assert_eq!(db.class_for(1), None);
    let info = SkillInfo::from_mined("n".to_string(), 0, String::new());
    assert_eq!((info.class_id, info.icon), (None, None));
    let info = SkillInfo::from_mined("n".to_string(), 5, "i".to_string());
    assert_eq!((info.class_id, info.icon.as_deref()), (Some(5), Some("i")));
}

#[test]
fn environment_builders() {
    let env = Environment::new()
        .with_pov(3)
        .with_player(3, Player::new(Some("Bard".to_string()), Class::Bard, 10.0f32.to_bits()))
        .with_player(4, Player::default());
    assert_eq!(env.pov, Some(3));
    assert_eq!(env.pov().unwrap().name.as_deref(), Some("Bard"));
    assert_eq!(env.players[&4].class, Class::Unknown);
    let copy = env.players[&3].clone();
    assert_eq!(copy.name.as_deref(), Some("Bard"));
    assert_eq!(copy.class, Class::Bard);
    assert_eq!(Projectile::from_raw(ProjectileInfo { projectile_id: 1, owner_id: 2 }), Projectile { id: 1, owner_id: 2 });
    let mut data = Data::new(0);
    data.current_env_mut().pov = Some(9);
    assert_eq!(data.current_env().pov, Some(9));
    data.current_enc_mut().wipe = true;
    assert!(data.current_enc().wipe);
    data.live.recently_tracked = Some(1);
    data.live.parties.insert(1, 1);
    data.live.clear_encounter_data();
    assert_eq!(data.live.recently_tracked, None);
    assert_eq!(data.live.parties.len(), 1);
    data.live.clear_all();
    assert!(data.live.parties.is_empty());
}

#[test]
fn the_times_of_an_encounter_stay_in_order() {
    let mut m = after_the_first_hit();
    damage(&mut m, 42, 100, vec![hit(500, 5, 5000, 10000, 0x00)], 5 * SECOND).unwrap();
    m.on_trigger_start_notify(PktTriggerStartNotify { trigger_signal_type: 58 });
    m.on_trigger_start_notify(PktTriggerStartNotify { trigger_signal_type: 57 });
    m.on_new_npc(PktNewNpc { npc_struct: NpcStruct { object_id: 500, type_id: 42063041 } }, 6 * SECOND);
    damage(&mut m, 42, 100, vec![hit(500, 5, 5000, 10000, 0x00)], 7 * SECOND).unwrap();
    m.on_init_env(PktInitEnv { player_id: 43 }, 8 * SECOND);
    m.data.new_encounter(9 * SECOND);
    let last = m.data.encounters.len() - 1;
    for (i, e) in m.data.encounters.iter().enumerate() {
        assert_eq!(e.end.is_none(), i == last);
        assert!(!(e.wipe && e.clear));
        if let Some(first) = e.first_damage {
            assert!(e.start <= first);
            assert!(first <= e.last_damage.unwrap());
        } else {
            assert!(e.last_damage.is_none());
        }
        if let (Some(l), Some(end)) = (e.last_damage, e.end) {
            assert!(l <= end);
        }
        if let Some(end) = e.end {
            assert!(e.start <= end && end <= 9 * SECOND);
        }
    }
    // the encounter of the first hits ended when the boss appeared
    assert_eq!(m.data.encounters[1].first_damage, Some(2 * SECOND));
    assert_eq!(m.data.encounters[1].last_damage, Some(5 * SECOND));
    assert_eq!(m.data.encounters[1].end, Some(6 * SECOND));
    assert_eq!(m.data.encounters[2].first_damage, Some(7 * SECOND));
    assert_eq!(m.data.encounters[2].end, Some(8 * SECOND));
}
