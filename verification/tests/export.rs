use larps::definitions::Class;
use larps::meter::log::{Damage, EntityIndex, EntityKind, Log, SkillId, SpeciesId, Status, Timestamp};
use larps::meter::{Data, Meter, SkillData, SkillInfo};
use larps::packet::{
    NpcStruct, PcStruct, PktInitEnv, PktNewNpc, PktNewPc, PktSkillDamageNotify,
    PktTriggerStartNotify, SkillDamageEvent,
};
use larps::ui::{players_by_damage, Ranked};

const MS: u64 = 1_000_000;

fn hit(target_id: u64, damage: i64) -> SkillDamageEvent {
    SkillDamageEvent { target_id, damage, cur_hp: 1, max_hp: 2, modifier: 0x11 }
}

fn model() -> Meter {
    let mut db = SkillData::new();
    db.insert(100, SkillInfo::from_mined("Strike".to_string(), 102, String::new()));
    let mut m = Meter::new(Data::new(0), db);
    m.on_init_env(PktInitEnv { player_id: 42 }, 1000 * MS);
    for (player_id, name) in [(42u64, "A"), (7, "B"), (43, "idle")] {
        m.on_new_pc(PktNewPc {
            pc_struct: PcStruct { player_id, name, class_id: 102, avg_item_level: 0, character_id: player_id + 1000 },
        });
    }
    m.on_new_npc(PktNewNpc { npc_struct: NpcStruct { object_id: 500, type_id: 480005 } }, 1000 * MS);
    m.on_new_npc(PktNewNpc { npc_struct: NpcStruct { object_id: 20, type_id: 5 } }, 1000 * MS);
    for (source_id, events, at) in [
        (42u64, vec![hit(500, 10), hit(999, 5)], 1500u64),
        (7, vec![hit(20, 30)], 2250),
        (42, vec![hit(500, 1)], 3001),
    ] {
        m.on_skill_damage_notify(
            PktSkillDamageNotify { source_id, skill_id: 100, skill_damage_events: events },
            at * MS + 999_999,
        )
        .unwrap();
    }
    m
}

#[test]
fn a_running_encounter_has_no_log() {
    let m = model();
    assert!(Log::from_encounter(m.data.current_enc(), m.data.current_env()).is_none());
}

#[test]
fn a_finished_encounter_is_written_out() {
    let mut m = model();
    m.on_trigger_start_notify(PktTriggerStartNotify { trigger_signal_type: 59 });
    m.data.new_encounter(4000 * MS);
    let enc = &m.data.encounters[m.data.encounters.len() - 2];
    let log = Log::from_encounter(enc, m.data.current_env()).unwrap();
    assert_eq!(log.end, Timestamp(3000));
    assert_eq!(log.status, Some(Status::Wipe));
    // players with a record by object id, then the other entities by object id
    assert_eq!(log.entities.len(), 4);
    assert_eq!(log.entities[0].name.as_deref(), Some("B"));
    assert_eq!(log.entities[1].name.as_deref(), Some("A"));
    assert_eq!(log.entities[0].kind, EntityKind::Player);
    assert_eq!(log.entities[2].kind, EntityKind::Npc(SpeciesId(5)));
    assert_eq!(log.entities[3].kind, EntityKind::Npc(SpeciesId(480005)));
    assert_eq!(log.entities[3].name.as_deref(), Some("Boss"));
    assert!(log.entities[3].damage.is_empty() && log.entities[3].skills.is_empty());
    assert_eq!(log.pov, Some(EntityIndex(1)));
    assert_eq!(log.targets, vec![EntityIndex(3)]);
    // times count in whole milliseconds from the start of the encounter
    let a = &log.entities[1];
    assert_eq!(
        a.damage,
        vec![(Timestamp(500), Damage(10)), (Timestamp(500), Damage(5)), (Timestamp(2001), Damage(1))]
    );
    assert_eq!(a.casts[2], (Timestamp(2001), SkillId(100)));
    // the hit on a target outside the environment is left out
    let skill = &a.skills[&100];
    assert_eq!(skill.name.as_deref(), Some("Strike"));
    assert_eq!(skill.hits.len(), 2);
    assert_eq!(skill.hits[0].1.target, EntityIndex(3));
    assert_eq!(skill.hits[0].1.damage, Damage(10));
    assert!(skill.hits[0].1.is_crit && skill.hits[0].1.is_back_attack && !skill.hits[0].1.is_front_attack);
    assert_eq!(skill.hits[1].0, Timestamp(2001));
    let b = &log.entities[0];
    assert_eq!(b.skills[&100].hits[0].1.target, EntityIndex(2));
    assert_eq!(b.damage, vec![(Timestamp(1250), Damage(30))]);
}

#[test]
fn an_entity_that_is_player_and_npc_counts_as_npc() {
    let mut m = model();
    m.on_new_npc(PktNewNpc { npc_struct: NpcStruct { object_id: 42, type_id: 9 } }, 1000 * MS);
    m.on_trigger_start_notify(PktTriggerStartNotify { trigger_signal_type: 58 });
    m.data.new_encounter(4000 * MS);
    let enc = &m.data.encounters[m.data.encounters.len() - 2];
    let log = Log::from_encounter(enc, m.data.current_env()).unwrap();
    assert_eq!(log.entities.len(), 5);
    assert_eq!(log.entities[3].kind, EntityKind::Npc(SpeciesId(9)));
    assert_eq!(log.pov, Some(EntityIndex(3)));
    assert_eq!(log.status, Some(Status::Clear));
}

#[test]
fn players_are_ranked_by_damage() {
    let mut m = model();
    let rank = players_by_damage(m.data.current_enc());
    assert_eq!(rank, vec![Ranked { id: 7, damage: 30 }, Ranked { id: 42, damage: 16 }]);
    for (source_id, damage) in [(43u64, 30i64), (44, 16), (45, 100)] {
        m.on_skill_damage_notify(
            PktSkillDamageNotify { source_id, skill_id: 100, skill_damage_events: vec![hit(500, damage)] },
            3500 * MS,
        )
        .unwrap();
    }
    let ids: Vec<u64> = players_by_damage(m.data.current_enc()).iter().map(|r| r.id).collect();
    assert_eq!(ids, vec![45, 7, 43, 42, 44]);
    assert_eq!(m.data.current_env().players[&45].class, Class::Berserker);
    let empty = Data::new(0);
    assert!(players_by_damage(empty.current_enc()).is_empty());
}
