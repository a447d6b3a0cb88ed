//! From decoded values to the packets that the meter acts on.

use crate::meter::{CharacterView, EventView, MeterEvent};
use crate::opcode::Opcode;
use crate::packet::{
    inner_events, member_views, NpcStruct, PartyMemberData, PartyMemberView, PcStruct,
    PktInitEnv, PktInitLocal, PktInitPc, PktMigrationExecute, PktNewNpc, PktNewPc,
    PktNewProjectile, PktPartyInfo, PktPartyStatusEffectAddNotify,
    PktPartyStatusEffectRemoveNotify, PktPartyStatusEffectResultNotify, PktRaidBossKillNotify,
    PktRaidResult, PktSkillDamageAbnormalMoveNotify, PktSkillDamageNotify,
    PktStatusEffectAddNotify, PktStatusEffectRemoveNotify, PktTriggerBossBattleStatus,
    PktTriggerStartNotify, ProjectileInfo, SkillDamageAbnormalMoveEvent, SkillDamageEvent,
    StatusEffectData,
};
use crate::schema::{
    field_of, int_at, lemma_values_view, list_at, number_of, text_at, uint_at, value_view,
    values_view, Value, ValueView,
};
use vstd::prelude::*;

verus! {

/// The character that a record describes, with the gear level under the
/// given name.
pub open spec fn character_of(v: ValueView, gear: Seq<char>) -> Option<CharacterView> {
    match (
        uint_at(v, "player_id"@, u64::MAX as int),
        text_at(v, "name"@),
        uint_at(v, "class_id"@, u16::MAX as int),
        uint_at(v, gear, u32::MAX as int),
        uint_at(v, "character_id"@, u64::MAX as int),
    ) {
        (Some(player_id), Some(name), Some(class_id), Some(gear_level), Some(character_id)) => Some(
            CharacterView {
                player_id: player_id as u64,
                name,
                class_id: class_id as u16,
                gear_level: gear_level as u32,
                character_id: character_id as u64,
            },
        ),
        _ => None,
    }
}

/// The damage event that a record describes.
pub open spec fn damage_event_of(v: ValueView) -> Option<SkillDamageEvent> {
    match (
        uint_at(v, "target_id"@, u64::MAX as int),
        int_at(v, "damage"@),
        int_at(v, "cur_hp"@),
        int_at(v, "max_hp"@),
        uint_at(v, "modifier"@, u8::MAX as int),
    ) {
        (Some(target_id), Some(damage), Some(cur_hp), Some(max_hp), Some(modifier)) => Some(
            SkillDamageEvent {
                target_id: target_id as u64,
                damage: damage as i64,
                cur_hp: cur_hp as i64,
                max_hp: max_hp as i64,
                modifier: modifier as u8,
            },
        ),
        _ => None,
    }
}

/// The damage event inside the record of an event that also moves.
pub open spec fn moved_event_of(v: ValueView) -> Option<SkillDamageEvent> {
    match field_of(v, "skill_damage_event"@) {
        Some(inner) => damage_event_of(inner),
        None => None,
    }
}

/// The status effect that a record describes.
pub open spec fn effect_of(v: ValueView) -> Option<StatusEffectData> {
    match (
        uint_at(v, "status_effect_id"@, u32::MAX as int),
        uint_at(v, "stack_count"@, u8::MAX as int),
        uint_at(v, "source_id"@, u64::MAX as int),
        uint_at(v, "effect_instance_id"@, u32::MAX as int),
    ) {
        (Some(status_effect_id), Some(stack_count), Some(source_id), Some(effect_instance_id)) => Some(
            StatusEffectData {
                status_effect_id: status_effect_id as u32,
                stack_count: stack_count as u8,
                source_id: source_id as u64,
                effect_instance_id: effect_instance_id as u32,
            },
        ),
        _ => None,
    }
}

/// The party member that a record describes.
pub open spec fn member_of(v: ValueView) -> Option<PartyMemberView> {
    match (
        uint_at(v, "character_id"@, u64::MAX as int),
        text_at(v, "name"@),
        uint_at(v, "class_id"@, u16::MAX as int),
        uint_at(v, "gear_level"@, u32::MAX as int),
    ) {
        (Some(character_id), Some(name), Some(class_id), Some(gear_level)) => Some(
            PartyMemberView {
                character_id: character_id as u64,
                name,
                class_id: class_id as u16,
                gear_level: gear_level as u32,
            },
        ),
        _ => None,
    }
}

/// The effect instance id that a value is.
pub open spec fn instance_of(v: ValueView) -> Option<u32> {
    match number_of(v) {
        Some(n) => if 0 <= n <= u32::MAX {
            Some(n as u32)
        } else {
            None
        },
        None => None,
    }
}

/// What the items are as damage events, where each of them is one.
pub open spec fn damage_events_of(items: Seq<ValueView>) -> Option<Seq<SkillDamageEvent>>
    decreases items.len(),
{
    if items.len() == 0 {
        Some(Seq::empty())
    } else {
        match (damage_events_of(items.drop_last()), damage_event_of(items.last())) {
            (Some(earlier), Some(x)) => Some(earlier.push(x)),
            _ => None,
        }
    }
}

/// The list in a field as damage events.
pub open spec fn damage_events_at(v: ValueView, name: Seq<char>) -> Option<Seq<SkillDamageEvent>> {
    match list_at(v, name) {
        Some(items) => damage_events_of(items),
        None => None,
    }
}

proof fn lemma_damage_events_fail(items: Seq<ValueView>, at: int, upto: int)
    requires
        0 <= at <= upto <= items.len(),
        damage_events_of(items.take(at)) is None,
    ensures
        damage_events_of(items.take(upto)) is None,
    decreases upto,
{
    if at < upto {
        lemma_damage_events_fail(items, at, upto - 1);
        assert(items.take(upto).drop_last() =~= items.take(upto - 1));
    }
}

/// What the items are as damage events of events that also move, where each of them is one.
pub open spec fn moved_events_of(items: Seq<ValueView>) -> Option<Seq<SkillDamageEvent>>
    decreases items.len(),
{
    if items.len() == 0 {
        Some(Seq::empty())
    } else {
        match (moved_events_of(items.drop_last()), moved_event_of(items.last())) {
            (Some(earlier), Some(x)) => Some(earlier.push(x)),
            _ => None,
        }
    }
}

/// The list in a field as damage events of events that also move.
pub open spec fn moved_events_at(v: ValueView, name: Seq<char>) -> Option<Seq<SkillDamageEvent>> {
    match list_at(v, name) {
        Some(items) => moved_events_of(items),
        None => None,
    }
}

proof fn lemma_moved_events_fail(items: Seq<ValueView>, at: int, upto: int)
    requires
        0 <= at <= upto <= items.len(),
        moved_events_of(items.take(at)) is None,
    ensures
        moved_events_of(items.take(upto)) is None,
    decreases upto,
{
    if at < upto {
        lemma_moved_events_fail(items, at, upto - 1);
        assert(items.take(upto).drop_last() =~= items.take(upto - 1));
    }
}

/// What the items are as status effects, where each of them is one.
pub open spec fn effects_of(items: Seq<ValueView>) -> Option<Seq<StatusEffectData>>
    decreases items.len(),
{
    if items.len() == 0 {
        Some(Seq::empty())
    } else {
        match (effects_of(items.drop_last()), effect_of(items.last())) {
            (Some(earlier), Some(x)) => Some(earlier.push(x)),
            _ => None,
        }
    }
}

/// The list in a field as status effects.
pub open spec fn effects_at(v: ValueView, name: Seq<char>) -> Option<Seq<StatusEffectData>> {
    match list_at(v, name) {
        Some(items) => effects_of(items),
        None => None,
    }
}

proof fn lemma_effects_fail(items: Seq<ValueView>, at: int, upto: int)
    requires
        0 <= at <= upto <= items.len(),
        effects_of(items.take(at)) is None,
    ensures
        effects_of(items.take(upto)) is None,
    decreases upto,
{
    if at < upto {
        lemma_effects_fail(items, at, upto - 1);
        assert(items.take(upto).drop_last() =~= items.take(upto - 1));
    }
}

/// What the items are as effect instance ids, where each of them is one.
pub open spec fn instances_of(items: Seq<ValueView>) -> Option<Seq<u32>>
    decreases items.len(),
{
    if items.len() == 0 {
        Some(Seq::empty())
    } else {
        match (instances_of(items.drop_last()), instance_of(items.last())) {
            (Some(earlier), Some(x)) => Some(earlier.push(x)),
            _ => None,
        }
    }
}

/// The list in a field as effect instance ids.
pub open spec fn instances_at(v: ValueView, name: Seq<char>) -> Option<Seq<u32>> {
    match list_at(v, name) {
        Some(items) => instances_of(items),
        None => None,
    }
}

proof fn lemma_instances_fail(items: Seq<ValueView>, at: int, upto: int)
    requires
        0 <= at <= upto <= items.len(),
        instances_of(items.take(at)) is None,
    ensures
        instances_of(items.take(upto)) is None,
    decreases upto,
{
    if at < upto {
        lemma_instances_fail(items, at, upto - 1);
        assert(items.take(upto).drop_last() =~= items.take(upto - 1));
    }
}

/// What the items are as party members, where each of them is one.
pub open spec fn members_of(items: Seq<ValueView>) -> Option<Seq<PartyMemberView>>
    decreases items.len(),
{
    if items.len() == 0 {
        Some(Seq::empty())
    } else {
        match (members_of(items.drop_last()), member_of(items.last())) {
            (Some(earlier), Some(x)) => Some(earlier.push(x)),
            _ => None,
        }
    }
}

/// The list in a field as party members.
pub open spec fn members_at(v: ValueView, name: Seq<char>) -> Option<Seq<PartyMemberView>> {
    match list_at(v, name) {
        Some(items) => members_of(items),
        None => None,
    }
}

proof fn lemma_members_fail(items: Seq<ValueView>, at: int, upto: int)
    requires
        0 <= at <= upto <= items.len(),
        members_of(items.take(at)) is None,
    ensures
        members_of(items.take(upto)) is None,
    decreases upto,
{
    if at < upto {
        lemma_members_fail(items, at, upto - 1);
        assert(items.take(upto).drop_last() =~= items.take(upto - 1));
    }
}

/// The packet that a decoded message is to the meter: the fields that the
/// meter reads, found by their names. There is none for a packet that the
/// meter does not act on, and none where a field is missing or out of its
/// range.
pub open spec fn event_of(opcode: Opcode, v: ValueView) -> Option<EventView> {
    match opcode {
        Opcode::InitEnv => match uint_at(v, "player_id"@, u64::MAX as int) {
            Some(id) => Some(EventView::InitEnv { player_id: id as u64 }),
            None => None,
        },
        Opcode::InitLocal => match uint_at(v, "character_id"@, u64::MAX as int) {
            Some(id) => Some(EventView::InitLocal { character_id: id as u64 }),
            None => None,
        },
        Opcode::InitPc => match character_of(v, "gear_level"@) {
            Some(character) => Some(EventView::InitPc { character }),
            None => None,
        },
        Opcode::NewPc => match field_of(v, "pc_struct"@) {
            Some(pc) => match character_of(pc, "avg_item_level"@) {
                Some(character) => Some(EventView::NewPc { character }),
                None => None,
            },
            None => None,
        },
        Opcode::NewNpc => match field_of(v, "npc_struct"@) {
            Some(npc) => match (
                uint_at(npc, "object_id"@, u64::MAX as int),
                uint_at(npc, "type_id"@, u32::MAX as int),
            ) {
                (Some(object_id), Some(type_id)) => Some(
                    EventView::NewNpc { object_id: object_id as u64, type_id: type_id as u32 },
                ),
                _ => None,
            },
            None => None,
        },
        Opcode::NewProjectile => match field_of(v, "projectile_info"@) {
            Some(info) => match (
                uint_at(info, "projectile_id"@, u64::MAX as int),
                uint_at(info, "owner_id"@, u64::MAX as int),
            ) {
                (Some(projectile_id), Some(owner_id)) => Some(
                    EventView::NewProjectile {
                        projectile_id: projectile_id as u64,
                        owner_id: owner_id as u64,
                    },
                ),
                _ => None,
            },
            None => None,
        },
        Opcode::SkillDamageNotify => match (
            uint_at(v, "source_id"@, u64::MAX as int),
            uint_at(v, "skill_id"@, u32::MAX as int),
            damage_events_at(v, "skill_damage_events"@),
        ) {
            (Some(source_id), Some(skill_id), Some(events)) => Some(
                EventView::SkillDamage {
                    source_id: source_id as u64,
                    skill_id: skill_id as u32,
                    events,
                },
            ),
            _ => None,
        },
        Opcode::SkillDamageAbnormalMoveNotify => match (
            uint_at(v, "source_id"@, u64::MAX as int),
            uint_at(v, "skill_id"@, u32::MAX as int),
            moved_events_at(v, "skill_damage_abnormal_move_events"@),
        ) {
            (Some(source_id), Some(skill_id), Some(events)) => Some(
                EventView::SkillDamageAbnormalMove {
                    source_id: source_id as u64,
                    skill_id: skill_id as u32,
                    events,
                },
            ),
            _ => None,
        },
        Opcode::StatusEffectAddNotify => match (
            uint_at(v, "object_id"@, u64::MAX as int),
            field_of(v, "status_effect_data"@),
        ) {
            (Some(object_id), Some(data)) => match effect_of(data) {
                Some(effect) => Some(
                    EventView::StatusEffectAdd { object_id: object_id as u64, effect },
                ),
                None => None,
            },
            _ => None,
        },
        Opcode::StatusEffectRemoveNotify => match (
            uint_at(v, "object_id"@, u64::MAX as int),
            instances_at(v, "status_effect_ids"@),
        ) {
            (Some(object_id), Some(instances)) => Some(
                EventView::StatusEffectRemove { object_id: object_id as u64, instances },
            ),
            _ => None,
        },
        Opcode::PartyStatusEffectAddNotify => match (
            uint_at(v, "character_id"@, u64::MAX as int),
            effects_at(v, "status_effect_datas"@),
        ) {
            (Some(character_id), Some(effects)) => Some(
                EventView::PartyStatusEffectAdd { character_id: character_id as u64, effects },
            ),
            _ => None,
        },
        Opcode::PartyStatusEffectRemoveNotify => match (
            uint_at(v, "character_id"@, u64::MAX as int),
            instances_at(v, "status_effect_ids"@),
        ) {
            (Some(character_id), Some(instances)) => Some(
                EventView::PartyStatusEffectRemove {
                    character_id: character_id as u64,
                    instances,
                },
            ),
            _ => None,
        },
        Opcode::PartyStatusEffectResultNotify => match (
            uint_at(v, "character_id"@, u64::MAX as int),
            uint_at(v, "party_instance_id"@, u32::MAX as int),
        ) {
            (Some(character_id), Some(party)) => Some(
                EventView::PartyStatusEffectResult {
                    character_id: character_id as u64,
                    party_instance_id: party as u32,
                },
            ),
            _ => None,
        },
        Opcode::PartyInfo => match (
            uint_at(v, "party_instance_id"@, u32::MAX as int),
            members_at(v, "member_datas"@),
        ) {
            (Some(party), Some(members)) => Some(
                EventView::PartyInfo { party_instance_id: party as u32, members },
            ),
            _ => None,
        },
        Opcode::MigrationExecute => match (
            uint_at(v, "account_character_id1"@, u64::MAX as int),
            uint_at(v, "account_character_id2"@, u64::MAX as int),
        ) {
            (Some(id1), Some(id2)) => Some(
                EventView::MigrationExecute {
                    account_character_id1: id1 as u64,
                    account_character_id2: id2 as u64,
                },
            ),
            _ => None,
        },
        Opcode::TriggerStartNotify => match uint_at(v, "trigger_signal_type"@, u32::MAX as int) {
            Some(signal) => Some(EventView::TriggerStart { trigger_signal_type: signal as u32 }),
            None => None,
        },
        Opcode::RaidBossKillNotify => Some(EventView::RaidBossKill),
        Opcode::RaidResult => Some(EventView::RaidResult),
        Opcode::TriggerBossBattleStatus => Some(EventView::TriggerBossBattleStatus),
        _ => None,
    }
}

/// Reads a damage event from its record.
fn read_damage_event(v: &Value) -> (r: Option<SkillDamageEvent>)
    ensures
        r == damage_event_of(v@),
{
    let target_id = v.unsigned("target_id", u64::MAX)?;
    let damage = v.signed("damage")?;
    let cur_hp = v.signed("cur_hp")?;
    let max_hp = v.signed("max_hp")?;
    let modifier = v.unsigned("modifier", u8::MAX as u64)?;
    Some(SkillDamageEvent { target_id, damage, cur_hp, max_hp, modifier: modifier as u8 })
}

/// Reads the damage event inside the record of an event that also moves.
fn read_moved_event(v: &Value) -> (r: Option<SkillDamageEvent>)
    ensures
        r == moved_event_of(v@),
{
    read_damage_event(v.field("skill_damage_event")?)
}

/// Reads a status effect from its record.
fn read_effect(v: &Value) -> (r: Option<StatusEffectData>)
    ensures
        r == effect_of(v@),
{
    let status_effect_id = v.unsigned("status_effect_id", u32::MAX as u64)?;
    let stack_count = v.unsigned("stack_count", u8::MAX as u64)?;
    let source_id = v.unsigned("source_id", u64::MAX)?;
    let effect_instance_id = v.unsigned("effect_instance_id", u32::MAX as u64)?;
    Some(
        StatusEffectData {
            status_effect_id: status_effect_id as u32,
            stack_count: stack_count as u8,
            source_id,
            effect_instance_id: effect_instance_id as u32,
        },
    )
}

/// Reads a party member from its record.
fn read_member<'a>(v: &'a Value) -> (r: Option<PartyMemberData<'a>>)
    ensures
        match r {
            Some(m) => member_of(v@) == Some(m@),
            None => member_of(v@) is None,
        },
{
    let character_id = v.unsigned("character_id", u64::MAX)?;
    let name = v.text("name")?;
    let class_id = v.unsigned("class_id", u16::MAX as u64)?;
    let gear_level = v.unsigned("gear_level", u32::MAX as u64)?;
    Some(
        PartyMemberData {
            character_id,
            name,
            class_id: class_id as u16,
            gear_level: gear_level as u32,
        },
    )
}

/// Reads an effect instance id.
fn read_instance(v: &Value) -> (r: Option<u32>)
    ensures
        r == instance_of(v@),
{
    match v {
        Value::Unsigned(u) => if *u <= u32::MAX as u64 {
            Some(*u as u32)
        } else {
            None
        },
        Value::Signed(i) => if 0 <= *i && *i <= u32::MAX as i64 {
            Some(*i as u32)
        } else {
            None
        },
        _ => None,
    }
}

/// Reads the damage events of the list in a field.
fn read_damage_events(v: &Value, name: &str) -> (r: Option<Vec<SkillDamageEvent>>)
    ensures
        match r {
            Some(out) => damage_events_at(v@, name@) == Some(out@),
            None => damage_events_at(v@, name@) is None,
        },
{
    let list = v.list(name)?;
    let ghost items = values_view(list@);
    let mut out: Vec<SkillDamageEvent> = Vec::new();
    let mut i: usize = 0;
    proof {
        lemma_values_view(list@);
        assert(items.take(0) =~= Seq::empty());
    }
    while i < list.len()
        invariant
            0 <= i <= list@.len(),
            list_at(v@, name@) == Some(items),
            items.len() == list@.len(),
            forall|k: int| 0 <= k < list@.len() ==> #[trigger] items[k] == value_view(list@[k]),
            damage_events_of(items.take(i as int)) == Some(out@),
        decreases list@.len() - i,
    {
        let read = read_damage_event(&list[i]);
        proof {
            assert(items.take(i + 1).drop_last() =~= items.take(i as int));
            assert(items.take(i + 1).last() == items[i as int]);
        }
        match read {
            Some(x) => {
                out.push(x);
            },
            None => {
                proof {
                    lemma_damage_events_fail(items, i + 1, items.len() as int);
                    assert(items.take(items.len() as int) =~= items);
                }
                return None;
            },
        }
        i = i + 1;
    }
    assert(items.take(items.len() as int) =~= items);
    Some(out)
}

/// Reads the damage events of events that also move of the list in a field.
fn read_moved_events(v: &Value, name: &str) -> (r: Option<Vec<SkillDamageEvent>>)
    ensures
        match r {
            Some(out) => moved_events_at(v@, name@) == Some(out@),
            None => moved_events_at(v@, name@) is None,
        },
{
    let list = v.list(name)?;
    let ghost items = values_view(list@);
    let mut out: Vec<SkillDamageEvent> = Vec::new();
    let mut i: usize = 0;
    proof {
        lemma_values_view(list@);
        assert(items.take(0) =~= Seq::empty());
    }
    while i < list.len()
        invariant
            0 <= i <= list@.len(),
            list_at(v@, name@) == Some(items),
            items.len() == list@.len(),
            forall|k: int| 0 <= k < list@.len() ==> #[trigger] items[k] == value_view(list@[k]),
            moved_events_of(items.take(i as int)) == Some(out@),
        decreases list@.len() - i,
    {
        let read = read_moved_event(&list[i]);
        proof {
            assert(items.take(i + 1).drop_last() =~= items.take(i as int));
            assert(items.take(i + 1).last() == items[i as int]);
        }
        match read {
            Some(x) => {
                out.push(x);
            },
            None => {
                proof {
                    lemma_moved_events_fail(items, i + 1, items.len() as int);
                    assert(items.take(items.len() as int) =~= items);
                }
                return None;
            },
        }
        i = i + 1;
    }
    assert(items.take(items.len() as int) =~= items);
    Some(out)
}

/// Reads the status effects of the list in a field.
fn read_effects(v: &Value, name: &str) -> (r: Option<Vec<StatusEffectData>>)
    ensures
        match r {
            Some(out) => effects_at(v@, name@) == Some(out@),
            None => effects_at(v@, name@) is None,
        },
{
    let list = v.list(name)?;
    let ghost items = values_view(list@);
    let mut out: Vec<StatusEffectData> = Vec::new();
    let mut i: usize = 0;
    proof {
        lemma_values_view(list@);
        assert(items.take(0) =~= Seq::empty());
    }
    while i < list.len()
        invariant
            0 <= i <= list@.len(),
            list_at(v@, name@) == Some(items),
            items.len() == list@.len(),
            forall|k: int| 0 <= k < list@.len() ==> #[trigger] items[k] == value_view(list@[k]),
            effects_of(items.take(i as int)) == Some(out@),
        decreases list@.len() - i,
    {
        let read = read_effect(&list[i]);
        proof {
            assert(items.take(i + 1).drop_last() =~= items.take(i as int));
            assert(items.take(i + 1).last() == items[i as int]);
        }
        match read {
            Some(x) => {
                out.push(x);
            },
            None => {
                proof {
                    lemma_effects_fail(items, i + 1, items.len() as int);
                    assert(items.take(items.len() as int) =~= items);
                }
                return None;
            },
        }
        i = i + 1;
    }
    assert(items.take(items.len() as int) =~= items);
    Some(out)
}

/// Reads the effect instance ids of the list in a field.
fn read_instances(v: &Value, name: &str) -> (r: Option<Vec<u32>>)
    ensures
        match r {
            Some(out) => instances_at(v@, name@) == Some(out@),
            None => instances_at(v@, name@) is None,
        },
{
    let list = v.list(name)?;
    let ghost items = values_view(list@);
    let mut out: Vec<u32> = Vec::new();
    let mut i: usize = 0;
    proof {
        lemma_values_view(list@);
        assert(items.take(0) =~= Seq::empty());
    }
    while i < list.len()
        invariant
            0 <= i <= list@.len(),
            list_at(v@, name@) == Some(items),
            items.len() == list@.len(),
            forall|k: int| 0 <= k < list@.len() ==> #[trigger] items[k] == value_view(list@[k]),
            instances_of(items.take(i as int)) == Some(out@),
        decreases list@.len() - i,
    {
        let read = read_instance(&list[i]);
        proof {
            assert(items.take(i + 1).drop_last() =~= items.take(i as int));
            assert(items.take(i + 1).last() == items[i as int]);
        }
        match read {
            Some(x) => {
                out.push(x);
            },
            None => {
                proof {
                    lemma_instances_fail(items, i + 1, items.len() as int);
                    assert(items.take(items.len() as int) =~= items);
                }
                return None;
            },
        }
        i = i + 1;
    }
    assert(items.take(items.len() as int) =~= items);
    Some(out)
}

/// Reads the party members of the list in a field.
fn read_members<'a>(v: &'a Value, name: &str) -> (r: Option<Vec<PartyMemberData<'a>>>)
    ensures
        match r {
            Some(out) => members_at(v@, name@) == Some(member_views(out@)),
            None => members_at(v@, name@) is None,
        },
{
    let list = v.list(name)?;
    let ghost items = values_view(list@);
    let mut out: Vec<PartyMemberData<'a>> = Vec::new();
    let mut i: usize = 0;
    proof {
        lemma_values_view(list@);
        assert(items.take(0) =~= Seq::empty());
        assert(member_views(out@) =~= Seq::empty());
    }
    while i < list.len()
        invariant
            0 <= i <= list@.len(),
            list_at(v@, name@) == Some(items),
            items.len() == list@.len(),
            forall|k: int| 0 <= k < list@.len() ==> #[trigger] items[k] == value_view(list@[k]),
            members_of(items.take(i as int)) == Some(member_views(out@)),
        decreases list@.len() - i,
    {
        let read = read_member(&list[i]);
        proof {
            assert(items.take(i + 1).drop_last() =~= items.take(i as int));
            assert(items.take(i + 1).last() == items[i as int]);
        }
        match read {
            Some(x) => {
                proof {
                    assert(member_views(out@.push(x)) =~= member_views(out@).push(x@));
                }
                out.push(x);
            },
            None => {
                proof {
                    lemma_members_fail(items, i + 1, items.len() as int);
                    assert(items.take(items.len() as int) =~= items);
                }
                return None;
            },
        }
        i = i + 1;
    }
    assert(items.take(items.len() as int) =~= items);
    Some(out)
}

/// The character that a record describes.
pub struct Character<'a> {
    pub player_id: u64,
    pub name: &'a str,
    pub class_id: u16,
    pub gear_level: u32,
    pub character_id: u64,
}

/// Reads a character from its record.
fn read_character<'a>(v: &'a Value, gear: &str) -> (r: Option<Character<'a>>)
    ensures
        match r {
            Some(c) => character_of(v@, gear@) == Some(
                CharacterView {
                    player_id: c.player_id,
                    name: c.name@,
                    class_id: c.class_id,
                    gear_level: c.gear_level,
                    character_id: c.character_id,
                },
            ),
            None => character_of(v@, gear@) is None,
        },
{
    let player_id = v.unsigned("player_id", u64::MAX)?;
    let name = v.text("name")?;
    let class_id = v.unsigned("class_id", u16::MAX as u64)?;
    let gear_level = v.unsigned(gear, u32::MAX as u64)?;
    let character_id = v.unsigned("character_id", u64::MAX)?;
    Some(
        Character {
            player_id,
            name,
            class_id: class_id as u16,
            gear_level: gear_level as u32,
            character_id,
        },
    )
}

/// Reads the packets whose fields are all numbers.
fn read_simple<'a>(opcode: Opcode, v: &'a Value) -> (r: Option<MeterEvent<'a>>)
    requires
        opcode == Opcode::InitEnv || opcode == Opcode::InitLocal || opcode == Opcode::NewNpc
            || opcode == Opcode::NewProjectile || opcode == Opcode::PartyStatusEffectResultNotify
            || opcode == Opcode::MigrationExecute || opcode == Opcode::TriggerStartNotify,
    ensures
        match r {
            Some(e) => event_of(opcode, v@) == Some(e@),
            None => event_of(opcode, v@) is None,
        },
{
    match opcode {
        Opcode::InitEnv => {
            let player_id = v.unsigned("player_id", u64::MAX)?;
            Some(MeterEvent::InitEnv(PktInitEnv { player_id }))
        },
        Opcode::InitLocal => {
            let character_id = v.unsigned("character_id", u64::MAX)?;
            Some(MeterEvent::InitLocal(PktInitLocal { character_id }))
        },
        Opcode::NewNpc => {
            let npc = v.field("npc_struct")?;
            let object_id = npc.unsigned("object_id", u64::MAX)?;
            let type_id = npc.unsigned("type_id", u32::MAX as u64)?;
            Some(
                MeterEvent::NewNpc(
                    PktNewNpc { npc_struct: NpcStruct { object_id, type_id: type_id as u32 } },
                ),
            )
        },
        Opcode::NewProjectile => {
            let info = v.field("projectile_info")?;
            let projectile_id = info.unsigned("projectile_id", u64::MAX)?;
            let owner_id = info.unsigned("owner_id", u64::MAX)?;
            Some(
                MeterEvent::NewProjectile(
                    PktNewProjectile { projectile_info: ProjectileInfo { projectile_id, owner_id } },
                ),
            )
        },
        Opcode::PartyStatusEffectResultNotify => {
            let character_id = v.unsigned("character_id", u64::MAX)?;
            let party = v.unsigned("party_instance_id", u32::MAX as u64)?;
            Some(
                MeterEvent::PartyStatusEffectResult(
                    PktPartyStatusEffectResultNotify {
                        character_id,
                        party_instance_id: party as u32,
                    },
                ),
            )
        },
        Opcode::MigrationExecute => {
            let id1 = v.unsigned("account_character_id1", u64::MAX)?;
            let id2 = v.unsigned("account_character_id2", u64::MAX)?;
            Some(
                MeterEvent::MigrationExecute(
                    PktMigrationExecute { account_character_id1: id1, account_character_id2: id2 },
                ),
            )
        },
        _ => {
            let signal = v.unsigned("trigger_signal_type", u32::MAX as u64)?;
            Some(
                MeterEvent::TriggerStart(
                    PktTriggerStartNotify { trigger_signal_type: signal as u32 },
                ),
            )
        },
    }
}

/// Reads the packets that carry a list.
fn read_listed<'a>(opcode: Opcode, v: &'a Value) -> (r: Option<MeterEvent<'a>>)
    requires
        opcode == Opcode::SkillDamageNotify || opcode == Opcode::SkillDamageAbnormalMoveNotify
            || opcode == Opcode::StatusEffectRemoveNotify || opcode
            == Opcode::PartyStatusEffectAddNotify || opcode == Opcode::PartyStatusEffectRemoveNotify
            || opcode == Opcode::PartyInfo,
    ensures
        match r {
            Some(e) => event_of(opcode, v@) == Some(e@),
            None => event_of(opcode, v@) is None,
        },
{
    match opcode {
        Opcode::SkillDamageNotify => {
            let source_id = v.unsigned("source_id", u64::MAX)?;
            let skill_id = v.unsigned("skill_id", u32::MAX as u64)?;
            let events = read_damage_events(v, "skill_damage_events")?;
            Some(
                MeterEvent::SkillDamage(
                    PktSkillDamageNotify {
                        source_id,
                        skill_id: skill_id as u32,
                        skill_damage_events: events,
                    },
                ),
            )
        },
        Opcode::SkillDamageAbnormalMoveNotify => {
            let source_id = v.unsigned("source_id", u64::MAX)?;
            let skill_id = v.unsigned("skill_id", u32::MAX as u64)?;
            let events = read_moved_events(v, "skill_damage_abnormal_move_events")?;
            let mut moved: Vec<SkillDamageAbnormalMoveEvent> = Vec::new();
            let mut i: usize = 0;
            assert(inner_events(moved@) =~= events@.take(0));
            while i < events.len()
                invariant
                    0 <= i <= events@.len(),
                    moved@.len() == i,
                    inner_events(moved@) == events@.take(i as int),
                decreases events@.len() - i,
            {
                proof {
                    assert(inner_events(
                        moved@.push(SkillDamageAbnormalMoveEvent { skill_damage_event: events@[i as int] }),
                    ) =~= events@.take(i + 1));
                }
                moved.push(SkillDamageAbnormalMoveEvent { skill_damage_event: events[i] });
                i = i + 1;
            }
            assert(events@.take(events@.len() as int) =~= events@);
            Some(
                MeterEvent::SkillDamageAbnormalMove(
                    PktSkillDamageAbnormalMoveNotify {
                        source_id,
                        skill_id: skill_id as u32,
                        skill_damage_abnormal_move_events: moved,
                    },
                ),
            )
        },
        Opcode::StatusEffectRemoveNotify => {
            let object_id = v.unsigned("object_id", u64::MAX)?;
            let status_effect_ids = read_instances(v, "status_effect_ids")?;
            Some(
                MeterEvent::StatusEffectRemove(
                    PktStatusEffectRemoveNotify { object_id, status_effect_ids },
                ),
            )
        },
        Opcode::PartyStatusEffectAddNotify => {
            let character_id = v.unsigned("character_id", u64::MAX)?;
            let status_effect_datas = read_effects(v, "status_effect_datas")?;
            Some(
                MeterEvent::PartyStatusEffectAdd(
                    PktPartyStatusEffectAddNotify { character_id, status_effect_datas },
                ),
            )
        },
        Opcode::PartyStatusEffectRemoveNotify => {
            let character_id = v.unsigned("character_id", u64::MAX)?;
            let status_effect_ids = read_instances(v, "status_effect_ids")?;
            Some(
                MeterEvent::PartyStatusEffectRemove(
                    PktPartyStatusEffectRemoveNotify { character_id, status_effect_ids },
                ),
            )
        },
        _ => {
            let party = v.unsigned("party_instance_id", u32::MAX as u64)?;
            let member_datas = read_members(v, "member_datas")?;
            Some(
                MeterEvent::PartyInfo(
                    PktPartyInfo { party_instance_id: party as u32, member_datas },
                ),
            )
        },
    }
}

impl<'a> MeterEvent<'a> {
    /// The packet that a decoded message is to the meter.
    pub fn from_value(opcode: Opcode, v: &'a Value) -> (r: Option<MeterEvent<'a>>)
        ensures
            match r {
                Some(e) => event_of(opcode, v@) == Some(e@),
                None => event_of(opcode, v@) is None,
            },
    {
        match opcode {
            Opcode::InitEnv | Opcode::InitLocal | Opcode::NewNpc | Opcode::NewProjectile
            | Opcode::PartyStatusEffectResultNotify | Opcode::MigrationExecute
            | Opcode::TriggerStartNotify => read_simple(opcode, v),
            Opcode::SkillDamageNotify | Opcode::SkillDamageAbnormalMoveNotify
            | Opcode::StatusEffectRemoveNotify | Opcode::PartyStatusEffectAddNotify
            | Opcode::PartyStatusEffectRemoveNotify | Opcode::PartyInfo => read_listed(opcode, v),
            Opcode::InitPc => {
                let c = read_character(v, "gear_level")?;
                Some(
                    MeterEvent::InitPc(
                        PktInitPc {
                            player_id: c.player_id,
                            name: c.name,
                            class_id: c.class_id,
                            gear_level: c.gear_level,
                            character_id: c.character_id,
                        },
                    ),
                )
            },
            Opcode::NewPc => {
                let pc = v.field("pc_struct")?;
                let c = read_character(pc, "avg_item_level")?;
                Some(
                    MeterEvent::NewPc(
                        PktNewPc {
                            pc_struct: PcStruct {
                                player_id: c.player_id,
                                name: c.name,
                                class_id: c.class_id,
                                avg_item_level: c.gear_level,
                                character_id: c.character_id,
                            },
                        },
                    ),
                )
            },
            Opcode::StatusEffectAddNotify => {
                let object_id = v.unsigned("object_id", u64::MAX)?;
                let data = v.field("status_effect_data")?;
                let status_effect_data = read_effect(data)?;
                Some(
                    MeterEvent::StatusEffectAdd(
                        PktStatusEffectAddNotify { object_id, status_effect_data },
                    ),
                )
            },
            Opcode::RaidBossKillNotify => Some(MeterEvent::RaidBossKill(PktRaidBossKillNotify {  })),
            Opcode::RaidResult => Some(MeterEvent::RaidResult(PktRaidResult {  })),
            Opcode::TriggerBossBattleStatus => Some(
                MeterEvent::TriggerBossBattleStatus(PktTriggerBossBattleStatus {  }),
            ),
            _ => None,
        }
    }
}

} // verus!
