//! A finished encounter written out for later reading: the players and
//! non-player entities of its environment as one list, with times counted
//! in milliseconds from the start of the encounter.

use crate::meter::{
    text_view, views, Encounter, EncounterView, Environment, EnvironmentView, NpcView,
    PlayerDataView, SkillUsage, SkillUsageView,
};
use crate::ordered::{is_sorted_keys, sorted_keys, sorted_keys_u32};
use std::collections::BTreeMap;
use vstd::prelude::*;

verus! {

/// Nanoseconds in a millisecond.
pub const NANOS_PER_MILLI: u64 = 1_000_000;

/// Milliseconds since the start of the encounter.
#[derive(Debug, Copy, Clone, PartialEq, Eq, Structural)]
pub struct Timestamp(pub u64);

#[derive(Debug, Copy, Clone, PartialEq, Eq, Structural)]
pub struct Damage(pub i64);

/// Position of an entity in the list of a log.
#[derive(Debug, Copy, Clone, PartialEq, Eq, Structural)]
pub struct EntityIndex(pub usize);

#[derive(Debug, Copy, Clone, PartialEq, Eq, Structural)]
pub struct SkillId(pub u32);

#[derive(Debug, Copy, Clone, PartialEq, Eq, Structural)]
pub struct SpeciesId(pub u32);

/// How an encounter ended.
#[derive(Debug, Copy, Clone, PartialEq, Eq, Structural)]
pub enum Status {
    Wipe,
    Clear,
}

#[derive(Debug, Copy, Clone, PartialEq, Eq, Structural)]
pub enum EntityKind {
    Player,
    Npc(SpeciesId),
}

/// One hit of a skill, with the target as a position in the list.
#[derive(Debug, Copy, Clone, PartialEq, Eq, Structural)]
pub struct SkillHit {
    pub damage: Damage,
    pub target: EntityIndex,
    pub is_crit: bool,
    pub is_back_attack: bool,
    pub is_front_attack: bool,
}

/// The hits of one skill.
#[derive(Debug)]
pub struct Skill {
    pub name: Option<String>,
    pub hits: Vec<(Timestamp, SkillHit)>,
}

/// Mathematical content of [`Skill`].
pub struct SkillView {
    pub name: Option<Seq<char>>,
    pub hits: Seq<(Timestamp, SkillHit)>,
}

impl View for Skill {
    type V = SkillView;

    open spec fn view(&self) -> SkillView {
        SkillView { name: text_view(self.name), hits: self.hits@ }
    }
}

/// A player or a non-player entity with what it did.
#[derive(Debug)]
pub struct Entity {
    pub name: Option<String>,
    pub damage: Vec<(Timestamp, Damage)>,
    pub casts: Vec<(Timestamp, SkillId)>,
    /// Skill id to the hits of the skill.
    pub skills: BTreeMap<u32, Skill>,
    pub kind: EntityKind,
}

/// Mathematical content of [`Entity`].
pub struct EntityView {
    pub name: Option<Seq<char>>,
    pub damage: Seq<(Timestamp, Damage)>,
    pub casts: Seq<(Timestamp, SkillId)>,
    pub skills: Map<u32, SkillView>,
    pub kind: EntityKind,
}

impl View for Entity {
    type V = EntityView;

    open spec fn view(&self) -> EntityView {
        EntityView {
            name: text_view(self.name),
            damage: self.damage@,
            casts: self.casts@,
            skills: views(self.skills@),
            kind: self.kind,
        }
    }
}

/// A finished encounter.
#[derive(Debug)]
pub struct Log {
    pub end: Timestamp,
    pub entities: Vec<Entity>,
    /// The player running the meter.
    pub pov: Option<EntityIndex>,
    /// The bosses of the encounter.
    pub targets: Vec<EntityIndex>,
    pub status: Option<Status>,
}

/// Mathematical content of [`Log`].
pub struct LogView {
    pub end: Timestamp,
    pub entities: Seq<EntityView>,
    pub pov: Option<EntityIndex>,
    pub targets: Seq<EntityIndex>,
    pub status: Option<Status>,
}

impl View for Log {
    type V = LogView;

    open spec fn view(&self) -> LogView {
        LogView {
            end: self.end,
            entities: self.entities@.map_values(|e: Entity| e@),
            pov: self.pov,
            targets: self.targets@,
            status: self.status,
        }
    }
}

/// A point in time as milliseconds since `start`; a time before the start
/// counts as the start.
pub open spec fn millis_since(start: u64, t: u64) -> Timestamp {
    Timestamp(
        if t >= start {
            ((t - start) / NANOS_PER_MILLI as int) as u64
        } else {
            0
        },
    )
}

/// The positions that `keys` take in the list when the first of them stands
/// at `base`, added to `m`.
pub open spec fn with_indices(m: Map<u64, usize>, keys: Seq<u64>, base: int) -> Map<u64, usize>
    decreases keys.len(),
{
    if keys.len() == 0 {
        m
    } else {
        with_indices(m, keys.drop_last(), base).insert(
            keys.last(),
            (base + keys.len() - 1) as usize,
        )
    }
}

/// Object id to position in the list: the players stand first, the
/// non-player entities behind them; an id that is both counts as the latter.
pub open spec fn entity_map(players: Seq<u64>, npcs: Seq<u64>) -> Map<u64, usize> {
    with_indices(with_indices(Map::empty(), players, 0), npcs, players.len() as int)
}

/// The damage series of a player with times counted from `start`.
pub open spec fn log_damage(start: u64, damage: Seq<(u64, i64)>) -> Seq<(Timestamp, Damage)> {
    Seq::new(damage.len(), |i: int| (millis_since(start, damage[i].0), Damage(damage[i].1)))
}

/// The casts of a player with times counted from `start`.
pub open spec fn log_casts(start: u64, casts: Seq<(u64, u32)>) -> Seq<(Timestamp, SkillId)> {
    Seq::new(casts.len(), |i: int| (millis_since(start, casts[i].0), SkillId(casts[i].1)))
}

/// The hits of a skill on targets that are in the list, with times counted
/// from `start`.
pub open spec fn log_hits(
    start: u64,
    index: Map<u64, usize>,
    hits: Seq<(u64, crate::meter::SkillHit)>,
) -> Seq<(Timestamp, SkillHit)>
    decreases hits.len(),
{
    if hits.len() == 0 {
        Seq::empty()
    } else {
        let earlier = log_hits(start, index, hits.drop_last());
        let hit = hits.last().1;
        if index.contains_key(hit.target_id) {
            earlier.push(
                (
                    millis_since(start, hits.last().0),
                    SkillHit {
                        damage: Damage(hit.damage),
                        target: EntityIndex(index[hit.target_id]),
                        is_crit: hit.is_crit,
                        is_back_attack: hit.is_back_attack,
                        is_front_attack: hit.is_front_attack,
                    },
                ),
            )
        } else {
            earlier
        }
    }
}

/// The skills of a player as the log has them.
pub open spec fn log_skills(
    start: u64,
    index: Map<u64, usize>,
    skills: Map<u32, SkillUsageView>,
) -> Map<u32, SkillView> {
    skills.map_values(
        |s: SkillUsageView| SkillView { name: s.name, hits: log_hits(start, index, s.hits) },
    )
}

/// The positions of the bosses that are in the list.
pub open spec fn log_targets(index: Map<u64, usize>, bosses: Seq<(u64, crate::definitions::Boss)>) -> Seq<
    EntityIndex,
>
    decreases bosses.len(),
{
    if bosses.len() == 0 {
        Seq::empty()
    } else {
        let earlier = log_targets(index, bosses.drop_last());
        if index.contains_key(bosses.last().0) {
            earlier.push(EntityIndex(index[bosses.last().0]))
        } else {
            earlier
        }
    }
}

/// The entity that stands at position `i` of the list.
pub open spec fn log_entity(
    enc: EncounterView,
    env: EnvironmentView,
    players: Seq<u64>,
    npcs: Seq<u64>,
    i: int,
) -> EntityView {
    if i < players.len() {
        let id = players[i];
        let data = enc.players[id];
        EntityView {
            name: env.players[id].name,
            damage: log_damage(enc.start, data.damage),
            casts: log_casts(enc.start, data.casts),
            skills: log_skills(enc.start, entity_map(players, npcs), data.skills),
            kind: EntityKind::Player,
        }
    } else {
        let npc = env.npcs[npcs[i - players.len()]];
        EntityView {
            name: Some(npc.name),
            damage: Seq::empty(),
            casts: Seq::empty(),
            skills: Map::empty(),
            kind: EntityKind::Npc(SpeciesId(npc.kind)),
        }
    }
}

/// The log of an encounter that ended at `end`, given the object ids of
/// the players and of the non-player entities in the order of the list.
pub open spec fn log_of(
    enc: EncounterView,
    env: EnvironmentView,
    players: Seq<u64>,
    npcs: Seq<u64>,
    end: u64,
) -> LogView {
    let index = entity_map(players, npcs);
    LogView {
        end: millis_since(enc.start, end),
        entities: Seq::new(
            players.len() + npcs.len(),
            |i: int| log_entity(enc, env, players, npcs, i),
        ),
        pov: match env.pov {
            Some(id) => if index.contains_key(id) {
                Some(EntityIndex(index[id]))
            } else {
                None
            },
            None => None,
        },
        targets: log_targets(index, enc.bosses),
        status: if enc.clear {
            Some(Status::Clear)
        } else if enc.wipe {
            Some(Status::Wipe)
        } else {
            None
        },
    }
}

/// The object ids of the players of the environment that have a record in
/// the encounter.
pub open spec fn member_ids(enc: EncounterView, env: EnvironmentView) -> Set<u64> {
    Set::new(|id: u64| env.players.contains_key(id) && enc.players.contains_key(id))
}

/// Counts a point in time from `start`.
pub fn to_millis(start: u64, t: u64) -> (ts: Timestamp)
    ensures
        ts == millis_since(start, t),
{
    if t >= start {
        Timestamp((t - start) / NANOS_PER_MILLI)
    } else {
        Timestamp(0)
    }
}

/// The hits of a skill as the log has them.
fn convert_skill(start: u64, index: &BTreeMap<u64, usize>, skill: &SkillUsage) -> (out: Skill)
    ensures
        out@ == (SkillView { name: skill@.name, hits: log_hits(start, index@, skill@.hits) }),
{
    let mut hits: Vec<(Timestamp, SkillHit)> = Vec::new();
    let mut i: usize = 0;
    assert(skill.hits@.take(0) =~= Seq::empty());
    while i < skill.hits.len()
        invariant
            0 <= i <= skill.hits@.len(),
            hits@ == log_hits(start, index@, skill.hits@.take(i as int)),
        decreases skill.hits@.len() - i,
    {
        let (t, hit) = skill.hits[i];
        proof {
            let head = skill.hits@.take(i + 1);
            assert(head.drop_last() =~= skill.hits@.take(i as int));
            assert(head.last() == skill.hits@[i as int]);
        }
        match index.get(&hit.target_id) {
            Some(target) => {
                hits.push(
                    (
                        to_millis(start, t),
                        SkillHit {
                            damage: Damage(hit.damage),
                            target: EntityIndex(*target),
                            is_crit: hit.is_crit,
                            is_back_attack: hit.is_back_attack,
                            is_front_attack: hit.is_front_attack,
                        },
                    ),
                );
            },
            None => {},
        }
        i = i + 1;
    }
    assert(skill.hits@.take(skill.hits@.len() as int) =~= skill.hits@);
    let name = match &skill.name {
        Some(name) => Some(name.clone()),
        None => None,
    };
    Skill { name, hits }
}

/// The skills of a player as the log has them.
fn convert_skills(start: u64, index: &BTreeMap<u64, usize>, skills: &BTreeMap<u32, SkillUsage>) -> (out:
    BTreeMap<u32, Skill>)
    ensures
        views(out@) == log_skills(start, index@, views(skills@)),
{
    let ids = sorted_keys_u32(skills);
    proof {
        assert forall|k: int| 0 <= k < ids@.len() implies skills@.contains_key(
            #[trigger] ids@[k],
        ) by {
            assert(ids@.contains(ids@[k]));
        }
        assert forall|id: u32| skills@.contains_key(id) implies ids@.contains(id) by {
            assert(skills@.dom().contains(id));
        }
    }
    let mut out: BTreeMap<u32, Skill> = BTreeMap::new();
    let mut i: usize = 0;
    while i < ids.len()
        invariant
            0 <= i <= ids@.len(),
            forall|k: int| 0 <= k < ids@.len() ==> skills@.contains_key(#[trigger] ids@[k]),
            forall|id: u32| skills@.contains_key(id) ==> ids@.contains(id),
            forall|id: u32| out@.contains_key(id) <==> ids@.take(i as int).contains(id),
            forall|id: u32| #[trigger]
                out@.contains_key(id) ==> out@[id]@ == (SkillView {
                    name: skills@[id]@.name,
                    hits: log_hits(start, index@, skills@[id]@.hits),
                }),
        decreases ids@.len() - i,
    {
        let id = ids[i];
        match skills.get(&id) {
            Some(skill) => {
                let converted = convert_skill(start, index, skill);
                out.insert(id, converted);
            },
            None => {},
        }
        proof {
            let grown = ids@.take(i + 1);
            assert(grown.drop_last() =~= ids@.take(i as int));
            assert(grown.last() == id);
            assert forall|x: u32| out@.contains_key(x) <==> grown.contains(x) by {
                if grown.contains(x) {
                    let at = choose|at: int| 0 <= at < grown.len() && grown[at] == x;
                    if at < i {
                        assert(ids@.take(i as int)[at] == x);
                    }
                }
                if ids@.take(i as int).contains(x) {
                    let at = choose|at: int|
                        0 <= at < ids@.take(i as int).len() && ids@.take(i as int)[at] == x;
                    assert(grown[at] == x);
                }
                if x == id {
                    assert(grown[i as int] == x);
                }
            }
        }
        i = i + 1;
    }
    proof {
        assert(ids@.take(ids@.len() as int) =~= ids@);
        assert(views(out@) =~= log_skills(start, index@, views(skills@)));
    }
    out
}

/// The damage series of a player as the log has it.
fn convert_damage(start: u64, damage: &Vec<(u64, i64)>) -> (out: Vec<(Timestamp, Damage)>)
    ensures
        out@ == log_damage(start, damage@),
{
    let mut out: Vec<(Timestamp, Damage)> = Vec::new();
    let mut i: usize = 0;
    while i < damage.len()
        invariant
            0 <= i <= damage@.len(),
            out@.len() == i,
            forall|k: int| 0 <= k < i ==> out@[k] == log_damage(start, damage@)[k],
        decreases damage@.len() - i,
    {
        let (t, d) = damage[i];
        out.push((to_millis(start, t), Damage(d)));
        i = i + 1;
    }
    assert(out@ =~= log_damage(start, damage@));
    out
}

/// The casts of a player as the log has them.
fn convert_casts(start: u64, casts: &Vec<(u64, u32)>) -> (out: Vec<(Timestamp, SkillId)>)
    ensures
        out@ == log_casts(start, casts@),
{
    let mut out: Vec<(Timestamp, SkillId)> = Vec::new();
    let mut i: usize = 0;
    while i < casts.len()
        invariant
            0 <= i <= casts@.len(),
            out@.len() == i,
            forall|k: int| 0 <= k < i ==> out@[k] == log_casts(start, casts@)[k],
        decreases casts@.len() - i,
    {
        let (t, id) = casts[i];
        out.push((to_millis(start, t), SkillId(id)));
        i = i + 1;
    }
    assert(out@ =~= log_casts(start, casts@));
    out
}

/// The object ids of the players of the environment that have a record in
/// the encounter, in increasing order.
fn member_keys(enc: &Encounter, env: &Environment) -> (keys: Vec<u64>)
    ensures
        is_sorted_keys(keys@, member_ids(enc@, env@)),
{
    let all = sorted_keys(&env.players);
    let mut keys: Vec<u64> = Vec::new();
    let mut i: usize = 0;
    while i < all.len()
        invariant
            0 <= i <= all@.len(),
            is_sorted_keys(all@, env.players@.dom()),
            crate::ordered::strictly_increasing(keys@),
            forall|k: int| 0 <= k < keys@.len() ==> i > 0 && #[trigger] keys@[k] <= all@[i - 1],
            forall|id: u64|
                keys@.contains(id) <==> all@.take(i as int).contains(id) && enc.players@.contains_key(
                    id,
                ),
        decreases all@.len() - i,
    {
        let id = all[i];
        let ghost before = keys@;
        let inside = enc.players.contains_key(&id);
        if inside {
            keys.push(id);
        }
        proof {
            let grown = all@.take(i + 1);
            assert(grown.drop_last() =~= all@.take(i as int));
            assert(grown.last() == id);
            assert forall|k: int| 0 <= k < keys@.len() implies #[trigger] keys@[k] <= all@[i as int] by {
                if k < before.len() {
                    assert(before[k] <= all@[i - 1]);
                }
            }
            if inside {
                assert forall|a: int, b: int| 0 <= a < b < keys@.len() implies keys@[a] < keys@[b] by {
                    if b == before.len() {
                        assert(before[a] <= all@[i - 1]);
                    }
                }
            }
            assert forall|x: u64|
                keys@.contains(x) <==> grown.contains(x) && enc.players@.contains_key(x) by {
                if keys@.contains(x) {
                    let at = choose|at: int| 0 <= at < keys@.len() && keys@[at] == x;
                    if at < before.len() {
                        assert(before.contains(x));
                        let w = choose|w: int|
                            0 <= w < all@.take(i as int).len() && all@.take(i as int)[w] == x;
                        assert(grown[w] == x);
                    } else {
                        assert(grown[i as int] == x);
                    }
                }
                if grown.contains(x) && enc.players@.contains_key(x) {
                    let w = choose|w: int| 0 <= w < grown.len() && grown[w] == x;
                    if w < i {
                        assert(all@.take(i as int)[w] == x);
                        assert(before.contains(x));
                        let at = choose|at: int| 0 <= at < before.len() && before[at] == x;
                        assert(keys@[at] == x);
                    } else {
                        assert(keys@[keys@.len() - 1] == x);
                    }
                }
            }
        }
        i = i + 1;
    }
    proof {
        assert(all@.take(all@.len() as int) =~= all@);
        assert forall|id: u64| keys@.contains(id) <==> member_ids(enc@, env@).contains(id) by {
            assert(env@.players.contains_key(id) <==> env.players@.contains_key(id));
            assert(enc@.players.contains_key(id) <==> enc.players@.contains_key(id));
        }
    }
    keys
}

/// Adds the positions of `keys`, the first of which stands at `base`.
fn add_indices(index: &mut BTreeMap<u64, usize>, keys: &Vec<u64>, base: usize)
    requires
        base + keys@.len() <= usize::MAX,
    ensures
        final(index)@ == with_indices(old(index)@, keys@, base as int),
{
    let mut i: usize = 0;
    assert(keys@.take(0) =~= Seq::empty());
    while i < keys.len()
        invariant
            0 <= i <= keys@.len(),
            base + keys@.len() <= usize::MAX,
            index@ == with_indices(old(index)@, keys@.take(i as int), base as int),
        decreases keys@.len() - i,
    {
        proof {
            let grown = keys@.take(i + 1);
            assert(grown.drop_last() =~= keys@.take(i as int));
            assert(grown.last() == keys@[i as int]);
        }
        index.insert(keys[i], base + i);
        i = i + 1;
    }
    assert(keys@.take(keys@.len() as int) =~= keys@);
}

/// The positions of the bosses that are in the list.
fn convert_targets(index: &BTreeMap<u64, usize>, bosses: &Vec<(u64, crate::definitions::Boss)>) -> (out:
    Vec<EntityIndex>)
    ensures
        out@ == log_targets(index@, bosses@),
{
    let mut out: Vec<EntityIndex> = Vec::new();
    let mut i: usize = 0;
    assert(bosses@.take(0) =~= Seq::empty());
    while i < bosses.len()
        invariant
            0 <= i <= bosses@.len(),
            out@ == log_targets(index@, bosses@.take(i as int)),
        decreases bosses@.len() - i,
    {
        proof {
            let grown = bosses@.take(i + 1);
            assert(grown.drop_last() =~= bosses@.take(i as int));
            assert(grown.last() == bosses@[i as int]);
        }
        match index.get(&bosses[i].0) {
            Some(at) => {
                out.push(EntityIndex(*at));
            },
            None => {},
        }
        i = i + 1;
    }
    assert(bosses@.take(bosses@.len() as int) =~= bosses@);
    out
}

impl Log {
    /// Writes out an encounter that has ended. `env` is the environment of
    /// the encounter. The list begins with the players of the environment
    /// that have a record in the encounter, by increasing object id, and
    /// goes on with the non-player entities, by increasing object id. There
    /// is no log of an encounter that has not ended.
    pub fn from_encounter(enc: &Encounter, env: &Environment) -> (log: Option<Self>)
        requires
            env.players@.dom().len() + env.npcs@.dom().len() <= usize::MAX,
        ensures
            match log {
                Some(log) => enc.end matches Some(end) && exists|players: Seq<u64>, npcs: Seq<u64>|
                    #![trigger log_of(enc@, env@, players, npcs, end)]
                    is_sorted_keys(players, member_ids(enc@, env@)) && is_sorted_keys(
                        npcs,
                        env@.npcs.dom(),
                    ) && log@ == log_of(enc@, env@, players, npcs, end),
                None => enc.end is None,
            },
    {
        broadcast use vstd::std_specs::btree::group_btree_axioms;

        let end = match enc.end {
            Some(end) => end,
            None => {
                return None;
            },
        };
        let start = enc.start;
        let players = sorted_keys(&env.players);
        let members = member_keys(enc, env);
        let npcs = sorted_keys(&env.npcs);
        proof {
            assert(env@.npcs.dom() =~= env.npcs@.dom());
            lemma_sorted_len(players@, env.players@.dom());
            lemma_sorted_len(npcs@, env.npcs@.dom());
            assert(member_ids(enc@, env@).subset_of(env.players@.dom()));
            vstd::set_lib::lemma_len_subset(member_ids(enc@, env@), env.players@.dom());
            lemma_sorted_len(members@, member_ids(enc@, env@));
        }
        let mut index: BTreeMap<u64, usize> = BTreeMap::new();
        add_indices(&mut index, &members, 0);
        add_indices(&mut index, &npcs, members.len());
        assert(index@ == entity_map(members@, npcs@));
        let mut entities: Vec<Entity> = Vec::new();
        let mut i: usize = 0;
        while i < members.len()
            invariant
                0 <= i <= members@.len(),
                start == enc.start,
                is_sorted_keys(members@, member_ids(enc@, env@)),
                index@ == entity_map(members@, npcs@),
                entities@.len() == i,
                forall|k: int|
                    0 <= k < i ==> (#[trigger] entities@[k])@ == log_entity(
                        enc@,
                        env@,
                        members@,
                        npcs@,
                        k,
                    ),
            decreases members@.len() - i,
        {
            let id = members[i];
            assert(members@.contains(id));
            assert(member_ids(enc@, env@).contains(id));
            let (player, data) = match (env.players.get(&id), enc.players.get(&id)) {
                (Some(player), Some(data)) => (player, data),
                _ => {
                    assert(false);
                    return None;
                },
            };
            let name = match &player.name {
                Some(name) => Some(name.clone()),
                None => None,
            };
            let entity = Entity {
                name,
                damage: convert_damage(start, &data.damage),
                casts: convert_casts(start, &data.casts),
                skills: convert_skills(start, &index, &data.skills),
                kind: EntityKind::Player,
            };
            assert(entity@ == log_entity(enc@, env@, members@, npcs@, i as int));
            entities.push(entity);
            i = i + 1;
        }
        let mut j: usize = 0;
        while j < npcs.len()
            invariant
                0 <= j <= npcs@.len(),
                is_sorted_keys(npcs@, env.npcs@.dom()),
                entities@.len() == members@.len() + j,
                forall|k: int|
                    0 <= k < members@.len() + j ==> (#[trigger] entities@[k])@ == log_entity(
                        enc@,
                        env@,
                        members@,
                        npcs@,
                        k,
                    ),
            decreases npcs@.len() - j,
        {
            let id = npcs[j];
            assert(npcs@.contains(id));
            let npc = match env.npcs.get(&id) {
                Some(npc) => npc,
                None => {
                    assert(false);
                    return None;
                },
            };
            let entity = Entity {
                name: Some(npc.name.clone()),
                damage: Vec::new(),
                casts: Vec::new(),
                skills: BTreeMap::new(),
                kind: EntityKind::Npc(SpeciesId(npc.kind)),
            };
            proof {
                assert(entity@.skills =~= Map::empty());
                assert(entity@ == log_entity(enc@, env@, members@, npcs@, members@.len() + j));
            }
            entities.push(entity);
            j = j + 1;
        }
        let pov = match env.pov {
            Some(id) => match index.get(&id) {
                Some(at) => Some(EntityIndex(*at)),
                None => None,
            },
            None => None,
        };
        let targets = convert_targets(&index, &enc.bosses);
        let status = if enc.clear {
            Some(Status::Clear)
        } else if enc.wipe {
            Some(Status::Wipe)
        } else {
            None
        };
        let log = Log { end: to_millis(start, end), entities, pov, targets, status };
        proof {
            assert(log@.entities =~= log_of(enc@, env@, members@, npcs@, end).entities);
            assert(log@ == log_of(enc@, env@, members@, npcs@, end));
        }
        Some(log)
    }
}

/// A list of keys is as long as the set of them.
proof fn lemma_sorted_len(keys: Seq<u64>, dom: Set<u64>)
    requires
        is_sorted_keys(keys, dom),
        dom.finite(),
    ensures
        keys.len() == dom.len(),
{
    assert(keys.no_duplicates()) by {
        assert forall|i: int, j: int| 0 <= i < keys.len() && 0 <= j < keys.len() && i != j implies keys[i]
            != keys[j] by {
            if i < j {
                assert(keys[i] < keys[j]);
            } else {
                assert(keys[j] < keys[i]);
            }
        }
    }
    keys.unique_seq_to_set();
    assert(keys.to_set() =~= dom);
}

} // verus!
