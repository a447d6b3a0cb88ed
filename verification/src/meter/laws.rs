//! What every step of the meter keeps true.

use crate::meter::{
    first_match, Batch, CountedHit, DamageContext, DataView, EncounterView, HitMarks, LiveView,
    EventView, PlayerDataView, SkillHit, SkillInfoView, SkillUsageView, classify,
    effective_damage,
};
use crate::definitions::{Boss, Class};
use crate::meter::{EnvironmentView, PlayerView};
use crate::packet::{inner_events, member_views, PartyMemberView, SkillDamageEvent, StatusEffectData};
use vstd::prelude::*;

verus! {

/// Sum of the damage of hits.
pub open spec fn hits_damage(hits: Seq<(u64, SkillHit)>) -> int
    decreases hits.len(),
{
    if hits.len() == 0 {
        0
    } else {
        hits_damage(hits.drop_last()) + hits.last().1.damage
    }
}

/// Sum of the damage of the hits of all skills with an id below `upto`.
pub open spec fn skills_damage(skills: Map<u32, SkillUsageView>, upto: int) -> int
    decreases upto,
{
    if upto <= 0 {
        0
    } else {
        skills_damage(skills, upto - 1) + if skills.contains_key((upto - 1) as u32) {
            hits_damage(skills[(upto - 1) as u32].hits)
        } else {
            0
        }
    }
}

/// Whether the total damage of a player is the sum of the damage of the
/// hits of all the player's skills.
pub open spec fn totals_hold(player: PlayerDataView) -> bool {
    player.dmg_dealt == skills_damage(player.skills, 0x1_0000_0000)
}

/// Whether the totals hold of every player of every encounter.
pub open spec fn all_totals_hold(s: DataView) -> bool {
    forall|i: int, id: u64|
        0 <= i < s.encounters.len() && (#[trigger] s.encounters[i].players.contains_key(id))
            ==> totals_hold(s.encounters[i].players[id])
}

/// Whether every encounter of `s` is in `t` with the same players and in
/// the same environment, and the encounters that `t` has more have no
/// players yet.
pub open spec fn records_kept(s: DataView, t: DataView) -> bool {
    &&& s.encounters.len() <= t.encounters.len()
    &&& forall|i: int|
        0 <= i < s.encounters.len() ==> (#[trigger] t.encounters[i]).players
            == s.encounters[i].players && t.encounters[i].environment
            == s.encounters[i].environment
    &&& forall|i: int, id: u64|
        s.encounters.len() <= i < t.encounters.len() ==> !(#[trigger] t.encounters[i].players.contains_key(
            id,
        ))
}

/// Whether every environment of `s` is in `t` with at least the players it
/// had, apart from `but` in the current one.
pub open spec fn players_kept(s: DataView, t: DataView, but: Option<u64>) -> bool {
    &&& s.environments.len() <= t.environments.len()
    &&& forall|j: int, id: u64|
        0 <= j < s.environments.len() && (#[trigger] s.environments[j].players.contains_key(id))
            && !(j == s.environments.len() - 1 && but == Some(id))
            ==> t.environments[j].players.contains_key(id)
}

/// Whether every player of an encounter has a record in the environment of
/// the encounter.
pub open spec fn members_known(s: DataView) -> bool {
    forall|i: int, id: u64|
        0 <= i < s.encounters.len() && (#[trigger] s.encounters[i].players.contains_key(id))
            ==> s.environments[s.encounters[i].environment as int].players.contains_key(id)
}

/// Whether no encounter in the current environment has a record of `id`.
pub open spec fn unused_here(s: DataView, id: u64) -> bool {
    forall|i: int|
        0 <= i < s.encounters.len() && (#[trigger] s.encounters[i]).environment
            == s.environments.len() - 1 ==> !s.encounters[i].players.contains_key(id)
}

/// Whether the counters of a skill in `a` are at most those in `b`.
pub open spec fn skill_counters_grow(a: SkillUsageView, b: SkillUsageView) -> bool {
    a.count <= b.count && a.crits <= b.crits && a.back <= b.back && a.front <= b.front && a.brand
        <= b.brand && a.ap_buff <= b.ap_buff && a.ident_buff <= b.ident_buff && a.damage
        <= b.damage
}

/// Whether the counters of a player in `a` are at most those in `b`, skill
/// by skill too.
pub open spec fn counters_grow(a: PlayerDataView, b: PlayerDataView) -> bool {
    &&& a.hits <= b.hits
    &&& a.dmg_dealt <= b.dmg_dealt
    &&& a.brand_hits <= b.brand_hits
    &&& a.brand_dmg <= b.brand_dmg
    &&& a.ap_hits <= b.ap_hits
    &&& a.ap_dmg <= b.ap_dmg
    &&& a.ident_hits <= b.ident_hits
    &&& a.ident_dmg <= b.ident_dmg
    &&& forall|k: u32| #[trigger]
        a.skills.contains_key(k) ==> b.skills.contains_key(k) && skill_counters_grow(
            a.skills[k],
            b.skills[k],
        )
}

/// Whether every player of every encounter of `s` is in `t` with counters
/// that are at least what they were.
pub open spec fn all_counters_grow(s: DataView, t: DataView) -> bool {
    &&& s.encounters.len() <= t.encounters.len()
    &&& forall|i: int, id: u64|
        0 <= i < s.encounters.len() && (#[trigger] s.encounters[i].players.contains_key(id))
            ==> t.encounters[i].players.contains_key(id) && counters_grow(
            s.encounters[i].players[id],
            t.encounters[i].players[id],
        )
}

proof fn lemma_skills_damage_empty(upto: int)
    ensures
        skills_damage(Map::empty(), upto) == 0,
    decreases upto,
{
    if upto > 0 {
        lemma_skills_damage_empty(upto - 1);
    }
}

proof fn lemma_skills_damage_insert(
    skills: Map<u32, SkillUsageView>,
    id: u32,
    entry: SkillUsageView,
    upto: int,
)
    requires
        0 <= upto <= 0x1_0000_0000,
    ensures
        skills_damage(skills.insert(id, entry), upto) == skills_damage(skills, upto) + if id
            < upto {
            hits_damage(entry.hits) - if skills.contains_key(id) {
                hits_damage(skills[id].hits)
            } else {
                0
            }
        } else {
            0
        },
    decreases upto,
{
    if upto > 0 {
        lemma_skills_damage_insert(skills, id, entry, upto - 1);
    }
}

/// Recording a hit keeps the total of a player equal to the sum over the
/// hits of the player's skills.
pub proof fn lemma_record_hit_totals(
    player: PlayerDataView,
    skill_id: u32,
    name: Option<Seq<char>>,
    now: u64,
    target_id: u64,
    hit: CountedHit,
    marks: HitMarks,
)
    requires
        totals_hold(player),
        player.hit_fits(skill_id, hit),
    ensures
        totals_hold(player.record_hit(skill_id, name, now, target_id, hit, marks)),
{
    let entry = player.skill_entry(skill_id, name);
    let after = entry.record_hit(now, target_id, hit, marks);
    assert(after.hits.drop_last() =~= entry.hits);
    assert(hits_damage(after.hits) == hits_damage(entry.hits) + hit.damage);
    if !player.skills.contains_key(skill_id) {
        assert(hits_damage(entry.hits) == 0);
    }
    lemma_skills_damage_insert(player.skills, skill_id, after, 0x1_0000_0000);
}

/// Recording a hit lowers no counter.
pub proof fn lemma_record_hit_grows(
    player: PlayerDataView,
    skill_id: u32,
    name: Option<Seq<char>>,
    now: u64,
    target_id: u64,
    hit: CountedHit,
    marks: HitMarks,
)
    requires
        player.hit_fits(skill_id, hit),
        hit.damage >= 0,
    ensures
        counters_grow(player, player.record_hit(skill_id, name, now, target_id, hit, marks)),
{
}

proof fn lemma_kept_totals(s: DataView, t: DataView)
    requires
        all_totals_hold(s),
        records_kept(s, t),
    ensures
        all_totals_hold(t),
{
    assert forall|i: int, id: u64|
        0 <= i < t.encounters.len() && (#[trigger] t.encounters[i].players.contains_key(
            id,
        )) implies totals_hold(t.encounters[i].players[id]) by {
        if i < s.encounters.len() {
            assert(t.encounters[i].players == s.encounters[i].players);
            assert(s.encounters[i].players.contains_key(id));
        }
    }
}

proof fn lemma_kept_grow(s: DataView, t: DataView)
    requires
        records_kept(s, t),
    ensures
        all_counters_grow(s, t),
{
    assert forall|i: int, id: u64|
        0 <= i < s.encounters.len() && (#[trigger] s.encounters[i].players.contains_key(
            id,
        )) implies t.encounters[i].players.contains_key(id) && counters_grow(
        s.encounters[i].players[id],
        t.encounters[i].players[id],
    ) by {
        assert(t.encounters[i].players == s.encounters[i].players);
    }
}

proof fn lemma_kept_members(s: DataView, t: DataView, but: Option<u64>)
    requires
        s.wf(),
        members_known(s),
        records_kept(s, t),
        players_kept(s, t, but),
        but matches Some(id) ==> unused_here(s, id),
    ensures
        members_known(t),
{
    assert forall|i: int, id: u64|
        0 <= i < t.encounters.len() && (#[trigger] t.encounters[i].players.contains_key(
            id,
        )) implies t.environments[t.encounters[i].environment as int].players.contains_key(id) by {
        if i < s.encounters.len() {
            assert(t.encounters[i].players == s.encounters[i].players);
            assert(s.encounters[i].players.contains_key(id));
            let j = s.encounters[i].environment as int;
            assert(s.environments[j].players.contains_key(id));
            if j == s.environments.len() - 1 && but == Some(id) {
                assert(unused_here(s, id));
                assert(false);
            }
        }
    }
}

proof fn lemma_grow_trans(s: DataView, t: DataView, u: DataView)
    requires
        all_counters_grow(s, t),
        all_counters_grow(t, u),
    ensures
        all_counters_grow(s, u),
{
    assert forall|i: int, id: u64|
        0 <= i < s.encounters.len() && (#[trigger] s.encounters[i].players.contains_key(
            id,
        )) implies u.encounters[i].players.contains_key(id) && counters_grow(
        s.encounters[i].players[id],
        u.encounters[i].players[id],
    ) by {
        assert(t.encounters[i].players.contains_key(id));
        let a = s.encounters[i].players[id];
        let b = t.encounters[i].players[id];
        let c = u.encounters[i].players[id];
        assert forall|k: u32| #[trigger] a.skills.contains_key(k) implies c.skills.contains_key(k)
            && skill_counters_grow(a.skills[k], c.skills[k]) by {
            assert(b.skills.contains_key(k));
        }
    }
}

/// The frame of a change to the current environment or to the live state:
/// the encounters stay as they are.
proof fn lemma_frame_env(s: DataView, t: DataView)
    requires
        s.wf(),
        t.encounters == s.encounters,
        t.environments.len() == s.environments.len(),
    ensures
        records_kept(s, t),
{
}

proof fn lemma_new_encounter(s: DataView, now: u64)
    requires
        s.wf(),
    ensures
        s.new_encounter(now).wf(),
        records_kept(s, s.new_encounter(now)),
        s.new_encounter(now).environments == s.environments,
        s.new_encounter(now).encounters.len() == s.encounters.len() + 1,
        s.new_encounter(now).enc() == EncounterView::fresh(now, (s.environments.len() - 1) as usize),
        s.new_encounter(now).live == s.live.without_encounter_data(),
{
    let t = s.new_encounter(now);
    assert forall|i: int| 0 <= i < t.encounters.len() implies (#[trigger] t.encounters[i]).environment
        < t.environments.len() by {
        if i < s.encounters.len() {
            assert(t.encounters[i].environment == s.encounters[i].environment);
        }
    }
}

proof fn lemma_add_party_members(s: DataView, needs_pov: bool, party: u32, members: Seq<PartyMemberView>)
    requires
        s.wf(),
    ensures
        ({
            let t = s.add_party_members(needs_pov, party, members);
            &&& t.wf()
            &&& t.encounters == s.encounters
            &&& t.environments.len() == s.environments.len()
            &&& players_kept(s, t, None)
        }),
    decreases members.len(),
{
    if members.len() > 0 {
        let m = s.add_party_member(needs_pov, party, members[0]);
        assert(m.wf());
        assert(players_kept(s, m, None));
        lemma_add_party_members(m, needs_pov, party, members.skip(1));
        let t = m.add_party_members(needs_pov, party, members.skip(1));
        assert forall|j: int, id: u64|
            0 <= j < s.environments.len() && (#[trigger] s.environments[j].players.contains_key(
                id,
            )) implies t.environments[j].players.contains_key(id) by {
            assert(m.environments[j].players.contains_key(id));
        }
    }
}

/// Whether the state is well formed and the current encounter lies in the
/// current environment.
pub open spec fn settled(s: DataView) -> bool {
    s.wf() && s.enc().environment == s.environments.len() - 1
}

/// The state that an event leaves where it succeeds, the state before it
/// where it fails.
pub open spec fn after_event(s: DataView, ctx: DamageContext, evt: SkillDamageEvent) -> DataView {
    match s.apply_event(ctx, evt) {
        Ok(t) => t,
        Err(_) => s,
    }
}

/// Whether `t` differs from `s` at most in the players of the current
/// encounter, of whom none is lost, and in the live state.
pub open spec fn damage_frame(s: DataView, t: DataView) -> bool {
    &&& t.environments == s.environments
    &&& t.encounters.len() == s.encounters.len()
    &&& forall|i: int| 0 <= i < s.encounters.len() - 1 ==> #[trigger] t.encounters[i] == s.encounters[i]
    &&& t.enc().environment == s.enc().environment
    &&& t.enc().bosses == s.enc().bosses
    &&& t.enc().first_damage == s.enc().first_damage
    &&& t.enc().last_damage == s.enc().last_damage
    &&& t.enc().start == s.enc().start
    &&& t.enc().end == s.enc().end
    &&& t.enc().wipe == s.enc().wipe
    &&& t.enc().clear == s.enc().clear
    &&& forall|id: u64| t.enc().players.contains_key(id) <==> s.enc().players.contains_key(id)
}

proof fn lemma_apply_event(s: DataView, ctx: DamageContext, evt: SkillDamageEvent)
    requires
        s.wf(),
        s.enc().players.contains_key(ctx.source),
    ensures
        after_event(s, ctx, evt).wf(),
        damage_frame(s, after_event(s, ctx, evt)),
        all_counters_grow(s, after_event(s, ctx, evt)),
        all_totals_hold(s) ==> all_totals_hold(after_event(s, ctx, evt)),
{
    let t = after_event(s, ctx, evt);
    let last = s.encounters.len() - 1;
    match classify(evt) {
        Ok(Some(hit)) => {
            let player = s.enc().players[ctx.source];
            if player.hit_fits(ctx.skill_id, hit) {
                let name = crate::meter::first_name(ctx.db_name, ctx.skill_id, hit.flag);
                let marks = s.marks(ctx, evt.target_id);
                let recorded = player.record_hit(
                    ctx.skill_id,
                    name,
                    ctx.now,
                    evt.target_id,
                    hit,
                    marks,
                );
                assert(hit.damage == effective_damage(evt.damage, evt.cur_hp));
                lemma_record_hit_grows(player, ctx.skill_id, name, ctx.now, evt.target_id, hit, marks);
                assert(t.enc().players == s.enc().players.insert(ctx.source, recorded));
                assert forall|i: int, id: u64|
                    0 <= i < s.encounters.len() && (#[trigger] s.encounters[i].players.contains_key(
                        id,
                    )) implies t.encounters[i].players.contains_key(id) && counters_grow(
                    s.encounters[i].players[id],
                    t.encounters[i].players[id],
                ) by {
                    if i == last && id == ctx.source {
                    } else if i == last {
                        assert(t.encounters[i].players[id] == s.encounters[i].players[id]);
                    } else {
                        assert(t.encounters[i] == s.encounters[i]);
                    }
                }
                if all_totals_hold(s) {
                    assert(totals_hold(s.encounters[last].players[ctx.source]));
                    lemma_record_hit_totals(
                        player,
                        ctx.skill_id,
                        name,
                        ctx.now,
                        evt.target_id,
                        hit,
                        marks,
                    );
                    assert forall|i: int, id: u64|
                        0 <= i < t.encounters.len() && (#[trigger] t.encounters[i].players.contains_key(
                            id,
                        )) implies totals_hold(t.encounters[i].players[id]) by {
                        if i == last && id == ctx.source {
                        } else if i == last {
                            assert(s.encounters[i].players.contains_key(id));
                            assert(t.encounters[i].players[id] == s.encounters[i].players[id]);
                        } else {
                            assert(t.encounters[i] == s.encounters[i]);
                            assert(s.encounters[i].players.contains_key(id));
                        }
                    }
                }
                assert forall|i: int| 0 <= i < t.encounters.len() implies (#[trigger] t.encounters[i]).environment
                    < t.environments.len() by {
                    if i < last {
                        assert(t.encounters[i] == s.encounters[i]);
                    }
                }
            } else {
                lemma_same_grows(s);
            }
        },
        _ => {
            lemma_same_grows(s);
        },
    }
}

proof fn lemma_same_grows(s: DataView)
    ensures
        all_counters_grow(s, s),
        damage_frame(s, s),
{
}

proof fn lemma_frame_trans(s: DataView, t: DataView, u: DataView)
    requires
        damage_frame(s, t),
        damage_frame(t, u),
    ensures
        damage_frame(s, u),
{
    assert forall|i: int| 0 <= i < s.encounters.len() - 1 implies #[trigger] u.encounters[i]
        == s.encounters[i] by {
        assert(t.encounters[i] == s.encounters[i]);
    }
}

proof fn lemma_apply_events(
    s: DataView,
    ctx: DamageContext,
    events: Seq<SkillDamageEvent>,
    hit_boss: bool,
)
    requires
        s.wf(),
        s.enc().players.contains_key(ctx.source),
    ensures
        ({
            let t = s.apply_events(ctx, events, hit_boss).state;
            &&& t.wf()
            &&& damage_frame(s, t)
            &&& all_counters_grow(s, t)
            &&& all_totals_hold(s) ==> all_totals_hold(t)
        }),
    decreases events.len(),
{
    if events.len() == 0 {
        lemma_same_grows(s);
    } else {
        lemma_apply_event(s, ctx, events[0]);
        match s.apply_event(ctx, events[0]) {
            Err(_) => {
                lemma_same_grows(s);
            },
            Ok(next) => {
                assert(next == after_event(s, ctx, events[0]));
                let flag = hit_boss || s.hits_boss(events[0]);
                lemma_apply_events(next, ctx, events.skip(1), flag);
                let t = next.apply_events(ctx, events.skip(1), flag).state;
                lemma_frame_trans(s, next, t);
                lemma_grow_trans(s, next, t);
            },
        }
    }
}

/// What damage processing keeps: the state stays well formed and settled,
/// no counter falls, the totals stay sums over the hits, and every player
/// of an encounter stays known to its environment.
proof fn lemma_process_damages(
    s: DataView,
    db: Map<u32, SkillInfoView>,
    source_id: u64,
    skill_id: u32,
    events: Seq<SkillDamageEvent>,
    now: u64,
)
    requires
        settled(s),
    ensures
        ({
            let t = s.process_damages(db, source_id, skill_id, events, now).0;
            &&& settled(t)
            &&& all_counters_grow(s, t)
            &&& all_totals_hold(s) ==> all_totals_hold(t)
            &&& members_known(s) ==> members_known(t)
        }),
{
    let t = s.process_damages(db, source_id, skill_id, events, now).0;
    let last = s.encounters.len() - 1;
    match crate::meter::resolve_source(
        s.env().projectiles,
        source_id,
        s.env().projectiles.dom().len(),
    ) {
        None => {
            lemma_same_grows(s);
        },
        Some(source) => match s.with_source(db, source, skill_id) {
            None => {
                lemma_same_grows(s);
            },
            Some(ready) => {
                // The source gets its records; nothing else changes.
                assert(ready.wf()) by {
                    assert forall|i: int| 0 <= i < ready.encounters.len() implies (#[trigger] ready.encounters[i]).environment
                        < ready.environments.len() by {
                        if i < last {
                            assert(ready.encounters[i] == s.encounters[i]);
                        }
                    }
                }
                assert(ready.enc().players.contains_key(source));
                assert(ready.env().players.contains_key(source));
                assert(all_counters_grow(s, ready)) by {
                    assert forall|i: int, id: u64|
                        0 <= i < s.encounters.len() && (#[trigger] s.encounters[i].players.contains_key(
                            id,
                        )) implies ready.encounters[i].players.contains_key(id) && counters_grow(
                        s.encounters[i].players[id],
                        ready.encounters[i].players[id],
                    ) by {
                        if i < last {
                            assert(ready.encounters[i] == s.encounters[i]);
                        } else {
                            assert(ready.encounters[i].players[id] == s.encounters[i].players[id]);
                        }
                    }
                }
                if all_totals_hold(s) {
                    lemma_skills_damage_empty(0x1_0000_0000);
                    assert forall|i: int, id: u64|
                        0 <= i < ready.encounters.len() && (#[trigger] ready.encounters[i].players.contains_key(
                            id,
                        )) implies totals_hold(ready.encounters[i].players[id]) by {
                        if i < last {
                            assert(ready.encounters[i] == s.encounters[i]);
                            assert(s.encounters[i].players.contains_key(id));
                        } else if s.encounters[i].players.contains_key(id) {
                            assert(ready.encounters[i].players[id] == s.encounters[i].players[id]);
                        }
                    }
                }
                let ctx = ready.damage_context(db, source, skill_id, now);
                lemma_apply_events(ready, ctx, events, false);
                let batch = ready.apply_events(ctx, events, false);
                let done = batch.state;
                lemma_grow_trans(s, ready, done);
                // Marking the time of damage touches no player.
                assert(t.wf()) by {
                    assert forall|i: int| 0 <= i < t.encounters.len() implies (#[trigger] t.encounters[i]).environment
                        < t.environments.len() by {
                        if i < last {
                            assert(t.encounters[i] == done.encounters[i]);
                        }
                    }
                }
                assert(all_counters_grow(done, t)) by {
                    assert forall|i: int, id: u64|
                        0 <= i < done.encounters.len() && (#[trigger] done.encounters[i].players.contains_key(
                            id,
                        )) implies t.encounters[i].players.contains_key(id) && counters_grow(
                        done.encounters[i].players[id],
                        t.encounters[i].players[id],
                    ) by {
                        assert(t.encounters[i].players == done.encounters[i].players);
                    }
                }
                lemma_grow_trans(s, done, t);
                if all_totals_hold(s) {
                    assert forall|i: int, id: u64|
                        0 <= i < t.encounters.len() && (#[trigger] t.encounters[i].players.contains_key(
                            id,
                        )) implies totals_hold(t.encounters[i].players[id]) by {
                        assert(t.encounters[i].players == done.encounters[i].players);
                        assert(done.encounters[i].players.contains_key(id));
                    }
                }
                if members_known(s) {
                    assert forall|i: int, id: u64|
                        0 <= i < t.encounters.len() && (#[trigger] t.encounters[i].players.contains_key(
                            id,
                        )) implies t.environments[t.encounters[i].environment as int].players.contains_key(
                        id,
                    ) by {
                        assert(t.encounters[i].players == done.encounters[i].players);
                        assert(t.encounters[i].environment == done.encounters[i].environment);
                        if i < last {
                            assert(done.encounters[i] == ready.encounters[i]);
                            assert(ready.encounters[i] == s.encounters[i]);
                            assert(s.encounters[i].players.contains_key(id));
                            let j = s.encounters[i].environment as int;
                            assert(s.environments[j].players.contains_key(id));
                        } else {
                            assert(ready.enc().players.contains_key(id));
                            if id != source {
                                assert(s.encounters[last].players.contains_key(id));
                            }
                        }
                    }
                }
            },
        },
    }
}

/// Whether the step from `s` to `t` leaves the records of the encounters as
/// they are and drops no player but `but`.
pub open spec fn framed(s: DataView, t: DataView, but: Option<u64>) -> bool {
    &&& t.wf()
    &&& records_kept(s, t)
    &&& players_kept(s, t, but)
    &&& settled(s) ==> settled(t)
}

/// The key that a record moves away from when a character is matched to the
/// point of view.
pub open spec fn rekeyed(env: EnvironmentView, cid: u64) -> Option<u64> {
    match (env.pov, first_match(env.players, cid, false)) {
        (Some(pov), Some(key)) => if key != pov {
            Some(key)
        } else {
            None
        },
        _ => None,
    }
}

/// The key under which a packet drops a player's record from the current
/// environment, if it drops one.
pub open spec fn moved_key(s: DataView, event: EventView) -> Option<u64> {
    match event {
        EventView::InitPc { character } => if s.live.parties.contains_key(character.character_id)
            && character.character_id != character.player_id {
            Some(character.character_id)
        } else {
            None
        },
        EventView::InitLocal { character_id } => rekeyed(s.env(), character_id),
        EventView::MigrationExecute { account_character_id1, account_character_id2 } => if s.env().pov_player() is Some {
            None
        } else {
            rekeyed(
                s.env(),
                if account_character_id1 <= account_character_id2 {
                    account_character_id1
                } else {
                    account_character_id2
                },
            )
        },
        _ => None,
    }
}

proof fn lemma_with_env(s: DataView, env: EnvironmentView, but: Option<u64>)
    requires
        s.wf(),
        forall|id: u64|
            s.env().players.contains_key(id) && but != Some(id) ==> env.players.contains_key(id),
    ensures
        framed(s, s.with_env(env), but),
{
    let t = s.with_env(env);
    assert forall|j: int, id: u64|
        0 <= j < s.environments.len() && (#[trigger] s.environments[j].players.contains_key(id))
            && !(j == s.environments.len() - 1 && but == Some(id)) implies t.environments[j].players.contains_key(
        id,
    ) by {
        if j < s.environments.len() - 1 {
            assert(t.environments[j] == s.environments[j]);
        }
    }
}

proof fn lemma_with_live(s: DataView, live: LiveView)
    requires
        s.wf(),
    ensures
        framed(s, s.with_live(live), None),
{
}

proof fn lemma_with_enc(s: DataView, enc: EncounterView)
    requires
        s.wf(),
        enc.players == s.enc().players,
        enc.environment == s.enc().environment,
    ensures
        framed(s, s.with_enc(enc), None),
{
    let t = s.with_enc(enc);
    assert forall|i: int| 0 <= i < t.encounters.len() implies (#[trigger] t.encounters[i]).environment
        < t.environments.len() by {
        if i < s.encounters.len() - 1 {
            assert(t.encounters[i] == s.encounters[i]);
        }
    }
    assert forall|i: int|
        0 <= i < s.encounters.len() implies (#[trigger] t.encounters[i]).players
        == s.encounters[i].players && t.encounters[i].environment
        == s.encounters[i].environment by {
        if i < s.encounters.len() - 1 {
            assert(t.encounters[i] == s.encounters[i]);
        }
    }
}

proof fn lemma_framed_trans(s: DataView, t: DataView, u: DataView, but: Option<u64>)
    requires
        framed(s, t, None),
        framed(t, u, but),
        t.environments.len() == s.environments.len(),
    ensures
        framed(s, u, but),
{
    assert forall|i: int|
        0 <= i < s.encounters.len() implies (#[trigger] u.encounters[i]).players
        == s.encounters[i].players && u.encounters[i].environment
        == s.encounters[i].environment by {
        assert(t.encounters[i].players == s.encounters[i].players);
    }
    assert forall|j: int, id: u64|
        0 <= j < s.environments.len() && (#[trigger] s.environments[j].players.contains_key(id))
            && !(j == s.environments.len() - 1 && but == Some(id)) implies u.environments[j].players.contains_key(
        id,
    ) by {
        assert(t.environments[j].players.contains_key(id));
    }
}

proof fn lemma_on_init_env(s: DataView, pov: u64, now: u64)
    requires
        s.wf(),
        s.environments.len() < usize::MAX,
    ensures
        framed(s, s.on_init_env(pov, now), None),
        settled(s.on_init_env(pov, now)),
{
    let env = EnvironmentView {
        pov: Some(pov),
        players: match s.env().pov_player() {
            Some(player) => Map::<u64, PlayerView>::empty().insert(pov, player),
            None => Map::empty(),
        },
        ..EnvironmentView::empty()
    };
    let staged = DataView {
        live: LiveView::empty(),
        environments: s.environments.push(env),
        encounters: s.encounters,
    };
    assert(staged.wf());
    lemma_new_encounter(staged, now);
    let t = staged.new_encounter(now);
    assert forall|j: int, id: u64|
        0 <= j < s.environments.len() && (#[trigger] s.environments[j].players.contains_key(
            id,
        )) implies t.environments[j].players.contains_key(id) by {
        assert(t.environments[j] == s.environments[j]);
    }
}

proof fn lemma_rekey(s: DataView, cid: u64)
    requires
        s.wf(),
    ensures
        framed(s, s.on_init_local(cid), rekeyed(s.env(), cid)),
{
    let env = EnvironmentView { pov_char_id: Some(cid), ..s.env() };
    match (env.pov, first_match(env.players, cid, false)) {
        (Some(pov), Some(key)) => {
            lemma_with_env(
                s,
                env.with_players(env.players.remove(key).insert(pov, env.players[key])),
                rekeyed(s.env(), cid),
            );
        },
        _ => {
            lemma_with_env(s, env, None);
        },
    }
}

proof fn lemma_on_new_npc(s: DataView, id: u64, kind: u32, now: u64)
    requires
        s.wf(),
    ensures
        framed(s, s.on_new_npc(id, kind, now), None),
{
    let marked = match Boss::of_species(kind) {
        Some(boss) => {
            let begun = if s.enc().bosses.len() == 0 {
                s.new_encounter(now)
            } else {
                s
            };
            begun.with_enc(
                EncounterView { bosses: begun.enc().bosses.push((id, boss)), ..begun.enc() },
            )
        },
        None => s,
    };
    match Boss::of_species(kind) {
        Some(boss) => {
            let begun = if s.enc().bosses.len() == 0 {
                s.new_encounter(now)
            } else {
                s
            };
            if s.enc().bosses.len() == 0 {
                lemma_new_encounter(s, now);
            }
            assert(framed(s, begun, None));
            lemma_with_enc(
                begun,
                EncounterView { bosses: begun.enc().bosses.push((id, boss)), ..begun.enc() },
            );
            lemma_framed_trans(s, begun, marked, None);
        },
        None => {},
    }
    assert(framed(s, marked, None));
    let env = EnvironmentView {
        npcs: marked.env().npcs.insert(id, fresh_npc(id, kind)),
        ..marked.env()
    };
    lemma_with_env(marked, env, None);
    lemma_framed_trans(s, marked, marked.with_env(env), None);
}

/// The record of a non-player entity as it is first made.
pub open spec fn fresh_npc(id: u64, kind: u32) -> crate::meter::NpcView {
    crate::meter::NpcView { id, kind, name: "Boss"@ }
}

/// What a step that is no damage keeps.
proof fn lemma_step_framed(s: DataView, db: Map<u32, SkillInfoView>, event: EventView, now: u64)
    requires
        s.wf(),
        event is InitEnv ==> s.environments.len() < usize::MAX,
        !(event is SkillDamage),
        !(event is SkillDamageAbnormalMove),
    ensures
        framed(s, s.step(db, event, now).state, moved_key(s, event)),
{
    let t = s.step(db, event, now).state;
    match event {
        EventView::InitEnv { player_id } => {
            lemma_on_init_env(s, player_id, now);
        },
        EventView::InitLocal { character_id } => {
            lemma_rekey(s, character_id);
        },
        EventView::InitPc { character } => {
            let player = character.player();
            if s.live.parties.contains_key(character.character_id) {
                let parties = s.live.parties.remove(character.character_id).insert(
                    character.player_id,
                    s.live.parties[character.character_id],
                );
                let m = DataView { live: LiveView { parties, ..s.live }, ..s };
                lemma_with_live(s, LiveView { parties, ..s.live });
                lemma_with_env(
                    m,
                    m.env().with_players(
                        s.env().players.remove(character.character_id).insert(
                            character.player_id,
                            player,
                        ),
                    ),
                    moved_key(s, event),
                );
                lemma_framed_trans(s, m, t, moved_key(s, event));
            } else {
                lemma_with_env(
                    s,
                    s.env().with_players(s.env().players.insert(character.player_id, player)),
                    None,
                );
            }
        },
        EventView::NewPc { character } => {
            lemma_with_env(
                s,
                s.env().with_players(
                    s.env().players.insert(character.player_id, character.player()),
                ),
                None,
            );
        },
        EventView::NewNpc { object_id, type_id } => {
            lemma_on_new_npc(s, object_id, type_id, now);
        },
        EventView::NewProjectile { projectile_id, owner_id } => {
            lemma_with_env(
                s,
                EnvironmentView {
                    projectiles: s.env().projectiles.insert(
                        projectile_id,
                        crate::meter::Projectile { id: projectile_id, owner_id },
                    ),
                    ..s.env()
                },
                None,
            );
        },
        EventView::SkillDamage { .. } => {},
        EventView::SkillDamageAbnormalMove { .. } => {},
        EventView::StatusEffectAdd { object_id, effect } => {
            lemma_with_live(s, s.live.add_effect(object_id, effect));
        },
        EventView::StatusEffectRemove { object_id, instances } => {
            lemma_with_live(s, s.live.remove_effects(object_id, instances));
        },
        EventView::PartyStatusEffectAdd { character_id, effects } => {
            match s.party_member(character_id) {
                Some(id) => {
                    lemma_with_live(
                        s,
                        (LiveView {
                            buffs: s.live.buffs.insert(id, crate::meter::buffs_of(s.live.buffs, id)),
                            ..s.live
                        }).add_effects(id, effects),
                    );
                },
                None => {
                    lemma_same_framed(s);
                },
            }
        },
        EventView::PartyStatusEffectRemove { character_id, instances } => {
            match s.party_member(character_id) {
                Some(id) => {
                    lemma_with_live(s, s.live.remove_effects(id, instances));
                },
                None => {
                    lemma_same_framed(s);
                },
            }
        },
        EventView::PartyStatusEffectResult { character_id, party_instance_id } => {
            let key = match s.party_member(character_id) {
                Some(id) => id,
                None => character_id,
            };
            lemma_with_live(
                s,
                LiveView { parties: s.live.parties.insert(key, party_instance_id), ..s.live },
            );
        },
        EventView::PartyInfo { party_instance_id, members } => {
            lemma_add_party_members(s, s.env().pov_player() is None, party_instance_id, members);
            lemma_frame_env(s, t);
        },
        EventView::MigrationExecute { account_character_id1, account_character_id2 } => {
            if s.env().pov_player() is Some {
                lemma_same_framed(s);
            } else {
                let cid = if account_character_id1 <= account_character_id2 {
                    account_character_id1
                } else {
                    account_character_id2
                };
                lemma_rekey(s, cid);
            }
        },
        EventView::TriggerStart { trigger_signal_type } => {
            let signal = trigger_signal_type;
            if crate::meter::is_fail_signal(signal) {
                lemma_with_enc(s, EncounterView { wipe: true, clear: false, ..s.enc() });
            } else if crate::meter::is_clear_signal(signal) {
                lemma_with_enc(s, EncounterView { wipe: false, clear: true, ..s.enc() });
            } else {
                lemma_same_framed(s);
            }
        },
        EventView::RaidBossKill => {
            lemma_same_framed(s);
        },
        EventView::RaidResult => {
            lemma_same_framed(s);
        },
        EventView::TriggerBossBattleStatus => {
            lemma_same_framed(s);
        },
    }
}

proof fn lemma_same_framed(s: DataView)
    requires
        s.wf(),
    ensures
        framed(s, s, None),
{
}

/// The state at the start is settled; it has no player yet, so the totals
/// hold and every player is known, and its one encounter is in order.
pub proof fn lemma_initial(now: u64)
    ensures
        settled(DataView::initial(now)),
        all_totals_hold(DataView::initial(now)),
        members_known(DataView::initial(now)),
        times_hold(DataView::initial(now), now),
{
}

/// Every step keeps the state well formed, with the current encounter in
/// the current environment.
pub proof fn lemma_step_settled(
    s: DataView,
    db: Map<u32, SkillInfoView>,
    event: EventView,
    now: u64,
)
    requires
        settled(s),
        event is InitEnv ==> s.environments.len() < usize::MAX,
    ensures
        settled(s.step(db, event, now).state),
{
    match event {
        EventView::SkillDamage { source_id, skill_id, events } => {
            lemma_process_damages(s, db, source_id, skill_id, events, now);
        },
        EventView::SkillDamageAbnormalMove { source_id, skill_id, events } => {
            lemma_process_damages(s, db, source_id, skill_id, events, now);
        },
        _ => {
            lemma_step_framed(s, db, event, now);
        },
    }
}

/// The total damage of every player of every encounter is, after every
/// step, the sum of the damage of the hits of all the player's skills.
pub proof fn lemma_step_totals(
    s: DataView,
    db: Map<u32, SkillInfoView>,
    event: EventView,
    now: u64,
)
    requires
        settled(s),
        all_totals_hold(s),
        event is InitEnv ==> s.environments.len() < usize::MAX,
    ensures
        all_totals_hold(s.step(db, event, now).state),
{
    match event {
        EventView::SkillDamage { source_id, skill_id, events } => {
            lemma_process_damages(s, db, source_id, skill_id, events, now);
        },
        EventView::SkillDamageAbnormalMove { source_id, skill_id, events } => {
            lemma_process_damages(s, db, source_id, skill_id, events, now);
        },
        _ => {
            lemma_step_framed(s, db, event, now);
            lemma_kept_totals(s, s.step(db, event, now).state);
        },
    }
}

/// Every player of an encounter has, after every step, a record in the
/// environment of the encounter, as long as the step drops no record that
/// an encounter of the current environment refers to.
pub proof fn lemma_step_members(
    s: DataView,
    db: Map<u32, SkillInfoView>,
    event: EventView,
    now: u64,
)
    requires
        settled(s),
        members_known(s),
        event is InitEnv ==> s.environments.len() < usize::MAX,
        moved_key(s, event) matches Some(key) ==> unused_here(s, key),
    ensures
        members_known(s.step(db, event, now).state),
{
    match event {
        EventView::SkillDamage { source_id, skill_id, events } => {
            lemma_process_damages(s, db, source_id, skill_id, events, now);
        },
        EventView::SkillDamageAbnormalMove { source_id, skill_id, events } => {
            lemma_process_damages(s, db, source_id, skill_id, events, now);
        },
        _ => {
            lemma_step_framed(s, db, event, now);
            lemma_kept_members(s, s.step(db, event, now).state, moved_key(s, event));
        },
    }
}

/// No step lowers a counter of a player in an encounter: hits, damage, and
/// the hits and damage under a brand, an attack power buff or an identity
/// buff, for the player and for each skill. An encounter that begins has no
/// players, so counting starts anew there only.
pub proof fn lemma_step_counters(
    s: DataView,
    db: Map<u32, SkillInfoView>,
    event: EventView,
    now: u64,
)
    requires
        settled(s),
        event is InitEnv ==> s.environments.len() < usize::MAX,
    ensures
        all_counters_grow(s, s.step(db, event, now).state),
{
    match event {
        EventView::SkillDamage { source_id, skill_id, events } => {
            lemma_process_damages(s, db, source_id, skill_id, events, now);
        },
        EventView::SkillDamageAbnormalMove { source_id, skill_id, events } => {
            lemma_process_damages(s, db, source_id, skill_id, events, now);
        },
        _ => {
            lemma_step_framed(s, db, event, now);
            lemma_kept_grow(s, s.step(db, event, now).state);
        },
    }
}

/// An encounter that begins keeps the records of the encounters before it,
/// has no player and no boss itself, and leaves no boss health behind. The
/// times stay in order where `now` is not before them.
pub proof fn lemma_rotation(s: DataView, now: u64)
    requires
        s.wf(),
    ensures
        records_kept(s, s.new_encounter(now)),
        s.new_encounter(now).encounters.len() == s.encounters.len() + 1,
        s.new_encounter(now).enc().players == Map::<u64, PlayerDataView>::empty(),
        s.new_encounter(now).enc().bosses.len() == 0,
        s.new_encounter(now).live.boss_health == Map::<u64, crate::meter::BossInfo>::empty(),
        s.new_encounter(now).live.recently_tracked is None,
        times_hold(s, now) ==> times_hold(s.new_encounter(now), now),
{
    lemma_new_encounter(s, now);
    if times_hold(s, now) {
        lemma_times_rotation(s, now);
    }
}

/// After a map change the live state is empty, the current encounter lies in
/// the new environment, and the player running the meter, where there was a
/// record of that player, has the same record under the new object id.
pub proof fn lemma_init_env(s: DataView, pov: u64, now: u64)
    requires
        s.wf(),
        s.environments.len() < usize::MAX,
    ensures
        ({
            let t = s.on_init_env(pov, now);
            &&& t.live == LiveView::empty()
            &&& t.environments.len() == s.environments.len() + 1
            &&& t.encounters.len() == s.encounters.len() + 1
            &&& t.enc().environment == t.environments.len() - 1
            &&& t.env().pov == Some(pov)
            &&& s.env().pov_player() matches Some(player) ==> t.env().pov_player() == Some(player)
            &&& s.env().pov_player() is None ==> t.env().players == Map::<u64, PlayerView>::empty()
        }),
{
    lemma_on_init_env(s, pov, now);
    let t = s.on_init_env(pov, now);
    assert(t.live.boss_health =~= Map::empty());
}

/// Whether the times of an encounter are in order: it starts before its
/// first damage, the first damage is not after the last, neither is after
/// the end, and there is no last damage without a first. An encounter is
/// not a wipe and a clear at once.
pub open spec fn in_order(e: EncounterView) -> bool {
    &&& match e.first_damage {
        Some(first) => e.start <= first,
        None => e.last_damage is None,
    }
    &&& match (e.first_damage, e.last_damage) {
        (Some(first), Some(last)) => first <= last,
        _ => true,
    }
    &&& match (e.last_damage, e.end) {
        (Some(last), Some(end)) => last <= end,
        _ => true,
    }
    &&& match e.end {
        Some(end) => e.start <= end,
        None => true,
    }
    &&& !(e.wipe && e.clear)
}

/// Whether no time of an encounter lies after `now`.
pub open spec fn not_after(e: EncounterView, now: u64) -> bool {
    &&& e.start <= now
    &&& match e.first_damage {
        Some(t) => t <= now,
        None => true,
    }
    &&& match e.last_damage {
        Some(t) => t <= now,
        None => true,
    }
    &&& match e.end {
        Some(t) => t <= now,
        None => true,
    }
}

/// Whether every encounter is in order with no time after `now`, and the
/// current encounter has not ended.
pub open spec fn times_hold(s: DataView, now: u64) -> bool {
    &&& s.enc().end is None
    &&& forall|i: int|
        0 <= i < s.encounters.len() ==> in_order(#[trigger] s.encounters[i]) && not_after(
            s.encounters[i],
            now,
        )
}

proof fn lemma_times_rotation(s: DataView, now: u64)
    requires
        s.wf(),
        times_hold(s, now),
    ensures
        times_hold(s.new_encounter(now), now),
{
    let t = s.new_encounter(now);
    let last = s.encounters.len() - 1;
    assert forall|i: int| 0 <= i < t.encounters.len() implies in_order(#[trigger] t.encounters[i])
        && not_after(t.encounters[i], now) by {
        if i < last {
            assert(t.encounters[i] == s.encounters[i]);
        } else if i == last {
            assert(t.encounters[i] == (EncounterView { end: Some(now), ..s.encounters[last] }));
            assert(in_order(s.encounters[last]) && not_after(s.encounters[last], now));
        }
    }
}

proof fn lemma_times_damage(
    s: DataView,
    db: Map<u32, SkillInfoView>,
    source_id: u64,
    skill_id: u32,
    events: Seq<SkillDamageEvent>,
    now: u64,
)
    requires
        s.wf(),
        times_hold(s, now),
    ensures
        times_hold(s.process_damages(db, source_id, skill_id, events, now).0, now),
{
    let t = s.process_damages(db, source_id, skill_id, events, now).0;
    let last = s.encounters.len() - 1;
    match crate::meter::resolve_source(
        s.env().projectiles,
        source_id,
        s.env().projectiles.dom().len(),
    ) {
        None => {},
        Some(source) => match s.with_source(db, source, skill_id) {
            None => {},
            Some(ready) => {
                assert(ready.encounters.len() == s.encounters.len());
                assert forall|i: int| 0 <= i < last implies #[trigger] ready.encounters[i]
                    == s.encounters[i] by {}
                assert(ready.wf()) by {
                    assert forall|i: int| 0 <= i < ready.encounters.len() implies (#[trigger] ready.encounters[i]).environment
                        < ready.environments.len() by {
                        if i < last {
                            assert(ready.encounters[i] == s.encounters[i]);
                        }
                    }
                }
                assert(ready.enc().players.contains_key(source));
                let ctx = ready.damage_context(db, source, skill_id, now);
                lemma_apply_events(ready, ctx, events, false);
                let done = ready.apply_events(ctx, events, false).state;
                assert forall|i: int| 0 <= i < t.encounters.len() implies in_order(
                    #[trigger] t.encounters[i],
                ) && not_after(t.encounters[i], now) by {
                    assert(in_order(s.encounters[i]) && not_after(s.encounters[i], now));
                    if i < last {
                        assert(done.encounters[i] == ready.encounters[i]);
                        assert(ready.encounters[i] == s.encounters[i]);
                        assert(t.encounters[i] == done.encounters[i]);
                    } else {
                        assert(ready.enc().end == s.enc().end);
                        assert(done.enc().end == ready.enc().end);
                    }
                }
            },
        },
    }
}

proof fn lemma_times_new_npc(s: DataView, id: u64, kind: u32, now: u64)
    requires
        s.wf(),
        times_hold(s, now),
    ensures
        times_hold(s.on_new_npc(id, kind, now), now),
{
    let t = s.on_new_npc(id, kind, now);
    match Boss::of_species(kind) {
        Some(boss) => {
            let begun = if s.enc().bosses.len() == 0 {
                s.new_encounter(now)
            } else {
                s
            };
            if s.enc().bosses.len() == 0 {
                lemma_new_encounter(s, now);
                lemma_times_rotation(s, now);
            }
            let last = begun.encounters.len() - 1;
            assert(t.encounters.len() == begun.encounters.len());
            assert forall|i: int| 0 <= i < t.encounters.len() implies in_order(
                #[trigger] t.encounters[i],
            ) && not_after(t.encounters[i], now) by {
                assert(in_order(begun.encounters[i]) && not_after(begun.encounters[i], now));
                if i < last {
                    assert(t.encounters[i] == begun.encounters[i]);
                }
            }
        },
        None => {
            assert(t.encounters == s.encounters);
        },
    }
}

/// Every step keeps the times of every encounter in order, and no encounter
/// a wipe and a clear at once, as long as the clock does not run backwards:
/// `now` is not before `earlier`, the time up to which the state was in
/// order.
pub proof fn lemma_step_times(
    s: DataView,
    db: Map<u32, SkillInfoView>,
    event: EventView,
    earlier: u64,
    now: u64,
)
    requires
        s.wf(),
        times_hold(s, earlier),
        earlier <= now,
        event is InitEnv ==> s.environments.len() < usize::MAX,
    ensures
        times_hold(s.step(db, event, now).state, now),
{
    let t = s.step(db, event, now).state;
    assert(times_hold(s, now));
    match event {
        EventView::InitEnv { player_id } => {
            let env = EnvironmentView {
                pov: Some(player_id),
                players: match s.env().pov_player() {
                    Some(player) => Map::<u64, PlayerView>::empty().insert(player_id, player),
                    None => Map::empty(),
                },
                ..EnvironmentView::empty()
            };
            let staged = DataView {
                live: LiveView::empty(),
                environments: s.environments.push(env),
                encounters: s.encounters,
            };
            assert(staged.wf());
            assert(times_hold(staged, now));
            lemma_times_rotation(staged, now);
        },
        EventView::NewNpc { object_id, type_id } => {
            lemma_times_new_npc(s, object_id, type_id, now);
        },
        EventView::SkillDamage { source_id, skill_id, events } => {
            lemma_times_damage(s, db, source_id, skill_id, events, now);
        },
        EventView::SkillDamageAbnormalMove { source_id, skill_id, events } => {
            lemma_times_damage(s, db, source_id, skill_id, events, now);
        },
        EventView::TriggerStart { trigger_signal_type } => {
            let last = s.encounters.len() - 1;
            assert forall|i: int| 0 <= i < t.encounters.len() implies in_order(
                #[trigger] t.encounters[i],
            ) && not_after(t.encounters[i], now) by {
                assert(in_order(s.encounters[i]) && not_after(s.encounters[i], now));
                if i < last {
                    assert(t.encounters[i] == s.encounters[i]);
                }
            }
        },
        EventView::PartyInfo { party_instance_id, members } => {
            lemma_add_party_members(s, s.env().pov_player() is None, party_instance_id, members);
        },
        _ => {
            assert(t.encounters == s.encounters);
        },
    }
}

} // verus!
