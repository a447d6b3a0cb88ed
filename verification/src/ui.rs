//! What the overlay works out from the model before it draws: the order of
//! the bars and the text that fits.

use crate::meter::{Encounter, PlayerData, PlayerDataView, SkillUsageView};
use crate::ordered::{is_sorted_keys, is_sorted_keys_u32, sorted_keys, sorted_keys_u32};
use vstd::prelude::*;
use vstd::string::StrSliceExecFns;

verus! {

/// The start of a text up to and with the character at position `idx`; the
/// whole text where it is shorter.
pub fn slice_at_nth_char(s: &str, idx: usize) -> (head: &str)
    ensures
        head@ == s@.take(if idx < s@.len() {
            idx + 1
        } else {
            s@.len() as int
        }),
{
    let len = s.unicode_len();
    let end = if idx < len {
        idx + 1
    } else {
        len
    };
    let head = s.substring_char(0, end);
    proof {
        assert(s@.subrange(0, end as int) =~= s@.take(end as int));
    }
    head
}

/// An id with the damage that it is ranked by.
#[derive(Debug, Copy, Clone, PartialEq, Eq, Structural)]
pub struct Ranked {
    pub id: u64,
    pub damage: i64,
}

/// Whether `a` stands before `b` in a ranking: more damage first, and the
/// smaller id first among equals.
pub open spec fn ranks_before(a: Ranked, b: Ranked) -> bool {
    a.damage > b.damage || (a.damage == b.damage && a.id < b.id)
}

/// Whether each entry stands before the ones after it.
pub open spec fn is_ranking(r: Seq<Ranked>) -> bool {
    forall|i: int, j: int| 0 <= i < j < r.len() ==> ranks_before(r[i], r[j])
}

/// Whether `r` ranks the players of an encounter: every player once, with
/// the total damage.
pub open spec fn ranks_players(r: Seq<Ranked>, players: Map<u64, PlayerDataView>) -> bool {
    &&& is_ranking(r)
    &&& forall|i: int| 0 <= i < r.len() ==> players.contains_key(#[trigger] r[i].id) && r[i].damage
        == players[r[i].id].dmg_dealt
    &&& forall|id: u64| players.contains_key(id) ==> exists|i: int| 0 <= i < r.len() && #[trigger] r[i].id == id
}

/// Whether `r` ranks the skills of a player: every skill once, under its id,
/// with the damage of its hits.
pub open spec fn ranks_skills(r: Seq<Ranked>, skills: Map<u32, SkillUsageView>) -> bool {
    &&& is_ranking(r)
    &&& forall|i: int|
        0 <= i < r.len() ==> (#[trigger] r[i]).id <= u32::MAX && skills.contains_key(r[i].id as u32)
            && r[i].damage == skills[r[i].id as u32].damage
    &&& forall|id: u32| skills.contains_key(id) ==> exists|i: int| 0 <= i < r.len() && #[trigger] r[i].id == id
}

/// Puts an entry into a ranking at its place.
fn rank_in(r: &mut Vec<Ranked>, e: Ranked)
    requires
        is_ranking(old(r)@),
        forall|i: int| 0 <= i < old(r)@.len() ==> (#[trigger] old(r)@[i]).id != e.id,
    ensures
        is_ranking(final(r)@),
        final(r)@.len() == old(r)@.len() + 1,
        forall|x: Ranked| final(r)@.contains(x) <==> (old(r)@.contains(x) || x == e),
{
    let mut at: usize = 0;
    while at < r.len() && (r[at].damage > e.damage || (r[at].damage == e.damage && r[at].id < e.id))
        invariant
            0 <= at <= r@.len(),
            r@ == old(r)@,
            forall|i: int| 0 <= i < at ==> ranks_before(#[trigger] r@[i], e),
        decreases r@.len() - at,
    {
        at = at + 1;
    }
    let ghost before = r@;
    r.insert(at, e);
    proof {
        assert forall|i: int, j: int| 0 <= i < j < r@.len() implies ranks_before(r@[i], r@[j]) by {
            if j < at {
                assert(r@[i] == before[i] && r@[j] == before[j]);
            } else if j == at {
                assert(r@[i] == before[i]);
            } else if i < at {
                assert(r@[i] == before[i] && r@[j] == before[j - 1]);
            } else if i == at {
                assert(r@[j] == before[j - 1]);
                assert(!ranks_before(before[at as int], e));
                assert(before[at as int].id != e.id);
                if j - 1 > at {
                    assert(ranks_before(before[at as int], before[j - 1]));
                }
            } else {
                assert(r@[i] == before[i - 1] && r@[j] == before[j - 1]);
            }
        }
        assert(before == old(r)@);
        assert forall|x: Ranked| r@.contains(x) <==> (old(r)@.contains(x) || x == e) by {
            if r@.contains(x) {
                let k = choose|k: int| 0 <= k < r@.len() && r@[k] == x;
                if k < at {
                    assert(before[k] == x);
                } else if k > at {
                    assert(before[k - 1] == x);
                }
            }
            if before.contains(x) {
                let k = choose|k: int| 0 <= k < before.len() && before[k] == x;
                if k < at {
                    assert(r@[k] == x);
                } else {
                    assert(r@[k + 1] == x);
                }
            }
            if x == e {
                assert(r@[at as int] == x);
            }
        }
    }
}

/// The players of an encounter in the order of their bars: by total damage,
/// the most first, and by object id among equals.
pub fn players_by_damage(enc: &Encounter) -> (r: Vec<Ranked>)
    ensures
        ranks_players(r@, enc@.players),
{
    let keys = sorted_keys(&enc.players);
    let mut r: Vec<Ranked> = Vec::new();
    let mut i: usize = 0;
    while i < keys.len()
        invariant
            0 <= i <= keys@.len(),
            is_sorted_keys(keys@, enc.players@.dom()),
            is_ranking(r@),
            r@.len() == i,
            forall|x: Ranked|
                r@.contains(x) <==> keys@.take(i as int).contains(x.id) && x.damage
                    == enc.players@[x.id].dmg_dealt,
        decreases keys@.len() - i,
    {
        let id = keys[i];
        assert(keys@.contains(id));
        let damage = match enc.players.get(&id) {
            Some(player) => player.dmg_dealt,
            None => {
                assert(false);
                0
            },
        };
        let e = Ranked { id, damage };
        proof {
            assert forall|k: int| 0 <= k < r@.len() implies (#[trigger] r@[k]).id != id by {
                assert(r@.contains(r@[k]));
                let w = choose|w: int|
                    0 <= w < keys@.take(i as int).len() && keys@.take(i as int)[w] == r@[k].id;
                assert(keys@[w] < keys@[i as int]);
            }
        }
        let ghost before = r@;
        rank_in(&mut r, e);
        proof {
            let grown = keys@.take(i + 1);
            assert(grown.drop_last() =~= keys@.take(i as int));
            assert(grown.last() == id);
            assert forall|x: Ranked|
                r@.contains(x) <==> grown.contains(x.id) && x.damage
                    == enc.players@[x.id].dmg_dealt by {
                if before.contains(x) {
                    let w = choose|w: int|
                        0 <= w < keys@.take(i as int).len() && keys@.take(i as int)[w] == x.id;
                    assert(grown[w] == x.id);
                }
                if x == e {
                    assert(grown[i as int] == x.id);
                }
                if grown.contains(x.id) && x.damage == enc.players@[x.id].dmg_dealt {
                    let w = choose|w: int| 0 <= w < grown.len() && grown[w] == x.id;
                    if w < i {
                        assert(keys@.take(i as int)[w] == x.id);
                    } else {
                        assert(x == e);
                    }
                }
            }
        }
        i = i + 1;
    }
    proof {
        assert(keys@.take(keys@.len() as int) =~= keys@);
        assert forall|k: int| 0 <= k < r@.len() implies enc@.players.contains_key(
            #[trigger] r@[k].id,
        ) && r@[k].damage == enc@.players[r@[k].id].dmg_dealt by {
            assert(r@.contains(r@[k]));
            assert(keys@.contains(r@[k].id));
        }
        assert forall|id: u64| enc@.players.contains_key(id) implies exists|k: int|
            0 <= k < r@.len() && #[trigger] r@[k].id == id by {
            assert(enc.players@.contains_key(id));
            assert(keys@.contains(id));
            let x = Ranked { id, damage: enc.players@[id].dmg_dealt };
            assert(r@.contains(x));
            let k = choose|k: int| 0 <= k < r@.len() && r@[k] == x;
            assert(r@[k].id == id);
        }
    }
    r
}

/// The skills of a player in the order of their bars: by damage, the most
/// first, and by skill id among equals.
pub fn skills_by_damage(player: &PlayerData) -> (r: Vec<Ranked>)
    ensures
        ranks_skills(r@, player@.skills),
{
    let keys = sorted_keys_u32(&player.skills);
    let mut r: Vec<Ranked> = Vec::new();
    let mut i: usize = 0;
    while i < keys.len()
        invariant
            0 <= i <= keys@.len(),
            is_sorted_keys_u32(keys@, player.skills@.dom()),
            is_ranking(r@),
            r@.len() == i,
            forall|x: Ranked|
                r@.contains(x) <==> x.id <= u32::MAX && keys@.take(i as int).contains(x.id as u32)
                    && x.damage == player.skills@[x.id as u32].damage,
        decreases keys@.len() - i,
    {
        let id = keys[i];
        assert(keys@.contains(id));
        let damage = match player.skills.get(&id) {
            Some(skill) => skill.damage,
            None => {
                assert(false);
                0
            },
        };
        let e = Ranked { id: id as u64, damage };
        proof {
            assert forall|k: int| 0 <= k < r@.len() implies (#[trigger] r@[k]).id != e.id by {
                assert(r@.contains(r@[k]));
                let w = choose|w: int|
                    0 <= w < keys@.take(i as int).len() && keys@.take(i as int)[w] == r@[k].id as u32;
                assert(keys@[w] < keys@[i as int]);
            }
        }
        let ghost before = r@;
        rank_in(&mut r, e);
        proof {
            let grown = keys@.take(i + 1);
            assert(grown.drop_last() =~= keys@.take(i as int));
            assert(grown.last() == id);
            assert forall|x: Ranked|
                r@.contains(x) <==> x.id <= u32::MAX && grown.contains(x.id as u32) && x.damage
                    == player.skills@[x.id as u32].damage by {
                if before.contains(x) {
                    let w = choose|w: int|
                        0 <= w < keys@.take(i as int).len() && keys@.take(i as int)[w] == x.id as u32;
                    assert(grown[w] == x.id as u32);
                }
                if x == e {
                    assert(grown[i as int] == x.id as u32);
                }
                if x.id <= u32::MAX && grown.contains(x.id as u32) && x.damage
                    == player.skills@[x.id as u32].damage {
                    let w = choose|w: int| 0 <= w < grown.len() && grown[w] == x.id as u32;
                    if w < i {
                        assert(keys@.take(i as int)[w] == x.id as u32);
                    } else {
                        assert(x == e);
                    }
                }
            }
        }
        i = i + 1;
    }
    proof {
        assert(keys@.take(keys@.len() as int) =~= keys@);
        assert forall|k: int| 0 <= k < r@.len() implies (#[trigger] r@[k]).id <= u32::MAX
            && player@.skills.contains_key(r@[k].id as u32) && r@[k].damage
            == player@.skills[r@[k].id as u32].damage by {
            assert(r@.contains(r@[k]));
            assert(keys@.contains(r@[k].id as u32));
        }
        assert forall|id: u32| player@.skills.contains_key(id) implies exists|k: int|
            0 <= k < r@.len() && #[trigger] r@[k].id == id by {
            assert(player.skills@.contains_key(id));
            assert(keys@.contains(id));
            let x = Ranked { id: id as u64, damage: player.skills@[id].damage };
            assert(r@.contains(x));
            let k = choose|k: int| 0 <= k < r@.len() && r@[k] == x;
            assert(r@[k].id == id);
        }
    }
    r
}

} // verus!
