//! Decisions of the AI kingdoms of PvE worlds: what to build, how to spend status points,
//! which formations to field, and how a failed attack changes their plans.
use vstd::prelude::*;
use crate::card_stats::{total_spec, CardStatBonuses};
use crate::cards::{card_spec, get_card};

use crate::facilities::{BuiltFacility, BuiltFacilityView};
use crate::game_log::push_str_chars;
use crate::model::{views, AiFaction, AiPersonality, PlayerData, PlayerView};
use crate::state::{is_ai_id, is_ai_player_id};
use crate::text::{chars_of, decimal, push_decimal, string_from_chars};

verus! {

/// Server-side summary of one AI turn (separate from the game log).
#[derive(Debug)]
pub struct AiTurnReport {
    pub facility_built: Option<String>,
    pub monsters_produced: u32,
    pub explorations_collected: u32,
    pub exploration_started: Option<String>,
    pub attack: Option<(String, String)>,
    pub market_purchase: bool,
    pub stats_allocated_slots: u32,
}

impl Default for AiTurnReport {
    fn default() -> (r: Self)
        ensures
            r.facility_built is None,
            r.monsters_produced == 0,
            r.explorations_collected == 0,
            r.exploration_started is None,
            r.attack is None,
            !r.market_purchase,
            r.stats_allocated_slots == 0,
    {
        AiTurnReport {
            facility_built: None,
            monsters_produced: 0,
            explorations_collected: 0,
            exploration_started: None,
            attack: None,
            market_purchase: false,
            stats_allocated_slots: 0,
        }
    }
}

/// Appends `part` to `parts` when `cond` holds.
pub open spec fn add_if(parts: Seq<Seq<char>>, cond: bool, part: Seq<char>) -> Seq<Seq<char>> {
    if cond { parts.push(part) } else { parts }
}

/// The parts of a turn summary, in order: facility built, monsters produced, explorations
/// collected, exploration sent, attack, market purchase, slots trained.
pub open spec fn summary_parts(r: AiTurnReport) -> Seq<Seq<char>> {
    let p0 = seq![];
    let p1 = match r.facility_built {
        Some(f) => p0.push("施設="@ + f@),
        None => p0,
    };
    let p2 = add_if(p1, r.monsters_produced > 0, "魔獣生産+"@ + decimal(r.monsters_produced as nat));
    let p3 = add_if(p2, r.explorations_collected > 0, "探索回収×"@ + decimal(r.explorations_collected as nat));
    let p4 = match r.exploration_started {
        Some(t) => p3.push("探索派遣→"@ + t@),
        None => p3,
    };
    let p5 = match r.attack {
        Some((from, to)) => p4.push("攻撃 "@ + from@ + "→"@ + to@),
        None => p4,
    };
    let p6 = add_if(p5, r.market_purchase, "市場購入"@);
    add_if(p6, r.stats_allocated_slots > 0, "育成×"@ + decimal(r.stats_allocated_slots as nat))
}

/// The parts joined with single spaces.
pub open spec fn join_spaced(parts: Seq<Seq<char>>) -> Seq<char>
    decreases parts.len(),
{
    if parts.len() == 0 {
        seq![]
    } else if parts.len() == 1 {
        parts[0]
    } else {
        join_spaced(parts.drop_last()) + " "@ + parts.last()
    }
}

/// The summary line of a turn: its parts joined by spaces, or "待機" when nothing happened.
pub open spec fn summary_spec(r: AiTurnReport) -> Seq<char> {
    if summary_parts(r).len() == 0 {
        "待機"@
    } else {
        join_spaced(summary_parts(r))
    }
}

fn add_part(out: &mut Vec<char>, parts: Ghost<Seq<Seq<char>>>, any: bool, part: &Vec<char>)
    requires
        old(out)@ == join_spaced(parts@),
        any == (parts@.len() > 0),
    ensures
        final(out)@ == join_spaced(parts@.push(part@)),
{
    let ghost ps = parts@;
    proof {
        assert(ps.push(part@).drop_last() =~= ps);
    }
    if any {
        push_str_chars(out, " ");
    }
    let mut i: usize = 0;
    let ghost base = out@;
    while i < part.len()
        invariant
            i <= part@.len(),
            out@ == base + part@.take(i as int),
        decreases part@.len() - i,
    {
        out.push(part[i]);
        i += 1;
        proof {
            assert(out@ =~= base + part@.take(i as int));
        }
    }
    proof {
        assert(part@.take(part@.len() as int) =~= part@);
        if ps.len() == 0 {
            assert(out@ =~= part@);
        }
    }
}

fn labeled(label: &str, tail: &str) -> (v: Vec<char>)
    ensures
        v@ == label@ + tail@,
{
    let mut v: Vec<char> = Vec::new();
    push_str_chars(&mut v, label);
    push_str_chars(&mut v, tail);
    v
}

fn labeled_number(label: &str, n: u32) -> (v: Vec<char>)
    ensures
        v@ == label@ + decimal(n as nat),
{
    let mut v: Vec<char> = Vec::new();
    push_str_chars(&mut v, label);
    push_decimal(n as u64, &mut v);
    v
}

impl AiTurnReport {
    /// One line for the server log (see [`summary_spec`]).
    pub fn summarize(&self) -> (s: String)
        ensures
            s@ == summary_spec(*self),
    {
        let mut out: Vec<char> = Vec::new();
        let ghost mut parts: Seq<Seq<char>> = seq![];
        let mut any = false;
        if let Some(facility_id) = &self.facility_built {
            let p = labeled("施設=", facility_id.as_str());
            add_part(&mut out, Ghost(parts), any, &p);
            any = true;
            proof { parts = parts.push(p@); }
        }
        if self.monsters_produced > 0 {
            let p = labeled_number("魔獣生産+", self.monsters_produced);
            add_part(&mut out, Ghost(parts), any, &p);
            any = true;
            proof { parts = parts.push(p@); }
        }
        if self.explorations_collected > 0 {
            let p = labeled_number("探索回収×", self.explorations_collected);
            add_part(&mut out, Ghost(parts), any, &p);
            any = true;
            proof { parts = parts.push(p@); }
        }
        if let Some(territory_id) = &self.exploration_started {
            let p = labeled("探索派遣→", territory_id.as_str());
            add_part(&mut out, Ghost(parts), any, &p);
            any = true;
            proof { parts = parts.push(p@); }
        }
        if let Some((from, to)) = &self.attack {
            let mut p = labeled("攻撃 ", from.as_str());
            push_str_chars(&mut p, "→");
            push_str_chars(&mut p, to.as_str());
            add_part(&mut out, Ghost(parts), any, &p);
            any = true;
            proof { parts = parts.push(p@); }
        }
        if self.market_purchase {
            let p = chars_of("市場購入");
            add_part(&mut out, Ghost(parts), any, &p);
            any = true;
            proof { parts = parts.push(p@); }
        }
        if self.stats_allocated_slots > 0 {
            let p = labeled_number("育成×", self.stats_allocated_slots);
            add_part(&mut out, Ghost(parts), any, &p);
            any = true;
            proof { parts = parts.push(p@); }
        }
        proof {
            assert(parts =~= summary_parts(*self));
        }
        if !any {
            "待機".to_owned()
        } else {
            string_from_chars(&out)
        }
    }
}

/// The even split of `unspent` status points over the five statistics: each gets
/// `unspent / 5`, and the remainder goes one point each to speed, attack, intelligence,
/// defense and magic defense, in that order.
pub open spec fn balanced_spec(unspent: u32) -> CardStatBonuses {
    let base = unspent / 5;
    let rem = unspent % 5;
    CardStatBonuses {
        speed: (base + if rem > 0 { 1int } else { 0int }) as u32,
        attack: (base + if rem > 1 { 1int } else { 0int }) as u32,
        intelligence: (base + if rem > 2 { 1int } else { 0int }) as u32,
        defense: (base + if rem > 3 { 1int } else { 0int }) as u32,
        magic_defense: base as u32,
    }
}

/// Splits unspent status points evenly over the five statistics (see [`balanced_spec`]).
pub fn balanced_stat_delta(unspent: u32) -> (d: CardStatBonuses)
    ensures
        d == balanced_spec(unspent),
{
    if unspent == 0 {
        return CardStatBonuses::default();
    }
    let base = unspent / 5;
    let remainder = unspent % 5;
    let mut values: [u32; 5] = [base; 5];
    let mut i: usize = 0;
    while i < remainder as usize
        invariant
            i <= remainder < 5,
            base == unspent / 5,
            forall|k: int| 0 <= k < 5 ==> values@[k] == base + if k < i { 1int } else { 0int },
        decreases remainder - i,
    {
        values[i] = values[i] + 1;
        i += 1;
    }
    CardStatBonuses {
        speed: values[0],
        attack: values[1],
        intelligence: values[2],
        defense: values[3],
        magic_defense: values[4],
    }
}

/// Law: the even split spends exactly the unspent points, and no two statistics differ by
/// more than one point.
pub proof fn lemma_balanced_split(unspent: u32)
    ensures
        total_spec(balanced_spec(unspent)) == unspent,
        ({
            let d = balanced_spec(unspent);
            &&& d.magic_defense <= d.defense <= d.intelligence <= d.attack <= d.speed
            &&& d.speed <= d.magic_defense + 1
        }),
{
}

/// Facilities an AI builds first, in order (resources first).
pub open spec fn ai_facility_priorities() -> Seq<Seq<char>> {
    seq!["field"@, "lumber_mill"@, "quarry"@, "ironworks"@, "warehouse"@, "stronghold"@]
}

/// The player has a facility with id `id`.
pub open spec fn has_facility(fs: Seq<BuiltFacilityView>, id: Seq<char>) -> bool {
    exists|i: int| 0 <= i < fs.len() && fs[i].facility_id == id
}

/// The first facility of `pr`, from position `k` on, that the player has none of.
pub open spec fn next_from(fs: Seq<BuiltFacilityView>, pr: Seq<Seq<char>>, k: int) -> Option<Seq<char>>
    decreases pr.len() - k,
{
    if k < 0 || k >= pr.len() {
        None
    } else if !has_facility(fs, pr[k]) {
        Some(pr[k])
    } else {
        next_from(fs, pr, k + 1)
    }
}

/// The first priority facility the player has none of.
pub open spec fn next_facility_spec(fs: Seq<BuiltFacilityView>) -> Option<Seq<char>> {
    next_from(fs, ai_facility_priorities(), 0)
}

fn has_facility_id(facilities: &Vec<BuiltFacility>, id: &str) -> (r: bool)
    ensures
        r == has_facility(views(facilities@), id@),
{
    let mut i: usize = 0;
    while i < facilities.len()
        invariant
            i <= facilities@.len(),
            forall|k: int| 0 <= k < i ==> facilities@[k].facility_id@ != id@,
        decreases facilities@.len() - i,
    {
        if crate::text::str_eq(facilities[i].facility_id.as_str(), id) {
            proof {
                assert(views(facilities@)[i as int].facility_id == id@);
            }
            return true;
        }
        i += 1;
    }
    proof {
        assert forall|k: int| 0 <= k < views(facilities@).len() implies views(facilities@)[k].facility_id != id@ by {
            assert(views(facilities@)[k] == facilities@[k]@);
        }
    }
    false
}

/// The next facility an AI builds: the first of field, lumber mill, quarry, ironworks,
/// warehouse and stronghold that it has none of.
pub fn next_facility_to_build(player: &PlayerData) -> (r: Option<String>)
    ensures
        match r {
            Some(id) => next_facility_spec(player@.facilities) == Some(id@),
            None => next_facility_spec(player@.facilities) is None,
        },
{
    let ids: [&str; 6] = ["field", "lumber_mill", "quarry", "ironworks", "warehouse", "stronghold"];
    let ghost pr = ai_facility_priorities();
    proof {
        assert(ids@.map_values(|s: &str| s@) =~= pr);
    }
    let mut k: usize = 0;
    while k < 6
        invariant
            k <= 6,
            ids@.map_values(|s: &str| s@) == pr,
            pr == ai_facility_priorities(),
            next_facility_spec(player@.facilities) == next_from(player@.facilities, pr, k as int),
        decreases 6 - k,
    {
        let id = ids[k];
        proof {
            assert(id@ == pr[k as int]);
        }
        if !has_facility_id(&player.facilities, id) {
            return Some(id.to_owned());
        }
        k += 1;
    }
    None
}

/// A facility build went through: there are more facilities than before, or some facility now
/// is new, of a higher level, or has another completion time.
pub open spec fn build_succeeded_spec(before: Seq<BuiltFacilityView>, after: Seq<BuiltFacilityView>) -> bool {
    after.len() > before.len() || exists|a: int| 0 <= a < after.len() && #[trigger] changed_facility(before, after[a])
}

/// `b` is the first facility of `fs` with id `id`.
pub open spec fn is_first_facility(fs: Seq<BuiltFacilityView>, id: Seq<char>, b: int) -> bool {
    0 <= b < fs.len() && fs[b].facility_id == id && forall|j: int| 0 <= j < b ==> fs[j].facility_id != id
}

/// Facility `f` is new, or of a higher level or another completion time than the first one
/// with its id in `before`.
pub open spec fn changed_facility(before: Seq<BuiltFacilityView>, f: BuiltFacilityView) -> bool {
    (forall|j: int| 0 <= j < before.len() ==> before[j].facility_id != f.facility_id) || exists|b: int|
        #[trigger] is_first_facility(before, f.facility_id, b) && (f.level > before[b].level
            || f.build_complete_at != before[b].build_complete_at)
}

fn find_facility(fs: &[BuiltFacility], id: &str) -> (r: Option<usize>)
    ensures
        match r {
            Some(i) => is_first_facility(views(fs@), id@, i as int),
            None => forall|j: int| 0 <= j < fs@.len() ==> views(fs@)[j].facility_id != id@,
        },
{
    let ghost v = views(fs@);
    let mut i: usize = 0;
    while i < fs.len()
        invariant
            i <= fs@.len(),
            v == views(fs@),
            forall|k: int| 0 <= k < i ==> v[k].facility_id != id@,
        decreases fs@.len() - i,
    {
        if crate::text::str_eq(fs[i].facility_id.as_str(), id) {
            return Some(i);
        }
        i += 1;
    }
    None
}

/// Whether a facility build went through (see [`build_succeeded_spec`]); false when either
/// side is missing.
pub fn facility_build_succeeded(before: Option<&[BuiltFacility]>, after_player: Option<&PlayerData>) -> (r: bool)
    ensures
        r == match (before, after_player) {
            (Some(b), Some(a)) => build_succeeded_spec(views(b@), a@.facilities),
            _ => false,
        },
{
    let bf = match before {
        Some(b) => b,
        None => return false,
    };
    let ap = match after_player {
        Some(a) => a,
        None => return false,
    };
    if ap.facilities.len() > bf.len() {
        return true;
    }
    let ghost bv = views(bf@);
    let ghost av = ap@.facilities;
    let mut a: usize = 0;
    while a < ap.facilities.len()
        invariant
            a <= ap.facilities@.len(),
            av == ap@.facilities,
            bv == views(bf@),
            before == Some(bf),
            after_player == Some(ap),
            forall|k: int| 0 <= k < a ==> !changed_facility(bv, #[trigger] av[k]),
        decreases ap.facilities@.len() - a,
    {
        let fa = &ap.facilities[a];
        proof {
            assert(av[a as int] == fa@);
        }
        match find_facility(bf, fa.facility_id.as_str()) {
            None => {
                proof {
                    assert(av.len() == ap.facilities@.len());
                    assert(changed_facility(bv, av[a as int]));
                    assert(build_succeeded_spec(bv, av));
                }
                return true;
            },
            Some(b) => {
                proof {
                    assert(bv[b as int] == bf@[b as int]@);
                }
                if fa.level > bf[b].level || fa.build_complete_at != bf[b].build_complete_at {
                    proof {
                        assert(is_first_facility(bv, fa@.facility_id, b as int));
                        assert(changed_facility(bv, av[a as int]));
                        assert(av.len() == ap.facilities@.len());
                        assert(build_succeeded_spec(bv, av));
                    }
                    return true;
                }
                proof {
                    assert forall|b2: int| #[trigger] is_first_facility(bv, fa@.facility_id, b2) implies b2 == b by {
                        if b2 < b {
                            assert(bv[b2].facility_id == fa@.facility_id);
                        } else if b2 > b {
                            assert(bv[b as int].facility_id == fa@.facility_id);
                        }
                    }
                    assert(!changed_facility(bv, av[a as int]));
                }
            },
        }
        a += 1;
    }
    false
}

/// Milliseconds an AI avoids a tile after a failed attack on it.
pub const AI_ATTACK_COOLDOWN_MS: u64 = 300_000;

/// Milliseconds an AI spends on production instead of attacks after a failed attack.
pub const AI_RECOVERY_MS: u64 = 180_000;

/// The tile is on cooldown for the AI at `now`.
pub open spec fn on_cooldown(cds: Seq<(Seq<char>, u64)>, target: Seq<char>, now: u64) -> bool {
    exists|i: int| 0 <= i < cds.len() && cds[i].0 == target && cds[i].1 > now
}

/// Whether the AI still avoids `target_id` at `now`.
pub fn target_on_cooldown(player: &PlayerData, target_id: &str, now: u64) -> (r: bool)
    ensures
        r == on_cooldown(player@.ai_attack_cooldowns, target_id@, now),
{
    let ghost cds = player@.ai_attack_cooldowns;
    let mut i: usize = 0;
    while i < player.ai_attack_cooldowns.len()
        invariant
            i <= player.ai_attack_cooldowns@.len(),
            cds == player@.ai_attack_cooldowns,
            forall|k: int| 0 <= k < i ==> !(cds[k].0 == target_id@ && cds[k].1 > now),
        decreases player.ai_attack_cooldowns@.len() - i,
    {
        let (id, until) = &player.ai_attack_cooldowns[i];
        proof {
            assert(cds[i as int] == (id@, *until));
        }
        if crate::text::str_eq(id.as_str(), target_id) && *until > now {
            return true;
        }
        i += 1;
    }
    false
}

/// The cooldowns still running at `now`, in order.
pub open spec fn live_cooldowns(cds: Seq<(Seq<char>, u64)>, now: u64) -> Seq<(Seq<char>, u64)> {
    cds.filter(|c: (Seq<char>, u64)| c.1 > now)
}

/// Drops the cooldowns that have run out by `now`.
pub fn prune_ai_attack_cooldowns(player: &mut PlayerData, now: u64)
    ensures
        final(player)@ == (PlayerView {
            ai_attack_cooldowns: live_cooldowns(old(player)@.ai_attack_cooldowns, now),
            ..old(player)@
        }),
{
    let ghost cds = old(player)@.ai_attack_cooldowns;
    let mut kept: Vec<(String, u64)> = Vec::new();
    let mut i: usize = 0;
    while i < player.ai_attack_cooldowns.len()
        invariant
            i <= player.ai_attack_cooldowns@.len(),
            player@ == old(player)@,
            cds == player@.ai_attack_cooldowns,
            views(kept@) == live_cooldowns(cds.take(i as int), now),
        decreases player.ai_attack_cooldowns@.len() - i,
    {
        let (id, until) = &player.ai_attack_cooldowns[i];
        proof {
            assert(cds[i as int] == (id@, *until));
            assert(cds.take(i + 1).drop_last() =~= cds.take(i as int));
            reveal(Seq::filter);
        }
        if *until > now {
            let ghost before = views(kept@);
            kept.push((id.clone(), *until));
            proof {
                assert(views(kept@) =~= before.push((id@, *until)));
            }
        }
        i += 1;
    }
    proof {
        assert(cds.take(cds.len() as int) =~= cds);
    }
    player.ai_attack_cooldowns = kept;
}

/// Whether the AI is still recovering from a failed attack at `now`.
pub fn is_ai_recovering(player: &PlayerData, now: u64) -> (r: bool)
    ensures
        r == (player.ai_recover_until > now),
{
    player.ai_recover_until > now
}

/// The first cooldown entry for `target`.
pub open spec fn first_cd(s: Seq<(Seq<char>, u64)>, target: Seq<char>) -> Option<int>
    decreases s.len(),
{
    if s.len() == 0 {
        None
    } else if s[0].0 == target {
        Some(0)
    } else {
        match first_cd(s.drop_first(), target) {
            Some(i) => Some(i + 1),
            None => None,
        }
    }
}

proof fn lemma_first_cd(s: Seq<(Seq<char>, u64)>, target: Seq<char>, i: int)
    requires
        0 <= i <= s.len(),
        forall|j: int| 0 <= j < i ==> s[j].0 != target,
    ensures
        i < s.len() && s[i].0 == target ==> first_cd(s, target) == Some(i),
        i == s.len() ==> first_cd(s, target) is None,
    decreases i,
{
    if i > 0 {
        lemma_first_cd(s.drop_first(), target, i - 1);
    } else if s.len() > 0 && s[0].0 != target {
    }
}

/// The larger of two times.
pub open spec fn max_u64(a: u64, b: u64) -> u64 {
    if a >= b { a } else { b }
}

/// The AI's state after the outcome of an attack on `target` at `now` (only AI players keep
/// such state). Run-out cooldowns are dropped first. A conquest lifts the tile's cooldown and
/// ends a recovery that is over; a failure records the tile as the last target, puts it on
/// cooldown for 5 minutes (keeping a longer one) and makes the AI recover for 3 minutes
/// (keeping a longer recovery).
pub open spec fn attack_outcome_spec(old: PlayerView, target: Seq<char>, conquered: bool, now: u64) -> PlayerView {
    if !is_ai_id(old.player_id) {
        old
    } else {
        let pruned = live_cooldowns(old.ai_attack_cooldowns, now);
        if conquered {
            PlayerView {
                ai_attack_cooldowns: pruned.filter(|c: (Seq<char>, u64)| c.0 != target),
                ai_recover_until: if old.ai_recover_until <= now { 0 } else { old.ai_recover_until },
                ..old
            }
        } else {
            let until = (now + AI_ATTACK_COOLDOWN_MS) as u64;
            PlayerView {
                ai_attack_cooldowns: match first_cd(pruned, target) {
                    Some(i) => pruned.update(i, (target, max_u64(pruned[i].1, until))),
                    None => pruned.push((target, until)),
                },
                ai_recover_until: max_u64(old.ai_recover_until, (now + AI_RECOVERY_MS) as u64),
                ai_last_attack_target: Some(target),
                ..old
            }
        }
    }
}

fn drop_cooldowns_of(player: &mut PlayerData, target_id: &str)
    ensures
        final(player)@ == (PlayerView {
            ai_attack_cooldowns: old(player)@.ai_attack_cooldowns.filter(|c: (Seq<char>, u64)| c.0 != target_id@),
            ..old(player)@
        }),
{
    let ghost cds = old(player)@.ai_attack_cooldowns;
    let mut kept: Vec<(String, u64)> = Vec::new();
    let mut i: usize = 0;
    while i < player.ai_attack_cooldowns.len()
        invariant
            i <= player.ai_attack_cooldowns@.len(),
            player@ == old(player)@,
            cds == player@.ai_attack_cooldowns,
            views(kept@) == cds.take(i as int).filter(|c: (Seq<char>, u64)| c.0 != target_id@),
        decreases player.ai_attack_cooldowns@.len() - i,
    {
        let (id, until) = &player.ai_attack_cooldowns[i];
        proof {
            assert(cds[i as int] == (id@, *until));
            assert(cds.take(i + 1).drop_last() =~= cds.take(i as int));
            reveal(Seq::filter);
        }
        if !crate::text::str_eq(id.as_str(), target_id) {
            let ghost before = views(kept@);
            kept.push((id.clone(), *until));
            proof {
                assert(views(kept@) =~= before.push((id@, *until)));
            }
        }
        i += 1;
    }
    proof {
        assert(cds.take(cds.len() as int) =~= cds);
    }
    player.ai_attack_cooldowns = kept;
}

/// Records the outcome of an AI attack on `target_id` at `now` (see [`attack_outcome_spec`]);
/// human players are left untouched.
pub fn record_ai_attack_outcome(player: &mut PlayerData, target_id: &str, conquered: bool, now: u64)
    requires
        !conquered && is_ai_id(old(player).player_id@) ==> now + AI_ATTACK_COOLDOWN_MS <= u64::MAX,
    ensures
        final(player)@ == attack_outcome_spec(old(player)@, target_id@, conquered, now),
{
    if !is_ai_player_id(player.player_id.as_str()) {
        return;
    }
    prune_ai_attack_cooldowns(player, now);
    if conquered {
        drop_cooldowns_of(player, target_id);
        if player.ai_recover_until <= now {
            player.ai_recover_until = 0;
        }
    } else {
        player.ai_last_attack_target = Some(target_id.to_owned());
        let until = now + AI_ATTACK_COOLDOWN_MS;
        let ghost cds = player@.ai_attack_cooldowns;
        let mut i: usize = 0;
        let mut found = false;
        while i < player.ai_attack_cooldowns.len()
            invariant_except_break
                !found,
            invariant
                i <= player.ai_attack_cooldowns@.len(),
                cds == player@.ai_attack_cooldowns,
                forall|j: int| 0 <= j < i ==> cds[j].0 != target_id@,
            ensures
                i <= player.ai_attack_cooldowns@.len(),
                cds == player@.ai_attack_cooldowns,
                forall|j: int| 0 <= j < i ==> cds[j].0 != target_id@,
                found ==> i < cds.len() && cds[i as int].0 == target_id@,
                !found ==> i == cds.len(),
            decreases player.ai_attack_cooldowns@.len() - i,
        {
            if crate::text::str_eq(player.ai_attack_cooldowns[i].0.as_str(), target_id) {
                proof {
                    assert(cds[i as int].0 == player.ai_attack_cooldowns@[i as int].0@);
                }
                found = true;
                break;
            }
            proof {
                assert(cds[i as int].0 == player.ai_attack_cooldowns@[i as int].0@);
            }
            i += 1;
        }
        proof {
            lemma_first_cd(cds, target_id@, i as int);
        }
        if found {
            let old_until = player.ai_attack_cooldowns[i].1;
            let new_until = if old_until >= until { old_until } else { until };
            let ghost before = player@.ai_attack_cooldowns;
            player.ai_attack_cooldowns.set(i, (target_id.to_owned(), new_until));
            proof {
                assert(views(player.ai_attack_cooldowns@) =~= before.update(i as int, (target_id@, new_until)));
            }
        } else {
            let ghost before = player@.ai_attack_cooldowns;
            player.ai_attack_cooldowns.push((target_id.to_owned(), until));
            proof {
                assert(views(player.ai_attack_cooldowns@) =~= before.push((target_id@, until)));
            }
        }
        let rec = now + AI_RECOVERY_MS;
        if player.ai_recover_until < rec {
            player.ai_recover_until = rec;
        }
    }
}

/// Law: after a failed attack an AI is recovering just after `now`, the tile is on cooldown
/// and remembered as the last target.
pub proof fn lemma_failed_attack_cools_down(old: PlayerView, target: Seq<char>, now: u64)
    requires
        is_ai_id(old.player_id),
        now + AI_ATTACK_COOLDOWN_MS <= u64::MAX,
    ensures
        ({
            let new = attack_outcome_spec(old, target, false, now);
            &&& new.ai_recover_until > now + 1
            &&& on_cooldown(new.ai_attack_cooldowns, target, now)
            &&& new.ai_last_attack_target == Some(target)
        }),
{
    let pruned = live_cooldowns(old.ai_attack_cooldowns, now);
    let new = attack_outcome_spec(old, target, false, now);
    lemma_first_cd_some(pruned, target);
    match first_cd(pruned, target) {
        Some(i) => {
            assert(new.ai_attack_cooldowns[i].0 == target);
        },
        None => {
            assert(new.ai_attack_cooldowns[pruned.len() as int].0 == target);
        },
    }
}

proof fn lemma_first_cd_some(s: Seq<(Seq<char>, u64)>, target: Seq<char>)
    ensures
        first_cd(s, target) matches Some(i) ==> 0 <= i < s.len() && s[i].0 == target,
    decreases s.len(),
{
    if s.len() > 0 {
        lemma_first_cd_some(s.drop_first(), target);
    }
}

/// Law: after a conquest the tile is no longer on cooldown.
pub proof fn lemma_conquest_lifts_cooldown(old: PlayerView, target: Seq<char>, now: u64)
    requires
        is_ai_id(old.player_id),
    ensures
        !on_cooldown(attack_outcome_spec(old, target, true, now).ai_attack_cooldowns, target, now),
{
    let pruned = live_cooldowns(old.ai_attack_cooldowns, now);
    let kept = pruned.filter(|c: (Seq<char>, u64)| c.0 != target);
    broadcast use vstd::seq_lib::group_filter_ensures;
    assert forall|i: int| 0 <= i < kept.len() implies kept[i].0 != target by {
        assert(kept.contains(kept[i]));
    }
}

/// The personality's name in the server log.
pub fn personality_label(personality: AiPersonality) -> (s: &'static str)
    ensures
        s@ == match personality {
            AiPersonality::Aggressive => "aggressive"@,
            AiPersonality::Balanced => "balanced"@,
            AiPersonality::Defensive => "defensive"@,
        },
{
    match personality {
        AiPersonality::Aggressive => "aggressive",
        AiPersonality::Balanced => "balanced",
        AiPersonality::Defensive => "defensive",
    }
}

/// The player id an AI faction plays under: "ai_" followed by the faction id.
pub open spec fn faction_player_id(faction_id: Seq<char>) -> Seq<char> {
    "ai_"@ + faction_id
}

/// `i` is the first faction that plays as `ai_id`.
pub open spec fn is_first_faction(fs: Seq<(Seq<char>, Seq<char>, AiPersonality, Seq<char>, u32)>, ai_id: Seq<char>, i: int) -> bool {
    0 <= i < fs.len() && faction_player_id(fs[i].0) == ai_id && forall|j: int| 0 <= j < i ==> faction_player_id(fs[j].0) != ai_id
}

/// The display name of the AI playing as `ai_id`: the name of the first faction whose player id
/// it is, or the id itself.
pub fn faction_display_name(factions: &Vec<AiFaction>, ai_id: &str) -> (name: String)
    ensures
        (exists|i: int| is_first_faction(views(factions@), ai_id@, i) && name@ == factions@[i].name@)
            || ((forall|j: int| 0 <= j < factions@.len() ==> faction_player_id(factions@[j].faction_id@) != ai_id@) && name@ == ai_id@),
{
    let ghost fs = views(factions@);
    let mut i: usize = 0;
    while i < factions.len()
        invariant
            i <= factions@.len(),
            fs == views(factions@),
            forall|j: int| 0 <= j < i ==> faction_player_id(factions@[j].faction_id@) != ai_id@,
        decreases factions@.len() - i,
    {
        let mut pid: Vec<char> = Vec::new();
        push_str_chars(&mut pid, "ai_");
        push_str_chars(&mut pid, factions[i].faction_id.as_str());
        if crate::text::chars_eq(&pid, &chars_of(ai_id)) {
            proof {
                assert(fs[i as int].0 == factions@[i as int].faction_id@);
                assert(forall|j: int| 0 <= j < i ==> fs[j].0 == factions@[j].faction_id@);
                assert(is_first_faction(fs, ai_id@, i as int));
            }
            return factions[i].name.clone();
        }
        i += 1;
    }
    ai_id.to_owned()
}

/// Formation slots [front, middle, leader] for one to three owned slots: one goes to the
/// leader; two to the front and the leader; three in order; any other count leaves all empty.
pub open spec fn formed_indices_spec(slots: Seq<usize>) -> Seq<i32> {
    if slots.len() == 1 {
        seq![-1i32, -1i32, slots[0] as i32]
    } else if slots.len() == 2 {
        seq![slots[0] as i32, -1i32, slots[1] as i32]
    } else if slots.len() == 3 {
        seq![slots[0] as i32, slots[1] as i32, slots[2] as i32]
    } else {
        seq![-1i32, -1i32, -1i32]
    }
}

/// Assigns owned slots to the formation slots [front, middle, leader] (see
/// [`formed_indices_spec`]).
pub fn slots_to_formed_indices(slots: &[usize]) -> (out: [i32; 3])
    ensures
        out@ == formed_indices_spec(slots@),
{
    let mut out: [i32; 3] = [-1i32; 3];
    if slots.len() == 1 {
        out[2] = #[verifier::truncate] (slots[0] as i32);
    } else if slots.len() == 2 {
        out[0] = #[verifier::truncate] (slots[0] as i32);
        out[2] = #[verifier::truncate] (slots[1] as i32);
    } else if slots.len() == 3 {
        out[0] = #[verifier::truncate] (slots[0] as i32);
        out[1] = #[verifier::truncate] (slots[1] as i32);
        out[2] = #[verifier::truncate] (slots[2] as i32);
    }
    proof {
        assert(out@ =~= formed_indices_spec(slots@));
    }
    out
}

/// `t` occurs in `s` as a contiguous run.
pub open spec fn contains_sub(s: Seq<char>, t: Seq<char>) -> bool {
    exists|i: int| 0 <= i <= s.len() - t.len() && #[trigger] s.subrange(i, i + t.len()) == t
}

/// Whether `t` occurs in `s`.
pub fn str_contains(s: &str, t: &str) -> (r: bool)
    ensures
        r == contains_sub(s@, t@),
{
    let a = chars_of(s);
    let b = chars_of(t);
    if b.len() > a.len() {
        return false;
    }
    let lim = a.len() - b.len();
    let mut i: usize = 0;
    loop
        invariant
            a@ == s@,
            b@ == t@,
            b@.len() <= a@.len(),
            lim + b@.len() == a@.len(),
            i <= lim,
            forall|k: int| 0 <= k < i ==> #[trigger] a@.subrange(k, k + b@.len()) != b@,
        decreases lim - i,
    {
        let mut j: usize = 0;
        let mut same = true;
        while j < b.len()
            invariant
                i <= lim,
                lim + b@.len() == a@.len(),
                j <= b@.len(),
                same == forall|m: int| 0 <= m < j ==> a@[i + m] == b@[m],
            decreases b@.len() - j,
        {
            assert(i + j < a.len());
            if a[i + j] != b[j] {
                same = false;
            }
            j += 1;
        }
        if same {
            proof {
                assert(a@.subrange(i as int, i + b@.len()) =~= b@);
            }
            return true;
        }
        proof {
            let k = choose|m: int| 0 <= m < b@.len() && a@[i + m] != b@[m];
            assert(a@.subrange(i as int, i + b@.len())[k] != b@[k]);
        }
        if i == lim {
            return false;
        }
        i += 1;
    }
}

/// The name of a card, or the empty name for an unknown card.
pub open spec fn card_name_spec(id: u32) -> Seq<char> {
    match card_spec(id) {
        Some(c) => c.name@,
        None => seq![],
    }
}

/// A card counters a defender: Odin-named cards against skeletons, cards from id 12 on
/// against goblins.
pub open spec fn counter_spec(attacker_card_id: u32, defender_name: Seq<char>) -> bool {
    (contains_sub(defender_name, "スケルトン"@) && contains_sub(card_name_spec(attacker_card_id), "オーディン"@))
        || (contains_sub(defender_name, "ゴブリン"@) && attacker_card_id >= 12)
}

/// Whether a card counters a defender (see [`counter_spec`]).
pub fn counter_bonus(attacker_card_id: u32, defender_name: &str) -> (r: bool)
    ensures
        r == counter_spec(attacker_card_id, defender_name@),
{
    let atk_name: &str = match get_card(attacker_card_id) {
        Some(c) => c.name,
        None => "",
    };
    proof {
        reveal_strlit("");
        assert(atk_name@ == card_name_spec(attacker_card_id));
    }
    if str_contains(defender_name, "スケルトン") && str_contains(atk_name, "オーディン") {
        return true;
    }
    if str_contains(defender_name, "ゴブリン") && attacker_card_id >= 12 {
        return true;
    }
    false
}

/// The card of owned slot `idx` (card 0 off the list).
pub open spec fn card_at(p: PlayerView, idx: usize) -> u32 {
    if idx < p.owned_cards.len() { p.owned_cards[idx as int] } else { 0 }
}

/// The monsters of owned slot `idx` (1 off the list).
pub open spec fn monsters_at(p: PlayerView, idx: usize) -> u32 {
    if idx < p.card_monster_counts.len() { p.card_monster_counts[idx as int] } else { 1 }
}

/// What one body adds to a formation's score: attack, a tenth of the defense (10 and 100 for
/// an unknown card) and the monster count up to 500.
pub open spec fn body_score(p: PlayerView, idx: usize) -> int {
    let c = card_spec(card_at(p, idx));
    let atk: int = match c { Some(c) => c.stats.attack as int, None => 10 };
    let hp: int = match c { Some(c) => c.stats.defense as int, None => 100 };
    let mc = monsters_at(p, idx) as int;
    atk + hp / 10 + if mc < 500 { mc } else { 500 }
}

/// The bodies' scores, less 50 for every body whose card already appeared earlier.
pub open spec fn bodies_score(p: PlayerView, idx: Seq<usize>) -> int
    decreases idx.len(),
{
    if idx.len() == 0 {
        0
    } else {
        let rest = idx.drop_last();
        let k = idx.last();
        let dup = exists|j: int| 0 <= j < rest.len() && card_at(p, rest[j]) == card_at(p, k);
        bodies_score(p, rest) + body_score(p, k) - if dup { 50int } else { 0int }
    }
}

/// The counter bonus of the bodies against one defender: 30 plus five times its monsters
/// (1 when unknown) per countering body.
pub open spec fn counters_vs(p: PlayerView, idx: Seq<usize>, name: Seq<char>, power: int) -> int
    decreases idx.len(),
{
    if idx.len() == 0 {
        0
    } else {
        counters_vs(p, idx.drop_last(), name, power) + if counter_spec(card_at(p, idx.last()), name) {
            30 + power
        } else {
            0
        }
    }
}

/// The counter bonuses against all defenders.
pub open spec fn counters_all(p: PlayerView, idx: Seq<usize>, names: Seq<Seq<char>>, counts: Seq<u32>) -> int
    decreases names.len(),
{
    if names.len() == 0 {
        0
    } else {
        let i = names.len() - 1;
        let power = (if i < counts.len() { counts[i] as int } else { 1 }) * 5;
        counters_all(p, idx, names.drop_last(), counts) + counters_vs(p, idx, names.last(), power)
    }
}

/// How well a formation fares against a garrison.
pub open spec fn formation_score_spec(p: PlayerView, idx: Seq<usize>, names: Seq<Seq<char>>, counts: Seq<u32>) -> int {
    bodies_score(p, idx) + counters_all(p, idx, names, counts)
}

proof fn lemma_bodies_score_bounds(p: PlayerView, idx: Seq<usize>)
    ensures
        -50 * idx.len() <= bodies_score(p, idx) <= idx.len() * 5_000_000_000,
    decreases idx.len(),
{
    if idx.len() > 0 {
        lemma_bodies_score_bounds(p, idx.drop_last());
        let c = card_spec(card_at(p, idx.last()));
        assert(body_score(p, idx.last()) <= 5_000_000_000);
    }
}

proof fn lemma_counters_vs_bounds(p: PlayerView, idx: Seq<usize>, name: Seq<char>, power: int)
    requires
        0 <= power <= 25_000_000_000,
    ensures
        0 <= counters_vs(p, idx, name, power) <= idx.len() * (30 + power),
    decreases idx.len(),
{
    if idx.len() > 0 {
        lemma_counters_vs_bounds(p, idx.drop_last(), name, power);
        let n = idx.len() as int;
        assert((n - 1) * (30 + power) + (30 + power) == n * (30 + power)) by (nonlinear_arith);
    }
}

fn score_bodies(indices: &[usize], player: &PlayerData) -> (s: i64)
    requires
        indices@.len() <= 1000,
    ensures
        s == bodies_score(player@, indices@),
{
    let ghost p = player@;
    let mut score: i64 = 0;
    let mut k: usize = 0;
    while k < indices.len()
        invariant
            k <= indices@.len() <= 1000,
            p == player@,
            score == bodies_score(p, indices@.take(k as int)),
        decreases indices@.len() - k,
    {
        let idx = indices[k];
        let card_id: u32 = if idx < player.owned_cards.len() { player.owned_cards[idx] } else { 0 };
        let mut dup = false;
        let mut j: usize = 0;
        while j < k
            invariant
                j <= k < indices@.len(),
                p == player@,
                card_id == card_at(p, indices@[k as int]),
                dup == exists|m: int| 0 <= m < j && card_at(p, indices@[m]) == card_id,
            decreases k - j,
        {
            let other = indices[j];
            let oc: u32 = if other < player.owned_cards.len() { player.owned_cards[other] } else { 0 };
            if oc == card_id {
                dup = true;
            }
            proof {
                if oc == card_id {
                    assert(card_at(p, indices@[j as int]) == card_id);
                }
            }
            j += 1;
        }
        let card = get_card(card_id);
        let atk: i64 = match card { Some(c) => c.stats.attack as i64, None => 10 };
        let hp: i64 = match card { Some(c) => c.stats.defense as i64, None => 100 };
        let mc: i64 = if idx < player.card_monster_counts.len() { player.card_monster_counts[idx] as i64 } else { 1 };
        let capped: i64 = if mc < 500 { mc } else { 500 };
        proof {
            lemma_bodies_score_bounds(p, indices@.take(k as int));
            let t = indices@.take(k + 1);
            assert(t.drop_last() =~= indices@.take(k as int));
            assert(t.last() == idx);
            assert((exists|m: int| 0 <= m < t.drop_last().len() && card_at(p, t.drop_last()[m]) == card_at(p, idx)) == dup) by {
                if dup {
                    let m = choose|m: int| 0 <= m < k && card_at(p, indices@[m]) == card_id;
                    assert(t.drop_last()[m] == indices@[m]);
                }
                if exists|m: int| 0 <= m < t.drop_last().len() && card_at(p, t.drop_last()[m]) == card_at(p, idx) {
                    let m = choose|m: int| 0 <= m < t.drop_last().len() && card_at(p, t.drop_last()[m]) == card_at(p, idx);
                    assert(t.drop_last()[m] == indices@[m]);
                }
            }
        }
        score = score + atk + hp / 10 + capped - if dup { 50 } else { 0 };
        k += 1;
    }
    proof {
        assert(indices@.take(indices@.len() as int) =~= indices@);
    }
    score
}

/// How well a formation (owned slots `indices`) fares against defenders with these names and
/// monster counts: see [`formation_score_spec`]. The score is summed in an `i64`; the bound on
/// slots times defenders keeps every partial sum below `i64::MAX` (the sum can first overflow
/// at about 3.7e8 slot-defender pairs).
pub fn score_formation(indices: &[usize], player: &PlayerData, def_names: &[String], def_counts: &[u32]) -> (s: i64)
    requires
        indices@.len() <= 1000,
        indices@.len() * def_names@.len() <= 300_000_000,
    ensures
        s == formation_score_spec(player@, indices@, views(def_names@), def_counts@),
{
    let ghost p = player@;
    let ghost names = views(def_names@);
    let ghost n: int = indices@.len() as int;
    let ghost nn: int = def_names@.len() as int;
    let mut score = score_bodies(indices, player);
    proof {
        lemma_bodies_score_bounds(p, indices@);
    }
    let mut i: usize = 0;
    while i < def_names.len()
        invariant
            i <= def_names@.len(),
            n == indices@.len() <= 1000,
            nn == def_names@.len(),
            n * nn <= 300_000_000,
            p == player@,
            names == views(def_names@),
            score == bodies_score(p, indices@) + counters_all(p, indices@, names.take(i as int), def_counts@),
            -50_000 <= bodies_score(p, indices@) <= 5_000_000_000_000,
            0 <= counters_all(p, indices@, names.take(i as int), def_counts@) <= i * n * (30 + 25_000_000_000),
        decreases def_names@.len() - i,
    {
        let power: i64 = (if i < def_counts.len() { def_counts[i] as i64 } else { 1 }) * 5;
        proof {
            assert(n <= 300_000_000) by (nonlinear_arith)
                requires n * nn <= 300_000_000, i < nn, n >= 0;
        }
        let mut bonus: i64 = 0;
        let mut k: usize = 0;
        while k < indices.len()
            invariant
                k <= indices@.len() == n <= 300_000_000,
                i < def_names@.len(),
                p == player@,
                names == views(def_names@),
                0 <= power <= 25_000_000_000,
                bonus == counters_vs(p, indices@.take(k as int), names[i as int], power as int),
                0 <= bonus <= k * (30 + 25_000_000_000),
            decreases indices@.len() - k,
        {
            let idx = indices[k];
            let card_id: u32 = if idx < player.owned_cards.len() { player.owned_cards[idx] } else { 0 };
            proof {
                assert(indices@.take(k + 1).drop_last() =~= indices@.take(k as int));
                assert(names[i as int] == def_names@[i as int]@);
            }
            proof {
                assert(k * (30 + 25_000_000_000) <= 300_000_000 * (30 + 25_000_000_000)) by (nonlinear_arith)
                    requires k <= 300_000_000;
                assert((k + 1) * (30 + 25_000_000_000) == k * (30 + 25_000_000_000) + (30 + 25_000_000_000)) by (nonlinear_arith);
            }
            if counter_bonus(card_id, def_names[i].as_str()) {
                bonus = bonus + 30 + power;
            }
            k += 1;
        }
        proof {
            assert(indices@.take(indices@.len() as int) =~= indices@);
            assert(names.take(i + 1).drop_last() =~= names.take(i as int));
            lemma_counters_vs_bounds(p, indices@, names[i as int], power as int);
            assert(bonus <= n * (30 + 25_000_000_000)) by (nonlinear_arith)
                requires bonus <= indices@.len() * (30 + 25_000_000_000), n == indices@.len();
            assert((i + 1) * n * (30 + 25_000_000_000) == i * n * (30 + 25_000_000_000) + n * (30 + 25_000_000_000)) by (nonlinear_arith);
            assert((i + 1) * n * (30 + 25_000_000_000) <= 300_000_000 * (30 + 25_000_000_000)) by (nonlinear_arith)
                requires i < nn, n * nn <= 300_000_000, n >= 0, i >= 0;
        }
        score = score + bonus;
        i += 1;
    }
    proof {
        assert(names.take(names.len() as int) =~= names);
    }
    score
}

/// Food kept back for attacks when producing monsters.
pub const AI_FOOD_RESERVE: u64 = 150;

/// Food kept back when producing after a failed attack.
pub const AI_RECOVERY_FOOD_RESERVE: u64 = 50;

/// Food one monster costs to produce.
pub const FOOD_PER_MONSTER_PRODUCE: u64 = 2;

/// What a faction does with one monster slot when producing.
pub enum ProductionStep {
    /// The slot is full: go on with the next.
    Skip,
    /// Not enough food: stop producing.
    Stop,
    /// Produce this many monsters.
    Produce(u32),
}

/// The production step for a slot holding `count` monsters (1 off the list) with `food` food
/// and `reserve` kept back: skip a full slot (9999); stop when the food above the reserve buys
/// no monster at 2 food each; else produce what it buys, at most the room left and at most 25.
pub open spec fn production_step_spec(food: u64, reserve: u64, count: Option<u32>) -> ProductionStep {
    let cur = match count { Some(c) => if c > 9999 { 9999 } else { c }, None => 1 };
    let room = 9999 - cur;
    let spare = if food > reserve { food - reserve } else { 0 };
    let affordable = if spare / 2 < room { spare / 2 } else { room };
    if room == 0 {
        ProductionStep::Skip
    } else if affordable == 0 {
        ProductionStep::Stop
    } else {
        ProductionStep::Produce(if affordable < 25 { affordable as u32 } else { 25 })
    }
}

/// The production step for a slot (see [`production_step_spec`]).
pub fn production_step(food: u64, reserve: u64, count: Option<u32>) -> (r: ProductionStep)
    ensures
        r == production_step_spec(food, reserve, count),
{
    let cap = crate::player::MAX_MONSTER_COUNT_PER_CARD_SLOT;
    let cur: u32 = match count {
        Some(c) => if c > cap { cap } else { c },
        None => 1,
    };
    let room: u32 = cap - cur;
    if room == 0 {
        return ProductionStep::Skip;
    }
    let spare: u64 = food.saturating_sub(reserve);
    let by_food: u64 = spare / FOOD_PER_MONSTER_PRODUCE;
    let affordable: u64 = if by_food < room as u64 { by_food } else { room as u64 };
    if affordable == 0 {
        return ProductionStep::Stop;
    }
    ProductionStep::Produce(if affordable < 25 { affordable as u32 } else { 25 })
}

/// The stat allocations a faction makes: for each owned slot with unspent points (none off the
/// list), the balanced split of them (see [`balanced_spec`]), in slot order.
pub open spec fn stat_allocations_upto(p: PlayerView, m: nat) -> Seq<(usize, CardStatBonuses)>
    decreases m,
{
    if m == 0 {
        seq![]
    } else {
        let rest = stat_allocations_upto(p, (m - 1) as nat);
        let i = (m - 1) as usize;
        let unspent: u32 = if i < p.card_status_points.len() { p.card_status_points[i as int] } else { 0 };
        if unspent == 0 {
            rest
        } else {
            rest.push((i, balanced_spec(unspent)))
        }
    }
}

/// The stat allocations a faction makes (see [`stat_allocations_upto`]).
pub fn ai_stat_allocations(player: &PlayerData) -> (r: Vec<(usize, CardStatBonuses)>)
    ensures
        r@ == stat_allocations_upto(player@, player@.owned_cards.len()),
{
    let n = player.owned_cards.len();
    let mut out: Vec<(usize, CardStatBonuses)> = Vec::new();
    let mut i: usize = 0;
    while i < n
        invariant
            i <= n,
            n == player@.owned_cards.len(),
            out@ == stat_allocations_upto(player@, i as nat),
        decreases n - i,
    {
        let unspent: u32 = if i < player.card_status_points.len() { player.card_status_points[i] } else { 0 };
        if unspent != 0 {
            out.push((i, balanced_stat_delta(unspent)));
        }
        i += 1;
    }
    out
}

/// The listing a faction buys with `gold`: the first listing by a human seller whose price (the
/// price of the first listing with its id) is at most half its gold.
pub open spec fn market_pick_ok(ls: Seq<crate::model::MarketListingView>, gold: u64, r: Option<Seq<char>>) -> bool {
    match r {
        Some(id) => exists|k: int| #[trigger] buyable(ls, gold, k) && ls[k].listing_id == id && forall|j: int| 0 <= j < k ==> !#[trigger] buyable(ls, gold, j),
        None => forall|k: int| !#[trigger] buyable(ls, gold, k),
    }
}

/// Listing `k` is by a human seller at a price (see [`price_of`]) of at most half of `gold`.
pub open spec fn buyable(ls: Seq<crate::model::MarketListingView>, gold: u64, k: int) -> bool {
    0 <= k < ls.len() && !is_ai_id(ls[k].seller_id) && price_of(ls, ls[k].listing_id) <= gold / 2
}

/// The price of the first listing with id `id`; the largest price when there is none.
pub open spec fn price_of(ls: Seq<crate::model::MarketListingView>, id: Seq<char>) -> u64
    decreases ls.len(),
{
    if ls.len() == 0 {
        u64::MAX
    } else if ls[0].listing_id == id {
        ls[0].price
    } else {
        price_of(ls.drop_first(), id)
    }
}

fn listing_price(listings: &Vec<crate::model::MarketListing>, id: &str) -> (p: u64)
    ensures
        p == price_of(views(listings@), id@),
{
    let ghost ls = views(listings@);
    proof {
        assert(ls.skip(0) =~= ls);
    }
    let mut k: usize = 0;
    while k < listings.len()
        invariant
            k <= listings@.len(),
            ls == views(listings@),
            price_of(ls, id@) == price_of(ls.skip(k as int), id@),
        decreases listings@.len() - k,
    {
        proof {
            assert(ls.skip(k as int).drop_first() =~= ls.skip(k + 1));
            assert(ls.skip(k as int)[0] == listings@[k as int]@);
        }
        if crate::text::str_eq(listings[k].listing_id.as_str(), id) {
            return listings[k].price;
        }
        k += 1;
    }
    u64::MAX
}

/// The listing a faction buys with `gold` (see [`market_pick_ok`]).
pub fn ai_market_purchase_choice(listings: &Vec<crate::model::MarketListing>, gold: u64) -> (r: Option<String>)
    ensures
        market_pick_ok(views(listings@), gold, match r {
            Some(s) => Some(s@),
            None => None,
        }),
{
    let ghost ls = views(listings@);
    let mut k: usize = 0;
    while k < listings.len()
        invariant
            k <= listings@.len(),
            ls == views(listings@),
            forall|j: int| 0 <= j < k ==> !#[trigger] buyable(ls, gold, j),
        decreases listings@.len() - k,
    {
        let l = &listings[k];
        proof {
            assert(ls[k as int] == l@);
        }
        if crate::state::is_human_player_id(l.seller_id.as_str()) && listing_price(listings, l.listing_id.as_str()) <= gold / 2 {
            let id = l.listing_id.clone();
            proof {
                assert(buyable(ls, gold, k as int));
                assert(ls[k as int].listing_id == id@);
            }
            return Some(id);
        }
        k += 1;
    }
    None
}

} // verus!
