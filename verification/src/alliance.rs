//! Alliances: founding one, joining, leaving, and donating resources to it.
use vstd::prelude::*;
use crate::formation::{first_player_index, lemma_first_player_index};
use crate::game_log::{log_line, log_lines, push_log_at, push_str_chars};
use crate::model::{find_player, has_player, views, Alliance, AllianceView, Dup, GameState, GameStateView, PlayerData, PlayerView, Resources};
use crate::text::{decimal, push_decimal, str_eq, string_from_chars};

verus! {

/// `pid` is a member of some alliance.
pub open spec fn in_any_alliance(als: Seq<AllianceView>, pid: Seq<char>) -> bool {
    exists|i: int| 0 <= i < als.len() && (#[trigger] als[i]).member_ids.contains(pid)
}

/// `i` is the first alliance with `pid` among its members.
pub open spec fn is_first_membership(als: Seq<AllianceView>, pid: Seq<char>, i: int) -> bool {
    &&& 0 <= i < als.len()
    &&& als[i].member_ids.contains(pid)
    &&& forall|j: int| 0 <= j < i ==> !(#[trigger] als[j]).member_ids.contains(pid)
}

/// `i` is the first alliance with id `id`.
pub open spec fn is_first_alliance_id(als: Seq<AllianceView>, id: Seq<char>, i: int) -> bool {
    &&& 0 <= i < als.len()
    &&& als[i].id == id
    &&& forall|j: int| 0 <= j < i ==> (#[trigger] als[j]).id != id
}

pub open spec fn already_member_message() -> Seq<char> {
    "既に同盟に所属しています。"@
}

pub open spec fn created_message(name: Seq<char>) -> Seq<char> {
    "同盟「"@ + name + "」を結成しました！"@
}

pub open spec fn joined_message(name: Seq<char>) -> Seq<char> {
    "同盟「"@ + name + "」に参加しました！"@
}

pub open spec fn not_found_message() -> Seq<char> {
    "同盟が見つかりません。"@
}

pub open spec fn left_message(name: Seq<char>) -> Seq<char> {
    "同盟「"@ + name + "」を脱退しました。"@
}

pub open spec fn dissolved_message(name: Seq<char>) -> Seq<char> {
    "同盟「"@ + name + "」は解散しました。"@
}

pub open spec fn new_leader_message(leader: Seq<char>) -> Seq<char> {
    "リーダーが"@ + leader + "に引き継がれました。"@
}

/// The alliance that player `pid` founds as the `n`-th: id "alliance_<n>", led by `pid`,
/// with `pid` its only member, at level 1 with nothing donated.
pub open spec fn founded(n: nat, name: Seq<char>, pid: Seq<char>) -> AllianceView {
    AllianceView {
        id: "alliance_"@ + decimal(n),
        name,
        leader_id: pid,
        member_ids: seq![pid],
        territory_points: 0,
        level: 1,
        donated_total: 0,
        parent_alliance_id: None,
        child_alliance_ids: Seq::empty(),
    }
}

/// Founding alliance `name` by `pid`: refused when `pid` already belongs to one, else the
/// alliance is appended. Gives the alliances after it and the line logged.
pub open spec fn create_result(als: Seq<AllianceView>, pid: Seq<char>, name: Seq<char>) -> (Seq<AllianceView>, Seq<char>) {
    if in_any_alliance(als, pid) {
        (als, already_member_message())
    } else {
        (als.push(founded((als.len() + 1) as nat, name, pid)), created_message(name))
    }
}

/// Joining alliance `id` by `pid`: refused when `pid` already belongs to one; else `pid` is
/// appended to the members of the first alliance with that id, if there is one.
pub open spec fn join_result(als: Seq<AllianceView>, pid: Seq<char>, id: Seq<char>) -> (Seq<AllianceView>, Seq<char>) {
    if in_any_alliance(als, pid) {
        (als, already_member_message())
    } else if exists|i: int| is_first_alliance_id(als, id, i) {
        let i = choose|i: int| is_first_alliance_id(als, id, i);
        (als.update(i, AllianceView { member_ids: als[i].member_ids.push(pid), ..als[i] }), joined_message(als[i].name))
    } else {
        (als, not_found_message())
    }
}

/// `ms` without any occurrence of `pid`, in order.
pub open spec fn others(ms: Seq<Seq<char>>, pid: Seq<char>) -> Seq<Seq<char>>
    decreases ms.len(),
{
    if ms.len() == 0 {
        ms
    } else {
        let rest = others(ms.drop_last(), pid);
        if ms.last() == pid {
            rest
        } else {
            rest.push(ms.last())
        }
    }
}

/// The alliances that still have members, in order.
pub open spec fn with_members(als: Seq<AllianceView>) -> Seq<AllianceView>
    decreases als.len(),
{
    if als.len() == 0 {
        als
    } else {
        let rest = with_members(als.drop_last());
        if als.last().member_ids.len() == 0 {
            rest
        } else {
            rest.push(als.last())
        }
    }
}

/// Leaving by `pid`: `pid` is removed from the first alliance that has it. An alliance left
/// empty is dissolved (as is any other without members); a leader who leaves hands over to
/// the first remaining member. Gives the alliances after it and the lines logged.
pub open spec fn leave_result(als: Seq<AllianceView>, pid: Seq<char>) -> (Seq<AllianceView>, Seq<Seq<char>>) {
    if exists|i: int| is_first_membership(als, pid, i) {
        let i = choose|i: int| is_first_membership(als, pid, i);
        let a = als[i];
        let ms = others(a.member_ids, pid);
        if ms.len() == 0 {
            (
                with_members(als.update(i, AllianceView { member_ids: ms, ..a })),
                seq![left_message(a.name), dissolved_message(a.name)],
            )
        } else if a.leader_id == pid {
            (
                als.update(i, AllianceView { member_ids: ms, leader_id: ms[0], ..a }),
                seq![left_message(a.name), new_leader_message(ms[0])],
            )
        } else {
            (als.update(i, AllianceView { member_ids: ms, ..a }), seq![left_message(a.name)])
        }
    } else {
        (als, seq![])
    }
}

/// Whether `ms` has `pid`.
fn has_member(ms: &Vec<String>, pid: &str) -> (r: bool)
    ensures
        r == views(ms@).contains(pid@),
{
    let mut i: usize = 0;
    while i < ms.len()
        invariant
            i <= ms@.len(),
            forall|j: int| 0 <= j < i ==> ms@[j]@ != pid@,
        decreases ms@.len() - i,
    {
        if str_eq(ms[i].as_str(), pid) {
            proof {
                assert(views(ms@)[i as int] == pid@);
            }
            return true;
        }
        i += 1;
    }
    proof {
        if views(ms@).contains(pid@) {
            let j = choose|j: int| 0 <= j < views(ms@).len() && views(ms@)[j] == pid@;
            assert(ms@[j]@ == pid@);
        }
    }
    false
}

/// The first alliance that has `pid` among its members.
pub fn member_alliance(als: &Vec<Alliance>, pid: &str) -> (r: Option<usize>)
    ensures
        r matches Some(i) ==> is_first_membership(views(als@), pid@, i as int),
        r is None ==> !in_any_alliance(views(als@), pid@),
{
    let ghost av = views(als@);
    let mut i: usize = 0;
    while i < als.len()
        invariant
            i <= als@.len(),
            av == views(als@),
            forall|j: int| 0 <= j < i ==> !(#[trigger] av[j]).member_ids.contains(pid@),
        decreases als@.len() - i,
    {
        if has_member(&als[i].member_ids, pid) {
            return Some(i);
        }
        i += 1;
    }
    None
}

/// The first alliance with id `id`.
pub fn find_alliance(als: &Vec<Alliance>, id: &str) -> (r: Option<usize>)
    ensures
        r matches Some(i) ==> is_first_alliance_id(views(als@), id@, i as int),
        r is None ==> !(exists|i: int| is_first_alliance_id(views(als@), id@, i)),
{
    let ghost av = views(als@);
    let mut i: usize = 0;
    while i < als.len()
        invariant
            i <= als@.len(),
            av == views(als@),
            forall|j: int| 0 <= j < i ==> (#[trigger] av[j]).id != id@,
        decreases als@.len() - i,
    {
        if str_eq(als[i].id.as_str(), id) {
            return Some(i);
        }
        i += 1;
    }
    proof {
        if exists|i: int| is_first_alliance_id(av, id@, i) {
            let k = choose|k: int| is_first_alliance_id(av, id@, k);
            assert(av[k].id != id@);
        }
    }
    None
}

/// `a`, `b` and `c` one after another.
fn framed(a: &str, b: &str, c: &str) -> (s: String)
    ensures
        s@ == a@ + b@ + c@,
{
    let mut out: Vec<char> = Vec::new();
    push_str_chars(&mut out, a);
    push_str_chars(&mut out, b);
    push_str_chars(&mut out, c);
    string_from_chars(&out)
}

/// Player `player_id` founds alliance `name` (see [`create_result`]); the outcome is logged
/// at `now`.
pub fn apply_create_alliance(state: &mut GameState, log: &mut Vec<String>, player_id: &str, name: &str, now: u64)
    requires
        old(state).alliances@.len() < usize::MAX,
    ensures
        final(state)@ == (GameStateView {
            alliances: create_result(old(state)@.alliances, player_id@, name@).0,
            ..old(state)@
        }),
        views(final(log)@) == log_line(views(old(log)@), now, create_result(old(state)@.alliances, player_id@, name@).1),
{
    if member_alliance(&state.alliances, player_id).is_some() {
        push_log_at(log, "既に同盟に所属しています。", now);
        return;
    }
    let n = state.alliances.len() + 1;
    let mut idc: Vec<char> = Vec::new();
    push_str_chars(&mut idc, "alliance_");
    push_decimal(n as u64, &mut idc);
    let id = string_from_chars(&idc);
    let mut members: Vec<String> = Vec::new();
    members.push(player_id.to_owned());
    let a = Alliance {
        id,
        name: name.to_owned(),
        leader_id: player_id.to_owned(),
        member_ids: members,
        territory_points: 0,
        level: 1,
        donated_total: 0,
        parent_alliance_id: None,
        child_alliance_ids: Vec::new(),
    };
    proof {
        assert(views(a.member_ids@) =~= seq![player_id@]);
        assert(views(a.child_alliance_ids@) =~= Seq::<Seq<char>>::empty());
        assert(a@ == founded(n as nat, name@, player_id@));
    }
    let ghost before = state.alliances@;
    state.alliances.push(a);
    proof {
        assert(views(state.alliances@) =~= views(before).push(a@));
    }
    let msg = framed("同盟「", name, "」を結成しました！");
    push_log_at(log, msg.as_str(), now);
}

/// Player `player_id` joins alliance `alliance_id` (see [`join_result`]); the outcome is
/// logged at `now`.
pub fn apply_join_alliance(state: &mut GameState, log: &mut Vec<String>, player_id: &str, alliance_id: &str, now: u64)
    ensures
        final(state)@ == (GameStateView {
            alliances: join_result(old(state)@.alliances, player_id@, alliance_id@).0,
            ..old(state)@
        }),
        views(final(log)@) == log_line(views(old(log)@), now, join_result(old(state)@.alliances, player_id@, alliance_id@).1),
{
    let ghost av = views(state.alliances@);
    if member_alliance(&state.alliances, player_id).is_some() {
        push_log_at(log, "既に同盟に所属しています。", now);
        return;
    }
    match find_alliance(&state.alliances, alliance_id) {
        Some(i) => {
            proof {
                let k = choose|k: int| is_first_alliance_id(av, alliance_id@, k);
                assert(k == i as int) by {
                    if k < i {
                        assert(av[k].id != alliance_id@);
                    } else if k > i {
                        assert(av[i as int].id != alliance_id@);
                    }
                }
            }
            let mut a = state.alliances[i].dup();
            let ghost a0 = a@;
            a.member_ids.push(player_id.to_owned());
            proof {
                assert(views(a.member_ids@) =~= a0.member_ids.push(player_id@));
                assert(a@ == AllianceView { member_ids: av[i as int].member_ids.push(player_id@), ..av[i as int] });
            }
            let msg = framed("同盟「", a.name.as_str(), "」に参加しました！");
            state.alliances.set(i, a);
            proof {
                assert(views(state.alliances@) =~= av.update(i as int, a@));
            }
            push_log_at(log, msg.as_str(), now);
        },
        None => {
            push_log_at(log, "同盟が見つかりません。", now);
        },
    }
}

/// The members of `ms` other than `pid`.
fn members_without(ms: &Vec<String>, pid: &str) -> (r: Vec<String>)
    ensures
        views(r@) == others(views(ms@), pid@),
{
    let ghost mv = views(ms@);
    let mut out: Vec<String> = Vec::new();
    let mut i: usize = 0;
    while i < ms.len()
        invariant
            i <= ms@.len(),
            mv == views(ms@),
            views(out@) == others(mv.take(i as int), pid@),
        decreases ms@.len() - i,
    {
        let ghost before = out@;
        proof {
            assert(mv.take(i + 1).drop_last() =~= mv.take(i as int));
            assert(mv.take(i + 1).last() == ms@[i as int]@);
        }
        if !str_eq(ms[i].as_str(), pid) {
            out.push(ms[i].clone());
            proof {
                assert(views(out@) =~= views(before).push(ms@[i as int]@));
            }
        }
        i += 1;
    }
    proof {
        assert(mv.take(ms@.len() as int) =~= mv);
    }
    out
}

/// The alliances of `als` that still have members, in order.
fn keep_with_members(als: &Vec<Alliance>) -> (r: Vec<Alliance>)
    ensures
        views(r@) == with_members(views(als@)),
{
    let ghost av = views(als@);
    let mut out: Vec<Alliance> = Vec::new();
    let mut i: usize = 0;
    while i < als.len()
        invariant
            i <= als@.len(),
            av == views(als@),
            views(out@) == with_members(av.take(i as int)),
        decreases als@.len() - i,
    {
        let ghost before = out@;
        proof {
            assert(av.take(i + 1).drop_last() =~= av.take(i as int));
            assert(av.take(i + 1).last() == als@[i as int]@);
            assert(als@[i as int]@.member_ids.len() == als@[i as int].member_ids@.len());
        }
        if als[i].member_ids.len() > 0 {
            let a = als[i].dup();
            out.push(a);
            proof {
                assert(views(out@) =~= views(before).push(a@));
            }
        }
        i += 1;
    }
    proof {
        assert(av.take(als@.len() as int) =~= av);
    }
    out
}

/// Player `player_id` leaves their alliance (see [`leave_result`]); each line is logged at
/// `now`.
pub fn apply_leave_alliance(state: &mut GameState, log: &mut Vec<String>, player_id: &str, now: u64)
    ensures
        final(state)@ == (GameStateView { alliances: leave_result(old(state)@.alliances, player_id@).0, ..old(state)@ }),
        views(final(log)@) == log_lines(views(old(log)@), now, leave_result(old(state)@.alliances, player_id@).1),
{
    let ghost av = views(state.alliances@);
    let ghost l0 = views(log@);
    let i = match member_alliance(&state.alliances, player_id) {
        Some(i) => i,
        None => {
            proof {
                if exists|k: int| is_first_membership(av, player_id@, k) {
                    let k = choose|k: int| is_first_membership(av, player_id@, k);
                    assert(av[k].member_ids.contains(player_id@));
                }
                assert(log_lines(l0, now, seq![]) == l0);
            }
            return;
        },
    };
    proof {
        let k = choose|k: int| is_first_membership(av, player_id@, k);
        assert(k == i as int) by {
            if k < i {
                assert(!av[k].member_ids.contains(player_id@));
            } else if k > i {
                assert(!av[i as int].member_ids.contains(player_id@));
            }
        }
    }
    let mut a = state.alliances[i].dup();
    let ghost a0 = a@;
    let members = members_without(&a.member_ids, player_id);
    a.member_ids = members;
    let left = framed("同盟「", a.name.as_str(), "」を脱退しました。");
    push_log_at(log, left.as_str(), now);
    let ghost l1 = views(log@);
    proof {
        reveal_with_fuel(log_lines, 3);
        assert(seq![left_message(a0.name)].drop_last() =~= Seq::<Seq<char>>::empty());
        assert(l1 == log_lines(l0, now, seq![left_message(a0.name)]));
    }
    if a.member_ids.len() == 0 {
        let dissolved = framed("同盟「", a.name.as_str(), "」は解散しました。");
        state.alliances.set(i, a);
        let kept = keep_with_members(&state.alliances);
        proof {
            assert(views(state.alliances@) =~= av.update(i as int, AllianceView { member_ids: others(a0.member_ids, player_id@), ..a0 }));
        }
        state.alliances = kept;
        push_log_at(log, dissolved.as_str(), now);
        proof {
            reveal_with_fuel(log_lines, 3);
            let msgs = seq![left_message(a0.name), dissolved_message(a0.name)];
            assert(msgs.drop_last() =~= seq![left_message(a0.name)]);
        }
    } else if str_eq(a.leader_id.as_str(), player_id) {
        a.leader_id = a.member_ids[0].clone();
        let handed = framed("リーダーが", a.leader_id.as_str(), "に引き継がれました。");
        let ghost a1 = a@;
        state.alliances.set(i, a);
        proof {
            assert(views(state.alliances@) =~= av.update(i as int, a1));
        }
        push_log_at(log, handed.as_str(), now);
        proof {
            let ms = others(a0.member_ids, player_id@);
            reveal_with_fuel(log_lines, 3);
            let msgs = seq![left_message(a0.name), new_leader_message(ms[0])];
            assert(msgs.drop_last() =~= seq![left_message(a0.name)]);
        }
    } else {
        let ghost a1 = a@;
        state.alliances.set(i, a);
        proof {
            assert(views(state.alliances@) =~= av.update(i as int, a1));
        }
    }
}

/// `a + b`, or `u64::MAX` when the sum does not fit.
pub open spec fn sat_add(a: u64, b: u64) -> u64 {
    if a + b > u64::MAX {
        u64::MAX
    } else {
        (a + b) as u64
    }
}

/// What a donation of the four resources adds up to (saturating at `u64::MAX`).
pub open spec fn donation_total(food: u64, wood: u64, stone: u64, iron: u64) -> u64 {
    sat_add(sat_add(sat_add(food, wood), stone), iron)
}

/// An alliance's level once `donated` has been donated in all: one level per 2000, starting
/// at 1 and capped at 20 (the quotient taken as a `u32`, as the level is one).
pub open spec fn alliance_level_for(donated: u64) -> u32 {
    let q = #[verifier::truncate] ((donated / 2000) as u32);
    let l = if q == u32::MAX { q } else { (q + 1) as u32 };
    if l > 20 {
        20
    } else {
        l
    }
}

pub open spec fn donate_short_message() -> Seq<char> {
    "寄付する資源が足りません。"@
}

pub open spec fn not_in_alliance_message() -> Seq<char> {
    "同盟に所属していないため寄付できません。"@
}

pub open spec fn level_up_message(level: u32) -> Seq<char> {
    "同盟への寄付が実を結び、同盟レベルが "@ + decimal(level as nat) + " になった！"@
}

/// A donation by `pid` of the given amounts. Nothing happens when they add up to nothing or
/// `pid` is unknown; it is refused when the player lacks any of them or belongs to no
/// alliance. Else the player pays them and their (first) alliance adds the total to what it
/// was given, its level following [`alliance_level_for`] (a rise is logged). Gives the state
/// after it and the lines logged.
pub open spec fn donate_result(
    s: GameStateView,
    ps: Seq<PlayerData>,
    pid: Seq<char>,
    food: u64,
    wood: u64,
    stone: u64,
    iron: u64,
) -> (GameStateView, Seq<Seq<char>>) {
    let total = donation_total(food, wood, stone, iron);
    if total == 0 || !has_player(ps, pid) {
        (s, seq![])
    } else {
        let pi = first_player_index(ps, pid);
        let r = s.players[pi].resources;
        if r.food < food || r.wood < wood || r.stone < stone || r.iron < iron {
            (s, seq![donate_short_message()])
        } else if !in_any_alliance(s.alliances, pid) {
            (s, seq![not_in_alliance_message()])
        } else {
            let ai = choose|i: int| is_first_membership(s.alliances, pid, i);
            let a = s.alliances[ai];
            let donated = sat_add(a.donated_total, total);
            let level = alliance_level_for(donated);
            let paid = Resources {
                food: (r.food - food) as u64,
                wood: (r.wood - wood) as u64,
                stone: (r.stone - stone) as u64,
                iron: (r.iron - iron) as u64,
                ..r
            };
            (
                GameStateView {
                    players: s.players.update(pi, PlayerView { resources: paid, ..s.players[pi] }),
                    alliances: s.alliances.update(ai, AllianceView { donated_total: donated, level, ..a }),
                    ..s
                },
                if level > a.level {
                    seq![level_up_message(level)]
                } else {
                    seq![]
                },
            )
        }
    }
}

/// An accepted donation adds what was given to the alliance's running total, and the level
/// then follows that whole running total: one level per 2000 donated in all, from level 1, at
/// most 20. So a donation never lowers a level that followed the earlier total. (Stated for
/// totals below `2000 * u32::MAX`, where nothing saturates and the level is not cut to 32
/// bits.)
pub proof fn lemma_donation_level_follows_total(
    s: GameStateView,
    ps: Seq<PlayerData>,
    pid: Seq<char>,
    food: u64,
    wood: u64,
    stone: u64,
    iron: u64,
    i: int,
)
    requires
        views(ps) == s.players,
        food + wood + stone + iron > 0,
        has_player(ps, pid),
        ({
            let r = s.players[first_player_index(ps, pid)].resources;
            r.food >= food && r.wood >= wood && r.stone >= stone && r.iron >= iron
        }),
        is_first_membership(s.alliances, pid, i),
        s.alliances[i].donated_total + food + wood + stone + iron < 2000 * 4_294_967_295int,
    ensures
        ({
            let before = s.alliances[i];
            let after = donate_result(s, ps, pid, food, wood, stone, iron).0.alliances[i];
            let n = after.donated_total / 2000 + 1;
            &&& after.donated_total == before.donated_total + food + wood + stone + iron
            &&& after.level == if n > 20 { 20 } else { n }
            &&& before.level == (if before.donated_total / 2000 + 1 > 20 { 20 } else { before.donated_total / 2000 + 1 })
                ==> after.level >= before.level
        }),
        ({
            let pi = first_player_index(ps, pid);
            let r0 = s.players[pi].resources;
            let r1 = donate_result(s, ps, pid, food, wood, stone, iron).0.players[pi].resources;
            &&& r1.food == r0.food - food && r1.wood == r0.wood - wood
            &&& r1.stone == r0.stone - stone && r1.iron == r0.iron - iron
            &&& r1.gold == r0.gold
        }),
{
    crate::formation::lemma_first_player_exists(ps, pid);
    let k = choose|k: int| is_first_membership(s.alliances, pid, k);
    assert(in_any_alliance(s.alliances, pid)) by {
        assert(s.alliances[i].member_ids.contains(pid));
    }
    assert(k == i) by {
        if k < i {
            assert(!s.alliances[k].member_ids.contains(pid));
        } else if k > i {
            assert(!s.alliances[i].member_ids.contains(pid));
        }
    }
    let total = food + wood + stone + iron;
    let d = s.alliances[i].donated_total + total;
    assert(d / 2000 < 4_294_967_295) by (nonlinear_arith)
        requires d < 2000 * 4_294_967_295int, d >= 0;
    assert(s.alliances[i].donated_total / 2000 <= d / 2000) by (nonlinear_arith)
        requires s.alliances[i].donated_total <= d, s.alliances[i].donated_total >= 0;
}

/// Player `player_id` donates resources to their alliance (see [`donate_result`]); each line
/// is logged at `now`.
pub fn apply_donate_alliance(
    state: &mut GameState,
    log: &mut Vec<String>,
    player_id: &str,
    food: u64,
    wood: u64,
    stone: u64,
    iron: u64,
    now: u64,
)
    ensures
        final(state)@ == donate_result(old(state)@, old(state).players@, player_id@, food, wood, stone, iron).0,
        views(final(log)@) == log_lines(
            views(old(log)@),
            now,
            donate_result(old(state)@, old(state).players@, player_id@, food, wood, stone, iron).1,
        ),
{
    let ghost s0 = state@;
    let ghost ps = state.players@;
    let ghost l0 = views(log@);
    proof {
        reveal_with_fuel(log_lines, 2);
        assert(seq![donate_short_message()].drop_last() =~= Seq::<Seq<char>>::empty());
        assert(seq![not_in_alliance_message()].drop_last() =~= Seq::<Seq<char>>::empty());
    }
    let total = food.saturating_add(wood).saturating_add(stone).saturating_add(iron);
    if total == 0 {
        return;
    }
    let pi = match find_player(&state.players, player_id) {
        Some(i) => i,
        None => {
            return;
        },
    };
    proof {
        lemma_first_player_index(ps, player_id@, pi as int);
        assert(s0.players[pi as int] == ps[pi as int]@);
    }
    let r = state.players[pi].resources;
    if r.food < food || r.wood < wood || r.stone < stone || r.iron < iron {
        push_log_at(log, "寄付する資源が足りません。", now);
        return;
    }
    let ai = match member_alliance(&state.alliances, player_id) {
        Some(i) => i,
        None => {
            push_log_at(log, "同盟に所属していないため寄付できません。", now);
            return;
        },
    };
    proof {
        let k = choose|k: int| is_first_membership(s0.alliances, player_id@, k);
        assert(k == ai as int) by {
            if k < ai {
                assert(!s0.alliances[k].member_ids.contains(player_id@));
            } else if k > ai {
                assert(!s0.alliances[ai as int].member_ids.contains(player_id@));
            }
        }
    }
    let mut p = state.players[pi].dup();
    p.resources.food = r.food - food;
    p.resources.wood = r.wood - wood;
    p.resources.stone = r.stone - stone;
    p.resources.iron = r.iron - iron;
    let ghost p1 = p@;
    state.players.set(pi, p);
    let mut a = state.alliances[ai].dup();
    let before_level = a.level;
    a.donated_total = a.donated_total.saturating_add(total);
    let q = #[verifier::truncate] ((a.donated_total / 2000) as u32);
    let l = q.saturating_add(1);
    let level = if l > 20 { 20 } else { l };
    a.level = level;
    let ghost a1 = a@;
    state.alliances.set(ai, a);
    proof {
        assert(views(state.players@) =~= s0.players.update(pi as int, p1));
        assert(views(state.alliances@) =~= s0.alliances.update(ai as int, a1));
    }
    if level > before_level {
        let mut m: Vec<char> = Vec::new();
        push_str_chars(&mut m, "同盟への寄付が実を結び、同盟レベルが ");
        push_decimal(level as u64, &mut m);
        push_str_chars(&mut m, " になった！");
        let msg = string_from_chars(&m);
        push_log_at(log, msg.as_str(), now);
        proof {
            assert(seq![level_up_message(level)].drop_last() =~= Seq::<Seq<char>>::empty());
        }
    }
}

/// Without `pid` among them, `ms` lose nothing to [`others`].
proof fn lemma_others_absent(ms: Seq<Seq<char>>, pid: Seq<char>)
    requires
        !ms.contains(pid),
    ensures
        others(ms, pid) == ms,
    decreases ms.len(),
{
    if ms.len() > 0 {
        assert(!ms.drop_last().contains(pid)) by {
            if ms.drop_last().contains(pid) {
                let j = choose|j: int| 0 <= j < ms.drop_last().len() && ms.drop_last()[j] == pid;
                assert(ms[j] == pid);
            }
        }
        lemma_others_absent(ms.drop_last(), pid);
        assert(ms[ms.len() - 1] != pid);
        assert(ms.drop_last().push(ms.last()) =~= ms);
    }
}

/// When every alliance has members, [`with_members`] keeps them all.
proof fn lemma_with_members_all(als: Seq<AllianceView>)
    requires
        forall|i: int| 0 <= i < als.len() ==> (#[trigger] als[i]).member_ids.len() > 0,
    ensures
        with_members(als) == als,
    decreases als.len(),
{
    if als.len() > 0 {
        assert forall|i: int| 0 <= i < als.drop_last().len() implies (#[trigger] als.drop_last()[i]).member_ids.len() > 0 by {
            assert(als.drop_last()[i] == als[i]);
        }
        lemma_with_members_all(als.drop_last());
        assert(als[als.len() - 1].member_ids.len() > 0);
        assert(als.drop_last().push(als.last()) =~= als);
    }
}

/// Joining an alliance and then leaving gives back the alliances as they were, for a player
/// who belonged to none, when the alliance joined has members and another leader.
pub proof fn lemma_join_then_leave(als: Seq<AllianceView>, pid: Seq<char>, id: Seq<char>, i: int)
    requires
        !in_any_alliance(als, pid),
        is_first_alliance_id(als, id, i),
        als[i].member_ids.len() > 0,
        als[i].leader_id != pid,
    ensures
        leave_result(join_result(als, pid, id).0, pid).0 == als,
{
    let k = choose|k: int| is_first_alliance_id(als, id, k);
    assert(k == i) by {
        if k < i {
            assert(als[k].id != id);
        } else if k > i {
            assert(als[i].id != id);
        }
    }
    let joined = join_result(als, pid, id).0;
    let ms = als[i].member_ids;
    assert(joined == als.update(i, AllianceView { member_ids: ms.push(pid), ..als[i] }));
    assert(!ms.contains(pid)) by {
        if ms.contains(pid) {
            assert(als[i].member_ids.contains(pid));
        }
    }
    assert(joined[i].member_ids.contains(pid)) by {
        assert(joined[i].member_ids[ms.len() as int] == pid);
    }
    assert forall|j: int| 0 <= j < i implies !(#[trigger] joined[j]).member_ids.contains(pid) by {
        assert(joined[j] == als[j]);
        if als[j].member_ids.contains(pid) {
            assert(in_any_alliance(als, pid));
        }
    }
    assert(is_first_membership(joined, pid, i));
    let m = choose|m: int| is_first_membership(joined, pid, m);
    assert(m == i) by {
        if m < i {
            assert(!joined[m].member_ids.contains(pid));
        } else if m > i {
            assert(!joined[i].member_ids.contains(pid));
        }
    }
    assert(ms.push(pid).drop_last() =~= ms);
    lemma_others_absent(ms, pid);
    assert(others(ms.push(pid), pid) == ms);
    assert(joined.update(i, AllianceView { member_ids: ms, ..joined[i] }) =~= als);
}

/// Founding an alliance and then leaving it dissolves it and gives back the alliances as
/// they were, for a player who belonged to none, when every alliance has members.
pub proof fn lemma_create_then_leave(als: Seq<AllianceView>, pid: Seq<char>, name: Seq<char>)
    requires
        !in_any_alliance(als, pid),
        forall|i: int| 0 <= i < als.len() ==> (#[trigger] als[i]).member_ids.len() > 0,
    ensures
        leave_result(create_result(als, pid, name).0, pid).0 == als,
{
    let n = als.len() as int;
    let f = founded((als.len() + 1) as nat, name, pid);
    let made = als.push(f);
    assert(create_result(als, pid, name).0 == made);
    assert(made[n].member_ids[0] == pid);
    assert forall|j: int| 0 <= j < n implies !(#[trigger] made[j]).member_ids.contains(pid) by {
        assert(made[j] == als[j]);
        if als[j].member_ids.contains(pid) {
            assert(in_any_alliance(als, pid));
        }
    }
    assert(is_first_membership(made, pid, n));
    let m = choose|m: int| is_first_membership(made, pid, m);
    assert(m == n) by {
        if m < n {
            assert(!made[m].member_ids.contains(pid));
        }
    }
    let single: Seq<Seq<char>> = seq![pid];
    assert(single.drop_last() =~= Seq::<Seq<char>>::empty());
    assert(single.last() == pid);
    assert(others(Seq::<Seq<char>>::empty(), pid) == Seq::<Seq<char>>::empty());
    assert(others(single, pid) == others(single.drop_last(), pid));
    assert(others(single, pid) =~= Seq::<Seq<char>>::empty());
    let emptied = made.update(n, AllianceView { member_ids: Seq::empty(), ..f });
    assert(emptied.drop_last() =~= als);
    lemma_with_members_all(als);
    assert(with_members(emptied) == als);
}

/// Removing a member keeps every other member and drops every occurrence of it.
pub proof fn lemma_others_keeps_the_rest(ms: Seq<Seq<char>>, pid: Seq<char>)
    ensures
        !others(ms, pid).contains(pid),
        forall|x: Seq<char>| x != pid ==> (others(ms, pid).contains(x) <==> ms.contains(x)),
        others(ms, pid).len() <= ms.len(),
        ms.contains(pid) ==> others(ms, pid).len() < ms.len(),
    decreases ms.len(),
{
    if ms.len() > 0 {
        let d = ms.drop_last();
        lemma_others_keeps_the_rest(d, pid);
        let rest = others(d, pid);
        assert forall|x: Seq<char>| x != pid implies (others(ms, pid).contains(x) <==> ms.contains(x)) by {
            if ms.contains(x) {
                let j = choose|j: int| 0 <= j < ms.len() && ms[j] == x;
                if j < ms.len() - 1 {
                    assert(d[j] == x);
                    assert(d.contains(x));
                    assert(rest.contains(x));
                    let k = choose|k: int| 0 <= k < rest.len() && rest[k] == x;
                    if ms.last() != pid {
                        assert(rest.push(ms.last())[k] == x);
                    }
                } else {
                    assert(rest.push(ms.last())[rest.len() as int] == x);
                }
            }
            if others(ms, pid).contains(x) {
                let k = choose|k: int| 0 <= k < others(ms, pid).len() && others(ms, pid)[k] == x;
                if ms.last() != pid && k == rest.len() {
                    assert(ms[ms.len() - 1] == x);
                } else {
                    if ms.last() != pid {
                        assert(rest.push(ms.last())[k] == rest[k]);
                    }
                    assert(rest[k] == x);
                    assert(rest.contains(x));
                    assert(d.contains(x));
                    let j = choose|j: int| 0 <= j < d.len() && d[j] == x;
                    assert(ms[j] == x);
                }
            }
        }
        assert(!others(ms, pid).contains(pid)) by {
            if others(ms, pid).contains(pid) {
                let k = choose|k: int| 0 <= k < others(ms, pid).len() && others(ms, pid)[k] == pid;
                if ms.last() != pid {
                    if k < rest.len() {
                        assert(rest.push(ms.last())[k] == rest[k]);
                        assert(rest.contains(pid));
                    }
                } else {
                    assert(rest.contains(pid));
                }
            }
        }
        if ms.contains(pid) && ms.last() != pid {
            let j = choose|j: int| 0 <= j < ms.len() && ms[j] == pid;
            assert(d[j] == pid);
            assert(d.contains(pid));
        }
    }
}

/// Founding: a player in no alliance founds one new alliance at the end, which they lead
/// alone, at level 1 with nothing donated, every other alliance unchanged; a player already
/// in one changes nothing.
pub proof fn lemma_create_founds_one(als: Seq<AllianceView>, pid: Seq<char>, name: Seq<char>)
    ensures
        in_any_alliance(als, pid) ==> create_result(als, pid, name).0 == als,
        !in_any_alliance(als, pid) ==> ({
            let r = create_result(als, pid, name).0;
            let a = r[als.len() as int];
            &&& r.len() == als.len() + 1
            &&& forall|j: int| 0 <= j < als.len() ==> r[j] == als[j]
            &&& a.member_ids.len() == 1 && a.member_ids[0] == pid
            &&& a.leader_id == pid
            &&& a.name == name
            &&& a.level == 1
            &&& a.donated_total == 0
            &&& in_any_alliance(r, pid)
        }),
{
    if !in_any_alliance(als, pid) {
        let r = create_result(als, pid, name).0;
        assert(r[als.len() as int].member_ids.contains(pid)) by {
            assert(r[als.len() as int].member_ids[0] == pid);
        }
    }
}

/// Joining: a player in no alliance who joins an existing alliance becomes one more of its
/// members, keeping all the others and all its other data, every other alliance unchanged; a
/// player already in one changes nothing.
pub proof fn lemma_join_adds_member(als: Seq<AllianceView>, pid: Seq<char>, id: Seq<char>, i: int)
    requires
        is_first_alliance_id(als, id, i),
    ensures
        in_any_alliance(als, pid) ==> join_result(als, pid, id).0 == als,
        !in_any_alliance(als, pid) ==> ({
            let r = join_result(als, pid, id).0;
            &&& r.len() == als.len()
            &&& forall|j: int| 0 <= j < als.len() && j != i ==> r[j] == als[j]
            &&& r[i].member_ids.contains(pid)
            &&& r[i].member_ids.len() == als[i].member_ids.len() + 1
            &&& forall|x: Seq<char>| als[i].member_ids.contains(x) ==> r[i].member_ids.contains(x)
            &&& r[i].id == als[i].id && r[i].name == als[i].name && r[i].leader_id == als[i].leader_id
            &&& r[i].level == als[i].level && r[i].donated_total == als[i].donated_total
            &&& in_any_alliance(r, pid)
        }),
{
    if !in_any_alliance(als, pid) {
        let k = choose|k: int| is_first_alliance_id(als, id, k);
        assert(k == i) by {
            if k < i {
                assert(als[k].id != id);
            } else if k > i {
                assert(als[i].id != id);
            }
        }
        let r = join_result(als, pid, id).0;
        let ms = als[i].member_ids;
        assert(r[i].member_ids == ms.push(pid));
        assert(ms.push(pid)[ms.len() as int] == pid);
        assert forall|x: Seq<char>| ms.contains(x) implies r[i].member_ids.contains(x) by {
            let j = choose|j: int| 0 <= j < ms.len() && ms[j] == x;
            assert(ms.push(pid)[j] == x);
        }
    }
}

/// Leaving: the player leaves the first alliance that has them. If others remain, that
/// alliance stays in place without the player, keeps every other member and its data, and a
/// leaving leader hands over to a remaining member; every other alliance is unchanged.
pub proof fn lemma_leave_removes_member(als: Seq<AllianceView>, pid: Seq<char>, i: int)
    requires
        is_first_membership(als, pid, i),
        exists|x: Seq<char>| x != pid && als[i].member_ids.contains(x),
    ensures
        ({
            let r = leave_result(als, pid).0;
            &&& r.len() == als.len()
            &&& forall|j: int| 0 <= j < als.len() && j != i ==> r[j] == als[j]
            &&& !r[i].member_ids.contains(pid)
            &&& forall|x: Seq<char>| x != pid ==> (r[i].member_ids.contains(x) <==> als[i].member_ids.contains(x))
            &&& r[i].member_ids.len() < als[i].member_ids.len()
            &&& r[i].id == als[i].id && r[i].level == als[i].level && r[i].donated_total == als[i].donated_total
            &&& (als[i].leader_id != pid ==> r[i].leader_id == als[i].leader_id)
            &&& (als[i].leader_id == pid ==> r[i].member_ids.contains(r[i].leader_id))
        }),
{
    let k = choose|k: int| is_first_membership(als, pid, k);
    assert(k == i) by {
        if k < i {
            assert(!als[k].member_ids.contains(pid));
        } else if k > i {
            assert(!als[i].member_ids.contains(pid));
        }
    }
    let a = als[i];
    let ms = others(a.member_ids, pid);
    lemma_others_keeps_the_rest(a.member_ids, pid);
    let x = choose|x: Seq<char>| x != pid && als[i].member_ids.contains(x);
    assert(ms.contains(x));
    assert(ms.len() > 0);
    if a.leader_id == pid {
        assert(ms.contains(ms[0]));
    } else {
        assert(a.member_ids.contains(a.leader_id) || !a.member_ids.contains(a.leader_id));
    }
}

} // verus!
