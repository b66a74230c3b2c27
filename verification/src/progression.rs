//! Monster levels: experience spent on level ups, status points gained, and the log lines.
use vstd::prelude::*;
use crate::game_log::{keep_last, push_log_at, push_str_chars, stamped, MAX_LOG_LINES};
use crate::model::views;
use crate::text::{decimal, push_decimal, string_from_chars};

verus! {

/// Highest level of a monster; awakened monsters go up to 120.
pub open spec fn level_cap(awakened: bool) -> u32 {
    if awakened { 120 } else { 99 }
}

/// The log line of a level up: "「<name>」がLv<level>にアップ！ステータスポイント+10".
pub open spec fn level_up_line(name: Seq<char>, level: u32) -> Seq<char> {
    "「"@ + name + "」がLv"@ + decimal(level as nat) + "にアップ！ステータスポイント+10"@
}

/// `needs[l]` is the experience a monster at level `l` needs for the next level.
/// Starting at `level` with `exp`, the level ups that follow: while below the cap and the
/// experience covers the need, the need is spent and the level rises. Returns the final level
/// and experience.
pub open spec fn levels_gained(level: u32, exp: u64, cap: u32, needs: Seq<u64>) -> (u32, u64)
    decreases cap - level,
{
    if level >= cap || level >= needs.len() || exp < needs[level as int] {
        (level, exp)
    } else {
        levels_gained((level + 1) as u32, (exp - needs[level as int]) as u64, cap, needs)
    }
}

/// The experience needed to go from level `from` to level `to`: `needs[from] + .. + needs[to - 1]`.
pub open spec fn needs_sum(needs: Seq<u64>, from: int, to: int) -> int
    decreases to - from,
{
    if to <= from {
        0
    } else {
        needs[from] as int + needs_sum(needs, from + 1, to)
    }
}

/// Level ups spend exactly what they need: the experience left plus the needs of the levels
/// passed is the experience before. The level never falls, stops at the cap, and stops only
/// where the experience left does not pay for the next level.
pub proof fn lemma_levels_gained_spend(level: u32, exp: u64, cap: u32, needs: Seq<u64>)
    ensures
        ({
            let (lv, ex) = levels_gained(level, exp, cap, needs);
            &&& level <= lv
            &&& level < cap ==> lv <= cap
            &&& ex + needs_sum(needs, level as int, lv as int) == exp
            &&& (lv < cap && lv < needs.len()) ==> ex < needs[lv as int]
        }),
    decreases cap - level,
{
    if level >= cap || level >= needs.len() || exp < needs[level as int] {
    } else {
        lemma_levels_gained_spend((level + 1) as u32, (exp - needs[level as int]) as u64, cap, needs);
    }
}

/// The log after level-up lines for the levels `from + 1 ..= to`, each stamped `now`.
pub open spec fn level_up_log(log: Seq<Seq<char>>, name: Seq<char>, from: u32, to: u32, now: u64) -> Seq<Seq<char>>
    decreases to - from,
{
    if to <= from {
        log
    } else {
        keep_last(
            level_up_log(log, name, from, (to - 1) as u32, now).push(stamped(now, level_up_line(name, to))),
            MAX_LOG_LINES as nat,
        )
    }
}

fn level_up_message(name: &str, level: u32) -> (s: String)
    ensures
        s@ == level_up_line(name@, level),
{
    let mut out: Vec<char> = Vec::new();
    push_str_chars(&mut out, "「");
    push_str_chars(&mut out, name);
    push_str_chars(&mut out, "」がLv");
    push_decimal(level as u64, &mut out);
    push_str_chars(&mut out, "にアップ！ステータスポイント+10");
    proof {
        assert(out@ =~= level_up_line(name@, level));
    }
    string_from_chars(&out)
}

/// Applies the level ups that the accumulated experience pays for, at time `now`. Level 0
/// counts as level 1. `needs[l]` is the experience needed at level `l` (the curve of
/// `exp_needed_for_level`), given for every level below the cap (99, or 120 when awakened).
/// Each level up spends its need, adds 10 status points (capped at `u32::MAX`) and logs a
/// line. Returns whether any level up happened.
pub fn process_level_up(
    current_level: &mut u32,
    current_exp: &mut u64,
    status_points: &mut u32,
    awakened: bool,
    log_name: &str,
    log: &mut Vec<String>,
    needs: &[u64],
    now: u64,
) -> (leveled: bool)
    requires
        needs@.len() >= level_cap(awakened),
    ensures
        ({
            let start = if *old(current_level) == 0 { 1u32 } else { *old(current_level) };
            let (lv, ex) = levels_gained(start, *old(current_exp), level_cap(awakened), needs@);
            let ups = if lv > start { lv - start } else { 0 };
            &&& *final(current_level) == lv
            &&& *final(current_exp) == ex
            &&& *final(status_points) == if *old(status_points) + 10 * ups > u32::MAX {
                u32::MAX as int
            } else {
                *old(status_points) + 10 * ups
            }
            &&& leveled == (lv > start)
            &&& views(final(log)@) == level_up_log(views(old(log)@), log_name@, start, lv, now)
        }),
{
    let cap: u32 = if awakened { 120 } else { 99 };
    if *current_level == 0 {
        *current_level = 1;
    }
    let ghost start = *current_level;
    let ghost exp0 = *current_exp;
    let ghost pts0 = *status_points;
    let ghost log0 = views(log@);
    let mut leveled = false;
    while *current_level < cap && *current_exp >= needs[*current_level as usize]
        invariant
            1 <= start <= *current_level <= cap || (start > cap && *current_level == start),
            cap == level_cap(awakened),
            needs@.len() >= cap,
            levels_gained(*current_level, *current_exp, cap, needs@) == levels_gained(start, exp0, cap, needs@),
            *status_points == if pts0 + 10 * (*current_level - start) > u32::MAX {
                u32::MAX as int
            } else {
                pts0 + 10 * (*current_level - start)
            },
            leveled == (*current_level > start),
            views(log@) == level_up_log(log0, log_name@, start, *current_level, now),
        decreases cap - *current_level,
    {
        let need = needs[*current_level as usize];
        *current_exp = *current_exp - need;
        *current_level = *current_level + 1;
        *status_points = status_points.saturating_add(10);
        leveled = true;
        let msg = level_up_message(log_name, *current_level);
        push_log_at(log, msg.as_str(), now);
    }
    leveled
}

} // verus!
