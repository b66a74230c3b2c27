//! The game log: timestamped text lines and structured events, each kept to a bounded length.
use vstd::prelude::*;
use crate::model::{views, GameEvent, GameEventView};
use crate::text::{chars_of, decimal, parse_unsigned_spec, parse_unsigned_upto, push_decimal, string_from_chars};
use crate::rng::now_ms;

verus! {

/// Lines kept in a text log.
pub const MAX_LOG_LINES: usize = 2000;

/// Events kept in an event log.
pub const MAX_EVENTS: usize = 2000;

/// The last `n` elements of `s` (all of them when there are fewer).
pub open spec fn keep_last<T>(s: Seq<T>, n: nat) -> Seq<T> {
    if s.len() > n {
        s.skip(s.len() - n)
    } else {
        s
    }
}

/// A log line stamped with time `ts`: "[ts:<ts>]" followed by the line.
pub open spec fn stamped(ts: u64, line: Seq<char>) -> Seq<char> {
    "[ts:"@ + decimal(ts as nat) + "]"@ + line
}

/// A line marked with the acting player: "[p:<actor>]" followed by the line.
pub open spec fn with_actor(actor: Seq<char>, line: Seq<char>) -> Seq<char> {
    "[p:"@ + actor + "]"@ + line
}

/// The text log after appending `msg` stamped with `now`.
pub open spec fn log_line(log: Seq<Seq<char>>, now: u64, msg: Seq<char>) -> Seq<Seq<char>> {
    keep_last(log.push(stamped(now, msg)), MAX_LOG_LINES as nat)
}

/// The text log after appending each of `msgs` in turn, all stamped with `now`.
pub open spec fn log_lines(log: Seq<Seq<char>>, now: u64, msgs: Seq<Seq<char>>) -> Seq<Seq<char>>
    decreases msgs.len(),
{
    if msgs.len() == 0 {
        log
    } else {
        log_line(log_lines(log, now, msgs.drop_last()), now, msgs.last())
    }
}

pub fn push_str_chars(out: &mut Vec<char>, s: &str)
    ensures
        final(out)@ == old(out)@ + s@,
{
    let cs = chars_of(s);
    let mut i: usize = 0;
    let ghost start = out@;
    while i < cs.len()
        invariant
            i <= cs@.len(),
            cs@ == s@,
            out@ == start + cs@.take(i as int),
        decreases cs@.len() - i,
    {
        out.push(cs[i]);
        i += 1;
        proof {
            assert(out@ =~= start + cs@.take(i as int));
        }
    }
    proof {
        assert(cs@.take(cs@.len() as int) =~= cs@);
    }
}

fn stamp_line(ts: u64, line: &str) -> (s: String)
    ensures
        s@ == stamped(ts, line@),
{
    let mut out: Vec<char> = Vec::new();
    push_str_chars(&mut out, "[ts:");
    push_decimal(ts, &mut out);
    push_str_chars(&mut out, "]");
    push_str_chars(&mut out, line);
    proof {
        assert(out@ =~= stamped(ts, line@));
    }
    string_from_chars(&out)
}

/// Drops the oldest elements so that at most `max` remain.
fn trim_front<T>(v: &mut Vec<T>, max: usize)
    ensures
        final(v)@ == keep_last(old(v)@, max as nat),
{
    if v.len() > max {
        let extra = v.len() - max;
        let tail = v.split_off(extra);
        *v = tail;
    }
}

/// Appends `line` stamped with time `now` and keeps the last `MAX_LOG_LINES` lines.
pub fn push_log_at(log: &mut Vec<String>, line: &str, now: u64)
    ensures
        views(final(log)@) == keep_last(views(old(log)@).push(stamped(now, line@)), MAX_LOG_LINES as nat),
{
    let s = stamp_line(now, line);
    let ghost before = log@;
    log.push(s);
    let ghost pushed = log@;
    trim_front(log, MAX_LOG_LINES);
    proof {
        assert(views(pushed) =~= views(before).push(stamped(now, line@)));
        assert(views(log@) =~= keep_last(views(pushed), MAX_LOG_LINES as nat));
    }
}

/// Appends `line` stamped with the current time (the clock is read once) and keeps the last
/// `MAX_LOG_LINES` lines.
pub fn push_log(log: &mut Vec<String>, line: &str)
    ensures
        exists|now: u64|
            views(final(log)@) == keep_last(
                views(old(log)@).push(#[trigger] stamped(now, line@)),
                MAX_LOG_LINES as nat,
            ),
{
    let now = now_ms();
    push_log_at(log, line, now);
}

/// Appends `line` marked with the acting player and stamped with time `now`.
pub fn push_actor_log_at(log: &mut Vec<String>, actor_player_id: &str, line: &str, now: u64)
    ensures
        views(final(log)@) == keep_last(
            views(old(log)@).push(stamped(now, with_actor(actor_player_id@, line@))),
            MAX_LOG_LINES as nat,
        ),
{
    let mut out: Vec<char> = Vec::new();
    push_str_chars(&mut out, "[p:");
    push_str_chars(&mut out, actor_player_id);
    push_str_chars(&mut out, "]");
    push_str_chars(&mut out, line);
    proof {
        assert(out@ =~= with_actor(actor_player_id@, line@));
    }
    let marked = string_from_chars(&out);
    push_log_at(log, marked.as_str(), now);
}

/// Appends `line` marked with the acting player and stamped with the current time (the clock
/// is read once).
pub fn push_actor_log(log: &mut Vec<String>, actor_player_id: &str, line: &str)
    ensures
        exists|now: u64|
            views(final(log)@) == keep_last(
                views(old(log)@).push(#[trigger] stamped(now, with_actor(actor_player_id@, line@))),
                MAX_LOG_LINES as nat,
            ),
{
    let now = now_ms();
    push_actor_log_at(log, actor_player_id, line, now);
}

/// `k` is where the number of a stamped line ends: the first ']' after "[ts:" (or the end).
pub open spec fn is_close(rest: Seq<char>, k: int) -> bool {
    &&& 0 <= k <= rest.len()
    &&& (k == rest.len() || rest[k] == ']')
    &&& forall|j: int| 0 <= j < k ==> rest[j] != ']'
}

/// The text between "[ts:" and the first ']' of a stamped line (`None` without the prefix).
pub open spec fn ts_field(line: Seq<char>) -> Option<Seq<char>> {
    if line.len() >= 4 && line.take(4) == "[ts:"@ {
        let rest = line.skip(4);
        Some(rest.take(choose|k: int| is_close(rest, k)))
    } else {
        None
    }
}

/// The time stamp of a log line: the number after "[ts:" up to the first ']', when it is a
/// `u64`.
pub open spec fn log_ts_spec(line: Seq<char>) -> Option<u64> {
    match ts_field(line) {
        Some(num) => match parse_unsigned_spec(num) {
            Some(n) => if n <= u64::MAX {
                Some(n as u64)
            } else {
                None
            },
            None => None,
        },
        None => None,
    }
}

/// Reads the time stamp of a log line (see [`log_ts_spec`]).
pub fn extract_log_ts(line: &str) -> (r: Option<u64>)
    ensures
        r == log_ts_spec(line@),
{
    let cs = chars_of(line);
    let prefix = chars_of("[ts:");
    proof {
        reveal_strlit("[ts:");
    }
    if !crate::text::chars_start_with(&cs, &prefix) {
        proof {
            assert(!(cs@.len() >= 4 && cs@.take(4) == "[ts:"@));
        }
        return None;
    }
    proof {
        assert(cs@.len() >= 4 && cs@.take(4) =~= "[ts:"@);
    }
    let ghost rest = cs@.skip(4);
    let mut num: Vec<char> = Vec::new();
    let mut i: usize = 4;
    while i < cs.len() && cs[i] != ']'
        invariant
            4 <= i <= cs@.len(),
            rest == cs@.skip(4),
            num@ == rest.take(i - 4),
            forall|j: int| 0 <= j < i - 4 ==> rest[j] != ']',
        decreases cs@.len() - i,
    {
        num.push(cs[i]);
        i += 1;
        proof {
            assert(num@ =~= rest.take(i - 4));
        }
    }
    proof {
        assert(is_close(rest, i - 4));
        let k = choose|k: int| is_close(rest, k);
        assert(k == i - 4) by {
            if k < i - 4 {
                assert(rest[k] != ']');
            } else if k > i - 4 {
                assert(rest[i - 4] == ']');
            }
        }
    }
    parse_unsigned_upto(&num, u64::MAX)
}

/// Stamps the lines of a log that carry no time stamp with the stamp of the line before
/// them; lines before the first stamped one get `now`.
pub open spec fn migrated_from(lines: Seq<Seq<char>>, last: Option<u64>, now: u64) -> Seq<Seq<char>>
    decreases lines.len(),
{
    if lines.len() == 0 {
        seq![]
    } else {
        match log_ts_spec(lines[0]) {
            Some(t) => seq![lines[0]] + migrated_from(lines.drop_first(), Some(t), now),
            None => {
                let ts = match last {
                    Some(t) => t,
                    None => now,
                };
                seq![stamped(ts, lines[0])] + migrated_from(lines.drop_first(), Some(ts), now)
            },
        }
    }
}

/// Stamps every unstamped line with the time of the line before it (`now` before the first
/// stamped line), so that a restart does not split the battle log. Returns how many lines
/// were stamped.
pub fn migrate_log_timestamps(log: &mut Vec<String>, now: u64) -> (migrated: usize)
    ensures
        views(final(log)@) == migrated_from(views(old(log)@), None, now),
        migrated <= old(log)@.len(),
{
    let ghost orig = views(log@);
    let mut last_ts: Option<u64> = None;
    let mut migrated: usize = 0;
    let mut i: usize = 0;
    proof {
        assert(orig.skip(0) =~= orig);
        assert(views(log@).take(0) =~= Seq::<Seq<char>>::empty());
    }
    while i < log.len()
        invariant
            i <= log@.len() == orig.len(),
            migrated <= i,
            views(log@).skip(i as int) == orig.skip(i as int),
            migrated_from(orig, None, now) == views(log@).take(i as int) + migrated_from(
                orig.skip(i as int),
                last_ts,
                now,
            ),
        decreases orig.len() - i,
    {
        let ghost cur = views(log@);
        let ghost rest = orig.skip(i as int);
        proof {
            assert(rest[0] == cur[i as int]) by {
                assert(cur.skip(i as int)[0] == cur[i as int]);
            }
            assert(rest.drop_first() =~= orig.skip(i + 1));
        }
        match extract_log_ts(log[i].as_str()) {
            Some(ts) => {
                last_ts = Some(ts);
                proof {
                    assert(views(log@).take(i + 1) =~= views(log@).take(i as int).push(cur[i as int]));
                }
            },
            None => {
                let ts = match last_ts {
                    Some(t) => t,
                    None => now,
                };
                let s = stamp_line(ts, log[i].as_str());
                log.set(i, s);
                last_ts = Some(ts);
                migrated += 1;
                proof {
                    assert(views(log@) =~= cur.update(i as int, stamped(ts, cur[i as int])));
                    assert(views(log@).take(i + 1) =~= cur.take(i as int).push(stamped(ts, cur[i as int])));
                }
            },
        }
        proof {
            assert(views(log@).skip(i + 1) =~= orig.skip(i + 1)) by {
                assert(forall|j: int| i < j < orig.len() ==> views(log@)[j] == cur[j]);
                assert(forall|j: int| i < j < orig.len() ==> cur[j] == cur.skip(i as int)[j - i]);
            }
        }
        i += 1;
    }
    proof {
        assert(orig.skip(orig.len() as int) =~= Seq::<Seq<char>>::empty());
        assert(views(log@).take(orig.len() as int) =~= views(log@));
        assert(migrated_from(Seq::<Seq<char>>::empty(), last_ts, now) =~= Seq::<Seq<char>>::empty());
    }
    migrated
}

/// Appends an event and keeps the last `MAX_EVENTS` events.
pub fn push_event(log: &mut Vec<GameEvent>, ev: GameEvent)
    ensures
        views(final(log)@) == keep_last(views(old(log)@).push(ev@), MAX_EVENTS as nat),
{
    let ghost before = log@;
    let ghost e = ev@;
    log.push(ev);
    let ghost pushed = log@;
    trim_front(log, MAX_EVENTS);
    proof {
        assert(views(pushed) =~= views(before).push(e));
        assert(views(log@) =~= keep_last(views(pushed), MAX_EVENTS as nat));
    }
}

/// The general system event (the structured form of a plain log line).
pub open spec fn system_event(id: u64, ts: u64, actor: Option<Seq<char>>, message: Seq<char>) -> GameEventView {
    GameEventView {
        id,
        timestamp: ts,
        actor_id: actor,
        event_type: "system"@,
        data: "{}"@,
        message,
    }
}

/// Logs a system event with id `id` at time `now`.
pub fn push_system_event(log: &mut Vec<GameEvent>, message: &str, id: u64, now: u64)
    ensures
        views(final(log)@) == keep_last(
            views(old(log)@).push(system_event(id, now, None, message@)),
            MAX_EVENTS as nat,
        ),
{
    let ev = GameEvent {
        id,
        timestamp: now,
        actor_id: None,
        event_type: "system".to_owned(),
        data: "{}".to_owned(),
        message: message.to_owned(),
    };
    push_event(log, ev);
}

/// Logs a system event of the acting player `actor_id`, with id `id` at time `now`.
pub fn push_actor_system_event(log: &mut Vec<GameEvent>, actor_id: &str, message: &str, id: u64, now: u64)
    ensures
        views(final(log)@) == keep_last(
            views(old(log)@).push(system_event(id, now, Some(actor_id@), message@)),
            MAX_EVENTS as nat,
        ),
{
    let ev = GameEvent {
        id,
        timestamp: now,
        actor_id: Some(actor_id.to_owned()),
        event_type: "system".to_owned(),
        data: "{}".to_owned(),
        message: message.to_owned(),
    };
    push_event(log, ev);
}

} // verus!
