//! The structured game events: each kind with its message and its data, a JSON object with the
//! keys in order.
use vstd::prelude::*;
use crate::game_log::{keep_last, push_event, push_str_chars, MAX_EVENTS};
use crate::model::{views, GameEvent, GameEventView};
use crate::text::{decimal, push_decimal, str_eq, string_from_chars};

verus! {

/// A hexadecimal digit, lower case.
pub open spec fn hex_digit(n: int) -> char {
    if n < 10 { (48 + n) as char } else { (87 + n) as char }
}

/// How JSON writes a character inside a string: quote and backslash escaped, the control
/// characters as `\b`, `\t`, `\n`, `\f`, `\r` or `\u00XX`, everything else as it is.
pub open spec fn json_escape(c: char) -> Seq<char> {
    if c == '"' {
        seq!['\\', '"']
    } else if c == '\\' {
        seq!['\\', '\\']
    } else if c == '\x08' {
        seq!['\\', 'b']
    } else if c == '\t' {
        seq!['\\', 't']
    } else if c == '\n' {
        seq!['\\', 'n']
    } else if c == '\x0c' {
        seq!['\\', 'f']
    } else if c == '\r' {
        seq!['\\', 'r']
    } else if (c as u32) < 0x20 {
        seq!['\\', 'u', '0', '0', hex_digit((c as u32) as int / 16), hex_digit((c as u32) as int % 16)]
    } else {
        seq![c]
    }
}

/// The escaped characters of a string.
pub open spec fn json_str_body(s: Seq<char>) -> Seq<char>
    decreases s.len(),
{
    if s.len() == 0 {
        seq![]
    } else {
        json_str_body(s.drop_last()) + json_escape(s.last())
    }
}

/// A string as a JSON string literal.
pub open spec fn json_str(s: Seq<char>) -> Seq<char> {
    seq!['"'] + json_str_body(s) + seq!['"']
}

/// `serde_json::to_string` on a string: the string as a JSON string literal (see
/// [`json_str`]); serialising a string does not fail.
#[verifier::external_body]
fn json_string_literal(s: &str) -> (r: String)
    ensures
        r@ == json_str(s@),
{
    match serde_json::to_string(s) {
        Ok(t) => t,
        Err(_) => String::new(),
    }
}

fn push_json_str(b: &mut Vec<char>, s: &str)
    ensures
        final(b)@ == old(b)@ + json_str(s@),
{
    let lit = json_string_literal(s);
    push_str_chars(b, lit.as_str());
}

fn push_num(b: &mut Vec<char>, n: u64)
    ensures
        final(b)@ == old(b)@ + decimal(n as nat),
{
    push_decimal(n, b);
}

/// An event of kind `event_type` with data `data` and message `message`.
pub open spec fn event_of(
    id: u64,
    now: u64,
    actor: Option<Seq<char>>,
    event_type: Seq<char>,
    data: Seq<char>,
    message: Seq<char>,
) -> GameEventView {
    GameEventView { id, timestamp: now, actor_id: actor, event_type, data, message }
}

fn push_new(
    log: &mut Vec<GameEvent>,
    id: u64,
    now: u64,
    actor: Option<&str>,
    event_type: &str,
    data: &Vec<char>,
    message: &Vec<char>,
)
    ensures
        views(final(log)@) == keep_last(
            views(old(log)@).push(event_of(id, now, match actor {
                Some(a) => Some(a@),
                None => None,
            }, event_type@, data@, message@)),
            MAX_EVENTS as nat,
        ),
{
    let ev = GameEvent {
        id,
        timestamp: now,
        actor_id: match actor {
            Some(a) => Some(a.to_owned()),
            None => None,
        },
        event_type: event_type.to_owned(),
        data: string_from_chars(data),
        message: string_from_chars(message),
    };
    push_event(log, ev);
}

/// The start of a battle for a tile.
pub fn push_battle_start_event(log: &mut Vec<GameEvent>, actor_id: &str, territory_name: &str, defender_label: &str, coords: &str, attacker_label: &str, id: u64, now: u64)
    ensures
        views(final(log)@) == keep_last(
            views(old(log)@).push(event_of(id, now, Some(actor_id@), "battle_start"@,
                "{\"attacker_label\":"@ + json_str(attacker_label@) + ",\"coords\":"@ + json_str(coords@) + ",\"defender_label\":"@ + json_str(defender_label@) + ",\"territory_name\":"@ + json_str(territory_name@) + "}"@,
                "【"@ + territory_name@ + coords@ + "侵攻戦】"@ + attacker_label@ + "が"@ + territory_name@ + "（"@ + defender_label@ + "）へ侵攻開始"@)),
            MAX_EVENTS as nat,
        ),
{
    let mut d: Vec<char> = Vec::new();
    push_str_chars(&mut d, "{\"attacker_label\":");
    push_json_str(&mut d, attacker_label);
    push_str_chars(&mut d, ",\"coords\":");
    push_json_str(&mut d, coords);
    push_str_chars(&mut d, ",\"defender_label\":");
    push_json_str(&mut d, defender_label);
    push_str_chars(&mut d, ",\"territory_name\":");
    push_json_str(&mut d, territory_name);
    push_str_chars(&mut d, "}");
    let mut m: Vec<char> = Vec::new();
    push_str_chars(&mut m, "【");
    push_str_chars(&mut m, territory_name);
    push_str_chars(&mut m, coords);
    push_str_chars(&mut m, "侵攻戦】");
    push_str_chars(&mut m, attacker_label);
    push_str_chars(&mut m, "が");
    push_str_chars(&mut m, territory_name);
    push_str_chars(&mut m, "（");
    push_str_chars(&mut m, defender_label);
    push_str_chars(&mut m, "）へ侵攻開始");
    proof {
        assert(d@ =~= "{\"attacker_label\":"@ + json_str(attacker_label@) + ",\"coords\":"@ + json_str(coords@) + ",\"defender_label\":"@ + json_str(defender_label@) + ",\"territory_name\":"@ + json_str(territory_name@) + "}"@);
        assert(m@ =~= "【"@ + territory_name@ + coords@ + "侵攻戦】"@ + attacker_label@ + "が"@ + territory_name@ + "（"@ + defender_label@ + "）へ侵攻開始"@);
    }
    push_new(log, id, now, Some(actor_id), "battle_start", &d, &m);
}

/// A new phase of a battle.
pub fn push_phase_event(log: &mut Vec<GameEvent>, phase: &str, id: u64, now: u64)
    ensures
        views(final(log)@) == keep_last(
            views(old(log)@).push(event_of(id, now, None, "phase"@,
                "{\"phase\":"@ + json_str(phase@) + "}"@,
                "--- "@ + phase@ + " ---"@)),
            MAX_EVENTS as nat,
        ),
{
    let mut d: Vec<char> = Vec::new();
    push_str_chars(&mut d, "{\"phase\":");
    push_json_str(&mut d, phase);
    push_str_chars(&mut d, "}");
    let mut m: Vec<char> = Vec::new();
    push_str_chars(&mut m, "--- ");
    push_str_chars(&mut m, phase);
    push_str_chars(&mut m, " ---");
    proof {
        assert(d@ =~= "{\"phase\":"@ + json_str(phase@) + "}"@);
        assert(m@ =~= "--- "@ + phase@ + " ---"@);
    }
    push_new(log, id, now, None, "phase", &d, &m);
}

/// What a skill did.
pub fn push_skill_effect_event(log: &mut Vec<GameEvent>, message: &str, id: u64, now: u64)
    ensures
        views(final(log)@) == keep_last(
            views(old(log)@).push(event_of(id, now, None, "skill_effect"@,
                "{}"@,
                message@)),
            MAX_EVENTS as nat,
        ),
{
    let mut d: Vec<char> = Vec::new();
    push_str_chars(&mut d, "{}");
    let mut m: Vec<char> = Vec::new();
    push_str_chars(&mut m, message);
    proof {
        assert(d@ =~= "{}"@);
        assert(m@ =~= message@);
    }
    push_new(log, id, now, None, "skill_effect", &d, &m);
}

/// Gold found.
pub fn push_loot_gold_event(log: &mut Vec<GameEvent>, actor_id: &str, amount: u32, id: u64, now: u64)
    ensures
        views(final(log)@) == keep_last(
            views(old(log)@).push(event_of(id, now, Some(actor_id@), "loot_gold"@,
                "{\"amount\":"@ + decimal(amount as nat) + "}"@,
                "ゴールド+"@ + decimal(amount as nat) + " を入手！"@)),
            MAX_EVENTS as nat,
        ),
{
    let mut d: Vec<char> = Vec::new();
    push_str_chars(&mut d, "{\"amount\":");
    push_num(&mut d, amount as u64);
    push_str_chars(&mut d, "}");
    let mut m: Vec<char> = Vec::new();
    push_str_chars(&mut m, "ゴールド+");
    push_num(&mut m, amount as u64);
    push_str_chars(&mut m, " を入手！");
    proof {
        assert(d@ =~= "{\"amount\":"@ + decimal(amount as nat) + "}"@);
        assert(m@ =~= "ゴールド+"@ + decimal(amount as nat) + " を入手！"@);
    }
    push_new(log, id, now, Some(actor_id), "loot_gold", &d, &m);
}

/// An item found.
pub fn push_loot_item_event(log: &mut Vec<GameEvent>, actor_id: &str, item_id: &str, item_name: &str, count: u32, id: u64, now: u64)
    ensures
        views(final(log)@) == keep_last(
            views(old(log)@).push(event_of(id, now, Some(actor_id@), "loot_item"@,
                "{\"count\":"@ + decimal(count as nat) + ",\"item_id\":"@ + json_str(item_id@) + ",\"item_name\":"@ + json_str(item_name@) + "}"@,
                item_name@ + "x"@ + decimal(count as nat) + " を入手！"@)),
            MAX_EVENTS as nat,
        ),
{
    let mut d: Vec<char> = Vec::new();
    push_str_chars(&mut d, "{\"count\":");
    push_num(&mut d, count as u64);
    push_str_chars(&mut d, ",\"item_id\":");
    push_json_str(&mut d, item_id);
    push_str_chars(&mut d, ",\"item_name\":");
    push_json_str(&mut d, item_name);
    push_str_chars(&mut d, "}");
    let mut m: Vec<char> = Vec::new();
    push_str_chars(&mut m, item_name);
    push_str_chars(&mut m, "x");
    push_num(&mut m, count as u64);
    push_str_chars(&mut m, " を入手！");
    proof {
        assert(d@ =~= "{\"count\":"@ + decimal(count as nat) + ",\"item_id\":"@ + json_str(item_id@) + ",\"item_name\":"@ + json_str(item_name@) + "}"@);
        assert(m@ =~= item_name@ + "x"@ + decimal(count as nat) + " を入手！"@);
    }
    push_new(log, id, now, Some(actor_id), "loot_item", &d, &m);
}

/// A monster card won.
pub fn push_card_drop_event(log: &mut Vec<GameEvent>, actor_id: &str, card_name: &str, id: u64, now: u64)
    ensures
        views(final(log)@) == keep_last(
            views(old(log)@).push(event_of(id, now, Some(actor_id@), "card_drop"@,
                "{\"card_name\":"@ + json_str(card_name@) + "}"@,
                "魔獣「"@ + card_name@ + "」を入手！"@)),
            MAX_EVENTS as nat,
        ),
{
    let mut d: Vec<char> = Vec::new();
    push_str_chars(&mut d, "{\"card_name\":");
    push_json_str(&mut d, card_name);
    push_str_chars(&mut d, "}");
    let mut m: Vec<char> = Vec::new();
    push_str_chars(&mut m, "魔獣「");
    push_str_chars(&mut m, card_name);
    push_str_chars(&mut m, "」を入手！");
    proof {
        assert(d@ =~= "{\"card_name\":"@ + json_str(card_name@) + "}"@);
        assert(m@ =~= "魔獣「"@ + card_name@ + "」を入手！"@);
    }
    push_new(log, id, now, Some(actor_id), "card_drop", &d, &m);
}

/// A tile conquered.
pub fn push_conquest_event(log: &mut Vec<GameEvent>, actor_id: &str, territory_name: &str, id: u64, now: u64)
    ensures
        views(final(log)@) == keep_last(
            views(old(log)@).push(event_of(id, now, Some(actor_id@), "conquest"@,
                "{\"territory_name\":"@ + json_str(territory_name@) + "}"@,
                territory_name@ + "を占領しました！"@)),
            MAX_EVENTS as nat,
        ),
{
    let mut d: Vec<char> = Vec::new();
    push_str_chars(&mut d, "{\"territory_name\":");
    push_json_str(&mut d, territory_name);
    push_str_chars(&mut d, "}");
    let mut m: Vec<char> = Vec::new();
    push_str_chars(&mut m, territory_name);
    push_str_chars(&mut m, "を占領しました！");
    proof {
        assert(d@ =~= "{\"territory_name\":"@ + json_str(territory_name@) + "}"@);
        assert(m@ =~= territory_name@ + "を占領しました！"@);
    }
    push_new(log, id, now, Some(actor_id), "conquest", &d, &m);
}

/// The resources a conquest brought.
pub fn push_conquest_reward_event(log: &mut Vec<GameEvent>, actor_id: &str, food: u64, wood: u64, stone: u64, iron: u64, id: u64, now: u64)
    ensures
        views(final(log)@) == keep_last(
            views(old(log)@).push(event_of(id, now, Some(actor_id@), "conquest_reward"@,
                "{\"food\":"@ + decimal(food as nat) + ",\"iron\":"@ + decimal(iron as nat) + ",\"stone\":"@ + decimal(stone as nat) + ",\"wood\":"@ + decimal(wood as nat) + "}"@,
                "占領報酬: 食料+"@ + decimal(food as nat) + "・木+"@ + decimal(wood as nat) + "・石+"@ + decimal(stone as nat) + "・鉄+"@ + decimal(iron as nat))),
            MAX_EVENTS as nat,
        ),
{
    let mut d: Vec<char> = Vec::new();
    push_str_chars(&mut d, "{\"food\":");
    push_num(&mut d, food as u64);
    push_str_chars(&mut d, ",\"iron\":");
    push_num(&mut d, iron as u64);
    push_str_chars(&mut d, ",\"stone\":");
    push_num(&mut d, stone as u64);
    push_str_chars(&mut d, ",\"wood\":");
    push_num(&mut d, wood as u64);
    push_str_chars(&mut d, "}");
    let mut m: Vec<char> = Vec::new();
    push_str_chars(&mut m, "占領報酬: 食料+");
    push_num(&mut m, food as u64);
    push_str_chars(&mut m, "・木+");
    push_num(&mut m, wood as u64);
    push_str_chars(&mut m, "・石+");
    push_num(&mut m, stone as u64);
    push_str_chars(&mut m, "・鉄+");
    push_num(&mut m, iron as u64);
    proof {
        assert(d@ =~= "{\"food\":"@ + decimal(food as nat) + ",\"iron\":"@ + decimal(iron as nat) + ",\"stone\":"@ + decimal(stone as nat) + ",\"wood\":"@ + decimal(wood as nat) + "}"@);
        assert(m@ =~= "占領報酬: 食料+"@ + decimal(food as nat) + "・木+"@ + decimal(wood as nat) + "・石+"@ + decimal(stone as nat) + "・鉄+"@ + decimal(iron as nat));
    }
    push_new(log, id, now, Some(actor_id), "conquest_reward", &d, &m);
}

/// A ruin cleared.
pub fn push_ruin_clear_event(log: &mut Vec<GameEvent>, actor_id: &str, id: u64, now: u64)
    ensures
        views(final(log)@) == keep_last(
            views(old(log)@).push(event_of(id, now, Some(actor_id@), "ruin_clear"@,
                "{}"@,
                "遺跡を攻略しました！"@)),
            MAX_EVENTS as nat,
        ),
{
    let mut d: Vec<char> = Vec::new();
    push_str_chars(&mut d, "{}");
    let mut m: Vec<char> = Vec::new();
    push_str_chars(&mut m, "遺跡を攻略しました！");
    proof {
        assert(d@ =~= "{}"@);
        assert(m@ =~= "遺跡を攻略しました！"@);
    }
    push_new(log, id, now, Some(actor_id), "ruin_clear", &d, &m);
}

/// A monster's new level.
pub fn push_level_up_event(log: &mut Vec<GameEvent>, name: &str, level: u32, id: u64, now: u64)
    ensures
        views(final(log)@) == keep_last(
            views(old(log)@).push(event_of(id, now, None, "level_up"@,
                "{\"level\":"@ + decimal(level as nat) + ",\"name\":"@ + json_str(name@) + "}"@,
                name@ + "がLv"@ + decimal(level as nat) + "に上がった！"@)),
            MAX_EVENTS as nat,
        ),
{
    let mut d: Vec<char> = Vec::new();
    push_str_chars(&mut d, "{\"level\":");
    push_num(&mut d, level as u64);
    push_str_chars(&mut d, ",\"name\":");
    push_json_str(&mut d, name);
    push_str_chars(&mut d, "}");
    let mut m: Vec<char> = Vec::new();
    push_str_chars(&mut m, name);
    push_str_chars(&mut m, "がLv");
    push_num(&mut m, level as u64);
    push_str_chars(&mut m, "に上がった！");
    proof {
        assert(d@ =~= "{\"level\":"@ + decimal(level as nat) + ",\"name\":"@ + json_str(name@) + "}"@);
        assert(m@ =~= name@ + "がLv"@ + decimal(level as nat) + "に上がった！"@);
    }
    push_new(log, id, now, None, "level_up", &d, &m);
}

/// An exploration sent out.
pub fn push_explore_dispatch_event(log: &mut Vec<GameEvent>, actor_id: &str, territory_name: &str, message: &str, id: u64, now: u64)
    ensures
        views(final(log)@) == keep_last(
            views(old(log)@).push(event_of(id, now, Some(actor_id@), "explore_dispatch"@,
                "{\"territory_name\":"@ + json_str(territory_name@) + "}"@,
                message@)),
            MAX_EVENTS as nat,
        ),
{
    let mut d: Vec<char> = Vec::new();
    push_str_chars(&mut d, "{\"territory_name\":");
    push_json_str(&mut d, territory_name);
    push_str_chars(&mut d, "}");
    let mut m: Vec<char> = Vec::new();
    push_str_chars(&mut m, message);
    proof {
        assert(d@ =~= "{\"territory_name\":"@ + json_str(territory_name@) + "}"@);
        assert(m@ =~= message@);
    }
    push_new(log, id, now, Some(actor_id), "explore_dispatch", &d, &m);
}

/// An exploration back, with what it found.
pub fn push_explore_complete_event(log: &mut Vec<GameEvent>, actor_id: &str, territory_name: &str, food: u64, wood: u64, stone: u64, iron: u64, id: u64, now: u64)
    ensures
        views(final(log)@) == keep_last(
            views(old(log)@).push(event_of(id, now, Some(actor_id@), "explore_complete"@,
                "{\"food\":"@ + decimal(food as nat) + ",\"iron\":"@ + decimal(iron as nat) + ",\"stone\":"@ + decimal(stone as nat) + ",\"territory_name\":"@ + json_str(territory_name@) + ",\"wood\":"@ + decimal(wood as nat) + "}"@,
                territory_name@ + "の探索が完了。食料+"@ + decimal(food as nat) + "・木+"@ + decimal(wood as nat) + "・石+"@ + decimal(stone as nat) + "・鉄+"@ + decimal(iron as nat))),
            MAX_EVENTS as nat,
        ),
{
    let mut d: Vec<char> = Vec::new();
    push_str_chars(&mut d, "{\"food\":");
    push_num(&mut d, food as u64);
    push_str_chars(&mut d, ",\"iron\":");
    push_num(&mut d, iron as u64);
    push_str_chars(&mut d, ",\"stone\":");
    push_num(&mut d, stone as u64);
    push_str_chars(&mut d, ",\"territory_name\":");
    push_json_str(&mut d, territory_name);
    push_str_chars(&mut d, ",\"wood\":");
    push_num(&mut d, wood as u64);
    push_str_chars(&mut d, "}");
    let mut m: Vec<char> = Vec::new();
    push_str_chars(&mut m, territory_name);
    push_str_chars(&mut m, "の探索が完了。食料+");
    push_num(&mut m, food as u64);
    push_str_chars(&mut m, "・木+");
    push_num(&mut m, wood as u64);
    push_str_chars(&mut m, "・石+");
    push_num(&mut m, stone as u64);
    push_str_chars(&mut m, "・鉄+");
    push_num(&mut m, iron as u64);
    proof {
        assert(d@ =~= "{\"food\":"@ + decimal(food as nat) + ",\"iron\":"@ + decimal(iron as nat) + ",\"stone\":"@ + decimal(stone as nat) + ",\"territory_name\":"@ + json_str(territory_name@) + ",\"wood\":"@ + decimal(wood as nat) + "}"@);
        assert(m@ =~= territory_name@ + "の探索が完了。食料+"@ + decimal(food as nat) + "・木+"@ + decimal(wood as nat) + "・石+"@ + decimal(stone as nat) + "・鉄+"@ + decimal(iron as nat));
    }
    push_new(log, id, now, Some(actor_id), "explore_complete", &d, &m);
}

/// A new exploration level.
pub fn push_explore_level_up_event(log: &mut Vec<GameEvent>, actor_id: &str, message: &str, id: u64, now: u64)
    ensures
        views(final(log)@) == keep_last(
            views(old(log)@).push(event_of(id, now, Some(actor_id@), "explore_level_up"@,
                "{}"@,
                message@)),
            MAX_EVENTS as nat,
        ),
{
    let mut d: Vec<char> = Vec::new();
    push_str_chars(&mut d, "{}");
    let mut m: Vec<char> = Vec::new();
    push_str_chars(&mut m, message);
    proof {
        assert(d@ =~= "{}"@);
        assert(m@ =~= message@);
    }
    push_new(log, id, now, Some(actor_id), "explore_level_up", &d, &m);
}

/// News of an alliance.
pub fn push_alliance_event(log: &mut Vec<GameEvent>, message: &str, id: u64, now: u64)
    ensures
        views(final(log)@) == keep_last(
            views(old(log)@).push(event_of(id, now, None, "alliance"@,
                "{}"@,
                message@)),
            MAX_EVENTS as nat,
        ),
{
    let mut d: Vec<char> = Vec::new();
    push_str_chars(&mut d, "{}");
    let mut m: Vec<char> = Vec::new();
    push_str_chars(&mut m, message);
    proof {
        assert(d@ =~= "{}"@);
        assert(m@ =~= message@);
    }
    push_new(log, id, now, None, "alliance", &d, &m);
}

/// The message of a battle's end by its result: victory, practice victory or defeat, defeat,
/// a partial win, a timeout; any other result as it is.
pub open spec fn battle_end_message(result: Seq<char>, territory_name: Seq<char>) -> Seq<char> {
    if result == "victory"@ {
        territory_name + "を占領しました！"@
    } else if result == "practice_victory"@ {
        territory_name + "の演習戦に勝利した！"@
    } else if result == "practice_defeat"@ {
        "演習戦に敗北した。"@ + territory_name + "の防衛に成功。"@
    } else if result == "defeat"@ {
        "攻撃失敗。"@ + territory_name + "の防衛に成功。"@
    } else if result == "partial"@ {
        "敵を撃破したが"@ + territory_name + "は耐久が残り、占領には至らなかった。"@
    } else if result == "timeout"@ {
        "8ターン経過。防衛側の勝利。"@
    } else {
        result
    }
}

/// The end of a battle, with its result.
pub fn push_battle_end_event(log: &mut Vec<GameEvent>, actor_id: &str, result: &str, territory_name: &str, id: u64, now: u64)
    ensures
        views(final(log)@) == keep_last(
            views(old(log)@).push(event_of(id, now, Some(actor_id@), "battle_end"@,
                "{\"result\":"@ + json_str(result@) + ",\"territory_name\":"@ + json_str(territory_name@) + "}"@,
                battle_end_message(result@, territory_name@))),
            MAX_EVENTS as nat,
        ),
{
    let mut d: Vec<char> = Vec::new();
    push_str_chars(&mut d, "{\"result\":");
    push_json_str(&mut d, result);
    push_str_chars(&mut d, ",\"territory_name\":");
    push_json_str(&mut d, territory_name);
    push_str_chars(&mut d, "}");
    let mut m: Vec<char> = Vec::new();
    if str_eq(result, "victory") {
        push_str_chars(&mut m, territory_name);
        push_str_chars(&mut m, "を占領しました！");
    } else if str_eq(result, "practice_victory") {
        push_str_chars(&mut m, territory_name);
        push_str_chars(&mut m, "の演習戦に勝利した！");
    } else if str_eq(result, "practice_defeat") {
        push_str_chars(&mut m, "演習戦に敗北した。");
        push_str_chars(&mut m, territory_name);
        push_str_chars(&mut m, "の防衛に成功。");
    } else if str_eq(result, "defeat") {
        push_str_chars(&mut m, "攻撃失敗。");
        push_str_chars(&mut m, territory_name);
        push_str_chars(&mut m, "の防衛に成功。");
    } else if str_eq(result, "partial") {
        push_str_chars(&mut m, "敵を撃破したが");
        push_str_chars(&mut m, territory_name);
        push_str_chars(&mut m, "は耐久が残り、占領には至らなかった。");
    } else if str_eq(result, "timeout") {
        push_str_chars(&mut m, "8ターン経過。防衛側の勝利。");
    } else {
        push_str_chars(&mut m, result);
    }
    proof {
        assert(d@ =~= "{\"result\":"@ + json_str(result@) + ",\"territory_name\":"@ + json_str(territory_name@) + "}"@);
        assert(m@ =~= battle_end_message(result@, territory_name@));
    }
    push_new(log, id, now, Some(actor_id), "battle_end", &d, &m);
}

/// A defeated body: "<target>が撃破されました。" when the enemy acts, else
/// "<attacker>が<target>を撃破しました。".
pub fn push_defeat_event(log: &mut Vec<GameEvent>, attacker: &str, target: &str, actor_is_player: bool, id: u64, now: u64)
    ensures
        views(final(log)@) == keep_last(
            views(old(log)@).push(event_of(id, now, None, "defeat"@,
                "{\"attacker\":"@ + json_str(attacker@) + ",\"target\":"@ + json_str(target@) + "}"@,
                if actor_is_player { attacker@ + "が"@ + target@ + "を撃破しました。"@ } else { target@ + "が撃破されました。"@ })),
            MAX_EVENTS as nat,
        ),
{
    let mut d: Vec<char> = Vec::new();
    push_str_chars(&mut d, "{\"attacker\":");
    push_json_str(&mut d, attacker);
    push_str_chars(&mut d, ",\"target\":");
    push_json_str(&mut d, target);
    push_str_chars(&mut d, "}");
    let mut m: Vec<char> = Vec::new();
    if !actor_is_player {
        push_str_chars(&mut m, target);
        push_str_chars(&mut m, "が撃破されました。");
    } else {
        push_str_chars(&mut m, attacker);
        push_str_chars(&mut m, "が");
        push_str_chars(&mut m, target);
        push_str_chars(&mut m, "を撃破しました。");
    }
    proof {
        assert(d@ =~= "{\"attacker\":"@ + json_str(attacker@) + ",\"target\":"@ + json_str(target@) + "}"@);
        assert(m@ =~= if actor_is_player { attacker@ + "が"@ + target@ + "を撃破しました。"@ } else { target@ + "が撃破されました。"@ });
    }
    push_new(log, id, now, None, "defeat", &d, &m);
}

/// A skill set off: a unique skill ("skill_unique", labelled 固有スキル) or an active one
/// ("skill_active").
pub fn push_skill_event(
    log: &mut Vec<GameEvent>,
    side: &str,
    char_name: &str,
    skill_name: &str,
    is_unique: bool,
    prefix: &str,
    id: u64,
    now: u64,
)
    ensures
        views(final(log)@) == keep_last(
            views(old(log)@).push(event_of(id, now, None, if is_unique { "skill_unique"@ } else { "skill_active"@ },
                "{\"character\":"@ + json_str(char_name@) + ",\"side\":"@ + json_str(side@) + ",\"skill\":"@ + json_str(skill_name@) + "}"@,
                prefix@ + " "@ + side@ + " "@ + char_name@ + "の"@ + (if is_unique { "固有スキル"@ } else { ""@ }) + "「"@ + skill_name@ + "」が発動！"@)),
            MAX_EVENTS as nat,
        ),
{
    let mut d: Vec<char> = Vec::new();
    push_str_chars(&mut d, "{\"character\":");
    push_json_str(&mut d, char_name);
    push_str_chars(&mut d, ",\"side\":");
    push_json_str(&mut d, side);
    push_str_chars(&mut d, ",\"skill\":");
    push_json_str(&mut d, skill_name);
    push_str_chars(&mut d, "}");
    let label = if is_unique { "固有スキル" } else { "" };
    let mut m: Vec<char> = Vec::new();
    push_str_chars(&mut m, prefix);
    push_str_chars(&mut m, " ");
    push_str_chars(&mut m, side);
    push_str_chars(&mut m, " ");
    push_str_chars(&mut m, char_name);
    push_str_chars(&mut m, "の");
    push_str_chars(&mut m, label);
    push_str_chars(&mut m, "「");
    push_str_chars(&mut m, skill_name);
    push_str_chars(&mut m, "」が発動！");
    let et = if is_unique { "skill_unique" } else { "skill_active" };
    proof {
        assert(d@ =~= "{\"character\":"@ + json_str(char_name@) + ",\"side\":"@ + json_str(side@) + ",\"skill\":"@ + json_str(skill_name@) + "}"@);
        assert(m@ =~= prefix@ + " "@ + side@ + " "@ + char_name@ + "の"@ + (if is_unique { "固有スキル"@ } else { ""@ }) + "「"@ + skill_name@ + "」が発動！"@);
    }
    push_new(log, id, now, None, et, &d, &m);
}

/// The JSON array of already written JSON values.
pub open spec fn json_array(items: Seq<Seq<char>>) -> Seq<char>
    decreases items.len(),
{
    if items.len() == 0 {
        "[]"@
    } else if items.len() == 1 {
        "["@ + items[0] + "]"@
    } else {
        json_array(items.drop_last()).drop_last() + ","@ + items.last() + "]"@
    }
}

/// The enemy line-up of a battle; each enemy is given as a JSON value already written.
pub fn push_enemy_roster_event(log: &mut Vec<GameEvent>, enemies: &Vec<String>, id: u64, now: u64)
    ensures
        views(final(log)@) == keep_last(
            views(old(log)@).push(event_of(id, now, None, "enemy_roster"@,
                "{\"enemies\":"@ + json_array(views(enemies@)) + "}"@,
                "--- 敵編成 ---"@)),
            MAX_EVENTS as nat,
        ),
{
    let mut arr: Vec<char> = Vec::new();
    push_str_chars(&mut arr, "[");
    proof {
        reveal_strlit("[");
        reveal_strlit("]");
        reveal_strlit("[]");
        assert(arr@ =~= "["@);
        assert(views(enemies@).take(0).len() == 0);
        assert(arr@ + "]"@ =~= "[]"@);
    }
    let mut k: usize = 0;
    while k < enemies.len()
        invariant
            k <= enemies@.len(),
            k == 0 ==> arr@ == "["@,
            arr@ + "]"@ == json_array(views(enemies@).take(k as int)),
        decreases enemies@.len() - k,
    {
        proof {
            assert(views(enemies@).take(k + 1).drop_last() =~= views(enemies@).take(k as int));
            assert(views(enemies@).take(k + 1).last() == enemies@[k as int]@);
        }
        let ghost before = arr@;
        if k > 0 {
            push_str_chars(&mut arr, ",");
        }
        push_str_chars(&mut arr, enemies[k].as_str());
        proof {
            reveal_strlit("]");
            reveal_strlit("[");
            reveal_strlit(",");
            if k == 0 {
                assert(before =~= "["@);
                assert(arr@ + "]"@ =~= "["@ + enemies@[0]@ + "]"@);
            } else {
                assert((before + "]"@).drop_last() =~= before);
                assert(arr@ + "]"@ =~= (before + "]"@).drop_last() + ","@ + enemies@[k as int]@ + "]"@);
            }
        }
        k += 1;
    }
    push_str_chars(&mut arr, "]");
    proof {
        assert(views(enemies@).take(enemies@.len() as int) =~= views(enemies@));
    }
    let mut d: Vec<char> = Vec::new();
    push_str_chars(&mut d, "{\"enemies\":");
    let a = string_from_chars(&arr);
    push_str_chars(&mut d, a.as_str());
    push_str_chars(&mut d, "}");
    let mut m: Vec<char> = Vec::new();
    push_str_chars(&mut m, "--- 敵編成 ---");
    proof {
        assert(d@ =~= "{\"enemies\":"@ + json_array(views(enemies@)) + "}"@);
        assert(m@ =~= "--- 敵編成 ---"@);
    }
    push_new(log, id, now, None, "enemy_roster", &d, &m);
}

} // verus!
