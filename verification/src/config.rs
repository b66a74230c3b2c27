//! Server settings: the modes, the defaults, and how setting values given as text are read.
use vstd::prelude::*;
use crate::text::{chars_of, parse_unsigned_spec, parse_unsigned_upto};
use crate::territory::WorldConfig;

verus! {

/// Which kind of world a server runs: shared PvP or per-player PvE.
#[derive(Debug, Clone, Copy, PartialEq, Eq, Structural)]
pub enum ServerMode {
    Pvp,
    Pve,
}

impl ServerMode {
    /// The mode's name as used in tokens and settings.
    pub fn as_str(&self) -> (s: &'static str)
        ensures
            s@ == match *self {
                ServerMode::Pvp => "pvp"@,
                ServerMode::Pve => "pve"@,
            },
    {
        match self {
            ServerMode::Pvp => "pvp",
            ServerMode::Pve => "pve",
        }
    }
}

pub const DEFAULT_PORT_PVP: u16 = 3000;
pub const DEFAULT_PORT_PVE: u16 = 3001;
pub const DEFAULT_STAMINA_RECOVERY_PER_MIN: u32 = 5;
pub const DEFAULT_WORLD_TICK_SEC: u64 = 60;
pub const DEFAULT_MARCH_IDLE_POLL_MS: u64 = 5_000;
pub const DEFAULT_FACILITY_RESOURCE_TICK_SEC: u64 = 600;
pub const DEFAULT_MAX_CARD_STAMINA: u32 = 100;
pub const DEFAULT_STAMINA_ATTACK: u32 = 50;
pub const DEFAULT_STAMINA_EXPLORATION: u32 = 5;
pub const DEFAULT_AI_TICK_INTERVAL_SEC: u64 = 10;
pub const DEFAULT_EVICT_IDLE_MINUTES: u64 = 30;
pub const DEFAULT_WORLD_COLS: u16 = 48;
pub const DEFAULT_WORLD_ROWS: u16 = 48;
pub const DEFAULT_DEV_BOT_INTERVAL_SEC: u64 = 45;
pub const MIN_DEV_BOT_INTERVAL_SEC: u64 = 10;

/// Number of tiles of the default world.
pub fn default_world_area() -> (a: u32)
    ensures
        a == 48 * 48,
{
    DEFAULT_WORLD_COLS as u32 * DEFAULT_WORLD_ROWS as u32
}

/// The port a server listens on by default: 3000 for PvP, 3001 for PvE.
pub open spec fn default_port_spec(mode: ServerMode) -> u16 {
    match mode {
        ServerMode::Pvp => DEFAULT_PORT_PVP,
        ServerMode::Pve => DEFAULT_PORT_PVE,
    }
}

/// The port a server listens on by default: 3000 for PvP, 3001 for PvE.
pub fn default_port_for_mode(mode: ServerMode) -> (p: u16)
    ensures
        p == default_port_spec(mode),
{
    match mode {
        ServerMode::Pvp => DEFAULT_PORT_PVP,
        ServerMode::Pve => DEFAULT_PORT_PVE,
    }
}

/// ASCII letters lowered, everything else kept.
pub open spec fn ascii_lower(c: char) -> char {
    if 'A' <= c <= 'Z' {
        ((c as u32) + 32) as char
    } else {
        c
    }
}

/// A flag setting is on when its value, lowercased, is "1", "true" or "yes".
pub open spec fn flag_on(v: Seq<char>) -> bool {
    let l = v.map_values(|c: char| ascii_lower(c));
    l == "1"@ || l == "true"@ || l == "yes"@
}

fn lower_chars(v: &Vec<char>) -> (r: Vec<char>)
    ensures
        r@ == v@.map_values(|c: char| ascii_lower(c)),
{
    let mut out: Vec<char> = Vec::new();
    let mut i: usize = 0;
    while i < v.len()
        invariant
            i <= v@.len(),
            out@ == v@.take(i as int).map_values(|c: char| ascii_lower(c)),
        decreases v@.len() - i,
    {
        let c = v[i];
        let l = if 'A' <= c && c <= 'Z' {
            ((c as u8) + 32) as char
        } else {
            c
        };
        proof {
            if 'A' <= c <= 'Z' {
                assert(l == ascii_lower(c));
            }
        }
        out.push(l);
        i += 1;
        proof {
            assert(out@ =~= v@.take(i as int).map_values(|c: char| ascii_lower(c)));
        }
    }
    proof {
        assert(v@.take(v@.len() as int) =~= v@);
    }
    out
}

/// Reads a flag setting: `default` when unset, otherwise on for "1", "true" or "yes" in any
/// letter case.
pub fn env_bool(value: Option<&str>, default: bool) -> (b: bool)
    ensures
        b == match value {
            Some(v) => flag_on(v@),
            None => default,
        },
{
    match value {
        Some(v) => {
            let l = lower_chars(&chars_of(v));
            crate::text::chars_eq(&l, &chars_of("1")) || crate::text::chars_eq(&l, &chars_of("true"))
                || crate::text::chars_eq(&l, &chars_of("yes"))
        },
        None => default,
    }
}

/// The number an unsigned setting holds when it parses and is at most `max`.
pub open spec fn parsed_upto(value: Option<&str>, max: u64) -> Option<u64> {
    match value {
        Some(v) => match parse_unsigned_spec(v@) {
            Some(n) => if n <= max {
                Some(n as u64)
            } else {
                None
            },
            None => None,
        },
        None => None,
    }
}

/// The value of an unsigned setting of at most `max`, or `default` when it is unset or
/// does not parse into that range.
pub open spec fn setting(value: Option<&str>, max: u64, default: u64) -> u64 {
    match parsed_upto(value, max) {
        Some(n) => n,
        None => default,
    }
}

fn parse_setting(value: Option<&str>, max: u64) -> (r: Option<u64>)
    ensures
        r == parsed_upto(value, max),
{
    match value {
        Some(v) => parse_unsigned_upto(&chars_of(v), max),
        None => None,
    }
}

/// Reads a `u64` setting, `default` when unset or not a `u64`.
pub fn env_u64(value: Option<&str>, default: u64) -> (n: u64)
    ensures
        n == setting(value, u64::MAX, default),
{
    match parse_setting(value, u64::MAX) {
        Some(n) => n,
        None => default,
    }
}

/// Reads a `u32` setting, `default` when unset or not a `u32`.
pub fn env_u32(value: Option<&str>, default: u32) -> (n: u32)
    ensures
        n == setting(value, u32::MAX as u64, default as u64),
{
    match parse_setting(value, u32::MAX as u64) {
        Some(n) => n as u32,
        None => default,
    }
}

/// Reads a `u16` setting, `default` when unset or not a `u16`.
pub fn env_u16(value: Option<&str>, default: u16) -> (n: u16)
    ensures
        n == setting(value, u16::MAX as u64, default as u64),
{
    match parse_setting(value, u16::MAX as u64) {
        Some(n) => n as u16,
        None => default,
    }
}

/// Reads an optional `u32` setting: `None` when unset or not a `u32`.
pub fn env_optional_u32(value: Option<&str>) -> (n: Option<u32>)
    ensures
        n == match parsed_upto(value, u32::MAX as u64) {
            Some(k) => Some(k as u32),
            None => None,
        },
{
    match parse_setting(value, u32::MAX as u64) {
        Some(n) => Some(n as u32),
        None => None,
    }
}

/// Stamina recovered per minute (default 5).
pub fn stamina_recovery_per_min(value: Option<&str>) -> (n: u32)
    ensures
        n == setting(value, u32::MAX as u64, DEFAULT_STAMINA_RECOVERY_PER_MIN as u64),
{
    env_u32(value, DEFAULT_STAMINA_RECOVERY_PER_MIN)
}

/// Seconds between world ticks (default 60).
pub fn world_tick_secs(value: Option<&str>) -> (n: u64)
    ensures
        n == setting(value, u64::MAX, DEFAULT_WORLD_TICK_SEC),
{
    env_u64(value, DEFAULT_WORLD_TICK_SEC)
}

/// Milliseconds the expedition scheduler idles when nothing is due (default 5000).
pub fn march_idle_poll_ms(value: Option<&str>) -> (n: u64)
    ensures
        n == setting(value, u64::MAX, DEFAULT_MARCH_IDLE_POLL_MS),
{
    env_u64(value, DEFAULT_MARCH_IDLE_POLL_MS)
}

/// Milliseconds between facility resource ticks (the setting is in seconds, default 600).
pub fn facility_resource_tick_ms(value: Option<&str>) -> (n: u64)
    requires
        setting(value, u64::MAX, DEFAULT_FACILITY_RESOURCE_TICK_SEC) * 1000 <= u64::MAX,
    ensures
        n == setting(value, u64::MAX, DEFAULT_FACILITY_RESOURCE_TICK_SEC) * 1000,
{
    env_u64(value, DEFAULT_FACILITY_RESOURCE_TICK_SEC) * 1000
}

/// Stamina cap of an owned monster (default 100).
pub fn max_card_stamina(value: Option<&str>) -> (n: u32)
    ensures
        n == setting(value, u32::MAX as u64, DEFAULT_MAX_CARD_STAMINA as u64),
{
    env_u32(value, DEFAULT_MAX_CARD_STAMINA)
}

/// Stamina an attack costs (default 50).
pub fn stamina_attack_cost(value: Option<&str>) -> (n: u32)
    ensures
        n == setting(value, u32::MAX as u64, DEFAULT_STAMINA_ATTACK as u64),
{
    env_u32(value, DEFAULT_STAMINA_ATTACK)
}

/// Stamina an exploration costs (default 5).
pub fn stamina_exploration_cost(value: Option<&str>) -> (n: u32)
    ensures
        n == setting(value, u32::MAX as u64, DEFAULT_STAMINA_EXPLORATION as u64),
{
    env_u32(value, DEFAULT_STAMINA_EXPLORATION)
}

/// Seconds between AI kingdom turns (default 10).
pub fn ai_tick_interval_secs(value: Option<&str>) -> (n: u64)
    ensures
        n == setting(value, u64::MAX, DEFAULT_AI_TICK_INTERVAL_SEC),
{
    env_u64(value, DEFAULT_AI_TICK_INTERVAL_SEC)
}

/// Idle minutes after which a world is unloaded (default 30).
pub fn evict_idle_minutes(value: Option<&str>) -> (n: u64)
    ensures
        n == setting(value, u64::MAX, DEFAULT_EVICT_IDLE_MINUTES),
{
    env_u64(value, DEFAULT_EVICT_IDLE_MINUTES)
}

/// The optional cap on AI factions.
pub fn ai_faction_max_cap(value: Option<&str>) -> (n: Option<u32>)
    ensures
        n == match parsed_upto(value, u32::MAX as u64) {
            Some(k) => Some(k as u32),
            None => None,
        },
{
    env_optional_u32(value)
}

/// The port to listen on: the setting, or the mode's default port.
pub fn listen_port(value: Option<&str>, mode: ServerMode) -> (p: u16)
    ensures
        p == setting(value, u16::MAX as u64, default_port_spec(mode) as u64),
{
    env_u16(value, default_port_for_mode(mode))
}

/// Whether the development auto-win switch is on (off by default).
pub fn dev_auto_win_enabled(value: Option<&str>) -> (b: bool)
    ensures
        b == match value {
            Some(v) => flag_on(v@),
            None => false,
        },
{
    env_bool(value, false)
}

/// The development bot runs when its own switch or the auto-win switch is on.
pub fn dev_bot_enabled(bot_value: Option<&str>, auto_win_value: Option<&str>) -> (b: bool)
    ensures
        b == (match bot_value {
            Some(v) => flag_on(v@),
            None => false,
        } || match auto_win_value {
            Some(v) => flag_on(v@),
            None => false,
        }),
{
    env_bool(bot_value, false) || dev_auto_win_enabled(auto_win_value)
}

/// Seconds between development bot rounds: the setting (default 45), never below 10.
pub fn dev_bot_interval_secs(value: Option<&str>) -> (n: u64)
    ensures
        n == if setting(value, u64::MAX, DEFAULT_DEV_BOT_INTERVAL_SEC) < MIN_DEV_BOT_INTERVAL_SEC {
            MIN_DEV_BOT_INTERVAL_SEC
        } else {
            setting(value, u64::MAX, DEFAULT_DEV_BOT_INTERVAL_SEC)
        },
{
    let n = env_u64(value, DEFAULT_DEV_BOT_INTERVAL_SEC);
    if n < MIN_DEV_BOT_INTERVAL_SEC {
        MIN_DEV_BOT_INTERVAL_SEC
    } else {
        n
    }
}


impl WorldConfig {
    /// The world size from its settings (given as read): columns and rows default to 48, the
    /// home to the middle of the map; no terrain seed is recorded.
    pub fn from_env(
        cols_value: Option<&str>,
        rows_value: Option<&str>,
        home_col_value: Option<&str>,
        home_row_value: Option<&str>,
    ) -> (w: WorldConfig)
        ensures
            w.cols == setting(cols_value, u16::MAX as u64, DEFAULT_WORLD_COLS as u64),
            w.rows == setting(rows_value, u16::MAX as u64, DEFAULT_WORLD_ROWS as u64),
            w.home_col == setting(home_col_value, u16::MAX as u64, (w.cols / 2) as u64),
            w.home_row == setting(home_row_value, u16::MAX as u64, (w.rows / 2) as u64),
            w.terrain_seed == 0,
    {
        let cols = env_u16(cols_value, DEFAULT_WORLD_COLS);
        let rows = env_u16(rows_value, DEFAULT_WORLD_ROWS);
        let home_col = env_u16(home_col_value, cols / 2);
        let home_row = env_u16(home_row_value, rows / 2);
        WorldConfig { cols, rows, home_col, home_row, terrain_seed: 0 }
    }
}

} // verus!
