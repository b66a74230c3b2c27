//! Territories (map tiles), their ids and the lookups the rules make on them.
use vstd::prelude::*;
use crate::grid::{abs, coords_of, parse_territory_id, territory_id, territory_id_spec};
use crate::text::{chars_of, chars_eq, str_eq};

verus! {

/// Column of the default home tile.
pub const HOME_COL: u16 = 24;

/// Row of the default home tile.
pub const HOME_ROW: u16 = 24;

/// Size of the map and where the first home stands.
#[derive(Debug, Clone, Copy, PartialEq, Eq, Structural)]
pub struct WorldConfig {
    pub cols: u16,
    pub rows: u16,
    pub home_col: u16,
    pub home_row: u16,
    /// Seed of the terrain generator; 0 means none was recorded.
    pub terrain_seed: u64,
}

impl WorldConfig {
    /// The default 48x48 world with its home at (24, 24) and no recorded seed.
    pub fn default_world() -> (w: WorldConfig)
        ensures
            w.cols == 48 && w.rows == 48 && w.home_col == HOME_COL && w.home_row == HOME_ROW
                && w.terrain_seed == 0,
    {
        WorldConfig { cols: 48, rows: 48, home_col: HOME_COL, home_row: HOME_ROW, terrain_seed: 0 }
    }
}

impl Default for WorldConfig {
    fn default() -> (w: WorldConfig)
        ensures
            w.cols == 48 && w.rows == 48 && w.home_col == HOME_COL && w.home_row == HOME_ROW
                && w.terrain_seed == 0,
    {
        WorldConfig::default_world()
    }
}

/// A ruin standing on a tile (spawned by the world's background events).
#[derive(Debug)]
pub struct RuinInfo {
    pub territory_id: String,
}

impl Clone for RuinInfo {
    fn clone(&self) -> (r: Self)
        ensures
            r.territory_id@ == self.territory_id@,
    {
        RuinInfo { territory_id: self.territory_id.clone() }
    }
}

/// One map tile. Without an owner it is neutral (PvE enemies or unclaimed land).
#[derive(Debug)]
pub struct Territory {
    pub id: String,
    pub name: String,
    /// Terrain level 1..9; also the PvE difficulty.
    pub level: u8,
    /// Owner id; `None` is neutral.
    pub owner_id: Option<String>,
    /// Number of bodies stationed.
    pub troops: u32,
    /// Monsters per body; meaningful only when its length equals `troops`.
    pub body_monster_counts: Option<Vec<u32>>,
    /// Display name per body; meaningful only when its length equals `troops`.
    pub body_names: Option<Vec<String>>,
    pub ruin: Option<RuinInfo>,
    /// Forward base flag.
    pub is_base: bool,
    pub durability: u32,
    pub max_durability: u32,
    /// Tower level 1..7, 0 for a plain tile.
    pub tower_level: u8,
}

/// The abstract content of a territory: strings by their characters.
pub struct TerritoryView {
    pub id: Seq<char>,
    pub name: Seq<char>,
    pub level: u8,
    pub owner_id: Option<Seq<char>>,
    pub troops: u32,
    pub body_monster_counts: Option<Seq<u32>>,
    pub body_names: Option<Seq<Seq<char>>>,
    pub ruin: Option<Seq<char>>,
    pub is_base: bool,
    pub durability: u32,
    pub max_durability: u32,
    pub tower_level: u8,
}

pub open spec fn string_seq_view(v: Seq<String>) -> Seq<Seq<char>> {
    Seq::new(v.len(), |i: int| v[i]@)
}

pub open spec fn opt_string_view(o: Option<String>) -> Option<Seq<char>> {
    match o {
        Some(s) => Some(s@),
        None => None,
    }
}

impl View for Territory {
    type V = TerritoryView;

    open spec fn view(&self) -> TerritoryView {
        TerritoryView {
            id: self.id@,
            name: self.name@,
            level: self.level,
            owner_id: opt_string_view(self.owner_id),
            troops: self.troops,
            body_monster_counts: match self.body_monster_counts {
                Some(v) => Some(v@),
                None => None,
            },
            body_names: match self.body_names {
                Some(v) => Some(string_seq_view(v@)),
                None => None,
            },
            ruin: match self.ruin {
                Some(r) => Some(r.territory_id@),
                None => None,
            },
            is_base: self.is_base,
            durability: self.durability,
            max_durability: self.max_durability,
            tower_level: self.tower_level,
        }
    }
}

pub fn clone_string_vec(v: &Vec<String>) -> (r: Vec<String>)
    ensures
        string_seq_view(r@) == string_seq_view(v@),
        r@.len() == v@.len(),
{
    let mut out: Vec<String> = Vec::new();
    let mut i: usize = 0;
    while i < v.len()
        invariant
            i <= v.len(),
            out@.len() == i,
            forall|j: int| 0 <= j < i ==> out@[j]@ == v@[j]@,
        decreases v.len() - i,
    {
        out.push(v[i].clone());
        i += 1;
    }
    proof {
        assert(string_seq_view(out@) =~= string_seq_view(v@));
    }
    out
}

pub fn clone_u32_vec(v: &Vec<u32>) -> (r: Vec<u32>)
    ensures
        r@ == v@,
{
    let mut out: Vec<u32> = Vec::new();
    let mut i: usize = 0;
    while i < v.len()
        invariant
            i <= v.len(),
            out@ == v@.take(i as int),
        decreases v.len() - i,
    {
        out.push(v[i]);
        i += 1;
        proof {
            assert(out@ =~= v@.take(i as int));
        }
    }
    proof {
        assert(v@.take(v@.len() as int) =~= v@);
    }
    out
}

pub fn clone_opt_string(o: &Option<String>) -> (r: Option<String>)
    ensures
        opt_string_view(r) == opt_string_view(*o),
{
    match o {
        Some(s) => Some(s.clone()),
        None => None,
    }
}

impl Clone for Territory {
    fn clone(&self) -> (r: Self)
        ensures
            r@ == self@,
    {
        Territory {
            id: self.id.clone(),
            name: self.name.clone(),
            level: self.level,
            owner_id: clone_opt_string(&self.owner_id),
            troops: self.troops,
            body_monster_counts: match &self.body_monster_counts {
                Some(v) => Some(clone_u32_vec(v)),
                None => None,
            },
            body_names: match &self.body_names {
                Some(v) => Some(clone_string_vec(v)),
                None => None,
            },
            ruin: match &self.ruin {
                Some(r) => Some(r.clone()),
                None => None,
            },
            is_base: self.is_base,
            durability: self.durability,
            max_durability: self.max_durability,
            tower_level: self.tower_level,
        }
    }
}

/// `i` is the first position whose territory has id `id`.
pub open spec fn is_first_id_index(ts: Seq<Territory>, id: Seq<char>, i: int) -> bool {
    0 <= i < ts.len() && ts[i].id@ == id && forall|j: int| 0 <= j < i ==> ts[j].id@ != id
}

/// No territory has id `id`.
pub open spec fn id_absent(ts: Seq<Territory>, id: Seq<char>) -> bool {
    forall|j: int| 0 <= j < ts.len() ==> ts[j].id@ != id
}

/// Owner id equals `who`.
pub open spec fn owned_by(t: Territory, who: Seq<char>) -> bool {
    t.owner_id matches Some(o) && o@ == who
}

/// Owner id is one of `owners`.
pub open spec fn owned_by_any(t: Territory, owners: Seq<String>) -> bool {
    t.owner_id matches Some(o) && exists|k: int| 0 <= k < owners.len() && owners[k]@ == o@
}

/// Position of the first territory with the given id.
pub fn get_territory_index(territories: &[Territory], id: &str) -> (r: Option<usize>)
    ensures
        match r {
            Some(i) => is_first_id_index(territories@, id@, i as int),
            None => id_absent(territories@, id@),
        },
{
    let key = chars_of(id);
    let mut i: usize = 0;
    while i < territories.len()
        invariant
            i <= territories@.len(),
            key@ == id@,
            forall|j: int| 0 <= j < i ==> territories@[j].id@ != id@,
        decreases territories.len() - i,
    {
        let c = chars_of(territories[i].id.as_str());
        if chars_eq(&c, &key) {
            return Some(i);
        }
        i += 1;
    }
    None
}

/// Whether the id names the default home tile (24, 24).
pub fn is_home_territory(id: &str) -> (r: bool)
    ensures
        r == (coords_of(id@) == Some((HOME_COL as i32, HOME_ROW as i32))),
{
    match parse_territory_id(id) {
        Some((c, r)) => c == HOME_COL as i32 && r == HOME_ROW as i32,
        None => false,
    }
}

/// The id of the default home tile.
pub fn home_territory_id() -> (s: String)
    ensures
        s@ == territory_id_spec(HOME_COL as nat, HOME_ROW as nat),
{
    territory_id(HOME_COL as u64, HOME_ROW as u64)
}

/// Whether `who` equals one of `ids`.
pub fn contains_str(ids: &[String], who: &str) -> (r: bool)
    ensures
        r == exists|k: int| 0 <= k < ids@.len() && ids@[k]@ == who@,
{
    let mut i: usize = 0;
    while i < ids.len()
        invariant
            i <= ids@.len(),
            forall|k: int| 0 <= k < i ==> ids@[k]@ != who@,
        decreases ids.len() - i,
    {
        if str_eq(ids[i].as_str(), who) {
            return true;
        }
        i += 1;
    }
    false
}

/// Whether reinforcements may be sent to the tile: it exists and is owned by the actor or
/// by one of the allied owners.
pub fn can_receive_reinforcement(
    territories: &[Territory],
    actor_player_id: &str,
    allied_owner_ids: &[String],
    territory_id: &str,
) -> (r: bool)
    ensures
        r == exists|i: int|
            is_first_id_index(territories@, territory_id@, i) && (owned_by(
                territories@[i],
                actor_player_id@,
            ) || owned_by_any(territories@[i], allied_owner_ids@)),
{
    let Some(idx) = get_territory_index(territories, territory_id) else {
        return false;
    };
    let owner = match &territories[idx].owner_id {
        Some(id) => id.as_str(),
        None => return false,
    };
    str_eq(owner, actor_player_id) || contains_str(allied_owner_ids, owner)
}

/// Name of the first territory with the given id, or the id itself when there is none.
pub fn territory_name<'a>(territories: &'a [Territory], id: &'a str) -> (r: &'a str)
    ensures
        match get_index_spec(territories@, id@) {
            Some(i) => r@ == territories@[i].name@,
            None => r@ == id@,
        },
{
    match get_territory_index(territories, id) {
        Some(i) => territories[i].name.as_str(),
        None => id,
    }
}

/// The first index with the given id, if any.
pub open spec fn get_index_spec(ts: Seq<Territory>, id: Seq<char>) -> Option<int> {
    if exists|i: int| is_first_id_index(ts, id, i) {
        Some(choose|i: int| is_first_id_index(ts, id, i))
    } else {
        None
    }
}

pub proof fn lemma_get_index_spec(ts: Seq<Territory>, id: Seq<char>)
    ensures
        (get_index_spec(ts, id) matches Some(i) ==> is_first_id_index(ts, id, i)),
        (get_index_spec(ts, id) is None ==> id_absent(ts, id)),
        forall|i: int| is_first_id_index(ts, id, i) ==> get_index_spec(ts, id) == Some(i),
{
    if !exists|i: int| is_first_id_index(ts, id, i) {
        assert forall|j: int| 0 <= j < ts.len() implies ts[j].id@ != id by {
            if ts[j].id@ == id {
                lemma_some_first_index(ts, id, j);
            }
        }
    }
}

/// If some territory has the id, a first one exists.
pub proof fn lemma_some_first_index(ts: Seq<Territory>, id: Seq<char>, j: int)
    requires
        0 <= j < ts.len(),
        ts[j].id@ == id,
    ensures
        exists|i: int| is_first_id_index(ts, id, i),
    decreases j,
{
    if exists|k: int| 0 <= k < j && ts[k].id@ == id {
        let k = choose|k: int| 0 <= k < j && ts[k].id@ == id;
        lemma_some_first_index(ts, id, k);
    } else {
        assert(is_first_id_index(ts, id, j));
    }
}

/// Some territory owned by one of `owners` is an edge neighbour of `(col, row)`
/// (exact integer neighbourhood).
pub open spec fn has_owned_neighbor(
    ts: Seq<Territory>,
    col: int,
    row: int,
    owners: Seq<String>,
) -> bool {
    exists|i: int|
        0 <= i < ts.len() && owned_by_any(ts[i], owners) && (coords_of(ts[i].id@) matches Some(
            p,
        ) && abs(p.0 - col) + abs(p.1 - row) == 1)
}

/// The target is attackable when some tile owned by the attacking side touches it.
pub open spec fn attackable_spec(ts: Seq<Territory>, target: Seq<char>, owners: Seq<String>) -> bool {
    match coords_of(target) {
        Some((c, r)) => has_owned_neighbor(ts, c as int, r as int, owners),
        None => false,
    }
}

/// Whether `target_id` borders a tile owned by one of `base_owner_ids`.
pub fn is_attackable_target(
    territories: &[Territory],
    target_id: &str,
    base_owner_ids: &[String],
) -> (r: bool)
    ensures
        r == attackable_spec(territories@, target_id@, base_owner_ids@),
{
    let (col, row) = match parse_territory_id(target_id) {
        Some(p) => p,
        None => return false,
    };
    let mut i: usize = 0;
    while i < territories.len()
        invariant
            i <= territories@.len(),
            coords_of(target_id@) == Some((col, row)),
            forall|k: int|
                0 <= k < i ==> !(owned_by_any(territories@[k], base_owner_ids@) && (coords_of(
                    territories@[k].id@,
                ) matches Some(p) && abs(p.0 - col) + abs(p.1 - row) == 1)),
        decreases territories.len() - i,
    {
        let t = &territories[i];
        let owned = match &t.owner_id {
            Some(o) => contains_str(base_owner_ids, o.as_str()),
            None => false,
        };
        if owned {
            if let Some((c, r)) = parse_territory_id(t.id.as_str()) {
                let dc = c as i64 - col as i64;
                let dr = r as i64 - row as i64;
                let adc = if dc < 0 { -dc } else { dc };
                let adr = if dr < 0 { -dr } else { dr };
                if adc + adr == 1 {
                    return true;
                }
            }
        }
        i += 1;
    }
    false
}

} // verus!
