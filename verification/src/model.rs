//! The shared game data model: players, expeditions, alliances, the market and the world state.
use vstd::prelude::*;
use crate::card_stats::CardStatBonuses;
use crate::cards::CardStats;
use crate::facilities::{BuiltFacility, BuiltFacilityView};
use crate::items::InventoryItem;
use crate::skills::{SkillData, SkillDataView};
use crate::territory::{Territory, TerritoryView, WorldConfig};

verus! {

/// A copy that keeps the abstract content.
pub trait Dup: View + Sized {
    fn dup(&self) -> (r: Self)
        ensures
            r@ == self@,
    ;
}

/// A sequence of values by their abstract content.
pub open spec fn views<T: View>(s: Seq<T>) -> Seq<T::V> {
    s.map_values(|x: T| x@)
}

/// Copies every element of `v`, keeping their abstract content.
pub fn dup_vec<T: Dup>(v: &Vec<T>) -> (r: Vec<T>)
    ensures
        views(r@) == views(v@),
{
    let mut out: Vec<T> = Vec::new();
    let mut i: usize = 0;
    while i < v.len()
        invariant
            i <= v@.len(),
            out@.len() == i,
            forall|k: int| 0 <= k < i ==> out@[k]@ == v@[k]@,
        decreases v@.len() - i,
    {
        out.push(v[i].dup());
        i += 1;
    }
    proof {
        assert(views(out@) =~= views(v@));
    }
    out
}

/// Copies every element of a vector of plain values.
pub fn copy_vec<T: Copy>(v: &Vec<T>) -> (r: Vec<T>)
    ensures
        r@ == v@,
{
    let mut out: Vec<T> = Vec::new();
    let mut i: usize = 0;
    while i < v.len()
        invariant
            i <= v@.len(),
            out@ == v@.take(i as int),
        decreases v@.len() - i,
    {
        out.push(v[i]);
        i += 1;
        proof {
            assert(out@ =~= v@.take(i as int));
        }
    }
    proof {
        assert(v@.take(v@.len() as int) =~= v@);
    }
    out
}

/// An optional string by its characters.
pub open spec fn opt_view(o: Option<String>) -> Option<Seq<char>> {
    match o {
        Some(s) => Some(s@),
        None => None,
    }
}

/// Copies an optional string.
pub fn dup_opt_string(o: &Option<String>) -> (r: Option<String>)
    ensures
        opt_view(r) == opt_view(*o),
{
    match o {
        Some(s) => Some(s.clone()),
        None => None,
    }
}

impl Dup for String {
    fn dup(&self) -> (r: Self) {
        self.clone()
    }
}

impl Dup for (String, u64) {
    fn dup(&self) -> (r: Self) {
        (self.0.clone(), self.1)
    }
}

impl Dup for InventoryItem {
    fn dup(&self) -> (r: Self) {
        self.clone()
    }
}

impl Dup for BuiltFacility {
    fn dup(&self) -> (r: Self) {
        self.clone()
    }
}

impl Dup for Territory {
    fn dup(&self) -> (r: Self) {
        self.clone()
    }
}

impl Dup for SkillData {
    fn dup(&self) -> (r: Self) {
        self.clone()
    }
}

/// The four basic resources and gold (the flea market's currency).
#[derive(Debug, Clone, Copy, PartialEq, Eq, Structural)]
pub struct Resources {
    pub food: u64,
    pub wood: u64,
    pub stone: u64,
    pub iron: u64,
    pub gold: u64,
}

/// A new player's resources: 500 of each basic resource and 1000 gold.
pub open spec fn starting_resources() -> Resources {
    Resources { food: 500, wood: 500, stone: 500, iron: 500, gold: 1000 }
}

impl Default for Resources {
    fn default() -> (r: Self)
        ensures
            r == starting_resources(),
    {
        Resources { food: 500, wood: 500, stone: 500, iron: 500, gold: 1000 }
    }
}

/// What a flea market listing sells.
#[derive(Debug)]
pub enum MarketItemType {
    Card { card_id: u32 },
    Item { item_id: String, count: u32 },
    Resource { resource_type: String, amount: u64 },
}

/// The abstract content of a market item.
pub enum MarketItemView {
    Card { card_id: u32 },
    Item { item_id: Seq<char>, count: u32 },
    Resource { resource_type: Seq<char>, amount: u64 },
}

impl View for MarketItemType {
    type V = MarketItemView;

    open spec fn view(&self) -> MarketItemView {
        match self {
            MarketItemType::Card { card_id } => MarketItemView::Card { card_id: *card_id },
            MarketItemType::Item { item_id, count } => MarketItemView::Item {
                item_id: item_id@,
                count: *count,
            },
            MarketItemType::Resource { resource_type, amount } => MarketItemView::Resource {
                resource_type: resource_type@,
                amount: *amount,
            },
        }
    }
}

impl Dup for MarketItemType {
    fn dup(&self) -> (r: Self) {
        match self {
            MarketItemType::Card { card_id } => MarketItemType::Card { card_id: *card_id },
            MarketItemType::Item { item_id, count } => MarketItemType::Item {
                item_id: item_id.clone(),
                count: *count,
            },
            MarketItemType::Resource { resource_type, amount } => MarketItemType::Resource {
                resource_type: resource_type.clone(),
                amount: *amount,
            },
        }
    }
}

/// A listing on the flea market.
#[derive(Debug)]
pub struct MarketListing {
    pub listing_id: String,
    pub seller_id: String,
    pub item: MarketItemType,
    pub price: u64,
    pub listed_at: u64,
}

pub struct MarketListingView {
    pub listing_id: Seq<char>,
    pub seller_id: Seq<char>,
    pub item: MarketItemView,
    pub price: u64,
    pub listed_at: u64,
}

impl View for MarketListing {
    type V = MarketListingView;

    open spec fn view(&self) -> MarketListingView {
        MarketListingView {
            listing_id: self.listing_id@,
            seller_id: self.seller_id@,
            item: self.item@,
            price: self.price,
            listed_at: self.listed_at,
        }
    }
}

impl Dup for MarketListing {
    fn dup(&self) -> (r: Self) {
        MarketListing {
            listing_id: self.listing_id.clone(),
            seller_id: self.seller_id.clone(),
            item: self.item.dup(),
            price: self.price,
            listed_at: self.listed_at,
        }
    }
}

/// A saved unit formation: front, middle and leader slots (indices into the owned cards,
/// negative for an empty slot).
#[derive(Debug)]
pub struct StoredFormedUnit {
    pub id: String,
    pub name: String,
    pub indices: [i32; 3],
}

impl View for StoredFormedUnit {
    type V = (Seq<char>, Seq<char>, Seq<i32>);

    open spec fn view(&self) -> (Seq<char>, Seq<char>, Seq<i32>) {
        (self.id@, self.name@, self.indices@)
    }
}

impl Dup for StoredFormedUnit {
    fn dup(&self) -> (r: Self) {
        StoredFormedUnit { id: self.id.clone(), name: self.name.clone(), indices: self.indices }
    }
}

/// An alliance of players.
#[derive(Debug)]
pub struct Alliance {
    pub id: String,
    pub name: String,
    pub leader_id: String,
    pub member_ids: Vec<String>,
    /// Points gained each turn from the members' territory levels.
    pub territory_points: u64,
    pub level: u32,
    pub donated_total: u64,
    pub parent_alliance_id: Option<String>,
    pub child_alliance_ids: Vec<String>,
}

pub struct AllianceView {
    pub id: Seq<char>,
    pub name: Seq<char>,
    pub leader_id: Seq<char>,
    pub member_ids: Seq<Seq<char>>,
    pub territory_points: u64,
    pub level: u32,
    pub donated_total: u64,
    pub parent_alliance_id: Option<Seq<char>>,
    pub child_alliance_ids: Seq<Seq<char>>,
}

impl View for Alliance {
    type V = AllianceView;

    open spec fn view(&self) -> AllianceView {
        AllianceView {
            id: self.id@,
            name: self.name@,
            leader_id: self.leader_id@,
            member_ids: views(self.member_ids@),
            territory_points: self.territory_points,
            level: self.level,
            donated_total: self.donated_total,
            parent_alliance_id: opt_view(self.parent_alliance_id),
            child_alliance_ids: views(self.child_alliance_ids@),
        }
    }
}

impl Dup for Alliance {
    fn dup(&self) -> (r: Self) {
        Alliance {
            id: self.id.clone(),
            name: self.name.clone(),
            leader_id: self.leader_id.clone(),
            member_ids: dup_vec(&self.member_ids),
            territory_points: self.territory_points,
            level: self.level,
            donated_total: self.donated_total,
            parent_alliance_id: dup_opt_string(&self.parent_alliance_id),
            child_alliance_ids: dup_vec(&self.child_alliance_ids),
        }
    }
}

/// The kind of an expedition.
#[derive(Debug, Clone, Copy, PartialEq, Eq, Structural)]
pub enum MarchKind {
    Attack,
    Deploy,
    Explore,
    Return,
}

/// An expedition in progress as shown on the map.
#[derive(Debug)]
pub struct VisibleMarch {
    pub march_id: String,
    pub owner_id: String,
    pub kind: MarchKind,
    pub home_territory_id: String,
    pub from_territory_id: Option<String>,
    pub to_territory_id: String,
    pub arrives_at: u64,
    pub unit_name: Option<String>,
}

pub struct VisibleMarchView {
    pub march_id: Seq<char>,
    pub owner_id: Seq<char>,
    pub kind: MarchKind,
    pub home_territory_id: Seq<char>,
    pub from_territory_id: Option<Seq<char>>,
    pub to_territory_id: Seq<char>,
    pub arrives_at: u64,
    pub unit_name: Option<Seq<char>>,
}

impl View for VisibleMarch {
    type V = VisibleMarchView;

    open spec fn view(&self) -> VisibleMarchView {
        VisibleMarchView {
            march_id: self.march_id@,
            owner_id: self.owner_id@,
            kind: self.kind,
            home_territory_id: self.home_territory_id@,
            from_territory_id: opt_view(self.from_territory_id),
            to_territory_id: self.to_territory_id@,
            arrives_at: self.arrives_at,
            unit_name: opt_view(self.unit_name),
        }
    }
}

impl Dup for VisibleMarch {
    fn dup(&self) -> (r: Self) {
        VisibleMarch {
            march_id: self.march_id.clone(),
            owner_id: self.owner_id.clone(),
            kind: self.kind,
            home_territory_id: self.home_territory_id.clone(),
            from_territory_id: dup_opt_string(&self.from_territory_id),
            to_territory_id: self.to_territory_id.clone(),
            arrives_at: self.arrives_at,
            unit_name: dup_opt_string(&self.unit_name),
        }
    }
}

/// An expedition in progress (attack, reinforcement, exploration or return).
#[derive(Debug)]
pub struct MarchMission {
    pub march_id: String,
    pub kind: MarchKind,
    pub from_territory_id: String,
    pub to_territory_id: String,
    pub started_at: u64,
    pub arrives_at: u64,
    pub count: u32,
    pub monsters_per_body: Option<Vec<u32>>,
    pub body_names: Option<Vec<String>>,
    pub unit_name: Option<String>,
    pub speed_per_body: Option<Vec<u32>>,
    pub skills_per_body: Option<Vec<SkillData>>,
    pub stats_per_body: Option<Vec<CardStats>>,
    pub owned_card_indices: Option<Vec<usize>>,
    pub formed_unit_id: Option<String>,
}

pub struct MarchMissionView {
    pub march_id: Seq<char>,
    pub kind: MarchKind,
    pub from_territory_id: Seq<char>,
    pub to_territory_id: Seq<char>,
    pub started_at: u64,
    pub arrives_at: u64,
    pub count: u32,
    pub monsters_per_body: Option<Seq<u32>>,
    pub body_names: Option<Seq<Seq<char>>>,
    pub unit_name: Option<Seq<char>>,
    pub speed_per_body: Option<Seq<u32>>,
    pub skills_per_body: Option<Seq<SkillDataView>>,
    pub stats_per_body: Option<Seq<CardStats>>,
    pub owned_card_indices: Option<Seq<usize>>,
    pub formed_unit_id: Option<Seq<char>>,
}

/// An optional vector by its content.
pub open spec fn opt_seq<T>(o: Option<Vec<T>>) -> Option<Seq<T>> {
    match o {
        Some(v) => Some(v@),
        None => None,
    }
}

/// An optional vector by the abstract content of its elements.
pub open spec fn opt_views<T: View>(o: Option<Vec<T>>) -> Option<Seq<T::V>> {
    match o {
        Some(v) => Some(views(v@)),
        None => None,
    }
}

fn dup_opt_vec<T: Dup>(o: &Option<Vec<T>>) -> (r: Option<Vec<T>>)
    ensures
        opt_views(r) == opt_views(*o),
{
    match o {
        Some(v) => Some(dup_vec(v)),
        None => None,
    }
}

fn copy_opt_vec<T: Copy>(o: &Option<Vec<T>>) -> (r: Option<Vec<T>>)
    ensures
        opt_seq(r) == opt_seq(*o),
{
    match o {
        Some(v) => Some(copy_vec(v)),
        None => None,
    }
}

impl View for MarchMission {
    type V = MarchMissionView;

    open spec fn view(&self) -> MarchMissionView {
        MarchMissionView {
            march_id: self.march_id@,
            kind: self.kind,
            from_territory_id: self.from_territory_id@,
            to_territory_id: self.to_territory_id@,
            started_at: self.started_at,
            arrives_at: self.arrives_at,
            count: self.count,
            monsters_per_body: opt_seq(self.monsters_per_body),
            body_names: opt_views(self.body_names),
            unit_name: opt_view(self.unit_name),
            speed_per_body: opt_seq(self.speed_per_body),
            skills_per_body: opt_views(self.skills_per_body),
            stats_per_body: opt_seq(self.stats_per_body),
            owned_card_indices: opt_seq(self.owned_card_indices),
            formed_unit_id: opt_view(self.formed_unit_id),
        }
    }
}

impl Dup for MarchMission {
    fn dup(&self) -> (r: Self) {
        MarchMission {
            march_id: self.march_id.clone(),
            kind: self.kind,
            from_territory_id: self.from_territory_id.clone(),
            to_territory_id: self.to_territory_id.clone(),
            started_at: self.started_at,
            arrives_at: self.arrives_at,
            count: self.count,
            monsters_per_body: copy_opt_vec(&self.monsters_per_body),
            body_names: dup_opt_vec(&self.body_names),
            unit_name: dup_opt_string(&self.unit_name),
            speed_per_body: copy_opt_vec(&self.speed_per_body),
            skills_per_body: dup_opt_vec(&self.skills_per_body),
            stats_per_body: copy_opt_vec(&self.stats_per_body),
            owned_card_indices: copy_opt_vec(&self.owned_card_indices),
            formed_unit_id: dup_opt_string(&self.formed_unit_id),
        }
    }
}

/// The personality of an AI faction (PvE).
#[derive(Debug, Clone, Copy, PartialEq, Eq, Structural)]
pub enum AiPersonality {
    Aggressive,
    Balanced,
    Defensive,
}

/// An AI faction of a PvE world.
#[derive(Debug)]
pub struct AiFaction {
    pub faction_id: String,
    pub name: String,
    pub personality: AiPersonality,
    pub home_territory_id: String,
    pub color: u32,
}

impl View for AiFaction {
    type V = (Seq<char>, Seq<char>, AiPersonality, Seq<char>, u32);

    open spec fn view(&self) -> (Seq<char>, Seq<char>, AiPersonality, Seq<char>, u32) {
        (self.faction_id@, self.name@, self.personality, self.home_territory_id@, self.color)
    }
}

impl Dup for AiFaction {
    fn dup(&self) -> (r: Self) {
        AiFaction {
            faction_id: self.faction_id.clone(),
            name: self.name.clone(),
            personality: self.personality,
            home_territory_id: self.home_territory_id.clone(),
            color: self.color,
        }
    }
}

/// A season: after `duration_ms` from `started_at` the map is reset.
#[derive(Debug, Clone, Copy, PartialEq, Eq, Structural)]
pub struct SeasonInfo {
    pub season_number: u32,
    pub started_at: u64,
    pub duration_ms: u64,
}

/// Length of a season: 90 days, in milliseconds.
pub const SEASON_DURATION_MS: u64 = 7_776_000_000;

impl SeasonInfo {
    /// The first season, starting at `now`.
    pub fn first_at(now: u64) -> (s: SeasonInfo)
        ensures
            s == (SeasonInfo { season_number: 1, started_at: now, duration_ms: SEASON_DURATION_MS }),
    {
        SeasonInfo { season_number: 1, started_at: now, duration_ms: SEASON_DURATION_MS }
    }
}

/// One entry of the game log. `data` holds the event's details as JSON text.
#[derive(Debug)]
pub struct GameEvent {
    pub id: u64,
    pub timestamp: u64,
    pub actor_id: Option<String>,
    pub event_type: String,
    pub data: String,
    pub message: String,
}

pub struct GameEventView {
    pub id: u64,
    pub timestamp: u64,
    pub actor_id: Option<Seq<char>>,
    pub event_type: Seq<char>,
    pub data: Seq<char>,
    pub message: Seq<char>,
}

impl View for GameEvent {
    type V = GameEventView;

    open spec fn view(&self) -> GameEventView {
        GameEventView {
            id: self.id,
            timestamp: self.timestamp,
            actor_id: opt_view(self.actor_id),
            event_type: self.event_type@,
            data: self.data@,
            message: self.message@,
        }
    }
}

impl Dup for GameEvent {
    fn dup(&self) -> (r: Self) {
        GameEvent {
            id: self.id,
            timestamp: self.timestamp,
            actor_id: dup_opt_string(&self.actor_id),
            event_type: self.event_type.clone(),
            data: self.data.clone(),
            message: self.message.clone(),
        }
    }
}

/// Everything the game keeps about one player.
#[derive(Debug)]
pub struct PlayerData {
    pub player_id: String,
    pub home_territory_id: String,
    pub inventory: Vec<InventoryItem>,
    pub facilities: Vec<BuiltFacility>,
    /// Owned monsters, by card id; the `card_*` vectors below run parallel to it.
    pub owned_cards: Vec<u32>,
    /// Skill slot levels per owned slot index.
    pub card_skill_levels: Vec<(usize, [u8; 3])>,
    /// Players this one may reinforce (clan members, vassals).
    pub allied_player_ids: Vec<String>,
    pub resources: Resources,
    /// When resources were last collected (Unix ms).
    pub last_resource_tick: u64,
    /// When stamina last recovered (Unix ms).
    pub last_stamina_tick: u64,
    pub card_levels: Vec<u32>,
    pub card_exp: Vec<u64>,
    pub card_stamina: Vec<u32>,
    /// Unspent status points per slot (+10 per level up).
    pub card_status_points: Vec<u32>,
    pub card_stat_bonuses: Vec<CardStatBonuses>,
    /// Until when each slot rests after a defeat (Unix ms).
    pub card_rest_until: Vec<u64>,
    pub card_awakened: Vec<bool>,
    pub card_enhanced: Vec<bool>,
    /// Monsters per owned slot (kept equal to the home tile's counts).
    pub card_monster_counts: Vec<u32>,
    pub exploration_level: u32,
    pub exploration_score: u64,
    /// Unit cost cap in thousandths (4.0 is 4000).
    pub unit_cost_cap_milli: u32,
    pub dungeon_points: u64,
    pub charge_points: u64,
    pub marches: Vec<MarchMission>,
    pub formed_units: Vec<StoredFormedUnit>,
    /// AI only: tiles whose attack failed, with the time until which they are avoided.
    pub ai_attack_cooldowns: Vec<(String, u64)>,
    /// AI only: until then, production and building come before attacks.
    pub ai_recover_until: u64,
    /// AI only: the tile attacked last.
    pub ai_last_attack_target: Option<String>,
}

pub struct PlayerView {
    pub player_id: Seq<char>,
    pub home_territory_id: Seq<char>,
    pub inventory: Seq<(Seq<char>, u32)>,
    pub facilities: Seq<BuiltFacilityView>,
    pub owned_cards: Seq<u32>,
    pub card_skill_levels: Seq<(usize, [u8; 3])>,
    pub allied_player_ids: Seq<Seq<char>>,
    pub resources: Resources,
    pub last_resource_tick: u64,
    pub last_stamina_tick: u64,
    pub card_levels: Seq<u32>,
    pub card_exp: Seq<u64>,
    pub card_stamina: Seq<u32>,
    pub card_status_points: Seq<u32>,
    pub card_stat_bonuses: Seq<CardStatBonuses>,
    pub card_rest_until: Seq<u64>,
    pub card_awakened: Seq<bool>,
    pub card_enhanced: Seq<bool>,
    pub card_monster_counts: Seq<u32>,
    pub exploration_level: u32,
    pub exploration_score: u64,
    pub unit_cost_cap_milli: u32,
    pub dungeon_points: u64,
    pub charge_points: u64,
    pub marches: Seq<MarchMissionView>,
    pub formed_units: Seq<(Seq<char>, Seq<char>, Seq<i32>)>,
    pub ai_attack_cooldowns: Seq<(Seq<char>, u64)>,
    pub ai_recover_until: u64,
    pub ai_last_attack_target: Option<Seq<char>>,
}

impl View for PlayerData {
    type V = PlayerView;

    open spec fn view(&self) -> PlayerView {
        PlayerView {
            player_id: self.player_id@,
            home_territory_id: self.home_territory_id@,
            inventory: views(self.inventory@),
            facilities: views(self.facilities@),
            owned_cards: self.owned_cards@,
            card_skill_levels: self.card_skill_levels@,
            allied_player_ids: views(self.allied_player_ids@),
            resources: self.resources,
            last_resource_tick: self.last_resource_tick,
            last_stamina_tick: self.last_stamina_tick,
            card_levels: self.card_levels@,
            card_exp: self.card_exp@,
            card_stamina: self.card_stamina@,
            card_status_points: self.card_status_points@,
            card_stat_bonuses: self.card_stat_bonuses@,
            card_rest_until: self.card_rest_until@,
            card_awakened: self.card_awakened@,
            card_enhanced: self.card_enhanced@,
            card_monster_counts: self.card_monster_counts@,
            exploration_level: self.exploration_level,
            exploration_score: self.exploration_score,
            unit_cost_cap_milli: self.unit_cost_cap_milli,
            dungeon_points: self.dungeon_points,
            charge_points: self.charge_points,
            marches: views(self.marches@),
            formed_units: views(self.formed_units@),
            ai_attack_cooldowns: views(self.ai_attack_cooldowns@),
            ai_recover_until: self.ai_recover_until,
            ai_last_attack_target: opt_view(self.ai_last_attack_target),
        }
    }
}

impl Dup for PlayerData {
    fn dup(&self) -> (r: Self) {
        PlayerData {
            player_id: self.player_id.clone(),
            home_territory_id: self.home_territory_id.clone(),
            inventory: dup_vec(&self.inventory),
            facilities: dup_vec(&self.facilities),
            owned_cards: copy_vec(&self.owned_cards),
            card_skill_levels: copy_vec(&self.card_skill_levels),
            allied_player_ids: dup_vec(&self.allied_player_ids),
            resources: self.resources,
            last_resource_tick: self.last_resource_tick,
            last_stamina_tick: self.last_stamina_tick,
            card_levels: copy_vec(&self.card_levels),
            card_exp: copy_vec(&self.card_exp),
            card_stamina: copy_vec(&self.card_stamina),
            card_status_points: copy_vec(&self.card_status_points),
            card_stat_bonuses: copy_vec(&self.card_stat_bonuses),
            card_rest_until: copy_vec(&self.card_rest_until),
            card_awakened: copy_vec(&self.card_awakened),
            card_enhanced: copy_vec(&self.card_enhanced),
            card_monster_counts: copy_vec(&self.card_monster_counts),
            exploration_level: self.exploration_level,
            exploration_score: self.exploration_score,
            unit_cost_cap_milli: self.unit_cost_cap_milli,
            dungeon_points: self.dungeon_points,
            charge_points: self.charge_points,
            marches: dup_vec(&self.marches),
            formed_units: dup_vec(&self.formed_units),
            ai_attack_cooldowns: dup_vec(&self.ai_attack_cooldowns),
            ai_recover_until: self.ai_recover_until,
            ai_last_attack_target: dup_opt_string(&self.ai_last_attack_target),
        }
    }
}

/// The whole state of one world.
#[derive(Debug)]
pub struct GameState {
    pub world: WorldConfig,
    /// The human owner of a PvE world; `None` in PvP.
    pub world_owner_id: Option<String>,
    pub ai_factions: Vec<AiFaction>,
    pub territories: Vec<Territory>,
    /// What happened, for the players to read.
    pub log: Vec<GameEvent>,
    /// Every player, at most one entry per player id.
    pub players: Vec<PlayerData>,
    pub alliances: Vec<Alliance>,
    pub season: SeasonInfo,
    pub market_listings: Vec<MarketListing>,
    /// Expeditions in progress, for the map.
    pub visible_marches: Vec<VisibleMarch>,
}

pub struct GameStateView {
    pub world: WorldConfig,
    pub world_owner_id: Option<Seq<char>>,
    pub ai_factions: Seq<(Seq<char>, Seq<char>, AiPersonality, Seq<char>, u32)>,
    pub territories: Seq<TerritoryView>,
    pub log: Seq<GameEventView>,
    pub players: Seq<PlayerView>,
    pub alliances: Seq<AllianceView>,
    pub season: SeasonInfo,
    pub market_listings: Seq<MarketListingView>,
    pub visible_marches: Seq<VisibleMarchView>,
}

impl View for GameState {
    type V = GameStateView;

    open spec fn view(&self) -> GameStateView {
        GameStateView {
            world: self.world,
            world_owner_id: opt_view(self.world_owner_id),
            ai_factions: views(self.ai_factions@),
            territories: views(self.territories@),
            log: views(self.log@),
            players: views(self.players@),
            alliances: views(self.alliances@),
            season: self.season,
            market_listings: views(self.market_listings@),
            visible_marches: views(self.visible_marches@),
        }
    }
}

/// No two players share an id.
pub open spec fn player_ids_unique(ps: Seq<PlayerData>) -> bool {
    forall|i: int, j: int| 0 <= i < j < ps.len() ==> ps[i].player_id@ != ps[j].player_id@
}

/// `i` is the position of the player with id `id`.
pub open spec fn is_player_index(ps: Seq<PlayerData>, id: Seq<char>, i: int) -> bool {
    0 <= i < ps.len() && ps[i].player_id@ == id
}

/// Some player has id `id`.
pub open spec fn has_player(ps: Seq<PlayerData>, id: Seq<char>) -> bool {
    exists|i: int| is_player_index(ps, id, i)
}

/// Finds the (first) player with id `id`.
pub fn find_player(players: &Vec<PlayerData>, id: &str) -> (r: Option<usize>)
    ensures
        r matches Some(i) ==> is_player_index(players@, id@, i as int) && forall|j: int|
            0 <= j < i ==> players@[j].player_id@ != id@,
        r is None ==> !has_player(players@, id@),
{
    let mut i: usize = 0;
    while i < players.len()
        invariant
            i <= players@.len(),
            forall|j: int| 0 <= j < i ==> players@[j].player_id@ != id@,
        decreases players@.len() - i,
    {
        if crate::text::str_eq(players[i].player_id.as_str(), id) {
            return Some(i);
        }
        i += 1;
    }
    None
}

/// Monster counts for the default starting cards.
pub open spec fn starting_monster_counts() -> Seq<u32> {
    crate::player::default_owned_cards_spec().map_values(
        |id: u32| crate::player::default_monster_count_spec(id),
    )
}

/// `p` is a new player `player_id` with home `home_territory_id`, created at `now` (see
/// [`PlayerData::new_at`]).
pub open spec fn new_player_at(p: PlayerData, player_id: Seq<char>, home_territory_id: Seq<char>, now: u64) -> bool {
    &&& p.player_id@ == player_id
    &&& p.home_territory_id@ == home_territory_id
    &&& stacks_of(p.inventory@) == crate::player::dev_inventory_spec()
    &&& p.facilities@.len() == 0
    &&& p.owned_cards@ == crate::player::default_owned_cards_spec()
    &&& p.card_skill_levels@.len() == 0
    &&& p.allied_player_ids@.len() == 0
    &&& p.resources == starting_resources()
    &&& p.last_resource_tick == now
    &&& p.last_stamina_tick == now
    &&& p.card_levels@.len() == 0
    &&& p.card_exp@.len() == 0
    &&& p.card_stamina@.len() == 0
    &&& p.card_status_points@.len() == 0
    &&& p.card_stat_bonuses@.len() == 0
    &&& p.card_rest_until@.len() == 0
    &&& p.card_awakened@.len() == 0
    &&& p.card_enhanced@.len() == 0
    &&& p.card_monster_counts@ == starting_monster_counts()
    &&& p.exploration_level == 1
    &&& p.exploration_score == 0
    &&& p.unit_cost_cap_milli == 4000
    &&& p.dungeon_points == 0
    &&& p.charge_points == 0
    &&& p.marches@.len() == 0
    &&& p.formed_units@.len() == 0
    &&& p.ai_attack_cooldowns@.len() == 0
    &&& p.ai_recover_until == 0
    &&& p.ai_last_attack_target is None
}

impl PlayerData {
    /// A new player at `now`: the starting inventory and cards, default resources, empty
    /// expedition and AI state, exploration level 1 and a unit cost cap of 4.0.
    pub fn new_at(player_id: String, home_territory_id: String, now: u64) -> (p: PlayerData)
        ensures
            p.player_id@ == player_id@,
            p.home_territory_id@ == home_territory_id@,
            stacks_of(p.inventory@) == crate::player::dev_inventory_spec(),
            p.facilities@.len() == 0,
            p.owned_cards@ == crate::player::default_owned_cards_spec(),
            p.card_skill_levels@.len() == 0,
            p.allied_player_ids@.len() == 0,
            p.resources == starting_resources(),
            p.last_resource_tick == now,
            p.last_stamina_tick == now,
            p.card_levels@.len() == 0,
            p.card_exp@.len() == 0,
            p.card_stamina@.len() == 0,
            p.card_status_points@.len() == 0,
            p.card_stat_bonuses@.len() == 0,
            p.card_rest_until@.len() == 0,
            p.card_awakened@.len() == 0,
            p.card_enhanced@.len() == 0,
            p.card_monster_counts@ == starting_monster_counts(),
            p.exploration_level == 1,
            p.exploration_score == 0,
            p.unit_cost_cap_milli == 4000,
            p.dungeon_points == 0,
            p.charge_points == 0,
            p.marches@.len() == 0,
            p.formed_units@.len() == 0,
            p.ai_attack_cooldowns@.len() == 0,
            p.ai_recover_until == 0,
            p.ai_last_attack_target is None,
    {
        let owned = crate::player::default_owned_cards();
        let counts = crate::player::initial_card_monster_counts_for_owned(owned.as_slice());
        proof {
            assert(counts@ =~= starting_monster_counts());
        }
        PlayerData {
            player_id,
            home_territory_id,
            inventory: crate::player::default_dev_inventory(),
            facilities: Vec::new(),
            owned_cards: owned,
            card_skill_levels: Vec::new(),
            allied_player_ids: Vec::new(),
            resources: Resources::default(),
            last_resource_tick: now,
            last_stamina_tick: now,
            card_levels: Vec::new(),
            card_exp: Vec::new(),
            card_stamina: Vec::new(),
            card_status_points: Vec::new(),
            card_stat_bonuses: Vec::new(),
            card_rest_until: Vec::new(),
            card_awakened: Vec::new(),
            card_enhanced: Vec::new(),
            card_monster_counts: counts,
            exploration_level: 1,
            exploration_score: 0,
            unit_cost_cap_milli: 4000,
            dungeon_points: 0,
            charge_points: 0,
            marches: Vec::new(),
            formed_units: Vec::new(),
            ai_attack_cooldowns: Vec::new(),
            ai_recover_until: 0,
            ai_last_attack_target: None,
        }
    }

    /// A new player, stamped with the current time (the clock is read once).
    pub fn new(player_id: String, home_territory_id: String) -> (p: PlayerData)
        ensures
            p.player_id@ == player_id@,
            p.home_territory_id@ == home_territory_id@,
            p.owned_cards@ == crate::player::default_owned_cards_spec(),
            p.card_monster_counts@ == starting_monster_counts(),
            p.resources == starting_resources(),
            p.last_resource_tick == p.last_stamina_tick,
            p.marches@.len() == 0,
            p.exploration_level == 1,
            p.unit_cost_cap_milli == 4000,
            exists|now: u64| #[trigger] new_player_at(p, player_id@, home_territory_id@, now),
    {
        let now = crate::rng::now_ms();
        let ghost id = player_id@;
        let ghost home = home_territory_id@;
        let p = PlayerData::new_at(player_id, home_territory_id, now);
        proof {
            assert(new_player_at(p, id, home, now));
        }
        p
    }
}

/// An inventory by its stacks.
pub open spec fn stacks_of(v: Seq<InventoryItem>) -> Seq<(Seq<char>, u32)> {
    crate::items::stacks(v)
}

/// An exploration of a tile under way: which tile, when it started and ends, and the owned
/// slots on it.
#[derive(Debug)]
pub struct ExplorationMission {
    pub mission_id: String,
    pub territory_id: String,
    pub started_at: u64,
    pub completes_at: u64,
    pub card_indices: Vec<usize>,
}

/// What a player can do in a turn.
#[derive(Debug)]
pub enum Action {
    EndTurn,
    /// Reinforce an own tile.
    Deploy {
        territory_id: String,
        count: u32,
        monsters_per_body: Option<Vec<u32>>,
        body_names: Option<Vec<String>>,
    },
    /// Attack a tile from an own tile; the bodies fight in order.
    Attack {
        from_territory_id: String,
        to_territory_id: String,
        count: u32,
        monsters_per_body: Option<Vec<u32>>,
        body_names: Option<Vec<String>>,
        unit_name: Option<String>,
        speed_per_body: Option<Vec<u32>>,
        skills_per_body: Option<Vec<SkillData>>,
        stats_per_body: Option<Vec<CardStats>>,
        owned_card_indices: Option<Vec<usize>>,
    },
    BuildBase { territory_id: String },
    BuildFacility { facility_id: String, level: u8, position: Option<crate::facilities::FacilityPosition> },
    SynthesizeCard { base_card_index: usize, material_card_indices: Vec<usize> },
    ProduceMonsters { card_index: usize, amount: u32 },
    CreateAlliance { name: String },
    JoinAlliance { alliance_id: String },
    LeaveAlliance,
    ListOnFleaMarket { item: MarketItemType, price: u64 },
    BuyFromFleaMarket { listing_id: String },
    CancelFleaMarketListing { listing_id: String },
    StartExploration { territory_id: String, card_indices: Vec<usize> },
    CollectExploration { mission_id: String },
    DonateAlliance { food: u64, wood: u64, stone: u64, iron: u64 },
}

} // verus!
