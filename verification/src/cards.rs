//! Card definitions shared by players and enemies, and lookups by id and by name.
use vstd::prelude::*;
use vstd::string::StrSliceExecFns;
use crate::skills::{SkillData, SkillDataView};
use crate::text::{chars_eq, chars_of, string_from_chars};

verus! {

/// Card rarity.
#[derive(Debug, Clone, Copy, PartialEq, Eq, Structural)]
pub enum CardRarity {
    Common,
    Uncommon,
    Rare,
    Epic,
    Legendary,
}

/// The seven races.
#[derive(Debug, Clone, Copy, PartialEq, Eq, Hash, Structural)]
pub enum Race {
    Beast,
    Demihuman,
    Demon,
    Dragon,
    Giant,
    Spirit,
    Undead,
}

/// A card's battle statistics. The unit cost is kept in thousandths (1.5 is 1500).
#[derive(Debug, Clone, Copy, PartialEq, Eq, Structural)]
pub struct CardStats {
    pub monster_count: u32,
    pub speed: u32,
    pub attack: u32,
    pub intelligence: u32,
    pub defense: u32,
    pub magic_defense: u32,
    /// 1 melee, 2 middle, 3 long range.
    pub range: u8,
    /// Formation cost in thousandths (steps of 0.5).
    pub cost_milli: u32,
    /// Damage dealt to a base's durability on victory.
    pub occupation_power: u32,
}

/// Range used when none is given.
pub fn default_range() -> (r: u8)
    ensures
        r == 1,
{
    1
}

/// Formation cost used when none is given (1.5, in thousandths).
pub fn default_card_cost_milli() -> (r: u32)
    ensures
        r == 1500,
{
    1500
}

/// Occupation power used when none is given.
pub fn default_occupation_power() -> (r: u32)
    ensures
        r == 100,
{
    100
}

/// The statistics used when a card defines none.
pub open spec fn default_stats_spec() -> CardStats {
    CardStats {
        monster_count: 10,
        speed: 5,
        attack: 5,
        intelligence: 5,
        defense: 3,
        magic_defense: 3,
        range: 1,
        cost_milli: 1500,
        occupation_power: 100,
    }
}

impl Default for CardStats {
    fn default() -> (r: Self)
        ensures
            r == default_stats_spec(),
    {
        CardStats {
            monster_count: 10,
            speed: 5,
            attack: 5,
            intelligence: 5,
            defense: 3,
            magic_defense: 3,
            range: 1,
            cost_milli: 1500,
            occupation_power: 100,
        }
    }
}

/// A card definition.
#[derive(Debug, Clone, Copy)]
pub struct CardDef {
    pub id: u32,
    pub name: &'static str,
    pub rarity: CardRarity,
    pub race: Race,
    pub stats: CardStats,
}

/// The card table, by id.
pub open spec fn card_spec(id: u32) -> Option<CardDef> {
    match id {
        0 => Some(CardDef { id: 0, name: "ダイアウルフ", rarity: CardRarity::Rare, race: Race::Beast, stats: CardStats { monster_count: 15, speed: 6, attack: 9, intelligence: 3, defense: 4, magic_defense: 3, range: 1, cost_milli: 1500, occupation_power: 100 } }),
        1 => Some(CardDef { id: 1, name: "ゴブリンウォリアー", rarity: CardRarity::Rare, race: Race::Demihuman, stats: CardStats { monster_count: 18, speed: 5, attack: 7, intelligence: 4, defense: 6, magic_defense: 3, range: 1, cost_milli: 1500, occupation_power: 100 } }),
        2 => Some(CardDef { id: 2, name: "インプ", rarity: CardRarity::Rare, race: Race::Demon, stats: CardStats { monster_count: 10, speed: 7, attack: 4, intelligence: 10, defense: 2, magic_defense: 6, range: 2, cost_milli: 1500, occupation_power: 100 } }),
        3 => Some(CardDef { id: 3, name: "ワイバーン", rarity: CardRarity::Rare, race: Race::Dragon, stats: CardStats { monster_count: 12, speed: 5, attack: 8, intelligence: 6, defense: 5, magic_defense: 5, range: 2, cost_milli: 1500, occupation_power: 100 } }),
        4 => Some(CardDef { id: 4, name: "ゴーレム", rarity: CardRarity::Rare, race: Race::Giant, stats: CardStats { monster_count: 16, speed: 3, attack: 6, intelligence: 2, defense: 10, magic_defense: 4, range: 1, cost_milli: 1500, occupation_power: 100 } }),
        5 => Some(CardDef { id: 5, name: "サラマンダー", rarity: CardRarity::Rare, race: Race::Spirit, stats: CardStats { monster_count: 11, speed: 5, attack: 5, intelligence: 9, defense: 3, magic_defense: 7, range: 2, cost_milli: 1500, occupation_power: 100 } }),
        6 => Some(CardDef { id: 6, name: "スケルトンソルジャー", rarity: CardRarity::Rare, race: Race::Undead, stats: CardStats { monster_count: 14, speed: 4, attack: 7, intelligence: 3, defense: 7, magic_defense: 4, range: 1, cost_milli: 1500, occupation_power: 100 } }),
        7 => Some(CardDef { id: 7, name: "ヘルハウンド", rarity: CardRarity::Rare, race: Race::Beast, stats: CardStats { monster_count: 13, speed: 7, attack: 8, intelligence: 4, defense: 3, magic_defense: 3, range: 1, cost_milli: 1500, occupation_power: 100 } }),
        8 => Some(CardDef { id: 8, name: "リザードマン", rarity: CardRarity::Rare, race: Race::Demihuman, stats: CardStats { monster_count: 14, speed: 5, attack: 8, intelligence: 5, defense: 5, magic_defense: 4, range: 1, cost_milli: 1500, occupation_power: 100 } }),
        9 => Some(CardDef { id: 9, name: "トレント", rarity: CardRarity::Rare, race: Race::Spirit, stats: CardStats { monster_count: 16, speed: 3, attack: 5, intelligence: 7, defense: 8, magic_defense: 6, range: 1, cost_milli: 1500, occupation_power: 100 } }),
        10 => Some(CardDef { id: 10, name: "ゴブリン", rarity: CardRarity::Common, race: Race::Demihuman, stats: CardStats { monster_count: 2, speed: 3, attack: 3, intelligence: 2, defense: 2, magic_defense: 1, range: 1, cost_milli: 1500, occupation_power: 100 } }),
        11 => Some(CardDef { id: 11, name: "コボルド", rarity: CardRarity::Common, race: Race::Demihuman, stats: CardStats { monster_count: 4, speed: 4, attack: 5, intelligence: 3, defense: 3, magic_defense: 2, range: 1, cost_milli: 1500, occupation_power: 100 } }),
        12 => Some(CardDef { id: 12, name: "オーク", rarity: CardRarity::Uncommon, race: Race::Demihuman, stats: CardStats { monster_count: 6, speed: 3, attack: 8, intelligence: 4, defense: 6, magic_defense: 3, range: 1, cost_milli: 1500, occupation_power: 100 } }),
        13 => Some(CardDef { id: 13, name: "スケルトン", rarity: CardRarity::Uncommon, race: Race::Undead, stats: CardStats { monster_count: 8, speed: 4, attack: 10, intelligence: 6, defense: 8, magic_defense: 5, range: 1, cost_milli: 1500, occupation_power: 100 } }),
        14 => Some(CardDef { id: 14, name: "トロール", rarity: CardRarity::Rare, race: Race::Giant, stats: CardStats { monster_count: 12, speed: 3, attack: 15, intelligence: 3, defense: 12, magic_defense: 4, range: 1, cost_milli: 1500, occupation_power: 100 } }),
        15 => Some(CardDef { id: 15, name: "ドレイク", rarity: CardRarity::Epic, race: Race::Dragon, stats: CardStats { monster_count: 15, speed: 6, attack: 20, intelligence: 15, defense: 15, magic_defense: 10, range: 2, cost_milli: 1500, occupation_power: 100 } }),
        20 => Some(CardDef { id: 20, name: "ストーンゴーレム", rarity: CardRarity::Uncommon, race: Race::Giant, stats: CardStats { monster_count: 8, speed: 2, attack: 6, intelligence: 2, defense: 10, magic_defense: 4, range: 1, cost_milli: 1500, occupation_power: 100 } }),
        21 => Some(CardDef { id: 21, name: "ゴースト", rarity: CardRarity::Uncommon, race: Race::Undead, stats: CardStats { monster_count: 6, speed: 5, attack: 4, intelligence: 8, defense: 3, magic_defense: 8, range: 2, cost_milli: 1500, occupation_power: 100 } }),
        22 => Some(CardDef { id: 22, name: "スケルトンナイト", rarity: CardRarity::Uncommon, race: Race::Undead, stats: CardStats { monster_count: 10, speed: 4, attack: 10, intelligence: 3, defense: 8, magic_defense: 4, range: 1, cost_milli: 1500, occupation_power: 100 } }),
        23 => Some(CardDef { id: 23, name: "コカトリス", rarity: CardRarity::Rare, race: Race::Beast, stats: CardStats { monster_count: 12, speed: 5, attack: 7, intelligence: 8, defense: 4, magic_defense: 6, range: 1, cost_milli: 1500, occupation_power: 100 } }),
        24 => Some(CardDef { id: 24, name: "ミミック", rarity: CardRarity::Rare, race: Race::Demon, stats: CardStats { monster_count: 7, speed: 7, attack: 8, intelligence: 5, defense: 5, magic_defense: 5, range: 1, cost_milli: 1500, occupation_power: 100 } }),
        25 => Some(CardDef { id: 25, name: "ポイズンスパイダー", rarity: CardRarity::Uncommon, race: Race::Beast, stats: CardStats { monster_count: 5, speed: 6, attack: 6, intelligence: 4, defense: 3, magic_defense: 3, range: 1, cost_milli: 1500, occupation_power: 100 } }),
        30 => Some(CardDef { id: 30, name: "ダークウィザード", rarity: CardRarity::Rare, race: Race::Demon, stats: CardStats { monster_count: 12, speed: 5, attack: 12, intelligence: 10, defense: 6, magic_defense: 8, range: 2, cost_milli: 1500, occupation_power: 100 } }),
        31 => Some(CardDef { id: 31, name: "ガーゴイル", rarity: CardRarity::Rare, race: Race::Demon, stats: CardStats { monster_count: 14, speed: 4, attack: 14, intelligence: 4, defense: 12, magic_defense: 6, range: 1, cost_milli: 1500, occupation_power: 100 } }),
        32 => Some(CardDef { id: 32, name: "シャドウアサシン", rarity: CardRarity::Rare, race: Race::Demon, stats: CardStats { monster_count: 10, speed: 8, attack: 16, intelligence: 2, defense: 6, magic_defense: 4, range: 1, cost_milli: 1500, occupation_power: 100 } }),
        33 => Some(CardDef { id: 33, name: "フレイムスピリット", rarity: CardRarity::Rare, race: Race::Spirit, stats: CardStats { monster_count: 9, speed: 5, attack: 6, intelligence: 14, defense: 4, magic_defense: 10, range: 2, cost_milli: 1500, occupation_power: 100 } }),
        34 => Some(CardDef { id: 34, name: "アイスエレメンタル", rarity: CardRarity::Rare, race: Race::Spirit, stats: CardStats { monster_count: 9, speed: 5, attack: 6, intelligence: 14, defense: 4, magic_defense: 10, range: 2, cost_milli: 1500, occupation_power: 100 } }),
        35 => Some(CardDef { id: 35, name: "デスナイト", rarity: CardRarity::Epic, race: Race::Undead, stats: CardStats { monster_count: 16, speed: 4, attack: 12, intelligence: 6, defense: 14, magic_defense: 8, range: 1, cost_milli: 1500, occupation_power: 100 } }),
        36 => Some(CardDef { id: 36, name: "ヒュドラ", rarity: CardRarity::Epic, race: Race::Dragon, stats: CardStats { monster_count: 14, speed: 4, attack: 14, intelligence: 12, defense: 10, magic_defense: 10, range: 1, cost_milli: 1500, occupation_power: 100 } }),
        37 => Some(CardDef { id: 37, name: "ミノタウロス", rarity: CardRarity::Epic, race: Race::Giant, stats: CardStats { monster_count: 14, speed: 5, attack: 16, intelligence: 4, defense: 12, magic_defense: 6, range: 1, cost_milli: 1500, occupation_power: 100 } }),
        40 => Some(CardDef { id: 40, name: "ニーズヘッグ", rarity: CardRarity::Legendary, race: Race::Dragon, stats: CardStats { monster_count: 30, speed: 4, attack: 25, intelligence: 18, defense: 20, magic_defense: 15, range: 1, cost_milli: 1500, occupation_power: 100 } }),
        41 => Some(CardDef { id: 41, name: "ヴァンパイアロード", rarity: CardRarity::Legendary, race: Race::Undead, stats: CardStats { monster_count: 22, speed: 6, attack: 18, intelligence: 20, defense: 14, magic_defense: 18, range: 1, cost_milli: 1500, occupation_power: 100 } }),
        42 => Some(CardDef { id: 42, name: "リッチ", rarity: CardRarity::Legendary, race: Race::Undead, stats: CardStats { monster_count: 22, speed: 5, attack: 15, intelligence: 25, defense: 12, magic_defense: 20, range: 2, cost_milli: 1500, occupation_power: 100 } }),
        43 => Some(CardDef { id: 43, name: "タイタン", rarity: CardRarity::Legendary, race: Race::Giant, stats: CardStats { monster_count: 35, speed: 2, attack: 22, intelligence: 12, defense: 25, magic_defense: 18, range: 1, cost_milli: 1500, occupation_power: 100 } }),
        50 => Some(CardDef { id: 50, name: "バット", rarity: CardRarity::Common, race: Race::Beast, stats: CardStats { monster_count: 8, speed: 8, attack: 4, intelligence: 2, defense: 3, magic_defense: 2, range: 1, cost_milli: 1500, occupation_power: 100 } }),
        51 => Some(CardDef { id: 51, name: "ジャイアントバット", rarity: CardRarity::Uncommon, race: Race::Beast, stats: CardStats { monster_count: 10, speed: 7, attack: 6, intelligence: 3, defense: 5, magic_defense: 3, range: 1, cost_milli: 1500, occupation_power: 100 } }),
        52 => Some(CardDef { id: 52, name: "ヴァンパイアバット", rarity: CardRarity::Uncommon, race: Race::Beast, stats: CardStats { monster_count: 12, speed: 7, attack: 7, intelligence: 4, defense: 5, magic_defense: 4, range: 1, cost_milli: 1500, occupation_power: 100 } }),
        53 => Some(CardDef { id: 53, name: "カマソッツ", rarity: CardRarity::Rare, race: Race::Beast, stats: CardStats { monster_count: 14, speed: 8, attack: 9, intelligence: 5, defense: 6, magic_defense: 5, range: 2, cost_milli: 1500, occupation_power: 100 } }),
        54 => Some(CardDef { id: 54, name: "ボーゲスト", rarity: CardRarity::Uncommon, race: Race::Beast, stats: CardStats { monster_count: 11, speed: 5, attack: 7, intelligence: 4, defense: 6, magic_defense: 3, range: 1, cost_milli: 1500, occupation_power: 100 } }),
        55 => Some(CardDef { id: 55, name: "ガイトラッシュ", rarity: CardRarity::Rare, race: Race::Beast, stats: CardStats { monster_count: 14, speed: 6, attack: 10, intelligence: 5, defense: 7, magic_defense: 4, range: 1, cost_milli: 1500, occupation_power: 100 } }),
        56 => Some(CardDef { id: 56, name: "レウクロコタ", rarity: CardRarity::Epic, race: Race::Beast, stats: CardStats { monster_count: 18, speed: 9, attack: 14, intelligence: 6, defense: 8, magic_defense: 5, range: 1, cost_milli: 1500, occupation_power: 100 } }),
        60 => Some(CardDef { id: 60, name: "ゴブリンアーチャー", rarity: CardRarity::Common, race: Race::Demihuman, stats: CardStats { monster_count: 6, speed: 4, attack: 5, intelligence: 2, defense: 2, magic_defense: 1, range: 3, cost_milli: 1000, occupation_power: 90 } }),
        61 => Some(CardDef { id: 61, name: "ゴブリンコック", rarity: CardRarity::Common, race: Race::Demihuman, stats: CardStats { monster_count: 10, speed: 4, attack: 5, intelligence: 5, defense: 5, magic_defense: 4, range: 2, cost_milli: 1500, occupation_power: 100 } }),
        62 => Some(CardDef { id: 62, name: "ホブゴブリン", rarity: CardRarity::Uncommon, race: Race::Demihuman, stats: CardStats { monster_count: 12, speed: 5, attack: 7, intelligence: 5, defense: 8, magic_defense: 5, range: 2, cost_milli: 1500, occupation_power: 100 } }),
        63 => Some(CardDef { id: 63, name: "オークアーマーナイト", rarity: CardRarity::Uncommon, race: Race::Demihuman, stats: CardStats { monster_count: 14, speed: 3, attack: 8, intelligence: 4, defense: 10, magic_defense: 5, range: 1, cost_milli: 1500, occupation_power: 100 } }),
        64 => Some(CardDef { id: 64, name: "ゴブリンソードマン", rarity: CardRarity::Uncommon, race: Race::Demihuman, stats: CardStats { monster_count: 12, speed: 6, attack: 9, intelligence: 5, defense: 6, magic_defense: 4, range: 1, cost_milli: 1500, occupation_power: 100 } }),
        65 => Some(CardDef { id: 65, name: "ホブゴブリンダークナイト", rarity: CardRarity::Rare, race: Race::Demihuman, stats: CardStats { monster_count: 16, speed: 5, attack: 12, intelligence: 4, defense: 11, magic_defense: 6, range: 2, cost_milli: 1500, occupation_power: 100 } }),
        66 => Some(CardDef { id: 66, name: "ゴブリンプリンセス", rarity: CardRarity::Epic, race: Race::Demihuman, stats: CardStats { monster_count: 15, speed: 5, attack: 12, intelligence: 10, defense: 10, magic_defense: 8, range: 1, cost_milli: 1500, occupation_power: 100 } }),
        70 => Some(CardDef { id: 70, name: "レッサーデーモン", rarity: CardRarity::Common, race: Race::Demon, stats: CardStats { monster_count: 8, speed: 5, attack: 6, intelligence: 5, defense: 4, magic_defense: 5, range: 1, cost_milli: 1500, occupation_power: 100 } }),
        71 => Some(CardDef { id: 71, name: "サキュバス", rarity: CardRarity::Uncommon, race: Race::Demon, stats: CardStats { monster_count: 10, speed: 6, attack: 5, intelligence: 10, defense: 4, magic_defense: 8, range: 2, cost_milli: 1500, occupation_power: 100 } }),
        72 => Some(CardDef { id: 72, name: "ナイトメア", rarity: CardRarity::Uncommon, race: Race::Demon, stats: CardStats { monster_count: 12, speed: 7, attack: 8, intelligence: 6, defense: 6, magic_defense: 5, range: 1, cost_milli: 1500, occupation_power: 100 } }),
        73 => Some(CardDef { id: 73, name: "アークデーモン", rarity: CardRarity::Rare, race: Race::Demon, stats: CardStats { monster_count: 16, speed: 5, attack: 13, intelligence: 8, defense: 10, magic_defense: 8, range: 1, cost_milli: 1500, occupation_power: 100 } }),
        74 => Some(CardDef { id: 74, name: "リリス", rarity: CardRarity::Epic, race: Race::Demon, stats: CardStats { monster_count: 14, speed: 7, attack: 10, intelligence: 16, defense: 8, magic_defense: 14, range: 2, cost_milli: 1500, occupation_power: 100 } }),
        80 => Some(CardDef { id: 80, name: "リンドヴルム", rarity: CardRarity::Common, race: Race::Dragon, stats: CardStats { monster_count: 8, speed: 4, attack: 7, intelligence: 4, defense: 5, magic_defense: 4, range: 1, cost_milli: 1500, occupation_power: 100 } }),
        81 => Some(CardDef { id: 81, name: "シーサーペント", rarity: CardRarity::Uncommon, race: Race::Dragon, stats: CardStats { monster_count: 12, speed: 5, attack: 8, intelligence: 6, defense: 7, magic_defense: 6, range: 1, cost_milli: 1500, occupation_power: 100 } }),
        82 => Some(CardDef { id: 82, name: "ファイアドレイク", rarity: CardRarity::Rare, race: Race::Dragon, stats: CardStats { monster_count: 14, speed: 5, attack: 11, intelligence: 9, defense: 8, magic_defense: 7, range: 2, cost_milli: 1500, occupation_power: 100 } }),
        83 => Some(CardDef { id: 83, name: "バハムート", rarity: CardRarity::Epic, race: Race::Dragon, stats: CardStats { monster_count: 20, speed: 4, attack: 18, intelligence: 14, defense: 16, magic_defense: 12, range: 2, cost_milli: 1500, occupation_power: 100 } }),
        90 => Some(CardDef { id: 90, name: "オーガ", rarity: CardRarity::Common, race: Race::Giant, stats: CardStats { monster_count: 10, speed: 3, attack: 7, intelligence: 2, defense: 6, magic_defense: 2, range: 1, cost_milli: 1500, occupation_power: 100 } }),
        91 => Some(CardDef { id: 91, name: "サイクロプス", rarity: CardRarity::Uncommon, race: Race::Giant, stats: CardStats { monster_count: 14, speed: 3, attack: 9, intelligence: 3, defense: 9, magic_defense: 4, range: 1, cost_milli: 1500, occupation_power: 100 } }),
        92 => Some(CardDef { id: 92, name: "アイアンゴーレム", rarity: CardRarity::Rare, race: Race::Giant, stats: CardStats { monster_count: 18, speed: 2, attack: 10, intelligence: 3, defense: 14, magic_defense: 6, range: 1, cost_milli: 1500, occupation_power: 100 } }),
        93 => Some(CardDef { id: 93, name: "ギガース", rarity: CardRarity::Epic, race: Race::Giant, stats: CardStats { monster_count: 22, speed: 3, attack: 16, intelligence: 5, defense: 18, magic_defense: 10, range: 1, cost_milli: 1500, occupation_power: 100 } }),
        100 => Some(CardDef { id: 100, name: "ウィスプ", rarity: CardRarity::Common, race: Race::Spirit, stats: CardStats { monster_count: 6, speed: 6, attack: 3, intelligence: 7, defense: 2, magic_defense: 6, range: 2, cost_milli: 1500, occupation_power: 100 } }),
        101 => Some(CardDef { id: 101, name: "シルフ", rarity: CardRarity::Uncommon, race: Race::Spirit, stats: CardStats { monster_count: 8, speed: 7, attack: 4, intelligence: 9, defense: 3, magic_defense: 7, range: 2, cost_milli: 1500, occupation_power: 100 } }),
        102 => Some(CardDef { id: 102, name: "ウンディーネ", rarity: CardRarity::Uncommon, race: Race::Spirit, stats: CardStats { monster_count: 10, speed: 5, attack: 5, intelligence: 10, defense: 5, magic_defense: 9, range: 2, cost_milli: 1500, occupation_power: 100 } }),
        103 => Some(CardDef { id: 103, name: "イフリート", rarity: CardRarity::Rare, race: Race::Spirit, stats: CardStats { monster_count: 14, speed: 5, attack: 12, intelligence: 11, defense: 7, magic_defense: 8, range: 1, cost_milli: 1500, occupation_power: 100 } }),
        104 => Some(CardDef { id: 104, name: "フェニックス", rarity: CardRarity::Epic, race: Race::Spirit, stats: CardStats { monster_count: 16, speed: 6, attack: 10, intelligence: 15, defense: 8, magic_defense: 14, range: 2, cost_milli: 1500, occupation_power: 100 } }),
        110 => Some(CardDef { id: 110, name: "ゾンビ", rarity: CardRarity::Common, race: Race::Undead, stats: CardStats { monster_count: 10, speed: 2, attack: 5, intelligence: 1, defense: 6, magic_defense: 2, range: 1, cost_milli: 1500, occupation_power: 100 } }),
        111 => Some(CardDef { id: 111, name: "レイス", rarity: CardRarity::Uncommon, race: Race::Undead, stats: CardStats { monster_count: 8, speed: 5, attack: 4, intelligence: 8, defense: 3, magic_defense: 9, range: 2, cost_milli: 1500, occupation_power: 100 } }),
        112 => Some(CardDef { id: 112, name: "ワイト", rarity: CardRarity::Uncommon, race: Race::Undead, stats: CardStats { monster_count: 12, speed: 4, attack: 8, intelligence: 5, defense: 7, magic_defense: 5, range: 1, cost_milli: 1500, occupation_power: 100 } }),
        113 => Some(CardDef { id: 113, name: "ドゥラハン", rarity: CardRarity::Rare, race: Race::Undead, stats: CardStats { monster_count: 14, speed: 5, attack: 11, intelligence: 4, defense: 10, magic_defense: 6, range: 1, cost_milli: 1500, occupation_power: 100 } }),
        114 => Some(CardDef { id: 114, name: "エルダーリッチ", rarity: CardRarity::Epic, race: Race::Undead, stats: CardStats { monster_count: 16, speed: 4, attack: 8, intelligence: 18, defense: 8, magic_defense: 16, range: 3, cost_milli: 1000, occupation_power: 90 } }),
        _ => None,
    }
}

/// Card definition by id.
pub fn get_card(id: u32) -> (r: Option<CardDef>)
    ensures
        r == card_spec(id),
{
    match id {
        0 => Some(CardDef { id: 0, name: "ダイアウルフ", rarity: CardRarity::Rare, race: Race::Beast, stats: CardStats { monster_count: 15, speed: 6, attack: 9, intelligence: 3, defense: 4, magic_defense: 3, range: 1, cost_milli: 1500, occupation_power: 100 } }),
        1 => Some(CardDef { id: 1, name: "ゴブリンウォリアー", rarity: CardRarity::Rare, race: Race::Demihuman, stats: CardStats { monster_count: 18, speed: 5, attack: 7, intelligence: 4, defense: 6, magic_defense: 3, range: 1, cost_milli: 1500, occupation_power: 100 } }),
        2 => Some(CardDef { id: 2, name: "インプ", rarity: CardRarity::Rare, race: Race::Demon, stats: CardStats { monster_count: 10, speed: 7, attack: 4, intelligence: 10, defense: 2, magic_defense: 6, range: 2, cost_milli: 1500, occupation_power: 100 } }),
        3 => Some(CardDef { id: 3, name: "ワイバーン", rarity: CardRarity::Rare, race: Race::Dragon, stats: CardStats { monster_count: 12, speed: 5, attack: 8, intelligence: 6, defense: 5, magic_defense: 5, range: 2, cost_milli: 1500, occupation_power: 100 } }),
        4 => Some(CardDef { id: 4, name: "ゴーレム", rarity: CardRarity::Rare, race: Race::Giant, stats: CardStats { monster_count: 16, speed: 3, attack: 6, intelligence: 2, defense: 10, magic_defense: 4, range: 1, cost_milli: 1500, occupation_power: 100 } }),
        5 => Some(CardDef { id: 5, name: "サラマンダー", rarity: CardRarity::Rare, race: Race::Spirit, stats: CardStats { monster_count: 11, speed: 5, attack: 5, intelligence: 9, defense: 3, magic_defense: 7, range: 2, cost_milli: 1500, occupation_power: 100 } }),
        6 => Some(CardDef { id: 6, name: "スケルトンソルジャー", rarity: CardRarity::Rare, race: Race::Undead, stats: CardStats { monster_count: 14, speed: 4, attack: 7, intelligence: 3, defense: 7, magic_defense: 4, range: 1, cost_milli: 1500, occupation_power: 100 } }),
        7 => Some(CardDef { id: 7, name: "ヘルハウンド", rarity: CardRarity::Rare, race: Race::Beast, stats: CardStats { monster_count: 13, speed: 7, attack: 8, intelligence: 4, defense: 3, magic_defense: 3, range: 1, cost_milli: 1500, occupation_power: 100 } }),
        8 => Some(CardDef { id: 8, name: "リザードマン", rarity: CardRarity::Rare, race: Race::Demihuman, stats: CardStats { monster_count: 14, speed: 5, attack: 8, intelligence: 5, defense: 5, magic_defense: 4, range: 1, cost_milli: 1500, occupation_power: 100 } }),
        9 => Some(CardDef { id: 9, name: "トレント", rarity: CardRarity::Rare, race: Race::Spirit, stats: CardStats { monster_count: 16, speed: 3, attack: 5, intelligence: 7, defense: 8, magic_defense: 6, range: 1, cost_milli: 1500, occupation_power: 100 } }),
        10 => Some(CardDef { id: 10, name: "ゴブリン", rarity: CardRarity::Common, race: Race::Demihuman, stats: CardStats { monster_count: 2, speed: 3, attack: 3, intelligence: 2, defense: 2, magic_defense: 1, range: 1, cost_milli: 1500, occupation_power: 100 } }),
        11 => Some(CardDef { id: 11, name: "コボルド", rarity: CardRarity::Common, race: Race::Demihuman, stats: CardStats { monster_count: 4, speed: 4, attack: 5, intelligence: 3, defense: 3, magic_defense: 2, range: 1, cost_milli: 1500, occupation_power: 100 } }),
        12 => Some(CardDef { id: 12, name: "オーク", rarity: CardRarity::Uncommon, race: Race::Demihuman, stats: CardStats { monster_count: 6, speed: 3, attack: 8, intelligence: 4, defense: 6, magic_defense: 3, range: 1, cost_milli: 1500, occupation_power: 100 } }),
        13 => Some(CardDef { id: 13, name: "スケルトン", rarity: CardRarity::Uncommon, race: Race::Undead, stats: CardStats { monster_count: 8, speed: 4, attack: 10, intelligence: 6, defense: 8, magic_defense: 5, range: 1, cost_milli: 1500, occupation_power: 100 } }),
        14 => Some(CardDef { id: 14, name: "トロール", rarity: CardRarity::Rare, race: Race::Giant, stats: CardStats { monster_count: 12, speed: 3, attack: 15, intelligence: 3, defense: 12, magic_defense: 4, range: 1, cost_milli: 1500, occupation_power: 100 } }),
        15 => Some(CardDef { id: 15, name: "ドレイク", rarity: CardRarity::Epic, race: Race::Dragon, stats: CardStats { monster_count: 15, speed: 6, attack: 20, intelligence: 15, defense: 15, magic_defense: 10, range: 2, cost_milli: 1500, occupation_power: 100 } }),
        20 => Some(CardDef { id: 20, name: "ストーンゴーレム", rarity: CardRarity::Uncommon, race: Race::Giant, stats: CardStats { monster_count: 8, speed: 2, attack: 6, intelligence: 2, defense: 10, magic_defense: 4, range: 1, cost_milli: 1500, occupation_power: 100 } }),
        21 => Some(CardDef { id: 21, name: "ゴースト", rarity: CardRarity::Uncommon, race: Race::Undead, stats: CardStats { monster_count: 6, speed: 5, attack: 4, intelligence: 8, defense: 3, magic_defense: 8, range: 2, cost_milli: 1500, occupation_power: 100 } }),
        22 => Some(CardDef { id: 22, name: "スケルトンナイト", rarity: CardRarity::Uncommon, race: Race::Undead, stats: CardStats { monster_count: 10, speed: 4, attack: 10, intelligence: 3, defense: 8, magic_defense: 4, range: 1, cost_milli: 1500, occupation_power: 100 } }),
        23 => Some(CardDef { id: 23, name: "コカトリス", rarity: CardRarity::Rare, race: Race::Beast, stats: CardStats { monster_count: 12, speed: 5, attack: 7, intelligence: 8, defense: 4, magic_defense: 6, range: 1, cost_milli: 1500, occupation_power: 100 } }),
        24 => Some(CardDef { id: 24, name: "ミミック", rarity: CardRarity::Rare, race: Race::Demon, stats: CardStats { monster_count: 7, speed: 7, attack: 8, intelligence: 5, defense: 5, magic_defense: 5, range: 1, cost_milli: 1500, occupation_power: 100 } }),
        25 => Some(CardDef { id: 25, name: "ポイズンスパイダー", rarity: CardRarity::Uncommon, race: Race::Beast, stats: CardStats { monster_count: 5, speed: 6, attack: 6, intelligence: 4, defense: 3, magic_defense: 3, range: 1, cost_milli: 1500, occupation_power: 100 } }),
        30 => Some(CardDef { id: 30, name: "ダークウィザード", rarity: CardRarity::Rare, race: Race::Demon, stats: CardStats { monster_count: 12, speed: 5, attack: 12, intelligence: 10, defense: 6, magic_defense: 8, range: 2, cost_milli: 1500, occupation_power: 100 } }),
        31 => Some(CardDef { id: 31, name: "ガーゴイル", rarity: CardRarity::Rare, race: Race::Demon, stats: CardStats { monster_count: 14, speed: 4, attack: 14, intelligence: 4, defense: 12, magic_defense: 6, range: 1, cost_milli: 1500, occupation_power: 100 } }),
        32 => Some(CardDef { id: 32, name: "シャドウアサシン", rarity: CardRarity::Rare, race: Race::Demon, stats: CardStats { monster_count: 10, speed: 8, attack: 16, intelligence: 2, defense: 6, magic_defense: 4, range: 1, cost_milli: 1500, occupation_power: 100 } }),
        33 => Some(CardDef { id: 33, name: "フレイムスピリット", rarity: CardRarity::Rare, race: Race::Spirit, stats: CardStats { monster_count: 9, speed: 5, attack: 6, intelligence: 14, defense: 4, magic_defense: 10, range: 2, cost_milli: 1500, occupation_power: 100 } }),
        34 => Some(CardDef { id: 34, name: "アイスエレメンタル", rarity: CardRarity::Rare, race: Race::Spirit, stats: CardStats { monster_count: 9, speed: 5, attack: 6, intelligence: 14, defense: 4, magic_defense: 10, range: 2, cost_milli: 1500, occupation_power: 100 } }),
        35 => Some(CardDef { id: 35, name: "デスナイト", rarity: CardRarity::Epic, race: Race::Undead, stats: CardStats { monster_count: 16, speed: 4, attack: 12, intelligence: 6, defense: 14, magic_defense: 8, range: 1, cost_milli: 1500, occupation_power: 100 } }),
        36 => Some(CardDef { id: 36, name: "ヒュドラ", rarity: CardRarity::Epic, race: Race::Dragon, stats: CardStats { monster_count: 14, speed: 4, attack: 14, intelligence: 12, defense: 10, magic_defense: 10, range: 1, cost_milli: 1500, occupation_power: 100 } }),
        37 => Some(CardDef { id: 37, name: "ミノタウロス", rarity: CardRarity::Epic, race: Race::Giant, stats: CardStats { monster_count: 14, speed: 5, attack: 16, intelligence: 4, defense: 12, magic_defense: 6, range: 1, cost_milli: 1500, occupation_power: 100 } }),
        40 => Some(CardDef { id: 40, name: "ニーズヘッグ", rarity: CardRarity::Legendary, race: Race::Dragon, stats: CardStats { monster_count: 30, speed: 4, attack: 25, intelligence: 18, defense: 20, magic_defense: 15, range: 1, cost_milli: 1500, occupation_power: 100 } }),
        41 => Some(CardDef { id: 41, name: "ヴァンパイアロード", rarity: CardRarity::Legendary, race: Race::Undead, stats: CardStats { monster_count: 22, speed: 6, attack: 18, intelligence: 20, defense: 14, magic_defense: 18, range: 1, cost_milli: 1500, occupation_power: 100 } }),
        42 => Some(CardDef { id: 42, name: "リッチ", rarity: CardRarity::Legendary, race: Race::Undead, stats: CardStats { monster_count: 22, speed: 5, attack: 15, intelligence: 25, defense: 12, magic_defense: 20, range: 2, cost_milli: 1500, occupation_power: 100 } }),
        43 => Some(CardDef { id: 43, name: "タイタン", rarity: CardRarity::Legendary, race: Race::Giant, stats: CardStats { monster_count: 35, speed: 2, attack: 22, intelligence: 12, defense: 25, magic_defense: 18, range: 1, cost_milli: 1500, occupation_power: 100 } }),
        50 => Some(CardDef { id: 50, name: "バット", rarity: CardRarity::Common, race: Race::Beast, stats: CardStats { monster_count: 8, speed: 8, attack: 4, intelligence: 2, defense: 3, magic_defense: 2, range: 1, cost_milli: 1500, occupation_power: 100 } }),
        51 => Some(CardDef { id: 51, name: "ジャイアントバット", rarity: CardRarity::Uncommon, race: Race::Beast, stats: CardStats { monster_count: 10, speed: 7, attack: 6, intelligence: 3, defense: 5, magic_defense: 3, range: 1, cost_milli: 1500, occupation_power: 100 } }),
        52 => Some(CardDef { id: 52, name: "ヴァンパイアバット", rarity: CardRarity::Uncommon, race: Race::Beast, stats: CardStats { monster_count: 12, speed: 7, attack: 7, intelligence: 4, defense: 5, magic_defense: 4, range: 1, cost_milli: 1500, occupation_power: 100 } }),
        53 => Some(CardDef { id: 53, name: "カマソッツ", rarity: CardRarity::Rare, race: Race::Beast, stats: CardStats { monster_count: 14, speed: 8, attack: 9, intelligence: 5, defense: 6, magic_defense: 5, range: 2, cost_milli: 1500, occupation_power: 100 } }),
        54 => Some(CardDef { id: 54, name: "ボーゲスト", rarity: CardRarity::Uncommon, race: Race::Beast, stats: CardStats { monster_count: 11, speed: 5, attack: 7, intelligence: 4, defense: 6, magic_defense: 3, range: 1, cost_milli: 1500, occupation_power: 100 } }),
        55 => Some(CardDef { id: 55, name: "ガイトラッシュ", rarity: CardRarity::Rare, race: Race::Beast, stats: CardStats { monster_count: 14, speed: 6, attack: 10, intelligence: 5, defense: 7, magic_defense: 4, range: 1, cost_milli: 1500, occupation_power: 100 } }),
        56 => Some(CardDef { id: 56, name: "レウクロコタ", rarity: CardRarity::Epic, race: Race::Beast, stats: CardStats { monster_count: 18, speed: 9, attack: 14, intelligence: 6, defense: 8, magic_defense: 5, range: 1, cost_milli: 1500, occupation_power: 100 } }),
        60 => Some(CardDef { id: 60, name: "ゴブリンアーチャー", rarity: CardRarity::Common, race: Race::Demihuman, stats: CardStats { monster_count: 6, speed: 4, attack: 5, intelligence: 2, defense: 2, magic_defense: 1, range: 3, cost_milli: 1000, occupation_power: 90 } }),
        61 => Some(CardDef { id: 61, name: "ゴブリンコック", rarity: CardRarity::Common, race: Race::Demihuman, stats: CardStats { monster_count: 10, speed: 4, attack: 5, intelligence: 5, defense: 5, magic_defense: 4, range: 2, cost_milli: 1500, occupation_power: 100 } }),
        62 => Some(CardDef { id: 62, name: "ホブゴブリン", rarity: CardRarity::Uncommon, race: Race::Demihuman, stats: CardStats { monster_count: 12, speed: 5, attack: 7, intelligence: 5, defense: 8, magic_defense: 5, range: 2, cost_milli: 1500, occupation_power: 100 } }),
        63 => Some(CardDef { id: 63, name: "オークアーマーナイト", rarity: CardRarity::Uncommon, race: Race::Demihuman, stats: CardStats { monster_count: 14, speed: 3, attack: 8, intelligence: 4, defense: 10, magic_defense: 5, range: 1, cost_milli: 1500, occupation_power: 100 } }),
        64 => Some(CardDef { id: 64, name: "ゴブリンソードマン", rarity: CardRarity::Uncommon, race: Race::Demihuman, stats: CardStats { monster_count: 12, speed: 6, attack: 9, intelligence: 5, defense: 6, magic_defense: 4, range: 1, cost_milli: 1500, occupation_power: 100 } }),
        65 => Some(CardDef { id: 65, name: "ホブゴブリンダークナイト", rarity: CardRarity::Rare, race: Race::Demihuman, stats: CardStats { monster_count: 16, speed: 5, attack: 12, intelligence: 4, defense: 11, magic_defense: 6, range: 2, cost_milli: 1500, occupation_power: 100 } }),
        66 => Some(CardDef { id: 66, name: "ゴブリンプリンセス", rarity: CardRarity::Epic, race: Race::Demihuman, stats: CardStats { monster_count: 15, speed: 5, attack: 12, intelligence: 10, defense: 10, magic_defense: 8, range: 1, cost_milli: 1500, occupation_power: 100 } }),
        70 => Some(CardDef { id: 70, name: "レッサーデーモン", rarity: CardRarity::Common, race: Race::Demon, stats: CardStats { monster_count: 8, speed: 5, attack: 6, intelligence: 5, defense: 4, magic_defense: 5, range: 1, cost_milli: 1500, occupation_power: 100 } }),
        71 => Some(CardDef { id: 71, name: "サキュバス", rarity: CardRarity::Uncommon, race: Race::Demon, stats: CardStats { monster_count: 10, speed: 6, attack: 5, intelligence: 10, defense: 4, magic_defense: 8, range: 2, cost_milli: 1500, occupation_power: 100 } }),
        72 => Some(CardDef { id: 72, name: "ナイトメア", rarity: CardRarity::Uncommon, race: Race::Demon, stats: CardStats { monster_count: 12, speed: 7, attack: 8, intelligence: 6, defense: 6, magic_defense: 5, range: 1, cost_milli: 1500, occupation_power: 100 } }),
        73 => Some(CardDef { id: 73, name: "アークデーモン", rarity: CardRarity::Rare, race: Race::Demon, stats: CardStats { monster_count: 16, speed: 5, attack: 13, intelligence: 8, defense: 10, magic_defense: 8, range: 1, cost_milli: 1500, occupation_power: 100 } }),
        74 => Some(CardDef { id: 74, name: "リリス", rarity: CardRarity::Epic, race: Race::Demon, stats: CardStats { monster_count: 14, speed: 7, attack: 10, intelligence: 16, defense: 8, magic_defense: 14, range: 2, cost_milli: 1500, occupation_power: 100 } }),
        80 => Some(CardDef { id: 80, name: "リンドヴルム", rarity: CardRarity::Common, race: Race::Dragon, stats: CardStats { monster_count: 8, speed: 4, attack: 7, intelligence: 4, defense: 5, magic_defense: 4, range: 1, cost_milli: 1500, occupation_power: 100 } }),
        81 => Some(CardDef { id: 81, name: "シーサーペント", rarity: CardRarity::Uncommon, race: Race::Dragon, stats: CardStats { monster_count: 12, speed: 5, attack: 8, intelligence: 6, defense: 7, magic_defense: 6, range: 1, cost_milli: 1500, occupation_power: 100 } }),
        82 => Some(CardDef { id: 82, name: "ファイアドレイク", rarity: CardRarity::Rare, race: Race::Dragon, stats: CardStats { monster_count: 14, speed: 5, attack: 11, intelligence: 9, defense: 8, magic_defense: 7, range: 2, cost_milli: 1500, occupation_power: 100 } }),
        83 => Some(CardDef { id: 83, name: "バハムート", rarity: CardRarity::Epic, race: Race::Dragon, stats: CardStats { monster_count: 20, speed: 4, attack: 18, intelligence: 14, defense: 16, magic_defense: 12, range: 2, cost_milli: 1500, occupation_power: 100 } }),
        90 => Some(CardDef { id: 90, name: "オーガ", rarity: CardRarity::Common, race: Race::Giant, stats: CardStats { monster_count: 10, speed: 3, attack: 7, intelligence: 2, defense: 6, magic_defense: 2, range: 1, cost_milli: 1500, occupation_power: 100 } }),
        91 => Some(CardDef { id: 91, name: "サイクロプス", rarity: CardRarity::Uncommon, race: Race::Giant, stats: CardStats { monster_count: 14, speed: 3, attack: 9, intelligence: 3, defense: 9, magic_defense: 4, range: 1, cost_milli: 1500, occupation_power: 100 } }),
        92 => Some(CardDef { id: 92, name: "アイアンゴーレム", rarity: CardRarity::Rare, race: Race::Giant, stats: CardStats { monster_count: 18, speed: 2, attack: 10, intelligence: 3, defense: 14, magic_defense: 6, range: 1, cost_milli: 1500, occupation_power: 100 } }),
        93 => Some(CardDef { id: 93, name: "ギガース", rarity: CardRarity::Epic, race: Race::Giant, stats: CardStats { monster_count: 22, speed: 3, attack: 16, intelligence: 5, defense: 18, magic_defense: 10, range: 1, cost_milli: 1500, occupation_power: 100 } }),
        100 => Some(CardDef { id: 100, name: "ウィスプ", rarity: CardRarity::Common, race: Race::Spirit, stats: CardStats { monster_count: 6, speed: 6, attack: 3, intelligence: 7, defense: 2, magic_defense: 6, range: 2, cost_milli: 1500, occupation_power: 100 } }),
        101 => Some(CardDef { id: 101, name: "シルフ", rarity: CardRarity::Uncommon, race: Race::Spirit, stats: CardStats { monster_count: 8, speed: 7, attack: 4, intelligence: 9, defense: 3, magic_defense: 7, range: 2, cost_milli: 1500, occupation_power: 100 } }),
        102 => Some(CardDef { id: 102, name: "ウンディーネ", rarity: CardRarity::Uncommon, race: Race::Spirit, stats: CardStats { monster_count: 10, speed: 5, attack: 5, intelligence: 10, defense: 5, magic_defense: 9, range: 2, cost_milli: 1500, occupation_power: 100 } }),
        103 => Some(CardDef { id: 103, name: "イフリート", rarity: CardRarity::Rare, race: Race::Spirit, stats: CardStats { monster_count: 14, speed: 5, attack: 12, intelligence: 11, defense: 7, magic_defense: 8, range: 1, cost_milli: 1500, occupation_power: 100 } }),
        104 => Some(CardDef { id: 104, name: "フェニックス", rarity: CardRarity::Epic, race: Race::Spirit, stats: CardStats { monster_count: 16, speed: 6, attack: 10, intelligence: 15, defense: 8, magic_defense: 14, range: 2, cost_milli: 1500, occupation_power: 100 } }),
        110 => Some(CardDef { id: 110, name: "ゾンビ", rarity: CardRarity::Common, race: Race::Undead, stats: CardStats { monster_count: 10, speed: 2, attack: 5, intelligence: 1, defense: 6, magic_defense: 2, range: 1, cost_milli: 1500, occupation_power: 100 } }),
        111 => Some(CardDef { id: 111, name: "レイス", rarity: CardRarity::Uncommon, race: Race::Undead, stats: CardStats { monster_count: 8, speed: 5, attack: 4, intelligence: 8, defense: 3, magic_defense: 9, range: 2, cost_milli: 1500, occupation_power: 100 } }),
        112 => Some(CardDef { id: 112, name: "ワイト", rarity: CardRarity::Uncommon, race: Race::Undead, stats: CardStats { monster_count: 12, speed: 4, attack: 8, intelligence: 5, defense: 7, magic_defense: 5, range: 1, cost_milli: 1500, occupation_power: 100 } }),
        113 => Some(CardDef { id: 113, name: "ドゥラハン", rarity: CardRarity::Rare, race: Race::Undead, stats: CardStats { monster_count: 14, speed: 5, attack: 11, intelligence: 4, defense: 10, magic_defense: 6, range: 1, cost_milli: 1500, occupation_power: 100 } }),
        114 => Some(CardDef { id: 114, name: "エルダーリッチ", rarity: CardRarity::Epic, race: Race::Undead, stats: CardStats { monster_count: 16, speed: 4, attack: 8, intelligence: 18, defense: 8, magic_defense: 16, range: 3, cost_milli: 1000, occupation_power: 90 } }),
        _ => None,
    }
}

/// Ids of the card table, in table order.
pub open spec fn card_ids_spec() -> Seq<u32> {
    seq![0, 1, 2, 3, 4, 5, 6, 7, 8, 9, 10, 11, 12, 13, 14, 15, 20, 21, 22, 23, 24, 25, 30, 31, 32, 33, 34, 35, 36, 37, 40, 41, 42, 43, 50, 51, 52, 53, 54, 55, 56, 60, 61, 62, 63, 64, 65, 66, 70, 71, 72, 73, 74, 80, 81, 82, 83, 90, 91, 92, 93, 100, 101, 102, 103, 104, 110, 111, 112, 113, 114]
}

/// Ids of the card table, in table order.
pub fn card_ids() -> (v: Vec<u32>)
    ensures
        v@ == card_ids_spec(),
{
    let v: Vec<u32> = vec![0, 1, 2, 3, 4, 5, 6, 7, 8, 9, 10, 11, 12, 13, 14, 15, 20, 21, 22, 23, 24, 25, 30, 31, 32, 33, 34, 35, 36, 37, 40, 41, 42, 43, 50, 51, 52, 53, 54, 55, 56, 60, 61, 62, 63, 64, 65, 66, 70, 71, 72, 73, 74, 80, 81, 82, 83, 90, 91, 92, 93, 100, 101, 102, 103, 104, 110, 111, 112, 113, 114];
    proof {
        assert(v@ =~= card_ids_spec());
    }
    v
}

pub open spec fn is_abc(c: char) -> bool {
    c == 'A' || c == 'B' || c == 'C'
}

/// `s` without its trailing run of 'A', 'B' and 'C' (`trim_end_matches`).
pub open spec fn trim_abc(s: Seq<char>) -> Seq<char>
    decreases s.len(),
{
    if s.len() > 0 && is_abc(s.last()) {
        trim_abc(s.drop_last())
    } else {
        s
    }
}

/// Legacy enemy names and the card they stand for.
pub open spec fn card_alias(t: Seq<char>) -> Seq<char> {
    if t == "カースドアーマー"@ || t == "呪われた鎧"@ {
        "ガーゴイル"@
    } else if t == "炎の精霊"@ {
        "フレイムスピリット"@
    } else if t == "氷の精霊"@ || t == "アイスエレメンタル"@ {
        "アイスエレメンタル"@
    } else if t == "毒蜘蛛"@ {
        "ポイズンスパイダー"@
    } else if t == "ファントム"@ {
        "ゴースト"@
    } else if t == "スライムキング"@ {
        "コカトリス"@
    } else if t == "クリスタルゴーレム"@ {
        "ミノタウロス"@
    } else if t == "ネクロマンサー"@ || t == "リッチロード"@ {
        "リッチ"@
    } else if t == "遺跡の守護者"@ {
        "ニーズヘッグ"@
    } else if t == "ドラゴンゾンビ"@ {
        "ヴァンパイアロード"@
    } else if t == "タイタンコロッサス"@ {
        "タイタン"@
    } else if t == "スライム"@ {
        "ゴブリン"@
    } else if t == "骸骨戦士"@ {
        "スケルトン"@
    } else if t == "オーガ"@ {
        "トロール"@
    } else if t == "ワイバーン"@ {
        "ドレイク"@
    } else if t == "トレジャーミミック"@ {
        "ミミック"@
    } else {
        t
    }
}

/// The card name an enemy name stands for: trailing A/B/C dropped, legacy aliases mapped.
pub open spec fn normalize_card_name_spec(name: Seq<char>) -> Seq<char> {
    card_alias(trim_abc(name))
}

/// Length of `s` without its trailing run of 'A', 'B' and 'C'.
pub fn trimmed_abc_len(s: &Vec<char>) -> (k: usize)
    ensures
        k <= s@.len(),
        s@.take(k as int) == trim_abc(s@),
{
    let mut k = s.len();
    proof {
        assert(s@.take(k as int) =~= s@);
    }
    while k > 0 && (s[k - 1] == 'A' || s[k - 1] == 'B' || s[k - 1] == 'C')
        invariant
            k <= s@.len(),
            trim_abc(s@.take(k as int)) == trim_abc(s@),
        decreases k,
    {
        proof {
            assert(s@.take(k as int).drop_last() =~= s@.take(k - 1));
        }
        k -= 1;
    }
    k
}

fn alias_matches(t: &Vec<char>, lit: &str) -> (r: bool)
    ensures
        r == (t@ == lit@),
{
    chars_eq(t, &chars_of(lit))
}

/// Maps an enemy display name to the card name it stands for.
pub fn normalize_card_name(name: &str) -> (r: &str)
    ensures
        r@ == normalize_card_name_spec(name@),
{
    let cs = chars_of(name);
    let k = trimmed_abc_len(&cs);
    let ghost t = cs@.take(k as int);
    let tv: Vec<char> = {
        let mut v: Vec<char> = Vec::new();
        let mut i: usize = 0;
        while i < k
            invariant
                i <= k <= cs@.len(),
                v@ == cs@.take(i as int),
            decreases k - i,
        {
            v.push(cs[i]);
            i += 1;
            proof {
                assert(v@ =~= cs@.take(i as int));
            }
        }
        v
    };
    if alias_matches(&tv, "カースドアーマー") || alias_matches(&tv, "呪われた鎧") {
        "ガーゴイル"
    } else if alias_matches(&tv, "炎の精霊") {
        "フレイムスピリット"
    } else if alias_matches(&tv, "氷の精霊") || alias_matches(&tv, "アイスエレメンタル") {
        "アイスエレメンタル"
    } else if alias_matches(&tv, "毒蜘蛛") {
        "ポイズンスパイダー"
    } else if alias_matches(&tv, "ファントム") {
        "ゴースト"
    } else if alias_matches(&tv, "スライムキング") {
        "コカトリス"
    } else if alias_matches(&tv, "クリスタルゴーレム") {
        "ミノタウロス"
    } else if alias_matches(&tv, "ネクロマンサー") || alias_matches(&tv, "リッチロード") {
        "リッチ"
    } else if alias_matches(&tv, "遺跡の守護者") {
        "ニーズヘッグ"
    } else if alias_matches(&tv, "ドラゴンゾンビ") {
        "ヴァンパイアロード"
    } else if alias_matches(&tv, "タイタンコロッサス") {
        "タイタン"
    } else if alias_matches(&tv, "スライム") {
        "ゴブリン"
    } else if alias_matches(&tv, "骸骨戦士") {
        "スケルトン"
    } else if alias_matches(&tv, "オーガ") {
        "トロール"
    } else if alias_matches(&tv, "ワイバーン") {
        "ドレイク"
    } else if alias_matches(&tv, "トレジャーミミック") {
        "ミミック"
    } else {
        proof {
            assert(cs@ == name@);
        }
        name.substring_char(0, k)
    }
}

/// The card with this id is named `target`.
pub open spec fn id_named(id: u32, target: Seq<char>) -> bool {
    card_spec(id) matches Some(c) && c.name@ == target
}

/// Position `i` of the table is the first card whose name is `target`.
pub open spec fn is_first_named(target: Seq<char>, i: int) -> bool {
    let ids = card_ids_spec();
    &&& 0 <= i < ids.len()
    &&& id_named(ids[i], target)
    &&& forall|j: int| 0 <= j < i ==> !id_named(#[trigger] ids[j], target)
}

/// The first card of the table named `target`.
pub open spec fn card_named(target: Seq<char>) -> Option<CardDef> {
    if exists|i: int| is_first_named(target, i) {
        card_spec(card_ids_spec()[choose|i: int| is_first_named(target, i)])
    } else {
        None
    }
}

/// The card an (enemy) name stands for: with its trailing A/B/C dropped, the card of that
/// name; when no card has it, the card its alias names (see [`card_alias`]).
pub open spec fn card_for_name(name: Seq<char>) -> Option<CardDef> {
    match card_named(trim_abc(name)) {
        Some(c) => Some(c),
        None => card_named(normalize_card_name_spec(name)),
    }
}

/// The first card of the table named `target`.
fn find_card_named(target: &Vec<char>) -> (r: Option<CardDef>)
    ensures
        r == card_named(target@),
{
    let ids = card_ids();
    let mut i: usize = 0;
    while i < ids.len()
        invariant
            i <= ids@.len(),
            ids@ == card_ids_spec(),
            forall|j: int| 0 <= j < i ==> !id_named(#[trigger] ids@[j], target@),
        decreases ids.len() - i,
    {
        if let Some(c) = get_card(ids[i]) {
            if chars_eq(&chars_of(c.name), target) {
                proof {
                    assert(is_first_named(target@, i as int));
                    let ch = choose|i: int| is_first_named(target@, i);
                    if ch < i {
                        assert(!id_named(ids@[ch], target@));
                    } else if ch > i {
                        assert(!id_named(ids@[i as int], target@));
                    }
                    assert(ch == i);
                    assert(card_spec(ids@[i as int]) == Some(c));
                }
                return Some(c);
            }
        }
        i += 1;
    }
    proof {
        assert(!exists|k: int| is_first_named(target@, k));
    }
    None
}

/// Card definition by (enemy) name (see [`card_for_name`]).
pub fn get_card_by_name(name: &str) -> (r: Option<CardDef>)
    ensures
        r == card_for_name(name@),
{
    let cs = chars_of(name);
    let k = trimmed_abc_len(&cs);
    let mut tv: Vec<char> = Vec::new();
    let mut i: usize = 0;
    while i < k
        invariant
            i <= k <= cs@.len(),
            tv@ == cs@.take(i as int),
        decreases k - i,
    {
        tv.push(cs[i]);
        i += 1;
        proof {
            assert(tv@ =~= cs@.take(i as int));
        }
    }
    match find_card_named(&tv) {
        Some(c) => Some(c),
        None => {
            let normalized = chars_of(normalize_card_name(name));
            find_card_named(&normalized)
        },
    }
}

/// Card id by (enemy) name (see [`card_for_name`]).
pub fn get_card_id_by_name(name: &str) -> (r: Option<u32>)
    ensures
        r == (match card_for_name(name@) {
            Some(c) => Some(c.id),
            None => None,
        }),
{
    match get_card_by_name(name) {
        Some(c) => Some(c.id),
        None => None,
    }
}

/// Cards drawn with an illustration: the ten starting monsters (ids 0..=9) and the
/// collectible monsters (ids 50 and up).
pub open spec fn has_illustration_spec(id: u32) -> bool {
    card_spec(id) is Some && (id <= 9 || id >= 50)
}

/// Whether a card has an illustration.
pub fn card_has_illustration(id: u32) -> (r: bool)
    ensures
        r == has_illustration_spec(id),
{
    get_card(id).is_some() && (id <= 9 || id >= 50)
}

/// Whether an enemy display name maps to an illustrated card.
pub fn enemy_name_has_illustration(name: &str) -> (r: bool)
    ensures
        r == (card_for_name(name@) matches Some(c) && has_illustration_spec(c.id)),
{
    match get_card_by_name(name) {
        Some(c) => card_has_illustration(c.id),
        None => false,
    }
}

/// The default skill loadout of an NPC card without its own: the active and passive skill
/// follow rarity, the second skill follows race.
pub open spec fn fallback_skills_spec(rarity: CardRarity, race: Race) -> SkillDataView {
    let (active, passive): (Seq<char>, Option<Seq<char>>) = match rarity {
        CardRarity::Common => ("power_smash"@, None),
        CardRarity::Uncommon => ("flash_cut"@, None),
        CardRarity::Rare => ("critical_edge"@, Some("power_aura"@)),
        CardRarity::Epic => ("heavy_impact"@, Some("battle_cry"@)),
        CardRarity::Legendary => ("armor_break"@, Some("intimidate"@)),
    };
    let skill2 = match race {
        Race::Beast => "swift_blade"@,
        Race::Demihuman => "sharp_thrust"@,
        Race::Demon => "monster_steal"@,
        Race::Dragon => "blaze_edge"@,
        Race::Giant => "whirlwind"@,
        Race::Spirit => "heal_strike"@,
        Race::Undead => "life_drain"@,
    };
    SkillDataView {
        passive_id: passive,
        active_id: active,
        unique_id: None,
        skill_level: 1,
        skill2_id: Some(skill2),
        skill3_id: None,
        slot_levels: seq![1u8, 1u8, 1u8],
    }
}

fn owned(s: &str) -> (r: String)
    ensures
        r@ == s@,
{
    string_from_chars(&chars_of(s))
}

/// The default skill loadout of an NPC card (see [`fallback_skills_spec`]).
pub fn fallback_npc_skill_data(c: &CardDef) -> (r: SkillData)
    ensures
        r@ == fallback_skills_spec(c.rarity, c.race),
{
    let (active, passive): (&str, Option<&str>) = match c.rarity {
        CardRarity::Common => ("power_smash", None),
        CardRarity::Uncommon => ("flash_cut", None),
        CardRarity::Rare => ("critical_edge", Some("power_aura")),
        CardRarity::Epic => ("heavy_impact", Some("battle_cry")),
        CardRarity::Legendary => ("armor_break", Some("intimidate")),
    };
    let skill2 = match c.race {
        Race::Beast => "swift_blade",
        Race::Demihuman => "sharp_thrust",
        Race::Demon => "monster_steal",
        Race::Dragon => "blaze_edge",
        Race::Giant => "whirlwind",
        Race::Spirit => "heal_strike",
        Race::Undead => "life_drain",
    };
    let r = SkillData {
        passive_id: match passive {
            Some(p) => Some(owned(p)),
            None => None,
        },
        active_id: owned(active),
        unique_id: None,
        skill_level: 1,
        skill2_id: Some(owned(skill2)),
        skill3_id: None,
        slot_levels: [1, 1, 1],
    };
    proof {
        assert(r@.slot_levels =~= seq![1u8, 1u8, 1u8]);
    }
    r
}

/// The skill loadout of a card id: the rarity/race default for known cards, an empty
/// loadout for unknown ids.
pub fn get_card_skills(card_id: u32) -> (r: SkillData)
    ensures
        match card_spec(card_id) {
            Some(c) => r@ == fallback_skills_spec(c.rarity, c.race),
            None => r@.active_id.len() == 0 && r@.passive_id is None && r@.unique_id is None && r@.skill_level == 0
                && r@.skill2_id is None && r@.skill3_id is None && r@.slot_levels == seq![0u8, 0u8, 0u8],
        },
{
    match get_card(card_id) {
        Some(c) => fallback_npc_skill_data(&c),
        None => SkillData::default(),
    }
}

/// A race's tier in battle: giants, demons and dragons above demihumans, undead and spirits,
/// and those above beasts.
pub open spec fn race_tier_spec(r: Race) -> u8 {
    match r {
        Race::Giant | Race::Demon | Race::Dragon => 2,
        Race::Demihuman | Race::Undead | Race::Spirit => 1,
        Race::Beast => 0,
    }
}

/// The battle tier of race `r` (see [`race_tier_spec`]).
pub fn race_combat_tier(r: Race) -> (t: u8)
    ensures
        t == race_tier_spec(r),
{
    match r {
        Race::Giant | Race::Demon | Race::Dragon => 2,
        Race::Demihuman | Race::Undead | Race::Spirit => 1,
        Race::Beast => 0,
    }
}

} // verus!
