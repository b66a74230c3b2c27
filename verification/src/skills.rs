//! Skill loadout data carried by cards and expeditions.
use vstd::prelude::*;

verus! {

/// The skills a monster fights with: one active skill, an optional passive, and extra slots.
#[derive(Debug)]
pub struct SkillData {
    pub passive_id: Option<String>,
    pub active_id: String,
    pub unique_id: Option<String>,
    pub skill_level: u8,
    pub skill2_id: Option<String>,
    pub skill3_id: Option<String>,
    pub slot_levels: [u8; 3],
}

/// The abstract content of a skill loadout.
pub struct SkillDataView {
    pub passive_id: Option<Seq<char>>,
    pub active_id: Seq<char>,
    pub unique_id: Option<Seq<char>>,
    pub skill_level: u8,
    pub skill2_id: Option<Seq<char>>,
    pub skill3_id: Option<Seq<char>>,
    pub slot_levels: Seq<u8>,
}

pub open spec fn opt_str_view(o: Option<String>) -> Option<Seq<char>> {
    match o {
        Some(s) => Some(s@),
        None => None,
    }
}

impl View for SkillData {
    type V = SkillDataView;

    open spec fn view(&self) -> SkillDataView {
        SkillDataView {
            passive_id: opt_str_view(self.passive_id),
            active_id: self.active_id@,
            unique_id: opt_str_view(self.unique_id),
            skill_level: self.skill_level,
            skill2_id: opt_str_view(self.skill2_id),
            skill3_id: opt_str_view(self.skill3_id),
            slot_levels: self.slot_levels@,
        }
    }
}

fn clone_opt(o: &Option<String>) -> (r: Option<String>)
    ensures
        opt_str_view(r) == opt_str_view(*o),
{
    match o {
        Some(s) => Some(s.clone()),
        None => None,
    }
}

impl Clone for SkillData {
    fn clone(&self) -> (r: Self)
        ensures
            r@ == self@,
    {
        SkillData {
            passive_id: clone_opt(&self.passive_id),
            active_id: self.active_id.clone(),
            unique_id: clone_opt(&self.unique_id),
            skill_level: self.skill_level,
            skill2_id: clone_opt(&self.skill2_id),
            skill3_id: clone_opt(&self.skill3_id),
            slot_levels: self.slot_levels,
        }
    }
}

impl Default for SkillData {
    /// An empty loadout: no skills, all levels 0.
    fn default() -> (r: Self)
        ensures
            r@.passive_id is None && r@.active_id.len() == 0 && r@.unique_id is None
                && r@.skill_level == 0 && r@.skill2_id is None && r@.skill3_id is None
                && r@.slot_levels == seq![0u8, 0u8, 0u8],
    {
        let r = SkillData {
            passive_id: None,
            active_id: String::new(),
            unique_id: None,
            skill_level: 0,
            skill2_id: None,
            skill3_id: None,
            slot_levels: [0, 0, 0],
        };
        proof {
            assert(r@.slot_levels =~= seq![0u8, 0u8, 0u8]);
        }
        r
    }
}

} // verus!
