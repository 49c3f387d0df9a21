//! Data model of the goal tracker panel: the goal categories, the
//! SMART description fields, and links to where a goal lives.

use vstd::prelude::*;

verus! {

/// High-level goal buckets.
#[derive(Clone, Copy, Debug, PartialEq, Eq, Structural)]
pub enum GoalCategory {
    Health,
    Wealth,
    Research,
    Time,
    Other,
}

/// A link to where a goal lives: a repository, a note, a listing.
#[derive(Debug)]
pub struct ContextLink {
    pub label: String,
    pub kind: String,
    pub value: String,
}

/// Mathematical model of a [`ContextLink`].
pub struct SpecContextLink {
    pub label: Seq<char>,
    pub kind: Seq<char>,
    pub value: Seq<char>,
}

impl View for ContextLink {
    type V = SpecContextLink;

    open spec fn view(&self) -> SpecContextLink {
        SpecContextLink { label: self.label@, kind: self.kind@, value: self.value@ }
    }
}

impl Clone for ContextLink {
    /// Clones a link without changing its model.
    fn clone(&self) -> (res: Self)
        ensures
            res@ == self@,
    {
        ContextLink {
            label: self.label.clone(),
            kind: self.kind.clone(),
            value: self.value.clone(),
        }
    }
}

/// The SMART description of a goal, one short field per letter.
#[derive(Debug)]
pub struct Smart {
    pub specific: String,
    pub measurable: String,
    pub achievable: String,
    pub relevant: String,
    pub time_bound: String,
}

/// Mathematical model of a [`Smart`].
pub struct SpecSmart {
    pub specific: Seq<char>,
    pub measurable: Seq<char>,
    pub achievable: Seq<char>,
    pub relevant: Seq<char>,
    pub time_bound: Seq<char>,
}

impl View for Smart {
    type V = SpecSmart;

    open spec fn view(&self) -> SpecSmart {
        SpecSmart {
            specific: self.specific@,
            measurable: self.measurable@,
            achievable: self.achievable@,
            relevant: self.relevant@,
            time_bound: self.time_bound@,
        }
    }
}

impl Clone for Smart {
    /// Clones a SMART description without changing its model.
    fn clone(&self) -> (res: Self)
        ensures
            res@ == self@,
    {
        Smart {
            specific: self.specific.clone(),
            measurable: self.measurable.clone(),
            achievable: self.achievable.clone(),
            relevant: self.relevant.clone(),
            time_bound: self.time_bound.clone(),
        }
    }
}

} // verus!
