//! Data model of the health panel: the weekly schedule entries and
//! the macro configuration modes.

use vstd::prelude::*;

use crate::graph::strs_view;

verus! {

/// One day of the training schedule: its overview lines.
#[derive(Debug)]
pub struct ScheduleDay {
    pub overview: Vec<String>,
}

impl View for ScheduleDay {
    type V = Seq<Seq<char>>;

    open spec fn view(&self) -> Seq<Seq<char>> {
        strs_view(self.overview@)
    }
}

/// How a macro target is stated: as a percentage of daily calories or
/// as grams.
#[derive(Clone, Copy, Debug, PartialEq, Eq, Structural)]
pub enum MacroMode {
    Percentage,
    Grams,
}

impl Default for MacroMode {
    /// The default macro mode is percentage-based.
    fn default() -> (r: Self)
        ensures
            r == MacroMode::Percentage,
    {
        MacroMode::Percentage
    }
}

/// Calorie surplus guidance for muscle gain. The panel does not
/// compute one yet; the function mirrors that and returns nothing.
pub fn calc_calorie_surplus_muscle_gain() {
}

} // verus!
