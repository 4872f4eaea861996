//! The decisions a run makes from its flags: which query mode to use,
//! whether to resolve names, and how to render.

use vstd::prelude::*;
use crate::record::Day;

verus! {

/// What one run does, fixed by the flags it was started with.
pub struct RunPlan {
    /// Query by explicit area codes, in one call; otherwise by relative day,
    /// one call per day.
    pub by_codes: bool,
    /// Resolve area codes to city names before formatting.
    pub resolve_names: bool,
    /// Render each day as one collapsed line with one field per pollutant
    /// instead of one line per record.
    pub collapsed: bool,
}

/// Fixes a run's behaviour: area codes select the by-code query; names are
/// resolved only for a by-code query that asked for them; the collapsed
/// rendering applies only to the per-day query.
pub fn plan_run(has_codes: bool, name_flag: bool, pollutant_flag: bool) -> (p: RunPlan)
    ensures
        p.by_codes == has_codes,
        p.resolve_names == (has_codes && name_flag),
        p.collapsed == (!has_codes && pollutant_flag),
{
    RunPlan {
        by_codes: has_codes,
        resolve_names: has_codes && name_flag,
        collapsed: !has_codes && pollutant_flag,
    }
}

/// The relative days a per-day run queries, in order.
pub fn fetch_days() -> (v: Vec<Day>)
    ensures
        v@.len() == 3,
        v@[0] == Day::Yesterday,
        v@[1] == Day::Today,
        v@[2] == Day::Tomorrow,
{
    let mut v: Vec<Day> = Vec::new();
    v.push(Day::Yesterday);
    v.push(Day::Today);
    v.push(Day::Tomorrow);
    v
}

} // verus!
