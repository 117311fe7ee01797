//! Making more units: which egg-hatching structures hatch an ant, and where.
use vstd::prelude::*;
use rand::seq::IteratorRandom;

verus! {

/// Calls rand's `IteratorRandom::choose` on the candidates with
/// `rand::thread_rng()`.
///
/// Trusted, as rand documents: the result is `None` if and only if there are
/// no candidates, and otherwise one of them. Which one is left to chance and
/// is not stated.
#[verifier::external_body]
fn choose_position(candidates: &Vec<(i32, i32)>) -> (chosen: Option<(i32, i32)>)
    ensures
        chosen is Some <==> candidates@.len() > 0,
        chosen matches Some(p) ==> candidates@.contains(p),
{
    candidates.iter().copied().choose(&mut rand::thread_rng())
}

/// Whether a structure hatches: its active recipe is the egg-hatching recipe,
/// and that recipe is complete.
pub open spec fn hatches(recipe_id: Option<u64>, hatch_recipe: u64, recipe_complete: bool) -> bool {
    recipe_id == Some(hatch_recipe) && recipe_complete
}

/// A structure whose active recipe is anything but the hatching recipe, or
/// is not complete, hatches nothing; a complete hatching recipe hatches.
pub proof fn lemma_hatches_only_complete_hatch_recipe(recipe_id: Option<u64>, hatch_recipe: u64, recipe_complete: bool)
    ensures
        recipe_id != Some(hatch_recipe) ==> !hatches(recipe_id, hatch_recipe, recipe_complete),
        !recipe_complete ==> !hatches(recipe_id, hatch_recipe, recipe_complete),
        hatches(Some(hatch_recipe), hatch_recipe, true),
{
}

/// Decides whether a structure hatches an ant now.
pub fn egg_hatches(recipe_id: Option<u64>, hatch_recipe: u64, recipe_complete: bool) -> (hatch: bool)
    ensures
        hatch == hatches(recipe_id, hatch_recipe, recipe_complete),
{
    match recipe_id {
        Some(id) => id == hatch_recipe && recipe_complete,
        None => false,
    }
}

/// Where a structure hatches an ant: on one of its empty neighbouring tiles,
/// picked at random, if it hatches and has one; otherwise nowhere.
pub fn hatch_site(
    recipe_id: Option<u64>,
    hatch_recipe: u64,
    recipe_complete: bool,
    empty_neighbors: &Vec<(i32, i32)>,
) -> (site: Option<(i32, i32)>)
    ensures
        site is Some <==> (hatches(recipe_id, hatch_recipe, recipe_complete) && empty_neighbors@.len() > 0),
        site matches Some(p) ==> empty_neighbors@.contains(p),
{
    if egg_hatches(recipe_id, hatch_recipe, recipe_complete) {
        choose_position(empty_neighbors)
    } else {
        None
    }
}

/// What the reproduction logic reads of a structure that may hold eggs.
pub struct Hatchery {
    /// The structure's active recipe, if any.
    pub recipe_id: Option<u64>,
    /// Whether that recipe is complete.
    pub recipe_complete: bool,
    /// The empty tiles next to the structure.
    pub empty_neighbors: Vec<(i32, i32)>,
}

/// Whether the `i`-th hatch site is right for the `i`-th structure.
pub open spec fn valid_site(h: Hatchery, hatch_recipe: u64, site: Option<(i32, i32)>) -> bool {
    &&& site is Some <==> (hatches(h.recipe_id, hatch_recipe, h.recipe_complete) && h.empty_neighbors@.len() > 0)
    &&& site matches Some(p) ==> h.empty_neighbors@.contains(p)
}

/// For each structure in turn, where it hatches an ant, if anywhere.
pub fn hatch_ant_eggs(hatcheries: &Vec<Hatchery>, hatch_recipe: u64) -> (sites: Vec<Option<(i32, i32)>>)
    ensures
        sites@.len() == hatcheries@.len(),
        forall|i: int| 0 <= i < hatcheries@.len() ==> valid_site(hatcheries@[i], hatch_recipe, #[trigger] sites@[i]),
{
    let mut sites: Vec<Option<(i32, i32)>> = Vec::new();
    let mut i: usize = 0;
    while i < hatcheries.len()
        invariant
            i <= hatcheries@.len(),
            sites@.len() == i,
            forall|k: int| 0 <= k < i ==> valid_site(hatcheries@[k], hatch_recipe, #[trigger] sites@[k]),
        decreases hatcheries@.len() - i,
    {
        let h = &hatcheries[i];
        let site = hatch_site(h.recipe_id, hatch_recipe, h.recipe_complete, &h.empty_neighbors);
        sites.push(site);
        i = i + 1;
    }
    sites
}

} // verus!
