//! The structure-selection hex menu: which structure goes on which hexagon,
//! and what the menu holds under a given hexagon.
use vstd::prelude::*;
use vstd::relations::{sorted_by, total_ordering};

use crate::hex_grid::{
    hex_distance, no_repeated_hexes, ring_corner, ring_hexes, spiral_hexes, spiral_range, spiral_rings, HexDirection,
};

verus! {

/// The order in which structure ids are laid out on the menu.
pub open spec fn id_leq() -> spec_fn(u64, u64) -> bool {
    |a: u64, b: u64| a <= b
}

/// The structure ids in ascending order, each as often as it occurs.
pub open spec fn sorted_ids(ids: Seq<u64>) -> Seq<u64> {
    ids.sort_by(id_leq())
}

/// `<=` on structure ids is a total order.
pub proof fn lemma_id_leq_total()
    ensures
        total_ordering(id_leq()),
{
}

/// A sequence of ids is `sorted_ids` of another exactly when it is in
/// ascending order and holds the same ids as often.
pub proof fn lemma_sorted_ids_characterized(ids: Seq<u64>, candidate: Seq<u64>)
    requires
        sorted_by(candidate, id_leq()),
        candidate.to_multiset() == ids.to_multiset(),
    ensures
        candidate == sorted_ids(ids),
{
    lemma_id_leq_total();
    ids.lemma_sort_by_ensures(id_leq());
    vstd::seq_lib::lemma_sorted_unique(candidate, sorted_ids(ids), id_leq());
}

/// Sorts structure ids into ascending order (insertion sort).
pub fn sort_ids(ids: &Vec<u64>) -> (sorted: Vec<u64>)
    ensures
        sorted@ == sorted_ids(ids@),
{
    broadcast use vstd::seq_lib::group_to_multiset_ensures;
    let mut out: Vec<u64> = Vec::new();
    let n = ids.len();
    let mut i: usize = 0;
    while i < n
        invariant
            n == ids@.len(),
            i <= n,
            sorted_by(out@, id_leq()),
            out@.to_multiset() == ids@.take(i as int).to_multiset(),
        decreases n - i,
    {
        let x = ids[i];
        let mut p: usize = 0;
        while p < out.len() && out[p] <= x
            invariant
                p <= out@.len(),
                sorted_by(out@, id_leq()),
                forall|k: int| 0 <= k < p ==> out@[k] <= x,
            decreases out@.len() - p,
        {
            p = p + 1;
        }
        let ghost before = out@;
        assert(forall|k: int| p <= k < before.len() ==> x < #[trigger] before[k]) by {
            if p < before.len() {
                assert(x < before[p as int]);
                assert forall|k: int| p <= k < before.len() implies x < #[trigger] before[k] by {
                    if k > p {
                        assert(id_leq()(before[p as int], before[k]));
                    }
                }
            }
        }
        out.insert(p, x);
        assert(out@ == before.insert(p as int, x));
        assert forall|a: int, b: int| 0 <= a < b < out@.len() implies #[trigger] id_leq()(out@[a], out@[b]) by {
            if b < p {
                assert(id_leq()(before[a], before[b]));
            } else if b == p {
                assert(out@[a] == before[a]);
            } else if a < p {
                assert(out@[b] == before[b - 1]);
            } else if a == p {
                assert(out@[b] == before[b - 1]);
            } else {
                assert(id_leq()(before[a - 1], before[b - 1]));
            }
        }
        assert(ids@.take(i + 1) == ids@.take(i as int).push(x));
        proof {
            vstd::seq_lib::to_multiset_insert(before, p as int, x);
            vstd::seq_lib::to_multiset_build(ids@.take(i as int), x);
        }
        i = i + 1;
    }
    assert(ids@.take(n as int) == ids@);
    proof {
        lemma_sorted_ids_characterized(ids@, out@);
    }
    out
}


/// Lays sorted structure ids out on the given hexagons, the smallest id on the
/// first hexagon; ids beyond the last hexagon are left out.
pub open spec fn menu_layout(variants: Seq<u64>, hexes: Seq<(i32, i32)>) -> Seq<((i32, i32), u64)> {
    let sorted = sorted_ids(variants);
    let n = if sorted.len() <= hexes.len() { sorted.len() } else { hexes.len() };
    Seq::new(n, |i: int| (hexes[i], sorted[i]))
}

/// `sorted_ids` keeps the length of its argument.
pub proof fn lemma_sorted_ids_len(ids: Seq<u64>)
    ensures
        sorted_ids(ids).len() == ids.len(),
{
    lemma_id_leq_total();
    ids.lemma_sort_by_ensures(id_leq());
    vstd::seq_lib::to_multiset_len(ids);
    vstd::seq_lib::to_multiset_len(sorted_ids(ids));
}

/// Pairs the structure ids, in ascending order, with the hexagons in their
/// order, as long as both last.
pub fn plan_menu(variants: &Vec<u64>, hexes: &Vec<(i32, i32)>) -> (plan: Vec<((i32, i32), u64)>)
    ensures
        plan@ == menu_layout(variants@, hexes@),
{
    let sorted = sort_ids(variants);
    proof {
        lemma_sorted_ids_len(variants@);
    }
    let n = if sorted.len() <= hexes.len() { sorted.len() } else { hexes.len() };
    let mut plan: Vec<((i32, i32), u64)> = Vec::new();
    let mut i: usize = 0;
    while i < n
        invariant
            sorted@ == sorted_ids(variants@),
            n <= sorted@.len(),
            n <= hexes@.len(),
            n == menu_layout(variants@, hexes@).len(),
            i <= n,
            plan@ == menu_layout(variants@, hexes@).take(i as int),
        decreases n - i,
    {
        plan.push((hexes[i], sorted[i]));
        i = i + 1;
    }
    plan
}

/// The radius, exclusive, of the menu: rings 1 and 2 around the cursor; the
/// centre is kept free so that releasing there cancels.
pub const MENU_RANGE: u32 = 3;

/// The hexagons the menu's entries are laid on, in order.
pub open spec fn menu_hexes() -> Seq<(i32, i32)> {
    spiral_hexes((0, 0), 1, MENU_RANGE, HexDirection::BottomRight, true)
}

/// The menu's hexagons: the six around the centre, then the twelve around
/// those, each ring clockwise from the bottom-right neighbour; all distinct,
/// none the centre.
pub proof fn lemma_menu_hexes()
    ensures
        menu_hexes() == seq![
        (1i32, 0i32), (0i32, 1i32), (-1i32, 1i32), (-1i32, 0i32), (0i32, -1i32), (1i32, -1i32),
        (2i32, 0i32), (1i32, 1i32), (0i32, 2i32), (-1i32, 2i32), (-2i32, 2i32), (-2i32, 1i32),
        (-2i32, 0i32), (-1i32, -1i32), (0i32, -2i32), (1i32, -2i32), (2i32, -2i32), (2i32, -1i32),
    ],
        menu_hexes().len() == 18,
        no_repeated_hexes(menu_hexes()),
        forall|i: int| 0 <= i < 18 ==> 1 <= #[trigger] hex_distance(menu_hexes()[i], (0, 0)) < MENU_RANGE,
{
    reveal_with_fuel(ring_corner, 6);
    reveal_with_fuel(spiral_rings, 3);
    let r1 = ring_hexes((0, 0), 1, HexDirection::BottomRight, true);
    assert(r1 =~= seq![(1i32, 0i32), (0i32, 1i32), (-1i32, 1i32), (-1i32, 0i32), (0i32, -1i32), (1i32, -1i32)]);
    let r2 = ring_hexes((0, 0), 2, HexDirection::BottomRight, true);
    assert(r2 =~= seq![
        (2i32, 0i32), (1i32, 1i32), (0i32, 2i32), (-1i32, 2i32), (-2i32, 2i32), (-2i32, 1i32),
        (-2i32, 0i32), (-1i32, -1i32), (0i32, -2i32), (1i32, -2i32), (2i32, -2i32), (2i32, -1i32),
    ]);
    assert(spiral_rings((0, 0), 1, 1, HexDirection::BottomRight, true) =~= Seq::empty());
    let hexes = menu_hexes();
    assert(hexes =~= seq![
        (1i32, 0i32), (0i32, 1i32), (-1i32, 1i32), (-1i32, 0i32), (0i32, -1i32), (1i32, -1i32),
        (2i32, 0i32), (1i32, 1i32), (0i32, 2i32), (-1i32, 2i32), (-2i32, 2i32), (-2i32, 1i32),
        (-2i32, 0i32), (-1i32, -1i32), (0i32, -2i32), (1i32, -2i32), (2i32, -2i32), (2i32, -1i32),
    ]);
    assert forall|i: int, j: int| 0 <= i < j < hexes.len() implies hexes[i] != hexes[j] by {
        assert(i == 0 || i == 1 || i == 2 || i == 3 || i == 4 || i == 5 || i == 6 || i == 7 || i == 8 || i == 9 || i == 10 || i == 11 || i == 12 || i == 13 || i == 14 || i == 15 || i == 16 || i == 17);
        assert(j == 0 || j == 1 || j == 2 || j == 3 || j == 4 || j == 5 || j == 6 || j == 7 || j == 8 || j == 9 || j == 10 || j == 11 || j == 12 || j == 13 || j == 14 || j == 15 || j == 16 || j == 17);
    }
    assert forall|i: int| 0 <= i < 18 implies 1 <= #[trigger] hex_distance(hexes[i], (0, 0)) < MENU_RANGE by {
        assert(i == 0 || i == 1 || i == 2 || i == 3 || i == 4 || i == 5 || i == 6 || i == 7 || i == 8 || i == 9 || i == 10 || i == 11 || i == 12 || i == 13 || i == 14 || i == 15 || i == 16 || i == 17);
    }
}

/// The plan of an opened menu.
pub open spec fn opened_plan(variants: Seq<u64>) -> Seq<((i32, i32), u64)> {
    menu_layout(variants, menu_hexes())
}

/// The menu built from an opened menu's plan and the entities made for it.
pub open spec fn opened_menu(variants: Seq<u64>, icons: Seq<u64>, backgrounds: Seq<u64>) -> HexMenuView {
    menu_from(opened_plan(variants), icons, backgrounds, opened_plan(variants).len())
}

/// A menu built from an opened menu's plan, with an icon and a background
/// for each entry, gives every listed structure that fits its own hexagon:
/// it holds there that structure, with that entry's icon and background.
pub proof fn lemma_opened_menu_contents(variants: Seq<u64>, icons: Seq<u64>, backgrounds: Seq<u64>)
    ensures
        forall|i: int|
            0 <= i < opened_plan(variants).len() ==> {
                &&& #[trigger] opened_menu(variants, icons, backgrounds).item_at(opened_plan(variants)[i].0) == Some(
                    opened_plan(variants)[i].1,
                )
                &&& opened_menu(variants, icons, backgrounds).icon_at(opened_plan(variants)[i].0) == Some(icons[i])
                &&& lookup(opened_menu(variants, icons, backgrounds).backgrounds, opened_plan(variants)[i].0) == Some(
                    backgrounds[i],
                )
            },
{
    lemma_menu_hexes();
    let plan = menu_layout(variants, menu_hexes());
    assert forall|i: int, j: int| 0 <= i < j < plan.len() implies plan[i].0 != plan[j].0 by {
        assert(plan[i].0 == menu_hexes()[i]);
        assert(plan[j].0 == menu_hexes()[j]);
    }
    lemma_menu_from_contents(plan, icons, backgrounds, plan.len());
}

/// Decides whether the menu opens, and if so lays the structures out: sorted
/// by id, so that each structure keeps its place from one opening to the
/// next, along a clockwise spiral from the bottom-right neighbour of the
/// cursor. Structures beyond the hexagons of the menu are left out.
pub fn open_hex_menu(just_pressed: bool, cursor_on_screen: bool, variants: &Vec<u64>) -> (plan: Option<Vec<((i32, i32), u64)>>)
    ensures
        plan is Some <==> (just_pressed && cursor_on_screen),
        plan matches Some(p) ==> p@ == menu_layout(variants@, menu_hexes()),
        plan matches Some(p) ==> p@.len() == if variants@.len() <= 18 { variants@.len() } else { 18 },
        plan matches Some(p) ==> forall|i: int, j: int| 0 <= i < j < p@.len() ==> p@[i].0 != p@[j].0,
        plan matches Some(p) ==> forall|i: int|
            0 <= i < p@.len() ==> 1 <= #[trigger] hex_distance(p@[i].0, (0, 0)) < MENU_RANGE,
{
    if just_pressed && cursor_on_screen {
        let hexes = spiral_range((0, 0), 1, MENU_RANGE, HexDirection::BottomRight, true);
        let plan = plan_menu(variants, &hexes);
        proof {
            lemma_sorted_ids_len(variants@);
            lemma_menu_hexes();
            assert forall|i: int| 0 <= i < plan@.len() implies 1 <= #[trigger] hex_distance(plan@[i].0, (0, 0)) < MENU_RANGE by {
                assert(plan@[i].0 == hexes@[i]);
            }
            assert forall|i: int, j: int| 0 <= i < j < plan@.len() implies plan@[i].0 != plan@[j].0 by {
                assert(plan@[i].0 == hexes@[i]);
                assert(plan@[j].0 == hexes@[j]);
            }
        }
        Some(plan)
    } else {
        None
    }
}


/// The menu's layout depends only on which structures there are, not on the
/// order in which they are listed: each structure keeps its place from one
/// opening of the menu to the next.
pub proof fn lemma_layout_ignores_listing_order(first: Seq<u64>, second: Seq<u64>, hexes: Seq<(i32, i32)>)
    requires
        first.to_multiset() == second.to_multiset(),
    ensures
        menu_layout(first, hexes) == menu_layout(second, hexes),
{
    lemma_id_leq_total();
    first.lemma_sort_by_ensures(id_leq());
    second.lemma_sort_by_ensures(id_leq());
    vstd::seq_lib::lemma_sorted_unique(sorted_ids(first), sorted_ids(second), id_leq());
    assert(sorted_ids(first) == sorted_ids(second));
}

/// Along the layout, the structure ids ascend, and each one is one of the
/// listed structures.
pub proof fn lemma_layout_ascends(variants: Seq<u64>, hexes: Seq<(i32, i32)>)
    ensures
        forall|i: int, j: int|
            0 <= i < j < menu_layout(variants, hexes).len() ==> menu_layout(variants, hexes)[i].1
                <= menu_layout(variants, hexes)[j].1,
        forall|i: int|
            0 <= i < menu_layout(variants, hexes).len() ==> variants.contains(
                #[trigger] menu_layout(variants, hexes)[i].1,
            ),
{
    broadcast use vstd::seq_lib::group_to_multiset_ensures;
    lemma_id_leq_total();
    variants.lemma_sort_by_ensures(id_leq());
    let layout = menu_layout(variants, hexes);
    let sorted = sorted_ids(variants);
    assert forall|i: int, j: int| 0 <= i < j < layout.len() implies layout[i].1 <= layout[j].1 by {
        assert(id_leq()(sorted[i], sorted[j]));
    }
    assert forall|i: int| 0 <= i < layout.len() implies variants.contains(#[trigger] layout[i].1) by {
        assert(sorted.contains(sorted[i]));
    }
}

/// The structure ids of a layout, in order.
pub open spec fn layout_ids(layout: Seq<((i32, i32), u64)>) -> Seq<u64> {
    layout.map_values(|entry: ((i32, i32), u64)| entry.1)
}

/// The layout puts the `i`-th entry on the `i`-th hexagon, has as many entries
/// as the shorter of the two lists, never shows a structure more often than it
/// is listed, and, when the listed structures fit on the hexagons, shows each
/// of them exactly as often as it is listed.
pub proof fn lemma_layout_places_listed_structures(variants: Seq<u64>, hexes: Seq<(i32, i32)>)
    ensures
        menu_layout(variants, hexes).len() == if variants.len() <= hexes.len() {
            variants.len()
        } else {
            hexes.len()
        },
        forall|i: int|
            0 <= i < menu_layout(variants, hexes).len() ==> #[trigger] menu_layout(variants, hexes)[i].0
                == hexes[i],
        layout_ids(menu_layout(variants, hexes)).to_multiset().subset_of(variants.to_multiset()),
        variants.len() <= hexes.len() ==> layout_ids(menu_layout(variants, hexes)).to_multiset()
            == variants.to_multiset(),
{
    broadcast use vstd::multiset::group_multiset_axioms;
    lemma_id_leq_total();
    lemma_sorted_ids_len(variants);
    variants.lemma_sort_by_ensures(id_leq());
    let sorted = sorted_ids(variants);
    let layout = menu_layout(variants, hexes);
    let n = layout.len() as int;
    let ids = layout_ids(layout);
    assert(ids =~= sorted.take(n));
    assert(sorted =~= sorted.take(n) + sorted.skip(n));
    vstd::seq_lib::lemma_multiset_commutative(sorted.take(n), sorted.skip(n));
    assert(ids.to_multiset().subset_of(variants.to_multiset()));
    if variants.len() <= hexes.len() {
        assert(ids =~= sorted);
    }
}

/// The value a map holds under a key, if any.
pub open spec fn lookup(m: Map<(i32, i32), u64>, key: (i32, i32)) -> Option<u64> {
    if m.dom().contains(key) { Some(m[key]) } else { None }
}

/// The table with no entries.
pub open spec fn no_entries() -> Map<(i32, i32), u64> {
    Map::empty()
}

/// A table from hexagons to ids (structure ids or entity ids), held in bevy's
/// `HashMap`.
#[verifier::external_body]
pub struct HexTable {
    inner: bevy::utils::HashMap<(i32, i32), u64>,
}

/// What a `HexTable` holds.
pub uninterp spec fn hex_table_entries(table: HexTable) -> Map<(i32, i32), u64>;

impl HexTable {
    /// Calls `bevy::utils::HashMap::default`. Trusted: the new map is empty.
    #[verifier::external_body]
    pub(crate) fn new() -> (created: HexTable)
        ensures
            hex_table_entries(created) == no_entries(),
    {
        HexTable { inner: bevy::utils::HashMap::default() }
    }

    /// Calls hashbrown's `HashMap::insert`. Trusted, as its documentation
    /// says: afterwards `hex` maps to `id` and every other key keeps its value;
    /// the value that `hex` had before, if any, is returned.
    #[verifier::external_body]
    pub(crate) fn insert(&mut self, hex: (i32, i32), id: u64) -> (previous: Option<u64>)
        ensures
            hex_table_entries(*final(self)) == hex_table_entries(*old(self)).insert(hex, id),
            previous == lookup(hex_table_entries(*old(self)), hex),
    {
        self.inner.insert(hex, id)
    }

    /// Calls hashbrown's `HashMap::get` and copies the value out. Trusted: the
    /// result is the value under `hex`, or `None` where there is none.
    #[verifier::external_body]
    pub(crate) fn get(&self, hex: (i32, i32)) -> (found: Option<u64>)
        ensures
            found == lookup(hex_table_entries(*self), hex),
    {
        self.inner.get(&hex).copied()
    }
}

/// What a hex menu holds: the structure, the icon entity and the background
/// entity on each of its hexagons.
pub struct HexMenuView {
    pub content: Map<(i32, i32), u64>,
    pub icons: Map<(i32, i32), u64>,
    pub backgrounds: Map<(i32, i32), u64>,
}

impl HexMenuView {
    /// The menu with nothing on it.
    pub open spec fn empty() -> HexMenuView {
        HexMenuView { content: no_entries(), icons: no_entries(), backgrounds: no_entries() }
    }

    /// Every hexagon with a structure has an icon and a background, and no
    /// other hexagon has either.
    pub open spec fn well_formed(self) -> bool {
        &&& self.icons.dom() == self.content.dom()
        &&& self.backgrounds.dom() == self.content.dom()
    }

    /// The menu after a structure, its icon and its background are placed on
    /// `hex`.
    pub open spec fn placed(self, hex: (i32, i32), structure_id: u64, icon: u64, background: u64) -> HexMenuView {
        HexMenuView {
            content: self.content.insert(hex, structure_id),
            icons: self.icons.insert(hex, icon),
            backgrounds: self.backgrounds.insert(hex, background),
        }
    }

    /// The structure on `hex`, if any.
    pub open spec fn item_at(self, hex: (i32, i32)) -> Option<u64> {
        lookup(self.content, hex)
    }

    /// The icon entity on `hex`, if any.
    pub open spec fn icon_at(self, hex: (i32, i32)) -> Option<u64> {
        lookup(self.icons, hex)
    }
}

/// Reading a hexagon after placing a structure on it gives that structure and
/// its icon; every other hexagon reads as before.
pub proof fn lemma_read_after_place(
    menu: HexMenuView,
    hex: (i32, i32),
    structure_id: u64,
    icon: u64,
    background: u64,
    probe: (i32, i32),
)
    ensures
        menu.placed(hex, structure_id, icon, background).item_at(probe) == if probe == hex {
            Some(structure_id)
        } else {
            menu.item_at(probe)
        },
        menu.placed(hex, structure_id, icon, background).icon_at(probe) == if probe == hex {
            Some(icon)
        } else {
            menu.icon_at(probe)
        },
{
}

/// In a well-formed menu a hexagon has a structure exactly when it has an
/// icon.
pub proof fn lemma_item_iff_icon(menu: HexMenuView, hex: (i32, i32))
    requires
        menu.well_formed(),
    ensures
        menu.item_at(hex) is Some <==> menu.icon_at(hex) is Some,
{
}

/// The menu made by placing the first `n` planned structures, each with its
/// icon and background entity, in order.
pub open spec fn menu_from(
    plan: Seq<((i32, i32), u64)>,
    icons: Seq<u64>,
    backgrounds: Seq<u64>,
    n: nat,
) -> HexMenuView
    decreases n,
{
    if n == 0 {
        HexMenuView::empty()
    } else {
        let k = (n - 1) as int;
        menu_from(plan, icons, backgrounds, (n - 1) as nat).placed(plan[k].0, plan[k].1, icons[k], backgrounds[k])
    }
}

/// A menu built from a plan is well formed, and holds a structure on exactly
/// the hexagons of the plan.
pub proof fn lemma_menu_from_hexes(
    plan: Seq<((i32, i32), u64)>,
    icons: Seq<u64>,
    backgrounds: Seq<u64>,
    n: nat,
)
    requires
        n <= plan.len(),
    ensures
        menu_from(plan, icons, backgrounds, n).well_formed(),
        forall|hex: (i32, i32)|
            #[trigger] menu_from(plan, icons, backgrounds, n).content.contains_key(hex) <==> exists|i: int|
                0 <= i < n && plan[i].0 == hex,
    decreases n,
{
    if n > 0 {
        lemma_menu_from_hexes(plan, icons, backgrounds, (n - 1) as nat);
        let prev = menu_from(plan, icons, backgrounds, (n - 1) as nat);
        let cur = menu_from(plan, icons, backgrounds, n);
        assert(cur.content.dom() == prev.content.dom().insert(plan[n - 1].0));
        assert(cur.icons.dom() == prev.icons.dom().insert(plan[n - 1].0));
        assert(cur.backgrounds.dom() == prev.backgrounds.dom().insert(plan[n - 1].0));
        assert forall|hex: (i32, i32)| #[trigger] cur.content.contains_key(hex) <==> exists|i: int|
            0 <= i < n && plan[i].0 == hex by {
            if cur.content.contains_key(hex) && hex != plan[n - 1].0 {
                assert(prev.content.contains_key(hex));
                let i = choose|i: int| 0 <= i < n - 1 && plan[i].0 == hex;
                assert(0 <= i < n && plan[i].0 == hex);
            }
            if exists|i: int| 0 <= i < n && plan[i].0 == hex {
                let i = choose|i: int| 0 <= i < n && plan[i].0 == hex;
                if i < n - 1 {
                    assert(prev.content.contains_key(hex));
                }
            }
        }
    }
}

/// A menu built from a plan whose hexagons are all different holds, on each
/// planned hexagon, the planned structure with its own icon and background.
pub proof fn lemma_menu_from_contents(
    plan: Seq<((i32, i32), u64)>,
    icons: Seq<u64>,
    backgrounds: Seq<u64>,
    n: nat,
)
    requires
        n <= plan.len(),
        forall|i: int, j: int| 0 <= i < j < n ==> plan[i].0 != plan[j].0,
    ensures
        forall|i: int|
            0 <= i < n ==> {
                &&& #[trigger] menu_from(plan, icons, backgrounds, n).item_at(plan[i].0) == Some(plan[i].1)
                &&& menu_from(plan, icons, backgrounds, n).icon_at(plan[i].0) == Some(icons[i])
                &&& lookup(menu_from(plan, icons, backgrounds, n).backgrounds, plan[i].0) == Some(backgrounds[i])
            },
    decreases n,
{
    if n > 0 {
        lemma_menu_from_contents(plan, icons, backgrounds, (n - 1) as nat);
        let prev = menu_from(plan, icons, backgrounds, (n - 1) as nat);
        let menu = menu_from(plan, icons, backgrounds, n);
        assert forall|i: int| 0 <= i < n implies {
            &&& #[trigger] menu.item_at(plan[i].0) == Some(plan[i].1)
            &&& menu.icon_at(plan[i].0) == Some(icons[i])
            &&& lookup(menu.backgrounds, plan[i].0) == Some(backgrounds[i])
        } by {
            if i < n - 1 {
                assert(plan[i].0 != plan[n - 1].0);
                assert(prev.item_at(plan[i].0) == Some(plan[i].1));
            }
        }
    }
}

/// The location of the items in the hex menu, keyed by the hexagon relative to
/// the menu's centre. The screen geometry of the menu is kept by the caller.
pub struct HexMenuArrangement {
    content_map: HexTable,
    icon_map: HexTable,
    background_map: HexTable,
}

impl View for HexMenuArrangement {
    type V = HexMenuView;

    closed spec fn view(&self) -> HexMenuView {
        HexMenuView {
            content: hex_table_entries(self.content_map),
            icons: hex_table_entries(self.icon_map),
            backgrounds: hex_table_entries(self.background_map),
        }
    }
}

impl HexMenuArrangement {
    /// An arrangement with nothing on it.
    pub fn new() -> (arrangement: HexMenuArrangement)
        ensures
            arrangement@ == HexMenuView::empty(),
            arrangement@.well_formed(),
    {
        HexMenuArrangement { content_map: HexTable::new(), icon_map: HexTable::new(), background_map: HexTable::new() }
    }

    /// Builds the menu from a plan and from the icon and background entity
    /// made for each of its entries.
    pub fn from_plan(plan: &Vec<((i32, i32), u64)>, icons: &Vec<u64>, backgrounds: &Vec<u64>) -> (arrangement: HexMenuArrangement)
        requires
            icons@.len() == plan@.len(),
            backgrounds@.len() == plan@.len(),
        ensures
            arrangement@ == menu_from(plan@, icons@, backgrounds@, plan@.len()),
            arrangement@.well_formed(),
    {
        let mut arrangement = HexMenuArrangement::new();
        let mut i: usize = 0;
        while i < plan.len()
            invariant
                i <= plan@.len(),
                icons@.len() == plan@.len(),
                backgrounds@.len() == plan@.len(),
                arrangement@ == menu_from(plan@, icons@, backgrounds@, i as nat),
            decreases plan@.len() - i,
        {
            let (hex, structure_id) = plan[i];
            arrangement.place(hex, structure_id, icons[i], backgrounds[i]);
            i = i + 1;
        }
        proof {
            lemma_menu_from_hexes(plan@, icons@, backgrounds@, plan@.len());
        }
        arrangement
    }

    /// Places a structure, its icon entity and its background entity on `hex`.
    pub fn place(&mut self, hex: (i32, i32), structure_id: u64, icon: u64, background: u64)
        ensures
            final(self)@ == old(self)@.placed(hex, structure_id, icon, background),
            old(self)@.well_formed() ==> final(self)@.well_formed(),
    {
        let _ = self.content_map.insert(hex, structure_id);
        let _ = self.icon_map.insert(hex, icon);
        let _ = self.background_map.insert(hex, background);
        assert(self@.content.dom() == old(self)@.content.dom().insert(hex));
        assert(self@.icons.dom() == old(self)@.icons.dom().insert(hex));
        assert(self@.backgrounds.dom() == old(self)@.backgrounds.dom().insert(hex));
    }

    /// Fetches the structure on `hex`.
    pub fn get_item(&self, hex: (i32, i32)) -> (item: Option<u64>)
        ensures
            item == self@.item_at(hex),
    {
        self.content_map.get(hex)
    }

    /// Fetches the icon entity on `hex`.
    pub fn get_icon(&self, hex: (i32, i32)) -> (icon: Option<u64>)
        ensures
            icon == self@.icon_at(hex),
    {
        self.icon_map.get(hex)
    }
}

} // verus!
