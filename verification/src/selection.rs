//! Selecting a structure from the hex menu: what the cursor points at, and
//! what the menu does about it.
use vstd::prelude::*;

use crate::hex_grid::hex_distance;
use crate::hex_menu::{lemma_menu_from_hexes, menu_from, HexMenuArrangement, HexMenuView};

verus! {

/// An error that can occur when selecting items from a hex menu.
#[derive(Clone, Copy, Debug, PartialEq, Eq, Structural)]
pub enum HexMenuError {
    /// No item was selected.
    NoSelection {
        /// Is the action complete?
        complete: bool,
    },
    /// No menu exists.
    NoMenu,
}

/// The data corresponding to one element of the hex menu.
#[derive(Clone, Copy, Debug, PartialEq, Eq, Structural)]
pub struct HexMenuData {
    /// The type of structure to place.
    pub structure_id: u64,
    /// The icon entity of that structure in the menu.
    pub icon_entity: u64,
    /// Is the action complete?
    pub complete: bool,
}

/// What `select_hex` finds: no menu, nothing under the cursor, or the
/// structure and icon on the hexagon under it.
pub open spec fn selection_result(
    menu: Option<HexMenuView>,
    complete: bool,
    cursor_hex: Option<(i32, i32)>,
) -> Result<HexMenuData, HexMenuError> {
    match menu {
        None => Err(HexMenuError::NoMenu),
        Some(m) => match cursor_hex {
            None => Err(HexMenuError::NoSelection { complete }),
            Some(hex) => match (m.item_at(hex), m.icon_at(hex)) {
                (Some(item), Some(icon)) => Ok(HexMenuData { structure_id: item, icon_entity: icon, complete }),
                _ => Err(HexMenuError::NoSelection { complete }),
            },
        },
    }
}

/// The view of a menu that may be missing.
pub open spec fn menu_view(arrangement: Option<&HexMenuArrangement>) -> Option<HexMenuView> {
    match arrangement {
        Some(a) => Some(a@),
        None => None,
    }
}

/// Selects a hexagon from the hex menu: `complete` says whether the select
/// button was released, `cursor_hex` is the hexagon under the cursor, if the
/// cursor is on the screen.
pub fn select_hex(
    arrangement: Option<&HexMenuArrangement>,
    complete: bool,
    cursor_hex: Option<(i32, i32)>,
) -> (result: Result<HexMenuData, HexMenuError>)
    ensures
        result == selection_result(menu_view(arrangement), complete, cursor_hex),
{
    match arrangement {
        None => Err(HexMenuError::NoMenu),
        Some(a) => match cursor_hex {
            None => Err(HexMenuError::NoSelection { complete }),
            Some(hex) => {
                let maybe_item = a.get_item(hex);
                let maybe_icon = a.get_icon(hex);
                match (maybe_item, maybe_icon) {
                    (Some(item), Some(icon_entity)) => Ok(HexMenuData { structure_id: item, icon_entity, complete }),
                    _ => Err(HexMenuError::NoSelection { complete }),
                }
            },
        },
    }
}

/// What the menu does with the result of a selection.
#[derive(Clone, Copy, Debug, PartialEq, Eq, Structural)]
pub enum SelectionAction {
    /// Put the structure on the clipboard and close the menu.
    Commit { structure_id: u64 },
    /// Keep the menu open and highlight this icon, and only it.
    Preview { icon_entity: u64 },
    /// Empty the clipboard and close the menu.
    Cancel,
    /// Empty the clipboard and show every icon in its structure's colour.
    Clear,
    /// Do nothing: there is no menu.
    Idle,
}

/// The action that follows from a selection result.
pub open spec fn action_for(result: Result<HexMenuData, HexMenuError>) -> SelectionAction {
    match result {
        Ok(data) => if data.complete {
            SelectionAction::Commit { structure_id: data.structure_id }
        } else {
            SelectionAction::Preview { icon_entity: data.icon_entity }
        },
        Err(HexMenuError::NoSelection { complete }) => if complete {
            SelectionAction::Cancel
        } else {
            SelectionAction::Clear
        },
        Err(HexMenuError::NoMenu) => SelectionAction::Idle,
    }
}

/// Decides what to do with the result of a selection.
pub fn handle_selection(result: &Result<HexMenuData, HexMenuError>) -> (action: SelectionAction)
    ensures
        action == action_for(*result),
{
    match result {
        Ok(data) => if data.complete {
            SelectionAction::Commit { structure_id: data.structure_id }
        } else {
            SelectionAction::Preview { icon_entity: data.icon_entity }
        },
        Err(HexMenuError::NoSelection { complete }) => if *complete {
            SelectionAction::Cancel
        } else {
            SelectionAction::Clear
        },
        Err(HexMenuError::NoMenu) => SelectionAction::Idle,
    }
}

/// Whether an action closes the menu.
pub open spec fn closes_menu(action: SelectionAction) -> bool {
    action is Commit || action is Cancel
}

/// Without a menu, selecting finds no menu, whatever the cursor and button.
pub proof fn lemma_select_without_menu(complete: bool, cursor_hex: Option<(i32, i32)>)
    ensures
        selection_result(None, complete, cursor_hex) == Err::<HexMenuData, HexMenuError>(HexMenuError::NoMenu),
{
}

/// Over a hexagon of a well-formed menu that holds a structure, selecting
/// finds that structure and its icon, and passes on whether the button was
/// released.
pub proof fn lemma_select_finds_item(menu: HexMenuView, complete: bool, hex: (i32, i32))
    requires
        menu.well_formed(),
        menu.item_at(hex) is Some,
    ensures
        selection_result(Some(menu), complete, Some(hex)) == Ok::<HexMenuData, HexMenuError>(
            HexMenuData { structure_id: menu.item_at(hex)->0, icon_entity: menu.icon_at(hex)->0, complete },
        ),
        menu.item_at(hex) == Some(menu.content[hex]),
        menu.icon_at(hex) == Some(menu.icons[hex]),
{
}

/// With the cursor off the screen, or over a hexagon that holds nothing,
/// selecting finds nothing, and passes on whether the button was released.
pub proof fn lemma_select_finds_nothing(menu: HexMenuView, complete: bool, cursor_hex: Option<(i32, i32)>)
    requires
        cursor_hex matches Some(hex) ==> !menu.content.contains_key(hex),
    ensures
        selection_result(Some(menu), complete, cursor_hex) == Err::<HexMenuData, HexMenuError>(
            HexMenuError::NoSelection { complete },
        ),
{
}

/// A found structure is committed, with the very id that was found, when the
/// button was released, and its icon is previewed otherwise.
pub proof fn lemma_found_structure_action(data: HexMenuData)
    ensures
        data.complete ==> action_for(Ok(data)) == (SelectionAction::Commit { structure_id: data.structure_id }),
        !data.complete ==> action_for(Ok(data)) == (SelectionAction::Preview { icon_entity: data.icon_entity }),
{
}

/// Finding nothing cancels on release and clears otherwise; finding no menu
/// does nothing.
pub proof fn lemma_error_action(complete: bool)
    ensures
        action_for(Err(HexMenuError::NoSelection { complete })) == if complete {
            SelectionAction::Cancel
        } else {
            SelectionAction::Clear
        },
        action_for(Err(HexMenuError::NoMenu)) == SelectionAction::Idle,
{
}

/// Without a menu, a selection does nothing.
pub proof fn lemma_no_menu_is_idle(complete: bool, cursor_hex: Option<(i32, i32)>)
    ensures
        action_for(selection_result(None, complete, cursor_hex)) == SelectionAction::Idle,
{
}

/// Releasing the select button while a menu is open always closes it.
pub proof fn lemma_release_closes_menu(menu: HexMenuView, cursor_hex: Option<(i32, i32)>)
    ensures
        closes_menu(action_for(selection_result(Some(menu), true, cursor_hex))),
{
}

/// Releasing the select button over a hexagon of a well-formed menu that
/// holds a structure puts exactly that structure on the clipboard.
pub proof fn lemma_release_commits_item(menu: HexMenuView, hex: (i32, i32))
    requires
        menu.well_formed(),
        menu.item_at(hex) is Some,
    ensures
        action_for(selection_result(Some(menu), true, Some(hex))) == (SelectionAction::Commit {
            structure_id: menu.item_at(hex)->0,
        }),
{
}

/// Holding the select button over a hexagon of a well-formed menu that holds
/// a structure highlights exactly that structure's icon.
pub proof fn lemma_hold_previews_icon(menu: HexMenuView, hex: (i32, i32))
    requires
        menu.well_formed(),
        menu.item_at(hex) is Some,
    ensures
        action_for(selection_result(Some(menu), false, Some(hex))) == (SelectionAction::Preview {
            icon_entity: menu.icon_at(hex)->0,
        }),
{
}

/// Over a hexagon that holds nothing, or with the cursor off the screen, the
/// clipboard is emptied: the menu closes on release and otherwise shows every
/// icon in its own colour.
pub proof fn lemma_empty_hex_clears(menu: HexMenuView, complete: bool, cursor_hex: Option<(i32, i32)>)
    requires
        cursor_hex matches Some(hex) ==> menu.item_at(hex) is None,
    ensures
        action_for(selection_result(Some(menu), complete, cursor_hex)) == if complete {
            SelectionAction::Cancel
        } else {
            SelectionAction::Clear
        },
{
}

/// The centre of a menu whose structures all lie on rings of radius one or
/// more is kept free: releasing there cancels the selection.
pub proof fn lemma_centre_cancels(menu: HexMenuView)
    requires
        forall|hex: (i32, i32)| #[trigger] menu.content.contains_key(hex) ==> 1 <= hex_distance(hex, (0, 0)),
    ensures
        action_for(selection_result(Some(menu), true, Some((0, 0)))) == SelectionAction::Cancel,
{
    assert(hex_distance((0, 0), (0, 0)) == 0);
}

/// A menu built from a plan that keeps off the centre, as the plans of
/// `open_hex_menu` do, cancels when released over its centre.
pub proof fn lemma_planned_menu_centre_cancels(plan: Seq<((i32, i32), u64)>, icons: Seq<u64>, backgrounds: Seq<u64>)
    requires
        forall|i: int| 0 <= i < plan.len() ==> 1 <= #[trigger] hex_distance(plan[i].0, (0, 0)),
    ensures
        action_for(
            selection_result(Some(menu_from(plan, icons, backgrounds, plan.len())), true, Some((0, 0))),
        ) == SelectionAction::Cancel,
{
    let menu = menu_from(plan, icons, backgrounds, plan.len());
    lemma_menu_from_hexes(plan, icons, backgrounds, plan.len());
    assert forall|hex: (i32, i32)| #[trigger] menu.content.contains_key(hex) implies 1 <= hex_distance(hex, (0, 0)) by {
        let i = choose|i: int| 0 <= i < plan.len() && plan[i].0 == hex;
        assert(1 <= hex_distance(plan[i].0, (0, 0)));
    }
    lemma_centre_cancels(menu);
}

/// How an icon of the menu is shown.
#[derive(Clone, Copy, Debug, PartialEq, Eq, Structural)]
pub enum IconTint {
    /// In the highlight colour.
    Highlighted,
    /// In the colour of its structure.
    Natural,
}

/// The tint of an icon, given the icon that is highlighted, if any.
pub open spec fn tint_for(icon: u64, highlighted: Option<u64>) -> IconTint {
    if highlighted == Some(icon) { IconTint::Highlighted } else { IconTint::Natural }
}

/// An icon is highlighted exactly when it is the highlighted icon; with no
/// highlighted icon, every icon shows its structure's colour.
pub proof fn lemma_tint_highlights_only_selected(icon: u64, highlighted: Option<u64>)
    ensures
        tint_for(icon, highlighted) == IconTint::Highlighted <==> highlighted == Some(icon),
        tint_for(icon, highlighted) == IconTint::Natural <==> highlighted != Some(icon),
        highlighted is None ==> tint_for(icon, highlighted) == IconTint::Natural,
{
}

/// The tint of each icon of the menu, in order: the highlighted icon in the
/// highlight colour, every other in its structure's colour.
pub fn icon_tints(icons: &Vec<u64>, highlighted: Option<u64>) -> (tints: Vec<IconTint>)
    ensures
        tints@.len() == icons@.len(),
        forall|i: int| 0 <= i < icons@.len() ==> #[trigger] tints@[i] == tint_for(icons@[i], highlighted),
{
    let mut tints: Vec<IconTint> = Vec::new();
    let mut i: usize = 0;
    while i < icons.len()
        invariant
            i <= icons@.len(),
            tints@.len() == i,
            forall|k: int| 0 <= k < i ==> #[trigger] tints@[k] == tint_for(icons@[k], highlighted),
        decreases icons@.len() - i,
    {
        let icon = icons[i];
        let tint = match highlighted {
            Some(h) => if h == icon { IconTint::Highlighted } else { IconTint::Natural },
            None => IconTint::Natural,
        };
        tints.push(tint);
        i = i + 1;
    }
    tints
}

} // verus!
