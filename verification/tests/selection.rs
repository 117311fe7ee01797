use emergence_lib::hex_menu::HexMenuArrangement;
use emergence_lib::selection::{
    handle_selection, icon_tints, select_hex, HexMenuData, HexMenuError, IconTint, SelectionAction,
};

fn menu() -> HexMenuArrangement {
    let mut m = HexMenuArrangement::new();
    m.place((1, 0), 7, 70, 700);
    m.place((0, 1), 8, 80, 800);
    m
}

#[test]
fn select_hex_without_menu() {
    assert_eq!(select_hex(None, true, Some((1, 0))), Err(HexMenuError::NoMenu));
    assert_eq!(select_hex(None, false, None), Err(HexMenuError::NoMenu));
}

#[test]
fn select_hex_without_cursor() {
    let m = menu();
    assert_eq!(select_hex(Some(&m), true, None), Err(HexMenuError::NoSelection { complete: true }));
    assert_eq!(select_hex(Some(&m), false, None), Err(HexMenuError::NoSelection { complete: false }));
}

#[test]
fn select_hex_over_empty_hex() {
    let m = menu();
    assert_eq!(
        select_hex(Some(&m), false, Some((0, 0))),
        Err(HexMenuError::NoSelection { complete: false })
    );
    assert_eq!(
        select_hex(Some(&m), true, Some((5, 5))),
        Err(HexMenuError::NoSelection { complete: true })
    );
}

#[test]
fn select_hex_over_item() {
    let m = menu();
    assert_eq!(
        select_hex(Some(&m), false, Some((0, 1))),
        Ok(HexMenuData { structure_id: 8, icon_entity: 80, complete: false })
    );
    assert_eq!(
        select_hex(Some(&m), true, Some((1, 0))),
        Ok(HexMenuData { structure_id: 7, icon_entity: 70, complete: true })
    );
}

#[test]
fn handle_selection_actions() {
    let done = Ok(HexMenuData { structure_id: 7, icon_entity: 70, complete: true });
    assert_eq!(handle_selection(&done), SelectionAction::Commit { structure_id: 7 });
    let held = Ok(HexMenuData { structure_id: 7, icon_entity: 70, complete: false });
    assert_eq!(handle_selection(&held), SelectionAction::Preview { icon_entity: 70 });
    assert_eq!(
        handle_selection(&Err(HexMenuError::NoSelection { complete: true })),
        SelectionAction::Cancel
    );
    assert_eq!(
        handle_selection(&Err(HexMenuError::NoSelection { complete: false })),
        SelectionAction::Clear
    );
    assert_eq!(handle_selection(&Err(HexMenuError::NoMenu)), SelectionAction::Idle);
}

#[test]
fn releasing_over_item_commits_it_and_centre_cancels() {
    let m = menu();
    assert_eq!(
        handle_selection(&select_hex(Some(&m), true, Some((0, 1)))),
        SelectionAction::Commit { structure_id: 8 }
    );
    assert_eq!(handle_selection(&select_hex(Some(&m), true, Some((0, 0)))), SelectionAction::Cancel);
}

#[test]
fn icon_tints_highlight_only_selected() {
    let icons = vec![70, 80, 90];
    assert_eq!(
        icon_tints(&icons, Some(80)),
        vec![IconTint::Natural, IconTint::Highlighted, IconTint::Natural]
    );
    assert_eq!(icon_tints(&icons, None), vec![IconTint::Natural; 3]);
    assert_eq!(icon_tints(&icons, Some(5)), vec![IconTint::Natural; 3]);
    assert_eq!(icon_tints(&vec![], Some(5)), Vec::<IconTint>::new());
}
