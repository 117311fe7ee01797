use emergence_lib::hex_menu::{open_hex_menu, plan_menu, sort_ids, HexMenuArrangement, MENU_RANGE};

fn distance(h: (i32, i32)) -> i32 {
    let (x, y) = h;
    x.abs().max(y.abs()).max((x + y).abs())
}

#[test]
fn sort_ids_orders_and_keeps_duplicates() {
    assert_eq!(sort_ids(&vec![5, 1, 3, 1]), vec![1, 1, 3, 5]);
    assert_eq!(sort_ids(&vec![]), Vec::<u64>::new());
    assert_eq!(sort_ids(&vec![u64::MAX, 0]), vec![0, u64::MAX]);
}

#[test]
fn menu_hexes_spiral_clockwise_from_bottom_right() {
    let variants: Vec<u64> = (0..18).collect();
    let plan = open_hex_menu(true, true, &variants).unwrap();
    let hexes: Vec<(i32, i32)> = plan.iter().map(|(hex, _)| *hex).collect();
    assert_eq!(
        hexes,
        vec![
            (1, 0), (0, 1), (-1, 1), (-1, 0), (0, -1), (1, -1),
            (2, 0), (1, 1), (0, 2), (-1, 2), (-2, 2), (-2, 1),
            (-2, 0), (-1, -1), (0, -2), (1, -2), (2, -2), (2, -1),
        ]
    );
    for (i, h) in hexes.iter().enumerate() {
        assert_eq!(distance(*h), if i < 6 { 1 } else { 2 });
    }
}

#[test]
fn plan_menu_truncates_to_the_shorter() {
    let plan = plan_menu(&vec![30, 10, 20], &vec![(1, 0), (0, 1)]);
    assert_eq!(plan, vec![((1, 0), 10), ((0, 1), 20)]);
    let plan = plan_menu(&vec![7], &vec![(1, 0), (0, 1)]);
    assert_eq!(plan, vec![((1, 0), 7)]);
}

#[test]
fn open_hex_menu_only_when_pressed_with_cursor() {
    assert!(open_hex_menu(false, true, &vec![1, 2]).is_none());
    assert!(open_hex_menu(true, false, &vec![1, 2]).is_none());
    assert!(open_hex_menu(false, false, &vec![1, 2]).is_none());
    let plan = open_hex_menu(true, true, &vec![9, 4]).unwrap();
    assert_eq!(plan, vec![((1, 0), 4), ((0, 1), 9)]);
}

#[test]
fn open_hex_menu_drops_what_does_not_fit_and_keeps_centre_free() {
    let variants: Vec<u64> = (0..25).rev().collect();
    let plan = open_hex_menu(true, true, &variants).unwrap();
    assert_eq!(plan.len(), 18);
    assert_eq!(MENU_RANGE, 3);
    for (i, (hex, id)) in plan.iter().enumerate() {
        assert_eq!(*id, i as u64);
        assert_ne!(*hex, (0, 0));
        assert!(distance(*hex) >= 1 && distance(*hex) < 3);
    }
}

#[test]
fn layout_ignores_listing_order() {
    let a = open_hex_menu(true, true, &vec![3, 8, 1, 5]).unwrap();
    let b = open_hex_menu(true, true, &vec![5, 1, 8, 3]).unwrap();
    assert_eq!(a, b);
}

#[test]
fn arrangement_reads_what_was_placed() {
    let mut menu = HexMenuArrangement::new();
    assert_eq!(menu.get_item((1, 0)), None);
    assert_eq!(menu.get_icon((1, 0)), None);
    menu.place((1, 0), 42, 100, 200);
    menu.place((0, 1), 43, 101, 201);
    assert_eq!(menu.get_item((1, 0)), Some(42));
    assert_eq!(menu.get_icon((1, 0)), Some(100));
    assert_eq!(menu.get_item((0, 1)), Some(43));
    assert_eq!(menu.get_icon((0, 1)), Some(101));
    assert_eq!(menu.get_item((0, 0)), None);
    menu.place((1, 0), 44, 102, 202);
    assert_eq!(menu.get_item((1, 0)), Some(44));
    assert_eq!(menu.get_icon((1, 0)), Some(102));
}

#[test]
fn arrangement_from_plan() {
    let plan = open_hex_menu(true, true, &vec![11, 12, 13]).unwrap();
    let menu = HexMenuArrangement::from_plan(&plan, &vec![1, 2, 3], &vec![4, 5, 6]);
    assert_eq!(menu.get_item((1, 0)), Some(11));
    assert_eq!(menu.get_icon((0, 1)), Some(2));
    assert_eq!(menu.get_item((-1, 1)), Some(13));
    assert_eq!(menu.get_item((0, 0)), None);
    assert_eq!(menu.get_item((-1, 0)), None);
}
