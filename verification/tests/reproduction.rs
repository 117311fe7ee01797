use emergence_lib::reproduction::{egg_hatches, hatch_ant_eggs, hatch_site, Hatchery};

#[test]
fn egg_hatches_only_for_complete_hatch_recipe() {
    assert!(egg_hatches(Some(3), 3, true));
    assert!(!egg_hatches(Some(3), 3, false));
    assert!(!egg_hatches(Some(4), 3, true));
    assert!(!egg_hatches(None, 3, true));
}

#[test]
fn hatch_site_picks_an_empty_neighbour() {
    let neighbours = vec![(1, 0), (0, 1), (-1, 1)];
    for _ in 0..50 {
        let site = hatch_site(Some(3), 3, true, &neighbours).unwrap();
        assert!(neighbours.contains(&site));
    }
    assert_eq!(hatch_site(Some(3), 3, true, &vec![]), None);
    assert_eq!(hatch_site(Some(3), 3, false, &neighbours), None);
    assert_eq!(hatch_site(None, 3, true, &neighbours), None);
    assert_eq!(hatch_site(Some(3), 3, true, &vec![(9, 9)]), Some((9, 9)));
}

#[test]
fn hatch_ant_eggs_one_site_per_structure() {
    let hatcheries = vec![
        Hatchery { recipe_id: Some(3), recipe_complete: true, empty_neighbors: vec![(2, 2)] },
        Hatchery { recipe_id: Some(3), recipe_complete: false, empty_neighbors: vec![(4, 4)] },
        Hatchery { recipe_id: Some(5), recipe_complete: true, empty_neighbors: vec![(6, 6)] },
        Hatchery { recipe_id: Some(3), recipe_complete: true, empty_neighbors: vec![] },
        Hatchery { recipe_id: None, recipe_complete: true, empty_neighbors: vec![(7, 7)] },
    ];
    assert_eq!(hatch_ant_eggs(&hatcheries, 3), vec![Some((2, 2)), None, None, None, None]);
    assert_eq!(hatch_ant_eggs(&vec![], 3), vec![]);
}
