use bevy_life::{
    Cell, ComplexCell2d, Coord2, Coord3, Coordinates, HexagonCell2d, MooreCell2d, PopulationError,
};

#[test]
fn moore_2d_cell_correct_coordinates() {
    let cell = MooreCell2d {
        coords: Coord2::new(10, 10),
    };
    let neighbors = cell.neighbor_coordinates().into_iter().collect::<Vec<_>>();
    assert_eq!(
        neighbors,
        vec![
            // Left
            Coord2::new(9, 10),
            // Top Left
            Coord2::new(9, 11),
            // Top
            Coord2::new(10, 11),
            // Top Right
            Coord2::new(11, 11),
            // Right
            Coord2::new(11, 10),
            // Bottom Right
            Coord2::new(11, 9),
            // Bottom
            Coord2::new(10, 9),
            // Bottom Left
            Coord2::new(9, 9),
        ]
    );
}

#[test]
fn moore_2d_cell_correct_coordinates_negative() {
    let cell = MooreCell2d {
        coords: Coord2::new(-10, 10),
    };
    let neighbors = cell.neighbor_coordinates().into_iter().collect::<Vec<_>>();
    assert_eq!(
        neighbors,
        vec![
            // Left
            Coord2::new(-11, 10),
            // Top Left
            Coord2::new(-11, 11),
            // Top
            Coord2::new(-10, 11),
            // Top Right
            Coord2::new(-9, 11),
            // Right
            Coord2::new(-9, 10),
            // Bottom Right
            Coord2::new(-9, 9),
            // Bottom
            Coord2::new(-10, 9),
            // Bottom Left
            Coord2::new(-11, 9),
        ]
    );
}

#[test]
fn moore_2d_cell_correct_coordinates_origin() {
    let cell = MooreCell2d {
        coords: Coord2::new(0, 0),
    };
    let neighbors = cell.neighbor_coordinates().into_iter().collect::<Vec<_>>();
    assert_eq!(
        neighbors,
        vec![
            // Left
            Coord2::new(-1, 0),
            // Top Left
            Coord2::new(-1, 1),
            // Top
            Coord2::new(0, 1),
            // Top Right
            Coord2::new(1, 1),
            // Right
            Coord2::new(1, 0),
            // Bottom Right
            Coord2::new(1, -1),
            // Bottom
            Coord2::new(0, -1),
            // Bottom Left
            Coord2::new(-1, -1),
        ]
    );
}

#[test]
fn hexagon_2d_cell_correct_coordinates() {
    let cell = HexagonCell2d {
        coords: Coord3::new(10, 10, 10),
    };
    let neighbors = cell.neighbor_coordinates().into_iter().collect::<Vec<_>>();
    assert_eq!(
        neighbors,
        vec![
            Coord3::new(10, 11, 9),
            Coord3::new(11, 10, 9),
            Coord3::new(11, 9, 10),
            Coord3::new(10, 9, 11),
            Coord3::new(9, 10, 11),
            Coord3::new(9, 11, 10)
        ]
    );
}

#[test]
fn hexagon_2d_cell_correct_coordinates_negative() {
    let cell = HexagonCell2d {
        coords: Coord3::new(-10, 8, 5),
    };
    let neighbors = cell.neighbor_coordinates().into_iter().collect::<Vec<_>>();
    assert_eq!(
        neighbors,
        vec![
            Coord3::new(-10, 9, 4),
            Coord3::new(-9, 8, 4),
            Coord3::new(-9, 7, 5),
            Coord3::new(-10, 7, 6),
            Coord3::new(-11, 8, 6),
            Coord3::new(-11, 9, 5)
        ]
    );
}

#[test]
fn hexagon_2d_cell_correct_coordinates_origin() {
    let cell = HexagonCell2d {
        coords: Coord3::new(0, 0, 0),
    };
    let neighbors = cell.neighbor_coordinates().into_iter().collect::<Vec<_>>();
    assert_eq!(
        neighbors,
        vec![
            Coord3::new(0, 1, -1),
            Coord3::new(1, 0, -1),
            Coord3::new(1, -1, 0),
            Coord3::new(0, -1, 1),
            Coord3::new(-1, 0, 1),
            Coord3::new(-1, 1, 0),
        ]
    );
}

#[test]
fn complex_2d_cell_correct_coordinates_origin() {
    let cell = ComplexCell2d {
        coords: Coord2::new(0, 0),
    };
    let neighbors = cell.neighbor_coordinates().into_iter().collect::<Vec<_>>();
    assert_eq!(
        neighbors,
        vec![
            // Left
            Coord2::new(-1, 0),
            // Top Left
            Coord2::new(-1, 1),
            // Top
            Coord2::new(0, 1),
            // Top Right
            Coord2::new(1, 1),
            // Right
            Coord2::new(1, 0),
            // Bottom Right
            Coord2::new(1, -1),
            // Bottom
            Coord2::new(0, -1),
            // Bottom Left
            Coord2::new(-1, -1),
            // Long-range links
            Coord2::new(-20, 0),
            Coord2::new(0, 20),
            Coord2::new(20, 0),
            Coord2::new(0, -20),
        ]
    );
}

#[test]
fn complex_2d_cell_off_hub_has_moore_neighbors_only() {
    let cell = ComplexCell2d::new(Coord2::new(1, 1));
    let neighbors = cell.neighbor_coordinates();
    assert_eq!(
        neighbors,
        vec![
            Coord2::new(0, 1),
            Coord2::new(0, 2),
            Coord2::new(1, 2),
            Coord2::new(2, 2),
            Coord2::new(2, 1),
            Coord2::new(2, 0),
            Coord2::new(1, 0),
            Coord2::new(0, 0),
        ]
    );
    assert_eq!(neighbors, MooreCell2d::new(Coord2::new(1, 1)).neighbor_coordinates());
}

#[test]
fn complex_2d_cell_one_component_on_the_lattice_is_no_hub() {
    let neighbors = ComplexCell2d::new(Coord2::new(20, 7)).neighbor_coordinates();
    assert_eq!(neighbors.len(), 8);
    let neighbors = ComplexCell2d::new(Coord2::new(3, -40)).neighbor_coordinates();
    assert_eq!(neighbors.len(), 8);
}

#[test]
fn complex_2d_cell_negative_hub() {
    let neighbors = ComplexCell2d::new(Coord2::new(-20, 40)).neighbor_coordinates();
    assert_eq!(neighbors.len(), 12);
    assert_eq!(
        neighbors[8..].to_vec(),
        vec![
            Coord2::new(-40, 40),
            Coord2::new(-20, 60),
            Coord2::new(0, 40),
            Coord2::new(-20, 20),
        ]
    );
    assert_eq!(
        neighbors[..8].to_vec(),
        MooreCell2d::new(Coord2::new(-20, 40)).neighbor_coordinates()
    );
}

#[test]
fn complex_neighbors_with_other_spacing() {
    let neighbors = ComplexCell2d::neighbors_with_spacing(Coord2::new(50, -100), 50).unwrap();
    assert_eq!(
        neighbors[8..].to_vec(),
        vec![
            Coord2::new(0, -100),
            Coord2::new(50, -50),
            Coord2::new(100, -100),
            Coord2::new(50, -150),
        ]
    );
    let neighbors = ComplexCell2d::neighbors_with_spacing(Coord2::new(20, 20), 50).unwrap();
    assert_eq!(neighbors.len(), 8);
    let neighbors = ComplexCell2d::neighbors_with_spacing(Coord2::new(7, -3), 1).unwrap();
    assert_eq!(neighbors.len(), 12);
}

#[test]
fn complex_neighbors_refuse_a_spacing_that_is_not_positive() {
    assert_eq!(
        ComplexCell2d::neighbors_with_spacing(Coord2::new(0, 0), 0),
        Err(PopulationError::InvalidSpacing { spacing: 0 })
    );
    assert_eq!(
        ComplexCell2d::neighbors_with_spacing(Coord2::new(0, 0), -20),
        Err(PopulationError::InvalidSpacing { spacing: -20 })
    );
    assert_eq!(
        ComplexCell2d::neighbors_with_spacing(Coord2::new(0, 0), i32::MIN),
        Err(PopulationError::InvalidSpacing { spacing: i32::MIN })
    );
}

#[test]
fn neighbor_coordinates_are_the_same_on_every_call() {
    let moore = MooreCell2d::new(Coord2::new(-3, 8));
    assert_eq!(moore.neighbor_coordinates(), moore.neighbor_coordinates());
    let hexagon = HexagonCell2d::new(Coord3::new(2, -5, 3));
    assert_eq!(hexagon.neighbor_coordinates(), hexagon.neighbor_coordinates());
    let complex = ComplexCell2d::new(Coord2::new(40, 40));
    assert_eq!(complex.neighbor_coordinates(), complex.neighbor_coordinates());
    assert_eq!(
        moore.neighbor_coordinates(),
        MooreCell2d::new(*moore.coords()).neighbor_coordinates()
    );
}

#[test]
fn neighbors_wrap_around_at_the_bounds_of_the_grid() {
    let neighbors = MooreCell2d::new(Coord2::new(i32::MAX, i32::MIN)).neighbor_coordinates();
    assert_eq!(
        neighbors,
        vec![
            Coord2::new(i32::MAX - 1, i32::MIN),
            Coord2::new(i32::MAX - 1, i32::MIN + 1),
            Coord2::new(i32::MAX, i32::MIN + 1),
            Coord2::new(i32::MIN, i32::MIN + 1),
            Coord2::new(i32::MIN, i32::MIN),
            Coord2::new(i32::MIN, i32::MAX),
            Coord2::new(i32::MAX, i32::MAX),
            Coord2::new(i32::MAX - 1, i32::MAX),
        ]
    );
    let neighbors = HexagonCell2d::new(Coord3::new(i32::MAX, 0, i32::MIN)).neighbor_coordinates();
    assert_eq!(neighbors[0], Coord3::new(i32::MAX, 1, i32::MAX));
    assert_eq!(neighbors[1], Coord3::new(i32::MIN, 0, i32::MAX));
}

#[test]
fn hexagon_neighbors_stay_in_the_plane() {
    let cell = HexagonCell2d::new(Coord3::new(4, -9, 5));
    for n in cell.neighbor_coordinates() {
        assert_eq!(n.x + n.y + n.z, 0);
    }
}

#[test]
fn cells_report_their_coordinates() {
    assert_eq!(*MooreCell2d::new(Coord2::new(3, 4)).coords(), Coord2 { x: 3, y: 4 });
    assert_eq!(*ComplexCell2d::new(Coord2::new(-3, 4)).coords(), Coord2 { x: -3, y: 4 });
    assert_eq!(
        *HexagonCell2d::new(Coord3::new(1, 2, -3)).coords(),
        Coord3 { x: 1, y: 2, z: -3 }
    );
}

#[test]
fn index_keys_tell_coordinates_apart() {
    assert_eq!(Coord2::new(i32::MIN, i32::MIN).index_key(), 0);
    assert_eq!(Coord2::new(i32::MIN, i32::MIN + 1).index_key(), 1);
    assert_eq!(Coord2::new(i32::MIN + 1, i32::MIN).index_key(), 1 << 32);
    assert_eq!(Coord2::new(0, 0).index_key(), (1u128 << 63) + (1u128 << 31));
    assert_eq!(Coord2::new(i32::MAX, i32::MAX).index_key(), u64::MAX as u128);
    assert_eq!(Coord3::new(i32::MIN, i32::MIN, i32::MIN).index_key(), 0);
    assert_eq!(Coord3::new(i32::MIN, i32::MIN + 1, i32::MIN).index_key(), 1 << 32);
    assert_eq!(Coord3::new(i32::MIN + 1, i32::MIN, i32::MIN + 2).index_key(), (1u128 << 64) + 2);
    assert_eq!(Coord3::new(i32::MAX, i32::MAX, i32::MAX).index_key(), (1u128 << 96) - 1);
    assert_ne!(Coord2::new(1, 0).index_key(), Coord2::new(0, 1).index_key());
    assert_ne!(Coord2::new(-1, 0).index_key(), Coord2::new(0, -1).index_key());
}
