use aboutface::grid::{
    Assignment, AssignmentError, CellIndex, FaceId, GridSpec, GridSpecError, MAX_CELLS, MIN_CELLS,
};

fn spec() -> GridSpec {
    GridSpec::new(4, 4).expect("valid grid")
}

#[test]
fn accepts_grids_across_the_designed_range() {
    assert_eq!(
        GridSpec::new(5, 2).expect("valid grid").cell_count(),
        MIN_CELLS
    );
    assert_eq!(
        GridSpec::new(40, 25).expect("valid grid").cell_count(),
        MAX_CELLS
    );
}

#[test]
fn rejects_grids_outside_the_designed_range() {
    assert_eq!(
        GridSpec::new(3, 3),
        Err(GridSpecError::OutOfRange { cells: 9 })
    );
    assert_eq!(
        GridSpec::new(41, 25),
        Err(GridSpecError::OutOfRange { cells: 1025 })
    );
}

#[test]
fn rejects_zero_dimensions() {
    assert_eq!(
        GridSpec::new(0, 10),
        Err(GridSpecError::ZeroDimension { cols: 0, rows: 10 })
    );
}

#[test]
fn maps_cells_to_positions_in_row_major_order() {
    let spec = spec();
    assert_eq!(spec.position_of(CellIndex(0)), Some((0, 0)));
    assert_eq!(spec.position_of(CellIndex(5)), Some((1, 1)));
    assert_eq!(spec.position_of(CellIndex(15)), Some((3, 3)));
    assert_eq!(spec.position_of(CellIndex(16)), None);
}

#[test]
fn places_and_finds_a_face() {
    let mut assignment = Assignment::new(spec());
    let face = FaceId(7);

    assignment.place(CellIndex(3), face).expect("placed");

    assert_eq!(assignment.face_at(CellIndex(3)), Some(face));
    assert_eq!(assignment.cell_of(face), Some(CellIndex(3)));
    assert_eq!(assignment.occupied(), 1);
}

#[test]
fn refuses_to_place_one_face_in_two_cells() {
    let mut assignment = Assignment::new(spec());
    let face = FaceId(7);
    assignment.place(CellIndex(3), face).expect("placed");

    assert_eq!(
        assignment.place(CellIndex(4), face),
        Err(AssignmentError::FaceAlreadyPlaced { face, existing: 3 })
    );
}

#[test]
fn replacing_a_face_in_its_own_cell_is_allowed() {
    let mut assignment = Assignment::new(spec());
    let face = FaceId(7);
    assignment.place(CellIndex(3), face).expect("placed");

    assignment.place(CellIndex(3), face).expect("still placed");
    assert_eq!(assignment.occupied(), 1);
}

#[test]
fn rejects_cells_outside_the_grid() {
    let mut assignment = Assignment::new(spec());

    assert_eq!(
        assignment.place(CellIndex(16), FaceId(1)),
        Err(AssignmentError::CellOutOfRange {
            cells: 16,
            cell: 16
        })
    );
}

#[test]
fn rejects_a_grid_whose_cell_count_overflows() {
    assert_eq!(
        GridSpec::new(u32::MAX, 2),
        Err(GridSpecError::OutOfRange { cells: u32::MAX })
    );
}

#[test]
fn keeps_the_other_face_when_a_cell_is_overwritten() {
    let mut assignment = Assignment::new(spec());
    assignment.place(CellIndex(0), FaceId(1)).expect("placed");
    assignment.place(CellIndex(0), FaceId(2)).expect("replaced");

    assert_eq!(assignment.face_at(CellIndex(0)), Some(FaceId(2)));
    assert_eq!(assignment.cell_of(FaceId(1)), None);
    assert_eq!(assignment.face_at(CellIndex(99)), None);
    assert_eq!(assignment.spec(), spec());
}
