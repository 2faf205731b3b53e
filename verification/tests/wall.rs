use aboutface::grid::{CellIndex, FaceId, GridSpec};
use aboutface::portrait::{Portrait, SLOT_HEIGHT, SLOT_WIDTH};
use aboutface::residency::{Residency, Upload};
use aboutface::window::Window;

fn spec() -> GridSpec {
    GridSpec::new(4, 4).expect("valid grid")
}

fn faces(count: u64) -> Vec<FaceId> {
    (1..=count).map(FaceId).collect()
}

#[test]
fn should_fill_cells_in_order_when_the_corpus_is_smaller_than_the_grid() {
    let window = Window::onto(spec(), faces(3));

    assert_eq!(window.face_at(CellIndex(0)), Some(FaceId(1)));
    assert_eq!(window.face_at(CellIndex(2)), Some(FaceId(3)));
    assert_eq!(window.occupied(), 3);
}

#[test]
fn should_leave_cells_empty_when_the_corpus_is_smaller_than_the_grid() {
    let window = Window::onto(spec(), faces(3));

    assert_eq!(window.face_at(CellIndex(3)), None);
    assert_eq!(window.face_at(CellIndex(15)), None);
}

#[test]
fn should_show_a_window_onto_the_corpus_when_it_holds_more_faces_than_cells() {
    let window = Window::onto(spec(), faces(100));

    assert_eq!(window.occupied(), 16);
    assert_eq!(window.face_at(CellIndex(15)), Some(FaceId(16)));
    assert_eq!(window.resident().len(), 16);
}

#[test]
fn should_place_a_face_once_when_it_is_offered_twice() {
    let window = Window::onto(spec(), vec![FaceId(1), FaceId(1), FaceId(2)]);

    assert_eq!(window.face_at(CellIndex(0)), Some(FaceId(1)));
    assert_eq!(window.face_at(CellIndex(1)), Some(FaceId(2)));
    assert_eq!(window.occupied(), 2);
}

#[test]
fn should_hold_no_faces_when_the_corpus_is_empty() {
    let window = Window::onto(spec(), vec![]);

    assert_eq!(window.occupied(), 0);
    assert_eq!(window.resident().len(), 0);
}

#[test]
fn lists_residents_in_cell_order_without_repeats() {
    let window = Window::onto(spec(), vec![FaceId(5), FaceId(3), FaceId(5), FaceId(9)]);

    assert_eq!(window.resident(), vec![FaceId(5), FaceId(3), FaceId(9)]);
    assert_eq!(window.spec(), spec());
}

#[test]
fn keeps_offering_order_when_repeats_arrive_after_the_grid_is_full() {
    let mut offered = faces(16);
    offered.push(FaceId(1));
    offered.push(FaceId(99));
    let window = Window::onto(spec(), offered);

    assert_eq!(window.resident(), faces(16));
}

fn upload(face: u64, slot: u32) -> Upload {
    Upload {
        face: FaceId(face),
        slot,
    }
}

#[test]
fn should_upload_every_face_when_the_wall_first_fills() {
    let mut residency = Residency::with_capacity(4);

    let uploads = residency.sync(vec![FaceId(1), FaceId(2)]);

    assert_eq!(uploads, vec![upload(1, 0), upload(2, 1)]);
    assert_eq!(residency.slot_of(FaceId(2)), Some(1));
}

#[test]
fn should_upload_nothing_when_the_same_faces_are_shown_again() {
    let mut residency = Residency::with_capacity(4);
    residency.sync(vec![FaceId(1), FaceId(2)]);

    let uploads = residency.sync(vec![FaceId(2), FaceId(1)]);

    assert_eq!(uploads, vec![]);
    assert_eq!(residency.slot_of(FaceId(1)), Some(0));
    assert_eq!(residency.slot_of(FaceId(2)), Some(1));
}

#[test]
fn should_reuse_the_slot_of_a_face_that_has_drifted_out_of_the_window() {
    let mut residency = Residency::with_capacity(4);
    residency.sync(vec![FaceId(1), FaceId(2)]);

    let uploads = residency.sync(vec![FaceId(2), FaceId(3)]);

    assert_eq!(uploads, vec![upload(3, 0)]);
    assert_eq!(residency.slot_of(FaceId(1)), None);
    assert_eq!(residency.slot_of(FaceId(3)), Some(0));
}

#[test]
fn should_evict_everything_when_the_window_empties() {
    let mut residency = Residency::with_capacity(4);
    residency.sync(vec![FaceId(1), FaceId(2)]);

    assert_eq!(residency.sync(vec![]), vec![]);
    assert_eq!(residency.slot_of(FaceId(1)), None);
}

#[test]
fn should_drop_faces_that_do_not_fit_when_more_arrive_than_there_are_slots() {
    let mut residency = Residency::with_capacity(2);

    let uploads = residency.sync(vec![FaceId(1), FaceId(2), FaceId(3)]);

    assert_eq!(uploads, vec![upload(1, 0), upload(2, 1)]);
    assert_eq!(residency.slot_of(FaceId(3)), None);
}

#[test]
fn keeps_a_staying_face_in_its_slot_while_the_crowd_changes_around_it() {
    let mut residency = Residency::with_capacity(3);
    residency.sync(vec![FaceId(1), FaceId(2), FaceId(3)]);

    let uploads = residency.sync(vec![FaceId(4), FaceId(2), FaceId(5)]);

    assert_eq!(uploads, vec![upload(4, 0), upload(5, 2)]);
    assert_eq!(residency.slot_of(FaceId(2)), Some(1));
}

#[test]
fn uploads_a_face_offered_twice_once() {
    let mut residency = Residency::with_capacity(3);

    let uploads = residency.sync(vec![FaceId(7), FaceId(7)]);

    assert_eq!(uploads, vec![upload(7, 0)]);
}

#[test]
fn names_a_portrait_by_its_face_and_display_crop() {
    let portrait = Portrait::new(FaceId(12), "/corpus/faces/0000/000012/display.png");

    assert_eq!(portrait.face(), FaceId(12));
    assert_eq!(portrait.display_crop(), "/corpus/faces/0000/000012/display.png");
}

#[test]
fn sizes_a_texture_slot_at_the_house_portrait_framing() {
    assert_eq!((SLOT_WIDTH, SLOT_HEIGHT), (256, 320));
    assert_eq!(SLOT_WIDTH * 5, SLOT_HEIGHT * 4);
}
