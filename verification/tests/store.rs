use std::time::{Duration, UNIX_EPOCH};

use aboutface::grid::FaceId;
use aboutface::store::{
    decode, encode, face_dir, face_id, from_unix_millis, in_dir, migration_plan, migrations,
    rowid, signed_millis, stored_words, to_unix_millis, ImageKind, SchemaTooNew, SCHEMA_VERSION,
};

fn words(values: &[f32]) -> Vec<u32> {
    values.iter().map(|v| v.to_bits()).collect()
}

#[test]
fn should_shard_by_the_thousand_when_a_face_dir_is_named() {
    let root = "/corpus";

    assert_eq!(face_dir(root, FaceId(7)), "/corpus/faces/0000/000007");
    assert_eq!(face_dir(root, FaceId(1_234)), "/corpus/faces/0001/001234");
    assert_eq!(
        face_dir(root, FaceId(12_345_678)),
        "/corpus/faces/12345/12345678"
    );
}

#[test]
fn should_give_each_image_its_own_name_when_a_face_is_stored() {
    let dir = face_dir("/corpus", FaceId(1));
    let paths = [ImageKind::Original, ImageKind::Aligned, ImageKind::Display]
        .map(|kind| in_dir(&dir, kind));

    assert_eq!(
        paths,
        [
            "/corpus/faces/0000/000001/original.png".to_owned(),
            "/corpus/faces/0000/000001/aligned.png".to_owned(),
            "/corpus/faces/0000/000001/display.png".to_owned(),
        ]
    );
}

#[test]
fn joins_a_face_dir_onto_a_root_that_ends_in_a_separator() {
    assert_eq!(face_dir("corpus/", FaceId(999)), "corpus/faces/0000/000999");
}

#[test]
fn should_return_the_same_values_when_a_blob_round_trips() {
    let values = vec![0.5f32, -0.25, 1.0, 0.0];

    let decoded = decode(&encode(&words(&values)), values.len()).expect("the blob decodes");
    let decoded: Vec<f32> = decoded.into_iter().map(f32::from_bits).collect();

    assert_eq!(decoded, values);
}

#[test]
fn should_be_little_endian_whatever_the_machine_is() {
    assert_eq!(encode(&words(&[1.0])), vec![0x00, 0x00, 0x80, 0x3f]);
}

#[test]
fn should_refuse_when_the_blob_disagrees_with_the_recorded_width() {
    let blob = encode(&words(&[1.0, 2.0]));

    assert_eq!(decode(&blob, 3), None);
    assert_eq!(decode(&blob[..7], 2), None);
}

#[test]
fn should_have_a_migration_for_every_version() {
    assert_eq!(migrations().len(), SCHEMA_VERSION as usize);
}

#[test]
fn plans_every_migration_when_the_database_is_empty() {
    let plan = migration_plan(0).expect("an empty database migrates");

    assert_eq!(plan.len(), 1);
    assert_eq!(plan[0].to_version, 1);
    assert!(plan[0].sql.contains("CREATE TABLE face"));
}

#[test]
fn plans_nothing_when_the_database_is_already_current() {
    assert_eq!(migration_plan(SCHEMA_VERSION), Ok(vec![]));
}

#[test]
fn refuses_a_database_from_a_newer_build() {
    assert_eq!(
        migration_plan(SCHEMA_VERSION + 1),
        Err(SchemaTooNew {
            found: SCHEMA_VERSION + 1,
            understood: SCHEMA_VERSION
        })
    );
}

#[test]
fn reads_back_the_words_of_a_stored_embedding() {
    let blob = encode(&[1, 2, 0xdead_beef]);

    assert_eq!(
        stored_words(FaceId(4), 3, &blob),
        Ok(vec![1, 2, 0xdead_beef])
    );
}

#[test]
fn reports_corruption_when_a_stored_embedding_disagrees_with_its_width() {
    let blob = encode(&[1, 2]);

    let error = stored_words(FaceId(4), 3, &blob).expect_err("a short blob");

    assert_eq!(error.face, FaceId(4));
    assert_eq!(error.detail, "embedding blob is 8 bytes, expected 12 for width 3");
}

#[test]
fn reports_corruption_when_a_recorded_width_is_negative() {
    let error = stored_words(FaceId(4), -2, &[]).expect_err("a negative width");

    assert_eq!(error.detail, "recorded width -2 is not a width");
}

#[test]
fn carries_an_identifier_through_sqlite_unchanged() {
    assert_eq!(rowid(FaceId(41)), 41);
    assert_eq!(face_id(41), FaceId(41));
    assert_eq!(face_id(rowid(FaceId(9_000_000_000))), FaceId(9_000_000_000));
}

#[test]
fn should_round_trip_a_capture_time_when_it_is_after_the_epoch() {
    let time = UNIX_EPOCH + Duration::from_millis(1_755_000_000_123);

    assert_eq!(from_unix_millis(to_unix_millis(time)), time);
}

#[test]
fn should_round_trip_a_capture_time_when_the_machine_clock_is_before_the_epoch() {
    let time = UNIX_EPOCH - Duration::from_millis(86_400_000);

    assert_eq!(from_unix_millis(to_unix_millis(time)), time);
}

#[test]
fn reads_back_the_millisecond_count_it_was_given() {
    for millis in [0, 1, -1, 1_755_000_000_123, -86_400_000, i64::MAX, i64::MIN + 1] {
        assert_eq!(to_unix_millis(from_unix_millis(millis)), millis);
    }
}

#[test]
fn signs_milliseconds_by_their_side_of_the_epoch() {
    assert_eq!(signed_millis(true, 1_500), 1_500);
    assert_eq!(signed_millis(false, 86_400_000), -86_400_000);
    assert_eq!(to_unix_millis(UNIX_EPOCH), 0);
}
