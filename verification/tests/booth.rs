use aboutface::booth::{
    beside, config_base, default_cols, default_corpus_dir, default_models_dir, default_rows,
    describe_line, newest_window, settle, sole_face, Captured, ModelEntry, SelfCheck,
    SettingsError, Timings,
};
use aboutface::camera::CameraSelector;
use aboutface::grid::{FaceId, GridSpecError};
use aboutface::model::{ModelError, ModelRole, ModelSpec};
use aboutface::vision::Faces;

fn millis(ms: u128) -> u128 {
    ms * 1_000_000
}

#[test]
fn should_sum_every_stage_when_a_capture_is_timed() {
    let timings = Timings {
        capture: millis(10),
        detect: millis(20),
        align: millis(1),
        embed: millis(40),
        store: millis(5),
    };

    assert_eq!(timings.total(), millis(76));
}

#[test]
fn should_start_the_window_at_zero_when_the_corpus_is_smaller_than_the_grid() {
    assert_eq!(newest_window(3, 20), 0);
    assert_eq!(newest_window(20, 20), 0);
}

#[test]
fn should_end_the_window_on_the_newest_face_when_the_corpus_outgrows_the_grid() {
    assert_eq!(newest_window(21, 20), 1);
    assert_eq!(newest_window(1_000, 20), 980);
}

#[test]
fn goes_on_with_the_one_face_and_ends_on_none_or_a_crowd() {
    assert_eq!(sole_face(Faces::One(5u32)), Ok(5));
    assert_eq!(sole_face(Faces::<u32>::Nobody), Err(Captured::NoFace));
    assert_eq!(sole_face(Faces::Many(vec![1u32, 2, 3])), Err(Captured::Several(3)));
}

#[test]
fn reports_a_stored_face_with_what_it_cost() {
    let timings = Timings { capture: 1, detect: 2, align: 3, embed: 4, store: 5 };
    let captured = Captured::Face { id: FaceId(8), timings };

    assert!(matches!(captured, Captured::Face { id: FaceId(8), .. }));
    assert_eq!(timings.total(), 15);
}

fn model(role: ModelRole, file: &str) -> ModelSpec {
    ModelSpec::new(role, "/nonexistent/models", file, None).expect("valid spec")
}

#[test]
fn is_ready_when_the_adapter_and_every_model_are_there() {
    let check = SelfCheck::from_checks(true, &vec![Ok(()), Ok(())]);

    assert!(check.is_ready());
    assert!(check.adapter_found());
    assert!(check.missing().is_empty());
    assert!(check.blockers().is_empty());
}

#[test]
fn is_ready_when_every_model_is_there_even_without_an_adapter() {
    let check = SelfCheck::from_checks(false, &vec![Ok(()), Ok(())]);

    assert!(check.is_ready());
    assert!(!check.adapter_found());
    assert!(check.missing().is_empty());
    assert_eq!(
        check.blockers(),
        vec!["no GPU adapter this build can draw on \u{2014} the wall cannot open".to_owned()]
    );
}

#[test]
fn reports_the_missing_adapter_first_and_then_each_missing_model() {
    let missing = ModelError::Missing {
        role: ModelRole::Embedder,
        path: "/m/e.onnx".to_owned(),
    };
    let check = SelfCheck::from_checks(false, &vec![Ok(()), Err(missing.clone())]);

    assert!(!check.is_ready());
    assert_eq!(check.missing(), &[missing.to_string()]);
    assert_eq!(
        check.blockers(),
        vec![
            "no GPU adapter this build can draw on \u{2014} the wall cannot open".to_owned(),
            missing.to_string(),
        ]
    );
}

#[test]
fn reports_every_absent_model_file_when_assessing_the_machine() {
    let models = vec![
        model(ModelRole::Detector, "yunet.onnx"),
        model(ModelRole::Embedder, "dinov2-small.onnx"),
    ];

    let check = SelfCheck::assess(true, &models);

    assert!(!check.is_ready());
    assert!(check.adapter_found());
    assert_eq!(check.missing().len(), 2);
    assert!(check.missing()[0].starts_with("the detector model is missing"));
    assert!(check.missing()[1].contains("/nonexistent/models/dinov2-small.onnx"));
}

#[test]
fn describes_a_model_in_aligned_columns() {
    let spec = model(ModelRole::Embedder, "dinov2-small.onnx");

    assert_eq!(
        describe_line(&spec, false),
        "embedder MISSING /nonexistent/models/dinov2-small.onnx (model id: dinov2-small)"
    );
    assert_eq!(
        describe_line(&spec, true),
        "embedder present /nonexistent/models/dinov2-small.onnx (model id: dinov2-small)"
    );
}

#[test]
fn defaults_to_a_twenty_cell_grid_and_directories_beside_the_config() {
    assert_eq!((default_cols(), default_rows()), (5, 4));
    assert_eq!(default_models_dir(), "models");
    assert_eq!(default_corpus_dir(), "corpus");
}

#[test]
fn resolves_directories_against_the_configuration_file() {
    assert_eq!(config_base("/opt/af/booth.toml"), "/opt/af");
    assert_eq!(config_base("/"), ".");
    assert_eq!(beside("/opt/af", "models"), "/opt/af/models");
    assert_eq!(beside("/opt/af", "/srv/models"), "/srv/models");
}

const DETECTOR: ModelEntry<'static> = ModelEntry {
    file: "face_detection_yunet_2023mar.onnx",
    id: None,
};

const EMBEDDER: ModelEntry<'static> = ModelEntry {
    file: "dinov2-small.onnx",
    id: None,
};

#[test]
fn settles_a_minimal_configuration_beside_its_file() {
    let settings = settle(
        "/opt/af/booth.toml",
        "models",
        "corpus",
        5,
        4,
        None,
        DETECTOR,
        EMBEDDER,
    )
    .expect("valid configuration");

    assert_eq!(settings.models_dir, "/opt/af/models");
    assert_eq!(settings.corpus_dir, "/opt/af/corpus");
    assert_eq!(settings.detector.id().as_str(), "face_detection_yunet_2023mar");
    assert_eq!(settings.embedder.id().as_str(), "dinov2-small");
    assert_eq!(
        settings.detector.path(),
        "/opt/af/models/face_detection_yunet_2023mar.onnx"
    );
    assert_eq!(settings.grid.cell_count(), 20);
    assert_eq!(settings.camera, CameraSelector::Default);
}

#[test]
fn settles_the_configured_camera_and_an_absolute_corpus() {
    let settings = settle(
        "/opt/af/booth.toml",
        "/srv/models",
        "/srv/corpus",
        10,
        2,
        Some(2),
        DETECTOR,
        EMBEDDER,
    )
    .expect("valid configuration");

    assert_eq!(settings.models_dir, "/srv/models");
    assert_eq!(settings.corpus_dir, "/srv/corpus");
    assert_eq!(settings.camera, CameraSelector::Index(2));
    assert_eq!((settings.grid.cols(), settings.grid.rows()), (10, 2));
}

#[test]
fn refuses_a_grid_outside_the_piece_s_range_before_looking_at_models() {
    let blank = ModelEntry { file: "model.onnx", id: Some("  ") };

    assert_eq!(
        settle("/opt/af/booth.toml", "models", "corpus", 3, 3, None, blank, EMBEDDER),
        Err(SettingsError::Grid(GridSpecError::OutOfRange { cells: 9 }))
    );
}

#[test]
fn refuses_a_blank_model_id() {
    let blank = ModelEntry { file: "dinov2-small.onnx", id: Some("   ") };

    assert_eq!(
        settle("/opt/af/booth.toml", "models", "corpus", 5, 4, None, DETECTOR, blank),
        Err(SettingsError::Model(ModelError::EmptyModelId {
            role: ModelRole::Embedder
        }))
    );
}
