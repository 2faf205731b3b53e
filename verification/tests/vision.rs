use aboutface::model::{derive_model_id, trim, ModelError, ModelId, ModelRole, ModelSpec};
use aboutface::provider::{preference, select_execution_provider, ExecutionProviderKind};
use aboutface::vision::{
    check_detector_outputs, check_head, same_width, summary_width,
    detector_input_size, embedder_input_size, FaceCountError, Faces, GraphError,
    DETECTOR_INPUT_SIZE, EMBEDDER_INPUT_SIZE, PATCH_SIZE,
};

#[test]
fn should_derive_model_id_from_file_stem_when_config_names_none() {
    let spec = ModelSpec::new(ModelRole::Embedder, "models", "dinov2-small.onnx", None)
        .expect("valid spec");

    assert_eq!(spec.id().as_str(), "dinov2-small");
}

#[test]
fn should_change_model_id_when_vit_size_changes() {
    let small = ModelSpec::new(ModelRole::Embedder, "models", "dinov2-small.onnx", None)
        .expect("valid spec");
    let large = ModelSpec::new(ModelRole::Embedder, "models", "dinov2-large.onnx", None)
        .expect("valid spec");

    assert_ne!(small.id(), large.id());
}

#[test]
fn should_prefer_configured_model_id_when_one_is_given() {
    let spec = ModelSpec::new(
        ModelRole::Embedder,
        "models",
        "model.onnx",
        Some("dinov2-vitb14"),
    )
    .expect("valid spec");

    assert_eq!(spec.id().as_str(), "dinov2-vitb14");
}

#[test]
fn should_trim_configured_model_id_when_it_has_surrounding_space() {
    let spec = ModelSpec::new(
        ModelRole::Detector,
        "models",
        "model.onnx",
        Some("  yunet-2023mar  "),
    )
    .expect("valid spec");

    assert_eq!(spec.id().as_str(), "yunet-2023mar");
}

#[test]
fn should_reject_blank_model_id_when_config_gives_one() {
    let error = ModelSpec::new(ModelRole::Detector, "models", "model.onnx", Some("   "))
        .expect_err("blank id");

    assert_eq!(
        error,
        ModelError::EmptyModelId {
            role: ModelRole::Detector
        }
    );
}

#[test]
fn should_reject_file_name_when_it_has_no_stem() {
    let error = ModelSpec::new(ModelRole::Detector, "models", "..", None).expect_err("no stem");

    assert!(matches!(error, ModelError::UnnamedFile { .. }));
}

#[test]
fn should_resolve_relative_file_against_the_models_dir() {
    let spec = ModelSpec::new(ModelRole::Detector, "/opt/af/models", "yunet.onnx", None)
        .expect("valid spec");

    assert_eq!(spec.path(), "/opt/af/models/yunet.onnx");
}

#[test]
fn should_keep_absolute_file_when_config_gives_one() {
    let spec = ModelSpec::new(
        ModelRole::Detector,
        "/opt/af/models",
        "/srv/shared/yunet.onnx",
        None,
    )
    .expect("valid spec");

    assert_eq!(spec.path(), "/srv/shared/yunet.onnx");
}

#[test]
fn should_report_missing_when_the_onnx_file_is_absent() {
    let spec = ModelSpec::new(
        ModelRole::Embedder,
        "/nonexistent",
        "dinov2-small.onnx",
        None,
    )
    .expect("valid spec");

    assert!(!spec.exists_on_disk());
    let error = spec.ensure_present().expect_err("absent file");
    let message = error.to_string();
    assert!(
        message.contains("docs/models.md"),
        "message must say how to fix it, got: {message}"
    );
}

#[test]
fn should_report_present_when_the_file_is_on_disk() {
    // Any file on disk will do; this test is about presence, not contents.
    let spec = ModelSpec::new(ModelRole::Embedder, "/etc", "passwd", None).expect("valid spec");

    assert!(spec.exists_on_disk());
    assert!(spec.ensure_present().is_ok());
}

#[test]
fn words_each_model_error_for_the_operator() {
    assert_eq!(
        ModelError::EmptyModelId { role: ModelRole::Embedder }.to_string(),
        "the embedder model id is empty; remove it to derive one from the file name"
    );
    assert_eq!(
        ModelError::UnnamedFile { role: ModelRole::Detector, path: "..".to_owned() }.to_string(),
        "the detector model file name \"..\" has no stem to derive a model id from"
    );
    assert_eq!(
        ModelError::UnnamedFile { role: ModelRole::Embedder, path: "it's/\" .onnx".to_owned() }
            .to_string(),
        "the embedder model file name \"it's/\\\" .onnx\" has no stem to derive a model id from"
    );
    assert_eq!(
        ModelError::Missing { role: ModelRole::Detector, path: "/m/y.onnx".to_owned() }.to_string(),
        "the detector model is missing: /m/y.onnx does not exist \u{2014} fetch it with `scripts/fetch-models.sh` (see docs/models.md)"
    );
}

#[test]
fn derives_an_identifier_from_the_last_extension_only() {
    assert_eq!(
        derive_model_id(ModelRole::Embedder, "nested/dinov2.small.onnx").expect("a stem").as_str(),
        "dinov2.small"
    );
    assert_eq!(ModelId::new("x").as_str(), "x");
}

#[test]
fn trims_white_space_at_both_ends_only() {
    assert_eq!(trim("\t  a b \n"), "a b");
    assert_eq!(trim("   "), "");
    assert_eq!(trim("\u{3000}\u{a0}id\u{2009}\u{85}"), "id");
    assert_eq!(trim("\u{200b}id"), "\u{200b}id");
    assert_eq!(ModelRole::Detector.as_str(), "detector");
}

#[test]
fn should_always_offer_cpu_when_no_accelerator_exists() {
    assert!(ExecutionProviderKind::Cpu.is_available(false));
    assert!(ExecutionProviderKind::Cpu.is_available(true));
}

#[test]
fn should_end_the_preference_order_with_cpu() {
    assert_eq!(preference().last(), Some(&ExecutionProviderKind::Cpu));
}

#[test]
fn should_select_an_available_provider_when_asked() {
    for coreml_available in [false, true] {
        let selected = select_execution_provider(coreml_available);
        assert!(
            selected.is_available(coreml_available),
            "selected {selected:?} is unavailable"
        );
    }
}

#[test]
fn selects_the_cpu_on_a_machine_without_coreml() {
    assert_eq!(select_execution_provider(false), ExecutionProviderKind::Cpu);
    assert!(!ExecutionProviderKind::CoreMl.is_available(false));
}

#[test]
fn selects_coreml_on_a_machine_that_has_it() {
    assert_eq!(select_execution_provider(true), ExecutionProviderKind::CoreMl);
    assert!(ExecutionProviderKind::CoreMl.is_available(true));
}

#[test]
fn should_take_the_declared_side_when_the_graph_fixes_a_square_input() {
    assert_eq!(embedder_input_size(Some(&[1, 3, 518, 518])).unwrap(), 518);
}

#[test]
fn should_fall_back_to_the_default_side_when_the_graph_is_dynamic() {
    assert_eq!(
        embedder_input_size(Some(&[-1, 3, -1, -1])).unwrap(),
        EMBEDDER_INPUT_SIZE
    );
    assert_eq!(embedder_input_size(None).unwrap(), EMBEDDER_INPUT_SIZE);
}

#[test]
fn should_accept_the_graph_when_even_its_channel_count_is_symbolic() {
    assert_eq!(
        embedder_input_size(Some(&[-1, -1, -1, -1])).unwrap(),
        EMBEDDER_INPUT_SIZE
    );
}

#[test]
fn should_reject_the_graph_when_it_fixes_a_channel_count_that_is_not_rgb() {
    let error = embedder_input_size(Some(&[1, 1, 224, 224])).expect_err("greyscale input");

    assert!(matches!(error, GraphError::UnexpectedGraph { .. }), "{error:?}");
}

#[test]
fn should_reject_the_graph_when_its_input_is_not_square() {
    let error = embedder_input_size(Some(&[1, 3, 224, 168])).expect_err("rectangular input");

    assert!(matches!(error, GraphError::UnexpectedGraph { .. }), "{error:?}");
}

#[test]
fn should_reject_the_graph_when_its_input_is_not_an_image_tensor() {
    let error = embedder_input_size(Some(&[1, 224, 224])).expect_err("wrong rank");

    assert!(matches!(error, GraphError::UnexpectedGraph { .. }), "{error:?}");
}

#[test]
fn should_reject_the_graph_when_its_input_is_not_a_whole_number_of_patches() {
    let error = embedder_input_size(Some(&[1, 3, 225, 225])).expect_err("ragged input");

    assert!(matches!(error, GraphError::UnexpectedGraph { .. }), "{error:?}");
}

#[test]
fn should_keep_the_default_input_a_whole_number_of_patches() {
    assert!(EMBEDDER_INPUT_SIZE.is_multiple_of(PATCH_SIZE));
}

#[test]
fn explains_why_a_graph_shape_is_refused() {
    assert_eq!(
        embedder_input_size(Some(&[1, 224, 224])),
        Err(GraphError::UnexpectedGraph {
            detail: "input shape is [1, 224, 224], expected [1, 3, size, size]".to_owned()
        })
    );
    assert_eq!(
        embedder_input_size(Some(&[1, 3, 224, 168])),
        Err(GraphError::UnexpectedGraph {
            detail: "input is 168x224; a square input is expected".to_owned()
        })
    );
    assert_eq!(
        embedder_input_size(Some(&[1, 3, 225, 225])),
        Err(GraphError::UnexpectedGraph {
            detail: "input side 225 is not a whole number of 14px patches".to_owned()
        })
    );
}

#[test]
fn takes_the_detector_side_from_a_fixed_square_graph() {
    assert_eq!(detector_input_size(Some(&[1, 3, 640, 640])), Ok(640));
    assert_eq!(detector_input_size(Some(&[1, 3, -1, -1])), Ok(DETECTOR_INPUT_SIZE));
    assert_eq!(detector_input_size(None), Ok(DETECTOR_INPUT_SIZE));
    assert!(detector_input_size(Some(&[-1, -1, 640, 640])).is_err());
    assert!(detector_input_size(Some(&[1, 3, 480, 640])).is_err());
}

#[test]
fn should_report_no_face_when_nothing_was_detected() {
    assert_eq!(Faces::<u32>::from_ranked(Vec::new()), Faces::Nobody);
}

#[test]
fn should_report_one_face_when_exactly_one_was_detected() {
    let faces = Faces::from_ranked(vec![7u32]);

    assert!(matches!(faces, Faces::One(_)));
    assert_eq!(faces.count(), 1);
}

#[test]
fn should_refuse_to_pick_a_face_when_the_frame_holds_more_than_one() {
    let faces = Faces::from_ranked(vec![9u32, 8]);

    assert_eq!(
        faces.into_sole(),
        Err(FaceCountError::SeveralFaces { count: 2 })
    );
}

#[test]
fn should_refuse_to_pick_a_face_when_the_frame_holds_none() {
    assert_eq!(Faces::<u32>::Nobody.into_sole(), Err(FaceCountError::NoFace));
}

#[test]
fn should_hand_back_the_face_when_there_is_exactly_one() {
    let faces = Faces::from_ranked(vec![3u32]);

    let face = faces.into_sole().expect("one face");

    assert_eq!(face, 3);
}

#[test]
fn lists_every_detection_in_rank_order() {
    assert_eq!(Faces::from_ranked(vec![9u32, 7, 5]).detections(), &[9, 7, 5]);
    assert_eq!(Faces::from_ranked(vec![4u32]).detections(), &[4]);
    assert_eq!(Faces::<u32>::Nobody.detections(), &[] as &[u32]);
}

#[test]
fn words_a_face_count_refusal() {
    assert_eq!(FaceCountError::NoFace.to_string(), "no face in the frame");
    assert_eq!(
        FaceCountError::SeveralFaces { count: 3 }.to_string(),
        "3 faces in the frame; which one the Capture belongs to is not decided here"
    );
}

#[test]
fn should_reject_a_head_when_a_tensor_is_shorter_than_its_grid() {
    let cells = 20 * 20;
    let error = check_head(32, 20, [cells, cells, cells * 4, 10]).expect_err("short tensor");

    assert!(matches!(error, GraphError::UnexpectedGraph { .. }), "{error:?}");
    assert_eq!(
        error,
        GraphError::UnexpectedGraph {
            detail: "output kps_32 holds 10 values, expected 4000 for a 20x20 grid".to_owned()
        }
    );
}

#[test]
fn should_accept_a_head_when_every_tensor_covers_its_grid() {
    let cells = 20 * 20;

    assert!(check_head(32, 20, [cells, cells, cells * 4, cells * 10]).is_ok());
}

#[test]
fn names_the_first_head_output_a_graph_lacks() {
    let mut names: Vec<String> = Vec::new();
    for stride in [8, 16, 32] {
        for part in ["cls", "obj", "bbox", "kps"] {
            names.push(format!("{part}_{stride}"));
        }
    }
    assert_eq!(check_detector_outputs(&names), Ok(()));

    names.retain(|name| name != "bbox_16");
    assert_eq!(
        check_detector_outputs(&names),
        Err(GraphError::UnexpectedGraph {
            detail: "no output named bbox_16".to_owned()
        })
    );
}

#[test]
fn reads_the_embedding_width_off_the_summary_token() {
    assert_eq!(summary_width(&[1, 257, 384], 257 * 384), Ok(384));
    assert_eq!(
        summary_width(&[1, 384], 384),
        Err(GraphError::UnexpectedGraph {
            detail: "output shape is [1, 384], expected [1, tokens, width]".to_owned()
        })
    );
    assert_eq!(
        summary_width(&[1, 1, 384], 100),
        Err(GraphError::UnexpectedGraph {
            detail: "output holds 100 values, too few for a 384-wide token".to_owned()
        })
    );
}

#[test]
fn refuses_an_embedding_whose_width_changed_since_opening() {
    assert_eq!(same_width(384, 384), Ok(()));
    assert_eq!(
        same_width(768, 384),
        Err(GraphError::UnexpectedGraph {
            detail: "the graph produced 768 dimensions, having produced 384 when it was opened"
                .to_owned()
        })
    );
}
