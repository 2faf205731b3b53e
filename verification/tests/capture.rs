use aboutface::camera::{classify_message, Camera, CameraError, CameraSelector};
use aboutface::fake_camera::{sample_path, FakeCamera};
use aboutface::frame::{Frame, FrameError, CHANNELS};
use aboutface::shutter::{capture_file_name, Shutter, ShutterError};

/// Writes a small photograph to a file of its own and reads it back the way
/// the application does, as the fake camera's replay entry.
fn photograph(name: &str, colour: [u8; 3]) -> Result<Frame, String> {
    let path = std::path::Path::new("/tmp").join(format!("aboutface-test-{name}"));
    let mut image = image::RgbImage::from_pixel(6, 4, image::Rgb(colour));
    image.put_pixel(0, 0, image::Rgb([colour[2], colour[1], colour[0]]));
    image.save(&path).map_err(|e| e.to_string())?;
    let decoded = image::open(&path).map_err(|e| e.to_string())?.to_rgb8();
    let (width, height) = decoded.dimensions();
    Frame::from_rgb8(width, height, decoded.into_raw()).map_err(|e| format!("{e:?}"))
}

#[test]
fn should_expose_dimensions_when_buffer_matches() {
    let frame = Frame::from_rgb8(2, 3, vec![7; 2 * 3 * 3]).expect("valid frame");

    assert_eq!((frame.width(), frame.height()), (2, 3));
}

#[test]
fn should_reject_frame_when_a_dimension_is_zero() {
    assert_eq!(
        Frame::from_rgb8(0, 3, vec![]),
        Err(FrameError::ZeroDimension {
            width: 0,
            height: 3
        })
    );
}

#[test]
fn should_reject_frame_when_buffer_length_disagrees_with_dimensions() {
    assert_eq!(
        Frame::from_rgb8(2, 2, vec![0; 10]),
        Err(FrameError::SizeMismatch {
            width: 2,
            height: 2,
            expected: 12,
            actual: 10,
        })
    );
}

#[test]
fn should_be_object_safe_so_the_backend_can_be_chosen_at_runtime() {
    let mut camera: Box<dyn Camera> = Box::new(FakeCamera::still(2, 2));
    camera.open().expect("fake camera opens");

    assert_eq!(camera.grab().expect("a frame").width(), 2);
}

#[test]
fn should_render_selector_readably_when_reported_as_not_found() {
    let error = CameraError::NotFound {
        requested: CameraSelector::Index(3),
    };

    assert_eq!(error.to_string(), "no camera matching camera index 3");
}

fn classified(message: &str) -> CameraError {
    classify_message(message.to_owned(), "open", &CameraSelector::Default, "FaceTime HD")
}

#[test]
fn should_report_busy_when_the_platform_says_the_device_is_in_use() {
    let error = classified("Could not open device /dev/video0: Device or resource busy");

    assert!(matches!(error, CameraError::Busy { .. }), "{}", error.to_string());
}

#[test]
fn should_report_permission_denied_when_the_platform_says_access_was_refused() {
    let error = classified("Could not open device /dev/video0: Permission denied");

    assert!(
        matches!(error, CameraError::PermissionDenied { .. }),
        "{}",
        error.to_string()
    );
}

#[test]
fn should_report_not_found_when_the_platform_says_there_is_no_such_device() {
    let error = classified("Could not open device /dev/video9: No such file or directory");

    assert!(matches!(error, CameraError::NotFound { .. }), "{}", error.to_string());
}

#[test]
fn should_fall_back_to_the_backend_error_when_the_message_is_unrecognised() {
    let error = classified("Error: something new");

    assert!(matches!(error, CameraError::Backend { .. }), "{}", error.to_string());
}

#[test]
fn classifies_busy_before_refused_when_a_message_says_both() {
    let error = classified("DEVICE BUSY: permission denied");

    assert!(matches!(error, CameraError::Busy { .. }));
}

#[test]
fn should_refuse_to_grab_when_not_opened() {
    let mut camera = FakeCamera::still(2, 2);

    assert!(matches!(camera.grab(), Err(CameraError::NotOpen)));
}

#[test]
fn should_replay_a_photograph_from_disk_when_opened() {
    let mut camera = FakeCamera::replaying(vec![photograph("1.png", [200, 120, 90])]);
    camera.open().expect("fake camera opens");

    let frame = camera.grab().expect("a decoded frame");

    assert_eq!(
        frame.pixels().len(),
        frame.width() as usize * frame.height() as usize * CHANNELS
    );
}

#[test]
fn should_cycle_through_the_replay_list_when_it_runs_out() {
    let mut camera = FakeCamera::replaying(vec![
        photograph("1-cycle.png", [200, 120, 90]),
        photograph("2-cycle.png", [30, 60, 240]),
    ]);
    camera.open().expect("fake camera opens");

    let first = camera.grab().expect("frame one");
    let second = camera.grab().expect("frame two");
    let third = camera.grab().expect("frame three");

    assert_ne!(first, second, "the samples are different photographs");
    assert_eq!(first, third, "replay wraps back to the first file");
}

#[test]
fn should_report_the_scripted_error_when_opening_fails() {
    let mut camera = FakeCamera::failing_to_open(CameraError::NotFound {
        requested: CameraSelector::Index(9),
    });

    assert!(matches!(camera.open(), Err(CameraError::NotFound { .. })));
}

#[test]
fn keeps_refusing_to_open_when_asked_again() {
    let mut camera = FakeCamera::failing_to_open(CameraError::NotFound {
        requested: CameraSelector::Index(9),
    });

    assert!(camera.open().is_err());
    assert!(matches!(
        camera.open(),
        Err(CameraError::NotFound { requested: CameraSelector::Index(9) })
    ));
    assert!(!camera.is_open());
}

#[test]
fn stays_open_and_keeps_reporting_a_disconnection_that_has_come_due() {
    let mut camera = FakeCamera::still(2, 2).disconnecting_after(1);
    camera.open().expect("fake camera opens");
    camera.grab().expect("the one budgeted frame");

    assert!(matches!(camera.grab(), Err(CameraError::Disconnected { .. })));
    assert!(camera.is_open(), "close has not run");
    assert!(matches!(camera.grab(), Err(CameraError::Disconnected { .. })));
    assert_eq!(camera.grabs(), 1);
}

#[test]
fn counts_only_the_frames_it_hands_out() {
    let mut camera = FakeCamera::still(2, 2).with_warmup_frames(3).disconnecting_after(2);
    assert!(camera.grab().is_err(), "not open yet");
    camera.open().expect("fake camera opens");
    assert_eq!(camera.grabs(), 0, "warm-up frames are not handed out");
    camera.grab().expect("first frame");
    camera.grab().expect("second frame");
    assert!(camera.grab().is_err(), "disconnected");
    camera.close().expect("close never fails");
    assert!(camera.grab().is_err(), "closed");
    assert_eq!(camera.grabs(), 2);
}

#[test]
fn should_report_disconnection_when_the_scripted_frame_budget_is_spent() {
    let mut camera = FakeCamera::still(2, 2).disconnecting_after(1);
    camera.open().expect("fake camera opens");
    camera.grab().expect("the one budgeted frame");

    assert!(matches!(
        camera.grab(),
        Err(CameraError::Disconnected { .. })
    ));
}

#[test]
fn should_report_closed_when_closed() {
    let mut camera = FakeCamera::still(2, 2);
    camera.open().expect("fake camera opens");
    camera.close().expect("close never fails");

    assert!(!camera.is_open());
}

#[test]
fn reports_an_unreadable_photograph_as_a_backend_failure() {
    let mut camera = FakeCamera::replaying(vec![Err("not an image".to_owned())]);
    camera.open().expect("fake camera opens");

    assert!(matches!(camera.grab(), Err(CameraError::Backend { .. })));
}

#[test]
fn hands_out_black_frames_while_the_sensor_settles() {
    let mut camera = FakeCamera::still(2, 2).with_black_frames(1);
    camera.open().expect("fake camera opens");

    let first = camera.grab().expect("a settling frame");
    let second = camera.grab().expect("a settled frame");

    assert!(first.pixels().iter().all(|&b| b == 0));
    assert!(second.pixels().iter().all(|&b| b == 128));
    assert_eq!(camera.grabs(), 2);
}

#[test]
fn names_sample_photographs_under_the_repository_samples_directory() {
    assert_eq!(sample_path("/repo", "1.jpg"), "/repo/samples/1.jpg");
}

fn shutter_over(camera: FakeCamera) -> Shutter<FakeCamera> {
    Shutter::new(camera, "/tmp/aboutface-test-shutter/captures".to_owned())
}

#[test]
fn should_hand_back_one_frame_without_writing_it_when_exposed() {
    let mut shutter = shutter_over(FakeCamera::replaying(vec![photograph("1-expose.png", [10, 20, 30])]));
    shutter.open().expect("camera opens");

    let frame = shutter.expose().expect("a frame");

    assert_eq!(shutter.camera().grabs(), 1);
    assert!(frame.width() > 0);
    let written = std::path::Path::new(shutter.directory().expect("a directory")).exists();
    assert!(
        !written,
        "an exposure the booth stores itself must leave no second copy"
    );
}

#[test]
fn should_refuse_to_press_when_the_shutter_only_exposes() {
    let mut shutter = Shutter::over(FakeCamera::still(4, 4));
    shutter.open().expect("camera opens");

    assert!(matches!(shutter.press_directory(), Err(ShutterError::NoDirectory)));
}

#[test]
fn refuses_a_press_before_grabbing_when_the_shutter_only_exposes() {
    let mut shutter = Shutter::over(FakeCamera::still(4, 4));
    shutter.open().expect("camera opens");

    assert!(matches!(shutter.expose_for_press(), Err(ShutterError::NoDirectory)));
    assert_eq!(shutter.camera().grabs(), 0, "a refused press costs no exposure");
}

#[test]
fn hands_back_the_directory_and_one_frame_for_a_press() {
    let mut shutter = shutter_over(FakeCamera::still(4, 4));
    shutter.open().expect("camera opens");

    let (directory, frame) = shutter.expose_for_press().expect("one frame");
    assert_eq!(directory, "/tmp/aboutface-test-shutter/captures");
    assert_eq!((frame.width(), frame.height()), (4, 4));
    assert_eq!(shutter.camera().grabs(), 1);
}

#[test]
fn passes_the_camera_failure_through_when_a_press_finds_it_closed() {
    let mut shutter = shutter_over(FakeCamera::still(4, 4));

    assert!(matches!(
        shutter.expose_for_press(),
        Err(ShutterError::Camera(CameraError::NotOpen))
    ));
}

#[test]
fn should_report_camera_absence_when_opening_without_a_camera() {
    let mut shutter = shutter_over(FakeCamera::failing_to_open(CameraError::NotFound {
        requested: CameraSelector::Default,
    }));

    assert!(matches!(
        shutter.open(),
        Err(ShutterError::Camera(CameraError::NotFound { .. }))
    ));
}

#[test]
fn should_report_a_busy_camera_distinctly_from_an_absent_one() {
    let mut shutter = shutter_over(FakeCamera::failing_to_open(CameraError::Busy {
        device: "FaceTime HD".to_owned(),
        message: "Device or resource busy".to_owned(),
    }));

    assert!(matches!(
        shutter.open(),
        Err(ShutterError::Camera(CameraError::Busy { .. }))
    ));
}

#[test]
fn should_order_capture_names_by_press_when_the_clock_does_not_tick() {
    let now = 0;

    assert!(capture_file_name(now, 0) < capture_file_name(now, 1));
}

#[test]
fn orders_capture_names_by_millisecond_and_then_by_sequence() {
    assert!(capture_file_name(999, 9_999) < capture_file_name(1_000, 0));
    assert!(capture_file_name(1_755_000_000_123, 41) < capture_file_name(1_755_000_000_123, 42));
    assert!(capture_file_name(9_999_999_999_998, 0) < capture_file_name(9_999_999_999_999, 0));
}

#[test]
fn names_a_capture_by_its_millisecond_and_sequence() {
    assert_eq!(
        capture_file_name(1_755_000_000_123, 7),
        "capture-1755000000123-0007.png"
    );
}

#[test]
fn numbers_each_press_when_the_shutter_names_captures() {
    let mut shutter = shutter_over(FakeCamera::still(2, 2));

    let first = shutter.take_capture_name(5);
    let second = shutter.take_capture_name(5);

    assert_eq!(first, "capture-0000000000005-0000.png");
    assert_eq!(second, "capture-0000000000005-0001.png");
}
