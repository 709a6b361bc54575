use ascii_webcam::camera::{
    camera_error_message, format_msg, FormatChoice, Frame, OpenAction, OpenPlan, Strategy,
};

const HEAD: &str = "Could not open camera.\n";

#[test]
fn missing_device_hint() {
    assert_eq!(
        camera_error_message("Os { code: 2, kind: NotFound, message: \"No such file or directory\" }"),
        format!("{HEAD}No camera detected. Is one connected?\nOs {{ code: 2, kind: NotFound, message: \"No such file or directory\" }}")
    );
    assert_eq!(
        camera_error_message("V4L2 error"),
        format!("{HEAD}No camera detected. Is one connected?\nV4L2 error")
    );
}

#[test]
fn permission_hint() {
    for detail in ["Permission denied", "no authorization", "Not authorized to capture"] {
        assert_eq!(
            camera_error_message(detail),
            format!("{HEAD}Check camera permissions.\n{detail}")
        );
    }
}

#[test]
fn locked_camera_hint() {
    for detail in ["lockForConfiguration failed", "Lock Rejected"] {
        assert_eq!(
            camera_error_message(detail),
            format!("{HEAD}Camera is locked by another app. Close other apps using the camera (FaceTime, Zoom, Photo Booth, etc.) and try again.\n{detail}")
        );
    }
}

#[test]
fn no_hint() {
    assert_eq!(camera_error_message("busy"), format!("{HEAD}busy"));
    assert_eq!(camera_error_message(""), HEAD.to_string());
    // matching is case-sensitive and needs the whole word
    assert_eq!(camera_error_message("permission V4L"), format!("{HEAD}permission V4L"));
}

#[test]
fn first_matching_hint_wins() {
    assert_eq!(
        camera_error_message("Permission: No such file"),
        format!("{HEAD}No camera detected. Is one connected?\nPermission: No such file")
    );
}

#[test]
fn format_msg_uses_pretty_debug_text() {
    assert_eq!(
        format_msg("No such file"),
        format!("{HEAD}No camera detected. Is one connected?\n\"No such file\"")
    );
    #[derive(Debug)]
    struct Failure {
        reason: u32,
    }
    assert_eq!(
        format_msg(Failure { reason: 7 }),
        format!("{HEAD}Failure {{\n    reason: 7,\n}}")
    );
}

#[test]
fn open_plan_tries_every_format_in_order() {
    let mut plan = OpenPlan::new();
    let expected = [
        Strategy { yuyv: false, choice: FormatChoice::Any },
        Strategy { yuyv: false, choice: FormatChoice::HighestResolution },
        Strategy { yuyv: false, choice: FormatChoice::HighestFrameRate },
        Strategy { yuyv: true, choice: FormatChoice::Any },
    ];
    let mut failure = None;
    for (k, want) in expected.iter().enumerate() {
        match plan.step(failure) {
            OpenAction::Try(s) => assert_eq!(s, *want),
            OpenAction::GiveUp(_) => panic!("gave up early"),
        }
        failure = Some(format!("error {k}"));
    }
    match plan.step(failure) {
        OpenAction::GiveUp(e) => assert_eq!(e, "error 3"),
        OpenAction::Try(_) => panic!("tried a fifth way"),
    }
    assert_eq!(plan.tried, 4);
}

#[test]
fn frames_hold_rgb_rows() {
    let f = Frame { rgb: vec![1, 2, 3, 4, 5, 6], width: 2, height: 1 };
    assert_eq!(f.rgb.len() as u32, f.width * f.height * 3);
}
