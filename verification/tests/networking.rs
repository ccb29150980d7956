//! Tests of the upload-session model, the response markers and the URL
//! paths.

use security_cam_client::motiondetection::Frame;
use security_cam_client::networking::Client;
use security_cam_client::networking::TransferAction;
use security_cam_client::networking::check_login_response;
use security_cam_client::networking::check_logout_response;
use security_cam_client::networking::frame_range_filenames;
use security_cam_client::networking::frame_range_path;
use security_cam_client::networking::upload_path;
use security_cam_client::textops::str_contains;
use security_cam_client::textops::u64_to_string;
use security_cam_client::textops::usize_to_string;

fn frame(video_num: usize, bytes: Vec<u8>, end: bool) -> Frame {
    Frame { video_num, frame_bytes: bytes, fps: 10, end }
}

fn client() -> Client {
    Client::new(
        "http://127.0.0.1:8000".to_string(),
        "admin".to_string(),
        "pass".to_string(),
    )
}

#[test]
fn test_login_marker_decides_success() {
    assert!(check_login_response("<a href=\"/logout\">Logout</a>").is_ok());
    assert!(check_login_response("please Login again").is_err());
    assert_eq!(
        check_login_response("wrong password").unwrap_err(),
        "login failed"
    );
    assert!(check_login_response("").is_err());
}

#[test]
fn test_logout_marker_decides_success() {
    assert!(check_logout_response("<a href=\"/login\">Login</a>").is_ok());
    assert!(check_logout_response("still Logged in? Logout").is_err());
    assert_eq!(check_logout_response("oops").unwrap_err(), "logout failed");
}

#[test]
fn test_str_contains_edges() {
    assert!(str_contains("anything", ""));
    assert!(!str_contains("ab", "abc"));
    assert!(str_contains("abc", "abc"));
    assert!(str_contains("xxabcxx", "abc"));
    assert!(!str_contains("xxabXcxx", "abc"));
}

#[test]
fn test_decimal_strings() {
    assert_eq!(u64_to_string(0), "0");
    assert_eq!(u64_to_string(10), "10");
    assert_eq!(u64_to_string(65535), "65535");
    assert_eq!(u64_to_string(18446744073709551615), "18446744073709551615");
    assert_eq!(usize_to_string(409), "409");
}

#[test]
fn test_upload_path() {
    assert_eq!(upload_path(1, 25, 4096), "upload/1/25/4096");
    assert_eq!(upload_path(0, 0, 0), "upload/0/0/0");
}

#[test]
fn test_frame_range_path() {
    assert_eq!(frame_range_path(2, 10, 25), "new_video_ffmpeg/2/e/10/25/");
}

#[test]
fn test_frame_range_filenames() {
    let names = frame_range_filenames(3, 4);
    assert_eq!(names.len(), 4);
    assert_eq!(names[0], "video_frames/3.0.jpg");
    assert_eq!(names[3], "video_frames/3.3.jpg");
}

/// Feeding N frames and an end frame creates exactly one upload task and
/// hands it all N+1 payloads; the close-and-drain steps clear both the
/// sender and the task handle.
#[test]
fn test_transfer_lifecycle() {
    let mut c = client();
    assert!(!c.tx_open && !c.task_open);

    let first = c.send_frame_framereader(frame(0, vec![1, 2, 3], false));
    match first {
        TransferAction::Begin { video_num, fps, frame_len, payload } => {
            assert_eq!(video_num, 0);
            assert_eq!(fps, 10);
            assert_eq!(frame_len, 3);
            assert_eq!(payload, vec![1, 2, 3]);
        }
        _ => panic!("the first frame must begin the transfer"),
    }
    assert!(c.tx_open && c.task_open);
    assert_eq!(c.tasks_started, 1);

    for k in 0..3u8 {
        let a = c.send_frame_framereader(frame(0, vec![k], false));
        match a {
            TransferAction::Feed { payload } => assert_eq!(payload, vec![k]),
            _ => panic!("later frames must feed the open channel"),
        }
    }
    let a = c.send_frame_framereader(frame(0, vec![9], true));
    assert!(matches!(a, TransferAction::Feed { .. }));
    assert_eq!(c.tasks_started, 1);
    assert_eq!(c.frames_fed, 5);

    // the end frame has been fed: drop the sender, then drain the task
    assert!(c.close_feed());
    assert!(!c.tx_open);
    assert!(c.take_task());
    assert!(!c.task_open);
    assert!(!c.close_feed());
}

/// A failed push clears the sender and the task handle completely, and
/// the next recording then starts a fresh transfer.
#[test]
fn test_push_failure_resets_state() {
    let mut c = client();
    c.send_frame_framereader(frame(0, vec![1], false));
    c.send_frame_framereader(frame(0, vec![2], false));
    assert!(c.tx_open && c.task_open);

    // the push of the second frame failed: the receiver is gone
    c.reset_transfer();
    assert!(!c.tx_open);
    assert!(!c.task_open);
    assert_eq!(c.frames_fed, 0);

    // the next recording begins cleanly with a new task
    let a = c.send_frame_framereader(frame(1, vec![7], false));
    assert!(matches!(a, TransferAction::Begin { video_num: 1, .. }));
    assert_eq!(c.tasks_started, 2);
    assert_eq!(c.frames_fed, 1);
}

#[test]
fn test_client_new_holds_credentials() {
    let c = client();
    assert_eq!(c.addr, "http://127.0.0.1:8000");
    assert_eq!(c.username, "admin");
    assert_eq!(c.password, "pass");
    assert_eq!(c.tasks_started, 0);
    assert_eq!(c.frames_fed, 0);
}
