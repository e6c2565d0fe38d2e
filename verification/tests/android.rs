use android_kvm::android::{parse_wm_size, AndroidBounds};

#[test]
fn parses_physical_wm_size() {
    assert_eq!(
        parse_wm_size("Physical size: 1080x2400\n"),
        Some(AndroidBounds {
            width: 1080,
            height: 2400,
        }),
    );
}

use android_kvm::android::{AndroidInput, DetectBoundsError};
use android_kvm::command::{adb_command, CommandLine};
use android_kvm::edge::Pointer;

fn strings(words: &[&str]) -> Vec<String> {
    words.iter().map(|w| w.to_string()).collect()
}

#[test]
fn parses_override_size_and_crlf_lines() {
    assert_eq!(
        parse_wm_size("Override size: 720x1280\r\n"),
        Some(AndroidBounds {
            width: 720,
            height: 1280,
        }),
    );
    assert_eq!(
        parse_wm_size("garbage\nPhysical size:\t+1440 x -3\nOverride size: 1x1"),
        Some(AndroidBounds {
            width: 1440,
            height: -3,
        }),
    );
    assert_eq!(
        parse_wm_size("Physical size: axb\nOverride size: 10x20"),
        Some(AndroidBounds {
            width: 10,
            height: 20,
        }),
    );
}

#[test]
fn rejects_malformed_wm_size() {
    assert_eq!(parse_wm_size(""), None);
    assert_eq!(parse_wm_size("Physical size: 1080"), None);
    assert_eq!(parse_wm_size("Physical size: 1080x"), None);
    assert_eq!(parse_wm_size("Physical size: 2147483648x10"), None);
    assert_eq!(parse_wm_size("physical size: 10x10"), None);
    assert_eq!(parse_wm_size(" Physical size: 10x10"), None);
    assert_eq!(parse_wm_size("Physical size: 1 0x10"), None);
}

#[test]
fn wm_size_reads_back_extreme_values() {
    let text = format!("Physical size: {}x{}", i32::MIN, i32::MAX);
    assert_eq!(
        parse_wm_size(&text),
        Some(AndroidBounds {
            width: i32::MIN,
            height: i32::MAX,
        }),
    );
}

#[test]
fn detect_bounds_reports_each_failure() {
    assert_eq!(
        AndroidInput::detect_bounds(false, "Physical size: 1x2"),
        Err(DetectBoundsError::CommandFailed)
    );
    assert_eq!(
        AndroidInput::detect_bounds(true, "no size here"),
        Err(DetectBoundsError::Unparsable)
    );
    assert_eq!(
        AndroidInput::detect_bounds(true, "Physical size: 1x2"),
        Ok(AndroidBounds {
            width: 1,
            height: 2
        })
    );
}

#[test]
fn detect_bounds_command_selects_the_device() {
    assert_eq!(
        AndroidInput::detect_bounds_command("adb", Some("SERIAL")),
        CommandLine {
            program: "adb".to_string(),
            args: strings(&["-s", "SERIAL", "shell", "wm", "size"]),
        }
    );
    assert_eq!(
        adb_command("/bin/adb", None),
        CommandLine {
            program: "/bin/adb".to_string(),
            args: Vec::new(),
        }
    );
}

#[test]
fn move_pointer_clamps_to_the_display() {
    let input = AndroidInput::new(
        "adb".to_string(),
        None,
        AndroidBounds {
            width: 1080,
            height: 2400,
        },
    );
    assert_eq!(
        input.bounds(),
        AndroidBounds {
            width: 1080,
            height: 2400
        }
    );
    assert_eq!(
        input.move_pointer(Pointer { x: -20, y: 5000 }).args,
        strings(&["shell", "input", "mouse", "motionevent", "MOVE", "0", "2399"])
    );
    let input = AndroidInput::new(
        "adb".to_string(),
        Some("dev".to_string()),
        AndroidBounds {
            width: 1080,
            height: 2400,
        },
    );
    assert_eq!(
        input.move_pointer(Pointer { x: 1079, y: 12 }).args,
        strings(&["-s", "dev", "shell", "input", "mouse", "motionevent", "MOVE", "1079", "12"])
    );
}

#[test]
fn undetected_display_falls_back_to_a_phone_size() {
    assert_eq!(
        AndroidInput::bounds_or_fallback(None),
        AndroidBounds {
            width: 1080,
            height: 2400
        }
    );
    assert_eq!(
        AndroidInput::bounds_or_fallback(Some(AndroidBounds { width: 7, height: 9 })),
        AndroidBounds { width: 7, height: 9 }
    );
    assert_eq!(
        AndroidInput::fallback_bounds(),
        AndroidBounds {
            width: 1080,
            height: 2400
        }
    );
}
