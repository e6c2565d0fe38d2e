use android_kvm::scrcpy_control::{
    split_motion, ScrcpyControl, HID_ID_MOUSE, MOUSE_REPORT_DESC, TYPE_UHID_CREATE,
    TYPE_UHID_INPUT,
};

#[test]
fn serializes_mouse_create_message() {
    let mut control = ScrcpyControl::new(Vec::new());
    control.create_mouse();
    let out = control.take_output();

    assert_eq!(out[0], TYPE_UHID_CREATE);
    assert_eq!(&out[1..3], &HID_ID_MOUSE.to_be_bytes());
    assert_eq!(&out[8..10], &(MOUSE_REPORT_DESC.len() as u16).to_be_bytes());
    assert_eq!(&out[10..], MOUSE_REPORT_DESC);
}

#[test]
fn serializes_mouse_motion_input_message() {
    let mut control = ScrcpyControl::new(Vec::new());
    control.move_mouse(5, -4);
    let out = control.take_output();

    assert_eq!(
        out,
        vec![
            TYPE_UHID_INPUT,
            0,
            HID_ID_MOUSE as u8,
            0,
            5,
            0,
            5,
            252,
            0,
            0
        ]
    );
}

#[test]
fn splits_large_motion() {
    let parts = split_motion(300, -300);

    assert!(parts.len() > 1);
    assert_eq!(parts.iter().map(|(x, _)| *x as i32).sum::<i32>(), 300);
    assert_eq!(parts.iter().map(|(_, y)| *y as i32).sum::<i32>(), -300);
}

use android_kvm::scrcpy_control::{
    can_split_motion, reverse_command, reverse_remove_command, scrcpy_version,
    scrcpy_version_command, server_push_command, server_start_command, socket_name, write_u16,
    choose_server_path, scid_from_random, VersionError, TYPE_UHID_DESTROY,
};

fn strings(words: &[&str]) -> Vec<String> {
    words.iter().map(|w| w.to_string()).collect()
}

#[test]
fn small_motion_is_one_step() {
    assert_eq!(split_motion(5, -4), vec![(5, -4)]);
    assert_eq!(split_motion(0, 0), vec![(0, 0)]);
    assert_eq!(split_motion(-127, 127), vec![(-127, 127)]);
}

#[test]
fn even_motion_splits_into_equal_steps() {
    assert_eq!(split_motion(254, 0), vec![(127, 0), (127, 0)]);
    assert_eq!(split_motion(300, -300), vec![(100, -100); 3]);
}

#[test]
fn uneven_motion_loses_nothing() {
    assert_eq!(
        split_motion(6, 400),
        vec![(1, 100), (1, 100), (2, 100), (2, 100)]
    );
    let parts = split_motion(-2998, 0);
    assert_eq!(parts.len(), 24);
    assert_eq!(parts.iter().map(|(x, _)| *x as i32).sum::<i32>(), -2998);
    assert!(parts.iter().all(|(x, y)| (-127..=127).contains(x) && *y == 0));
    for (dx, dy) in [(500_000, -499_999), (-1, 128), (255, -254), (12_345, 678)] {
        let parts = split_motion(dx, dy);
        assert_eq!(parts.iter().map(|(x, _)| *x as i32).sum::<i32>(), dx);
        assert_eq!(parts.iter().map(|(_, y)| *y as i32).sum::<i32>(), dy);
    }
}

#[test]
fn motion_overflow_check() {
    assert!(can_split_motion(300, -300));
    assert!(can_split_motion(i32::MAX - 126 - 100_000_000, 0) == false);
    assert!(can_split_motion(500_000, 0));
    assert!(!can_split_motion(600_000, 0));
    assert!(!can_split_motion(i32::MIN, 0));
}

#[test]
fn motion_messages_are_framed_per_step() {
    let mut control = ScrcpyControl::new(vec![9]);
    control.move_mouse(300, -300);
    assert_eq!(control.output().len(), 1 + 30);
    let out = control.take_output();
    assert_eq!(out[0], 9);
    for k in 0..3 {
        let msg = &out[1 + 10 * k..1 + 10 * k + 10];
        assert_eq!(msg, &[TYPE_UHID_INPUT, 0, 2, 0, 5, 0, 100, 156, 0, 0]);
    }
    assert!(control.take_output().is_empty());
}

#[test]
fn destroy_message_names_the_mouse() {
    let mut control = ScrcpyControl::new(Vec::new());
    control.destroy_mouse();
    assert_eq!(control.take_output(), vec![TYPE_UHID_DESTROY, 0, 2]);
}

#[test]
fn create_message_has_empty_ids_and_name() {
    let mut control = ScrcpyControl::new(Vec::new());
    control.create_mouse();
    let out = control.take_output();
    assert_eq!(out.len(), 10 + 67);
    assert_eq!(&out[3..8], &[0, 0, 0, 0, 0]);
}

#[test]
fn u16_is_written_big_endian() {
    let mut buf = vec![1];
    write_u16(&mut buf, 0x1234);
    assert_eq!(buf, vec![1, 0x12, 0x34]);
}

#[test]
fn socket_name_is_padded_hex() {
    assert_eq!(socket_name(0x4b56_4d31), "scrcpy_4b564d31");
    assert_eq!(socket_name(0xab), "scrcpy_000000ab");
}

#[test]
fn server_commands_match_the_documented_invocations() {
    assert_eq!(
        server_push_command("adb", None, "/usr/share/scrcpy/scrcpy-server").args,
        strings(&["push", "/usr/share/scrcpy/scrcpy-server", "/data/local/tmp/scrcpy-server.jar"])
    );
    assert_eq!(
        reverse_command("adb", Some("X"), "scrcpy_4b564d31", 27183).args,
        strings(&["-s", "X", "reverse", "localabstract:scrcpy_4b564d31", "tcp:27183"])
    );
    assert_eq!(
        reverse_remove_command("adb", None, "scrcpy_4b564d31").args,
        strings(&["reverse", "--remove", "localabstract:scrcpy_4b564d31"])
    );
    let start = server_start_command("adb", None, "3.1", 0x4b56_4d31);
    assert_eq!(start.program, "adb");
    assert_eq!(
        start.args,
        strings(&[
            "shell",
            "CLASSPATH=/data/local/tmp/scrcpy-server.jar",
            "app_process",
            "/",
            "com.genymobile.scrcpy.Server",
            "3.1",
            "scid=4b564d31",
            "log_level=info",
            "video=false",
            "audio=false",
            "control=true",
            "send_dummy_byte=false",
            "send_device_meta=false",
            "send_frame_meta=false",
            "clipboard_autosync=false",
            "cleanup=false",
            "power_on=false",
        ])
    );
}

#[test]
fn reads_scrcpy_version() {
    assert_eq!(
        scrcpy_version(true, "scrcpy 3.1 <https://github.com/Genymobile/scrcpy>\nDependencies:\n"),
        Ok("3.1".to_string())
    );
    assert_eq!(scrcpy_version(true, "  scrcpy\t2.4\r\n"), Ok("2.4".to_string()));
    assert_eq!(scrcpy_version(false, "scrcpy 3.1"), Err(VersionError::CommandFailed));
    assert_eq!(scrcpy_version(true, ""), Err(VersionError::NoOutput));
    assert_eq!(scrcpy_version(true, "scrcpy\n3.1\n"), Err(VersionError::Unparsable));
    assert_eq!(scrcpy_version(true, "\n"), Err(VersionError::Unparsable));
    assert_eq!(
        scrcpy_version_command("scrcpy").args,
        strings(&["--version"])
    );
}

#[test]
fn scid_drops_the_top_bit() {
    assert_eq!(scid_from_random(0xcb56_4d31), 0x4b56_4d31);
    assert_eq!(scid_from_random(0x7fff_ffff), 0x7fff_ffff);
    assert_eq!(socket_name(scid_from_random(u32::MAX)), "scrcpy_7fffffff");
}

#[test]
fn configured_server_path_wins_over_the_environment() {
    assert_eq!(
        choose_server_path(Some("/a".to_string()), Some("/b".to_string())),
        Some("/a".to_string())
    );
    assert_eq!(choose_server_path(None, Some("/b".to_string())), Some("/b".to_string()));
    assert_eq!(choose_server_path(None, None), None);
}
