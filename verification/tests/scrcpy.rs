use android_kvm::scrcpy::shell_words;

#[test]
fn shell_words_quotes_arguments_with_spaces() {
    assert_eq!(
        shell_words(&["scrcpy", "--serial", "device one"]),
        "scrcpy --serial 'device one'",
    );
}

use android_kvm::scrcpy::{shell_quote, ScrcpyBackend, ScrcpyConfig};

#[test]
fn shell_quote_escapes_single_quotes() {
    assert_eq!(shell_quote("plain-word_1.0:/x=+"), "plain-word_1.0:/x=+");
    assert_eq!(shell_quote("it's"), "'it'\\''s'");
    assert_eq!(shell_quote(""), "");
    assert_eq!(shell_quote("a b"), "'a b'");
}

#[test]
fn audio_backend_command() {
    let backend = ScrcpyBackend::new(ScrcpyConfig::default());
    let command = backend.command();
    assert_eq!(command.program, "scrcpy");
    assert_eq!(
        command.args,
        vec!["--no-video", "--no-window", "--no-control", "--audio-buffer=200"]
    );
    assert_eq!(
        backend.command_preview(),
        "scrcpy --no-video --no-window --no-control --audio-buffer=200"
    );
    let config = ScrcpyConfig {
        serial: Some("device one".to_string()),
        extra_args: vec!["--turn-screen-off".to_string()],
        audio_buffer_ms: 50,
        ..ScrcpyConfig::default()
    };
    let backend = ScrcpyBackend::new(config);
    assert_eq!(
        backend.command_preview(),
        "scrcpy --serial 'device one' --no-video --no-window --no-control --audio-buffer=50 --turn-screen-off"
    );
    assert_eq!(backend.check_command().args, vec!["--version"]);
    assert_eq!(backend.config().audio_buffer_ms, 50);
}

#[test]
fn shell_words_keep_every_non_empty_word_apart() {
    assert_eq!(
        shell_words(&["echo", "it's", "a b", "x\\y"]),
        "echo 'it'\\''s' 'a b' 'x\\y'"
    );
    assert_eq!(shell_words(&[]), "");
    assert_eq!(shell_words(&["a", "", "b"]), "a  b");
}
