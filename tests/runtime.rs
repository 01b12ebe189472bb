use rinf_cli::config::{
    config_from_document, is_flutter_app_project, load_verified_rinf_config, read_publish_to,
    RinfCommandError, RinfConfig, RinfConfigMessage,
};
use rinf_cli::format::decimal_text;
use rinf_cli::fractal::{encode_frame, write_line, BUF_SIZE, WIDTH};
use rinf_cli::wasm::{compile_wasm_args, install_wasm_toolchain};
use rinf_cli::watch::{should_regenerate, WatchAction, WatchEvent, WatchPhase, WatchState};

fn change(exts: &[Option<&str>]) -> WatchEvent {
    WatchEvent::Changed { extensions: exts.iter().map(|e| e.map(|s| s.to_string())).collect() }
}

fn mapping(text: &str) -> serde_yml::Mapping {
    serde_yml::from_str(text).unwrap()
}

#[test]
fn burst_during_regeneration_runs_once_more() {
    let mut s = WatchState::new();
    let (next, a) = s.next(&WatchEvent::Start { root_exists: true });
    assert_eq!(a, WatchAction::Subscribe);
    s = next;
    let (next, a) = s.next(&change(&[Some("rs")]));
    assert_eq!(a, WatchAction::Regenerate);
    s = next;
    let mut regenerations = 0;
    for _ in 0..3 {
        let (next, a) = s.next(&change(&[Some("rs")]));
        assert_eq!(a, WatchAction::Nothing);
        s = next;
    }
    for _ in 0..2 {
        let (next, a) = s.next(&WatchEvent::RegenerationDone);
        if a == WatchAction::Regenerate {
            regenerations += 1;
        }
        s = next;
    }
    assert_eq!(regenerations, 1);
    assert_eq!(s.phase, WatchPhase::Watching);
}

#[test]
fn missing_root_stops_before_watching() {
    let (s, a) = WatchState::new().next(&WatchEvent::Start { root_exists: false });
    assert_eq!(a, WatchAction::Stop);
    assert_eq!(s.phase, WatchPhase::Stopped);
    let (s2, a2) = s.next(&change(&[Some("rs")]));
    assert_eq!(a2, WatchAction::Nothing);
    assert_eq!(s2, s);
}

#[test]
fn non_source_changes_are_discarded() {
    let (s, _) = WatchState::new().next(&WatchEvent::Start { root_exists: true });
    let (s2, a) = s.next(&change(&[Some("md"), None, Some("RS")]));
    assert_eq!(a, WatchAction::Nothing);
    assert_eq!(s2, s);
    assert!(should_regenerate(&vec![Some("toml".to_string()), Some("rs".to_string())]));
    assert!(!should_regenerate(&vec![]));
    assert!(!should_regenerate(&vec![None, Some("rsx".to_string())]));
}

#[test]
fn event_errors_are_logged_and_channel_failure_is_fatal() {
    let (s, _) = WatchState::new().next(&WatchEvent::Start { root_exists: true });
    let (s2, a) = s.next(&WatchEvent::EventError);
    assert_eq!(a, WatchAction::Log);
    assert_eq!(s2.phase, WatchPhase::Watching);
    let (s3, a3) = s2.next(&WatchEvent::ChannelClosed);
    assert_eq!(a3, WatchAction::Stop);
    assert_eq!(s3.phase, WatchPhase::Failed);
}

#[test]
fn message_section_defaults() {
    let m = RinfConfigMessage::from_yaml(&mapping("{}")).unwrap();
    assert_eq!(m.input_dir, "messages/");
    assert_eq!(m.rust_output_dir, "native/hub/src/messages/");
    assert_eq!(m.dart_output_dir, "lib/messages/");
    assert!(!m.rust_serde);
    let d = RinfConfigMessage::default();
    assert_eq!(d.input_dir, m.input_dir);
}

#[test]
fn message_section_values() {
    let m = RinfConfigMessage::from_yaml(&mapping(
        "input_dir: proto/\nrust_serde: true\ndart_output_dir: 42\n",
    ))
    .unwrap();
    assert_eq!(m.input_dir, "proto/");
    assert!(m.rust_serde);
    assert_eq!(m.dart_output_dir, "lib/messages/");
}

#[test]
fn unknown_message_key_is_an_error() {
    match RinfConfigMessage::from_yaml(&mapping("input_dir: a/\nwrong_key: 1\nother: 2\n")) {
        Err(RinfCommandError::UnknownKey(k, list)) => {
            assert_eq!(k, "wrong_key");
            assert_eq!(list, "input_dir, rust_output_dir, dart_output_dir, rust_serde");
        }
        other => panic!("{other:?}"),
    }
}

#[test]
fn config_section() {
    let c = RinfConfig::from_yaml(&mapping("message:\n  rust_output_dir: out/\n")).unwrap();
    assert_eq!(c.message.rust_output_dir, "out/");
    let d = RinfConfig::from_yaml(&mapping("{}")).unwrap();
    assert_eq!(d.message.input_dir, "messages/");
    match RinfConfig::from_yaml(&mapping("messages: {}\n")) {
        Err(RinfCommandError::UnknownKey(k, list)) => {
            assert_eq!(k, "messages");
            assert_eq!(list, "message");
        }
        other => panic!("{other:?}"),
    }
    match RinfConfig::from_yaml(&mapping("message:\n  bogus: 1\n")) {
        Err(RinfCommandError::UnknownKey(k, _)) => assert_eq!(k, "bogus"),
        other => panic!("{other:?}"),
    }
}

#[test]
fn loading_from_pubspec_text() {
    let c = load_verified_rinf_config("name: app\nrinf:\n  message:\n    rust_serde: true\n").unwrap();
    assert!(c.message.rust_serde);
    let d = load_verified_rinf_config("name: app\n").unwrap();
    assert!(!d.message.rust_serde);
    assert!(matches!(load_verified_rinf_config("- a\n- b\n"), Err(RinfCommandError::Other)));
    assert!(matches!(load_verified_rinf_config("a: [\n"), Err(RinfCommandError::YamlError(_))));
    assert!(matches!(config_from_document(None), Err(RinfCommandError::Other)));
}

#[test]
fn flutter_app_detection() {
    assert!(is_flutter_app_project("name: app\npublish_to: 'none'\n"));
    assert!(!is_flutter_app_project("name: pkg\npublish_to: https://pub.dev\n"));
    assert!(!is_flutter_app_project("name: pkg\n"));
    assert!(!is_flutter_app_project(": : :\n  - ["));
    assert_eq!(read_publish_to("publish_to: none\n"), Some("none".to_string()));
    assert_eq!(read_publish_to("publish_to: 3\n"), None);
}

#[test]
fn toolchain_commands() {
    let cs = install_wasm_toolchain();
    assert_eq!(cs.len(), 6);
    assert_eq!(cs[0].program, "rustup");
    assert_eq!(cs[0].args, vec!["toolchain", "install", "nightly"]);
    assert_eq!(cs[2].args, vec!["+nightly", "target", "add", "wasm32-unknown-unknown"]);
    assert_eq!(cs[5].program, "cargo");
    assert_eq!(cs[5].args, vec!["install", "wasm-bindgen-cli"]);
}

#[test]
fn wasm_pack_arguments() {
    let release = compile_wasm_args("/p/web/pkg", true);
    assert_eq!(
        release,
        vec![
            "--quiet", "build", "./native/hub", "--out-dir", "/p/web/pkg", "--out-name", "hub",
            "--no-typescript", "--target", "web", "--", "-Z", "build-std=std,panic_abort",
        ]
    );
    let dev = compile_wasm_args("/p/web/pkg", false);
    assert_eq!(dev.len(), 14);
    assert_eq!(dev[7], "--dev");
    assert_eq!(dev[8], "--no-typescript");
}

#[test]
fn lines_are_copied_into_their_row() {
    let mut buffer = vec![7u8; BUF_SIZE as usize];
    let line: Vec<u8> = (0..(WIDTH * 3)).map(|i| (i % 251) as u8).collect();
    write_line(&mut buffer, &line, 2);
    let row = (2 * WIDTH * 3) as usize;
    assert_eq!(&buffer[row..row + line.len()], &line[..]);
    assert_eq!(buffer[row - 1], 7);
    assert_eq!(buffer[row + line.len()], 7);
    assert_eq!(buffer.len(), BUF_SIZE as usize);
}

#[test]
fn frames_encode_as_png() {
    let buffer = vec![255u8; BUF_SIZE as usize];
    let png = encode_frame(&buffer).unwrap();
    assert_eq!(&png[..8], &[137, 80, 78, 71, 13, 10, 26, 10]);
    assert_ne!(png, buffer);
}

#[test]
fn decimal_digits() {
    assert_eq!(decimal_text(0), "0");
    assert_eq!(decimal_text(7), "7");
    assert_eq!(decimal_text(1203), "1203");
    assert_eq!(decimal_text(usize::MAX), usize::MAX.to_string());
}
