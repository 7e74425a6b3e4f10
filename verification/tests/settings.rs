use yap::config::{
    data_dir_migration, legacy_data_dir,
    data_dir, default_min_samples, default_true, models_dir, parakeet_dir, settings_path, Hotkey,
    Settings, StoredSettings, MODEL_DIR_NAME,
};
use yap::history::{duration_ms, history_path, summary_from_row};
use yap::stt::{FileStat, ModelFiles, ModelPaths};

#[test]
fn hotkey_labels() {
    assert_eq!(Hotkey::Fn.label(), "fn");
    assert_eq!(Hotkey::Option.label(), "option");
    assert_eq!(Hotkey::Control.label(), "control");
    assert_eq!(Hotkey::Command.label(), "command");
    assert_eq!(Hotkey::all(), [Hotkey::Fn, Hotkey::Option, Hotkey::Control, Hotkey::Command]);
}

#[test]
fn hotkey_default_is_fn() {
    assert_eq!(Hotkey::default(), Hotkey::Fn);
}

#[test]
fn hotkey_flags() {
    assert!(Hotkey::Fn.is_down(0x0080_0000 | 0x100));
    assert!(!Hotkey::Fn.is_down(0x0010_0000));
    assert!(Hotkey::Command.is_down(0x0010_0000));
    assert!(Hotkey::Option.is_down(0x0008_0000));
    assert!(Hotkey::Control.is_down(0x0004_0000 | 0x0008_0000));
    assert!(!Hotkey::Control.is_down(0));
}

#[test]
fn setting_defaults() {
    assert!(default_true());
    assert_eq!(default_min_samples(), 4000);
    let d = Settings::default();
    assert!(!d.trailing_space);
    assert_eq!(d.min_samples, 0);
    assert_eq!(d.hotkey, Hotkey::Fn);
}

#[test]
fn resolve_stored_settings() {
    let first_run = Settings::resolve(StoredSettings::Unreadable);
    assert_eq!(first_run, Settings { trailing_space: true, min_samples: 4000, hotkey: Hotkey::Fn });
    assert_eq!(Settings::resolve(StoredSettings::Malformed), Settings::default());
    let custom = Settings { trailing_space: false, min_samples: 123, hotkey: Hotkey::Option };
    assert_eq!(Settings::resolve(StoredSettings::Parsed(custom)), custom);
}

#[test]
fn directory_layout() {
    let data = data_dir("/home/u/.local/share");
    assert_eq!(data, "/home/u/.local/share/yap");
    assert_eq!(models_dir(&data), "/home/u/.local/share/yap/models");
    assert_eq!(
        parakeet_dir(&data),
        format!("/home/u/.local/share/yap/models/{}", MODEL_DIR_NAME)
    );
    assert_eq!(settings_path(&data), "/home/u/.local/share/yap/settings.json");
    assert_eq!(history_path(&data), "/home/u/.local/share/yap/recordings.sqlite3");
}

#[test]
fn legacy_data_dir_is_moved_only_when_current_is_absent() {
    assert_eq!(legacy_data_dir("/b"), "/b/whispr");
    assert_eq!(
        data_dir_migration("/b", true, false),
        Some(("/b/whispr".to_string(), "/b/yap".to_string()))
    );
    assert_eq!(data_dir_migration("/b", true, true), None);
    assert_eq!(data_dir_migration("/b", false, false), None);
    assert_eq!(data_dir_migration("/b", false, true), None);
}

#[test]
fn model_file_paths() {
    let p = ModelPaths::new("/m".to_string());
    assert_eq!(p.encoder(), "/m/encoder.int8.onnx");
    assert_eq!(p.decoder(), "/m/decoder.int8.onnx");
    assert_eq!(p.joiner(), "/m/joiner.int8.onnx");
    assert_eq!(p.tokens(), "/m/tokens.txt");
    assert_eq!(p.self_test_wav(), "/m/test_wavs/0.wav");
}

fn stat(size: u64) -> FileStat {
    FileStat { exists: true, size }
}

#[test]
fn model_completeness() {
    let p = ModelPaths::new("/m".to_string());
    let full = ModelFiles {
        encoder: stat(600_000_000),
        decoder: stat(6_000_000),
        joiner: stat(2_000_000),
        tokens: stat(10),
    };
    assert!(p.is_complete(&full));
    assert!(!p.is_complete(&ModelFiles { encoder: stat(500_000_000), ..full }));
    assert!(!p.is_complete(&ModelFiles { decoder: stat(5_000_000), ..full }));
    assert!(!p.is_complete(&ModelFiles { joiner: stat(1_000_000), ..full }));
    assert!(!p.is_complete(&ModelFiles { tokens: FileStat { exists: false, size: 0 }, ..full }));
}

#[test]
fn history_rows() {
    assert_eq!(duration_ms(16000), 1000);
    assert_eq!(duration_ms(4000), 250);
    assert_eq!(duration_ms(15), 0);
    let r = summary_from_row(10, 250, "hi".to_string(), -5);
    assert_eq!(r.audio_bytes, 0);
    assert_eq!(r.created_at, 10);
    assert_eq!(r.duration_ms, 250);
    assert_eq!(r.output_text, "hi");
    assert_eq!(summary_from_row(1, 2, String::new(), 8044).audio_bytes, 8044);
}
