use yap::config::{Hotkey, Settings};
use yap::hotkey::HotkeyEvent;
use yap::stt::SelfTest;
use yap::worker::{startup, step, CoreCmd, Phase, WorkerAction, WorkerEvent, WorkerState};

fn settings(trailing_space: bool) -> Settings {
    Settings { trailing_space, min_samples: 4000, hotkey: Hotkey::Fn }
}

fn describe(actions: &[WorkerAction]) -> Vec<String> {
    actions.iter().map(|a| format!("{:?}", a)).collect()
}

#[test]
fn starts_by_loading_the_model() {
    let (s, acts) = startup();
    assert_eq!(s, WorkerState { model_loaded: false, recording: false, trailing_space: false });
    assert_eq!(
        describe(&acts),
        vec!["SetPhase(LoadingModel)", "LoadModel", "PublishHistory"]
    );
}

#[test]
fn press_without_model_asks_for_it() {
    let s = WorkerState { model_loaded: false, recording: false, trailing_space: false };
    let (s2, acts) = step(s, WorkerEvent::Hotkey(HotkeyEvent::Pressed), settings(true));
    assert_eq!(s2, s);
    assert_eq!(
        describe(&acts),
        vec!["Log(\"model not loaded \u{2014} open Settings\")", "SetPhase(NeedsModel)"]
    );
}

#[test]
fn full_dictation_round() {
    let cfg = settings(true);
    let (s, _) = step(
        WorkerState { model_loaded: false, recording: false, trailing_space: false },
        WorkerEvent::ModelLoaded(SelfTest::NoClip),
        cfg,
    );
    assert!(s.model_loaded);
    let (s, acts) = step(s, WorkerEvent::Hotkey(HotkeyEvent::Pressed), cfg);
    assert_eq!(describe(&acts), vec!["StartRecorder"]);
    let (s, acts) = step(s, WorkerEvent::RecorderStarted, cfg);
    assert!(s.recording);
    assert_eq!(describe(&acts), vec!["SetPhase(Recording)"]);
    let (_, acts) = step(s, WorkerEvent::Tick, cfg);
    assert_eq!(describe(&acts), vec!["ReportLevel"]);
    let (s, acts) = step(s, WorkerEvent::Hotkey(HotkeyEvent::Released), cfg);
    assert!(!s.recording);
    assert_eq!(describe(&acts), vec!["StopRecorder"]);
    let (_, acts) = step(s, WorkerEvent::Tick, cfg);
    assert!(acts.is_empty());
    let (s, acts) = step(s, WorkerEvent::RecordingStopped { num_samples: 16000 }, cfg);
    assert_eq!(describe(&acts), vec!["ResetLevel", "SetPhase(Transcribing)", "Transcribe"]);
    let (_, acts) = step(
        s,
        WorkerEvent::Transcribed("cargo run dash dash release".to_string()),
        cfg,
    );
    assert_eq!(
        describe(&acts),
        vec![
            "SaveHistory { raw: \"cargo run dash dash release\", output: \"cargo run --release\" }",
            "PublishHistory",
            "Paste(\"cargo run --release \")",
            "ShowTranscript(\"cargo run --release\")",
            "SetPhase(Idle)"
        ]
    );
}

#[test]
fn short_recordings_are_dropped() {
    let s = WorkerState { model_loaded: true, recording: false, trailing_space: false };
    let (_, acts) = step(s, WorkerEvent::RecordingStopped { num_samples: 3999 }, settings(false));
    assert_eq!(describe(&acts), vec!["ResetLevel", "SetPhase(Idle)"]);
}

#[test]
fn empty_transcript_is_not_pasted() {
    let s = WorkerState { model_loaded: true, recording: false, trailing_space: false };
    let (_, acts) = step(s, WorkerEvent::Transcribed("   ".to_string()), settings(false));
    assert_eq!(
        describe(&acts),
        vec![
            "SaveHistory { raw: \"   \", output: \"\" }",
            "PublishHistory",
            "SetPhase(Idle)"
        ]
    );
}

#[test]
fn commands_and_load_outcomes() {
    let s = WorkerState { model_loaded: true, recording: false, trailing_space: false };
    let (s2, acts) = step(s, WorkerEvent::Command(CoreCmd::ReloadModel), settings(false));
    assert!(!s2.model_loaded);
    assert_eq!(describe(&acts), vec!["SetPhase(LoadingModel)", "LoadModel"]);
    let (_, acts) = step(s, WorkerEvent::Command(CoreCmd::StartDownload), settings(false));
    assert_eq!(describe(&acts), vec!["StartDownload"]);
    let (_, acts) = step(s, WorkerEvent::ModelMissing, settings(false));
    assert_eq!(describe(&acts), vec!["SetPhase(NeedsModel)"]);
    let (_, acts) = step(s, WorkerEvent::ModelLoadFailed("boom".to_string()), settings(false));
    assert_eq!(
        describe(&acts),
        vec!["Log(\"model load failed: boom\")", "SetPhase(NeedsModel)"]
    );
    let (_, acts) = step(s, WorkerEvent::RecorderFailed("no device".to_string()), settings(false));
    assert_eq!(describe(&acts), vec!["Log(\"mic error: no device\")"]);
    let (_, acts) = step(s, WorkerEvent::Hotkey(HotkeyEvent::Released), settings(false));
    assert!(acts.is_empty());
    assert_eq!(Phase::Idle, Phase::Idle);
}

#[test]
fn unnormalizable_transcript_halts() {
    let s = WorkerState { model_loaded: true, recording: false, trailing_space: false };
    let (_, acts) = step(s, WorkerEvent::Transcribed("\u{130}run the command \u{e9}a".to_string()), settings(false));
    assert_eq!(describe(&acts), vec!["Halt"]);
}
