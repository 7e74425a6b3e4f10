//! The background worker's decisions: from what just happened (a hotkey
//! change, a finished recording, a transcript, a command from the UI) to the
//! next state and the actions to perform, in order. The caller performs each
//! action and reports back what came of it as the next event.

use vstd::prelude::*;

use crate::config::Settings;
use crate::hotkey::HotkeyEvent;
use crate::stt::{load_report, model_load_report, SelfTest, SelfTestView};
use crate::text::{normalized_transcript, try_normalize_transcript, transcript_is_normalizable};

verus! {

/// What the UI shows about the worker.
#[derive(Clone, Copy, Debug, PartialEq, Eq, Structural)]
pub enum Phase {
    Idle,
    LoadingModel,
    NeedsModel,
    Recording,
    Transcribing,
}

/// Requests from the UI.
#[derive(Clone, Copy, Debug, PartialEq, Eq, Structural)]
pub enum CoreCmd {
    StartDownload,
    ReloadModel,
}

/// What the worker remembers between events.
#[derive(Clone, Copy, Debug, PartialEq, Eq, Structural)]
pub struct WorkerState {
    /// A speech model is loaded.
    pub model_loaded: bool,
    /// A recorder is running.
    pub recording: bool,
    /// The trailing-space setting as it was when the last recording stopped.
    pub trailing_space: bool,
}

/// Something that happened, reported to the worker.
#[derive(Debug)]
pub enum WorkerEvent {
    /// The push-to-talk key changed.
    Hotkey(HotkeyEvent),
    /// The recorder asked for by `StartRecorder` is running.
    RecorderStarted,
    /// The recorder could not start, with the reason.
    RecorderFailed(String),
    /// The recorder asked to stop by `StopRecorder` gave this many samples.
    RecordingStopped { num_samples: usize },
    /// The model asked by `Transcribe` recognised this text.
    Transcribed(String),
    /// A request from the UI.
    Command(CoreCmd),
    /// `LoadModel` found the model files incomplete.
    ModelMissing,
    /// `LoadModel` loaded the model; its self-test gave this.
    ModelLoaded(SelfTest),
    /// `LoadModel` failed to load the model, with the reason.
    ModelLoadFailed(String),
    /// The level-meter timer fired.
    Tick,
}

/// Something the worker asks its caller to do.
#[derive(Debug)]
pub enum WorkerAction {
    /// Show a log line.
    Log(String),
    /// Show a phase.
    SetPhase(Phase),
    /// Start the microphone recorder.
    StartRecorder,
    /// Stop the recorder and report how many samples it captured.
    StopRecorder,
    /// Show a silent level meter.
    ResetLevel,
    /// Show the running recorder's current level.
    ReportLevel,
    /// Run the captured samples through the model.
    Transcribe,
    /// Store the recording with both texts in the history.
    SaveHistory { raw: String, output: String },
    /// Show the most recent history entries.
    PublishHistory,
    /// Paste this text into the focused application.
    Paste(String),
    /// Show the transcript.
    ShowTranscript(String),
    /// Start downloading the model.
    StartDownload,
    /// Check the model files and load the model.
    LoadModel,
    /// Stop the worker: the transcript cannot be normalised (it announces a
    /// command at a place that is not a character boundary of its text).
    Halt,
}

/// The content of an event.
pub enum EventView {
    Hotkey(HotkeyEvent),
    RecorderStarted,
    RecorderFailed(Seq<char>),
    RecordingStopped { num_samples: usize },
    Transcribed(Seq<char>),
    Command(CoreCmd),
    ModelMissing,
    ModelLoaded(SelfTestView),
    ModelLoadFailed(Seq<char>),
    Tick,
}

/// The content of an action.
pub enum ActionView {
    Log(Seq<char>),
    SetPhase(Phase),
    StartRecorder,
    StopRecorder,
    ResetLevel,
    ReportLevel,
    Transcribe,
    SaveHistory { raw: Seq<char>, output: Seq<char> },
    PublishHistory,
    Paste(Seq<char>),
    ShowTranscript(Seq<char>),
    StartDownload,
    LoadModel,
    Halt,
}

impl View for WorkerEvent {
    type V = EventView;

    open spec fn view(&self) -> EventView {
        match self {
            WorkerEvent::Hotkey(h) => EventView::Hotkey(*h),
            WorkerEvent::RecorderStarted => EventView::RecorderStarted,
            WorkerEvent::RecorderFailed(e) => EventView::RecorderFailed(e@),
            WorkerEvent::RecordingStopped { num_samples } => EventView::RecordingStopped {
                num_samples: *num_samples,
            },
            WorkerEvent::Transcribed(t) => EventView::Transcribed(t@),
            WorkerEvent::Command(c) => EventView::Command(*c),
            WorkerEvent::ModelMissing => EventView::ModelMissing,
            WorkerEvent::ModelLoaded(t) => EventView::ModelLoaded(t@),
            WorkerEvent::ModelLoadFailed(e) => EventView::ModelLoadFailed(e@),
            WorkerEvent::Tick => EventView::Tick,
        }
    }
}

impl View for WorkerAction {
    type V = ActionView;

    open spec fn view(&self) -> ActionView {
        match self {
            WorkerAction::Log(m) => ActionView::Log(m@),
            WorkerAction::SetPhase(p) => ActionView::SetPhase(*p),
            WorkerAction::StartRecorder => ActionView::StartRecorder,
            WorkerAction::StopRecorder => ActionView::StopRecorder,
            WorkerAction::ResetLevel => ActionView::ResetLevel,
            WorkerAction::ReportLevel => ActionView::ReportLevel,
            WorkerAction::Transcribe => ActionView::Transcribe,
            WorkerAction::SaveHistory { raw, output } => ActionView::SaveHistory {
                raw: raw@,
                output: output@,
            },
            WorkerAction::PublishHistory => ActionView::PublishHistory,
            WorkerAction::Paste(t) => ActionView::Paste(t@),
            WorkerAction::ShowTranscript(t) => ActionView::ShowTranscript(t@),
            WorkerAction::StartDownload => ActionView::StartDownload,
            WorkerAction::LoadModel => ActionView::LoadModel,
            WorkerAction::Halt => ActionView::Halt,
        }
    }
}

/// The contents of a list of actions.
pub open spec fn actions_view(v: Seq<WorkerAction>) -> Seq<ActionView> {
    v.map_values(|a: WorkerAction| a@)
}

/// The text pasted for a transcript: followed by a space when asked for.
pub open spec fn pasted_text(output: Seq<char>, trailing_space: bool) -> Seq<char> {
    if trailing_space {
        output.push(' ')
    } else {
        output
    }
}

/// What the worker does with a recognised transcript: store it and refresh
/// the history, paste and show the normalised text when it is not empty, and
/// go back to idle; stop when the transcript cannot be normalised.
pub open spec fn transcript_actions(raw: Seq<char>, trailing_space: bool) -> Seq<ActionView> {
    if !transcript_is_normalizable(raw) {
        seq![ActionView::Halt]
    } else {
        let out = normalized_transcript(raw);
        let stored = seq![ActionView::SaveHistory { raw, output: out }, ActionView::PublishHistory];
        let shown = if out.len() > 0 {
            seq![ActionView::Paste(pasted_text(out, trailing_space)), ActionView::ShowTranscript(out)]
        } else {
            seq![]
        };
        stored + shown + seq![ActionView::SetPhase(Phase::Idle)]
    }
}

/// The worker's next state and actions for an event, under the current settings.
pub open spec fn spec_step(s: WorkerState, e: EventView, settings: Settings) -> (
    WorkerState,
    Seq<ActionView>,
) {
    match e {
        EventView::Hotkey(HotkeyEvent::Pressed) => if !s.model_loaded {
            (
                s,
                seq![
                    ActionView::Log("model not loaded \u{2014} open Settings"@),
                    ActionView::SetPhase(Phase::NeedsModel),
                ],
            )
        } else {
            (s, seq![ActionView::StartRecorder])
        },
        EventView::RecorderStarted => (
            WorkerState { recording: true, ..s },
            seq![ActionView::SetPhase(Phase::Recording)],
        ),
        EventView::RecorderFailed(m) => (s, seq![ActionView::Log("mic error: "@ + m)]),
        EventView::Hotkey(HotkeyEvent::Released) => if !s.recording {
            (s, seq![])
        } else {
            (WorkerState { recording: false, ..s }, seq![ActionView::StopRecorder])
        },
        EventView::RecordingStopped { num_samples } => {
            let s2 = WorkerState { trailing_space: settings.trailing_space, ..s };
            if num_samples < settings.min_samples {
                (s2, seq![ActionView::ResetLevel, ActionView::SetPhase(Phase::Idle)])
            } else if !s.model_loaded {
                (s2, seq![ActionView::ResetLevel, ActionView::SetPhase(Phase::Transcribing)])
            } else {
                (
                    s2,
                    seq![
                        ActionView::ResetLevel,
                        ActionView::SetPhase(Phase::Transcribing),
                        ActionView::Transcribe,
                    ],
                )
            }
        },
        EventView::Transcribed(raw) => (s, transcript_actions(raw, s.trailing_space)),
        EventView::Command(CoreCmd::StartDownload) => (s, seq![ActionView::StartDownload]),
        EventView::Command(CoreCmd::ReloadModel) => (
            WorkerState { model_loaded: false, ..s },
            seq![ActionView::SetPhase(Phase::LoadingModel), ActionView::LoadModel],
        ),
        EventView::ModelMissing => (s, seq![ActionView::SetPhase(Phase::NeedsModel)]),
        EventView::ModelLoaded(outcome) => (
            WorkerState { model_loaded: true, ..s },
            seq![ActionView::SetPhase(Phase::Idle), ActionView::Log(load_report(outcome))],
        ),
        EventView::ModelLoadFailed(m) => (
            s,
            seq![ActionView::Log("model load failed: "@ + m), ActionView::SetPhase(Phase::NeedsModel)],
        ),
        EventView::Tick => if s.recording {
            (s, seq![ActionView::ReportLevel])
        } else {
            (s, seq![])
        },
    }
}

/// Appends an action.
fn push_action(v: &mut Vec<WorkerAction>, a: WorkerAction)
    ensures
        actions_view(final(v)@) == actions_view(old(v)@).push(a@),
{
    let ghost before = actions_view(v@);
    let ghost av = a@;
    v.push(a);
    assert(actions_view(v@) =~= before.push(av));
}

/// A string from a literal followed by another string.
fn concat(lit: &str, rest: &str) -> (r: String)
    ensures
        r@ == lit@ + rest@,
{
    let mut out = String::from_str(lit);
    out.append(rest);
    out
}

/// The worker's state and actions when it starts: no model and no recorder
/// yet; load the model, then show the history.
pub fn startup() -> (r: (WorkerState, Vec<WorkerAction>))
    ensures
        r.0 == (WorkerState { model_loaded: false, recording: false, trailing_space: false }),
        actions_view(r.1@) == seq![
            ActionView::SetPhase(Phase::LoadingModel),
            ActionView::LoadModel,
            ActionView::PublishHistory,
        ],
{
    let mut acts: Vec<WorkerAction> = Vec::new();
    assert(actions_view(acts@) =~= Seq::<ActionView>::empty());
    push_action(&mut acts, WorkerAction::SetPhase(Phase::LoadingModel));
    push_action(&mut acts, WorkerAction::LoadModel);
    push_action(&mut acts, WorkerAction::PublishHistory);
    (WorkerState { model_loaded: false, recording: false, trailing_space: false }, acts)
}

/// The actions for a recognised transcript (`transcript_actions`).
fn handle_transcript(raw: &str, trailing_space: bool) -> (r: Vec<WorkerAction>)
    ensures
        actions_view(r@) == transcript_actions(raw@, trailing_space),
{
    let mut acts: Vec<WorkerAction> = Vec::new();
    assert(actions_view(acts@) =~= Seq::<ActionView>::empty());
    let output = match try_normalize_transcript(raw) {
        Some(o) => o,
        None => {
            push_action(&mut acts, WorkerAction::Halt);
            return acts;
        },
    };
    let shown = !output.as_str().is_empty();
    let mut pasted = output.clone();
    if trailing_space {
        crate::chars::push_char(&mut pasted, ' ');
    }
    let shown_text = output.clone();
    let ghost out = output@;
    push_action(&mut acts, WorkerAction::SaveHistory { raw: String::from_str(raw), output });
    push_action(&mut acts, WorkerAction::PublishHistory);
    if shown {
        push_action(&mut acts, WorkerAction::Paste(pasted));
        push_action(&mut acts, WorkerAction::ShowTranscript(shown_text));
    }
    push_action(&mut acts, WorkerAction::SetPhase(Phase::Idle));
    assert(actions_view(acts@) =~= transcript_actions(raw@, trailing_space));
    acts
}

/// Decides what the worker does about an event.
pub fn step(s: WorkerState, e: WorkerEvent, settings: Settings) -> (r: (WorkerState, Vec<WorkerAction>))
    ensures
        (r.0, actions_view(r.1@)) == spec_step(s, e@, settings),
{
    let ghost ev = e@;
    let mut acts: Vec<WorkerAction> = Vec::new();
    assert(actions_view(acts@) =~= Seq::<ActionView>::empty());
    let next = match e {
        WorkerEvent::Hotkey(HotkeyEvent::Pressed) => {
            if !s.model_loaded {
                push_action(
                    &mut acts,
                    WorkerAction::Log(String::from_str("model not loaded \u{2014} open Settings")),
                );
                push_action(&mut acts, WorkerAction::SetPhase(Phase::NeedsModel));
            } else {
                push_action(&mut acts, WorkerAction::StartRecorder);
            }
            s
        },
        WorkerEvent::RecorderStarted => {
            push_action(&mut acts, WorkerAction::SetPhase(Phase::Recording));
            WorkerState { recording: true, ..s }
        },
        WorkerEvent::RecorderFailed(m) => {
            push_action(&mut acts, WorkerAction::Log(concat("mic error: ", m.as_str())));
            s
        },
        WorkerEvent::Hotkey(HotkeyEvent::Released) => {
            if !s.recording {
                s
            } else {
                push_action(&mut acts, WorkerAction::StopRecorder);
                WorkerState { recording: false, ..s }
            }
        },
        WorkerEvent::RecordingStopped { num_samples } => {
            push_action(&mut acts, WorkerAction::ResetLevel);
            if num_samples < settings.min_samples {
                push_action(&mut acts, WorkerAction::SetPhase(Phase::Idle));
            } else {
                push_action(&mut acts, WorkerAction::SetPhase(Phase::Transcribing));
                if s.model_loaded {
                    push_action(&mut acts, WorkerAction::Transcribe);
                }
            }
            WorkerState { trailing_space: settings.trailing_space, ..s }
        },
        WorkerEvent::Transcribed(raw) => {
            acts = handle_transcript(raw.as_str(), s.trailing_space);
            s
        },
        WorkerEvent::Command(CoreCmd::StartDownload) => {
            push_action(&mut acts, WorkerAction::StartDownload);
            s
        },
        WorkerEvent::Command(CoreCmd::ReloadModel) => {
            push_action(&mut acts, WorkerAction::SetPhase(Phase::LoadingModel));
            push_action(&mut acts, WorkerAction::LoadModel);
            WorkerState { model_loaded: false, ..s }
        },
        WorkerEvent::ModelMissing => {
            push_action(&mut acts, WorkerAction::SetPhase(Phase::NeedsModel));
            s
        },
        WorkerEvent::ModelLoaded(t) => {
            push_action(&mut acts, WorkerAction::SetPhase(Phase::Idle));
            push_action(&mut acts, WorkerAction::Log(model_load_report(&t)));
            WorkerState { model_loaded: true, ..s }
        },
        WorkerEvent::ModelLoadFailed(m) => {
            push_action(&mut acts, WorkerAction::Log(concat("model load failed: ", m.as_str())));
            push_action(&mut acts, WorkerAction::SetPhase(Phase::NeedsModel));
            s
        },
        WorkerEvent::Tick => {
            if s.recording {
                push_action(&mut acts, WorkerAction::ReportLevel);
            }
            s
        },
    };
    assert(actions_view(acts@) =~= spec_step(s, ev, settings).1);
    (next, acts)
}

/// Once the key is released over a running recorder, the recorder is asked
/// to stop and the level meter stops being refreshed.
pub proof fn lemma_release_stops_metering(s: WorkerState, settings: Settings)
    requires
        s.recording,
    ensures
        spec_step(s, EventView::Hotkey(HotkeyEvent::Released), settings).1 == seq![ActionView::StopRecorder],
        spec_step(
            spec_step(s, EventView::Hotkey(HotkeyEvent::Released), settings).0,
            EventView::Tick,
            settings,
        ).1 == Seq::<ActionView>::empty(),
{
}

/// Without a loaded model, pressing the key never starts a recorder, and the
/// state stays as it was.
pub proof fn lemma_press_without_model(s: WorkerState, settings: Settings)
    requires
        !s.model_loaded,
    ensures
        spec_step(s, EventView::Hotkey(HotkeyEvent::Pressed), settings).0 == s,
        !spec_step(s, EventView::Hotkey(HotkeyEvent::Pressed), settings).1.contains(
            ActionView::StartRecorder,
        ),
{
    let acts = spec_step(s, EventView::Hotkey(HotkeyEvent::Pressed), settings).1;
    assert(acts[0] != ActionView::StartRecorder);
    assert(acts[1] != ActionView::StartRecorder);
}

/// Every normalisable transcript ends the dictation: the last action shows
/// the idle phase, and text is pasted exactly when the normalised transcript
/// is not empty, with a trailing space exactly when the setting asked for one.
pub proof fn lemma_transcript_ends_idle(raw: Seq<char>, trailing_space: bool)
    requires
        transcript_is_normalizable(raw),
    ensures
        transcript_actions(raw, trailing_space).last() == ActionView::SetPhase(Phase::Idle),
        transcript_actions(raw, trailing_space).contains(
            ActionView::Paste(pasted_text(normalized_transcript(raw), trailing_space)),
        ) <==> normalized_transcript(raw).len() > 0,
{
    let acts = transcript_actions(raw, trailing_space);
    let out = normalized_transcript(raw);
    let p = ActionView::Paste(pasted_text(out, trailing_space));
    if out.len() > 0 {
        assert(acts[2] == p);
    } else {
        assert(acts.len() == 3);
        assert(acts[0] != p);
        assert(acts[1] != p);
        assert(acts[2] != p);
    }
}

/// The text pasted for a transcript is the normalised transcript itself
/// when the worker's trailing-space setting is off, and the normalised
/// transcript followed by exactly one space when it is on.
pub proof fn lemma_pasted_text_exact(s: WorkerState, raw: Seq<char>, settings: Settings, i: int)
    requires
        0 <= i < spec_step(s, EventView::Transcribed(raw), settings).1.len(),
        spec_step(s, EventView::Transcribed(raw), settings).1[i] is Paste,
    ensures
        spec_step(s, EventView::Transcribed(raw), settings).1[i]->Paste_0 == if s.trailing_space {
            normalized_transcript(raw) + seq![' ']
        } else {
            normalized_transcript(raw)
        },
        !s.trailing_space ==> spec_step(s, EventView::Transcribed(raw), settings).1[i]->Paste_0.len()
            == normalized_transcript(raw).len(),
{
    let acts = spec_step(s, EventView::Transcribed(raw), settings).1;
    let out = normalized_transcript(raw);
    if transcript_is_normalizable(raw) {
        if out.len() > 0 {
            assert(i == 2);
            assert(out.push(' ') =~= out + seq![' ']);
        } else {
            assert(acts.len() == 3);
        }
    }
}

} // verus!
