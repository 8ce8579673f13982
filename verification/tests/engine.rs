use dondon::config::{check_stream_config, unusual_channel_count, ConfigError};
use dondon::envelope::{settle, Adsr};
use dondon::transport::{apply_ui_command, apply_ui_commands, play_or_stop, UiCommand};
use dondon::voice::{wake_first_asleep, RenderStep, Voice, VOICE_COUNT};
use dondon::waveform::{Shape, Waveform};

const ATTACK: f32 = 0.1;
const DECAY: f32 = 0.2;
const RELEASE: f32 = 0.1;

fn expired_at(time: f32, end: f32) -> impl Fn(&Adsr<f32>) -> bool {
    move |stage| match *stage {
        Adsr::Attack(start) => time - start >= ATTACK,
        Adsr::Decay(start) => time - start >= DECAY,
        Adsr::Sustain => time >= end,
        Adsr::Release(start) => time - start >= RELEASE,
        Adsr::Waiting | Adsr::Finished => true,
    }
}

fn stage_name(s: Adsr<f32>) -> (&'static str, Option<f32>) {
    match s {
        Adsr::Waiting => ("waiting", None),
        Adsr::Attack(t) => ("attack", Some(t)),
        Adsr::Decay(t) => ("decay", Some(t)),
        Adsr::Sustain => ("sustain", None),
        Adsr::Release(t) => ("release", Some(t)),
        Adsr::Finished => ("finished", None),
    }
}

#[test]
fn waiting_envelope_starts_its_attack() {
    let s = settle(Adsr::Waiting, 2.0, expired_at(2.0, 3.0));
    assert_eq!(stage_name(s), ("attack", Some(2.0)));
}

#[test]
fn attack_lasts_its_length() {
    let s = settle(Adsr::Attack(1.0), 1.05, expired_at(1.05, 3.0));
    assert_eq!(stage_name(s), ("attack", Some(1.0)));
    let s = settle(Adsr::Attack(1.0), 1.15, expired_at(1.15, 3.0));
    assert_eq!(stage_name(s), ("decay", Some(1.15)));
}

#[test]
fn late_sample_runs_through_several_stages() {
    let s = settle(Adsr::Decay(0.0), 5.0, expired_at(5.0, 1.0));
    assert_eq!(stage_name(s), ("release", Some(5.0)));
    let s = settle(Adsr::Sustain, 0.5, expired_at(0.5, 1.0));
    assert_eq!(stage_name(s), ("sustain", None));
}

#[test]
fn finished_envelope_stays_finished() {
    let s = settle(Adsr::Release(0.0), 1.0, expired_at(1.0, 0.5));
    assert_eq!(stage_name(s), ("finished", None));
    let s = settle(Adsr::Finished, 9.0, expired_at(9.0, 0.5));
    assert_eq!(stage_name(s), ("finished", None));
    assert!(Adsr::<f32>::Finished.is_finished());
    assert!(Adsr::<f32>::default().is_waiting());
}

#[test]
fn envelope_never_goes_back() {
    let order = ["waiting", "attack", "decay", "sustain", "release", "finished"];
    let rank = |s: Adsr<f32>| order.iter().position(|n| *n == stage_name(s).0).unwrap();
    let mut state = Adsr::Waiting;
    let mut time = 0.0f32;
    while time < 2.0 {
        let next = settle(state, time, expired_at(time, 1.0));
        assert!(rank(next) >= rank(state));
        assert!(rank(next) >= 1);
        state = next;
        time += 0.01;
    }
    assert_eq!(stage_name(state).0, "finished");
}

#[test]
fn finished_voice_is_retired() {
    let mut v: Voice<f32, u8> = Voice::new(7);
    v.asleep = false;
    v.stage = Adsr::Finished;
    assert_eq!(v.begin_render(false), RenderStep::Retired);
    assert!(v.asleep);
    assert_eq!(v.params, 7);
}

#[test]
fn sleeping_or_early_voice_is_silent() {
    let mut v: Voice<f32, u8> = Voice::new(0);
    assert!(v.asleep);
    assert!(v.stage.is_waiting());
    assert_eq!(v.begin_render(false), RenderStep::Idle);
    v.asleep = false;
    assert_eq!(v.begin_render(true), RenderStep::Idle);
    assert_eq!(v.begin_render(false), RenderStep::Sounding);
    v.stage = Adsr::Sustain;
    assert_eq!(v.begin_render(true), RenderStep::Sounding);
}

#[test]
fn new_note_wakes_the_first_sleeping_voice() {
    let mut voices: Vec<Voice<f32, u8>> = (0..VOICE_COUNT as u8).map(Voice::new).collect();
    voices[0].asleep = false;
    voices[1].asleep = false;
    voices[3].stage = Adsr::Finished;
    assert_eq!(wake_first_asleep(&mut voices), Some(2));
    assert!(!voices[2].asleep);
    assert!(voices[2].stage.is_waiting());
    assert_eq!(wake_first_asleep(&mut voices), Some(3));
    assert!(voices[3].stage.is_waiting());
    assert_eq!(voices[3].params, 3);
}

#[test]
fn note_is_dropped_when_every_voice_is_busy() {
    let mut voices: Vec<Voice<f32, u8>> = (0..VOICE_COUNT as u8).map(Voice::new).collect();
    for _ in 0..VOICE_COUNT {
        assert!(wake_first_asleep(&mut voices).is_some());
    }
    assert_eq!(wake_first_asleep(&mut voices), None);
    assert!(voices.iter().all(|v| !v.asleep));
}

#[test]
fn play_button_toggles_and_engine_follows() {
    let mut ui = false;
    let mut engine = false;
    for _ in 0..5 {
        let command = play_or_stop(&mut ui);
        apply_ui_command(&mut engine, command);
        assert_eq!(ui, engine);
    }
    assert!(ui);
    let mut playing = false;
    assert_eq!(play_or_stop(&mut playing), UiCommand::Resume);
    assert!(playing);
    assert_eq!(play_or_stop(&mut playing), UiCommand::Pause);
    assert!(!playing);
}

#[test]
fn last_queued_command_wins() {
    let mut playing = false;
    apply_ui_commands(&mut playing, &vec![UiCommand::Resume, UiCommand::Pause, UiCommand::Resume]);
    assert!(playing);
    apply_ui_commands(&mut playing, &vec![]);
    assert!(playing);
    apply_ui_commands(&mut playing, &vec![UiCommand::Pause]);
    assert!(!playing);
}

#[test]
fn stream_config_is_checked_in_order() {
    assert_eq!(check_stream_config(2, true, 48_000), Ok(()));
    assert_eq!(check_stream_config(2, true, 44_100), Ok(()));
    assert_eq!(check_stream_config(1, false, 96_000), Err(ConfigError::Channels(1)));
    assert_eq!(check_stream_config(2, false, 96_000), Err(ConfigError::SampleFormat));
    assert_eq!(check_stream_config(2, true, 96_000), Err(ConfigError::SampleRate(96_000)));
    assert!(unusual_channel_count(6));
    assert!(!unusual_channel_count(2));
}

#[test]
fn shapes_default_to_sine() {
    assert_eq!(Shape::default(), Shape::Sine);
    assert_ne!(Waveform::Square, Waveform::Sawtooth);
}
