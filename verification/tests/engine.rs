use sampler::config::{PlaybackMode, SamplePlaybackConfig, DEFAULT_VOLUME};
use sampler::sampler::{GcAction, PlayAction, Sampler};

fn command(id: &str, file: &str, volume: u32, restart: bool, mode: PlaybackMode) -> SamplePlaybackConfig {
    SamplePlaybackConfig {
        id: id.to_string(),
        canonical_filename: file.to_string(),
        volume,
        restart,
        mode,
    }
}

#[test]
fn unknown_id_starts_new_slot() {
    let mut s = Sampler::new();
    let a = s.play(command("a", "a.wav", DEFAULT_VOLUME, false, PlaybackMode::OneShot));
    assert!(a == PlayAction::StartNew);
    assert_eq!(s.samples.len(), 1);
    assert_eq!(s.samples[0].id, "a");
    assert!(s.samples[0].sink.queued);
    assert_eq!(s.samples[0].sink.volume, DEFAULT_VOLUME);
}

#[test]
fn unknown_id_starts_even_with_restart_or_stop() {
    let mut s = Sampler::new();
    let a = s.play(command("a", "a.wav", DEFAULT_VOLUME, true, PlaybackMode::Repeat));
    assert!(a == PlayAction::StartNew);
    // A fresh start queues the source even in Stop mode: the engine treats
    // any unknown identity as a hard start.
    let b = s.play(command("b", "b.wav", DEFAULT_VOLUME, false, PlaybackMode::Stop));
    assert!(b == PlayAction::StartNew);
    assert_eq!(s.samples.len(), 2);
    assert!(s.samples[1].sink.queued);
}

#[test]
fn soft_update_sets_volume_only() {
    let mut s = Sampler::new();
    s.play(command("a", "a.wav", DEFAULT_VOLUME, false, PlaybackMode::Repeat));
    let half = 0.5f32.to_bits();
    let a = s.play(command("a", "other.wav", half, false, PlaybackMode::Repeat));
    assert!(a == PlayAction::SetVolume);
    assert_eq!(s.samples.len(), 1);
    assert_eq!(s.samples[0].sink.volume, half);
    assert!(s.samples[0].sink.queued);
    // The stored configuration is deliberately not refreshed on a soft
    // transition: source path and volume keep their previously stored values.
    assert_eq!(s.samples[0].config.canonical_filename, "a.wav");
    assert_eq!(s.samples[0].config.volume, DEFAULT_VOLUME);
    assert!(s.samples[0].config.mode == PlaybackMode::Repeat);
}

#[test]
fn forced_restart_replaces_sink() {
    let mut s = Sampler::new();
    s.play(command("a", "a.wav", DEFAULT_VOLUME, false, PlaybackMode::OneShot));
    let half = 0.5f32.to_bits();
    let a = s.play(command("a", "b.wav", half, true, PlaybackMode::OneShot));
    assert!(a == PlayAction::Replace);
    assert_eq!(s.samples.len(), 1);
    assert_eq!(s.samples[0].config.canonical_filename, "b.wav");
    assert_eq!(s.samples[0].sink.volume, half);
    assert!(s.samples[0].sink.queued);
}

#[test]
fn mode_change_triggers_hard_transition() {
    let mut s = Sampler::new();
    s.play(command("a", "a.wav", DEFAULT_VOLUME, false, PlaybackMode::OneShot));
    let a = s.play(command("a", "a.wav", DEFAULT_VOLUME, false, PlaybackMode::Repeat));
    assert!(a == PlayAction::Replace);
    assert!(s.samples[0].config.mode == PlaybackMode::Repeat);

    let b = s.play(command("a", "a.wav", DEFAULT_VOLUME, false, PlaybackMode::Stop));
    assert!(b == PlayAction::StopOnly);
    assert!(s.samples[0].config.mode == PlaybackMode::Stop);

    let c = s.play(command("a", "a.wav", DEFAULT_VOLUME, false, PlaybackMode::OneShot));
    assert!(c == PlayAction::Replace);
    assert!(s.samples[0].config.mode == PlaybackMode::OneShot);
}

#[test]
fn stop_keeps_slot_without_audio() {
    let mut s = Sampler::new();
    let loud = 0.8f32.to_bits();
    s.play(command("a", "a.wav", loud, false, PlaybackMode::OneShot));
    let a = s.play(command("a", "a.wav", 0.1f32.to_bits(), false, PlaybackMode::Stop));
    assert!(a == PlayAction::StopOnly);
    assert_eq!(s.samples.len(), 1);
    assert!(!s.samples[0].sink.queued);
    // Stopping applies no new gain; the sink keeps the one it had.
    assert_eq!(s.samples[0].sink.volume, loud);
    // A later playing-mode command brings the slot back to life.
    let b = s.play(command("a", "a.wav", loud, false, PlaybackMode::Repeat));
    assert!(b == PlayAction::Replace);
    assert!(s.samples[0].sink.queued);
}

#[test]
fn needs_new_sink_cases() {
    let mut s = Sampler::new();
    let fresh = command("a", "a.wav", DEFAULT_VOLUME, false, PlaybackMode::OneShot);
    assert!(s.needs_new_sink(&fresh));
    s.play(fresh);
    // Same mode, no restart: a bare volume change needs no new resources.
    let soft = command("a", "a.wav", 0.5f32.to_bits(), false, PlaybackMode::OneShot);
    assert!(!s.needs_new_sink(&soft));
    // A mode change replaces the sink.
    let hard = command("a", "a.wav", DEFAULT_VOLUME, false, PlaybackMode::Repeat);
    assert!(s.needs_new_sink(&hard));
    // A transition to Stop keeps the old resources stopped.
    let stop = command("a", "a.wav", DEFAULT_VOLUME, true, PlaybackMode::Stop);
    assert!(!s.needs_new_sink(&stop));
}

#[test]
fn find_locates_slots_by_id() {
    let mut s = Sampler::new();
    s.play(command("a", "a.wav", DEFAULT_VOLUME, false, PlaybackMode::OneShot));
    s.play(command("b", "b.wav", DEFAULT_VOLUME, false, PlaybackMode::Repeat));
    assert_eq!(s.find(&"a".to_string()), Some(0));
    assert_eq!(s.find(&"b".to_string()), Some(1));
    assert_eq!(s.find(&"c".to_string()), None);
}

#[test]
fn gc_removes_drained_one_shot() {
    let mut s = Sampler::new();
    s.play(command("a", "a.wav", DEFAULT_VOLUME, false, PlaybackMode::OneShot));
    let actions = s.gc(&vec![true]);
    assert_eq!(actions.len(), 1);
    assert!(actions[0] == GcAction::Remove);
    assert_eq!(s.samples.len(), 0);
}

#[test]
fn gc_removes_drained_stopped_slot() {
    let mut s = Sampler::new();
    s.play(command("a", "a.wav", DEFAULT_VOLUME, false, PlaybackMode::OneShot));
    s.play(command("a", "a.wav", DEFAULT_VOLUME, false, PlaybackMode::Stop));
    let actions = s.gc(&vec![true]);
    assert!(actions[0] == GcAction::Remove);
    assert_eq!(s.samples.len(), 0);
}

#[test]
fn gc_requeues_drained_repeat() {
    let mut s = Sampler::new();
    s.play(command("a", "a.wav", DEFAULT_VOLUME, false, PlaybackMode::Repeat));
    let actions = s.gc(&vec![true]);
    assert!(actions[0] == GcAction::Requeue);
    assert_eq!(s.samples.len(), 1);
    assert_eq!(s.samples[0].id, "a");
    assert!(s.samples[0].sink.queued);
}

#[test]
fn gc_keeps_undrained_slots() {
    let mut s = Sampler::new();
    s.play(command("a", "a.wav", DEFAULT_VOLUME, false, PlaybackMode::OneShot));
    let actions = s.gc(&vec![false]);
    assert!(actions[0] == GcAction::Keep);
    assert_eq!(s.samples.len(), 1);
    assert!(s.samples[0].sink.queued);
}

#[test]
fn gc_judges_each_slot_on_its_own() {
    let mut s = Sampler::new();
    s.play(command("a", "a.wav", DEFAULT_VOLUME, false, PlaybackMode::OneShot));
    s.play(command("b", "b.wav", DEFAULT_VOLUME, false, PlaybackMode::Repeat));
    s.play(command("c", "c.wav", DEFAULT_VOLUME, false, PlaybackMode::OneShot));
    let actions = s.gc(&vec![true, true, false]);
    assert!(actions[0] == GcAction::Remove);
    assert!(actions[1] == GcAction::Requeue);
    assert!(actions[2] == GcAction::Keep);
    assert_eq!(s.samples.len(), 2);
    assert_eq!(s.samples[0].id, "b");
    assert_eq!(s.samples[1].id, "c");
}
