use sampler::config::{PlaybackMode, SamplePlaybackConfig, SamplePlaybackConfigJson};
use sampler::sampler::{GcAction, PlayAction, Sampler};

fn wire(id: Option<&str>, filename: &str, volume: Option<f32>, mode: Option<PlaybackMode>) -> SamplePlaybackConfig {
    SamplePlaybackConfig::from(SamplePlaybackConfigJson {
        id: id.map(|s| s.to_string()),
        filename: filename.to_string(),
        volume: volume.map(f32::to_bits),
        restart: None,
        mode,
    })
}

#[test]
fn one_shot_drains_and_is_reclaimed() {
    let mut s = Sampler::new();

    // {"filename": "a.wav"}
    let a = s.play(wire(None, "a.wav", None, None));
    assert!(a == PlayAction::StartNew);
    assert_eq!(s.samples.len(), 1);
    assert_eq!(s.samples[0].id, "a.wav");

    // {"filename": "a.wav", "volume": 0.5}
    let b = s.play(wire(None, "a.wav", Some(0.5), None));
    assert!(b == PlayAction::SetVolume);
    assert_eq!(s.samples.len(), 1);
    assert_eq!(s.samples[0].sink.volume, 0.5f32.to_bits());

    // The sample drains, then a reclamation sweep runs: the default mode is
    // OneShot, so the slot is removed.
    let actions = s.gc(&vec![true]);
    assert!(actions[0] == GcAction::Remove);
    assert!(s.find(&"a.wav".to_string()).is_none());
    assert_eq!(s.samples.len(), 0);
}

#[test]
fn repeat_survives_every_sweep() {
    let mut s = Sampler::new();

    // {"id": "thunder", "filename": "t.wav", "mode": "repeat"}
    let a = s.play(wire(Some("thunder"), "t.wav", None, Some(PlaybackMode::Repeat)));
    assert!(a == PlayAction::StartNew);

    // Sweeps spanning the sample's duration: some find it still playing,
    // some find it drained.  The slot survives each one and is audible
    // (queued) right after each sweep.
    let drained_by_sweep = [false, true, false, true, true, false];
    for &drained in &drained_by_sweep {
        let actions = s.gc(&vec![drained]);
        assert_eq!(actions.len(), 1);
        if drained {
            assert!(actions[0] == GcAction::Requeue);
        } else {
            assert!(actions[0] == GcAction::Keep);
        }
        assert_eq!(s.samples.len(), 1);
        assert_eq!(s.samples[0].id, "thunder");
        assert!(s.samples[0].sink.queued);
        assert!(s.samples[0].config.mode == PlaybackMode::Repeat);
    }
}
