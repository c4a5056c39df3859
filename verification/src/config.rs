//! Playback commands: the wire form with optional fields, and the fully
//! defaulted form that the engine consumes.

use vstd::prelude::*;

verus! {

/// How a playback slot behaves once its queued audio has been presented.
#[derive(Clone, Copy, Debug, PartialEq, Eq, Structural)]
pub enum PlaybackMode {
    /// Play the source once; the slot is reclaimed after it drains.
    OneShot,
    /// Play the source again whenever it drains; the slot persists.
    Repeat,
    /// Keep the slot but let no further audio play.
    Stop,
}

/// Bit pattern of the 32-bit binary floating-point value `1.0`, the gain a
/// command carries when it names none.  The engine never computes with the
/// gain; it only stores it and hands it on, so it is kept as its bit pattern.
pub const DEFAULT_VOLUME: u32 = 0x3F80_0000;

/// A playback command as decoded from the wire: every field but the file
/// name may be absent.  The volume is the bit pattern of the requested gain.
pub struct SamplePlaybackConfigJson {
    pub id: Option<String>,
    pub filename: String,
    pub volume: Option<u32>,
    pub restart: Option<bool>,
    pub mode: Option<PlaybackMode>,
}

/// A fully defaulted playback command: what one slot transition is asked to
/// do.  `id` names the slot; `canonical_filename` names the audio content;
/// `volume` is the bit pattern of the linear gain to apply.
pub struct SamplePlaybackConfig {
    pub id: String,
    pub canonical_filename: String,
    pub volume: u32,
    pub restart: bool,
    pub mode: PlaybackMode,
}

/// The mathematical value of a fully defaulted playback command.
#[verifier::ext_equal]
pub ghost struct ConfigModel {
    pub id: Seq<char>,
    pub canonical_filename: Seq<char>,
    pub volume: u32,
    pub restart: bool,
    pub mode: PlaybackMode,
}

impl View for SamplePlaybackConfig {
    type V = ConfigModel;

    open spec fn view(&self) -> ConfigModel {
        ConfigModel {
            id: self.id@,
            canonical_filename: self.canonical_filename@,
            volume: self.volume,
            restart: self.restart,
            mode: self.mode,
        }
    }
}

impl SamplePlaybackConfig {
    /// A command's identity is never empty: it is the sole key under which
    /// the engine files the slot.
    pub open spec fn wf(self) -> bool {
        self.id@.len() > 0
    }
}

impl SamplePlaybackConfigJson {
    /// The fully defaulted command that this wire command denotes: a missing
    /// `id` falls back to the file name, a missing volume to unity gain, a
    /// missing `restart` to `false`, and a missing mode to `OneShot`.
    pub open spec fn defaulted(self) -> SamplePlaybackConfig {
        SamplePlaybackConfig {
            id: match self.id {
                Some(s) => s,
                None => self.filename,
            },
            canonical_filename: self.filename,
            volume: match self.volume {
                Some(v) => v,
                None => DEFAULT_VOLUME,
            },
            restart: match self.restart {
                Some(r) => r,
                None => false,
            },
            mode: match self.mode {
                Some(m) => m,
                None => PlaybackMode::OneShot,
            },
        }
    }
}

impl From<SamplePlaybackConfigJson> for SamplePlaybackConfig {
    /// Fill in every absent field of a wire command with its default.
    fn from(config: SamplePlaybackConfigJson) -> (r: Self) {
        let SamplePlaybackConfigJson { id, filename, volume, restart, mode } = config;
        let resolved_id: String = match id {
            Some(s) => s,
            None => filename.clone(),
        };
        SamplePlaybackConfig {
            id: resolved_id,
            canonical_filename: filename,
            volume: match volume {
                Some(v) => v,
                None => DEFAULT_VOLUME,
            },
            restart: match restart {
                Some(r) => r,
                None => false,
            },
            mode: match mode {
                Some(m) => m,
                None => PlaybackMode::OneShot,
            },
        }
    }
}

impl vstd::std_specs::convert::FromSpecImpl<SamplePlaybackConfigJson> for SamplePlaybackConfig {
    open spec fn obeys_from_spec() -> bool {
        true
    }

    open spec fn from_spec(config: SamplePlaybackConfigJson) -> Self {
        config.defaulted()
    }
}

} // verus!
