//! The sampler state engine: the map from a sample identity to its live
//! playback slot, the transition applied when a command arrives, and the
//! reclamation sweep over finished slots.
//!
//! The engine holds no audio resource itself.  The surrounding program owns
//! the real sinks and streams, keyed by the same identities, and drives the
//! engine in two steps: it asks [`Sampler::needs_new_sink`] whether a command
//! calls for fresh audio resources, creates them first (so that a failed
//! creation leaves every slot untouched), and only then commits the command
//! with [`Sampler::play`], mirroring the returned [`PlayAction`] on the real
//! resources.  [`Sampler::gc`] likewise takes, for each slot in order, whether
//! its real sink has drained, and returns what to do with each.

use vstd::prelude::*;

use crate::config::{ConfigModel, PlaybackMode, SamplePlaybackConfig};

verus! {

/// What the engine knows of a slot's live audio sink: the gain last applied
/// to it (as the bit pattern of the requested value) and whether audio is
/// still queued on it.
#[derive(Clone, Copy, Debug, PartialEq, Eq, Structural)]
pub struct SinkState {
    pub volume: u32,
    pub queued: bool,
}

/// One active playback slot: its identity, the configuration last applied by
/// a hard transition, and the state of its sink.
pub struct Sample {
    pub id: String,
    pub config: SamplePlaybackConfig,
    pub sink: SinkState,
}

/// The mathematical value of a playback slot.
#[verifier::ext_equal]
pub ghost struct SampleModel {
    pub id: Seq<char>,
    pub config: ConfigModel,
    pub sink: SinkState,
}

impl View for Sample {
    type V = SampleModel;

    open spec fn view(&self) -> SampleModel {
        SampleModel { id: self.id@, config: self.config@, sink: self.sink }
    }
}

/// What the surrounding program must do to its real audio resources after a
/// call of [`Sampler::play`].
#[derive(Clone, Copy, Debug, PartialEq, Eq, Structural)]
pub enum PlayAction {
    /// No slot carried the command's identity: install the freshly created
    /// sink and stream under that identity and let them play.
    StartNew,
    /// Hard transition to a playing mode: stop the slot's old sink, install
    /// the freshly created one in its place, and release the old resources.
    Replace,
    /// Hard transition to `Stop`: stop the slot's sink; its resources are
    /// retained stopped, and no new ones are needed.
    StopOnly,
    /// Soft transition: apply the command's volume to the slot's sink and
    /// change nothing else.
    SetVolume,
}

/// Per-slot outcome of one reclamation sweep.
#[derive(Clone, Copy, Debug, PartialEq, Eq, Structural)]
pub enum GcAction {
    /// The sink has not drained: the slot is untouched.
    Keep,
    /// A drained `Repeat` slot: append a fresh decode of its canonical file
    /// to the same sink and keep playing.
    Requeue,
    /// A drained `OneShot` or `Stop` slot: it has been removed; release its
    /// sink and stream.
    Remove,
}

/// The slot map.  Insertion order carries no meaning; an identity occurs at
/// most once.
pub struct Sampler {
    pub samples: Vec<Sample>,
}

impl View for Sampler {
    type V = Seq<SampleModel>;

    open spec fn view(&self) -> Seq<SampleModel> {
        self.samples@.map_values(|s: Sample| s@)
    }
}

/// Some slot of `s` carries the identity `id`.
pub open spec fn has_slot(s: Seq<SampleModel>, id: Seq<char>) -> bool {
    exists|i: int| 0 <= i < s.len() && s[i].id == id
}

/// No two slots of `s` carry the same identity.
pub open spec fn unique_ids(s: Seq<SampleModel>) -> bool {
    forall|i: int, j: int| 0 <= i < j < s.len() ==> s[i].id != s[j].id
}

/// A command forces a hard transition when it asks for a restart or changes
/// the slot's mode.
pub open spec fn is_hard(c: ConfigModel, current: PlaybackMode) -> bool {
    c.restart || c.mode != current
}

/// The slot a fresh start creates: the command is stored whole, and a new
/// sink plays the command's source at the command's volume.
pub open spec fn fresh_sample(c: ConfigModel) -> SampleModel {
    SampleModel { id: c.id, config: c, sink: SinkState { volume: c.volume, queued: true } }
}

/// A hard transition to a playing mode: the stored configuration is
/// overwritten and a fresh sink plays the new source at the new volume.
pub open spec fn restarted(s: SampleModel, c: ConfigModel) -> SampleModel {
    SampleModel { id: s.id, config: c, sink: SinkState { volume: c.volume, queued: true } }
}

/// A hard transition to `Stop`: the stored configuration is overwritten, the
/// sink is stopped and its queue cleared; its volume setting is untouched.
pub open spec fn stopped(s: SampleModel, c: ConfigModel) -> SampleModel {
    SampleModel { id: s.id, config: c, sink: SinkState { volume: s.sink.volume, queued: false } }
}

/// A soft transition: only the sink's gain changes.  The stored
/// configuration is deliberately left as it was, so a later hard transition
/// judges the mode against the configuration that last took effect.
pub open spec fn volume_set(s: SampleModel, v: u32) -> SampleModel {
    SampleModel { id: s.id, config: s.config, sink: SinkState { volume: v, queued: s.sink.queued } }
}

/// What one command does to an existing slot that carries its identity.
pub open spec fn played_slot(s: SampleModel, c: ConfigModel) -> SampleModel {
    if is_hard(c, s.config.mode) {
        if c.mode == PlaybackMode::Stop {
            stopped(s, c)
        } else {
            restarted(s, c)
        }
    } else {
        volume_set(s, c.volume)
    }
}

/// The action an existing slot's transition asks of the caller.
pub open spec fn slot_action(s: SampleModel, c: ConfigModel) -> PlayAction {
    if is_hard(c, s.config.mode) {
        if c.mode == PlaybackMode::Stop {
            PlayAction::StopOnly
        } else {
            PlayAction::Replace
        }
    } else {
        PlayAction::SetVolume
    }
}

/// What one command does to the whole slot map.
pub open spec fn spec_play(s: Seq<SampleModel>, c: ConfigModel) -> Seq<SampleModel> {
    if has_slot(s, c.id) {
        let i = choose|i: int| 0 <= i < s.len() && s[i].id == c.id;
        s.update(i, played_slot(s[i], c))
    } else {
        s.push(fresh_sample(c))
    }
}

/// The action one command asks of the caller.
pub open spec fn spec_play_action(s: Seq<SampleModel>, c: ConfigModel) -> PlayAction {
    if has_slot(s, c.id) {
        let i = choose|i: int| 0 <= i < s.len() && s[i].id == c.id;
        slot_action(s[i], c)
    } else {
        PlayAction::StartNew
    }
}

/// The slot a drained `Repeat` slot becomes: the same stored configuration
/// and gain, with a fresh decode of its canonical file queued on the same
/// sink.
pub open spec fn requeued(s: SampleModel) -> SampleModel {
    SampleModel { id: s.id, config: s.config, sink: SinkState { volume: s.sink.volume, queued: true } }
}

/// The reclamation decision for one slot: it depends on that slot's own
/// state alone.  A slot whose sink still has audio queued is kept; a drained
/// `Repeat` slot is requeued; a drained `OneShot` or `Stop` slot is removed.
pub open spec fn spec_gc_action(s: SampleModel, drained: bool) -> GcAction {
    if !drained {
        GcAction::Keep
    } else {
        match s.config.mode {
            PlaybackMode::Repeat => GcAction::Requeue,
            PlaybackMode::OneShot => GcAction::Remove,
            PlaybackMode::Stop => GcAction::Remove,
        }
    }
}

/// What one slot contributes to the swept map.
pub open spec fn spec_gc_step(s: SampleModel, drained: bool) -> Seq<SampleModel> {
    match spec_gc_action(s, drained) {
        GcAction::Keep => seq![s],
        GcAction::Requeue => seq![requeued(s)],
        GcAction::Remove => Seq::empty(),
    }
}

/// The slot map one reclamation sweep leaves behind, given for each slot
/// whether its sink had drained.  Slots are neither reordered nor skipped.
pub open spec fn spec_gc(s: Seq<SampleModel>, drained: Seq<bool>) -> Seq<SampleModel>
    decreases s.len(),
{
    if s.len() == 0 {
        Seq::empty()
    } else {
        spec_gc(s.drop_last(), drained.drop_last()) + spec_gc_step(s.last(), drained.last())
    }
}

/// A command calls for fresh audio resources exactly when it starts a new
/// slot or replaces an existing slot's sink.
pub open spec fn spec_needs_new_sink(s: Seq<SampleModel>, c: ConfigModel) -> bool {
    spec_play_action(s, c) == PlayAction::StartNew || spec_play_action(s, c) == PlayAction::Replace
}

impl Sampler {
    /// Every slot map the engine ever exposes keys each identity at most
    /// once.
    pub open spec fn wf(self) -> bool {
        unique_ids(self@)
    }

    /// A sampler starts with no slots.
    pub fn new() -> (s: Sampler)
        ensures
            s@ == Seq::<SampleModel>::empty(),
            s.wf(),
    {
        let s = Sampler { samples: Vec::new() };
        proof {
            assert(s@ =~= Seq::<SampleModel>::empty());
        }
        s
    }

    /// The index of the slot carrying `id`, if any.
    pub fn find(&self, id: &String) -> (r: Option<usize>)
        ensures
            match r {
                Some(i) => i < self@.len() && self@[i as int].id == id@,
                None => !has_slot(self@, id@),
            },
    {
        let n = self.samples.len();
        let mut i: usize = 0;
        while i < n
            invariant
                i <= n,
                n == self@.len(),
                forall|j: int| 0 <= j < i ==> self@[j].id != id@,
            decreases n - i,
        {
            proof {
                assert(self@[i as int] == self.samples@[i as int]@);
            }
            if self.samples[i].id == *id {
                return Some(i);
            }
            i += 1;
        }
        None
    }

    /// Whether a command calls for fresh audio resources: a fresh start or a
    /// sink replacement does, a stop or a bare volume change does not.  The
    /// caller asks this before [`Self::play`] and creates the resources
    /// first, so that a failed creation leaves every slot untouched.
    pub fn needs_new_sink(&self, config: &SamplePlaybackConfig) -> (b: bool)
        requires
            self.wf(),
        ensures
            b == spec_needs_new_sink(self@, config@),
    {
        match self.find(&config.id) {
            None => true,
            Some(i) => {
                proof {
                    lemma_unique_index(self@, i as int, config@.id);
                }
                let hard = config.restart || config.mode != self.samples[i].config.mode;
                proof {
                    assert(self@[i as int] == self.samples@[i as int]@);
                }
                hard && config.mode != PlaybackMode::Stop
            },
        }
    }

    /// Apply one playback command to the slot map.
    ///
    /// An unknown identity always starts a fresh slot.  For a known identity
    /// the command is judged against the slot's stored configuration: a
    /// restart or a mode change is a hard transition, which overwrites the
    /// stored configuration and stops or replaces the sink; anything else is
    /// a soft transition, which changes the sink's gain alone and leaves the
    /// stored configuration as it was.  The returned action is what the
    /// caller must mirror on its real audio resources; the resources a hard
    /// start or replacement needs were created by the caller beforehand (see
    /// [`Self::needs_new_sink`]), so this call cannot fail.
    pub fn play(&mut self, config: SamplePlaybackConfig) -> (a: PlayAction)
        requires
            old(self).wf(),
            config.wf(),
        ensures
            final(self).wf(),
            final(self)@ == spec_play(old(self)@, config@),
            a == spec_play_action(old(self)@, config@),
    {
        let ghost s0: Seq<SampleModel> = self@;
        let ghost c: ConfigModel = config@;
        match self.find(&config.id) {
            Some(i) => {
                proof {
                    lemma_unique_index(self@, i as int, c.id);
                    assert(self@[i as int] == self.samples@[i as int]@);
                }
                let hard = config.restart || config.mode != self.samples[i].config.mode;
                if hard {
                    if config.mode == PlaybackMode::Stop {
                        let slot = &mut self.samples[i];
                        slot.sink.queued = false;
                        slot.config = config;
                        proof {
                            lemma_update_view(*self, s0, i as int, stopped(s0[i as int], c));
                        }
                        PlayAction::StopOnly
                    } else {
                        let v = config.volume;
                        let slot = &mut self.samples[i];
                        slot.sink = SinkState { volume: v, queued: true };
                        slot.config = config;
                        proof {
                            lemma_update_view(*self, s0, i as int, restarted(s0[i as int], c));
                        }
                        PlayAction::Replace
                    }
                } else {
                    let v = config.volume;
                    let slot = &mut self.samples[i];
                    slot.sink.volume = v;
                    proof {
                        lemma_update_view(*self, s0, i as int, volume_set(s0[i as int], c.volume));
                    }
                    PlayAction::SetVolume
                }
            },
            None => {
                let v = config.volume;
                let slot_id = config.id.clone();
                let sample = Sample { id: slot_id, config, sink: SinkState { volume: v, queued: true } };
                self.samples.push(sample);
                proof {
                    assert forall|j: int| 0 <= j < self@.len() implies self@[j] == s0.push(
                        fresh_sample(c),
                    )[j] by {
                        assert(self@[j] == self.samples@[j]@);
                        if j < s0.len() {
                            assert(self.samples@[j] == old(self).samples@[j]);
                        }
                    }
                    assert(self@ =~= s0.push(fresh_sample(c)));
                    assert forall|p: int, q: int| 0 <= p < q < self@.len() implies self@[p].id
                        != self@[q].id by {
                        if q == s0.len() {
                            assert(!has_slot(s0, c.id));
                            assert(!(0 <= p < s0.len() && s0[p].id == c.id));
                        }
                    }
                }
                PlayAction::StartNew
            },
        }
    }

    /// One reclamation sweep.  `drained` reports, for each slot in order,
    /// whether the caller's real sink for it has presented all queued audio;
    /// the caller then mirrors each returned action on the real resources.
    /// Each slot's decision depends only on its own state: an undrained slot
    /// is kept unchanged, a drained `Repeat` slot is requeued from its
    /// canonical file, a drained `OneShot` or `Stop` slot is removed.
    pub fn gc(&mut self, drained: &Vec<bool>) -> (actions: Vec<GcAction>)
        requires
            old(self).wf(),
            drained@.len() == old(self)@.len(),
        ensures
            final(self).wf(),
            final(self)@ == spec_gc(old(self)@, drained@),
            actions@.len() == old(self)@.len(),
            forall|k: int|
                0 <= k < old(self)@.len() ==> actions@[k] == spec_gc_action(
                    old(self)@[k],
                    drained@[k],
                ),
    {
        let ghost s0: Seq<SampleModel> = self@;
        let ghost d: Seq<bool> = drained@;
        let n = self.samples.len();
        let mut actions: Vec<GcAction> = Vec::new();
        let mut i: usize = 0;
        let mut j: usize = 0;
        while j < n
            invariant
                j <= n,
                i <= j,
                n == s0.len(),
                d.len() == s0.len(),
                d == drained@,
                i as int == spec_gc(s0.take(j as int), d.take(j as int)).len(),
                self@ == spec_gc(s0.take(j as int), d.take(j as int)) + s0.skip(j as int),
                actions@.len() == j,
                forall|k: int| 0 <= k < j ==> actions@[k] == spec_gc_action(s0[k], d[k]),
            decreases n - j,
        {
            let ghost gpre = spec_gc(s0.take(j as int), d.take(j as int));
            proof {
                lemma_gc_snoc(s0, d, j as int);
                assert(self@.len() == i + (n - j));
                assert(self@[i as int] == s0[j as int]);
                assert(self@[i as int] == self.samples@[i as int]@);
            }
            let ghost pre = self@;
            if !drained[j] {
                actions.push(GcAction::Keep);
                proof {
                    assert(self@ =~= (gpre + spec_gc_step(s0[j as int], d[j as int])) + s0.skip(
                        j as int + 1,
                    ));
                }
                i = i + 1;
            } else {
                match self.samples[i].config.mode {
                    PlaybackMode::Repeat => {
                        let slot = &mut self.samples[i];
                        slot.sink.queued = true;
                        actions.push(GcAction::Requeue);
                        proof {
                            assert forall|k: int| 0 <= k < self@.len() implies self@[k] == (
                            (gpre + spec_gc_step(s0[j as int], d[j as int])) + s0.skip(
                                j as int + 1,
                            ))[k] by {
                                assert(self@[k] == self.samples@[k]@);
                                if k != i as int {
                                    assert(self@[k] == pre[k]);
                                }
                            }
                            assert(self@ =~= (gpre + spec_gc_step(s0[j as int], d[j as int]))
                                + s0.skip(j as int + 1));
                        }
                        i = i + 1;
                    },
                    PlaybackMode::OneShot | PlaybackMode::Stop => {
                        self.samples.remove(i);
                        actions.push(GcAction::Remove);
                        proof {
                            assert forall|k: int| 0 <= k < self@.len() implies self@[k] == (
                            (gpre + spec_gc_step(s0[j as int], d[j as int])) + s0.skip(
                                j as int + 1,
                            ))[k] by {
                                assert(self@[k] == self.samples@[k]@);
                                if k < i as int {
                                    assert(self@[k] == pre[k]);
                                } else {
                                    assert(self@[k] == pre[k + 1]);
                                }
                            }
                            assert(self@ =~= (gpre + spec_gc_step(s0[j as int], d[j as int]))
                                + s0.skip(j as int + 1));
                        }
                    },
                }
            }
            j = j + 1;
        }
        proof {
            assert(s0.take(n as int) =~= s0);
            assert(d.take(n as int) =~= d);
            assert(s0.skip(n as int) =~= Seq::<SampleModel>::empty());
            assert(self@ =~= spec_gc(s0, d));
            lemma_gc_unique(s0, d);
        }
        actions
    }
}

/// When identities are unique, a slot map has at most one slot per identity,
/// so the index of a slot carrying `id` is the index the transition
/// specifications choose.
pub proof fn lemma_unique_index(s: Seq<SampleModel>, i: int, id: Seq<char>)
    requires
        unique_ids(s),
        0 <= i < s.len(),
        s[i].id == id,
    ensures
        has_slot(s, id),
        (choose|k: int| 0 <= k < s.len() && s[k].id == id) == i,
{
    assert(has_slot(s, id));
    let k = choose|k: int| 0 <= k < s.len() && s[k].id == id;
    if k < i {
        assert(s[k].id != s[i].id);
    } else if k > i {
        assert(s[i].id != s[k].id);
    }
}

/// After one slot of a sampler was rewritten in place, the sampler's model is
/// the old model with that one position replaced.
proof fn lemma_update_view(post: Sampler, s0: Seq<SampleModel>, i: int, m: SampleModel)
    requires
        0 <= i < s0.len(),
        post.samples@.len() == s0.len(),
        post.samples@[i]@ == m,
        forall|j: int| 0 <= j < s0.len() && j != i ==> post.samples@[j]@ == s0[j],
        unique_ids(s0),
        m.id == s0[i].id,
    ensures
        post@ == s0.update(i, m),
        unique_ids(post@),
{
    assert forall|j: int| 0 <= j < post@.len() implies post@[j] == s0.update(i, m)[j] by {
        assert(post@[j] == post.samples@[j]@);
    }
    assert(post@ =~= s0.update(i, m));
    assert forall|p: int, q: int| 0 <= p < q < post@.len() implies post@[p].id != post@[q].id by {
        assert(s0[p].id != s0[q].id);
        assert(post@[p].id == s0[p].id);
        assert(post@[q].id == s0[q].id);
    }
}

/// Sweeping one more slot appends that slot's contribution.
proof fn lemma_gc_snoc(s: Seq<SampleModel>, d: Seq<bool>, j: int)
    requires
        0 <= j < s.len(),
        j < d.len(),
    ensures
        spec_gc(s.take(j + 1), d.take(j + 1)) == spec_gc(s.take(j), d.take(j)) + spec_gc_step(
            s[j],
            d[j],
        ),
{
    let s1 = s.take(j + 1);
    let d1 = d.take(j + 1);
    assert(s1.drop_last() =~= s.take(j));
    assert(d1.drop_last() =~= d.take(j));
    assert(s1.last() == s[j]);
    assert(d1.last() == d[j]);
}

/// Every slot the sweep keeps carries the identity of some original slot.
proof fn lemma_gc_ids_come_from(s: Seq<SampleModel>, d: Seq<bool>)
    ensures
        forall|k: int|
            0 <= k < spec_gc(s, d).len() ==> has_slot(s, #[trigger] spec_gc(s, d)[k].id),
    decreases s.len(),
{
    if s.len() > 0 {
        let pre = s.drop_last();
        let dpre = d.drop_last();
        lemma_gc_ids_come_from(pre, dpre);
        let g = spec_gc(s, d);
        let gp = spec_gc(pre, dpre);
        assert forall|k: int| 0 <= k < g.len() implies has_slot(s, #[trigger] g[k].id) by {
            if k < gp.len() {
                assert(g[k] == gp[k]);
                assert(has_slot(pre, gp[k].id));
                let w = choose|w: int| 0 <= w < pre.len() && pre[w].id == gp[k].id;
                assert(s[w].id == gp[k].id);
            } else {
                assert(g[k].id == s.last().id);
                assert(s[s.len() - 1].id == g[k].id);
            }
        }
    }
}

/// A sweep never duplicates an identity.
pub proof fn lemma_gc_unique(s: Seq<SampleModel>, d: Seq<bool>)
    requires
        unique_ids(s),
    ensures
        unique_ids(spec_gc(s, d)),
    decreases s.len(),
{
    if s.len() > 0 {
        let pre = s.drop_last();
        let dpre = d.drop_last();
        assert(unique_ids(pre)) by {
            assert forall|p: int, q: int| 0 <= p < q < pre.len() implies pre[p].id != pre[q].id by {
                assert(s[p].id != s[q].id);
            }
        }
        lemma_gc_unique(pre, dpre);
        lemma_gc_ids_come_from(pre, dpre);
        let g = spec_gc(s, d);
        let gp = spec_gc(pre, dpre);
        let step = spec_gc_step(s.last(), d.last());
        assert forall|p: int, q: int| 0 <= p < q < g.len() implies g[p].id != g[q].id by {
            if q < gp.len() {
                assert(g[p] == gp[p]);
                assert(g[q] == gp[q]);
                assert(gp[p].id != gp[q].id);
            } else {
                assert(step.len() == 1);
                assert(p < gp.len());
                assert(g[q].id == s.last().id);
                assert(g[p] == gp[p]);
                assert(has_slot(pre, gp[p].id));
                let w = choose|w: int| 0 <= w < pre.len() && pre[w].id == gp[p].id;
                assert(s[w].id == gp[p].id);
                assert(s[w].id != s[s.len() - 1].id);
            }
        }
    }
}

} // verus!
