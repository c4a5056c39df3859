//! Laws of the sampler engine, stated over the transition and reclamation
//! specifications and proved for every input they admit.  Each law speaks of
//! an arbitrary well-formed slot map; `spec_play` and `spec_gc` are exactly
//! what [`crate::sampler::Sampler::play`] and [`crate::sampler::Sampler::gc`]
//! promise to compute.

use vstd::prelude::*;

use crate::config::{ConfigModel, PlaybackMode};
use crate::sampler::{
    fresh_sample, has_slot, is_hard, lemma_gc_unique, lemma_unique_index, requeued, restarted,
    spec_gc, spec_gc_action, spec_gc_step, spec_play, spec_play_action, stopped, unique_ids,
    volume_set, GcAction, PlayAction, SampleModel,
};

verus! {

/// A `Repeat`-mode command without `restart` for a slot already in `Repeat`
/// mode is a soft update: the sink's gain becomes the command's volume, and
/// nothing else changes — the slot's stored configuration (source path and
/// mode included), its queued audio, and every other slot stay as they were.
pub proof fn soft_update_changes_only_volume(s: Seq<SampleModel>, c: ConfigModel, i: int)
    requires
        unique_ids(s),
        0 <= i < s.len(),
        s[i].id == c.id,
        s[i].config.mode == PlaybackMode::Repeat,
        c.mode == PlaybackMode::Repeat,
        !c.restart,
    ensures
        spec_play(s, c) == s.update(i, volume_set(s[i], c.volume)),
        spec_play(s, c)[i].config == s[i].config,
        spec_play(s, c)[i].sink.volume == c.volume,
        spec_play(s, c)[i].sink.queued == s[i].sink.queued,
        spec_play_action(s, c) == PlayAction::SetVolume,
        forall|j: int| 0 <= j < s.len() && j != i ==> spec_play(s, c)[j] == s[j],
{
    lemma_unique_index(s, i, c.id);
}

/// A command with `restart` set always forces a hard transition on the slot
/// carrying its identity, whether or not the mode changed: the stored
/// configuration is overwritten with the command, prior playback ends, and —
/// in any mode other than `Stop` — a fresh sink plays the new source from
/// its start at the command's volume.
pub proof fn forced_restart(s: Seq<SampleModel>, c: ConfigModel, i: int)
    requires
        unique_ids(s),
        0 <= i < s.len(),
        s[i].id == c.id,
        c.restart,
    ensures
        is_hard(c, s[i].config.mode),
        spec_play(s, c)[i].config == c,
        c.mode != PlaybackMode::Stop ==> spec_play(s, c) == s.update(i, restarted(s[i], c)),
        c.mode != PlaybackMode::Stop ==> spec_play(s, c)[i].sink == (crate::sampler::SinkState {
            volume: c.volume,
            queued: true,
        }),
        c.mode != PlaybackMode::Stop ==> spec_play_action(s, c) == PlayAction::Replace,
        c.mode == PlaybackMode::Stop ==> spec_play(s, c) == s.update(i, stopped(s[i], c)),
        c.mode == PlaybackMode::Stop ==> spec_play_action(s, c) == PlayAction::StopOnly,
{
    lemma_unique_index(s, i, c.id);
}

/// A command whose mode differs from the slot's stored mode forces a hard
/// transition even without `restart`: for every pair of distinct modes, the
/// stored configuration is overwritten with the command, and playback is
/// restarted (or, for `Stop`, ended).
pub proof fn mode_change_forces_restart(s: Seq<SampleModel>, c: ConfigModel, i: int)
    requires
        unique_ids(s),
        0 <= i < s.len(),
        s[i].id == c.id,
        c.mode != s[i].config.mode,
    ensures
        is_hard(c, s[i].config.mode),
        spec_play(s, c)[i].config == c,
        c.mode != PlaybackMode::Stop ==> spec_play(s, c) == s.update(i, restarted(s[i], c)),
        c.mode == PlaybackMode::Stop ==> spec_play(s, c) == s.update(i, stopped(s[i], c)),
{
    lemma_unique_index(s, i, c.id);
}

/// A hard transition to `Stop` leaves the slot in place with no audio queued
/// on its sink: it produces nothing further until a later command replaces
/// the sink.  (A `Stop` command for an identity with no slot is not covered:
/// a fresh start queues the source even in `Stop` mode; nor is a soft
/// `Stop`-to-`Stop` volume change, which leaves such a queue playing.)
pub proof fn stop_leaves_no_queued_audio(s: Seq<SampleModel>, c: ConfigModel, i: int)
    requires
        unique_ids(s),
        0 <= i < s.len(),
        s[i].id == c.id,
        c.mode == PlaybackMode::Stop,
        is_hard(c, s[i].config.mode),
    ensures
        spec_play(s, c).len() == s.len(),
        has_slot(spec_play(s, c), c.id),
        spec_play(s, c)[i].sink.queued == false,
        spec_play(s, c)[i].config == c,
        spec_play(s, c)[i].id == s[i].id,
{
    lemma_unique_index(s, i, c.id);
    assert(spec_play(s, c)[i].id == c.id);
}

/// After a sweep, a drained slot that does not repeat (`OneShot` or `Stop`)
/// is gone: no slot carries its identity any more.
pub proof fn reclaim_removes_finished_one_shot(s: Seq<SampleModel>, d: Seq<bool>, i: int)
    requires
        unique_ids(s),
        d.len() == s.len(),
        0 <= i < s.len(),
        d[i],
        s[i].config.mode == PlaybackMode::OneShot || s[i].config.mode == PlaybackMode::Stop,
    ensures
        !has_slot(spec_gc(s, d), s[i].id),
{
    assert forall|j: int|
        0 <= j < s.len() && s[j].id == s[i].id implies spec_gc_action(s[j], d[j])
        == GcAction::Remove by {
        if j < i {
            assert(s[j].id != s[i].id);
        } else if j > i {
            assert(s[i].id != s[j].id);
        }
    }
    lemma_gc_drops_id(s, d, s[i].id);
}

/// After a sweep, a drained `Repeat` slot is still present under its
/// identity, unchanged but for a fresh decode of its canonical source queued
/// on its sink: it resumes producing audio.
pub proof fn reclaim_requeues_repeat(s: Seq<SampleModel>, d: Seq<bool>, i: int)
    requires
        unique_ids(s),
        d.len() == s.len(),
        0 <= i < s.len(),
        d[i],
        s[i].config.mode == PlaybackMode::Repeat,
    ensures
        has_slot(spec_gc(s, d), s[i].id),
        exists|k: int|
            0 <= k < spec_gc(s, d).len() && #[trigger] spec_gc(s, d)[k] == requeued(s[i]),
        requeued(s[i]).sink.queued,
        requeued(s[i]).config == s[i].config,
        forall|k: int|
            0 <= k < spec_gc(s, d).len() && #[trigger] spec_gc(s, d)[k].id == s[i].id ==> spec_gc(
                s,
                d,
            )[k] == requeued(s[i]),
{
    lemma_gc_keeps_image(s, d, i);
    let g = spec_gc(s, d);
    let k0 = choose|k: int| 0 <= k < g.len() && g[k] == spec_gc_step(s[i], d[i])[0];
    assert(spec_gc_step(s[i], d[i])[0] == requeued(s[i]));
    assert(g[k0].id == s[i].id);
    assert(has_slot(g, s[i].id));
    lemma_gc_unique(s, d);
    assert forall|k: int| 0 <= k < g.len() && #[trigger] g[k].id == s[i].id implies g[k]
        == requeued(s[i]) by {
        if k < k0 {
            assert(g[k].id != g[k0].id);
        } else if k > k0 {
            assert(g[k0].id != g[k].id);
        }
    }
}

/// A command whose identity no slot carries creates exactly one new slot —
/// the command stored whole, a fresh sink playing its source at its volume —
/// whatever its `restart` flag and mode say, and touches no other slot.
pub proof fn unknown_id_is_fresh_start(s: Seq<SampleModel>, c: ConfigModel)
    requires
        !has_slot(s, c.id),
    ensures
        spec_play(s, c) == s.push(fresh_sample(c)),
        spec_play(s, c).len() == s.len() + 1,
        spec_play(s, c).last() == fresh_sample(c),
        fresh_sample(c).sink.queued,
        fresh_sample(c).config == c,
        spec_play_action(s, c) == PlayAction::StartNew,
        forall|j: int| 0 <= j < s.len() ==> spec_play(s, c)[j] == s[j],
{
}

/// A sweep in which every identity's slot is removed leaves no slot under
/// that identity.
proof fn lemma_gc_drops_id(s: Seq<SampleModel>, d: Seq<bool>, id: Seq<char>)
    requires
        d.len() == s.len(),
        forall|j: int|
            0 <= j < s.len() && s[j].id == id ==> #[trigger] spec_gc_action(s[j], d[j])
                == GcAction::Remove,
    ensures
        !has_slot(spec_gc(s, d), id),
    decreases s.len(),
{
    if s.len() > 0 {
        let pre = s.drop_last();
        let dpre = d.drop_last();
        assert forall|j: int|
            0 <= j < pre.len() && pre[j].id == id implies #[trigger] spec_gc_action(
            pre[j],
            dpre[j],
        ) == GcAction::Remove by {
            assert(pre[j] == s[j]);
            assert(spec_gc_action(s[j], d[j]) == GcAction::Remove);
        }
        lemma_gc_drops_id(pre, dpre, id);
        let g = spec_gc(s, d);
        let gp = spec_gc(pre, dpre);
        let step = spec_gc_step(s.last(), d.last());
        assert forall|k: int| 0 <= k < g.len() implies g[k].id != id by {
            if k < gp.len() {
                assert(g[k] == gp[k]);
                assert(!(0 <= k < gp.len() && gp[k].id == id));
            } else {
                assert(g[k] == step[k - gp.len()]);
                assert(s[s.len() - 1] == s.last());
                if s.last().id == id {
                    assert(spec_gc_action(s.last(), d.last()) == GcAction::Remove);
                }
            }
        }
    }
}

/// A slot whose sweep decision is not removal contributes its (possibly
/// requeued) image to the swept map.
proof fn lemma_gc_keeps_image(s: Seq<SampleModel>, d: Seq<bool>, i: int)
    requires
        d.len() == s.len(),
        0 <= i < s.len(),
        spec_gc_action(s[i], d[i]) != GcAction::Remove,
    ensures
        exists|k: int|
            0 <= k < spec_gc(s, d).len() && #[trigger] spec_gc(s, d)[k] == spec_gc_step(
                s[i],
                d[i],
            )[0],
    decreases s.len(),
{
    let g = spec_gc(s, d);
    let pre = s.drop_last();
    let dpre = d.drop_last();
    let gp = spec_gc(pre, dpre);
    let step = spec_gc_step(s.last(), d.last());
    if i == s.len() - 1 {
        assert(s.last() == s[i]);
        assert(d.last() == d[i]);
        assert(step.len() == 1);
        assert(g[gp.len() as int] == step[0]);
    } else {
        assert(pre[i] == s[i]);
        assert(dpre[i] == d[i]);
        lemma_gc_keeps_image(pre, dpre, i);
        let k = choose|k: int|
            0 <= k < gp.len() && #[trigger] gp[k] == spec_gc_step(pre[i], dpre[i])[0];
        assert(g[k] == gp[k]);
    }
}

} // verus!
