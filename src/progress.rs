use vstd::prelude::*;

verus! {

/// Count of samples per pixel accumulated so far. The running mean at
/// sample `N` weighs the previous mean by `(N - 1) / N` and the new sample by
/// `1 / N`; those weights are functions of this count alone.
#[derive(Debug, Clone, Copy)]
pub struct Average {
    pub spp: i32,
}

impl Average {
    /// No samples yet.
    pub fn new() -> (r: Average)
        ensures
            r.spp == 0,
    {
        Average { spp: 0 }
    }

    /// Samples accumulated so far.
    pub fn sample(&self) -> (r: i32)
        ensures
            r == self.spp,
    {
        self.spp
    }

    /// Sets the number of samples accumulated.
    pub fn set_sample(&mut self, sample: i32)
        ensures
            final(self).spp == sample,
    {
        self.spp = sample;
    }

    /// Forgets all samples.
    pub fn reset(&mut self)
        ensures
            final(self).spp == 0,
    {
        self.spp = 0;
    }

    /// Starts the next sample.
    pub fn next_frame(&mut self)
        requires
            old(self).spp < i32::MAX,
        ensures
            final(self).spp == old(self).spp + 1,
    {
        self.spp = self.spp + 1;
    }
}

impl Default for Average {
    fn default() -> (r: Average)
        ensures
            r.spp == 0,
    {
        Average::new()
    }
}

/// Which buffer the tiles of the current pass are written to.
#[derive(Debug, Clone, Copy, PartialEq, Eq, Structural)]
pub enum TracingOutput {
    Output,
    Albedo,
    Normals,
}

/// What an export request asks the renderer to do next.
#[derive(Debug, Clone, Copy, PartialEq, Eq, Structural)]
pub enum ExportStep {
    /// Render the albedo pass first.
    TraceAlbedo,
    /// Render the normals pass first.
    TraceNormals,
    /// All passes are there: write the files.
    Save,
}

/// The decisions of the progressive renderer: how many tile jobs of the
/// current pass are still out, whether a restart is due, the cancellation
/// flag that workers read, and the sample counter.
pub struct Progress {
    /// Tile jobs of the current pass not yet merged.
    pub pending: u32,
    /// Tile jobs the current pass started with.
    pub spawned: u32,
    pub average: Average,
    pub reset_pending: bool,
    pub reset: bool,
    pub cancel: bool,
    pub has_albedo: bool,
    pub has_normals: bool,
    pub output: TracingOutput,
}

impl Progress {
    /// State after a restart is requested: workers are told to stop and the
    /// next sample starts from scratch. The sample counter is untouched.
    pub open spec fn after_reset(self) -> Progress {
        Progress { reset_pending: false, reset: true, cancel: true, ..self }
    }

    /// State after one tile of the current pass has been merged.
    pub open spec fn after_tile(self) -> Progress {
        Progress { pending: (self.pending - 1) as u32, ..self }
    }

    /// State after `k` tiles of the current pass have been merged.
    pub open spec fn after_tiles(self, k: nat) -> Progress
        decreases k,
    {
        if k == 0 {
            self
        } else {
            self.after_tiles((k - 1) as nat).after_tile()
        }
    }

    /// State after a new sample of `tiles` tile jobs is started. A pending
    /// restart clears the counter and the cancellation flag first.
    pub open spec fn after_start(self, tiles: u32) -> Progress {
        let base = if self.reset {
            Progress { reset: false, cancel: false, average: Average { spp: 0 }, ..self }
        } else {
            self
        };
        Progress {
            average: Average { spp: (base.average.spp + 1) as i32 },
            pending: tiles,
            spawned: tiles,
            ..base
        }
    }

    /// Whether a new sample may start: every tile of the last pass is merged
    /// and the camera is not being moved.
    pub open spec fn ready(self, moving: bool) -> bool {
        self.pending == 0 && !moving
    }

    /// Nothing rendered, nothing pending.
    pub fn new() -> (r: Progress)
        ensures
            r.pending == 0,
            r.spawned == 0,
            r.average.spp == 0,
            !r.reset_pending,
            !r.reset,
            !r.cancel,
            !r.has_albedo,
            !r.has_normals,
            r.output == TracingOutput::Output,
    {
        Progress {
            pending: 0,
            spawned: 0,
            average: Average::new(),
            reset_pending: false,
            reset: false,
            cancel: false,
            has_albedo: false,
            has_normals: false,
            output: TracingOutput::Output,
        }
    }

    /// Whether a restart has been requested and not yet carried out.
    pub fn reset(&self) -> (r: bool)
        ensures
            r == self.reset,
    {
        self.reset
    }

    /// Sets the flag that tells workers to stop tracing.
    pub fn set_cancel(&mut self, value: bool)
        ensures
            *final(self) == (Progress { cancel: value, ..*old(self) }),
    {
        self.cancel = value;
    }

    /// Asks for a restart once the current interaction ends.
    pub fn request_reset(&mut self)
        ensures
            *final(self) == (Progress { reset_pending: true, ..*old(self) }),
    {
        self.reset_pending = true;
    }

    /// Cancels the pass in flight and restarts accumulation at the next sample.
    pub fn reset_tracing(&mut self)
        ensures
            *final(self) == old(self).after_reset(),
    {
        self.reset_pending = false;
        self.reset = true;
        self.set_cancel(true);
    }

    /// Carries out a requested restart, if any.
    pub fn apply_reset_pending(&mut self)
        ensures
            *final(self) == if old(self).reset_pending {
                old(self).after_reset()
            } else {
                *old(self)
            },
    {
        if self.reset_pending {
            self.reset_tracing();
        }
    }

    /// A new scene invalidates the accumulated image and the auxiliary passes.
    pub fn scene_changed(&mut self)
        ensures
            *final(self) == (Progress {
                has_albedo: false,
                has_normals: false,
                ..old(self).after_reset()
            }),
    {
        self.reset_tracing();
        self.has_albedo = false;
        self.has_normals = false;
    }

    /// Clears the restart request, lets workers trace again and forgets all
    /// samples.
    pub fn begin_tracing(&mut self)
        ensures
            *final(self) == (Progress {
                reset: false,
                cancel: false,
                average: Average { spp: 0 },
                ..*old(self)
            }),
    {
        self.reset = false;
        self.set_cancel(false);
        self.average.reset();
    }

    /// Whether the renderer may start a new sample now.
    pub fn ready_for_sample(&self, moving: bool) -> (r: bool)
        ensures
            r == self.ready(moving),
    {
        self.pending == 0 && !moving
    }

    /// Starts a sample of `tiles` tile jobs once the last pass is merged.
    /// Returns whether accumulation restarted, in which case the caller clears
    /// the image and hands the workers the current camera and settings.
    pub fn start_new_sample(&mut self, tiles: u32) -> (restarted: bool)
        requires
            old(self).pending == 0,
            old(self).reset || old(self).average.spp < i32::MAX,
        ensures
            restarted == old(self).reset,
            *final(self) == old(self).after_start(tiles),
    {
        let restarted = self.reset();
        if restarted {
            self.begin_tracing();
        }
        self.average.next_frame();
        self.pending = tiles;
        self.spawned = tiles;
        restarted
    }

    /// Records that one tile of the current pass has been merged.
    pub fn tile_received(&mut self)
        requires
            old(self).pending > 0,
        ensures
            *final(self) == old(self).after_tile(),
    {
        self.pending = self.pending - 1;
    }

    /// Decides the next step of an export: the albedo and normal passes are
    /// rendered, `tiles` jobs each, before the files are written.
    pub fn export_step(&mut self, tiles: u32) -> (r: ExportStep)
        ensures
            !old(self).has_albedo ==> r == ExportStep::TraceAlbedo && *final(self) == (Progress {
                pending: tiles,
                spawned: tiles,
                output: TracingOutput::Albedo,
                has_albedo: true,
                ..*old(self)
            }),
            old(self).has_albedo && !old(self).has_normals ==> r == ExportStep::TraceNormals
                && *final(self) == (Progress {
                pending: tiles,
                spawned: tiles,
                output: TracingOutput::Normals,
                has_normals: true,
                ..*old(self)
            }),
            old(self).has_albedo && old(self).has_normals ==> r == ExportStep::Save
                && *final(self) == (Progress { output: TracingOutput::Output, ..*old(self) }),
    {
        if !self.has_albedo {
            self.pending = tiles;
            self.spawned = tiles;
            self.output = TracingOutput::Albedo;
            self.has_albedo = true;
            ExportStep::TraceAlbedo
        } else if !self.has_normals {
            self.pending = tiles;
            self.spawned = tiles;
            self.output = TracingOutput::Normals;
            self.has_normals = true;
            ExportStep::TraceNormals
        } else {
            self.output = TracingOutput::Output;
            ExportStep::Save
        }
    }

    /// Tells the workers to stop before the renderer shuts down.
    pub fn exit(&mut self)
        ensures
            *final(self) == (Progress { cancel: true, ..*old(self) }),
    {
        self.set_cancel(true);
    }
}

/// Merging tiles changes nothing but the count of tiles still out.
pub proof fn lemma_after_tiles(s: Progress, k: nat)
    requires
        k <= s.pending,
    ensures
        s.after_tiles(k) == (Progress { pending: (s.pending - k) as u32, ..s }),
    decreases k,
{
    if k > 0 {
        lemma_after_tiles(s, (k - 1) as nat);
    }
}

/// Cancelling in the middle of sample `N` keeps the counter at `N` while the
/// tiles in flight drain: after each merged tile the counter is still `N`,
/// the flag is still set, one tile fewer is out, and no new sample may start
/// until the last one is merged. Then a new sample may start, and that sample
/// is the first of a fresh accumulation.
pub proof fn lemma_cancel_keeps_sample(s: Progress, tiles: u32)
    ensures
        s.after_reset().cancel,
        s.after_reset().average.spp == s.average.spp,
        forall|k: nat|
            k < s.pending ==> (#[trigger] s.after_reset().after_tiles(k)).average.spp
                == s.average.spp && s.after_reset().after_tiles(k).cancel && s.after_reset().after_tiles(
                k,
            ).pending == s.pending - k && !s.after_reset().after_tiles(k).ready(false),
        s.after_reset().after_tiles(s.pending as nat).pending == 0,
        s.after_reset().after_tiles(s.pending as nat).average.spp == s.average.spp,
        s.after_reset().after_tiles(s.pending as nat).cancel,
        s.after_reset().after_tiles(s.pending as nat).ready(false),
        s.after_reset().after_tiles(s.pending as nat).after_start(tiles).average.spp == 1,
        !s.after_reset().after_tiles(s.pending as nat).after_start(tiles).cancel,
        s.after_reset().after_tiles(s.pending as nat).after_start(tiles).pending == tiles,
{
    lemma_after_tiles(s.after_reset(), s.pending as nat);
    assert forall|k: nat| k < s.pending implies (#[trigger] s.after_reset().after_tiles(
        k,
    )).average.spp == s.average.spp && s.after_reset().after_tiles(k).cancel
        && s.after_reset().after_tiles(k).pending == s.pending - k && !s.after_reset().after_tiles(
        k,
    ).ready(false) by {
        lemma_after_tiles(s.after_reset(), k);
    }
}

} // verus!
