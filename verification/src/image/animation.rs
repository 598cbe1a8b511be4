use vstd::prelude::*;

verus! {

/// What an animation playback loop does next.
#[derive(Debug, Copy, Clone, PartialEq, Eq, Structural)]
pub enum PlaybackAction {
    /// Writes cached frame `frame` to the texture, marks the texture loaded when
    /// `mark_loaded`, requests a repaint after `repaint_delay_ms`, then sleeps `sleep_ms`
    /// less, when `minus_elapsed`, the time spent since the frame's decoding began.
    Show { frame: usize, mark_loaded: bool, repaint_delay_ms: u64, sleep_ms: u64, minus_elapsed: bool },
    /// Decodes frame number `frame` of the animation.
    Decode { frame: usize },
    /// Stops playback.
    Stop,
}

/// What an animation playback loop is told after acting on the previous action.
pub enum AnimationEvent {
    /// The requested frame was decoded: it lasts `duration` milliseconds and `buffer`
    /// holds its RGBA samples.
    Decoded { duration: u32, buffer: Vec<u8> },
    /// The sleep of the last `Show` ended; `shutdown` is true when the image was closed.
    Woke { shutdown: bool },
}

/// Plays an animation of `frame_count` frames whose first frame is already shown:
/// frames are decoded on first use and cached, later rounds replay the cache.
pub struct AnimationPlayer {
    frame_count: usize,
    cached: Vec<(u32, Vec<u8>)>,
    idx: usize,
}

impl AnimationPlayer {
    /// Number of frames in one round of the animation.
    pub closed spec fn count(&self) -> int {
        self.frame_count as int
    }

    /// The cached frames: duration in milliseconds and RGBA samples.
    pub closed spec fn frames(&self) -> Seq<(u32, Seq<u8>)> {
        self.cached@.map_values(|e: (u32, Vec<u8>)| (e.0, e.1@))
    }

    /// Number of the frame that comes next.
    pub closed spec fn cursor(&self) -> int {
        self.idx as int
    }

    pub open spec fn wf(&self) -> bool {
        &&& self.count() > 0
        &&& self.frames().len() > 0
        &&& 0 <= self.cursor() <= self.frames().len()
        &&& self.cursor() <= self.count()
    }

    /// Whether `event` is one the loop can send now.
    pub open spec fn accepts(&self, event: AnimationEvent) -> bool {
        match event {
            AnimationEvent::Decoded { .. } => self.cursor() == self.frames().len(),
            AnimationEvent::Woke { .. } => true,
        }
    }

    /// Starts playback after the first frame (`duration`, `buffer`) was shown.
    pub fn new(frame_count: usize, duration: u32, buffer: Vec<u8>) -> (p: AnimationPlayer)
        requires
            frame_count > 0,
        ensures
            p.wf(),
            p.count() == frame_count,
            p.frames() == seq![(duration, buffer@)],
            p.cursor() == 1,
    {
        let mut cached = Vec::new();
        cached.push((duration, buffer));
        let p = AnimationPlayer { frame_count, cached, idx: 1 };
        assert(p.frames() =~= seq![(duration, buffer@)]);
        p
    }

    /// Number of cached frames.
    pub fn cached_count(&self) -> (n: usize)
        ensures
            n == self.frames().len(),
    {
        self.cached.len()
    }

    /// Duration in milliseconds of cached frame `i`.
    pub fn frame_duration(&self, i: usize) -> (d: u32)
        requires
            i < self.frames().len(),
        ensures
            d == self.frames()[i as int].0,
    {
        self.cached[i].0
    }

    /// RGBA samples of cached frame `i`.
    pub fn frame_bytes(&self, i: usize) -> (bytes: &[u8])
        requires
            i < self.frames().len(),
        ensures
            bytes@ == self.frames()[i as int].1,
    {
        self.cached[i].1.as_slice()
    }

    /// Advances playback by one event and says what to do next.
    pub fn step(&mut self, event: AnimationEvent) -> (action: PlaybackAction)
        requires
            old(self).wf(),
            old(self).accepts(event),
        ensures
            final(self).wf(),
            final(self).count() == old(self).count(),
            match event {
                AnimationEvent::Decoded { duration, buffer } => {
                    &&& final(self).frames() == old(self).frames().push((duration, buffer@))
                    &&& final(self).cursor() == (old(self).cursor() + 1) % old(self).count()
                    &&& action == PlaybackAction::Show {
                        frame: old(self).cursor() as usize,
                        mark_loaded: false,
                        repaint_delay_ms: duration as u64,
                        sleep_ms: duration as u64,
                        minus_elapsed: true,
                    }
                },
                AnimationEvent::Woke { shutdown } => {
                    &&& final(self).frames() == old(self).frames()
                    &&& if shutdown {
                        action == PlaybackAction::Stop && final(self).cursor() == old(self).cursor()
                    } else if old(self).cursor() < old(self).frames().len() {
                        let d = old(self).frames()[old(self).cursor()].0;
                        &&& final(self).cursor() == (old(self).cursor() + 1) % old(self).count()
                        &&& action == PlaybackAction::Show {
                            frame: old(self).cursor() as usize,
                            mark_loaded: false,
                            repaint_delay_ms: d as u64,
                            sleep_ms: d as u64,
                            minus_elapsed: false,
                        }
                    } else {
                        action == PlaybackAction::Decode { frame: old(self).cursor() as usize }
                            && final(self).cursor() == old(self).cursor()
                    }
                },
            },
    {
        let ghost old_frames = self.frames();
        let len = self.cached.len();
        assert(old_frames.len() == len);
        match event {
            AnimationEvent::Decoded { duration, buffer } => {
                let shown = self.idx;
                self.cached.push((duration, buffer));
                let new_len = self.cached.len();
                proof {
                    assert(self.frames() =~= old_frames.push((duration, buffer@)));
                    vstd::arithmetic::div_mod::lemma_mod_decreases((shown + 1) as nat, self.frame_count as nat);
                    vstd::arithmetic::div_mod::lemma_mod_pos_bound((shown + 1) as int, self.frame_count as int);
                }
                self.idx = (self.idx + 1) % self.frame_count;
                PlaybackAction::Show {
                    frame: shown,
                    mark_loaded: false,
                    repaint_delay_ms: duration as u64,
                    sleep_ms: duration as u64,
                    minus_elapsed: true,
                }
            },
            AnimationEvent::Woke { shutdown } => {
                if shutdown {
                    PlaybackAction::Stop
                } else if self.idx < len {
                    let shown = self.idx;
                    let duration = self.cached[shown].0;
                    proof {
                        vstd::arithmetic::div_mod::lemma_mod_decreases((shown + 1) as nat, self.frame_count as nat);
                        vstd::arithmetic::div_mod::lemma_mod_pos_bound((shown + 1) as int, self.frame_count as int);
                    }
                    self.idx = (self.idx + 1) % self.frame_count;
                    PlaybackAction::Show {
                        frame: shown,
                        mark_loaded: false,
                        repaint_delay_ms: duration as u64,
                        sleep_ms: duration as u64,
                        minus_elapsed: false,
                    }
                } else {
                    PlaybackAction::Decode { frame: self.idx }
                }
            },
        }
    }
}

/// Law: once every frame of the animation is cached, the next frame is always a cached
/// one, so waking up never asks for another decode.
pub proof fn lemma_full_cache_replays(p: AnimationPlayer)
    requires
        p.wf(),
        p.frames().len() >= p.count(),
        p.cursor() != p.count(),
    ensures
        p.cursor() < p.frames().len(),
{
}

} // verus!
