use crate::events::same_text;
use vstd::prelude::*;

verus! {

/// The renderer of one track: the output surface it draws on, which the
/// caller owns, and whether its cancellation was requested.
#[derive(Debug, Clone)]
pub struct RendererHandle {
    pub track_sid: String,
    pub surface: u64,
    pub cancelled: bool,
}

/// `h` with its cancellation requested.
pub open spec fn cancel_of(h: RendererHandle) -> RendererHandle {
    RendererHandle { cancelled: true, ..h }
}

/// The entries of `s` for track `sid` removed.
pub open spec fn registry_remove(s: Seq<RendererHandle>, sid: Seq<char>) -> Seq<RendererHandle>
    decreases s.len(),
{
    if s.len() == 0 {
        s
    } else {
        let rest = registry_remove(s.drop_last(), sid);
        if s.last().track_sid@ != sid {
            rest.push(s.last())
        } else {
            rest
        }
    }
}

/// The last entry of `s` for track `sid`, if any.
pub open spec fn entry_for(s: Seq<RendererHandle>, sid: Seq<char>) -> Option<RendererHandle>
    decreases s.len(),
{
    if s.len() == 0 {
        None
    } else if s.last().track_sid@ == sid {
        Some(s.last())
    } else {
        entry_for(s.drop_last(), sid)
    }
}

/// How many entries of `s` belong to track `sid`.
pub open spec fn count_for(s: Seq<RendererHandle>, sid: Seq<char>) -> nat
    decreases s.len(),
{
    if s.len() == 0 {
        0
    } else {
        count_for(s.drop_last(), sid) + if s.last().track_sid@ == sid { 1nat } else { 0nat }
    }
}

/// The registry after `h` starts: any renderer of the same track goes.
pub open spec fn registry_start(s: Seq<RendererHandle>, h: RendererHandle) -> Seq<RendererHandle> {
    registry_remove(s, h.track_sid@).push(h)
}

/// The registry is keyed by track: at most one live renderer per track.
pub open spec fn registry_wf(s: Seq<RendererHandle>) -> bool {
    &&& forall|i: int, j: int| 0 <= i < j < s.len() ==> (#[trigger] s[i]).track_sid@ != (#[trigger] s[j]).track_sid@
    &&& forall|i: int| 0 <= i < s.len() ==> !(#[trigger] s[i]).cancelled
}

/// One renderer per live track, each bound to a surface that the caller owns.
pub struct TrackRendererRegistry {
    entries: Vec<RendererHandle>,
}

impl TrackRendererRegistry {
    pub closed spec fn entries(&self) -> Seq<RendererHandle> {
        self.entries@
    }

    pub open spec fn wf(&self) -> bool {
        registry_wf(self.entries())
    }

    pub fn new() -> (r: Self)
        ensures
            r.wf(),
            r.entries() == Seq::<RendererHandle>::empty(),
    {
        TrackRendererRegistry { entries: Vec::new() }
    }

    fn take_entry(&mut self, sid: &str) -> (r: Option<RendererHandle>)
        requires
            registry_wf(old(self).entries()),
        ensures
            registry_wf(final(self).entries()),
            final(self).entries() == registry_remove(old(self).entries(), sid@),
            r == match entry_for(old(self).entries(), sid@) {
                Some(h) => Some(cancel_of(h)),
                None => None::<RendererHandle>,
            },
    {
        let ghost s0 = self.entries@;
        let mut kept: Vec<RendererHandle> = Vec::new();
        let mut found: Option<RendererHandle> = None;
        let mut i: usize = 0;
        while i < self.entries.len()
            invariant
                i <= s0.len(),
                self.entries@ == s0,
                kept@ == registry_remove(s0.take(i as int), sid@),
                found == match entry_for(s0.take(i as int), sid@) {
                    Some(h) => Some(cancel_of(h)),
                    None => None::<RendererHandle>,
                },
            decreases s0.len() - i,
        {
            proof {
                assert(s0.take(i + 1).drop_last() =~= s0.take(i as int));
            }
            let e = &self.entries[i];
            let copy = RendererHandle {
                track_sid: e.track_sid.clone(),
                surface: e.surface,
                cancelled: e.cancelled,
            };
            if same_text(e.track_sid.as_str(), sid) {
                found = Some(RendererHandle { cancelled: true, ..copy });
            } else {
                kept.push(copy);
            }
            i = i + 1;
        }
        proof {
            assert(s0.take(s0.len() as int) =~= s0);
            lemma_remove_wf(s0, sid@);
        }
        self.entries = kept;
        found
    }

    /// Starts a renderer for `track_sid` on `surface`. A renderer already
    /// registered for the track is replaced: it is removed and handed back
    /// with its cancellation requested, so that two renderers never draw for
    /// one track. Returns the replaced renderer, whose task the caller must
    /// signal to stop.
    pub fn start(&mut self, track_sid: String, surface: u64) -> (replaced: Option<RendererHandle>)
        requires
            old(self).wf(),
        ensures
            final(self).wf(),
            final(self).entries() == registry_start(
                old(self).entries(),
                RendererHandle { track_sid, surface, cancelled: false },
            ),
            replaced == match entry_for(old(self).entries(), track_sid@) {
                Some(h) => Some(cancel_of(h)),
                None => None::<RendererHandle>,
            },
    {
        let replaced = self.take_entry(track_sid.as_str());
        let ghost s1 = self.entries@;
        let h = RendererHandle { track_sid, surface, cancelled: false };
        self.entries.push(h);
        proof {
            lemma_remove_wf(old(self).entries(), h.track_sid@);
            lemma_remove_subset(old(self).entries(), h.track_sid@);
            let s = self.entries@;
            assert forall|i: int, j: int| 0 <= i < j < s.len() implies (#[trigger] s[i]).track_sid@ != (#[trigger] s[j]).track_sid@ by {
                if j == s1.len() {
                    assert(s[i] == s1[i]);
                    lemma_remove_excludes(old(self).entries(), h.track_sid@, i);
                } else {
                    assert(s[i] == s1[i] && s[j] == s1[j]);
                }
            }
        }
        replaced
    }

    /// Stops the renderer of `track_sid`: it is removed at once and handed
    /// back with its cancellation requested. Nothing happens, and `None`
    /// comes back, when the track has no renderer.
    pub fn stop(&mut self, track_sid: &str) -> (r: Option<RendererHandle>)
        requires
            old(self).wf(),
        ensures
            final(self).wf(),
            final(self).entries() == registry_remove(old(self).entries(), track_sid@),
            r == match entry_for(old(self).entries(), track_sid@) {
                Some(h) => Some(cancel_of(h)),
                None => None::<RendererHandle>,
            },
    {
        self.take_entry(track_sid)
    }

    /// The surface that the renderer of `track_sid` draws on, if it has one.
    pub fn surface_of(&self, track_sid: &str) -> (r: Option<u64>)
        ensures
            r == match entry_for(self.entries(), track_sid@) {
                Some(h) => Some(h.surface),
                None => None::<u64>,
            },
    {
        let mut i: usize = self.entries.len();
        proof {
            assert(self.entries@.take(i as int) =~= self.entries@);
        }
        while i > 0
            invariant
                i <= self.entries@.len(),
                entry_for(self.entries@, track_sid@) == entry_for(self.entries@.take(i as int), track_sid@),
            decreases i,
        {
            proof {
                assert(self.entries@.take(i as int).drop_last() =~= self.entries@.take(i - 1));
            }
            if same_text(self.entries[i - 1].track_sid.as_str(), track_sid) {
                return Some(self.entries[i - 1].surface);
            }
            i = i - 1;
        }
        None
    }

    pub fn len(&self) -> (r: usize)
        ensures
            r == self.entries().len(),
    {
        self.entries.len()
    }

    /// Stops every renderer, handing all of them back with their
    /// cancellation requested.
    pub fn clear(&mut self) -> (r: Vec<RendererHandle>)
        requires
            old(self).wf(),
        ensures
            final(self).wf(),
            final(self).entries() == Seq::<RendererHandle>::empty(),
            r@.len() == old(self).entries().len(),
            forall|i: int| 0 <= i < r@.len() ==> r@[i] == cancel_of(#[trigger] old(self).entries()[i]),
    {
        let mut r: Vec<RendererHandle> = Vec::new();
        let mut i: usize = 0;
        while i < self.entries.len()
            invariant
                i <= self.entries@.len(),
                self.entries@ == old(self).entries(),
                r@.len() == i,
                forall|k: int| 0 <= k < i ==> r@[k] == cancel_of(#[trigger] self.entries@[k]),
            decreases self.entries@.len() - i,
        {
            let e = &self.entries[i];
            r.push(RendererHandle { track_sid: e.track_sid.clone(), surface: e.surface, cancelled: true });
            i = i + 1;
        }
        self.entries.clear();
        r
    }
}

proof fn lemma_remove_subset(s: Seq<RendererHandle>, sid: Seq<char>)
    ensures
        forall|i: int| 0 <= i < registry_remove(s, sid).len() ==> exists|j: int| 0 <= j < s.len() && s[j] == #[trigger] registry_remove(s, sid)[i],
    decreases s.len(),
{
    if s.len() > 0 {
        let d = s.drop_last();
        lemma_remove_subset(d, sid);
        let r0 = registry_remove(d, sid);
        let r = registry_remove(s, sid);
        assert forall|i: int| 0 <= i < r.len() implies exists|j: int| 0 <= j < s.len() && s[j] == #[trigger] r[i] by {
            if i < r0.len() {
                assert(r[i] == r0[i]);
                let j = choose|j: int| 0 <= j < d.len() && d[j] == r0[i];
                assert(s[j] == d[j]);
            } else {
                assert(r[i] == s[s.len() - 1]);
            }
        }
    }
}

proof fn lemma_remove_excludes(s: Seq<RendererHandle>, sid: Seq<char>, i: int)
    requires
        0 <= i < registry_remove(s, sid).len(),
    ensures
        registry_remove(s, sid)[i].track_sid@ != sid,
    decreases s.len(),
{
    if s.len() > 0 {
        let r0 = registry_remove(s.drop_last(), sid);
        if i < r0.len() {
            lemma_remove_excludes(s.drop_last(), sid, i);
        }
    }
}

proof fn lemma_remove_wf(s: Seq<RendererHandle>, sid: Seq<char>)
    requires
        registry_wf(s),
    ensures
        registry_wf(registry_remove(s, sid)),
    decreases s.len(),
{
    if s.len() > 0 {
        let d = s.drop_last();
        assert(registry_wf(d)) by {
            assert forall|i: int, j: int| 0 <= i < j < d.len() implies d[i].track_sid@ != d[j].track_sid@ by {
                assert(d[i] == s[i] && d[j] == s[j]);
            }
            assert forall|i: int| 0 <= i < d.len() implies !(#[trigger] d[i]).cancelled by {
                assert(d[i] == s[i]);
            }
        }
        lemma_remove_wf(d, sid);
        lemma_remove_subset(d, sid);
        let r0 = registry_remove(d, sid);
        if s.last().track_sid@ != sid {
            let r = r0.push(s.last());
            assert forall|i: int, j: int| 0 <= i < j < r.len() implies r[i].track_sid@ != r[j].track_sid@ by {
                if j == r0.len() {
                    assert(r[i] == r0[i]);
                    let k = choose|k: int| 0 <= k < d.len() && d[k] == #[trigger] r0[i];
                    assert(s[k] == d[k]);
                } else {
                    assert(r[i] == r0[i] && r[j] == r0[j]);
                }
            }
        }
    }
}

proof fn lemma_remove_none(s: Seq<RendererHandle>, sid: Seq<char>)
    ensures
        count_for(registry_remove(s, sid), sid) == 0,
        entry_for(registry_remove(s, sid), sid) is None,
        registry_remove(registry_remove(s, sid), sid) == registry_remove(s, sid),
        entry_for(s, sid) is None ==> registry_remove(s, sid) == s,
    decreases s.len(),
{
    if s.len() > 0 {
        let d = s.drop_last();
        lemma_remove_none(d, sid);
        let r0 = registry_remove(d, sid);
        if s.last().track_sid@ != sid {
            let r = r0.push(s.last());
            assert(r.drop_last() =~= r0);
            if entry_for(s, sid) is None {
                assert(s =~= d.push(s.last()));
            }
        }
    }
}

/// Starting a renderer for a track on one surface, then on another, leaves
/// exactly one renderer for the track, bound to the second surface; the
/// second start hands back the first renderer with its cancellation
/// requested.
pub proof fn lemma_replace_keeps_one(s: Seq<RendererHandle>, sid: String, first: u64, second: u64)
    ensures
        ({
            let a = RendererHandle { track_sid: sid, surface: first, cancelled: false };
            let b = RendererHandle { track_sid: sid, surface: second, cancelled: false };
            let s1 = registry_start(s, a);
            let s2 = registry_start(s1, b);
            &&& count_for(s2, sid@) == 1
            &&& entry_for(s2, sid@) == Some(b)
            &&& entry_for(s1, sid@) == Some(a)
            &&& cancel_of(a).surface == first && cancel_of(a).cancelled
        }),
{
    let a = RendererHandle { track_sid: sid, surface: first, cancelled: false };
    let s1 = registry_start(s, a);
    lemma_remove_none(s1, sid@);
    let r1 = registry_remove(s1, sid@);
    assert(r1.push(RendererHandle { track_sid: sid, surface: second, cancelled: false }).drop_last() =~= r1);
}

/// Stopping is idempotent: stopping a track that has no renderer, or whose
/// renderer was stopped already, changes nothing and hands nothing back.
pub proof fn lemma_stop_idempotent(s: Seq<RendererHandle>, sid: Seq<char>)
    ensures
        entry_for(registry_remove(s, sid), sid) is None,
        registry_remove(registry_remove(s, sid), sid) == registry_remove(s, sid),
        entry_for(s, sid) is None ==> registry_remove(s, sid) == s,
{
    lemma_remove_none(s, sid);
}

/// What the frame loop of a renderer is woken by.
#[derive(Debug, Clone, Copy, PartialEq, Eq, Structural)]
pub enum FrameLoopEvent {
    /// The cancellation signal was set.
    Cancelled,
    /// The periodic diagnostic tick.
    Tick,
    /// The next decoded frame arrived.
    Frame,
    /// The frame source ended.
    StreamEnded,
}

/// What the frame loop does next.
#[derive(Debug, Clone, Copy, PartialEq, Eq, Structural)]
pub enum FrameLoopAction {
    /// Leave the loop; nothing more reaches the surface.
    Exit,
    /// Forward the frame to the surface and keep waiting.
    Forward,
    /// Keep waiting without forwarding anything.
    Wait,
}

/// The decision of a renderer's frame loop on `event`, given whether
/// cancellation has been requested. The signal is consulted before every
/// forward, so no frame reaches the surface once it is set. Every frame is
/// forwarded otherwise. A stream end is a normal exit; ticks only serve
/// diagnostics and change nothing.
pub fn frame_loop_step(cancel_requested: bool, event: FrameLoopEvent) -> (a: FrameLoopAction)
    ensures
        cancel_requested ==> a == FrameLoopAction::Exit,
        !cancel_requested ==> a == match event {
            FrameLoopEvent::Cancelled => FrameLoopAction::Exit,
            FrameLoopEvent::StreamEnded => FrameLoopAction::Exit,
            FrameLoopEvent::Tick => FrameLoopAction::Wait,
            FrameLoopEvent::Frame => FrameLoopAction::Forward,
        },
{
    if cancel_requested {
        return FrameLoopAction::Exit;
    }
    match event {
        FrameLoopEvent::Cancelled => FrameLoopAction::Exit,
        FrameLoopEvent::StreamEnded => FrameLoopAction::Exit,
        FrameLoopEvent::Tick => FrameLoopAction::Wait,
        FrameLoopEvent::Frame => FrameLoopAction::Forward,
    }
}

} // verus!
