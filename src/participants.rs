use crate::events::{same_text, ConnectionQuality, ParticipantInfo};
use vstd::prelude::*;

verus! {

/// Whether some participant of `s` has the id `sid`.
pub open spec fn has_sid(s: Seq<ParticipantInfo>, sid: Seq<char>) -> bool {
    exists|i: int| 0 <= i < s.len() && (#[trigger] s[i]).sid@ == sid
}

/// No two participants of `s` share an id.
pub open spec fn unique_sids(s: Seq<ParticipantInfo>) -> bool {
    forall|i: int, j: int| 0 <= i < j < s.len() ==> (#[trigger] s[i]).sid@ != (#[trigger] s[j]).sid@
}

/// The ids present in `s`.
pub open spec fn sid_set(s: Seq<ParticipantInfo>) -> Set<Seq<char>> {
    Set::new(|x: Seq<char>| has_sid(s, x))
}

/// The roster after adding `p`: unchanged when its id is already present.
pub open spec fn roster_add(s: Seq<ParticipantInfo>, p: ParticipantInfo) -> Seq<ParticipantInfo> {
    if has_sid(s, p.sid@) {
        s
    } else {
        s.push(p)
    }
}

/// The roster after removing every participant with id `sid`.
pub open spec fn roster_remove(s: Seq<ParticipantInfo>, sid: Seq<char>) -> Seq<ParticipantInfo>
    decreases s.len(),
{
    if s.len() == 0 {
        s
    } else {
        let rest = roster_remove(s.drop_last(), sid);
        if s.last().sid@ != sid {
            rest.push(s.last())
        } else {
            rest
        }
    }
}

/// `s` without the strings equal to `sid`.
pub open spec fn texts_without(s: Seq<String>, sid: Seq<char>) -> Seq<String>
    decreases s.len(),
{
    if s.len() == 0 {
        s
    } else {
        let rest = texts_without(s.drop_last(), sid);
        if s.last()@ != sid {
            rest.push(s.last())
        } else {
            rest
        }
    }
}

/// One operation on the roster.
pub enum RosterOp {
    Add(ParticipantInfo),
    Remove(String),
}

/// The roster reached from `start` by applying `ops` in order.
pub open spec fn roster_after(start: Seq<ParticipantInfo>, ops: Seq<RosterOp>) -> Seq<ParticipantInfo>
    decreases ops.len(),
{
    if ops.len() == 0 {
        start
    } else {
        let before = roster_after(start, ops.drop_last());
        match ops.last() {
            RosterOp::Add(p) => roster_add(before, p),
            RosterOp::Remove(sid) => roster_remove(before, sid@),
        }
    }
}

/// The ids that a set of ids becomes under `ops`: an add inserts its id, a
/// remove deletes it.
pub open spec fn sids_after(ops: Seq<RosterOp>) -> Set<Seq<char>>
    decreases ops.len(),
{
    if ops.len() == 0 {
        Set::empty()
    } else {
        let before = sids_after(ops.drop_last());
        match ops.last() {
            RosterOp::Add(p) => before.insert(p.sid@),
            RosterOp::Remove(sid) => before.remove(sid@),
        }
    }
}

/// In-memory roster of the session's participants, keyed by participant id.
pub struct ParticipantManager {
    participants: Vec<ParticipantInfo>,
    active_speakers: Vec<String>,
    local_sid: Option<String>,
}

impl ParticipantManager {
    /// The participants, in order of arrival.
    pub closed spec fn roster(&self) -> Seq<ParticipantInfo> {
        self.participants@
    }

    /// The ids of the participants currently speaking.
    pub closed spec fn speakers(&self) -> Seq<String> {
        self.active_speakers@
    }

    /// The id of the local participant, once known.
    pub closed spec fn local(&self) -> Option<String> {
        self.local_sid
    }

    pub open spec fn wf(&self) -> bool {
        unique_sids(self.roster())
    }

    pub fn new() -> (r: Self)
        ensures
            r.wf(),
            r.roster() == Seq::<ParticipantInfo>::empty(),
            r.speakers() == Seq::<String>::empty(),
            r.local() is None,
    {
        ParticipantManager { participants: Vec::new(), active_speakers: Vec::new(), local_sid: None }
    }

    pub fn set_local_sid(&mut self, sid: String)
        ensures
            final(self).roster() == old(self).roster(),
            final(self).speakers() == old(self).speakers(),
            final(self).local() == Some(sid),
    {
        self.local_sid = Some(sid);
    }

    pub fn local_sid(&self) -> (r: Option<&str>)
        ensures
            r is None <==> self.local() is None,
            r is Some ==> r->0@ == self.local()->0@,
    {
        match &self.local_sid {
            Some(s) => Some(s.as_str()),
            None => None,
        }
    }

    /// The position of the participant with id `sid`.
    fn find(&self, sid: &str) -> (r: Option<usize>)
        ensures
            r is None <==> !has_sid(self.roster(), sid@),
            r is Some ==> r->0 < self.roster().len() && self.roster()[r->0 as int].sid@ == sid@,
    {
        let mut i: usize = 0;
        while i < self.participants.len()
            invariant
                i <= self.participants@.len(),
                forall|k: int| 0 <= k < i ==> (#[trigger] self.participants@[k]).sid@ != sid@,
            decreases self.participants@.len() - i,
        {
            if same_text(self.participants[i].sid.as_str(), sid) {
                return Some(i);
            }
            i = i + 1;
        }
        None
    }

    /// Adds `info` unless a participant with the same id is present.
    pub fn add_participant(&mut self, info: ParticipantInfo)
        requires
            old(self).wf(),
        ensures
            final(self).wf(),
            final(self).roster() == roster_add(old(self).roster(), info),
            final(self).speakers() == old(self).speakers(),
            final(self).local() == old(self).local(),
    {
        let found = self.find(info.sid.as_str());
        if found.is_none() {
            self.participants.push(info);
        }
    }

    /// Removes the participant with id `sid`, from the roster and from the
    /// active speakers.
    pub fn remove_participant(&mut self, sid: &str)
        requires
            old(self).wf(),
        ensures
            final(self).wf(),
            final(self).roster() == roster_remove(old(self).roster(), sid@),
            final(self).speakers() == texts_without(old(self).speakers(), sid@),
            final(self).local() == old(self).local(),
    {
        let ghost s0 = self.participants@;
        let mut kept: Vec<ParticipantInfo> = Vec::new();
        let mut i: usize = 0;
        while i < self.participants.len()
            invariant
                i <= s0.len(),
                self.participants@ == s0,
                kept@ == roster_remove(s0.take(i as int), sid@),
            decreases s0.len() - i,
        {
            proof {
                assert(s0.take(i + 1).drop_last() =~= s0.take(i as int));
            }
            if !same_text(self.participants[i].sid.as_str(), sid) {
                kept.push(self.participants[i].duplicate());
            }
            i = i + 1;
        }
        proof {
            assert(s0.take(s0.len() as int) =~= s0);
            lemma_remove_keeps_unique(s0, sid@);
        }
        self.participants = kept;
        let speakers = without_text(&self.active_speakers, sid);
        self.active_speakers = speakers;
    }

    /// Replaces the participant at `i`, which has id `sid`, by `p`, which
    /// keeps that id.
    fn replace_at(&mut self, i: usize, p: ParticipantInfo)
        requires
            old(self).wf(),
            i < old(self).roster().len(),
            p.sid@ == old(self).roster()[i as int].sid@,
        ensures
            final(self).wf(),
            final(self).roster() == old(self).roster().update(i as int, p),
            final(self).speakers() == old(self).speakers(),
            final(self).local() == old(self).local(),
    {
        self.participants.set(i, p);
        proof {
            let s = self.participants@;
            assert forall|a: int, b: int| 0 <= a < b < s.len() implies (#[trigger] s[a]).sid@ != (#[trigger] s[b]).sid@ by {
                assert(s[a].sid@ == old(self).participants@[a].sid@);
                assert(s[b].sid@ == old(self).participants@[b].sid@);
            }
        }
    }

    /// Records the video track of participant `sid`: `Some` marks it as
    /// having video on that track, `None` as having none. Unknown ids are
    /// ignored.
    pub fn set_video(&mut self, sid: &str, track_sid: Option<String>)
        requires
            old(self).wf(),
        ensures
            final(self).wf(),
            final(self).speakers() == old(self).speakers(),
            final(self).local() == old(self).local(),
            final(self).roster().len() == old(self).roster().len(),
            forall|j: int| 0 <= j < old(self).roster().len() ==> #[trigger] final(self).roster()[j] == if old(self).roster()[j].sid@ == sid@ {
                ParticipantInfo { has_video: track_sid is Some, video_track_sid: track_sid, ..old(self).roster()[j] }
            } else {
                old(self).roster()[j]
            },
    {
        if let Some(i) = self.find(sid) {
            let mut p = self.participants[i].duplicate();
            p.has_video = track_sid.is_some();
            p.video_track_sid = track_sid;
            self.replace_at(i, p);
            proof {
                assert forall|j: int| 0 <= j < old(self).roster().len() && j != i implies old(self).roster()[j].sid@ != sid@ by {
                    if j < i {
                        assert(old(self).roster()[j].sid@ != old(self).roster()[i as int].sid@);
                    } else {
                        assert(old(self).roster()[i as int].sid@ != old(self).roster()[j].sid@);
                    }
                }
            }
        }
    }

    /// Records whether participant `sid`'s microphone is muted. Unknown ids
    /// are ignored.
    pub fn set_muted(&mut self, sid: &str, muted: bool)
        requires
            old(self).wf(),
        ensures
            final(self).wf(),
            final(self).speakers() == old(self).speakers(),
            final(self).local() == old(self).local(),
            final(self).roster().len() == old(self).roster().len(),
            forall|j: int| 0 <= j < old(self).roster().len() ==> #[trigger] final(self).roster()[j] == if old(self).roster()[j].sid@ == sid@ {
                ParticipantInfo { is_muted: muted, ..old(self).roster()[j] }
            } else {
                old(self).roster()[j]
            },
    {
        if let Some(i) = self.find(sid) {
            let mut p = self.participants[i].duplicate();
            p.is_muted = muted;
            self.replace_at(i, p);
            proof {
                assert forall|j: int| 0 <= j < old(self).roster().len() && j != i implies old(self).roster()[j].sid@ != sid@ by {
                    if j < i {
                        assert(old(self).roster()[j].sid@ != old(self).roster()[i as int].sid@);
                    } else {
                        assert(old(self).roster()[i as int].sid@ != old(self).roster()[j].sid@);
                    }
                }
            }
        }
    }

    /// Records participant `sid`'s connection quality. Unknown ids are ignored.
    pub fn set_quality(&mut self, sid: &str, quality: ConnectionQuality)
        requires
            old(self).wf(),
        ensures
            final(self).wf(),
            final(self).speakers() == old(self).speakers(),
            final(self).local() == old(self).local(),
            final(self).roster().len() == old(self).roster().len(),
            forall|j: int| 0 <= j < old(self).roster().len() ==> #[trigger] final(self).roster()[j] == if old(self).roster()[j].sid@ == sid@ {
                ParticipantInfo { connection_quality: quality, ..old(self).roster()[j] }
            } else {
                old(self).roster()[j]
            },
    {
        if let Some(i) = self.find(sid) {
            let mut p = self.participants[i].duplicate();
            p.connection_quality = quality;
            self.replace_at(i, p);
            proof {
                assert forall|j: int| 0 <= j < old(self).roster().len() && j != i implies old(self).roster()[j].sid@ != sid@ by {
                    if j < i {
                        assert(old(self).roster()[j].sid@ != old(self).roster()[i as int].sid@);
                    } else {
                        assert(old(self).roster()[i as int].sid@ != old(self).roster()[j].sid@);
                    }
                }
            }
        }
    }

    /// The participants, in order of arrival.
    pub fn participants(&self) -> (r: &[ParticipantInfo])
        ensures
            r@ == self.roster(),
    {
        self.participants.as_slice()
    }

    /// The participant with id `sid`, if present.
    pub fn participant(&self, sid: &str) -> (r: Option<&ParticipantInfo>)
        requires
            self.wf(),
        ensures
            r is None <==> !has_sid(self.roster(), sid@),
            r is Some ==> self.roster().contains(*r->0) && r->0.sid@ == sid@,
    {
        match self.find(sid) {
            Some(i) => Some(&self.participants[i]),
            None => None,
        }
    }

    pub fn set_active_speakers(&mut self, sids: Vec<String>)
        ensures
            final(self).roster() == old(self).roster(),
            final(self).speakers() == sids@,
            final(self).local() == old(self).local(),
    {
        self.active_speakers = sids;
    }

    pub fn active_speakers(&self) -> (r: &[String])
        ensures
            r@ == self.speakers(),
    {
        self.active_speakers.as_slice()
    }

    pub fn participant_count(&self) -> (r: usize)
        ensures
            r == self.roster().len(),
    {
        self.participants.len()
    }

    /// Forgets every participant, the speakers and the local id.
    pub fn clear(&mut self)
        ensures
            final(self).wf(),
            final(self).roster() == Seq::<ParticipantInfo>::empty(),
            final(self).speakers() == Seq::<String>::empty(),
            final(self).local() is None,
    {
        self.participants.clear();
        self.active_speakers.clear();
        self.local_sid = None;
    }
}

/// A copy of `v` without the strings equal to `x`.
pub fn without_text(v: &Vec<String>, x: &str) -> (r: Vec<String>)
    ensures
        r@ == texts_without(v@, x@),
{
    let mut r: Vec<String> = Vec::new();
    let mut j: usize = 0;
    while j < v.len()
        invariant
            j <= v@.len(),
            r@ == texts_without(v@.take(j as int), x@),
        decreases v@.len() - j,
    {
        proof {
            assert(v@.take(j + 1).drop_last() =~= v@.take(j as int));
        }
        if !same_text(v[j].as_str(), x) {
            r.push(v[j].clone());
        }
        j = j + 1;
    }
    proof {
        assert(v@.take(v@.len() as int) =~= v@);
    }
    r
}

/// Whether some string of `v` equals `x`.
pub fn contains_text(v: &Vec<String>, x: &str) -> (r: bool)
    ensures
        r == exists|k: int| 0 <= k < v@.len() && (#[trigger] v@[k])@ == x@,
{
    let mut j: usize = 0;
    while j < v.len()
        invariant
            j <= v@.len(),
            forall|k: int| 0 <= k < j ==> (#[trigger] v@[k])@ != x@,
        decreases v@.len() - j,
    {
        if same_text(v[j].as_str(), x) {
            return true;
        }
        j = j + 1;
    }
    false
}

proof fn lemma_remove_has(s: Seq<ParticipantInfo>, sid: Seq<char>)
    ensures
        forall|x: Seq<char>| has_sid(roster_remove(s, sid), x) <==> (has_sid(s, x) && x != sid),
    decreases s.len(),
{
    if s.len() > 0 {
        let d = s.drop_last();
        lemma_remove_has(d, sid);
        let r0 = roster_remove(d, sid);
        let r = roster_remove(s, sid);
        assert forall|x: Seq<char>| has_sid(r, x) <==> (has_sid(s, x) && x != sid) by {
            if has_sid(s, x) {
                let i = choose|i: int| 0 <= i < s.len() && (#[trigger] s[i]).sid@ == x;
                if i < d.len() {
                    assert(d[i] == s[i]);
                }
            }
            if has_sid(d, x) {
                let i = choose|i: int| 0 <= i < d.len() && (#[trigger] d[i]).sid@ == x;
                assert(s[i] == d[i]);
            }
            if has_sid(r0, x) {
                let i = choose|i: int| 0 <= i < r0.len() && (#[trigger] r0[i]).sid@ == x;
                if s.last().sid@ != sid {
                    assert(r[i] == r0[i]);
                }
            }
            if has_sid(r, x) && s.last().sid@ != sid {
                let i = choose|i: int| 0 <= i < r.len() && (#[trigger] r[i]).sid@ == x;
                if i < r0.len() {
                    assert(r0[i] == r[i]);
                }
            }
            if x == s.last().sid@ && x != sid {
                assert(r[r0.len() as int] == s.last());
            }
        }
    }
}

proof fn lemma_remove_keeps_unique(s: Seq<ParticipantInfo>, sid: Seq<char>)
    requires
        unique_sids(s),
    ensures
        unique_sids(roster_remove(s, sid)),
    decreases s.len(),
{
    if s.len() > 0 {
        let d = s.drop_last();
        assert(unique_sids(d)) by {
            assert forall|i: int, j: int| 0 <= i < j < d.len() implies d[i].sid@ != d[j].sid@ by {
                assert(d[i] == s[i] && d[j] == s[j]);
            }
        }
        lemma_remove_keeps_unique(d, sid);
        lemma_remove_has(d, sid);
        let r0 = roster_remove(d, sid);
        if s.last().sid@ != sid {
            assert(!has_sid(d, s.last().sid@)) by {
                if has_sid(d, s.last().sid@) {
                    let i = choose|i: int| 0 <= i < d.len() && (#[trigger] d[i]).sid@ == s.last().sid@;
                    assert(s[i] == d[i]);
                    assert(s[i].sid@ != s[s.len() - 1].sid@);
                }
            }
            let r = r0.push(s.last());
            assert forall|i: int, j: int| 0 <= i < j < r.len() implies r[i].sid@ != r[j].sid@ by {
                if j == r0.len() {
                    assert(r[i] == r0[i]);
                    if r0[i].sid@ == s.last().sid@ {
                        assert(has_sid(r0, s.last().sid@));
                    }
                } else {
                    assert(r[i] == r0[i] && r[j] == r0[j]);
                }
            }
        }
    }
}

proof fn lemma_sid_set_add(s: Seq<ParticipantInfo>, p: ParticipantInfo)
    ensures
        sid_set(roster_add(s, p)) == sid_set(s).insert(p.sid@),
{
    if !has_sid(s, p.sid@) {
        let t = s.push(p);
        assert forall|x: Seq<char>| has_sid(t, x) <==> (has_sid(s, x) || x == p.sid@) by {
            if has_sid(s, x) {
                let i = choose|i: int| 0 <= i < s.len() && (#[trigger] s[i]).sid@ == x;
                assert(t[i] == s[i]);
            }
            if x == p.sid@ {
                assert(t[s.len() as int] == p);
            }
            if has_sid(t, x) && x != p.sid@ {
                let i = choose|i: int| 0 <= i < t.len() && (#[trigger] t[i]).sid@ == x;
                assert(s[i] == t[i]);
            }
        }
    }
    assert(sid_set(roster_add(s, p)) =~= sid_set(s).insert(p.sid@));
}

proof fn lemma_sid_set_remove(s: Seq<ParticipantInfo>, sid: Seq<char>)
    ensures
        sid_set(roster_remove(s, sid)) == sid_set(s).remove(sid),
{
    lemma_remove_has(s, sid);
    assert(sid_set(roster_remove(s, sid)) =~= sid_set(s).remove(sid));
}

proof fn lemma_sid_set_len(s: Seq<ParticipantInfo>)
    requires
        unique_sids(s),
    ensures
        sid_set(s).finite(),
        sid_set(s).len() == s.len(),
    decreases s.len(),
{
    if s.len() == 0 {
        assert(sid_set(s) =~= Set::empty());
    } else {
        let d = s.drop_last();
        assert(unique_sids(d)) by {
            assert forall|i: int, j: int| 0 <= i < j < d.len() implies d[i].sid@ != d[j].sid@ by {
                assert(d[i] == s[i] && d[j] == s[j]);
            }
        }
        lemma_sid_set_len(d);
        assert(s =~= d.push(s.last()));
        assert(!has_sid(d, s.last().sid@)) by {
            if has_sid(d, s.last().sid@) {
                let i = choose|i: int| 0 <= i < d.len() && (#[trigger] d[i]).sid@ == s.last().sid@;
                assert(s[i] == d[i]);
                assert(s[i].sid@ != s[s.len() - 1].sid@);
            }
        }
        lemma_sid_set_add(d, s.last());
    }
}

/// Whatever sequence of adds and removes is applied to an empty roster, no
/// id appears twice, the ids present are exactly those added and not removed
/// since, and the participant count is the number of those ids.
pub proof fn lemma_roster_ops(ops: Seq<RosterOp>)
    ensures
        unique_sids(roster_after(Seq::empty(), ops)),
        sid_set(roster_after(Seq::empty(), ops)) == sids_after(ops),
        sids_after(ops).finite(),
        roster_after(Seq::empty(), ops).len() == sids_after(ops).len(),
    decreases ops.len(),
{
    if ops.len() == 0 {
        assert(sid_set(Seq::<ParticipantInfo>::empty()) =~= Set::empty());
    } else {
        lemma_roster_ops(ops.drop_last());
        let before = roster_after(Seq::empty(), ops.drop_last());
        match ops.last() {
            RosterOp::Add(p) => {
                lemma_sid_set_add(before, p);
                if !has_sid(before, p.sid@) {
                    let t = before.push(p);
                    assert forall|i: int, j: int| 0 <= i < j < t.len() implies t[i].sid@ != t[j].sid@ by {
                        if j == before.len() {
                            assert(t[i] == before[i]);
                        } else {
                            assert(t[i] == before[i] && t[j] == before[j]);
                        }
                    }
                }
            },
            RosterOp::Remove(sid) => {
                lemma_remove_keeps_unique(before, sid@);
                lemma_sid_set_remove(before, sid@);
            },
        }
        lemma_sid_set_len(roster_after(Seq::empty(), ops));
    }
}

} // verus!
