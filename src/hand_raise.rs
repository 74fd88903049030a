use crate::events::{same_text, VisioEvent};
use crate::timestamps::raise_timestamp_millis;
#[allow(unused_imports)]
use crate::timestamps::{raise_order, rfc3339_millis_value};
use vstd::prelude::*;

verus! {

/// How long the local participant must keep speaking, with the hand raised,
/// before the hand is lowered automatically.
pub const AUTO_LOWER_DELAY_MS: u64 = 3000;

/// One raised hand: when it was raised and by whom.
#[derive(Debug, Clone)]
pub struct HandRaiseEntry {
    pub timestamp_ms: i64,
    pub participant_sid: String,
}

/// Whether `q` holds an entry for `sid`.
pub open spec fn has_entry(q: Seq<HandRaiseEntry>, sid: Seq<char>) -> bool {
    exists|i: int| 0 <= i < q.len() && (#[trigger] q[i]).participant_sid@ == sid
}

/// Entries in ascending order of raise time, at most one per participant.
pub open spec fn queue_wf(q: Seq<HandRaiseEntry>) -> bool {
    &&& forall|i: int, j: int| 0 <= i < j < q.len() ==> (#[trigger] q[i]).timestamp_ms <= (#[trigger] q[j]).timestamp_ms
    &&& forall|i: int, j: int| 0 <= i < j < q.len() ==> (#[trigger] q[i]).participant_sid@ != (#[trigger] q[j]).participant_sid@
}

/// The 1-based rank of `sid`'s entry in `q`, or 0 when it has none.
pub open spec fn position_of(q: Seq<HandRaiseEntry>, sid: Seq<char>) -> int
    decreases q.len(),
{
    if q.len() == 0 {
        0
    } else if q[0].participant_sid@ == sid {
        1
    } else {
        let p = position_of(q.drop_first(), sid);
        if p == 0 {
            0
        } else {
            p + 1
        }
    }
}

/// Where an entry raised at `ts` goes: after every entry raised at or before `ts`.
pub open spec fn insert_index(q: Seq<HandRaiseEntry>, ts: i64) -> int
    decreases q.len(),
{
    if q.len() == 0 || q[0].timestamp_ms > ts {
        0
    } else {
        1 + insert_index(q.drop_first(), ts)
    }
}

/// The queue after `sid` raises its hand at `ts`: unchanged when `sid` has
/// an entry already.
pub open spec fn queue_raise(q: Seq<HandRaiseEntry>, sid: String, ts: i64) -> Seq<HandRaiseEntry> {
    if has_entry(q, sid@) {
        q
    } else {
        q.insert(insert_index(q, ts), HandRaiseEntry { timestamp_ms: ts, participant_sid: sid })
    }
}

/// The queue after `sid` lowers its hand.
pub open spec fn queue_lower(q: Seq<HandRaiseEntry>, sid: Seq<char>) -> Seq<HandRaiseEntry>
    decreases q.len(),
{
    if q.len() == 0 {
        q
    } else {
        let rest = queue_lower(q.drop_last(), sid);
        if q.last().participant_sid@ != sid {
            rest.push(q.last())
        } else {
            rest
        }
    }
}

/// Whether a deferred auto-lower check with `token` lowers the hand of
/// `local`: it must still be the pending check, and the hand still raised.
pub open spec fn fire_lowers(q: Seq<HandRaiseEntry>, pending: Option<u64>, local: Seq<char>, token: u64) -> bool {
    pending == Some(token) && has_entry(q, local)
}

/// The queue after the deferred auto-lower check with `token` has run.
pub open spec fn queue_after_fire(q: Seq<HandRaiseEntry>, pending: Option<u64>, local: Seq<char>, token: u64) -> Seq<HandRaiseEntry> {
    if fire_lowers(q, pending, local, token) {
        queue_lower(q, local)
    } else {
        q
    }
}

/// The pending check after the deferred check with `token` has run.
pub open spec fn pending_after_fire(pending: Option<u64>, token: u64) -> Option<u64> {
    if pending == Some(token) {
        None
    } else {
        pending
    }
}

/// A notification that `sid` raised its hand, at `position`, or lowered it.
pub open spec fn is_hand_event(e: VisioEvent, sid: Seq<char>, raised: bool, position: int) -> bool {
    match e {
        VisioEvent::HandRaisedChanged { participant_sid, raised: r, position: p } =>
            participant_sid@ == sid && r == raised && p == position,
        _ => false,
    }
}

/// The hand-raise queue of the session and the local participant's
/// speaking-triggered auto-lower.
///
/// The deferred check is identified by a token: a check whose token is no
/// longer the pending one was superseded or cancelled and does nothing.
pub struct HandRaiseManager {
    local_sid: String,
    raised_hands: Vec<HandRaiseEntry>,
    pending_check: Option<u64>,
    next_token: u64,
}

impl HandRaiseManager {
    pub closed spec fn queue(&self) -> Seq<HandRaiseEntry> {
        self.raised_hands@
    }

    /// The token of the pending auto-lower check, if one is pending.
    pub closed spec fn pending(&self) -> Option<u64> {
        self.pending_check
    }

    pub closed spec fn local_id(&self) -> String {
        self.local_sid
    }

    pub open spec fn local(&self) -> Seq<char> {
        self.local_id()@
    }

    pub open spec fn wf(&self) -> bool {
        queue_wf(self.queue())
    }

    /// A coordinator for the local participant `local_sid`, with no hand raised.
    pub fn new(local_sid: String) -> (r: Self)
        ensures
            r.wf(),
            r.queue() == Seq::<HandRaiseEntry>::empty(),
            r.pending() is None,
            r.local() == local_sid@,
    {
        HandRaiseManager { local_sid, raised_hands: Vec::new(), pending_check: None, next_token: 0 }
    }

    fn find(&self, sid: &str) -> (r: Option<usize>)
        ensures
            r is None <==> !has_entry(self.queue(), sid@),
            r is Some ==> r->0 < self.queue().len() && self.queue()[r->0 as int].participant_sid@ == sid@,
    {
        let mut i: usize = 0;
        while i < self.raised_hands.len()
            invariant
                i <= self.raised_hands@.len(),
                forall|k: int| 0 <= k < i ==> (#[trigger] self.raised_hands@[k]).participant_sid@ != sid@,
            decreases self.raised_hands@.len() - i,
        {
            if same_text(self.raised_hands[i].participant_sid.as_str(), sid) {
                return Some(i);
            }
            i = i + 1;
        }
        None
    }

    /// The 1-based rank of `sid` among the raised hands, or 0 when its hand
    /// is not raised.
    pub fn position(&self, sid: &str) -> (r: u32)
        requires
            self.wf(),
            self.queue().len() < u32::MAX,
        ensures
            r == position_of(self.queue(), sid@),
    {
        let found = self.find(sid);
        proof {
            lemma_position_found(self.queue(), sid@);
        }
        match found {
            Some(i) => (i + 1) as u32,
            None => 0,
        }
    }

    /// Records that `sid` raised its hand at `timestamp_ms`, unless its hand
    /// is raised already, and returns its rank.
    pub fn raise(&mut self, sid: String, timestamp_ms: i64) -> (position: u32)
        requires
            old(self).wf(),
            old(self).queue().len() < u32::MAX - 1,
        ensures
            final(self).wf(),
            final(self).queue() == queue_raise(old(self).queue(), sid, timestamp_ms),
            final(self).pending() == old(self).pending(),
            final(self).local() == old(self).local(),
            position == position_of(final(self).queue(), sid@),
            position >= 1,
    {
        let ghost q0 = self.raised_hands@;
        let ghost sid0 = sid;
        let found = self.find(sid.as_str());
        if found.is_none() {
            let mut k: usize = 0;
            while k < self.raised_hands.len() && self.raised_hands[k].timestamp_ms <= timestamp_ms
                invariant
                    k <= q0.len(),
                    self.raised_hands@ == q0,
                    forall|m: int| 0 <= m < k ==> (#[trigger] q0[m]).timestamp_ms <= timestamp_ms,
                decreases q0.len() - k,
            {
                k = k + 1;
            }
            proof {
                lemma_insert_index(q0, timestamp_ms, k as int);
            }
            let entry = HandRaiseEntry { timestamp_ms, participant_sid: sid.clone() };
            self.raised_hands.insert(k, entry);
            proof {
                lemma_insert_keeps_wf(q0, entry, k as int);
            }
        }
        proof {
            lemma_raise_has(q0, sid0, timestamp_ms);
            lemma_position_found(self.queue(), sid@);
        }
        let p = self.position(sid.as_str());
        p
    }

    /// Removes `sid`'s entry, if any. When `sid` is the local participant the
    /// pending auto-lower check is cancelled as well.
    pub fn lower(&mut self, sid: &str)
        requires
            old(self).wf(),
        ensures
            final(self).wf(),
            final(self).queue() == queue_lower(old(self).queue(), sid@),
            final(self).pending() == if sid@ == old(self).local() {
                None
            } else {
                old(self).pending()
            },
            final(self).local() == old(self).local(),
    {
        let ghost q0 = self.raised_hands@;
        let mut kept: Vec<HandRaiseEntry> = Vec::new();
        let mut i: usize = 0;
        while i < self.raised_hands.len()
            invariant
                i <= q0.len(),
                self.raised_hands@ == q0,
                kept@ == queue_lower(q0.take(i as int), sid@),
            decreases q0.len() - i,
        {
            proof {
                assert(q0.take(i + 1).drop_last() =~= q0.take(i as int));
            }
            if !same_text(self.raised_hands[i].participant_sid.as_str(), sid) {
                let e = HandRaiseEntry {
                    timestamp_ms: self.raised_hands[i].timestamp_ms,
                    participant_sid: self.raised_hands[i].participant_sid.clone(),
                };
                kept.push(e);
            }
            i = i + 1;
        }
        proof {
            assert(q0.take(q0.len() as int) =~= q0);
            lemma_lower_keeps_wf(q0, sid@);
        }
        self.raised_hands = kept;
        if same_text(sid, self.local_sid.as_str()) {
            self.pending_check = None;
        }
    }

    /// Whether one more raised hand still leaves every rank representable.
    pub fn can_grow(&self) -> (r: bool)
        ensures
            r == (self.queue().len() < u32::MAX - 1),
    {
        self.raised_hands.len() < 4294967294
    }

    /// Whether the local participant's hand is raised.
    pub fn is_hand_raised(&self) -> (r: bool)
        ensures
            r == has_entry(self.queue(), self.local()),
    {
        self.find(self.local_sid.as_str()).is_some()
    }

    /// Records the local participant's hand as raised at `now_ms`, once the
    /// attribute announcing it was published, and returns the notification.
    pub fn raise_hand(&mut self, now_ms: i64) -> (e: VisioEvent)
        requires
            old(self).wf(),
            old(self).queue().len() < u32::MAX - 1,
        ensures
            final(self).wf(),
            final(self).queue() == queue_raise(old(self).queue(), old(self).local_id(), now_ms),
            final(self).pending() == old(self).pending(),
            final(self).local() == old(self).local(),
            is_hand_event(e, old(self).local(), true, position_of(final(self).queue(), old(self).local())),
    {
        let sid = self.local_sid.clone();
        let position = self.raise(sid.clone(), now_ms);
        VisioEvent::HandRaisedChanged { participant_sid: sid, raised: true, position }
    }

    /// Records the local participant's hand as lowered, once the cleared
    /// attribute was published, cancels the pending auto-lower check and
    /// returns the notification.
    pub fn lower_hand(&mut self) -> (e: VisioEvent)
        requires
            old(self).wf(),
        ensures
            final(self).wf(),
            final(self).queue() == queue_lower(old(self).queue(), old(self).local()),
            final(self).pending() is None,
            final(self).local() == old(self).local(),
            !has_entry(final(self).queue(), old(self).local()),
            is_hand_event(e, old(self).local(), false, 0),
    {
        let sid = self.local_sid.clone();
        self.lower(sid.as_str());
        proof {
            lemma_lower_has(old(self).queue(), sid@);
        }
        VisioEvent::HandRaisedChanged { participant_sid: sid, raised: false, position: 0 }
    }

    /// Applies a change of `sid`'s hand-raise attribute: an empty `value`
    /// lowers the hand, any other raises it at the time that `value` gives
    /// (RFC 3339, else legacy epoch milliseconds, else zero). Returns the
    /// notification, with the rank of a raised hand.
    pub fn handle_participant_attributes(&mut self, participant_sid: String, value: &str) -> (e: VisioEvent)
        requires
            old(self).wf(),
            value@.len() > 0 ==> old(self).queue().len() < u32::MAX - 1,
        ensures
            final(self).wf(),
            final(self).local() == old(self).local(),
            value@.len() > 0 ==> final(self).queue() == queue_raise(
                old(self).queue(),
                participant_sid,
                raise_order(rfc3339_millis_value(value@), value@),
            ),
            value@.len() > 0 ==> final(self).pending() == old(self).pending(),
            value@.len() > 0 ==> is_hand_event(e, participant_sid@, true, position_of(final(self).queue(), participant_sid@)),
            value@.len() == 0 ==> final(self).queue() == queue_lower(old(self).queue(), participant_sid@),
            value@.len() == 0 ==> final(self).pending() == if participant_sid@ == old(self).local() {
                None
            } else {
                old(self).pending()
            },
            value@.len() == 0 ==> is_hand_event(e, participant_sid@, false, 0),
    {
        if value.is_empty() {
            self.lower(participant_sid.as_str());
            VisioEvent::HandRaisedChanged { participant_sid, raised: false, position: 0 }
        } else {
            let ts = raise_timestamp_millis(value);
            let position = self.raise(participant_sid.clone(), ts);
            VisioEvent::HandRaisedChanged { participant_sid, raised: true, position }
        }
    }

    /// Reacts to a change of the active speakers. Any pending auto-lower
    /// check is superseded. When the local participant is among `speakers`
    /// with the hand raised, a fresh check is made pending and its token is
    /// returned: the caller runs it after the auto-lower delay.
    pub fn start_auto_lower(&mut self, speakers: &Vec<String>) -> (token: Option<u64>)
        requires
            old(self).wf(),
        ensures
            final(self).wf(),
            final(self).queue() == old(self).queue(),
            final(self).local() == old(self).local(),
            token is Some <==> (has_speaker(speakers@, old(self).local()) && has_entry(old(self).queue(), old(self).local())),
            final(self).pending() == token,
            token is Some ==> old(self).pending() != token,
    {
        let previous = self.pending_check;
        self.pending_check = None;
        let mut speaking = false;
        let mut i: usize = 0;
        while i < speakers.len()
            invariant
                i <= speakers@.len(),
                speaking <==> exists|k: int| 0 <= k < i && (#[trigger] speakers@[k])@ == self.local_sid@,
            decreases speakers@.len() - i,
        {
            if same_text(speakers[i].as_str(), self.local_sid.as_str()) {
                speaking = true;
            }
            i = i + 1;
        }
        if speaking && self.is_hand_raised() {
            let mut token = self.next_token;
            if previous == Some(token) {
                token = token.wrapping_add(1);
            }
            self.next_token = token.wrapping_add(1);
            self.pending_check = Some(token);
            Some(token)
        } else {
            None
        }
    }

    /// Runs the deferred auto-lower check with `token`. If it is still the
    /// pending check and the local hand is still raised at this moment, the
    /// hand is lowered and the notification returned; otherwise nothing
    /// changes but that the check is no longer pending.
    pub fn auto_lower_fired(&mut self, token: u64) -> (e: Option<VisioEvent>)
        requires
            old(self).wf(),
        ensures
            final(self).wf(),
            final(self).local() == old(self).local(),
            final(self).queue() == queue_after_fire(old(self).queue(), old(self).pending(), old(self).local(), token),
            final(self).pending() == pending_after_fire(old(self).pending(), token),
            e is Some <==> fire_lowers(old(self).queue(), old(self).pending(), old(self).local(), token),
            e is Some ==> is_hand_event(e->0, old(self).local(), false, 0),
    {
        if self.pending_check == Some(token) {
            self.pending_check = None;
            if self.is_hand_raised() {
                let e = self.lower_hand();
                return Some(e);
            }
        }
        None
    }

    /// Forgets every raised hand and cancels the pending check.
    pub fn clear(&mut self)
        ensures
            final(self).wf(),
            final(self).queue() == Seq::<HandRaiseEntry>::empty(),
            final(self).pending() is None,
            final(self).local() == old(self).local(),
    {
        self.raised_hands.clear();
        self.pending_check = None;
    }
}

/// Whether `sid` is among `speakers`.
pub open spec fn has_speaker(speakers: Seq<String>, sid: Seq<char>) -> bool {
    exists|k: int| 0 <= k < speakers.len() && (#[trigger] speakers[k])@ == sid
}

proof fn lemma_position_found(q: Seq<HandRaiseEntry>, sid: Seq<char>)
    requires
        queue_wf(q),
    ensures
        !has_entry(q, sid) ==> position_of(q, sid) == 0,
        forall|i: int| 0 <= i < q.len() && (#[trigger] q[i]).participant_sid@ == sid ==> position_of(q, sid) == i + 1,
    decreases q.len(),
{
    if q.len() > 0 {
        let d = q.drop_first();
        assert(queue_wf(d)) by {
            assert forall|i: int, j: int| 0 <= i < j < d.len() implies d[i].timestamp_ms <= d[j].timestamp_ms
                && d[i].participant_sid@ != d[j].participant_sid@ by {
                assert(d[i] == q[i + 1] && d[j] == q[j + 1]);
            }
        }
        lemma_position_found(d, sid);
        if !has_entry(q, sid) {
            assert(!has_entry(d, sid)) by {
                if has_entry(d, sid) {
                    let i = choose|i: int| 0 <= i < d.len() && (#[trigger] d[i]).participant_sid@ == sid;
                    assert(q[i + 1] == d[i]);
                }
            }
        }
        assert forall|i: int| 0 <= i < q.len() && (#[trigger] q[i]).participant_sid@ == sid implies position_of(q, sid) == i + 1 by {
            if i > 0 {
                assert(d[i - 1] == q[i]);
                assert(q[0].participant_sid@ != q[i].participant_sid@);
            }
        }
    }
}

proof fn lemma_insert_index(q: Seq<HandRaiseEntry>, ts: i64, k: int)
    requires
        queue_wf(q),
        0 <= k <= q.len(),
        forall|m: int| 0 <= m < k ==> (#[trigger] q[m]).timestamp_ms <= ts,
        k == q.len() || q[k].timestamp_ms > ts,
    ensures
        insert_index(q, ts) == k,
    decreases q.len(),
{
    if q.len() > 0 && k > 0 {
        let d = q.drop_first();
        assert(queue_wf(d)) by {
            assert forall|i: int, j: int| 0 <= i < j < d.len() implies d[i].timestamp_ms <= d[j].timestamp_ms
                && d[i].participant_sid@ != d[j].participant_sid@ by {
                assert(d[i] == q[i + 1] && d[j] == q[j + 1]);
            }
        }
        assert forall|m: int| 0 <= m < k - 1 implies (#[trigger] d[m]).timestamp_ms <= ts by {
            assert(d[m] == q[m + 1]);
        }
        lemma_insert_index(d, ts, k - 1);
    }
}

proof fn lemma_insert_keeps_wf(q: Seq<HandRaiseEntry>, e: HandRaiseEntry, k: int)
    requires
        queue_wf(q),
        0 <= k <= q.len(),
        !has_entry(q, e.participant_sid@),
        forall|m: int| 0 <= m < k ==> (#[trigger] q[m]).timestamp_ms <= e.timestamp_ms,
        k == q.len() || q[k].timestamp_ms > e.timestamp_ms,
    ensures
        queue_wf(q.insert(k, e)),
{
    let r = q.insert(k, e);
    assert forall|i: int, j: int| 0 <= i < j < r.len() implies r[i].timestamp_ms <= r[j].timestamp_ms
        && r[i].participant_sid@ != r[j].participant_sid@ by {
        if i < k && j < k {
            assert(r[i] == q[i] && r[j] == q[j]);
        } else if i < k && j == k {
            assert(r[i] == q[i]);
        } else if i < k {
            assert(r[i] == q[i] && r[j] == q[j - 1]);
        } else if i == k {
            assert(r[j] == q[j - 1]);
            assert(q[k].timestamp_ms <= q[j - 1].timestamp_ms || j - 1 == k);
        } else {
            assert(r[i] == q[i - 1] && r[j] == q[j - 1]);
        }
    }
}

proof fn lemma_raise_has(q: Seq<HandRaiseEntry>, sid: String, ts: i64)
    ensures
        has_entry(queue_raise(q, sid, ts), sid@),
{
    if !has_entry(q, sid@) {
        let r = queue_raise(q, sid, ts);
        let k = insert_index(q, ts);
        lemma_insert_index_bounds(q, ts);
        assert(r[k].participant_sid@ == sid@);
    }
}

proof fn lemma_insert_index_bounds(q: Seq<HandRaiseEntry>, ts: i64)
    ensures
        0 <= insert_index(q, ts) <= q.len(),
    decreases q.len(),
{
    if q.len() > 0 {
        lemma_insert_index_bounds(q.drop_first(), ts);
    }
}

proof fn lemma_lower_has(q: Seq<HandRaiseEntry>, sid: Seq<char>)
    ensures
        forall|i: int| 0 <= i < queue_lower(q, sid).len() ==> exists|j: int| 0 <= j < q.len() && q[j] == #[trigger] queue_lower(q, sid)[i],
        forall|i: int| 0 <= i < queue_lower(q, sid).len() ==> (#[trigger] queue_lower(q, sid)[i]).participant_sid@ != sid,
        !has_entry(queue_lower(q, sid), sid),
        forall|x: Seq<char>| x != sid && has_entry(q, x) ==> has_entry(queue_lower(q, sid), x),
    decreases q.len(),
{
    if q.len() > 0 {
        let d = q.drop_last();
        lemma_lower_has(d, sid);
        let r0 = queue_lower(d, sid);
        let r = queue_lower(q, sid);
        assert forall|i: int| 0 <= i < r.len() implies exists|j: int| 0 <= j < q.len() && q[j] == #[trigger] r[i] by {
            if i < r0.len() {
                assert(r[i] == r0[i]);
                let j = choose|j: int| 0 <= j < d.len() && d[j] == r0[i];
                assert(q[j] == d[j]);
            } else {
                assert(r[i] == q[q.len() - 1]);
            }
        }
        assert forall|i: int| 0 <= i < r.len() implies (#[trigger] r[i]).participant_sid@ != sid by {
            if i < r0.len() {
                assert(r[i] == r0[i]);
            }
        }
        assert forall|x: Seq<char>| x != sid && has_entry(q, x) implies has_entry(r, x) by {
            let j = choose|j: int| 0 <= j < q.len() && (#[trigger] q[j]).participant_sid@ == x;
            if j < d.len() {
                assert(d[j] == q[j]);
                assert(has_entry(d, x));
                assert(has_entry(r0, x));
                let i = choose|i: int| 0 <= i < r0.len() && (#[trigger] r0[i]).participant_sid@ == x;
                assert(r[i] == r0[i]);
            } else {
                assert(r[r0.len() as int] == q.last());
            }
        }
    }
}

proof fn lemma_lower_keeps_wf(q: Seq<HandRaiseEntry>, sid: Seq<char>)
    requires
        queue_wf(q),
    ensures
        queue_wf(queue_lower(q, sid)),
    decreases q.len(),
{
    if q.len() > 0 {
        let d = q.drop_last();
        assert(queue_wf(d)) by {
            assert forall|i: int, j: int| 0 <= i < j < d.len() implies d[i].timestamp_ms <= d[j].timestamp_ms
                && d[i].participant_sid@ != d[j].participant_sid@ by {
                assert(d[i] == q[i] && d[j] == q[j]);
            }
        }
        lemma_lower_keeps_wf(d, sid);
        lemma_lower_has(d, sid);
        let r0 = queue_lower(d, sid);
        if q.last().participant_sid@ != sid {
            let r = r0.push(q.last());
            assert forall|i: int, j: int| 0 <= i < j < r.len() implies r[i].timestamp_ms <= r[j].timestamp_ms
                && r[i].participant_sid@ != r[j].participant_sid@ by {
                if j == r0.len() {
                    assert(r[i] == r0[i]);
                    let k = choose|k: int| 0 <= k < d.len() && d[k] == #[trigger] r0[i];
                    assert(q[k] == d[k]);
                    assert(q[k].timestamp_ms <= q[q.len() - 1].timestamp_ms);
                } else {
                    assert(r[i] == r0[i] && r[j] == r0[j]);
                }
            }
        }
    }
}

/// A hand lowered and raised again, at a time no earlier than any raise in
/// the queue, goes to the back of the queue: it never gets its old rank back.
pub proof fn lemma_reraise_goes_last(q: Seq<HandRaiseEntry>, sid: String, ts: i64)
    requires
        queue_wf(q),
        forall|i: int| 0 <= i < q.len() ==> (#[trigger] q[i]).timestamp_ms <= ts,
    ensures
        position_of(queue_raise(queue_lower(q, sid@), sid, ts), sid@) == queue_raise(queue_lower(q, sid@), sid, ts).len(),
        queue_wf(queue_raise(queue_lower(q, sid@), sid, ts)),
{
    let l = queue_lower(q, sid@);
    lemma_lower_has(q, sid@);
    lemma_lower_keeps_wf(q, sid@);
    assert forall|m: int| 0 <= m < l.len() implies (#[trigger] l[m]).timestamp_ms <= ts by {
        let j = choose|j: int| 0 <= j < q.len() && q[j] == l[m];
    }
    lemma_insert_index(l, ts, l.len() as int);
    let e = HandRaiseEntry { timestamp_ms: ts, participant_sid: sid };
    lemma_insert_keeps_wf(l, e, l.len() as int);
    let r = queue_raise(l, sid, ts);
    assert(r[l.len() as int] == e);
    lemma_position_found(r, sid@);
}

/// A manual lower wins over a pending auto-lower check: whenever the check
/// runs afterwards, it lowers nothing, notifies nothing, and the hand stays
/// lowered.
pub proof fn lemma_manual_lower_beats_timer(q: Seq<HandRaiseEntry>, local: Seq<char>, pending: Option<u64>, token: u64)
    ensures
        !fire_lowers(queue_lower(q, local), pending, local, token),
        queue_after_fire(queue_lower(q, local), pending, local, token) == queue_lower(q, local),
        !has_entry(queue_after_fire(queue_lower(q, local), pending, local, token), local),
{
    lemma_lower_has(q, local);
}

/// A pending auto-lower check that runs while the hand is still raised
/// lowers it and notifies once; no later check finds anything to lower.
pub proof fn lemma_timer_fires_once(q: Seq<HandRaiseEntry>, local: Seq<char>, token: u64, later: u64)
    requires
        has_entry(q, local),
    ensures
        fire_lowers(q, Some(token), local, token),
        !has_entry(queue_after_fire(q, Some(token), local, token), local),
        pending_after_fire(Some(token), token) is None,
        !fire_lowers(
            queue_after_fire(q, Some(token), local, token),
            pending_after_fire(Some(token), token),
            local,
            later,
        ),
{
    lemma_lower_has(q, local);
}

} // verus!
