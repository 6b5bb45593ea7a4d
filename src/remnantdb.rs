use vstd::prelude::*;
use crate::bytes::{bytes_eq, push_all};
use crate::primitives::{new_v4_uuid, sha2_256, sha2_256_digest};
use vstd::string::StringSliceAdditionalSpecFns;

verus! {

pub type Name = Vec<u8>;

/// Sixteen bytes that tell timelines of the same name apart.
#[derive(Clone, Copy, Debug, PartialEq, Eq)]
pub struct UUID {
    pub bytes: [u8; 16],
}

/// The digest of an event's payload, which identifies the event.
#[derive(Clone, Copy, Debug, PartialEq, Eq, Hash)]
pub struct Anchor {
    pub bytes: [u8; 32],
}

/// A timeline head, an appended datum, or a join of two events.
#[derive(Debug, PartialEq, Eq)]
pub enum Payload {
    /// The start of a timeline, with its name and UUID.
    Timeline { name: Name, uuid: UUID },
    /// Data after the event `ancestor`.
    Append { ancestor: Anchor, payload: Vec<u8> },
    /// Two events that every later event follows.
    Join { left: Anchor, right: Anchor },
}

/// What a `Payload` holds, as values.
pub enum PayloadView {
    Timeline { name: Seq<u8>, uuid: Seq<u8> },
    Append { ancestor: Seq<u8>, payload: Seq<u8> },
    Join { left: Seq<u8>, right: Seq<u8> },
}

impl View for Payload {
    type V = PayloadView;

    open spec fn view(&self) -> PayloadView {
        match self {
            Payload::Timeline { name, uuid } => PayloadView::Timeline {
                name: name@,
                uuid: uuid.bytes@,
            },
            Payload::Append { ancestor, payload } => PayloadView::Append {
                ancestor: ancestor.bytes@,
                payload: payload@,
            },
            Payload::Join { left, right } => PayloadView::Join {
                left: left.bytes@,
                right: right.bytes@,
            },
        }
    }
}

/// The bytes hashed for a payload's anchor: its fields, in order.
pub open spec fn payload_bytes(p: PayloadView) -> Seq<u8> {
    match p {
        PayloadView::Timeline { name, uuid } => name + uuid,
        PayloadView::Append { ancestor, payload } => ancestor + payload,
        PayloadView::Join { left, right } => left + right,
    }
}

/// The anchor of a payload.
pub open spec fn anchor_of(p: PayloadView) -> Seq<u8> {
    sha2_256_digest(payload_bytes(p))
}

impl Payload {
    /// The anchor of this payload: the SHA-256 digest of its fields.
    pub fn anchor(&self) -> (r: Anchor)
        ensures
            r.bytes@ == anchor_of(self@),
    {
        let mut v: Vec<u8> = Vec::new();
        match self {
            Payload::Timeline { name, uuid } => {
                push_all(&mut v, name.as_slice());
                push_all(&mut v, uuid.bytes.as_slice());
            },
            Payload::Append { ancestor, payload } => {
                push_all(&mut v, ancestor.bytes.as_slice());
                push_all(&mut v, payload.as_slice());
            },
            Payload::Join { left, right } => {
                push_all(&mut v, left.bytes.as_slice());
                push_all(&mut v, right.bytes.as_slice());
            },
        }
        Anchor { bytes: sha2_256(v.as_slice()) }
    }
}

/// A payload and its anchor.
#[derive(Debug)]
pub struct Event {
    anchor: Anchor,
    payload: Payload,
}

/// An event, as values.
pub struct EventView {
    pub anchor: Seq<u8>,
    pub payload: PayloadView,
}

impl View for Event {
    type V = EventView;

    closed spec fn view(&self) -> EventView {
        EventView { anchor: self.anchor.bytes@, payload: self.payload@ }
    }
}

impl Event {
    pub fn anchor(&self) -> (r: &Anchor)
        ensures
            r.bytes@ == self@.anchor,
    {
        &self.anchor
    }

    pub fn payload(&self) -> (r: &Payload)
        ensures
            r@ == self@.payload,
    {
        &self.payload
    }
}

/// The index of the event anchored at `a`, if there is one.
pub open spec fn has_anchor(s: Seq<EventView>, a: Seq<u8>) -> bool {
    exists|i: int| 0 <= i < s.len() && (#[trigger] s[i]).anchor == a
}

/// `s` with the event anchored at `a` holding `p`: the one already anchored
/// there replaced, or a new one at the end.
pub open spec fn upsert(s: Seq<EventView>, a: Seq<u8>, p: PayloadView) -> Seq<EventView> {
    if has_anchor(s, a) {
        s.update(
            choose|i: int| 0 <= i < s.len() && (#[trigger] s[i]).anchor == a,
            EventView { anchor: a, payload: p },
        )
    } else {
        s.push(EventView { anchor: a, payload: p })
    }
}

/// No two events share an anchor, and each is anchored at its payload's anchor.
pub open spec fn events_wf(s: Seq<EventView>) -> bool {
    &&& forall|i: int, j: int|
        0 <= i < s.len() && 0 <= j < s.len() && i != j ==> (#[trigger] s[i]).anchor != (
        #[trigger] s[j]).anchor
    &&& forall|i: int| 0 <= i < s.len() ==> (#[trigger] s[i]).anchor == anchor_of(s[i].payload)
}

/// The events, each under its own anchor: a vector in which no two events
/// share an anchor, in the order the anchors were first put. Putting an event
/// whose anchor is present replaces that event in place, as a map would.
#[derive(Debug)]
pub struct RemnantDB {
    events: Vec<Event>,
}

impl View for RemnantDB {
    type V = Seq<EventView>;

    closed spec fn view(&self) -> Seq<EventView> {
        self.events@.map_values(|e: Event| e@)
    }
}

impl RemnantDB {
    /// No two events share an anchor, and each is anchored at its payload's anchor.
    pub open spec fn wf(&self) -> bool {
        events_wf(self@)
    }

    pub fn new() -> (r: RemnantDB)
        ensures
            r@ == Seq::<EventView>::empty(),
            r.wf(),
    {
        let r = RemnantDB { events: Vec::new() };
        assert(r@ =~= Seq::<EventView>::empty());
        r
    }

    /// Puts `payload` under its anchor, replacing the event there, if any.
    fn put(&mut self, payload: Payload) -> (a: Anchor)
        requires
            old(self).wf(),
        ensures
            final(self).wf(),
            a.bytes@ == anchor_of(payload@),
            final(self)@ == upsert(old(self)@, a.bytes@, payload@),
    {
        let a = payload.anchor();
        let ghost p = payload@;
        let mut i: usize = 0;
        while i < self.events.len()
            invariant
                i <= self.events@.len(),
                self@ == old(self)@,
                events_wf(self@),
                p == payload@,
                a.bytes@ == anchor_of(p),
                forall|j: int| 0 <= j < i ==> (#[trigger] self@[j]).anchor != a.bytes@,
            decreases self.events@.len() - i,
        {
            if bytes_eq(self.events[i].anchor.bytes.as_slice(), a.bytes.as_slice()) {
                let ghost before = self@;
                assert(before[i as int].anchor == a.bytes@);
                assert(has_anchor(before, a.bytes@));
                assert((choose|k: int| 0 <= k < before.len() && (#[trigger] before[k]).anchor
                    == a.bytes@) == i);
                let e = Event { anchor: a, payload };
                assert(e@ == EventView { anchor: a.bytes@, payload: p });
                self.events.set(i, e);
                assert(self@ =~= before.update(i as int, EventView { anchor: a.bytes@, payload: p }));
                assert(upsert(before, a.bytes@, p) == before.update(
                    i as int,
                    EventView { anchor: a.bytes@, payload: p },
                ));
                assert(events_wf(self@));
                return a;
            }
            i = i + 1;
        }
        let ghost before = self@;
        assert(!has_anchor(before, a.bytes@));
        self.events.push(Event { anchor: a, payload });
        assert(self@ =~= upsert(before, a.bytes@, p));
        a
    }

    /// Starts a timeline named `name` with the UUID `uuid`.
    pub fn create_with_uuid(&mut self, name: &[u8], uuid: UUID) -> (a: Anchor)
        requires
            old(self).wf(),
        ensures
            final(self).wf(),
            a.bytes@ == anchor_of(PayloadView::Timeline { name: name@, uuid: uuid.bytes@ }),
            final(self)@ == upsert(
                old(self)@,
                a.bytes@,
                PayloadView::Timeline { name: name@, uuid: uuid.bytes@ },
            ),
    {
        let mut n: Vec<u8> = Vec::new();
        push_all(&mut n, name);
        self.put(Payload::Timeline { name: n, uuid })
    }

    /// Starts a timeline named `name`, with a fresh random UUID.
    pub fn create(&mut self, name: &[u8]) -> (a: Anchor)
        requires
            old(self).wf(),
        ensures
            final(self).wf(),
            exists|u: Seq<u8>|
                {
                    &&& u.len() == 16
                    &&& #[trigger] anchor_of(PayloadView::Timeline { name: name@, uuid: u })
                        == a.bytes@
                    &&& final(self)@ == upsert(
                        old(self)@,
                        a.bytes@,
                        PayloadView::Timeline { name: name@, uuid: u },
                    )
                },
    {
        let uuid = UUID { bytes: new_v4_uuid() };
        self.create_with_uuid(name, uuid)
    }

    pub fn create_str(&mut self, name: &str) -> (a: Anchor)
        requires
            old(self).wf(),
        ensures
            final(self).wf(),
            exists|u: Seq<u8>|
                {
                    &&& u.len() == 16
                    &&& #[trigger] anchor_of(
                        PayloadView::Timeline { name: name.spec_bytes(), uuid: u },
                    ) == a.bytes@
                    &&& final(self)@ == upsert(
                        old(self)@,
                        a.bytes@,
                        PayloadView::Timeline { name: name.spec_bytes(), uuid: u },
                    )
                },
    {
        self.create(name.as_bytes())
    }

    /// Appends `payload` after the event `ancestor`.
    pub fn append(&mut self, ancestor: &Anchor, payload: &[u8]) -> (a: Anchor)
        requires
            old(self).wf(),
        ensures
            final(self).wf(),
            a.bytes@ == anchor_of(
                PayloadView::Append { ancestor: ancestor.bytes@, payload: payload@ },
            ),
            final(self)@ == upsert(
                old(self)@,
                a.bytes@,
                PayloadView::Append { ancestor: ancestor.bytes@, payload: payload@ },
            ),
    {
        let mut v: Vec<u8> = Vec::new();
        push_all(&mut v, payload);
        self.put(Payload::Append { ancestor: *ancestor, payload: v })
    }

    pub fn append_str(&mut self, ancestor: &Anchor, payload: &str) -> (a: Anchor)
        requires
            old(self).wf(),
        ensures
            final(self).wf(),
            a.bytes@ == anchor_of(
                PayloadView::Append { ancestor: ancestor.bytes@, payload: payload.spec_bytes() },
            ),
            final(self)@ == upsert(
                old(self)@,
                a.bytes@,
                PayloadView::Append { ancestor: ancestor.bytes@, payload: payload.spec_bytes() },
            ),
    {
        self.append(ancestor, payload.as_bytes())
    }

    /// Joins the events `left` and `right`.
    pub fn join(&mut self, left: &Anchor, right: &Anchor) -> (a: Anchor)
        requires
            old(self).wf(),
        ensures
            final(self).wf(),
            a.bytes@ == anchor_of(PayloadView::Join { left: left.bytes@, right: right.bytes@ }),
            final(self)@ == upsert(
                old(self)@,
                a.bytes@,
                PayloadView::Join { left: left.bytes@, right: right.bytes@ },
            ),
    {
        self.put(Payload::Join { left: *left, right: *right })
    }

    /// The events, in the order they were first put.
    pub fn iter(&self) -> (r: &[Event])
        ensures
            r@.map_values(|e: Event| e@) == self@,
    {
        self.events.as_slice()
    }

    pub fn len(&self) -> (r: usize)
        ensures
            r == self@.len(),
    {
        self.events.len()
    }
}

} // verus!
