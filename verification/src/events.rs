//! The contact event stream: a single-producer, multi-consumer
//! append-only log over a bounded ring buffer. Each consumer advances
//! its own cursor; a consumer that falls behind the retention window
//! loses the overwritten events and is told how many were lost.

use vstd::prelude::*;
use crate::collide::ContactEvent;

verus! {

/// Capacity a channel gets when none is chosen.
pub const DEFAULT_EVENT_CAPACITY: usize = 128;

/// An independent read cursor into an event channel. Obtained from
/// `EventChannel::register_reader` and advanced only by reads.
#[derive(Clone, Copy, PartialEq, Eq, Structural, Debug)]
pub struct ReaderId {
    cursor: usize,
}

impl ReaderId {
    /// How many events of the stream this reader has already seen.
    pub closed spec fn cursor_spec(self) -> int {
        self.cursor as int
    }
}

/// The diagnostic reported when a consumer's cursor lagged past the
/// retention window: how many unread events were overwritten.
#[derive(Clone, Copy, PartialEq, Eq, Structural, Debug)]
pub struct StreamLoss {
    pub skipped: usize,
}

/// The append-only contact event log. The whole history of appended
/// events is the stream's meaning; the buffer retains only the last
/// `capacity` of them.
#[derive(Clone)]
pub struct EventChannel {
    buffer: Vec<ContactEvent>,
    base: usize,
    capacity: usize,
    history: Ghost<Seq<ContactEvent>>,
}

impl EventChannel {
    /// Every event ever appended, oldest first.
    pub closed spec fn history_seq(self) -> Seq<ContactEvent> {
        self.history@
    }

    /// How many events were ever appended.
    pub open spec fn total(self) -> int {
        self.history_seq().len() as int
    }

    /// How many of the newest events the buffer retains.
    pub closed spec fn capacity_spec(self) -> int {
        self.capacity as int
    }

    /// Position of the oldest event still retained.
    pub open spec fn retention_start(self) -> int {
        if self.total() <= self.capacity_spec() {
            0
        } else {
            self.total() - self.capacity_spec()
        }
    }

    /// The buffer holds exactly the retained suffix of the history.
    pub closed spec fn wf(self) -> bool {
        &&& self.capacity > 0
        &&& self.base + self.buffer@.len() <= usize::MAX
        &&& self.history@.len() == self.base + self.buffer@.len()
        &&& self.base == self.retention_start()
        &&& self.buffer@ == self.history@.subrange(self.base as int, self.history@.len() as int)
    }

    /// What a read from the given cursor position yields: every
    /// retained event the cursor has not seen, oldest first. Events
    /// older than the retention window are gone.
    pub open spec fn readable_from(self, cursor: int) -> Seq<ContactEvent> {
        let start = if cursor < self.retention_start() {
            self.retention_start()
        } else {
            cursor
        };
        self.history_seq().subrange(start, self.total())
    }

    pub fn with_capacity(capacity: usize) -> (r: EventChannel)
        requires
            capacity > 0,
        ensures
            r.wf(),
            r.history_seq() == Seq::<ContactEvent>::empty(),
            r.capacity_spec() == capacity,
    {
        let r = EventChannel {
            buffer: Vec::new(),
            base: 0,
            capacity,
            history: Ghost(Seq::empty()),
        };
        proof {
            assert(r.buffer@ =~= r.history@.subrange(0, 0));
        }
        r
    }

    pub fn new() -> (r: EventChannel)
        ensures
            r.wf(),
            r.history_seq() == Seq::<ContactEvent>::empty(),
            r.capacity_spec() == DEFAULT_EVENT_CAPACITY,
    {
        EventChannel::with_capacity(DEFAULT_EVENT_CAPACITY)
    }

    /// Hands out a cursor that will see every event appended from now
    /// on, and none of the past ones.
    pub fn register_reader(&mut self) -> (r: ReaderId)
        requires
            old(self).wf(),
        ensures
            *final(self) == *old(self),
            r.cursor_spec() == old(self).total(),
    {
        ReaderId { cursor: self.base + self.buffer.len() }
    }

    /// Appends one event; if the buffer is full, the oldest retained
    /// event is overwritten.
    pub fn single_write(&mut self, event: ContactEvent)
        requires
            old(self).wf(),
            old(self).total() < usize::MAX,
        ensures
            final(self).wf(),
            final(self).history_seq() == old(self).history_seq().push(event),
            final(self).capacity_spec() == old(self).capacity_spec(),
    {
        self.buffer.push(event);
        proof {
            self.history@ = self.history@.push(event);
        }
        if self.buffer.len() > self.capacity {
            self.buffer.remove(0);
            self.base = self.base + 1;
        }
        proof {
            assert(self.buffer@ =~= self.history@.subrange(
                self.base as int,
                self.history@.len() as int,
            ));
        }
    }

    /// Reads every retained event the cursor has not yet seen and moves
    /// the cursor to the end of the stream. A cursor that lagged beyond
    /// the retention window makes the read lossy: the overwritten
    /// events are skipped and the loss is reported, which is expected
    /// under sustained overload and not fatal.
    pub fn lossy_read(&self, reader: &mut ReaderId) -> (r: (Vec<ContactEvent>, Option<StreamLoss>))
        requires
            self.wf(),
            0 <= old(reader).cursor_spec() <= self.total(),
        ensures
            final(reader).cursor_spec() == self.total(),
            r.0@ == self.readable_from(old(reader).cursor_spec()),
            r.1 is Some <==> old(reader).cursor_spec() < self.retention_start(),
            r.1 is Some ==> r.1->Some_0.skipped == self.retention_start() - old(
                reader,
            ).cursor_spec(),
    {
        let total = self.base + self.buffer.len();
        let loss: Option<StreamLoss> = if reader.cursor < self.base {
            Some(StreamLoss { skipped: self.base - reader.cursor })
        } else {
            None
        };
        let start = if reader.cursor < self.base {
            self.base
        } else {
            reader.cursor
        };
        let mut out: Vec<ContactEvent> = Vec::new();
        let mut j: usize = start - self.base;
        let ghost j0 = j as int;
        while j < self.buffer.len()
            invariant
                self.wf(),
                0 <= j0 <= j as int <= self.buffer@.len(),
                out@ == self.buffer@.subrange(j0, j as int),
            decreases self.buffer@.len() - j as int,
        {
            out.push(self.buffer[j]);
            proof {
                assert(self.buffer@.subrange(j0, j as int + 1) =~= self.buffer@.subrange(
                    j0,
                    j as int,
                ).push(self.buffer@[j as int]));
            }
            j += 1;
        }
        reader.cursor = total;
        proof {
            assert(out@ =~= self.readable_from(old(reader).cursor_spec()));
        }
        (out, loss)
    }
}

} // verus!
