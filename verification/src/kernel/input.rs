//! Input events: decoding PS/2 mouse packets and queueing events in a bounded ring.
use vstd::prelude::*;

verus! {

pub const INPUT_EVENT_MOUSE: u32 = 1;
pub const INPUT_EVENT_KEYBOARD: u32 = 2;
pub const INPUT_EVENT_WINDOW: u32 = 3;
pub const WINDOW_EVENT_CONFIGURE: u32 = 1;
pub const WINDOW_EVENT_CLOSE: u32 = 2;
pub const INPUT_EVENT_LENGTH: usize = 24;
pub const MOUSE_PACKET_LENGTH: usize = 3;
pub const EVENT_QUEUE_LENGTH: usize = 8;

/// One input event as user space receives it.
#[derive(Clone, Copy, Debug, Default, PartialEq, Eq, Structural)]
pub struct InputEvent {
    pub kind: u32,
    pub buttons: u32,
    pub dx: i32,
    pub dy: i32,
    pub wheel: i32,
    pub code: u32,
}

/// A byte read as a two's-complement `i8`.
pub open spec fn signed_byte(b: u8) -> int {
    if b >= 128 {
        b - 256
    } else {
        b as int
    }
}

/// The event a complete three-byte packet gives: none when either overflow bit is set; else
/// the three buttons, the X motion and the Y motion negated (the mouse counts up, the screen
/// down), each sign-extended by its sign bit in the first byte.
pub open spec fn mouse_event(flags: u8, x: u8, y: u8) -> Option<InputEvent> {
    if flags & 0xc0u8 != 0 {
        None
    } else {
        Some(
            InputEvent {
                kind: 1,
                buttons: (flags & 7u8) as u32,
                dx: (if flags & 0x10u8 != 0 {
                    signed_byte(x)
                } else {
                    x as int
                }) as i32,
                dy: (if flags & 0x20u8 != 0 {
                    -signed_byte(y)
                } else {
                    -(y as int)
                }) as i32,
                wheel: 0,
                code: 0,
            },
        )
    }
}

/// What feeding `byte` to a parser holding `pending` does: the bytes it then holds and the
/// event it gives. A packet starts only with a byte whose bit 3 is set (other bytes are dropped
/// until one comes); its third byte completes it and gives its event, if any.
pub open spec fn packet_step(pending: Seq<u8>, byte: u8) -> (Seq<u8>, Option<InputEvent>) {
    if pending.len() == 0 && byte & 8u8 == 0 {
        (pending, None)
    } else if pending.len() < 2 {
        (pending.push(byte), None)
    } else {
        (Seq::empty(), mouse_event(pending[0], pending[1], byte))
    }
}

/// Collects the bytes of a three-byte PS/2 mouse packet.
#[derive(Clone, Copy, Debug, Default, PartialEq, Eq)]
pub struct MousePacketParser {
    packet: [u8; MOUSE_PACKET_LENGTH],
    length: usize,
}

impl MousePacketParser {
    #[verifier::type_invariant]
    closed spec fn within(self) -> bool {
        self.length < 3
    }

    /// The bytes of the packet collected so far.
    pub closed spec fn pending(self) -> Seq<u8> {
        self.packet@.take(self.length as int)
    }

    pub fn new() -> (r: Self)
        ensures
            r.pending() == Seq::<u8>::empty(),
    {
        let r = Self { packet: [0; MOUSE_PACKET_LENGTH], length: 0 };
        assert(r.pending() =~= Seq::<u8>::empty());
        r
    }

    /// Feeds one byte.
    pub fn push_byte(&mut self, byte: u8) -> (r: Option<InputEvent>)
        ensures
            (final(self).pending(), r) == packet_step(old(self).pending(), byte),
    {
        proof {
            use_type_invariant(&*self);
        }
        if self.length == 0 && byte & 0x08 == 0 {
            return None;
        }
        let ghost before = self.pending();
        let index = self.length;
        self.packet[index] = byte;
        if index + 1 < MOUSE_PACKET_LENGTH {
            self.length = index + 1;
            assert(self.pending() =~= before.push(byte));
            return None;
        }
        self.length = 0;
        assert(self.pending() =~= Seq::<u8>::empty());
        let flags = self.packet[0];
        let x = self.packet[1];
        let y = self.packet[2];
        if flags & 0xc0 != 0 {
            return None;
        }
        let dx: i32 = if flags & 0x10 != 0 {
            if x >= 128 {
                x as i32 - 256
            } else {
                x as i32
            }
        } else {
            x as i32
        };
        let dy: i32 = if flags & 0x20 != 0 {
            if y >= 128 {
                256 - y as i32
            } else {
                -(y as i32)
            }
        } else {
            -(y as i32)
        };
        Some(
            InputEvent {
                kind: INPUT_EVENT_MOUSE,
                buttons: (flags & 0x07) as u32,
                dx,
                dy,
                wheel: 0,
                code: 0,
            },
        )
    }
}

/// The queue `q` after `event` joins it: the oldest event leaves a full queue first.
pub open spec fn queue_push(q: Seq<InputEvent>, event: InputEvent) -> Seq<InputEvent> {
    (if q.len() == 8 {
        q.drop_first()
    } else {
        q
    }).push(event)
}

/// A ring of at most eight events; when it is full, a new event displaces the oldest.
#[derive(Clone, Copy, Debug)]
pub struct EventQueue {
    events: [Option<InputEvent>; EVENT_QUEUE_LENGTH],
    head: usize,
    tail: usize,
    count: usize,
}

impl View for EventQueue {
    type V = Seq<InputEvent>;

    /// The queued events, oldest first.
    closed spec fn view(&self) -> Seq<InputEvent> {
        Seq::new(self.count as nat, |i: int| self.events@[(self.head + i) % 8]->0)
    }
}

impl EventQueue {
    #[verifier::type_invariant]
    closed spec fn ring(self) -> bool {
        &&& self.head < 8
        &&& self.count <= 8
        &&& self.tail == (self.head + self.count) % 8
        &&& forall|i: int| 0 <= i < 8 ==> (#[trigger] self.events@[(self.head + i) % 8] is Some
            <==> i < self.count)
    }

    pub fn new() -> (r: Self)
        ensures
            r@ == Seq::<InputEvent>::empty(),
    {
        let r = Self { events: [None; EVENT_QUEUE_LENGTH], head: 0, tail: 0, count: 0 };
        assert(r@ =~= Seq::<InputEvent>::empty());
        r
    }

    /// The number of queued events.
    pub fn len(&self) -> (r: usize)
        ensures
            r == self@.len(),
            r <= 8,
    {
        proof {
            use_type_invariant(self);
        }
        self.count
    }

    /// The newest queued event, if any.
    pub fn last(&self) -> (r: Option<InputEvent>)
        ensures
            self@.len() == 0 ==> r is None,
            self@.len() > 0 ==> r == Some(self@.last()),
    {
        proof {
            use_type_invariant(self);
        }
        if self.count == 0 {
            return None;
        }
        let previous = (self.tail + EVENT_QUEUE_LENGTH - 1) % EVENT_QUEUE_LENGTH;
        assert(previous == (self.head + (self.count - 1)) % 8);
        assert(self.events@[(self.head + (self.count - 1)) % 8] is Some);
        self.events[previous]
    }

    /// Appends `event`, displacing the oldest event when the queue is full.
    pub fn push(&mut self, event: InputEvent)
        ensures
            final(self)@ == queue_push(old(self)@, event),
    {
        if self.len() == EVENT_QUEUE_LENGTH {
            let _ = self.pop();
        }
        self.push_back(event);
    }

    /// Appends `event` to a queue that has room for it.
    fn push_back(&mut self, event: InputEvent)
        requires
            old(self)@.len() < 8,
        ensures
            final(self)@ == old(self)@.push(event),
    {
        proof {
            use_type_invariant(&*self);
        }
        let ghost before = self@;
        let head = self.head;
        let count = self.count;
        let tail = self.tail;
        let mut events = self.events;
        events[tail] = Some(event);
        let new_count = count + 1;
        assert forall|i: int| 0 <= i < 8 implies (#[trigger] events@[(head + i) % 8] is Some
            <==> i < new_count) by {
            if (head + i) % 8 == tail {
                assert(i == count);
            } else {
                assert(self.events@[(self.head + i) % 8] is Some <==> i < count);
            }
        }
        *self = Self { events, head, tail: (tail + 1) % EVENT_QUEUE_LENGTH, count: new_count };
        assert(self@ =~= before.push(event)) by {
            assert forall|i: int| 0 <= i < count implies self@[i] == before[i] by {
                assert((head + i) % 8 != tail);
            }
        }
    }

    /// Takes the oldest event, if any.
    pub fn pop(&mut self) -> (r: Option<InputEvent>)
        ensures
            old(self)@.len() == 0 ==> r is None && final(self)@ == old(self)@,
            old(self)@.len() > 0 ==> r == Some(old(self)@[0]) && final(self)@ == old(self)@.drop_first(),
    {
        proof {
            use_type_invariant(&*self);
        }
        let head = self.head;
        let event = match self.events[head] {
            None => {
                assert(self.events@[(self.head + 0) % 8] is None);
                return None;
            },
            Some(e) => e,
        };
        assert(self.events@[(self.head + 0) % 8] is Some);
        let ghost before = self@;
        let mut events = self.events;
        events[head] = None;
        let new_head = (head + 1) % EVENT_QUEUE_LENGTH;
        let new_count = self.count - 1;
        assert forall|i: int| 0 <= i < 8 implies (#[trigger] events@[(new_head + i) % 8] is Some
            <==> i < new_count) by {
            if (new_head + i) % 8 == head {
                assert(i == 7);
            } else {
                assert((new_head + i) % 8 == (self.head + (i + 1)) % 8);
            }
        }
        *self = Self { events, head: new_head, tail: self.tail, count: new_count };
        assert(self@ =~= before.drop_first()) by {
            assert forall|i: int| 0 <= i < new_count implies self@[i] == before.drop_first()[i] by {
                assert((new_head + i) % 8 == (head + (i + 1)) % 8);
                assert((head + (i + 1)) % 8 != head);
            }
        }
        Some(event)
    }

    /// Replaces the newest event with `event`.
    pub fn replace_last(&mut self, event: InputEvent)
        requires
            old(self)@.len() > 0,
        ensures
            final(self)@ == old(self)@.update(old(self)@.len() - 1, event),
    {
        proof {
            use_type_invariant(&*self);
        }
        let ghost before = self@;
        let previous = (self.tail + EVENT_QUEUE_LENGTH - 1) % EVENT_QUEUE_LENGTH;
        assert(previous == (self.head + (self.count - 1)) % 8);
        let mut events = self.events;
        events[previous] = Some(event);
        assert forall|i: int| 0 <= i < 8 implies (#[trigger] events@[(self.head + i) % 8] is Some
            <==> i < self.count) by {
            if (self.head + i) % 8 == previous {
                assert(i == self.count - 1);
            }
        }
        *self = Self { events, head: self.head, tail: self.tail, count: self.count };
        assert(self@ =~= before.update(before.len() - 1, event)) by {
            assert forall|i: int| 0 <= i < self.count - 1 implies self@[i] == before[i] by {
                assert((self.head + i) % 8 != previous);
            }
        }
    }
}

/// The mouse's packet parser and the queue of its decoded events.
#[derive(Debug)]
pub struct MouseState {
    pub parser: MousePacketParser,
    pub queue: EventQueue,
    pub enabled: bool,
}

impl MouseState {
    pub fn new() -> (r: Self)
        ensures
            r.parser.pending() == Seq::<u8>::empty(),
            r.queue@ == Seq::<InputEvent>::empty(),
            !r.enabled,
    {
        Self { parser: MousePacketParser::new(), queue: EventQueue::new(), enabled: false }
    }

    /// Feeds one byte from the mouse; an event it completes joins the queue.
    pub fn receive_byte(&mut self, byte: u8)
        ensures
            final(self).enabled == old(self).enabled,
            final(self).parser.pending() == packet_step(old(self).parser.pending(), byte).0,
            final(self).queue@ == (match packet_step(old(self).parser.pending(), byte).1 {
                Some(event) => queue_push(old(self).queue@, event),
                None => old(self).queue@,
            }),
    {
        if let Some(event) = self.parser.push_byte(byte) {
            self.queue.push(event);
        }
    }
}

} // verus!
