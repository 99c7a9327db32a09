//! Vector assignment, the descriptor table and the cascaded interrupt
//! controllers: which handler the CPU runs for each exception or hardware
//! interrupt vector, and how a serviced line is re-armed.

use vstd::prelude::*;

verus! {

/// First vector of the primary interrupt controller, placed just past the
/// 32 CPU-reserved exception vectors.
pub const PIC_1_OFFSET: u8 = 32;

/// First vector of the secondary controller, just past the primary's eight.
pub const PIC_2_OFFSET: u8 = PIC_1_OFFSET + 8;

/// Vector the keyboard line is delivered at: the primary controller's
/// base offset plus the keyboard's fixed line index.
pub const KEYBOARD_VECTOR: u8 = PIC_1_OFFSET + 1;

/// Vector of the breakpoint exception, fixed by the CPU.
pub const BREAKPOINT_VECTOR: u8 = 3;

/// Vector of the double-fault exception, fixed by the CPU.
pub const DOUBLE_FAULT_VECTOR: u8 = 8;

/// Index of the dedicated alternate stack on which the double-fault
/// handler must run.
pub const DOUBLE_FAULT_IST_INDEX: u16 = 0;

/// Number of gates in the descriptor table: one per possible vector.
pub const IDT_SIZE: usize = 256;

/// The hardware interrupt sources, by symbolic identity.
#[derive(Debug, Clone, Copy, PartialEq, Eq, Structural)]
pub enum InterruptIndex {
    Timer,
    Keyboard,
}

impl InterruptIndex {
    /// The absolute vector number assigned to this source: the primary
    /// controller's base offset plus the source's fixed line index.
    pub fn as_u8(self) -> (r: u8)
        ensures
            self == InterruptIndex::Timer ==> r == PIC_1_OFFSET,
            self == InterruptIndex::Keyboard ==> r == KEYBOARD_VECTOR,
    {
        match self {
            InterruptIndex::Timer => PIC_1_OFFSET,
            InterruptIndex::Keyboard => KEYBOARD_VECTOR,
        }
    }

    /// The assigned vector number, widened for use as a table index.
    pub fn as_usize(self) -> (r: usize)
        ensures
            self == InterruptIndex::Timer ==> r == PIC_1_OFFSET,
            self == InterruptIndex::Keyboard ==> r == KEYBOARD_VECTOR,
    {
        let v: u8 = self.as_u8();
        v as usize
    }
}

/// The handlers a gate can point at.
#[derive(Debug, Clone, Copy, PartialEq, Eq, Structural)]
pub enum HandlerId {
    Breakpoint,
    DoubleFault,
    Timer,
    Keyboard,
}

/// One gate of the descriptor table: the handler it transfers control to,
/// if any, and the alternate-stack selector it switches to, if any.
#[derive(Debug, Clone, Copy, PartialEq, Eq)]
pub struct IdtEntry {
    pub handler: Option<HandlerId>,
    pub stack_index: Option<u16>,
}

/// A gate that transfers nowhere.
pub open spec fn empty_gate() -> IdtEntry {
    IdtEntry { handler: None, stack_index: None }
}

/// What the one-time table construction guarantees: a full-size table
/// whose breakpoint gate points at the breakpoint handler, whose
/// double-fault gate points at the double-fault handler and switches to
/// the dedicated alternate stack, whose timer gate points at the timer
/// handler, and whose every other gate is empty.
pub open spec fn initialized_idt(t: Seq<IdtEntry>) -> bool {
    &&& t.len() == IDT_SIZE
    &&& t[BREAKPOINT_VECTOR as int] == (IdtEntry {
        handler: Some(HandlerId::Breakpoint),
        stack_index: None,
    })
    &&& t[DOUBLE_FAULT_VECTOR as int] == (IdtEntry {
        handler: Some(HandlerId::DoubleFault),
        stack_index: Some(DOUBLE_FAULT_IST_INDEX),
    })
    &&& t[PIC_1_OFFSET as int] == (IdtEntry { handler: Some(HandlerId::Timer), stack_index: None })
    &&& t[KEYBOARD_VECTOR as int] == (IdtEntry {
        handler: Some(HandlerId::Keyboard),
        stack_index: None,
    })
    &&& forall|v: int|
        0 <= v < IDT_SIZE && v != BREAKPOINT_VECTOR && v != DOUBLE_FAULT_VECTOR && v
            != PIC_1_OFFSET && v != KEYBOARD_VECTOR ==> #[trigger] t[v] == empty_gate()
}

/// The descriptor table, one gate per vector.
pub struct Idt {
    entries: Vec<IdtEntry>,
}

impl View for Idt {
    type V = Seq<IdtEntry>;

    closed spec fn view(&self) -> Seq<IdtEntry> {
        self.entries@
    }
}

impl Idt {
    /// The table entry registered for a vector.
    pub fn entry(&self, vector: u8) -> (e: IdtEntry)
        requires
            self@.len() == IDT_SIZE,
        ensures
            e == self@[vector as int],
    {
        self.entries[vector as usize]
    }
}

/// Builds the descriptor table: the breakpoint gate, the double-fault gate
/// on its dedicated alternate stack, and the timer gate at the vector the
/// remapped primary controller delivers.
pub fn init_idt() -> (idt: Idt)
    ensures
        initialized_idt(idt@),
{
    let mut entries: Vec<IdtEntry> = Vec::new();
    let empty = IdtEntry { handler: None, stack_index: None };
    for i in 0..IDT_SIZE
        invariant
            empty == empty_gate(),
            entries@.len() == i,
            forall|v: int| 0 <= v < i ==> #[trigger] entries@[v] == empty_gate(),
    {
        entries.push(empty);
    }
    entries[BREAKPOINT_VECTOR as usize] = IdtEntry {
        handler: Some(HandlerId::Breakpoint),
        stack_index: None,
    };
    entries[DOUBLE_FAULT_VECTOR as usize] = IdtEntry {
        handler: Some(HandlerId::DoubleFault),
        stack_index: Some(DOUBLE_FAULT_IST_INDEX),
    };
    let timer = InterruptIndex::Timer.as_usize();
    entries[timer] = IdtEntry { handler: Some(HandlerId::Timer), stack_index: None };
    let keyboard = InterruptIndex::Keyboard.as_usize();
    entries[keyboard] = IdtEntry { handler: Some(HandlerId::Keyboard), stack_index: None };
    Idt { entries }
}

/// Base offsets that respect the controller invariant: both ranges clear
/// of the 32 CPU-reserved exception vectors and disjoint from each other.
pub open spec fn offsets_disjoint(o1: u8, o2: u8) -> bool {
    &&& o1 >= 32
    &&& o2 >= 32
    &&& (o1 + 8 <= o2 || o2 + 8 <= o1)
}

/// The two cascaded eight-line controllers, remapped to programmable base
/// vectors, with the in-service state of the two lines this system
/// unmasks (timer and keyboard, lines zero and one of the primary
/// controller).
pub struct Pics {
    offset1: u8,
    offset2: u8,
    timer_in_service: bool,
    keyboard_in_service: bool,
}

impl Pics {
    /// The primary controller's base vector.
    pub closed spec fn offset1(self) -> u8 {
        self.offset1
    }

    /// The secondary controller's base vector.
    pub closed spec fn offset2(self) -> u8 {
        self.offset2
    }

    /// Whether the timer line has fired and not yet been acknowledged;
    /// while it is in service the controller delivers no further timer
    /// signal.
    pub closed spec fn timer_in_service(self) -> bool {
        self.timer_in_service
    }

    /// Whether the keyboard line has fired and not yet been acknowledged.
    pub closed spec fn keyboard_in_service(self) -> bool {
        self.keyboard_in_service
    }

    /// Remaps the two controllers to the given base offsets. The offsets
    /// must collide neither with the CPU-reserved vectors nor with each
    /// other's eight-vector range.
    pub fn new(offset1: u8, offset2: u8) -> (p: Pics)
        requires
            offsets_disjoint(offset1, offset2),
        ensures
            p.offset1() == offset1,
            p.offset2() == offset2,
            !p.timer_in_service(),
            !p.keyboard_in_service(),
    {
        Pics { offset1, offset2, timer_in_service: false, keyboard_in_service: false }
    }

    /// Whether a vector falls in either controller's assigned range.
    pub fn handles_interrupt(&self, vector: u8) -> (r: bool)
        ensures
            r == (self.offset1() <= vector < self.offset1() + 8 || self.offset2() <= vector
                < self.offset2() + 8),
    {
        (vector >= self.offset1 && vector - self.offset1 < 8) || (vector >= self.offset2 && vector
            - self.offset2 < 8)
    }

    /// Whether the timer line is in service: fired and not yet
    /// acknowledged.
    pub fn timer_is_in_service(&self) -> (r: bool)
        ensures
            r == self.timer_in_service(),
    {
        self.timer_in_service
    }

    /// Whether the keyboard line is in service: fired and not yet
    /// acknowledged.
    pub fn keyboard_is_in_service(&self) -> (r: bool)
        ensures
            r == self.keyboard_in_service(),
    {
        self.keyboard_in_service
    }

    /// The controller delivers the timer line: it goes into service and
    /// stays masked until acknowledged.
    pub fn raise_timer(&mut self)
        requires
            !old(self).timer_in_service(),
        ensures
            final(self).timer_in_service(),
            final(self).keyboard_in_service() == old(self).keyboard_in_service(),
            final(self).offset1() == old(self).offset1(),
            final(self).offset2() == old(self).offset2(),
    {
        self.timer_in_service = true;
    }

    /// The controller delivers the keyboard line: it goes into service
    /// and stays masked until acknowledged.
    pub fn raise_keyboard(&mut self)
        requires
            !old(self).keyboard_in_service(),
        ensures
            final(self).keyboard_in_service(),
            final(self).timer_in_service() == old(self).timer_in_service(),
            final(self).offset1() == old(self).offset1(),
            final(self).offset2() == old(self).offset2(),
    {
        self.keyboard_in_service = true;
    }

    /// The end-of-interrupt acknowledgment: a handler calls it exactly
    /// once, with the vector it is servicing, after consuming the
    /// device's data; this re-arms the line. A missing, repeated or
    /// wrong-vector acknowledgment is ruled out by the contract.
    pub fn notify_end_of_interrupt(&mut self, vector: u8)
        requires
            (vector == old(self).offset1() && old(self).timer_in_service()) || (vector == old(self).offset1() + 1 && old(self).keyboard_in_service()),
        ensures
            final(self).offset1() == old(self).offset1(),
            final(self).offset2() == old(self).offset2(),
            vector == old(self).offset1() ==> !final(self).timer_in_service() && final(self).keyboard_in_service() == old(self).keyboard_in_service(),
            vector != old(self).offset1() ==> !final(self).keyboard_in_service() && final(self).timer_in_service() == old(self).timer_in_service(),
    {
        if vector == self.offset1 {
            self.timer_in_service = false;
        } else {
            self.keyboard_in_service = false;
        }
    }
}

} // verus!
