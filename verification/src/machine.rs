//! The dispatch state machine: the console and its lock, the interrupt
//! flag, the controllers and the descriptor table, together with what each
//! handler does and the discipline that pairs the console lock with
//! interrupt masking.

use crate::interrupts::init_idt;
use crate::interrupts::{
    initialized_idt, offsets_disjoint, HandlerId, Idt, InterruptIndex, Pics, BREAKPOINT_VECTOR,
    DOUBLE_FAULT_VECTOR, KEYBOARD_VECTOR, PIC_1_OFFSET, PIC_2_OFFSET,
};
use crate::keyboard::{spec_decode, KeyEvent, Keyboard, KeyboardView};
use crate::vga_buffer::{Color, ScreenChar, Writer, WriterView, BUFFER_HEIGHT, BUFFER_WIDTH, NEWLINE};
use crate::vga_buffer::{lemma_with_bytes_concat, lemma_with_bytes_singleton};
use vstd::prelude::*;
use vstd::string::StringSliceAdditionalSpecFns;

verus! {

/// The glyph the timer handler prints on every tick.
pub const TICK_BYTE: u8 = 0x2e;

/// Snapshot of the interrupted context that the CPU hands to a handler.
#[derive(Debug, Clone, Copy, PartialEq, Eq, Structural)]
pub struct StackFrame {
    pub instruction_pointer: u64,
    pub stack_pointer: u64,
    pub cpu_flags: u64,
}

/// The decimal digits of `n` as bytes, most significant first.
pub open spec fn decimal_digits(n: u64) -> Seq<u8>
    decreases n,
{
    if n < 10 {
        seq![(0x30 + n) as u8]
    } else {
        decimal_digits(n / 10).push((0x30 + n % 10) as u8)
    }
}

/// Renders a number in decimal.
pub fn decimal_bytes(n: u64) -> (v: Vec<u8>)
    ensures
        v@ == decimal_digits(n),
    decreases n,
{
    if n < 10 {
        let d: u8 = 0x30 + (n as u8);
        let mut v: Vec<u8> = Vec::new();
        v.push(d);
        proof {
            assert(v@ =~= decimal_digits(n));
        }
        v
    } else {
        let mut v = decimal_bytes(n / 10);
        let d: u8 = 0x30 + ((n % 10) as u8);
        v.push(d);
        v
    }
}

/// The rendering of a captured context snapshot: instruction pointer,
/// stack pointer and flags, in decimal.
pub open spec fn frame_report(f: StackFrame) -> Seq<u8> {
    "ip=".spec_bytes() + decimal_digits(f.instruction_pointer) + " sp=".spec_bytes()
        + decimal_digits(f.stack_pointer) + " fl=".spec_bytes() + decimal_digits(f.cpu_flags)
        + seq![NEWLINE]
}

/// What the breakpoint handler reports before returning.
pub open spec fn breakpoint_report(f: StackFrame) -> Seq<u8> {
    "EXCEPTION: BREAKPOINT ".spec_bytes() + frame_report(f)
}

/// What the double-fault handler reports before the system halts.
pub open spec fn double_fault_report(f: StackFrame) -> Seq<u8> {
    "EXCEPTION: DOUBLE FAULT ".spec_bytes() + frame_report(f)
}

/// The decoder state a scancode finds: the persistent state, or a fresh
/// one, since the decoder is created on the first event.
pub open spec fn keyboard_state_before(k: Option<KeyboardView>) -> KeyboardView {
    match k {
        Some(v) => v,
        None => KeyboardView { awaiting_extended: false },
    }
}

/// What the keyboard handler reports for a non-printable key: its
/// identity as a scancode, the two-byte keys marked apart.
pub open spec fn key_report(extended: bool, code: u8) -> Seq<u8> {
    if extended {
        "key E0+".spec_bytes() + decimal_digits(code as u64) + seq![NEWLINE]
    } else {
        "key ".spec_bytes() + decimal_digits(code as u64) + seq![NEWLINE]
    }
}

/// What the keyboard handler writes on the console for one scancode: the
/// decoded printable character, the identity of a non-printable key, or
/// nothing for a byte that completes no event.
pub open spec fn keyboard_output(state: KeyboardView, scancode: u8) -> Seq<u8> {
    match spec_decode(state, scancode).1 {
        Some(KeyEvent::Char(b)) => seq![b],
        Some(KeyEvent::Raw(code)) => key_report(false, code),
        Some(KeyEvent::RawExtended(code)) => key_report(true, code),
        None => Seq::empty(),
    }
}

/// The mathematical state of the machine.
pub ghost struct MachineView {
    pub console: WriterView,
    pub idt: Seq<crate::interrupts::IdtEntry>,
    pub pic_1_offset: u8,
    pub pic_2_offset: u8,
    pub timer_in_service: bool,
    pub keyboard_in_service: bool,
    pub keyboard: Option<KeyboardView>,
    pub interrupts_enabled: bool,
    pub console_locked: bool,
    pub halted: bool,
}

impl MachineView {
    /// The system invariant: a well-formed console, the one-time table in
    /// place, the controllers remapped clear of the CPU-reserved vectors,
    /// and the masking discipline — whoever holds the console lock has
    /// interrupt delivery disabled.
    pub open spec fn wf(self) -> bool {
        &&& self.console.wf()
        &&& initialized_idt(self.idt)
        &&& self.pic_1_offset == PIC_1_OFFSET
        &&& self.pic_2_offset == PIC_2_OFFSET
        &&& offsets_disjoint(self.pic_1_offset, self.pic_2_offset)
        &&& (self.console_locked ==> !self.interrupts_enabled)
    }
}

/// The machine: the single shared console behind its lock, the descriptor
/// table, the remapped controllers, the interrupt flag, and whether a
/// double fault has halted the system.
pub struct Machine {
    console: Writer,
    idt: Idt,
    pics: Pics,
    keyboard: Option<Keyboard>,
    interrupts_enabled: bool,
    console_locked: bool,
    halted: bool,
}

impl View for Machine {
    type V = MachineView;

    closed spec fn view(&self) -> MachineView {
        MachineView {
            console: self.console@,
            idt: self.idt@,
            pic_1_offset: self.pics.offset1(),
            pic_2_offset: self.pics.offset2(),
            timer_in_service: self.pics.timer_in_service(),
            keyboard_in_service: self.pics.keyboard_in_service(),
            keyboard: match self.keyboard {
                Some(k) => Some(k@),
                None => None,
            },
            interrupts_enabled: self.interrupts_enabled,
            console_locked: self.console_locked,
            halted: self.halted,
        }
    }
}

impl Machine {
    /// Boot: build and install the descriptor table, remap the
    /// controllers just past the CPU-reserved vectors, set up the console,
    /// and only then enable interrupt delivery.
    pub fn boot() -> (m: Machine)
        ensures
            m@.wf(),
            m@.interrupts_enabled,
            !m@.console_locked,
            !m@.timer_in_service,
            !m@.keyboard_in_service,
            m@.keyboard is None,
            !m@.halted,
            m@.console.col == 0,
            // yellow text on a black background
            m@.console.color.code() == 0x0e,
            m@.console.grid == crate::vga_buffer::blank_grid(m@.console.color),
    {
        let console = Writer::new(Color::Yellow, Color::Black);
        proof {
            assert((0u8 << 4) | 14u8 == 0x0eu8) by (bit_vector);
        }
        let idt = init_idt();
        let pics = Pics::new(PIC_1_OFFSET, PIC_2_OFFSET);
        Machine {
            console,
            idt,
            pics,
            keyboard: None,
            interrupts_enabled: true,
            console_locked: false,
            halted: false,
        }
    }

    /// A foreground console write: interrupt delivery is disabled before
    /// the lock is taken and restored only after it is released, so a
    /// device handler can never find the lock held.
    pub fn console_print(&mut self, s: &[u8])
        requires
            old(self)@.wf(),
            !old(self)@.halted,
            !old(self)@.console_locked,
        ensures
            final(self)@.wf(),
            !final(self)@.halted,
            !final(self)@.console_locked,
            final(self)@.console == old(self)@.console.with_bytes(s@),
            final(self)@.interrupts_enabled == old(self)@.interrupts_enabled,
            final(self)@.timer_in_service == old(self)@.timer_in_service,
            final(self)@.keyboard_in_service == old(self)@.keyboard_in_service,
            final(self)@.keyboard == old(self)@.keyboard,
            final(self)@.idt == old(self)@.idt,
            final(self)@.pic_1_offset == old(self)@.pic_1_offset,
            final(self)@.pic_2_offset == old(self)@.pic_2_offset,
    {
        let saved = self.interrupts_enabled;
        self.interrupts_enabled = false;
        self.console_locked = true;
        self.console.write_bytes(s);
        self.console_locked = false;
        self.interrupts_enabled = saved;
    }

    /// A foreground console write of a line: the bytes, then a newline.
    pub fn console_println(&mut self, s: &[u8])
        requires
            old(self)@.wf(),
            !old(self)@.halted,
            !old(self)@.console_locked,
        ensures
            final(self)@.wf(),
            !final(self)@.halted,
            !final(self)@.console_locked,
            final(self)@.console == old(self)@.console.with_bytes(s@ + seq![NEWLINE]),
            final(self)@.interrupts_enabled == old(self)@.interrupts_enabled,
            final(self)@.timer_in_service == old(self)@.timer_in_service,
            final(self)@.keyboard_in_service == old(self)@.keyboard_in_service,
            final(self)@.keyboard == old(self)@.keyboard,
            final(self)@.idt == old(self)@.idt,
            final(self)@.pic_1_offset == old(self)@.pic_1_offset,
            final(self)@.pic_2_offset == old(self)@.pic_2_offset,
    {
        let saved = self.interrupts_enabled;
        self.interrupts_enabled = false;
        self.console_locked = true;
        self.console.write_bytes(s);
        self.console.write_byte(NEWLINE);
        self.console_locked = false;
        self.interrupts_enabled = saved;
        proof {
            lemma_with_bytes_concat(old(self)@.console, s@, seq![NEWLINE]);
            lemma_with_bytes_singleton(old(self)@.console.with_bytes(s@), NEWLINE);
        }
    }

    /// The timer handler: the CPU enters it through an interrupt gate
    /// (delivery masked), the controller holds the line in service, the
    /// handler prints its tick under the console lock, acknowledges the
    /// controller exactly once — outside the masked console section, since
    /// the acknowledgment is what re-arms delivery — and returns with the
    /// interrupt flag restored.
    pub fn on_timer_interrupt(&mut self)
        requires
            old(self)@.wf(),
            !old(self)@.halted,
            old(self)@.interrupts_enabled,
            !old(self)@.timer_in_service,
        ensures
            final(self)@.wf(),
            !final(self)@.halted,
            !final(self)@.console_locked,
            final(self)@.console == old(self)@.console.with_bytes(seq![TICK_BYTE]),
            final(self)@.interrupts_enabled == old(self)@.interrupts_enabled,
            !final(self)@.timer_in_service,
            final(self)@.keyboard_in_service == old(self)@.keyboard_in_service,
            final(self)@.keyboard == old(self)@.keyboard,
            final(self)@.idt == old(self)@.idt,
            final(self)@.pic_1_offset == old(self)@.pic_1_offset,
            final(self)@.pic_2_offset == old(self)@.pic_2_offset,
    {
        let saved = self.interrupts_enabled;
        self.interrupts_enabled = false;
        self.pics.raise_timer();
        self.console_locked = true;
        self.console.write_byte(TICK_BYTE);
        self.console_locked = false;
        let vector = InterruptIndex::Timer.as_u8();
        self.pics.notify_end_of_interrupt(vector);
        self.interrupts_enabled = saved;
        proof {
            lemma_with_bytes_singleton(old(self)@.console, TICK_BYTE);
        }
    }

    /// The keyboard handler: reads the one scancode byte the port holds,
    /// feeds it to the persistent decode state (created on the first
    /// event), prints a decoded printable character — or the identity of
    /// a non-printable key — under the console lock, and acknowledges the
    /// controller exactly once whatever the decode outcome, even for a
    /// byte that completes no event.
    pub fn on_keyboard_interrupt(&mut self, scancode: u8)
        requires
            old(self)@.wf(),
            !old(self)@.halted,
            old(self)@.interrupts_enabled,
            !old(self)@.keyboard_in_service,
        ensures
            final(self)@.wf(),
            !final(self)@.halted,
            !final(self)@.console_locked,
            final(self)@.console == old(self)@.console.with_bytes(
                keyboard_output(keyboard_state_before(old(self)@.keyboard), scancode),
            ),
            final(self)@.keyboard == Some(
                spec_decode(keyboard_state_before(old(self)@.keyboard), scancode).0,
            ),
            final(self)@.interrupts_enabled == old(self)@.interrupts_enabled,
            !final(self)@.keyboard_in_service,
            final(self)@.timer_in_service == old(self)@.timer_in_service,
            final(self)@.idt == old(self)@.idt,
            final(self)@.pic_1_offset == old(self)@.pic_1_offset,
            final(self)@.pic_2_offset == old(self)@.pic_2_offset,
    {
        let saved = self.interrupts_enabled;
        self.interrupts_enabled = false;
        self.pics.raise_keyboard();
        let mut decoder: Keyboard = match self.keyboard {
            Some(k) => k,
            None => Keyboard::new(),
        };
        let ghost pre = decoder@;
        let event = decoder.add_byte(scancode);
        self.keyboard = Some(decoder);
        match event {
            Some(KeyEvent::Char(b)) => {
                self.console_locked = true;
                self.console.write_byte(b);
                self.console_locked = false;
                proof {
                    crate::keyboard::lemma_key_chars_console_safe(scancode);
                    lemma_with_bytes_singleton(old(self)@.console, b);
                }
            },
            Some(KeyEvent::Raw(code)) => {
                self.console_locked = true;
                self.console.write_string("key ");
                let digits = decimal_bytes(code as u64);
                self.console.write_bytes(digits.as_slice());
                self.console.write_byte(NEWLINE);
                self.console_locked = false;
                proof {
                    let u = old(self)@.console;
                    let pre_s = "key ".spec_bytes();
                    let digs = decimal_digits(code as u64);
                    lemma_with_bytes_concat(u, pre_s, digs);
                    lemma_with_bytes_concat(u, pre_s + digs, seq![NEWLINE]);
                    assert((pre_s + digs) + seq![NEWLINE] =~= key_report(false, code));
                    lemma_with_bytes_singleton(u.with_bytes(pre_s + digs), NEWLINE);
                }
            },
            Some(KeyEvent::RawExtended(code)) => {
                self.console_locked = true;
                self.console.write_string("key E0+");
                let digits = decimal_bytes(code as u64);
                self.console.write_bytes(digits.as_slice());
                self.console.write_byte(NEWLINE);
                self.console_locked = false;
                proof {
                    let u = old(self)@.console;
                    let pre_s = "key E0+".spec_bytes();
                    let digs = decimal_digits(code as u64);
                    lemma_with_bytes_concat(u, pre_s, digs);
                    lemma_with_bytes_concat(u, pre_s + digs, seq![NEWLINE]);
                    assert((pre_s + digs) + seq![NEWLINE] =~= key_report(true, code));
                    lemma_with_bytes_singleton(u.with_bytes(pre_s + digs), NEWLINE);
                }
            },
            None => {
                proof {
                    assert(keyboard_output(pre, scancode) =~= Seq::<u8>::empty());
                }
            },
        }
        let vector = InterruptIndex::Keyboard.as_u8();
        self.pics.notify_end_of_interrupt(vector);
        self.interrupts_enabled = saved;
    }

    /// A scancode arriving from the keyboard hardware: delivered — and
    /// the handler run — only while interrupts are enabled and the line
    /// is armed; otherwise the byte stays pending at the controller and
    /// the machine is untouched.
    pub fn deliver_keyboard(&mut self, scancode: u8) -> (delivered: bool)
        requires
            old(self)@.wf(),
            !old(self)@.halted,
        ensures
            final(self)@.wf(),
            !final(self)@.halted,
            delivered == (old(self)@.interrupts_enabled && !old(self)@.keyboard_in_service),
            delivered ==> final(self)@.console == old(self)@.console.with_bytes(
                keyboard_output(keyboard_state_before(old(self)@.keyboard), scancode),
            ) && final(self)@.keyboard == Some(
                spec_decode(keyboard_state_before(old(self)@.keyboard), scancode).0,
            ) && !final(self)@.keyboard_in_service && !final(self)@.console_locked,
            !delivered ==> final(self)@ == old(self)@,
    {
        let armed = !self.pics.keyboard_is_in_service();
        if self.interrupts_enabled && armed {
            self.on_keyboard_interrupt(scancode);
            true
        } else {
            false
        }
    }

    /// Writes the captured context snapshot on the console; the caller
    /// holds the lock.
    fn write_frame_report(&mut self, stack_frame: StackFrame)
        requires
            old(self)@.wf(),
            old(self)@.console_locked,
        ensures
            final(self)@.wf(),
            final(self)@ == (MachineView {
                console: old(self)@.console.with_bytes(frame_report(stack_frame)),
                ..old(self)@
            }),
    {
        self.console.write_string("ip=");
        let ip = decimal_bytes(stack_frame.instruction_pointer);
        self.console.write_bytes(ip.as_slice());
        self.console.write_string(" sp=");
        let sp = decimal_bytes(stack_frame.stack_pointer);
        self.console.write_bytes(sp.as_slice());
        self.console.write_string(" fl=");
        let fl = decimal_bytes(stack_frame.cpu_flags);
        self.console.write_bytes(fl.as_slice());
        self.console.write_byte(NEWLINE);
        proof {
            let u = old(self)@.console;
            let p1 = "ip=".spec_bytes();
            let d1 = decimal_digits(stack_frame.instruction_pointer);
            let p2 = " sp=".spec_bytes();
            let d2 = decimal_digits(stack_frame.stack_pointer);
            let p3 = " fl=".spec_bytes();
            let d3 = decimal_digits(stack_frame.cpu_flags);
            lemma_with_bytes_concat(u, p1, d1);
            lemma_with_bytes_concat(u, p1 + d1, p2);
            lemma_with_bytes_concat(u, p1 + d1 + p2, d2);
            lemma_with_bytes_concat(u, p1 + d1 + p2 + d2, p3);
            lemma_with_bytes_concat(u, p1 + d1 + p2 + d2 + p3, d3);
            lemma_with_bytes_concat(u, p1 + d1 + p2 + d2 + p3 + d3, seq![NEWLINE]);
            lemma_with_bytes_singleton(u.with_bytes(p1 + d1 + p2 + d2 + p3 + d3), NEWLINE);
        }
    }

    /// The breakpoint handler: reports the interrupted context on the
    /// console and returns, leaving the system running — the exception is
    /// recoverable and execution resumes right after the trap.
    pub fn on_breakpoint(&mut self, stack_frame: StackFrame)
        requires
            old(self)@.wf(),
            !old(self)@.halted,
            !old(self)@.console_locked,
        ensures
            final(self)@.wf(),
            !final(self)@.halted,
            !final(self)@.console_locked,
            final(self)@.console == old(self)@.console.with_bytes(breakpoint_report(stack_frame)),
            final(self)@.interrupts_enabled == old(self)@.interrupts_enabled,
            final(self)@.timer_in_service == old(self)@.timer_in_service,
            final(self)@.keyboard_in_service == old(self)@.keyboard_in_service,
            final(self)@.keyboard == old(self)@.keyboard,
            final(self)@.idt == old(self)@.idt,
            final(self)@.pic_1_offset == old(self)@.pic_1_offset,
            final(self)@.pic_2_offset == old(self)@.pic_2_offset,
    {
        let saved = self.interrupts_enabled;
        self.interrupts_enabled = false;
        self.console_locked = true;
        self.console.write_string("EXCEPTION: BREAKPOINT ");
        self.write_frame_report(stack_frame);
        self.console_locked = false;
        self.interrupts_enabled = saved;
        proof {
            lemma_with_bytes_concat(
                old(self)@.console,
                "EXCEPTION: BREAKPOINT ".spec_bytes(),
                frame_report(stack_frame),
            );
        }
    }

    /// The double-fault handler: reports the interrupted context and
    /// halts. The system never runs on: every operation of the machine
    /// demands a non-halted state, so no caller observes control
    /// continuing past this handler.
    pub fn on_double_fault(&mut self, stack_frame: StackFrame)
        requires
            old(self)@.wf(),
            !old(self)@.halted,
            !old(self)@.console_locked,
        ensures
            final(self)@.wf(),
            final(self)@.halted,
            !final(self)@.console_locked,
            final(self)@.console == old(self)@.console.with_bytes(double_fault_report(stack_frame)),
            final(self)@.idt == old(self)@.idt,
    {
        self.interrupts_enabled = false;
        self.console_locked = true;
        self.console.write_string("EXCEPTION: DOUBLE FAULT ");
        self.write_frame_report(stack_frame);
        self.console_locked = false;
        self.halted = true;
        proof {
            lemma_with_bytes_concat(
                old(self)@.console,
                "EXCEPTION: DOUBLE FAULT ".spec_bytes(),
                frame_report(stack_frame),
            );
        }
    }

    /// The CPU's dispatch step: it consults the entry registered for the
    /// vector and transfers control to that handler. A hardware vector is
    /// delivered only while interrupts are enabled and its line is armed.
    pub fn dispatch(&mut self, vector: u8, stack_frame: StackFrame)
        requires
            old(self)@.wf(),
            !old(self)@.halted,
            !old(self)@.console_locked,
            old(self)@.idt[vector as int].handler is Some,
            vector != KEYBOARD_VECTOR,
            vector == PIC_1_OFFSET ==> old(self)@.interrupts_enabled && !old(
                self,
            )@.timer_in_service,
        ensures
            final(self)@.wf(),
            final(self)@.idt == old(self)@.idt,
            vector == BREAKPOINT_VECTOR ==> !final(self)@.halted && final(self)@.console == old(
                self,
            )@.console.with_bytes(breakpoint_report(stack_frame)),
            vector == DOUBLE_FAULT_VECTOR ==> final(self)@.halted && final(self)@.console == old(
                self,
            )@.console.with_bytes(double_fault_report(stack_frame)),
            vector == PIC_1_OFFSET ==> !final(self)@.halted && !final(self)@.timer_in_service
                && final(self)@.console == old(self)@.console.with_bytes(seq![TICK_BYTE]),
    {
        let entry = self.idt.entry(vector);
        match entry.handler {
            Some(HandlerId::Breakpoint) => self.on_breakpoint(stack_frame),
            Some(HandlerId::DoubleFault) => self.on_double_fault(stack_frame),
            Some(HandlerId::Timer) => self.on_timer_interrupt(),
            // the keyboard line carries a data byte and is delivered
            // through its own entry point, which hands the handler the
            // scancode the port holds
            Some(HandlerId::Keyboard) => {},
            None => {},
        }
    }

    /// A trap instruction from foreground code: the CPU dispatches through
    /// the breakpoint gate; control comes back here and the very next
    /// statement of the caller runs.
    pub fn trigger_breakpoint(&mut self, stack_frame: StackFrame)
        requires
            old(self)@.wf(),
            !old(self)@.halted,
            !old(self)@.console_locked,
        ensures
            final(self)@.wf(),
            !final(self)@.halted,
            final(self)@.console == old(self)@.console.with_bytes(breakpoint_report(stack_frame)),
            final(self)@.idt == old(self)@.idt,
    {
        self.dispatch(BREAKPOINT_VECTOR, stack_frame);
    }

    /// A timer signal arriving from the hardware: it is delivered — and
    /// the handler runs — only if interrupts are enabled and the line is
    /// armed; otherwise the machine is untouched and the line simply
    /// stays pending at the controller. In particular a signal arriving
    /// while the console lock is held is never delivered, because the
    /// discipline keeps interrupts masked for exactly that time.
    pub fn deliver_timer(&mut self) -> (delivered: bool)
        requires
            old(self)@.wf(),
            !old(self)@.halted,
        ensures
            final(self)@.wf(),
            !final(self)@.halted,
            delivered == (old(self)@.interrupts_enabled && !old(self)@.timer_in_service),
            delivered ==> final(self)@.console == old(self)@.console.with_bytes(seq![TICK_BYTE])
                && !final(self)@.timer_in_service && !final(self)@.console_locked,
            !delivered ==> final(self)@ == old(self)@,
    {
        let armed = !self.pics.timer_is_in_service();
        if self.interrupts_enabled && armed {
            self.on_timer_interrupt();
            true
        } else {
            false
        }
    }

    /// The cell of the console grid at the given position.
    pub fn read_char(&self, row: usize, col: usize) -> (c: ScreenChar)
        requires
            self@.wf(),
            row < BUFFER_HEIGHT,
            col < BUFFER_WIDTH,
        ensures
            c == self@.console.grid[row as int][col as int],
    {
        self.console.char_at(row, col)
    }

    /// The console cursor column.
    pub fn console_cursor(&self) -> (c: usize)
        ensures
            c == self@.console.col,
    {
        self.console.cursor()
    }

    /// Whether the console lock is held. Every public operation leaves it
    /// released; a caller about to take it anew can check.
    pub fn is_console_locked(&self) -> (r: bool)
        ensures
            r == self@.console_locked,
    {
        self.console_locked
    }

    /// Whether a double fault has halted the system.
    pub fn is_halted(&self) -> (r: bool)
        ensures
            r == self@.halted,
    {
        self.halted
    }

}

/// The masking discipline excludes the deadlock: whenever the hardware
/// can deliver an interrupt at all (interrupts enabled), no code path
/// holds the console lock, so a handler that takes the lock always finds
/// it free.
pub proof fn lemma_delivery_finds_console_unlocked(m: MachineView)
    requires
        m.wf(),
        m.interrupts_enabled,
    ensures
        !m.console_locked,
{
}

} // verus!
