use blog_os::interrupts::{
    init_idt, HandlerId, InterruptIndex, Pics, BREAKPOINT_VECTOR, DOUBLE_FAULT_IST_INDEX,
    DOUBLE_FAULT_VECTOR, KEYBOARD_VECTOR, PIC_1_OFFSET, PIC_2_OFFSET,
};
use blog_os::machine::{decimal_bytes, Machine, StackFrame, TICK_BYTE};
use blog_os::vga_buffer::{BUFFER_HEIGHT, BUFFER_WIDTH};

fn frame() -> StackFrame {
    StackFrame {
        instruction_pointer: 4096,
        stack_pointer: 8192,
        cpu_flags: 2,
    }
}

fn machine_row(m: &Machine, row: usize) -> Vec<u8> {
    let mut out: Vec<u8> = Vec::new();
    let mut col = 0;
    while col < BUFFER_WIDTH {
        out.push(m.read_char(row, col).ascii_character);
        col += 1;
    }
    out
}

#[test]
fn controller_offsets_clear_reserved_vectors() {
    assert_eq!(PIC_1_OFFSET, 32);
    assert_eq!(PIC_2_OFFSET, 40);
    assert_eq!(InterruptIndex::Timer.as_u8(), 32);
    assert_eq!(InterruptIndex::Timer.as_usize(), 32);
    assert_eq!(InterruptIndex::Keyboard.as_u8(), 33);
    assert_eq!(InterruptIndex::Keyboard.as_usize(), 33);
    assert_eq!(KEYBOARD_VECTOR, 33);
}

#[test]
fn pics_handle_exactly_their_ranges() {
    let pics = Pics::new(PIC_1_OFFSET, PIC_2_OFFSET);
    assert!(pics.handles_interrupt(32));
    assert!(pics.handles_interrupt(39));
    assert!(pics.handles_interrupt(40));
    assert!(pics.handles_interrupt(47));
    assert!(!pics.handles_interrupt(3));
    assert!(!pics.handles_interrupt(31));
    assert!(!pics.handles_interrupt(48));
    assert!(!pics.handles_interrupt(255));
}

#[test]
fn end_of_interrupt_rearms_the_line() {
    let mut pics = Pics::new(PIC_1_OFFSET, PIC_2_OFFSET);
    assert!(!pics.timer_is_in_service());
    pics.raise_timer();
    assert!(pics.timer_is_in_service());
    pics.notify_end_of_interrupt(InterruptIndex::Timer.as_u8());
    assert!(!pics.timer_is_in_service());
}

#[test]
fn idt_registers_the_configured_gates() {
    let idt = init_idt();
    let bp = idt.entry(BREAKPOINT_VECTOR);
    assert_eq!(bp.handler, Some(HandlerId::Breakpoint));
    assert_eq!(bp.stack_index, None);
    let df = idt.entry(DOUBLE_FAULT_VECTOR);
    assert_eq!(df.handler, Some(HandlerId::DoubleFault));
    assert_eq!(df.stack_index, Some(DOUBLE_FAULT_IST_INDEX));
    let timer = idt.entry(PIC_1_OFFSET);
    assert_eq!(timer.handler, Some(HandlerId::Timer));
    assert_eq!(timer.stack_index, None);
    let keyboard = idt.entry(KEYBOARD_VECTOR);
    assert_eq!(keyboard.handler, Some(HandlerId::Keyboard));
    assert_eq!(keyboard.stack_index, None);
    // every other gate is empty
    assert_eq!(idt.entry(0).handler, None);
    assert_eq!(idt.entry(7).handler, None);
    assert_eq!(idt.entry(34).handler, None);
    assert_eq!(idt.entry(255).handler, None);
}

#[test]
fn decimal_rendering_is_exact() {
    assert_eq!(decimal_bytes(0), vec![0x30]);
    assert_eq!(decimal_bytes(7), vec![0x37]);
    assert_eq!(decimal_bytes(1234), vec![0x31, 0x32, 0x33, 0x34]);
    assert_eq!(
        decimal_bytes(u64::MAX),
        b"18446744073709551615".to_vec()
    );
}

#[test]
fn test_breakpoint_exception() {
    let mut m = Machine::boot();
    m.trigger_breakpoint(frame());
    // execution resumes: the very next statement runs and the machine is
    // not halted
    assert!(!m.is_halted());
    assert!(!m.is_console_locked());
    let report = machine_row(&m, BUFFER_HEIGHT - 2);
    assert_eq!(&report[0..42], b"EXCEPTION: BREAKPOINT ip=4096 sp=8192 fl=2");
    // the console still works afterwards
    m.console_print(b"It did not crash!");
    let bottom = machine_row(&m, BUFFER_HEIGHT - 1);
    assert_eq!(&bottom[0..17], b"It did not crash!");
}

#[test]
fn double_fault_halts() {
    let mut m = Machine::boot();
    m.dispatch(DOUBLE_FAULT_VECTOR, frame());
    assert!(m.is_halted());
    let report = machine_row(&m, BUFFER_HEIGHT - 2);
    assert_eq!(&report[0..44], b"EXCEPTION: DOUBLE FAULT ip=4096 sp=8192 fl=2");
}

#[test]
fn timer_tick_prints_and_acknowledges() {
    let mut m = Machine::boot();
    let delivered = m.deliver_timer();
    assert!(delivered);
    assert_eq!(m.read_char(BUFFER_HEIGHT - 1, 0).ascii_character, TICK_BYTE);
    assert_eq!(m.console_cursor(), 1);
    // the line was acknowledged exactly once, so a second tick is
    // delivered too and lands beside the first
    let delivered = m.deliver_timer();
    assert!(delivered);
    assert_eq!(m.read_char(BUFFER_HEIGHT - 1, 1).ascii_character, TICK_BYTE);
}

#[test]
fn interleaved_timer_write_corrupts_nothing() {
    let mut m = Machine::boot();
    let s: &[u8] = b"The quick brown fox jumps over the lazy dog!!";
    assert_eq!(s.len(), 45);
    m.console_println(s);
    // a timer-style write interleaved right after the foreground write is
    // delivered (the lock is free again) and touches only the bottom row
    let delivered = m.deliver_timer();
    assert!(delivered);
    assert!(!m.is_console_locked());
    // all 45 cells of the second-to-last row reproduce the string exactly
    let row = machine_row(&m, BUFFER_HEIGHT - 2);
    assert_eq!(&row[0..45], s);
    assert_eq!(m.read_char(BUFFER_HEIGHT - 1, 0).ascii_character, TICK_BYTE);
}

#[test]
fn dispatch_consults_the_table() {
    let mut m = Machine::boot();
    m.dispatch(PIC_1_OFFSET, frame());
    assert_eq!(m.read_char(BUFFER_HEIGHT - 1, 0).ascii_character, TICK_BYTE);
    m.dispatch(BREAKPOINT_VECTOR, frame());
    assert!(!m.is_halted());
}
