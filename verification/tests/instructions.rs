use hachi::Fault;
use hachi::Hachi;

fn boot(prog: &[u8]) -> Hachi {
    let mut m = Hachi::new();
    m.load(prog);
    m
}

fn run(prog: &[u8], ticks: usize) -> Hachi {
    let mut m = boot(prog);
    for _ in 0..ticks {
        m.tick().expect("tick faulted");
    }
    m
}

#[test]
fn add_with_carry() {
    let m = run(&[0x60, 0xFF, 0x61, 0x02, 0x80, 0x14], 3);
    assert_eq!(m.get_register(0), 1);
    assert_eq!(m.get_register(15), 1);
}

#[test]
fn subtract_with_borrow() {
    let m = run(&[0x60, 0x05, 0x61, 0x06, 0x80, 0x15], 3);
    assert_eq!(m.get_register(0), 255);
    assert_eq!(m.get_register(15), 0);
}

#[test]
fn subtract_reversed_without_borrow() {
    let m = run(&[0x60, 0x05, 0x61, 0x06, 0x80, 0x17], 3);
    assert_eq!(m.get_register(0), 1);
    assert_eq!(m.get_register(15), 1);
}

#[test]
fn shift_right_sets_flag_to_low_bit() {
    let m = run(&[0x60, 0x05, 0x80, 0x06], 2);
    assert_eq!(m.get_register(0), 2);
    assert_eq!(m.get_register(15), 1);
}

#[test]
fn shift_left_sets_flag_to_high_bit() {
    let m = run(&[0x60, 0x81, 0x80, 0x0E], 2);
    assert_eq!(m.get_register(0), 2);
    assert_eq!(m.get_register(15), 1);
}

#[test]
fn bitwise_or_and_xor() {
    let m = run(&[0x60, 0x0C, 0x61, 0x0A, 0x80, 0x11], 3);
    assert_eq!(m.get_register(0), 0x0E);
    let m = run(&[0x60, 0x0C, 0x61, 0x0A, 0x80, 0x12], 3);
    assert_eq!(m.get_register(0), 0x08);
    let m = run(&[0x60, 0x0C, 0x61, 0x0A, 0x80, 0x13], 3);
    assert_eq!(m.get_register(0), 0x06);
}

#[test]
fn register_copy() {
    let m = run(&[0x61, 0x2A, 0x80, 0x10], 2);
    assert_eq!(m.get_register(0), 0x2A);
}

#[test]
fn skip_if_equal_immediate() {
    // V0 == 0 holds, so the word at 0x202 is skipped and V0 stays 0.
    let m = run(&[0x30, 0x00, 0x60, 0x07], 1);
    assert_eq!(m.get_program_counter(), 0x204);
    // V0 == 1 does not hold: no skip.
    let m = run(&[0x30, 0x01, 0x60, 0x07], 2);
    assert_eq!(m.get_register(0), 7);
}

#[test]
fn skip_if_not_equal_immediate() {
    let m = run(&[0x40, 0x01], 1);
    assert_eq!(m.get_program_counter(), 0x204);
    let m = run(&[0x40, 0x00], 1);
    assert_eq!(m.get_program_counter(), 0x202);
}

#[test]
fn skip_on_register_comparison() {
    // V0 == V1 (both 0): skip.
    let m = run(&[0x50, 0x10], 1);
    assert_eq!(m.get_program_counter(), 0x204);
    // V0 != V1 fails: no skip.
    let m = run(&[0x90, 0x10], 1);
    assert_eq!(m.get_program_counter(), 0x202);
    // Make them differ: 9xy0 skips.
    let m = run(&[0x60, 0x01, 0x90, 0x10], 2);
    assert_eq!(m.get_program_counter(), 0x206);
}

#[test]
fn jump_with_offset() {
    let m = run(&[0x60, 0x0A, 0xB2, 0x00], 2);
    assert_eq!(m.get_program_counter(), 0x20A);
}

#[test]
fn random_byte_is_masked() {
    let m = run(&[0xC0, 0x00, 0xC1, 0x0F], 2);
    assert_eq!(m.get_register(0), 0);
    assert_eq!(m.get_register(1) & 0xF0, 0);
}

#[test]
fn random_instruction_uses_injected_byte() {
    // With a caller-supplied byte the tick is fully deterministic: the
    // register receives exactly the byte masked by the immediate.
    let mut m = boot(&[0xC0, 0xFF, 0xC1, 0x0F]);
    m.tick_with_random(0xAB).expect("tick faulted");
    assert_eq!(m.get_register(0), 0xAB);
    m.tick_with_random(0xAB).expect("tick faulted");
    assert_eq!(m.get_register(1), 0x0B);
}

#[test]
fn call_and_return() {
    let mut m = boot(&[0x22, 0x04, 0x00, 0x00, 0x00, 0xEE]);
    m.tick().expect("call faulted");
    assert_eq!(m.get_program_counter(), 0x204);
    m.tick().expect("return faulted");
    assert_eq!(m.get_program_counter(), 0x202);
}

#[test]
fn return_with_empty_stack_faults() {
    let mut m = boot(&[0x00, 0xEE]);
    assert_eq!(m.tick(), Err(Fault::StackUnderflow));
}

#[test]
fn deep_recursion_overflows_stack() {
    // The instruction at 0x200 calls 0x200 again, forever.
    let mut m = boot(&[0x22, 0x00]);
    for _ in 0..16 {
        m.tick().expect("call faulted");
    }
    assert_eq!(m.tick(), Err(Fault::StackOverflow));
}

#[test]
fn program_counter_out_of_range_faults() {
    let mut m = boot(&[0x1F, 0xFF]);
    m.tick().expect("jump faulted");
    assert_eq!(m.tick(), Err(Fault::ProgramCounterOutOfRange));
}

#[test]
fn decimal_write_past_memory_faults() {
    let mut m = boot(&[0xAF, 0xFF, 0xF0, 0x33]);
    m.tick().expect("set index faulted");
    assert_eq!(m.tick(), Err(Fault::MemoryOutOfRange));
}

#[test]
fn draw_past_memory_faults() {
    let mut m = boot(&[0xAF, 0xFF, 0xD0, 0x02]);
    m.tick().expect("set index faulted");
    assert_eq!(m.tick(), Err(Fault::MemoryOutOfRange));
}

#[test]
fn key_skip_with_out_of_range_register_faults() {
    let mut m = boot(&[0x60, 0x10, 0xE0, 0x9E]);
    m.tick().expect("set register faulted");
    assert_eq!(m.tick(), Err(Fault::KeyOutOfRange));
}

#[test]
fn skip_if_key_pressed() {
    let mut m = boot(&[0xE0, 0x9E]);
    m.keypress(0, true);
    m.tick().expect("key skip faulted");
    assert_eq!(m.get_program_counter(), 0x204);
    let mut m = boot(&[0xE0, 0x9E]);
    m.tick().expect("key skip faulted");
    assert_eq!(m.get_program_counter(), 0x202);
}

#[test]
fn skip_if_key_not_pressed() {
    let mut m = boot(&[0xE0, 0xA1]);
    m.tick().expect("key skip faulted");
    assert_eq!(m.get_program_counter(), 0x204);
    let mut m = boot(&[0xE0, 0xA1]);
    m.keypress(0, true);
    m.tick().expect("key skip faulted");
    assert_eq!(m.get_program_counter(), 0x202);
}

#[test]
fn key_release_is_recorded() {
    let mut m = boot(&[0xE0, 0x9E]);
    m.keypress(0, true);
    m.keypress(0, false);
    m.tick().expect("key skip faulted");
    assert_eq!(m.get_program_counter(), 0x202);
}

#[test]
fn store_and_load_registers_round_trip() {
    let m = run(
        &[
            0x60, 0x11, 0x61, 0x22, 0x62, 0x33, // V0..V2
            0xA3, 0x00, // I := 0x300
            0xF2, 0x55, // memory[I..=I+2] := V0..V2
            0x60, 0x00, 0x61, 0x00, 0x62, 0x00, // zero them
            0xF2, 0x65, // V0..V2 := memory[I..=I+2]
        ],
        9,
    );
    assert_eq!(m.get_register(0), 0x11);
    assert_eq!(m.get_register(1), 0x22);
    assert_eq!(m.get_register(2), 0x33);
}

#[test]
fn glyph_lookup_draws_the_glyph() {
    // V0 := 2, I := glyph address of digit 2 (10), draw its five rows at
    // (0, 0). The first row of the glyph bitmap is 0xF0: four lit cells.
    let mut m = boot(&[0x60, 0x02, 0xF0, 0x29, 0xD1, 0x15]);
    for _ in 0..3 {
        m.tick().expect("tick faulted");
    }
    let d = m.get_display();
    assert!(d[0] && d[1] && d[2] && d[3]);
    assert!(!d[4]);
    // Second row is 0x10: only the fourth column is lit.
    assert!(!d[64] && d[64 + 3]);
    assert_eq!(m.get_register(15), 0);
}

#[test]
fn draw_wraps_both_coordinates() {
    // Draw two rows at (62, 31): the first row (0xF0) wraps horizontally
    // into columns 62, 63, 0, 1 of the last line; the second row (0x90,
    // columns 0 and 3 of the sprite) wraps vertically onto line 0.
    let m = run(&[0x60, 0x3E, 0x61, 0x1F, 0xD0, 0x12], 3);
    let d = m.get_display();
    assert!(d[31 * 64 + 62] && d[31 * 64 + 63] && d[31 * 64] && d[31 * 64 + 1]);
    assert!(d[62] && d[1]);
    assert!(!d[63] && !d[0]);
}

#[test]
fn draw_collision_sets_and_clears_flag() {
    // Drawing the same row twice at the same spot toggles every lit cell
    // back off and reports the collision.
    let mut m = boot(&[0xD0, 0x11, 0xD0, 0x11]);
    m.tick().expect("draw faulted");
    assert_eq!(m.get_register(15), 0);
    assert!(m.get_display()[0]);
    m.tick().expect("draw faulted");
    assert_eq!(m.get_register(15), 1);
    assert!(m.get_display().iter().all(|&c| !c));
}
