use hachi::Fault;
use hachi::Hachi;

fn boot(prog: &[u8]) -> Hachi {
    let mut m = Hachi::new();
    m.load(prog);
    m
}

fn run(prog: &[u8], ticks: usize) -> Hachi {
    let mut m = boot(prog);
    for _ in 0..ticks {
        m.tick().expect("tick faulted");
    }
    m
}

#[test]
fn scenario_add_registers() {
    let m = run(&[0x60, 0x0A, 0x61, 0x0B, 0x80, 0x14], 3);
    assert_eq!(m.get_register(0), 21);
    assert_eq!(m.get_register(15), 0);
}

#[test]
fn scenario_clear_display() {
    // A fresh machine has the glyph table at address 0 and the index
    // register at 0, so a one-row draw lights cells; the clear leaves all
    // 2048 cells unlit.
    let mut m = boot(&[0xD0, 0x11, 0x00, 0xE0]);
    m.tick().expect("draw faulted");
    assert!(m.get_display().iter().any(|&c| c));
    m.tick().expect("clear faulted");
    assert_eq!(m.get_display().len(), 2048);
    assert!(m.get_display().iter().all(|&c| !c));
}

#[test]
fn scenario_jump() {
    let m = run(&[0x12, 0x28], 1);
    assert_eq!(m.get_program_counter(), 0x228);
}

#[test]
fn scenario_invalid_opcode() {
    let mut m = boot(&[0x50, 0x01]);
    assert_eq!(m.tick(), Err(Fault::UnknownOpcode(0x5001)));
}

#[test]
fn scenario_wait_for_key() {
    let mut m = boot(&[0xF0, 0x0A]);
    m.tick().expect("wait faulted");
    assert_eq!(m.get_program_counter(), 0x200);
    m.tick().expect("wait faulted");
    assert_eq!(m.get_program_counter(), 0x200);
    m.keypress(3, true);
    m.tick().expect("wait faulted");
    assert_eq!(m.get_register(0), 3);
    assert_eq!(m.get_program_counter(), 0x202);
    // The next instruction word is zero: a no-op, so the counter advances
    // normally from here on.
    m.tick().expect("no-op faulted");
    assert_eq!(m.get_program_counter(), 0x204);
}

#[test]
fn reset_restores_fresh_state() {
    let mut m = boot(&[0x60, 0x0A, 0x61, 0x0B, 0x80, 0x14, 0xD0, 0x11]);
    for _ in 0..4 {
        m.tick().expect("tick faulted");
    }
    m.keypress(5, true);
    m.tick_timers();
    m.reset();
    assert!(m == Hachi::new());
}

#[test]
fn fresh_machines_are_identical() {
    assert!(Hachi::new() == Hachi::new());
    assert!(Hachi::default() == Hachi::new());
}

#[test]
fn decimal_decomposition_writes_digits() {
    // V0 := 234; I := 0x300; write the decimal digits; read the three cells
    // back into V0..V2.
    let m = run(&[0x60, 0xEA, 0xA3, 0x00, 0xF0, 0x33, 0xF2, 0x65], 4);
    assert_eq!(m.get_register(0), 2);
    assert_eq!(m.get_register(1), 3);
    assert_eq!(m.get_register(2), 4);
}

#[test]
fn timers_floor_at_zero() {
    // V0 := 3, delay := V0, sound := V0; then far more timer ticks than 3.
    let mut m = boot(&[0x60, 0x03, 0xF0, 0x15, 0xF0, 0x18, 0xF1, 0x07]);
    for _ in 0..3 {
        m.tick().expect("tick faulted");
    }
    assert_eq!(m.get_audio(), 3);
    m.tick_timers();
    assert_eq!(m.get_audio(), 2);
    for _ in 0..7 {
        m.tick_timers();
    }
    assert_eq!(m.get_audio(), 0);
    // The fourth instruction reads the delay timer into V1: also 0.
    m.tick().expect("tick faulted");
    assert_eq!(m.get_register(1), 0);
}
