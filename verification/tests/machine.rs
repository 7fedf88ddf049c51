use chip8::display::Display;
use chip8::emulator::Emulator;
use chip8::keypad::Keypad;
use chip8::model::VmError;
use chip8::{SCREEN_HEIGHT, SCREEN_SIZE, SCREEN_WIDTH};

fn step(e: &mut Emulator) {
    e.step_with_random(0).unwrap();
}

fn run(program: &[u8], steps: usize) -> Emulator {
    let mut e = Emulator::new();
    e.load(program);
    for _ in 0..steps {
        step(&mut e);
    }
    e
}

#[test]
fn test_initial_state() {
    let e = Emulator::new();
    assert_eq!(e.get_pc(), 0x200);
    assert_eq!(e.get_index(), 0);
    assert_eq!(e.get_delay(), 0);
    assert_eq!(e.get_sound(), 0);
    for i in 0..16 {
        assert_eq!(e.get_register(i), 0);
    }
    assert!(e.is_well_formed());
    assert!(e.screen.get_screen().iter().all(|p| !p));
    assert!(e.keys.get_keys().iter().all(|k| !k));
}

#[test]
fn test_font_preloaded() {
    let e = Emulator::new();
    let font = e.keys.get_font();
    assert_eq!(font.len(), 80);
    for (i, b) in font.iter().enumerate() {
        assert_eq!(e.read_ram(i), *b);
    }
    // glyph 0 starts with 0xF0, glyph 1 starts at address 5 with 0x20
    assert_eq!(e.read_ram(0), 0xF0);
    assert_eq!(e.read_ram(5), 0x20);
    // past the font everything is zero
    assert_eq!(e.read_ram(80), 0);
}

#[test]
fn test_load_program() {
    let mut e = Emulator::new();
    e.load(&[1, 2, 3]);
    assert_eq!(e.read_ram(0x200), 1);
    assert_eq!(e.read_ram(0x201), 2);
    assert_eq!(e.read_ram(0x202), 3);
    assert_eq!(e.read_ram(0x203), 0);
    assert_eq!(e.read_ram(0x1FF), 0);
    // the font is untouched by a load
    assert_eq!(e.read_ram(0), 0xF0);
}

#[test]
fn test_push_pop() {
    let mut e = Emulator::new();
    e.push(0x234);
    e.push(0x456);
    assert_eq!(e.pop(), 0x456);
    assert_eq!(e.pop(), 0x234);
}

#[test]
fn test_draw_collision() {
    // draw the same all-set 1x8 sprite twice at (0, 0): the first draw
    // lights 8 pixels with VF = 0, the second turns them all off with
    // VF = 1
    let program = [0xA2, 0x06, 0xD0, 0x11, 0xD0, 0x11, 0xFF];
    let mut e = Emulator::new();
    e.load(&program);
    step(&mut e); // I := 0x206 (the 0xFF sprite byte)
    step(&mut e); // first draw
    assert_eq!(e.get_register(0xF), 0);
    for px in 0..8 {
        assert!(e.screen.get_screen()[px]);
    }
    step(&mut e); // second draw over the same pixels
    assert_eq!(e.get_register(0xF), 1);
    for px in 0..SCREEN_SIZE {
        assert!(!e.screen.get_screen()[px]);
    }
}

#[test]
fn test_draw_partial_overlap_collision() {
    // an all-set row, then a one-pixel sprite over its last column: the
    // overlap toggles that pixel off and sets the collision flag, the
    // other pixels stay lit
    let program = [0xA2, 0x08, 0xD0, 0x11, 0xA2, 0x09, 0xD0, 0x11, 0xFF, 0x01];
    let e = run(&program, 4);
    assert_eq!(e.get_register(0xF), 1);
    assert!(!e.screen.get_screen()[7]);
    for px in 0..7 {
        assert!(e.screen.get_screen()[px]);
    }
}

#[test]
fn test_draw_wraparound() {
    // an 8-wide sprite drawn at x = 63 wraps columns 64.. back to 0..
    let program = [0x60, 0x3F, 0xA2, 0x06, 0xD0, 0x11, 0xFF];
    let e = run(&program, 3);
    assert!(e.screen.get_screen()[63]);
    for px in 0..7 {
        assert!(e.screen.get_screen()[px]);
    }
    assert!(!e.screen.get_screen()[7]);
}

#[test]
fn test_draw_vertical_wraparound() {
    // a 2-row sprite drawn at y = 31 wraps its second row to y = 0
    let program = [0x61, 0x1F, 0xA2, 0x06, 0xD0, 0x12, 0x80, 0x80];
    let e = run(&program, 3);
    assert!(e.screen.get_screen()[31 * SCREEN_WIDTH]);
    assert!(e.screen.get_screen()[0]);
    assert_eq!(e.get_register(0xF), 0);
}

#[test]
fn test_clear_screen() {
    let program = [0xA2, 0x06, 0xD0, 0x11, 0x00, 0xE0, 0xFF];
    let e = run(&program, 3);
    for px in 0..SCREEN_SIZE {
        assert!(!e.screen.get_screen()[px]);
    }
}

#[test]
fn test_skip_if_key() {
    // V1 = 4; EX9E skips the next instruction only while button 4 is down
    let mut e = Emulator::new();
    e.load(&[0x61, 0x04, 0xE1, 0x9E]);
    e.keys.on_key_press(4, true);
    step(&mut e);
    step(&mut e);
    assert_eq!(e.get_pc(), 0x206);

    let mut e = Emulator::new();
    e.load(&[0x61, 0x04, 0xE1, 0x9E]);
    step(&mut e);
    step(&mut e);
    assert_eq!(e.get_pc(), 0x204);
}

#[test]
fn test_skip_if_key_up() {
    let mut e = Emulator::new();
    e.load(&[0x61, 0x04, 0xE1, 0xA1]);
    step(&mut e);
    step(&mut e);
    assert_eq!(e.get_pc(), 0x206);

    let mut e = Emulator::new();
    e.load(&[0x61, 0x04, 0xE1, 0xA1]);
    e.keys.on_key_press(4, true);
    step(&mut e);
    step(&mut e);
    assert_eq!(e.get_pc(), 0x204);
}

#[test]
fn test_key_wait() {
    // with no button down, repeated cycles leave pc parked on the wait
    // instruction; once a button goes down, the next cycle records its
    // index and moves on
    let mut e = Emulator::new();
    e.load(&[0xF1, 0x0A]);
    for _ in 0..5 {
        step(&mut e);
        assert_eq!(e.get_pc(), 0x200);
    }
    e.keys.on_key_press(0xB, true);
    step(&mut e);
    assert_eq!(e.get_register(1), 0xB);
    assert_eq!(e.get_pc(), 0x202);
}

#[test]
fn test_key_wait_lowest_index_wins() {
    let mut e = Emulator::new();
    e.load(&[0xF1, 0x0A]);
    e.keys.on_key_press(0xC, true);
    e.keys.on_key_press(0x3, true);
    step(&mut e);
    assert_eq!(e.get_register(1), 0x3);
}

#[test]
fn test_timer_floor() {
    // timers tick down once per call and never go below zero
    let mut e = run(&[0x61, 0x02, 0xF1, 0x15, 0xF1, 0x18], 3);
    assert_eq!(e.get_delay(), 2);
    assert_eq!(e.get_sound(), 2);
    e.timer();
    assert_eq!(e.get_delay(), 1);
    assert_eq!(e.get_sound(), 1);
    for _ in 0..5 {
        e.timer();
        assert_eq!(e.get_delay(), 0);
        assert_eq!(e.get_sound(), 0);
    }
}

#[test]
fn test_deterministic_runs() {
    // two machines fed the same program and the same random bytes agree
    // on every piece of visible state
    let program = [
        0xC1, 0xFF, 0xC2, 0x0F, 0x81, 0x24, 0xA3, 0x00, 0xF1, 0x33, 0x12, 0x00,
    ];
    let mut a = Emulator::new();
    let mut b = Emulator::new();
    a.load(&program);
    b.load(&program);
    let rnds = [0x5Au8, 0xC3, 0x01, 0xFE, 0x77, 0x10, 0x42, 0x99, 0x00, 0xFF];
    for r in rnds {
        a.step_with_random(r).unwrap();
        b.step_with_random(r).unwrap();
    }
    assert_eq!(a.get_pc(), b.get_pc());
    assert_eq!(a.get_index(), b.get_index());
    for i in 0..16 {
        assert_eq!(a.get_register(i), b.get_register(i));
    }
    for addr in 0..4096 {
        assert_eq!(a.read_ram(addr), b.read_ram(addr));
    }
}

#[test]
fn test_unknown_opcode_error() {
    let mut e = Emulator::new();
    e.load(&[0x5F, 0xF1]);
    let r = e.step_with_random(0);
    assert_eq!(r, Err(VmError::UnknownOpcode { opcode: 0x5FF1 }));
    // the faulting cycle leaves the state untouched
    assert_eq!(e.get_pc(), 0x200);
}

#[test]
fn test_stack_underflow_error() {
    let mut e = Emulator::new();
    e.load(&[0x00, 0xEE]);
    let r = e.step_with_random(0);
    assert_eq!(r, Err(VmError::StackUnderflow { opcode: 0x00EE }));
    assert_eq!(e.get_pc(), 0x200);
}

#[test]
fn test_stack_overflow_error() {
    // a subroutine that calls itself: 16 calls fill the stack, the 17th
    // overflows
    let mut e = Emulator::new();
    e.load(&[0x22, 0x00]);
    for _ in 0..16 {
        e.step_with_random(0).unwrap();
    }
    let r = e.step_with_random(0);
    assert_eq!(r, Err(VmError::StackOverflow { opcode: 0x2200 }));
    assert_eq!(e.get_pc(), 0x200);
}

#[test]
fn test_memory_out_of_bounds_error() {
    // BCD store with I = 0xFFF needs bytes at 0xFFF..=0x1001
    let mut e = Emulator::new();
    e.load(&[0xAF, 0xFF, 0xF1, 0x33]);
    step(&mut e);
    let r = e.step_with_random(0);
    assert_eq!(r, Err(VmError::MemoryOutOfBounds { opcode: 0xF133, addr: 0xFFF }));
    assert_eq!(e.get_pc(), 0x202);
}

#[test]
fn test_draw_out_of_bounds_error() {
    // a 2-row sprite based at I = 0xFFF would read past the end of memory
    let mut e = Emulator::new();
    e.load(&[0xAF, 0xFF, 0xD0, 0x12]);
    step(&mut e);
    let r = e.step_with_random(0);
    assert_eq!(r, Err(VmError::MemoryOutOfBounds { opcode: 0xD012, addr: 0xFFF }));
}

#[test]
fn test_key_out_of_range_error() {
    let mut e = Emulator::new();
    e.load(&[0x61, 0x10, 0xE1, 0x9E]);
    step(&mut e);
    let r = e.step_with_random(0);
    assert_eq!(r, Err(VmError::KeyOutOfRange { opcode: 0xE19E, key: 0x10 }));
}

#[test]
fn test_fetch_out_of_bounds_error() {
    // jump to 0xFFE; the no-op word there advances pc to 0x1000, where no
    // instruction word can be fetched
    let mut e = Emulator::new();
    e.load(&[0x1F, 0xFE]);
    step(&mut e);
    step(&mut e);
    let r = e.step_with_random(0);
    assert_eq!(r, Err(VmError::FetchOutOfBounds { pc: 0x1000 }));
    assert_eq!(e.get_pc(), 0x1000);
}

#[test]
fn test_display_basics() {
    let mut d = Display::new();
    assert_eq!(d.get_screen().len(), SCREEN_WIDTH * SCREEN_HEIGHT);
    assert!(d.get_screen().iter().all(|p| !p));
    d.set_screen(70, true);
    assert!(d.get_screen()[70]);
    assert!(!d.get_screen()[71]);
    d.clear();
    assert!(d.get_screen().iter().all(|p| !p));
}

#[test]
fn test_keypad_basics() {
    let mut k = Keypad::new();
    assert_eq!(k.get_keys().len(), 16);
    assert!(k.get_keys().iter().all(|b| !b));
    k.on_key_press(0xA, true);
    assert!(k.get_keys()[0xA]);
    k.on_key_press(0xA, false);
    assert!(!k.get_keys()[0xA]);
    assert_eq!(k.get_font().len(), 80);
    assert_eq!(k.get_font()[0], 0xF0);
}
