use chip8::interpreter::{CycleError, Interpreter, InterpreterEvent};

#[test]
fn test_1nnn() {
    let mut interpreter = Interpreter::default();

    interpreter.load(&[0x12, 0x34]);
    interpreter.cycle().unwrap();

    assert_eq!(interpreter.pc(), 0x234);
}

#[test]
fn test_2nnn() {
    let mut interpeter = Interpreter::default();

    interpeter.load(&[0x23, 0x45]);
    interpeter.cycle().unwrap();

    assert_eq!(interpeter.sp(), 1);
    assert_eq!(interpeter.pc(), 0x345);
    assert_eq!(interpeter.stack_at(0), 0x200);
}

#[test]
fn test_3xnn() {
    let mut interpreter = Interpreter::default();

    interpreter.load(&[0x32, 0xAB]);
    interpreter.set_v(2, 0xAB);
    interpreter.cycle().unwrap();
    assert_eq!(interpreter.pc(), 0x200 + 4);

    interpreter.load(&[0x32, 0xAB]);
    interpreter.set_v(2, 0xAB + 1);
    interpreter.cycle().unwrap();
    assert_eq!(interpreter.pc(), 0x200 + 2);
}

#[test]
fn test_4xnn() {
    let mut interpreter = Interpreter::default();

    // When Vx == NN, the program counter should not skip (increase by 2).
    interpreter.load(&[0x32, 0x12]);
    interpreter.set_v(2, 0x12);
    interpreter.cycle().unwrap();
    assert_eq!(interpreter.pc(), 0x200 + 4);

    // When Vx != NN, the program counter should skip (increase by 4).
    interpreter.load(&[0x32, 0x34]);
    interpreter.set_v(2, 0x12);
    interpreter.cycle().unwrap();
    assert_eq!(interpreter.pc(), 0x200 + 2);
}

#[test]
fn test_5xy0() {
    // The 5XY0 opcode when registers Vx and Vy are equal (increase by 4).
    let mut interpreter = Interpreter::default();
    interpreter.load(&[0x52, 0x30]);
    interpreter.set_v(2, 0x30);
    interpreter.set_v(3, 0x30);
    interpreter.cycle().unwrap();
    assert_eq!(interpreter.pc(), 0x200 + 4);

    // The 5XY0 opcode when registers Vx and Vy are not equal (increase by 2).
    let mut interpreter = Interpreter::default();
    interpreter.load(&[0x54, 0x50]);
    interpreter.set_v(4, 0x50);
    interpreter.set_v(5, 0x20);
    interpreter.cycle().unwrap();
    assert_eq!(interpreter.pc(), 0x200 + 2);
}

#[test]
fn test_6xnn() {
    // The 6XNN opcode (MOV VX, NN) loads a value into a register.
    let mut interpreter = Interpreter::default();
    interpreter.load(&[0x61, 0x42]);
    interpreter.cycle().unwrap();
    assert_eq!(interpreter.v(1), 0x42);
    assert_eq!(interpreter.pc(), 0x200 + 2);
}

#[test]
fn test_7xnn() {
    // The 7XNN opcode (ADD VX, NN) adds a value to a register.
    let mut interpreter = Interpreter::default();
    interpreter.load(&[0x61, 0x42, 0x71, 0x0A]);
    interpreter.cycle().unwrap();
    assert_eq!(interpreter.v(1), 0x42);

    interpreter.cycle().unwrap();
    assert_eq!(interpreter.v(1), 0x4C);
    assert_eq!(interpreter.pc(), 0x200 + 4);
}

#[test]
fn test_sound_delay_and_play_sound() {
    let mut interpreter = Interpreter::default();

    // set the timer, then clear-screen no-ops for the countdown to run on
    interpreter.load(&[0x61, 0x03, 0xF1, 0x18, 0x00, 0xE0, 0x00, 0xE0, 0x00, 0xE0]);
    interpreter.cycle().unwrap();
    interpreter.cycle().unwrap();

    // Three more cycles decrement the sound timer to zero.
    for _ in 0..3 {
        interpreter.cycle().unwrap();
    }

    assert_eq!(interpreter.sound_timer(), 0);
}

#[test]
fn test_fx55_reg_dump() {
    let mut interpreter = Interpreter::default();

    // REG_DUMP (FX55) stores V0..=V3 in memory at the index register.
    interpreter.load(&[0xF3, 0x55]);

    interpreter.set_v(0, 0x01);
    interpreter.set_v(1, 0x02);
    interpreter.set_v(2, 0x03);
    interpreter.set_v(3, 0x04);
    interpreter.set_index(0x300);

    interpreter.cycle().unwrap();

    assert_eq!(interpreter.mem(0x300), 0x01);
    assert_eq!(interpreter.mem(0x300 + 1), 0x02);
    assert_eq!(interpreter.mem(0x300 + 2), 0x03);
    assert_eq!(interpreter.mem(0x300 + 3), 0x04);

    assert_eq!(interpreter.pc(), 0x200 + 2);
}

#[test]
fn test_fx65_reg_load() {
    let mut interpreter = Interpreter::default();

    // REG_LOAD (FX65) reads the font's first glyph into V0..=V2.
    interpreter.load(&[0xF2, 0x65]);
    interpreter.set_index(0);
    interpreter.cycle().unwrap();

    assert_eq!(interpreter.v(0), 0xF0);
    assert_eq!(interpreter.v(1), 0x90);
    assert_eq!(interpreter.v(2), 0x90);
    assert_eq!(interpreter.v(3), 0x00);
}

#[test]
fn test_fx33_store_bcd() {
    let mut interpreter = Interpreter::default();

    interpreter.load(&[0xF0, 0x33]);
    interpreter.set_v(0, 234);
    interpreter.set_index(0x400);
    interpreter.cycle().unwrap();

    assert_eq!(interpreter.mem(0x400), 2);
    assert_eq!(interpreter.mem(0x401), 3);
    assert_eq!(interpreter.mem(0x402), 4);
}

// Loading a program resets every register, the stack pointer, both
// timers and the framebuffer, and places the program at 0x200.
#[test]
fn test_load_resets_machine() {
    let mut interpreter = Interpreter::default();

    interpreter.load(&[0x61, 0x42, 0xF1, 0x18, 0xD0, 0x15]);
    interpreter.set_index(0);
    interpreter.cycle().unwrap();
    interpreter.cycle().unwrap();
    interpreter.cycle().unwrap();

    interpreter.load(&[0x00, 0xE0]);
    assert_eq!(interpreter.pc(), 0x200);
    assert_eq!(interpreter.index(), 0x200);
    assert_eq!(interpreter.sp(), 0);
    assert_eq!(interpreter.delay_timer(), 0);
    assert_eq!(interpreter.sound_timer(), 0);
    for i in 0..16 {
        assert_eq!(interpreter.v(i), 0);
        assert_eq!(interpreter.stack_at(i), 0);
    }
    for c in 0..64 * 32 {
        assert_eq!(interpreter.screen_at(c), 0);
    }
    assert_eq!(interpreter.mem(0x200), 0x00);
    assert_eq!(interpreter.mem(0x201), 0xE0);
    // the font survives every load
    assert_eq!(interpreter.mem(0), 0xF0);
    assert_eq!(interpreter.mem(79), 0x80);
    // memory beyond the program is cleared
    assert_eq!(interpreter.mem(0x202), 0);
}

// The concrete scenario: one program that sets a register, starts the
// sound timer, clears the screen and loops.
#[test]
fn test_sound_timer_scenario() {
    let mut interpreter = Interpreter::default();
    interpreter.load(&[0x60, 0x04, 0xF0, 0x18, 0x00, 0xE0, 0x12, 0x04]);

    // cycle 1 sets V0 = 4 and reports the opcode that ran
    assert_eq!(interpreter.cycle().unwrap(), InterpreterEvent::Opcode(0x6004));
    assert_eq!(interpreter.v(0), 4);

    // cycle 2 sets the sound timer to 4; that cycle and the next three
    // report audio while the timer counts down to 0
    assert_eq!(interpreter.cycle().unwrap(), InterpreterEvent::Audio);
    assert_eq!(interpreter.sound_timer(), 3);
    assert_eq!(interpreter.cycle().unwrap(), InterpreterEvent::Audio);
    assert_eq!(interpreter.cycle().unwrap(), InterpreterEvent::Audio);
    assert_eq!(interpreter.cycle().unwrap(), InterpreterEvent::Audio);
    assert_eq!(interpreter.sound_timer(), 0);

    // the jump returns to 0x204, an infinite clear-screen loop
    assert_eq!(interpreter.cycle().unwrap(), InterpreterEvent::Opcode(0x1204));
    assert_eq!(interpreter.pc(), 0x204);
    assert_eq!(interpreter.cycle().unwrap(), InterpreterEvent::Opcode(0x00E0));
    assert_eq!(interpreter.pc(), 0x206);
    assert_eq!(interpreter.cycle().unwrap(), InterpreterEvent::Opcode(0x1204));
    assert_eq!(interpreter.pc(), 0x204);
}

// Drawing the same sprite twice at the same position clears every pixel
// it set, and the second draw reports a collision in the flag register.
#[test]
fn test_draw_twice_restores_screen() {
    let mut interpreter = Interpreter::default();
    // two draws of glyph 0 (5 rows) at (v0, v1) = (0, 0)
    interpreter.load(&[0xD0, 0x15, 0xD0, 0x15]);
    interpreter.set_index(0);

    interpreter.cycle().unwrap();
    // glyph 0 starts with row 0xF0: pixels 0..4 lit, none beyond
    assert_eq!(interpreter.screen_at(0), 1);
    assert_eq!(interpreter.screen_at(3), 1);
    assert_eq!(interpreter.screen_at(4), 0);
    assert_eq!(interpreter.v(15), 0);

    interpreter.cycle().unwrap();
    // the second draw clears everything the first one set
    for c in 0..64 * 32 {
        assert_eq!(interpreter.screen_at(c), 0);
    }
    assert_eq!(interpreter.v(15), 1);
}

// Drawing at column 60 with an 8-bit-wide sprite wraps columns
// 60..67 mod 64 around the left edge.
#[test]
fn test_draw_wraps_columns() {
    let mut interpreter = Interpreter::default();
    // draw 2 rows from the program bytes themselves (index = 0x200):
    // rows 0xD0 = 1101_0000 and 0x12 = 0001_0010
    interpreter.load(&[0xD0, 0x12]);
    interpreter.set_v(0, 60);
    interpreter.cycle().unwrap();

    // row 0: bits at columns 60, 61, 63; column 62 dark
    assert_eq!(interpreter.screen_at(60), 1);
    assert_eq!(interpreter.screen_at(61), 1);
    assert_eq!(interpreter.screen_at(62), 0);
    assert_eq!(interpreter.screen_at(63), 1);
    // row 1: 0x12 has bits 3 and 6 of the sprite; column 60+6 wraps to 2
    assert_eq!(interpreter.screen_at(64 + 63), 1);
    assert_eq!(interpreter.screen_at(64 + 2), 1);
    assert_eq!(interpreter.screen_at(64 + 3), 0);
    assert_eq!(interpreter.v(15), 0);
}

// The flag register is exactly the carry bit of the wrapping addition.
#[test]
fn test_8xy4_carry() {
    let mut interpreter = Interpreter::default();
    interpreter.load(&[0x80, 0x14]);
    interpreter.set_v(0, 0xFF);
    interpreter.set_v(1, 0x01);
    interpreter.cycle().unwrap();
    assert_eq!(interpreter.v(0), 0x00);
    assert_eq!(interpreter.v(15), 1);

    let mut interpreter = Interpreter::default();
    interpreter.load(&[0x80, 0x14]);
    interpreter.set_v(0, 0x10);
    interpreter.set_v(1, 0x01);
    interpreter.cycle().unwrap();
    assert_eq!(interpreter.v(0), 0x11);
    assert_eq!(interpreter.v(15), 0);
}

// The flag register is exactly the borrow bit of Vx - Vy.
#[test]
fn test_8xy5_borrow() {
    let mut interpreter = Interpreter::default();
    interpreter.load(&[0x80, 0x15]);
    interpreter.set_v(0, 0x05);
    interpreter.set_v(1, 0x0A);
    interpreter.cycle().unwrap();
    assert_eq!(interpreter.v(0), 0xFB);
    assert_eq!(interpreter.v(15), 1);

    let mut interpreter = Interpreter::default();
    interpreter.load(&[0x80, 0x15]);
    interpreter.set_v(0, 0x0A);
    interpreter.set_v(1, 0x05);
    interpreter.cycle().unwrap();
    assert_eq!(interpreter.v(0), 0x05);
    assert_eq!(interpreter.v(15), 0);
}

// The flag register is exactly the borrow bit of Vy - Vx.
#[test]
fn test_8xy7_borrow() {
    let mut interpreter = Interpreter::default();
    interpreter.load(&[0x80, 0x17]);
    interpreter.set_v(0, 0x0A);
    interpreter.set_v(1, 0x05);
    interpreter.cycle().unwrap();
    assert_eq!(interpreter.v(0), 0xFB);
    assert_eq!(interpreter.v(15), 1);

    let mut interpreter = Interpreter::default();
    interpreter.load(&[0x80, 0x17]);
    interpreter.set_v(0, 0x05);
    interpreter.set_v(1, 0x0A);
    interpreter.cycle().unwrap();
    assert_eq!(interpreter.v(0), 0x05);
    assert_eq!(interpreter.v(15), 0);
}

#[test]
fn test_shifts() {
    let mut interpreter = Interpreter::default();
    interpreter.load(&[0x80, 0x16]);
    interpreter.set_v(0, 0x05);
    interpreter.cycle().unwrap();
    assert_eq!(interpreter.v(0), 0x02);
    assert_eq!(interpreter.v(15), 1);

    let mut interpreter = Interpreter::default();
    interpreter.load(&[0x80, 0x1E]);
    interpreter.set_v(0, 0x81);
    interpreter.cycle().unwrap();
    assert_eq!(interpreter.v(0), 0x02);
    assert_eq!(interpreter.v(15), 1);
}

#[test]
fn test_timer_roundtrip() {
    let mut interpreter = Interpreter::default();
    // v0 = 7; delay = v0; v1 = delay
    interpreter.load(&[0x60, 0x07, 0xF0, 0x15, 0xF1, 0x07]);
    interpreter.cycle().unwrap();
    interpreter.cycle().unwrap();
    interpreter.cycle().unwrap();
    assert_eq!(interpreter.delay_timer(), 7);
    assert_eq!(interpreter.v(1), 7);
}

// A masked random draw with mask zero is zero whatever byte was drawn.
#[test]
fn test_cxnn_zero_mask() {
    let mut interpreter = Interpreter::default();
    interpreter.load(&[0x60, 0xFF, 0xC0, 0x00]);
    interpreter.cycle().unwrap();
    interpreter.cycle().unwrap();
    assert_eq!(interpreter.v(0), 0);
}

#[test]
fn test_fx29_sprite_addr_and_fx1e_add_index() {
    let mut interpreter = Interpreter::default();
    // v0 = 3; index = glyph address of 3; index += v0
    interpreter.load(&[0x60, 0x03, 0xF0, 0x29, 0xF0, 0x1E]);
    interpreter.cycle().unwrap();
    interpreter.cycle().unwrap();
    assert_eq!(interpreter.index(), 15);
    interpreter.cycle().unwrap();
    assert_eq!(interpreter.index(), 18);
}

#[test]
fn test_error_pc_out_of_bounds() {
    let mut interpreter = Interpreter::default();
    interpreter.load(&[0x1F, 0xFF]);
    interpreter.cycle().unwrap();
    assert_eq!(interpreter.pc(), 0xFFF);
    assert_eq!(interpreter.cycle().unwrap_err(), CycleError::PcOutOfBounds);
    // an aborted cycle leaves the machine untouched
    assert_eq!(interpreter.pc(), 0xFFF);
}

#[test]
fn test_error_invalid_opcode() {
    let mut interpreter = Interpreter::default();
    interpreter.load(&[0x00, 0x00]);
    assert_eq!(
        interpreter.cycle().unwrap_err(),
        CycleError::InvalidOpcode(0x0000)
    );
    assert_eq!(interpreter.pc(), 0x200);
}

#[test]
fn test_error_stack_underflow() {
    let mut interpreter = Interpreter::default();
    interpreter.load(&[0x00, 0xEE]);
    assert_eq!(interpreter.cycle().unwrap_err(), CycleError::StackUnderflow);
}

#[test]
fn test_error_stack_overflow() {
    let mut interpreter = Interpreter::default();
    // a call that calls itself: the seventeenth call has no free slot
    interpreter.load(&[0x22, 0x00]);
    for _ in 0..16 {
        interpreter.cycle().unwrap();
    }
    assert_eq!(interpreter.sp(), 16);
    assert_eq!(interpreter.cycle().unwrap_err(), CycleError::StackOverflow);
}

#[test]
fn test_error_memory_out_of_bounds() {
    let mut interpreter = Interpreter::default();
    interpreter.load(&[0xF0, 0x33]);
    interpreter.set_index(0xFFF);
    assert_eq!(
        interpreter.cycle().unwrap_err(),
        CycleError::MemoryOutOfBounds
    );
}

#[test]
fn test_error_index_overflow() {
    let mut interpreter = Interpreter::default();
    interpreter.load(&[0xF0, 0x1E]);
    interpreter.set_index(0xFFFF);
    interpreter.set_v(0, 1);
    assert_eq!(interpreter.cycle().unwrap_err(), CycleError::IndexOverflow);
}

#[test]
fn test_key_stubs_fall_through() {
    let mut interpreter = Interpreter::default();
    // key-pressed skip, key-not-pressed skip, wait-for-key: all stubs
    interpreter.load(&[0xE0, 0x9E, 0xE0, 0xA1, 0xF0, 0x0A]);
    interpreter.cycle().unwrap();
    assert_eq!(interpreter.pc(), 0x202);
    interpreter.cycle().unwrap();
    assert_eq!(interpreter.pc(), 0x204);
    interpreter.cycle().unwrap();
    assert_eq!(interpreter.pc(), 0x206);
}

#[test]
fn test_ret_resumes_after_call_site() {
    let mut interpreter = Interpreter::default();
    // call 0x204; at 0x204 return; resume after the call site
    interpreter.load(&[0x22, 0x04, 0x00, 0x00, 0x00, 0xEE]);
    interpreter.cycle().unwrap();
    assert_eq!(interpreter.pc(), 0x204);
    interpreter.cycle().unwrap();
    assert_eq!(interpreter.pc(), 0x202);
    assert_eq!(interpreter.sp(), 0);
}

#[test]
fn test_bnnn_offset_jump() {
    let mut interpreter = Interpreter::default();
    interpreter.load(&[0x60, 0x10, 0xB3, 0x00]);
    interpreter.cycle().unwrap();
    interpreter.cycle().unwrap();
    assert_eq!(interpreter.pc(), 0x310);
}
