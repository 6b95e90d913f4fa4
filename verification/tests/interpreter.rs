use chip8::Chip8;
use chip8::InterpreterError;
use chip8::Keys;
use chip8::LoadError;
use chip8::StepOutcome;

fn machine_with(program: Vec<u8>) -> Chip8 {
    let mut c = Chip8::new();
    c.load_program(&program).unwrap();
    c
}

fn run(c: &mut Chip8, keys: &Keys, steps: usize) {
    for _ in 0..steps {
        c.step(keys).unwrap();
    }
}

#[test]
fn set_immediate_and_pc_advance() {
    let mut c = machine_with(vec![0x63, 0x2A]);
    let keys = Keys::new();
    assert_eq!(c.step(&keys), Ok(StepOutcome::Completed));
    assert_eq!(c.registers[3], 0x2A);
    assert_eq!(c.pc, 0x202);
}

#[test]
fn add_immediate_wraps_without_flag() {
    let mut c = machine_with(vec![0x65, 0xFF, 0x75, 0x02]);
    let keys = Keys::new();
    run(&mut c, &keys, 2);
    assert_eq!(c.registers[5], 0x01);
    assert_eq!(c.registers[0xF], 0x00);
}

#[test]
fn add_registers_carry_set() {
    let mut c = machine_with(vec![0x6A, 0xFF, 0x6B, 0x01, 0x8A, 0xB4]);
    let keys = Keys::new();
    run(&mut c, &keys, 3);
    assert_eq!(c.registers[0xA], 0x00);
    assert_eq!(c.registers[0xF], 1);
}

#[test]
fn add_registers_no_carry() {
    let mut c = machine_with(vec![0x6A, 0x01, 0x6B, 0x01, 0x8A, 0xB4]);
    let keys = Keys::new();
    run(&mut c, &keys, 3);
    assert_eq!(c.registers[0xA], 0x02);
    assert_eq!(c.registers[0xF], 0);
}

#[test]
fn clear_screen_turns_every_pixel_off() {
    // Draw an all-on row at (0, 0), then clear; sprite byte at 0x206.
    let mut c = machine_with(vec![0xA2, 0x06, 0xD0, 0x01, 0x00, 0xE0, 0xFF]);
    let keys = Keys::new();
    run(&mut c, &keys, 2);
    assert!(c.get_pixel(0, 0));
    run(&mut c, &keys, 1);
    for y in 0..32 {
        for x in 0..64 {
            assert!(!c.get_pixel(x, y));
        }
    }
}

#[test]
fn call_then_ret_returns_past_call() {
    // 0x200: call 0x300; 0x300: ret.
    let mut program = vec![0u8; 0x102];
    program[0] = 0x23;
    program[1] = 0x00;
    program[0x100] = 0x00;
    program[0x101] = 0xEE;
    let mut c = machine_with(program);
    let keys = Keys::new();
    assert_eq!(c.step(&keys), Ok(StepOutcome::Completed));
    assert_eq!(c.pc, 0x300);
    assert_eq!(c.sp, 1);
    assert_eq!(c.step(&keys), Ok(StepOutcome::Completed));
    assert_eq!(c.pc, 0x202);
    assert_eq!(c.sp, 0);
}

#[test]
fn bcd_of_234() {
    let mut c = machine_with(vec![0x6E, 0xEA, 0xA3, 0x00, 0xFE, 0x33]);
    let keys = Keys::new();
    run(&mut c, &keys, 3);
    assert_eq!(c.ram[0x300], 2);
    assert_eq!(c.ram[0x301], 3);
    assert_eq!(c.ram[0x302], 4);
}

#[test]
fn store_then_load_restores_registers() {
    let mut c = machine_with(vec![
        0x60, 0x11, // V0 = 0x11
        0x61, 0x22, // V1 = 0x22
        0x62, 0x33, // V2 = 0x33
        0xA4, 0x00, // I = 0x400
        0xF2, 0x55, // store V0..V2
        0x60, 0x00, // clobber V0
        0x61, 0x00, // clobber V1
        0x62, 0x00, // clobber V2
        0xF2, 0x65, // load V0..V2 back
    ]);
    let keys = Keys::new();
    run(&mut c, &keys, 9);
    assert_eq!(c.registers[0], 0x11);
    assert_eq!(c.registers[1], 0x22);
    assert_eq!(c.registers[2], 0x33);
    assert_eq!(c.idx, 0x400);
}

#[test]
fn draw_twice_sets_collision_flag_second_time() {
    // V0 = 10, V1 = 5, I -> 0xFF, draw 8x1 twice at the same origin.
    let mut c = machine_with(vec![
        0x60, 0x0A, 0x61, 0x05, 0xA2, 0x0A, 0xD0, 0x11, 0xD0, 0x11, 0xFF,
    ]);
    let keys = Keys::new();
    run(&mut c, &keys, 4);
    assert_eq!(c.registers[0xF], 0);
    assert!(c.get_pixel(10, 5));
    assert!(c.get_pixel(17, 5));
    run(&mut c, &keys, 1);
    assert_eq!(c.registers[0xF], 1);
    // The XOR blit turned the row back off.
    assert!(!c.get_pixel(10, 5));
    assert!(!c.get_pixel(17, 5));
}

#[test]
fn draw_clips_at_right_edge() {
    // V0 = 62: only columns 62 and 63 are drawn, nothing wraps to 0.
    let mut c = machine_with(vec![
        0x60, 0x3E, 0x61, 0x00, 0xA2, 0x08, 0xD0, 0x11, 0xFF,
    ]);
    let keys = Keys::new();
    run(&mut c, &keys, 4);
    assert!(c.get_pixel(62, 0));
    assert!(c.get_pixel(63, 0));
    assert!(!c.get_pixel(0, 0));
    assert!(!c.get_pixel(1, 0));
    assert_eq!(c.registers[0xF], 0);
}

#[test]
fn draw_origin_wraps() {
    // V0 = 66 wraps to column 2.
    let mut c = machine_with(vec![
        0x60, 0x42, 0x61, 0x00, 0xA2, 0x08, 0xD0, 0x11, 0x80,
    ]);
    let keys = Keys::new();
    run(&mut c, &keys, 4);
    assert!(c.get_pixel(2, 0));
    assert!(!c.get_pixel(66 % 64 + 1, 0));
}

#[test]
fn draw_sprite_read_out_of_bounds() {
    let mut c = machine_with(vec![0xD0, 0x12]);
    c.idx = 4095;
    let keys = Keys::new();
    assert_eq!(c.step(&keys), Err(InterpreterError::MemoryBoundsError));
}

#[test]
fn unimplemented_opcode_leaves_state() {
    let mut c = machine_with(vec![0xB1, 0x23]);
    let keys = Keys::new();
    let regs_before = c.registers.clone();
    assert_eq!(c.step(&keys), Err(InterpreterError::UnimplementedOpcode));
    assert_eq!(c.registers, regs_before);
    assert_eq!(c.sp, 0);
    assert_eq!(c.idx, 0);
    // Only PC reflects the completed fetch.
    assert_eq!(c.pc, 0x202);
}

#[test]
fn unimplemented_alu_selector() {
    let mut c = machine_with(vec![0x8A, 0xB8]);
    let keys = Keys::new();
    assert_eq!(c.step(&keys), Err(InterpreterError::UnimplementedOpcode));
}

#[test]
fn unimplemented_zero_class_selector() {
    let mut c = machine_with(vec![0x00, 0xE1]);
    let keys = Keys::new();
    assert_eq!(c.step(&keys), Err(InterpreterError::UnimplementedOpcode));
}

#[test]
fn stack_underflow_on_lone_ret() {
    let mut c = machine_with(vec![0x00, 0xEE]);
    let keys = Keys::new();
    assert_eq!(c.step(&keys), Err(InterpreterError::StackUnderflow));
}

#[test]
fn stack_overflow_on_seventeenth_call() {
    // 0x200: call 0x200, forever.
    let mut c = machine_with(vec![0x22, 0x00]);
    let keys = Keys::new();
    for _ in 0..16 {
        assert_eq!(c.step(&keys), Ok(StepOutcome::Completed));
    }
    assert_eq!(c.sp, 16);
    assert_eq!(c.step(&keys), Err(InterpreterError::StackOverflow));
}

#[test]
fn fetch_past_end_of_memory() {
    let mut c = machine_with(vec![0x1F, 0xFF]);
    let keys = Keys::new();
    assert_eq!(c.step(&keys), Ok(StepOutcome::Completed));
    assert_eq!(c.pc, 0xFFF);
    assert_eq!(c.step(&keys), Err(InterpreterError::MemoryBoundsError));
}

#[test]
fn program_too_large_rejected() {
    let mut c = Chip8::new();
    assert_eq!(
        c.load_program(&vec![0u8; 3585]),
        Err(LoadError::ProgramTooLarge)
    );
    assert_eq!(c.load_program(&vec![0u8; 3584]), Ok(()));
}

#[test]
fn skip_family() {
    // 3xkk taken, 4xkk not taken, 5xy0 taken, 9xy0 not taken.
    let mut c = machine_with(vec![0x6A, 0x07, 0x3A, 0x07]);
    let keys = Keys::new();
    run(&mut c, &keys, 2);
    assert_eq!(c.pc, 0x206);

    let mut c = machine_with(vec![0x6A, 0x07, 0x4A, 0x07]);
    run(&mut c, &keys, 2);
    assert_eq!(c.pc, 0x204);

    let mut c = machine_with(vec![0x6A, 0x07, 0x6B, 0x07, 0x5A, 0xB0]);
    run(&mut c, &keys, 3);
    assert_eq!(c.pc, 0x208);

    let mut c = machine_with(vec![0x6A, 0x07, 0x6B, 0x07, 0x9A, 0xB0]);
    run(&mut c, &keys, 3);
    assert_eq!(c.pc, 0x206);
}

#[test]
fn subtract_and_shift_flags() {
    // 8xy5 with equal operands: flag 0, result 0.
    let mut c = machine_with(vec![0x62, 0x05, 0x63, 0x05, 0x82, 0x35]);
    let keys = Keys::new();
    run(&mut c, &keys, 3);
    assert_eq!(c.registers[2], 0);
    assert_eq!(c.registers[0xF], 0);

    // 8xy7: Vx = Vy - Vx, flag when Vy > Vx.
    let mut c = machine_with(vec![0x66, 0x05, 0x67, 0x09, 0x86, 0x77]);
    run(&mut c, &keys, 3);
    assert_eq!(c.registers[6], 4);
    assert_eq!(c.registers[0xF], 1);

    // 8xy5 borrow: 5 - 9 wraps.
    let mut c = machine_with(vec![0x66, 0x05, 0x67, 0x09, 0x86, 0x75]);
    run(&mut c, &keys, 3);
    assert_eq!(c.registers[6], 252);
    assert_eq!(c.registers[0xF], 0);

    // 8xy6: shift right out of V6 = 3.
    let mut c = machine_with(vec![0x66, 0x03, 0x86, 0x06]);
    run(&mut c, &keys, 2);
    assert_eq!(c.registers[6], 1);
    assert_eq!(c.registers[0xF], 1);

    // 8xyE: shift left of 0x81 wraps and reports the top bit.
    let mut c = machine_with(vec![0x66, 0x81, 0x86, 0x0E]);
    run(&mut c, &keys, 2);
    assert_eq!(c.registers[6], 0x02);
    assert_eq!(c.registers[0xF], 1);
}

#[test]
fn bitwise_family() {
    let mut c = machine_with(vec![
        0x66, 0x0C, 0x67, 0x0A, 0x86, 0x71, // V6 = 0x0C | 0x0A
        0x68, 0x0C, 0x69, 0x0A, 0x88, 0x92, // V8 = 0x0C & 0x0A
        0x6A, 0x0C, 0x6B, 0x0A, 0x8A, 0xB3, // VA = 0x0C ^ 0x0A
        0x6C, 0x55, 0x6D, 0x77, 0x8C, 0xD0, // VC = VD
    ]);
    let keys = Keys::new();
    run(&mut c, &keys, 12);
    assert_eq!(c.registers[6], 0x0E);
    assert_eq!(c.registers[8], 0x08);
    assert_eq!(c.registers[0xA], 0x06);
    assert_eq!(c.registers[0xC], 0x77);
}

#[test]
fn flag_register_as_destination_keeps_result() {
    // 8xy4 with x = 0xF: the sum, not the carry, stays in VF.
    let mut c = machine_with(vec![0x6F, 0x01, 0x6B, 0x02, 0x8F, 0xB4]);
    let keys = Keys::new();
    run(&mut c, &keys, 3);
    assert_eq!(c.registers[0xF], 3);
}

#[test]
fn random_masked_by_zero_is_zero() {
    let mut c = machine_with(vec![0x6A, 0xFF, 0xCA, 0x00]);
    let keys = Keys::new();
    run(&mut c, &keys, 2);
    assert_eq!(c.registers[0xA], 0);
}

#[test]
fn random_and_direct_mask() {
    let mut c = Chip8::new();
    c.random_and(4, 0x0F);
    assert_eq!(c.registers[4] & 0xF0, 0);
}

#[test]
fn timers_set_read_and_tick() {
    let mut c = machine_with(vec![0x63, 0x05, 0xF3, 0x15, 0xF3, 0x18, 0xF4, 0x07]);
    let keys = Keys::new();
    run(&mut c, &keys, 4);
    assert_eq!(c.registers[4], 5);
    assert_eq!(c.sound_timer, 5);
    c.tick_timers();
    c.tick_timers();
    assert_eq!(c.delay_timer, 3);
    assert_eq!(c.sound_timer, 3);
    c.delay_timer = 0;
    c.tick_timers();
    assert_eq!(c.delay_timer, 0);
}

#[test]
fn index_add_wraps_sixteen_bits() {
    let mut c = machine_with(vec![0x6A, 0x02, 0xFA, 0x1E]);
    c.idx = 0xFFFF;
    let keys = Keys::new();
    run(&mut c, &keys, 2);
    assert_eq!(c.idx, 1);
}

#[test]
fn font_table_and_glyph_address() {
    let mut c = machine_with(vec![0x6A, 0x0A, 0xFA, 0x29]);
    let keys = Keys::new();
    run(&mut c, &keys, 2);
    assert_eq!(c.idx, 50);
    assert_eq!(c.ram[0], 0xF0);
    assert_eq!(&c.ram[50..55], &[0xF0u8, 0x90, 0xF0, 0x90, 0x90][..]);
}

#[test]
fn bcd_write_out_of_bounds() {
    let mut c = machine_with(vec![0xF0, 0x33]);
    c.idx = 4094;
    let keys = Keys::new();
    assert_eq!(c.step(&keys), Err(InterpreterError::MemoryBoundsError));
}

#[test]
fn store_out_of_bounds() {
    let mut c = machine_with(vec![0xF6, 0x55]);
    c.idx = 4090;
    let keys = Keys::new();
    assert_eq!(c.step(&keys), Err(InterpreterError::MemoryBoundsError));
}

#[test]
fn key_mapping_round_trip() {
    let mut k = Keys::new();
    for hex in 0..16 {
        assert_eq!(k.key_pressed(hex), Some(false));
    }
    assert_eq!(k.key_pressed(16), None);
    k.press(0); // layout slot 0 holds hex key 1
    assert_eq!(k.key_pressed(0x1), Some(true));
    assert_eq!(k.key_pressed(0x2), Some(false));
    k.press(13); // layout slot 13 holds hex key 0
    assert_eq!(k.key_pressed(0x0), Some(true));
}

#[test]
fn skip_if_key_pressed() {
    let mut c = machine_with(vec![0x6A, 0x04, 0xEA, 0x9E]);
    let mut keys = Keys::new();
    keys.press(4); // layout slot 4 holds hex key 4
    run(&mut c, &keys, 2);
    assert_eq!(c.pc, 0x206);

    let mut c = machine_with(vec![0x6A, 0x04, 0xEA, 0x9E]);
    let keys = Keys::new();
    run(&mut c, &keys, 2);
    assert_eq!(c.pc, 0x204);
}

#[test]
fn skip_if_key_not_pressed() {
    let mut c = machine_with(vec![0x6A, 0x04, 0xEA, 0xA1]);
    let keys = Keys::new();
    run(&mut c, &keys, 2);
    assert_eq!(c.pc, 0x206);

    let mut c = machine_with(vec![0x6A, 0x04, 0xEA, 0xA1]);
    let mut keys = Keys::new();
    keys.press(4);
    run(&mut c, &keys, 2);
    assert_eq!(c.pc, 0x204);
}

#[test]
fn wait_for_key_suspends_then_takes_lowest() {
    let mut c = machine_with(vec![0xF5, 0x0A]);
    let keys = Keys::new();
    assert_eq!(c.step(&keys), Ok(StepOutcome::WaitingForKey));
    // PC is back on the wait instruction, so the driver can retry.
    assert_eq!(c.pc, 0x200);
    let mut keys = Keys::new();
    keys.press(8); // layout slot 8 holds hex key 7
    keys.press(15); // layout slot 15 holds hex key F
    assert_eq!(c.step(&keys), Ok(StepOutcome::Completed));
    assert_eq!(c.registers[5], 0x7);
    assert_eq!(c.pc, 0x202);
}

#[test]
fn decode_extracts_every_field() {
    let i = chip8::decode::decode(0xABCD);
    assert_eq!(i.class, 0xA);
    assert_eq!(i.x, 0xB);
    assert_eq!(i.y, 0xC);
    assert_eq!(i.n, 0xD);
    assert_eq!(i.nn, 0xCD);
    assert_eq!(i.nnn, 0xBCD);
}

#[test]
fn framebuffer_snapshot_matches_pixels() {
    let mut c = machine_with(vec![0xA2, 0x06, 0xD0, 0x01, 0x00, 0x00, 0x80]);
    let keys = Keys::new();
    run(&mut c, &keys, 2);
    let fb = c.framebuffer();
    assert_eq!(fb.len(), 2048);
    assert!(fb[0]);
    assert!(!fb[1]);
}
