use chip8::cpu::{is_defined, Cpu, RomTooLarge};
use chip8::display::Display;
use chip8::machine::Fault;

const WHITE: u32 = 0xFFFF_FFFF;

fn boot(rom: &[u8]) -> Cpu {
    let mut cpu = Cpu::new();
    cpu.load_rom(rom).unwrap();
    cpu
}

fn run(cpu: &mut Cpu, steps: usize) {
    for _ in 0..steps {
        cpu.cycle().unwrap();
    }
}

#[test]
fn power_on_state() {
    let cpu = Cpu::new();
    assert_eq!(cpu.pc(), 0x200);
    assert_eq!(cpu.index(), 0);
    assert_eq!(cpu.stack_pointer(), 0);
    assert_eq!(cpu.delay_timer(), 0);
    assert_eq!(cpu.sound_timer(), 0);
    for x in 0..16 {
        assert_eq!(cpu.register(x), 0);
    }
    assert_eq!(cpu.memory_at(0x50), 0xF0);
    assert_eq!(cpu.memory_at(0x55), 0x20);
    assert_eq!(cpu.memory_at(0x50 + 79), 0x80);
    assert_eq!(cpu.memory_at(0x4F), 0);
    assert_eq!(cpu.memory_at(0xA0), 0);
    assert!(cpu.get_display().iter().all(|&p| p == 0));
}

#[test]
fn fetch_decodes_big_endian_word() {
    let mut cpu = boot(&[0xA2, 0x00]);
    cpu.cycle().unwrap();
    assert_eq!(cpu.index(), 0xA200 & 0x0FFF);
    assert_eq!(cpu.pc(), 0x202);
}

#[test]
fn load_byte_sets_only_target() {
    let mut cpu = boot(&[0x63, 0x42]);
    cpu.cycle().unwrap();
    for x in 0..16 {
        assert_eq!(cpu.register(x), if x == 3 { 0x42 } else { 0 });
    }
    assert_eq!(cpu.index(), 0);
    assert_eq!(cpu.pc(), 0x202);
}

#[test]
fn add_byte_wraps_without_flag() {
    let mut cpu = boot(&[0x6F, 0x07, 0x60, 0xFF, 0x70, 0x01]);
    run(&mut cpu, 3);
    assert_eq!(cpu.register(0), 0x00);
    assert_eq!(cpu.register(0xF), 0x07);
}

#[test]
fn add_reg_sets_carry() {
    let mut cpu = boot(&[0x60, 0xFF, 0x61, 0x01, 0x80, 0x14]);
    run(&mut cpu, 3);
    assert_eq!(cpu.register(0), 0x00);
    assert_eq!(cpu.register(0xF), 1);

    let mut cpu = boot(&[0x6F, 0x01, 0x60, 0x01, 0x61, 0x01, 0x80, 0x14]);
    run(&mut cpu, 4);
    assert_eq!(cpu.register(0), 0x02);
    assert_eq!(cpu.register(0xF), 0);
}

#[test]
fn sub_sets_no_borrow_flag() {
    let mut cpu = boot(&[0x60, 0x01, 0x61, 0x02, 0x80, 0x15]);
    run(&mut cpu, 3);
    assert_eq!(cpu.register(0), 0xFF);
    assert_eq!(cpu.register(0xF), 0);

    let mut cpu = boot(&[0x60, 0x02, 0x61, 0x01, 0x80, 0x15]);
    run(&mut cpu, 3);
    assert_eq!(cpu.register(0), 0x01);
    assert_eq!(cpu.register(0xF), 1);
}

#[test]
fn reverse_sub_sets_no_borrow_flag() {
    let mut cpu = boot(&[0x60, 0x02, 0x61, 0x01, 0x80, 0x17]);
    run(&mut cpu, 3);
    assert_eq!(cpu.register(0), 0xFF);
    assert_eq!(cpu.register(0xF), 0);

    let mut cpu = boot(&[0x60, 0x01, 0x61, 0x03, 0x80, 0x17]);
    run(&mut cpu, 3);
    assert_eq!(cpu.register(0), 0x02);
    assert_eq!(cpu.register(0xF), 1);
}

#[test]
fn shifts_read_vy() {
    let mut cpu = boot(&[0x60, 0xF0, 0x61, 0x03, 0x80, 0x16]);
    run(&mut cpu, 3);
    assert_eq!(cpu.register(0), 0x01);
    assert_eq!(cpu.register(0xF), 1);

    let mut cpu = boot(&[0x60, 0x01, 0x61, 0x81, 0x80, 0x1E]);
    run(&mut cpu, 3);
    assert_eq!(cpu.register(0), 0x02);
    assert_eq!(cpu.register(0xF), 1);
}

#[test]
fn logic_ops() {
    let mut cpu = boot(&[
        0x60, 0x0C, 0x61, 0x0A, 0x82, 0x00, 0x82, 0x11, 0x83, 0x00, 0x83, 0x12, 0x84, 0x00,
        0x84, 0x13,
    ]);
    run(&mut cpu, 8);
    assert_eq!(cpu.register(2), 0x0E);
    assert_eq!(cpu.register(3), 0x08);
    assert_eq!(cpu.register(4), 0x06);
}

#[test]
fn skips() {
    // 3xnn taken, 4xnn not taken, 5xy0 taken, 9xy0 not taken
    let mut cpu = boot(&[0x60, 0x05, 0x30, 0x05]);
    run(&mut cpu, 2);
    assert_eq!(cpu.pc(), 0x206);
    let mut cpu = boot(&[0x60, 0x05, 0x40, 0x05]);
    run(&mut cpu, 2);
    assert_eq!(cpu.pc(), 0x204);
    let mut cpu = boot(&[0x60, 0x05, 0x61, 0x05, 0x50, 0x10]);
    run(&mut cpu, 3);
    assert_eq!(cpu.pc(), 0x208);
    let mut cpu = boot(&[0x60, 0x05, 0x61, 0x05, 0x90, 0x10]);
    run(&mut cpu, 3);
    assert_eq!(cpu.pc(), 0x206);
}

#[test]
fn jumps() {
    let mut cpu = boot(&[0x13, 0x45]);
    cpu.cycle().unwrap();
    assert_eq!(cpu.pc(), 0x345);
    let mut cpu = boot(&[0x60, 0x10, 0xB3, 0x00]);
    run(&mut cpu, 2);
    assert_eq!(cpu.pc(), 0x310);
}

#[test]
fn call_then_return_resumes_after_call() {
    // 0x200: call 0x206; 0x202: V0 = 1; 0x206: V1 = 2; 0x208: return
    let mut cpu = boot(&[0x22, 0x06, 0x60, 0x01, 0x00, 0x00, 0x61, 0x02, 0x00, 0xEE]);
    cpu.cycle().unwrap();
    assert_eq!(cpu.pc(), 0x206);
    assert_eq!(cpu.stack_pointer(), 1);
    run(&mut cpu, 2);
    assert_eq!(cpu.pc(), 0x202);
    assert_eq!(cpu.stack_pointer(), 0);
    cpu.cycle().unwrap();
    assert_eq!(cpu.register(0), 1);
    assert_eq!(cpu.register(1), 2);
}

#[test]
fn return_with_empty_stack_faults() {
    let mut cpu = boot(&[0x00, 0xEE]);
    assert_eq!(cpu.cycle(), Err(Fault::StackUnderflow));
    assert_eq!(cpu.pc(), 0x202);
    assert_eq!(cpu.stack_pointer(), 0);
}

#[test]
fn call_beyond_sixteen_faults() {
    let mut cpu = boot(&[0x22, 0x00]);
    for _ in 0..16 {
        assert_eq!(cpu.cycle(), Ok(()));
    }
    assert_eq!(cpu.stack_pointer(), 16);
    assert_eq!(cpu.cycle(), Err(Fault::StackOverflow));
    assert_eq!(cpu.pc(), 0x202);
    assert_eq!(cpu.stack_pointer(), 16);
}

#[test]
fn unknown_opcode_is_a_no_op() {
    let mut cpu = boot(&[0x60, 0x07, 0x50, 0x01, 0xE0, 0x00, 0xF0, 0xFF]);
    run(&mut cpu, 4);
    assert_eq!(cpu.pc(), 0x208);
    assert_eq!(cpu.register(0), 0x07);
    assert_eq!(cpu.index(), 0);
}

#[test]
fn sprite_drawn_twice_collides_and_clears() {
    // I = 0x20C (the byte 0xF0), V0 = 5, V1 = 3, draw twice
    let rom = [0xA2, 0x0C, 0x60, 0x05, 0x61, 0x03, 0xD0, 0x11, 0xD0, 0x11, 0x00, 0x00, 0xF0];
    let mut cpu = boot(&rom);
    run(&mut cpu, 4);
    assert_eq!(cpu.register(0xF), 0);
    let frame = cpu.get_display();
    for px in 0..64 {
        let on = (5..9).contains(&px);
        assert_eq!(frame[3 * 64 + px], if on { WHITE } else { 0 });
    }
    cpu.cycle().unwrap();
    assert_eq!(cpu.register(0xF), 1);
    assert!(cpu.get_display().iter().all(|&p| p == 0));
}

#[test]
fn sprite_wraps_around_edges() {
    // V0 = 62, V1 = 31, two rows of 0xFF
    let rom = [0xA2, 0x0A, 0x60, 0x3E, 0x61, 0x1F, 0xD0, 0x12, 0x00, 0x00, 0xFF, 0xFF];
    let mut cpu = boot(&rom);
    run(&mut cpu, 4);
    assert_eq!(cpu.register(0xF), 0);
    let frame = cpu.get_display();
    let cols = [62, 63, 0, 1, 2, 3, 4, 5];
    for py in 0..32 {
        for px in 0..64 {
            let on = (py == 31 || py == 0) && cols.contains(&px);
            assert_eq!(frame[py * 64 + px], if on { WHITE } else { 0 }, "pixel {px},{py}");
        }
    }
}

#[test]
fn coordinates_are_taken_modulo_screen_size() {
    // V0 = 64 + 2, V1 = 32 + 1
    let rom = [0xA2, 0x0A, 0x60, 0x42, 0x61, 0x21, 0xD0, 0x11, 0x00, 0x00, 0x80];
    let mut cpu = boot(&rom);
    run(&mut cpu, 4);
    let frame = cpu.get_display();
    assert_eq!(frame[64 + 2], WHITE);
    assert_eq!(frame.iter().filter(|&&p| p == WHITE).count(), 1);
}

#[test]
fn clear_screen_blanks_everything() {
    let rom = [0xA0, 0x50, 0xD0, 0x05, 0x00, 0xE0];
    let mut cpu = boot(&rom);
    run(&mut cpu, 2);
    assert!(cpu.get_display().iter().any(|&p| p == WHITE));
    cpu.cycle().unwrap();
    assert!(cpu.get_display().iter().all(|&p| p == 0));
}

#[test]
fn wait_key_blocks_until_a_key_is_set() {
    let mut cpu = boot(&[0xF3, 0x0A]);
    for _ in 0..5 {
        cpu.cycle().unwrap();
        assert_eq!(cpu.pc(), 0x200);
    }
    cpu.set_key(7);
    cpu.cycle().unwrap();
    assert_eq!(cpu.register(3), 7);
    assert_eq!(cpu.pc(), 0x202);
}

#[test]
fn wait_key_takes_lowest_pressed() {
    let mut cpu = boot(&[0xF3, 0x0A]);
    cpu.set_key(9);
    cpu.set_key(4);
    cpu.cycle().unwrap();
    assert_eq!(cpu.register(3), 4);
}

#[test]
fn key_skips_and_clear_keys() {
    let rom = [0x60, 0x05, 0xE0, 0x9E];
    let mut cpu = boot(&rom);
    cpu.set_key(5);
    run(&mut cpu, 2);
    assert_eq!(cpu.pc(), 0x206);

    let mut cpu = boot(&rom);
    cpu.set_key(5);
    cpu.clear_keys();
    run(&mut cpu, 2);
    assert_eq!(cpu.pc(), 0x204);

    let mut cpu = boot(&[0x60, 0x05, 0xE0, 0xA1]);
    run(&mut cpu, 2);
    assert_eq!(cpu.pc(), 0x206);

    // a register value above 15 names no key
    let mut cpu = boot(&[0x60, 0x25, 0xE0, 0xA1]);
    cpu.set_key(5);
    run(&mut cpu, 2);
    assert_eq!(cpu.pc(), 0x206);
}

#[test]
fn timers_move_only_on_tick() {
    // V0 = 5, delay = V0, V1 = 0, sound = V1, then loop on itself
    let rom = [0x60, 0x05, 0xF0, 0x15, 0x61, 0x00, 0xF1, 0x18, 0x12, 0x08];
    let mut cpu = boot(&rom);
    run(&mut cpu, 100);
    assert_eq!(cpu.delay_timer(), 5);
    assert_eq!(cpu.sound_timer(), 0);
    cpu.update_timers();
    assert_eq!(cpu.delay_timer(), 4);
    assert_eq!(cpu.sound_timer(), 0);
}

#[test]
fn timer_values_are_readable() {
    let rom = [0x60, 0x09, 0xF0, 0x15, 0xF0, 0x18, 0xF2, 0x07];
    let mut cpu = boot(&rom);
    run(&mut cpu, 3);
    cpu.update_timers();
    cpu.cycle().unwrap();
    assert_eq!(cpu.register(2), 8);
    assert_eq!(cpu.sound_timer(), 8);
}

#[test]
fn index_ops() {
    let mut cpu = boot(&[0x60, 0x02, 0xF0, 0x29]);
    run(&mut cpu, 2);
    assert_eq!(cpu.index(), 0x52);

    let mut cpu = boot(&[0xA1, 0x00, 0x60, 0x20, 0xF0, 0x1E]);
    run(&mut cpu, 3);
    assert_eq!(cpu.index(), 0x120);
}

#[test]
fn bcd_digits() {
    let mut cpu = boot(&[0xA3, 0x00, 0x60, 0xEA, 0xF0, 0x33]);
    run(&mut cpu, 3);
    assert_eq!(cpu.memory_at(0x300), 2);
    assert_eq!(cpu.memory_at(0x301), 3);
    assert_eq!(cpu.memory_at(0x302), 4);
}

#[test]
fn bcd_wraps_at_end_of_memory() {
    let mut cpu = boot(&[0xAF, 0xFF, 0x60, 0x7B, 0xF0, 0x33]);
    run(&mut cpu, 3);
    assert_eq!(cpu.memory_at(0xFFF), 1);
    assert_eq!(cpu.memory_at(0x000), 2);
    assert_eq!(cpu.memory_at(0x001), 3);
}

#[test]
fn store_and_load_registers() {
    let rom = [
        0x60, 0x11, 0x61, 0x22, 0x62, 0x33, 0x63, 0x44, 0xA3, 0x00, 0xF2, 0x55, 0x60, 0x00,
        0x61, 0x00, 0x62, 0x00, 0xF1, 0x65,
    ];
    let mut cpu = boot(&rom);
    run(&mut cpu, 6);
    assert_eq!(cpu.memory_at(0x300), 0x11);
    assert_eq!(cpu.memory_at(0x301), 0x22);
    assert_eq!(cpu.memory_at(0x302), 0x33);
    assert_eq!(cpu.memory_at(0x303), 0x00);
    run(&mut cpu, 4);
    assert_eq!(cpu.register(0), 0x11);
    assert_eq!(cpu.register(1), 0x22);
    assert_eq!(cpu.register(2), 0x00);
    assert_eq!(cpu.register(3), 0x44);
}

#[test]
fn random_is_masked() {
    let mut cpu = boot(&[0xC0, 0x0F, 0xC1, 0x00]);
    run(&mut cpu, 2);
    assert!(cpu.register(0) <= 0x0F);
    assert_eq!(cpu.register(1), 0);
}

#[test]
fn cycle_with_uses_given_byte() {
    let mut cpu = boot(&[0xC0, 0x3C]);
    cpu.cycle_with(0xA5).unwrap();
    assert_eq!(cpu.register(0), 0x24);
}

#[test]
fn rom_size_limit() {
    let mut cpu = Cpu::new();
    let big = vec![0xAB; 3585];
    assert_eq!(cpu.load_rom(&big), Err(RomTooLarge { len: 3585 }));
    assert_eq!(cpu.memory_at(0x200), 0);
    let full = vec![0xAB; 3584];
    assert_eq!(cpu.load_rom(&full), Ok(()));
    assert_eq!(cpu.memory_at(0x200), 0xAB);
    assert_eq!(cpu.memory_at(0xFFF), 0xAB);
}

#[test]
fn pc_wraps_around_memory() {
    let mut cpu = boot(&[0x1F, 0xFE]);
    run(&mut cpu, 2);
    assert_eq!(cpu.pc(), 0x1000);
    cpu.cycle().unwrap();
    assert_eq!(cpu.pc(), 0x1002);
}

#[test]
fn display_frame_lifecycle() {
    let mut d = Display::new();
    assert!(!d.needs_redraw());
    d.buffer[3][4] = 1;
    d.needs_redraw = true;
    let frame = d.take_frame();
    assert_eq!(frame[3][4], 1);
    assert!(!d.needs_redraw());
    d.clear();
    assert!(d.needs_redraw());
    assert!(d.buffer.iter().all(|row| row.iter().all(|&p| p == 0)));
    let e = Display::default();
    assert!(!e.needs_redraw);
}

#[test]
fn reset_returns_to_power_on() {
    let mut cpu = boot(&[0x60, 0x09, 0xA3, 0x00, 0x22, 0x00]);
    run(&mut cpu, 3);
    cpu.reset();
    assert_eq!(cpu.pc(), 0x200);
    assert_eq!(cpu.register(0), 0);
    assert_eq!(cpu.index(), 0);
    assert_eq!(cpu.stack_pointer(), 0);
    assert_eq!(cpu.memory_at(0x200), 0);
    assert_eq!(cpu.memory_at(0x50), 0xF0);
}

#[test]
fn decode_table_membership() {
    for op in [
        0x00E0u16, 0x00EE, 0x1234, 0x2FFF, 0x3A01, 0x4A01, 0x5120, 0x6A42, 0x7001, 0x8120, 0x8127,
        0x812E, 0x9120, 0xA200, 0xB000, 0xC0FF, 0xD125, 0xE19E, 0xE1A1, 0xF107, 0xF10A, 0xF115,
        0xF118, 0xF11E, 0xF129, 0xF133, 0xF155, 0xF165,
    ] {
        assert!(is_defined(op), "{op:#06x}");
    }
    for op in [0x0000u16, 0x0123, 0x00E1, 0x5121, 0x8128, 0x812F, 0x9121, 0xE19F, 0xF100, 0xF1FF] {
        assert!(!is_defined(op), "{op:#06x}");
    }
}

#[test]
fn instruction_handlers_are_callable_directly() {
    let mut cpu = boot(&[0x00, 0x00]);
    cpu.op_load_byte(3, 0xFF);
    cpu.op_load_byte(0xF, 0x07);
    cpu.op_add_byte(3, 0x02);
    assert_eq!(cpu.register(3), 0x01);
    assert_eq!(cpu.register(0xF), 0x07);
    cpu.op_load_byte(4, 0x01);
    cpu.op_sub_xy(4, 3);
    assert_eq!(cpu.register(4), 0x00);
    assert_eq!(cpu.register(0xF), 1);
    assert_eq!(cpu.opcode_at_pc(), 0x0000);
    assert_eq!(cpu.fetch(), 0x0000);
    assert_eq!(cpu.pc(), 0x202);
    assert_eq!(cpu.op_call(0x300), Ok(()));
    assert_eq!(cpu.op_return(), Ok(()));
    assert_eq!(cpu.pc(), 0x202);
}

#[test]
fn font_survives_rom_and_reset() {
    let mut cpu = boot(&[0x12, 0x00]);
    assert_eq!(cpu.memory_at(0x9B), 0xF0);
    assert_eq!(cpu.memory_at(0x9F), 0x80);
    assert_eq!(cpu.memory_at(0x200), 0x12);
}
