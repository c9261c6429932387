use chip8::cpu::{Chip8Error, Cpu, TIMER_INTERVAL_NANOS};
use chip8::display::Display;

fn fresh() -> Cpu {
    Cpu::new(0)
}

#[test]
fn add_with_flag_carries() {
    let mut cpu = fresh();
    cpu.regs[1] = 200;
    cpu.regs[2] = 100;
    cpu.add_vx_vy(1, 2);
    assert_eq!(cpu.regs[1], 44);
    assert_eq!(cpu.regs[15], 1);
    assert_eq!(cpu.pc, 0x202);

    cpu.regs[3] = 5;
    cpu.regs[4] = 3;
    cpu.add_vx_vy(3, 4);
    assert_eq!(cpu.regs[3], 8);
    assert_eq!(cpu.regs[15], 0);

    cpu.regs[5] = 255;
    cpu.regs[6] = 1;
    cpu.add_vx_vy(5, 6);
    assert_eq!(cpu.regs[5], 0);
    assert_eq!(cpu.regs[15], 1);
}

#[test]
fn sub_with_flag_records_no_borrow() {
    let mut cpu = fresh();
    cpu.regs[1] = 10;
    cpu.regs[2] = 5;
    cpu.sub_vx_vy(1, 2);
    assert_eq!(cpu.regs[1], 5);
    assert_eq!(cpu.regs[15], 1);

    cpu.regs[3] = 5;
    cpu.regs[4] = 10;
    cpu.sub_vx_vy(3, 4);
    assert_eq!(cpu.regs[3], 251);
    assert_eq!(cpu.regs[15], 0);

    cpu.regs[5] = 7;
    cpu.regs[6] = 7;
    cpu.sub_vx_vy(5, 6);
    assert_eq!(cpu.regs[5], 0);
    assert_eq!(cpu.regs[15], 1);
}

#[test]
fn subn_with_flag_records_no_borrow() {
    let mut cpu = fresh();
    cpu.regs[1] = 5;
    cpu.regs[2] = 10;
    cpu.subn_vx_vy(1, 2);
    assert_eq!(cpu.regs[1], 5);
    assert_eq!(cpu.regs[15], 1);

    cpu.regs[3] = 10;
    cpu.regs[4] = 5;
    cpu.subn_vx_vy(3, 4);
    assert_eq!(cpu.regs[3], 251);
    assert_eq!(cpu.regs[15], 0);
}

#[test]
fn shifts_report_dropped_bit() {
    let mut cpu = fresh();
    cpu.regs[1] = 0b0000_0101;
    cpu.shr_vx(1);
    assert_eq!(cpu.regs[1], 0b0000_0010);
    assert_eq!(cpu.regs[15], 1);

    cpu.regs[2] = 0b0000_0100;
    cpu.shr_vx(2);
    assert_eq!(cpu.regs[2], 0b0000_0010);
    assert_eq!(cpu.regs[15], 0);

    cpu.regs[3] = 0b1000_0001;
    cpu.shl_vx(3);
    assert_eq!(cpu.regs[3], 0b0000_0010);
    assert_eq!(cpu.regs[15], 1);

    cpu.regs[4] = 0b0100_0001;
    cpu.shl_vx(4);
    assert_eq!(cpu.regs[4], 0b1000_0010);
    assert_eq!(cpu.regs[15], 0);
}

#[test]
fn bitwise_ops_have_no_flag_side_effect() {
    let mut cpu = fresh();
    cpu.regs[15] = 9;
    cpu.regs[1] = 0b1100;
    cpu.regs[2] = 0b1010;
    cpu.or_vx_vy(1, 2);
    assert_eq!(cpu.regs[1], 0b1110);
    cpu.regs[3] = 0b1100;
    cpu.and_vx_vy(3, 2);
    assert_eq!(cpu.regs[3], 0b1000);
    cpu.regs[4] = 0b1100;
    cpu.xor_vx_vy(4, 2);
    assert_eq!(cpu.regs[4], 0b0110);
    assert_eq!(cpu.regs[15], 9);
}

#[test]
fn add_byte_wraps_without_flag() {
    let mut cpu = fresh();
    cpu.regs[15] = 3;
    cpu.regs[0] = 250;
    cpu.add_vx_byte(0, 10);
    assert_eq!(cpu.regs[0], 4);
    assert_eq!(cpu.regs[15], 3);
}

#[test]
fn skips_advance_by_four_or_two() {
    let mut cpu = fresh();
    cpu.regs[1] = 0x42;
    cpu.se_vx_byte(1, 0x42);
    assert_eq!(cpu.pc, 0x204);
    cpu.se_vx_byte(1, 0x43);
    assert_eq!(cpu.pc, 0x206);

    let mut cpu = fresh();
    cpu.regs[1] = 0x42;
    cpu.sne_vx_byte(1, 0x42);
    assert_eq!(cpu.pc, 0x202);
    cpu.sne_vx_byte(1, 0x43);
    assert_eq!(cpu.pc, 0x206);

    let mut cpu = fresh();
    cpu.regs[1] = 7;
    cpu.regs[2] = 7;
    cpu.regs[3] = 8;
    cpu.se_vx_vy(1, 2);
    assert_eq!(cpu.pc, 0x204);
    cpu.se_vx_vy(1, 3);
    assert_eq!(cpu.pc, 0x206);
    cpu.sne_vx_vy(1, 3);
    assert_eq!(cpu.pc, 0x20A);
    cpu.sne_vx_vy(1, 2);
    assert_eq!(cpu.pc, 0x20C);
}

#[test]
fn key_skips_use_low_nibble() {
    let mut cpu = fresh();
    cpu.regs[1] = 0x4;
    let keys: u16 = 1 << 4;
    cpu.skp_vx(1, keys);
    assert_eq!(cpu.pc, 0x204);
    cpu.skp_vx(1, 0);
    assert_eq!(cpu.pc, 0x206);
    cpu.sknp_vx(1, keys);
    assert_eq!(cpu.pc, 0x208);
    cpu.sknp_vx(1, 0);
    assert_eq!(cpu.pc, 0x20C);

    // A register value above 15 names the button by its low nibble.
    cpu.regs[2] = 0xF4;
    cpu.skp_vx(2, keys);
    assert_eq!(cpu.pc, 0x210);
}

#[test]
fn call_then_ret_restores_pc() {
    let mut cpu = fresh();
    assert_eq!(cpu.call_addr(0x400), Ok(()));
    assert_eq!(cpu.pc, 0x400);
    assert_eq!(cpu.sp, 1);
    assert_eq!(cpu.ret(), Ok(()));
    assert_eq!(cpu.pc, 0x202);
    assert_eq!(cpu.sp, 0);
}

#[test]
fn nested_calls_to_depth_16_then_overflow() {
    let mut cpu = fresh();
    let mut expected_returns = Vec::new();
    for depth in 0..16u16 {
        let target = 0x300 + depth * 0x10;
        expected_returns.push(cpu.pc + 2);
        assert_eq!(cpu.call_addr(target), Ok(()));
        assert_eq!(cpu.pc, target);
    }
    assert_eq!(cpu.sp, 16);

    // The 17th nested call is a fatal stack overflow and changes nothing.
    let at = cpu.pc;
    assert_eq!(cpu.call_addr(0x200), Err(Chip8Error::StackOverflow { addr: at }));
    assert_eq!(cpu.pc, at);
    assert_eq!(cpu.sp, 16);

    for depth in (0..16u16).rev() {
        assert_eq!(cpu.ret(), Ok(()));
        assert_eq!(cpu.pc, expected_returns[depth as usize]);
    }
    assert_eq!(cpu.sp, 0);
}

#[test]
fn ret_on_empty_stack_underflows() {
    let mut cpu = fresh();
    assert_eq!(cpu.ret(), Err(Chip8Error::StackUnderflow { addr: 0x200 }));
    assert_eq!(cpu.pc, 0x200);
}

#[test]
fn jumps() {
    let mut cpu = fresh();
    assert_eq!(cpu.jp_addr(0x500), Ok(()));
    assert_eq!(cpu.pc, 0x500);
    assert_eq!(cpu.jp_addr(0xFFF), Err(Chip8Error::AddressOutOfRange { addr: 0x500 }));
    assert_eq!(cpu.pc, 0x500);

    cpu.regs[0] = 0x10;
    cpu.jp_v0_addr(0x300);
    assert_eq!(cpu.pc, 0x310);
}

#[test]
fn index_register_ops() {
    let mut cpu = fresh();
    cpu.ld_i_addr(0x123);
    assert_eq!(cpu.i, 0x123);
    assert_eq!(cpu.pc, 0x202);

    cpu.regs[4] = 0x10;
    assert_eq!(cpu.add_i_vx(4), Ok(()));
    assert_eq!(cpu.i, 0x133);

    cpu.i = 0xFFFF;
    cpu.regs[4] = 1;
    assert_eq!(cpu.add_i_vx(4), Err(Chip8Error::AddressOutOfRange { addr: 0x204 }));
    assert_eq!(cpu.i, 0xFFFF);
}

#[test]
fn font_lookup_for_digit_9() {
    let mut cpu = fresh();
    cpu.regs[2] = 9;
    cpu.ld_f_vx(2);
    assert_eq!(cpu.i, 9 * 5);

    // The lookup reads only the low nibble of the register.
    cpu.regs[3] = 0xA9;
    cpu.ld_f_vx(3);
    assert_eq!(cpu.i, 9 * 5);
}

#[test]
fn bcd_store_writes_decimal_digits() {
    let mut cpu = fresh();
    cpu.i = 0x300;
    cpu.regs[1] = 255;
    assert_eq!(cpu.ld_b_vx(1), Ok(()));
    assert_eq!(cpu.ram.read(0x300), 2);
    assert_eq!(cpu.ram.read(0x301), 5);
    assert_eq!(cpu.ram.read(0x302), 5);

    cpu.regs[2] = 7;
    assert_eq!(cpu.ld_b_vx(2), Ok(()));
    assert_eq!(cpu.ram.read(0x300), 0);
    assert_eq!(cpu.ram.read(0x301), 0);
    assert_eq!(cpu.ram.read(0x302), 7);

    cpu.i = 4094;
    assert_eq!(cpu.ld_b_vx(1), Err(Chip8Error::AddressOutOfRange { addr: cpu.pc }));
}

#[test]
fn block_store_and_load_round_trip() {
    let mut cpu = fresh();
    cpu.i = 0x320;
    for j in 0..8u8 {
        cpu.regs[j as usize] = 0x30 + j;
    }
    assert_eq!(cpu.ld_i_vx(7), Ok(()));
    for j in 0..8u16 {
        assert_eq!(cpu.ram.read(0x320 + j), 0x30 + j as u8);
    }
    // The index register itself is unchanged.
    assert_eq!(cpu.i, 0x320);

    for j in 0..8u8 {
        cpu.regs[j as usize] = 0;
    }
    cpu.regs[8] = 0xAA;
    assert_eq!(cpu.ld_vx_i(7), Ok(()));
    for j in 0..8u8 {
        assert_eq!(cpu.regs[j as usize], 0x30 + j);
    }
    assert_eq!(cpu.regs[8], 0xAA);
    assert_eq!(cpu.i, 0x320);

    cpu.i = 4090;
    assert_eq!(cpu.ld_i_vx(7), Err(Chip8Error::AddressOutOfRange { addr: cpu.pc }));
    assert_eq!(cpu.ld_vx_i(7), Err(Chip8Error::AddressOutOfRange { addr: cpu.pc }));
}

#[test]
fn timer_reads_and_writes() {
    let mut cpu = fresh();
    cpu.regs[1] = 77;
    cpu.ld_dt_vx(1);
    assert_eq!(cpu.dt, 77);
    cpu.regs[2] = 55;
    cpu.ld_st_vx(2);
    assert_eq!(cpu.st, 55);
    cpu.ld_vx_dt(3);
    assert_eq!(cpu.regs[3], 77);
}

#[test]
fn timers_decrement_at_sixty_hertz_and_saturate() {
    let mut cpu = fresh();
    cpu.dt = 120;
    cpu.st = 120;
    cpu.update_timers(2_000_000_000);
    assert_eq!(cpu.dt, 0);
    assert_eq!(cpu.st, 0);

    // A single elapsed interval is only counted once strictly exceeded.
    let mut cpu = fresh();
    cpu.dt = 5;
    cpu.st = 2;
    cpu.update_timers(TIMER_INTERVAL_NANOS);
    assert_eq!(cpu.dt, 5);
    cpu.update_timers(TIMER_INTERVAL_NANOS + 1);
    assert_eq!(cpu.dt, 4);
    assert_eq!(cpu.st, 1);
    assert_eq!(cpu.last_timer_decrement, TIMER_INTERVAL_NANOS);
}

#[test]
fn random_masked_by_zero_is_zero() {
    let mut cpu = fresh();
    cpu.regs[1] = 0xAB;
    cpu.rnd_vx_byte(1, 0);
    assert_eq!(cpu.regs[1], 0);
    assert_eq!(cpu.pc, 0x202);

    cpu.rnd_vx_byte(2, 0x0F);
    assert!(cpu.regs[2] <= 0x0F);
}

#[test]
fn sprite_draw_sets_then_erases() {
    let mut cpu = fresh();
    let mut display = Display::new();
    // A 3-row, all-set sprite at memory 0x300.
    for k in 0..3u16 {
        cpu.ram.set(0x300 + k, 0xFF);
    }
    cpu.i = 0x300;
    cpu.regs[1] = 5;
    cpu.regs[2] = 6;

    assert_eq!(cpu.drw_vx_vy_nibble(&mut display, 1, 2, 3), Ok(()));
    assert_eq!(cpu.regs[15], 0);
    for x in 0..64u8 {
        for y in 0..32u8 {
            let inside = (5..13).contains(&x) && (6..9).contains(&y);
            assert_eq!(display.vram_get(x, y), inside);
        }
    }

    // Drawing the same sprite again erases it and sets the flag.
    assert_eq!(cpu.drw_vx_vy_nibble(&mut display, 1, 2, 3), Ok(()));
    assert_eq!(cpu.regs[15], 1);
    for x in 0..64u8 {
        for y in 0..32u8 {
            assert!(!display.vram_get(x, y));
        }
    }
}

#[test]
fn sprite_pixels_off_grid_are_dropped_not_wrapped() {
    let mut cpu = fresh();
    let mut display = Display::new();
    cpu.ram.set(0x300, 0xFF);
    cpu.ram.set(0x301, 0xFF);
    cpu.i = 0x300;
    cpu.regs[1] = 60;
    cpu.regs[2] = 31;

    assert_eq!(cpu.drw_vx_vy_nibble(&mut display, 1, 2, 2), Ok(()));
    for x in 60..64u8 {
        assert!(display.vram_get(x, 31));
    }
    // Neither columns nor rows wrap around.
    for x in 0..4u8 {
        assert!(!display.vram_get(x, 31));
        assert!(!display.vram_get(x, 0));
    }
    for x in 60..64u8 {
        assert!(!display.vram_get(x, 0));
    }
}

#[test]
fn sprite_origin_wraps_modulo_grid() {
    let mut cpu = fresh();
    let mut display = Display::new();
    cpu.ram.set(0x300, 0x80);
    cpu.i = 0x300;
    cpu.regs[1] = 64;
    cpu.regs[2] = 32;

    assert_eq!(cpu.drw_vx_vy_nibble(&mut display, 1, 2, 1), Ok(()));
    assert!(display.vram_get(0, 0));
}

#[test]
fn sprite_read_past_memory_is_fatal() {
    let mut cpu = fresh();
    let mut display = Display::new();
    cpu.i = 4095;
    assert_eq!(
        cpu.drw_vx_vy_nibble(&mut display, 0, 1, 2),
        Err(Chip8Error::AddressOutOfRange { addr: 0x200 })
    );
    assert_eq!(cpu.pc, 0x200);
}

#[test]
fn clear_screen_instruction() {
    let mut cpu = fresh();
    let mut display = Display::new();
    display.vram_set(3, 4, true);
    display.take_changed();
    cpu.cls(&mut display);
    assert!(!display.vram_get(3, 4));
    assert!(display.take_changed());
    assert_eq!(cpu.pc, 0x202);
}

#[test]
fn load_rom_and_run_two_ticks() {
    let mut cpu = fresh();
    let mut display = Display::new();
    let rom = vec![0x60, 0x05, 0x70, 0x03];
    assert_eq!(cpu.load_rom_into_ram(&rom), Ok(()));
    assert_eq!(cpu.ram.read(0x200), 0x60);
    assert_eq!(cpu.ram.read(0x203), 0x03);

    assert_eq!(cpu.tick(&mut display, 0, 0), Ok(()));
    assert_eq!(cpu.regs[0], 5);
    assert_eq!(cpu.pc, 0x202);
    assert_eq!(cpu.tick(&mut display, 0, 0), Ok(()));
    assert_eq!(cpu.regs[0], 8);
    assert_eq!(cpu.pc, 0x204);
}

#[test]
fn oversized_rom_is_rejected() {
    let mut cpu = fresh();
    let rom = vec![0u8; 0xE01];
    assert_eq!(cpu.load_rom_into_ram(&rom), Err(Chip8Error::ImageLoadFailure));
    let rom = vec![0xAAu8; 0xE00];
    assert_eq!(cpu.load_rom_into_ram(&rom), Ok(()));
    assert_eq!(cpu.ram.read(0xFFF), 0xAA);
}

#[test]
fn unknown_word_is_a_decode_failure() {
    let mut cpu = fresh();
    let mut display = Display::new();
    let rom = vec![0xFF, 0xFF];
    assert_eq!(cpu.load_rom_into_ram(&rom), Ok(()));
    assert_eq!(
        cpu.tick(&mut display, 0, 0),
        Err(Chip8Error::DecodeFailure { addr: 0x200, word: 0xFFFF })
    );
}

#[test]
fn fetch_at_end_of_memory_is_fatal() {
    let mut cpu = fresh();
    let mut display = Display::new();
    cpu.pc = 4095;
    assert_eq!(
        cpu.tick(&mut display, 0, 0),
        Err(Chip8Error::AddressOutOfRange { addr: 4095 })
    );
}

#[test]
fn block_until_key_suspends_and_resumes() {
    let mut cpu = fresh();
    let mut display = Display::new();
    let rom = vec![0xF1, 0x0A, 0x00, 0xE0];
    assert_eq!(cpu.load_rom_into_ram(&rom), Ok(()));

    assert_eq!(cpu.tick(&mut display, 0, 0), Ok(()));
    assert_eq!(cpu.awaiting_key, Some(1));
    assert_eq!(cpu.pc, 0x200);

    // Further ticks leave the program counter alone while suspended,
    // but the timers still run.
    cpu.dt = 10;
    assert_eq!(cpu.tick(&mut display, 0xFFFF, TIMER_INTERVAL_NANOS + 1), Ok(()));
    assert_eq!(cpu.pc, 0x200);
    assert_eq!(cpu.awaiting_key, Some(1));
    assert_eq!(cpu.dt, 9);

    cpu.provide_key(0xC);
    assert_eq!(cpu.regs[1], 0xC);
    assert_eq!(cpu.pc, 0x202);
    assert_eq!(cpu.awaiting_key, None);
}

#[test]
fn tick_decrements_timers_before_executing() {
    let mut cpu = fresh();
    let mut display = Display::new();
    // Copy the delay timer into register 4.
    let rom = vec![0xF4, 0x07];
    assert_eq!(cpu.load_rom_into_ram(&rom), Ok(()));
    cpu.dt = 2;
    assert_eq!(cpu.tick(&mut display, 0, TIMER_INTERVAL_NANOS + 1), Ok(()));
    assert_eq!(cpu.regs[4], 1);
}

#[test]
fn fetch_is_big_endian() {
    let mut cpu = fresh();
    cpu.ram.set(0x400, 0x12);
    cpu.ram.set(0x401, 0x34);
    assert_eq!(cpu.opcode_at(0x400), 0x1234);
}

#[test]
fn register_loads() {
    let mut cpu = fresh();
    cpu.ld_vx_byte(7, 0x99);
    assert_eq!(cpu.regs[7], 0x99);
    cpu.load_vx_vy(8, 7);
    assert_eq!(cpu.regs[8], 0x99);
    assert_eq!(cpu.pc, 0x204);
}
