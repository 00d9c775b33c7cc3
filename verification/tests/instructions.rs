use chip8::cpu::{LoadError, CPU, MAX_PROGRAM_SIZE, MEMORY_SIZE};
use chip8::display::NullDisplay;
use chip8::fontset::FONTSET;
use chip8::instruction::Instruction;
use chip8::model::Quirks;
use chip8::timing::frame_time;

fn machine(program: &[u8]) -> CPU<NullDisplay> {
    let mut cpu = CPU::new(NullDisplay::new());
    cpu.initialize();
    cpu.load(program.to_vec()).unwrap();
    cpu
}

/// The fields of the machine, for comparing two states as a whole.
fn state(cpu: &CPU<NullDisplay>) -> (u16, Vec<u8>, u8, u8, Vec<u8>, u16, u16, Vec<u8>, Vec<u16>, u16, Vec<u8>, Quirks) {
    (
        cpu.opcode,
        cpu.v.to_vec(),
        cpu.delay_timer,
        cpu.sound_timer,
        cpu.memory.to_vec(),
        cpu.i,
        cpu.pc,
        cpu.gfx.to_vec(),
        cpu.stack.to_vec(),
        cpu.sp,
        cpu.keys.to_vec(),
        cpu.quirks,
    )
}

#[test]
fn new_machine_is_all_zero() {
    let cpu = CPU::new(NullDisplay::new());
    assert_eq!(cpu.pc, 0);
    assert_eq!(cpu.opcode, 0);
    assert_eq!(cpu.i, 0);
    assert_eq!(cpu.sp, 0);
    assert_eq!(cpu.delay_timer, 0);
    assert_eq!(cpu.sound_timer, 0);
    assert!(cpu.v.iter().all(|&b| b == 0));
    assert!(cpu.memory.iter().all(|&b| b == 0));
    assert!(cpu.gfx.iter().all(|&b| b == 0));
    assert!(cpu.stack.iter().all(|&b| b == 0));
    assert!(cpu.keys.iter().all(|&b| b == 0));
    assert_eq!(cpu.quirks, Quirks::default());
    assert_eq!(
        Quirks::default(),
        Quirks { shift_uses_vy: true, index_advances: true, draw_waits_for_frame: true }
    );
}

#[test]
fn initialize_installs_the_whole_font_and_clears_the_rest() {
    let mut cpu = CPU::new(NullDisplay::new());
    for b in cpu.memory.iter_mut() {
        *b = 0xAA;
    }
    cpu.quirks.shift_uses_vy = false;
    cpu.opcode = 0x1234;
    cpu.initialize();
    for (a, &b) in cpu.memory.iter().enumerate() {
        if (0x50..0x50 + 80).contains(&a) {
            assert_eq!(b, FONTSET[a - 0x50], "address {a:#X}");
        } else {
            assert_eq!(b, 0, "address {a:#X}");
        }
    }
    assert_eq!(cpu.pc, 0x200);
    assert_eq!(cpu.opcode, 0);
    assert!(!cpu.quirks.shift_uses_vy);
    assert_eq!(FONTSET.len(), 80);
    assert_eq!(&FONTSET[15..20], &[0xF0, 0x10, 0xF0, 0x10, 0xF0]);
}

#[test]
fn load_places_each_byte_and_no_other() {
    let mut cpu = CPU::new(NullDisplay::new());
    cpu.initialize();
    cpu.memory[0x1FF] = 0x11;
    cpu.memory[0x205] = 0x22;
    let before = cpu.memory.to_vec();
    let program: Vec<u8> = vec![1, 2, 3, 4, 5];
    assert_eq!(cpu.load(program.clone()), Ok(()));
    for (a, &b) in cpu.memory.iter().enumerate() {
        if (0x200..0x205).contains(&a) {
            assert_eq!(b, program[a - 0x200]);
        } else {
            assert_eq!(b, before[a]);
        }
    }
    assert_eq!(cpu.pc, 0x200);
}

#[test]
fn load_takes_a_program_that_fills_memory() {
    let mut cpu = CPU::new(NullDisplay::new());
    cpu.initialize();
    let program: Vec<u8> = (0..MAX_PROGRAM_SIZE).map(|k| (k % 251) as u8 + 1).collect();
    assert_eq!(program.len(), 3584);
    assert_eq!(cpu.load(program.clone()), Ok(()));
    assert_eq!(&cpu.memory[0x200..], &program[..]);
    assert_eq!(cpu.memory[MEMORY_SIZE - 1], program[3583]);
    assert_eq!(cpu.memory[0x50], 0xF0);
}

#[test]
fn load_refuses_a_program_that_is_too_large() {
    let mut cpu = CPU::new(NullDisplay::new());
    cpu.initialize();
    cpu.memory[0x300] = 0x77;
    let before = state(&cpu);
    assert_eq!(cpu.load(vec![0xFF; 3585]), Err(LoadError::ProgramTooLarge));
    assert_eq!(state(&cpu), before);
    assert_eq!(cpu.load(vec![0xFF; 70_000]), Err(LoadError::ProgramTooLarge));
    assert_eq!(state(&cpu), before);
}

#[test]
fn fetch_reads_a_big_endian_word() {
    let mut cpu = machine(&[0xAB, 0xCD]);
    assert_eq!(cpu.fetch(), Some(0xABCD));
    cpu.pc = 4094;
    cpu.memory[4094] = 0x12;
    cpu.memory[4095] = 0x34;
    assert_eq!(cpu.fetch(), Some(0x1234));
    cpu.pc = 4095;
    assert_eq!(cpu.fetch(), None);
    cpu.pc = 0xFFFF;
    assert_eq!(cpu.fetch(), None);
}

#[test]
fn step_remembers_the_word() {
    let mut cpu = machine(&[0x61, 0x23]);
    assert!(cpu.step(0, false));
    assert_eq!(cpu.opcode, 0x6123);
    assert_eq!(cpu.pc, 0x202);
}

#[test]
fn unknown_word_halts_and_changes_nothing() {
    for word in [0x0000u16, 0x00E1, 0x5001, 0x8008, 0x9001, 0xE000, 0xF0FF] {
        let mut cpu = machine(&[(word >> 8) as u8, word as u8]);
        cpu.v[3] = 9;
        cpu.opcode = 0x1111;
        let before = state(&cpu);
        assert!(!cpu.step(0, false), "{word:#06X}");
        assert_eq!(state(&cpu), before);
        assert!(!cpu.cycle(0, frame_time()), "{word:#06X}");
        assert_eq!(state(&cpu), before);
    }
}

#[test]
fn program_counter_at_the_end_of_memory_halts() {
    let mut cpu = machine(&[0x00, 0xE0]);
    cpu.pc = 4095;
    let before = state(&cpu);
    assert!(!cpu.step(0, false));
    assert!(!cpu.cycle(0, frame_time()));
    assert!(!cpu.execute(Instruction::ClearScreen, 0, false));
    assert_eq!(state(&cpu), before);
    cpu.pc = 0xFFFF;
    assert!(!cpu.execute(Instruction::Jump { addr: 0 }, 0, false));
    assert_eq!(cpu.pc, 0xFFFF);
}

#[test]
fn instruction_at_the_last_word_of_memory_runs() {
    let mut cpu = machine(&[]);
    cpu.memory[4094] = 0x60;
    cpu.memory[4095] = 0x42;
    cpu.pc = 4094;
    assert!(cpu.step(0, false));
    assert_eq!(cpu.v[0], 0x42);
    assert_eq!(cpu.pc, 4096);
    assert!(!cpu.step(0, false));
}

#[test]
fn execute_refuses_operands_out_of_range() {
    let mut cpu = machine(&[]);
    let before = state(&cpu);
    assert!(!cpu.execute(Instruction::SetByte { x: 16, byte: 1 }, 0, false));
    assert!(!cpu.execute(Instruction::Jump { addr: 0x1000 }, 0, false));
    assert!(!cpu.execute(Instruction::Draw { x: 0, y: 0, rows: 16 }, 0, false));
    assert_eq!(state(&cpu), before);
}

#[test]
fn return_pops_the_stack() {
    let mut cpu = machine(&[0x00, 0xEE]);
    cpu.stack[0] = 0x345;
    cpu.stack[1] = 0x456;
    cpu.sp = 2;
    assert!(cpu.step(0, false));
    assert_eq!(cpu.sp, 1);
    assert_eq!(cpu.pc, 0x456);
    assert_eq!(cpu.stack[1], 0x456);
}

#[test]
fn return_with_an_empty_stack_halts() {
    let mut cpu = machine(&[0x00, 0xEE]);
    let before = state(&cpu);
    assert!(!cpu.step(0, false));
    assert_eq!(state(&cpu), before);
    cpu.sp = 17;
    let before = state(&cpu);
    assert!(!cpu.step(0, false));
    assert_eq!(state(&cpu), before);
}

#[test]
fn return_from_a_full_stack_works() {
    let mut cpu = machine(&[0x00, 0xEE]);
    cpu.sp = 16;
    cpu.stack[15] = 0x0ABC;
    assert!(cpu.step(0, false));
    assert_eq!(cpu.sp, 15);
    assert_eq!(cpu.pc, 0x0ABC);
}

#[test]
fn call_with_a_full_stack_halts() {
    let mut cpu = machine(&[0x22, 0x34]);
    cpu.sp = 16;
    let before = state(&cpu);
    assert!(!cpu.step(0, false));
    assert_eq!(state(&cpu), before);
}

#[test]
fn call_fills_the_last_slot() {
    let mut cpu = machine(&[0x22, 0x34]);
    cpu.sp = 15;
    assert!(cpu.step(0, false));
    assert_eq!(cpu.sp, 16);
    assert_eq!(cpu.stack[15], 0x202);
    assert_eq!(cpu.pc, 0x234);
}

#[test]
fn call_then_return_comes_back_behind_the_call() {
    // 0x200: call 0x204; 0x202: (never reached here); 0x204: return
    let mut cpu = machine(&[0x22, 0x04, 0x00, 0x00, 0x00, 0xEE]);
    cpu.sp = 3;
    assert!(cpu.step(0, false));
    assert_eq!((cpu.pc, cpu.sp), (0x204, 4));
    assert!(cpu.step(0, false));
    assert_eq!((cpu.pc, cpu.sp), (0x202, 3));
}

#[test]
fn jump_with_offset_adds_v0() {
    let mut cpu = machine(&[0xB2, 0x10]);
    cpu.v[0] = 0x25;
    assert!(cpu.step(0, false));
    assert_eq!(cpu.pc, 0x235);

    let mut cpu = machine(&[0xBF, 0xFF]);
    cpu.v[0] = 0xFF;
    assert!(cpu.step(0, false));
    assert_eq!(cpu.pc, 0x10FE);
    assert!(!cpu.step(0, false));
}

#[test]
fn skip_not_equal_registers() {
    let mut cpu = machine(&[0x91, 0x20]);
    cpu.v[1] = 7;
    cpu.v[2] = 7;
    assert!(cpu.step(0, false));
    assert_eq!(cpu.pc, 0x202);

    let mut cpu = machine(&[0x91, 0x20]);
    cpu.v[1] = 7;
    cpu.v[2] = 8;
    assert!(cpu.step(0, false));
    assert_eq!(cpu.pc, 0x204);
}

#[test]
fn add_byte_wraps_and_keeps_the_flag() {
    let mut cpu = machine(&[0x70, 0x02]);
    cpu.v[0] = 0xFF;
    cpu.v[0xF] = 7;
    assert!(cpu.step(0, false));
    assert_eq!(cpu.v[0], 0x01);
    assert_eq!(cpu.v[0xF], 7);
}

#[test]
fn or_and_xor_clear_the_flag() {
    for (low, expected) in [(1u8, 0b1110u8), (2, 0b1000), (3, 0b0110)] {
        let mut cpu = machine(&[0x81, 0x20 | low]);
        cpu.v[1] = 0b1100;
        cpu.v[2] = 0b1010;
        cpu.v[0xF] = 1;
        assert!(cpu.step(0, false));
        assert_eq!(cpu.v[1], expected);
        assert_eq!(cpu.v[2], 0b1010);
        assert_eq!(cpu.v[0xF], 0);
    }
}

#[test]
fn or_into_the_flag_register_leaves_the_flag_cleared() {
    let mut cpu = machine(&[0x8F, 0x11]);
    cpu.v[0xF] = 0b0101;
    cpu.v[1] = 0b0011;
    assert!(cpu.step(0, false));
    assert_eq!(cpu.v[0xF], 0);
}

#[test]
fn add_sets_the_flag_on_carry() {
    let mut cpu = machine(&[0x80, 0x14]);
    cpu.v[0] = 0xFF;
    cpu.v[1] = 0x01;
    assert!(cpu.step(0, false));
    assert_eq!(cpu.v[0], 0x00);
    assert_eq!(cpu.v[0xF], 1);

    let mut cpu = machine(&[0x80, 0x14]);
    cpu.v[0] = 0x01;
    cpu.v[1] = 0x01;
    cpu.v[0xF] = 1;
    assert!(cpu.step(0, false));
    assert_eq!(cpu.v[0], 0x02);
    assert_eq!(cpu.v[0xF], 0);

    let mut cpu = machine(&[0x80, 0x14]);
    cpu.v[0] = 200;
    cpu.v[1] = 100;
    assert!(cpu.step(0, false));
    assert_eq!(cpu.v[0], 44);
    assert_eq!(cpu.v[0xF], 1);
}

#[test]
fn add_into_the_flag_register_ends_with_the_flag() {
    let mut cpu = machine(&[0x8F, 0x14]);
    cpu.v[0xF] = 0xFF;
    cpu.v[1] = 0x02;
    assert!(cpu.step(0, false));
    assert_eq!(cpu.v[0xF], 1);
}

#[test]
fn sub_clears_the_flag_on_borrow() {
    let mut cpu = machine(&[0x80, 0x15]);
    cpu.v[0] = 10;
    cpu.v[1] = 3;
    assert!(cpu.step(0, false));
    assert_eq!(cpu.v[0], 7);
    assert_eq!(cpu.v[0xF], 1);

    let mut cpu = machine(&[0x80, 0x15]);
    cpu.v[0] = 3;
    cpu.v[1] = 10;
    cpu.v[0xF] = 1;
    assert!(cpu.step(0, false));
    assert_eq!(cpu.v[0], 249);
    assert_eq!(cpu.v[0xF], 0);

    let mut cpu = machine(&[0x80, 0x15]);
    cpu.v[0] = 5;
    cpu.v[1] = 5;
    assert!(cpu.step(0, false));
    assert_eq!(cpu.v[0], 0);
    assert_eq!(cpu.v[0xF], 1);
}

#[test]
fn sub_from_subtracts_the_other_way() {
    let mut cpu = machine(&[0x80, 0x17]);
    cpu.v[0] = 3;
    cpu.v[1] = 10;
    assert!(cpu.step(0, false));
    assert_eq!(cpu.v[0], 7);
    assert_eq!(cpu.v[1], 10);
    assert_eq!(cpu.v[0xF], 1);

    let mut cpu = machine(&[0x80, 0x17]);
    cpu.v[0] = 10;
    cpu.v[1] = 3;
    assert!(cpu.step(0, false));
    assert_eq!(cpu.v[0], 249);
    assert_eq!(cpu.v[0xF], 0);
}

#[test]
fn shift_right_takes_vy_and_keeps_the_low_bit() {
    let mut cpu = machine(&[0x80, 0x16]);
    cpu.v[0] = 0xFF;
    cpu.v[1] = 0b0000_0101;
    assert!(cpu.step(0, false));
    assert_eq!(cpu.v[0], 0b0000_0010);
    assert_eq!(cpu.v[1], 0b0000_0101);
    assert_eq!(cpu.v[0xF], 1);

    let mut cpu = machine(&[0x80, 0x16]);
    cpu.v[1] = 0b1000_0100;
    cpu.v[0xF] = 1;
    assert!(cpu.step(0, false));
    assert_eq!(cpu.v[0], 0b0100_0010);
    assert_eq!(cpu.v[0xF], 0);
}

#[test]
fn shifts_in_place_when_the_quirk_is_off() {
    let mut cpu = machine(&[0x80, 0x16, 0x80, 0x1E]);
    cpu.quirks.shift_uses_vy = false;
    cpu.v[0] = 0b1000_0011;
    cpu.v[1] = 0b0000_0100;
    assert!(cpu.step(0, false));
    assert_eq!(cpu.v[0], 0b0100_0001);
    assert_eq!(cpu.v[1], 0b0000_0100);
    assert_eq!(cpu.v[0xF], 1);
    cpu.v[0] = 0b1000_0011;
    assert!(cpu.step(0, false));
    assert_eq!(cpu.v[0], 0b0000_0110);
    assert_eq!(cpu.v[1], 0b0000_0100);
    assert_eq!(cpu.v[0xF], 1);
}

#[test]
fn set_index() {
    let mut cpu = machine(&[0xA2, 0xB4]);
    assert!(cpu.step(0, false));
    assert_eq!(cpu.i, 0x2B4);
    assert_eq!(cpu.pc, 0x202);
}

#[test]
fn random_is_masked() {
    let mut cpu = machine(&[0xC3, 0x0F]);
    assert!(cpu.step(0xA7, false));
    assert_eq!(cpu.v[3], 0x07);
    assert_eq!(cpu.pc, 0x202);

    let mut cpu = machine(&[0xC3, 0xF0]);
    assert!(cpu.step(0xA7, false));
    assert_eq!(cpu.v[3], 0xA0);
}

#[test]
fn cycle_draws_a_random_byte_under_the_mask() {
    let mut seen = [false; 4];
    for _ in 0..400 {
        let mut cpu = machine(&[0xC3, 0x03]);
        cpu.v[3] = 0xFF;
        assert!(cpu.cycle(0, frame_time()));
        assert!(cpu.v[3] <= 3);
        assert_eq!(cpu.pc, 0x202);
        assert_eq!(cpu.opcode, 0xC303);
        seen[cpu.v[3] as usize] = true;
    }
    assert!(seen.iter().filter(|&&s| s).count() >= 2);
}

#[test]
fn cycle_is_step_where_no_random_byte_is_drawn() {
    let program = [0x60, 0x07, 0x70, 0xFE, 0x80, 0x04, 0xA1, 0x23, 0xF0, 0x33];
    let mut by_cycle = machine(&program);
    let mut by_step = machine(&program);
    for _ in 0..5 {
        assert!(by_cycle.cycle(0, frame_time()));
        assert!(by_step.step(0x5A, false));
        assert_eq!(state(&by_cycle), state(&by_step));
    }
}

#[test]
fn skip_if_key_down_or_up() {
    let mut cpu = machine(&[0xE1, 0x9E]);
    cpu.v[1] = 0xF;
    cpu.keys[0xF] = 1;
    assert!(cpu.step(0, false));
    assert_eq!(cpu.pc, 0x204);

    let mut cpu = machine(&[0xE1, 0x9E]);
    cpu.v[1] = 0xF;
    assert!(cpu.step(0, false));
    assert_eq!(cpu.pc, 0x202);

    let mut cpu = machine(&[0xE1, 0xA1]);
    cpu.v[1] = 0x3;
    cpu.keys[3] = 1;
    assert!(cpu.step(0, false));
    assert_eq!(cpu.pc, 0x202);

    let mut cpu = machine(&[0xE1, 0xA1]);
    cpu.v[1] = 0x3;
    assert!(cpu.step(0, false));
    assert_eq!(cpu.pc, 0x204);
}

#[test]
fn key_code_above_fifteen_halts() {
    for low in [0x9Eu8, 0xA1] {
        let mut cpu = machine(&[0xE1, low]);
        cpu.v[1] = 16;
        let before = state(&cpu);
        assert!(!cpu.step(0, false));
        assert_eq!(state(&cpu), before);
    }
}

#[test]
fn timers_are_read_and_written() {
    let mut cpu = machine(&[0xF2, 0x07, 0xF3, 0x15, 0xF4, 0x18]);
    cpu.delay_timer = 0x42;
    cpu.v[3] = 0x10;
    cpu.v[4] = 0x20;
    assert!(cpu.step(0, false));
    assert_eq!(cpu.v[2], 0x42);
    assert!(cpu.step(0, false));
    assert_eq!(cpu.delay_timer, 0x10);
    assert_eq!(cpu.sound_timer, 0);
    assert!(cpu.step(0, false));
    assert_eq!(cpu.sound_timer, 0x20);
    assert_eq!(cpu.delay_timer, 0x10);
    assert_eq!(cpu.pc, 0x206);
}

#[test]
fn wait_key_stalls_until_a_key_is_down() {
    let mut cpu = machine(&[0xF5, 0x0A]);
    cpu.v[5] = 0xEE;
    for _ in 0..10 {
        assert!(cpu.cycle(0, frame_time()));
        assert_eq!(cpu.pc, 0x200);
        assert_eq!(cpu.v[5], 0xEE);
        assert_eq!(cpu.opcode, 0xF50A);
    }
    cpu.keys[9] = 1;
    cpu.keys[4] = 1;
    cpu.keys[0xC] = 1;
    assert!(cpu.cycle(0, frame_time()));
    assert_eq!(cpu.pc, 0x202);
    assert_eq!(cpu.v[5], 4);
}

#[test]
fn wait_key_takes_key_zero_and_key_fifteen() {
    let mut cpu = machine(&[0xF5, 0x0A]);
    cpu.keys[0] = 1;
    cpu.keys[1] = 1;
    assert!(cpu.step(0, false));
    assert_eq!(cpu.v[5], 0);

    let mut cpu = machine(&[0xF5, 0x0A]);
    cpu.keys[15] = 1;
    assert!(cpu.step(0, false));
    assert_eq!(cpu.v[5], 15);
    assert_eq!(cpu.pc, 0x202);
}

#[test]
fn add_index() {
    let mut cpu = machine(&[0xF1, 0x1E]);
    cpu.i = 0x0FFF;
    cpu.v[1] = 0xFF;
    cpu.v[0xF] = 3;
    assert!(cpu.step(0, false));
    assert_eq!(cpu.i, 0x10FE);
    assert_eq!(cpu.v[0xF], 3);
}

#[test]
fn add_index_halts_where_the_index_would_leave_sixteen_bits() {
    let mut cpu = machine(&[0xF1, 0x1E]);
    cpu.i = 0xFFFF;
    cpu.v[1] = 1;
    let before = state(&cpu);
    assert!(!cpu.step(0, false));
    assert_eq!(state(&cpu), before);
    cpu.v[1] = 0;
    assert!(cpu.step(0, false));
    assert_eq!(cpu.i, 0xFFFF);
}

#[test]
fn glyph_address() {
    let mut cpu = machine(&[0xF0, 0x29]);
    cpu.v[0] = 3;
    assert!(cpu.step(0, false));
    assert_eq!(cpu.i, 3 * 5 + 0x50);
    assert_eq!(cpu.i, 95);
    assert_eq!(&cpu.memory[95..100], &[0xF0, 0x10, 0xF0, 0x10, 0xF0]);

    let mut cpu = machine(&[0xF0, 0x29]);
    cpu.v[0] = 0xFF;
    assert!(cpu.step(0, false));
    assert_eq!(cpu.i, 255 * 5 + 0x50);
}

#[test]
fn store_decimal_digits() {
    let mut cpu = machine(&[0xF2, 0x33]);
    cpu.v[2] = 254;
    cpu.i = 0x300;
    assert!(cpu.step(0, false));
    assert_eq!(&cpu.memory[0x300..0x303], &[2, 5, 4]);
    assert_eq!(cpu.i, 0x300);

    let mut cpu = machine(&[0xF2, 0x33]);
    cpu.v[2] = 7;
    cpu.i = 4093;
    assert!(cpu.step(0, false));
    assert_eq!(&cpu.memory[4093..], &[0, 0, 7]);
}

#[test]
fn store_decimal_digits_beyond_memory_halts() {
    for i in [4094u16, 4095, 4096, 0xFFFF] {
        let mut cpu = machine(&[0xF2, 0x33]);
        cpu.v[2] = 123;
        cpu.i = i;
        let before = state(&cpu);
        assert!(!cpu.step(0, false));
        assert_eq!(state(&cpu), before);
    }
}

#[test]
fn store_registers_advances_the_index() {
    let mut cpu = machine(&[0xF3, 0x55]);
    for r in 0..16 {
        cpu.v[r] = 0x10 + r as u8;
    }
    cpu.i = 0x400;
    cpu.memory[0x404] = 0x99;
    assert!(cpu.step(0, false));
    assert_eq!(&cpu.memory[0x400..0x405], &[0x10, 0x11, 0x12, 0x13, 0x99]);
    assert_eq!(cpu.i, 0x404);
    assert_eq!(cpu.pc, 0x202);
}

#[test]
fn load_registers_advances_the_index() {
    let mut cpu = machine(&[0xF2, 0x65]);
    cpu.i = 0x400;
    cpu.memory[0x400..0x404].copy_from_slice(&[1, 2, 3, 4]);
    cpu.v[3] = 0x77;
    assert!(cpu.step(0, false));
    assert_eq!(&cpu.v[0..4], &[1, 2, 3, 0x77]);
    assert_eq!(cpu.i, 0x403);
}

#[test]
fn store_and_load_keep_the_index_when_the_quirk_is_off() {
    let mut cpu = machine(&[0xF1, 0x55, 0xF1, 0x65]);
    cpu.quirks.index_advances = false;
    cpu.i = 0x400;
    cpu.v[0] = 5;
    cpu.v[1] = 6;
    assert!(cpu.step(0, false));
    assert_eq!(cpu.i, 0x400);
    assert_eq!(&cpu.memory[0x400..0x402], &[5, 6]);
    cpu.v[0] = 0;
    cpu.v[1] = 0;
    assert!(cpu.step(0, false));
    assert_eq!(cpu.i, 0x400);
    assert_eq!(&cpu.v[0..2], &[5, 6]);
}

#[test]
fn store_and_load_reach_the_last_byte_of_memory() {
    let mut cpu = machine(&[0xFF, 0x55]);
    for r in 0..16 {
        cpu.v[r] = r as u8 + 1;
    }
    cpu.i = 4080;
    assert!(cpu.step(0, false));
    assert_eq!(cpu.memory[4095], 16);
    assert_eq!(cpu.i, 4096);

    let mut cpu = machine(&[0xF0, 0x65]);
    cpu.i = 4095;
    cpu.memory[4095] = 0x5A;
    assert!(cpu.step(0, false));
    assert_eq!(cpu.v[0], 0x5A);
    assert_eq!(cpu.i, 4096);
}

#[test]
fn store_and_load_beyond_memory_halt() {
    for low in [0x55u8, 0x65] {
        let mut cpu = machine(&[0xFF, low]);
        cpu.i = 4081;
        let before = state(&cpu);
        assert!(!cpu.step(0, false));
        assert_eq!(state(&cpu), before);

        let mut cpu = machine(&[0xF0, low]);
        cpu.i = 4096;
        let before = state(&cpu);
        assert!(!cpu.step(0, false));
        assert_eq!(state(&cpu), before);
    }
}

#[test]
fn halting_keeps_what_initialisation_set_up() {
    let mut cpu = machine(&[0x00, 0xEE]);
    assert!(!cpu.cycle(0, frame_time()));
    assert_eq!(cpu.pc, 0x200);
    assert_eq!(cpu.sp, 0);
    assert_eq!(cpu.fetch(), Some(0x00EE));
}
