use chip8::cpu::CPU;
use chip8::display::NullDisplay;
use chip8::graphics::{SCREEN_HEIGHT, SCREEN_SIZE, SCREEN_WIDTH, SPRITE_WIDTH};
use chip8::instruction::Instruction;
use chip8::timing::frame_time;

fn machine(program: &[u8]) -> CPU<NullDisplay> {
    let mut cpu = CPU::new(NullDisplay::new());
    cpu.initialize();
    cpu.load(program.to_vec()).unwrap();
    cpu
}

/// The cells that are lit, as (column, row) pairs in row-major order.
fn lit(cpu: &CPU<NullDisplay>) -> Vec<(usize, usize)> {
    (0..SCREEN_SIZE)
        .filter(|&k| cpu.gfx[k] != 0)
        .map(|k| (k % SCREEN_WIDTH, k / SCREEN_WIDTH))
        .collect()
}

#[test]
fn screen_dimensions() {
    assert_eq!(SCREEN_WIDTH, 64);
    assert_eq!(SCREEN_HEIGHT, 32);
    assert_eq!(SCREEN_SIZE, 2048);
    assert_eq!(SPRITE_WIDTH, 8);
}

#[test]
fn draws_each_bit_of_a_row_highest_bit_leftmost() {
    let mut cpu = machine(&[0xD0, 0x11]);
    cpu.memory[0x300] = 0b1010_0001;
    cpu.i = 0x300;
    cpu.v[0] = 10;
    cpu.v[1] = 3;
    assert!(cpu.step(0, false));
    assert_eq!(lit(&cpu), vec![(10, 3), (12, 3), (17, 3)]);
    assert_eq!(cpu.v[0xF], 0);
    assert_eq!(cpu.pc, 0x202);
    assert_eq!(cpu.i, 0x300);
}

#[test]
fn draw_resets_the_flag() {
    let mut cpu = machine(&[0xD0, 0x11]);
    cpu.memory[0x300] = 0x80;
    cpu.i = 0x300;
    cpu.v[0xF] = 1;
    cpu.v[0] = 5;
    cpu.v[1] = 5;
    assert!(cpu.step(0, false));
    assert_eq!(cpu.v[0xF], 0);
}

#[test]
fn draw_without_rows_draws_nothing() {
    let mut cpu = machine(&[0xD0, 0x10]);
    cpu.i = 0x50;
    cpu.v[0xF] = 1;
    cpu.gfx[0] = 1;
    assert!(cpu.step(0, false));
    assert_eq!(lit(&cpu), vec![(0, 0)]);
    assert_eq!(cpu.v[0xF], 0);
    assert_eq!(cpu.pc, 0x202);
}

#[test]
fn drawing_twice_erases_and_collides() {
    let mut cpu = machine(&[0xD1, 0x25, 0xD1, 0x25]);
    cpu.i = 0x50 + 5 * 0xA;
    cpu.v[1] = 20;
    cpu.v[2] = 11;
    assert!(cpu.step(0, false));
    assert_eq!(cpu.v[0xF], 0);
    // The glyph for A: F0 90 F0 90 90
    assert_eq!(
        lit(&cpu),
        vec![
            (20, 11), (21, 11), (22, 11), (23, 11),
            (20, 12), (23, 12),
            (20, 13), (21, 13), (22, 13), (23, 13),
            (20, 14), (23, 14),
            (20, 15), (23, 15),
        ]
    );
    assert!(cpu.step(0, false));
    assert_eq!(cpu.v[0xF], 1);
    assert!(cpu.gfx.iter().all(|&c| c == 0));
}

#[test]
fn drawing_an_empty_sprite_twice_never_collides() {
    let mut cpu = machine(&[0xD1, 0x23, 0xD1, 0x23]);
    cpu.i = 0x300;
    assert!(cpu.step(0, false));
    assert_eq!(cpu.v[0xF], 0);
    assert!(cpu.step(0, false));
    assert_eq!(cpu.v[0xF], 0);
    assert!(cpu.gfx.iter().all(|&c| c == 0));
}

#[test]
fn collision_is_told_only_where_a_lit_cell_goes_dark() {
    let mut cpu = machine(&[0xD0, 0x11, 0xD0, 0x11]);
    cpu.memory[0x300] = 0b1100_0000;
    cpu.i = 0x300;
    cpu.gfx[2] = 1; // next to the sprite, not under it
    assert!(cpu.step(0, false));
    assert_eq!(cpu.v[0xF], 0);
    assert_eq!(lit(&cpu), vec![(0, 0), (1, 0), (2, 0)]);

    cpu.memory[0x300] = 0b0110_0000;
    assert!(cpu.step(0, false));
    assert_eq!(cpu.v[0xF], 1);
    assert_eq!(lit(&cpu), vec![(0, 0)]);
}

#[test]
fn sprite_is_clipped_at_the_right_edge() {
    let mut cpu = machine(&[0xD0, 0x12]);
    cpu.memory[0x300] = 0xFF;
    cpu.memory[0x301] = 0xFF;
    cpu.i = 0x300;
    cpu.v[0] = 61;
    cpu.v[1] = 4;
    assert!(cpu.step(0, false));
    assert_eq!(
        lit(&cpu),
        vec![(61, 4), (62, 4), (63, 4), (61, 5), (62, 5), (63, 5)]
    );
    for row in 0..SCREEN_HEIGHT {
        for column in 0..61 {
            assert_eq!(cpu.gfx[column + row * SCREEN_WIDTH], 0);
        }
    }
}

#[test]
fn sprite_is_clipped_at_the_bottom_edge() {
    let mut cpu = machine(&[0xD0, 0x1F]);
    for a in 0x300..0x30F {
        cpu.memory[a] = 0x80;
    }
    cpu.i = 0x300;
    cpu.v[0] = 7;
    cpu.v[1] = 30;
    assert!(cpu.step(0, false));
    assert_eq!(lit(&cpu), vec![(7, 30), (7, 31)]);
}

#[test]
fn coordinates_wrap_before_the_sprite_is_drawn() {
    let mut cpu = machine(&[0xD0, 0x11]);
    cpu.memory[0x300] = 0xC0;
    cpu.i = 0x300;
    cpu.v[0] = 64 + 3;
    cpu.v[1] = 32 * 7 + 2;
    assert!(cpu.step(0, false));
    assert_eq!(lit(&cpu), vec![(3, 2), (4, 2)]);

    let mut cpu = machine(&[0xD0, 0x11]);
    cpu.memory[0x300] = 0xC0;
    cpu.i = 0x300;
    cpu.v[0] = 255;
    cpu.v[1] = 255;
    assert!(cpu.step(0, false));
    assert_eq!(lit(&cpu), vec![(63, 31)]);
}

#[test]
fn same_register_for_both_coordinates() {
    let mut cpu = machine(&[0xD3, 0x31]);
    cpu.memory[0x300] = 0x80;
    cpu.i = 0x300;
    cpu.v[3] = 40;
    assert!(cpu.step(0, false));
    assert_eq!(lit(&cpu), vec![(40, 8)]);
}

#[test]
fn coordinates_are_read_before_the_flag_is_reset() {
    let mut cpu = machine(&[0xDF, 0xF1]);
    cpu.memory[0x300] = 0x80;
    cpu.i = 0x300;
    cpu.v[0xF] = 9;
    assert!(cpu.step(0, false));
    assert_eq!(lit(&cpu), vec![(9, 9)]);
    assert_eq!(cpu.v[0xF], 0);
}

#[test]
fn sprite_beyond_memory_halts() {
    let mut cpu = machine(&[0xD0, 0x12]);
    cpu.i = 4095;
    cpu.gfx[0] = 1;
    cpu.v[0xF] = 1;
    let before = (cpu.gfx.to_vec(), cpu.v, cpu.pc, cpu.opcode);
    assert!(!cpu.step(0, false));
    assert_eq!((cpu.gfx.to_vec(), cpu.v, cpu.pc, cpu.opcode), before);
}

#[test]
fn only_the_rows_that_are_drawn_need_to_be_in_memory() {
    let mut cpu = machine(&[0xD0, 0x1F]);
    cpu.i = 4095;
    cpu.memory[4095] = 0x80;
    cpu.v[1] = 31;
    assert!(cpu.step(0, false));
    assert_eq!(lit(&cpu), vec![(0, 31)]);
}

#[test]
fn sprite_at_the_end_of_memory_is_drawn() {
    let mut cpu = machine(&[0xD0, 0x02]);
    cpu.i = 4094;
    cpu.memory[4094] = 0x80;
    cpu.memory[4095] = 0x40;
    assert!(cpu.step(0, false));
    assert_eq!(lit(&cpu), vec![(0, 0), (1, 1)]);
}

#[test]
fn throttled_draw_stalls_without_effect() {
    let mut cpu = machine(&[0xD0, 0x05]);
    cpu.i = 0x50;
    cpu.v[0xF] = 1;
    assert!(cpu.step(0, true));
    assert_eq!(cpu.pc, 0x200);
    assert_eq!(cpu.opcode, 0xD005);
    assert_eq!(cpu.v[0xF], 1);
    assert!(cpu.gfx.iter().all(|&c| c == 0));
    assert!(cpu.step(0, false));
    assert_eq!(cpu.pc, 0x202);
    assert_eq!(cpu.gfx[0], 1);
}

#[test]
fn throttled_draw_is_not_held_to_its_memory() {
    let mut cpu = machine(&[]);
    cpu.i = 4095;
    assert!(cpu.execute(Instruction::Draw { x: 0, y: 0, rows: 5 }, 0, true));
    assert_eq!(cpu.pc, 0x200);
    assert!(!cpu.execute(Instruction::Draw { x: 0, y: 0, rows: 5 }, 0, false));
}

#[test]
fn cycle_draws_only_in_the_first_thirtieth_of_a_frame() {
    let frame = frame_time();
    assert_eq!(frame / 30, 555);
    for (since, drawn) in [(0u128, true), (555, true), (556, false), (16_666, false)] {
        let mut cpu = machine(&[0xD0, 0x05]);
        cpu.i = 0x50;
        assert!(cpu.cycle(since, frame));
        assert_eq!(cpu.gfx[0] == 1, drawn, "{since}");
        assert_eq!(cpu.pc, if drawn { 0x202 } else { 0x200 }, "{since}");
        assert_eq!(cpu.opcode, 0xD005);
    }
}

#[test]
fn cycle_draws_whenever_the_quirk_is_off() {
    let mut cpu = machine(&[0xD0, 0x05]);
    cpu.quirks.draw_waits_for_frame = false;
    cpu.i = 0x50;
    assert!(cpu.cycle(16_000, frame_time()));
    assert_eq!(cpu.gfx[0], 1);
    assert_eq!(cpu.pc, 0x202);
}

#[test]
fn other_instructions_are_never_throttled() {
    let mut cpu = machine(&[0x60, 0x11]);
    assert!(cpu.cycle(16_000, frame_time()));
    assert_eq!(cpu.v[0], 0x11);
    assert_eq!(cpu.pc, 0x202);
}

#[test]
fn clear_screen_clears_whatever_the_cells_held() {
    let mut cpu = machine(&[0x00, 0xE0]);
    for (k, cell) in cpu.gfx.iter_mut().enumerate() {
        *cell = (k % 7) as u8;
    }
    cpu.v[0xF] = 1;
    assert!(cpu.step(0, false));
    assert!(cpu.gfx.iter().all(|&c| c == 0));
    assert_eq!(cpu.pc, 0x202);
    assert_eq!(cpu.v[0xF], 1);
}
