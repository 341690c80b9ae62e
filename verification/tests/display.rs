use tiny_chip8::chip8_cpu::Chip8Cpu;
use tiny_chip8::machine::Step;

fn with_sprite(sprite: &[u8]) -> Chip8Cpu {
    let mut cpu = Chip8Cpu::start();
    cpu.load_game(sprite).unwrap();
    cpu.ld_i_nnn(0x200);
    cpu
}

fn lit(cpu: &Chip8Cpu) -> Vec<(usize, usize)> {
    let mut cells = Vec::new();
    for (index, &cell) in cpu.gfx().iter().enumerate() {
        assert!(cell <= 1);
        if cell == 1 {
            cells.push((index % 64, index / 64));
        }
    }
    cells
}

#[test]
fn draw_sets_cells_under_set_bits() {
    let mut cpu = with_sprite(&[0b1010_0001, 0b0100_0000]);
    cpu.ld_vx_kk(0, 3);
    cpu.ld_vx_kk(1, 2);
    assert_eq!(cpu.decode(0xD012, None), Ok(Step::Executed));
    assert_eq!(lit(&cpu), vec![(3, 2), (5, 2), (10, 2), (4, 3)]);
    assert_eq!(cpu.gfx()[3 + 2 * 64], 1);
    assert_eq!(cpu.v()[0xF], 0);
    assert_eq!(cpu.pc(), 0x208);
}

#[test]
fn draw_of_no_rows_changes_no_cell() {
    let mut cpu = with_sprite(&[0xFF]);
    cpu.ld_vx_kk(0xF, 9);
    cpu.drw_vx_vy_n(0, 0, 0);
    assert!(lit(&cpu).is_empty());
    assert_eq!(cpu.v()[0xF], 0);
}

#[test]
fn draw_wraps_columns_and_rows() {
    let mut cpu = with_sprite(&[0xFF, 0x81]);
    cpu.ld_vx_kk(0, 60);
    cpu.ld_vx_kk(1, 31);
    cpu.drw_vx_vy_n(0, 1, 2);
    let mut expected = vec![
        (60, 31), (61, 31), (62, 31), (63, 31), (0, 31), (1, 31), (2, 31), (3, 31),
        (60, 0), (3, 0),
    ];
    expected.sort_by_key(|&(x, y)| y * 64 + x);
    assert_eq!(lit(&cpu), expected);
}

#[test]
fn draw_takes_coordinates_modulo_the_display() {
    let mut cpu = with_sprite(&[0x80]);
    cpu.ld_vx_kk(0, 64 + 5);
    cpu.ld_vx_kk(1, 32 * 3 + 7);
    cpu.drw_vx_vy_n(0, 1, 1);
    assert_eq!(lit(&cpu), vec![(5, 7)]);
    let mut cpu = with_sprite(&[0x01]);
    cpu.ld_vx_kk(0, 0xFF);
    cpu.ld_vx_kk(1, 0xFF);
    cpu.drw_vx_vy_n(0, 1, 1);
    // column (255 + 7) mod 64 = 6, row 255 mod 32 = 31
    assert_eq!(lit(&cpu), vec![(6, 31)]);
}

#[test]
fn draw_reads_sprite_rows_around_the_end_of_memory() {
    let mut rom = vec![0u8; 3584];
    rom[3583] = 0x80;
    let mut cpu = Chip8Cpu::start();
    cpu.load_game(&rom).unwrap();
    cpu.ld_i_nnn(0xFFF);
    cpu.drw_vx_vy_n(0, 0, 2);
    // second row comes from address 0, the first byte of the font: 0xF0
    assert_eq!(lit(&cpu), vec![(0, 0), (0, 1), (1, 1), (2, 1), (3, 1)]);
}

#[test]
fn draw_twice_restores_display_and_reports_collision() {
    let mut cpu = with_sprite(&[0xF0, 0x90, 0x90, 0x90, 0xF0]);
    cpu.ld_vx_kk(2, 61);
    cpu.ld_vx_kk(3, 30);
    // something on the display before
    cpu.ld_vx_kk(4, 62);
    cpu.ld_vx_kk(5, 31);
    cpu.drw_vx_vy_n(4, 5, 1);
    let before = *cpu.gfx();
    cpu.drw_vx_vy_n(2, 3, 5);
    let once = *cpu.gfx();
    assert_ne!(once, before);
    cpu.drw_vx_vy_n(2, 3, 5);
    assert_eq!(cpu.gfx(), &before);
    assert_eq!(cpu.v()[0xF], 1);
}

#[test]
fn second_draw_over_cells_that_were_all_lit_reports_no_collision() {
    let mut cpu = with_sprite(&[0xC0]);
    cpu.drw_vx_vy_n(0, 0, 1);
    assert_eq!(cpu.v()[0xF], 0);
    let before = *cpu.gfx();
    // first draw turns both cells dark: a collision
    cpu.drw_vx_vy_n(0, 0, 1);
    assert_eq!(cpu.v()[0xF], 1);
    assert!(lit(&cpu).is_empty());
    // second draw lights them again: none
    cpu.drw_vx_vy_n(0, 0, 1);
    assert_eq!(cpu.v()[0xF], 0);
    assert_eq!(cpu.gfx(), &before);
}

#[test]
fn collision_is_reported_for_any_lit_cell_hit() {
    let mut cpu = with_sprite(&[0x80, 0x01]);
    cpu.ld_vx_kk(0, 10);
    cpu.ld_vx_kk(1, 10);
    cpu.drw_vx_vy_n(0, 1, 1);
    assert_eq!(lit(&cpu), vec![(10, 10)]);
    cpu.ld_i_nnn(0x201);
    cpu.ld_vx_kk(0, 3);
    cpu.drw_vx_vy_n(0, 1, 1);
    assert_eq!(cpu.v()[0xF], 1);
    assert!(lit(&cpu).is_empty());
    cpu.ld_vx_kk(0, 20);
    cpu.drw_vx_vy_n(0, 1, 1);
    assert_eq!(cpu.v()[0xF], 0);
    assert_eq!(lit(&cpu), vec![(27, 10)]);
}

#[test]
fn draw_reads_coordinates_before_writing_the_flag() {
    let mut cpu = with_sprite(&[0x80]);
    cpu.ld_vx_kk(0xF, 40);
    cpu.ld_vx_kk(1, 5);
    cpu.drw_vx_vy_n(0xF, 1, 1);
    assert_eq!(lit(&cpu), vec![(40, 5)]);
    assert_eq!(cpu.v()[0xF], 0);
}

#[test]
fn glyph_of_a_digit_is_drawn_from_the_font() {
    let mut cpu = Chip8Cpu::start();
    cpu.ld_vx_kk(0, 0x1);
    cpu.ld_f_vx(0);
    cpu.ld_vx_kk(1, 0);
    cpu.ld_vx_kk(2, 0);
    cpu.drw_vx_vy_n(1, 2, 5);
    // 0x20, 0x60, 0x20, 0x20, 0x70
    assert_eq!(
        lit(&cpu),
        vec![(2, 0), (1, 1), (2, 1), (2, 2), (2, 3), (1, 4), (2, 4), (3, 4)]
    );
}
