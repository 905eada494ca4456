use chip8::machine::{OFF_COLOR, ON_COLOR};
use chip8::{Chip8, ExecError, Flow, FONT};

const NO_KEYS: [bool; 16] = [false; 16];

fn exec(c: &mut Chip8, w: u16) -> Result<Flow, ExecError> {
    c.execute(w, &NO_KEYS, 0)
}

fn exec_all(c: &mut Chip8, words: &[u16]) {
    for &w in words {
        assert_eq!(exec(c, w), Ok(Flow::Next), "word {:#06x}", w);
    }
}

fn lit_cells(c: &Chip8) -> usize {
    c.frame().iter().filter(|&&b| b).count()
}

#[test]
fn new_machine_is_blank_with_font_loaded() {
    let c = Chip8::new(700);
    assert_eq!(c.pc(), 0x200);
    assert_eq!(c.index(), 0);
    assert_eq!(c.stack_depth(), 0);
    assert_eq!(c.delay_timer(), 0);
    assert_eq!(c.sound_timer(), 0);
    assert_eq!(c.ips(), 700);
    assert!(!c.is_dirty());
    assert_eq!(lit_cells(&c), 0);
    for x in 0..16 {
        assert_eq!(c.register(x), 0);
    }
    for i in 0..80u16 {
        assert_eq!(c.memory_at(0x50 + i), FONT[i as usize]);
    }
    assert_eq!(c.memory_at(0x4F), 0);
    assert_eq!(c.memory_at(0xA0), 0);
}

#[test]
fn scenario_set_register_then_add_to_index() {
    let mut c = Chip8::new(700);
    exec_all(&mut c, &[0xA100]);
    c.load_rom(&[0x6A, 0x02, 0xFA, 0x1E]);
    assert_eq!(c.step(&NO_KEYS), Ok(Flow::Next));
    assert_eq!(c.step(&NO_KEYS), Ok(Flow::Next));
    assert_eq!(c.index(), 0x102);
    assert_eq!(c.register(0xA), 2);
    assert_eq!(c.pc(), 0x204);
}

#[test]
fn scenario_clear_screen() {
    let mut c = Chip8::new(700);
    exec_all(&mut c, &[0xA050, 0x6005, 0x6107, 0xD015]);
    assert!(lit_cells(&c) > 0);
    c.tick();
    assert!(!c.is_dirty());
    assert_eq!(exec(&mut c, 0x00E0), Ok(Flow::Next));
    assert_eq!(lit_cells(&c), 0);
    assert!(c.is_dirty());
}

#[test]
fn scenario_call_then_return() {
    let mut c = Chip8::new(700);
    let mut rom = vec![0u8; 0x104];
    rom[0] = 0x23;
    rom[1] = 0x00;
    rom[0x100] = 0x61;
    rom[0x101] = 0x05;
    rom[0x102] = 0x00;
    rom[0x103] = 0xEE;
    c.load_rom(&rom);
    assert_eq!(c.step(&NO_KEYS), Ok(Flow::Next));
    assert_eq!(c.pc(), 0x300);
    assert_eq!(c.stack_depth(), 1);
    assert_eq!(c.step(&NO_KEYS), Ok(Flow::Next));
    assert_eq!(c.step(&NO_KEYS), Ok(Flow::Next));
    assert_eq!(c.pc(), 0x202);
    assert_eq!(c.stack_depth(), 0);
    assert_eq!(c.register(1), 5);
}

#[test]
fn scenario_delay_timer_reaches_zero() {
    let mut c = Chip8::new(700);
    exec_all(&mut c, &[0x6505, 0xF515]);
    assert_eq!(c.delay_timer(), 5);
    for left in (0..5u8).rev() {
        c.tick();
        assert_eq!(c.delay_timer(), left);
    }
    exec_all(&mut c, &[0x66FF, 0xF607]);
    assert_eq!(c.register(6), 0);
    c.tick();
    assert_eq!(c.delay_timer(), 0);
}

#[test]
fn sound_timer_drives_tone() {
    let mut c = Chip8::new(700);
    exec_all(&mut c, &[0x6003, 0xF018]);
    for left in (0..3u8).rev() {
        let t = c.tick();
        assert!(t.tone);
        assert_eq!(c.sound_timer(), left);
    }
    let t = c.tick();
    assert!(!t.tone);
    assert_eq!(c.sound_timer(), 0);
}

#[test]
fn tick_hands_over_frame_once() {
    let mut c = Chip8::new(700);
    assert!(!c.tick().present);
    exec_all(&mut c, &[0xA050, 0xD015]);
    assert!(c.tick().present);
    assert!(!c.tick().present);
}

#[test]
fn add_immediate_wraps_without_flag() {
    let mut c = Chip8::new(700);
    exec_all(&mut c, &[0x6F07, 0x60FF, 0x7001]);
    assert_eq!(c.register(0), 0);
    assert_eq!(c.register(0xF), 7);
    exec_all(&mut c, &[0x7080]);
    assert_eq!(c.register(0), 0x80);
}

#[test]
fn add_registers_sets_carry() {
    let mut c = Chip8::new(700);
    exec_all(&mut c, &[0x60FF, 0x6101, 0x8014]);
    assert_eq!(c.register(0), 0);
    assert_eq!(c.register(0xF), 1);
    exec_all(&mut c, &[0x6010, 0x6120, 0x8014]);
    assert_eq!(c.register(0), 0x30);
    assert_eq!(c.register(0xF), 0);
    exec_all(&mut c, &[0x60FF, 0x61FF, 0x8014]);
    assert_eq!(c.register(0), 0xFE);
    assert_eq!(c.register(0xF), 1);
}

#[test]
fn subtract_sets_borrow_flag() {
    let mut c = Chip8::new(700);
    exec_all(&mut c, &[0x6003, 0x6105, 0x8015]);
    assert_eq!(c.register(0), 0xFE);
    assert_eq!(c.register(0xF), 0);
    exec_all(&mut c, &[0x6005, 0x6103, 0x8015]);
    assert_eq!(c.register(0), 2);
    assert_eq!(c.register(0xF), 1);
    exec_all(&mut c, &[0x6004, 0x6104, 0x8015]);
    assert_eq!(c.register(0), 0);
    assert_eq!(c.register(0xF), 1);
}

#[test]
fn reverse_subtract_sets_borrow_flag() {
    let mut c = Chip8::new(700);
    exec_all(&mut c, &[0x6003, 0x6105, 0x8017]);
    assert_eq!(c.register(0), 2);
    assert_eq!(c.register(0xF), 1);
    exec_all(&mut c, &[0x6005, 0x6103, 0x8017]);
    assert_eq!(c.register(0), 0xFE);
    assert_eq!(c.register(0xF), 0);
    exec_all(&mut c, &[0x6004, 0x6104, 0x8017]);
    assert_eq!(c.register(0), 0);
    assert_eq!(c.register(0xF), 1);
}

#[test]
fn assign_and_bitwise_ops() {
    let mut c = Chip8::new(700);
    exec_all(&mut c, &[0x60C3, 0x61A5, 0x8010]);
    assert_eq!(c.register(0), 0xA5);
    exec_all(&mut c, &[0x60C3, 0x8011]);
    assert_eq!(c.register(0), 0xE7);
    exec_all(&mut c, &[0x60C3, 0x8012]);
    assert_eq!(c.register(0), 0x81);
    exec_all(&mut c, &[0x60C3, 0x8013]);
    assert_eq!(c.register(0), 0x66);
}

#[test]
fn shifts_set_flag_from_operand() {
    let mut c = Chip8::new(700);
    exec_all(&mut c, &[0x6005, 0x8006]);
    assert_eq!(c.register(0), 2);
    assert_eq!(c.register(0xF), 1);
    exec_all(&mut c, &[0x6081, 0x800E]);
    assert_eq!(c.register(0), 0x02);
    assert_eq!(c.register(0xF), 0);
}

#[test]
fn shift_quirk_reads_vy() {
    let mut c = Chip8::new(700);
    c.set_shift_quirk(true);
    exec_all(&mut c, &[0x6003, 0x6106, 0x8016]);
    assert_eq!(c.register(0), 3);
    assert_eq!(c.register(0xF), 0);
    exec_all(&mut c, &[0x6003, 0x6141, 0x801E]);
    assert_eq!(c.register(0), 0x82);
    assert_eq!(c.register(1), 0x41);
}

#[test]
fn conditional_skips() {
    let mut c = Chip8::new(700);
    exec_all(&mut c, &[0x6042, 0x6142]);
    let pc = c.pc();
    exec_all(&mut c, &[0x3042]);
    assert_eq!(c.pc(), pc + 2);
    exec_all(&mut c, &[0x3043, 0x4042]);
    assert_eq!(c.pc(), pc + 2);
    exec_all(&mut c, &[0x4043]);
    assert_eq!(c.pc(), pc + 4);
    exec_all(&mut c, &[0x5010]);
    assert_eq!(c.pc(), pc + 6);
    exec_all(&mut c, &[0x9010]);
    assert_eq!(c.pc(), pc + 6);
    exec_all(&mut c, &[0x6243, 0x9020]);
    assert_eq!(c.pc(), pc + 8);
}

#[test]
fn jump_and_index_ops() {
    let mut c = Chip8::new(700);
    exec_all(&mut c, &[0x1ABC]);
    assert_eq!(c.pc(), 0xABC);
    exec_all(&mut c, &[0x6010, 0xB123]);
    assert_eq!(c.index(), 0x133);
    assert_eq!(c.pc(), 0xABC);
    exec_all(&mut c, &[0xAFFF, 0x60FF, 0xF01E]);
    assert_eq!(c.index(), 0x10FE);
    exec_all(&mut c, &[0x600A, 0xF029]);
    assert_eq!(c.index(), 0x50 + 50);
    exec_all(&mut c, &[0x60FF, 0xF029]);
    assert_eq!(c.index(), 0x50 + 0xFF * 5);
}

#[test]
fn return_on_empty_stack_fails() {
    let mut c = Chip8::new(700);
    assert_eq!(exec(&mut c, 0x00EE), Err(ExecError::ReturnWithoutCall));
    assert_eq!(c.pc(), 0x200);
    c.load_rom(&[0x00, 0xEE]);
    assert_eq!(c.step(&NO_KEYS), Err(ExecError::ReturnWithoutCall));
    assert_eq!(c.pc(), 0x202);
    assert_eq!(c.stack_depth(), 0);
}

#[test]
fn unknown_instructions_fail_and_change_nothing() {
    let mut c = Chip8::new(700);
    for w in [0x0123u16, 0x00E1, 0x5AB1, 0x8AB8, 0x9AB1, 0xE0FF, 0xF0FF] {
        assert_eq!(
            exec(&mut c, w),
            Err(ExecError::UnknownInstruction { instruction: w, pc: 0x200 })
        );
        assert_eq!(c.pc(), 0x200);
    }
}

#[test]
fn draw_twice_restores_display() {
    let mut c = Chip8::new(700);
    exec_all(&mut c, &[0xA050, 0x600A, 0x610C, 0xD015]);
    assert_eq!(c.register(0xF), 0);
    let once = c.frame();
    assert!(c.pixel(10, 12) && c.pixel(13, 12) && !c.pixel(14, 12));
    exec_all(&mut c, &[0xD015]);
    assert_eq!(c.register(0xF), 1);
    assert_eq!(lit_cells(&c), 0);
    exec_all(&mut c, &[0xD015]);
    assert_eq!(c.frame(), once);
}

#[test]
fn second_draw_collides_only_where_first_lit() {
    let mut c = Chip8::new(700);
    // the glyph of 8 covers every cell of the glyph of 0
    exec_all(&mut c, &[0xA078, 0x600A, 0x610C, 0xD015]);
    let eight = c.frame();
    exec_all(&mut c, &[0xA050, 0xD015]);
    assert_eq!(c.register(0xF), 1);
    exec_all(&mut c, &[0xD015]);
    assert_eq!(c.register(0xF), 0);
    assert_eq!(c.frame(), eight);
}

#[test]
fn draw_clips_at_edges() {
    let mut c = Chip8::new(700);
    exec_all(&mut c, &[0xA050, 0x603E, 0x6100, 0xD011]);
    assert!(c.pixel(62, 0) && c.pixel(63, 0));
    assert!(!c.pixel(0, 0) && !c.pixel(0, 1) && !c.pixel(1, 1));
    assert_eq!(lit_cells(&c), 2);
    exec_all(&mut c, &[0x00E0, 0x6000, 0x611F, 0xD015]);
    assert!(c.pixel(0, 31));
    assert_eq!(lit_cells(&c), 4);
    exec_all(&mut c, &[0x00E0, 0x60C8, 0x61C8, 0xD015]);
    assert_eq!(lit_cells(&c), 0);
    assert_eq!(c.register(0xF), 0);
}

#[test]
fn fetch_masks_addresses() {
    let mut c = Chip8::new(700);
    exec_all(&mut c, &[0x60AB, 0xAFFF, 0xF055, 0x1FFF]);
    assert_eq!(c.memory_at(0xFFF), 0xAB);
    assert_eq!(c.fetch_instruction(), 0xAB00);
    assert_eq!(c.pc(), 0x1001);
    assert_eq!(c.fetch_instruction(), 0x0000);
    assert_eq!(c.pc(), 0x1003);
}

#[test]
fn bcd_store() {
    let mut c = Chip8::new(700);
    exec_all(&mut c, &[0x60EA, 0xA300, 0xF033]);
    assert_eq!(c.memory_at(0x300), 2);
    assert_eq!(c.memory_at(0x301), 3);
    assert_eq!(c.memory_at(0x302), 4);
    exec_all(&mut c, &[0x6007, 0xAFFF, 0xF033]);
    assert_eq!(c.memory_at(0xFFF), 0);
    assert_eq!(c.memory_at(0x000), 0);
    assert_eq!(c.memory_at(0x001), 7);
}

#[test]
fn register_store_and_load_wrap_memory() {
    let mut c = Chip8::new(700);
    exec_all(&mut c, &[0x6001, 0x6102, 0x6203, 0x6309, 0xAFFE, 0xF255]);
    assert_eq!(c.memory_at(0xFFE), 1);
    assert_eq!(c.memory_at(0xFFF), 2);
    assert_eq!(c.memory_at(0x000), 3);
    assert_eq!(c.memory_at(0x001), 0);
    exec_all(&mut c, &[0x6000, 0x6100, 0x6200, 0xF265]);
    assert_eq!(c.register(0), 1);
    assert_eq!(c.register(1), 2);
    assert_eq!(c.register(2), 3);
    assert_eq!(c.register(3), 9);
    assert_eq!(c.index(), 0xFFE);
}

#[test]
fn random_byte_is_masked() {
    let mut c = Chip8::new(700);
    assert_eq!(c.execute(0xC00F, &NO_KEYS, 0xAB), Ok(Flow::Next));
    assert_eq!(c.register(0), 0x0B);
    assert_eq!(c.decode_and_execute(0xC100, &NO_KEYS), Ok(Flow::Next));
    assert_eq!(c.register(1), 0);
    for _ in 0..32 {
        assert_eq!(c.decode_and_execute(0xC20F, &NO_KEYS), Ok(Flow::Next));
        assert!(c.register(2) <= 0x0F);
    }
}

#[test]
fn key_skips_follow_snapshot() {
    let mut c = Chip8::new(700);
    let mut keys = [false; 16];
    keys[5] = true;
    c.execute(0x6005, &keys, 0).unwrap();
    c.execute(0xE09E, &keys, 0).unwrap();
    assert_eq!(c.pc(), 0x202);
    c.execute(0xE0A1, &keys, 0).unwrap();
    assert_eq!(c.pc(), 0x202);
    c.execute(0x6020, &keys, 0).unwrap();
    c.execute(0xE09E, &keys, 0).unwrap();
    assert_eq!(c.pc(), 0x202);
    c.execute(0xE0A1, &keys, 0).unwrap();
    assert_eq!(c.pc(), 0x204);
}

#[test]
fn wait_for_key_hands_over_frame() {
    let mut c = Chip8::new(700);
    exec_all(&mut c, &[0xA050, 0xD015]);
    assert!(c.is_dirty());
    assert_eq!(exec(&mut c, 0xF30A), Ok(Flow::AwaitKey { register: 3 }));
    assert!(!c.is_dirty());
    c.complete_key_wait(3, 7);
    assert_eq!(c.register(3), 7);
    c.complete_key_wait(16, 1);
    assert_eq!(c.register(0), 0);
}

#[test]
fn load_rom_copies_and_truncates() {
    let mut c = Chip8::new(700);
    c.load_rom(&[1, 2, 3]);
    assert_eq!(c.memory_at(0x200), 1);
    assert_eq!(c.memory_at(0x202), 3);
    assert_eq!(c.memory_at(0x203), 0);
    let big = vec![0x11u8; 4000];
    c.load_rom(&big);
    assert_eq!(c.memory_at(0x1FF), 0);
    assert_eq!(c.memory_at(0x200), 0x11);
    assert_eq!(c.memory_at(0xFFF), 0x11);
    assert_eq!(c.memory_at(0x050), 0xF0);
}

#[test]
fn frame_rgba_uses_two_colors() {
    let mut c = Chip8::new(700);
    exec_all(&mut c, &[0xA050, 0xD011]);
    let rgba = c.frame_rgba();
    assert_eq!(rgba.len(), 64 * 32 * 4);
    assert_eq!(&rgba[0..4], &ON_COLOR);
    assert_eq!(&rgba[3 * 4..4 * 4], &ON_COLOR);
    assert_eq!(&rgba[4 * 4..5 * 4], &OFF_COLOR);
    assert_eq!(&rgba[64 * 4..65 * 4], &OFF_COLOR);
}
