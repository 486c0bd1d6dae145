use chip8::{num_get, Cell, Chip8, Cycle, Fault};

const NO_KEY: u8 = 0x10;

const FONT: [u8; 80] = [
    0xF0, 0x90, 0x90, 0x90, 0xF0, 0x20, 0x60, 0x20, 0x20, 0x70, 0xF0, 0x10, 0xF0, 0x80, 0xF0, 0xF0,
    0x10, 0xF0, 0x10, 0xF0, 0x90, 0x90, 0xF0, 0x10, 0x10, 0xF0, 0x80, 0xF0, 0x10, 0xF0, 0xF0, 0x80,
    0xF0, 0x90, 0xF0, 0xF0, 0x10, 0x20, 0x40, 0x40, 0xF0, 0x90, 0xF0, 0x90, 0xF0, 0xF0, 0x90, 0xF0,
    0x10, 0xF0, 0xF0, 0x90, 0xF0, 0x90, 0x90, 0xE0, 0x90, 0xE0, 0x90, 0xE0, 0xF0, 0x80, 0x80, 0x80,
    0xF0, 0xE0, 0x90, 0x90, 0x90, 0xE0, 0xF0, 0x80, 0xF0, 0x80, 0xF0, 0xF0, 0x80, 0xF0, 0x80, 0x80,
];

fn machine(program: &[u8]) -> Chip8 {
    let mut m = Chip8::default();
    m.fontLoad(FONT);
    m.romLoad(program);
    m
}

fn cycle(m: &mut Chip8, key: u8) -> Result<Cycle, Fault> {
    let mut black = Vec::new();
    let mut white = Vec::new();
    m.exOp(&mut black, &mut white, key, 0)
}

fn run(m: &mut Chip8, n: usize) {
    for _ in 0..n {
        assert!(cycle(m, NO_KEY).is_ok());
    }
}

fn display(m: &Chip8) -> Vec<bool> {
    let mut d = Vec::new();
    for y in 0..32 {
        for x in 0..64 {
            d.push(m.pixel(x, y));
        }
    }
    d
}

#[test]
fn starts_at_program_start_with_zeroed_state() {
    let m = Chip8::default();
    assert_eq!(m.pc(), 0x200);
    assert_eq!(m.index(), 0);
    assert_eq!(m.delay_timer(), 0);
    assert_eq!(m.sound_timer(), 0);
    assert_eq!(m.stack_depth(), 0);
    for i in 0..16 {
        assert_eq!(m.register(i), 0);
    }
    assert!(display(&m).iter().all(|p| !p));
    assert!(!m.draw_flag && !m.input_wait);
}

#[test]
fn font_and_program_land_at_their_addresses() {
    let m = machine(&[0x12, 0x34]);
    assert_eq!(m.memory_at(0x50), 0xF0);
    assert_eq!(m.memory_at(0x9F), 0x80);
    assert_eq!(m.memory_at(0x4F), 0);
    assert_eq!(m.memory_at(0x200), 0x12);
    assert_eq!(m.memory_at(0x201), 0x34);
}

#[test]
fn load_then_add_wraps_without_flag() {
    let mut m = machine(&[0x6A, 0xF0, 0x7A, 0x20, 0x6A, 0x05, 0x7A, 0x07]);
    run(&mut m, 2);
    assert_eq!(m.register(0xA), 0x10);
    assert_eq!(m.register(15), 0);
    run(&mut m, 2);
    assert_eq!(m.register(0xA), 12);
}

#[test]
fn add_with_carry_sets_flag() {
    let mut m = machine(&[0x63, 0xFF, 0x64, 0x01, 0x83, 0x44]);
    run(&mut m, 3);
    assert_eq!(m.register(3), 0x00);
    assert_eq!(m.register(15), 1);
}

#[test]
fn add_without_carry_clears_flag() {
    let mut m = machine(&[0x6F, 0x01, 0x63, 0x10, 0x64, 0x20, 0x83, 0x44]);
    run(&mut m, 4);
    assert_eq!(m.register(3), 0x30);
    assert_eq!(m.register(15), 0);
}

#[test]
fn subtract_with_borrow_clears_flag() {
    let mut m = machine(&[0x6F, 0x07, 0x61, 0x01, 0x62, 0x02, 0x81, 0x25]);
    run(&mut m, 4);
    assert_eq!(m.register(1), 0xFF);
    assert_eq!(m.register(15), 0);
}

#[test]
fn subtract_without_borrow_sets_flag() {
    let mut m = machine(&[0x61, 0x02, 0x62, 0x01, 0x81, 0x25]);
    run(&mut m, 3);
    assert_eq!(m.register(1), 0x01);
    assert_eq!(m.register(15), 1);
}

#[test]
fn reversed_subtract_and_logic_ops() {
    let mut m = machine(&[
        0x61, 0x03, 0x62, 0x01, 0x81, 0x27, // v1 = v2 - v1 = 0xFE, borrow
        0x63, 0x0C, 0x64, 0x0A, 0x83, 0x41, // v3 = 0x0E
        0x65, 0x0C, 0x85, 0x42, // v5 = 0x08
        0x66, 0x0C, 0x86, 0x43, // v6 = 0x06
        0x87, 0x40, // v7 = 0x0A
    ]);
    run(&mut m, 3);
    assert_eq!(m.register(1), 0xFE);
    assert_eq!(m.register(15), 0);
    run(&mut m, 8);
    assert_eq!(m.register(3), 0x0E);
    assert_eq!(m.register(5), 0x08);
    assert_eq!(m.register(6), 0x06);
    assert_eq!(m.register(7), 0x0A);
}

#[test]
fn shifts_move_dropped_bit_into_flag() {
    let mut m = machine(&[0x60, 0x81, 0x80, 0x06, 0x61, 0x81, 0x81, 0x0E, 0x62, 0x40, 0x82, 0x0E]);
    run(&mut m, 2);
    assert_eq!(m.register(0), 0x40);
    assert_eq!(m.register(15), 1);
    run(&mut m, 2);
    assert_eq!(m.register(1), 0x02);
    assert_eq!(m.register(15), 1);
    run(&mut m, 2);
    assert_eq!(m.register(2), 0x80);
    assert_eq!(m.register(15), 0);
}

#[test]
fn drawing_twice_restores_display_and_swaps_reports() {
    // index = glyph 0, v0 = 2, v1 = 3, draw 5 rows twice
    let mut m = machine(&[0xA0, 0x50, 0x60, 0x02, 0x61, 0x03, 0xD0, 0x15, 0xD0, 0x15]);
    run(&mut m, 3);
    let before = display(&m);
    let (mut black1, mut white1) = (Vec::new(), Vec::new());
    assert!(m.exOp(&mut black1, &mut white1, NO_KEY, 0).is_ok());
    assert!(m.draw_flag);
    assert_eq!(m.register(15), 0);
    assert!(black1.is_empty());
    assert_eq!(white1.len(), 14);
    assert_eq!(white1[0], Cell { x: 2, y: 3 });
    assert!(m.pixel(5, 3));
    assert!(!m.pixel(3, 4));
    let (mut black2, mut white2) = (Vec::new(), Vec::new());
    assert!(m.exOp(&mut black2, &mut white2, NO_KEY, 0).is_ok());
    assert_eq!(m.register(15), 1);
    assert_eq!(display(&m), before);
    assert_eq!(black2, white1);
    assert_eq!(white2, black1);
}

#[test]
fn draw_past_right_edge_continues_on_next_row() {
    // v0 = 62, v1 = 0, sprite row 0xF0 from glyph 0
    let mut m = machine(&[0xA0, 0x50, 0x60, 0x3E, 0x61, 0x00, 0xD0, 0x11]);
    run(&mut m, 3);
    let (mut black, mut white) = (Vec::new(), Vec::new());
    assert!(m.exOp(&mut black, &mut white, NO_KEY, 0).is_ok());
    assert_eq!(white, vec![Cell { x: 62, y: 0 }, Cell { x: 63, y: 0 }, Cell { x: 0, y: 1 }, Cell { x: 1, y: 1 }]);
}

#[test]
fn draw_past_bottom_is_clipped() {
    // v1 = 31: only the first sprite row lands on the display
    let mut m = machine(&[0xA0, 0x50, 0x60, 0x00, 0x61, 0x1F, 0xD0, 0x15]);
    run(&mut m, 3);
    let (mut black, mut white) = (Vec::new(), Vec::new());
    assert!(m.exOp(&mut black, &mut white, NO_KEY, 0).is_ok());
    assert_eq!(white.len(), 4);
    assert!(white.iter().all(|c| c.y == 31));
}

#[test]
fn clear_screen_reports_every_lit_cell() {
    let mut m = machine(&[0xA0, 0x50, 0xD0, 0x11, 0x00, 0xE0]);
    run(&mut m, 2);
    let (mut black, mut white) = (Vec::new(), Vec::new());
    assert!(m.exOp(&mut black, &mut white, NO_KEY, 0).is_ok());
    assert!(m.draw_flag);
    assert!(white.is_empty());
    assert_eq!(black, vec![Cell { x: 0, y: 0 }, Cell { x: 1, y: 0 }, Cell { x: 2, y: 0 }, Cell { x: 3, y: 0 }]);
    assert!(display(&m).iter().all(|p| !p));
}

#[test]
fn draw_flag_is_cleared_by_next_cycle() {
    let mut m = machine(&[0x00, 0xE0, 0x60, 0x01]);
    run(&mut m, 1);
    assert!(m.draw_flag);
    run(&mut m, 1);
    assert!(!m.draw_flag);
}

#[test]
fn call_then_return_resumes_after_call() {
    let mut m = machine(&[0x22, 0x06, 0x00, 0x00, 0x00, 0x00, 0x00, 0xEE]);
    run(&mut m, 1);
    assert_eq!(m.pc(), 0x206);
    assert_eq!(m.stack_depth(), 1);
    run(&mut m, 1);
    assert_eq!(m.pc(), 0x202);
    assert_eq!(m.stack_depth(), 0);
}

#[test]
fn return_with_empty_stack_faults_and_changes_nothing() {
    let mut m = machine(&[0x00, 0xEE]);
    assert_eq!(cycle(&mut m, NO_KEY), Err(Fault::StackUnderflow));
    assert_eq!(m.pc(), 0x200);
}

#[test]
fn seventeenth_nested_call_faults() {
    let mut m = machine(&[0x22, 0x00]);
    run(&mut m, 16);
    assert_eq!(m.stack_depth(), 16);
    assert_eq!(cycle(&mut m, NO_KEY), Err(Fault::StackOverflow));
    assert_eq!(m.stack_depth(), 16);
    assert_eq!(m.pc(), 0x200);
}

#[test]
fn block_store_past_memory_end_faults() {
    let mut m = machine(&[0xAF, 0xF8, 0xF0, 0x55]);
    run(&mut m, 1);
    assert_eq!(cycle(&mut m, NO_KEY), Err(Fault::AddressOutOfRange));
    assert_eq!(m.pc(), 0x202);
}

#[test]
fn fetch_past_memory_end_faults() {
    let mut m = machine(&[0x1F, 0xFF]);
    run(&mut m, 1);
    assert_eq!(m.pc(), 0xFFF);
    assert_eq!(cycle(&mut m, NO_KEY), Err(Fault::AddressOutOfRange));
}

#[test]
fn sprite_past_memory_end_faults() {
    let mut m = machine(&[0xAF, 0xFE, 0xD0, 0x05]);
    run(&mut m, 1);
    assert_eq!(cycle(&mut m, NO_KEY), Err(Fault::AddressOutOfRange));
}

#[test]
fn decimal_digits_are_zero_padded() {
    assert_eq!(num_get(0), [0, 0, 0]);
    assert_eq!(num_get(9), [0, 0, 9]);
    assert_eq!(num_get(42), [0, 4, 2]);
    assert_eq!(num_get(255), [2, 5, 5]);
}

#[test]
fn decimal_store_writes_three_bytes() {
    let mut m = machine(&[0x65, 0x7B, 0xA3, 0x00, 0xF5, 0x33]);
    run(&mut m, 3);
    assert_eq!(m.memory_at(0x300), 1);
    assert_eq!(m.memory_at(0x301), 2);
    assert_eq!(m.memory_at(0x302), 3);
}

#[test]
fn register_block_round_trip() {
    let mut m = machine(&[0x60, 0x11, 0x6F, 0x22, 0xA3, 0x00, 0xF0, 0x55, 0x60, 0x00, 0x6F, 0x00, 0xF0, 0x65]);
    run(&mut m, 4);
    assert_eq!(m.memory_at(0x300), 0x11);
    assert_eq!(m.memory_at(0x30F), 0x22);
    run(&mut m, 2);
    assert_eq!(m.register(0), 0);
    run(&mut m, 1);
    assert_eq!(m.register(0), 0x11);
    assert_eq!(m.register(15), 0x22);
}

#[test]
fn key_skip_depends_on_asserted_key() {
    let program = [0x60, 0x05, 0xE0, 0x9E];
    let mut hit = machine(&program);
    run(&mut hit, 1);
    assert!(cycle(&mut hit, 5).is_ok());
    let mut miss = machine(&program);
    run(&mut miss, 1);
    assert!(cycle(&mut miss, 3).is_ok());
    let mut none = machine(&program);
    run(&mut none, 2);
    assert_eq!(hit.pc(), 0x206);
    assert_eq!(miss.pc(), 0x204);
    assert_eq!(none.pc(), 0x204);
}

#[test]
fn key_not_pressed_skip() {
    let program = [0x60, 0x05, 0xE0, 0xA1];
    let mut pressed = machine(&program);
    run(&mut pressed, 1);
    assert!(cycle(&mut pressed, 5).is_ok());
    let mut other = machine(&program);
    run(&mut other, 1);
    assert!(cycle(&mut other, 6).is_ok());
    assert_eq!(pressed.pc(), 0x204);
    assert_eq!(other.pc(), 0x206);
}

#[test]
fn key_wait_holds_until_a_key_arrives() {
    let mut m = machine(&[0xF3, 0x0A]);
    assert!(cycle(&mut m, NO_KEY).is_ok());
    assert!(m.input_wait);
    assert_eq!(m.pc(), 0x200);
    assert!(cycle(&mut m, 7).is_ok());
    assert!(!m.input_wait);
    assert_eq!(m.register(3), 7);
    assert_eq!(m.pc(), 0x202);
}

#[test]
fn delay_timer_decays_to_zero_and_stays() {
    // v0 = 60, delay = v0, then jump to self forever
    let mut m = machine(&[0x60, 0x3C, 0xF0, 0x15, 0x12, 0x04]);
    run(&mut m, 2);
    assert_eq!(m.delay_timer(), 59);
    run(&mut m, 58);
    assert_eq!(m.delay_timer(), 1);
    run(&mut m, 1);
    assert_eq!(m.delay_timer(), 0);
    run(&mut m, 5);
    assert_eq!(m.delay_timer(), 0);
}

#[test]
fn delay_timer_is_readable() {
    let mut m = machine(&[0x60, 0x0A, 0xF0, 0x15, 0xF1, 0x07]);
    run(&mut m, 3);
    assert_eq!(m.register(1), 9);
}

#[test]
fn sound_timer_beeps_when_it_runs_out() {
    let mut m = machine(&[0x60, 0x02, 0xF0, 0x18, 0x12, 0x04]);
    run(&mut m, 1);
    let c = cycle(&mut m, NO_KEY).unwrap();
    assert!(!c.beep);
    assert_eq!(m.sound_timer(), 1);
    let c = cycle(&mut m, NO_KEY).unwrap();
    assert!(c.beep);
    assert_eq!(m.sound_timer(), 0);
    let c = cycle(&mut m, NO_KEY).unwrap();
    assert!(!c.beep);
}

#[test]
fn random_byte_is_masked() {
    let mut m = machine(&[0xC2, 0x0F, 0xC3, 0x00, 0xC4, 0x0F]);
    let (mut black, mut white) = (Vec::new(), Vec::new());
    assert!(m.exOp(&mut black, &mut white, NO_KEY, 0xAB).is_ok());
    assert_eq!(m.register(2), 0x0B);
    assert!(m.emuCycle(&mut black, &mut white, NO_KEY).is_ok());
    assert_eq!(m.register(3), 0);
    assert!(m.emuCycle(&mut black, &mut white, NO_KEY).is_ok());
    assert!(m.register(4) <= 0x0F);
}

#[test]
fn jumps_and_index_loads() {
    let mut m = machine(&[0x60, 0x04, 0xB3, 0x00]);
    run(&mut m, 2);
    assert_eq!(m.pc(), 0x304);
    let mut m = machine(&[0xA1, 0x23, 0x60, 0x0A, 0xF0, 0x29]);
    run(&mut m, 1);
    assert_eq!(m.index(), 0x123);
    run(&mut m, 2);
    assert_eq!(m.index(), 0x50 + 50);
}

#[test]
fn index_add_wraps_at_sixteen_bits() {
    let mut m = machine(&[0xA0, 0x10, 0x60, 0x20, 0xF0, 0x1E]);
    run(&mut m, 3);
    assert_eq!(m.index(), 0x30);
}

#[test]
fn compare_skips() {
    let mut m = machine(&[0x60, 0x07, 0x30, 0x07, 0x00, 0x00, 0x40, 0x07, 0x61, 0x07, 0x50, 0x10, 0x00, 0x00, 0x90, 0x10]);
    run(&mut m, 2);
    assert_eq!(m.pc(), 0x206);
    run(&mut m, 1);
    assert_eq!(m.pc(), 0x208);
    run(&mut m, 2);
    assert_eq!(m.pc(), 0x20E);
    run(&mut m, 1);
    assert_eq!(m.pc(), 0x210);
}

#[test]
fn unknown_instruction_is_reported_and_skipped() {
    let mut m = machine(&[0x80, 0x1F, 0x01, 0x23, 0xE0, 0x00, 0xF0, 0xFF]);
    for pc in [0x202u16, 0x204, 0x206, 0x208] {
        let c = cycle(&mut m, NO_KEY).unwrap();
        assert!(!c.recognized);
        assert_eq!(m.pc(), pc);
    }
    let mut m = machine(&[0x60, 0x01]);
    let c = cycle(&mut m, NO_KEY).unwrap();
    assert!(c.recognized);
    assert_eq!(c.opcode, 0x6001);
}
