use chip8::{Chip8, Fault, LoadError, Outcome, FONT_SET};

fn machine_with(program: &[u8]) -> Chip8 {
    let mut vm = Chip8::new();
    assert_eq!(vm.load_application(program), Ok(()));
    vm
}

fn run(vm: &mut Chip8, cycles: usize) {
    for _ in 0..cycles {
        assert_eq!(vm.emulate_cycle(), Outcome::Executed);
    }
}

#[test]
fn new_machine_is_reset() {
    let vm = Chip8::new();
    assert_eq!(vm.pc(), 0x200);
    assert_eq!(vm.index(), 0);
    assert_eq!(vm.sp(), 0);
    assert!(vm.stack().is_empty());
    assert_eq!(vm.delay_timer(), 0);
    assert_eq!(vm.sound_timer(), 0);
    assert!(vm.draw_flag());
    assert_eq!(vm.fault(), None);
    assert!(vm.registers().iter().all(|&b| b == 0));
    assert!(vm.gfx().iter().all(|&lit| !lit));
    assert!(vm.keys().iter().all(|&down| !down));
}

#[test]
fn reset_places_font_at_address_zero() {
    let mut vm = machine_with(&[0x60, 0x01, 0xA0, 0x00, 0xF0, 0x55]);
    run(&mut vm, 3);
    assert_eq!(vm.memory()[0], 0x01);
    vm.init();
    for digit in 0..16 {
        for row in 0..5 {
            assert_eq!(vm.memory()[5 * digit + row], FONT_SET[5 * digit + row]);
        }
    }
    assert_eq!(&vm.memory()[0..5], &[0xF0, 0x90, 0x90, 0x90, 0xF0]);
    assert_eq!(&vm.memory()[75..80], &[0xF0, 0x80, 0xF0, 0x80, 0x80]);
    assert!(vm.memory()[80..].iter().all(|&b| b == 0));
}

#[test]
fn reset_clears_everything() {
    let mut vm = machine_with(&[
        0x6A, 0x07, 0xFA, 0x15, 0xFA, 0x18, 0x22, 0x0A, 0x00, 0xEE, 0xD0, 0x05, 0x00, 0xEE,
    ]);
    run(&mut vm, 5);
    vm.set_key(3, true);
    run(&mut vm, 1);
    assert_eq!(vm.emulate_cycle(), Outcome::Halted(Fault::StackUnderflow));
    assert_eq!(vm.registers()[0xA], 7);
    assert!(vm.gfx().iter().any(|&lit| lit));
    vm.init();
    assert_eq!(vm.pc(), 0x200);
    assert_eq!(vm.sp(), 0);
    assert_eq!(vm.delay_timer(), 0);
    assert_eq!(vm.sound_timer(), 0);
    assert_eq!(vm.fault(), None);
    assert!(vm.draw_flag());
    assert!(vm.registers().iter().all(|&b| b == 0));
    assert!(vm.gfx().iter().all(|&lit| !lit));
    assert!(vm.keys().iter().all(|&down| !down));
    assert!(vm.memory()[80..].iter().all(|&b| b == 0));
}

#[test]
fn load_copies_image_to_0x200() {
    let image: Vec<u8> = (0..=255u8).collect();
    let vm = machine_with(&image);
    for (k, &b) in image.iter().enumerate() {
        assert_eq!(vm.memory()[0x200 + k], b);
    }
    assert!(vm.memory()[0x300..].iter().all(|&b| b == 0));
    assert_eq!(&vm.memory()[..80], &FONT_SET[..]);
    assert!(vm.memory()[80..0x200].iter().all(|&b| b == 0));
    assert_eq!(vm.pc(), 0x200);
}

#[test]
fn load_then_cycle_runs_the_first_loaded_instruction() {
    let mut vm = machine_with(&[0x6A, 0x42]);
    assert_eq!(vm.fetch(), 0x6A42);
    assert_eq!(vm.emulate_cycle(), Outcome::Executed);
    assert_eq!(vm.registers()[0xA], 0x42);
    assert_eq!(vm.pc(), 0x202);
}

#[test]
fn load_replaces_an_earlier_program() {
    let mut vm = machine_with(&[0x61, 0x11, 0x62, 0x22, 0x63, 0x33]);
    run(&mut vm, 2);
    assert_eq!(vm.load_application(&[0x6B, 0x99]), Ok(()));
    assert_eq!(vm.fetch(), 0x6B99);
    assert_eq!(vm.registers()[1], 0);
    assert_eq!(vm.memory()[0x202], 0);
    assert_eq!(vm.memory()[0x204], 0);
    assert_eq!(vm.emulate_cycle(), Outcome::Executed);
    assert_eq!(vm.registers()[0xB], 0x99);
    assert_eq!(vm.registers()[1], 0);
}

#[test]
fn load_accepts_3584_bytes() {
    let image = vec![0xABu8; 3584];
    let vm = machine_with(&image);
    assert_eq!(vm.memory()[0x200], 0xAB);
    assert_eq!(vm.memory()[0xFFF], 0xAB);
    assert_eq!(vm.memory()[0x1FF], 0);
}

#[test]
fn load_rejects_3585_bytes() {
    let mut vm = Chip8::new();
    let image = vec![0xABu8; 3585];
    assert_eq!(vm.load_application(&image), Err(LoadError { size: 3585 }));
    let fresh = Chip8::new();
    assert_eq!(&vm.memory()[..], &fresh.memory()[..]);
    assert_eq!(vm.pc(), 0x200);
}

#[test]
fn rejected_load_leaves_the_machine_untouched() {
    let mut vm = machine_with(&[0x65, 0x77, 0xA1, 0x23]);
    run(&mut vm, 2);
    let memory = *vm.memory();
    let image = vec![0u8; 4000];
    assert_eq!(vm.load_application(&image), Err(LoadError { size: 4000 }));
    assert_eq!(&vm.memory()[..], &memory[..]);
    assert_eq!(vm.registers()[5], 0x77);
    assert_eq!(vm.index(), 0x123);
    assert_eq!(vm.pc(), 0x204);
}

#[test]
fn load_accepts_an_empty_image() {
    let mut vm = machine_with(&[]);
    assert_eq!(vm.fetch(), 0x0000);
    assert_eq!(vm.emulate_cycle(), Outcome::UnknownOpcode(0x0000));
    assert_eq!(vm.pc(), 0x202);
}

#[test]
fn clear_screen_blanks_the_display_and_marks_it() {
    let mut vm = machine_with(&[0xD0, 0x05, 0x00, 0xE0]);
    run(&mut vm, 1);
    assert!(vm.gfx().iter().any(|&lit| lit));
    vm.clear_draw_flag();
    assert!(!vm.draw_flag());
    run(&mut vm, 1);
    assert!(vm.gfx().iter().all(|&lit| !lit));
    assert!(vm.draw_flag());
    assert_eq!(vm.pc(), 0x204);
}

#[test]
fn jump_sets_the_program_counter() {
    let mut vm = machine_with(&[0x1A, 0xBC]);
    run(&mut vm, 1);
    assert_eq!(vm.pc(), 0xABC);
}

#[test]
fn call_pushes_the_next_address_and_return_pops_it() {
    let mut vm = machine_with(&[0x22, 0x06, 0x61, 0x01, 0x00, 0x00, 0x62, 0x02, 0x00, 0xEE]);
    run(&mut vm, 1);
    assert_eq!(vm.pc(), 0x206);
    assert_eq!(vm.sp(), 1);
    assert_eq!(vm.stack()[0], 0x202);
    run(&mut vm, 2);
    assert_eq!(vm.pc(), 0x202);
    assert_eq!(vm.sp(), 0);
    run(&mut vm, 1);
    assert_eq!(vm.registers()[1], 1);
    assert_eq!(vm.registers()[2], 2);
}

#[test]
fn return_with_empty_stack_is_a_fault() {
    let mut vm = machine_with(&[0x00, 0xEE, 0x61, 0x01]);
    assert_eq!(vm.emulate_cycle(), Outcome::Halted(Fault::StackUnderflow));
    assert_eq!(vm.fault(), Some(Fault::StackUnderflow));
    assert_eq!(vm.pc(), 0x200);
    assert_eq!(vm.sp(), 0);
}

#[test]
fn call_with_full_stack_is_a_fault() {
    let mut vm = machine_with(&[0x22, 0x00]);
    run(&mut vm, 16);
    assert_eq!(vm.sp(), 16);
    assert_eq!(vm.emulate_cycle(), Outcome::Halted(Fault::StackOverflow));
    assert_eq!(vm.fault(), Some(Fault::StackOverflow));
    assert_eq!(vm.sp(), 16);
    assert_eq!(vm.pc(), 0x200);
}

#[test]
fn halted_machine_makes_no_progress_until_reset() {
    let mut vm = machine_with(&[0x00, 0xEE]);
    assert_eq!(vm.emulate_cycle(), Outcome::Halted(Fault::StackUnderflow));
    assert_eq!(vm.emulate_cycle(), Outcome::Halted(Fault::StackUnderflow));
    assert_eq!(vm.execute(0x6A12, 0), Outcome::Halted(Fault::StackUnderflow));
    assert_eq!(vm.registers()[0xA], 0);
    assert_eq!(vm.pc(), 0x200);
    vm.init();
    assert_eq!(vm.fault(), None);
    assert_eq!(vm.execute(0x6A12, 0), Outcome::Executed);
    assert_eq!(vm.registers()[0xA], 0x12);
}

#[test]
fn load_recovers_a_halted_machine() {
    let mut vm = machine_with(&[0x00, 0xEE]);
    assert_eq!(vm.emulate_cycle(), Outcome::Halted(Fault::StackUnderflow));
    assert_eq!(vm.load_application(&[0x61, 0x05]), Ok(()));
    assert_eq!(vm.emulate_cycle(), Outcome::Executed);
    assert_eq!(vm.registers()[1], 5);
}

#[test]
fn skip_if_equal_to_byte() {
    let mut vm = Chip8::new();
    vm.execute(0x6342, 0);
    assert_eq!(vm.pc(), 0x202);
    vm.execute(0x3342, 0);
    assert_eq!(vm.pc(), 0x206);
    vm.execute(0x3343, 0);
    assert_eq!(vm.pc(), 0x208);
}

#[test]
fn skip_if_not_equal_to_byte() {
    let mut vm = Chip8::new();
    vm.execute(0x6342, 0);
    vm.execute(0x4342, 0);
    assert_eq!(vm.pc(), 0x204);
    vm.execute(0x4343, 0);
    assert_eq!(vm.pc(), 0x208);
}

#[test]
fn skip_if_registers_same_or_different() {
    let mut vm = Chip8::new();
    vm.execute(0x6107, 0);
    vm.execute(0x6207, 0);
    vm.execute(0x6308, 0);
    assert_eq!(vm.pc(), 0x206);
    vm.execute(0x5120, 0);
    assert_eq!(vm.pc(), 0x20A);
    vm.execute(0x5130, 0);
    assert_eq!(vm.pc(), 0x20C);
    vm.execute(0x9120, 0);
    assert_eq!(vm.pc(), 0x20E);
    vm.execute(0x9130, 0);
    assert_eq!(vm.pc(), 0x212);
}

#[test]
fn load_byte_twice_gives_the_same_value() {
    let mut vm = Chip8::new();
    assert_eq!(vm.execute(0x6C5A, 0), Outcome::Executed);
    let once = *vm.registers();
    assert_eq!(once[0xC], 0x5A);
    assert_eq!(vm.execute(0x6C5A, 0), Outcome::Executed);
    assert_eq!(*vm.registers(), once);
    assert_eq!(vm.pc(), 0x204);
}

#[test]
fn add_byte_wraps_and_leaves_the_flag() {
    let mut vm = Chip8::new();
    vm.execute(0x61F0, 0);
    vm.execute(0x7120, 0);
    assert_eq!(vm.registers()[1], 0x10);
    assert_eq!(vm.registers()[0xF], 0);
    vm.execute(0x7105, 0);
    assert_eq!(vm.registers()[1], 0x15);
}

#[test]
fn copy_or_and_xor() {
    let mut vm = Chip8::new();
    vm.execute(0x61CC, 0);
    vm.execute(0x62AA, 0);
    vm.execute(0x8310, 0);
    assert_eq!(vm.registers()[3], 0xCC);
    vm.execute(0x8321, 0);
    assert_eq!(vm.registers()[3], 0xEE);
    vm.execute(0x8410, 0);
    vm.execute(0x8422, 0);
    assert_eq!(vm.registers()[4], 0x88);
    vm.execute(0x8510, 0);
    vm.execute(0x8523, 0);
    assert_eq!(vm.registers()[5], 0x66);
    assert_eq!(vm.registers()[1], 0xCC);
    assert_eq!(vm.registers()[2], 0xAA);
    assert_eq!(vm.pc(), 0x200 + 2 * 8);
}

#[test]
fn add_registers_with_carry() {
    let mut vm = Chip8::new();
    vm.execute(0x60FA, 0);
    vm.execute(0x610A, 0);
    assert_eq!(vm.execute(0x8014, 0), Outcome::Executed);
    assert_eq!(vm.registers()[0], 4);
    assert_eq!(vm.registers()[0xF], 1);
    assert_eq!(vm.registers()[1], 10);
    assert_eq!(vm.pc(), 0x206);
}

#[test]
fn add_registers_without_carry() {
    let mut vm = Chip8::new();
    vm.execute(0x6064, 0);
    vm.execute(0x619B, 0);
    vm.execute(0x6F01, 0);
    vm.execute(0x8014, 0);
    assert_eq!(vm.registers()[0], 255);
    assert_eq!(vm.registers()[0xF], 0);
}

#[test]
fn subtract_registers_with_borrow() {
    let mut vm = Chip8::new();
    vm.execute(0x6005, 0);
    vm.execute(0x610A, 0);
    vm.execute(0x6F01, 0);
    assert_eq!(vm.execute(0x8015, 0), Outcome::Executed);
    assert_eq!(vm.registers()[0], 251);
    assert_eq!(vm.registers()[0xF], 0);
}

#[test]
fn subtract_registers_without_borrow() {
    let mut vm = Chip8::new();
    vm.execute(0x600A, 0);
    vm.execute(0x6105, 0);
    vm.execute(0x8015, 0);
    assert_eq!(vm.registers()[0], 5);
    assert_eq!(vm.registers()[0xF], 1);
    vm.execute(0x8115, 0);
    assert_eq!(vm.registers()[1], 0);
    assert_eq!(vm.registers()[0xF], 1);
}

#[test]
fn subtract_from_register() {
    let mut vm = Chip8::new();
    vm.execute(0x6005, 0);
    vm.execute(0x610A, 0);
    vm.execute(0x8017, 0);
    assert_eq!(vm.registers()[0], 5);
    assert_eq!(vm.registers()[0xF], 1);
    vm.execute(0x6014, 0);
    vm.execute(0x8017, 0);
    assert_eq!(vm.registers()[0], 246);
    assert_eq!(vm.registers()[0xF], 0);
}

#[test]
fn shift_right_and_left() {
    let mut vm = Chip8::new();
    vm.execute(0x6085, 0);
    vm.execute(0x8006, 0);
    assert_eq!(vm.registers()[0], 0x42);
    assert_eq!(vm.registers()[0xF], 1);
    vm.execute(0x8006, 0);
    assert_eq!(vm.registers()[0], 0x21);
    assert_eq!(vm.registers()[0xF], 0);
    vm.execute(0x61C1, 0);
    vm.execute(0x811E, 0);
    assert_eq!(vm.registers()[1], 0x82);
    assert_eq!(vm.registers()[0xF], 1);
    vm.execute(0x6241, 0);
    vm.execute(0x822E, 0);
    assert_eq!(vm.registers()[2], 0x82);
    assert_eq!(vm.registers()[0xF], 0);
}

#[test]
fn flag_is_written_before_the_result() {
    let mut vm = Chip8::new();
    vm.execute(0x6FFF, 0);
    vm.execute(0x6102, 0);
    vm.execute(0x8F14, 0);
    assert_eq!(vm.registers()[0xF], 1);
    vm.execute(0x6F07, 0);
    vm.execute(0x8F15, 0);
    assert_eq!(vm.registers()[0xF], 255);
    vm.execute(0x6F03, 0);
    vm.execute(0x8F06, 0);
    assert_eq!(vm.registers()[0xF], 0);
}

#[test]
fn load_index_and_jump_with_offset() {
    let mut vm = Chip8::new();
    vm.execute(0xA123, 0);
    assert_eq!(vm.index(), 0x123);
    assert_eq!(vm.pc(), 0x202);
    vm.execute(0x6010, 0);
    vm.execute(0xB300, 0);
    assert_eq!(vm.pc(), 0x310);
    vm.execute(0x60FF, 0);
    vm.execute(0xBFFF, 0);
    assert_eq!(vm.pc(), 0x0FE);
}

#[test]
fn random_byte_is_masked() {
    let mut vm = Chip8::new();
    assert_eq!(vm.execute(0xC10F, 0xA7), Outcome::Executed);
    assert_eq!(vm.registers()[1], 0x07);
    assert_eq!(vm.execute(0xC2F0, 0xA7), Outcome::Executed);
    assert_eq!(vm.registers()[2], 0xA0);
    assert_eq!(vm.pc(), 0x204);
}

#[test]
fn cycle_draws_a_random_byte_under_the_mask() {
    let mut program = Vec::new();
    for _ in 0..64 {
        program.extend_from_slice(&[0x63, 0xFF, 0xC3, 0x0F, 0x64, 0xFF, 0xC4, 0x00]);
    }
    let mut vm = machine_with(&program);
    for _ in 0..64 {
        run(&mut vm, 4);
        assert!(vm.registers()[3] <= 0x0F);
        assert_eq!(vm.registers()[4], 0);
    }
}

#[test]
fn cycle_draws_varying_bytes() {
    let mut program = Vec::new();
    for _ in 0..200 {
        program.extend_from_slice(&[0xC0, 0xFF]);
    }
    let mut vm = machine_with(&program);
    let mut seen = std::collections::HashSet::new();
    for _ in 0..200 {
        run(&mut vm, 1);
        seen.insert(vm.registers()[0]);
    }
    assert!(seen.len() > 1);
}

#[test]
fn draw_glyph_on_blank_display() {
    let mut vm = Chip8::new();
    vm.execute(0x6003, 0);
    vm.execute(0x6102, 0);
    vm.execute(0xA005, 0);
    vm.clear_draw_flag();
    assert_eq!(vm.execute(0xD015, 0), Outcome::Executed);
    assert!(vm.draw_flag());
    assert_eq!(vm.registers()[0xF], 0);
    let glyph = [0x20u8, 0x60, 0x20, 0x20, 0x70];
    for y in 0..32usize {
        for x in 0..64usize {
            let inside = (3..11).contains(&x) && (2..7).contains(&y);
            let lit = inside && glyph[y - 2] & (0x80 >> (x - 3)) != 0;
            assert_eq!(vm.gfx()[y * 64 + x], lit, "pixel ({}, {})", x, y);
        }
    }
    assert_eq!(vm.pc(), 0x208);
}

#[test]
fn drawing_twice_restores_the_display() {
    let mut vm = Chip8::new();
    vm.execute(0x600A, 0);
    vm.execute(0x6105, 0);
    vm.execute(0xA00A, 0);
    vm.execute(0xD015, 0);
    vm.execute(0x6208, 0);
    vm.execute(0x6306, 0);
    vm.execute(0xA014, 0);
    let before = *vm.gfx();
    vm.execute(0xD235, 0);
    let first = vm.registers()[0xF];
    assert_ne!(&vm.gfx()[..], &before[..]);
    vm.execute(0xD235, 0);
    assert_eq!(&vm.gfx()[..], &before[..]);
    assert_eq!(first, 1);
    assert_eq!(vm.registers()[0xF], 1);
}

#[test]
fn collision_only_on_the_second_draw_of_a_blank_area() {
    let mut vm = Chip8::new();
    vm.execute(0xA000, 0);
    vm.execute(0xD005, 0);
    assert_eq!(vm.registers()[0xF], 0);
    assert!(vm.gfx().iter().any(|&lit| lit));
    vm.execute(0xD005, 0);
    assert_eq!(vm.registers()[0xF], 1);
    assert!(vm.gfx().iter().all(|&lit| !lit));
}

#[test]
fn sprite_wraps_at_the_edges() {
    let mut vm = Chip8::new();
    vm.execute(0x603E, 0);
    vm.execute(0x611F, 0);
    vm.execute(0x62FF, 0);
    vm.execute(0x63FF, 0);
    vm.execute(0xA300, 0);
    vm.execute(0xF355, 0);
    vm.execute(0xA302, 0);
    vm.execute(0xD012, 0);
    let lit: Vec<usize> = (0..2048).filter(|&p| vm.gfx()[p]).collect();
    let mut expected = Vec::new();
    for y in [31usize, 0] {
        for x in [62usize, 63, 0, 1, 2, 3, 4, 5] {
            expected.push(y * 64 + x);
        }
    }
    expected.sort();
    assert_eq!(lit, expected);
    assert_eq!(vm.registers()[0xF], 0);
}

#[test]
fn sprite_position_wraps_modulo_the_display() {
    let mut a = Chip8::new();
    a.execute(0x6045, 0);
    a.execute(0x6123, 0);
    a.execute(0xA000, 0);
    a.execute(0xD015, 0);
    let mut b = Chip8::new();
    b.execute(0x6005, 0);
    b.execute(0x6103, 0);
    b.execute(0xA000, 0);
    b.execute(0xD015, 0);
    assert_eq!(&a.gfx()[..], &b.gfx()[..]);
}

#[test]
fn draw_with_no_rows_changes_nothing_but_marks_the_display() {
    let mut vm = Chip8::new();
    vm.execute(0x6F01, 0);
    vm.clear_draw_flag();
    vm.execute(0xD000, 0);
    assert!(vm.gfx().iter().all(|&lit| !lit));
    assert!(vm.draw_flag());
    assert_eq!(vm.registers()[0xF], 0);
}

#[test]
fn skip_on_key_state() {
    let mut vm = Chip8::new();
    vm.execute(0x6007, 0);
    vm.execute(0xE09E, 0);
    assert_eq!(vm.pc(), 0x204);
    vm.execute(0xE0A1, 0);
    assert_eq!(vm.pc(), 0x208);
    vm.set_key(7, true);
    vm.execute(0xE09E, 0);
    assert_eq!(vm.pc(), 0x20C);
    vm.execute(0xE0A1, 0);
    assert_eq!(vm.pc(), 0x20E);
}

#[test]
fn key_is_named_by_the_low_four_bits() {
    let mut vm = Chip8::new();
    vm.execute(0x6037, 0);
    vm.set_key(7, true);
    vm.execute(0xE09E, 0);
    assert_eq!(vm.pc(), 0x206);
}

#[test]
fn wait_key_blocks_until_a_key_is_down() {
    let mut vm = machine_with(&[0x65, 0x33, 0xF5, 0x0A, 0x61, 0x01]);
    run(&mut vm, 1);
    for _ in 0..5 {
        assert_eq!(vm.emulate_cycle(), Outcome::AwaitingKey);
        assert_eq!(vm.pc(), 0x202);
        assert_eq!(vm.registers()[5], 0x33);
    }
    vm.set_key(0xB, true);
    assert_eq!(vm.emulate_cycle(), Outcome::Executed);
    assert_eq!(vm.registers()[5], 0xB);
    assert_eq!(vm.pc(), 0x204);
}

#[test]
fn wait_key_takes_the_highest_key_down() {
    let mut vm = Chip8::new();
    vm.set_key(2, true);
    vm.set_key(9, true);
    vm.set_key(4, true);
    assert_eq!(vm.execute(0xF30A, 0), Outcome::Executed);
    assert_eq!(vm.registers()[3], 9);
    vm.set_key(9, false);
    vm.execute(0xF30A, 0);
    assert_eq!(vm.registers()[3], 4);
    vm.set_key(0xF, true);
    vm.execute(0xF30A, 0);
    assert_eq!(vm.registers()[3], 0xF);
}

#[test]
fn wait_key_sees_key_zero() {
    let mut vm = Chip8::new();
    vm.execute(0x6309, 0);
    vm.set_key(0, true);
    assert_eq!(vm.execute(0xF30A, 0), Outcome::Executed);
    assert_eq!(vm.registers()[3], 0);
}

#[test]
fn timers_are_set_and_read() {
    let mut vm = Chip8::new();
    vm.execute(0x6A3C, 0);
    vm.execute(0xFA15, 0);
    vm.execute(0x6B02, 0);
    vm.execute(0xFB18, 0);
    assert_eq!(vm.delay_timer(), 60);
    assert_eq!(vm.sound_timer(), 2);
    vm.execute(0xF107, 0);
    assert_eq!(vm.registers()[1], 60);
    assert_eq!(vm.pc(), 0x20A);
}

#[test]
fn cycles_do_not_tick_the_timers() {
    let mut vm = machine_with(&[0x6A, 0x05, 0xFA, 0x15, 0xFA, 0x18, 0x61, 0x01, 0x62, 0x02]);
    run(&mut vm, 5);
    assert_eq!(vm.delay_timer(), 5);
    assert_eq!(vm.sound_timer(), 5);
}

#[test]
fn tick_counts_down_to_zero_and_signals_the_end_of_a_tone() {
    let mut vm = Chip8::new();
    vm.execute(0x6A03, 0);
    vm.execute(0xFA15, 0);
    vm.execute(0x6B02, 0);
    vm.execute(0xFB18, 0);
    assert!(!vm.tick_timers());
    assert_eq!((vm.delay_timer(), vm.sound_timer()), (2, 1));
    assert!(vm.tick_timers());
    assert_eq!((vm.delay_timer(), vm.sound_timer()), (1, 0));
    assert!(!vm.tick_timers());
    assert_eq!((vm.delay_timer(), vm.sound_timer()), (0, 0));
    assert!(!vm.tick_timers());
    assert_eq!((vm.delay_timer(), vm.sound_timer()), (0, 0));
    assert_eq!(vm.pc(), 0x208);
}

#[test]
fn add_index_with_and_without_overflow() {
    let mut vm = Chip8::new();
    vm.execute(0xA100, 0);
    vm.execute(0x6020, 0);
    vm.execute(0x6F01, 0);
    vm.execute(0xF01E, 0);
    assert_eq!(vm.index(), 0x120);
    assert_eq!(vm.registers()[0xF], 0);
    vm.execute(0xAFFF, 0);
    vm.execute(0x6002, 0);
    vm.execute(0xF01E, 0);
    assert_eq!(vm.index(), 1);
    assert_eq!(vm.registers()[0xF], 1);
    vm.execute(0xAFFE, 0);
    vm.execute(0x6001, 0);
    vm.execute(0xF01E, 0);
    assert_eq!(vm.index(), 0xFFF);
    assert_eq!(vm.registers()[0xF], 0);
}

#[test]
fn store_digits_of_123() {
    let mut vm = Chip8::new();
    vm.execute(0x677B, 0);
    vm.execute(0xA400, 0);
    assert_eq!(vm.execute(0xF733, 0), Outcome::Executed);
    assert_eq!(&vm.memory()[0x400..0x403], &[1, 2, 3]);
    assert_eq!(vm.index(), 0x400);
    assert_eq!(vm.pc(), 0x206);
}

#[test]
fn store_digits_of_other_values() {
    let mut vm = Chip8::new();
    vm.execute(0xA400, 0);
    vm.execute(0x67FF, 0);
    vm.execute(0xF733, 0);
    assert_eq!(&vm.memory()[0x400..0x403], &[2, 5, 5]);
    vm.execute(0x6707, 0);
    vm.execute(0xF733, 0);
    assert_eq!(&vm.memory()[0x400..0x403], &[0, 0, 7]);
}

#[test]
fn store_digits_wraps_at_the_end_of_memory() {
    let mut vm = Chip8::new();
    vm.execute(0xAFFF, 0);
    vm.execute(0x6059, 0);
    vm.execute(0xF033, 0);
    assert_eq!(vm.memory()[0xFFF], 0);
    assert_eq!(vm.memory()[0], 8);
    assert_eq!(vm.memory()[1], 9);
}

#[test]
fn store_and_load_registers() {
    let mut vm = Chip8::new();
    vm.execute(0x6011, 0);
    vm.execute(0x6122, 0);
    vm.execute(0x6233, 0);
    vm.execute(0x6344, 0);
    vm.execute(0xA500, 0);
    vm.execute(0xF255, 0);
    assert_eq!(&vm.memory()[0x500..0x504], &[0x11, 0x22, 0x33, 0]);
    assert_eq!(vm.index(), 0x500);
    vm.execute(0x6000, 0);
    vm.execute(0x6100, 0);
    vm.execute(0x6200, 0);
    vm.execute(0xA4FF, 0);
    vm.execute(0xF365, 0);
    assert_eq!(&vm.registers()[0..5], &[0, 0x11, 0x22, 0x33, 0]);
    assert_eq!(vm.index(), 0x4FF);
}

#[test]
fn store_single_register() {
    let mut vm = Chip8::new();
    vm.execute(0x60AB, 0);
    vm.execute(0x61CD, 0);
    vm.execute(0xA600, 0);
    vm.execute(0xF055, 0);
    assert_eq!(&vm.memory()[0x600..0x602], &[0xAB, 0]);
}

#[test]
fn unknown_opcodes_are_reported_and_skipped() {
    let mut vm = Chip8::new();
    for (k, &opcode) in [0x0000u16, 0x0123, 0x5121, 0x8128, 0x812F, 0x9125, 0xE100, 0xF129, 0xF1FF]
        .iter()
        .enumerate()
    {
        assert_eq!(vm.execute(opcode, 0), Outcome::UnknownOpcode(opcode));
        assert_eq!(vm.pc() as usize, 0x202 + 2 * k);
    }
    assert!(vm.registers().iter().all(|&b| b == 0));
    assert_eq!(vm.fault(), None);
}

#[test]
fn program_counter_wraps_at_the_end_of_memory() {
    let mut vm = Chip8::new();
    vm.execute(0x1FFE, 0);
    assert_eq!(vm.pc(), 0xFFE);
    vm.execute(0x6001, 0);
    assert_eq!(vm.pc(), 0);
    vm.execute(0x1FFF, 0);
    assert_eq!(vm.fetch(), 0x00F0);
}

#[test]
fn set_key_ignores_numbers_past_fifteen() {
    let mut vm = Chip8::new();
    vm.set_key(16, true);
    vm.set_key(usize::MAX, true);
    assert!(vm.keys().iter().all(|&down| !down));
    vm.set_key(15, true);
    assert!(vm.keys()[15]);
    vm.set_key(15, false);
    assert!(!vm.keys()[15]);
}

#[test]
fn cycles_do_not_write_the_key_latch() {
    let mut vm = machine_with(&[0xF0, 0x0A, 0xE0, 0x9E, 0xE0, 0xA1, 0x00, 0xE0]);
    vm.set_key(0, true);
    vm.set_key(5, true);
    let keys = *vm.keys();
    run(&mut vm, 3);
    assert_eq!(*vm.keys(), keys);
}

#[test]
fn debug_render_of_a_blank_display() {
    let vm = Chip8::new();
    let text: String = vm.debug_render().into_iter().collect();
    let row = format!("{}\n\n", "0\n".repeat(64));
    assert_eq!(text, format!("{}\n\n", row.repeat(32)));
}

#[test]
fn debug_render_shows_lit_pixels_as_blanks() {
    let mut vm = Chip8::new();
    vm.execute(0xA000, 0);
    vm.execute(0xD001, 0);
    let text: String = vm.debug_render().into_iter().collect();
    let first_row = format!("{}{}\n\n", "  \n".repeat(4), "0\n".repeat(60));
    let blank_row = format!("{}\n\n", "0\n".repeat(64));
    assert_eq!(text, format!("{}{}\n\n", first_row, blank_row.repeat(31)));
}
