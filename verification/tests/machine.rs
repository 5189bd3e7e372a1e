use chip8::cpu::Cpu;
use chip8::cpu::PROGRAM_START;
use chip8::emulator::Emulator;
use chip8::fault::Fault;
use chip8::screen::Screen;
use chip8::screen::HEIGHT;
use chip8::screen::WIDTH;

fn machine(program: &[u8]) -> Emulator {
    let mut emulator = Emulator::new();
    emulator.write_game_to_ram(program.to_vec());
    emulator
}

fn run(emulator: &mut Emulator, steps: usize) {
    for _ in 0..steps {
        assert_eq!(emulator.run_instructions(), Ok(()));
    }
}

fn registers(emulator: &mut Emulator) -> [u8; 16] {
    let mut values = [0u8; 16];
    for index in 0..16u8 {
        values[index as usize] = emulator.cpu.read_vx_register(index);
    }
    values
}

fn lit_pixels(screen: &Screen) -> usize {
    let mut count = 0;
    for y in 0..HEIGHT {
        for x in 0..WIDTH {
            if screen.pixel(x, y) {
                count += 1;
            }
        }
    }
    count
}

#[test]
fn new_cpu_starts_at_the_program() {
    let mut cpu = Cpu::new();
    assert_eq!(PROGRAM_START, 0x200);
    assert_eq!(cpu.pc(), 0x200);
    assert_eq!(cpu.index(), 0);
    assert_eq!(cpu.stack_depth(), 0);
    for index in 0..16 {
        assert_eq!(cpu.read_vx_register(index), 0);
    }
}

#[test]
fn register_write_then_read() {
    let mut cpu = Cpu::new();
    cpu.write_vx_register(3, 0x7F);
    cpu.write_vx_register(15, 1);
    assert_eq!(cpu.read_vx_register(3), 0x7F);
    assert_eq!(cpu.read_vx_register(15), 1);
    assert_eq!(cpu.read_vx_register(2), 0);
    assert_eq!(cpu.pc(), 0x200);
}

#[test]
fn program_is_written_from_0x200() {
    let emulator = machine(&[0x12, 0x34, 0x56]);
    assert_eq!(emulator.bus.ram_read_byte(0x1FF), Ok(0));
    assert_eq!(emulator.bus.ram_read_byte(0x200), Ok(0x12));
    assert_eq!(emulator.bus.ram_read_byte(0x201), Ok(0x34));
    assert_eq!(emulator.bus.ram_read_byte(0x202), Ok(0x56));
    assert_eq!(emulator.bus.ram_read_byte(0x203), Ok(0));
    assert_eq!(emulator.cpu.pc(), 0x200);
}

#[test]
fn program_of_greatest_length_fills_memory_to_the_end() {
    let image = vec![0xEEu8; 3584];
    let mut emulator = Emulator::new();
    emulator.write_game_to_ram(image);
    assert_eq!(emulator.bus.ram_read_byte(0x1FF), Ok(0));
    assert_eq!(emulator.bus.ram_read_byte(0x200), Ok(0xEE));
    assert_eq!(emulator.bus.ram_read_byte(4095), Ok(0xEE));
}

#[test]
fn empty_program_leaves_memory_zeroed() {
    let emulator = machine(&[]);
    assert_eq!(emulator.bus.ram_read_byte(0x200), Ok(0));
}

#[test]
fn load_immediate_sets_only_its_register() {
    for x in 0..16u8 {
        let mut emulator = machine(&[0x60 | x, 0xAB]);
        run(&mut emulator, 1);
        let mut expected = [0u8; 16];
        expected[x as usize] = 0xAB;
        assert_eq!(registers(&mut emulator), expected);
        assert_eq!(emulator.cpu.pc(), 0x202);
        assert_eq!(emulator.cpu.index(), 0);
        assert_eq!(emulator.cpu.stack_depth(), 0);
    }
}

#[test]
fn add_immediate_wraps_and_leaves_flag() {
    let mut emulator = machine(&[0x63, 250, 0x73, 10]);
    emulator.cpu.write_vx_register(15, 0x5A);
    run(&mut emulator, 2);
    assert_eq!(emulator.cpu.read_vx_register(3), 4);
    assert_eq!(emulator.cpu.read_vx_register(15), 0x5A);
    assert_eq!(emulator.cpu.pc(), 0x204);
}

#[test]
fn add_immediate_without_wrap() {
    let mut emulator = machine(&[0x61, 7, 0x71, 8]);
    run(&mut emulator, 2);
    assert_eq!(emulator.cpu.read_vx_register(1), 15);
}

#[test]
fn add_registers_with_carry() {
    let mut emulator = machine(&[0x61, 200, 0x62, 100, 0x81, 0x24]);
    run(&mut emulator, 3);
    assert_eq!(emulator.cpu.read_vx_register(1), 44);
    assert_eq!(emulator.cpu.read_vx_register(2), 100);
    assert_eq!(emulator.cpu.read_vx_register(15), 1);
}

#[test]
fn add_registers_without_carry() {
    let mut emulator = machine(&[0x61, 10, 0x62, 20, 0x81, 0x24]);
    run(&mut emulator, 3);
    assert_eq!(emulator.cpu.read_vx_register(1), 30);
    assert_eq!(emulator.cpu.read_vx_register(15), 0);
}

#[test]
fn add_registers_without_carry_clears_flag() {
    let mut emulator = machine(&[0x61, 10, 0x62, 20, 0x81, 0x24]);
    emulator.cpu.write_vx_register(15, 1);
    run(&mut emulator, 3);
    assert_eq!(emulator.cpu.read_vx_register(1), 30);
    assert_eq!(emulator.cpu.read_vx_register(15), 0);
}

#[test]
fn add_registers_at_the_carry_boundary() {
    let mut emulator = machine(&[0x61, 255, 0x62, 0, 0x81, 0x24, 0x62, 1, 0x81, 0x24]);
    run(&mut emulator, 3);
    assert_eq!(emulator.cpu.read_vx_register(1), 255);
    assert_eq!(emulator.cpu.read_vx_register(15), 0);
    run(&mut emulator, 2);
    assert_eq!(emulator.cpu.read_vx_register(1), 0);
    assert_eq!(emulator.cpu.read_vx_register(15), 1);
}

#[test]
fn add_into_the_flag_register_keeps_the_flag() {
    let mut emulator = machine(&[0x6F, 200, 0x61, 100, 0x8F, 0x14]);
    run(&mut emulator, 3);
    assert_eq!(emulator.cpu.read_vx_register(15), 1);
    assert_eq!(emulator.cpu.read_vx_register(1), 100);
}

#[test]
fn subtract_without_borrow() {
    let mut emulator = machine(&[0x61, 30, 0x62, 10, 0x81, 0x25]);
    emulator.cpu.write_vx_register(15, 1);
    run(&mut emulator, 3);
    assert_eq!(emulator.cpu.read_vx_register(1), 20);
    assert_eq!(emulator.cpu.read_vx_register(15), 0);
}

#[test]
fn subtract_with_borrow_wraps() {
    let mut emulator = machine(&[0x61, 10, 0x62, 30, 0x81, 0x25]);
    run(&mut emulator, 3);
    assert_eq!(emulator.cpu.read_vx_register(1), 236);
    assert_eq!(emulator.cpu.read_vx_register(2), 30);
    assert_eq!(emulator.cpu.read_vx_register(15), 1);
}

#[test]
fn subtract_equal_values() {
    let mut emulator = machine(&[0x61, 200, 0x62, 200, 0x81, 0x25]);
    run(&mut emulator, 3);
    assert_eq!(emulator.cpu.read_vx_register(1), 0);
    assert_eq!(emulator.cpu.read_vx_register(15), 0);
}

#[test]
fn shift_takes_its_value_from_register_y() {
    let mut emulator = machine(&[0x61, 0xFF, 0x62, 0x07, 0x81, 0x26]);
    run(&mut emulator, 3);
    assert_eq!(emulator.cpu.read_vx_register(1), 3);
    assert_eq!(emulator.cpu.read_vx_register(2), 3);
    assert_eq!(emulator.cpu.read_vx_register(15), 1);
}

#[test]
fn shift_of_an_even_value_clears_flag() {
    let mut emulator = machine(&[0x62, 0x88, 0x81, 0x26]);
    emulator.cpu.write_vx_register(15, 1);
    run(&mut emulator, 2);
    assert_eq!(emulator.cpu.read_vx_register(1), 0x44);
    assert_eq!(emulator.cpu.read_vx_register(2), 0x44);
    assert_eq!(emulator.cpu.read_vx_register(15), 0);
}

#[test]
fn shift_into_the_flag_register_leaves_the_shifted_value() {
    let mut emulator = machine(&[0x62, 0x07, 0x8F, 0x26]);
    run(&mut emulator, 2);
    assert_eq!(emulator.cpu.read_vx_register(15), 3);
    assert_eq!(emulator.cpu.read_vx_register(2), 3);
}

#[test]
fn move_and_xor() {
    let mut emulator = machine(&[
        0x61, 0b1100, 0x62, 0b1010, 0x83, 0x10, 0x83, 0x22, 0x84, 0x10, 0x84, 0x23,
    ]);
    run(&mut emulator, 6);
    assert_eq!(emulator.cpu.read_vx_register(1), 0b1100);
    assert_eq!(emulator.cpu.read_vx_register(2), 0b1010);
    assert_eq!(emulator.cpu.read_vx_register(3), 0b1000);
    assert_eq!(emulator.cpu.read_vx_register(4), 0b0110);
    assert_eq!(emulator.cpu.read_vx_register(15), 0);
    assert_eq!(emulator.cpu.pc(), 0x20C);
}

#[test]
fn jump_sets_the_program_counter() {
    let mut emulator = machine(&[0x1A, 0xBC]);
    run(&mut emulator, 1);
    assert_eq!(emulator.cpu.pc(), 0xABC);
    assert_eq!(emulator.cpu.stack_depth(), 0);
}

#[test]
fn jump_to_address_zero() {
    let mut emulator = machine(&[0x10, 0x00]);
    run(&mut emulator, 1);
    assert_eq!(emulator.cpu.pc(), 0);
}

#[test]
fn call_then_return_continues_after_the_call() {
    let mut program = vec![0u8; 0x102];
    program[0] = 0x23;
    program[1] = 0x00;
    program[0x100] = 0x00;
    program[0x101] = 0xEE;
    let mut emulator = machine(&program);
    run(&mut emulator, 1);
    assert_eq!(emulator.cpu.pc(), 0x300);
    assert_eq!(emulator.cpu.stack_depth(), 1);
    run(&mut emulator, 1);
    assert_eq!(emulator.cpu.pc(), 0x202);
    assert_eq!(emulator.cpu.stack_depth(), 0);
}

#[test]
fn nested_calls_return_in_reverse_order() {
    let mut program = vec![0u8; 0x40];
    program[0x00..0x02].copy_from_slice(&[0x22, 0x10]);
    program[0x10..0x12].copy_from_slice(&[0x22, 0x20]);
    program[0x12..0x14].copy_from_slice(&[0x00, 0xEE]);
    program[0x20..0x22].copy_from_slice(&[0x00, 0xEE]);
    let mut emulator = machine(&program);
    run(&mut emulator, 2);
    assert_eq!(emulator.cpu.pc(), 0x220);
    assert_eq!(emulator.cpu.stack_depth(), 2);
    run(&mut emulator, 1);
    assert_eq!(emulator.cpu.pc(), 0x212);
    run(&mut emulator, 1);
    assert_eq!(emulator.cpu.pc(), 0x202);
    assert_eq!(emulator.cpu.stack_depth(), 0);
}

#[test]
fn return_with_empty_stack_underflows() {
    let mut emulator = machine(&[0x00, 0xEE]);
    assert_eq!(emulator.run_instructions(), Err(Fault::StackUnderflow));
    assert_eq!(emulator.cpu.pc(), 0x200);
    assert_eq!(emulator.cpu.stack_depth(), 0);
}

#[test]
fn seventeenth_nested_call_overflows() {
    let mut emulator = machine(&[0x22, 0x00]);
    run(&mut emulator, 16);
    assert_eq!(emulator.cpu.stack_depth(), 16);
    assert_eq!(emulator.run_instructions(), Err(Fault::StackOverflow));
    assert_eq!(emulator.cpu.stack_depth(), 16);
    assert_eq!(emulator.cpu.pc(), 0x200);
}

#[test]
fn unknown_opcode_reports_opcode_and_pc() {
    let mut emulator = machine(&[0x60, 0x01, 0xFF, 0xFF]);
    run(&mut emulator, 1);
    assert_eq!(
        emulator.run_instructions(),
        Err(Fault::UnknownOpcode { opcode: 0xFFFF, pc: 0x202 })
    );
    assert_eq!(emulator.cpu.pc(), 0x202);
    assert_eq!(emulator.cpu.read_vx_register(0), 1);
}

#[test]
fn zeroed_memory_is_an_unknown_opcode() {
    let mut emulator = machine(&[]);
    assert_eq!(
        emulator.run_instructions(),
        Err(Fault::UnknownOpcode { opcode: 0x0000, pc: 0x200 })
    );
}

#[test]
fn undefined_arithmetic_variant_is_unknown() {
    let mut emulator = machine(&[0x81, 0x27]);
    assert_eq!(
        emulator.run_instructions(),
        Err(Fault::UnknownOpcode { opcode: 0x8127, pc: 0x200 })
    );
}

#[test]
fn fetch_at_the_last_byte_is_out_of_bounds() {
    let mut emulator = machine(&[0x1F, 0xFF]);
    run(&mut emulator, 1);
    assert_eq!(emulator.cpu.pc(), 0xFFF);
    assert_eq!(emulator.run_instructions(), Err(Fault::OutOfBounds));
    assert_eq!(emulator.cpu.pc(), 0xFFF);
}

#[test]
fn running_off_the_end_of_memory_is_out_of_bounds() {
    let mut emulator = machine(&[0x1F, 0xFE]);
    assert_eq!(emulator.bus.ram_write_byte(0xFFE, 0x60), Ok(()));
    assert_eq!(emulator.bus.ram_write_byte(0xFFF, 0x09), Ok(()));
    run(&mut emulator, 2);
    assert_eq!(emulator.cpu.pc(), 0x1000);
    assert_eq!(emulator.cpu.read_vx_register(0), 9);
    assert_eq!(emulator.run_instructions(), Err(Fault::OutOfBounds));
    assert_eq!(emulator.cpu.pc(), 0x1000);
}

#[test]
fn skip_if_equal() {
    let mut emulator = machine(&[0x61, 0x42, 0x31, 0x42, 0x00, 0x00, 0x31, 0x43]);
    run(&mut emulator, 2);
    assert_eq!(emulator.cpu.pc(), 0x206);
    run(&mut emulator, 1);
    assert_eq!(emulator.cpu.pc(), 0x208);
}

#[test]
fn skip_if_key_pressed() {
    let mut emulator = machine(&[0x61, 0x05, 0xE1, 0x9E, 0xE1, 0x9E]);
    run(&mut emulator, 2);
    assert_eq!(emulator.cpu.pc(), 0x204);
    assert_eq!(emulator.bus.keyboard.set_pressed(5, true), Ok(()));
    run(&mut emulator, 1);
    assert_eq!(emulator.cpu.pc(), 0x208);
}

#[test]
fn skip_if_key_released() {
    let mut emulator = machine(&[0x61, 0x05, 0xE1, 0xA1, 0x00, 0x00, 0xE1, 0xA1]);
    run(&mut emulator, 2);
    assert_eq!(emulator.cpu.pc(), 0x206);
    assert_eq!(emulator.bus.keyboard.set_pressed(5, true), Ok(()));
    run(&mut emulator, 1);
    assert_eq!(emulator.cpu.pc(), 0x208);
}

#[test]
fn key_query_with_invalid_key_faults() {
    let mut emulator = machine(&[0x61, 0x10, 0xE1, 0x9E]);
    run(&mut emulator, 1);
    assert_eq!(emulator.run_instructions(), Err(Fault::InvalidKey));
    assert_eq!(emulator.cpu.pc(), 0x202);
    let mut other = machine(&[0x61, 0xFF, 0xE1, 0xA1]);
    run(&mut other, 1);
    assert_eq!(other.run_instructions(), Err(Fault::InvalidKey));
    assert_eq!(other.cpu.pc(), 0x202);
}

#[test]
fn timer_is_set_and_read_by_instructions() {
    let mut emulator = machine(&[0x61, 0x05, 0xF1, 0x15, 0xF2, 0x07]);
    run(&mut emulator, 2);
    assert_eq!(emulator.bus.get_delay_timer(), 5);
    emulator.bus.tick();
    emulator.bus.tick();
    run(&mut emulator, 1);
    assert_eq!(emulator.cpu.read_vx_register(2), 3);
    assert_eq!(emulator.bus.get_delay_timer(), 3);
}

#[test]
fn steps_do_not_tick_the_timer() {
    let mut emulator = machine(&[0x61, 0x05, 0xF1, 0x15, 0x61, 0x00, 0x61, 0x01]);
    run(&mut emulator, 4);
    assert_eq!(emulator.bus.get_delay_timer(), 5);
}

#[test]
fn load_index_and_add_to_index() {
    let mut emulator = machine(&[0xAF, 0xFF, 0x61, 0x02, 0xF1, 0x1E]);
    run(&mut emulator, 1);
    assert_eq!(emulator.cpu.index(), 0xFFF);
    run(&mut emulator, 2);
    assert_eq!(emulator.cpu.index(), 0x1001);
    assert_eq!(emulator.cpu.read_vx_register(15), 0);
}

#[test]
fn add_to_index_wraps_at_sixteen_bits() {
    let mut program = vec![0x60, 0xFF];
    for _ in 0..257 {
        program.extend_from_slice(&[0xF0, 0x1E]);
    }
    program.extend_from_slice(&[0x60, 0x01, 0xF0, 0x1E]);
    let mut emulator = machine(&program);
    run(&mut emulator, 258);
    assert_eq!(emulator.cpu.index(), 0xFFFF);
    run(&mut emulator, 2);
    assert_eq!(emulator.cpu.index(), 0);
}

#[test]
fn load_registers_from_memory() {
    let mut emulator = machine(&[0xA2, 0x06, 0x65, 0x77, 0xF3, 0x65, 1, 2, 3, 4, 5]);
    run(&mut emulator, 3);
    let values = registers(&mut emulator);
    assert_eq!(&values[0..7], &[1, 2, 3, 4, 0, 0x77, 0]);
    assert_eq!(emulator.cpu.index(), 0x206);
    assert_eq!(emulator.cpu.pc(), 0x206);
}

#[test]
fn load_only_register_zero() {
    let mut emulator = machine(&[0xA2, 0x04, 0xF0, 0x65, 9, 8]);
    run(&mut emulator, 2);
    assert_eq!(emulator.cpu.read_vx_register(0), 9);
    assert_eq!(emulator.cpu.read_vx_register(1), 0);
}

#[test]
fn load_registers_up_to_the_last_byte() {
    let mut emulator = machine(&[0xAF, 0xFE, 0xF1, 0x65]);
    assert_eq!(emulator.bus.ram_write_byte(0xFFE, 0x11), Ok(()));
    assert_eq!(emulator.bus.ram_write_byte(0xFFF, 0x22), Ok(()));
    run(&mut emulator, 2);
    assert_eq!(emulator.cpu.read_vx_register(0), 0x11);
    assert_eq!(emulator.cpu.read_vx_register(1), 0x22);
}

#[test]
fn load_registers_beyond_memory_changes_nothing() {
    let mut emulator = machine(&[0xAF, 0xFE, 0xF2, 0x65]);
    assert_eq!(emulator.bus.ram_write_byte(0xFFE, 0x11), Ok(()));
    run(&mut emulator, 1);
    assert_eq!(emulator.run_instructions(), Err(Fault::OutOfBounds));
    assert_eq!(registers(&mut emulator), [0u8; 16]);
    assert_eq!(emulator.cpu.pc(), 0x202);
}

#[test]
fn draw_instruction_uses_register_values_as_coordinates() {
    let mut emulator = machine(&[0x61, 10, 0x62, 5, 0xA2, 0x08, 0xD1, 0x22, 0xFF, 0x81]);
    emulator.cpu.write_vx_register(15, 7);
    run(&mut emulator, 4);
    assert_eq!(lit_pixels(&emulator.bus.screen), 10);
    for x in 10..18 {
        assert!(emulator.bus.screen.pixel(x, 5));
    }
    assert!(emulator.bus.screen.pixel(10, 6));
    assert!(emulator.bus.screen.pixel(17, 6));
    assert_eq!(emulator.cpu.read_vx_register(15), 0);
    assert_eq!(emulator.cpu.pc(), 0x208);
}

#[test]
fn draw_instruction_twice_sets_flag_and_erases() {
    let mut emulator = machine(&[0xA2, 0x06, 0xD0, 0x01, 0xD0, 0x01, 0xFF]);
    run(&mut emulator, 2);
    assert_eq!(lit_pixels(&emulator.bus.screen), 8);
    assert_eq!(emulator.cpu.read_vx_register(15), 0);
    run(&mut emulator, 1);
    assert_eq!(lit_pixels(&emulator.bus.screen), 0);
    assert_eq!(emulator.cpu.read_vx_register(15), 1);
}

#[test]
fn draw_without_rows_clears_flag_only() {
    let mut emulator = machine(&[0x61, 200, 0xD1, 0x10]);
    emulator.cpu.write_vx_register(15, 1);
    run(&mut emulator, 2);
    assert_eq!(lit_pixels(&emulator.bus.screen), 0);
    assert_eq!(emulator.cpu.read_vx_register(15), 0);
    assert_eq!(emulator.cpu.pc(), 0x204);
}

#[test]
fn draw_beyond_the_right_edge_faults_and_draws_nothing() {
    let mut emulator = machine(&[0x61, 57, 0xA2, 0x06, 0xD1, 0x21, 0xFF]);
    emulator.cpu.write_vx_register(15, 1);
    run(&mut emulator, 2);
    assert_eq!(emulator.run_instructions(), Err(Fault::OutOfBounds));
    assert_eq!(lit_pixels(&emulator.bus.screen), 0);
    assert_eq!(emulator.cpu.read_vx_register(15), 1);
    assert_eq!(emulator.cpu.pc(), 0x204);
}

#[test]
fn draw_beyond_the_bottom_edge_faults_and_draws_nothing() {
    let mut emulator = machine(&[0x62, 31, 0xA2, 0x06, 0xD1, 0x22, 0xFF, 0xFF]);
    run(&mut emulator, 2);
    assert_eq!(emulator.run_instructions(), Err(Fault::OutOfBounds));
    assert_eq!(lit_pixels(&emulator.bus.screen), 0);
    assert_eq!(emulator.cpu.pc(), 0x204);
}

#[test]
fn draw_at_the_bottom_right_corner() {
    let mut emulator = machine(&[0x61, 56, 0x62, 30, 0xA2, 0x08, 0xD1, 0x22, 0xFF, 0xFF]);
    run(&mut emulator, 4);
    assert_eq!(lit_pixels(&emulator.bus.screen), 16);
    assert!(emulator.bus.screen.pixel(63, 31));
}

#[test]
fn draw_sprite_beyond_memory_faults_and_draws_nothing() {
    let mut emulator = machine(&[0xAF, 0xFF, 0xD0, 0x02]);
    assert_eq!(emulator.bus.ram_write_byte(0xFFF, 0xFF), Ok(()));
    run(&mut emulator, 1);
    assert_eq!(emulator.run_instructions(), Err(Fault::OutOfBounds));
    assert_eq!(lit_pixels(&emulator.bus.screen), 0);
    assert_eq!(emulator.cpu.pc(), 0x202);
}

#[test]
fn draw_sprite_from_the_last_byte_of_memory() {
    let mut emulator = machine(&[0xAF, 0xFF, 0xD0, 0x01]);
    assert_eq!(emulator.bus.ram_write_byte(0xFFF, 0xC0), Ok(()));
    run(&mut emulator, 2);
    assert_eq!(lit_pixels(&emulator.bus.screen), 2);
    assert!(emulator.bus.screen.pixel(0, 0));
    assert!(emulator.bus.screen.pixel(1, 0));
}

#[test]
fn clear_screen_instruction() {
    let mut emulator = machine(&[0xA2, 0x06, 0xD0, 0x01, 0x00, 0xE0, 0xFF]);
    run(&mut emulator, 2);
    assert_eq!(lit_pixels(&emulator.bus.screen), 8);
    run(&mut emulator, 1);
    assert_eq!(lit_pixels(&emulator.bus.screen), 0);
    assert_eq!(emulator.cpu.pc(), 0x206);
}

#[test]
fn cpu_runs_on_a_bus_of_its_own() {
    let mut cpu = Cpu::new();
    let mut bus = chip8::bus::Bus::new();
    assert_eq!(bus.ram_write_byte(0x200, 0x6C), Ok(()));
    assert_eq!(bus.ram_write_byte(0x201, 0x3D), Ok(()));
    assert_eq!(cpu.run_instructions(&mut bus), Ok(()));
    assert_eq!(cpu.read_vx_register(0xC), 0x3D);
    assert_eq!(cpu.pc(), 0x202);
}
