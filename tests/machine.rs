use ahoy::frame::AhoyFrame;
use ahoy::instructions::AhoyInstruction;
use ahoy::Ahoy;

/// Column `x` of the screen as a mask: bit `y` is pixel `(x, y)`.
fn column_mask(frame: &AhoyFrame, x: usize) -> u32 {
    let mut mask = 0_u32;
    for y in 0..32 {
        if frame.pixel(x, y) {
            mask |= 1 << y;
        }
    }
    mask
}

fn all_columns(frame: &AhoyFrame) -> Vec<u32> {
    (0..64).map(|x| column_mask(frame, x)).collect()
}

/// A screen whose column `x` is `mask` (bit `y` is pixel `(x, y)`).
fn frame_with_column(x: usize, mask: u32) -> AhoyFrame {
    let mut frame = AhoyFrame::new();
    for y in 0..32 {
        if (mask >> y) & 1 == 1 {
            frame.set_pixel(x, y, true);
        }
    }
    frame
}

fn set_register(ahoy: &mut Ahoy, register: usize, value: u8) {
    ahoy.execute(AhoyInstruction::SetRegister(register, value))
        .unwrap();
}

fn display(x_register: usize, y_register: usize, sprite_height: u8) -> AhoyInstruction {
    AhoyInstruction::Display {
        x_register,
        y_register,
        sprite_height,
    }
}

#[test]
fn load_normal_program() {
    let mut ahoy = Ahoy::default();
    let program = [
        0x01_u8, 0x02, 0x03, 0x04, 0x05, 0x06, 0x07, 0x08, 0x09, 0x0A,
    ];

    ahoy.load(&program).unwrap();

    assert_eq!(ahoy.memory_at(0x200), 0x01);
    assert_eq!(ahoy.memory_at(0x201), 0x02);
    assert_eq!(ahoy.memory_at(0x202), 0x03);
    assert_eq!(ahoy.memory_at(0x203), 0x04);
    assert_eq!(ahoy.memory_at(0x204), 0x05);
    assert_eq!(ahoy.memory_at(0x205), 0x06);
    assert_eq!(ahoy.memory_at(0x206), 0x07);
    assert_eq!(ahoy.memory_at(0x207), 0x08);
    assert_eq!(ahoy.memory_at(0x208), 0x09);
    assert_eq!(ahoy.memory_at(0x209), 0x0A);
}

#[test]
fn load_returns_error_for_empty_file() {
    let mut ahoy = Ahoy::default();
    let program: [u8; 0] = [];

    ahoy.load(&program)
        .expect_err("Expected empty program to raise error");
}

#[test]
fn load_returns_error_for_larger_than_buffer_file() {
    let mut ahoy = Ahoy::default();
    let program = [1u8; 4096];

    ahoy.load(&program)
        .expect_err("Expected large program to raise error");
}

#[test]
fn fetch_increments_program_counter_by_two() {
    let mut ahoy = Ahoy::default();

    ahoy.fetch();
    assert_eq!(ahoy.counter(), 2_usize);

    ahoy.fetch();
    assert_eq!(ahoy.counter(), 4_usize);
}

#[test]
fn fetch_loops_back_program_counter_to_zero_when_overflowing_12bits() {
    let mut ahoy = Ahoy::default();
    ahoy.execute(AhoyInstruction::Jump(4094)).unwrap();

    ahoy.fetch();
    assert_eq!(ahoy.counter(), 0);

    ahoy.fetch();
    assert_eq!(ahoy.counter(), 2);
}

#[test]
fn fetch_retrieves_expected_bytes_from_memory_beginning() {
    let mut ahoy = Ahoy::default();
    ahoy.write_memory(0, &[0xF0, 0x0F]);

    let expected_instruction = 0xF00F;

    let actual_instruction = ahoy.fetch();
    assert_eq!(expected_instruction, actual_instruction);
}

#[test]
fn fetch_retrieves_expected_bytes_from_arbitrary_position() {
    let mut ahoy = Ahoy::default();
    ahoy.execute(AhoyInstruction::Jump(0x6F)).unwrap();
    ahoy.write_memory(0x6F, &[0xAB, 0xBC, 0xCD, 0xDE]);

    let expected_instruction = 0xABBC;
    let actual_instruction = ahoy.fetch();

    assert_eq!(expected_instruction, actual_instruction);
}

#[test]
fn instruction_clear_screen_sets_frame_to_zeroes() {
    let mut ahoy = Ahoy::default();
    let mut frame = AhoyFrame::new();
    for x in 0..64 {
        frame.set_pixel(x, 0, true);
    }
    ahoy.set_frame(frame);
    ahoy.execute(AhoyInstruction::ClearScreen).unwrap();

    assert_eq!(all_columns(ahoy.frame()), vec![0_u32; 64]);
}

#[test]
fn instruction_jump_updates_the_pc_value() {
    let mut ahoy = Ahoy::default();

    ahoy.execute(AhoyInstruction::Jump(0x0DAD)).unwrap();

    assert_eq!(ahoy.counter(), 0x0DAD);
}

#[test]
fn instruction_set_register_value_updates_value() {
    let mut ahoy = Ahoy::default();

    ahoy.execute(AhoyInstruction::SetRegister(0xA, 0xFE))
        .unwrap();
    ahoy.execute(AhoyInstruction::SetRegister(0xD, 0xE0))
        .unwrap();

    assert_eq!(ahoy.register(0xA), 0xFE);

    assert_eq!(ahoy.register(0xD), 0xE0);
}

#[test]
fn instruction_add_value_to_register() {
    let mut ahoy = Ahoy::default();
    set_register(&mut ahoy, 0xA, 0x01);
    set_register(&mut ahoy, 0xD, 0x10);

    ahoy.execute(AhoyInstruction::AddToRegister(0xA, 0xFE))
        .unwrap();
    ahoy.execute(AhoyInstruction::AddToRegister(0xD, 0xE0))
        .unwrap();

    assert_eq!(ahoy.register(0xA), 0xFF);
    assert_eq!(ahoy.register(0xD), 0xF0);
}

#[test]
fn instruction_register_wraps_around_when_adding_value() {
    let mut ahoy = Ahoy::default();
    set_register(&mut ahoy, 0xA, 0xFF);
    set_register(&mut ahoy, 0xD, 0xFF);

    ahoy.execute(AhoyInstruction::AddToRegister(0xA, 0xAB))
        .unwrap();
    ahoy.execute(AhoyInstruction::AddToRegister(0xD, 0xDE))
        .unwrap();

    assert_eq!(ahoy.register(0xA), 0xAA);
    assert_eq!(ahoy.register(0xD), 0xDD);
}

// A sprite byte of 1 lights only its rightmost column, column 7 when the
// sprite starts at column 0; the drawing tests read that column.

#[test]
fn instruction_drawing_sets_value_on_empty_frame() {
    let mut ahoy = Ahoy::default();
    ahoy.write_memory(0, &[1; 32]);

    ahoy.execute(display(0, 0, 15)).unwrap();

    let columns = all_columns(ahoy.frame());
    assert_eq!(columns[7], 32_767);
    assert!(columns
        .iter()
        .enumerate()
        .all(|(x, column)| x == 7 || *column == 0));
}

#[test]
fn instruction_drawing_sets_arbitraty_sprite_on_empty_frame() {
    let mut ahoy = Ahoy::default();
    ahoy.write_memory(
        0,
        &[
            0, 0, 0, 0, 0, 0, 0, 0, 0, 0, 0, 0, 0, 0, 0, 0, 0, 0, 0, 0, 0, 1, 0, 1, 0, 0, 1, 1, 1,
            0, 0, 1,
        ],
    );
    ahoy.execute(AhoyInstruction::SetIndex(17)).unwrap();

    ahoy.execute(display(0, 0, 15)).unwrap();

    // sprite rows 4, 6, 9, 10, 11 and 14 are 1
    assert_eq!(column_mask(ahoy.frame(), 7), 20_048);
}

#[test]
fn instruction_drawing_treats_sprite_zero_bits_as_transparent() {
    let mut ahoy = Ahoy::default();
    ahoy.write_memory(0, &[1, 0, 0, 1]);
    ahoy.set_frame(frame_with_column(7, 0b0110));

    ahoy.execute(display(0, 0, 4)).unwrap();

    assert_eq!(column_mask(ahoy.frame(), 7), 15);
}

#[test]
fn instruction_drawing_considers_y_for_offset() {
    let mut ahoy = Ahoy::default();
    ahoy.write_memory(0, &[1, 0, 0, 1]);
    ahoy.set_frame(frame_with_column(7, 0b10010110));
    set_register(&mut ahoy, 0xA, 4);

    ahoy.execute(display(0, 0xA, 4)).unwrap();

    assert_eq!(column_mask(ahoy.frame(), 7), 6);
}

#[test]
fn instruction_drawing_sets_the_flag_register_when_a_bit_turned_off() {
    let mut ahoy = Ahoy::default();
    ahoy.write_memory(0, &[1, 0, 0, 1]);
    ahoy.set_frame(frame_with_column(7, 0b10010110));
    set_register(&mut ahoy, 0xA, 4);

    ahoy.execute(display(0, 0xA, 4)).unwrap();

    assert_eq!(ahoy.register(0xF), 1);
}

#[test]
fn instruction_drawing_unsets_the_flag_register_when_a_bits_were_only_turned_on() {
    let mut ahoy = Ahoy::default();
    ahoy.write_memory(0, &[1; 32]);

    ahoy.execute(display(0, 0, 15)).unwrap();
    assert_eq!(ahoy.register(0xF), 0);
}
