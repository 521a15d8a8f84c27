use rastervm::error::Error;
use rastervm::instruction::{Instruction, Register};
use rastervm::memory::RasterMemory;
use rastervm::vm::{run_program, Control, Status, Vm};
use rastervm::word::from_address;

fn reg(value: usize) -> Register {
    Register { deref: false, value }
}

fn dreg(value: usize) -> Register {
    Register { deref: true, value }
}

fn grid(width: u32, height: u32, cells: Vec<u32>) -> RasterMemory {
    RasterMemory::new(width, height, cells).unwrap()
}

fn vm_with(width: u32, height: u32, cells: Vec<u32>) -> Vm {
    Vm::new(grid(width, height, cells), None).unwrap()
}

const HALT: u32 = 26 << 18;

#[test]
fn move_copies_and_is_idempotent() {
    let mut vm = vm_with(1, 1, vec![HALT]);
    vm.registers.write(1, 0x123456).unwrap();
    let mv = Instruction::Move(reg(0), reg(1));
    assert_eq!(vm.execute_instruction(mv), Ok(Control::Advance));
    assert_eq!(vm.registers.read(0), Ok(0x123456));
    assert_eq!(vm.registers.read(1), Ok(0x123456));
    // Repeating the move changes nothing.
    assert_eq!(vm.execute_instruction(mv), Ok(Control::Advance));
    assert_eq!(vm.registers.read(0), Ok(0x123456));
    assert_eq!(vm.registers.read(1), Ok(0x123456));
}

#[test]
fn add_wraps_to_24_bits() {
    let mut vm = vm_with(1, 1, vec![HALT]);
    vm.registers.write(1, 0xFFFFFF).unwrap();
    vm.registers.write(2, 2).unwrap();
    let add = Instruction::Add(reg(0), reg(1), reg(2));
    assert_eq!(vm.execute_instruction(add), Ok(Control::Advance));
    assert_eq!(vm.registers.read(0), Ok(1));
}

#[test]
fn subtract_multiply_divide_modulo() {
    let mut vm = vm_with(1, 1, vec![HALT]);
    vm.registers.write(1, 1).unwrap();
    vm.registers.write(2, 2).unwrap();
    vm.execute_instruction(Instruction::Subtract(reg(0), reg(1), reg(2))).unwrap();
    assert_eq!(vm.registers.read(0), Ok(0xFFFFFF));
    vm.registers.write(1, 0x1000).unwrap();
    vm.registers.write(2, 0x1000).unwrap();
    vm.execute_instruction(Instruction::Multiply(reg(0), reg(1), reg(2))).unwrap();
    assert_eq!(vm.registers.read(0), Ok(0));
    vm.registers.write(1, 17).unwrap();
    vm.registers.write(2, 5).unwrap();
    vm.execute_instruction(Instruction::Divide(reg(0), reg(1), reg(2))).unwrap();
    assert_eq!(vm.registers.read(0), Ok(3));
    vm.execute_instruction(Instruction::Modulo(reg(0), reg(1), reg(2))).unwrap();
    assert_eq!(vm.registers.read(0), Ok(2));
}

#[test]
fn bitwise_and_or_and_comparisons() {
    let mut vm = vm_with(1, 1, vec![HALT]);
    vm.registers.write(1, 0b1100).unwrap();
    vm.registers.write(2, 0b1010).unwrap();
    vm.execute_instruction(Instruction::And(reg(0), reg(1), reg(2))).unwrap();
    assert_eq!(vm.registers.read(0), Ok(0b1000));
    vm.execute_instruction(Instruction::Or(reg(0), reg(1), reg(2))).unwrap();
    assert_eq!(vm.registers.read(0), Ok(0b1110));
    vm.execute_instruction(Instruction::Equal(reg(0), reg(1), reg(2))).unwrap();
    assert_eq!(vm.registers.read(0), Ok(0));
    vm.execute_instruction(Instruction::NotEqual(reg(0), reg(1), reg(2))).unwrap();
    assert_eq!(vm.registers.read(0), Ok(1));
    vm.execute_instruction(Instruction::GreaterThan(reg(0), reg(1), reg(2))).unwrap();
    assert_eq!(vm.registers.read(0), Ok(1));
    vm.execute_instruction(Instruction::LessThan(reg(0), reg(1), reg(2))).unwrap();
    assert_eq!(vm.registers.read(0), Ok(0));
    vm.execute_instruction(Instruction::GreaterThanEqual(reg(0), reg(1), reg(1))).unwrap();
    assert_eq!(vm.registers.read(0), Ok(1));
    vm.execute_instruction(Instruction::LessThanEqual(reg(0), reg(2), reg(1))).unwrap();
    assert_eq!(vm.registers.read(0), Ok(1));
}

#[test]
fn divide_by_zero_faults_and_preserves_state() {
    let mut vm = vm_with(1, 1, vec![HALT]);
    vm.registers.write(1, 5).unwrap();
    vm.registers.write(2, 0).unwrap();
    vm.registers.write(3, 99).unwrap();
    assert_eq!(
        vm.execute_instruction(Instruction::Divide(reg(3), reg(1), reg(2))),
        Err(Error::ArithmeticFault)
    );
    assert_eq!(vm.registers.read(3), Ok(99));
    assert_eq!(
        vm.execute_instruction(Instruction::Modulo(reg(3), reg(1), reg(2))),
        Err(Error::ArithmeticFault)
    );
    assert_eq!(vm.registers.read(3), Ok(99));
}

#[test]
fn load_low_and_high_replace_12_bit_halves() {
    let mut vm = vm_with(1, 1, vec![HALT]);
    vm.execute_instruction(Instruction::LoadLow(reg(0), 42)).unwrap();
    assert_eq!(vm.registers.read(0), Ok(42));
    vm.execute_instruction(Instruction::LoadHigh(reg(0), 5)).unwrap();
    assert_eq!(vm.registers.read(0), Ok(5 * 4096 + 42));
    vm.execute_instruction(Instruction::LoadLow(reg(0), 7)).unwrap();
    assert_eq!(vm.registers.read(0), Ok(5 * 4096 + 7));
}

#[test]
fn return_on_empty_stack_underflows() {
    let mut vm = vm_with(1, 1, vec![HALT]);
    assert_eq!(
        vm.execute_instruction(Instruction::Return),
        Err(Error::StackUnderflow)
    );
}

#[test]
fn pop_on_empty_stack_underflows() {
    let mut vm = vm_with(1, 1, vec![HALT]);
    assert_eq!(
        vm.execute_instruction(Instruction::Pop(reg(0))),
        Err(Error::StackUnderflow)
    );
}

#[test]
fn push_then_pop_round_trips() {
    let mut vm = vm_with(1, 1, vec![HALT]);
    vm.registers.write(0, 7).unwrap();
    vm.execute_instruction(Instruction::Push(reg(0))).unwrap();
    vm.execute_instruction(Instruction::Pop(reg(1))).unwrap();
    assert_eq!(vm.registers.read(1), Ok(7));
}

#[test]
fn call_then_return_restores_following_position() {
    // A call at (0, 0) targeting the Return at (2, 0) resumes at (1, 0).
    let call = (19 << 18) | (0 << 12);  // Call, target register 0
    let ret = 23 << 18;
    let mut vm = vm_with(3, 1, vec![call, HALT, ret]);
    vm.registers.write(0, from_address(2, 0)).unwrap();
    assert_eq!(vm.step(), Ok(Status::Running));
    assert_eq!(vm.registers.read_ip(), (2, 0));
    assert_eq!(vm.stack, vec![from_address(1, 0)]);
    assert_eq!(vm.step(), Ok(Status::Running));
    assert_eq!(vm.registers.read_ip(), (1, 0));
    assert!(vm.stack.is_empty());
    // The word following the call is the Halt.
    assert_eq!(vm.step(), Ok(Status::Halted));
}

#[test]
fn pointer_advances_in_raster_order() {
    // Four benign words: the pointer walks (0,0) (1,0) (0,1) (1,1), then
    // the fetch past the last row halts without error.
    let mut vm = vm_with(2, 2, vec![0, 0, 0, 0]);
    assert_eq!(vm.registers.read_ip(), (0, 0));
    assert_eq!(vm.step(), Ok(Status::Running));
    assert_eq!(vm.registers.read_ip(), (1, 0));
    assert_eq!(vm.step(), Ok(Status::Running));
    assert_eq!(vm.registers.read_ip(), (0, 1));
    assert_eq!(vm.step(), Ok(Status::Running));
    assert_eq!(vm.registers.read_ip(), (1, 1));
    assert_eq!(vm.step(), Ok(Status::Running));
    assert_eq!(vm.registers.read_ip(), (0, 2));
    assert_eq!(vm.step(), Ok(Status::Halted));
}

#[test]
fn invalid_register_faults() {
    let mut vm = vm_with(1, 1, vec![HALT]);
    assert_eq!(
        vm.execute_instruction(Instruction::Move(reg(40), reg(0))),
        Err(Error::InvalidRegister)
    );
    assert_eq!(vm.registers.read(40), Err(Error::InvalidRegister));
}

#[test]
fn dereference_out_of_bounds_faults() {
    let mut vm = vm_with(1, 1, vec![HALT]);
    vm.registers.write(0, from_address(5, 5)).unwrap();
    assert_eq!(
        vm.execute_instruction(Instruction::Move(reg(1), dreg(0))),
        Err(Error::AddressOutOfBounds)
    );
}

#[test]
fn dereference_reads_and_writes_program_cells() {
    let mut vm = vm_with(2, 1, vec![0x111111, 0x222222]);
    vm.registers.write(0, from_address(1, 0)).unwrap();
    // Read the cell at (1, 0) through register 0.
    vm.execute_instruction(Instruction::Move(reg(1), dreg(0))).unwrap();
    assert_eq!(vm.registers.read(1), Ok(0x222222));
    // Write register 2 into the cell at (1, 0): self-modifying by design.
    vm.registers.write(2, 0xABCDEF).unwrap();
    vm.execute_instruction(Instruction::Move(dreg(0), reg(2))).unwrap();
    assert_eq!(vm.program.get(1, 0), Ok(0xABCDEF));
}

#[test]
fn jump_if_taken_and_untaken() {
    let jmp_word = from_address(0, 1);
    let mut vm = vm_with(2, 2, vec![0, 0, HALT, HALT]);
    vm.registers.write(0, 0).unwrap();
    vm.registers.write(1, jmp_word).unwrap();
    // Condition zero: falls through to the raster advance.
    assert_eq!(
        vm.execute_instruction(Instruction::JumpIf(reg(0), reg(1))),
        Ok(Control::Advance)
    );
    // Condition nonzero: control moves to the target.
    vm.registers.write(0, 3).unwrap();
    assert_eq!(
        vm.execute_instruction(Instruction::JumpIf(reg(0), reg(1))),
        Ok(Control::Redirect)
    );
    assert_eq!(vm.registers.read_ip(), (0, 1));
}

#[test]
fn jump_target_out_of_bounds_faults() {
    let mut vm = vm_with(1, 1, vec![HALT]);
    vm.registers.write(0, from_address(9, 9)).unwrap();
    assert_eq!(
        vm.execute_instruction(Instruction::Jump(reg(0))),
        Err(Error::AddressOutOfBounds)
    );
}

#[test]
fn curr_address_stores_pointer_word() {
    let mut vm = vm_with(2, 2, vec![0, 0, 0, 0]);
    vm.registers.write_ip(1, 1);
    vm.execute_instruction(Instruction::CurrAddress(reg(0))).unwrap();
    assert_eq!(vm.registers.read(0), Ok(from_address(1, 1)));
}

#[test]
fn alloc_reserves_output_cells() {
    let mut vm = vm_with(2, 2, vec![0, 0, 0, 0]);
    assert!(vm.output.is_none());
    vm.registers.write(0, 3).unwrap();
    vm.execute_instruction(Instruction::Alloc(reg(0), reg(1))).unwrap();
    // The output grid appears, shaped like the program grid, zero-filled.
    let out = vm.output.as_ref().unwrap();
    assert_eq!((out.width(), out.height()), (2, 2));
    assert_eq!(out.get(0, 0), Ok(0));
    // The base of the first reservation is raster index 0: address (0, 0).
    assert_eq!(vm.registers.read(1), Ok(from_address(0, 0)));
    // A second reservation starts right after: index 3 is (1, 1).
    vm.registers.write(0, 1).unwrap();
    vm.execute_instruction(Instruction::Alloc(reg(0), reg(1))).unwrap();
    assert_eq!(vm.registers.read(1), Ok(from_address(1, 1)));
    // The output is full now.
    assert_eq!(
        vm.execute_instruction(Instruction::Alloc(reg(0), reg(1))),
        Err(Error::AddressOutOfBounds)
    );
}

#[test]
fn memcopy_copies_within_program() {
    let mut vm = vm_with(3, 1, vec![0xAAAAAA, 0xBBBBBB, 0xCCCCCC]);
    vm.registers.write(0, from_address(2, 0)).unwrap();  // destination
    vm.registers.write(1, from_address(0, 0)).unwrap();  // source
    vm.registers.write(2, 1).unwrap();  // length
    vm.execute_instruction(Instruction::MemCopy(reg(0), reg(1), reg(2))).unwrap();
    assert_eq!(vm.program.get(2, 0), Ok(0xAAAAAA));
    assert_eq!(vm.program.get(0, 0), Ok(0xAAAAAA));
    // A range that runs off the grid faults.
    vm.registers.write(2, 4).unwrap();
    assert_eq!(
        vm.execute_instruction(Instruction::MemCopy(reg(0), reg(1), reg(2))),
        Err(Error::AddressOutOfBounds)
    );
}

#[test]
fn memcopy_overlapping_ranges_read_a_snapshot() {
    // Copying two cells one step to the right within [A, B, C] must read
    // the source as it stood before the copy: [A, A, B], not [A, A, A].
    let mut vm = vm_with(3, 1, vec![0xA, 0xB, 0xC]);
    vm.registers.write(0, from_address(1, 0)).unwrap();
    vm.registers.write(1, from_address(0, 0)).unwrap();
    vm.registers.write(2, 2).unwrap();
    vm.execute_instruction(Instruction::MemCopy(reg(0), reg(1), reg(2))).unwrap();
    assert_eq!(vm.program.get(0, 0), Ok(0xA));
    assert_eq!(vm.program.get(1, 0), Ok(0xA));
    assert_eq!(vm.program.get(2, 0), Ok(0xB));
}

#[test]
fn call_at_row_end_pushes_next_row_start() {
    // A call in the last column pushes column 0 of the next row.
    let call = (19 << 18) | (0 << 12);
    let mut vm = vm_with(2, 2, vec![HALT, call, HALT, HALT]);
    vm.registers.write(0, from_address(0, 0)).unwrap();
    vm.registers.write_ip(1, 0);
    assert_eq!(vm.step(), Ok(Status::Running));
    assert_eq!(vm.registers.read_ip(), (0, 0));
    assert_eq!(vm.stack, vec![from_address(0, 1)]);
}

#[test]
fn oversized_program_is_rejected_before_running() {
    let cells = vec![0u32; 5000 * 10];
    let wide = RasterMemory::new(5000, 10, cells).unwrap();
    assert_eq!(
        run_program(wide, None, 1000).map(|_| ()),
        Err(Error::OversizedImage)
    );
}

#[test]
fn oversized_input_is_rejected_before_running() {
    let program = grid(1, 1, vec![HALT]);
    let input = RasterMemory::new(10, 4097, vec![0u32; 40970]).unwrap();
    assert_eq!(
        run_program(program, Some(input), 1000).map(|_| ()),
        Err(Error::OversizedImage)
    );
}

#[test]
fn non_halting_program_exhausts_step_budget() {
    // A Jump through register 0, which holds (0, 0): a tight loop forever.
    let jump = 20 << 18;
    let program = grid(1, 1, vec![jump]);
    assert_eq!(
        run_program(program, None, 100).map(|_| ()),
        Err(Error::StepLimitExceeded)
    );
}

#[test]
fn call_if_taken_and_untaken() {
    let mut vm = vm_with(2, 2, vec![0, 0, HALT, HALT]);
    vm.registers.write(0, 0).unwrap();
    vm.registers.write(1, from_address(1, 1)).unwrap();
    assert_eq!(
        vm.execute_instruction(Instruction::CallIf(reg(0), reg(1))),
        Ok(Control::Advance)
    );
    assert!(vm.stack.is_empty());
    vm.registers.write(0, 1).unwrap();
    assert_eq!(
        vm.execute_instruction(Instruction::CallIf(reg(0), reg(1))),
        Ok(Control::Redirect)
    );
    assert_eq!(vm.registers.read_ip(), (1, 1));
    // The pre-jump successor of (0, 0) went onto the stack.
    assert_eq!(vm.stack, vec![from_address(1, 0)]);
}

#[test]
fn load_low_through_dereference_writes_program_cell() {
    let mut vm = vm_with(2, 1, vec![0, 0xABC123]);
    vm.registers.write(0, from_address(1, 0)).unwrap();
    vm.execute_instruction(Instruction::LoadLow(dreg(0), 42)).unwrap();
    // The cell keeps its high 12 bits and takes the immediate in the low 12.
    assert_eq!(vm.program.get(1, 0), Ok(0xABC000 + 42));
}

#[test]
fn error_messages_are_fixed_strings() {
    assert_eq!(Error::OversizedImage.message(), "Image is too large");
    assert_eq!(Error::InvalidRegister.message(), "Invalid register");
    assert_eq!(Error::AddressOutOfBounds.message(), "Address out of bounds");
    assert_eq!(Error::StackUnderflow.message(), "Stack underflow");
    assert_eq!(Error::ArithmeticFault.message(), "Division or modulo by zero");
    assert_eq!(Error::MalformedImage.message(), "Failed reading image");
    assert_eq!(Error::StepLimitExceeded.message(), "Step limit exceeded");
}
