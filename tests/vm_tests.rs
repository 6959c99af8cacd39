use iridium::vm::VM;

fn get_test_vm() -> VM {
    VM::new()
}

fn prepend_header(mut b: Vec<u8>) -> Vec<u8> {
    let mut prepension = vec![45, 50, 49, 45];
    while prepension.len() <= 64 {
        prepension.push(0);
    }
    prepension.append(&mut b);
    prepension
}

#[test]
fn test_create_vm() {
    let test_vm = get_test_vm();
    assert_eq!(test_vm.registers[0], 0);
}

#[test]
fn test_opcode_hlt() {
    let mut test_vm = get_test_vm();
    test_vm.program = vec![0, 0, 0, 0];
    test_vm.program = prepend_header(test_vm.program);
    test_vm.run_once();
    assert_eq!(test_vm.pc, 66);
}

#[test]
fn test_opcode_igl() {
    let mut test_vm = get_test_vm();
    test_vm.program = vec![200, 0, 0, 0];
    test_vm.program = prepend_header(test_vm.program);
    test_vm.run_once();
    assert_eq!(test_vm.pc, 66);
}

#[test]
fn test_load_opcode() {
    let mut test_vm = get_test_vm();
    test_vm.program = vec![1, 0, 1, 244];
    test_vm.program = prepend_header(test_vm.program);
    test_vm.run_once();
    assert_eq!(test_vm.registers[0], 500);
}

#[test]
fn test_add_opcode() {
    let mut test_vm = get_test_vm();
    test_vm.program = vec![2, 8, 5, 2];
    test_vm.program = prepend_header(test_vm.program);
    test_vm.registers[5] = 3;
    test_vm.registers[8] = 7;
    test_vm.run_once();
    assert_eq!(test_vm.registers[2], 10);
}

#[test]
fn test_sub_opcode() {
    let mut test_vm = get_test_vm();
    test_vm.program = vec![3, 8, 5, 2];
    test_vm.program = prepend_header(test_vm.program);
    test_vm.registers[5] = 3;
    test_vm.registers[8] = 7;
    test_vm.run_once();
    assert_eq!(test_vm.registers[2], 4);
}

#[test]
fn test_mul_opcode() {
    let mut test_vm = get_test_vm();
    test_vm.program = vec![4, 8, 5, 2];
    test_vm.program = prepend_header(test_vm.program);
    test_vm.registers[5] = 3;
    test_vm.registers[8] = 7;
    test_vm.run_once();
    assert_eq!(test_vm.registers[2], 21);
}

#[test]
fn test_div_opcode() {
    let mut test_vm = get_test_vm();
    test_vm.program = vec![5, 8, 5, 2];
    test_vm.program = prepend_header(test_vm.program);
    test_vm.registers[5] = 3;
    test_vm.registers[8] = 7;
    test_vm.run_once();
    assert_eq!(test_vm.registers[2], 2);
    assert_eq!(test_vm.remainder, 1);
}

#[test]
fn test_jmp_opcode() {
    let mut test_vm = get_test_vm();
    test_vm.program = vec![6, 0, 0, 0];
    test_vm.program = prepend_header(test_vm.program);
    test_vm.registers[0] = 1;
    test_vm.run_once();
    assert_eq!(test_vm.pc, 1);
}

#[test]
fn test_jmpf_opcode() {
    let mut test_vm = get_test_vm();
    test_vm.program = vec![7, 0, 0, 0, 3, 0, 0, 2];
    test_vm.program = prepend_header(test_vm.program);
    test_vm.registers[0] = 2;
    test_vm.run_once();
    assert_eq!(test_vm.pc, 69);
}

#[test]
fn test_jmpb_opcode() {
    let mut test_vm = get_test_vm();
    test_vm.program = vec![8, 0, 0, 0, 3, 0, 0, 2];
    test_vm.program = prepend_header(test_vm.program);
    test_vm.registers[0] = 2;
    test_vm.run_once();
    assert_eq!(test_vm.pc, 65);
}

#[test]
fn test_eq_opcode() {
    let mut test_vm = get_test_vm();
    test_vm.registers[0] = 10;
    test_vm.registers[1] = 10;
    test_vm.program = vec![9, 0, 1, 0, 9, 0, 1, 0];
    test_vm.program = prepend_header(test_vm.program);
    test_vm.run_once();
    assert_eq!(test_vm.equal_flag, true);
    test_vm.registers[1] = 20;
    test_vm.run_once();
    assert_eq!(test_vm.equal_flag, false);
}

#[test]
fn test_neq_opcode() {
    let mut test_vm = get_test_vm();
    test_vm.registers[0] = 10;
    test_vm.registers[1] = 11;
    test_vm.program = vec![10, 0, 1, 0, 10, 0, 1, 0];
    test_vm.program = prepend_header(test_vm.program);
    test_vm.run_once();
    assert_eq!(test_vm.equal_flag, true);
    test_vm.registers[1] = 10;
    test_vm.run_once();
    assert_eq!(test_vm.equal_flag, false);
}

#[test]
fn test_gt_opcode() {
    let mut test_vm = get_test_vm();
    test_vm.registers[0] = 11;
    test_vm.registers[1] = 10;
    test_vm.program = vec![11, 0, 1, 0, 11, 0, 1, 0];
    test_vm.program = prepend_header(test_vm.program);
    test_vm.run_once();
    assert_eq!(test_vm.equal_flag, true);
    test_vm.registers[1] = 11;
    test_vm.run_once();
    assert_eq!(test_vm.equal_flag, false);
}

#[test]
fn test_lt_opcode() {
    let mut test_vm = get_test_vm();
    test_vm.registers[0] = 9;
    test_vm.registers[1] = 10;
    test_vm.program = vec![12, 0, 1, 0, 12, 0, 1, 0];
    test_vm.program = prepend_header(test_vm.program);
    test_vm.run_once();
    assert_eq!(test_vm.equal_flag, true);
    test_vm.registers[1] = 9;
    test_vm.run_once();
    assert_eq!(test_vm.equal_flag, false);
}

#[test]
fn test_gtq_opcode() {
    let mut test_vm = get_test_vm();
    test_vm.registers[0] = 11;
    test_vm.registers[1] = 10;
    test_vm.program = vec![13, 0, 1, 0, 13, 0, 1, 0, 13, 0, 1, 0];
    test_vm.program = prepend_header(test_vm.program);
    test_vm.run_once();
    assert_eq!(test_vm.equal_flag, true);
    test_vm.registers[1] = 11;
    test_vm.run_once();
    assert_eq!(test_vm.equal_flag, true);
    test_vm.registers[1] = 12;
    test_vm.run_once();
    assert_eq!(test_vm.equal_flag, false);
}

#[test]
fn test_ltq_opcode() {
    let mut test_vm = get_test_vm();
    test_vm.registers[0] = 11;
    test_vm.registers[1] = 12;
    test_vm.program = vec![14, 0, 1, 0, 14, 0, 1, 0, 14, 0, 1, 0];
    test_vm.program = prepend_header(test_vm.program);
    test_vm.run_once();
    assert_eq!(test_vm.equal_flag, true);
    test_vm.registers[1] = 11;
    test_vm.run_once();
    assert_eq!(test_vm.equal_flag, true);
    test_vm.registers[1] = 10;
    test_vm.run_once();
    assert_eq!(test_vm.equal_flag, false);
}

#[test]
fn test_jeq_opcode() {
    let mut test_vm = get_test_vm();
    test_vm.registers[0] = 7;
    test_vm.equal_flag = true;
    test_vm.program = vec![15, 0, 0, 0, 16, 0, 0, 0, 16, 0, 0, 0];
    test_vm.program = prepend_header(test_vm.program);
    test_vm.run_once();
    assert_eq!(test_vm.pc, 7);
}

#[test]
fn test_jneq_opcode() {
    let mut test_vm = get_test_vm();
    test_vm.registers[0] = 7;
    test_vm.equal_flag = false;
    test_vm.program = vec![16, 0, 0, 0, 17, 0, 0, 0, 17, 0, 0, 0];
    test_vm.program = prepend_header(test_vm.program);
    test_vm.run_once();
    assert_eq!(test_vm.pc, 7);
}

#[test]
fn test_aloc_opcode() {
    let mut test_vm = get_test_vm();
    test_vm.registers[0] = 1024;
    test_vm.program = vec![17, 0, 0, 0];
    test_vm.program = prepend_header(test_vm.program);
    test_vm.run_once();
    assert_eq!(test_vm.heap.len(), 1024);
}

#[test]
fn test_inc_opdcode() {
    let mut test_vm = get_test_vm();
    test_vm.registers[0] = 1;
    test_vm.program = vec![18, 0, 0, 0];
    test_vm.program = prepend_header(test_vm.program);
    test_vm.run_once();
    assert_eq!(test_vm.registers[0], 2);
}

#[test]
fn test_dec_opdcode() {
    let mut test_vm = get_test_vm();
    test_vm.registers[0] = 1;
    test_vm.program = vec![19, 0, 0, 0];
    test_vm.program = prepend_header(test_vm.program);
    test_vm.run_once();
    assert_eq!(test_vm.registers[0], 0);
}

#[test]
fn jeq_without_header_jumps_from_program_start() {
    let mut vm = VM::new();
    vm.program = vec![15, 0, 0, 0, 16, 0, 0, 0];
    vm.pc = 0;
    vm.registers[0] = 7;
    vm.equal_flag = true;
    vm.run_once();
    assert_eq!(vm.pc, 7);
}

#[test]
fn jeq_with_flag_clear_moves_to_next_instruction() {
    let mut vm = VM::new();
    vm.program = prepend_header(vec![15, 0, 0, 0, 0, 0, 0, 0]);
    vm.registers[0] = 7;
    vm.equal_flag = false;
    vm.run_once();
    assert_eq!(vm.pc, 69);
}

#[test]
fn new_vm_state() {
    let vm = VM::new();
    assert!(vm.registers.iter().all(|r| *r == 0));
    assert_eq!(vm.pc, 65);
    assert!(vm.program.is_empty());
    assert!(vm.heap.is_empty());
    assert_eq!(vm.remainder, 0);
    assert!(!vm.equal_flag);
}

#[test]
fn negative_division_remainder_wraps() {
    let mut vm = VM::new();
    vm.program = prepend_header(vec![5, 0, 1, 2]);
    vm.registers[0] = -7;
    vm.registers[1] = 2;
    vm.run_once();
    assert_eq!(vm.registers[2], -3);
    assert_eq!(vm.remainder, u32::MAX);
}

#[test]
fn division_by_zero_halts() {
    let mut vm = VM::new();
    vm.program = prepend_header(vec![5, 0, 1, 2]);
    vm.registers[0] = 7;
    vm.registers[1] = 0;
    vm.run_once();
    assert_eq!(vm.pc, 66);
    assert_eq!(vm.registers[2], 0);
}

#[test]
fn overflowing_add_halts() {
    let mut vm = VM::new();
    vm.program = prepend_header(vec![2, 0, 1, 2]);
    vm.registers[0] = i32::MAX;
    vm.registers[1] = 1;
    vm.run_once();
    assert_eq!(vm.pc, 66);
    assert_eq!(vm.registers[2], 0);
}

#[test]
fn register_out_of_range_halts() {
    let mut vm = VM::new();
    vm.program = prepend_header(vec![1, 32, 0, 1]);
    vm.run_once();
    assert_eq!(vm.pc, 66);
}

#[test]
fn truncated_instruction_halts() {
    let mut vm = VM::new();
    vm.program = prepend_header(vec![1, 0]);
    vm.run_once();
    assert_eq!(vm.pc, 66);
    assert_eq!(vm.registers[0], 0);
}

#[test]
fn jmpb_below_zero_halts() {
    let mut vm = VM::new();
    vm.program = prepend_header(vec![8, 0, 0, 0]);
    vm.registers[0] = 100;
    vm.run_once();
    assert_eq!(vm.pc, 66);
}

#[test]
fn aloc_negative_halts() {
    let mut vm = VM::new();
    vm.program = prepend_header(vec![17, 0, 0, 0]);
    vm.registers[0] = -1;
    vm.run_once();
    assert_eq!(vm.pc, 66);
    assert!(vm.heap.is_empty());
}

#[test]
fn prts_prints_string_after_header() {
    let mut vm = VM::new();
    let mut program = vec![45, 50, 49, 45];
    program.resize(64, 0);
    program.extend_from_slice(b"hi\0");
    program.extend_from_slice(&[20, 0, 0, 0]);
    vm.program = program;
    vm.pc = 67;
    vm.run_once();
    assert_eq!(vm.output, b"hi".to_vec());
    assert_eq!(vm.pc, 71);
}

#[test]
fn run_refuses_program_without_magic() {
    let mut vm = VM::new();
    let mut program = vec![0u8; 65];
    program.extend_from_slice(&[1, 0, 0, 9]);
    vm.program = program;
    vm.run();
    assert_eq!(vm.pc, 65);
    assert_eq!(vm.registers[0], 0);
}

#[test]
fn run_stops_at_halt() {
    let mut vm = VM::new();
    vm.program = prepend_header(vec![1, 0, 0, 9, 18, 0, 0, 0, 0, 0, 0, 0, 1, 0, 0, 1]);
    vm.run();
    assert_eq!(vm.registers[0], 10);
    assert_eq!(vm.pc, 74);
}

#[test]
fn add_bytes_appends() {
    let mut vm = VM::new();
    vm.add_byte(7);
    vm.add_bytes(vec![1, 2, 3]);
    assert_eq!(vm.program, vec![7, 1, 2, 3]);
}
