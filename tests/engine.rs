use prush::instructions::{InstructionSet, Op};
use prush::interpreter::{PushInterpreter, RunOutcome};
use prush::item::{Item, PushFloat};
use prush::stack::PushStack;
use prush::state::PushState;

fn loaded() -> InstructionSet {
    let mut set = InstructionSet::new();
    set.load();
    set
}

fn snapshot(s: &PushState) -> String {
    format!(
        "{}|{}|{}|{}|{}|{}|{}|{}|{}",
        s.bool_stack.to_string(),
        s.int_stack.to_string(),
        s.float_stack.to_string(),
        s.exec_stack.to_string(),
        s.code_stack.to_string(),
        s.name_stack.to_string(),
        s.bool_vector_stack.to_string(),
        s.int_vector_stack.to_string(),
        s.float_vector_stack.to_string()
    )
}

#[test]
fn step_expands_list_first_element_on_top() {
    let mut state = PushState::new();
    state.exec_stack.push(Item::integer(9));
    state.exec_stack.push(Item::list(vec![Item::integer(3), Item::integer(2), Item::integer(1)]));
    let mut interpreter = PushInterpreter::new(loaded(), state);
    assert!(interpreter.step());
    assert_eq!(
        interpreter.push_state.exec_stack.to_string(),
        "1:Literal(1); 2:Literal(2); 3:Literal(3); 4:Literal(9);"
    );
}

#[test]
fn step_routes_literals_and_drops_unknown_names() {
    let mut state = PushState::new();
    state.exec_stack.push(Item::name(String::from("nobody")));
    state.exec_stack.push(Item::instruction(String::from("NOT.THERE")));
    state.exec_stack.push(Item::float(PushFloat { mantissa: 25, scale: 1 }));
    state.exec_stack.push(Item::boolean(true));
    state.exec_stack.push(Item::integer(4));
    let mut interpreter = PushInterpreter::new(loaded(), state);
    assert_eq!(interpreter.run(100, 1000), RunOutcome::Completed);
    assert_eq!(interpreter.push_state.int_stack.to_string(), "1:4;");
    assert_eq!(interpreter.push_state.bool_stack.to_string(), "1:true;");
    assert_eq!(interpreter.push_state.float_stack.to_string(), "1:2.5;");
    assert!(!interpreter.step());
}

fn run_program(code: &str) -> PushInterpreter {
    let mut interpreter = PushInterpreter::new(loaded(), PushState::new());
    interpreter.parse_program(code).unwrap();
    assert_eq!(interpreter.run(10_000, 100_000), RunOutcome::Completed);
    interpreter
}

#[test]
fn do_range_counts_up_inclusively() {
    let interpreter = run_program("( 3 5 EXEC.DO*RANGE NOOP )");
    assert_eq!(interpreter.push_state.int_stack.to_string(), "1:5; 2:4; 3:3;");
}

#[test]
fn do_range_counts_down_inclusively() {
    let interpreter = run_program("( 6 1 EXEC.DO*RANGE NOOP )");
    assert_eq!(interpreter.push_state.int_stack.to_string(), "1:1; 2:2; 3:3; 4:4; 5:5; 6:6;");
}

#[test]
fn do_count_and_do_times_run_body_n_times() {
    let interpreter = run_program("( 3 EXEC.DO*COUNT ( 1 ) )");
    assert_eq!(interpreter.push_state.int_stack.to_string(), "1:1; 2:2; 3:1; 4:1; 5:1; 6:0;");
    let times = run_program("( 1 3 EXEC.DO*TIMES TRUE )");
    assert_eq!(times.push_state.bool_stack.to_string(), "1:true; 2:true; 3:true;");
    assert_eq!(times.push_state.int_stack.to_string(), "");
    let none = run_program("( 0 EXEC.DO*COUNT TRUE )");
    assert_eq!(none.push_state.int_stack.to_string(), "1:0;");
    assert_eq!(none.push_state.bool_stack.to_string(), "1:true;");
}

#[test]
fn k_keeps_top_item() {
    let mut state = PushState::new();
    state.exec_stack.push(Item::integer(2));
    state.exec_stack.push(Item::integer(1));
    prush::execution::exec_k(&mut state, &prush::instructions::InstructionCache::new(vec![]));
    assert_eq!(state.exec_stack.to_string(), "1:Literal(1);");
}

#[test]
fn deep_stack_operations() {
    let mut s: PushStack<i32> = PushStack::new();
    for v in [5, 4, 3, 2, 1] {
        s.push(v);
    }
    s.yank(3);
    assert_eq!(s.to_string(), "1:4; 2:1; 3:2; 4:3; 5:5;");
    s.yank(7);
    assert_eq!(s.to_string(), "1:4; 2:1; 3:2; 4:3; 5:5;");
    let mut t: PushStack<i32> = PushStack::new();
    for v in [4, 3, 2, 1] {
        t.push(v);
    }
    t.shove(2);
    assert_eq!(t.to_string(), "1:2; 2:3; 3:1; 4:4;");
    assert_eq!(t.copy(3), Some(4));
    assert_eq!(t.copy(4), None);
    assert_eq!(t.pop_vec(5), None);
    assert_eq!(t.size(), 4);
    assert_eq!(t.pop_vec(2), Some(vec![3, 2]));
    t.push_front(9);
    assert_eq!(t.to_string(), "1:1; 2:4; 3:9;");
    t.replace(1, 0);
    assert_eq!(t.to_string(), "1:1; 2:0; 3:9;");
}

#[test]
fn every_instruction_is_a_noop_on_empty_stacks() {
    let set = loaded();
    let cache = set.cache();
    for name in cache.list.iter() {
        if name == "EXEC.STACKDEPTH" {
            continue;
        }
        let mut state = PushState::new();
        let before = snapshot(&state);
        let instruction = set.get_instruction(name).unwrap();
        instruction.execute(&mut state, &cache);
        assert_eq!(snapshot(&state), before, "{}", name);
    }
}

#[test]
fn partial_operands_leave_state_unchanged() {
    let set = loaded();
    let cache = set.cache();
    for name in ["EXEC.DO*RANGE", "EXEC.DO*TIMES", "EXEC.IF", "EXEC.S", "EXEC.ROT", "LIST.NEIGHBORS", "INTEGER.+"] {
        let mut state = PushState::new();
        state.int_stack.push(1);
        state.exec_stack.push(Item::integer(1));
        state.exec_stack.push(Item::integer(2));
        let before = snapshot(&state);
        set.get_instruction(name).unwrap().execute(&mut state, &cache);
        assert_eq!(snapshot(&state), before, "{}", name);
    }
}

#[test]
fn y_combinator_is_cut_off_by_step_budget() {
    let mut interpreter = PushInterpreter::new(loaded(), PushState::new());
    interpreter.parse_program("( EXEC.Y ( 1 ) )").unwrap();
    assert_eq!(interpreter.run(50, 1_000_000), RunOutcome::StepLimit);
    assert!(interpreter.push_state.exec_stack.size() > 0);
    let mut growing = PushInterpreter::new(loaded(), PushState::new());
    growing.parse_program("( EXEC.Y ( 1 ) )").unwrap();
    assert_eq!(growing.run(1_000_000, 20), RunOutcome::SizeLimit);
}

#[test]
fn defined_names_run_their_item() {
    let mut state = PushState::new();
    state.name_stack.push(String::from("SEVEN"));
    let mut interpreter = PushInterpreter::new(loaded(), state);
    interpreter.parse_program("( EXEC.DEFINE 7 SEVEN SEVEN )").unwrap();
    assert_eq!(interpreter.run(100, 1000), RunOutcome::Completed);
    assert_eq!(interpreter.push_state.int_stack.to_string(), "1:7; 2:7;");
}

#[test]
fn factorial_by_range_loop() {
    let interpreter = run_program("( 1 1 5 EXEC.DO*RANGE INTEGER.* )");
    assert_eq!(interpreter.push_state.int_stack.to_string(), "1:120;");
}

#[test]
fn code_if_runs_second_item_when_true() {
    let t = run_program("( CODE.QUOTE 10 CODE.QUOTE 20 TRUE CODE.IF )");
    assert_eq!(t.push_state.int_stack.to_string(), "1:10;");
    let f = run_program("( CODE.QUOTE 10 CODE.QUOTE 20 FALSE CODE.IF )");
    assert_eq!(f.push_state.int_stack.to_string(), "1:20;");
    let d = run_program("( CODE.QUOTE ( 3 4 INTEGER.- ) CODE.DO )");
    assert_eq!(d.push_state.int_stack.to_string(), "1:-1;");
    assert_eq!(d.push_state.code_stack.size(), 0);
}

#[test]
fn arithmetic_overflow_is_a_noop() {
    let interpreter = run_program("( 2147483647 1 INTEGER.+ 6 7 INTEGER.* 1.5 0.25 FLOAT.+ 1.5 2.0 FLOAT.* )");
    assert_eq!(interpreter.push_state.int_stack.to_string(), "1:42; 2:1; 3:2147483647;");
    assert_eq!(interpreter.push_state.float_stack.to_string(), "1:3.00; 2:1.75;");
}

#[test]
fn registry_add_replaces_and_reports_previous() {
    let mut set = InstructionSet::new();
    assert!(set.add(String::from("A"), prush::instructions::Instruction::new(Op::Noop)).is_none());
    let previous = set.add(String::from("A"), prush::instructions::Instruction::new(Op::ExecPop));
    assert_eq!(previous.map(|i| i.op), Some(Op::Noop));
    assert_eq!(set.get_instruction("A").map(|i| i.op), Some(Op::ExecPop));
    assert!(set.is_instruction("A"));
    assert!(!set.is_instruction("B"));
    assert_eq!(set.cache().list, vec![String::from("A")]);
}

#[test]
fn item_text_renders_nested_lists_and_vectors() {
    let v = Item::intvec(prush::item::IntVector { values: vec![1, -2] });
    let l = Item::list(vec![v, Item::list(vec![]), Item::float(PushFloat { mantissa: -5, scale: 3 })]);
    assert_eq!(l.to_string(), "List: 1:Literal(-0.005f); 2:List: ; 3:Literal([1 -2]);");
}

#[test]
fn depth_instructions_keep_depth_when_exec_is_empty() {
    let set = loaded();
    let cache = set.cache();
    for name in ["EXEC.YANK", "EXEC.SHOVE", "EXEC.YANKDUP"] {
        let mut state = PushState::new();
        state.int_stack.push(0);
        set.get_instruction(name).unwrap().execute(&mut state, &cache);
        assert_eq!(state.int_stack.to_string(), "1:0;", "{}", name);
    }
}

#[test]
fn list_get_and_set_need_a_code_item() {
    let set = loaded();
    let cache = set.cache();
    for name in ["LIST.GET", "LIST.SET"] {
        let mut state = PushState::new();
        state.int_stack.push(0);
        state.bool_stack.push(true);
        state.int_vector_stack.push(prush::item::IntVector { values: vec![prush::list::BOOL_STACK_ID] });
        let before = snapshot(&state);
        set.get_instruction(name).unwrap().execute(&mut state, &cache);
        assert_eq!(snapshot(&state), before, "{}", name);
    }
}

#[test]
fn exec_if_true_runs_second_item() {
    let t = run_program("( TRUE EXEC.IF 1 2 )");
    assert_eq!(t.push_state.int_stack.to_string(), "1:2;");
    let f = run_program("( FALSE EXEC.IF 1 2 )");
    assert_eq!(f.push_state.int_stack.to_string(), "1:1;");
}
