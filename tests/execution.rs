use prush::execution::{
    exec_define, exec_do_count, exec_do_range, exec_do_times, exec_dup, exec_eq, exec_flush,
    exec_if, exec_k, exec_pop, exec_rot, exec_s, exec_shove, exec_stack_depth, exec_swap,
    exec_y, exec_yank, exec_yank_dup,
};
use prush::instructions::InstructionCache;
use prush::item::Item;
use prush::state::PushState;

pub fn icache() -> InstructionCache {
    InstructionCache::new(vec![])
}

#[test]
fn exec_eq_pushes_true_when_elements_equal() {
    let mut test_state = PushState::new();
    test_state.exec_stack.push(Item::integer(1));
    test_state.exec_stack.push(Item::integer(1));
    exec_eq(&mut test_state, &icache());
    assert_eq!(test_state.exec_stack.size(), 2);
    assert_eq!(test_state.bool_stack.to_string(), "1:true;");
}

#[test]
fn exec_eq_pushes_false_when_elements_unequal() {
    let mut test_state = PushState::new();
    test_state.exec_stack.push(Item::integer(1));
    test_state.exec_stack.push(Item::integer(2));
    exec_eq(&mut test_state, &icache());
    assert_eq!(test_state.exec_stack.size(), 2);
    assert_eq!(test_state.bool_stack.to_string(), "1:false;");
}

#[test]
fn exec_define_creates_name_binding() {
    let mut test_state = PushState::new();
    test_state.exec_stack.push(Item::integer(2));
    test_state.name_stack.push(String::from("TEST"));
    exec_define(&mut test_state, &icache());
    assert_eq!(
        *test_state.name_bindings.get("TEST").unwrap().to_string(),
        Item::integer(2).to_string()
    );
}

#[test]
fn exec_do_count_unfolds_to_macro() {
    let mut test_state = PushState::new();
    test_state.exec_stack.push(Item::noop());
    test_state.int_stack.push(3);
    exec_do_count(&mut test_state, &icache());
    assert_eq!(
        test_state.exec_stack.to_string(),
        "1:List: 1:Literal(0); 2:Literal(2); 3:InstructionMeta(EXEC.DO*RANGE); 4:InstructionMeta(NOOP);;"
    );
}

#[test]
fn exec_do_range_counts_upwards() {
    let mut test_state = PushState::new();
    test_state.exec_stack.push(Item::noop());
    test_state.int_stack.push(3); // Current index
    test_state.int_stack.push(5); // Destination index
    exec_do_range(&mut test_state, &icache());
    assert_eq!(
        test_state.exec_stack.to_string(),
        "1:InstructionMeta(NOOP); 2:List: 1:Literal(4); 2:Literal(5); 3:InstructionMeta(EXEC.DO*RANGE); 4:InstructionMeta(NOOP);;"
    );
    assert_eq!(test_state.int_stack.to_string(), "1:3;");
}

#[test]
fn exec_do_range_counts_downwards() {
    let mut test_state = PushState::new();
    test_state.exec_stack.push(Item::noop());
    test_state.int_stack.push(6); // Current index
    test_state.int_stack.push(1); // Destination index
    exec_do_range(&mut test_state, &icache());
    assert_eq!(
        test_state.exec_stack.to_string(),
        "1:InstructionMeta(NOOP); 2:List: 1:Literal(5); 2:Literal(1); 3:InstructionMeta(EXEC.DO*RANGE); 4:InstructionMeta(NOOP);;"
    );
    assert_eq!(test_state.int_stack.to_string(), "1:6;");
}

#[test]
fn exec_do_times_pops_loop_counter() {
    let mut test_state = PushState::new();
    test_state.exec_stack.push(Item::noop());
    test_state.int_stack.push(6); // Current index
    test_state.int_stack.push(1); // Destination index
    exec_do_times(&mut test_state, &icache());
    assert_eq!(
        test_state.exec_stack.to_string(),
        "1:List: 1:Literal(6); 2:Literal(1); 3:InstructionMeta(EXEC.DO*RANGE); 4:List: 1:InstructionMeta(INTEGER.POP); 2:InstructionMeta(NOOP);;;"
    );
    assert_eq!(test_state.int_stack.to_string(), "");
}

#[test]
fn exec_dup_duplicates_top_element() {
    let mut test_state = PushState::new();
    test_state.exec_stack.push(Item::noop());
    exec_dup(&mut test_state, &icache());
    assert_eq!(
        test_state.exec_stack.to_string(),
        "1:InstructionMeta(NOOP); 2:InstructionMeta(NOOP);"
    );
}

#[test]
fn exec_flush_empties_stack() {
    let mut test_state = PushState::new();
    // Test element is (1 2)'
    test_state
        .exec_stack
        .push(Item::list(vec![Item::integer(0), Item::integer(2)]));
    test_state
        .exec_stack
        .push(Item::list(vec![Item::integer(1), Item::integer(2)]));
    exec_flush(&mut test_state, &icache());
    assert_eq!(test_state.int_stack.to_string(), "");
}

#[test]
fn exec_if_pushes_first_item_when_true() {
    let mut test_state = PushState::new();
    test_state.bool_stack.push(true);
    test_state.exec_stack.push(Item::integer(2));
    test_state.exec_stack.push(Item::integer(1));
    exec_if(&mut test_state, &icache());
    assert_eq!(test_state.exec_stack.to_string(), "1:Literal(2);");
    assert_eq!(test_state.bool_stack.to_string(), "");
}

#[test]
fn exec_if_pushes_second_item_when_false() {
    let mut test_state = PushState::new();
    test_state.bool_stack.push(false);
    test_state.exec_stack.push(Item::integer(2));
    test_state.exec_stack.push(Item::integer(1));
    exec_if(&mut test_state, &icache());
    assert_eq!(test_state.exec_stack.to_string(), "1:Literal(1);");
    assert_eq!(test_state.bool_stack.to_string(), "");
}

#[test]
fn exec_k_removes_second_item() {
    let mut test_state = PushState::new();
    test_state.bool_stack.push(false);
    test_state.exec_stack.push(Item::integer(2));
    test_state.exec_stack.push(Item::integer(1));
    exec_k(&mut test_state, &icache());
    assert_eq!(test_state.exec_stack.to_string(), "1:Literal(1);");
}

#[test]
fn exec_pop_removes_first_item() {
    let mut test_state = PushState::new();
    test_state.bool_stack.push(false);
    test_state.exec_stack.push(Item::integer(2));
    test_state.exec_stack.push(Item::integer(1));
    exec_pop(&mut test_state, &icache());
    assert_eq!(test_state.exec_stack.to_string(), "1:Literal(2);");
}

#[test]
fn exec_rot_shuffles_elements() {
    let mut test_state = PushState::new();
    test_state.exec_stack.push(Item::integer(3));
    test_state.exec_stack.push(Item::integer(2));
    test_state.exec_stack.push(Item::integer(1));
    assert_eq!(
        test_state.exec_stack.to_string(),
        "1:Literal(1); 2:Literal(2); 3:Literal(3);"
    );
    exec_rot(&mut test_state, &icache());
    assert_eq!(
        test_state.exec_stack.to_string(),
        "1:Literal(3); 2:Literal(1); 3:Literal(2);"
    );
}

#[test]
fn exec_s_pushes_elements_in_right_order() {
    let mut test_state = PushState::new();
    test_state.exec_stack.push(Item::integer(3));
    test_state.exec_stack.push(Item::integer(2));
    test_state.exec_stack.push(Item::integer(1));
    assert_eq!(
        test_state.exec_stack.to_string(),
        "1:Literal(1); 2:Literal(2); 3:Literal(3);"
    );
    exec_s(&mut test_state, &icache());
    assert_eq!(
        test_state.exec_stack.to_string(),
        "1:Literal(1); 2:Literal(3); 3:List: 1:Literal(2); 2:Literal(3);;"
    );
}

#[test]
fn exec_shove_inserts_at_right_position() {
    let mut test_state = PushState::new();
    test_state.exec_stack.push(Item::integer(4));
    test_state.exec_stack.push(Item::integer(3));
    test_state.exec_stack.push(Item::integer(2));
    test_state.exec_stack.push(Item::integer(1));
    assert_eq!(
        test_state.exec_stack.to_string(),
        "1:Literal(1); 2:Literal(2); 3:Literal(3); 4:Literal(4);"
    );
    test_state.int_stack.push(2);
    exec_shove(&mut test_state, &icache());
    assert_eq!(
        test_state.exec_stack.to_string(),
        "1:Literal(2); 2:Literal(3); 3:Literal(1); 4:Literal(4);"
    );
}

#[test]
fn exec_stack_depth_pushes_size() {
    let mut test_state = PushState::new();
    // Test element is (1 2)'
    test_state
        .exec_stack
        .push(Item::list(vec![Item::integer(0), Item::integer(2)]));
    test_state
        .exec_stack
        .push(Item::list(vec![Item::integer(1), Item::integer(2)]));
    exec_stack_depth(&mut test_state, &icache());
    assert_eq!(test_state.int_stack.to_string(), "1:2;");
}

#[test]
fn exec_swaps_top_elements() {
    let mut test_state = PushState::new();
    test_state.exec_stack.push(Item::integer(0));
    test_state.exec_stack.push(Item::integer(1));
    exec_swap(&mut test_state, &icache());
    assert_eq!(
        test_state.exec_stack.to_string(),
        "1:Literal(0); 2:Literal(1);"
    );
}

#[test]
fn exec_y_inserts_y_copy_beneath_top_element() {
    let mut test_state = PushState::new();
    test_state.exec_stack.push(Item::integer(0));
    exec_y(&mut test_state, &icache());
    assert_eq!(
        test_state.exec_stack.to_string(),
        "1:Literal(0); 2:List: 1:InstructionMeta(EXEC.Y); 2:Literal(0);;"
    );
}

#[test]
fn exec_yank_brings_item_to_top() {
    let mut test_state = PushState::new();
    test_state.exec_stack.push(Item::integer(5));
    test_state.exec_stack.push(Item::integer(4));
    test_state.exec_stack.push(Item::integer(3));
    test_state.exec_stack.push(Item::integer(2));
    test_state.exec_stack.push(Item::integer(1));
    assert_eq!(
        test_state.exec_stack.to_string(),
        "1:Literal(1); 2:Literal(2); 3:Literal(3); 4:Literal(4); 5:Literal(5);"
    );
    test_state.int_stack.push(3);
    exec_yank(&mut test_state, &icache());
    assert_eq!(
        test_state.exec_stack.to_string(),
        "1:Literal(4); 2:Literal(1); 3:Literal(2); 4:Literal(3); 5:Literal(5);"
    );
}

#[test]
fn exec_yank_dup_copies_item_to_top() {
    let mut test_state = PushState::new();
    test_state.exec_stack.push(Item::integer(5));
    test_state.exec_stack.push(Item::integer(4));
    test_state.exec_stack.push(Item::integer(3));
    test_state.exec_stack.push(Item::integer(2));
    test_state.exec_stack.push(Item::integer(1));
    assert_eq!(
        test_state.exec_stack.to_string(),
        "1:Literal(1); 2:Literal(2); 3:Literal(3); 4:Literal(4); 5:Literal(5);"
    );
    test_state.int_stack.push(3);
    exec_yank_dup(&mut test_state, &icache());
    assert_eq!(
        test_state.exec_stack.to_string(),
        "1:Literal(4); 2:Literal(1); 3:Literal(2); 4:Literal(3); 5:Literal(4); 6:Literal(5);"
    );
}
