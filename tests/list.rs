use prush::instructions::InstructionCache;
use prush::item::{IntVector, Item, PushFloat};
use prush::list::{
    generate_list, list_add, list_get, list_neighbors, list_set, BOOL_STACK_ID, INT_STACK_ID,
    NAME_STACK_ID,
};
use prush::state::PushState;

pub fn icache() -> InstructionCache {
    InstructionCache::new(vec![])
}

fn radius(mantissa: i64, scale: u32) -> PushFloat {
    PushFloat { mantissa, scale }
}

#[test]
fn index_vector_neighbors_pushes_result_for_valid_index() {
    let mut test_state = PushState::new();
    test_state.float_stack.push(radius(15, 1)); // Radius 1.5
    test_state.int_stack.push(2); // Dimensions
    test_state.int_stack.push(50); // Index
    test_state.int_stack.push(100); // Size
    list_neighbors(&mut test_state, &icache());
    assert_eq!(
        test_state.int_stack.to_string(),
        String::from("1:61; 2:60; 3:51; 4:50; 5:41; 6:40;")
    );
}

#[test]
fn index_vector_neighbors_corrects_out_of_bounds_index() {
    let mut test_state = PushState::new();
    test_state.float_stack.push(radius(15, 1)); // Radius 1.5
    test_state.int_stack.push(2); // Dimensions
    test_state.int_stack.push(105); // Index
    test_state.int_stack.push(100); // Size
    list_neighbors(&mut test_state, &icache());
    assert_eq!(
        test_state.int_stack.to_string(),
        String::from("1:99; 2:98; 3:89; 4:88;")
    );
    test_state.int_stack.flush();
    test_state.float_stack.push(radius(15, 1)); // Radius 1.5
    test_state.int_stack.push(2); // Dimensions
    test_state.int_stack.push(-10); // Index
    test_state.int_stack.push(100); // Size
    list_neighbors(&mut test_state, &icache());
    assert_eq!(
        test_state.int_stack.to_string(),
        String::from("1:11; 2:10; 3:1; 4:0;")
    );
}

#[test]
fn neighbors_radius_one_excludes_diagonals() {
    let mut s = PushState::new();
    s.float_stack.push(radius(1, 0));
    s.int_stack.push(2);
    s.int_stack.push(55);
    s.int_stack.push(100);
    list_neighbors(&mut s, &icache());
    assert_eq!(s.int_stack.to_string(), "1:65; 2:56; 3:55; 4:54; 5:45;");
}

#[test]
fn neighbors_non_square_size_uses_enclosing_hypercube() {
    // size 38 in two dimensions lies in a 7 x 7 square; 40 and beyond do not exist
    let mut s = PushState::new();
    s.float_stack.push(radius(1, 0));
    s.int_stack.push(2);
    s.int_stack.push(37);
    s.int_stack.push(38);
    list_neighbors(&mut s, &icache());
    assert_eq!(s.int_stack.to_string(), "1:37; 2:36; 3:30;");
}

#[test]
fn neighbors_zero_size_and_negative_radius() {
    let mut s = PushState::new();
    s.float_stack.push(radius(15, 1));
    s.int_stack.push(2);
    s.int_stack.push(0);
    s.int_stack.push(0);
    list_neighbors(&mut s, &icache());
    assert_eq!(s.int_stack.to_string(), "");
    s.float_stack.push(radius(-30, 1));
    s.int_stack.push(1);
    s.int_stack.push(4);
    s.int_stack.push(10);
    list_neighbors(&mut s, &icache());
    assert_eq!(s.int_stack.to_string(), "1:4;");
}

#[test]
fn neighbors_underflow_leaves_state() {
    let mut s = PushState::new();
    s.int_stack.push(2);
    s.int_stack.push(50);
    s.int_stack.push(100);
    list_neighbors(&mut s, &icache());
    assert_eq!(s.int_stack.to_string(), "1:100; 2:50; 3:2;");
}

#[test]
fn list_add_collects_items_in_id_order() {
    let mut s = PushState::new();
    s.int_stack.push(7);
    s.int_stack.push(8);
    s.bool_stack.push(true);
    s.name_stack.push(String::from("X"));
    s.int_vector_stack.push(IntVector {
        values: vec![INT_STACK_ID, INT_STACK_ID, BOOL_STACK_ID, NAME_STACK_ID, 99],
    });
    list_add(&mut s, &icache());
    assert_eq!(
        s.code_stack.to_string(),
        "1:List: 1:Identifier(X); 2:Literal(true); 3:Literal(7); 4:Literal(8);;"
    );
    assert_eq!(s.int_stack.to_string(), "");
    assert_eq!(s.int_vector_stack.size(), 0);
}

#[test]
fn generate_list_skips_empty_stacks() {
    let mut s = PushState::new();
    s.int_vector_stack.push(IntVector { values: vec![BOOL_STACK_ID, INT_STACK_ID] });
    s.int_stack.push(3);
    let items = generate_list(&mut s).unwrap();
    assert_eq!(items.len(), 1);
    assert_eq!(items[0].to_string(), "Literal(3)");
    assert!(generate_list(&mut s).is_none());
}

#[test]
fn list_get_clamps_index() {
    let mut s = PushState::new();
    s.code_stack.push(Item::integer(1));
    s.code_stack.push(Item::integer(2));
    s.int_stack.push(9);
    list_get(&mut s, &icache());
    assert_eq!(s.exec_stack.to_string(), "1:Literal(1);");
    s.int_stack.push(-4);
    list_get(&mut s, &icache());
    assert_eq!(s.exec_stack.to_string(), "1:Literal(2); 2:Literal(1);");
    assert_eq!(s.code_stack.size(), 2);
}

#[test]
fn list_set_replaces_item_at_index() {
    let mut s = PushState::new();
    s.code_stack.push(Item::integer(1));
    s.code_stack.push(Item::integer(2));
    s.int_stack.push(5);
    s.int_vector_stack.push(IntVector { values: vec![INT_STACK_ID] });
    s.int_stack.push(0);
    list_set(&mut s, &icache());
    assert_eq!(s.code_stack.to_string(), "1:List: 1:Literal(5);; 2:Literal(1);");
}

#[test]
fn neighbors_of_a_huge_grid_are_found_quickly() {
    let mut s = PushState::new();
    s.float_stack.push(radius(15, 1));
    s.int_stack.push(2);
    s.int_stack.push(0);
    s.int_stack.push(2_000_000_000);
    list_neighbors(&mut s, &icache());
    assert_eq!(s.int_stack.to_string(), "1:44723; 2:44722; 3:1; 4:0;");
    s.int_stack.flush();
    s.float_stack.push(radius(1, 0));
    s.int_stack.push(1);
    s.int_stack.push(1_000_000_000);
    s.int_stack.push(2_000_000_000);
    list_neighbors(&mut s, &icache());
    assert_eq!(s.int_stack.to_string(), "1:1000000001; 2:1000000000; 3:999999999;");
}
