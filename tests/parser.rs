use prush::instructions::InstructionSet;
use prush::parser::{ParseError, PushParser};
use prush::state::PushState;

#[test]
pub fn parse_simple_program() {
    let input = "( 2 3 INTEGER.* 4.1 5.2 FLOAT.+ TRUE FALSE BOOLEAN.OR )";
    let mut push_state = PushState::new();
    let mut instruction_set = InstructionSet::new();
    instruction_set.load();
    PushParser::parse_program(&mut push_state, &instruction_set, &input).unwrap();
    assert_eq!(push_state.exec_stack.to_string(), "1:List: 1:Literal(2); 2:Literal(3); 3:InstructionMeta(INTEGER.*); 4:Literal(4.1f); 5:Literal(5.2f); 6:InstructionMeta(FLOAT.+); 7:Literal(true); 8:Literal(false); 9:InstructionMeta(BOOLEAN.OR);;")
}

#[test]
pub fn parse_potentiation_program() {
    let input = "( ARG FLOAT.DEFINE EXEC.Y ( ARG FLOAT.* 1 INTEGER.- INTEGER.DUP 0 INTEGER.> EXEC.IF ( ) EXEC.POP ) ) ";
    let mut push_state = PushState::new();
    let mut instruction_set = InstructionSet::new();
    instruction_set.load();
    PushParser::parse_program(&mut push_state, &instruction_set, &input).unwrap();
    assert_eq!(
        push_state.exec_stack.to_string(),
        "1:List: 1:Identifier(ARG); 2:InstructionMeta(FLOAT.DEFINE); 3:InstructionMeta(EXEC.Y); 4:List: 1:Identifier(ARG); 2:InstructionMeta(FLOAT.*); 3:Literal(1); 4:InstructionMeta(INTEGER.-); 5:InstructionMeta(INTEGER.DUP); 6:Literal(0); 7:InstructionMeta(INTEGER.>); 8:InstructionMeta(EXEC.IF); 9:List: ; 10:InstructionMeta(EXEC.POP);;;"
    );
}

#[test]
pub fn parse_factorial_program() {
    let input = "( CODE.QUOTE ( CODE.DUP INTEGER.DUP 1 INTEGER.- CODE.DO INTEGER.* )
                   CODE.QUOTE ( INTEGER.POP 1 )
                                  INTEGER.DUP 2 INTEGER.< CODE.IF )";
    let mut push_state = PushState::new();
    let mut instruction_set = InstructionSet::new();
    instruction_set.load();
    PushParser::parse_program(&mut push_state, &instruction_set, &input).unwrap();
    assert_eq!(
        push_state.exec_stack.to_string(),
        "1:List: 1:InstructionMeta(CODE.QUOTE); 2:List: 1:InstructionMeta(CODE.DUP); 2:InstructionMeta(INTEGER.DUP); 3:Literal(1); 4:InstructionMeta(INTEGER.-); 5:InstructionMeta(CODE.DO); 6:InstructionMeta(INTEGER.*);; 3:InstructionMeta(CODE.QUOTE); 4:List: 1:InstructionMeta(INTEGER.POP); 2:Literal(1);; 5:InstructionMeta(INTEGER.DUP); 6:Literal(2); 7:InstructionMeta(INTEGER.<); 8:InstructionMeta(CODE.IF);;");
}

#[test]
fn parse_keeps_left_to_right_order_in_list() {
    let mut push_state = PushState::new();
    let mut instruction_set = InstructionSet::new();
    instruction_set.load();
    PushParser::parse_program(&mut push_state, &instruction_set, "( a b c )").unwrap();
    assert_eq!(
        push_state.exec_stack.to_string(),
        "1:List: 1:Identifier(a); 2:Identifier(b); 3:Identifier(c);;"
    );
    let mut mixed = PushState::new();
    PushParser::parse_program(&mut mixed, &instruction_set, "( 7 EXEC.DUP TRUE )").unwrap();
    assert_eq!(
        mixed.exec_stack.to_string(),
        "1:List: 1:Literal(7); 2:InstructionMeta(EXEC.DUP); 3:Literal(true);;"
    );
}

#[test]
fn parse_classifies_by_precedence() {
    let mut instruction_set = InstructionSet::new();
    instruction_set.load();
    instruction_set.add(String::from("42"), prush::instructions::Instruction::new(prush::instructions::Op::Noop));
    let mut push_state = PushState::new();
    PushParser::parse_program(&mut push_state, &instruction_set, "42 43 -7 2.50 -0.5 .5 5. TRUE FALSE true 1.2.3 - x").unwrap();
    assert_eq!(
        push_state.exec_stack.to_string(),
        "1:InstructionMeta(42); 2:Literal(43); 3:Literal(-7); 4:Literal(2.50f); 5:Literal(-0.5f); 6:Literal(0.5f); 7:Literal(5f); 8:Literal(true); 9:Literal(false); 10:Identifier(true); 11:Identifier(1.2.3); 12:Identifier(-); 13:Identifier(x);"
    );
}

#[test]
fn parse_integer_out_of_range_becomes_decimal() {
    let instruction_set = InstructionSet::new();
    let mut push_state = PushState::new();
    PushParser::parse_program(&mut push_state, &instruction_set, "2147483647 2147483648 -2147483648").unwrap();
    assert_eq!(
        push_state.exec_stack.to_string(),
        "1:Literal(2147483647); 2:Literal(2147483648f); 3:Literal(-2147483648);"
    );
}

#[test]
fn parse_rejects_unbalanced_parentheses() {
    let instruction_set = InstructionSet::new();
    let mut push_state = PushState::new();
    push_state.int_stack.push(1);
    assert_eq!(
        PushParser::parse_program(&mut push_state, &instruction_set, "( a ) )"),
        Err(ParseError::UnbalancedParentheses)
    );
    assert_eq!(
        PushParser::parse_program(&mut push_state, &instruction_set, "( ( a )"),
        Err(ParseError::UnbalancedParentheses)
    );
    assert_eq!(push_state.exec_stack.size(), 0);
    assert_eq!(push_state.int_stack.to_string(), "1:1;");
}

#[test]
fn parse_empty_source_adds_nothing() {
    let instruction_set = InstructionSet::new();
    let mut push_state = PushState::new();
    assert_eq!(PushParser::parse_program(&mut push_state, &instruction_set, "  \n "), Ok(()));
    assert_eq!(push_state.exec_stack.to_string(), "");
}

#[test]
fn parse_splits_at_unicode_whitespace() {
    let instruction_set = InstructionSet::new();
    let mut push_state = PushState::new();
    PushParser::parse_program(&mut push_state, &instruction_set, "(\u{A0}a\u{2003}b\u{3000})").unwrap();
    assert_eq!(push_state.exec_stack.to_string(), "1:List: 1:Identifier(a); 2:Identifier(b);;");
}
