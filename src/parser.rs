use vstd::prelude::*;
use crate::instructions::{InstructionSet, Op};
use crate::item::{Item, ItemModel, ValueModel, item_models, lemma_item_models};
use crate::lexer::{float_literal, int_literal, parse_float, parse_int, split_tokens, tokenize};
use crate::stack::{PushStack, models};
use crate::state::{PushState, with_exec};
use crate::text::{chars_of, string_of};

verus! {

pub open spec fn true_word() -> Seq<char> {
    seq!['T', 'R', 'U', 'E']
}

pub open spec fn false_word() -> Seq<char> {
    seq!['F', 'A', 'L', 'S', 'E']
}

/// What a token stands for, the first that applies: a registered instruction,
/// an integer, a decimal, `TRUE` or `FALSE`, else an identifier.
pub open spec fn classify(token: Seq<char>, known: Map<Seq<char>, Op>) -> ItemModel {
    if known.contains_key(token) {
        ItemModel::Instruction(token)
    } else if int_literal(token) is Some {
        ItemModel::Literal(ValueModel::Int(int_literal(token)->0))
    } else if float_literal(token) is Some {
        ItemModel::Literal(ValueModel::Float(float_literal(token)->0))
    } else if token == true_word() {
        ItemModel::Literal(ValueModel::Bool(true))
    } else if token == false_word() {
        ItemModel::Literal(ValueModel::Bool(false))
    } else {
        ItemModel::Identifier(token)
    }
}

/// `s` with `x` inserted at the bottom of the list open at nesting `depth`:
/// at depth 0 the bottom of `s` itself, deeper inside the list at the bottom of
/// `s`. `None` when that element is not a list.
pub open spec fn front_pushed(s: Seq<ItemModel>, x: ItemModel, depth: nat) -> Option<Seq<ItemModel>>
    decreases depth,
{
    if depth == 0 {
        Some(seq![x] + s)
    } else if s.len() == 0 {
        Some(s.push(x))
    } else {
        match s[0] {
            ItemModel::List(inner) => match front_pushed(inner, x, (depth - 1) as nat) {
                Some(t) => Some(s.update(0, ItemModel::List(t))),
                None => None,
            },
            _ => None,
        }
    }
}

pub open spec fn open_word() -> Seq<char> {
    seq!['(']
}

pub open spec fn close_word() -> Seq<char> {
    seq![')']
}

/// The stack built so far and the nesting depth after reading `tokens`;
/// `None` once a `)` closes more than was opened.
pub open spec fn parse_tokens(tokens: Seq<Seq<char>>, known: Map<Seq<char>, Op>) -> Option<(Seq<ItemModel>, nat)>
    decreases tokens.len(),
{
    if tokens.len() == 0 {
        Some((Seq::empty(), 0))
    } else {
        match parse_tokens(tokens.drop_last(), known) {
            None => None,
            Some((s, depth)) => {
                let t = tokens.last();
                if t == open_word() {
                    let item = ItemModel::List(Seq::empty());
                    Some((if front_pushed(s, item, depth) is Some { front_pushed(s, item, depth)->0 } else { s }, depth + 1))
                } else if t == close_word() {
                    if depth == 0 { None } else { Some((s, (depth - 1) as nat)) }
                } else {
                    let item = classify(t, known);
                    Some((if front_pushed(s, item, depth) is Some { front_pushed(s, item, depth)->0 } else { s }, depth))
                }
            },
        }
    }
}

/// The program `code` denotes, bottom to top; `None` when its parentheses do
/// not balance.
pub open spec fn parsed(code: Seq<char>, known: Map<Seq<char>, Op>) -> Option<Seq<ItemModel>> {
    match parse_tokens(tokenize(code), known) {
        Some((s, depth)) => if depth == 0 { Some(s) } else { None },
        None => None,
    }
}

/// Source text whose parentheses do not balance.
#[derive(Clone, Copy, Debug, PartialEq, Eq, Structural)]
pub enum ParseError {
    UnbalancedParentheses,
}

pub struct PushParser {}

/// The item a token stands for.
pub fn classify_token(token: &Vec<char>, instruction_set: &InstructionSet) -> (r: Item)
    ensures
        r.model() == classify(token@, instruction_set.view()),
{
    let text = string_of(token);
    if instruction_set.is_instruction(text.as_str()) {
        return Item::instruction(text);
    }
    if let Some(ival) = parse_int(token) {
        return Item::integer(ival);
    }
    if let Some(fval) = parse_float(token) {
        return Item::float(fval);
    }
    let t = String::from_str("TRUE");
    let f = String::from_str("FALSE");
    proof {
        reveal_strlit("TRUE");
        reveal_strlit("FALSE");
        assert(t@ =~= true_word());
        assert(f@ =~= false_word());
    }
    if text == t {
        Item::boolean(true)
    } else if text == f {
        Item::boolean(false)
    } else {
        Item::name(text)
    }
}

proof fn lemma_parse_none_extends(tokens: Seq<Seq<char>>, i: int, known: Map<Seq<char>, Op>)
    requires
        0 <= i <= tokens.len(),
        parse_tokens(tokens.subrange(0, i), known) is None,
    ensures
        parse_tokens(tokens, known) is None,
    decreases tokens.len() - i,
{
    if i < tokens.len() {
        assert(tokens.subrange(0, i + 1).drop_last() =~= tokens.subrange(0, i));
        lemma_parse_none_extends(tokens, i + 1, known);
    } else {
        assert(tokens.subrange(0, i) =~= tokens);
    }
}

impl PushParser {
    /// Parses `code` and places the program beneath whatever the EXEC stack
    /// holds; with unbalanced parentheses it fails and changes nothing.
    pub fn parse_program(
        push_state: &mut PushState,
        instruction_set: &InstructionSet,
        code: &str,
    ) -> (r: Result<(), ParseError>)
        ensures
            parsed(code@, instruction_set.view()) is Some ==> r is Ok && final(push_state).model()
                == with_exec(
                old(push_state).model(),
                parsed(code@, instruction_set.view())->0 + old(push_state).model().execution,
            ),
            parsed(code@, instruction_set.view()) is None ==> r is Err && final(push_state).model()
                == old(push_state).model(),
    {
        let ghost known = instruction_set.view();
        let chars = chars_of(code);
        let tokens = split_tokens(&chars);
        let ghost all = tokenize(code@);
        let mut program: PushStack<Item> = PushStack::new();
        let mut depth: usize = 0;
        let mut i: usize = 0;
        assert(all.subrange(0, 0) =~= Seq::<Seq<char>>::empty());
        while i < tokens.len()
            invariant
                i <= tokens@.len() == all.len(),
                all == tokenize(code@),
                known == instruction_set.view(),
                depth <= i,
                forall|j: int| 0 <= j < tokens@.len() ==> #[trigger] tokens@[j]@ == all[j],
                parse_tokens(all.subrange(0, i as int), known) == Some((program.view(), depth as nat)),
            decreases tokens@.len() - i,
        {
            let tok = &tokens[i];
            let ghost t = all[i as int];
            assert(tok@ == t);
            assert(all.subrange(0, i + 1).drop_last() =~= all.subrange(0, i as int));
            assert(all.subrange(0, i + 1).last() == t);
            if tok.len() == 1 && tok[0] == '(' {
                assert(t =~= open_word());
                PushParser::rec_push(&mut program, Item::list(Vec::new()), depth);
                proof {
                    assert(item_models(Seq::<Item>::empty()) =~= Seq::<ItemModel>::empty());
                }
                depth += 1;
            } else if tok.len() == 1 && tok[0] == ')' {
                assert(t =~= close_word());
                assert(t != open_word());
                if depth == 0 {
                    proof {
                        lemma_parse_none_extends(all, i + 1, known);
                    }
                    return Err(ParseError::UnbalancedParentheses);
                }
                depth -= 1;
            } else {
                assert(t != open_word()) by {
                    if t == open_word() {
                        assert(tok@.len() == 1 && tok@[0] == '(');
                    }
                }
                assert(t != close_word()) by {
                    if t == close_word() {
                        assert(tok@.len() == 1 && tok@[0] == ')');
                    }
                }
                let item = classify_token(tok, instruction_set);
                PushParser::rec_push(&mut program, item, depth);
            }
            i += 1;
        }
        assert(all.subrange(0, i as int) =~= all);
        if depth != 0 {
            return Err(ParseError::UnbalancedParentheses);
        }
        let mut rest: Vec<Item> = Vec::new();
        std::mem::swap(&mut rest, &mut push_state.exec_stack.values);
        let mut values = program.values;
        let ghost pv = values@;
        let ghost ev = rest@;
        values.append(&mut rest);
        push_state.exec_stack.values = values;
        assert(push_state.exec_stack.values@ =~= pv + ev);
        assert(models(pv + ev) =~= models(pv) + models(ev));
        Ok(())
    }

    /// Inserts `item` at the bottom of the list open at nesting `depth` (see
    /// `front_pushed`); returns false, changing nothing, when there is no such list.
    pub fn rec_push(stack: &mut PushStack<Item>, item: Item, depth: usize) -> (r: bool)
        ensures
            r == front_pushed(old(stack).view(), item.model(), depth as nat) is Some,
            r ==> final(stack).view() == front_pushed(old(stack).view(), item.model(), depth as nat)->0,
            !r ==> final(stack).view() == old(stack).view(),
        decreases depth,
    {
        if depth == 0 {
            stack.push_front(item);
            return true;
        }
        if stack.values.len() == 0 {
            stack.push(item);
            return true;
        }
        let bottom = stack.values.remove(0);
        let ghost rest = stack.values@;
        assert(old(stack).values@ =~= seq![bottom] + rest);
        match bottom {
            Item::List { items } => {
                let mut inner = items;
                proof {
                    lemma_item_models(inner.values@);
                }
                let ok = PushParser::rec_push(&mut inner, item, depth - 1);
                proof {
                    lemma_item_models(inner.values@);
                }
                let ghost new_bottom = Item::List { items: inner };
                stack.values.insert(0, Item::List { items: inner });
                assert(stack.values@ =~= seq![new_bottom] + rest);
                assert(stack.view() =~= if ok {
                    old(stack).view().update(0, new_bottom.model())
                } else {
                    old(stack).view()
                });
                ok
            },
            other => {
                stack.values.insert(0, other);
                assert(stack.values@ =~= old(stack).values@);
                false
            },
        }
    }
}

} // verus!
