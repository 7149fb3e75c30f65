use vstd::prelude::*;
use crate::instructions::{Op, op_result};
use crate::interpreter::step_result;
use crate::item::ItemModel;
use crate::lexer::{is_space, lemma_tokenize_append, lemma_tokenize_space, tokenize};
use crate::parser::{classify, close_word, open_word, parse_tokens, parsed};
use crate::state::StateModel;

verus! {

/// Parsing the tokens `( a b c )`, whatever `a`, `b` and `c` stand for, gives a
/// single list whose elements run `a`, `b`, `c` from the top: left to right
/// order is kept.
pub proof fn lemma_parse_list_order(
    a: Seq<char>,
    b: Seq<char>,
    c: Seq<char>,
    known: Map<Seq<char>, Op>,
)
    requires
        a != open_word() && a != close_word(),
        b != open_word() && b != close_word(),
        c != open_word() && c != close_word(),
    ensures
        parse_tokens(seq![open_word(), a, b, c, close_word()], known) == Some((
            seq![ItemModel::List(seq![classify(c, known), classify(b, known), classify(a, known)])],
            0nat,
        )),
{
    let t = seq![open_word(), a, b, c, close_word()];
    assert(t.drop_last() =~= seq![open_word(), a, b, c]);
    assert(t.drop_last().drop_last() =~= seq![open_word(), a, b]);
    assert(t.drop_last().drop_last().drop_last() =~= seq![open_word(), a]);
    assert(t.drop_last().drop_last().drop_last().drop_last() =~= seq![open_word()]);
    assert(seq![open_word()].drop_last() =~= Seq::<Seq<char>>::empty());
    let empty = ItemModel::List(Seq::empty());
    assert(seq![empty] + Seq::<ItemModel>::empty() =~= seq![empty]);
    let xa = classify(a, known);
    let xb = classify(b, known);
    let xc = classify(c, known);
    assert(seq![xa] + Seq::<ItemModel>::empty() =~= seq![xa]);
    assert(seq![xb] + seq![xa] =~= seq![xb, xa]);
    assert(seq![xc] + seq![xb, xa] =~= seq![xc, xb, xa]);
    assert(seq![empty].update(0, ItemModel::List(seq![xa])) =~= seq![ItemModel::List(seq![xa])]);
    assert(seq![ItemModel::List(seq![xa])].update(0, ItemModel::List(seq![xb, xa])) =~= seq![ItemModel::List(seq![xb, xa])]);
    assert(seq![ItemModel::List(seq![xb, xa])].update(0, ItemModel::List(seq![xc, xb, xa])) =~= seq![ItemModel::List(seq![xc, xb, xa])]);
    assert(parse_tokens(Seq::<Seq<char>>::empty(), known) == Some((Seq::<ItemModel>::empty(), 0nat)));
    assert(seq![open_word(), a, b].drop_last() =~= seq![open_word(), a]);
    assert(seq![open_word(), a, b, c].drop_last() =~= seq![open_word(), a, b]);
    assert(seq![open_word(), a].drop_last() =~= seq![open_word()]);
    assert(crate::parser::front_pushed(Seq::<ItemModel>::empty(), xa, 0) == Some(seq![xa]));
    assert(crate::parser::front_pushed(seq![empty], xa, 1) == Some(seq![ItemModel::List(seq![xa])]));
    assert(crate::parser::front_pushed(Seq::<ItemModel>::empty(), empty, 0) == Some(seq![empty]));
    assert(crate::parser::front_pushed(seq![xa], xb, 0) == Some(seq![xb, xa]));
    assert(crate::parser::front_pushed(seq![ItemModel::List(seq![xa])], xb, 1) == Some(seq![ItemModel::List(seq![xb, xa])]));
    assert(crate::parser::front_pushed(seq![xb, xa], xc, 0) == Some(seq![xc, xb, xa]));
    assert(crate::parser::front_pushed(seq![ItemModel::List(seq![xb, xa])], xc, 1) == Some(seq![ItemModel::List(seq![xc, xb, xa])]));
    assert(parse_tokens(seq![open_word()], known) == Some((seq![empty], 1nat)));
    assert(parse_tokens(seq![open_word(), a], known) == Some((seq![ItemModel::List(seq![xa])], 1nat)));
    assert(parse_tokens(seq![open_word(), a, b], known) == Some((seq![ItemModel::List(seq![xb, xa])], 1nat)));
    assert(parse_tokens(seq![open_word(), a, b, c], known) == Some((seq![ItemModel::List(seq![xc, xb, xa])], 1nat)));
}

/// The source text `( a b c )`, for any tokens `a`, `b`, `c` without
/// whitespace other than a lone parenthesis, parses to a single list whose
/// elements run `a`, `b`, `c` from the top, whatever each token stands for.
pub proof fn lemma_parse_source_list_order(
    a: Seq<char>,
    b: Seq<char>,
    c: Seq<char>,
    known: Map<Seq<char>, Op>,
)
    requires
        a.len() > 0 && b.len() > 0 && c.len() > 0,
        forall|i: int| 0 <= i < a.len() ==> !is_space(#[trigger] a[i]),
        forall|i: int| 0 <= i < b.len() ==> !is_space(#[trigger] b[i]),
        forall|i: int| 0 <= i < c.len() ==> !is_space(#[trigger] c[i]),
        a != open_word() && a != close_word(),
        b != open_word() && b != close_word(),
        c != open_word() && c != close_word(),
    ensures
        parsed(open_word() + seq![' '] + a + seq![' '] + b + seq![' '] + c + seq![' '] + close_word(), known)
            == Some(seq![ItemModel::List(seq![classify(c, known), classify(b, known), classify(a, known)])]),
{
    let e = Seq::<char>::empty();
    let s0 = open_word();
    assert(e + s0 =~= s0);
    lemma_tokenize_append(e, s0);
    assert(tokenize(e) == Seq::<Seq<char>>::empty());
    let s1 = s0 + seq![' '];
    assert(s1 =~= s0.push(' '));
    lemma_tokenize_space(s0, ' ');
    let s2 = s1 + a;
    lemma_tokenize_append(s1, a);
    let s3 = s2 + seq![' '];
    assert(s3 =~= s2.push(' '));
    lemma_tokenize_space(s2, ' ');
    let s4 = s3 + b;
    lemma_tokenize_append(s3, b);
    let s5 = s4 + seq![' '];
    assert(s5 =~= s4.push(' '));
    lemma_tokenize_space(s4, ' ');
    let s6 = s5 + c;
    lemma_tokenize_append(s5, c);
    let s7 = s6 + seq![' '];
    assert(s7 =~= s6.push(' '));
    lemma_tokenize_space(s6, ' ');
    let s8 = s7 + close_word();
    lemma_tokenize_append(s7, close_word());
    assert(tokenize(s8) =~= seq![open_word(), a, b, c, close_word()]);
    lemma_parse_list_order(a, b, c, known);
}

/// One step on a list on top of EXEC puts its elements back onto EXEC, its
/// first element on top, the rest of EXEC beneath and every other stack as it was.
pub proof fn lemma_list_step(
    m: StateModel,
    xs: Seq<ItemModel>,
    known: Map<Seq<char>, Op>,
    after: StateModel,
)
    requires
        m.execution.len() > 0,
        m.execution.last() == ItemModel::List(xs),
        step_result(m, known, after),
    ensures
        after.execution == m.execution.drop_last() + xs,
        after == (StateModel { execution: m.execution.drop_last() + xs, ..m }),
{
}

/// Whether the stacks of `m` hold fewer operands than `op` needs.
pub open spec fn underflows(op: Op, m: StateModel) -> bool {
    match op {
        Op::Noop | Op::ExecFlush | Op::ExecStackDepth => false,
        Op::ExecEq | Op::ExecK | Op::ExecSwap => m.execution.len() < 2,
        Op::ExecDefine => m.names.len() == 0 || m.execution.len() == 0,
        Op::ExecDoCount => m.ints.len() == 0 || m.execution.len() == 0,
        Op::ExecDoRange | Op::ExecDoTimes => m.ints.len() < 2 || m.execution.len() == 0,
        Op::ExecDup | Op::ExecPop | Op::ExecY => m.execution.len() == 0,
        Op::ExecIf => m.execution.len() < 2 || m.bools.len() == 0,
        Op::ExecRot | Op::ExecS => m.execution.len() < 3,
        Op::ExecShove | Op::ExecYank | Op::ExecYankDup => m.ints.len() == 0 || m.execution.len() == 0,
        Op::ListGet => m.ints.len() == 0 || m.code.len() == 0,
        Op::ListSet => m.ints.len() == 0 || m.code.len() == 0 || m.int_vectors.len() == 0,
        Op::ListAdd => m.int_vectors.len() == 0,
        Op::ListNeighbors => m.ints.len() < 3 || m.floats.len() == 0,
        Op::IntegerAdd | Op::IntegerSub | Op::IntegerMul | Op::IntegerLess | Op::IntegerGreater
        | Op::IntegerEq => m.ints.len() < 2,
        Op::IntegerDup | Op::IntegerPop => m.ints.len() == 0,
        Op::BooleanAnd | Op::BooleanOr => m.bools.len() < 2,
        Op::BooleanNot => m.bools.len() == 0,
        Op::FloatAdd | Op::FloatMul => m.floats.len() < 2,
        Op::FloatDefine => m.names.len() == 0 || m.floats.len() == 0,
        Op::CodeQuote => m.execution.len() == 0,
        Op::CodeDup | Op::CodePop | Op::CodeDo => m.code.len() == 0,
        Op::CodeIf => m.code.len() < 2 || m.bools.len() == 0,
    }
}

/// An instruction run on stacks that hold fewer operands than it needs leaves
/// every stack and binding as it was.
pub proof fn lemma_underflow_is_noop(op: Op, m: StateModel, after: StateModel)
    requires
        underflows(op, m),
        op_result(op, m, after),
    ensures
        after == m,
{
}

} // verus!
