use vstd::prelude::*;
use crate::instructions::InstructionCache;
use crate::item::{Item, ItemModel, ValueModel, item_models, lemma_item_models_index};
use crate::names::{
    do_range_name, do_range_string, exec_y_name, exec_y_string, integer_pop_name,
    integer_pop_string,
};
use crate::render::item_text;
use crate::state::{PushState, StateModel, with_bools, with_exec, with_ints};
use crate::stack::{index_of_depth, shoved, yanked};

verus! {

pub open spec fn int_item(n: int) -> ItemModel {
    ItemModel::Literal(ValueModel::Int(n as i32))
}

/// The item `( <current> <destination> EXEC.DO*RANGE <body> )`, listed bottom
/// to top.
pub open spec fn range_loop(body: ItemModel, destination: int, current: int) -> ItemModel {
    ItemModel::List(
        seq![
            body,
            ItemModel::Instruction(do_range_name()),
            int_item(destination),
            int_item(current),
        ],
    )
}

fn range_loop_item(body: Item, destination: i32, current: i32) -> (r: Item)
    ensures
        r.model() == range_loop(body.model(), destination as int, current as int),
{
    let ghost b = body.model();
    let v = vec![body, Item::instruction(do_range_string()), Item::integer(destination), Item::integer(current)];
    proof {
        lemma_item_models_index(v@);
        assert(item_models(v@) =~= seq![
            b,
            ItemModel::Instruction(do_range_name()),
            int_item(destination as int),
            int_item(current as int),
        ]);
    }
    Item::list(v)
}

/// The effect of each EXEC instruction, as a relation between the state
/// models before and after it.
pub open spec fn exec_eq_result(m: StateModel, after: StateModel) -> bool {
    let e = m.execution;
    &&& e.len() < 2 ==> after == m
    &&& e.len() >= 2 ==> after == with_bools(
        m,
        m.bools.push(item_text(e[e.len() - 1]) == item_text(e[e.len() - 2])),
    )
}

pub open spec fn exec_define_result(m: StateModel, after: StateModel) -> bool {
    &&& (m.names.len() == 0 || m.execution.len() == 0) ==> after == m
    &&& (m.names.len() > 0 && m.execution.len() > 0) ==> after == (
    StateModel {
        names: m.names.drop_last(),
        execution: m.execution.drop_last(),
        bindings: m.bindings.insert(m.names.last(), m.execution.last()),
        ..m
    })
}

pub open spec fn exec_do_count_result(m: StateModel, after: StateModel) -> bool {
    let go = m.ints.len() > 0 && m.execution.len() > 0 && m.ints.last() > 0;
    &&& !go ==> after == m
    &&& go ==> after == (StateModel {
        ints: m.ints.drop_last(),
        execution: m.execution.drop_last().push(
            range_loop(m.execution.last(), m.ints.last() - 1, 0),
        ),
        ..m
    })
}

pub open spec fn exec_do_range_result(m: StateModel, after: StateModel) -> bool {
    let i = m.ints;
    let e = m.execution;
    let go = i.len() >= 2 && e.len() > 0;
    let current = i[i.len() - 2] as int;
    let destination = i[i.len() - 1] as int;
    let next = if current < destination { current + 1 } else { current - 1 };
    &&& !go ==> after == m
    &&& go && current == destination ==> after == with_ints(
        m,
        i.subrange(0, i.len() - 2).push(current as i32),
    )
    &&& go && current != destination ==> after == (StateModel {
        ints: i.subrange(0, i.len() - 2).push(current as i32),
        execution: e.drop_last().push(range_loop(e.last(), destination, next)).push(
            e.last(),
        ),
        ..m
    })
}

pub open spec fn exec_do_times_result(m: StateModel, after: StateModel) -> bool {
    let i = m.ints;
    let e = m.execution;
    let go = i.len() >= 2 && e.len() > 0;
    &&& !go ==> after == m
    &&& go ==> after == (StateModel {
        ints: i.subrange(0, i.len() - 2),
        execution: e.drop_last().push(
            range_loop(
                ItemModel::List(
                    seq![e.last(), ItemModel::Instruction(integer_pop_name())],
                ),
                i[i.len() - 1] as int,
                i[i.len() - 2] as int,
            ),
        ),
        ..m
    })
}

pub open spec fn exec_dup_result(m: StateModel, after: StateModel) -> bool {
    let e = m.execution;
    &&& e.len() == 0 ==> after == m
    &&& e.len() > 0 ==> after == with_exec(m, e.push(e.last()))
}

pub open spec fn exec_if_result(m: StateModel, after: StateModel) -> bool {
    let e = m.execution;
    let go = e.len() >= 2 && m.bools.len() > 0;
    let kept = if m.bools.last() { e[e.len() - 2] } else { e[e.len() - 1] };
    &&& !go ==> after == m
    &&& go ==> after == (StateModel {
        bools: m.bools.drop_last(),
        execution: e.subrange(0, e.len() - 2).push(kept),
        ..m
    })
}

pub open spec fn exec_k_result(m: StateModel, after: StateModel) -> bool {
    let e = m.execution;
    &&& e.len() < 2 ==> after == m
    &&& e.len() >= 2 ==> after == with_exec(
        m,
        e.subrange(0, e.len() - 2).push(e.last()),
    )
}

pub open spec fn exec_pop_result(m: StateModel, after: StateModel) -> bool {
    &&& m.execution.len() == 0 ==> after == m
    &&& m.execution.len() > 0 ==> after == with_exec(
        m,
        m.execution.drop_last(),
    )
}

pub open spec fn exec_rot_result(m: StateModel, after: StateModel) -> bool {
    &&& m.execution.len() < 3 ==> after == m
    &&& m.execution.len() >= 3 ==> after == with_exec(
        m,
        yanked(m.execution, 2),
    )
}

pub open spec fn exec_s_result(m: StateModel, after: StateModel) -> bool {
    let e = m.execution;
    let n = e.len();
    &&& n < 3 ==> after == m
    &&& n >= 3 ==> after == with_exec(
        m,
        e.subrange(0, n - 3).push(ItemModel::List(seq![e[n - 3], e[n - 2]])).push(
            e[n - 3],
        ).push(e[n - 1]),
    )
}

pub open spec fn exec_shove_result(m: StateModel, after: StateModel) -> bool {
    let e = m.execution;
    let d = m.ints.last() as int;
    &&& (m.ints.len() == 0 || e.len() == 0) ==> after == m
    &&& m.ints.len() > 0 && 0 <= d < e.len() ==> after == (StateModel {
        ints: m.ints.drop_last(),
        execution: shoved(e, d),
        ..m
    })
    &&& m.ints.len() > 0 && e.len() > 0 && !(0 <= d < e.len()) ==> after == with_ints(
        m,
        m.ints.drop_last(),
    )
}

pub open spec fn exec_stack_depth_result(m: StateModel, after: StateModel) -> bool {
    let n = if m.execution.len() > i32::MAX { i32::MAX as int } else { m.execution.len() as int };
    after == with_ints(m, m.ints.push(n as i32))
}

pub open spec fn exec_swap_result(m: StateModel, after: StateModel) -> bool {
    &&& m.execution.len() < 2 ==> after == m
    &&& m.execution.len() >= 2 ==> after == with_exec(
        m,
        shoved(m.execution, 1),
    )
}

pub open spec fn exec_y_result(m: StateModel, after: StateModel) -> bool {
    let e = m.execution;
    &&& e.len() == 0 ==> after == m
    &&& e.len() > 0 ==> after == with_exec(
        m,
        e.drop_last().push(
            ItemModel::List(seq![e.last(), ItemModel::Instruction(exec_y_name())]),
        ).push(e.last()),
    )
}

pub open spec fn exec_yank_result(m: StateModel, after: StateModel) -> bool {
    let e = m.execution;
    let d = m.ints.last() as int;
    &&& (m.ints.len() == 0 || e.len() == 0) ==> after == m
    &&& m.ints.len() > 0 && 0 <= d < e.len() ==> after == (StateModel {
        ints: m.ints.drop_last(),
        execution: yanked(e, d),
        ..m
    })
    &&& m.ints.len() > 0 && e.len() > 0 && !(0 <= d < e.len()) ==> after == with_ints(
        m,
        m.ints.drop_last(),
    )
}

pub open spec fn exec_yank_dup_result(m: StateModel, after: StateModel) -> bool {
    let e = m.execution;
    let d = m.ints.last() as int;
    &&& (m.ints.len() == 0 || e.len() == 0) ==> after == m
    &&& m.ints.len() > 0 && 0 <= d < e.len() ==> after == (StateModel {
        ints: m.ints.drop_last(),
        execution: e.push(e[index_of_depth(e.len() as int, d)]),
        ..m
    })
    &&& m.ints.len() > 0 && e.len() > 0 && !(0 <= d < e.len()) ==> after == with_ints(
        m,
        m.ints.drop_last(),
    )
}

pub open spec fn exec_flush_result(m: StateModel, after: StateModel) -> bool {
    after == with_exec(m, Seq::empty())
}

/// EXEC.=: pushes whether the top two EXEC items have the same text; the EXEC
/// stack is left as it is.
pub fn exec_eq(push_state: &mut PushState, _instruction_cache: &InstructionCache)
    ensures
        exec_eq_result(old(push_state).model(), final(push_state).model()),
{
    if let Some(pv) = push_state.exec_stack.copy_vec(2) {
        let ghost e = old(push_state).model().execution;
        proof {
            assert(crate::stack::models(pv@).len() == 2);
            assert(pv@.len() == 2);
            assert(pv@[0].model() == crate::stack::models(pv@)[0]);
            assert(pv@[1].model() == crate::stack::models(pv@)[1]);
        }
        let same = pv[0].to_string() == pv[1].to_string();
        push_state.bool_stack.push(same);
        assert(final(push_state).model() =~= with_bools(
            old(push_state).model(),
            old(push_state).model().bools.push(item_text(e[e.len() - 1]) == item_text(e[e.len() - 2])),
        ));
    }
}

/// EXEC.DEFINE: binds the top NAME to the top EXEC item, popping both.
pub fn exec_define(push_state: &mut PushState, _instruction_cache: &InstructionCache)
    ensures
        exec_define_result(old(push_state).model(), final(push_state).model()),
{
    if push_state.name_stack.size() > 0 && push_state.exec_stack.size() > 0 {
        let name = push_state.name_stack.pop().unwrap();
        let item = push_state.exec_stack.pop().unwrap();
        push_state.name_bindings.insert(name, item);
    }
}

/// EXEC.DO*COUNT: for a positive count `n` on the INTEGER stack, replaces the
/// body on top of EXEC by `( 0 <n - 1> EXEC.DO*RANGE <body> )`, a loop that runs
/// the body `n` times; any other count leaves the state as it is.
pub fn exec_do_count(push_state: &mut PushState, _instruction_cache: &InstructionCache)
    ensures
        exec_do_count_result(old(push_state).model(), final(push_state).model()),
{
    let n = push_state.int_stack.size();
    if n == 0 || push_state.exec_stack.size() == 0 {
        return;
    }
    let count = push_state.int_stack.values[n - 1];
    if count <= 0 {
        return;
    }
    push_state.int_stack.pop();
    let body = push_state.exec_stack.pop().unwrap();
    push_state.exec_stack.push(range_loop_item(body, count - 1, 0));
}

/// EXEC.DO*RANGE: with the current index under the destination index on the
/// INTEGER stack and a body on top of EXEC, pushes the current index; if it
/// equals the destination the body runs once more, else the body runs above
/// `( <next> <destination> EXEC.DO*RANGE <body> )`, the next index one step
/// closer to the destination.
pub fn exec_do_range(push_state: &mut PushState, _instruction_cache: &InstructionCache)
    ensures
        exec_do_range_result(old(push_state).model(), final(push_state).model()),
{
    if push_state.int_stack.size() < 2 || push_state.exec_stack.size() == 0 {
        return;
    }
    let body = push_state.exec_stack.pop().unwrap();
    let indices = push_state.int_stack.pop_vec(2).unwrap();
    proof {
        assert(crate::stack::models(indices@).len() == 2);
        assert(indices@[0] == crate::stack::models(indices@)[0]);
        assert(indices@[1] == crate::stack::models(indices@)[1]);
    }
    let destination = indices[1];
    let current = indices[0];
    push_state.int_stack.push(current);
    if current == destination {
        push_state.exec_stack.push(body);
        assert(push_state.model().execution =~= old(push_state).model().execution);
    } else {
        let next = if current < destination { current + 1 } else { current - 1 };
        let copy = body.copy_item();
        push_state.exec_stack.push(range_loop_item(copy, destination, next));
        push_state.exec_stack.push(body);
    }
}

/// EXEC.DO*TIMES: with two indices and a body, replaces the body by
/// `( <current> <destination> EXEC.DO*RANGE ( INTEGER.POP <body> ) )`: a range
/// loop whose counter is dropped before each run of the body.
pub fn exec_do_times(push_state: &mut PushState, _instruction_cache: &InstructionCache)
    ensures
        exec_do_times_result(old(push_state).model(), final(push_state).model()),
{
    if push_state.int_stack.size() < 2 || push_state.exec_stack.size() == 0 {
        return;
    }
    let indices = push_state.int_stack.pop_vec(2).unwrap();
    let body = push_state.exec_stack.pop().unwrap();
    proof {
        assert(crate::stack::models(indices@).len() == 2);
        assert(indices@[0] == crate::stack::models(indices@)[0]);
        assert(indices@[1] == crate::stack::models(indices@)[1]);
    }
    let ghost b = body.model();
    let inner = vec![body, Item::instruction(integer_pop_string())];
    proof {
        lemma_item_models_index(inner@);
        assert(item_models(inner@) =~= seq![b, ItemModel::Instruction(integer_pop_name())]);
    }
    push_state.exec_stack.push(range_loop_item(Item::list(inner), indices[1], indices[0]));
}

/// EXEC.DUP: pushes a copy of the top EXEC item.
pub fn exec_dup(push_state: &mut PushState, _instruction_cache: &InstructionCache)
    ensures
        exec_dup_result(old(push_state).model(), final(push_state).model()),
{
    if let Some(instruction) = push_state.exec_stack.copy(0) {
        push_state.exec_stack.push(instruction);
    }
}

/// EXEC.FLUSH: empties the EXEC stack.
pub fn exec_flush(push_state: &mut PushState, _instruction_cache: &InstructionCache)
    ensures
        exec_flush_result(old(push_state).model(), final(push_state).model()),
{
    push_state.exec_stack.flush();
}

/// EXEC.IF: pops the top two EXEC items and the top BOOLEAN; TRUE keeps the
/// item that was second from the top, FALSE the former top item.
pub fn exec_if(push_state: &mut PushState, _instruction_cache: &InstructionCache)
    ensures
        exec_if_result(old(push_state).model(), final(push_state).model()),
{
    if push_state.exec_stack.size() < 2 || push_state.bool_stack.size() == 0 {
        return;
    }
    let mut code = push_state.exec_stack.pop_vec(2).unwrap();
    let exec_first = push_state.bool_stack.pop().unwrap();
    proof {
        assert(crate::stack::models(code@).len() == 2);
        assert(code@[0].model() == crate::stack::models(code@)[0]);
        assert(code@[1].model() == crate::stack::models(code@)[1]);
    }
    let top = code.pop().unwrap();
    let second = code.pop().unwrap();
    if exec_first {
        push_state.exec_stack.push(second);
    } else {
        push_state.exec_stack.push(top);
    }
}

/// EXEC.K: removes the second EXEC item.
pub fn exec_k(push_state: &mut PushState, _instruction_cache: &InstructionCache)
    ensures
        exec_k_result(old(push_state).model(), final(push_state).model()),
{
    if push_state.exec_stack.size() < 2 {
        return;
    }
    let top = push_state.exec_stack.pop().unwrap();
    push_state.exec_stack.pop();
    push_state.exec_stack.push(top);
    assert(push_state.model().execution =~= old(push_state).model().execution.subrange(
        0,
        old(push_state).model().execution.len() - 2,
    ).push(old(push_state).model().execution.last()));
}

/// EXEC.POP: removes the top EXEC item.
pub fn exec_pop(push_state: &mut PushState, _instruction_cache: &InstructionCache)
    ensures
        exec_pop_result(old(push_state).model(), final(push_state).model()),
{
    push_state.exec_stack.pop();
}

/// EXEC.ROT: moves the third EXEC item to the top.
pub fn exec_rot(push_state: &mut PushState, _instruction_cache: &InstructionCache)
    ensures
        exec_rot_result(old(push_state).model(), final(push_state).model()),
{
    push_state.exec_stack.yank(2);
}

/// EXEC.S: pops A, B and C (A on top), then pushes the list `( B C )`, then C,
/// then A.
pub fn exec_s(push_state: &mut PushState, _instruction_cache: &InstructionCache)
    ensures
        exec_s_result(old(push_state).model(), final(push_state).model()),
{
    if push_state.exec_stack.size() < 3 {
        return;
    }
    let a = push_state.exec_stack.pop().unwrap();
    let b = push_state.exec_stack.pop().unwrap();
    let c = push_state.exec_stack.pop().unwrap();
    let ghost bm = b.model();
    let ghost cm = c.model();
    let c_copy = c.copy_item();
    let bc = vec![c, b];
    proof {
        lemma_item_models_index(bc@);
        assert(item_models(bc@) =~= seq![cm, bm]);
    }
    push_state.exec_stack.push(Item::list(bc));
    push_state.exec_stack.push(c_copy);
    push_state.exec_stack.push(a);
    let ghost e = old(push_state).model().execution;
    assert(push_state.model().execution =~= e.subrange(0, e.len() - 3).push(
        ItemModel::List(seq![e[e.len() - 3], e[e.len() - 2]]),
    ).push(e[e.len() - 3]).push(e[e.len() - 1]));
}

/// EXEC.SHOVE: pops a depth from INTEGER and moves the top EXEC item that many
/// places down; a negative or too large depth moves nothing, and with EXEC
/// empty nothing is popped.
pub fn exec_shove(push_state: &mut PushState, _instruction_cache: &InstructionCache)
    ensures
        exec_shove_result(old(push_state).model(), final(push_state).model()),
{
    if push_state.exec_stack.size() == 0 {
        return;
    }
    if let Some(new_pos) = push_state.int_stack.pop() {
        if new_pos >= 0 {
            push_state.exec_stack.shove(new_pos as usize);
        }
    }
}

/// EXEC.STACKDEPTH: pushes the number of EXEC items (at most `i32::MAX`).
pub fn exec_stack_depth(push_state: &mut PushState, _instruction_cache: &InstructionCache)
    ensures
        exec_stack_depth_result(old(push_state).model(), final(push_state).model()),
{
    let size = push_state.exec_stack.size();
    let n: i32 = if size > i32::MAX as usize { i32::MAX } else { size as i32 };
    push_state.int_stack.push(n);
}

/// EXEC.SWAP: swaps the top two EXEC items.
pub fn exec_swap(push_state: &mut PushState, _instruction_cache: &InstructionCache)
    ensures
        exec_swap_result(old(push_state).model(), final(push_state).model()),
{
    push_state.exec_stack.shove(1);
}

/// EXEC.Y: inserts `( EXEC.Y <top> )` beneath the top EXEC item.
pub fn exec_y(push_state: &mut PushState, _instruction_cache: &InstructionCache)
    ensures
        exec_y_result(old(push_state).model(), final(push_state).model()),
{
    if let Some(top_item) = push_state.exec_stack.copy(0) {
        let ghost t = top_item.model();
        let v = vec![top_item, Item::instruction(exec_y_string())];
        proof {
            lemma_item_models_index(v@);
            assert(item_models(v@) =~= seq![t, ItemModel::Instruction(exec_y_name())]);
        }
        push_state.exec_stack.push(Item::list(v));
        push_state.exec_stack.shove(1);
        let ghost e = old(push_state).model().execution;
        assert(push_state.model().execution =~= e.drop_last().push(
            ItemModel::List(seq![e.last(), ItemModel::Instruction(exec_y_name())]),
        ).push(e.last()));
    }
}

/// EXEC.YANK: pops a depth from INTEGER and moves the EXEC item at that depth
/// to the top; a negative or too large depth moves nothing, and with EXEC empty
/// nothing is popped.
pub fn exec_yank(push_state: &mut PushState, _instruction_cache: &InstructionCache)
    ensures
        exec_yank_result(old(push_state).model(), final(push_state).model()),
{
    if push_state.exec_stack.size() == 0 {
        return;
    }
    if let Some(idx) = push_state.int_stack.pop() {
        if idx >= 0 {
            push_state.exec_stack.yank(idx as usize);
        }
    }
}

/// EXEC.YANKDUP: pops a depth from INTEGER and pushes a copy of the EXEC item
/// at that depth; a negative or too large depth copies nothing, and with EXEC
/// empty nothing is popped.
pub fn exec_yank_dup(push_state: &mut PushState, _instruction_cache: &InstructionCache)
    ensures
        exec_yank_dup_result(old(push_state).model(), final(push_state).model()),
{
    if push_state.exec_stack.size() == 0 {
        return;
    }
    if let Some(idx) = push_state.int_stack.pop() {
        if idx >= 0 {
            if let Some(deep_item) = push_state.exec_stack.copy(idx as usize) {
                push_state.exec_stack.push(deep_item);
            }
        }
    }
}

} // verus!
