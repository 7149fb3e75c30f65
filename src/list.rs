use vstd::prelude::*;
use crate::instructions::InstructionCache;
use crate::item::{Item, ItemModel, ValueModel, item_models};
use crate::stack::{index_of_depth, models};
use crate::state::{PushState, StateModel, with_bools, with_code, with_exec, with_ints};
use crate::topology::{find_neighbors, neighbors};

verus! {

pub const BOOL_STACK_ID: i32 = 1;
pub const BOOL_VECTOR_STACK_ID: i32 = 2;
pub const CODE_STACK_ID: i32 = 3;
pub const EXEC_STACK_ID: i32 = 4;
pub const FLOAT_STACK_ID: i32 = 5;
pub const FLOAT_VECTOR_STACK_ID: i32 = 6;
pub const NAME_STACK_ID: i32 = 7;
pub const INT_VECTOR_STACK_ID: i32 = 8;
pub const INT_STACK_ID: i32 = 9;

/// Pops the top value of the stack named by `id`, as an item; nothing when
/// that stack is empty or `id` names no stack.
pub open spec fn take_one(m: StateModel, id: i32) -> (StateModel, Option<ItemModel>) {
    if id == BOOL_STACK_ID && m.bools.len() > 0 {
        (with_bools(m, m.bools.drop_last()), Some(ItemModel::Literal(ValueModel::Bool(m.bools.last()))))
    } else if id == BOOL_VECTOR_STACK_ID && m.bool_vectors.len() > 0 {
        (
            StateModel { bool_vectors: m.bool_vectors.drop_last(), ..m },
            Some(ItemModel::Literal(ValueModel::BoolVec(m.bool_vectors.last()))),
        )
    } else if id == CODE_STACK_ID && m.code.len() > 0 {
        (with_code(m, m.code.drop_last()), Some(m.code.last()))
    } else if id == EXEC_STACK_ID && m.execution.len() > 0 {
        (with_exec(m, m.execution.drop_last()), Some(m.execution.last()))
    } else if id == FLOAT_STACK_ID && m.floats.len() > 0 {
        (
            StateModel { floats: m.floats.drop_last(), ..m },
            Some(ItemModel::Literal(ValueModel::Float(m.floats.last()))),
        )
    } else if id == FLOAT_VECTOR_STACK_ID && m.float_vectors.len() > 0 {
        (
            StateModel { float_vectors: m.float_vectors.drop_last(), ..m },
            Some(ItemModel::Literal(ValueModel::FloatVec(m.float_vectors.last()))),
        )
    } else if id == INT_STACK_ID && m.ints.len() > 0 {
        (with_ints(m, m.ints.drop_last()), Some(ItemModel::Literal(ValueModel::Int(m.ints.last()))))
    } else if id == INT_VECTOR_STACK_ID && m.int_vectors.len() > 0 {
        (
            StateModel { int_vectors: m.int_vectors.drop_last(), ..m },
            Some(ItemModel::Literal(ValueModel::IntVec(m.int_vectors.last()))),
        )
    } else if id == NAME_STACK_ID && m.names.len() > 0 {
        (
            StateModel { names: m.names.drop_last(), ..m },
            Some(ItemModel::Identifier(m.names.last())),
        )
    } else {
        (m, None)
    }
}

/// Takes one value for each stack id in turn, first id first, skipping ids
/// whose stack is empty; gives the state left and the items taken, in order.
pub open spec fn gather(m: StateModel, ids: Seq<i32>) -> (StateModel, Seq<ItemModel>)
    decreases ids.len(),
{
    if ids.len() == 0 {
        (m, Seq::empty())
    } else {
        let (m1, items) = gather(m, ids.drop_last());
        let (m2, o) = take_one(m1, ids.last());
        (m2, if o is Some { items.push(o->0) } else { items })
    }
}

/// The state and items `generate_list` leaves: `None` when the INTVECTOR stack
/// is empty.
pub open spec fn generated(m: StateModel) -> Option<(StateModel, Seq<ItemModel>)> {
    if m.int_vectors.len() == 0 {
        None
    } else {
        Some(gather(StateModel { int_vectors: m.int_vectors.drop_last(), ..m }, m.int_vectors.last()))
    }
}

/// Pops the top INTVECTOR and, for each stack id in it, pops that stack's top
/// value as an item; returns the items in the order of the ids.
pub fn generate_list(push_state: &mut PushState) -> (r: Option<Vec<Item>>)
    ensures
        generated(old(push_state).model()) is None ==> r is None && final(push_state).model()
            == old(push_state).model(),
        generated(old(push_state).model()) is Some ==> r is Some && (final(push_state).model(),
            item_models(r->0@)) == generated(old(push_state).model())->0,
{
    let stack_ids = match push_state.int_vector_stack.pop() {
        Some(v) => v,
        None => return None,
    };
    let ghost start = push_state.model();
    assert(start == (StateModel { int_vectors: old(push_state).model().int_vectors.drop_last(), ..old(push_state).model() }));
    let ids = &stack_ids.values;
    let mut items: Vec<Item> = Vec::new();
    let mut i: usize = 0;
    assert(ids@.subrange(0, 0) =~= Seq::<i32>::empty());
    while i < ids.len()
        invariant
            i <= ids@.len(),
            (push_state.model(), item_models(items@)) == gather(start, ids@.subrange(0, i as int)),
        decreases ids@.len() - i,
    {
        let ghost m1 = push_state.model();
        let ghost before = items@;
        let sid = ids[i];
        let taken: Option<Item> = if sid == BOOL_STACK_ID {
            match push_state.bool_stack.pop() { Some(b) => Some(Item::boolean(b)), None => None }
        } else if sid == BOOL_VECTOR_STACK_ID {
            match push_state.bool_vector_stack.pop() { Some(v) => Some(Item::boolvec(v)), None => None }
        } else if sid == CODE_STACK_ID {
            push_state.code_stack.pop()
        } else if sid == EXEC_STACK_ID {
            push_state.exec_stack.pop()
        } else if sid == FLOAT_STACK_ID {
            match push_state.float_stack.pop() { Some(f) => Some(Item::float(f)), None => None }
        } else if sid == FLOAT_VECTOR_STACK_ID {
            match push_state.float_vector_stack.pop() { Some(v) => Some(Item::floatvec(v)), None => None }
        } else if sid == INT_STACK_ID {
            match push_state.int_stack.pop() { Some(n) => Some(Item::integer(n)), None => None }
        } else if sid == INT_VECTOR_STACK_ID {
            match push_state.int_vector_stack.pop() { Some(v) => Some(Item::intvec(v)), None => None }
        } else if sid == NAME_STACK_ID {
            match push_state.name_stack.pop() { Some(n) => Some(Item::name(n)), None => None }
        } else {
            None
        };
        let ghost step = take_one(m1, sid);
        assert(push_state.model() == step.0);
        assert(taken is Some <==> step.1 is Some);
        assert(taken is Some ==> taken->0.model() == step.1->0);
        if let Some(it) = taken {
            items.push(it);
            assert(items@.subrange(0, items@.len() - 1) =~= before);
        }
        assert(ids@.subrange(0, i + 1).drop_last() =~= ids@.subrange(0, i as int));
        i += 1;
    }
    assert(ids@.subrange(0, i as int) =~= ids@);
    Some(items)
}

/// LIST.ADD: pushes onto CODE a list of the items that `generate_list` takes.
pub fn list_add(push_state: &mut PushState, _instruction_cache: &InstructionCache)
    ensures
        list_add_result(old(push_state).model(), final(push_state).model()),
{
    if let Some(items) = generate_list(push_state) {
        let list_item = Item::list(items);
        push_state.code_stack.push(list_item);
    }
}

pub open spec fn list_add_result(m: StateModel, after: StateModel) -> bool {
    match generated(m) {
        None => after == m,
        Some(g) => after == with_code(g.0, g.0.code.push(ItemModel::List(g.1))),
    }
}

/// The depth `index` stands for among `size` items: clamped into `0 .. size - 1`.
pub open spec fn clamped_depth(index: int, size: int) -> int {
    if index >= size { size - 1 } else if index < 0 { 0 } else { index }
}

fn clamp_depth(index: i32, size: usize) -> (r: usize)
    requires
        size > 0,
    ensures
        r == clamped_depth(index as int, size as int),
        r < size,
{
    if index < 0 {
        0
    } else if index as usize >= size {
        size - 1
    } else {
        index as usize
    }
}

pub open spec fn list_get_result(m: StateModel, after: StateModel) -> bool {
    let c = m.code;
    &&& (m.ints.len() == 0 || c.len() == 0) ==> after == m
    &&& m.ints.len() > 0 && c.len() > 0 ==> after == (StateModel {
        ints: m.ints.drop_last(),
        execution: m.execution.push(
            c[index_of_depth(c.len() as int, clamped_depth(m.ints.last() as int, c.len() as int))],
        ),
        ..m
    })
}

/// LIST.GET: pops an index from INTEGER, clamps it to the CODE stack and pushes
/// a copy of the CODE item at that depth onto EXEC; with INTEGER or CODE empty
/// nothing changes.
pub fn list_get(push_state: &mut PushState, _instruction_cache: &InstructionCache)
    ensures
        list_get_result(old(push_state).model(), final(push_state).model()),
{
    let size = push_state.code_stack.size();
    if size == 0 {
        return;
    }
    if let Some(index) = push_state.int_stack.pop() {
        let list_index = clamp_depth(index, size);
        let list = push_state.code_stack.copy(list_index).unwrap();
        push_state.exec_stack.push(list);
    }
}

pub open spec fn list_set_result(m: StateModel, after: StateModel) -> bool {
    let m1 = with_ints(m, m.ints.drop_last());
    let d = clamped_depth(m.ints.last() as int, m.code.len() as int);
    &&& (m.ints.len() == 0 || m.code.len() == 0 || m.int_vectors.len() == 0) ==> after == m
    &&& (m.ints.len() > 0 && m.code.len() > 0 && m.int_vectors.len() > 0) ==> {
        let g = generated(m1)->0;
        let c = g.0.code;
        after == with_code(
            g.0,
            if d < c.len() {
                c.update(index_of_depth(c.len() as int, d), ItemModel::List(g.1))
            } else {
                c
            },
        )
    }
}

/// LIST.SET: pops an index from INTEGER, clamped to the CODE stack as it was
/// then, and replaces the CODE item at that depth by a list of the items that
/// `generate_list` takes; with INTEGER, CODE or INTVECTOR empty nothing changes.
/// When `generate_list` takes from CODE itself the depth may fall past the end,
/// and then nothing is replaced.
pub fn list_set(push_state: &mut PushState, _instruction_cache: &InstructionCache)
    ensures
        list_set_result(old(push_state).model(), final(push_state).model()),
{
    let size = push_state.code_stack.size();
    if size == 0 || push_state.int_stack.size() == 0 || push_state.int_vector_stack.size() == 0 {
        return;
    }
    let index = push_state.int_stack.pop().unwrap();
    let list_index: usize = clamp_depth(index, size);
    let ghost m = old(push_state).model();
    assert(push_state.model() == with_ints(m, m.ints.drop_last()));
    let items = generate_list(push_state).unwrap();
    let list_item = Item::list(items);
    push_state.code_stack.replace(list_index, list_item);
}

pub open spec fn as_ints(s: Seq<nat>) -> Seq<i32> {
    s.map_values(|x: nat| x as i32)
}

pub open spec fn list_neighbors_result(m: StateModel, after: StateModel) -> bool {
    let t = m.ints;
    let n = t.len();
    let size = if t[n - 1] < 0 { 0 } else { t[n - 1] as int };
    let index = if t[n - 2] >= size - 1 { size - 1 } else { t[n - 2] as int };
    let index = if index < 0 { 0 } else { index };
    let dimensions = if t[n - 3] >= size { size } else { t[n - 3] as int };
    let dimensions = if dimensions < 0 { 0 } else { dimensions };
    &&& (n < 3 || m.floats.len() == 0) ==> after == m
    &&& (n >= 3 && m.floats.len() > 0) ==> after == (StateModel {
        ints: t.subrange(0, n - 3) + as_ints(
            neighbors(size as nat, dimensions as nat, index as nat, m.floats.last()),
        ),
        floats: m.floats.drop_last(),
        ..m
    })
}

/// LIST.NEIGHBORS: pops size, index and number of dimensions from INTEGER (size
/// on top) and a radius from FLOAT, clamps them (size at least 0, index into
/// `0 .. size - 1`, dimensions into `0 .. size`, radius at least 0) and pushes
/// the neighbours of the index, ascending, so that the largest ends on top.
pub fn list_neighbors(push_state: &mut PushState, _instruction_cache: &InstructionCache)
    ensures
        list_neighbors_result(old(push_state).model(), final(push_state).model()),
{
    if push_state.int_stack.size() < 3 || push_state.float_stack.size() == 0 {
        return;
    }
    let topology = push_state.int_stack.pop_vec(3).unwrap();
    let radius = push_state.float_stack.pop().unwrap();
    proof {
        assert(models(topology@).len() == 3);
        assert(topology@[0] == models(topology@)[0]);
        assert(topology@[1] == models(topology@)[1]);
        assert(topology@[2] == models(topology@)[2]);
    }
    let size: i32 = if topology[2] < 0 { 0 } else { topology[2] };
    let index0: i32 = if topology[1] >= size - 1 { size - 1 } else { topology[1] };
    let index: i32 = if index0 < 0 { 0 } else { index0 };
    let dimensions0: i32 = if topology[0] >= size { size } else { topology[0] };
    let dimensions: i32 = if dimensions0 < 0 { 0 } else { dimensions0 };
    let found = find_neighbors(size as u32, dimensions as u32, index as u32, radius);
    let ghost base = push_state.int_stack.view();
    let ghost mid = push_state.model();
    let ghost wanted = as_ints(neighbors(size as nat, dimensions as nat, index as nat, radius));
    let mut k: usize = 0;
    proof {
        crate::topology::lemma_neighbors_below(size as nat, dimensions as nat, index as nat, radius);
        assert forall|q: int| 0 <= q < found@.len() implies (found@[q] as int) < size by {
            assert(found@.map_values(|x: u32| x as nat)[q] == found@[q] as nat);
        }
    }
    while k < found.len()
        invariant
            k <= found@.len(),
            found@.map_values(|x: u32| x as nat) == neighbors(size as nat, dimensions as nat, index as nat, radius),
            forall|q: int| 0 <= q < found@.len() ==> (found@[q] as int) < size,
            found@.len() == wanted.len(),
            push_state.int_stack.view() == base + wanted.subrange(0, k as int),
            wanted == as_ints(neighbors(size as nat, dimensions as nat, index as nat, radius)),
            push_state.model() == with_ints(mid, push_state.int_stack.view()),
            0 <= size,
        decreases found@.len() - k,
    {
        assert(found@.map_values(|x: u32| x as nat)[k as int] == found@[k as int] as nat);
        assert(wanted[k as int] == found@[k as int] as i32);
        push_state.int_stack.push(found[k] as i32);
        k += 1;
        assert(push_state.int_stack.view() =~= base + wanted.subrange(0, k as int));
    }
    assert(wanted.subrange(0, k as int) =~= wanted);
}

} // verus!
