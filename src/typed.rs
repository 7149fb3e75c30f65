use vstd::prelude::*;
use crate::instructions::InstructionCache;
use crate::item::{Item, ItemModel, PushFloat, ValueModel};
use crate::lexer::ten_pow;
use crate::state::{PushState, StateModel, with_bools, with_code, with_exec, with_ints};

verus! {

pub open spec fn fits_i32(v: int) -> bool {
    i32::MIN <= v <= i32::MAX
}

pub open spec fn fits_i64(v: int) -> bool {
    i64::MIN <= v <= i64::MAX
}

/// Replaces the top two integers by `v` when it fits in `i32`; nothing changes
/// otherwise or when fewer than two integers are there.
pub open spec fn int_arith_result(m: StateModel, after: StateModel, v: int) -> bool {
    let n = m.ints.len();
    &&& (n < 2 || !fits_i32(v)) ==> after == m
    &&& (n >= 2 && fits_i32(v)) ==> after == with_ints(m, m.ints.subrange(0, n - 2).push(v as i32))
}

/// Pops the top two integers and pushes `b` onto BOOLEAN.
pub open spec fn int_compare_result(m: StateModel, after: StateModel, b: bool) -> bool {
    let n = m.ints.len();
    &&& n < 2 ==> after == m
    &&& n >= 2 ==> after == (StateModel { ints: m.ints.subrange(0, n - 2), bools: m.bools.push(b), ..m })
}

/// The second and top integers: the operands of a binary INTEGER instruction.
pub open spec fn int_operands(m: StateModel) -> (int, int) {
    (m.ints[m.ints.len() - 2] as int, m.ints[m.ints.len() - 1] as int)
}

fn int_pair(push_state: &mut PushState) -> (r: Option<(i32, i32)>)
    ensures
        old(push_state).model().ints.len() < 2 ==> r is None && final(push_state).model() == old(push_state).model(),
        old(push_state).model().ints.len() >= 2 ==> r is Some && ({
            let p = r->0;
            let q = int_operands(old(push_state).model());
            p.0 as int == q.0 && p.1 as int == q.1
        }) && final(push_state).model() == with_ints(
            old(push_state).model(),
            old(push_state).model().ints.subrange(0, old(push_state).model().ints.len() - 2),
        ),
{
    if push_state.int_stack.size() < 2 {
        return None;
    }
    let b = push_state.int_stack.pop().unwrap();
    let a = push_state.int_stack.pop().unwrap();
    let ghost i = old(push_state).model().ints;
    assert(i.drop_last().drop_last() =~= i.subrange(0, i.len() - 2));
    assert(push_state.model() =~= with_ints(old(push_state).model(), i.subrange(0, i.len() - 2)));
    Some((a, b))
}

/// INTEGER.+: the sum of the top two integers.
pub fn integer_add(push_state: &mut PushState, _instruction_cache: &InstructionCache)
    ensures
        ({
            let (a, b) = int_operands(old(push_state).model());
            int_arith_result(old(push_state).model(), final(push_state).model(), a + b)
        }),
{
    if push_state.int_stack.size() < 2 {
        return;
    }
    let n = push_state.int_stack.size();
    let a = push_state.int_stack.values[n - 2];
    let b = push_state.int_stack.values[n - 1];
    let v: i64 = a as i64 + b as i64;
    if v < i32::MIN as i64 || v > i32::MAX as i64 {
        return;
    }
    int_pair(push_state);
    push_state.int_stack.push(v as i32);
}

/// INTEGER.-: the second integer minus the top one.
pub fn integer_sub(push_state: &mut PushState, _instruction_cache: &InstructionCache)
    ensures
        ({
            let (a, b) = int_operands(old(push_state).model());
            int_arith_result(old(push_state).model(), final(push_state).model(), a - b)
        }),
{
    if push_state.int_stack.size() < 2 {
        return;
    }
    let n = push_state.int_stack.size();
    let a = push_state.int_stack.values[n - 2];
    let b = push_state.int_stack.values[n - 1];
    let v: i64 = a as i64 - b as i64;
    if v < i32::MIN as i64 || v > i32::MAX as i64 {
        return;
    }
    int_pair(push_state);
    push_state.int_stack.push(v as i32);
}

/// INTEGER.*: the product of the top two integers.
pub fn integer_mul(push_state: &mut PushState, _instruction_cache: &InstructionCache)
    ensures
        ({
            let (a, b) = int_operands(old(push_state).model());
            int_arith_result(old(push_state).model(), final(push_state).model(), a * b)
        }),
{
    if push_state.int_stack.size() < 2 {
        return;
    }
    let n = push_state.int_stack.size();
    let a = push_state.int_stack.values[n - 2];
    let b = push_state.int_stack.values[n - 1];
    assert((a as int) * (b as int) <= 0x4000_0000_0000_0000 && (a as int) * (b as int) >= -0x4000_0000_0000_0000)
        by (nonlinear_arith)
        requires i32::MIN <= a <= i32::MAX, i32::MIN <= b <= i32::MAX;
    let v: i64 = a as i64 * b as i64;
    if v < i32::MIN as i64 || v > i32::MAX as i64 {
        return;
    }
    int_pair(push_state);
    push_state.int_stack.push(v as i32);
}

/// INTEGER.<: whether the second integer is less than the top one.
pub fn integer_less(push_state: &mut PushState, _instruction_cache: &InstructionCache)
    ensures
        ({
            let (a, b) = int_operands(old(push_state).model());
            int_compare_result(old(push_state).model(), final(push_state).model(), a < b)
        }),
{
    if let Some((a, b)) = int_pair(push_state) {
        push_state.bool_stack.push(a < b);
    }
}

/// INTEGER.>: whether the second integer is greater than the top one.
pub fn integer_greater(push_state: &mut PushState, _instruction_cache: &InstructionCache)
    ensures
        ({
            let (a, b) = int_operands(old(push_state).model());
            int_compare_result(old(push_state).model(), final(push_state).model(), a > b)
        }),
{
    if let Some((a, b)) = int_pair(push_state) {
        push_state.bool_stack.push(a > b);
    }
}

/// INTEGER.=: whether the top two integers are equal.
pub fn integer_eq(push_state: &mut PushState, _instruction_cache: &InstructionCache)
    ensures
        ({
            let (a, b) = int_operands(old(push_state).model());
            int_compare_result(old(push_state).model(), final(push_state).model(), a == b)
        }),
{
    if let Some((a, b)) = int_pair(push_state) {
        push_state.bool_stack.push(a == b);
    }
}

pub open spec fn integer_dup_result(m: StateModel, after: StateModel) -> bool {
    &&& m.ints.len() == 0 ==> after == m
    &&& m.ints.len() > 0 ==> after == with_ints(m, m.ints.push(m.ints.last()))
}

/// INTEGER.DUP: pushes a copy of the top integer.
pub fn integer_dup(push_state: &mut PushState, _instruction_cache: &InstructionCache)
    ensures
        integer_dup_result(old(push_state).model(), final(push_state).model()),
{
    if let Some(v) = push_state.int_stack.copy(0) {
        push_state.int_stack.push(v);
    }
}

pub open spec fn integer_pop_result(m: StateModel, after: StateModel) -> bool {
    &&& m.ints.len() == 0 ==> after == m
    &&& m.ints.len() > 0 ==> after == with_ints(m, m.ints.drop_last())
}

/// INTEGER.POP: removes the top integer.
pub fn integer_pop(push_state: &mut PushState, _instruction_cache: &InstructionCache)
    ensures
        integer_pop_result(old(push_state).model(), final(push_state).model()),
{
    push_state.int_stack.pop();
}

/// Replaces the top two booleans by `v`.
pub open spec fn bool_binary_result(m: StateModel, after: StateModel, v: bool) -> bool {
    let n = m.bools.len();
    &&& n < 2 ==> after == m
    &&& n >= 2 ==> after == with_bools(m, m.bools.subrange(0, n - 2).push(v))
}

pub open spec fn bool_operands(m: StateModel) -> (bool, bool) {
    (m.bools[m.bools.len() - 2], m.bools[m.bools.len() - 1])
}

fn bool_pair(push_state: &mut PushState) -> (r: Option<(bool, bool)>)
    ensures
        old(push_state).model().bools.len() < 2 ==> r is None && final(push_state).model() == old(push_state).model(),
        old(push_state).model().bools.len() >= 2 ==> r is Some && r->0 == bool_operands(old(push_state).model())
            && final(push_state).model() == with_bools(
            old(push_state).model(),
            old(push_state).model().bools.subrange(0, old(push_state).model().bools.len() - 2),
        ),
{
    if push_state.bool_stack.size() < 2 {
        return None;
    }
    let b = push_state.bool_stack.pop().unwrap();
    let a = push_state.bool_stack.pop().unwrap();
    let ghost i = old(push_state).model().bools;
    assert(i.drop_last().drop_last() =~= i.subrange(0, i.len() - 2));
    assert(push_state.model() =~= with_bools(old(push_state).model(), i.subrange(0, i.len() - 2)));
    Some((a, b))
}

/// BOOLEAN.AND: the conjunction of the top two booleans.
pub fn boolean_and(push_state: &mut PushState, _instruction_cache: &InstructionCache)
    ensures
        ({
            let (a, b) = bool_operands(old(push_state).model());
            bool_binary_result(old(push_state).model(), final(push_state).model(), a && b)
        }),
{
    if let Some((a, b)) = bool_pair(push_state) {
        push_state.bool_stack.push(a && b);
    }
}

/// BOOLEAN.OR: the disjunction of the top two booleans.
pub fn boolean_or(push_state: &mut PushState, _instruction_cache: &InstructionCache)
    ensures
        ({
            let (a, b) = bool_operands(old(push_state).model());
            bool_binary_result(old(push_state).model(), final(push_state).model(), a || b)
        }),
{
    if let Some((a, b)) = bool_pair(push_state) {
        push_state.bool_stack.push(a || b);
    }
}

pub open spec fn boolean_not_result(m: StateModel, after: StateModel) -> bool {
    &&& m.bools.len() == 0 ==> after == m
    &&& m.bools.len() > 0 ==> after == with_bools(m, m.bools.drop_last().push(!m.bools.last()))
}

/// BOOLEAN.NOT: negates the top boolean.
pub fn boolean_not(push_state: &mut PushState, _instruction_cache: &InstructionCache)
    ensures
        boolean_not_result(old(push_state).model(), final(push_state).model()),
{
    if let Some(b) = push_state.bool_stack.pop() {
        push_state.bool_stack.push(!b);
    }
}

/// `m * 10^k`, when it fits in `i64`.
fn scale_up(m: i64, k: u32) -> (r: Option<i64>)
    ensures
        r is Some <==> fits_i64(m * ten_pow(k as nat)),
        r is Some ==> r->0 == m * ten_pow(k as nat),
{
    if m == 0 {
        assert(0 * ten_pow(k as nat) == 0);
        return Some(0);
    }
    let mut v: i64 = m;
    let mut j: u32 = 0;
    assert(ten_pow(0) == 1);
    while j < k
        invariant
            j <= k,
            m != 0,
            v == m * ten_pow(j as nat),
        decreases k - j,
    {
        let w: i128 = v as i128 * 10;
        assert(ten_pow((j + 1) as nat) == 10 * ten_pow(j as nat));
        assert(w == m * ten_pow((j + 1) as nat)) by (nonlinear_arith)
            requires w == v * 10, v == m * ten_pow(j as nat), ten_pow((j + 1) as nat) == 10 * ten_pow(j as nat);
        if w < i64::MIN as i128 || w > i64::MAX as i128 {
            proof {
                crate::lexer::lemma_ten_pow_grows((j + 1) as nat, k as nat);
                let x = ten_pow((j + 1) as nat);
                let y = ten_pow(k as nat);
                assert(!fits_i64(m * y)) by (nonlinear_arith)
                    requires !fits_i64(m * x), x <= y, m != 0, x >= 0;
            }
            return None;
        }
        v = w as i64;
        j += 1;
    }
    Some(v)
}

pub open spec fn float_operands(m: StateModel) -> (PushFloat, PushFloat) {
    (m.floats[m.floats.len() - 2], m.floats[m.floats.len() - 1])
}

/// The sum of two decimals at the larger of their scales, when every
/// intermediate value fits in `i64`.
pub open spec fn decimal_sum(a: PushFloat, b: PushFloat) -> Option<PushFloat> {
    let s = if a.scale >= b.scale { a.scale } else { b.scale };
    let x = a.mantissa * ten_pow((s - a.scale) as nat);
    let y = b.mantissa * ten_pow((s - b.scale) as nat);
    if fits_i64(x) && fits_i64(y) && fits_i64(x + y) {
        Some(PushFloat { mantissa: (x + y) as i64, scale: s })
    } else {
        None
    }
}

/// The product of two decimals, when it fits.
pub open spec fn decimal_product(a: PushFloat, b: PushFloat) -> Option<PushFloat> {
    let v = a.mantissa * b.mantissa;
    let s = a.scale + b.scale;
    if fits_i64(v) && s <= u32::MAX {
        Some(PushFloat { mantissa: v as i64, scale: s as u32 })
    } else {
        None
    }
}

/// Replaces the top two decimals by `v`, if there is one.
pub open spec fn float_arith_result(m: StateModel, after: StateModel, v: Option<PushFloat>) -> bool {
    let n = m.floats.len();
    &&& (n < 2 || v is None) ==> after == m
    &&& (n >= 2 && v is Some) ==> after == (StateModel { floats: m.floats.subrange(0, n - 2).push(v->0), ..m })
}

fn replace_top_floats(push_state: &mut PushState, v: PushFloat)
    requires
        old(push_state).model().floats.len() >= 2,
    ensures
        final(push_state).model() == (StateModel {
            floats: old(push_state).model().floats.subrange(0, old(push_state).model().floats.len() - 2).push(v),
            ..old(push_state).model()
        }),
{
    push_state.float_stack.pop();
    push_state.float_stack.pop();
    push_state.float_stack.push(v);
    let ghost f = old(push_state).model().floats;
    assert(f.drop_last().drop_last() =~= f.subrange(0, f.len() - 2));
}

/// FLOAT.+: the sum of the top two decimals.
pub fn float_add(push_state: &mut PushState, _instruction_cache: &InstructionCache)
    ensures
        ({
            let (a, b) = float_operands(old(push_state).model());
            float_arith_result(old(push_state).model(), final(push_state).model(), decimal_sum(a, b))
        }),
{
    let n = push_state.float_stack.size();
    if n < 2 {
        return;
    }
    let a = push_state.float_stack.values[n - 2];
    let b = push_state.float_stack.values[n - 1];
    let s: u32 = if a.scale >= b.scale { a.scale } else { b.scale };
    let x = match scale_up(a.mantissa, s - a.scale) {
        Some(x) => x,
        None => return,
    };
    let y = match scale_up(b.mantissa, s - b.scale) {
        Some(y) => y,
        None => return,
    };
    let sum: i128 = x as i128 + y as i128;
    if sum < i64::MIN as i128 || sum > i64::MAX as i128 {
        return;
    }
    replace_top_floats(push_state, PushFloat { mantissa: sum as i64, scale: s });
}

/// FLOAT.*: the product of the top two decimals.
pub fn float_mul(push_state: &mut PushState, _instruction_cache: &InstructionCache)
    ensures
        ({
            let (a, b) = float_operands(old(push_state).model());
            float_arith_result(old(push_state).model(), final(push_state).model(), decimal_product(a, b))
        }),
{
    let n = push_state.float_stack.size();
    if n < 2 {
        return;
    }
    let a = push_state.float_stack.values[n - 2];
    let b = push_state.float_stack.values[n - 1];
    assert((a.mantissa as int) * (b.mantissa as int) <= 0x4000_0000_0000_0000_0000_0000_0000_0000
        && (a.mantissa as int) * (b.mantissa as int) >= -0x4000_0000_0000_0000_0000_0000_0000_0000)
        by (nonlinear_arith)
        requires i64::MIN <= a.mantissa <= i64::MAX, i64::MIN <= b.mantissa <= i64::MAX;
    let v: i128 = a.mantissa as i128 * b.mantissa as i128;
    let s: u64 = a.scale as u64 + b.scale as u64;
    if v < i64::MIN as i128 || v > i64::MAX as i128 || s > u32::MAX as u64 {
        return;
    }
    replace_top_floats(push_state, PushFloat { mantissa: v as i64, scale: s as u32 });
}

pub open spec fn float_define_result(m: StateModel, after: StateModel) -> bool {
    &&& (m.names.len() == 0 || m.floats.len() == 0) ==> after == m
    &&& (m.names.len() > 0 && m.floats.len() > 0) ==> after == (StateModel {
        names: m.names.drop_last(),
        floats: m.floats.drop_last(),
        bindings: m.bindings.insert(m.names.last(), ItemModel::Literal(ValueModel::Float(m.floats.last()))),
        ..m
    })
}

/// FLOAT.DEFINE: binds the top NAME to the top decimal, popping both.
pub fn float_define(push_state: &mut PushState, _instruction_cache: &InstructionCache)
    ensures
        float_define_result(old(push_state).model(), final(push_state).model()),
{
    if push_state.name_stack.size() > 0 && push_state.float_stack.size() > 0 {
        let name = push_state.name_stack.pop().unwrap();
        let value = push_state.float_stack.pop().unwrap();
        push_state.name_bindings.insert(name, Item::float(value));
    }
}

pub open spec fn code_quote_result(m: StateModel, after: StateModel) -> bool {
    &&& m.execution.len() == 0 ==> after == m
    &&& m.execution.len() > 0 ==> after == (StateModel {
        execution: m.execution.drop_last(),
        code: m.code.push(m.execution.last()),
        ..m
    })
}

/// CODE.QUOTE: moves the top EXEC item onto CODE, so that it is not run.
pub fn code_quote(push_state: &mut PushState, _instruction_cache: &InstructionCache)
    ensures
        code_quote_result(old(push_state).model(), final(push_state).model()),
{
    if let Some(item) = push_state.exec_stack.pop() {
        push_state.code_stack.push(item);
    }
}

pub open spec fn code_dup_result(m: StateModel, after: StateModel) -> bool {
    &&& m.code.len() == 0 ==> after == m
    &&& m.code.len() > 0 ==> after == with_code(m, m.code.push(m.code.last()))
}

/// CODE.DUP: pushes a copy of the top CODE item.
pub fn code_dup(push_state: &mut PushState, _instruction_cache: &InstructionCache)
    ensures
        code_dup_result(old(push_state).model(), final(push_state).model()),
{
    if let Some(item) = push_state.code_stack.copy(0) {
        push_state.code_stack.push(item);
    }
}

pub open spec fn code_pop_result(m: StateModel, after: StateModel) -> bool {
    &&& m.code.len() == 0 ==> after == m
    &&& m.code.len() > 0 ==> after == with_code(m, m.code.drop_last())
}

/// CODE.POP: removes the top CODE item.
pub fn code_pop(push_state: &mut PushState, _instruction_cache: &InstructionCache)
    ensures
        code_pop_result(old(push_state).model(), final(push_state).model()),
{
    push_state.code_stack.pop();
}

pub open spec fn code_pop_name() -> Seq<char> {
    seq!['C', 'O', 'D', 'E', '.', 'P', 'O', 'P']
}

pub open spec fn code_do_result(m: StateModel, after: StateModel) -> bool {
    &&& m.code.len() == 0 ==> after == m
    &&& m.code.len() > 0 ==> after == with_exec(
        m,
        m.execution.push(ItemModel::Instruction(code_pop_name())).push(m.code.last()),
    )
}

/// CODE.DO: runs the top CODE item, then pops it from CODE.
pub fn code_do(push_state: &mut PushState, _instruction_cache: &InstructionCache)
    ensures
        code_do_result(old(push_state).model(), final(push_state).model()),
{
    if let Some(item) = push_state.code_stack.copy(0) {
        let name = String::from_str("CODE.POP");
        proof {
            reveal_strlit("CODE.POP");
            assert(name@ =~= code_pop_name());
        }
        push_state.exec_stack.push(Item::instruction(name));
        push_state.exec_stack.push(item);
    }
}

pub open spec fn code_if_result(m: StateModel, after: StateModel) -> bool {
    let c = m.code;
    let n = c.len();
    &&& (n < 2 || m.bools.len() == 0) ==> after == m
    &&& (n >= 2 && m.bools.len() > 0) ==> after == (StateModel {
        code: c.subrange(0, n - 2),
        bools: m.bools.drop_last(),
        execution: m.execution.push(if m.bools.last() { c[n - 2] } else { c[n - 1] }),
        ..m
    })
}

/// CODE.IF: pops two CODE items and a boolean; runs the second item when it is
/// TRUE, the top item when it is FALSE.
pub fn code_if(push_state: &mut PushState, _instruction_cache: &InstructionCache)
    ensures
        code_if_result(old(push_state).model(), final(push_state).model()),
{
    if push_state.code_stack.size() < 2 || push_state.bool_stack.size() == 0 {
        return;
    }
    let top = push_state.code_stack.pop().unwrap();
    let second = push_state.code_stack.pop().unwrap();
    let b = push_state.bool_stack.pop().unwrap();
    let ghost c = old(push_state).model().code;
    assert(c.drop_last().drop_last() =~= c.subrange(0, c.len() - 2));
    if b {
        push_state.exec_stack.push(second);
    } else {
        push_state.exec_stack.push(top);
    }
}

} // verus!
