use vstd::prelude::*;
use crate::state::{PushState, StateModel};
use crate::execution::{exec_eq_result, exec_define_result, exec_do_count_result, exec_do_range_result, exec_do_times_result, exec_dup_result, exec_if_result, exec_k_result, exec_pop_result, exec_rot_result, exec_s_result, exec_shove_result, exec_stack_depth_result, exec_swap_result, exec_y_result, exec_yank_result, exec_yank_dup_result, exec_flush_result, exec_eq, exec_define, exec_do_count, exec_do_range, exec_do_times, exec_dup, exec_flush, exec_if, exec_k, exec_pop, exec_rot, exec_s, exec_shove, exec_stack_depth, exec_swap, exec_y, exec_yank, exec_yank_dup};
use crate::typed::{integer_add, integer_sub, integer_mul, integer_less, integer_greater, integer_eq, integer_dup, integer_pop, boolean_and, boolean_or, boolean_not, float_add, float_mul, float_define, code_quote, code_dup, code_pop, code_do, code_if, int_arith_result, int_compare_result, int_operands, integer_dup_result, integer_pop_result, bool_binary_result, bool_operands, boolean_not_result, float_arith_result, decimal_sum, decimal_product, float_operands, float_define_result, code_quote_result, code_dup_result, code_pop_result, code_do_result, code_if_result};
use crate::list::{list_add, list_add_result, list_get, list_get_result, list_set, list_set_result, list_neighbors, list_neighbors_result};

verus! {

/// The behaviours the interpreter knows; each is one instruction body.
#[derive(Clone, Copy, Debug, PartialEq, Eq, Structural)]
pub enum Op {
    Noop,
    ExecEq,
    ExecDefine,
    ExecDoCount,
    ExecDoRange,
    ExecDoTimes,
    ExecDup,
    ExecFlush,
    ExecIf,
    ExecK,
    ExecPop,
    ExecRot,
    ExecS,
    ExecShove,
    ExecStackDepth,
    ExecSwap,
    ExecY,
    ExecYank,
    ExecYankDup,
    ListAdd,
    ListGet,
    ListSet,
    ListNeighbors,
    IntegerAdd,
    IntegerSub,
    IntegerMul,
    IntegerLess,
    IntegerGreater,
    IntegerEq,
    IntegerDup,
    IntegerPop,
    BooleanAnd,
    BooleanOr,
    BooleanNot,
    FloatAdd,
    FloatMul,
    FloatDefine,
    CodeQuote,
    CodeDup,
    CodePop,
    CodeDo,
    CodeIf,
}

/// The effect of running `op`, as a relation between the state models before
/// and after.
pub open spec fn op_result(op: Op, m: StateModel, after: StateModel) -> bool {
    match op {
        Op::Noop => after == m,
        Op::ExecEq => exec_eq_result(m, after),
        Op::ExecDefine => exec_define_result(m, after),
        Op::ExecDoCount => exec_do_count_result(m, after),
        Op::ExecDoRange => exec_do_range_result(m, after),
        Op::ExecDoTimes => exec_do_times_result(m, after),
        Op::ExecDup => exec_dup_result(m, after),
        Op::ExecFlush => exec_flush_result(m, after),
        Op::ExecIf => exec_if_result(m, after),
        Op::ExecK => exec_k_result(m, after),
        Op::ExecPop => exec_pop_result(m, after),
        Op::ExecRot => exec_rot_result(m, after),
        Op::ExecS => exec_s_result(m, after),
        Op::ExecShove => exec_shove_result(m, after),
        Op::ExecStackDepth => exec_stack_depth_result(m, after),
        Op::ExecSwap => exec_swap_result(m, after),
        Op::ExecY => exec_y_result(m, after),
        Op::ExecYank => exec_yank_result(m, after),
        Op::ExecYankDup => exec_yank_dup_result(m, after),
        Op::ListAdd => list_add_result(m, after),
        Op::ListGet => list_get_result(m, after),
        Op::ListSet => list_set_result(m, after),
        Op::ListNeighbors => list_neighbors_result(m, after),
        Op::IntegerAdd => int_arith_result(m, after, int_operands(m).0 + int_operands(m).1),
        Op::IntegerSub => int_arith_result(m, after, int_operands(m).0 - int_operands(m).1),
        Op::IntegerMul => int_arith_result(m, after, int_operands(m).0 * int_operands(m).1),
        Op::IntegerLess => int_compare_result(m, after, int_operands(m).0 < int_operands(m).1),
        Op::IntegerGreater => int_compare_result(m, after, int_operands(m).0 > int_operands(m).1),
        Op::IntegerEq => int_compare_result(m, after, int_operands(m).0 == int_operands(m).1),
        Op::IntegerDup => integer_dup_result(m, after),
        Op::IntegerPop => integer_pop_result(m, after),
        Op::BooleanAnd => bool_binary_result(m, after, bool_operands(m).0 && bool_operands(m).1),
        Op::BooleanOr => bool_binary_result(m, after, bool_operands(m).0 || bool_operands(m).1),
        Op::BooleanNot => boolean_not_result(m, after),
        Op::FloatAdd => float_arith_result(m, after, decimal_sum(float_operands(m).0, float_operands(m).1)),
        Op::FloatMul => float_arith_result(m, after, decimal_product(float_operands(m).0, float_operands(m).1)),
        Op::FloatDefine => float_define_result(m, after),
        Op::CodeQuote => code_quote_result(m, after),
        Op::CodeDup => code_dup_result(m, after),
        Op::CodePop => code_pop_result(m, after),
        Op::CodeDo => code_do_result(m, after),
        Op::CodeIf => code_if_result(m, after),
    }
}

/// A snapshot of the instruction names known when it was taken.
pub struct InstructionCache {
    pub list: Vec<String>,
}

impl InstructionCache {
    pub fn new(arg_list: Vec<String>) -> (r: Self)
        ensures
            r.list@ == arg_list@,
    {
        InstructionCache { list: arg_list }
    }
}

/// An instruction body, invoked on a state with an instruction cache.
#[derive(Clone, Copy, Debug, PartialEq, Eq, Structural)]
pub struct Instruction {
    pub op: Op,
}

impl Instruction {
    pub fn new(op: Op) -> (r: Self)
        ensures
            r.op == op,
    {
        Instruction { op }
    }
}

impl Instruction {
    /// Runs this instruction's body on the state.
    pub fn execute(&self, push_state: &mut PushState, instruction_cache: &InstructionCache)
        ensures
            op_result(self.op, old(push_state).model(), final(push_state).model()),
    {
        match self.op {
            Op::Noop => noop(push_state, instruction_cache),
            Op::ExecEq => exec_eq(push_state, instruction_cache),
            Op::ExecDefine => exec_define(push_state, instruction_cache),
            Op::ExecDoCount => exec_do_count(push_state, instruction_cache),
            Op::ExecDoRange => exec_do_range(push_state, instruction_cache),
            Op::ExecDoTimes => exec_do_times(push_state, instruction_cache),
            Op::ExecDup => exec_dup(push_state, instruction_cache),
            Op::ExecFlush => exec_flush(push_state, instruction_cache),
            Op::ExecIf => exec_if(push_state, instruction_cache),
            Op::ExecK => exec_k(push_state, instruction_cache),
            Op::ExecPop => exec_pop(push_state, instruction_cache),
            Op::ExecRot => exec_rot(push_state, instruction_cache),
            Op::ExecS => exec_s(push_state, instruction_cache),
            Op::ExecShove => exec_shove(push_state, instruction_cache),
            Op::ExecStackDepth => exec_stack_depth(push_state, instruction_cache),
            Op::ExecSwap => exec_swap(push_state, instruction_cache),
            Op::ExecY => exec_y(push_state, instruction_cache),
            Op::ExecYank => exec_yank(push_state, instruction_cache),
            Op::ExecYankDup => exec_yank_dup(push_state, instruction_cache),
            Op::ListAdd => list_add(push_state, instruction_cache),
            Op::ListGet => list_get(push_state, instruction_cache),
            Op::ListSet => list_set(push_state, instruction_cache),
            Op::ListNeighbors => list_neighbors(push_state, instruction_cache),
            Op::IntegerAdd => integer_add(push_state, instruction_cache),
            Op::IntegerSub => integer_sub(push_state, instruction_cache),
            Op::IntegerMul => integer_mul(push_state, instruction_cache),
            Op::IntegerLess => integer_less(push_state, instruction_cache),
            Op::IntegerGreater => integer_greater(push_state, instruction_cache),
            Op::IntegerEq => integer_eq(push_state, instruction_cache),
            Op::IntegerDup => integer_dup(push_state, instruction_cache),
            Op::IntegerPop => integer_pop(push_state, instruction_cache),
            Op::BooleanAnd => boolean_and(push_state, instruction_cache),
            Op::BooleanOr => boolean_or(push_state, instruction_cache),
            Op::BooleanNot => boolean_not(push_state, instruction_cache),
            Op::FloatAdd => float_add(push_state, instruction_cache),
            Op::FloatMul => float_mul(push_state, instruction_cache),
            Op::FloatDefine => float_define(push_state, instruction_cache),
            Op::CodeQuote => code_quote(push_state, instruction_cache),
            Op::CodeDup => code_dup(push_state, instruction_cache),
            Op::CodePop => code_pop(push_state, instruction_cache),
            Op::CodeDo => code_do(push_state, instruction_cache),
            Op::CodeIf => code_if(push_state, instruction_cache),
        }
    }
}

/// The instruction registered last under `name`.
pub open spec fn op_lookup(entries: Seq<(String, Instruction)>, name: Seq<char>) -> Option<Op>
    decreases entries.len(),
{
    if entries.len() == 0 {
        None
    } else if entries.last().0@ == name {
        Some(entries.last().1.op)
    } else {
        op_lookup(entries.drop_last(), name)
    }
}

proof fn lemma_op_lookup_some(entries: Seq<(String, Instruction)>, name: Seq<char>)
    ensures
        op_lookup(entries, name) is Some <==> exists|i: int|
            0 <= i < entries.len() && #[trigger] entries[i].0@ == name,
    decreases entries.len(),
{
    if entries.len() > 0 {
        lemma_op_lookup_some(entries.drop_last(), name);
        if entries.last().0@ != name {
            if op_lookup(entries, name) is None {
                assert forall|i: int| 0 <= i < entries.len() implies #[trigger] entries[i].0@ != name by {
                    if i < entries.len() - 1 {
                        assert(entries.drop_last()[i] == entries[i]);
                    }
                }
            } else {
                let i = choose|i: int| 0 <= i < entries.drop_last().len() && #[trigger] entries.drop_last()[i].0@ == name;
                assert(entries[i].0@ == name);
            }
        } else {
            assert(entries[entries.len() - 1].0@ == name);
        }
    }
}

proof fn lemma_op_lookup_tail(entries: Seq<(String, Instruction)>, i: int, name: Seq<char>)
    requires
        0 <= i < entries.len(),
        entries[i].0@ == name,
        forall|j: int| i < j < entries.len() ==> #[trigger] entries[j].0@ != name,
    ensures
        op_lookup(entries, name) == Some(entries[i].1.op),
    decreases entries.len(),
{
    if i < entries.len() - 1 {
        assert(entries[entries.len() - 1].0@ != name);
        assert(entries.drop_last()[i] == entries[i]);
        lemma_op_lookup_tail(entries.drop_last(), i, name);
    }
}

proof fn lemma_op_lookup_update(
    entries: Seq<(String, Instruction)>,
    i: int,
    name: String,
    instruction: Instruction,
    k: Seq<char>,
)
    requires
        0 <= i < entries.len(),
        entries[i].0@ == name@,
        forall|j: int| i < j < entries.len() ==> #[trigger] entries[j].0@ != name@,
    ensures
        op_lookup(entries.update(i, (name, instruction)), k) == if k == name@ {
            Some(instruction.op)
        } else {
            op_lookup(entries, k)
        },
    decreases entries.len(),
{
    let u = entries.update(i, (name, instruction));
    if i < entries.len() - 1 {
        assert(u.drop_last() =~= entries.drop_last().update(i, (name, instruction)));
        assert(entries.last().0@ != name@);
        lemma_op_lookup_update(entries.drop_last(), i, name, instruction, k);
    } else {
        assert(u.drop_last() =~= entries.drop_last());
    }
}

/// The registry of instructions by name; each name appears once.
pub struct InstructionSet {
    map: Vec<(String, Instruction)>,
}

impl InstructionSet {
    pub closed spec fn view(&self) -> Map<Seq<char>, Op> {
        Map::new(|k: Seq<char>| op_lookup(self.map@, k) is Some, |k: Seq<char>| op_lookup(self.map@, k)->0)
    }

    pub closed spec fn wf(&self) -> bool {
        forall|i: int, j: int| 0 <= i < j < self.map@.len() ==> self.map@[i].0@ != self.map@[j].0@
    }

    pub fn new() -> (r: Self)
        ensures
            r.wf(),
            r.view() == Map::<Seq<char>, Op>::empty(),
    {
        let r = InstructionSet { map: Vec::new() };
        assert(r.view() =~= Map::<Seq<char>, Op>::empty());
        r
    }

    /// The position of `name` in the registry, if it is there.
    fn position(&self, name: &String) -> (r: Option<usize>)
        ensures
            r is Some ==> r->0 < self.map@.len() && self.map@[r->0 as int].0@ == name@ && forall|j: int|
                r->0 < j < self.map@.len() ==> #[trigger] self.map@[j].0@ != name@,
            r is None ==> forall|j: int| 0 <= j < self.map@.len() ==> #[trigger] self.map@[j].0@ != name@,
    {
        let mut i: usize = self.map.len();
        while i > 0
            invariant
                i <= self.map@.len(),
                forall|j: int| i <= j < self.map@.len() ==> #[trigger] self.map@[j].0@ != name@,
            decreases i,
        {
            if self.map[i - 1].0 == *name {
                return Some(i - 1);
            }
            i -= 1;
        }
        None
    }

    /// Registers `instruction` under `name`, replacing and returning the one
    /// registered there before.
    pub fn add(&mut self, name: String, instruction: Instruction) -> (r: Option<Instruction>)
        requires
            old(self).wf(),
        ensures
            final(self).wf(),
            final(self).view() == old(self).view().insert(name@, instruction.op),
            old(self).view().contains_key(name@) ==> r is Some && r->0.op == old(self).view()[name@],
            !old(self).view().contains_key(name@) ==> r is None,
    {
        let ghost n = name@;
        match self.position(&name) {
            Some(i) => {
                let previous = self.map[i].1;
                proof {
                    assert forall|k: Seq<char>| #[trigger] op_lookup(self.map@.update(i as int, (name, instruction)), k)
                        == if k == name@ { Some(instruction.op) } else { op_lookup(self.map@, k) } by {
                        lemma_op_lookup_update(self.map@, i as int, name, instruction, k);
                    }
                    lemma_op_lookup_tail(self.map@, i as int, name@);
                }
                self.map.set(i, (name, instruction));
                assert(self.view() =~= old(self).view().insert(n, instruction.op));
                Some(previous)
            },
            None => {
                proof {
                    lemma_op_lookup_some(self.map@, name@);
                }
                self.map.push((name, instruction));
                proof {
                    assert(self.map@.drop_last() =~= old(self).map@);
                }
                assert(self.view() =~= old(self).view().insert(n, instruction.op));
                None
            },
        }
    }
}

/// The EXEC instructions, added to the registry `m`.
pub open spec fn exec_catalogue(m: Map<Seq<char>, Op>) -> Map<Seq<char>, Op> {
    m
        .insert("EXEC.="@, Op::ExecEq)
        .insert("EXEC.DEFINE"@, Op::ExecDefine)
        .insert("EXEC.DO*COUNT"@, Op::ExecDoCount)
        .insert("EXEC.DO*RANGE"@, Op::ExecDoRange)
        .insert("EXEC.DO*TIMES"@, Op::ExecDoTimes)
        .insert("EXEC.DUP"@, Op::ExecDup)
        .insert("EXEC.FLUSH"@, Op::ExecFlush)
        .insert("EXEC.IF"@, Op::ExecIf)
        .insert("EXEC.K"@, Op::ExecK)
        .insert("EXEC.POP"@, Op::ExecPop)
        .insert("EXEC.ROT"@, Op::ExecRot)
        .insert("EXEC.S"@, Op::ExecS)
        .insert("EXEC.SHOVE"@, Op::ExecShove)
        .insert("EXEC.STACKDEPTH"@, Op::ExecStackDepth)
        .insert("EXEC.SWAP"@, Op::ExecSwap)
        .insert("EXEC.Y"@, Op::ExecY)
        .insert("EXEC.YANK"@, Op::ExecYank)
        .insert("EXEC.YANKDUP"@, Op::ExecYankDup)
}

/// The LIST instructions, added to the registry `m`.
pub open spec fn list_catalogue(m: Map<Seq<char>, Op>) -> Map<Seq<char>, Op> {
    m
        .insert("LIST.ADD"@, Op::ListAdd)
        .insert("LIST.GET"@, Op::ListGet)
        .insert("LIST.SET"@, Op::ListSet)
        .insert("LIST.NEIGHBORS"@, Op::ListNeighbors)
}

/// Registers the instructions that work on the EXEC stack.
pub fn load_exec_instructions(set: &mut InstructionSet)
    requires
        old(set).wf(),
    ensures
        final(set).wf(),
        final(set).view() == exec_catalogue(old(set).view()),
{
    set.add(String::from_str("EXEC.="), Instruction::new(Op::ExecEq));
    set.add(String::from_str("EXEC.DEFINE"), Instruction::new(Op::ExecDefine));
    set.add(String::from_str("EXEC.DO*COUNT"), Instruction::new(Op::ExecDoCount));
    set.add(String::from_str("EXEC.DO*RANGE"), Instruction::new(Op::ExecDoRange));
    set.add(String::from_str("EXEC.DO*TIMES"), Instruction::new(Op::ExecDoTimes));
    set.add(String::from_str("EXEC.DUP"), Instruction::new(Op::ExecDup));
    set.add(String::from_str("EXEC.FLUSH"), Instruction::new(Op::ExecFlush));
    set.add(String::from_str("EXEC.IF"), Instruction::new(Op::ExecIf));
    set.add(String::from_str("EXEC.K"), Instruction::new(Op::ExecK));
    set.add(String::from_str("EXEC.POP"), Instruction::new(Op::ExecPop));
    set.add(String::from_str("EXEC.ROT"), Instruction::new(Op::ExecRot));
    set.add(String::from_str("EXEC.S"), Instruction::new(Op::ExecS));
    set.add(String::from_str("EXEC.SHOVE"), Instruction::new(Op::ExecShove));
    set.add(String::from_str("EXEC.STACKDEPTH"), Instruction::new(Op::ExecStackDepth));
    set.add(String::from_str("EXEC.SWAP"), Instruction::new(Op::ExecSwap));
    set.add(String::from_str("EXEC.Y"), Instruction::new(Op::ExecY));
    set.add(String::from_str("EXEC.YANK"), Instruction::new(Op::ExecYank));
    set.add(String::from_str("EXEC.YANKDUP"), Instruction::new(Op::ExecYankDup));
}

/// Registers the LIST instructions.
pub fn load_list_instructions(set: &mut InstructionSet)
    requires
        old(set).wf(),
    ensures
        final(set).wf(),
        final(set).view() == list_catalogue(old(set).view()),
{
    set.add(String::from_str("LIST.ADD"), Instruction::new(Op::ListAdd));
    set.add(String::from_str("LIST.GET"), Instruction::new(Op::ListGet));
    set.add(String::from_str("LIST.SET"), Instruction::new(Op::ListSet));
    set.add(String::from_str("LIST.NEIGHBORS"), Instruction::new(Op::ListNeighbors));
}

/// The INTEGER instructions, added to the registry `m`.
pub open spec fn integer_catalogue(m: Map<Seq<char>, Op>) -> Map<Seq<char>, Op> {
    m
        .insert("INTEGER.+"@, Op::IntegerAdd)
        .insert("INTEGER.-"@, Op::IntegerSub)
        .insert("INTEGER.*"@, Op::IntegerMul)
        .insert("INTEGER.<"@, Op::IntegerLess)
        .insert("INTEGER.>"@, Op::IntegerGreater)
        .insert("INTEGER.="@, Op::IntegerEq)
        .insert("INTEGER.DUP"@, Op::IntegerDup)
        .insert("INTEGER.POP"@, Op::IntegerPop)
}

/// Registers the INTEGER instructions.
pub fn load_integer_instructions(set: &mut InstructionSet)
    requires
        old(set).wf(),
    ensures
        final(set).wf(),
        final(set).view() == integer_catalogue(old(set).view()),
{
    set.add(String::from_str("INTEGER.+"), Instruction::new(Op::IntegerAdd));
    set.add(String::from_str("INTEGER.-"), Instruction::new(Op::IntegerSub));
    set.add(String::from_str("INTEGER.*"), Instruction::new(Op::IntegerMul));
    set.add(String::from_str("INTEGER.<"), Instruction::new(Op::IntegerLess));
    set.add(String::from_str("INTEGER.>"), Instruction::new(Op::IntegerGreater));
    set.add(String::from_str("INTEGER.="), Instruction::new(Op::IntegerEq));
    set.add(String::from_str("INTEGER.DUP"), Instruction::new(Op::IntegerDup));
    set.add(String::from_str("INTEGER.POP"), Instruction::new(Op::IntegerPop));
}

/// The BOOLEAN instructions, added to the registry `m`.
pub open spec fn boolean_catalogue(m: Map<Seq<char>, Op>) -> Map<Seq<char>, Op> {
    m
        .insert("BOOLEAN.AND"@, Op::BooleanAnd)
        .insert("BOOLEAN.OR"@, Op::BooleanOr)
        .insert("BOOLEAN.NOT"@, Op::BooleanNot)
}

/// Registers the BOOLEAN instructions.
pub fn load_boolean_instructions(set: &mut InstructionSet)
    requires
        old(set).wf(),
    ensures
        final(set).wf(),
        final(set).view() == boolean_catalogue(old(set).view()),
{
    set.add(String::from_str("BOOLEAN.AND"), Instruction::new(Op::BooleanAnd));
    set.add(String::from_str("BOOLEAN.OR"), Instruction::new(Op::BooleanOr));
    set.add(String::from_str("BOOLEAN.NOT"), Instruction::new(Op::BooleanNot));
}

/// The FLOAT instructions, added to the registry `m`.
pub open spec fn float_catalogue(m: Map<Seq<char>, Op>) -> Map<Seq<char>, Op> {
    m
        .insert("FLOAT.+"@, Op::FloatAdd)
        .insert("FLOAT.*"@, Op::FloatMul)
        .insert("FLOAT.DEFINE"@, Op::FloatDefine)
}

/// Registers the FLOAT instructions.
pub fn load_float_instructions(set: &mut InstructionSet)
    requires
        old(set).wf(),
    ensures
        final(set).wf(),
        final(set).view() == float_catalogue(old(set).view()),
{
    set.add(String::from_str("FLOAT.+"), Instruction::new(Op::FloatAdd));
    set.add(String::from_str("FLOAT.*"), Instruction::new(Op::FloatMul));
    set.add(String::from_str("FLOAT.DEFINE"), Instruction::new(Op::FloatDefine));
}

/// The CODE instructions, added to the registry `m`.
pub open spec fn code_catalogue(m: Map<Seq<char>, Op>) -> Map<Seq<char>, Op> {
    m
        .insert("CODE.QUOTE"@, Op::CodeQuote)
        .insert("CODE.DUP"@, Op::CodeDup)
        .insert("CODE.POP"@, Op::CodePop)
        .insert("CODE.DO"@, Op::CodeDo)
        .insert("CODE.IF"@, Op::CodeIf)
}

/// Registers the CODE instructions.
pub fn load_code_instructions(set: &mut InstructionSet)
    requires
        old(set).wf(),
    ensures
        final(set).wf(),
        final(set).view() == code_catalogue(old(set).view()),
{
    set.add(String::from_str("CODE.QUOTE"), Instruction::new(Op::CodeQuote));
    set.add(String::from_str("CODE.DUP"), Instruction::new(Op::CodeDup));
    set.add(String::from_str("CODE.POP"), Instruction::new(Op::CodePop));
    set.add(String::from_str("CODE.DO"), Instruction::new(Op::CodeDo));
    set.add(String::from_str("CODE.IF"), Instruction::new(Op::CodeIf));
}

/// The whole default registry, added to `m`.
pub open spec fn default_catalogue(m: Map<Seq<char>, Op>) -> Map<Seq<char>, Op> {
    code_catalogue(float_catalogue(integer_catalogue(boolean_catalogue(
        list_catalogue(exec_catalogue(m.insert("NOOP"@, Op::Noop))),
    ))))
}

impl InstructionSet {
    /// Loads the default instructions: NOOP and the EXEC, LIST, BOOLEAN,
    /// INTEGER, FLOAT and CODE groups.
    pub fn load(&mut self)
        requires
            old(self).wf(),
        ensures
            final(self).wf(),
            final(self).view() == default_catalogue(old(self).view()),
    {
        self.add(String::from_str("NOOP"), Instruction::new(Op::Noop));
        load_exec_instructions(self);
        load_list_instructions(self);
        load_boolean_instructions(self);
        load_integer_instructions(self);
        load_float_instructions(self);
        load_code_instructions(self);
    }

    /// A snapshot of the registered names.
    pub fn cache(&self) -> (r: InstructionCache)
        ensures
            forall|k: Seq<char>| self.view().contains_key(k) <==> exists|i: int|
                0 <= i < r.list@.len() && #[trigger] r.list@[i]@ == k,
    {
        let mut names: Vec<String> = Vec::new();
        let mut i: usize = 0;
        while i < self.map.len()
            invariant
                i <= self.map@.len(),
                names@.len() == i,
                forall|j: int| 0 <= j < i ==> #[trigger] names@[j]@ == self.map@[j].0@,
            decreases self.map@.len() - i,
        {
            names.push(self.map[i].0.clone());
            i += 1;
        }
        proof {
            assert forall|k: Seq<char>| self.view().contains_key(k) <==> exists|i: int|
                0 <= i < names@.len() && #[trigger] names@[i]@ == k by {
                lemma_op_lookup_some(self.map@, k);
                if self.view().contains_key(k) {
                    let j = choose|j: int| 0 <= j < self.map@.len() && #[trigger] self.map@[j].0@ == k;
                    assert(names@[j]@ == k);
                }
                if exists|i: int| 0 <= i < names@.len() && #[trigger] names@[i]@ == k {
                    let j = choose|j: int| 0 <= j < names@.len() && #[trigger] names@[j]@ == k;
                    assert(self.map@[j].0@ == k);
                }
            }
        }
        InstructionCache::new(names)
    }

    /// Whether an instruction is registered under `name`.
    pub fn is_instruction(&self, name: &str) -> (r: bool)
        ensures
            r == self.view().contains_key(name@),
    {
        let key = name.to_owned();
        let found = self.position(&key);
        proof {
            lemma_op_lookup_some(self.map@, name@);
        }
        found.is_some()
    }

    /// The instruction registered under `name`, if any.
    pub fn get_instruction(&self, name: &str) -> (r: Option<Instruction>)
        ensures
            self.view().contains_key(name@) ==> r is Some && r->0.op == self.view()[name@],
            !self.view().contains_key(name@) ==> r is None,
    {
        let key = name.to_owned();
        match self.position(&key) {
            Some(i) => {
                proof {
                    lemma_op_lookup_tail(self.map@, i as int, name@);
                }
                Some(self.map[i].1)
            },
            None => {
                proof {
                    lemma_op_lookup_some(self.map@, name@);
                }
                None
            },
        }
    }
}

/// NOOP: no operation.
pub fn noop(_push_state: &mut PushState, _instruction_cache: &InstructionCache)
    ensures
        final(_push_state).model() == old(_push_state).model(),
{
}

} // verus!
