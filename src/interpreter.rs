use vstd::prelude::*;
use crate::instructions::{InstructionCache, InstructionSet, Op, op_result};
use crate::item::{Item, ItemModel, PushType, ValueModel};
use crate::parser::{ParseError, PushParser, parsed};
use crate::stack::models;
use crate::state::{PushState, StateModel, with_bools, with_exec, with_ints};

verus! {

/// `m` with the literal value `v` pushed onto the stack of its type.
pub open spec fn pushed_value(m: StateModel, v: ValueModel) -> StateModel {
    match v {
        ValueModel::Bool(b) => with_bools(m, m.bools.push(b)),
        ValueModel::Int(n) => with_ints(m, m.ints.push(n)),
        ValueModel::Float(f) => StateModel { floats: m.floats.push(f), ..m },
        ValueModel::BoolVec(s) => StateModel { bool_vectors: m.bool_vectors.push(s), ..m },
        ValueModel::IntVec(s) => StateModel { int_vectors: m.int_vectors.push(s), ..m },
        ValueModel::FloatVec(s) => StateModel { float_vectors: m.float_vectors.push(s), ..m },
    }
}

/// One step of the engine: the top EXEC item is popped; a literal goes to the
/// stack of its type, a registered instruction runs, a bound identifier pushes
/// its item back onto EXEC, and a list puts its elements back onto EXEC so that
/// its first element is on top. Unknown instructions and unbound identifiers
/// are dropped; an empty EXEC stack is left as it is.
pub open spec fn step_result(m: StateModel, known: Map<Seq<char>, Op>, after: StateModel) -> bool {
    if m.execution.len() == 0 {
        after == m
    } else {
        let m1 = with_exec(m, m.execution.drop_last());
        match m.execution.last() {
            ItemModel::Literal(v) => after == pushed_value(m1, v),
            ItemModel::Instruction(n) => if known.contains_key(n) {
                op_result(known[n], m1, after)
            } else {
                after == m1
            },
            ItemModel::Identifier(n) => if m.bindings.contains_key(n) {
                after == with_exec(m1, m1.execution.push(m.bindings[n]))
            } else {
                after == m1
            },
            ItemModel::List(xs) => after == with_exec(m1, m1.execution + xs),
        }
    }
}

/// `after` is reached from `m` in exactly `n` steps.
pub open spec fn reached_in(m: StateModel, known: Map<Seq<char>, Op>, n: nat, after: StateModel) -> bool
    decreases n,
{
    if n == 0 {
        after == m
    } else {
        exists|mid: StateModel| reached_in(m, known, (n - 1) as nat, mid) && #[trigger] step_result(mid, known, after)
    }
}

/// The number of values on all the stacks.
pub open spec fn total_items(m: StateModel) -> int {
    (m.bools.len() + m.ints.len() + m.floats.len() + m.execution.len() + m.code.len()
        + m.names.len() + m.bool_vectors.len() + m.int_vectors.len() + m.float_vectors.len()) as int
}

/// How a bounded run ended.
#[derive(Clone, Copy, Debug, PartialEq, Eq, Structural)]
pub enum RunOutcome {
    /// The EXEC stack is empty: the program finished.
    Completed,
    /// The step budget was used up first.
    StepLimit,
    /// The stacks grew past the item budget.
    SizeLimit,
}

/// An interpreter: an instruction set, a snapshot of its names, and a state.
pub struct PushInterpreter {
    pub instruction_set: InstructionSet,
    pub instruction_cache: InstructionCache,
    pub push_state: PushState,
}

impl PushInterpreter {
    pub fn new(instruction_set: InstructionSet, push_state: PushState) -> (r: Self)
        ensures
            r.instruction_set == instruction_set,
            r.push_state.model() == push_state.model(),
            forall|k: Seq<char>| instruction_set.view().contains_key(k) <==> exists|i: int|
                0 <= i < r.instruction_cache.list@.len() && #[trigger] r.instruction_cache.list@[i]@ == k,
    {
        let instruction_cache = instruction_set.cache();
        let ghost names = instruction_cache.list@;
        let ghost known = instruction_set.view();
        let r = PushInterpreter { instruction_set, instruction_cache, push_state };
        assert(r.instruction_cache.list@ == names);
        assert(forall|k: Seq<char>| known.contains_key(k) <==> exists|i: int|
            0 <= i < names.len() && #[trigger] names[i]@ == k);
        r
    }

    /// Parses `code` onto the EXEC stack, beneath what is there.
    pub fn parse_program(&mut self, code: &str) -> (r: Result<(), ParseError>)
        ensures
            final(self).instruction_set == old(self).instruction_set,
            parsed(code@, old(self).instruction_set.view()) is Some ==> r is Ok
                && final(self).push_state.model() == with_exec(
                old(self).push_state.model(),
                parsed(code@, old(self).instruction_set.view())->0 + old(self).push_state.model().execution,
            ),
            parsed(code@, old(self).instruction_set.view()) is None ==> r is Err
                && final(self).push_state.model() == old(self).push_state.model(),
    {
        PushParser::parse_program(&mut self.push_state, &self.instruction_set, code)
    }

    /// Runs one step; returns false, doing nothing, when EXEC is empty.
    pub fn step(&mut self) -> (r: bool)
        ensures
            final(self).instruction_set == old(self).instruction_set,
            r == (old(self).push_state.model().execution.len() > 0),
            step_result(
                old(self).push_state.model(),
                old(self).instruction_set.view(),
                final(self).push_state.model(),
            ),
    {
        let top = match self.push_state.exec_stack.pop() {
            None => return false,
            Some(t) => t,
        };
        let ghost m1 = self.push_state.model();
        match top {
            Item::Literal { push_type } => match push_type {
                PushType::PushBoolType { val } => self.push_state.bool_stack.push(val),
                PushType::PushIntType { val } => self.push_state.int_stack.push(val),
                PushType::PushFloatType { val } => self.push_state.float_stack.push(val),
                PushType::PushBoolVectorType { val } => self.push_state.bool_vector_stack.push(val),
                PushType::PushIntVectorType { val } => self.push_state.int_vector_stack.push(val),
                PushType::PushFloatVectorType { val } => self.push_state.float_vector_stack.push(val),
            },
            Item::InstructionMeta { name } => {
                if let Some(instruction) = self.instruction_set.get_instruction(name.as_str()) {
                    instruction.execute(&mut self.push_state, &self.instruction_cache);
                }
            },
            Item::Identifier { name } => {
                let bound = match self.push_state.name_bindings.get(name.as_str()) {
                    Some(item) => Some(item.copy_item()),
                    None => None,
                };
                if let Some(item) = bound {
                    self.push_state.exec_stack.push(item);
                }
            },
            Item::List { items } => {
                let mut values = items.values;
                let ghost xs = values@;
                let ghost ev = self.push_state.exec_stack.values@;
                proof {
                    crate::item::lemma_item_models(xs);
                }
                self.push_state.exec_stack.values.append(&mut values);
                assert(self.push_state.exec_stack.values@ =~= ev + xs);
                assert(models(ev + xs) =~= models(ev) + models(xs));
            },
        }
        true
    }

    /// The number of values on all the stacks, saturated at `u64::MAX`.
    fn item_count(&self) -> (r: u64)
        ensures
            r == (if total_items(self.push_state.model()) > u64::MAX { u64::MAX as int } else {
                total_items(self.push_state.model())
            }),
    {
        let s = &self.push_state;
        let total: u128 = s.bool_stack.size() as u128 + s.int_stack.size() as u128
            + s.float_stack.size() as u128 + s.exec_stack.size() as u128
            + s.code_stack.size() as u128 + s.name_stack.size() as u128
            + s.bool_vector_stack.size() as u128 + s.int_vector_stack.size() as u128
            + s.float_vector_stack.size() as u128;
        if total > u64::MAX as u128 { u64::MAX } else { total as u64 }
    }

    /// Steps until EXEC is empty, `max_steps` steps have run, or the stacks
    /// hold more than `max_items` values.
    pub fn run(&mut self, max_steps: u64, max_items: u64) -> (r: RunOutcome)
        ensures
            final(self).instruction_set == old(self).instruction_set,
            exists|n: nat| n <= max_steps && reached_in(
                old(self).push_state.model(),
                old(self).instruction_set.view(),
                n,
                final(self).push_state.model(),
            ) && (r == RunOutcome::StepLimit ==> n == max_steps),
            r == RunOutcome::Completed <==> final(self).push_state.model().execution.len() == 0,
            r == RunOutcome::SizeLimit ==> total_items(final(self).push_state.model()) > max_items,
    {
        let ghost start = self.push_state.model();
        let ghost known = self.instruction_set.view();
        let mut count: u64 = 0;
        loop
            invariant
                count <= max_steps,
                self.instruction_set == old(self).instruction_set,
                known == self.instruction_set.view(),
                start == old(self).push_state.model(),
                reached_in(start, known, count as nat, self.push_state.model()),
            decreases max_steps - count,
        {
            if self.push_state.exec_stack.size() == 0 {
                return RunOutcome::Completed;
            }
            if self.item_count() > max_items {
                return RunOutcome::SizeLimit;
            }
            if count == max_steps {
                return RunOutcome::StepLimit;
            }
            let ghost before = self.push_state.model();
            self.step();
            proof {
                assert(reached_in(start, known, count as nat, before) && step_result(before, known, self.push_state.model()));
                assert(reached_in(start, known, (count + 1) as nat, self.push_state.model()));
            }
            count += 1;
        }
    }
}

} // verus!
