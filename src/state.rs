use vstd::prelude::*;
use crate::item::{BoolVector, FloatVector, IntVector, Item, ItemModel, PushFloat};
use crate::stack::PushStack;

verus! {

/// The item bound to `name` in a list of bindings: the latest binding wins.
pub open spec fn lookup(entries: Seq<(String, Item)>, name: Seq<char>) -> Option<ItemModel>
    decreases entries.len(),
{
    if entries.len() == 0 {
        None
    } else if entries.last().0@ == name {
        Some(entries.last().1.model())
    } else {
        lookup(entries.drop_last(), name)
    }
}

/// Bindings from names to items, established by the DEFINE instructions.
pub struct NameBindings {
    pub entries: Vec<(String, Item)>,
}

impl NameBindings {
    pub open spec fn view(&self) -> Map<Seq<char>, ItemModel> {
        Map::new(
            |k: Seq<char>| lookup(self.entries@, k) is Some,
            |k: Seq<char>| lookup(self.entries@, k)->0,
        )
    }

    pub fn new() -> (r: Self)
        ensures
            r.view() == Map::<Seq<char>, ItemModel>::empty(),
    {
        let r = NameBindings { entries: Vec::new() };
        assert(r.view() =~= Map::<Seq<char>, ItemModel>::empty());
        r
    }

    /// Binds `name` to `item`, replacing any earlier binding of that name.
    pub fn insert(&mut self, name: String, item: Item)
        ensures
            final(self).view() == old(self).view().insert(name@, item.model()),
    {
        let ghost n = name@;
        let ghost m = item.model();
        self.entries.push((name, item));
        proof {
            assert(self.entries@.drop_last() =~= old(self).entries@);
            assert(self.view() =~= old(self).view().insert(n, m));
        }
    }

    /// The item bound to `name`, if any.
    pub fn get(&self, name: &str) -> (r: Option<&Item>)
        ensures
            self.view().contains_key(name@) ==> r is Some && r->0.model() == self.view()[name@],
            !self.view().contains_key(name@) ==> r is None,
    {
        let key = name.to_owned();
        let mut i: usize = self.entries.len();
        assert(self.entries@.subrange(0, i as int) =~= self.entries@);
        while i > 0
            invariant
                i <= self.entries@.len(),
                key@ == name@,
                lookup(self.entries@, name@) == lookup(self.entries@.subrange(0, i as int), name@),
            decreases i,
        {
            let ghost pre = self.entries@.subrange(0, i as int);
            assert(pre.drop_last() =~= self.entries@.subrange(0, i - 1));
            assert(pre.last() == self.entries@[i - 1]);
            if self.entries[i - 1].0 == key {
                return Some(&self.entries[i - 1].1);
            }
            i -= 1;
        }
        assert(self.entries@.subrange(0, 0) =~= Seq::<(String, Item)>::empty());
        None
    }
}

/// The mathematical content of an interpreter state.
pub struct StateModel {
    pub bools: Seq<bool>,
    pub ints: Seq<i32>,
    pub floats: Seq<PushFloat>,
    pub execution: Seq<ItemModel>,
    pub code: Seq<ItemModel>,
    pub names: Seq<Seq<char>>,
    pub bool_vectors: Seq<Seq<bool>>,
    pub int_vectors: Seq<Seq<i32>>,
    pub float_vectors: Seq<Seq<PushFloat>>,
    pub bindings: Map<Seq<char>, ItemModel>,
}

pub open spec fn with_exec(m: StateModel, e: Seq<ItemModel>) -> StateModel {
    StateModel { execution: e, ..m }
}

pub open spec fn with_ints(m: StateModel, i: Seq<i32>) -> StateModel {
    StateModel { ints: i, ..m }
}

pub open spec fn with_bools(m: StateModel, b: Seq<bool>) -> StateModel {
    StateModel { bools: b, ..m }
}

pub open spec fn with_code(m: StateModel, c: Seq<ItemModel>) -> StateModel {
    StateModel { code: c, ..m }
}

/// All the stacks of the interpreter and its name bindings.
pub struct PushState {
    pub bool_stack: PushStack<bool>,
    pub int_stack: PushStack<i32>,
    pub float_stack: PushStack<PushFloat>,
    pub exec_stack: PushStack<Item>,
    pub code_stack: PushStack<Item>,
    pub name_stack: PushStack<String>,
    pub bool_vector_stack: PushStack<BoolVector>,
    pub int_vector_stack: PushStack<IntVector>,
    pub float_vector_stack: PushStack<FloatVector>,
    pub name_bindings: NameBindings,
}

impl PushState {
    pub open spec fn model(&self) -> StateModel {
        StateModel {
            bools: self.bool_stack.view(),
            ints: self.int_stack.view(),
            floats: self.float_stack.view(),
            execution: self.exec_stack.view(),
            code: self.code_stack.view(),
            names: self.name_stack.view(),
            bool_vectors: self.bool_vector_stack.view(),
            int_vectors: self.int_vector_stack.view(),
            float_vectors: self.float_vector_stack.view(),
            bindings: self.name_bindings.view(),
        }
    }

    pub fn new() -> (r: Self)
        ensures
            r.model() == (StateModel {
                bools: Seq::empty(),
                ints: Seq::empty(),
                floats: Seq::empty(),
                execution: Seq::empty(),
                code: Seq::empty(),
                names: Seq::empty(),
                bool_vectors: Seq::empty(),
                int_vectors: Seq::empty(),
                float_vectors: Seq::empty(),
                bindings: Map::empty(),
            }),
    {
        PushState {
            bool_stack: PushStack::new(),
            int_stack: PushStack::new(),
            float_stack: PushStack::new(),
            exec_stack: PushStack::new(),
            code_stack: PushStack::new(),
            name_stack: PushStack::new(),
            bool_vector_stack: PushStack::new(),
            int_vector_stack: PushStack::new(),
            float_vector_stack: PushStack::new(),
            name_bindings: NameBindings::new(),
        }
    }
}

} // verus!
