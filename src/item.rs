use vstd::prelude::*;
use crate::stack::{PushStack, StackValue, models};
use crate::render::{float_text, item_text, vector_text};

verus! {

broadcast use {
    vstd::seq::axiom_seq_subrange_decreases,
    vstd::seq::axiom_seq_index_decreases,
    vstd::std_specs::vec::axiom_vec_decreases_to_view,
};

/// A decimal number `mantissa / 10^scale`, the value held by the FLOAT stack.
#[derive(Clone, Copy, Debug, PartialEq, Eq, Structural)]
pub struct PushFloat {
    pub mantissa: i64,
    pub scale: u32,
}

/// Model of a scalar or vector literal.
pub enum ValueModel {
    Bool(bool),
    Int(i32),
    Float(PushFloat),
    BoolVec(Seq<bool>),
    IntVec(Seq<i32>),
    FloatVec(Seq<PushFloat>),
}

/// Model of a program item: lists hold their elements bottom to top, the last
/// element being the first one to execute.
pub enum ItemModel {
    Literal(ValueModel),
    Instruction(Seq<char>),
    Identifier(Seq<char>),
    List(Seq<ItemModel>),
}

pub struct BoolVector {
    pub values: Vec<bool>,
}

pub struct IntVector {
    pub values: Vec<i32>,
}

pub struct FloatVector {
    pub values: Vec<PushFloat>,
}

pub enum PushType {
    PushBoolType { val: bool },
    PushIntType { val: i32 },
    PushFloatType { val: PushFloat },
    PushBoolVectorType { val: BoolVector },
    PushIntVectorType { val: IntVector },
    PushFloatVectorType { val: FloatVector },
}

pub enum Item {
    Literal { push_type: PushType },
    InstructionMeta { name: String },
    Identifier { name: String },
    List { items: PushStack<Item> },
}

impl PushType {
    pub open spec fn model(&self) -> ValueModel {
        match self {
            PushType::PushBoolType { val } => ValueModel::Bool(*val),
            PushType::PushIntType { val } => ValueModel::Int(*val),
            PushType::PushFloatType { val } => ValueModel::Float(*val),
            PushType::PushBoolVectorType { val } => ValueModel::BoolVec(val.values@),
            PushType::PushIntVectorType { val } => ValueModel::IntVec(val.values@),
            PushType::PushFloatVectorType { val } => ValueModel::FloatVec(val.values@),
        }
    }

    pub fn duplicate(&self) -> (r: PushType)
        ensures
            r.model() == self.model(),
    {
        match self {
            PushType::PushBoolType { val } => PushType::PushBoolType { val: *val },
            PushType::PushIntType { val } => PushType::PushIntType { val: *val },
            PushType::PushFloatType { val } => PushType::PushFloatType { val: *val },
            PushType::PushBoolVectorType { val } => PushType::PushBoolVectorType {
                val: BoolVector { values: copy_values(&val.values) },
            },
            PushType::PushIntVectorType { val } => PushType::PushIntVectorType {
                val: IntVector { values: copy_values(&val.values) },
            },
            PushType::PushFloatVectorType { val } => PushType::PushFloatVectorType {
                val: FloatVector { values: copy_values(&val.values) },
            },
        }
    }
}

/// An element-wise copy of a vector of plain values.
fn copy_values<T: Copy>(v: &Vec<T>) -> (r: Vec<T>)
    ensures
        r@ == v@,
{
    let mut out: Vec<T> = Vec::new();
    let mut i: usize = 0;
    while i < v.len()
        invariant
            i <= v@.len(),
            out@ == v@.subrange(0, i as int),
        decreases v@.len() - i,
    {
        out.push(v[i]);
        i += 1;
        assert(out@ =~= v@.subrange(0, i as int));
    }
    assert(out@ =~= v@);
    out
}

impl Item {
    pub open spec fn model(&self) -> ItemModel
        decreases self,
    {
        match self {
            Item::Literal { push_type } => ItemModel::Literal(push_type.model()),
            Item::InstructionMeta { name } => ItemModel::Instruction(name@),
            Item::Identifier { name } => ItemModel::Identifier(name@),
            Item::List { items } => ItemModel::List(item_models(items.values@)),
        }
    }
}

/// The models of a sequence of items, in the same order.
pub open spec fn item_models(s: Seq<Item>) -> Seq<ItemModel>
    decreases s,
{
    if s.len() == 0 {
        Seq::empty()
    } else {
        item_models(s.subrange(0, s.len() - 1)).push(s[s.len() - 1].model())
    }
}

/// `item_models` takes the model of each item in place.
pub proof fn lemma_item_models_index(s: Seq<Item>)
    ensures
        item_models(s).len() == s.len(),
        forall|j: int| 0 <= j < s.len() ==> #[trigger] item_models(s)[j] == s[j].model(),
    decreases s.len(),
{
    if s.len() > 0 {
        lemma_item_models_index(s.subrange(0, s.len() - 1));
    }
}

/// The two ways of taking the models of a sequence of items agree.
pub proof fn lemma_item_models(s: Seq<Item>)
    ensures
        item_models(s) == models(s),
    decreases s.len(),
{
    if s.len() > 0 {
        lemma_item_models(s.subrange(0, s.len() - 1));
        assert(models(s) =~= models(s.subrange(0, s.len() - 1)).push(s[s.len() - 1].model()));
    } else {
        assert(models(s) =~= Seq::<ItemModel>::empty());
    }
}

impl Item {
    /// A deep copy: the whole subtree is duplicated.
    pub fn copy_item(&self) -> (r: Item)
        ensures
            r.model() == self.model(),
        decreases self,
    {
        match self {
            Item::Literal { push_type } => Item::Literal { push_type: push_type.duplicate() },
            Item::InstructionMeta { name } => Item::InstructionMeta { name: name.clone() },
            Item::Identifier { name } => Item::Identifier { name: name.clone() },
            Item::List { items } => {
                let mut out: Vec<Item> = Vec::new();
                let mut i: usize = 0;
                while i < items.values.len()
                    invariant
                        i <= items.values@.len(),
                        self is List && self->items == *items,
                        item_models(out@) == item_models(items.values@.subrange(0, i as int)),
                    decreases items.values@.len() - i,
                {
                    proof {
                        assert(decreases_to!(*self => self->items));
                        assert(decreases_to!(self->items => self->items.values));
                        assert(decreases_to!(items.values => items.values@));
                        assert(decreases_to!(items.values@ => items.values@[i as int]));
                        assert(decreases_to!(self => items.values@[i as int]));
                    }
                    let d = items.values[i].copy_item();
                    let ghost before = out@;
                    out.push(d);
                    proof {
                        assert(out@.subrange(0, out@.len() - 1) =~= before);
                        let t = items.values@.subrange(0, i + 1);
                        assert(t.subrange(0, t.len() - 1) =~= items.values@.subrange(0, i as int));
                    }
                    i += 1;
                }
                assert(items.values@.subrange(0, i as int) =~= items.values@);
                Item::List { items: PushStack { values: out } }
            },
        }
    }

    pub fn integer(val: i32) -> (r: Item)
        ensures
            r.model() == ItemModel::Literal(ValueModel::Int(val)),
    {
        Item::Literal { push_type: PushType::PushIntType { val } }
    }

    pub fn boolean(val: bool) -> (r: Item)
        ensures
            r.model() == ItemModel::Literal(ValueModel::Bool(val)),
    {
        Item::Literal { push_type: PushType::PushBoolType { val } }
    }

    pub fn float(val: PushFloat) -> (r: Item)
        ensures
            r.model() == ItemModel::Literal(ValueModel::Float(val)),
    {
        Item::Literal { push_type: PushType::PushFloatType { val } }
    }

    pub fn boolvec(val: BoolVector) -> (r: Item)
        ensures
            r.model() == ItemModel::Literal(ValueModel::BoolVec(val.values@)),
    {
        Item::Literal { push_type: PushType::PushBoolVectorType { val } }
    }

    pub fn intvec(val: IntVector) -> (r: Item)
        ensures
            r.model() == ItemModel::Literal(ValueModel::IntVec(val.values@)),
    {
        Item::Literal { push_type: PushType::PushIntVectorType { val } }
    }

    pub fn floatvec(val: FloatVector) -> (r: Item)
        ensures
            r.model() == ItemModel::Literal(ValueModel::FloatVec(val.values@)),
    {
        Item::Literal { push_type: PushType::PushFloatVectorType { val } }
    }

    pub fn instruction(name: String) -> (r: Item)
        ensures
            r.model() == ItemModel::Instruction(name@),
    {
        Item::InstructionMeta { name }
    }

    pub fn name(name: String) -> (r: Item)
        ensures
            r.model() == ItemModel::Identifier(name@),
    {
        Item::Identifier { name }
    }

    /// A list whose elements are `items`, bottom to top: the last one executes first.
    pub fn list(items: Vec<Item>) -> (r: Item)
        ensures
            r.model() == ItemModel::List(item_models(items@)),
    {
        Item::List { items: PushStack { values: items } }
    }

    pub fn noop() -> (r: Item)
        ensures
            r.model() == ItemModel::Instruction(noop_name()),
    {
        let name = String::from_str("NOOP");
        proof {
            reveal_strlit("NOOP");
        }
        assert(name@ =~= noop_name());
        Item::InstructionMeta { name }
    }
}

pub open spec fn noop_name() -> Seq<char> {
    seq!['N', 'O', 'O', 'P']
}

impl StackValue for Item {
    type Model = ItemModel;

    open spec fn model(&self) -> ItemModel {
        Item::model(self)
    }

    open spec fn text(&self) -> Seq<char> {
        item_text(Item::model(self))
    }

    fn render_into(&self, out: &mut Vec<char>) {
        self.render_item(out);
    }

    fn duplicate(&self) -> (r: Item) {
        self.copy_item()
    }
}

impl StackValue for PushFloat {
    type Model = PushFloat;

    open spec fn model(&self) -> PushFloat {
        *self
    }

    open spec fn text(&self) -> Seq<char> {
        float_text(*self)
    }

    fn render_into(&self, out: &mut Vec<char>) {
        self.render_number(out);
    }

    fn duplicate(&self) -> (r: PushFloat) {
        *self
    }
}

impl StackValue for BoolVector {
    type Model = Seq<bool>;

    open spec fn model(&self) -> Seq<bool> {
        self.values@
    }

    open spec fn text(&self) -> Seq<char> {
        vector_text(self.values@)
    }

    fn render_into(&self, out: &mut Vec<char>) {
        crate::render::render_vector(&self.values, out);
    }

    fn duplicate(&self) -> (r: BoolVector) {
        BoolVector { values: copy_values(&self.values) }
    }
}

impl StackValue for IntVector {
    type Model = Seq<i32>;

    open spec fn model(&self) -> Seq<i32> {
        self.values@
    }

    open spec fn text(&self) -> Seq<char> {
        vector_text(self.values@)
    }

    fn render_into(&self, out: &mut Vec<char>) {
        crate::render::render_vector(&self.values, out);
    }

    fn duplicate(&self) -> (r: IntVector) {
        IntVector { values: copy_values(&self.values) }
    }
}

impl StackValue for FloatVector {
    type Model = Seq<PushFloat>;

    open spec fn model(&self) -> Seq<PushFloat> {
        self.values@
    }

    open spec fn text(&self) -> Seq<char> {
        vector_text(self.values@)
    }

    fn render_into(&self, out: &mut Vec<char>) {
        crate::render::render_vector(&self.values, out);
    }

    fn duplicate(&self) -> (r: FloatVector) {
        FloatVector { values: copy_values(&self.values) }
    }
}

} // verus!
