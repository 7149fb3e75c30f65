use vstd::prelude::*;
use crate::item::{
    Item, ItemModel, PushFloat, PushType, ValueModel, item_models, lemma_item_models_index,
};
use crate::stack::{StackValue, entry_text};
use crate::text::{nat_text, push_nat, push_str};

verus! {

broadcast use {
    vstd::seq::axiom_seq_subrange_decreases,
    vstd::seq::axiom_seq_index_decreases,
    vstd::std_specs::vec::axiom_vec_decreases_to_view,
};

/// The digits of `|mantissa|`, padded with leading zeros so that at least one
/// digit stands before the decimal point.
pub open spec fn float_digits(f: PushFloat) -> Seq<char> {
    let d = nat_text(if f.mantissa < 0 { -f.mantissa } else { f.mantissa as int } as nat);
    let width = f.scale + 1;
    if d.len() >= width {
        d
    } else {
        Seq::new((width - d.len()) as nat, |i: int| '0') + d
    }
}

/// Decimal text of `mantissa / 10^scale`, with exactly `scale` digits after the point.
pub open spec fn float_text(f: PushFloat) -> Seq<char> {
    let p = float_digits(f);
    let sign = if f.mantissa < 0 { seq!['-'] } else { Seq::empty() };
    if f.scale == 0 {
        sign + p
    } else {
        sign + p.subrange(0, p.len() - f.scale) + seq!['.'] + p.subrange(p.len() - f.scale, p.len() as int)
    }
}

/// The texts of the values of `s`, separated by single spaces.
pub open spec fn spaced<T: StackValue>(s: Seq<T>) -> Seq<char>
    decreases s.len(),
{
    if s.len() == 0 {
        Seq::empty()
    } else if s.len() == 1 {
        s[0].text()
    } else {
        spaced(s.subrange(0, s.len() - 1)) + seq![' '] + s[s.len() - 1].text()
    }
}

/// A vector literal: `[a b c]`.
pub open spec fn vector_text<T: StackValue>(s: Seq<T>) -> Seq<char> {
    seq!['['] + spaced(s) + seq![']']
}

pub open spec fn value_text(v: ValueModel) -> Seq<char> {
    match v {
        ValueModel::Bool(b) => b.text(),
        ValueModel::Int(n) => n.text(),
        ValueModel::Float(f) => float_text(f) + seq!['f'],
        ValueModel::BoolVec(s) => vector_text(s),
        ValueModel::IntVec(s) => vector_text(s),
        ValueModel::FloatVec(s) => vector_text(s),
    }
}

pub open spec fn literal_word() -> Seq<char> {
    seq!['L', 'i', 't', 'e', 'r', 'a', 'l', '(']
}

pub open spec fn instruction_word() -> Seq<char> {
    seq!['I', 'n', 's', 't', 'r', 'u', 'c', 't', 'i', 'o', 'n', 'M', 'e', 't', 'a', '(']
}

pub open spec fn identifier_word() -> Seq<char> {
    seq!['I', 'd', 'e', 'n', 't', 'i', 'f', 'i', 'e', 'r', '(']
}

pub open spec fn list_word() -> Seq<char> {
    seq!['L', 'i', 's', 't', ':', ' ']
}

/// The text of an item: `Literal(..)`, `InstructionMeta(..)`, `Identifier(..)`
/// or `List: <listing>`.
pub open spec fn item_text(m: ItemModel) -> Seq<char>
    decreases m,
{
    match m {
        ItemModel::Literal(v) => literal_word() + value_text(v) + seq![')'],
        ItemModel::Instruction(n) => instruction_word() + n + seq![')'],
        ItemModel::Identifier(n) => identifier_word() + n + seq![')'],
        ItemModel::List(s) => list_word() + list_text(s, 1),
    }
}

/// The listing of the elements of a list, top first, numbered from `k`.
pub open spec fn list_text(s: Seq<ItemModel>, k: nat) -> Seq<char>
    decreases s,
{
    if s.len() == 0 {
        Seq::empty()
    } else if s.len() == 1 {
        entry_text(k, item_text(s[0]))
    } else {
        entry_text(k, item_text(s[s.len() - 1])) + seq![' '] + list_text(s.subrange(0, s.len() - 1), k + 1)
    }
}

fn push_chars(out: &mut Vec<char>, v: &Vec<char>, lo: usize, hi: usize)
    requires
        lo <= hi <= v@.len(),
    ensures
        final(out)@ == old(out)@ + v@.subrange(lo as int, hi as int),
{
    let mut i: usize = lo;
    while i < hi
        invariant
            lo <= i <= hi <= v@.len(),
            out@ == old(out)@ + v@.subrange(lo as int, i as int),
        decreases hi - i,
    {
        out.push(v[i]);
        i += 1;
        assert(out@ =~= old(out)@ + v@.subrange(lo as int, i as int));
    }
}

fn push_literal(out: &mut Vec<char>, s: &str, Ghost(w): Ghost<Seq<char>>)
    requires
        s@ == w,
    ensures
        final(out)@ == old(out)@ + w,
{
    push_str(out, s);
}

impl PushFloat {
    pub fn render_number(&self, out: &mut Vec<char>)
        ensures
            final(out)@ == old(out)@ + float_text(*self),
    {
        let magnitude: u64 = if self.mantissa == i64::MIN {
            9223372036854775808u64
        } else if self.mantissa < 0 {
            (-self.mantissa) as u64
        } else {
            self.mantissa as u64
        };
        let mut d: Vec<char> = Vec::new();
        push_nat(&mut d, magnitude);
        assert(d@ == nat_text(magnitude as nat));
        let mut p: Vec<char> = Vec::new();
        let width: u64 = self.scale as u64 + 1;
        if (d.len() as u64) < width {
            let zeros: u64 = width - d.len() as u64;
            let mut j: u64 = 0;
            while j < zeros
                invariant
                    j <= zeros,
                    p@ == Seq::new(j as nat, |i: int| '0'),
                decreases zeros - j,
            {
                p.push('0');
                j += 1;
                assert(p@ =~= Seq::new(j as nat, |i: int| '0'));
            }
        }
        let ghost zs = p@;
        push_chars(&mut p, &d, 0, d.len());
        assert(d@.subrange(0, d@.len() as int) =~= d@);
        assert(p@ =~= float_digits(*self));
        let ghost before = out@;
        if self.mantissa < 0 {
            out.push('-');
        }
        let ghost signed = out@;
        let l = p.len();
        if self.scale == 0 {
            push_chars(out, &p, 0, l);
            assert(p@.subrange(0, l as int) =~= p@);
        } else {
            let cut = l - self.scale as usize;
            push_chars(out, &p, 0, cut);
            out.push('.');
            push_chars(out, &p, cut, l);
        }
        assert(out@ =~= before + float_text(*self));
    }
}

pub(crate) fn render_vector<T: StackValue>(v: &Vec<T>, out: &mut Vec<char>)
    ensures
        final(out)@ == old(out)@ + vector_text(v@),
{
    out.push('[');
    let mut i: usize = 0;
    while i < v.len()
        invariant
            i <= v@.len(),
            out@ == old(out)@ + seq!['['] + spaced(v@.subrange(0, i as int)),
        decreases v@.len() - i,
    {
        let ghost pre = out@;
        if i > 0 {
            out.push(' ');
        }
        v[i].render_into(out);
        let ghost t = v@.subrange(0, i + 1);
        assert(t.subrange(0, t.len() - 1) =~= v@.subrange(0, i as int));
        i += 1;
        assert(out@ =~= old(out)@ + seq!['['] + spaced(v@.subrange(0, i as int)));
    }
    assert(v@.subrange(0, i as int) =~= v@);
    out.push(']');
    assert(out@ =~= old(out)@ + vector_text(v@));
}

impl PushType {
    pub fn render_into(&self, out: &mut Vec<char>)
        ensures
            final(out)@ == old(out)@ + value_text(self.model()),
    {
        match self {
            PushType::PushBoolType { val } => val.render_into(out),
            PushType::PushIntType { val } => val.render_into(out),
            PushType::PushFloatType { val } => {
                val.render_number(out);
                out.push('f');
                assert(out@ =~= old(out)@ + value_text(self.model()));
            },
            PushType::PushBoolVectorType { val } => render_vector(&val.values, out),
            PushType::PushIntVectorType { val } => render_vector(&val.values, out),
            PushType::PushFloatVectorType { val } => render_vector(&val.values, out),
        }
    }
}

impl Item {
    pub fn render_item(&self, out: &mut Vec<char>)
        ensures
            final(out)@ == old(out)@ + item_text(self.model()),
        decreases self,
    {
        match self {
            Item::Literal { push_type } => {
                proof { reveal_strlit("Literal("); }
                assert("Literal("@ =~= literal_word());
                push_literal(out, "Literal(", Ghost(literal_word()));
                push_type.render_into(out);
                out.push(')');
                assert(out@ =~= old(out)@ + item_text(self.model()));
            },
            Item::InstructionMeta { name } => {
                proof { reveal_strlit("InstructionMeta("); }
                assert("InstructionMeta("@ =~= instruction_word());
                push_literal(out, "InstructionMeta(", Ghost(instruction_word()));
                push_str(out, name.as_str());
                out.push(')');
                assert(out@ =~= old(out)@ + item_text(self.model()));
            },
            Item::Identifier { name } => {
                proof { reveal_strlit("Identifier("); }
                assert("Identifier("@ =~= identifier_word());
                push_literal(out, "Identifier(", Ghost(identifier_word()));
                push_str(out, name.as_str());
                out.push(')');
                assert(out@ =~= old(out)@ + item_text(self.model()));
            },
            Item::List { items } => {
                proof { reveal_strlit("List: "); }
                assert("List: "@ =~= list_word());
                push_literal(out, "List: ", Ghost(list_word()));
                let ghost start = out@;
                let values = &items.values;
                let len = values.len();
                let mut i: usize = len;
                assert(values@.subrange(0, len as int) =~= values@);
                while i > 0
                    invariant
                        i <= len == values@.len(),
                        *values == items.values,
                        self is List && self->items == *items,
                        out@ + list_text(item_models(values@.subrange(0, i as int)), (len - i + 1) as nat)
                            == start + list_text(item_models(values@), 1),
                    decreases i,
                {
                    let ghost pre = out@;
                    let ghost rest = values@.subrange(0, i as int);
                    let ghost k = (len - i + 1) as nat;
                    assert(rest.subrange(0, rest.len() - 1) =~= values@.subrange(0, i - 1));
                    proof {
                        lemma_item_models_index(rest);
                        lemma_item_models_index(values@.subrange(0, i - 1));
                        assert(item_models(rest).subrange(0, rest.len() - 1) =~= item_models(values@.subrange(0, i - 1)));
                    }
                    push_nat(out, (len - i + 1) as u64);
                    out.push(':');
                    proof {
                        assert(decreases_to!(*self => self->items));
                        assert(decreases_to!(self->items => self->items.values));
                        assert(decreases_to!(items.values => items.values@));
                        assert(decreases_to!(items.values@ => items.values@[i - 1]));
                        assert(decreases_to!(self => values@[i - 1]));
                    }
                    values[i - 1].render_item(out);
                    out.push(';');
                    if i > 1 {
                        out.push(' ');
                    }
                    assert(out@ + list_text(item_models(values@.subrange(0, i - 1)), (k + 1) as nat)
                        =~= pre + list_text(item_models(rest), k));
                    i -= 1;
                }
                assert(values@.subrange(0, len as int) =~= values@);
                assert(out@ =~= old(out)@ + item_text(self.model()));
            },
        }
    }

    /// The text of this item, as in a stack listing.
    pub fn to_string(&self) -> (r: String)
        ensures
            r@ == item_text(self.model()),
    {
        let mut out: Vec<char> = Vec::new();
        self.render_item(&mut out);
        crate::text::string_of(&out)
    }
}

} // verus!
