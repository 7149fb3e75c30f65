use vstd::prelude::*;
use crate::text::{int_text, nat_text, push_int, push_nat, push_str, string_of};

verus! {

/// A value that a stack can hold: it has a mathematical model and can be
/// duplicated without changing that model.
pub trait StackValue: Sized {
    type Model;

    spec fn model(&self) -> Self::Model;

    /// The text of this value in a stack listing.
    spec fn text(&self) -> Seq<char>;

    fn duplicate(&self) -> (r: Self)
        ensures
            r.model() == self.model(),
    ;

    fn render_into(&self, out: &mut Vec<char>)
        ensures
            final(out)@ == old(out)@ + self.text(),
    ;
}

/// One entry `<k>:<text>;` of a stack listing.
pub open spec fn entry_text(k: nat, t: Seq<char>) -> Seq<char> {
    nat_text(k) + seq![':'] + t + seq![';'] 
}

/// The listing of the stack `s` (stored bottom to top), numbered from `k` at
/// the top, entries separated by a space.
pub open spec fn listing<T: StackValue>(s: Seq<T>, k: nat) -> Seq<char>
    decreases s.len(),
{
    if s.len() == 0 {
        Seq::empty()
    } else if s.len() == 1 {
        entry_text(k, s[0].text())
    } else {
        entry_text(k, s[s.len() - 1].text()) + seq![' '] + listing(s.subrange(0, s.len() - 1), k + 1)
    }
}

/// The models of a sequence of stack values, in the same order.
pub open spec fn models<T: StackValue>(s: Seq<T>) -> Seq<T::Model> {
    s.map_values(|t: T| t.model())
}

/// Index of the element `depth` places below the top of a stack of length `len`.
pub open spec fn index_of_depth(len: int, depth: int) -> int {
    len - 1 - depth
}

/// The stack `s` after moving the element at `depth` to the top.
pub open spec fn yanked<A>(s: Seq<A>, depth: int) -> Seq<A> {
    let i = index_of_depth(s.len() as int, depth);
    s.remove(i).push(s[i])
}

/// The stack `s` after moving its top element `depth` places down.
pub open spec fn shoved<A>(s: Seq<A>, depth: int) -> Seq<A> {
    let i = index_of_depth(s.len() as int, depth);
    s.drop_last().insert(i, s.last())
}

/// A stack stored bottom to top: the last element of `values` is the top.
pub struct PushStack<T> {
    pub values: Vec<T>,
}

impl<T: StackValue> PushStack<T> {
    pub open spec fn view(&self) -> Seq<T::Model> {
        models(self.values@)
    }

    pub fn new() -> (r: Self)
        ensures
            r.view() == Seq::<T::Model>::empty(),
    {
        PushStack { values: Vec::new() }
    }

    pub fn size(&self) -> (r: usize)
        ensures
            r == self.view().len(),
    {
        self.values.len()
    }

    pub fn push(&mut self, value: T)
        ensures
            final(self).view() == old(self).view().push(value.model()),
    {
        self.values.push(value);
        assert(self.view() =~= old(self).view().push(value.model()));
    }

    /// Inserts `value` at the bottom of the stack.
    pub fn push_front(&mut self, value: T)
        ensures
            final(self).view() == seq![value.model()] + old(self).view(),
    {
        self.values.insert(0, value);
        assert(self.view() =~= seq![value.model()] + old(self).view());
    }

    pub fn pop(&mut self) -> (r: Option<T>)
        ensures
            old(self).view().len() == 0 ==> r is None && final(self).view() == old(self).view(),
            old(self).view().len() > 0 ==> r is Some && r->0.model() == old(self).view().last()
                && final(self).view() == old(self).view().drop_last(),
    {
        let r = self.values.pop();
        if r.is_some() {
            assert(self.view() =~= old(self).view().drop_last());
        }
        r
    }

    /// Removes the top `n` elements and returns them bottom to top; does nothing
    /// when fewer than `n` are there.
    pub fn pop_vec(&mut self, n: usize) -> (r: Option<Vec<T>>)
        ensures
            n > old(self).view().len() ==> r is None && final(self).view() == old(self).view(),
            n <= old(self).view().len() ==> r is Some && models(r->0@) == old(self).view().subrange(
                old(self).view().len() - n,
                old(self).view().len() as int,
            ) && final(self).view() == old(self).view().subrange(
                0,
                old(self).view().len() - n,
            ),
    {
        let len = self.values.len();
        if n > len {
            return None;
        }
        let tail = self.values.split_off(len - n);
        assert(models(tail@) =~= old(self).view().subrange(len - n, len as int));
        assert(self.view() =~= old(self).view().subrange(0, len - n));
        Some(tail)
    }

    pub fn flush(&mut self)
        ensures
            final(self).view() == Seq::<T::Model>::empty(),
    {
        self.values.clear();
        assert(self.view() =~= Seq::<T::Model>::empty());
    }

    /// The listing of the whole stack, top first: `1:<top>; 2:<next>; ...`.
    pub fn to_string(&self) -> (r: String)
        ensures
            r@ == listing(self.values@, 1),
    {
        let mut out: Vec<char> = Vec::new();
        self.render_into(&mut out);
        string_of(&out)
    }

    /// Appends the listing of the whole stack.
    pub fn render_into(&self, out: &mut Vec<char>)
        ensures
            final(out)@ == old(out)@ + listing(self.values@, 1),
    {
        let len = self.values.len();
        let mut i: usize = len;
        assert(self.values@.subrange(0, len as int) =~= self.values@);
        while i > 0
            invariant
                i <= len == self.values@.len(),
                out@ + listing(self.values@.subrange(0, i as int), (len - i + 1) as nat)
                    == old(out)@ + listing(self.values@, 1),
            decreases i,
        {
            let ghost pre = out@;
            let ghost rest = self.values@.subrange(0, i as int);
            let ghost k = (len - i + 1) as nat;
            assert(rest.subrange(0, rest.len() - 1) =~= self.values@.subrange(0, i - 1));
            push_nat(out, (len - i + 1) as u64);
            out.push(':');
            self.values[i - 1].render_into(out);
            out.push(';');
            if i > 1 {
                out.push(' ');
            }
            assert(out@ + listing(self.values@.subrange(0, i - 1), (k + 1) as nat)
                =~= pre + listing(rest, k));
            i -= 1;
        }
        assert(self.values@.subrange(0, len as int) =~= self.values@);
    }

    /// A duplicate of the element at `depth`, if there is one.
    pub fn copy(&self, depth: usize) -> (r: Option<T>)
        ensures
            depth >= self.view().len() ==> r is None,
            depth < self.view().len() ==> r is Some && r->0.model() == self.view()[index_of_depth(
                self.view().len() as int,
                depth as int,
            )],
    {
        let len = self.values.len();
        if depth >= len {
            return None;
        }
        Some(self.values[len - 1 - depth].duplicate())
    }

    /// Duplicates of the top `n` elements, bottom to top.
    pub fn copy_vec(&self, n: usize) -> (r: Option<Vec<T>>)
        ensures
            n > self.view().len() ==> r is None,
            n <= self.view().len() ==> r is Some && models(r->0@) == self.view().subrange(
                self.view().len() - n,
                self.view().len() as int,
            ),
    {
        let len = self.values.len();
        if n > len {
            return None;
        }
        let mut out: Vec<T> = Vec::new();
        let mut i: usize = len - n;
        while i < len
            invariant
                len == self.values@.len(),
                n <= len,
                len - n <= i <= len,
                models(out@) == self.view().subrange(len - n, i as int),
            decreases len - i,
        {
            let d = self.values[i].duplicate();
            let ghost before = out@;
            out.push(d);
            proof {
                assert(models(out@) =~= models(before).push(d.model()));
            }
            i += 1;
            assert(models(out@) =~= self.view().subrange(len - n, i as int));
        }
        Some(out)
    }

    /// Moves the element at `depth` to the top; does nothing when `depth` is
    /// out of range.
    pub fn yank(&mut self, depth: usize)
        ensures
            depth < old(self).view().len() ==> final(self).view() == yanked(
                old(self).view(),
                depth as int,
            ),
            depth >= old(self).view().len() ==> final(self).view() == old(self).view(),
    {
        let len = self.values.len();
        if depth < len {
            let v = self.values.remove(len - 1 - depth);
            self.values.push(v);
            assert(self.view() =~= yanked(old(self).view(), depth as int));
        }
    }

    /// Moves the top element `depth` places down; does nothing when `depth` is
    /// out of range.
    pub fn shove(&mut self, depth: usize)
        ensures
            depth < old(self).view().len() ==> final(self).view() == shoved(
                old(self).view(),
                depth as int,
            ),
            depth >= old(self).view().len() ==> final(self).view() == old(self).view(),
    {
        let len = self.values.len();
        if depth < len {
            let v = self.values.pop().unwrap();
            self.values.insert(len - 1 - depth, v);
            assert(self.view() =~= shoved(old(self).view(), depth as int));
        }
    }

    /// Replaces the element at `depth`; does nothing when `depth` is out of range.
    pub fn replace(&mut self, depth: usize, value: T)
        ensures
            depth < old(self).view().len() ==> final(self).view() == old(self).view().update(
                index_of_depth(old(self).view().len() as int, depth as int),
                value.model(),
            ),
            depth >= old(self).view().len() ==> final(self).view() == old(self).view(),
    {
        let len = self.values.len();
        if depth < len {
            self.values.set(len - 1 - depth, value);
            assert(self.view() =~= old(self).view().update(
                index_of_depth(len as int, depth as int),
                value.model(),
            ));
        }
    }
}

impl StackValue for bool {
    type Model = bool;

    open spec fn model(&self) -> bool {
        *self
    }

    open spec fn text(&self) -> Seq<char> {
        if *self { seq!['t', 'r', 'u', 'e'] } else { seq!['f', 'a', 'l', 's', 'e'] }
    }

    fn render_into(&self, out: &mut Vec<char>) {
        if *self {
            out.push('t'); out.push('r'); out.push('u'); out.push('e');
        } else {
            out.push('f'); out.push('a'); out.push('l'); out.push('s'); out.push('e');
        }
        assert(final(out)@ =~= old(out)@ + self.text());
    }

    fn duplicate(&self) -> (r: bool) {
        *self
    }
}

impl StackValue for i32 {
    type Model = i32;

    open spec fn model(&self) -> i32 {
        *self
    }

    open spec fn text(&self) -> Seq<char> {
        int_text(*self as int)
    }

    fn render_into(&self, out: &mut Vec<char>) {
        push_int(out, *self as i64);
    }

    fn duplicate(&self) -> (r: i32) {
        *self
    }
}

impl StackValue for String {
    type Model = Seq<char>;

    open spec fn model(&self) -> Seq<char> {
        self@
    }

    open spec fn text(&self) -> Seq<char> {
        self@
    }

    fn render_into(&self, out: &mut Vec<char>) {
        push_str(out, self.as_str());
    }

    fn duplicate(&self) -> (r: String) {
        self.clone()
    }
}

} // verus!
