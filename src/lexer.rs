use vstd::prelude::*;
use crate::item::PushFloat;

verus! {

/// The characters with the Unicode White_Space property.
pub open spec fn is_space(c: char) -> bool {
    ('\t' <= c && c <= '\r') || c == ' ' || c == '\u{85}' || c == '\u{A0}' || c == '\u{1680}'
        || ('\u{2000}' <= c && c <= '\u{200A}') || c == '\u{2028}' || c == '\u{2029}'
        || c == '\u{202F}' || c == '\u{205F}' || c == '\u{3000}'
}

/// The whitespace-separated tokens of `s`, in order.
pub open spec fn tokenize(s: Seq<char>) -> Seq<Seq<char>>
    decreases s.len(),
{
    if s.len() == 0 {
        Seq::empty()
    } else {
        let rest = tokenize(s.drop_last());
        let c = s.last();
        if is_space(c) {
            rest
        } else if s.len() >= 2 && !is_space(s[s.len() - 2]) {
            rest.drop_last().push(rest.last().push(c))
        } else {
            rest.push(seq![c])
        }
    }
}

fn is_space_char(c: char) -> (r: bool)
    ensures
        r == is_space(c),
{
    ('\t' <= c && c <= '\r') || c == ' ' || c == '\u{85}' || c == '\u{A0}' || c == '\u{1680}'
        || ('\u{2000}' <= c && c <= '\u{200A}') || c == '\u{2028}' || c == '\u{2029}'
        || c == '\u{202F}' || c == '\u{205F}' || c == '\u{3000}'
}

/// Splits `s` at whitespace.
pub fn split_tokens(s: &Vec<char>) -> (r: Vec<Vec<char>>)
    ensures
        r@.len() == tokenize(s@).len(),
        forall|i: int| 0 <= i < r@.len() ==> #[trigger] r@[i]@ == tokenize(s@)[i],
{
    let mut toks: Vec<Vec<char>> = Vec::new();
    let mut cur: Vec<char> = Vec::new();
    let mut in_token = false;
    let mut i: usize = 0;
    while i < s.len()
        invariant
            i <= s@.len(),
            in_token == (i > 0 && !is_space(s@[i - 1])),
            in_token ==> ({
                let t = tokenize(s@.subrange(0, i as int));
                &&& t.len() == toks@.len() + 1
                &&& forall|j: int| 0 <= j < toks@.len() ==> #[trigger] toks@[j]@ == t[j]
                &&& cur@ == t.last()
            }),
            !in_token ==> ({
                let t = tokenize(s@.subrange(0, i as int));
                &&& t.len() == toks@.len()
                &&& forall|j: int| 0 <= j < toks@.len() ==> #[trigger] toks@[j]@ == t[j]
            }),
        decreases s@.len() - i,
    {
        let c = s[i];
        let ghost pre = s@.subrange(0, i as int);
        let ghost next = s@.subrange(0, i + 1);
        assert(next.drop_last() =~= pre);
        if is_space_char(c) {
            if in_token {
                toks.push(cur);
                cur = Vec::new();
            }
            in_token = false;
        } else {
            if in_token {
                cur.push(c);
            } else {
                cur = Vec::new();
                cur.push(c);
                assert(cur@ =~= seq![c]);
            }
            in_token = true;
        }
        i += 1;
    }
    if in_token {
        toks.push(cur);
    }
    assert(s@.subrange(0, i as int) =~= s@);
    toks
}

pub open spec fn is_digit(c: char) -> bool {
    '0' <= c && c <= '9'
}

pub open spec fn all_digits(s: Seq<char>) -> bool {
    forall|i: int| 0 <= i < s.len() ==> is_digit(#[trigger] s[i])
}

/// The value of a string of decimal digits.
pub open spec fn digits_value(s: Seq<char>) -> nat
    decreases s.len(),
{
    if s.len() == 0 {
        0
    } else {
        digits_value(s.drop_last()) * 10 + ((s.last() as u32) - ('0' as u32)) as nat
    }
}

/// `s` without a leading sign, and whether that sign was `-`.
pub open spec fn unsigned_part(s: Seq<char>) -> (bool, Seq<char>) {
    if s.len() > 0 && (s[0] == '-' || s[0] == '+') {
        (s[0] == '-', s.drop_first())
    } else {
        (false, s)
    }
}

/// The integer a token denotes: an optional sign, then at least one digit, in
/// the range of `i32`.
pub open spec fn int_literal(s: Seq<char>) -> Option<i32> {
    let (neg, d) = unsigned_part(s);
    let v = if neg { -digits_value(d) } else { digits_value(d) as int };
    if d.len() > 0 && all_digits(d) && i32::MIN <= v <= i32::MAX {
        Some(v as i32)
    } else {
        None
    }
}

/// The position of the first `.` in `s`, if any.
pub open spec fn dot_index(s: Seq<char>) -> Option<int>
    decreases s.len(),
{
    if s.len() == 0 {
        None
    } else {
        match dot_index(s.drop_last()) {
            Some(p) => Some(p),
            None => if s.last() == '.' { Some(s.len() - 1) } else { None },
        }
    }
}

/// The digits before and after the point of a decimal number without sign.
pub open spec fn decimal_parts(s: Seq<char>) -> Option<(Seq<char>, Seq<char>)> {
    match dot_index(s) {
        None => if all_digits(s) { Some((s, Seq::empty())) } else { None },
        Some(p) => {
            let a = s.subrange(0, p);
            let b = s.subrange(p + 1, s.len() as int);
            if all_digits(a) && all_digits(b) { Some((a, b)) } else { None }
        },
    }
}

/// The largest number of digits a decimal literal may have.
pub const MAX_DECIMAL_DIGITS: usize = 18;

/// The decimal a token denotes: an optional sign, then digits with at most one
/// point and at least one digit, at most eighteen digits in all; the scale is
/// the number of digits after the point.
pub open spec fn float_literal(s: Seq<char>) -> Option<PushFloat> {
    let (neg, u) = unsigned_part(s);
    match decimal_parts(u) {
        None => None,
        Some((a, b)) => {
            let n = a.len() + b.len();
            let v = digits_value(a + b);
            if 1 <= n <= MAX_DECIMAL_DIGITS {
                Some(PushFloat { mantissa: (if neg { -v } else { v as int }) as i64, scale: b.len() as u32 })
            } else {
                None
            }
        },
    }
}

pub open spec fn ten_pow(n: nat) -> nat
    decreases n,
{
    if n == 0 { 1 } else { 10 * ten_pow((n - 1) as nat) }
}

pub proof fn lemma_ten_pow_grows(a: nat, b: nat)
    requires
        a <= b,
    ensures
        ten_pow(a) <= ten_pow(b),
    decreases b,
{
    if a < b {
        lemma_ten_pow_grows(a, (b - 1) as nat);
    }
}

proof fn lemma_ten_pow_18()
    ensures
        ten_pow(18) == 1_000_000_000_000_000_000,
{
    reveal_with_fuel(ten_pow, 19);
}

proof fn lemma_digits_value_bound(s: Seq<char>)
    requires
        all_digits(s),
    ensures
        digits_value(s) < ten_pow(s.len()),
    decreases s.len(),
{
    if s.len() > 0 {
        lemma_digits_value_bound(s.drop_last());
        let p = ten_pow((s.len() - 1) as nat);
        let d = ((s.last() as u32) - ('0' as u32)) as nat;
        assert(digits_value(s.drop_last()) * 10 + d < p * 10) by (nonlinear_arith)
            requires digits_value(s.drop_last()) < p, d < 10;
    }
}

/// Accumulates the digits of `s[lo..hi]` onto `acc`, failing at a non-digit.
fn read_digits(s: &Vec<char>, lo: usize, hi: usize, acc: u64, Ghost(prefix): Ghost<Seq<char>>) -> (r: Option<u64>)
    requires
        lo <= hi <= s@.len(),
        acc == digits_value(prefix),
        all_digits(prefix),
        prefix.len() + (hi - lo) <= MAX_DECIMAL_DIGITS,
    ensures
        all_digits(s@.subrange(lo as int, hi as int)) <==> r is Some,
        r is Some ==> r->0 == digits_value(prefix + s@.subrange(lo as int, hi as int)),
{
    let mut v: u64 = acc;
    let mut i: usize = lo;
    while i < hi
        invariant
            lo <= i <= hi <= s@.len(),
            all_digits(prefix + s@.subrange(lo as int, i as int)),
            v == digits_value(prefix + s@.subrange(lo as int, i as int)),
            prefix.len() + (hi - lo) <= MAX_DECIMAL_DIGITS,
        decreases hi - i,
    {
        let c = s[i];
        let ghost seen = prefix + s@.subrange(lo as int, i as int);
        let ghost more = prefix + s@.subrange(lo as int, i + 1);
        assert(more.drop_last() =~= seen);
        if !('0' <= c && c <= '9') {
            assert(!all_digits(s@.subrange(lo as int, hi as int))) by {
                assert(s@.subrange(lo as int, hi as int)[i - lo] == c);
            }
            return None;
        }
        assert(all_digits(more)) by {
            assert forall|j: int| 0 <= j < more.len() implies is_digit(#[trigger] more[j]) by {
                if j < seen.len() {
                    assert(more[j] == seen[j]);
                }
            }
        }
        proof {
            lemma_digits_value_bound(more);
            lemma_ten_pow_grows(more.len(), 18);
            lemma_ten_pow_18();
        }
        v = v * 10 + ((c as u32) - ('0' as u32)) as u64;
        i += 1;
    }
    assert(prefix + s@.subrange(lo as int, hi as int) =~= prefix + s@.subrange(lo as int, i as int));
    proof {
        let t = s@.subrange(lo as int, hi as int);
        assert forall|j: int| 0 <= j < t.len() implies is_digit(#[trigger] t[j]) by {
            assert((prefix + t)[prefix.len() + j] == t[j]);
        }
    }
    Some(v)
}

/// The cap at which `read_capped` stops counting.
pub const DIGITS_CAP: u64 = 0x1_0000_0000;

pub open spec fn capped(v: nat) -> nat {
    if v >= DIGITS_CAP { DIGITS_CAP as nat } else { v }
}

/// The value of the digits `s[lo..hi]`, capped at `DIGITS_CAP`; `None` at a
/// non-digit.
fn read_capped(s: &Vec<char>, lo: usize, hi: usize) -> (r: Option<u64>)
    requires
        lo <= hi <= s@.len(),
    ensures
        all_digits(s@.subrange(lo as int, hi as int)) <==> r is Some,
        r is Some ==> r->0 == capped(digits_value(s@.subrange(lo as int, hi as int))),
{
    let mut v: u64 = 0;
    let mut i: usize = lo;
    while i < hi
        invariant
            lo <= i <= hi <= s@.len(),
            all_digits(s@.subrange(lo as int, i as int)),
            v == capped(digits_value(s@.subrange(lo as int, i as int))),
        decreases hi - i,
    {
        let c = s[i];
        let ghost seen = s@.subrange(lo as int, i as int);
        let ghost more = s@.subrange(lo as int, i + 1);
        assert(more.drop_last() =~= seen);
        if !('0' <= c && c <= '9') {
            assert(!all_digits(s@.subrange(lo as int, hi as int))) by {
                assert(s@.subrange(lo as int, hi as int)[i - lo] == c);
            }
            return None;
        }
        assert(all_digits(more)) by {
            assert forall|j: int| 0 <= j < more.len() implies is_digit(#[trigger] more[j]) by {
                if j < seen.len() {
                    assert(more[j] == seen[j]);
                }
            }
        }
        let next = v * 10 + ((c as u32) - ('0' as u32)) as u64;
        v = if next >= DIGITS_CAP { DIGITS_CAP } else { next };
        i += 1;
    }
    proof {
        let t = s@.subrange(lo as int, hi as int);
        assert(t =~= s@.subrange(lo as int, i as int));
    }
    Some(v)
}

/// The integer literal `tok` denotes, as `int_literal` describes it.
pub fn parse_int(tok: &Vec<char>) -> (r: Option<i32>)
    ensures
        r == int_literal(tok@),
{
    let len = tok.len();
    let signed = len > 0 && (tok[0] == '-' || tok[0] == '+');
    let neg = signed && tok[0] == '-';
    let start: usize = if signed { 1 } else { 0 };
    let ghost d = unsigned_part(tok@).1;
    assert(d =~= tok@.subrange(start as int, len as int));
    if start >= len {
        return None;
    }
    match read_capped(tok, start, len) {
        None => None,
        Some(v) => {
            if neg {
                if v <= 2147483648 {
                    Some((0 - (v as i64)) as i32)
                } else {
                    None
                }
            } else if v <= 2147483647 {
                Some(v as i32)
            } else {
                None
            }
        },
    }
}

proof fn lemma_dot_index(u: Seq<char>)
    ensures
        dot_index(u) is Some ==> ({
            let p = dot_index(u)->0;
            &&& 0 <= p < u.len()
            &&& u[p] == '.'
            &&& forall|j: int| 0 <= j < p ==> u[j] != '.'
        }),
        dot_index(u) is None ==> forall|j: int| 0 <= j < u.len() ==> u[j] != '.',
    decreases u.len(),
{
    if u.len() > 0 {
        lemma_dot_index(u.drop_last());
        assert forall|j: int| 0 <= j < u.len() - 1 implies u.drop_last()[j] == u[j] by {}
    }
}

/// The position of the first `.` at or after `start`, or the length.
fn find_dot(tok: &Vec<char>, start: usize) -> (p: usize)
    requires
        start <= tok@.len(),
    ensures
        start <= p <= tok@.len(),
        p < tok@.len() ==> dot_index(tok@.subrange(start as int, tok@.len() as int)) == Some(p - start),
        p == tok@.len() ==> dot_index(tok@.subrange(start as int, tok@.len() as int)) is None,
{
    let len = tok.len();
    let ghost u = tok@.subrange(start as int, len as int);
    let mut p: usize = start;
    while p < len && tok[p] != '.'
        invariant
            start <= p <= len == tok@.len(),
            u == tok@.subrange(start as int, len as int),
            forall|j: int| start <= j < p ==> tok@[j] != '.',
        decreases len - p,
    {
        p += 1;
    }
    proof {
        lemma_dot_index(u);
        if p < len {
            assert(u[p - start] == '.');
            if dot_index(u) is None {
                assert(false);
            } else {
                let q = dot_index(u)->0;
                assert(u[q] == tok@[start + q]);
                assert(q >= p - start);
                if q > p - start {
                    assert(u[p - start] != '.');
                }
            }
        } else {
            if dot_index(u) is Some {
                let q = dot_index(u)->0;
                assert(u[q] == tok@[start + q]);
            }
        }
    }
    p
}

/// The decimal literal `tok` denotes, as `float_literal` describes it.
#[verifier::rlimit(40)]
pub fn parse_float(tok: &Vec<char>) -> (r: Option<PushFloat>)
    ensures
        r == float_literal(tok@),
{
    let len = tok.len();
    let signed = len > 0 && (tok[0] == '-' || tok[0] == '+');
    let neg = signed && tok[0] == '-';
    let start: usize = if signed { 1 } else { 0 };
    let ghost u = unsigned_part(tok@).1;
    assert(u =~= tok@.subrange(start as int, len as int));
    let p = find_dot(tok, start);
    assert(u == tok@.subrange(start as int, len as int));
    let has_dot = p < len;
    let frac_start: usize = if has_dot { p + 1 } else { len };
    let int_digits: usize = p - start;
    let frac_digits: usize = len - frac_start;
    let ghost a = tok@.subrange(start as int, p as int);
    let ghost b = tok@.subrange(frac_start as int, len as int);
    proof {
        if has_dot {
            assert(u.subrange(0, (p - start) as int) =~= a);
            assert(u.subrange((p - start) + 1, u.len() as int) =~= b);
        } else {
            assert(a =~= u);
            assert(b =~= Seq::<char>::empty());
            assert(all_digits(b));
        }
        assert(decimal_parts(u) == if all_digits(a) && all_digits(b) { Some((a, b)) } else { None::<(Seq<char>, Seq<char>)> });
    }
    if int_digits + frac_digits == 0 || int_digits + frac_digits > MAX_DECIMAL_DIGITS {
        return None;
    }
    assert(digits_value(Seq::<char>::empty()) == 0);
    assert(all_digits(Seq::<char>::empty()));
    let head = read_digits(tok, start, p, 0, Ghost(Seq::empty()));
    assert(Seq::<char>::empty() + a =~= a);
    let hv = match head {
        None => {
            return None;
        },
        Some(v) => v,
    };
    let whole = read_digits(tok, frac_start, len, hv, Ghost(a));
    let v = match whole {
        None => {
            return None;
        },
        Some(v) => v,
    };
    proof {
        lemma_digits_value_bound(a + b);
        lemma_ten_pow_grows((a + b).len(), 18);
        lemma_ten_pow_18();
    }
    let mantissa: i64 = if neg { 0 - (v as i64) } else { v as i64 };
    Some(PushFloat { mantissa, scale: frac_digits as u32 })
}

/// Appending a token after a space (or to nothing) adds it as one more token.
pub proof fn lemma_tokenize_append(s: Seq<char>, t: Seq<char>)
    requires
        t.len() > 0,
        forall|i: int| 0 <= i < t.len() ==> !is_space(#[trigger] t[i]),
        s.len() == 0 || is_space(s.last()),
    ensures
        tokenize(s + t) == tokenize(s).push(t),
    decreases t.len(),
{
    let u = s + t;
    assert(u.drop_last() =~= s + t.drop_last());
    if t.len() == 1 {
        assert(s + t.drop_last() =~= s);
        assert(t =~= seq![t[0]]);
    } else {
        lemma_tokenize_append(s, t.drop_last());
        assert(u[u.len() - 2] == t[t.len() - 2]);
        assert(t.drop_last().push(t.last()) =~= t);
    }
}

/// A trailing space adds no token.
pub proof fn lemma_tokenize_space(s: Seq<char>, c: char)
    requires
        is_space(c),
    ensures
        tokenize(s.push(c)) == tokenize(s),
{
    assert(s.push(c).drop_last() =~= s);
}

} // verus!
