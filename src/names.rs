use vstd::prelude::*;

verus! {

pub open spec fn do_range_name() -> Seq<char> {
    seq!['E', 'X', 'E', 'C', '.', 'D', 'O', '*', 'R', 'A', 'N', 'G', 'E']
}

pub open spec fn exec_y_name() -> Seq<char> {
    seq!['E', 'X', 'E', 'C', '.', 'Y']
}

pub open spec fn integer_pop_name() -> Seq<char> {
    seq!['I', 'N', 'T', 'E', 'G', 'E', 'R', '.', 'P', 'O', 'P']
}

pub fn do_range_string() -> (r: String)
    ensures
        r@ == do_range_name(),
{
    let r = String::from_str("EXEC.DO*RANGE");
    proof {
        reveal_strlit("EXEC.DO*RANGE");
    }
    assert(r@ =~= do_range_name());
    r
}

pub fn exec_y_string() -> (r: String)
    ensures
        r@ == exec_y_name(),
{
    let r = String::from_str("EXEC.Y");
    proof {
        reveal_strlit("EXEC.Y");
    }
    assert(r@ =~= exec_y_name());
    r
}

pub fn integer_pop_string() -> (r: String)
    ensures
        r@ == integer_pop_name(),
{
    let r = String::from_str("INTEGER.POP");
    proof {
        reveal_strlit("INTEGER.POP");
    }
    assert(r@ =~= integer_pop_name());
    r
}

} // verus!
