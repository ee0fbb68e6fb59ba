use vstd::prelude::*;

verus! {

/// Positions in `s` that hold `cmd`, in ascending order.
pub open spec fn matching<C>(s: Seq<C>, cmd: C) -> Seq<usize>
    decreases s.len(),
{
    if s.len() == 0 {
        Seq::empty()
    } else if s.last() == cmd {
        matching(s.drop_last(), cmd).push((s.len() - 1) as usize)
    } else {
        matching(s.drop_last(), cmd)
    }
}

} // verus!
