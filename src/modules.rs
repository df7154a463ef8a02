use vstd::prelude::*;

verus! {

/// The values of the `Ok` entries of `s`, in order.
pub open spec fn loaded<M, E>(s: Seq<Result<M, E>>) -> Seq<M>
    decreases s.len(),
{
    if s.len() == 0 {
        Seq::empty()
    } else {
        let before = loaded(s.drop_last());
        match s.last() {
            Ok(m) => before.push(m),
            Err(_) => before,
        }
    }
}

/// Keeps the sources that could be constructed, in order; a source whose
/// construction failed is left out of the run.
pub fn filter_loaded_modules<M, E>(modules: Vec<Result<M, E>>) -> (r: Vec<M>)
    ensures
        r@ == loaded(modules@),
{
    let ghost all = modules@;
    let mut out: Vec<M> = Vec::new();
    for m in it: modules.into_iter()
        invariant
            it.seq() == all,
            out@ == loaded(all.take(it.index() as int)),
    {
        let ghost i = it.index() as int;
        proof {
            assert(all.take(i + 1).drop_last() =~= all.take(i));
            assert(all.take(i + 1).last() == m);
        }
        match m {
            Ok(module) => out.push(module),
            Err(_) => {},
        }
    }
    assert(all.take(all.len() as int) =~= all);
    out
}

} // verus!
