use vstd::prelude::*;

verus! {

/// An error report: the error's own message, a blank line, then one
/// "Caused by" paragraph per cause, outermost first.
pub open spec fn error_chain_text(error: Seq<char>, causes: Seq<Seq<char>>) -> Seq<char>
    decreases causes.len(),
{
    if causes.len() == 0 {
        error + "\n\n"@
    } else {
        error_chain_text(error, causes.drop_last()) + "Caused by:\n\t"@ + causes.last() + "\n"@
    }
}

/// Renders an error and its chain of causes for operators.
pub fn error_chain_fmt(error: &str, causes: &Vec<String>) -> (r: String)
    ensures
        r@ == error_chain_text(error@, causes@.map_values(|c: String| c@)),
{
    let ghost all = causes@.map_values(|c: String| c@);
    let mut out = String::from_str(error).concat("\n\n");
    for i in 0..causes.len()
        invariant
            all == causes@.map_values(|c: String| c@),
            out@ == error_chain_text(error@, all.take(i as int)),
    {
        assert(all.take(i + 1).drop_last() =~= all.take(i as int));
        assert(all.take(i + 1).last() == causes@[i as int]@);
        out = out.concat("Caused by:\n\t").concat(causes[i].as_str()).concat("\n");
    }
    assert(all.take(causes@.len() as int) =~= all);
    out
}

} // verus!
