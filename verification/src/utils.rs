//! Small utilities shared by the surrounding layers.

pub mod file_dialog;

use vstd::prelude::*;
use vstd::string::*;

verus! {

/// The left fold of joining pieces of text: the delimiter is inserted only
/// once something has accumulated, so leading empty pieces add nothing.
pub open spec fn join_fold(vals: Seq<Seq<char>>, delim: Seq<char>) -> Seq<char>
    decreases vals.len(),
{
    if vals.len() == 0 {
        Seq::empty()
    } else {
        let prev = join_fold(vals.drop_last(), delim);
        if prev.len() == 0 {
            prev + vals.last()
        } else {
            prev + delim + vals.last()
        }
    }
}

/// Joins the pieces with the delimiter between them — except that no
/// delimiter is written while the accumulated text is still empty.
pub fn string_join(vals: &Vec<String>, delim: &str) -> (r: String)
    ensures
        r@ == join_fold(vals@.map_values(|s: String| s@), delim@),
{
    let ghost mapped = vals@.map_values(|s: String| s@);
    let mut acc = String::new();
    let n = vals.len();
    let mut i: usize = 0;
    while i < n
        invariant
            n == vals@.len(),
            i <= n,
            mapped == vals@.map_values(|s: String| s@),
            mapped.len() == n,
            acc@ == join_fold(mapped.take(i as int), delim@),
        decreases n - i,
    {
        if !acc.as_str().is_empty() {
            acc.append(delim);
        }
        acc.append(vals[i].as_str());
        proof {
            assert(mapped.take(i + 1).drop_last() =~= mapped.take(i as int));
            assert(mapped.take(i + 1).last() == mapped[i as int]);
            assert(mapped[i as int] == vals@[i as int]@);
        }
        i = i + 1;
    }
    proof {
        assert(mapped.take(n as int) =~= mapped);
    }
    acc
}

} // verus!
