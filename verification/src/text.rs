//! Lists of strings, seen as sequences of character sequences.

use vstd::prelude::*;

verus! {

/// The characters of each string of `v`, in order.
pub open spec fn strings_view(v: Seq<String>) -> Seq<Seq<char>> {
    Seq::new(v.len(), |i: int| v[i]@)
}

/// A copy of `v`, string by string.
pub fn clone_strings(v: &Vec<String>) -> (r: Vec<String>)
    ensures
        strings_view(r@) == strings_view(v@),
{
    let mut r: Vec<String> = Vec::new();
    let mut i: usize = 0;
    while i < v.len()
        invariant
            i <= v.len(),
            r@.len() == i,
            forall|j: int| 0 <= j < i ==> r@[j]@ == v@[j]@,
        decreases v.len() - i,
    {
        r.push(v[i].clone());
        i = i + 1;
    }
    assert(strings_view(r@) =~= strings_view(v@));
    r
}

/// Whether `needle` is one of the strings of `v`.
pub fn contains_string(v: &Vec<String>, needle: &String) -> (r: bool)
    ensures
        r == strings_view(v@).contains(needle@),
{
    let mut i: usize = 0;
    while i < v.len()
        invariant
            i <= v.len(),
            forall|j: int| 0 <= j < i ==> v@[j]@ != needle@,
        decreases v.len() - i,
    {
        if v[i] == *needle {
            assert(strings_view(v@)[i as int] == needle@);
            return true;
        }
        i = i + 1;
    }
    assert forall|j: int| 0 <= j < strings_view(v@).len() implies strings_view(v@)[j] != needle@ by {
        assert(v@[j]@ != needle@);
    }
    false
}

} // verus!
