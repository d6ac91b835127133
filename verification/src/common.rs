//! Copying and searching string lists.
use vstd::prelude::*;
use crate::text::str_eq;

verus! {

/// Values that can be copied with their content kept.
pub trait DeepClone: DeepView + Sized {
    fn deep_clone(&self) -> (r: Self)
        ensures
            r.deep_view() == self.deep_view(),
    ;
}

impl DeepClone for String {
    fn deep_clone(&self) -> (r: String) {
        self.clone()
    }
}

impl DeepClone for Vec<String> {
    fn deep_clone(&self) -> (r: Vec<String>) {
        let mut out: Vec<String> = Vec::new();
        let mut i: usize = 0;
        while i < self.len()
            invariant
                i <= self.len(),
                out@.len() == i,
                out.deep_view() == self.deep_view().take(i as int),
            decreases self.len() - i,
        {
            let s = self[i].clone();
            let ghost before = out@;
            proof {
                assert(s@ == self@[i as int]@);
            }
            out.push(s);
            proof {
                assert(before.len() == i);
                assert(out@ == before.push(s));
                assert(out@.len() == i + 1);
                assert(out.deep_view().len() == i + 1);
                assert forall|j: int| 0 <= j < i + 1 implies out.deep_view()[j] == self.deep_view().take(i + 1)[j] by {
                    if j < i {
                        assert(out.deep_view()[j] == before[j]@);
                    }
                }
                assert(out.deep_view() =~= self.deep_view().take(i + 1));
            }
            i += 1;
        }
        proof {
            assert(self.deep_view().take(i as int) =~= self.deep_view());
        }
        out
    }
}

impl DeepClone for Option<String> {
    fn deep_clone(&self) -> (r: Option<String>) {
        match self {
            Some(s) => Some(s.clone()),
            None => None,
        }
    }
}

/// Whether a list of strings contains `s`.
pub fn vec_contains_str(v: &Vec<String>, s: &str) -> (r: bool)
    ensures
        r == v.deep_view().contains(s@),
{
    let mut i: usize = 0;
    while i < v.len()
        invariant
            i <= v.len(),
            forall|j: int| 0 <= j < i ==> v.deep_view()[j] != s@,
        decreases v.len() - i,
    {
        if str_eq(v[i].as_str(), s) {
            assert(v.deep_view()[i as int] == s@);
            return true;
        }
        i += 1;
    }
    false
}

/// `base` followed by those of `add` it lacks, each added once, in order.
pub open spec fn union_strs(base: Seq<Seq<char>>, add: Seq<Seq<char>>) -> Seq<Seq<char>>
    decreases add.len(),
{
    if add.len() == 0 {
        base
    } else {
        let u = union_strs(base, add.drop_last());
        if u.contains(add.last()) {
            u
        } else {
            u.push(add.last())
        }
    }
}

/// Append to `base` each string of `add` that it does not yet hold.
pub fn extend_missing(base: &mut Vec<String>, add: &Vec<String>)
    ensures
        final(base).deep_view() == union_strs(old(base).deep_view(), add.deep_view()),
{
    let ghost b0 = base.deep_view();
    let mut i: usize = 0;
    while i < add.len()
        invariant
            i <= add.len(),
            b0 == old(base).deep_view(),
            base.deep_view() == union_strs(b0, add.deep_view().take(i as int)),
        decreases add.len() - i,
    {
        proof {
            assert(add.deep_view().take(i + 1).drop_last() =~= add.deep_view().take(i as int));
            assert(add.deep_view().take(i + 1).last() == add.deep_view()[i as int]);
        }
        if !vec_contains_str(base, add[i].as_str()) {
            let ghost before = base.deep_view();
            base.push(add[i].clone());
            proof {
                assert(base.deep_view() =~= before.push(add.deep_view()[i as int]));
            }
        }
        i += 1;
    }
    proof {
        assert(add.deep_view().take(i as int) =~= add.deep_view());
    }
}

} // verus!
