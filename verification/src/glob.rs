//! Minimal glob matching for hidden-crate patterns.
use vstd::prelude::*;
use crate::text::str_chars;

verus! {

/// `pat` matches `txt`, where `*` matches any run of characters, `?` any one
/// character, and every other character itself.
pub open spec fn glob(pat: Seq<char>, txt: Seq<char>) -> bool
    decreases pat.len() + txt.len(),
{
    if pat.len() == 0 {
        txt.len() == 0
    } else if pat[0] == '*' {
        glob(pat.drop_first(), txt) || (txt.len() > 0 && glob(pat, txt.drop_first()))
    } else if txt.len() == 0 {
        false
    } else if pat[0] == '?' || pat[0] == txt[0] {
        glob(pat.drop_first(), txt.drop_first())
    } else {
        false
    }
}

/// Match the pattern suffix starting at `i` against the text suffix starting at `j`.
fn glob_match_inner(pat: &Vec<char>, i: usize, txt: &Vec<char>, j: usize) -> (r: bool)
    requires
        i <= pat.len(),
        j <= txt.len(),
    ensures
        r == glob(pat@.skip(i as int), txt@.skip(j as int)),
    decreases pat.len() + txt.len() - i - j,
{
    let ghost p = pat@.skip(i as int);
    let ghost t = txt@.skip(j as int);
    if i < pat.len() {
        assert(p.drop_first() =~= pat@.skip(i + 1));
    }
    if j < txt.len() {
        assert(t.drop_first() =~= txt@.skip(j + 1));
    }
    if i == pat.len() {
        j == txt.len()
    } else if pat[i] == '*' {
        glob_match_inner(pat, i + 1, txt, j) || (j < txt.len() && glob_match_inner(pat, i, txt, j + 1))
    } else if j == txt.len() {
        false
    } else if pat[i] == '?' || pat[i] == txt[j] {
        glob_match_inner(pat, i + 1, txt, j + 1)
    } else {
        false
    }
}

/// Simple glob matching for crate name patterns: `*` matches any sequence of
/// characters, `?` any single character, other characters match exactly.
pub fn glob_match(pattern: &str, name: &str) -> (r: bool)
    ensures
        r == glob(pattern@, name@),
{
    let pat = str_chars(pattern);
    let txt = str_chars(name);
    assert(pat@.skip(0) =~= pat@);
    assert(txt@.skip(0) =~= txt@);
    glob_match_inner(&pat, 0, &txt, 0)
}


/// `*` alone matches every name (so `hidden = ["*"]` hides every crate).
pub proof fn law_glob_star_matches_all(txt: Seq<char>)
    ensures
        glob(seq!['*'], txt),
    decreases txt.len(),
{
    let p = seq!['*'];
    assert(p[0] == '*');
    assert(p.drop_first() =~= Seq::<char>::empty());
    if txt.len() > 0 {
        law_glob_star_matches_all(txt.drop_first());
        assert(glob(p, txt.drop_first()));
    } else {
        assert(glob(Seq::<char>::empty(), txt));
    }
}

/// A pattern without `*` or `?` matches exactly the name it spells.
pub proof fn law_glob_literal(pat: Seq<char>, txt: Seq<char>)
    requires
        forall|i: int| 0 <= i < pat.len() ==> pat[i] != '*' && pat[i] != '?',
    ensures
        glob(pat, txt) <==> pat == txt,
    decreases pat.len(),
{
    if pat.len() > 0 && txt.len() > 0 {
        assert forall|i: int| 0 <= i < pat.drop_first().len() implies pat.drop_first()[i] != '*' && pat.drop_first()[i] != '?' by {
            assert(pat.drop_first()[i] == pat[i + 1]);
        }
        law_glob_literal(pat.drop_first(), txt.drop_first());
        if pat[0] == txt[0] && pat.drop_first() == txt.drop_first() {
            assert forall|i: int| 0 <= i < pat.len() implies pat[i] == txt[i] by {
                if i > 0 {
                    assert(pat[i] == pat.drop_first()[i - 1]);
                    assert(txt[i] == txt.drop_first()[i - 1]);
                }
            }
            assert(pat =~= txt);
        }
        if pat == txt {
            assert(pat.drop_first() =~= txt.drop_first());
        }
    } else if pat.len() == 0 && txt.len() > 0 {
        assert(pat != txt);
    } else if pat.len() > 0 {
        assert(pat != txt);
    } else {
        assert(pat =~= txt);
    }
}

} // verus!
