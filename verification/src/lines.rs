//! Splitting text into lines and trimming whitespace.
use vstd::prelude::*;
use crate::text::{str_chars, string_from_chars};

verus! {

/// The pieces of `s` between `sep` characters.
pub open spec fn split_on(s: Seq<char>, sep: char) -> Seq<Seq<char>>
    decreases s.len(),
{
    if s.len() == 0 {
        seq![Seq::<char>::empty()]
    } else {
        let r = split_on(s.drop_last(), sep);
        if s.last() == sep {
            r.push(Seq::<char>::empty())
        } else {
            r.update(r.len() - 1, r.last().push(s.last()))
        }
    }
}

pub proof fn lemma_split_on_nonempty(s: Seq<char>, sep: char)
    ensures
        split_on(s, sep).len() >= 1,
    decreases s.len(),
{
    if s.len() > 0 {
        lemma_split_on_nonempty(s.drop_last(), sep);
    }
}

/// A line ended by `\n` loses one trailing `\r`.
pub open spec fn strip_cr(l: Seq<char>) -> Seq<char> {
    if l.len() > 0 && l.last() == '\r' {
        l.drop_last()
    } else {
        l
    }
}

/// The lines of `s`, as `str::lines` gives them: split at `\n`, a `\r`
/// before the `\n` removed, and no final empty line.
pub open spec fn lines_spec(s: Seq<char>) -> Seq<Seq<char>> {
    let parts = split_on(s, '\n');
    let ended = parts.drop_last().map_values(|l: Seq<char>| strip_cr(l));
    if parts.last().len() == 0 {
        ended
    } else {
        ended.push(parts.last())
    }
}

/// Whether a character is whitespace: it has the Unicode `White_Space`
/// property, that is, it is one of U+0009..U+000D, U+0020, U+0085, U+00A0,
/// U+1680, U+2000..U+200A, U+2028, U+2029, U+202F, U+205F or U+3000.
pub open spec fn is_whitespace_char(c: char) -> bool {
    let n = c as u32;
    ||| 0x9 <= n <= 0xD
    ||| n == 0x20
    ||| n == 0x85
    ||| n == 0xA0
    ||| n == 0x1680
    ||| 0x2000 <= n <= 0x200A
    ||| n == 0x2028
    ||| n == 0x2029
    ||| n == 0x202F
    ||| n == 0x205F
    ||| n == 0x3000
}

/// Whether a character is whitespace (Unicode `White_Space`, as
/// `char::is_whitespace` decides it).
fn char_is_whitespace(c: char) -> (r: bool)
    ensures
        r == is_whitespace_char(c),
{
    let n = c as u32;
    (0x9 <= n && n <= 0xD) || n == 0x20 || n == 0x85 || n == 0xA0 || n == 0x1680
        || (0x2000 <= n && n <= 0x200A) || n == 0x2028 || n == 0x2029 || n == 0x202F || n == 0x205F
        || n == 0x3000
}

/// The number of leading whitespace characters.
pub open spec fn lead_ws(s: Seq<char>) -> nat
    decreases s.len(),
{
    if s.len() > 0 && is_whitespace_char(s[0]) {
        1 + lead_ws(s.drop_first())
    } else {
        0
    }
}

/// `s` without leading and trailing whitespace, as `str::trim` gives it.
pub open spec fn trim_spec(s: Seq<char>) -> Seq<char>
    decreases s.len(),
{
    if s.len() > 0 && is_whitespace_char(s[0]) {
        trim_spec(s.drop_first())
    } else if s.len() > 0 && is_whitespace_char(s.last()) {
        trim_spec(s.drop_last())
    } else {
        s
    }
}

/// Trim whitespace from both ends.
pub fn trim(s: &str) -> (r: String)
    ensures
        r@ == trim_spec(s@),
{
    let cs = str_chars(s);
    let mut lo: usize = 0;
    assert(s@.subrange(0, s@.len() as int) =~= s@);
    while lo < cs.len() && char_is_whitespace(cs[lo])
        invariant
            cs@ == s@,
            lo <= cs@.len(),
            trim_spec(s@) == trim_spec(s@.subrange(lo as int, s@.len() as int)),
        decreases cs.len() - lo,
    {
        proof {
            assert(s@.subrange(lo as int, s@.len() as int).drop_first() =~= s@.subrange(lo + 1, s@.len() as int));
        }
        lo += 1;
    }
    let mut hi: usize = cs.len();
    proof {
        assert(s@.subrange(lo as int, s@.len() as int) =~= s@.subrange(lo as int, hi as int));
    }
    while hi > lo && char_is_whitespace(cs[hi - 1])
        invariant
            cs@ == s@,
            lo <= hi <= cs@.len(),
            lo == cs@.len() || !is_whitespace_char(cs@[lo as int]),
            trim_spec(s@) == trim_spec(s@.subrange(lo as int, hi as int)),
        decreases hi - lo,
    {
        proof {
            let t = s@.subrange(lo as int, hi as int);
            assert(t.drop_last() =~= s@.subrange(lo as int, hi - 1));
            assert(t[0] == cs@[lo as int]);
        }
        hi -= 1;
    }
    let mut out: Vec<char> = Vec::new();
    let mut i: usize = lo;
    while i < hi
        invariant
            cs@ == s@,
            lo <= i <= hi <= cs@.len(),
            out@ == cs@.subrange(lo as int, i as int),
        decreases hi - i,
    {
        out.push(cs[i]);
        i += 1;
    }
    proof {
        let t = s@.subrange(lo as int, hi as int);
        if t.len() > 0 {
            assert(t[0] == cs@[lo as int]);
            assert(t.last() == cs@[hi - 1]);
        }
        assert(out@ =~= t);
    }
    string_from_chars(out.as_slice())
}

/// Split text into lines as `str::lines` does.
pub fn lines(s: &str) -> (r: Vec<String>)
    ensures
        r.deep_view() == lines_spec(s@),
{
    let cs = str_chars(s);
    let mut done: Vec<String> = Vec::new();
    let mut cur: Vec<char> = Vec::new();
    let mut i: usize = 0;
    while i < cs.len()
        invariant
            cs@ == s@,
            i <= cs@.len(),
            split_on(s@.take(i as int), '\n') == split_on(s@.take(i as int), '\n').drop_last().push(cur@),
            done.deep_view() == split_on(s@.take(i as int), '\n').drop_last().map_values(|l: Seq<char>| strip_cr(l)),
        decreases cs.len() - i,
    {
        let c = cs[i];
        let ghost p0 = split_on(s@.take(i as int), '\n');
        proof {
            assert(s@.take(i + 1).drop_last() =~= s@.take(i as int));
            assert(s@.take(i + 1).last() == c);
            lemma_split_on_nonempty(s@.take(i as int), '\n');
        }
        if c == '\n' {
            let line: String = if cur.len() > 0 && cur[cur.len() - 1] == '\r' {
                let mut t: Vec<char> = Vec::new();
                let mut j: usize = 0;
                while j + 1 < cur.len()
                    invariant
                        cur@.len() > 0,
                        j + 1 <= cur@.len(),
                        t@ == cur@.subrange(0, j as int),
                    decreases cur.len() - j,
                {
                    t.push(cur[j]);
                    j += 1;
                }
                assert(t@ =~= cur@.drop_last());
                string_from_chars(t.as_slice())
            } else {
                string_from_chars(cur.as_slice())
            };
            let ghost d0 = done.deep_view();
            done.push(line);
            cur = Vec::new();
            proof {
                let p1 = split_on(s@.take(i + 1), '\n');
                assert(p1 =~= p0.push(Seq::<char>::empty()));
                assert(p1.drop_last() =~= p0);
                assert(p0 =~= p0.drop_last().push(p0.last()));
                assert(done.deep_view() =~= d0.push(strip_cr(p0.last())));
                assert(p0.map_values(|l: Seq<char>| strip_cr(l)) =~= p0.drop_last().map_values(|l: Seq<char>| strip_cr(l)).push(strip_cr(p0.last())));
                assert(p1 =~= p1.drop_last().push(cur@));
            }
        } else {
            cur.push(c);
            proof {
                let p1 = split_on(s@.take(i + 1), '\n');
                assert(p1 =~= p0.update(p0.len() - 1, p0.last().push(c)));
                assert(p1.drop_last() =~= p0.drop_last());
                assert(p1 =~= p1.drop_last().push(cur@));
            }
        }
        i += 1;
    }
    proof {
        assert(s@.take(i as int) =~= s@);
        lemma_split_on_nonempty(s@, '\n');
    }
    if cur.len() > 0 {
        let last = string_from_chars(cur.as_slice());
        let ghost d0 = done.deep_view();
        done.push(last);
        assert(done.deep_view() =~= d0.push(cur@));
    }
    done
}


/// Split `s` at every `sep`, as `str::split` with a character does.
pub fn split_char(s: &str, sep: char) -> (r: Vec<String>)
    ensures
        r.deep_view() == split_on(s@, sep),
{
    let cs = str_chars(s);
    let mut done: Vec<String> = Vec::new();
    let mut cur: Vec<char> = Vec::new();
    let mut i: usize = 0;
    assert(s@.take(0) =~= Seq::<char>::empty());
    assert(done.deep_view().push(cur@) =~= seq![Seq::<char>::empty()]);
    while i < cs.len()
        invariant
            cs@ == s@,
            i <= cs@.len(),
            split_on(s@.take(i as int), sep) == done.deep_view().push(cur@),
        decreases cs.len() - i,
    {
        let c = cs[i];
        let ghost d0 = done.deep_view();
        let ghost c0 = cur@;
        proof {
            assert(s@.take(i + 1).drop_last() =~= s@.take(i as int));
            assert(s@.take(i + 1).last() == c);
        }
        if c == sep {
            let piece = string_from_chars(cur.as_slice());
            done.push(piece);
            cur = Vec::new();
            proof {
                assert(done.deep_view() =~= d0.push(c0));
                assert(split_on(s@.take(i + 1), sep) =~= d0.push(c0).push(Seq::<char>::empty()));
                assert(done.deep_view().push(cur@) =~= d0.push(c0).push(Seq::<char>::empty()));
            }
        } else {
            cur.push(c);
            proof {
                let r = d0.push(c0);
                assert(split_on(s@.take(i + 1), sep) =~= r.update(r.len() - 1, r.last().push(c)));
                assert(done.deep_view().push(cur@) =~= r.update(r.len() - 1, r.last().push(c)));
            }
        }
        i += 1;
    }
    assert(s@.take(i as int) =~= s@);
    let ghost d0 = done.deep_view();
    let last = string_from_chars(cur.as_slice());
    done.push(last);
    assert(done.deep_view() =~= d0.push(cur@));
    done
}

} // verus!
