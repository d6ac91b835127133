//! Version strings: dot-separated comparison and semver upgrade checks.
use vstd::prelude::*;
use core::cmp::Ordering;
use crate::text::{seq_lt, str_chars, str_eq, str_lt, string_from_chars, cat};

verus! {

/// The pieces of `s` between `.` separators (`"1..2"` has three pieces, `""` one).
pub open spec fn split_dot(s: Seq<char>) -> Seq<Seq<char>>
    decreases s.len(),
{
    if s.len() == 0 {
        seq![Seq::<char>::empty()]
    } else {
        let r = split_dot(s.drop_last());
        if s.last() == '.' {
            r.push(Seq::<char>::empty())
        } else {
            r.update(r.len() - 1, r.last().push(s.last()))
        }
    }
}

pub proof fn lemma_split_dot_nonempty(s: Seq<char>)
    ensures
        split_dot(s).len() >= 1,
    decreases s.len(),
{
    if s.len() > 0 {
        lemma_split_dot_nonempty(s.drop_last());
    }
}

/// Is `c` an ASCII decimal digit.
pub open spec fn is_digit(c: char) -> bool {
    '0' <= c <= '9'
}

/// The decimal value of a run of digits.
pub open spec fn digits_value(s: Seq<char>) -> nat
    decreases s.len(),
{
    if s.len() == 0 {
        0
    } else {
        digits_value(s.drop_last()) * 10 + ((s.last() as nat) - ('0' as nat)) as nat
    }
}

/// The digits after an optional leading `+`.
pub open spec fn unsigned_body(s: Seq<char>) -> Seq<char> {
    if s.len() > 0 && s[0] == '+' {
        s.drop_first()
    } else {
        s
    }
}

/// What `str::parse::<u64>` gives: an optional `+` followed by one or more
/// ASCII digits whose value fits in `u64`.
pub open spec fn parse_u64_spec(s: Seq<char>) -> Option<u64> {
    let d = unsigned_body(s);
    if d.len() > 0 && (forall|i: int| 0 <= i < d.len() ==> is_digit(#[trigger] d[i]))
        && digits_value(d) <= u64::MAX {
        Some(digits_value(d) as u64)
    } else {
        None
    }
}

/// Parse an unsigned 64-bit decimal integer as `str::parse::<u64>` does.
pub fn parse_u64(s: &str) -> (r: Option<u64>)
    ensures
        r == parse_u64_spec(s@),
{
    let cs = str_chars(s);
    let start: usize = if cs.len() > 0 && cs[0] == '+' {
        1
    } else {
        0
    };
    let ghost d = unsigned_body(s@);
    assert(d =~= cs@.skip(start as int));
    if start == cs.len() {
        return None;
    }
    let mut value: u64 = 0;
    let mut i: usize = start;
    while i < cs.len()
        invariant
            cs@ == s@,
            d == cs@.skip(start as int),
            d == unsigned_body(s@),
            start <= i <= cs.len(),
            start < cs.len(),
            forall|k: int| 0 <= k < i - start ==> is_digit(#[trigger] d[k]),
            value == digits_value(d.take(i - start)),
        decreases cs.len() - i,
    {
        let c = cs[i];
        proof {
            assert(d.take(i + 1 - start).drop_last() =~= d.take(i - start));
            assert(d[i - start] == c);
        }
        if !('0' <= c && c <= '9') {
            proof {
                assert(!is_digit(d[i - start]));
            }
            return None;
        }
        let digit: u64 = (c as u32 - '0' as u32) as u64;
        if value > (u64::MAX - digit) / 10 {
            proof {
                lemma_digits_value_prefix_monotone(d, i + 1 - start);
                assert(d.take(i + 1 - start).last() == c);
                assert(digits_value(d.take(i + 1 - start)) == value * 10 + digit) by {
                    assert((c as nat) - ('0' as nat) == digit);
                }
                assert(value * 10 + digit > u64::MAX) by (nonlinear_arith)
                    requires
                        value > (u64::MAX - digit) / 10,
                        digit <= 9,
                ;
            }
            assert(digits_value(d) > u64::MAX);
            return None;
        }
        proof {
            assert((c as nat) - ('0' as nat) == digit);
            assert(value * 10 + digit <= u64::MAX) by (nonlinear_arith)
                requires
                    value <= (u64::MAX - digit) / 10,
                    digit <= 9,
            ;
        }
        value = value * 10 + digit;
        i += 1;
    }
    proof {
        assert(d.take(i - start) =~= d);
    }
    Some(value)
}

/// A longer digit prefix never has a smaller value.
proof fn lemma_digits_value_prefix_monotone(d: Seq<char>, n: int)
    requires
        0 <= n <= d.len(),
    ensures
        digits_value(d.take(n)) <= digits_value(d),
    decreases d.len() - n,
{
    if n < d.len() {
        lemma_digits_value_prefix_monotone_step(d, n);
    } else {
        assert(d.take(n) =~= d);
    }
}

proof fn lemma_digits_value_prefix_monotone_step(d: Seq<char>, n: int)
    requires
        0 <= n < d.len(),
    ensures
        digits_value(d.take(n)) <= digits_value(d),
    decreases d.len() - n,
{
    let s = d;
    assert(s.take(s.len() as int) =~= s);
    if n == s.len() - 1 {
        assert(s.drop_last() =~= s.take(n));
    } else {
        lemma_digits_value_prefix_monotone_step(s.drop_last(), n);
        assert(s.drop_last().take(n) =~= s.take(n));
    }
}

/// Order of two character sequences.
pub open spec fn cmp_seq(a: Seq<char>, b: Seq<char>) -> Ordering {
    if seq_lt(a, b) {
        Ordering::Less
    } else if a == b {
        Ordering::Equal
    } else {
        Ordering::Greater
    }
}

/// The piece at `i`, or `"0"` past the end.
pub open spec fn part_or_zero(parts: Seq<Seq<char>>, i: int) -> Seq<char> {
    if 0 <= i < parts.len() {
        parts[i]
    } else {
        seq!['0']
    }
}

/// Order of two version pieces: numerically when both are `u64`s, else as strings.
pub open spec fn cmp_part(a: Seq<char>, b: Seq<char>) -> Ordering {
    match (parse_u64_spec(a), parse_u64_spec(b)) {
        (Some(x), Some(y)) => if x < y {
            Ordering::Less
        } else if x == y {
            Ordering::Equal
        } else {
            Ordering::Greater
        },
        _ => cmp_seq(a, b),
    }
}

/// Compare the pieces from position `i` on, up to `n` pieces in all.
pub open spec fn cmp_parts_from(a: Seq<Seq<char>>, b: Seq<Seq<char>>, i: int, n: int) -> Ordering
    decreases n - i,
{
    if i >= n {
        Ordering::Equal
    } else {
        let o = cmp_part(part_or_zero(a, i), part_or_zero(b, i));
        if o != Ordering::Equal {
            o
        } else {
            cmp_parts_from(a, b, i + 1, n)
        }
    }
}

/// A machine index as a mathematical integer.
pub open spec fn int_of(i: usize) -> int {
    i as int
}

/// The length of the longer of two piece lists.
pub open spec fn longer_len(a: Seq<Seq<char>>, b: Seq<Seq<char>>) -> int {
    if a.len() >= b.len() {
        a.len() as int
    } else {
        b.len() as int
    }
}

/// Version order: dot-separated pieces compared left to right, missing pieces
/// read as `0`, numeric pieces by value and others as strings.
pub open spec fn version_cmp(a: Seq<char>, b: Seq<char>) -> Ordering {
    let pa = split_dot(a);
    let pb = split_dot(b);
    cmp_parts_from(pa, pb, 0, longer_len(pa, pb))
}

/// Split a string at every `.`.
pub fn split_dots(s: &str) -> (parts: Vec<String>)
    ensures
        parts.deep_view() == split_dot(s@),
{
    let cs = str_chars(s);
    let mut parts: Vec<String> = Vec::new();
    let mut cur: Vec<char> = Vec::new();
    let mut i: usize = 0;
    while i < cs.len()
        invariant
            cs@ == s@,
            i <= cs.len(),
            parts.deep_view().push(cur@) == split_dot(s@.take(i as int)),
        decreases cs.len() - i,
    {
        let c = cs[i];
        proof {
            assert(s@.take(i + 1).drop_last() =~= s@.take(i as int));
            assert(s@.take(i + 1).last() == c);
            lemma_split_dot_nonempty(s@.take(i as int));
        }
        if c == '.' {
            let piece = string_from_chars(cur.as_slice());
            let ghost before = parts.deep_view();
            parts.push(piece);
            proof {
                assert(parts.deep_view() =~= before.push(cur@));
            }
            cur = Vec::new();
            proof {
                assert(parts.deep_view().push(cur@) =~= before.push(piece@).push(Seq::<char>::empty()));
            }
        } else {
            let ghost before = parts.deep_view().push(cur@);
            cur.push(c);
            proof {
                assert(parts.deep_view().push(cur@) =~= before.update(before.len() - 1, before.last().push(c)));
            }
        }
        i += 1;
    }
    let piece = string_from_chars(cur.as_slice());
    let ghost before = parts.deep_view();
    parts.push(piece);
    proof {
        assert(s@.take(cs.len() as int) =~= s@);
        assert(parts.deep_view() =~= before.push(cur@));
    }
    parts
}

/// Order of two version pieces.
fn compare_part(a: &str, b: &str) -> (o: Ordering)
    ensures
        o == cmp_part(a@, b@),
{
    match (parse_u64(a), parse_u64(b)) {
        (Some(x), Some(y)) => {
            if x < y {
                Ordering::Less
            } else if x == y {
                Ordering::Equal
            } else {
                Ordering::Greater
            }
        },
        _ => {
            if str_lt(a, b) {
                Ordering::Less
            } else if str_eq(a, b) {
                Ordering::Equal
            } else {
                Ordering::Greater
            }
        },
    }
}

/// Compare two version strings using semver-like ordering: dot-separated
/// components left to right, numeric where both parse, else as strings; a
/// missing component reads as `0`. The highest version wins, even across
/// major versions.
pub fn compare_versions(a: &str, b: &str) -> (o: Ordering)
    ensures
        o == version_cmp(a@, b@),
{
    let a_parts = split_dots(a);
    let b_parts = split_dots(b);
    let max_len = if a_parts.len() >= b_parts.len() {
        a_parts.len()
    } else {
        b_parts.len()
    };
    let zero = string_from_chars(&['0']);
    proof {
        assert(zero@ =~= seq!['0']);
    }
    let mut i: usize = 0;
    while i < max_len
        invariant
            a_parts.deep_view() == split_dot(a@),
            b_parts.deep_view() == split_dot(b@),
            max_len == (if a_parts.len() >= b_parts.len() { a_parts.len() } else { b_parts.len() }),
            zero@ == seq!['0'],
            i <= max_len,
            version_cmp(a@, b@) == cmp_parts_from(split_dot(a@), split_dot(b@), int_of(i), int_of(max_len)),
        decreases max_len - i,
    {
        let ap: &str = if i < a_parts.len() {
            a_parts[i].as_str()
        } else {
            zero.as_str()
        };
        let bp: &str = if i < b_parts.len() {
            b_parts[i].as_str()
        } else {
            zero.as_str()
        };
        let ord = compare_part(ap, bp);
        match ord {
            Ordering::Equal => {},
            _ => {
                return ord;
            },
        }
        i += 1;
    }
    Ordering::Equal
}

/// Whether `s` parses as a semantic version (`semver::Version::parse`).
pub uninterp spec fn semver_valid(s: Seq<char>) -> bool;

/// Whether the semantic version `a` has lower precedence than `b` by
/// `semver::Version`'s order (both assumed valid).
pub uninterp spec fn semver_less(a: Seq<char>, b: Seq<char>) -> bool;

/// Calls `semver::Version::parse`; the result says only whether it parsed.
#[verifier::external_body]
pub(crate) fn semver_parses(s: &str) -> (r: bool)
    ensures
        r == semver_valid(s@),
{
    semver::Version::parse(s).is_ok()
}

/// Parses both sides with `semver::Version::parse` and compares them with
/// `semver::Version`'s `<` (derived `Ord`: major, minor, patch, pre-release,
/// build).
#[verifier::external_body]
pub(crate) fn semver_lt(a: &str, b: &str) -> (r: bool)
    requires
        semver_valid(a@),
        semver_valid(b@),
    ensures
        r == semver_less(a@, b@),
{
    semver::Version::parse(a).unwrap() < semver::Version::parse(b).unwrap()
}

/// The first of `v`, `v.0`, `v.0.0` that is a valid semantic version.
pub open spec fn semver_candidate(v: Seq<char>) -> Option<Seq<char>> {
    if semver_valid(v) {
        Some(v)
    } else if semver_valid(v + ".0"@) {
        Some(v + ".0"@)
    } else if semver_valid(v + ".0.0"@) {
        Some(v + ".0.0"@)
    } else {
        None
    }
}

/// `recommended` should replace `current`: it is a different string, and,
/// when both read as semver (padded with `.0` as needed), strictly newer.
pub open spec fn should_upgrade_spec(current: Seq<char>, recommended: Seq<char>) -> bool {
    current != recommended && match (semver_candidate(current), semver_candidate(recommended)) {
        (Some(c), Some(r)) => semver_less(c, r),
        _ => true,
    }
}

/// The first of `v`, `v.0`, `v.0.0` that parses as semver.
fn semver_candidate_exec(v: &str) -> (r: Option<String>)
    ensures
        r matches Some(s) ==> semver_candidate(v@) == Some(s@),
        r is None ==> semver_candidate(v@) is None,
{
    if semver_parses(v) {
        return Some(v.to_owned());
    }
    let one = cat(v, ".0");
    if semver_parses(one.as_str()) {
        return Some(one);
    }
    let two = cat(v, ".0.0");
    if semver_parses(two.as_str()) {
        return Some(two);
    }
    None
}

/// Return true when `recommended` is strictly newer than `current` (semver).
/// Falls back to inequality when either side is not a valid semver version,
/// so non-standard version strings still get updated when they differ.
pub fn should_upgrade_version(current: &str, recommended: &str) -> (r: bool)
    ensures
        r == should_upgrade_spec(current@, recommended@),
        current@ == recommended@ ==> !r,
{
    // Equal strings are never an upgrade (no version is below itself).
    if str_eq(current, recommended) {
        return false;
    }
    match (semver_candidate_exec(current), semver_candidate_exec(recommended)) {
        (Some(c), Some(rc)) => semver_lt(c.as_str(), rc.as_str()),
        _ => true,
    }
}


/// Comparing two version pieces the other way round flips the result.
pub proof fn lemma_cmp_part_flip(a: Seq<char>, b: Seq<char>)
    ensures
        cmp_part(a, a) == Ordering::Equal,
        (cmp_part(a, b) == Ordering::Less) <==> (cmp_part(b, a) == Ordering::Greater),
        (cmp_part(a, b) == Ordering::Equal) <==> (cmp_part(b, a) == Ordering::Equal),
{
    crate::text::lemma_seq_lt_order(a, b, a);
    crate::text::lemma_seq_lt_order(b, a, b);
}

/// Comparing piece lists the other way round flips the result.
pub proof fn lemma_cmp_parts_flip(a: Seq<Seq<char>>, b: Seq<Seq<char>>, i: int, n: int)
    ensures
        cmp_parts_from(a, a, i, n) == Ordering::Equal,
        (cmp_parts_from(a, b, i, n) == Ordering::Less) <==> (cmp_parts_from(b, a, i, n) == Ordering::Greater),
        (cmp_parts_from(a, b, i, n) == Ordering::Equal) <==> (cmp_parts_from(b, a, i, n) == Ordering::Equal),
    decreases n - i,
{
    if i < n {
        lemma_cmp_part_flip(part_or_zero(a, i), part_or_zero(b, i));
        lemma_cmp_parts_flip(a, b, i + 1, n);
    }
}

/// Version comparison is an order: every version equals itself, and `a`
/// is below `b` exactly when `b` is above `a`.
pub proof fn law_version_cmp_order(a: Seq<char>, b: Seq<char>)
    ensures
        version_cmp(a, a) == Ordering::Equal,
        (version_cmp(a, b) == Ordering::Less) <==> (version_cmp(b, a) == Ordering::Greater),
        (version_cmp(a, b) == Ordering::Equal) <==> (version_cmp(b, a) == Ordering::Equal),
{
    let pa = split_dot(a);
    let pb = split_dot(b);
    lemma_cmp_parts_flip(pa, pa, 0, longer_len(pa, pa));
    lemma_cmp_parts_flip(pa, pb, 0, longer_len(pa, pb));
    assert(longer_len(pa, pb) == longer_len(pb, pa));
}


/// Two version pieces that both read as unsigned integers are ordered by
/// value, not as text: `"10"` is above `"9"`.
pub proof fn law_numeric_pieces_by_value(a: Seq<char>, b: Seq<char>, x: u64, y: u64)
    requires
        parse_u64_spec(a) == Some(x),
        parse_u64_spec(b) == Some(y),
    ensures
        (cmp_part(a, b) == Ordering::Less) <==> x < y,
        (cmp_part(a, b) == Ordering::Equal) <==> x == y,
        (cmp_part(a, b) == Ordering::Greater) <==> x > y,
{
}

/// Pieces that agree leave the comparison to the pieces after them.
proof fn lemma_cmp_parts_skip_equal(pa: Seq<Seq<char>>, pb: Seq<Seq<char>>, start: int, i: int, n: int)
    requires
        0 <= start <= i <= n,
        i <= pa.len(),
        i <= pb.len(),
        forall|j: int| start <= j < i ==> pa[j] == pb[j],
    ensures
        cmp_parts_from(pa, pb, start, n) == cmp_parts_from(pa, pb, i, n),
    decreases i - start,
{
    if start < i {
        lemma_cmp_part_flip(pa[start], pa[start]);
        assert(part_or_zero(pa, start) == part_or_zero(pb, start));
        lemma_cmp_parts_skip_equal(pa, pb, start + 1, i, n);
    }
}

/// Versions that agree up to a piece where both read as different unsigned
/// integers are ordered by those integers: `4.10.0` is above `4.9.0`.
pub proof fn law_version_numeric_order(a: Seq<char>, b: Seq<char>, i: int, x: u64, y: u64)
    requires
        0 <= i < split_dot(a).len(),
        i < split_dot(b).len(),
        forall|j: int| 0 <= j < i ==> split_dot(a)[j] == split_dot(b)[j],
        parse_u64_spec(split_dot(a)[i]) == Some(x),
        parse_u64_spec(split_dot(b)[i]) == Some(y),
        x != y,
    ensures
        version_cmp(a, b) == (if x < y { Ordering::Less } else { Ordering::Greater }),
        version_cmp(b, a) == (if x < y { Ordering::Greater } else { Ordering::Less }),
{
    let pa = split_dot(a);
    let pb = split_dot(b);
    let n = longer_len(pa, pb);
    lemma_cmp_parts_skip_equal(pa, pb, 0, i, n);
    assert(part_or_zero(pa, i) == pa[i]);
    assert(part_or_zero(pb, i) == pb[i]);
    law_numeric_pieces_by_value(pa[i], pb[i], x, y);
    law_version_cmp_order(a, b);
}

} // verus!
