//! Battery pack names, short names, and repository URLs.
use vstd::prelude::*;
use crate::text::{cat, cat3, ends_with, seq_ends_with, seq_starts_with, starts_with, str_chars, str_eq, string_from_chars};

verus! {

/// The `-battery-pack` suffix.
pub open spec fn suffix() -> Seq<char> {
    "-battery-pack"@
}

/// `name` without a trailing `-battery-pack`.
pub open spec fn short_name_spec(name: Seq<char>) -> Seq<char> {
    if seq_ends_with(name, suffix()) {
        name.subrange(0, name.len() - suffix().len())
    } else {
        name
    }
}

/// The crate name for a user-given pack name: unchanged when it is
/// `battery-pack` or already ends in `-battery-pack`, else with the suffix added.
pub open spec fn crate_name_spec(name: Seq<char>) -> Seq<char> {
    if name == "battery-pack"@ || seq_ends_with(name, suffix()) {
        name
    } else {
        name + suffix()
    }
}

/// The first `n` characters of `s`.
fn take_chars(s: &str, n: usize) -> (r: String)
    requires
        n <= s@.len(),
    ensures
        r@ == s@.subrange(0, n as int),
{
    let cs = str_chars(s);
    let mut out: Vec<char> = Vec::new();
    let mut i: usize = 0;
    while i < n
        invariant
            cs@ == s@,
            n <= cs@.len(),
            i <= n,
            out@ == cs@.subrange(0, i as int),
        decreases n - i,
    {
        out.push(cs[i]);
        i += 1;
    }
    string_from_chars(out.as_slice())
}

/// The characters of `s` from position `n` on.
pub fn drop_chars(s: &str, n: usize) -> (r: String)
    requires
        n <= s@.len(),
    ensures
        r@ == s@.subrange(n as int, s@.len() as int),
{
    let cs = str_chars(s);
    let mut out: Vec<char> = Vec::new();
    let mut i: usize = n;
    while i < cs.len()
        invariant
            cs@ == s@,
            n <= i <= cs@.len(),
            out@ == cs@.subrange(n as int, i as int),
        decreases cs.len() - i,
    {
        out.push(cs[i]);
        i += 1;
    }
    string_from_chars(out.as_slice())
}

/// A crate name without its `-battery-pack` suffix.
pub fn short_name(crate_name: &str) -> (r: String)
    ensures
        r@ == short_name_spec(crate_name@),
{
    if ends_with(crate_name, "-battery-pack") {
        let n = str_chars(crate_name).len();
        proof {
            reveal_strlit("-battery-pack");
            assert(crate_name@.len() >= 13);
        }
        take_chars(crate_name, n - 13)
    } else {
        crate_name.to_owned()
    }
}

/// Convert `"cli"` to `"cli-battery-pack"`; names already ending in
/// `-battery-pack`, and `battery-pack` itself, stay as they are.
pub fn resolve_crate_name(name: &str) -> (r: String)
    ensures
        r@ == crate_name_spec(name@),
{
    if str_eq(name, "battery-pack") || ends_with(name, "-battery-pack") {
        name.to_owned()
    } else {
        cat(name, "-battery-pack")
    }
}

/// Resolving a crate name twice is the same as resolving it once.
pub proof fn law_resolve_crate_name_idempotent(name: Seq<char>)
    ensures
        crate_name_spec(crate_name_spec(name)) == crate_name_spec(name),
{
    let r = name + suffix();
    if !(name == "battery-pack"@ || seq_ends_with(name, suffix())) {
        assert(r.subrange(r.len() - suffix().len(), r.len() as int) =~= suffix());
    }
}

/// The short name of a resolved crate name gives back a name without the suffix.
pub proof fn law_short_name_of_resolved(name: Seq<char>)
    requires
        !seq_ends_with(name, suffix()),
        name != "battery-pack"@,
    ensures
        short_name_spec(crate_name_spec(name)) == name,
{
    let r = name + suffix();
    assert(r.subrange(r.len() - suffix().len(), r.len() as int) =~= suffix());
    assert(r.subrange(0, r.len() - suffix().len()) =~= name);
}

/// A project name ending in `-battery-pack`: unchanged if it already does.
pub open spec fn with_suffix_spec(name: Seq<char>) -> Seq<char> {
    if seq_ends_with(name, suffix()) {
        name
    } else {
        name + suffix()
    }
}

/// Ensure a project name ends with `-battery-pack`.
pub fn ensure_battery_pack_suffix(name: String) -> (r: String)
    ensures
        r@ == with_suffix_spec(name@),
{
    if ends_with(name.as_str(), "-battery-pack") {
        name
    } else {
        cat(name.as_str(), "-battery-pack")
    }
}

/// Adding the suffix twice is the same as adding it once.
pub proof fn law_suffix_idempotent(name: Seq<char>)
    ensures
        with_suffix_spec(with_suffix_spec(name)) == with_suffix_spec(name),
        seq_ends_with(with_suffix_spec(name), suffix()),
{
    let r = name + suffix();
    assert(r.subrange(r.len() - suffix().len(), r.len() as int) =~= suffix());
}

/// The project name to generate: for the `battery-pack` pack itself the
/// name gains the `-battery-pack` suffix; otherwise it is used as given.
pub fn project_name_for(battery_pack: &str, raw: String) -> (r: String)
    ensures
        r@ == (if battery_pack@ == "battery-pack"@ {
            with_suffix_spec(raw@)
        } else {
            raw@
        }),
{
    if str_eq(battery_pack, "battery-pack") {
        ensure_battery_pack_suffix(raw)
    } else {
        raw
    }
}

/// `s` with a prefix removed when it starts with it.
pub open spec fn strip_prefix_spec(s: Seq<char>, p: Seq<char>) -> Option<Seq<char>> {
    if seq_starts_with(s, p) {
        Some(s.subrange(p.len() as int, s.len() as int))
    } else {
        None
    }
}

/// `s` without trailing `/` characters.
pub open spec fn trim_slashes(s: Seq<char>) -> Seq<char>
    decreases s.len(),
{
    if s.len() > 0 && s.last() == '/' {
        trim_slashes(s.drop_last())
    } else {
        s
    }
}

/// The `owner/repo` part of a GitHub repository URL, without `.git` or
/// trailing slashes; `None` when the URL is not on github.com.
pub open spec fn github_path_spec(repo: Seq<char>) -> Option<Seq<char>> {
    let p = match strip_prefix_spec(repo, "https://github.com/"@) {
        Some(x) => Some(x),
        None => strip_prefix_spec(repo, "http://github.com/"@),
    };
    match p {
        Some(x) => {
            let y = if seq_ends_with(x, ".git"@) {
                x.subrange(0, x.len() - 4)
            } else {
                x
            };
            Some(trim_slashes(y))
        },
        None => None,
    }
}

/// Remove trailing `/` characters.
fn trim_end_slashes(s: &str) -> (r: String)
    ensures
        r@ == trim_slashes(s@),
{
    let cs = str_chars(s);
    let mut n: usize = cs.len();
    proof {
        assert(s@.subrange(0, n as int) =~= s@);
    }
    while n > 0 && cs[n - 1] == '/'
        invariant
            cs@ == s@,
            n <= cs@.len(),
            trim_slashes(s@) == trim_slashes(s@.subrange(0, n as int)),
        decreases n,
    {
        proof {
            assert(s@.subrange(0, n as int).drop_last() =~= s@.subrange(0, n - 1));
        }
        n -= 1;
    }
    proof {
        assert(s@.subrange(0, n as int) =~= cs@.subrange(0, n as int));
    }
    take_chars(s, n)
}

/// The `owner/repo` part of a GitHub repository URL.
pub fn github_path(repo: &str) -> (r: Option<String>)
    ensures
        opt_str_view(r) == github_path_spec(repo@),
{
    proof {
        reveal_strlit("https://github.com/");
        reveal_strlit("http://github.com/");
        reveal_strlit(".git");
    }
    let rest: String = if starts_with(repo, "https://github.com/") {
        drop_chars(repo, 19)
    } else if starts_with(repo, "http://github.com/") {
        drop_chars(repo, 18)
    } else {
        return None;
    };
    let trimmed = if ends_with(rest.as_str(), ".git") {
        let n = str_chars(rest.as_str()).len();
        take_chars(rest.as_str(), n - 4)
    } else {
        rest
    };
    Some(trim_end_slashes(trimmed.as_str()))
}

/// The content of an optional string.
pub open spec fn opt_str_view(o: Option<String>) -> Option<Seq<char>> {
    match o {
        Some(s) => Some(s@),
        None => None,
    }
}

/// A GitHub URL of the given ref type (`tree` or `blob`) on the `main`
/// branch; for a non-GitHub repository its URL; with none, crates.io.
pub open spec fn github_ref_url_spec(repository: Option<Seq<char>>, ref_type: Seq<char>, path: Seq<char>) -> Seq<char> {
    match repository {
        Some(repo) => match github_path_spec(repo) {
            Some(gh) => "https://github.com/"@ + gh + "/"@ + ref_type + "/main/"@ + path,
            None => repo,
        },
        None => "https://crates.io"@,
    }
}

/// Build a GitHub URL with the given ref type (tree or blob).
pub fn build_github_ref_url(repository: Option<&str>, ref_type: &str, path: &str) -> (r: String)
    ensures
        r@ == github_ref_url_spec(
            match repository {
                Some(x) => Some(x@),
                None => None,
            },
            ref_type@,
            path@,
        ),
{
    match repository {
        Some(repo) => match github_path(repo) {
            Some(gh) => {
                let a = cat3("https://github.com/", gh.as_str(), "/");
                let b = cat3(a.as_str(), ref_type, "/main/");
                cat(b.as_str(), path)
            },
            None => repo.to_owned(),
        },
        None => "https://crates.io".to_owned(),
    }
}

/// A GitHub tree URL for a directory path.
pub fn build_github_url(repository: Option<&str>, path: &str) -> (r: String)
    ensures
        r@ == github_ref_url_spec(
            match repository {
                Some(x) => Some(x@),
                None => None,
            },
            "tree"@,
            path@,
        ),
{
    build_github_ref_url(repository, "tree", path)
}

/// A GitHub blob URL for a file path.
pub fn build_github_blob_url(repository: Option<&str>, path: &str) -> (r: String)
    ensures
        r@ == github_ref_url_spec(
            match repository {
                Some(x) => Some(x@),
                None => None,
            },
            "blob"@,
            path@,
        ),
{
    build_github_ref_url(repository, "blob", path)
}

/// The GitHub API URL listing a repository's tree on `main`, for GitHub repositories.
pub fn github_tree_api_url(repository: &str) -> (r: Option<String>)
    ensures
        opt_str_view(r) == (match github_path_spec(repository@) {
            Some(gh) => Some("https://api.github.com/repos/"@ + gh + "/git/trees/main?recursive=1"@),
            None => None,
        }),
{
    match github_path(repository) {
        Some(gh) => Some(cat3("https://api.github.com/repos/", gh.as_str(), "/git/trees/main?recursive=1")),
        None => None,
    }
}

/// The first path of `tree` ending in `suffix`.
pub open spec fn first_ending_with(tree: Seq<Seq<char>>, suf: Seq<char>) -> Option<Seq<char>>
    decreases tree.len(),
{
    if tree.len() == 0 {
        None
    } else if seq_ends_with(tree[0], suf) {
        Some(tree[0])
    } else {
        first_ending_with(tree.drop_first(), suf)
    }
}

/// The first path of `tree` that ends in `suf`.
fn find_ending_with(tree: &Vec<String>, suf: &str) -> (r: Option<String>)
    ensures
        opt_str_view(r) == first_ending_with(tree.deep_view(), suf@),
{
    let mut i: usize = 0;
    proof {
        assert(tree.deep_view().skip(0) =~= tree.deep_view());
    }
    while i < tree.len()
        invariant
            i <= tree@.len(),
            first_ending_with(tree.deep_view(), suf@) == first_ending_with(tree.deep_view().skip(i as int), suf@),
        decreases tree.len() - i,
    {
        proof {
            assert(tree.deep_view().skip(i as int).drop_first() =~= tree.deep_view().skip(i + 1));
            assert(tree.deep_view().skip(i as int)[0] == tree.deep_view()[i as int]);
        }
        if ends_with(tree[i].as_str(), suf) {
            return Some(tree[i].clone());
        }
        i += 1;
    }
    None
}

/// Find the full repository path of an example: the first path ending in
/// `examples/{name}.rs`.
pub fn find_example_path(tree: &Vec<String>, example_name: &str) -> (r: Option<String>)
    ensures
        opt_str_view(r) == first_ending_with(tree.deep_view(), "examples/"@ + example_name@ + ".rs"@),
{
    let suf = cat3("examples/", example_name, ".rs");
    find_ending_with(tree, suf.as_str())
}

/// Find the full repository path of a template directory: the first path
/// ending in the template's path.
pub fn find_template_path(tree: &Vec<String>, template_path: &str) -> (r: Option<String>)
    ensures
        opt_str_view(r) == first_ending_with(tree.deep_view(), template_path@),
{
    find_ending_with(tree, template_path)
}

} // verus!
