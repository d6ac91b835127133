//! The template context for generated battery pack documentation.
use vstd::prelude::*;
use crate::common::DeepClone;
use crate::manifest::{BatteryPackSpec, CrateSpecView, dep_kind_name, hidden_by, opt_view};
use crate::strmap::StrMap;
use crate::text::seq_lt;

verus! {

/// A single crate in the template context.
#[derive(Debug)]
pub struct CrateEntry {
    pub name: String,
    pub version: String,
    pub description: String,
    pub features: Vec<String>,
    pub dep_kind: String,
}

/// A feature group in the template context.
#[derive(Debug)]
pub struct FeatureEntry {
    pub name: String,
    pub crates: Vec<String>,
}

/// Package-level metadata in the template context.
#[derive(Debug)]
pub struct PackageInfo {
    pub name: String,
    pub version: String,
    pub description: String,
    pub repository: String,
}

/// Context for rendering the documentation template.
#[derive(Debug)]
pub struct DocsContext {
    /// Non-hidden curated crates, in name order.
    pub crates: Vec<CrateEntry>,
    /// Named feature groups, in name order.
    pub features: Vec<FeatureEntry>,
    /// Contents of README.md.
    pub readme: String,
    /// Package metadata.
    pub package: PackageInfo,
}

/// The content of a crate entry.
pub struct CrateEntryView {
    pub name: Seq<char>,
    pub version: Seq<char>,
    pub description: Seq<char>,
    pub features: Seq<Seq<char>>,
    pub dep_kind: Seq<char>,
}

impl DeepView for CrateEntry {
    type V = CrateEntryView;

    open spec fn deep_view(&self) -> CrateEntryView {
        CrateEntryView {
            name: self.name@,
            version: self.version@,
            description: self.description@,
            features: self.features.deep_view(),
            dep_kind: self.dep_kind@,
        }
    }
}

/// The entry for a visible crate: description from `descriptions`, else empty.
pub open spec fn entry_for(
    name: Seq<char>,
    spec: CrateSpecView,
    descriptions: Map<Seq<char>, Seq<char>>,
) -> CrateEntryView {
    CrateEntryView {
        name,
        version: spec.version,
        description: if descriptions.contains_key(name) {
            descriptions[name]
        } else {
            Seq::empty()
        },
        features: spec.features,
        dep_kind: dep_kind_name(spec.dep_kind),
    }
}

/// Build the template context from a parsed spec, crate descriptions, and a
/// readme. Hidden crates are left out; crates and features come in name order.
pub fn build_context(
    spec: &BatteryPackSpec,
    descriptions: &StrMap<String>,
    readme: &str,
) -> (ctx: DocsContext)
    requires
        spec.wf(),
        descriptions.wf(),
    ensures
        forall|a: int, b: int|
            0 <= a < b < ctx.crates@.len() ==> seq_lt(
                #[trigger] ctx.crates@[a].name@,
                #[trigger] ctx.crates@[b].name@,
            ),
        forall|a: int|
            0 <= a < ctx.crates@.len() ==> spec.crates@.contains_key(#[trigger] ctx.crates@[a].name@)
                && !hidden_by(spec.hidden.deep_view(), ctx.crates@[a].name@)
                && ctx.crates@[a].deep_view() == entry_for(
                ctx.crates@[a].name@,
                spec.crates@[ctx.crates@[a].name@],
                descriptions@,
            ),
        forall|k: Seq<char>|
            spec.crates@.contains_key(k) && !hidden_by(spec.hidden.deep_view(), k) ==> exists|a: int|
                0 <= a < ctx.crates@.len() && #[trigger] ctx.crates@[a].name@ == k,
        ctx.features@.len() == spec.features.keys().len(),
        forall|i: int|
            0 <= i < ctx.features@.len() ==> (#[trigger] ctx.features@[i]).name@ == spec.features.keys()[i]
                && ctx.features@[i].crates.deep_view() == spec.features.vals()[i],
        ctx.readme@ == readme@,
        ctx.package.name@ == spec.name@,
        ctx.package.version@ == spec.version@,
        ctx.package.description@ == spec.description@,
        ctx.package.repository@ == (match opt_view(spec.repository) {
            Some(r) => r,
            None => Seq::empty(),
        }),
{
    let mut features: Vec<FeatureEntry> = Vec::new();
    let mut j: usize = 0;
    while j < spec.features.entries.len()
        invariant
            spec.wf(),
            j <= spec.features.entries@.len(),
            features@.len() == j,
            forall|a: int|
                0 <= a < j ==> (#[trigger] features@[a]).name@ == spec.features.keys()[a]
                    && features@[a].crates.deep_view() == spec.features.vals()[a],
        decreases spec.features.entries.len() - j,
    {
        let fe = FeatureEntry {
            name: spec.features.entries[j].0.clone(),
            crates: spec.features.entries[j].1.deep_clone(),
        };
        features.push(fe);
        j += 1;
    }
    let visible = spec.visible_crates();
    let ghost keep = |k: Seq<char>| !hidden_by(spec.hidden.deep_view(), k);
    let mut crates: Vec<CrateEntry> = Vec::new();
    let mut i: usize = 0;
    while i < visible.entries.len()
        invariant
            spec.wf(),
            visible.wf(),
            descriptions.wf(),
            visible@ == spec.crates@.restrict(Set::new(keep)),
            keep == (|k: Seq<char>| !hidden_by(spec.hidden.deep_view(), k)),
            i <= visible.entries@.len(),
            crates@.len() == i,
            forall|a: int| 0 <= a < i ==> (#[trigger] crates@[a]).name@ == visible.keys()[a],
            forall|a: int|
                0 <= a < i ==> spec.crates@.contains_key(#[trigger] crates@[a].name@)
                    && !hidden_by(spec.hidden.deep_view(), crates@[a].name@)
                    && crates@[a].deep_view() == entry_for(
                    crates@[a].name@,
                    spec.crates@[crates@[a].name@],
                    descriptions@,
                ),
        decreases visible.entries.len() - i,
    {
        let name = &visible.entries[i].0;
        let cs = &visible.entries[i].1;
        proof {
            visible.lemma_index(i as int);
            assert(visible.keys()[i as int] == name@);
            assert(visible@.contains_key(name@));
        }
        let description = match descriptions.get(name.as_str()) {
            Some(d) => d.clone(),
            None => String::new(),
        };
        let entry = CrateEntry {
            name: name.clone(),
            version: cs.version.clone(),
            description,
            features: cs.features.deep_clone(),
            dep_kind: cs.dep_kind.to_string(),
        };
        proof {
            assert(visible@[name@] == spec.crates@[name@]);
            assert(cs.deep_view() == spec.crates@[name@]);
        }
        crates.push(entry);
        i += 1;
    }
    proof {
        assert forall|a: int, b: int|
            0 <= a < b < crates@.len() implies seq_lt(
                #[trigger] crates@[a].name@,
                #[trigger] crates@[b].name@,
            ) by {
            assert(visible.keys()[a] == crates@[a].name@);
        }
        assert forall|k: Seq<char>|
            spec.crates@.contains_key(k) && !hidden_by(spec.hidden.deep_view(), k) implies exists|a: int|
                0 <= a < crates@.len() && #[trigger] crates@[a].name@ == k by {
            assert(visible@.contains_key(k));
            let a = visible.keys().index_of(k);
            assert(crates@[a].name@ == k);
        }
    }
    let repository = match &spec.repository {
        Some(r) => r.clone(),
        None => String::new(),
    };
    let ghost cv = crates@;
    let ctx = DocsContext {
        crates,
        features,
        readme: readme.to_owned(),
        package: PackageInfo {
            name: spec.name.clone(),
            version: spec.version.clone(),
            description: spec.description.clone(),
            repository,
        },
    };
    assert(ctx.crates@ == cv);
    ctx
}


/// One row of the crate table: the crate linked to its crates.io page, its
/// version and its description.
pub open spec fn table_row(e: CrateEntryView) -> Seq<char> {
    "| ["@ + e.name + "](https://crates.io/crates/"@ + e.name + ") | "@ + e.version + " | "@ + e.description + " |\n"@
}

/// The rows of the first `n` crates.
pub open spec fn table_rows(es: Seq<CrateEntryView>, n: int) -> Seq<char>
    decreases n,
{
    if n <= 0 {
        Seq::empty()
    } else {
        table_rows(es, n - 1) + table_row(es[n - 1])
    }
}

/// The `{{crate-table}}` of the documentation template: a Markdown table
/// of the crates, or nothing when there are none.
pub open spec fn crate_table_spec(es: Seq<CrateEntryView>) -> Seq<char> {
    if es.len() == 0 {
        Seq::empty()
    } else {
        "| Crate | Version | Description |\n"@ + "|-------|---------|-------------|\n"@ + table_rows(es, es.len() as int)
    }
}

/// Render the crate table of a documentation context.
pub fn crate_table(ctx: &DocsContext) -> (r: String)
    ensures
        r@ == crate_table_spec(ctx.crates.deep_view()),
{
    let ghost es = ctx.crates.deep_view();
    if ctx.crates.len() == 0 {
        return String::new();
    }
    let mut out = crate::text::cat("| Crate | Version | Description |\n", "|-------|---------|-------------|\n");
    let ghost head = out@;
    let mut i: usize = 0;
    while i < ctx.crates.len()
        invariant
            es == ctx.crates.deep_view(),
            i <= ctx.crates.len(),
            head == "| Crate | Version | Description |\n"@ + "|-------|---------|-------------|\n"@,
            out@ == head + table_rows(es, i as int),
        decreases ctx.crates.len() - i,
    {
        let e = &ctx.crates[i];
        let a = crate::text::cat3("| [", e.name.as_str(), "](https://crates.io/crates/");
        let b = crate::text::cat3(a.as_str(), e.name.as_str(), ") | ");
        let c = crate::text::cat3(b.as_str(), e.version.as_str(), " | ");
        let d = crate::text::cat3(c.as_str(), e.description.as_str(), " |\n");
        out.append(d.as_str());
        proof {
            assert(es[i as int] == e.deep_view());
            assert(out@ =~= head + table_rows(es, i + 1));
        }
        i += 1;
    }
    out
}

} // verus!
