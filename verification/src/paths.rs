//! Deterministic per-asset storage paths.
//!
//! An asset is identified by a category (such as `"model"` or `"runtime"`)
//! and a name; its storage directory is derived from a root data directory
//! as `root / com.resuma.app / <category>s / <name>`. The derivation is pure:
//! it never touches the disk.

use vstd::prelude::*;
use vstd::string::StringExecFns;

verus! {

/// The fixed application namespace placed directly under the root data
/// directory.
pub open spec fn app_namespace() -> Seq<char> {
    "com.resuma.app"@
}

/// `base` and `seg` joined with a single separator.
pub open spec fn spec_join(base: Seq<char>, seg: Seq<char>) -> Seq<char> {
    base + seq!['/'] + seg
}

/// A category is pluralized by literal suffix concatenation.
pub open spec fn spec_pluralize(category: Seq<char>) -> Seq<char> {
    category + seq!['s']
}

/// The storage directory for an asset:
/// `root / com.resuma.app / <category>s / <name>`.
pub open spec fn spec_resolve(root: Seq<char>, category: Seq<char>, name: Seq<char>) -> Seq<char> {
    spec_join(spec_join(spec_join(root, app_namespace()), spec_pluralize(category)), name)
}

/// Join two path fragments with a `/` separator.
pub fn join_path(base: &str, seg: &str) -> (r: String)
    ensures
        r@ == spec_join(base@, seg@),
{
    proof {
        reveal_strlit("/");
        assert("/"@ =~= seq!['/']);
    }
    let mut r = base.to_owned();
    r.append("/");
    r.append(seg);
    r
}

/// Append the literal plural suffix to a category.
pub fn pluralize(category: &str) -> (r: String)
    ensures
        r@ == spec_pluralize(category@),
{
    proof {
        reveal_strlit("s");
        assert("s"@ =~= seq!['s']);
    }
    let mut r = category.to_owned();
    r.append("s");
    r
}

/// Derive the storage directory of the asset `(category, name)` under
/// `root`. Pure and total: the caller guarantees that `category` and `name`
/// are non-empty and free of path separators, and no normalization is
/// performed here.
pub fn resolve(root: &str, category: &str, name: &str) -> (r: String)
    ensures
        r@ == spec_resolve(root@, category@, name@),
{
    let ns_dir = join_path(root, "com.resuma.app");
    let category_dir = pluralize(category);
    let asset_root = join_path(ns_dir.as_str(), category_dir.as_str());
    join_path(asset_root.as_str(), name)
}

/// Resolution is deterministic and idempotent: any two paths resolved from
/// the same `(root, category, name)` triple are identical.
pub proof fn lemma_resolve_deterministic(
    root: Seq<char>,
    category: Seq<char>,
    name: Seq<char>,
    p1: Seq<char>,
    p2: Seq<char>,
)
    requires
        p1 == spec_resolve(root, category, name),
        p2 == spec_resolve(root, category, name),
    ensures
        p1 == p2,
{
}

} // verus!
