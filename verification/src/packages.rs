//! Packages: the configured description of one remote artifact set, the
//! order in which selected packages are processed (root packages first, then
//! alphabetically by name), and the per-package version report line.
use vstd::prelude::*;
use vstd::multiset::Multiset;
use vstd::string::StringExecFns;

use crate::text::compare_str;
use crate::text::lemma_lex_total;
use crate::text::lemma_lex_trans;
use crate::text::lex_le;
use crate::text::Order;

verus! {

/// One configured package: a named remote artifact set with its own
/// version, manifest, repository and destination.  Identity is `id`; the
/// display and sort key is `name`.  Root packages bypass the destructive
/// overwrite prompt.  Read-only for the whole run.
#[derive(Debug, Clone)]
pub struct Package {
    pub id: String,
    pub name: String,
    pub description: String,
    pub version_url: String,
    pub filelist_url: String,
    pub repo_url: String,
    pub output_path: String,
    pub password: String,
    pub is_root: bool,
}

/// The processing order: a root package comes before a non-root one, and
/// packages alike in rootness order by name.
pub open spec fn pkg_le(a: Package, b: Package) -> bool {
    if a.is_root != b.is_root {
        a.is_root
    } else {
        lex_le(a.name@, b.name@)
    }
}

/// The processing order is total.
pub proof fn lemma_pkg_le_total(a: Package, b: Package)
    ensures
        pkg_le(a, b) || pkg_le(b, a),
{
    lemma_lex_total(a.name@, b.name@);
}

/// The processing order is transitive.
pub proof fn lemma_pkg_le_trans(a: Package, b: Package, c: Package)
    requires
        pkg_le(a, b),
        pkg_le(b, c),
    ensures
        pkg_le(a, c),
{
    if a.is_root == b.is_root && b.is_root == c.is_root {
        if a.name@ == b.name@ || b.name@ == c.name@ {
        } else {
            lemma_lex_trans(a.name@, b.name@, c.name@);
        }
    }
}

fn pkg_le_exec(a: &Package, b: &Package) -> (r: bool)
    ensures
        r == pkg_le(*a, *b),
{
    if a.is_root != b.is_root {
        a.is_root
    } else {
        match compare_str(a.name.as_str(), b.name.as_str()) {
            Order::Less => true,
            Order::Equal => true,
            Order::Greater => false,
        }
    }
}

/// Sort packages into processing order: root packages first, then
/// alphabetically by name.  The result holds exactly the given packages.
pub fn sort_packages(packages: Vec<Package>) -> (r: Vec<Package>)
    ensures
        r@.len() == packages@.len(),
        r@.to_multiset() == packages@.to_multiset(),
        forall|i: int, j: int| 0 <= i < j < r@.len() ==> pkg_le(r@[i], r@[j]),
{
    broadcast use vstd::seq_lib::group_to_multiset_ensures;
    broadcast use vstd::multiset::group_multiset_axioms;

    let ghost total = packages@.to_multiset();
    let mut work = packages;
    let mut out: Vec<Package> = Vec::new();
    proof {
        assert(out@.to_multiset().add(work@.to_multiset()) =~= total);
    }
    while work.len() > 0
        invariant
            out@.to_multiset().add(work@.to_multiset()) == total,
            out@.len() + work@.len() == total.len(),
            forall|i: int, j: int| 0 <= i < j < out@.len() ==> pkg_le(out@[i], out@[j]),
            forall|i: int, j: int|
                0 <= i < out@.len() && 0 <= j < work@.len() ==> pkg_le(
                    #[trigger] out@[i],
                    #[trigger] work@[j],
                ),
        decreases work.len(),
    {
        let mut min: usize = 0;
        let mut k: usize = 1;
        while k < work.len()
            invariant
                0 < work@.len(),
                0 <= min < k <= work@.len(),
                forall|t: int| 0 <= t < k ==> pkg_le(work@[min as int], #[trigger] work@[t]),
            decreases work.len() - k,
        {
            if pkg_le_exec(&work[k], &work[min]) {
                proof {
                    assert forall|t: int| 0 <= t < k + 1 implies pkg_le(
                        work@[k as int],
                        #[trigger] work@[t],
                    ) by {
                        if t < k {
                            lemma_pkg_le_trans(work@[k as int], work@[min as int], work@[t]);
                        } else {
                            lemma_pkg_le_total(work@[k as int], work@[k as int]);
                        }
                    }
                }
                min = k;
            } else {
                proof {
                    lemma_pkg_le_total(work@[k as int], work@[min as int]);
                }
            }
            k = k + 1;
        }
        let ghost old_work = work@;
        let ghost old_out = out@;
        let x = work.remove(min);
        proof {
            old_work.to_multiset_ensures();
            old_out.to_multiset_ensures();
            assert(old_work.to_multiset().count(x) > 0) by {
                assert(old_work[min as int] == x);
                assert(old_work.contains(x));
            }
            assert(work@ == old_work.remove(min as int));
            assert(work@.to_multiset() =~= old_work.to_multiset().remove(x));
            // Every remaining element sits at an index of the old listing
            // other than `min`, so the chosen element still precedes it.
            assert forall|j: int| 0 <= j < work@.len() implies pkg_le(x, #[trigger] work@[j]) by {
                if j < min {
                    assert(work@[j] == old_work[j]);
                } else {
                    assert(work@[j] == old_work[j + 1]);
                }
            }
        }
        out.push(x);
        proof {
            assert(out@ =~= old_out.push(x));
            assert(out@.to_multiset() =~= old_out.to_multiset().insert(x));
            assert(out@.to_multiset().add(work@.to_multiset()) =~= total);
            assert forall|i: int, j: int| 0 <= i < j < out@.len() implies pkg_le(
                out@[i],
                out@[j],
            ) by {
                if j == out@.len() - 1 {
                    assert(out@[j] == x);
                    assert(pkg_le(old_out[i], old_work[min as int]));
                }
            }
        }
    }
    proof {
        assert(work@.to_multiset() =~= Multiset::<Package>::empty());
        assert(out@.to_multiset().add(work@.to_multiset()) =~= out@.to_multiset());
    }
    out
}

/// The report line for a package whose remote version text is `version`:
/// the package's name, a separating colon, and the version.
pub fn get_package_version_string(package: &Package, version: &str) -> (r: String)
    ensures
        r@ == package.name@ + seq![':', ' '] + version@,
{
    let mut r = package.name.clone();
    proof {
        reveal_strlit(": ");
        assert(": "@ =~= seq![':', ' ']);
    }
    r.append(": ");
    r.append(version);
    r
}

} // verus!
