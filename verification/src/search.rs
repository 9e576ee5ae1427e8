//! Filtering discovered repositories before cloning.
//!
//! Repository discovery itself is a thin paginated search-API client that
//! lives outside this crate; it hands the discovered locations over as
//! plain values, sorted by popularity descending.

use vstd::prelude::*;

verus! {

/// An opaque clonable source identifier with an optional size hint in
/// kilobytes, used for filtering before cloning. Immutable once
/// discovered. A location without a clone URL cannot be cloned and is
/// dropped by the filter.
pub struct RepositoryLocation {
    pub clone_url: Option<String>,
    pub size: Option<u32>,
}

/// The size a location is filtered by: its hint, or zero when it has none.
pub open spec fn spec_size_of(l: RepositoryLocation) -> u32 {
    match l.size {
        Some(s) => s,
        None => 0u32,
    }
}

/// The bound a size hint is held against: the given limit, or the largest
/// expressible size when none was given.
pub open spec fn spec_limit(size_limit: Option<u32>) -> u32 {
    match size_limit {
        Some(s) => s,
        None => u32::MAX,
    }
}

/// Whether a location survives the filter: its size is strictly under the
/// bound and it has a clone URL.
pub open spec fn spec_keep(l: RepositoryLocation, size_limit: Option<u32>) -> bool {
    spec_size_of(l) < spec_limit(size_limit) && l.clone_url is Some
}

/// The clone URLs of the locations that survive the filter, in discovered
/// order.
pub open spec fn spec_filter_repositories(
    repos: Seq<RepositoryLocation>,
    size_limit: Option<u32>,
) -> Seq<Seq<char>>
    decreases repos.len(),
{
    if repos.len() == 0 {
        Seq::empty()
    } else {
        let rest = spec_filter_repositories(repos.drop_last(), size_limit);
        if spec_keep(repos.last(), size_limit) {
            rest.push(repos.last().clone_url->Some_0@)
        } else {
            rest
        }
    }
}

/// Gets the clone URLs of the discovered repositories, optionally limited
/// to repositories strictly under a size in kilobytes.
pub fn filter_repositories(repos: &Vec<RepositoryLocation>, size_limit: Option<u32>) -> (r: Vec<
    String,
>)
    ensures
        r.deep_view() == spec_filter_repositories(repos@, size_limit),
{
    let limit = match size_limit {
        Some(s) => s,
        None => u32::MAX,
    };
    let mut out: Vec<String> = Vec::new();
    let mut i: usize = 0;
    proof {
        assert(repos@.take(0) =~= Seq::<RepositoryLocation>::empty());
        assert(out.deep_view() =~= spec_filter_repositories(repos@.take(0), size_limit));
    }
    while i < repos.len()
        invariant
            i <= repos@.len(),
            limit == spec_limit(size_limit),
            out.deep_view() == spec_filter_repositories(repos@.take(i as int), size_limit),
        decreases repos@.len() - i,
    {
        proof {
            let t = repos@.take(i + 1);
            assert(t.drop_last() =~= repos@.take(i as int));
            assert(t.last() == repos@[i as int]);
        }
        let size = match &repos[i].size {
            Some(s) => *s,
            None => 0,
        };
        if size < limit {
            match &repos[i].clone_url {
                Some(url) => {
                    let ghost pre = out.deep_view();
                    out.push(url.clone());
                    proof {
                        assert(out.deep_view() =~= pre.push(
                            repos@[i as int].clone_url->Some_0@,
                        ));
                    }
                },
                None => {},
            }
        }
        i += 1;
    }
    proof {
        assert(repos@.take(repos@.len() as int) =~= repos@);
    }
    out
}

} // verus!
