//! The content-addressed archive cache: paths are a pure function of
//! the key (owner, repository, commit hash), and a key whose archive
//! is already present is answered without any network request.

use crate::text::{append_str, append_vec, from_chars, to_chars};
use vstd::string::StringExecFns;
use vstd::prelude::*;

verus! {

/// The key of one cached archive.
pub struct CacheMetadata {
    pub owner: String,
    pub repo: String,
    pub hash: String,
}

impl CacheMetadata {
    /// A key from its three parts.
    pub fn new(owner: &str, repo: &str, hash: &str) -> (r: CacheMetadata)
        ensures
            r.owner@ == owner@,
            r.repo@ == repo@,
            r.hash@ == hash@,
    {
        CacheMetadata {
            owner: String::from_str(owner),
            repo: String::from_str(repo),
            hash: String::from_str(hash),
        }
    }
}

/// The directory of the key's cache entry:
/// `<root>/.ogito/cache/<owner>/<repo>/<hash[0:2]>/<hash[2:]>`.
pub open spec fn spec_cache_hash_path(
    root: Seq<char>,
    owner: Seq<char>,
    repo: Seq<char>,
    hash: Seq<char>,
) -> Seq<char> {
    root + "/.ogito/cache/"@ + owner + "/"@ + repo + "/"@ + hash.take(2) + "/"@ + hash.skip(2)
}

/// The archive file inside the key's cache directory.
pub open spec fn spec_archive_path(
    root: Seq<char>,
    owner: Seq<char>,
    repo: Seq<char>,
    hash: Seq<char>,
) -> Seq<char> {
    spec_cache_hash_path(root, owner, repo, hash) + "/archive.tar.gz"@
}

/// The on-disk places of one cache entry.
#[derive(Debug, Clone)]
pub struct CacheConfig {
    pub cache_hash_path: String,
    pub archive_path: String,
}

impl CacheConfig {
    /// The places of the entry for `cache_metadata`, under the cache
    /// root directory `root`. The hash must carry at least the two
    /// characters that name the fan-out directory.
    pub fn new(root: &str, cache_metadata: &CacheMetadata) -> (r: CacheConfig)
        requires
            cache_metadata.hash@.len() >= 2,
        ensures
            r.cache_hash_path@ == spec_cache_hash_path(
                root@,
                cache_metadata.owner@,
                cache_metadata.repo@,
                cache_metadata.hash@,
            ),
            r.archive_path@ == spec_archive_path(
                root@,
                cache_metadata.owner@,
                cache_metadata.repo@,
                cache_metadata.hash@,
            ),
    {
        let mut out = to_chars(root);
        let ghost parts: Seq<char> = root@;
        append_str(&mut out, "/.ogito/cache/");
        append_str(&mut out, cache_metadata.owner.as_str());
        append_str(&mut out, "/");
        append_str(&mut out, cache_metadata.repo.as_str());
        append_str(&mut out, "/");
        let hv = to_chars(cache_metadata.hash.as_str());
        let head = crate::text::sub_vec(&hv, 0, 2);
        append_vec(&mut out, &head);
        append_str(&mut out, "/");
        let tail = crate::text::sub_vec(&hv, 2, hv.len());
        append_vec(&mut out, &tail);
        proof {
            assert(head@ =~= cache_metadata.hash@.take(2));
            assert(tail@ =~= cache_metadata.hash@.skip(2));
        }
        let dir = from_chars(&out);
        append_str(&mut out, "/archive.tar.gz");
        let file = from_chars(&out);
        CacheConfig { cache_hash_path: dir, archive_path: file }
    }
}

/// How a fetch proceeds: answer from the cache, or download first.
#[derive(Debug, Clone, PartialEq, Eq)]
pub enum FetchPlan {
    UseCache,
    Download,
}

/// The fetch decision for a key whose cache presence is known.
pub open spec fn spec_plan_fetch(cached: bool) -> FetchPlan {
    if cached {
        FetchPlan::UseCache
    } else {
        FetchPlan::Download
    }
}

/// Decides a fetch: a key whose archive file is present is answered
/// from the cache and nothing is downloaded; only an absent entry is
/// fetched over the network.
pub fn plan_fetch(cached: bool) -> (r: FetchPlan)
    ensures
        r == spec_plan_fetch(cached),
{
    if cached {
        FetchPlan::UseCache
    } else {
        FetchPlan::Download
    }
}

/// Fetching a populated key twice touches the network neither time and
/// yields the same path both times: the decision for a present entry
/// is always to use the cache, and two fetches whose key parts are
/// equal are answered with the same entry path.
pub proof fn lemma_fetch_populated_twice(
    root1: Seq<char>,
    owner1: Seq<char>,
    repo1: Seq<char>,
    hash1: Seq<char>,
    root2: Seq<char>,
    owner2: Seq<char>,
    repo2: Seq<char>,
    hash2: Seq<char>,
)
    requires
        root1 == root2,
        owner1 == owner2,
        repo1 == repo2,
        hash1 == hash2,
    ensures
        spec_plan_fetch(true) == FetchPlan::UseCache,
        spec_plan_fetch(true) != FetchPlan::Download,
        spec_archive_path(root1, owner1, repo1, hash1) == spec_archive_path(
            root2,
            owner2,
            repo2,
            hash2,
        ),
{
}

} // verus!
