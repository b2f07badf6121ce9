use vstd::prelude::*;

use crate::table::StringTable;

verus! {

/// Key under which the region of `bucket` is cached for `provider`:
/// `provider#bucket`.
pub open spec fn spec_region_key(provider: Seq<char>, bucket: Seq<char>) -> Seq<char> {
    provider + seq!['#'] + bucket
}

/// Builds the cache key `provider#bucket`.
pub fn region_key(provider: &str, bucket: &str) -> (key: String)
    ensures
        key@ == spec_region_key(provider@, bucket@),
{
    let mut key = provider.to_owned();
    key.append("#");
    key.append(bucket);
    proof {
        reveal_strlit("#");
    }
    key
}

/// Region of a bucket given its location constraint: none means
/// `us-east-1`, `EU` means `eu-west-1`, any other constraint names the
/// region itself.
pub open spec fn spec_region_for_location(constraint: Option<Seq<char>>) -> Seq<char> {
    match constraint {
        None => "us-east-1"@,
        Some(c) => if c == "EU"@ {
            "eu-west-1"@
        } else {
            c
        },
    }
}

/// The region named by a bucket's location constraint.
pub fn region_for_location(constraint: Option<String>) -> (region: String)
    ensures
        region@ == spec_region_for_location(
            match constraint {
                Some(c) => Some(c@),
                None => None,
            },
        ),
{
    match constraint {
        None => "us-east-1".to_owned(),
        Some(c) => {
            let eu = "EU".to_owned();
            if c == eu {
                "eu-west-1".to_owned()
            } else {
                c
            }
        },
    }
}

/// Cached regions of buckets.
pub struct Regions {
    /// Region of each cached bucket key.
    pub buckets: StringTable<String>,
}

impl Regions {
    /// The cache as a map from keys to regions.
    pub open spec fn cache(&self) -> Map<Seq<char>, String> {
        self.buckets@
    }

    /// The cache's invariant.
    pub open spec fn wf(&self) -> bool {
        self.buckets.wf()
    }

    /// An empty cache.
    pub fn new() -> (r: Self)
        ensures
            r.wf(),
            r.cache() == Map::<Seq<char>, String>::empty(),
    {
        Regions { buckets: StringTable::new() }
    }

    /// The region cached for `bucket` of `provider`, if any.
    pub fn cached_region(&self, provider: &str, bucket: &str) -> (region: Option<String>)
        requires
            self.wf(),
        ensures
            match region {
                Some(r) => self.cache().contains_key(spec_region_key(provider@, bucket@)) && r
                    == self.cache()[spec_region_key(provider@, bucket@)],
                None => !self.cache().contains_key(spec_region_key(provider@, bucket@)),
            },
    {
        let key = region_key(provider, bucket);
        match self.buckets.get(&key) {
            Some(r) => Some(r.clone()),
            None => None,
        }
    }

    /// Whether the region of `bucket` is cached for `provider`.
    pub fn has_region(&self, provider: &str, bucket: &str) -> (b: bool)
        requires
            self.wf(),
        ensures
            b == self.cache().contains_key(spec_region_key(provider@, bucket@)),
    {
        let key = region_key(provider, bucket);
        self.buckets.contains_key(&key)
    }

    /// Caches `region` for `bucket` of `provider` unless a region is cached
    /// for it already; says whether the cache changed.
    pub fn remember_region(&mut self, provider: &str, bucket: &str, region: &String) -> (changed:
        bool)
        requires
            old(self).wf(),
        ensures
            final(self).wf(),
            changed == !old(self).cache().contains_key(spec_region_key(provider@, bucket@)),
            changed ==> final(self).cache() == old(self).cache().insert(
                spec_region_key(provider@, bucket@),
                *region,
            ),
            !changed ==> final(self).cache() == old(self).cache(),
    {
        let key = region_key(provider, bucket);
        if self.buckets.contains_key(&key) {
            false
        } else {
            self.buckets.insert(key, region.clone());
            true
        }
    }

    /// Caches `region` for `bucket` of `provider`, replacing any region
    /// cached for it.
    pub fn store_region(&mut self, provider: &str, bucket: &str, region: String)
        requires
            old(self).wf(),
        ensures
            final(self).wf(),
            final(self).cache() == old(self).cache().insert(
                spec_region_key(provider@, bucket@),
                region,
            ),
    {
        let key = region_key(provider, bucket);
        self.buckets.insert(key, region);
    }
}

/// What resolving a bucket's region needs.
#[derive(Debug, Clone, PartialEq, Eq)]
pub enum RegionLookup {
    /// The region was cached.
    Cached(String),
    /// The bucket's location has to be asked of the service.
    Fetch,
}

/// First step of resolving the region of `bucket` for `provider`: a region
/// cached for it is used as it is; otherwise the location is fetched.
pub fn lookup_bucket_region(regions: &Regions, provider: &str, bucket: &str) -> (lookup: RegionLookup)
    requires
        regions.wf(),
    ensures
        match lookup {
            RegionLookup::Cached(r) => regions.cache().contains_key(
                spec_region_key(provider@, bucket@),
            ) && r == regions.cache()[spec_region_key(provider@, bucket@)],
            RegionLookup::Fetch => !regions.cache().contains_key(spec_region_key(provider@, bucket@)),
        },
{
    match regions.cached_region(provider, bucket) {
        Some(r) => RegionLookup::Cached(r),
        None => RegionLookup::Fetch,
    }
}

/// Second step, once the location constraint of `bucket` was fetched: the
/// region it names, cached for `provider` unless one is cached already. The
/// flag says whether the cache changed and has to be saved.
pub fn record_bucket_location(
    regions: &mut Regions,
    provider: &str,
    bucket: &str,
    constraint: Option<String>,
) -> (res: (String, bool))
    requires
        old(regions).wf(),
    ensures
        final(regions).wf(),
        res.0@ == spec_region_for_location(
            match constraint {
                Some(c) => Some(c@),
                None => None,
            },
        ),
        res.1 == !old(regions).cache().contains_key(spec_region_key(provider@, bucket@)),
        res.1 ==> final(regions).cache() == old(regions).cache().insert(
            spec_region_key(provider@, bucket@),
            res.0,
        ),
        !res.1 ==> final(regions).cache() == old(regions).cache(),
{
    let region = region_for_location(constraint);
    let changed = regions.remember_region(provider, bucket, &region);
    (region, changed)
}

/// A region is served from the cache once recorded: after
/// `record_bucket_location` for `bucket` of `provider`, the cache holds a
/// region for them, so the next `lookup_bucket_region` answers `Cached`
/// without fetching; the region is the one just recorded unless one was
/// cached before, which recording never replaces; other entries stay.
pub proof fn lemma_recorded_region_is_found(
    before: Map<Seq<char>, String>,
    after: Map<Seq<char>, String>,
    provider: Seq<char>,
    bucket: Seq<char>,
    region: String,
    changed: bool,
)
    requires
        changed == !before.contains_key(spec_region_key(provider, bucket)),
        changed ==> after == before.insert(spec_region_key(provider, bucket), region),
        !changed ==> after == before,
    ensures
        after.contains_key(spec_region_key(provider, bucket)),
        changed ==> after[spec_region_key(provider, bucket)] == region,
        !changed ==> after[spec_region_key(provider, bucket)] == before[spec_region_key(
            provider,
            bucket,
        )],
        forall|k: Seq<char>|
            k != spec_region_key(provider, bucket) ==> after.contains_key(k) == before.contains_key(k),
{
}

/// The region a location constraint names: no constraint means
/// `us-east-1`, the constraint `EU` means `eu-west-1`, and every other
/// constraint is itself the region.
pub proof fn lemma_location_names_its_region(constraint: Seq<char>)
    ensures
        spec_region_for_location(None) == "us-east-1"@,
        spec_region_for_location(Some("EU"@)) == "eu-west-1"@,
        constraint != "EU"@ ==> spec_region_for_location(Some(constraint)) == constraint,
{
}

} // verus!
