//! Multi-host inventory aggregation: a deduplicated set of images keyed
//! by normalized content digest, built from per-host container
//! listings, with per-host failure isolation.

use vstd::prelude::*;
use vstd::seq_lib::*;
use crate::image::{has_colon, raw_model, Image, ImageModel};
use crate::text::str_eq;

verus! {

/// One running container as a host reports it: a display name and a
/// digest-qualified content identifier.
pub struct ContainerRecord {
    pub name: String,
    pub digest: String,
}

/// The image model a raw container record denotes.
pub open spec fn record_model(r: ContainerRecord) -> ImageModel {
    raw_model(r.name@, r.digest@)
}

/// The image models of a sequence of images.
pub open spec fn image_models(s: Seq<Image>) -> Seq<ImageModel> {
    s.map_values(|img: Image| img@)
}

/// The image models of one host's container listing, in listing order.
pub open spec fn listing_models(l: Seq<ContainerRecord>) -> Seq<ImageModel> {
    l.map_values(|r: ContainerRecord| record_model(r))
}

/// Some image in `s` has the identity `id`.
pub open spec fn model_has_id(s: Seq<ImageModel>, id: Seq<char>) -> bool {
    exists|k: int| 0 <= k < s.len() && s[k].id == id
}

/// No two images in `s` share an identity.
pub open spec fn distinct_ids(s: Seq<ImageModel>) -> bool {
    forall|i: int, j: int| 0 <= i < j < s.len() ==> s[i].id != s[j].id
}

/// Deduplicating insertion: an image whose identity is already present
/// is dropped, so the first-seen display name for a digest is retained.
pub open spec fn insert_model(s: Seq<ImageModel>, m: ImageModel) -> Seq<ImageModel> {
    if model_has_id(s, m.id) {
        s
    } else {
        s.push(m)
    }
}

/// Insert every image of `ms` into `s`, in order.
pub open spec fn insert_all_model(s: Seq<ImageModel>, ms: Seq<ImageModel>) -> Seq<ImageModel>
    decreases ms.len(),
{
    if ms.len() == 0 {
        s
    } else {
        insert_model(insert_all_model(s, ms.drop_last()), ms.last())
    }
}

/// The images one host contributes: none when its query failed.
pub open spec fn host_models(h: Option<Vec<ContainerRecord>>) -> Seq<ImageModel> {
    match h {
        Option::Some(l) => listing_models(l@),
        Option::None => Seq::empty(),
    }
}

/// The full aggregation: hosts processed in order, failed hosts
/// contributing nothing, every listing merged with deduplication.
pub open spec fn agg_model(hosts: Seq<Option<Vec<ContainerRecord>>>) -> Seq<ImageModel>
    decreases hosts.len(),
{
    if hosts.len() == 0 {
        Seq::empty()
    } else {
        insert_all_model(agg_model(hosts.drop_last()), host_models(hosts.last()))
    }
}

/// A deduplicated collection of images, keyed by content digest,
/// created fresh for each run.
pub struct InventorySet {
    items: Vec<Image>,
}

impl View for InventorySet {
    type V = Seq<ImageModel>;

    closed spec fn view(&self) -> Seq<ImageModel> {
        image_models(self.items@)
    }
}

impl InventorySet {
    /// An empty inventory.
    pub fn new() -> (inv: InventorySet)
        ensures
            inv@ == Seq::<ImageModel>::empty(),
    {
        let inv = InventorySet { items: Vec::new() };
        proof {
            assert(inv@ =~= Seq::<ImageModel>::empty());
        }
        inv
    }

    /// How many distinct images the inventory holds.
    pub fn len(&self) -> (n: usize)
        ensures
            n == self@.len(),
    {
        self.items.len()
    }

    /// The images themselves, one per distinct digest.
    pub fn images(&self) -> (v: &Vec<Image>)
        ensures
            image_models(v@) == self@,
    {
        &self.items
    }

    /// Whether an image with the given normalized digest is present.
    pub fn contains_digest(&self, id: &str) -> (r: bool)
        ensures
            r == model_has_id(self@, id@),
    {
        let n = self.items.len();
        let mut k: usize = 0;
        while k < n
            invariant
                n == self.items@.len(),
                0 <= k <= n,
                forall|t: int| 0 <= t < k ==> self@[t].id != id@,
            decreases n - k,
        {
            if str_eq(self.items[k].id.as_str(), id) {
                proof {
                    assert(self@[k as int].id == id@);
                }
                return true;
            }
            k += 1;
        }
        false
    }

    /// Insert one image, keeping the first-seen image for a digest.
    pub fn insert(&mut self, img: Image)
        ensures
            final(self)@ == insert_model(old(self)@, img@),
    {
        if !self.contains_digest(img.id.as_str()) {
            let ghost pre = self.items@;
            self.items.push(img);
            proof {
                assert_seqs_equal!(image_models(pre.push(img)) ==
                    image_models(pre).push(img@));
            }
        }
    }

    /// Merge one host's whole container listing into the inventory.
    pub fn add_listing(&mut self, listing: &Vec<ContainerRecord>)
        requires
            forall|k: int| 0 <= k < listing@.len() ==> has_colon(
                #[trigger] listing@[k].digest@,
            ),
        ensures
            final(self)@ == insert_all_model(old(self)@, listing_models(listing@)),
    {
        let n = listing.len();
        let mut k: usize = 0;
        proof {
            assert(listing_models(listing@.subrange(0, 0)).len() == 0);
        }
        while k < n
            invariant
                n == listing@.len(),
                0 <= k <= n,
                forall|t: int| 0 <= t < n ==> has_colon(#[trigger] listing@[t].digest@),
                self@ == insert_all_model(
                    old(self)@,
                    listing_models(listing@.subrange(0, k as int)),
                ),
            decreases n - k,
        {
            let img = Image::new(listing[k].name.as_str(), listing[k].digest.as_str());
            self.insert(img);
            proof {
                let pre = listing@.subrange(0, k as int);
                let cur = listing@.subrange(0, k + 1);
                let ms = listing_models(cur);
                assert(ms.len() == k + 1);
                assert_seqs_equal!(ms.drop_last() == listing_models(pre), t => {
                    assert(cur[t] == listing@[t]);
                    assert(pre[t] == listing@[t]);
                });
                assert(ms.last() == record_model(listing@[k as int]));
                assert(insert_all_model(old(self)@, ms) == insert_model(
                    insert_all_model(old(self)@, listing_models(pre)),
                    record_model(listing@[k as int]),
                ));
                assert(img@ == record_model(listing@[k as int]));
            }
            k += 1;
        }
        proof {
            assert_seqs_equal!(listing@.subrange(0, n as int) == listing@);
        }
    }
}

/// Build the deduplicated inventory of every running container's image
/// across all hosts. A failed host contributes nothing and never aborts
/// the aggregation; the result never holds two images with one digest.
pub fn aggregate_hosts(hosts: &Vec<Option<Vec<ContainerRecord>>>) -> (inv: InventorySet)
    requires
        forall|h: int| 0 <= h < hosts@.len() ==> (#[trigger] hosts@[h] matches Option::Some(l)
            ==> forall|k: int| 0 <= k < l@.len() ==> has_colon(#[trigger] l@[k].digest@)),
    ensures
        inv@ == agg_model(hosts@),
        distinct_ids(inv@),
{
    let mut inv = InventorySet::new();
    let n = hosts.len();
    let mut h: usize = 0;
    proof {
        assert(agg_model(hosts@.subrange(0, 0)) =~= Seq::<ImageModel>::empty());
    }
    while h < n
        invariant
            n == hosts@.len(),
            0 <= h <= n,
            forall|t: int| 0 <= t < n ==> (#[trigger] hosts@[t] matches Option::Some(l)
                ==> forall|k: int| 0 <= k < l@.len() ==> has_colon(#[trigger] l@[k].digest@)),
            inv@ == agg_model(hosts@.subrange(0, h as int)),
        decreases n - h,
    {
        let ghost pre_inv = inv@;
        match &hosts[h] {
            Option::Some(listing) => {
                inv.add_listing(listing);
            },
            Option::None => {
                proof {
                    assert(host_models(hosts@[h as int]).len() == 0);
                    assert(insert_all_model(pre_inv, host_models(hosts@[h as int]))
                        == pre_inv);
                }
            },
        }
        proof {
            let prefix = hosts@.subrange(0, h as int);
            let cur = hosts@.subrange(0, h + 1);
            assert(cur.len() == h + 1);
            assert_seqs_equal!(cur.drop_last() == prefix);
            assert(cur.last() == hosts@[h as int]);
            assert(agg_model(cur) == insert_all_model(
                agg_model(prefix),
                host_models(hosts@[h as int]),
            ));
        }
        h += 1;
    }
    proof {
        assert_seqs_equal!(hosts@.subrange(0, n as int) == hosts@);
        lemma_agg_distinct(hosts@);
    }
    inv
}

/// How many hosts of a run failed to respond.
pub open spec fn failed_count(hosts: Seq<Option<Vec<ContainerRecord>>>) -> nat
    decreases hosts.len(),
{
    if hosts.len() == 0 {
        0nat
    } else {
        failed_count(hosts.drop_last()) + if hosts.last() is None {
            1nat
        } else {
            0nat
        }
    }
}

/// Count the hosts that failed to respond, so an empty inventory from a
/// total inventory failure can be told apart from a genuinely clean
/// one.
pub fn count_failed_hosts(hosts: &Vec<Option<Vec<ContainerRecord>>>) -> (n: usize)
    ensures
        n == failed_count(hosts@),
        n <= hosts@.len(),
{
    let len = hosts.len();
    let mut n: usize = 0;
    let mut h: usize = 0;
    while h < len
        invariant
            len == hosts@.len(),
            0 <= h <= len,
            n <= h,
            n == failed_count(hosts@.subrange(0, h as int)),
        decreases len - h,
    {
        if hosts[h].is_none() {
            n += 1;
        }
        proof {
            let prefix = hosts@.subrange(0, h as int);
            let cur = hosts@.subrange(0, h + 1);
            assert_seqs_equal!(cur.drop_last() == prefix);
            assert(cur.last() == hosts@[h as int]);
        }
        h += 1;
    }
    proof {
        assert_seqs_equal!(hosts@.subrange(0, len as int) == hosts@);
    }
    n
}

/// Merging a one-image listing is one deduplicating insertion.
pub proof fn lemma_insert_all_single(s: Seq<ImageModel>, m: ImageModel)
    ensures
        insert_all_model(s, seq![m]) == insert_model(s, m),
{
    assert(seq![m].last() == m);
    assert(seq![m].drop_last().len() == 0);
    assert(insert_all_model(s, seq![m].drop_last()) == s);
}

/// Deduplicating insertion keeps identities distinct and makes the
/// inserted identity present.
pub proof fn lemma_insert_distinct(s: Seq<ImageModel>, m: ImageModel)
    requires
        distinct_ids(s),
    ensures
        distinct_ids(insert_model(s, m)),
        model_has_id(insert_model(s, m), m.id),
{
    if model_has_id(s, m.id) {
    } else {
        let out = s.push(m);
        assert(out[out.len() - 1].id == m.id);
        assert forall|i: int, j: int| 0 <= i < j < out.len() implies out[i].id != out[j].id by {
            if j < out.len() - 1 {
                assert(out[i] == s[i] && out[j] == s[j]);
            } else {
                assert(out[i] == s[i]);
                if s[i].id == m.id {
                    assert(model_has_id(s, m.id));
                }
            }
        }
    }
}

/// Merging a whole listing keeps identities distinct.
pub proof fn lemma_insert_all_distinct(s: Seq<ImageModel>, ms: Seq<ImageModel>)
    requires
        distinct_ids(s),
    ensures
        distinct_ids(insert_all_model(s, ms)),
    decreases ms.len(),
{
    if ms.len() == 0 {
    } else {
        lemma_insert_all_distinct(s, ms.drop_last());
        lemma_insert_distinct(insert_all_model(s, ms.drop_last()), ms.last());
    }
}

/// The aggregated inventory never holds two images with one digest,
/// whatever the hosts reported.
pub proof fn lemma_agg_distinct(hosts: Seq<Option<Vec<ContainerRecord>>>)
    ensures
        distinct_ids(agg_model(hosts)),
    decreases hosts.len(),
{
    if hosts.len() == 0 {
    } else {
        lemma_agg_distinct(hosts.drop_last());
        lemma_insert_all_distinct(agg_model(hosts.drop_last()), host_models(hosts.last()));
    }
}

/// How many images in `s` carry the identity `id`.
pub open spec fn count_id(s: Seq<ImageModel>, id: Seq<char>) -> nat {
    s.filter(|m: ImageModel| m.id == id).len()
}

/// In a collection with distinct identities, an identity is held by
/// exactly one image when present and by none otherwise.
pub proof fn lemma_distinct_count(s: Seq<ImageModel>, id: Seq<char>)
    requires
        distinct_ids(s),
    ensures
        count_id(s, id) == if model_has_id(s, id) {
            1nat
        } else {
            0nat
        },
    decreases s.len(),
{
    reveal(Seq::filter);
    if s.len() == 0 {
        assert(!model_has_id(s, id));
    } else {
        let front = s.drop_last();
        assert(distinct_ids(front)) by {
            assert(forall|i: int| 0 <= i < front.len() ==> front[i] == s[i]);
        }
        lemma_distinct_count(front, id);
        assert(forall|i: int| 0 <= i < front.len() ==> front[i] == s[i]);
        if s.last().id == id {
            assert(!model_has_id(front, id)) by {
                if model_has_id(front, id) {
                    let k = choose|k: int| 0 <= k < front.len() && front[k].id == id;
                    assert(s[k].id == s[s.len() - 1].id);
                }
            }
            assert(model_has_id(s, id));
        } else {
            if model_has_id(s, id) {
                let k = choose|k: int| 0 <= k < s.len() && s[k].id == id;
                assert(k < front.len() && front[k] == s[k]);
                assert(model_has_id(front, id));
            } else {
                assert(!model_has_id(front, id)) by {
                    if model_has_id(front, id) {
                        let k = choose|k: int| 0 <= k < front.len() && front[k].id == id;
                        assert(s[k].id == id);
                    }
                }
            }
        }
    }
}

/// Two observed containers with equal digests leave exactly one image
/// for that digest in the inventory, whichever display names they
/// carry.
pub proof fn lemma_dedup_pair(s: Seq<ImageModel>, a: ImageModel, b: ImageModel)
    requires
        distinct_ids(s),
        a.id == b.id,
    ensures
        count_id(insert_model(insert_model(s, a), b), a.id) == 1,
{
    lemma_insert_distinct(s, a);
    let s1 = insert_model(s, a);
    assert(insert_model(s1, b) == s1);
    lemma_distinct_count(s1, a.id);
}

/// However many containers across however many hosts share one digest,
/// the aggregated inventory holds exactly one image with that digest.
pub proof fn lemma_agg_dedup(hosts: Seq<Option<Vec<ContainerRecord>>>, h: int, k: int)
    requires
        0 <= h < hosts.len(),
        hosts[h] matches Option::Some(l) && 0 <= k < l@.len(),
    ensures
        hosts[h] matches Option::Some(l) ==> count_id(
            agg_model(hosts),
            record_model(l@[k]).id,
        ) == 1,
{
    let l = hosts[h]->Some_0;
    lemma_host_isolation(hosts, h, k);
    lemma_agg_distinct(hosts);
    lemma_distinct_count(agg_model(hosts), record_model(l@[k]).id);
}

/// Present identities stay present across a deduplicating insertion.
pub proof fn lemma_insert_preserves_id(s: Seq<ImageModel>, m: ImageModel, id: Seq<char>)
    requires
        model_has_id(s, id),
    ensures
        model_has_id(insert_model(s, m), id),
{
    let k = choose|k: int| 0 <= k < s.len() && s[k].id == id;
    assert(insert_model(s, m)[k].id == id);
}

/// Present identities stay present across a whole merge.
pub proof fn lemma_insert_all_preserves_id(s: Seq<ImageModel>, ms: Seq<ImageModel>, id: Seq<char>)
    requires
        model_has_id(s, id),
    ensures
        model_has_id(insert_all_model(s, ms), id),
    decreases ms.len(),
{
    if ms.len() == 0 {
    } else {
        lemma_insert_all_preserves_id(s, ms.drop_last(), id);
        lemma_insert_preserves_id(insert_all_model(s, ms.drop_last()), ms.last(), id);
    }
}

/// After a merge, every identity of the merged listing is present.
pub proof fn lemma_insert_all_adds(s: Seq<ImageModel>, ms: Seq<ImageModel>, k: int)
    requires
        0 <= k < ms.len(),
    ensures
        model_has_id(insert_all_model(s, ms), ms[k].id),
    decreases ms.len(),
{
    if k == ms.len() - 1 {
        if model_has_id(insert_all_model(s, ms.drop_last()), ms.last().id) {
            lemma_insert_preserves_id(
                insert_all_model(s, ms.drop_last()),
                ms.last(),
                ms.last().id,
            );
        } else {
            let out = insert_all_model(s, ms.drop_last()).push(ms.last());
            assert(out[out.len() - 1].id == ms.last().id);
        }
    } else {
        assert(ms.drop_last()[k] == ms[k]);
        lemma_insert_all_adds(s, ms.drop_last(), k);
        lemma_insert_preserves_id(insert_all_model(s, ms.drop_last()), ms.last(), ms[k].id);
    }
}

/// Per-host failure is isolated: every image reported by a responding
/// host is present in the aggregated inventory, whatever happened on
/// the other hosts.
pub proof fn lemma_host_isolation(hosts: Seq<Option<Vec<ContainerRecord>>>, h: int, k: int)
    requires
        0 <= h < hosts.len(),
        hosts[h] matches Option::Some(l) && 0 <= k < l@.len(),
    ensures
        hosts[h] matches Option::Some(l) ==> model_has_id(
            agg_model(hosts),
            record_model(l@[k]).id,
        ),
    decreases hosts.len(),
{
    let l = hosts[h]->Some_0;
    if h == hosts.len() - 1 {
        assert(listing_models(l@)[k] == record_model(l@[k]));
        lemma_insert_all_adds(agg_model(hosts.drop_last()), listing_models(l@), k);
    } else {
        assert(hosts.drop_last()[h] == hosts[h]);
        lemma_host_isolation(hosts.drop_last(), h, k);
        lemma_insert_all_preserves_id(
            agg_model(hosts.drop_last()),
            host_models(hosts.last()),
            record_model(l@[k]).id,
        );
    }
}

} // verus!
