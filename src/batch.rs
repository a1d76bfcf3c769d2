use vstd::prelude::*;

verus! {

/// Feature weights are exact multiples of `1 / WEIGHT_DENOMINATOR`.
pub const WEIGHT_DENOMINATOR: i32 = 24;

/// The labels of one training entry.
#[derive(Clone, Copy, PartialEq, Eq, Debug, Structural)]
pub struct Label {
    /// Centipawn score from the side to move's point of view.
    pub cp: i32,
    /// Win probability of the side to move, in halves: 0, 1 or 2.
    pub wdl_halves: u8,
    pub bucket: i32,
}

/// One sparse contribution: `weight / WEIGHT_DENOMINATOR` at `index` of
/// tensor `tensor`, for entry `entry` of the batch.
#[derive(Clone, Copy, PartialEq, Eq, Debug, Structural)]
pub struct SparseFeature {
    pub tensor: usize,
    pub entry: usize,
    pub index: i64,
    pub weight: i32,
}

/// A feature limit was reached while an entry was filled.
#[derive(Clone, Copy, PartialEq, Eq, Debug, Structural)]
pub enum BatchError {
    FeatureCapacity,
}

/// A reusable container of up to `capacity` labelled entries with their
/// sparse features.
pub struct Batch {
    capacity: usize,
    max_features: usize,
    indices_per_feature: usize,
    tensor_count: usize,
    labels: Vec<Label>,
    features: Vec<SparseFeature>,
    /// Features of the newest entry, per tensor.
    counts: Vec<usize>,
}

/// `n` zeros.
pub open spec fn zeros(n: int) -> Seq<usize> {
    Seq::new(n as nat, |i: int| 0usize)
}

impl Batch {
    pub closed spec fn capacity_spec(&self) -> usize {
        self.capacity
    }

    pub closed spec fn max_features_spec(&self) -> usize {
        self.max_features
    }

    pub closed spec fn indices_per_feature_spec(&self) -> usize {
        self.indices_per_feature
    }

    pub closed spec fn tensor_count_spec(&self) -> usize {
        self.tensor_count
    }

    /// The entries' labels, in the order they were made.
    pub closed spec fn labels_spec(&self) -> Seq<Label> {
        self.labels@
    }

    /// All features, in the order they were added.
    pub closed spec fn features_spec(&self) -> Seq<SparseFeature> {
        self.features@
    }

    /// Features of the newest entry, per tensor.
    pub closed spec fn counts_spec(&self) -> Seq<usize> {
        self.counts@
    }

    pub open spec fn len_spec(&self) -> int {
        self.labels_spec().len() as int
    }

    pub open spec fn same_config(&self, other: &Batch) -> bool {
        &&& self.capacity_spec() == other.capacity_spec()
        &&& self.max_features_spec() == other.max_features_spec()
        &&& self.indices_per_feature_spec() == other.indices_per_feature_spec()
        &&& self.tensor_count_spec() == other.tensor_count_spec()
    }

    /// Entries within capacity, one count per tensor within the feature limit,
    /// and every feature tied to an existing entry and tensor.
    pub open spec fn wf(&self) -> bool {
        &&& self.len_spec() <= self.capacity_spec()
        &&& self.counts_spec().len() == self.tensor_count_spec()
        &&& forall|t: int|
            0 <= t < self.tensor_count_spec() ==> #[trigger] self.counts_spec()[t]
                <= self.max_features_spec()
        &&& forall|i: int|
            0 <= i < self.features_spec().len() ==> {
                &&& (#[trigger] self.features_spec()[i]).tensor < self.tensor_count_spec()
                &&& self.features_spec()[i].entry < self.len_spec()
            }
    }

    /// An empty batch of the given layout.
    pub fn new(
        capacity: usize,
        max_features: usize,
        indices_per_feature: usize,
        tensor_count: usize,
    ) -> (r: Batch)
        ensures
            r.wf(),
            r.capacity_spec() == capacity,
            r.max_features_spec() == max_features,
            r.indices_per_feature_spec() == indices_per_feature,
            r.tensor_count_spec() == tensor_count,
            r.labels_spec() == Seq::<Label>::empty(),
            r.features_spec() == Seq::<SparseFeature>::empty(),
            r.counts_spec() == zeros(tensor_count as int),
    {
        let mut counts: Vec<usize> = Vec::new();
        let mut t: usize = 0;
        while t < tensor_count
            invariant
                t <= tensor_count,
                counts@ == zeros(t as int),
            decreases tensor_count - t,
        {
            counts.push(0);
            t = t + 1;
            assert(counts@ =~= zeros(t as int));
        }
        Batch {
            capacity,
            max_features,
            indices_per_feature,
            tensor_count,
            labels: Vec::new(),
            features: Vec::new(),
            counts,
        }
    }

    fn reset_counts(&mut self)
        requires
            old(self).counts@.len() == old(self).tensor_count,
        ensures
            final(self).counts@ == zeros(old(self).tensor_count as int),
            final(self).labels == old(self).labels,
            final(self).features == old(self).features,
            final(self).capacity == old(self).capacity,
            final(self).max_features == old(self).max_features,
            final(self).indices_per_feature == old(self).indices_per_feature,
            final(self).tensor_count == old(self).tensor_count,
    {
        let n = self.counts.len();
        let mut t: usize = 0;
        while t < n
            invariant
                t <= n,
                n == self.tensor_count,
                self.counts@.len() == n,
                forall|j: int| 0 <= j < t ==> self.counts@[j] == 0,
                self.labels == old(self).labels,
                self.features == old(self).features,
                self.capacity == old(self).capacity,
                self.max_features == old(self).max_features,
                self.indices_per_feature == old(self).indices_per_feature,
                self.tensor_count == old(self).tensor_count,
            decreases n - t,
        {
            self.counts.set(t, 0);
            t = t + 1;
        }
        assert(self.counts@ =~= zeros(n as int));
    }

    /// Empties the batch and keeps its storage, so that it can be filled again.
    pub fn clear(&mut self)
        requires
            old(self).wf(),
        ensures
            final(self).wf(),
            final(self).same_config(old(self)),
            final(self).labels_spec() == Seq::<Label>::empty(),
            final(self).features_spec() == Seq::<SparseFeature>::empty(),
            final(self).counts_spec() == zeros(old(self).tensor_count_spec() as int),
    {
        self.labels.clear();
        self.features.clear();
        self.reset_counts();
    }

    /// Appends an entry with the given labels; the features added next belong to it.
    pub fn make_entry(&mut self, cp: i32, wdl_halves: u8, bucket: i32)
        requires
            old(self).wf(),
            old(self).len_spec() < old(self).capacity_spec(),
        ensures
            final(self).wf(),
            final(self).same_config(old(self)),
            final(self).labels_spec() == old(self).labels_spec().push(
                (Label { cp, wdl_halves, bucket }),
            ),
            final(self).features_spec() == old(self).features_spec(),
            final(self).counts_spec() == zeros(old(self).tensor_count_spec() as int),
    {
        self.labels.push(Label { cp, wdl_halves, bucket });
        self.reset_counts();
        assert forall|i: int| 0 <= i < self.features_spec().len() implies (
        #[trigger] self.features_spec()[i]).entry < self.len_spec()
            && self.features_spec()[i].tensor < self.tensor_count_spec() by {
            assert(self.features_spec()[i] == old(self).features_spec()[i]);
        }
        assert forall|t: int| 0 <= t < self.tensor_count_spec() implies #[trigger] self.counts_spec()[t]
            <= self.max_features_spec() by {
            assert(self.counts_spec()[t] == zeros(self.tensor_count_spec() as int)[t]);
        }
    }

    /// Adds a feature to tensor `tensor` of the newest entry, unless that
    /// entry already holds `max_features` features in that tensor.
    pub fn add_feature(&mut self, tensor: usize, index: i64, weight: i32) -> (r: Result<
        (),
        BatchError,
    >)
        requires
            old(self).wf(),
            old(self).len_spec() > 0,
            tensor < old(self).tensor_count_spec(),
        ensures
            final(self).wf(),
            final(self).same_config(old(self)),
            final(self).labels_spec() == old(self).labels_spec(),
            old(self).counts_spec()[tensor as int] < old(self).max_features_spec() ==> {
                &&& r is Ok
                &&& final(self).features_spec() == old(self).features_spec().push(
                    (SparseFeature { tensor, entry: (old(self).len_spec() - 1) as usize, index, weight }),
                )
                &&& final(self).counts_spec() == old(self).counts_spec().update(
                    tensor as int,
                    (old(self).counts_spec()[tensor as int] + 1) as usize,
                )
            },
            old(self).counts_spec()[tensor as int] >= old(self).max_features_spec() ==> {
                &&& r == Err::<(), BatchError>(BatchError::FeatureCapacity)
                &&& final(self).features_spec() == old(self).features_spec()
                &&& final(self).counts_spec() == old(self).counts_spec()
            },
    {
        let c = self.counts[tensor];
        if c >= self.max_features {
            return Err(BatchError::FeatureCapacity);
        }
        let entry = self.labels.len() - 1;
        self.features.push(SparseFeature { tensor, entry, index, weight });
        self.counts.set(tensor, c + 1);
        assert forall|i: int| 0 <= i < self.features_spec().len() implies (
        #[trigger] self.features_spec()[i]).tensor < self.tensor_count_spec()
            && self.features_spec()[i].entry < self.len_spec() by {
            if i < old(self).features_spec().len() {
                assert(self.features_spec()[i] == old(self).features_spec()[i]);
            }
        }
        Ok(())
    }

    pub fn capacity(&self) -> (r: usize)
        ensures
            r == self.capacity_spec(),
    {
        self.capacity
    }

    pub fn len(&self) -> (r: usize)
        ensures
            r == self.len_spec(),
    {
        self.labels.len()
    }

    pub fn max_features(&self) -> (r: usize)
        ensures
            r == self.max_features_spec(),
    {
        self.max_features
    }

    pub fn indices_per_feature(&self) -> (r: usize)
        ensures
            r == self.indices_per_feature_spec(),
    {
        self.indices_per_feature
    }

    pub fn tensor_count(&self) -> (r: usize)
        ensures
            r == self.tensor_count_spec(),
    {
        self.tensor_count
    }

    /// The entries' labels, in order.
    pub fn labels(&self) -> (r: &Vec<Label>)
        ensures
            r@ == self.labels_spec(),
    {
        &self.labels
    }

    /// All features, in the order they were added.
    pub fn features(&self) -> (r: &Vec<SparseFeature>)
        ensures
            r@ == self.features_spec(),
    {
        &self.features
    }
}

} // verus!
