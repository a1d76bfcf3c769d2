use vstd::prelude::*;

use crate::batch::{Batch, BatchError, Label, SparseFeature};
use crate::bucketing::BucketingScheme;
use crate::input_features::InputFeatureSetType;
use crate::position::{Color, Position};

verus! {

/// Bytes per packed position record.
pub const RECORD_SIZE: u64 = 32;

/// Records with a larger absolute score are left out of training.
pub const MAX_CP: i32 = 3000;

/// How many batches the loader prepares from one read of the file.
pub const BUFFERED_BATCHES: usize = 64;

/// A decoded record: the position, its score in centipawns from White's
/// point of view, and the game's outcome for White (0 loss, 1 draw, 2 win).
pub struct Sample {
    pub position: Position,
    pub cp: i32,
    pub wdl: u8,
}

/// Whether a decoded record becomes a training entry.
pub open spec fn keeps(s: Sample) -> bool {
    -3000 <= s.cp <= 3000 && s.wdl <= 2
}

/// The score and the outcome, in halves, turned to the side to move.
pub open spec fn oriented(s: Sample) -> (int, int) {
    match s.position.side_to_move {
        Color::White => (s.cp as int, s.wdl as int),
        Color::Black => (-s.cp, 2 - s.wdl),
    }
}

/// The labels of the entry made from a kept record.
pub open spec fn label_of<B: BucketingScheme>(s: Sample) -> Label {
    Label {
        cp: oriented(s).0 as i32,
        wdl_halves: oriented(s).1 as u8,
        bucket: B::bucket_of(s.position) as i32,
    }
}

/// The records that become entries, in order; `None` stands for a record
/// that could not be decoded.
pub open spec fn kept(records: Seq<Option<Sample>>) -> Seq<Sample>
    decreases records.len(),
{
    if records.len() == 0 {
        Seq::empty()
    } else {
        let rest = kept(records.drop_last());
        match records.last() {
            Some(s) => if keeps(s) {
                rest.push(s)
            } else {
                rest
            },
            None => rest,
        }
    }
}

/// The features of `samples`, the first of which becomes entry `start`.
pub open spec fn encoded_all(kind: InputFeatureSetType, samples: Seq<Sample>, start: int) -> Seq<
    SparseFeature,
>
    decreases samples.len(),
{
    if samples.len() == 0 {
        Seq::empty()
    } else {
        encoded_all(kind, samples.drop_last(), start) + kind.encoded(
            samples.last().position,
            (start + samples.len() - 1) as usize,
        )
    }
}

proof fn lemma_kept_len(records: Seq<Option<Sample>>)
    ensures
        kept(records).len() <= records.len(),
    decreases records.len(),
{
    if records.len() > 0 {
        lemma_kept_len(records.drop_last());
    }
}

/// The number of whole records in a file of `file_len` bytes: the records
/// fill all of the file but a trailing partial record.
pub fn dataset_size(file_len: u64) -> (r: u64)
    ensures
        r == file_len / RECORD_SIZE,
        r * RECORD_SIZE <= file_len < r * RECORD_SIZE + RECORD_SIZE,
{
    file_len / RECORD_SIZE
}

/// The reoriented score and outcome of a record that is kept.
pub fn orient(sample: &Sample) -> (r: (i32, u8))
    requires
        keeps(*sample),
    ensures
        r.0 == oriented(*sample).0,
        r.1 == oriented(*sample).1,
{
    match sample.position.side_to_move {
        Color::White => (sample.cp, sample.wdl),
        Color::Black => (-sample.cp, 2 - sample.wdl),
    }
}

/// Appends one entry to `batch` for each kept record, in order, labelled from
/// the side to move's point of view and bucketed by `B`, with the features of
/// `kind`. Fails when a position's features exceed the batch's limit.
pub fn process<B: BucketingScheme>(
    batch: &mut Batch,
    records: &[Option<Sample>],
    kind: InputFeatureSetType,
) -> (r: Result<(), BatchError>)
    requires
        old(batch).wf(),
        old(batch).tensor_count_spec() == kind.tensors_spec(),
        old(batch).len_spec() + records@.len() <= old(batch).capacity_spec(),
    ensures
        final(batch).wf(),
        final(batch).same_config(old(batch)),
        (r is Ok <==> forall|i: int|
            0 <= i < kept(records@).len() ==> kind.fits(
                #[trigger] kept(records@)[i].position,
                old(batch).max_features_spec() as int,
            )),
        r is Ok ==> final(batch).labels_spec() == old(batch).labels_spec() + kept(records@).map_values(
            |s: Sample| label_of::<B>(s),
        ),
        r is Ok ==> final(batch).features_spec() == old(batch).features_spec() + encoded_all(
            kind,
            kept(records@),
            old(batch).len_spec(),
        ),
{
    let ghost start = old(batch).len_spec();
    let ghost max = old(batch).max_features_spec() as int;
    let mut i: usize = 0;
    assert(records@.subrange(0, 0) =~= Seq::<Option<Sample>>::empty());
    assert(batch.labels_spec() =~= old(batch).labels_spec() + kept(records@.subrange(0, 0)).map_values(
            |s: Sample| label_of::<B>(s)));
    assert(batch.features_spec() =~= old(batch).features_spec() + encoded_all(kind, kept(records@.subrange(0, 0)), start));
    while i < records.len()
        invariant
            i <= records@.len(),
            batch.wf(),
            batch.same_config(old(batch)),
            batch.tensor_count_spec() == kind.tensors_spec(),
            start == old(batch).len_spec(),
            max == batch.max_features_spec(),
            batch.len_spec() == start + kept(records@.subrange(0, i as int)).len(),
            start + records@.len() <= batch.capacity_spec(),
            batch.labels_spec() == old(batch).labels_spec() + kept(records@.subrange(0, i as int)).map_values(
                |s: Sample| label_of::<B>(s),
            ),
            batch.features_spec() == old(batch).features_spec() + encoded_all(
                kind,
                kept(records@.subrange(0, i as int)),
                start,
            ),
            forall|j: int|
                0 <= j < kept(records@.subrange(0, i as int)).len() ==> kind.fits(
                    #[trigger] kept(records@.subrange(0, i as int))[j].position,
                    max,
                ),
        decreases records@.len() - i,
    {
        let ghost prefix = records@.subrange(0, i as int);
        let ghost next = records@.subrange(0, i as int + 1);
        assert(next.drop_last() =~= prefix);
        proof {
            lemma_kept_len(prefix);
        }
        match &records[i] {
            Some(sample) => {
                if -MAX_CP <= sample.cp && sample.cp <= MAX_CP && sample.wdl <= 2 {
                    let (cp, wdl) = orient(sample);
                    let bucket = B::bucket(&sample.position);
                    batch.make_entry(cp, wdl, bucket);
                    let res = kind.add_features(&sample.position, batch);
                    assert(kept(next) == kept(prefix).push(*sample));
                    match res {
                        Ok(()) => {
                            assert(kept(next).map_values(|s: Sample| label_of::<B>(s)) =~= kept(
                                prefix,
                            ).map_values(|s: Sample| label_of::<B>(s)).push(label_of::<B>(*sample)));
                            assert(batch.labels_spec() =~= old(batch).labels_spec() + kept(
                                next,
                            ).map_values(|s: Sample| label_of::<B>(s)));
                            proof {
                                {
                                    assert(kept(next).drop_last() =~= kept(prefix));
                                    assert(encoded_all(kind, kept(next), start) == encoded_all(kind, kept(prefix), start)
                                        + kind.encoded(sample.position, (start + kept(next).len() - 1) as usize));
                                    assert(batch.features_spec() =~= old(batch).features_spec()
                                        + encoded_all(kind, kept(next), start));
                                }
                            }
                        },
                        Err(err) => {
                            assert(kept(next)[kept(prefix).len() as int] == *sample);
                            proof {
                                lemma_kept_prefix(records@, i as int + 1);
                            }
                            return Err(err);
                        },
                    }
                } else {
                    assert(kept(next) == kept(prefix));
                }
            },
            None => {
                assert(kept(next) == kept(prefix));
            },
        }
        i = i + 1;
    }
    assert(records@.subrange(0, i as int) =~= records@);
    Ok(())
}

/// What is kept of a prefix of the records comes first in what is kept of them all.
proof fn lemma_kept_prefix(records: Seq<Option<Sample>>, n: int)
    requires
        0 <= n <= records.len(),
    ensures
        kept(records.subrange(0, n)).len() <= kept(records).len(),
        forall|j: int|
            0 <= j < kept(records.subrange(0, n)).len() ==> #[trigger] kept(records.subrange(0, n))[j]
                == kept(records)[j],
    decreases records.len() - n,
{
    if n < records.len() {
        lemma_kept_prefix(records, n + 1);
        let shorter = records.subrange(0, n);
        let longer = records.subrange(0, n + 1);
        assert(longer.drop_last() =~= shorter);
        assert forall|j: int| 0 <= j < kept(shorter).len() implies #[trigger] kept(shorter)[j]
            == kept(longer)[j] by {}
        assert forall|j: int| 0 <= j < kept(shorter).len() implies #[trigger] kept(shorter)[j]
            == kept(records)[j] by {
            assert(kept(longer)[j] == kept(records)[j]);
        }
    } else {
        assert(records.subrange(0, n) =~= records);
    }
}

/// The first batch at or after `from` that holds an entry, if any.
pub fn next_nonempty(batches: &Vec<Batch>, from: usize) -> (r: Option<usize>)
    ensures
        match r {
            Some(i) => from <= i < batches@.len() && batches@[i as int].len_spec() > 0 && forall|
                j: int,
            | from <= j < i ==> #[trigger] batches@[j].len_spec() == 0,
            None => forall|j: int| from <= j < batches@.len() ==> #[trigger] batches@[j].len_spec() == 0,
        },
{
    let mut i = from;
    while i < batches.len()
        invariant
            from <= i,
            forall|j: int| from <= j < i ==> #[trigger] batches@[j].len_spec() == 0,
        decreases batches@.len() - i,
    {
        if batches[i].len() > 0 {
            return Some(i);
        }
        i = i + 1;
    }
    None
}

/// Kept records of consecutive slices, concatenated, are the kept records of
/// the whole: batches filled slice by slice keep the records' order.
pub proof fn lemma_kept_concat(a: Seq<Option<Sample>>, b: Seq<Option<Sample>>)
    ensures
        kept(a + b) == kept(a) + kept(b),
    decreases b.len(),
{
    if b.len() == 0 {
        assert(a + b =~= a);
        assert(kept(b) =~= Seq::<Sample>::empty());
        assert(kept(a) + kept(b) =~= kept(a));
    } else {
        lemma_kept_concat(a, b.drop_last());
        assert((a + b).drop_last() =~= a + b.drop_last());
        assert((a + b).last() == b.last());
        match b.last() {
            Some(s) => {
                if keeps(s) {
                    assert(kept(a) + kept(b) =~= (kept(a) + kept(b.drop_last())).push(s));
                } else {
                    assert(kept(a) + kept(b) =~= kept(a) + kept(b.drop_last()));
                }
            },
            None => {
                assert(kept(a) + kept(b) =~= kept(a) + kept(b.drop_last()));
            },
        }
    }
}

/// A record whose score exceeds 3000 centipawns in size yields no entry:
/// what is kept is the same as without it.
pub proof fn lemma_outlier_dropped(before: Seq<Option<Sample>>, s: Sample, after: Seq<Option<Sample>>)
    requires
        s.cp < -3000 || s.cp > 3000,
    ensures
        kept(before + seq![Some(s)] + after) == kept(before + after),
{
    lemma_kept_concat(before + seq![Some(s)], after);
    lemma_kept_concat(before, seq![Some(s)]);
    lemma_kept_concat(before, after);
    let single = seq![Some(s)];
    assert(single.drop_last() =~= Seq::<Option<Sample>>::empty());
    assert(single.last() == Some(s));
    assert(kept(Seq::<Option<Sample>>::empty()) =~= Seq::<Sample>::empty());
    assert(!keeps(s));
    assert(kept(single) =~= Seq::<Sample>::empty());
    assert(kept(before) + kept(seq![Some(s)]) =~= kept(before));
}

/// Filling a cleared batch is deterministic: two batches of one layout,
/// cleared and filled from the same records with the same encoder, hold the
/// same labels and features.
pub proof fn lemma_refill_reproduces<B: BucketingScheme>(
    cleared1: Batch,
    filled1: Batch,
    cleared2: Batch,
    filled2: Batch,
    records: Seq<Option<Sample>>,
    kind: InputFeatureSetType,
)
    requires
        cleared1.same_config(&cleared2),
        cleared1.labels_spec().len() == 0,
        cleared2.labels_spec().len() == 0,
        cleared1.features_spec().len() == 0,
        cleared2.features_spec().len() == 0,
        filled1.labels_spec() == cleared1.labels_spec() + kept(records).map_values(
            |s: Sample| label_of::<B>(s),
        ),
        filled2.labels_spec() == cleared2.labels_spec() + kept(records).map_values(
            |s: Sample| label_of::<B>(s),
        ),
        filled1.features_spec() == cleared1.features_spec() + encoded_all(
            kind,
            kept(records),
            cleared1.len_spec(),
        ),
        filled2.features_spec() == cleared2.features_spec() + encoded_all(
            kind,
            kept(records),
            cleared2.len_spec(),
        ),
    ensures
        filled1.labels_spec() == filled2.labels_spec(),
        filled1.features_spec() == filled2.features_spec(),
{
    assert(cleared1.labels_spec() =~= cleared2.labels_spec());
    assert(cleared1.features_spec() =~= cleared2.features_spec());
}

/// A kept record's labels are its own when White is to move; when Black is,
/// the score is negated and the outcome complemented (in halves, `2 - wdl`).
pub proof fn lemma_reorientation<B: BucketingScheme>(s: Sample)
    requires
        keeps(s),
    ensures
        s.position.side_to_move == Color::White ==> label_of::<B>(s).cp == s.cp
            && label_of::<B>(s).wdl_halves == s.wdl,
        s.position.side_to_move == Color::Black ==> label_of::<B>(s).cp == -s.cp
            && label_of::<B>(s).wdl_halves == 2 - s.wdl,
{
}

} // verus!
