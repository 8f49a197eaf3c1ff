//! Cutting an ordered list of records into the batches that the service
//! accepts in one request.

use vstd::prelude::*;

verus! {

/// The most records that one request may carry.
pub const BATCH_SIZE: usize = 50;

/// How many batches `n` records make.
pub open spec fn batch_count(n: nat) -> nat {
    ((n + BATCH_SIZE - 1) / (BATCH_SIZE as int)) as nat
}

/// Where batch `i` ends in a list of `n` records.
pub open spec fn batch_end(n: nat, i: int) -> int {
    if (i + 1) * BATCH_SIZE <= n {
        (i + 1) * BATCH_SIZE
    } else {
        n as int
    }
}

/// Batch `i` of `records`: the records from position `i * BATCH_SIZE` on, up
/// to `BATCH_SIZE` of them.
pub open spec fn batch_of<T>(records: Seq<T>, i: int) -> Seq<T> {
    records.subrange(i * BATCH_SIZE, batch_end(records.len(), i))
}

/// The batches of `records`, in order.
pub open spec fn batches<T>(records: Seq<T>) -> Seq<Seq<T>> {
    Seq::new(batch_count(records.len()), |i: int| batch_of(records, i))
}

/// The contents of each of `parts`.
pub open spec fn contents<T>(parts: Seq<Vec<T>>) -> Seq<Seq<T>> {
    Seq::new(parts.len(), |i: int| parts[i]@)
}

/// The first `k` batches, laid end to end, are the records up to the end of
/// batch `k - 1`.
proof fn lemma_leading_batches<T>(records: Seq<T>, k: int)
    requires
        0 <= k <= batch_count(records.len()),
    ensures
        batches(records).subrange(0, k).flatten() == records.subrange(
            0,
            if k == 0 {
                0
            } else {
                batch_end(records.len(), k - 1)
            },
        ),
    decreases k,
{
    let all = batches(records);
    if k == 0 {
        assert(all.subrange(0, 0) =~= Seq::<Seq<T>>::empty());
        assert(all.subrange(0, 0).flatten() =~= records.subrange(0, 0));
    } else {
        lemma_leading_batches(records, k - 1);
        let before = all.subrange(0, k - 1);
        assert(all.subrange(0, k) =~= before.push(all[k - 1]));
        before.lemma_flatten_push(all[k - 1]);
        assert(before.flatten() + all[k - 1] =~= records.subrange(
            0,
            batch_end(records.len(), k - 1),
        ));
    }
}

/// The batches of a list partition it: every batch but the last holds
/// exactly `BATCH_SIZE` records, the last holds what is left over (a full
/// `BATCH_SIZE` where nothing is), and the batches laid end to end in order
/// are the list itself.
pub proof fn lemma_batches_partition<T>(records: Seq<T>)
    ensures
        batches(records).len() == batch_count(records.len()),
        batches(records).len() * BATCH_SIZE >= records.len(),
        records.len() > 0 ==> (batches(records).len() - 1) * BATCH_SIZE < records.len(),
        forall|i: int|
            0 <= i < batches(records).len() - 1 ==> (#[trigger] batches(records)[i]).len()
                == BATCH_SIZE,
        records.len() > 0 ==> batches(records).last().len() == (if records.len() % (
        BATCH_SIZE as nat) == 0 {
            BATCH_SIZE as nat
        } else {
            records.len() % (BATCH_SIZE as nat)
        }),
        forall|i: int|
            0 <= i < batches(records).len() ==> 0 < (#[trigger] batches(records)[i]).len()
                <= BATCH_SIZE,
        batches(records).flatten() == records,
{
    let all = batches(records);
    let count = batch_count(records.len());
    lemma_leading_batches(records, count as int);
    assert(all.subrange(0, count as int) =~= all);
    if count > 0 {
        assert(batch_end(records.len(), count - 1) == records.len());
    }
    assert(records.subrange(0, records.len() as int) =~= records);
}

/// Cuts `data` into its batches.
pub fn split_batches<T>(data: Vec<T>) -> (parts: Vec<Vec<T>>)
    ensures
        contents(parts@) == batches(data@),
{
    let ghost all = data@;
    let ghost mut taken: nat = 0;
    let mut rest = data;
    let mut parts: Vec<Vec<T>> = Vec::new();
    while rest.len() > 0
        invariant
            taken <= all.len(),
            rest@ == all.subrange(taken as int, all.len() as int),
            parts@.len() == batch_count(taken),
            taken == all.len() || taken == parts@.len() * BATCH_SIZE,
            forall|j: int| 0 <= j < parts@.len() ==> (#[trigger] parts@[j])@ == batch_of(all, j),
        decreases rest.len(),
    {
        let ghost k = parts@.len() as int;
        if rest.len() >= BATCH_SIZE {
            let tail = rest.split_off(BATCH_SIZE);
            assert(rest@ =~= batch_of(all, k));
            assert(tail@ =~= all.subrange(taken + BATCH_SIZE, all.len() as int));
            parts.push(rest);
            rest = tail;
            proof {
                taken = taken + BATCH_SIZE as nat;
            }
        } else {
            assert(rest@ =~= batch_of(all, k));
            parts.push(rest);
            rest = Vec::new();
            proof {
                taken = all.len();
            }
            assert(rest@ =~= all.subrange(taken as int, all.len() as int));
        }
    }
    assert(contents(parts@) =~= batches(all));
    parts
}

} // verus!
