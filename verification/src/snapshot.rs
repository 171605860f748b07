//! The data segments of a compiled module, captured once and written back into the linear memory
//! before every call.

use vstd::prelude::*;
use crate::error::WasmError;
use crate::util::{in_bounds, write_memory_from, written};

verus! {

/// The memory `memory` after each of `segments` was written to its offset, in order. A later
/// segment overwrites an earlier one where they overlap.
pub open spec fn restored(segments: Seq<(u32, Seq<u8>)>, memory: Seq<u8>) -> Seq<u8>
    decreases segments.len(),
{
    if segments.len() == 0 {
        memory
    } else {
        let last = segments.last();
        written(restored(segments.drop_last(), memory), last.0, last.1)
    }
}

/// Whether every one of `segments` lies inside a memory of `size` bytes.
pub open spec fn segments_fit(segments: Seq<(u32, Seq<u8>)>, size: nat) -> bool {
    forall|i: int|
        0 <= i < segments.len() ==> in_bounds(size, (#[trigger] segments[i]).0, segments[i].1.len())
}

/// The number of leading segments that lie inside a memory of `size` bytes: all that come before
/// the first that does not.
pub open spec fn fitting_prefix(segments: Seq<(u32, Seq<u8>)>, size: nat) -> nat
    decreases segments.len(),
{
    if segments.len() == 0 {
        0
    } else {
        let before = fitting_prefix(segments.drop_last(), size);
        let last = segments.last();
        if before == segments.len() - 1 && in_bounds(size, last.0, last.1.len()) {
            segments.len()
        } else {
            before
        }
    }
}

/// `fitting_prefix` counts no more segments than there are, every segment that it counts fits,
/// and the one after them, if there is one, does not.
pub proof fn lemma_fitting_prefix(segments: Seq<(u32, Seq<u8>)>, size: nat)
    ensures
        fitting_prefix(segments, size) <= segments.len(),
        segments_fit(segments.take(fitting_prefix(segments, size) as int), size),
        fitting_prefix(segments, size) < segments.len() ==> !in_bounds(
            size,
            segments[fitting_prefix(segments, size) as int].0,
            segments[fitting_prefix(segments, size) as int].1.len(),
        ),
        fitting_prefix(segments, size) == segments.len() <==> segments_fit(segments, size),
    decreases segments.len(),
{
    if segments.len() > 0 {
        let front = segments.drop_last();
        lemma_fitting_prefix(front, size);
        let before = fitting_prefix(front, size);
        let count = fitting_prefix(segments, size);
        assert(segments.take(before as int) =~= front.take(before as int));
        if before < front.len() {
            assert(segments[before as int] == front[before as int]);
        }
        if count == segments.len() {
            assert(front.take(before as int) =~= front);
            assert(segments.take(count as int) =~= segments);
            assert forall|i: int| 0 <= i < segments.len() implies in_bounds(
                size,
                (#[trigger] segments[i]).0,
                segments[i].1.len(),
            ) by {
                if i < front.len() {
                    assert(segments[i] == front[i]);
                }
            }
        } else {
            if segments_fit(segments, size) {
                assert forall|i: int| 0 <= i < front.len() implies in_bounds(
                    size,
                    (#[trigger] front[i]).0,
                    front[i].1.len(),
                ) by {
                    assert(front[i] == segments[i]);
                }
                assert(segments.last() == segments[segments.len() - 1]);
            }
        }
    } else {
        assert(segments.take(0) =~= segments);
    }
}

/// Whether the address `at` lies in the range of one of `segments`.
pub open spec fn covered(segments: Seq<(u32, Seq<u8>)>, at: int) -> bool {
    exists|i: int|
        0 <= i < segments.len() && (#[trigger] segments[i]).0 <= at < segments[i].0
            + segments[i].1.len()
}

/// Whether two memories have the same length and hold the same byte wherever no segment is
/// written.
pub open spec fn agree_outside(
    segments: Seq<(u32, Seq<u8>)>,
    first: Seq<u8>,
    second: Seq<u8>,
) -> bool {
    &&& first.len() == second.len()
    &&& forall|at: int|
        0 <= at < first.len() && !covered(segments, at) ==> first[at] == second[at]
}

/// Writing the segments back keeps the length of the memory and every byte that no segment
/// covers. What it leaves at a covered address does not depend on what the memory held before:
/// whatever an earlier call wrote there is gone.
pub proof fn lemma_restored_is_pristine(
    segments: Seq<(u32, Seq<u8>)>,
    first: Seq<u8>,
    second: Seq<u8>,
)
    requires
        first.len() == second.len(),
    ensures
        restored(segments, first).len() == first.len(),
        forall|at: int|
            0 <= at < first.len() && !covered(segments, at) ==> restored(segments, first)[at]
                == first[at],
        forall|at: int|
            0 <= at < first.len() && covered(segments, at) ==> restored(segments, first)[at]
                == restored(segments, second)[at],
    decreases segments.len(),
{
    if segments.len() > 0 {
        let front = segments.drop_last();
        let last = segments.last();
        lemma_restored_is_pristine(front, first, second);
        lemma_restored_is_pristine(front, second, first);
        assert forall|at: int| 0 <= at < first.len() && !covered(segments, at) implies restored(
            segments,
            first,
        )[at] == first[at] by {
            assert(segments[segments.len() - 1] == last);
            if covered(front, at) {
                let i = choose|i: int|
                    0 <= i < front.len() && (#[trigger] front[i]).0 <= at < front[i].0
                        + front[i].1.len();
                assert(segments[i] == front[i]);
            }
        }
        assert forall|at: int| 0 <= at < first.len() && covered(segments, at) implies restored(
            segments,
            first,
        )[at] == restored(segments, second)[at] by {
            if !(last.0 <= at < last.0 + last.1.len()) {
                let i = choose|i: int|
                    0 <= i < segments.len() && (#[trigger] segments[i]).0 <= at < segments[i].0
                        + segments[i].1.len();
                assert(segments[segments.len() - 1] == last);
                assert(i < front.len());
                assert(front[i] == segments[i]);
                assert(covered(front, at));
            }
        }
    }
}

/// Two memories that differ only where segments are written are the same memory once the
/// segments are written back.
pub proof fn lemma_restored_forgets(segments: Seq<(u32, Seq<u8>)>, first: Seq<u8>, second: Seq<u8>)
    requires
        agree_outside(segments, first, second),
    ensures
        restored(segments, first) == restored(segments, second),
{
    lemma_restored_is_pristine(segments, first, second);
    lemma_restored_is_pristine(segments, second, first);
    assert forall|at: int| 0 <= at < first.len() implies restored(segments, first)[at]
        == restored(segments, second)[at] by {
        if !covered(segments, at) {
            assert(restored(segments, first)[at] == first[at]);
            assert(restored(segments, second)[at] == second[at]);
        }
    }
    assert(restored(segments, first) =~= restored(segments, second));
}

/// The last segment stands in the memory byte for byte once the segments are written back.
pub proof fn lemma_restored_holds_last(segments: Seq<(u32, Seq<u8>)>, memory: Seq<u8>)
    requires
        segments.len() > 0,
        in_bounds(memory.len(), segments.last().0, segments.last().1.len()),
    ensures
        restored(segments, memory).subrange(
            segments.last().0 as int,
            segments.last().0 + segments.last().1.len(),
        ) == segments.last().1,
{
    lemma_restored_is_pristine(segments.drop_last(), memory, memory);
    assert(restored(segments, memory).subrange(
        segments.last().0 as int,
        segments.last().0 + segments.last().1.len(),
    ) =~= segments.last().1);
}

/// `sc_executor_common::runtime_blob::DataSegmentsSnapshot`: the data segments of a module, each
/// with the offset in the linear memory at which it belongs. Its list is private to the crate.
#[verifier::external_type_specification]
#[verifier::external_body]
pub struct ExDataSegmentsSnapshot(sc_executor_common::runtime_blob::DataSegmentsSnapshot);

/// The list that a snapshot holds: offset and contents of every segment, in the order in which
/// the module declares them.
pub uninterp spec fn segments_of(
    snapshot: sc_executor_common::runtime_blob::DataSegmentsSnapshot,
) -> Seq<(u32, Seq<u8>)>;

/// The segments of `list` as offsets and byte sequences.
pub open spec fn segments_view(list: Seq<(u32, Vec<u8>)>) -> Seq<(u32, Seq<u8>)> {
    Seq::new(list.len(), |i: int| (list[i].0, list[i].1@))
}

/// Adds one segment to the end of `list`.
fn record(list: &mut Vec<(u32, Vec<u8>)>, offset: u32, contents: &[u8]) -> (res: Result<
    (),
    WasmError,
>)
    ensures
        res is Ok,
        segments_view(final(list)@) == segments_view(old(list)@).push((offset, contents@)),
{
    list.push((offset, vstd::slice::slice_to_vec(contents)));
    assert(segments_view(list@) =~= segments_view(old(list)@).push((offset, contents@)));
    Ok(())
}

/// `DataSegmentsSnapshot::apply`, which is the crate's one way to the list of a snapshot: it
/// hands offset and contents of every segment to the setter that it is given, in the order of
/// the list, for as long as the setter accepts them. `record` accepts them all, so the segments
/// come out as the snapshot holds them.
#[verifier::external_body]
fn list_segments(snapshot: &sc_executor_common::runtime_blob::DataSegmentsSnapshot) -> (res: Vec<
    (u32, Vec<u8>),
>)
    ensures
        segments_view(res@) == segments_of(*snapshot),
{
    let mut list = Vec::new();
    let _ = snapshot.apply(|offset, contents| record(&mut list, offset, contents));
    list
}

/// The data segments of a compiled module: each with the offset in the linear memory at which
/// it belongs, in the order in which the module declares them.
#[derive(Debug, PartialEq, Eq)]
pub struct DataSegments {
    list: Vec<(u32, Vec<u8>)>,
}

impl View for DataSegments {
    type V = Seq<(u32, Seq<u8>)>;

    closed spec fn view(&self) -> Seq<(u32, Seq<u8>)> {
        segments_view(self.list@)
    }
}

impl DataSegments {
    /// Keeps the segments as they are given.
    pub fn new(list: Vec<(u32, Vec<u8>)>) -> (res: Self)
        ensures
            res@ == segments_view(list@),
    {
        DataSegments { list }
    }

    /// The segments that a snapshot of `sc_executor_common` holds.
    pub fn from_snapshot(snapshot: &sc_executor_common::runtime_blob::DataSegmentsSnapshot) -> (res:
        Self)
        ensures
            res@ == segments_of(*snapshot),
    {
        DataSegments { list: list_segments(snapshot) }
    }

    /// Writes every segment to its offset, in order. The first segment that does not lie inside
    /// the memory ends the writing with an error; those before it stay written.
    pub fn apply(&self, memory: &mut [u8]) -> (res: Result<(), WasmError>)
        ensures
            final(memory)@.len() == old(memory)@.len(),
            final(memory)@ == restored(
                self@.take(fitting_prefix(self@, old(memory)@.len()) as int),
                old(memory)@,
            ),
            segments_fit(self@, old(memory)@.len()) ==> res is Ok,
            !segments_fit(self@, old(memory)@.len()) ==> res == Err::<(), WasmError>(
                WasmError::InvalidMemory,
            ),
    {
        let ghost size = old(memory)@.len();
        let ghost segments = self@;
        let mut i: usize = 0;
        proof {
            assert(segments.take(0).len() == 0);
            lemma_fitting_prefix(segments, size);
        }
        while i < self.list.len()
            invariant
                i <= self.list@.len(),
                segments == self@,
                segments == segments_view(self.list@),
                size == old(memory)@.len(),
                memory@.len() == size,
                fitting_prefix(segments.take(i as int), size) == i,
                memory@ == restored(segments.take(i as int), old(memory)@),
            decreases self.list@.len() - i,
        {
            let ghost front = segments.take(i as int);
            let ghost next = segments.take(i + 1);
            proof {
                assert(next.drop_last() =~= front);
                assert(next.last() == segments[i as int]);
                assert(segments[i as int].1 == self.list@[i as int].1@);
            }
            let written = write_memory_from(
                memory,
                self.list[i].0,
                self.list[i].1.as_slice(),
            );
            match written {
                Ok(()) => {
                    i = i + 1;
                },
                Err(e) => {
                    proof {
                        lemma_prefix_stops(segments, size, i as int, segments.len() as int);
                        assert(segments.take(segments.len() as int) =~= segments);
                        lemma_fitting_prefix(segments, size);
                    }
                    return Err(e);
                },
            }
        }
        proof {
            assert(segments.take(i as int) =~= segments);
            lemma_fitting_prefix(segments, size);
        }
        Ok(())
    }
}

/// Once a segment does not fit, no longer prefix counts more segments than come before it.
proof fn lemma_prefix_stops(segments: Seq<(u32, Seq<u8>)>, size: nat, stop: int, upto: int)
    requires
        0 <= stop < upto <= segments.len(),
        fitting_prefix(segments.take(stop), size) == stop,
        !in_bounds(size, segments[stop].0, segments[stop].1.len()),
    ensures
        fitting_prefix(segments.take(upto), size) == stop,
    decreases upto - stop,
{
    let current = segments.take(upto);
    assert(current.drop_last() =~= segments.take(upto - 1));
    assert(current.last() == segments[upto - 1]);
    if upto - 1 > stop {
        lemma_prefix_stops(segments, size, stop, upto - 1);
    }
}

} // verus!
