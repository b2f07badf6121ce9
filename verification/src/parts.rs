use vstd::multiset::Multiset;
use vstd::prelude::*;

use crate::scheduler::PartRecord;

verus! {

broadcast use {
    vstd::seq_lib::group_to_multiset_ensures,
    vstd::multiset::group_multiset_axioms,
    vstd::seq_lib::to_multiset_build,
    vstd::seq_lib::to_multiset_insert,
};

/// Why the recorded parts cannot complete a multipart upload.
#[derive(Debug, Clone, Copy, PartialEq, Eq, Structural)]
pub enum AssemblyError {
    /// `actual` parts were recorded where `expected` were needed.
    PartCountMismatch { expected: u64, actual: u64 },
}

/// Whether `parts` is ordered by part number.
pub open spec fn sorted_by_part_number(parts: Seq<PartRecord>) -> bool {
    forall|i: int, j: int| 0 <= i < j < parts.len() ==> parts[i].part_number <= parts[j].part_number
}

/// Orders `parts` by part number. The result holds exactly the parts given.
pub fn sort_parts(parts: Vec<PartRecord>) -> (sorted: Vec<PartRecord>)
    ensures
        sorted_by_part_number(sorted@),
        sorted@.to_multiset() == parts@.to_multiset(),
        sorted@.len() == parts@.len(),
{
    let mut remaining = parts;
    let mut out: Vec<PartRecord> = Vec::new();
    while remaining.len() > 0
        invariant
            sorted_by_part_number(out@),
            out@.to_multiset().add(remaining@.to_multiset()) == parts@.to_multiset(),
        decreases remaining.len(),
    {
        let ghost before_out = out@;
        let ghost before_remaining = remaining@;
        let x = remaining.pop().unwrap();
        proof {
            assert(before_remaining == remaining@.push(x));
        }
        let mut p: usize = 0;
        while p < out.len() && out[p].part_number < x.part_number
            invariant
                p <= out@.len(),
                out@ == before_out,
                forall|j: int| 0 <= j < p ==> out@[j].part_number < x.part_number,
            decreases out@.len() - p,
        {
            p = p + 1;
        }
        out.insert(p, x);
        proof {
            assert(out@ == before_out.insert(p as int, x));
            assert forall|i: int, j: int| 0 <= i < j < out@.len() implies out@[i].part_number
                <= out@[j].part_number by {
                if j < p {
                } else if j == p {
                } else if i < p {
                    assert(out@[i] == before_out[i]);
                    assert(out@[j] == before_out[j - 1]);
                    if p < before_out.len() {
                        assert(before_out[p as int].part_number >= x.part_number);
                    }
                } else if i == p {
                    assert(before_out[p as int].part_number >= x.part_number);
                    assert(out@[j] == before_out[j - 1]);
                } else {
                    assert(out@[i] == before_out[i - 1]);
                    assert(out@[j] == before_out[j - 1]);
                }
            }
            assert(out@.to_multiset() == before_out.to_multiset().insert(x));
            assert(before_remaining.to_multiset() == remaining@.to_multiset().insert(x));
            assert(out@.to_multiset().add(remaining@.to_multiset()) =~= before_out.to_multiset().add(
                before_remaining.to_multiset(),
            ));
        }
    }
    proof {
        assert(remaining@.to_multiset() =~= Multiset::empty());
        assert(out@.to_multiset().add(remaining@.to_multiset()) =~= out@.to_multiset());
        out@.to_multiset_ensures();
        parts@.to_multiset_ensures();
    }
    out
}

/// Puts the recorded parts in part-number order for completing the upload,
/// refused unless exactly `chunk_count` parts were recorded.
pub fn assemble_parts(parts: Vec<PartRecord>, chunk_count: u64) -> (res: Result<Vec<PartRecord>, AssemblyError>)
    ensures
        parts@.len() == chunk_count <==> (res is Ok),
        res matches Ok(sorted) ==> (sorted_by_part_number(sorted@) && sorted@.to_multiset()
            == parts@.to_multiset()),
        res matches Err(e) ==> (e == (AssemblyError::PartCountMismatch {
            expected: chunk_count,
            actual: parts@.len() as u64,
        })),
{
    let sorted = sort_parts(parts);
    let n = sorted.len() as u64;
    if n != chunk_count {
        return Err(AssemblyError::PartCountMismatch { expected: chunk_count, actual: n });
    }
    Ok(sorted)
}

} // verus!
