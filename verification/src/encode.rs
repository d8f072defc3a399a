use vstd::prelude::*;

use crate::cell::SharedCell;
use crate::error::RuntimeError;
use crate::memory::Allocator;

verus! {

broadcast use vstd::seq_lib::seq_to_set_is_finite;

/// The byte sequences that a list of buffers holds.
pub open spec fn views(data: Seq<Vec<u8>>) -> Seq<Seq<u8>> {
    data.map_values(|b: Vec<u8>| b@)
}

/// The set of buffer positions that get an explicit trailing length slot.
pub open spec fn index_set(len_index: Seq<usize>) -> Set<int> {
    len_index.map_values(|u: usize| u as int).to_set()
}

/// How many members of `lens` lie below `n`.
pub open spec fn count_below(lens: Set<int>, n: int) -> int
    decreases n,
{
    if n <= 0 {
        0
    } else {
        count_below(lens, n - 1) + if lens.contains(n - 1) {
            1int
        } else {
            0int
        }
    }
}

/// The ABI slots that buffer `i` contributes: its offset, then its byte
/// length iff position `i` is flagged for an explicit length.
pub open spec fn slot_group(data: Seq<Seq<u8>>, lens: Set<int>, offs: Seq<u32>, i: int) -> Seq<
    u32,
> {
    if lens.contains(i) {
        seq![offs[i], data[i].len() as u32]
    } else {
        seq![offs[i]]
    }
}

/// The ABI slots of the first `n` buffers, in buffer order.
pub open spec fn abi_prefix(data: Seq<Seq<u8>>, lens: Set<int>, offs: Seq<u32>, n: int) -> Seq<
    u32,
>
    decreases n,
{
    if n <= 0 {
        Seq::empty()
    } else {
        abi_prefix(data, lens, offs, n - 1) + slot_group(data, lens, offs, n - 1)
    }
}

/// The full ABI value sequence for the buffers `data` placed at offsets
/// `offs`, with explicit length slots at the positions in `lens`.
pub open spec fn abi_seq(data: Seq<Seq<u8>>, lens: Set<int>, offs: Seq<u32>) -> Seq<u32> {
    abi_prefix(data, lens, offs, data.len() as int)
}

/// The position of buffer `i`'s offset inside the ABI value sequence: one
/// slot per earlier buffer plus one per earlier flagged position.
pub open spec fn offset_slot(lens: Set<int>, i: int) -> int {
    i + count_below(lens, i)
}

/// Below-`n` member counts are never negative.
proof fn lemma_count_below_nonneg(lens: Set<int>, n: int)
    ensures
        count_below(lens, n) >= 0,
    decreases n,
{
    if n > 0 {
        lemma_count_below_nonneg(lens, n - 1);
    }
}

/// Below-`n` member counts never decrease as `n` grows.
proof fn lemma_count_below_mono(lens: Set<int>, a: int, b: int)
    requires
        a <= b,
    ensures
        count_below(lens, a) <= count_below(lens, b),
    decreases b - a,
{
    if a < b {
        lemma_count_below_mono(lens, a, b - 1);
    }
}

/// Sets that agree below `n` are counted alike there.
proof fn lemma_count_below_agree(a: Set<int>, b: Set<int>, n: int)
    requires
        forall|j: int| j < n ==> (a.contains(j) <==> b.contains(j)),
    ensures
        count_below(a, n) == count_below(b, n),
    decreases n,
{
    if n > 0 {
        lemma_count_below_agree(a, b, n - 1);
    }
}

/// For a finite set whose members all lie in `[0, n)`, the below-`n` count
/// is the set's cardinality.
pub proof fn lemma_count_below_is_card(lens: Set<int>, n: int)
    requires
        0 <= n,
        lens.finite(),
        forall|j: int| lens.contains(j) ==> 0 <= j < n,
    ensures
        count_below(lens, n) == lens.len(),
    decreases n,
{
    if n == 0 {
        assert(lens =~= Set::empty());
    } else {
        if lens.contains(n - 1) {
            let smaller = lens.remove(n - 1);
            lemma_count_below_is_card(smaller, n - 1);
            lemma_count_below_agree(lens, smaller, n - 1);
        } else {
            lemma_count_below_is_card(lens, n - 1);
        }
    }
}

/// The ABI slots of the first `n` buffers number `n` plus the flagged
/// positions below `n`.
pub proof fn lemma_abi_prefix_len(data: Seq<Seq<u8>>, lens: Set<int>, offs: Seq<u32>, n: int)
    requires
        0 <= n,
    ensures
        abi_prefix(data, lens, offs, n).len() == n + count_below(lens, n),
    decreases n,
{
    if n > 0 {
        lemma_abi_prefix_len(data, lens, offs, n - 1);
    }
}

/// Within the ABI slots of the first `n` buffers, buffer `i`'s offset
/// stands at `offset_slot(lens, i)`, and for a flagged `i` its byte length
/// directly after it.
proof fn lemma_abi_prefix_slots(data: Seq<Seq<u8>>, lens: Set<int>, offs: Seq<u32>, n: int)
    requires
        0 <= n,
    ensures
        forall|i: int|
            0 <= i < n ==> abi_prefix(data, lens, offs, n)[#[trigger] offset_slot(lens, i)]
                == offs[i],
        forall|i: int|
            0 <= i < n && lens.contains(i) ==> abi_prefix(data, lens, offs, n)[#[trigger] offset_slot(
                lens,
                i,
            ) + 1] == data[i].len() as u32,
    decreases n,
{
    if n > 0 {
        lemma_abi_prefix_slots(data, lens, offs, n - 1);
        lemma_abi_prefix_len(data, lens, offs, n - 1);
        let prefix = abi_prefix(data, lens, offs, n - 1);
        let group = slot_group(data, lens, offs, n - 1);
        let whole = abi_prefix(data, lens, offs, n);
        assert(whole == prefix + group);
        assert(offset_slot(lens, n - 1) == prefix.len());
        assert(whole[offset_slot(lens, n - 1)] == group[0]);
        if lens.contains(n - 1) {
            assert(whole[offset_slot(lens, n - 1) + 1] == group[1]);
        }
        assert forall|i: int| 0 <= i < n - 1 implies whole[#[trigger] offset_slot(lens, i)]
            == offs[i] by {
            lemma_count_below_nonneg(lens, i);
            lemma_count_below_mono(lens, i + 1, n - 1);
            assert(0 <= offset_slot(lens, i) < prefix.len());
            assert(whole[offset_slot(lens, i)] == prefix[offset_slot(lens, i)]);
        }
        assert forall|i: int| 0 <= i < n - 1 && lens.contains(i) implies whole[#[trigger] offset_slot(
            lens,
            i,
        ) + 1] == data[i].len() as u32 by {
            lemma_count_below_nonneg(lens, i);
            lemma_count_below_mono(lens, i + 1, n - 1);
            assert(count_below(lens, i + 1) == count_below(lens, i) + 1);
            assert(0 <= offset_slot(lens, i) + 1 < prefix.len());
            assert(whole[offset_slot(lens, i) + 1] == prefix[offset_slot(lens, i) + 1]);
        }
    }
}

/// The shape of an encoded ABI sequence, for any buffer list, any set of
/// flagged positions within it, and any allocation offsets: it holds
/// exactly one offset slot per buffer plus one length slot per flagged
/// position — `|data| + |lens|` values in all; buffer `i`'s offset stands
/// at `offset_slot(lens, i)`, and for a flagged `i` the slot directly after
/// holds `data[i]`'s byte length.
pub proof fn lemma_abi_seq_shape(data: Seq<Seq<u8>>, lens: Set<int>, offs: Seq<u32>)
    requires
        lens.finite(),
        forall|j: int| lens.contains(j) ==> 0 <= j < data.len(),
    ensures
        abi_seq(data, lens, offs).len() == data.len() + lens.len(),
        forall|i: int|
            0 <= i < data.len() ==> abi_seq(data, lens, offs)[#[trigger] offset_slot(lens, i)]
                == offs[i],
        forall|i: int|
            0 <= i < data.len() && lens.contains(i) ==> abi_seq(data, lens, offs)[#[trigger] offset_slot(
                lens,
                i,
            ) + 1] == data[i].len() as u32,
{
    lemma_abi_prefix_len(data, lens, offs, data.len() as int);
    lemma_count_below_is_card(lens, data.len() as int);
    lemma_abi_prefix_slots(data, lens, offs, data.len() as int);
}

/// The flagged-position set of a list of indices is finite.
pub proof fn lemma_index_set_finite(len_index: Seq<usize>)
    ensures
        index_set(len_index).finite(),
{
}

/// Whether position `i` is flagged for an explicit length slot.
fn contains_index(len_index: &Vec<usize>, i: usize) -> (b: bool)
    ensures
        b == index_set(len_index@).contains(i as int),
{
    let n = len_index.len();
    let mut k: usize = 0;
    let mut found = false;
    while k < n
        invariant
            k <= n,
            n == len_index@.len(),
            found == exists|j: int| 0 <= j < k && len_index@[j] == i,
        decreases n - k,
    {
        if len_index[k] == i {
            found = true;
            assert(len_index@[k as int] == i);
        }
        k = k + 1;
    }
    proof {
        let mapped = len_index@.map_values(|u: usize| u as int);
        assert(found == mapped.contains(i as int)) by {
            if found {
                let j = choose|j: int| 0 <= j < n && len_index@[j] == i;
                assert(mapped[j] == i as int);
            }
            if mapped.contains(i as int) {
                let j = choose|j: int| 0 <= j < mapped.len() && mapped[j] == i as int;
                assert(len_index@[j] == i);
            }
        }
    }
    found
}

/// Emits the ABI value sequence for buffers already placed at `offsets`:
/// each buffer's offset in list order, followed by the buffer's byte length
/// where its position is flagged in `len_index`.
pub fn abi_values(data: &Vec<Vec<u8>>, len_index: &Vec<usize>, offsets: &Vec<u32>) -> (abi: Vec<
    u32,
>)
    requires
        offsets@.len() == data@.len(),
        forall|i: int| 0 <= i < data@.len() ==> (#[trigger] data@[i])@.len() <= u32::MAX,
    ensures
        abi@ == abi_seq(views(data@), index_set(len_index@), offsets@),
{
    let ghost vs = views(data@);
    let ghost lens = index_set(len_index@);
    let mut abi: Vec<u32> = Vec::new();
    let n = data.len();
    let mut i: usize = 0;
    while i < n
        invariant
            i <= n,
            n == data@.len(),
            offsets@.len() == data@.len(),
            forall|k: int| 0 <= k < data@.len() ==> (#[trigger] data@[k])@.len() <= u32::MAX,
            vs == views(data@),
            lens == index_set(len_index@),
            abi@ == abi_prefix(vs, lens, offsets@, i as int),
        decreases n - i,
    {
        abi.push(offsets[i]);
        if contains_index(len_index, i) {
            assert(data@[i as int]@.len() <= u32::MAX);
            abi.push(data[i].len() as u32);
        }
        proof {
            assert(vs[i as int] == data@[i as int]@);
            assert(abi_prefix(vs, lens, offsets@, i + 1) == abi_prefix(vs, lens, offsets@, i as int)
                + slot_group(vs, lens, offsets@, i as int));
            assert(abi@ =~= abi_prefix(vs, lens, offsets@, i + 1));
        }
        i = i + 1;
    }
    abi
}

/// The allocator call log of a fully successful encode of `data`: one call
/// per buffer, in list order, each handing over that buffer's bytes and
/// answered with the offset in `offs`.
pub open spec fn ok_calls(data: Seq<Vec<u8>>, offs: Seq<u32>) -> Seq<
    (Seq<u8>, Result<u32, RuntimeError>),
> {
    Seq::new(offs.len(), |i: int| (views(data)[i], Result::Ok(offs[i])))
}

/// Encodes the parameters of one guest call.  Each buffer of `data` is
/// allocated strictly in list order through `alloc` — the order is
/// load-bearing, since it must match the guest function's declared
/// parameter order, and the allocator's call log pins it down: on success
/// the log grew by exactly one call per buffer, in list order, each with
/// that buffer's bytes, and the offsets those calls answered are the very
/// offsets in the ABI value sequence.  That sequence holds, for each
/// buffer in order, its offset, followed by its byte length iff its
/// position is in `len_index`.  When a pointer cell is supplied and the
/// list is non-empty, the offset the allocator returned for the LAST
/// buffer — reserved by convention as the guest's output pointer — is
/// written into the cell.  Any allocation failure aborts the whole encode:
/// the allocator's own error is returned, no ABI sequence is produced, no
/// cell is written, and no later buffer is handed to the allocator (the
/// log grew only by the succeeding calls and the one that failed).  With
/// an empty buffer list the allocator is never consulted and the encode
/// always succeeds.
pub fn gen_params<A: Allocator>(
    alloc: &mut A,
    data: &Vec<Vec<u8>>,
    len_index: &Vec<usize>,
    ptr: &mut Option<SharedCell<u32>>,
) -> (r: Result<Vec<u32>, RuntimeError>)
    requires
        *old(ptr) matches Some(c) ==> c.is_unwritten(),
        forall|i: int| 0 <= i < data@.len() ==> (#[trigger] data@[i])@.len() <= u32::MAX,
    ensures
        data@.len() == 0 ==> r is Ok,
        r is Err ==> *final(ptr) == *old(ptr),
        r is Err ==> exists|offs: Seq<u32>|
            #[trigger] offs.len() < data@.len() && final(alloc).allocations() == old(
                alloc,
            ).allocations() + ok_calls(data@, offs).push(
                (views(data@)[offs.len() as int], Result::Err(r->Err_0)),
            ),
        r is Ok && *old(ptr) is None ==> *final(ptr) is None,
        r is Ok && *old(ptr) is Some && data@.len() == 0 ==> *final(ptr) == *old(ptr),
        r is Ok && (forall|j: int|
            index_set(len_index@).contains(j) ==> 0 <= j < data@.len()) ==> r->Ok_0@.len()
            == data@.len() + index_set(len_index@).len(),
        r is Ok ==> exists|offs: Seq<u32>|
            {
                &&& #[trigger] offs.len() == data@.len()
                &&& r->Ok_0@ == abi_seq(views(data@), index_set(len_index@), offs)
                &&& final(alloc).allocations() == old(alloc).allocations() + ok_calls(data@, offs)
                &&& (*old(ptr) is Some && data@.len() > 0 ==> *final(ptr) is Some
                    && (*final(ptr))->0.is_written()
                    && (*final(ptr))->0.value() == offs[data@.len() - 1])
            },
{
    let mut offsets: Vec<u32> = Vec::new();
    let n = data.len();
    let mut k: usize = 0;
    proof {
        assert(old(alloc).allocations() + ok_calls(data@, offsets@) =~= old(
            alloc,
        ).allocations());
    }
    while k < n
        invariant
            k <= n,
            n == data@.len(),
            offsets@.len() == k as int,
            *ptr == *old(ptr),
            alloc.allocations() == old(alloc).allocations() + ok_calls(data@, offsets@),
        decreases n - k,
    {
        let ghost sofar = offsets@;
        let r = alloc.allocate(&data[k]);
        proof {
            assert(views(data@)[k as int] == data@[k as int]@);
        }
        match r {
            Result::Ok(off) => {
                offsets.push(off);
                proof {
                    assert((old(alloc).allocations() + ok_calls(data@, sofar)).push(
                        (data@[k as int]@, Result::Ok(off)),
                    ) =~= old(alloc).allocations() + ok_calls(data@, offsets@));
                }
            },
            Result::Err(e) => {
                return Result::Err(e);
            },
        }
        k = k + 1;
    }
    if n >= 1 {
        match ptr {
            Option::Some(cell) => {
                cell.write(offsets[n - 1]);
            },
            Option::None => {},
        }
    }
    let abi = abi_values(data, len_index, &offsets);
    proof {
        assert(offsets@.len() == data@.len());
        let lens = index_set(len_index@);
        if forall|j: int| lens.contains(j) ==> 0 <= j < data@.len() {
            lemma_index_set_finite(len_index@);
            lemma_abi_seq_shape(views(data@), lens, offsets@);
        }
    }
    Result::Ok(abi)
}

} // verus!
