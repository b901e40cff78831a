//! The SSZ byte format of containers and lists.
//!
//! A container starts with one entry for each of its fields: the field itself if its size is
//! fixed, otherwise the position at which the field starts. The fields of variable size follow,
//! in order and without gaps. A list of items of variable size is laid out in the same way.

use crate::primitives::FixedBytes;
use crate::text::{append_decimal, decimal};
use vstd::bytes::{u32_from_le_bytes, u32_to_le_bytes, u64_from_le_bytes, u64_to_le_bytes};
use vstd::prelude::*;
use vstd::slice::slice_subrange;
use vstd::string::StringExecFns;

verus! {

/// The number of bytes in a position.
pub const BYTES_PER_LENGTH_OFFSET: usize = 4;

/// No container or list has a longer part of fixed size than this.
pub const MAX_FIXED_PART: usize = 0x4000_0000;

/// Why bytes could not be read.
#[derive(Clone, Debug, PartialEq, Eq)]
pub enum DecodeError {
    /// The number of bytes is not the one that was expected.
    InvalidByteLength { len: usize, expected: usize },
    /// There are too few bytes left for a position.
    InvalidLengthPrefix { len: usize, expected: usize },
    /// A position lies within the part of fixed size.
    OffsetIntoFixedPortion(usize),
    /// The first position lies beyond the end of the part of fixed size.
    OffsetSkipsVariableBytes(usize),
    /// A position lies before the one that precedes it.
    OffsetsAreDecreasing(usize),
    /// A position lies beyond the end of the bytes.
    OffsetOutOfBounds(usize),
    /// The first position in a list does not tell how many items there are.
    InvalidListFixedBytesLen(usize),
    /// The bytes cannot be read for the given reason.
    BytesInvalid(String),
}

/// What a [`DecodeError`] says.
pub enum DecodeErrorModel {
    InvalidByteLength { len: int, expected: int },
    InvalidLengthPrefix { len: int, expected: int },
    OffsetIntoFixedPortion(int),
    OffsetSkipsVariableBytes(int),
    OffsetsAreDecreasing(int),
    OffsetOutOfBounds(int),
    InvalidListFixedBytesLen(int),
    BytesInvalid(Seq<char>),
}

impl View for DecodeError {
    type V = DecodeErrorModel;

    open spec fn view(&self) -> DecodeErrorModel {
        match self {
            DecodeError::InvalidByteLength { len, expected } => {
                DecodeErrorModel::InvalidByteLength { len: *len as int, expected: *expected as int }
            },
            DecodeError::InvalidLengthPrefix { len, expected } => {
                DecodeErrorModel::InvalidLengthPrefix {
                    len: *len as int,
                    expected: *expected as int,
                }
            },
            DecodeError::OffsetIntoFixedPortion(offset) => {
                DecodeErrorModel::OffsetIntoFixedPortion(*offset as int)
            },
            DecodeError::OffsetSkipsVariableBytes(offset) => {
                DecodeErrorModel::OffsetSkipsVariableBytes(*offset as int)
            },
            DecodeError::OffsetsAreDecreasing(offset) => {
                DecodeErrorModel::OffsetsAreDecreasing(*offset as int)
            },
            DecodeError::OffsetOutOfBounds(offset) => {
                DecodeErrorModel::OffsetOutOfBounds(*offset as int)
            },
            DecodeError::InvalidListFixedBytesLen(offset) => {
                DecodeErrorModel::InvalidListFixedBytesLen(*offset as int)
            },
            DecodeError::BytesInvalid(message) => DecodeErrorModel::BytesInvalid(message@),
        }
    }
}

/// Whether `found` is the error in `expected`.
pub open spec fn is_fault(found: Option<DecodeError>, expected: Option<DecodeErrorModel>) -> bool {
    match found {
        Some(e) => expected == Some(e@),
        None => expected is None,
    }
}

/// The size of a field's entry, where `size` is that of the field, if it is fixed.
pub open spec fn entry_len(size: Option<usize>) -> nat {
    match size {
        Some(n) => n as nat,
        None => BYTES_PER_LENGTH_OFFSET as nat,
    }
}

/// Where the entry of field `k` starts.
pub open spec fn entry_start(layout: Seq<Option<usize>>, k: int) -> nat
    decreases k,
{
    if k <= 0 {
        0
    } else {
        entry_start(layout, k - 1) + entry_len(layout[k - 1])
    }
}

/// The number of bytes in the fields of variable size from field `k` on.
pub open spec fn tail_len(layout: Seq<Option<usize>>, parts: Seq<Seq<u8>>, k: int) -> nat
    decreases layout.len() - k,
{
    if k >= layout.len() {
        0
    } else if layout[k] is None {
        parts[k].len() + tail_len(layout, parts, k + 1)
    } else {
        tail_len(layout, parts, k + 1)
    }
}

/// Where field `k`, of variable size, starts.
pub open spec fn field_start(layout: Seq<Option<usize>>, parts: Seq<Seq<u8>>, k: int) -> int {
    entry_start(layout, layout.len() as int) + tail_len(layout, parts, 0) - tail_len(
        layout,
        parts,
        k,
    )
}

/// The entry of field `k`.
pub open spec fn entry(layout: Seq<Option<usize>>, bytes: Seq<u8>, k: int) -> Seq<u8> {
    let start = entry_start(layout, k) as int;
    bytes.subrange(start, start + entry_len(layout[k]))
}

/// Whether `bytes` holds field `k` of a container with the given layout and fields.
pub open spec fn holds_field(
    layout: Seq<Option<usize>>,
    parts: Seq<Seq<u8>>,
    bytes: Seq<u8>,
    k: int,
) -> bool {
    match layout[k] {
        Some(n) => parts[k] == entry(layout, bytes, k),
        None => {
            let offset = vstd::bytes::spec_u32_from_le_bytes(entry(layout, bytes, k)) as int;
            &&& offset == field_start(layout, parts, k)
            &&& parts[k] == bytes.subrange(offset, offset + parts[k].len())
        },
    }
}

/// Whether `bytes` is the container with the given layout and fields.
pub open spec fn is_container(
    layout: Seq<Option<usize>>,
    parts: Seq<Seq<u8>>,
    bytes: Seq<u8>,
) -> bool {
    &&& parts.len() == layout.len()
    &&& bytes.len() == entry_start(layout, layout.len() as int) + tail_len(layout, parts, 0)
    &&& forall|k: int| 0 <= k < layout.len() ==> #[trigger] holds_field(layout, parts, bytes, k)
}

/// The contents of some slices.
pub open spec fn slice_views(parts: Seq<&[u8]>) -> Seq<Seq<u8>> {
    Seq::new(parts.len(), |k: int| parts[k]@)
}

/// Entries start one after the other.
pub proof fn lemma_entry_start_grows(layout: Seq<Option<usize>>, j: int, k: int)
    requires
        0 <= j <= k,
    ensures
        entry_start(layout, j) <= entry_start(layout, k),
    decreases k - j,
{
    if j < k {
        lemma_entry_start_grows(layout, j, k - 1);
    }
}

/// The bytes from field `k` on are part of those of all fields.
pub proof fn lemma_tail_len_shrinks(layout: Seq<Option<usize>>, parts: Seq<Seq<u8>>, j: int, k: int)
    requires
        0 <= j <= k <= layout.len(),
    ensures
        tail_len(layout, parts, k) <= tail_len(layout, parts, j),
    decreases k - j,
{
    if j < k {
        lemma_tail_len_shrinks(layout, parts, j + 1, k);
    }
}

/// The number of bytes from field `k` on depends on no earlier field.
pub proof fn lemma_tail_len_ext(
    layout: Seq<Option<usize>>,
    a: Seq<Seq<u8>>,
    b: Seq<Seq<u8>>,
    k: int,
)
    requires
        0 <= k <= layout.len(),
        forall|j: int| k <= j < layout.len() ==> a[j] == b[j],
    ensures
        tail_len(layout, a, k) == tail_len(layout, b, k),
    decreases layout.len() - k,
{
    if k < layout.len() {
        lemma_tail_len_ext(layout, a, b, k + 1);
    }
}

/// A byte string is the container of at most one sequence of fields.
pub proof fn lemma_container_unique(
    layout: Seq<Option<usize>>,
    p: Seq<Seq<u8>>,
    q: Seq<Seq<u8>>,
    bytes: Seq<u8>,
)
    requires
        is_container(layout, p, bytes),
        is_container(layout, q, bytes),
    ensures
        p == q,
{
    lemma_same_fields_from(layout, p, q, bytes, 0);
    assert(p =~= q);
}

proof fn lemma_same_fields_from(
    layout: Seq<Option<usize>>,
    p: Seq<Seq<u8>>,
    q: Seq<Seq<u8>>,
    bytes: Seq<u8>,
    k: int,
)
    requires
        is_container(layout, p, bytes),
        is_container(layout, q, bytes),
        0 <= k <= layout.len(),
    ensures
        forall|j: int| k <= j < layout.len() ==> p[j] == q[j],
    decreases layout.len() - k,
{
    if k < layout.len() {
        lemma_same_fields_from(layout, p, q, bytes, k + 1);
        lemma_tail_len_ext(layout, p, q, k + 1);
        assert(holds_field(layout, p, bytes, k));
        assert(holds_field(layout, q, bytes, k));
    }
}

/// A field of fixed size has it.
pub proof fn lemma_fixed_field_len(
    layout: Seq<Option<usize>>,
    parts: Seq<Seq<u8>>,
    bytes: Seq<u8>,
    k: int,
)
    requires
        is_container(layout, parts, bytes),
        0 <= k < layout.len(),
        layout[k] is Some,
    ensures
        parts[k].len() == layout[k]->0,
{
    assert(holds_field(layout, parts, bytes, k));
    lemma_entry_start_grows(layout, k + 1, layout.len() as int);
}

/// The sum of the entries of a layout.
fn fixed_part_len(layout: &Vec<Option<usize>>) -> (r: usize)
    requires
        entry_start(layout@, layout@.len() as int) <= MAX_FIXED_PART,
    ensures
        r == entry_start(layout@, layout@.len() as int),
{
    let mut sum: usize = 0;
    let mut k: usize = 0;
    while k < layout.len()
        invariant
            k <= layout@.len(),
            sum == entry_start(layout@, k as int),
            entry_start(layout@, layout@.len() as int) <= MAX_FIXED_PART,
        decreases layout@.len() - k,
    {
        proof {
            lemma_entry_start_grows(layout@, k + 1, layout@.len() as int);
        }
        match layout[k] {
            Some(n) => {
                sum = sum + n;
            },
            None => {
                sum = sum + BYTES_PER_LENGTH_OFFSET;
            },
        }
        k = k + 1;
    }
    sum
}

/// The position in the entry of field `k`.
pub open spec fn offset_of(layout: Seq<Option<usize>>, bytes: Seq<u8>, k: int) -> int {
    vstd::bytes::spec_u32_from_le_bytes(entry(layout, bytes, k)) as int
}

/// Why `bytes` is no container with the given layout, if the entries before that of field `k` are
/// in order: `first` and `previous` are the first and the last position in these. The entries are
/// looked at in order; that the first position is that of the first byte after the entries is
/// looked at last.
pub open spec fn container_error_from(
    layout: Seq<Option<usize>>,
    bytes: Seq<u8>,
    k: int,
    first: Option<int>,
    previous: Option<int>,
) -> Option<DecodeErrorModel>
    decreases layout.len() - k,
{
    let len = bytes.len() as int;
    let start = entry_start(layout, k) as int;
    if k >= layout.len() {
        match first {
            Some(first) => if first < start {
                Some(DecodeErrorModel::OffsetIntoFixedPortion(first))
            } else if first > start {
                Some(DecodeErrorModel::OffsetSkipsVariableBytes(first))
            } else {
                None
            },
            None => if len != start {
                Some(DecodeErrorModel::InvalidByteLength { len, expected: start })
            } else {
                None
            },
        }
    } else {
        match layout[k] {
            Some(size) => if start + size > len {
                Some(DecodeErrorModel::InvalidByteLength { len, expected: start + size })
            } else {
                container_error_from(layout, bytes, k + 1, first, previous)
            },
            None => {
                let offset = offset_of(layout, bytes, k);
                if start + BYTES_PER_LENGTH_OFFSET > len {
                    Some(
                        DecodeErrorModel::InvalidLengthPrefix {
                            len: len - start,
                            expected: BYTES_PER_LENGTH_OFFSET as int,
                        },
                    )
                } else if offset > len {
                    Some(DecodeErrorModel::OffsetOutOfBounds(offset))
                } else if previous matches Some(previous) && previous > offset {
                    Some(DecodeErrorModel::OffsetsAreDecreasing(offset))
                } else {
                    container_error_from(
                        layout,
                        bytes,
                        k + 1,
                        if first is None {
                            Some(offset)
                        } else {
                            first
                        },
                        Some(offset),
                    )
                }
            },
        }
    }
}

/// Why `bytes` is no container with the given layout, if it is none.
pub open spec fn container_error(layout: Seq<Option<usize>>, bytes: Seq<u8>) -> Option<
    DecodeErrorModel,
> {
    container_error_from(layout, bytes, 0, None, None)
}

/// The fields of the container that `bytes` is.
pub open spec fn fields_of(layout: Seq<Option<usize>>, bytes: Seq<u8>) -> Seq<Seq<u8>> {
    choose|parts: Seq<Seq<u8>>| is_container(layout, parts, bytes)
}

/// Nothing is wrong with the entries of a container.
proof fn lemma_container_has_no_error(
    layout: Seq<Option<usize>>,
    parts: Seq<Seq<u8>>,
    bytes: Seq<u8>,
    k: int,
    first: Option<int>,
    previous: Option<int>,
)
    requires
        is_container(layout, parts, bytes),
        0 <= k <= layout.len(),
        match first {
            Some(first) => first == entry_start(layout, layout.len() as int),
            None => tail_len(layout, parts, k) == tail_len(layout, parts, 0),
        },
        previous matches Some(previous) ==> previous <= field_start(layout, parts, k),
    ensures
        container_error_from(layout, bytes, k, first, previous) is None,
    decreases layout.len() - k,
{
    if k < layout.len() {
        lemma_entry_start_grows(layout, k + 1, layout.len() as int);
        lemma_tail_len_shrinks(layout, parts, 0, k);
        lemma_tail_len_shrinks(layout, parts, k, k + 1);
        assert(holds_field(layout, parts, bytes, k));
        match layout[k] {
            Some(_) => {
                lemma_container_has_no_error(layout, parts, bytes, k + 1, first, previous);
            },
            None => {
                let offset = offset_of(layout, bytes, k);
                let next_first = if first is None {
                    Some(offset)
                } else {
                    first
                };
                lemma_container_has_no_error(
                    layout,
                    parts,
                    bytes,
                    k + 1,
                    next_first,
                    Some(offset),
                );
            },
        }
    }
}

/// Where the first field of variable size from field `k` on starts, by its entry; the end of the
/// bytes if there is no such field.
spec fn next_offset(layout: Seq<Option<usize>>, bytes: Seq<u8>, k: int) -> int
    decreases layout.len() - k,
{
    if k >= layout.len() {
        bytes.len() as int
    } else if layout[k] is None {
        offset_of(layout, bytes, k)
    } else {
        next_offset(layout, bytes, k + 1)
    }
}

/// Where there is nothing wrong with the entries from field `k` on, they end within the bytes, the
/// positions in them are in order, and the first position is that of the end of the entries.
proof fn lemma_entries_in_order(
    layout: Seq<Option<usize>>,
    bytes: Seq<u8>,
    k: int,
    first: Option<int>,
    previous: Option<int>,
)
    requires
        0 <= k <= layout.len(),
        entry_start(layout, k) <= bytes.len(),
        previous matches Some(previous) ==> previous <= bytes.len(),
        container_error_from(layout, bytes, k, first, previous) is None,
    ensures
        entry_start(layout, layout.len() as int) <= bytes.len(),
        (match first {
            Some(first) => first,
            None => next_offset(layout, bytes, k),
        }) == entry_start(layout, layout.len() as int),
        previous matches Some(previous) ==> previous <= next_offset(layout, bytes, k),
        forall|j: int|
            k <= j < layout.len() && layout[j] is None ==> #[trigger] offset_of(layout, bytes, j)
                <= next_offset(layout, bytes, j + 1),
    decreases layout.len() - k,
{
    if k < layout.len() {
        match layout[k] {
            Some(_) => {
                lemma_entries_in_order(layout, bytes, k + 1, first, previous);
            },
            None => {
                let offset = offset_of(layout, bytes, k);
                let next_first = if first is None {
                    Some(offset)
                } else {
                    first
                };
                lemma_entries_in_order(layout, bytes, k + 1, next_first, Some(offset));
            },
        }
    }
}

/// The position in the four bytes from `at` on.
fn read_offset(bytes: &[u8], at: usize) -> (r: usize)
    requires
        at + BYTES_PER_LENGTH_OFFSET <= bytes.len(),
    ensures
        r == vstd::bytes::spec_u32_from_le_bytes(
            bytes@.subrange(at as int, at + BYTES_PER_LENGTH_OFFSET),
        ),
{
    u32_from_le_bytes(slice_subrange(bytes, at, at + BYTES_PER_LENGTH_OFFSET)) as usize
}

/// Why `bytes` is no container with the given layout, if it is none.
fn container_fault(bytes: &[u8], layout: &Vec<Option<usize>>) -> (r: Option<DecodeError>)
    requires
        entry_start(layout@, layout@.len() as int) <= MAX_FIXED_PART,
    ensures
        is_fault(r, container_error(layout@, bytes@)),
{
    let len: usize = bytes.len();
    let mut first: Option<usize> = None;
    let mut previous: Option<usize> = None;
    let mut start: usize = 0;
    let mut k: usize = 0;
    while k < layout.len()
        invariant
            k <= layout@.len(),
            len == bytes@.len(),
            start == entry_start(layout@, k as int),
            start <= len,
            entry_start(layout@, layout@.len() as int) <= MAX_FIXED_PART,
            container_error(layout@, bytes@) == container_error_from(
                layout@,
                bytes@,
                k as int,
                position(first),
                position(previous),
            ),
        decreases layout@.len() - k,
    {
        proof {
            lemma_entry_start_grows(layout@, k + 1, layout@.len() as int);
        }
        match layout[k] {
            Some(size) => {
                let end: usize = start + size;
                if end > len {
                    return Some(DecodeError::InvalidByteLength { len, expected: end });
                }
                start = end;
            },
            None => {
                if len - start < BYTES_PER_LENGTH_OFFSET {
                    return Some(
                        DecodeError::InvalidLengthPrefix {
                            len: len - start,
                            expected: BYTES_PER_LENGTH_OFFSET,
                        },
                    );
                }
                let offset: usize = read_offset(bytes, start);
                if offset > len {
                    return Some(DecodeError::OffsetOutOfBounds(offset));
                }
                if let Some(previous) = previous {
                    if previous > offset {
                        return Some(DecodeError::OffsetsAreDecreasing(offset));
                    }
                }
                if first.is_none() {
                    first = Some(offset);
                }
                previous = Some(offset);
                start = start + BYTES_PER_LENGTH_OFFSET;
            },
        }
        k = k + 1;
    }
    match first {
        Some(first) => {
            // The first position has to be that of the byte after the entries.
            if first < start {
                Some(DecodeError::OffsetIntoFixedPortion(first))
            } else if first > start {
                Some(DecodeError::OffsetSkipsVariableBytes(first))
            } else {
                None
            }
        },
        None => {
            if len != start {
                Some(DecodeError::InvalidByteLength { len, expected: start })
            } else {
                None
            }
        },
    }
}

/// A position, if there is one.
pub open spec fn position(offset: Option<usize>) -> Option<int> {
    match offset {
        Some(offset) => Some(offset as int),
        None => None,
    }
}

/// The fields of a container, if `bytes` is one with the given layout.
pub fn split_container<'a>(bytes: &'a [u8], layout: &Vec<Option<usize>>) -> (r: Result<
    Vec<&'a [u8]>,
    DecodeError,
>)
    requires
        entry_start(layout@, layout@.len() as int) <= MAX_FIXED_PART,
    ensures
        match r {
            Ok(parts) => {
                &&& container_error(layout@, bytes@) is None
                &&& is_container(layout@, slice_views(parts@), bytes@)
                &&& slice_views(parts@) == fields_of(layout@, bytes@)
                &&& forall|p: Seq<Seq<u8>>|
                    is_container(layout@, p, bytes@) ==> p == slice_views(parts@)
            },
            Err(e) => {
                &&& container_error(layout@, bytes@) == Some(e@)
                &&& forall|p: Seq<Seq<u8>>| !is_container(layout@, p, bytes@)
            },
        },
{
    let n: usize = layout.len();
    let head: usize = fixed_part_len(layout);
    if let Some(e) = container_fault(bytes, layout) {
        assert forall|p: Seq<Seq<u8>>| !is_container(layout@, p, bytes@) by {
            if is_container(layout@, p, bytes@) {
                lemma_container_has_no_error(layout@, p, bytes@, 0, None, None);
            }
        }
        return Err(e);
    }
    proof {
        lemma_entries_in_order(layout@, bytes@, 0, None, None);
    }
    let mut parts: Vec<&'a [u8]> = Vec::new();
    let mut i: usize = 0;
    while i < n
        invariant
            i <= n,
            parts@.len() == i,
        decreases n - i,
    {
        parts.push(bytes);
        i = i + 1;
    }
    // The fields are read from the last to the first: `end` is where the next one ends.
    let mut end: usize = bytes.len();
    let mut start: usize = head;
    let mut k: usize = n;
    while k > 0
        invariant
            k <= n,
            n == layout@.len(),
            head == entry_start(layout@, n as int),
            head <= MAX_FIXED_PART,
            parts@.len() == n,
            start == entry_start(layout@, k as int),
            start <= head <= bytes@.len(),
            end <= bytes@.len(),
            end == next_offset(layout@, bytes@, k as int),
            forall|j: int|
                0 <= j < n && layout@[j] is None ==> #[trigger] offset_of(layout@, bytes@, j)
                    <= next_offset(layout@, bytes@, j + 1),
            bytes@.len() == end + tail_len(layout@, slice_views(parts@), k as int),
            forall|j: int|
                k <= j < n && layout@[j] is Some ==> #[trigger] parts@[j]@ == entry(
                    layout@,
                    bytes@,
                    j,
                ),
            forall|j: int|
                k <= j < n && layout@[j] is None ==> {
                    let offset = bytes@.len() - tail_len(layout@, slice_views(parts@), j);
                    &&& offset == vstd::bytes::spec_u32_from_le_bytes(
                        entry(layout@, bytes@, j),
                    )
                    &&& #[trigger] parts@[j]@ == bytes@.subrange(
                        offset,
                        offset + parts@[j]@.len(),
                    )
                },
            forall|p: Seq<Seq<u8>>, j: int|
                is_container(layout@, p, bytes@) && k <= j < n ==> #[trigger] p[j] == parts@[j]@,
        decreases k,
    {
        let ghost before = parts@;
        let ghost at = k - 1;
        proof {
            lemma_entry_start_grows(layout@, at, k as int);
            assert forall|p: Seq<Seq<u8>>| #[trigger]
                is_container(layout@, p, bytes@) implies tail_len(layout@, p, k as int)
                == bytes@.len() - end by {
                lemma_tail_len_ext(layout@, p, slice_views(parts@), k as int);
            }
        }
        k = k - 1;
        match layout[k] {
            Some(size) => {
                start = start - size;
                let part: &'a [u8] = slice_subrange(bytes, start, start + size);
                parts.set(k, part);
                proof {
                    lemma_tail_len_ext(
                        layout@,
                        slice_views(before),
                        slice_views(parts@),
                        k + 1,
                    );
                    assert forall|p: Seq<Seq<u8>>, j: int|
                        is_container(layout@, p, bytes@) && k <= j < n implies #[trigger] p[j]
                        == parts@[j]@ by {
                        if j == k {
                            assert(holds_field(layout@, p, bytes@, k as int));
                        } else {
                            assert(p[j] == before[j]@);
                        }
                    }
                }
            },
            None => {
                start = start - BYTES_PER_LENGTH_OFFSET;
                let offset: usize = read_offset(bytes, start);
                assert(offset == offset_of(layout@, bytes@, k as int));
                proof {
                    assert forall|p: Seq<Seq<u8>>| #[trigger]
                        is_container(layout@, p, bytes@) implies offset <= end && p[k as int]
                        == bytes@.subrange(offset as int, end as int) by {
                        assert(holds_field(layout@, p, bytes@, k as int));
                        assert(tail_len(layout@, p, k as int) == p[k as int].len() + tail_len(
                            layout@,
                            p,
                            k + 1,
                        ));
                    }
                }
                let part: &'a [u8] = slice_subrange(bytes, offset, end);
                parts.set(k, part);
                proof {
                    lemma_tail_len_ext(
                        layout@,
                        slice_views(before),
                        slice_views(parts@),
                        k + 1,
                    );
                    assert forall|p: Seq<Seq<u8>>, j: int|
                        is_container(layout@, p, bytes@) && k <= j < n implies #[trigger] p[j]
                        == parts@[j]@ by {
                        if j != k {
                            assert(p[j] == before[j]@);
                        }
                    }
                }
                end = offset;
            },
        }
        proof {
            assert forall|j: int| k < j < n implies tail_len(layout@, slice_views(before), j)
                == #[trigger] tail_len(layout@, slice_views(parts@), j) by {
                lemma_tail_len_ext(layout@, slice_views(before), slice_views(parts@), j);
            }
            assert forall|j: int| k <= j < n && layout@[j] is Some implies #[trigger] parts@[j]@
                == entry(layout@, bytes@, j) by {
                if j != k {
                    assert(parts@[j]@ == before[j]@);
                }
            }
            assert forall|j: int| k <= j < n && layout@[j] is None implies ({
                let offset = bytes@.len() - tail_len(layout@, slice_views(parts@), j);
                &&& offset == vstd::bytes::spec_u32_from_le_bytes(
                    entry(layout@, bytes@, j),
                )
                &&& #[trigger] parts@[j]@ == bytes@.subrange(offset, offset + parts@[j]@.len())
            }) by {
                if j != k {
                    assert(parts@[j]@ == before[j]@);
                    assert(tail_len(layout@, slice_views(before), j) == tail_len(
                        layout@,
                        slice_views(parts@),
                        j,
                    ));
                }
            }
        }
    }
    assert(end == head);
    proof {
        assert forall|j: int| 0 <= j < layout@.len() implies #[trigger] holds_field(
            layout@,
            slice_views(parts@),
            bytes@,
            j,
        ) by {
            assert(parts@[j]@ == slice_views(parts@)[j]);
        }
        assert forall|p: Seq<Seq<u8>>| #[trigger] is_container(layout@, p, bytes@) implies p
            == slice_views(parts@) by {
            assert forall|j: int| 0 <= j < p.len() implies p[j] == slice_views(parts@)[j] by {
                assert(p[j] == parts@[j]@);
            }
            assert(p =~= slice_views(parts@));
        }
        assert(is_container(layout@, slice_views(parts@), bytes@));
    }
    Ok(parts)
}

/// The `N` bytes from `at` on.
pub fn read_bytes<const N: usize>(bytes: &[u8], at: usize) -> (r: FixedBytes<N>)
    requires
        at + N <= bytes.len(),
    ensures
        r.bytes() == bytes@.subrange(at as int, at + N),
{
    let mut r = FixedBytes([0u8;N]);
    let mut i: usize = 0;
    while i < N
        invariant
            i <= N,
            at + N <= bytes.len(),
            forall|j: int| 0 <= j < i ==> r.0@[j] == bytes@[at + j],
        decreases N - i,
    {
        r.0[i] = bytes[at + i];
        i = i + 1;
    }
    assert(r.bytes() =~= bytes@.subrange(at as int, at + N));
    r
}

/// The integer in the eight bytes from `at` on, the lowest byte first.
pub fn read_u64(bytes: &[u8], at: usize) -> (r: u64)
    requires
        at + 8 <= bytes.len(),
    ensures
        vstd::bytes::spec_u64_to_le_bytes(r) == bytes@.subrange(at as int, at + 8),
{
    proof {
        vstd::bytes::lemma_auto_spec_u64_to_from_le_bytes();
    }
    u64_from_le_bytes(slice_subrange(bytes, at, at + 8))
}

/// The bytes of a field of `N` bytes.
pub fn bytes_field<const N: usize>(part: &[u8]) -> (r: FixedBytes<N>)
    requires
        part@.len() == N,
    ensures
        r.bytes() == part@,
{
    assert(part@.subrange(0, N as int) =~= part@);
    read_bytes(part, 0)
}

/// The integer in a field of eight bytes.
pub fn u64_field(part: &[u8]) -> (r: u64)
    requires
        part@.len() == 8,
    ensures
        vstd::bytes::spec_u64_to_le_bytes(r) == part@,
{
    assert(part@.subrange(0, 8) =~= part@);
    read_u64(part, 0)
}

/// A value whose encoding always has the same length.
pub trait FixedSsz: Sized {
    /// The length of the encoding.
    spec fn ssz_len() -> nat;

    /// The encoding.
    spec fn ssz(self) -> Seq<u8>;

    /// The encoding is of the stated length, and no other value has it.
    proof fn lemma_ssz(a: Self, b: Self)
        ensures
            0 < Self::ssz_len() <= 0x1000,
            a.ssz().len() == Self::ssz_len(),
            a.ssz() == b.ssz() ==> a == b,
    ;

    /// The length of the encoding.
    fn ssz_fixed_len() -> (r: usize)
        ensures
            r == Self::ssz_len(),
    ;

    /// The value that `bytes` encodes.
    fn from_ssz_bytes(bytes: &[u8]) -> (r: Self)
        requires
            bytes@.len() == Self::ssz_len(),
        ensures
            r.ssz() == bytes@,
    ;

    /// Appends the encoding.
    fn ssz_append(&self, out: &mut Vec<u8>)
        ensures
            final(out)@ == old(out)@ + self.ssz(),
    ;
}

/// Item `i` of a list of items of `size` bytes each.
pub open spec fn item_bytes(bytes: Seq<u8>, size: nat, i: int) -> Seq<u8> {
    bytes.subrange(i * size, (i + 1) * size)
}

/// Whether `bytes` is the list of the items, one after the other.
pub open spec fn is_list<T: FixedSsz>(items: Seq<T>, bytes: Seq<u8>) -> bool {
    &&& bytes.len() == items.len() * T::ssz_len()
    &&& forall|i: int|
        0 <= i < items.len() ==> (#[trigger] items[i]).ssz() == item_bytes(bytes, T::ssz_len(), i)
}

/// A byte string is the list of at most one sequence of items.
pub proof fn lemma_list_unique<T: FixedSsz>(a: Seq<T>, b: Seq<T>, bytes: Seq<u8>)
    requires
        is_list(a, bytes),
        is_list(b, bytes),
    ensures
        a == b,
{
    let size = T::ssz_len();
    T::lemma_ssz(arbitrary(), arbitrary());
    assert(a.len() == b.len()) by (nonlinear_arith)
        requires
            a.len() * size == b.len() * size,
            size > 0,
    ;
    assert forall|i: int| 0 <= i < a.len() implies a[i] == b[i] by {
        T::lemma_ssz(a[i], b[i]);
    }
    assert(a =~= b);
}

/// Why `len` bytes are no list of at most `limit` items of `size` bytes each, if they are none.
pub open spec fn list_error(len: int, size: int, limit: usize) -> Option<DecodeErrorModel> {
    if len / size > limit {
        Some(
            DecodeErrorModel::BytesInvalid(
                "VariableList of "@ + decimal((len / size) as nat) + " items exceeds maximum of "@
                    + decimal(limit as nat),
            ),
        )
    } else if len % size != 0 {
        Some(DecodeErrorModel::InvalidByteLength { len: len % size, expected: size })
    } else {
        None
    }
}

/// Why `len` bytes are no list of at most `limit` items of `size` bytes each, if they are none.
fn list_fault(len: usize, size: usize, limit: usize) -> (r: Option<DecodeError>)
    requires
        size > 0,
    ensures
        is_fault(r, list_error(len as int, size as int, limit)),
{
    let count: usize = len / size;
    if count > limit {
        let mut message: String = "VariableList of ".to_owned();
        append_decimal(&mut message, count as u64);
        message.append(" items exceeds maximum of ");
        append_decimal(&mut message, limit as u64);
        return Some(DecodeError::BytesInvalid(message));
    }
    if len % size != 0 {
        return Some(DecodeError::InvalidByteLength { len: len % size, expected: size });
    }
    None
}

/// The bytes of a list of at most `limit` bytes.
pub fn decode_byte_list(bytes: &[u8], limit: usize) -> (r: Result<Vec<u8>, DecodeError>)
    ensures
        match r {
            Ok(list) => {
                &&& list_error(bytes@.len() as int, 1, limit) is None
                &&& list@ == bytes@
                &&& bytes@.len() <= limit
            },
            Err(e) => {
                &&& list_error(bytes@.len() as int, 1, limit) == Some(e@)
                &&& bytes@.len() > limit
            },
        },
{
    match list_fault(bytes.len(), 1, limit) {
        Some(e) => Err(e),
        None => Ok(copy_bytes(bytes)),
    }
}

/// The items of a list, if `bytes` is one of at most `limit` items.
pub fn decode_list<T: FixedSsz>(bytes: &[u8], limit: usize) -> (r: Result<Vec<T>, DecodeError>)
    ensures
        match r {
            Ok(items) => {
                &&& list_error(bytes@.len() as int, T::ssz_len() as int, limit) is None
                &&& is_list(items@, bytes@)
                &&& items@.len() <= limit
            },
            Err(e) => {
                &&& list_error(bytes@.len() as int, T::ssz_len() as int, limit) == Some(e@)
                &&& forall|items: Seq<T>|
                    items.len() <= limit ==> !#[trigger] is_list(items, bytes@)
            },
        },
{
    let size: usize = T::ssz_fixed_len();
    proof {
        T::lemma_ssz(arbitrary(), arbitrary());
    }
    let len: usize = bytes.len();
    let count: usize = len / size;
    proof {
        vstd::arithmetic::div_mod::lemma_fundamental_div_mod(len as int, size as int);
        assert(size * count == count * size) by (nonlinear_arith);
        assert forall|items: Seq<T>| #[trigger] is_list(items, bytes@) implies len % size == 0
            && items.len() == count by {
            vstd::arithmetic::div_mod::lemma_mod_multiples_basic(items.len() as int, size as int);
            vstd::arithmetic::div_mod::lemma_div_multiples_vanish(
                items.len() as int,
                size as int,
            );
            assert(items.len() * size == size * items.len()) by (nonlinear_arith);
        }
    }
    if let Some(e) = list_fault(len, size, limit) {
        return Err(e);
    }
    let mut items: Vec<T> = Vec::new();
    let mut i: usize = 0;
    while i < count
        invariant
            i <= count,
            items@.len() == i,
            len == bytes.len(),
            len == count * size,
            size == T::ssz_len(),
            size > 0,
            forall|k: int|
                0 <= k < i ==> (#[trigger] items@[k]).ssz() == item_bytes(
                    bytes@,
                    T::ssz_len(),
                    k,
                ),
        decreases count - i,
    {
        assert(0 <= i * size && (i + 1) * size <= count * size && (i + 1) * size == i * size
            + size) by (nonlinear_arith)
            requires
                i + 1 <= count,
                0 < size,
                0 <= i,
        ;
        let item = T::from_ssz_bytes(slice_subrange(bytes, i * size, i * size + size));
        items.push(item);
        i = i + 1;
    }
    Ok(items)
}

/// The list of the items.
pub fn encode_list<T: FixedSsz>(items: &Vec<T>) -> (r: Vec<u8>)
    ensures
        is_list(items@, r@),
{
    let mut out: Vec<u8> = Vec::new();
    let mut i: usize = 0;
    let ghost size = T::ssz_len();
    proof {
        T::lemma_ssz(arbitrary(), arbitrary());
    }
    while i < items.len()
        invariant
            i <= items@.len(),
            size == T::ssz_len(),
            size > 0,
            out@.len() == i * size,
            forall|k: int|
                0 <= k < i ==> (#[trigger] items@[k]).ssz() == item_bytes(out@, size, k),
        decreases items@.len() - i,
    {
        let ghost before = out@;
        items[i].ssz_append(&mut out);
        proof {
            T::lemma_ssz(items@[i as int], items@[i as int]);
            assert((i + 1) * size == i * size + size) by (nonlinear_arith);
            assert forall|k: int| 0 <= k < i + 1 implies (#[trigger] items@[k]).ssz()
                == item_bytes(out@, size, k) by {
                assert(0 <= k * size && (k + 1) * size <= (i + 1) * size && (k < i ==> (k + 1)
                    * size <= i * size) && (k + 1) * size == k * size + size)
                    by (nonlinear_arith)
                    requires
                        0 <= k <= i,
                        size > 0,
                ;
                if k < i {
                    assert(item_bytes(out@, size, k) =~= item_bytes(before, size, k));
                } else {
                    assert(item_bytes(out@, size, k) =~= items@[k].ssz());
                }
            }
        }
        i = i + 1;
    }
    out
}

/// The layout of `n` fields of variable size.
pub open spec fn variable_layout(n: nat) -> Seq<Option<usize>> {
    Seq::new(n, |i: int| None)
}

/// Whether `bytes` is the list of some byte lists.
pub open spec fn is_list_of_byte_lists(lists: Seq<Seq<u8>>, bytes: Seq<u8>) -> bool {
    is_container(variable_layout(lists.len()), lists, bytes)
}

/// Whether there are at most `max_items` byte lists, of at most `max_bytes` bytes each.
pub open spec fn byte_lists_fit(lists: Seq<Seq<u8>>, max_items: usize, max_bytes: usize) -> bool {
    &&& lists.len() <= max_items
    &&& forall|i: int| 0 <= i < lists.len() ==> (#[trigger] lists[i]).len() <= max_bytes
}

/// The contents of some byte lists.
pub open spec fn byte_list_views(lists: Seq<Vec<u8>>) -> Seq<Seq<u8>> {
    Seq::new(lists.len(), |i: int| lists[i]@)
}

/// Entries of fields of variable size are all of the same size.
pub proof fn lemma_variable_layout(n: nat, k: int)
    requires
        0 <= k <= n,
    ensures
        entry_start(variable_layout(n), k) == BYTES_PER_LENGTH_OFFSET * k,
    decreases k,
{
    if k > 0 {
        lemma_variable_layout(n, k - 1);
    }
}

/// The first position in a list of byte lists tells how many there are.
pub proof fn lemma_byte_list_count(lists: Seq<Seq<u8>>, bytes: Seq<u8>)
    requires
        is_list_of_byte_lists(lists, bytes),
    ensures
        lists.len() == 0 <==> bytes.len() == 0,
        lists.len() > 0 ==> bytes.len() >= BYTES_PER_LENGTH_OFFSET
            && vstd::bytes::spec_u32_from_le_bytes(
            bytes.subrange(0, BYTES_PER_LENGTH_OFFSET as int),
        ) == BYTES_PER_LENGTH_OFFSET * lists.len(),
{
    let layout = variable_layout(lists.len());
    lemma_variable_layout(lists.len(), lists.len() as int);
    if lists.len() > 0 {
        assert(holds_field(layout, lists, bytes, 0));
    }
}

/// The position that stands `i` positions into the bytes.
pub open spec fn nth_offset(bytes: Seq<u8>, i: int) -> int {
    let start = BYTES_PER_LENGTH_OFFSET * i;
    vstd::bytes::spec_u32_from_le_bytes(
        bytes.subrange(start, start + BYTES_PER_LENGTH_OFFSET),
    ) as int
}

/// Why `bytes` is no list of `count` byte lists of at most `max_bytes` bytes each, if the lists
/// before the last of the first `i` positions, which is `offset`, are in order.
pub open spec fn byte_lists_error_from(
    bytes: Seq<u8>,
    count: int,
    i: int,
    offset: int,
    max_bytes: usize,
) -> Option<DecodeErrorModel>
    decreases count - i,
{
    if i >= count {
        list_error(bytes.len() - offset, 1, max_bytes)
    } else {
        let next = nth_offset(bytes, i);
        if next < BYTES_PER_LENGTH_OFFSET * count {
            Some(DecodeErrorModel::OffsetIntoFixedPortion(next))
        } else if next > bytes.len() {
            Some(DecodeErrorModel::OffsetOutOfBounds(next))
        } else if offset > next {
            Some(DecodeErrorModel::OffsetsAreDecreasing(next))
        } else {
            match list_error(next - offset, 1, max_bytes) {
                Some(e) => Some(e),
                None => byte_lists_error_from(bytes, count, i + 1, next, max_bytes),
            }
        }
    }
}

/// Why `bytes` is no list of at most `max_items` byte lists of at most `max_bytes` bytes each, if
/// it is none. The first position tells how many lists there are; then each list is looked at.
pub open spec fn byte_lists_error(bytes: Seq<u8>, max_items: usize, max_bytes: usize) -> Option<
    DecodeErrorModel,
> {
    let len = bytes.len() as int;
    let first = nth_offset(bytes, 0);
    let count = first / BYTES_PER_LENGTH_OFFSET as int;
    if len == 0 {
        None
    } else if len < BYTES_PER_LENGTH_OFFSET {
        Some(
            DecodeErrorModel::InvalidLengthPrefix { len, expected: BYTES_PER_LENGTH_OFFSET as int },
        )
    } else if first > len {
        Some(DecodeErrorModel::OffsetOutOfBounds(first))
    } else if first == 0 || first % BYTES_PER_LENGTH_OFFSET as int != 0 {
        Some(DecodeErrorModel::InvalidListFixedBytesLen(first))
    } else if count > max_items {
        Some(
            DecodeErrorModel::BytesInvalid(
                "Variable length list of "@ + decimal(count as nat)
                    + " items exceeds maximum of Some("@ + decimal(max_items as nat) + ")"@,
            ),
        )
    } else {
        byte_lists_error_from(bytes, count, 1, first, max_bytes)
    }
}

/// Where each of `count` byte lists is in order, so are the entries that tell where they start.
proof fn lemma_byte_list_entries(
    bytes: Seq<u8>,
    count: nat,
    i: int,
    offset: int,
    max_bytes: usize,
)
    requires
        1 <= i <= count,
        BYTES_PER_LENGTH_OFFSET * count <= bytes.len(),
        byte_lists_error_from(bytes, count as int, i, offset, max_bytes) is None,
    ensures
        container_error_from(
            variable_layout(count),
            bytes,
            i,
            Some(BYTES_PER_LENGTH_OFFSET * count),
            Some(offset),
        ) is None,
    decreases count - i,
{
    lemma_variable_layout(count, i);
    if i < count {
        lemma_byte_list_entries(bytes, count, i + 1, nth_offset(bytes, i), max_bytes);
    }
}

/// In a list of byte lists, each of them is in order if it is no longer than it may be.
proof fn lemma_byte_lists_fit(
    bytes: Seq<u8>,
    lists: Seq<Seq<u8>>,
    i: int,
    offset: int,
    max_bytes: usize,
)
    requires
        is_list_of_byte_lists(lists, bytes),
        1 <= i <= lists.len(),
        offset == field_start(variable_layout(lists.len()), lists, i - 1),
    ensures
        byte_lists_error_from(bytes, lists.len() as int, i, offset, max_bytes) is None <==> (
        forall|k: int| i - 1 <= k < lists.len() ==> (#[trigger] lists[k]).len() <= max_bytes),
    decreases lists.len() - i,
{
    let count = lists.len();
    let layout = variable_layout(count);
    lemma_variable_layout(count, count as int);
    lemma_tail_len_shrinks(layout, lists, 0, i - 1);
    assert(tail_len(layout, lists, i - 1) == lists[i - 1].len() + tail_len(layout, lists, i));
    if i < count {
        let next = nth_offset(bytes, i);
        lemma_variable_layout(count, i);
        assert(holds_field(layout, lists, bytes, i));
        assert(next == field_start(layout, lists, i));
        lemma_tail_len_shrinks(layout, lists, 0, i);
        lemma_byte_lists_fit(bytes, lists, i + 1, next, max_bytes);
    } else {
        assert(tail_len(layout, lists, i) == 0);
    }
}

/// Why `bytes` is no list of byte lists within the given bounds, if it is none.
fn byte_lists_fault(bytes: &[u8], max_items: usize, max_bytes: usize) -> (r: Option<DecodeError>)
    requires
        max_items <= MAX_FIXED_PART / BYTES_PER_LENGTH_OFFSET,
    ensures
        is_fault(r, byte_lists_error(bytes@, max_items, max_bytes)),
{
    let len: usize = bytes.len();
    if len == 0 {
        return None;
    }
    if len < BYTES_PER_LENGTH_OFFSET {
        return Some(
            DecodeError::InvalidLengthPrefix { len, expected: BYTES_PER_LENGTH_OFFSET },
        );
    }
    let first: usize = read_offset(bytes, 0);
    if first > len {
        return Some(DecodeError::OffsetOutOfBounds(first));
    }
    if first == 0 || first % BYTES_PER_LENGTH_OFFSET != 0 {
        return Some(DecodeError::InvalidListFixedBytesLen(first));
    }
    let count: usize = first / BYTES_PER_LENGTH_OFFSET;
    if count > max_items {
        let mut message: String = "Variable length list of ".to_owned();
        append_decimal(&mut message, count as u64);
        message.append(" items exceeds maximum of Some(");
        append_decimal(&mut message, max_items as u64);
        message.append(")");
        return Some(DecodeError::BytesInvalid(message));
    }
    let mut offset: usize = first;
    let mut i: usize = 1;
    while i < count
        invariant
            1 <= i <= count,
            len == bytes@.len(),
            first == BYTES_PER_LENGTH_OFFSET * count,
            first <= offset <= len,
            byte_lists_error(bytes@, max_items, max_bytes) == byte_lists_error_from(
                bytes@,
                count as int,
                i as int,
                offset as int,
                max_bytes,
            ),
        decreases count - i,
    {
        let next: usize = read_offset(bytes, i * BYTES_PER_LENGTH_OFFSET);
        assert(next == nth_offset(bytes@, i as int));
        if next < first {
            return Some(DecodeError::OffsetIntoFixedPortion(next));
        }
        if next > len {
            return Some(DecodeError::OffsetOutOfBounds(next));
        }
        if offset > next {
            return Some(DecodeError::OffsetsAreDecreasing(next));
        }
        if let Some(e) = list_fault(next - offset, 1, max_bytes) {
            return Some(e);
        }
        offset = next;
        i = i + 1;
    }
    list_fault(len - offset, 1, max_bytes)
}

/// The byte lists in a list of them, if `bytes` is one within the given bounds.
pub fn decode_byte_lists(bytes: &[u8], max_items: usize, max_bytes: usize) -> (r: Result<
    Vec<Vec<u8>>,
    DecodeError,
>)
    requires
        max_items <= MAX_FIXED_PART / BYTES_PER_LENGTH_OFFSET,
    ensures
        match r {
            Ok(lists) => {
                &&& byte_lists_error(bytes@, max_items, max_bytes) is None
                &&& is_list_of_byte_lists(byte_list_views(lists@), bytes@)
                &&& byte_lists_fit(byte_list_views(lists@), max_items, max_bytes)
            },
            Err(e) => {
                &&& byte_lists_error(bytes@, max_items, max_bytes) == Some(e@)
                &&& forall|lists: Seq<Seq<u8>>|
                    byte_lists_fit(lists, max_items, max_bytes)
                        ==> !#[trigger] is_list_of_byte_lists(lists, bytes@)
            },
        },
{
    if let Some(e) = byte_lists_fault(bytes, max_items, max_bytes) {
        assert forall|lists: Seq<Seq<u8>>|
            byte_lists_fit(lists, max_items, max_bytes) implies !#[trigger] is_list_of_byte_lists(
            lists,
            bytes@,
        ) by {
            if is_list_of_byte_lists(lists, bytes@) {
                let layout = variable_layout(lists.len());
                lemma_byte_list_count(lists, bytes@);
                if lists.len() > 0 {
                    lemma_variable_layout(lists.len(), lists.len() as int);
                    assert(nth_offset(bytes@, 0) == BYTES_PER_LENGTH_OFFSET * lists.len());
                    lemma_byte_lists_fit(
                        bytes@,
                        lists,
                        1,
                        BYTES_PER_LENGTH_OFFSET * lists.len(),
                        max_bytes,
                    );
                }
            }
        }
        return Err(e);
    }
    let mut lists: Vec<Vec<u8>> = Vec::new();
    if bytes.len() == 0 {
        assert(byte_list_views(lists@) =~= Seq::empty());
        return Ok(lists);
    }
    let first: usize = read_offset(bytes, 0);
    let count: usize = first / BYTES_PER_LENGTH_OFFSET;
    let mut layout: Vec<Option<usize>> = Vec::new();
    let mut i: usize = 0;
    while i < count
        invariant
            i <= count,
            layout@ == variable_layout(i as nat),
        decreases count - i,
    {
        layout.push(None);
        assert(layout@ =~= variable_layout((i + 1) as nat));
        i = i + 1;
    }
    proof {
        lemma_variable_layout(count as nat, 1);
        lemma_variable_layout(count as nat, count as int);
        lemma_byte_list_entries(bytes@, count as nat, 1, first as int, max_bytes);
        assert(offset_of(layout@, bytes@, 0) == first);
    }
    match split_container(bytes, &layout) {
        Ok(parts) => {
            let ghost views = slice_views(parts@);
            proof {
                lemma_byte_lists_fit(bytes@, views, 1, first as int, max_bytes);
            }
            let mut i: usize = 0;
            while i < parts.len()
                invariant
                    i <= parts@.len(),
                    views == slice_views(parts@),
                    lists@.len() == i,
                    forall|k: int| 0 <= k < i ==> (#[trigger] lists@[k])@ == views[k],
                decreases parts@.len() - i,
            {
                assert(views[i as int] == parts@[i as int]@);
                lists.push(copy_bytes(parts[i]));
                i = i + 1;
            }
            assert(byte_list_views(lists@) =~= views);
            Ok(lists)
        },
        Err(e) => Err(e),
    }
}

/// Whether fields can be laid out as a container: those of fixed size have it, and every position
/// can be written.
pub open spec fn fits_layout(layout: Seq<Option<usize>>, parts: Seq<Seq<u8>>) -> bool {
    &&& parts.len() == layout.len()
    &&& forall|k: int|
        0 <= k < layout.len() && layout[k] is Some ==> (#[trigger] parts[k]).len() == layout[k]->0
    &&& entry_start(layout, layout.len() as int) <= MAX_FIXED_PART
    &&& entry_start(layout, layout.len() as int) + tail_len(layout, parts, 0) <= u32::MAX
}

/// The container with the given layout and fields.
pub fn encode_container(layout: &Vec<Option<usize>>, parts: &Vec<Vec<u8>>) -> (r: Vec<u8>)
    requires
        fits_layout(layout@, byte_list_views(parts@)),
    ensures
        is_container(layout@, byte_list_views(parts@), r@),
{
    let ghost views = byte_list_views(parts@);
    let n: usize = layout.len();
    let head: usize = fixed_part_len(layout);
    let mut out: Vec<u8> = Vec::new();
    let mut start: u32 = head as u32;
    let mut k: usize = 0;
    while k < n
        invariant
            k <= n,
            n == layout@.len(),
            views == byte_list_views(parts@),
            fits_layout(layout@, views),
            head == entry_start(layout@, n as int),
            out@.len() == entry_start(layout@, k as int),
            start == field_start(layout@, views, k as int),
            forall|j: int|
                0 <= j < k && layout@[j] is Some ==> #[trigger] entry(layout@, out@, j)
                    == views[j],
            forall|j: int|
                0 <= j < k && layout@[j] is None ==> vstd::bytes::spec_u32_from_le_bytes(
                    #[trigger] entry(layout@, out@, j),
                ) == field_start(layout@, views, j),
        decreases n - k,
    {
        let ghost before = out@;
        proof {
            lemma_tail_len_shrinks(layout@, views, 0, k as int);
            lemma_tail_len_shrinks(layout@, views, k as int, k + 1);
            vstd::bytes::lemma_auto_spec_u32_to_from_le_bytes();
            assert(views[k as int] == parts@[k as int]@);
        }
        match layout[k] {
            Some(_) => {
                push_slice(&mut out, parts[k].as_slice());
            },
            None => {
                push_slice(&mut out, u32_to_le_bytes(start).as_slice());
                start = start + parts[k].len() as u32;
            },
        }
        proof {
            assert forall|j: int| 0 <= j < k implies #[trigger] entry(layout@, out@, j) == entry(
                layout@,
                before,
                j,
            ) by {
                lemma_entry_start_grows(layout@, j + 1, k as int);
                assert(entry(layout@, out@, j) =~= entry(layout@, before, j));
            }
            assert(entry(layout@, out@, k as int) =~= out@.subrange(
                before.len() as int,
                out@.len() as int,
            ));
            assert(out@.subrange(before.len() as int, out@.len() as int) =~= out@.skip(
                before.len() as int,
            ));
            if layout@[k as int] is Some {
                assert(entry(layout@, out@, k as int) =~= views[k as int]);
            } else {
                assert(entry(layout@, out@, k as int) =~= vstd::bytes::spec_u32_to_le_bytes(
                    field_start(layout@, views, k as int) as u32,
                ));
            }
        }
        k = k + 1;
    }
    let ghost entries = out@;
    let mut k: usize = 0;
    while k < n
        invariant
            k <= n,
            n == layout@.len(),
            views == byte_list_views(parts@),
            fits_layout(layout@, views),
            entries.len() == entry_start(layout@, n as int),
            out@.len() == field_start(layout@, views, k as int),
            entries == out@.take(entries.len() as int),
            entries.len() <= out@.len(),
            forall|j: int|
                0 <= j < k && layout@[j] is None ==> #[trigger] views[j] == out@.subrange(
                    field_start(layout@, views, j),
                    field_start(layout@, views, j) + views[j].len(),
                ) && field_start(layout@, views, j) + views[j].len() <= out@.len(),
        decreases n - k,
    {
        let ghost before = out@;
        assert(views[k as int] == parts@[k as int]@);
        match layout[k] {
            Some(_) => {},
            None => {
                push_slice(&mut out, parts[k].as_slice());
            },
        }
        proof {
            lemma_tail_len_shrinks(layout@, views, 0, k as int);
            assert(out@.take(entries.len() as int) =~= before.take(entries.len() as int));
            assert forall|j: int| 0 <= j < k + 1 && layout@[j] is None implies #[trigger] views[j]
                == out@.subrange(
                field_start(layout@, views, j),
                field_start(layout@, views, j) + views[j].len(),
            ) && field_start(layout@, views, j) + views[j].len() <= out@.len() by {
                lemma_tail_len_shrinks(layout@, views, 0, j);
                assert(views[j] =~= out@.subrange(
                    field_start(layout@, views, j),
                    field_start(layout@, views, j) + views[j].len(),
                ));
            }
        }
        k = k + 1;
    }
    proof {
        assert forall|j: int| 0 <= j < layout@.len() implies #[trigger] holds_field(
            layout@,
            views,
            out@,
            j,
        ) by {
            lemma_entry_start_grows(layout@, j + 1, n as int);
            assert(entry(layout@, out@, j) =~= entry(layout@, entries, j));
            if layout@[j] is None {
                assert(views[j].len() >= 0);
            }
        }
    }
    out
}

/// The bytes of a slice.
pub fn copy_bytes(bytes: &[u8]) -> (r: Vec<u8>)
    ensures
        r@ == bytes@,
{
    let mut r: Vec<u8> = Vec::new();
    push_slice(&mut r, bytes);
    r
}

/// Appends the bytes of a slice.
pub fn push_slice(out: &mut Vec<u8>, bytes: &[u8])
    ensures
        final(out)@ == old(out)@ + bytes@,
{
    let mut i: usize = 0;
    while i < bytes.len()
        invariant
            i <= bytes@.len(),
            out@ == old(out)@ + bytes@.take(i as int),
        decreases bytes@.len() - i,
    {
        out.push(bytes[i]);
        i = i + 1;
    }
    assert(bytes@.take(i as int) == bytes@);
}

/// Appends an integer, its lowest byte first.
pub fn append_u64(value: u64, out: &mut Vec<u8>)
    ensures
        final(out)@ == old(out)@ + vstd::bytes::spec_u64_to_le_bytes(value),
{
    let bytes = u64_to_le_bytes(value);
    push_slice(out, bytes.as_slice());
}

/// No two integers have the same bytes.
pub proof fn lemma_u64_bytes(a: u64, b: u64)
    ensures
        vstd::bytes::spec_u64_to_le_bytes(a).len() == 8,
        vstd::bytes::spec_u64_to_le_bytes(b).len() == 8,
        vstd::bytes::spec_u64_to_le_bytes(a) == vstd::bytes::spec_u64_to_le_bytes(b) ==> a == b,
{
    vstd::bytes::lemma_auto_spec_u64_to_from_le_bytes();
}

} // verus!
