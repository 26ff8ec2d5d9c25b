//! The offset propagator: what one replacement does to the index.
//!
//! A replacement exchanges the payload of one file, the pivot. Where the new
//! payload has another size than the file had in the source image, every file
//! that the source image holds behind the pivot moves: by the difference of
//! the sizes, rounded up to the 4-byte alignment that payloads keep between
//! each other. The files move backward when the pivot shrinks and forward
//! when it grows.

use crate::error::{FstError, FstErrorView};
use crate::index::{keyed, resolve_spec, FstIndex};
use crate::record::Record;
use vstd::prelude::*;

verus! {

/// Alignment, in bytes, that payloads keep between each other.
pub const PAYLOAD_ALIGNMENT: u64 = 4;

/// The least multiple of `unit` that is not below `n`.
pub open spec fn round_up(n: nat, unit: nat) -> nat
    recommends
        unit > 0,
{
    if n % unit == 0 {
        n
    } else {
        (n + (unit - n % unit)) as nat
    }
}

/// How far apart the two sizes are.
pub open spec fn size_delta(original_size: u32, new_len: u32) -> nat {
    if original_size <= new_len {
        (new_len - original_size) as nat
    } else {
        (original_size - new_len) as nat
    }
}

/// The distance by which the files behind the pivot move: the difference of
/// the sizes, rounded up to a multiple of 4.
pub open spec fn padded_delta_spec(original_size: u32, new_len: u32) -> nat {
    round_up(size_delta(original_size, new_len), 4)
}

/// The signed distance by which the files behind the pivot move: backward,
/// so negative, when the pivot shrinks, forward when it grows.
pub open spec fn offset_shift(original_size: u32, new_len: u32) -> int {
    if new_len < original_size {
        -(padded_delta_spec(original_size, new_len) as int)
    } else {
        padded_delta_spec(original_size, new_len) as int
    }
}

/// `round_up` gives a multiple of the unit, at least `n` and less than one
/// unit above it.
pub proof fn lemma_round_up(n: nat, unit: nat)
    requires
        unit > 0,
    ensures
        round_up(n, unit) % unit == 0,
        n <= round_up(n, unit) < n + unit,
{
    let r = round_up(n, unit);
    assert(r % unit == 0 && n <= r < n + unit) by (nonlinear_arith)
        requires
            unit > 0,
            r == if n % unit == 0 {
                n
            } else {
                (n + (unit - n % unit)) as nat
            },
    ;
}

/// No multiple of the unit lies between `n` and `round_up(n, unit)`.
pub proof fn lemma_round_up_is_least(n: nat, unit: nat, m: nat)
    requires
        unit > 0,
        m % unit == 0,
        n <= m,
    ensures
        round_up(n, unit) <= m,
{
    let r = round_up(n, unit);
    lemma_round_up(n, unit);
    assert(r <= m) by (nonlinear_arith)
        requires
            unit > 0,
            m % unit == 0,
            r % unit == 0,
            n <= m,
            n <= r < n + unit,
    ;
}

/// Computes the distance by which the files behind the pivot move.
pub fn padded_delta(original_size: u32, new_len: u32) -> (delta: u64)
    ensures
        delta == padded_delta_spec(original_size, new_len),
{
    let delta: u64 = if original_size <= new_len {
        (new_len - original_size) as u64
    } else {
        (original_size - new_len) as u64
    };
    let rest = delta % PAYLOAD_ALIGNMENT;
    if rest == 0 {
        delta
    } else {
        delta + (PAYLOAD_ALIGNMENT - rest)
    }
}

/// Whether the record under `k` belongs to a file that the source image
/// holds behind the pivot.
pub open spec fn is_later(m: Map<u32, Record>, pivot: u32, k: u32) -> bool {
    m[k].original_offset > m[pivot].original_offset
}

/// The record `r` with a new payload.
pub open spec fn retargeted(r: Record, payload: Seq<u8>) -> Record {
    Record { updated_size: payload.len() as u32, data: payload, ..r }
}

/// The record `r` moved by `shift` bytes.
pub open spec fn shifted(r: Record, shift: int) -> Record {
    Record { updated_offset: (r.updated_offset + shift) as u32, ..r }
}

/// Whether the replacement of the pivot's payload by `payload` can be written
/// down: the new size and every moved offset fit in 32 bits.
pub open spec fn fits(m: Map<u32, Record>, pivot: u32, payload: Seq<u8>) -> bool {
    &&& payload.len() <= u32::MAX
    &&& forall|k: u32| #[trigger]
        m.contains_key(k) && is_later(m, pivot, k) ==> 0 <= m[k].updated_offset + offset_shift(
            m[pivot].original_size,
            payload.len() as u32,
        ) <= u32::MAX
}

/// The index after the pivot's payload has been replaced by `payload`: the
/// pivot has the new payload and size, the files behind it have moved, and
/// nothing else has changed.
pub open spec fn replaced(m: Map<u32, Record>, pivot: u32, payload: Seq<u8>) -> Map<u32, Record> {
    let shift = offset_shift(m[pivot].original_size, payload.len() as u32);
    Map::new(
        |k: u32| m.contains_key(k),
        |k: u32|
            if k == pivot {
                retargeted(m[k], payload)
            } else if is_later(m, pivot, k) {
                shifted(m[k], shift)
            } else {
                m[k]
            },
    )
}

/// One step of the rebuild: the index after the file named `target` has been
/// given the payload `payload`, or the reason why it cannot be done.
pub open spec fn apply_spec(m: Map<u32, Record>, target: Seq<char>, payload: Seq<u8>) -> Result<
    Map<u32, Record>,
    FstErrorView,
> {
    match resolve_spec(m, target) {
        Err(error) => Err(error),
        Ok(pivot) => if fits(m, pivot, payload) {
            Ok(replaced(m, pivot, payload))
        } else {
            Err(FstErrorView::OffsetOutOfRange { target })
        },
    }
}

impl FstIndex {
    /// Replaces the payload of the record under `pivot`, as `apply` does once
    /// it has found the pivot.
    fn replace_at(&mut self, pivot: u32, target: &str, payload: Vec<u8>) -> (result: Result<
        (),
        FstError,
    >)
        requires
            old(self)@.contains_key(pivot),
        ensures
            fits(old(self)@, pivot, payload@) ==> result is Ok && final(self)@ == replaced(
                old(self)@,
                pivot,
                payload@,
            ),
            !fits(old(self)@, pivot, payload@) ==> final(self)@ == old(self)@ && (result matches Err(
                e,
            ) && e@ == (FstErrorView::OffsetOutOfRange { target: target@ })),
    {
        self.check_keys();
        if payload.len() > u32::MAX as usize {
            return Err(FstError::OffsetOutOfRange { target: target.to_owned() });
        }
        let new_len: u32 = payload.len() as u32;
        let original_size: u32 = match self.get(pivot) {
            Some(record) => record.original_size,
            None => {
                assert(false);
                0
            },
        };
        let delta: u64 = padded_delta(original_size, new_len);
        let shrinks: bool = new_len < original_size;
        let ghost shift = offset_shift(original_size, new_len);
        let keys = self.keys();

        // First pass: find where every later file would go, and change nothing.
        let mut moved: Vec<u32> = Vec::new();
        let mut i: usize = 0;
        while i < keys.len()
            invariant
                i <= keys.len(),
                moved@.len() == i,
                *self == *old(self),
                keyed(self@),
                self@.contains_key(pivot),
                forall|k: u32| keys@.contains(k) <==> self@.contains_key(k),
                shift == offset_shift(original_size, new_len),
                original_size == self@[pivot].original_size,
                new_len == payload@.len(),
                delta == padded_delta_spec(original_size, new_len),
                shrinks == (new_len < original_size),
                forall|j: int|
                    #![trigger keys@[j]]
                    0 <= j < i && is_later(self@, pivot, keys@[j]) ==> 0 <= self@[keys@[j]].updated_offset
                        + shift <= u32::MAX && moved@[j] == self@[keys@[j]].updated_offset + shift,
            decreases keys.len() - i,
        {
            let key = keys[i];
            assert(keys@.contains(key));
            assert(self@.contains_key(key) && self@[key].original_offset == key);
            assert(self@[pivot].original_offset == pivot);
            let mut target_offset: u32 = 0;
            if key > pivot {
                let offset: u64 = match self.get(key) {
                    Some(record) => record.updated_offset as u64,
                    None => {
                        assert(false);
                        0
                    },
                };
                if shrinks {
                    if offset < delta {
                        assert(!fits(self@, pivot, payload@)) by {
                            assert(self@.contains_key(key) && is_later(self@, pivot, key));
                        }
                        return Err(FstError::OffsetOutOfRange { target: target.to_owned() });
                    }
                    target_offset = (offset - delta) as u32;
                } else {
                    if delta > u32::MAX as u64 || offset > u32::MAX as u64 - delta {
                        assert(!fits(self@, pivot, payload@)) by {
                            assert(self@.contains_key(key) && is_later(self@, pivot, key));
                        }
                        return Err(FstError::OffsetOutOfRange { target: target.to_owned() });
                    }
                    target_offset = (offset + delta) as u32;
                }
            }
            moved.push(target_offset);
            i = i + 1;
        }
        assert(fits(self@, pivot, payload@)) by {
            assert forall|k: u32| #[trigger]
                self@.contains_key(k) && is_later(self@, pivot, k) implies 0
                <= self@[k].updated_offset + shift <= u32::MAX by {
                assert(keys@.contains(k));
                let j = choose|j: int| 0 <= j < keys@.len() && keys@[j] == k;
                assert(is_later(self@, pivot, keys@[j]));
            }
        }

        // Second pass: move the later files, then exchange the pivot's payload.
        let mut i: usize = 0;
        while i < keys.len()
            invariant
                i <= keys.len(),
                moved@.len() == keys@.len(),
                keys@.no_duplicates(),
                keyed(old(self)@),
                old(self)@.contains_key(pivot),
                forall|k: u32| keys@.contains(k) <==> old(self)@.contains_key(k),
                forall|j: int|
                    #![trigger keys@[j]]
                    0 <= j < keys@.len() && is_later(old(self)@, pivot, keys@[j]) ==> moved@[j]
                        == old(self)@[keys@[j]].updated_offset + shift,
                self@.dom() == old(self)@.dom(),
                forall|j: int|
                    #![trigger keys@[j]]
                    0 <= j < keys@.len() ==> self@[keys@[j]] == if j < i && is_later(
                        old(self)@,
                        pivot,
                        keys@[j],
                    ) {
                        shifted(old(self)@[keys@[j]], shift)
                    } else {
                        old(self)@[keys@[j]]
                    },
            decreases keys.len() - i,
        {
            let key = keys[i];
            assert(keys@.contains(key));
            assert(old(self)@.contains_key(key) && old(self)@[key].original_offset == key);
            assert(old(self)@[pivot].original_offset == pivot);
            if key > pivot {
                let ghost before = self@;
                self.set_updated_offset(key, moved[i]);
                proof {
                    assert(self@.dom() =~= old(self)@.dom());
                    assert forall|j: int| 0 <= j < keys@.len() implies self@[keys@[j]] == if j < i
                        + 1 && is_later(old(self)@, pivot, keys@[j]) {
                        shifted(old(self)@[keys@[j]], shift)
                    } else {
                        old(self)@[keys@[j]]
                    } by {
                        if j != i {
                            assert(keys@[j] != keys@[i as int]);
                            assert(self@[keys@[j]] == before[keys@[j]]);
                        }
                    }
                }
            }
            i = i + 1;
        }
        let ghost before = self@;
        self.set_payload(pivot, new_len, payload);
        proof {
            let after = replaced(old(self)@, pivot, payload@);
            assert forall|k: u32| after.contains_key(k) implies self@[k] == after[k] by {
                assert(keys@.contains(k));
                let j = choose|j: int| 0 <= j < keys@.len() && keys@[j] == k;
                assert(before[keys@[j]] == if is_later(old(self)@, pivot, keys@[j]) {
                    shifted(old(self)@[keys@[j]], shift)
                } else {
                    old(self)@[keys@[j]]
                });
            }
            assert(self@ =~= after);
        }
        Ok(())
    }

    /// Replaces the payload of the file named `target` by `payload` and moves
    /// the files behind it.
    ///
    /// Fails with `AmbiguousOrMissingTarget` when the index does not hold
    /// exactly one record of that name, and otherwise with `OffsetOutOfRange`
    /// when the new size or a moved offset does not fit in 32 bits. A failed
    /// replacement leaves the index as it was.
    pub fn apply(&mut self, target: &str, payload: Vec<u8>) -> (result: Result<(), FstError>)
        ensures
            match apply_spec(old(self)@, target@, payload@) {
                Ok(m) => result is Ok && final(self)@ == m,
                Err(error) => result matches Err(e) && e@ == error && final(self)@ == old(self)@,
            },
    {
        let pivot = match self.resolve(target) {
            Ok(pivot) => pivot,
            Err(error) => {
                return Err(error);
            },
        };
        self.check_keys();
        proof {
            crate::index::lemma_resolved_is_unique(self@, target@, pivot);
        }
        self.replace_at(pivot, target, payload)
    }
}

} // verus!
