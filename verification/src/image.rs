//! The image assembler: the rebuilt image around the rewritten table.
//!
//! The image starts with the preamble, the bytes of the source image in front
//! of the table, taken over as they are. The rewritten table follows. Then
//! every payload of the index is written at its updated offset, in ascending
//! order of updated offset, into a buffer that grows as far as the payloads
//! reach and is filled with zeros where nothing is written. At the end the
//! image is padded with zeros up to a 32-byte boundary and by one more block
//! of 32 bytes.

use crate::index::FstIndex;
use crate::propagate::round_up;
use crate::record::Record;
use vstd::prelude::*;
use vstd::slice::slice_subrange;

verus! {

/// Where the table starts in the image.
pub const FST_OFFSET: usize = 0x456e00;

/// How many bytes of the image the table and its string table take up.
pub const FST_LENGTH: usize = 0x7529;

/// Alignment, in bytes, of the end of the image.
pub const IMAGE_ALIGNMENT: usize = 32;

/// The smaller of two numbers.
pub open spec fn at_most(n: int, limit: int) -> int {
    if n <= limit {
        n
    } else {
        limit
    }
}

/// The bytes of `image` in front of the table, as far as the image reaches.
pub open spec fn preamble_of(image: Seq<u8>) -> Seq<u8> {
    image.subrange(0, at_most(FST_OFFSET as int, image.len() as int))
}

/// The bytes of `image` that hold the table and its string table, as far as
/// the image reaches.
pub open spec fn fst_region(image: Seq<u8>) -> Seq<u8> {
    image.subrange(
        at_most(FST_OFFSET as int, image.len() as int),
        at_most(FST_OFFSET + FST_LENGTH, image.len() as int),
    )
}

/// The buffer `buf` after `data` has been written at position `at`: the
/// buffer grows to hold the data, and where it grows beyond its old end
/// without being written, it holds zeros.
pub open spec fn write_at(buf: Seq<u8>, at: int, data: Seq<u8>) -> Seq<u8> {
    Seq::new(
        if buf.len() >= at + data.len() {
            buf.len()
        } else {
            (at + data.len()) as nat
        },
        |p: int|
            if at <= p < at + data.len() {
                data[p - at]
            } else if p < buf.len() {
                buf[p]
            } else {
                0u8
            },
    )
}

/// Whether the payload under key `a` is written before the one under `b`:
/// payloads are written in ascending order of updated offset, and those with
/// the same updated offset in ascending order of original offset.
pub open spec fn writes_before(m: Map<u32, Record>, a: u32, b: u32) -> bool {
    m[a].updated_offset < m[b].updated_offset || (m[a].updated_offset == m[b].updated_offset && a
        < b)
}

/// Whether `order` lists every key of `m` in the order in which the payloads
/// are written.
pub open spec fn is_write_order(m: Map<u32, Record>, order: Seq<u32>) -> bool {
    &&& forall|k: u32| order.contains(k) <==> m.contains_key(k)
    &&& forall|i: int, j: int|
        0 <= i < j < order.len() ==> writes_before(m, #[trigger] order[i], #[trigger] order[j])
}

/// The keys of `m` in the order in which the payloads are written.
pub open spec fn write_order(m: Map<u32, Record>) -> Seq<u32> {
    choose|order: Seq<u32>| is_write_order(m, order)
}

/// The buffer `buf` after the payloads under the keys `order` have been
/// written to it, one after the other.
pub open spec fn write_all(buf: Seq<u8>, m: Map<u32, Record>, order: Seq<u32>) -> Seq<u8>
    decreases order.len(),
{
    if order.len() == 0 {
        buf
    } else {
        let record = m[order.last()];
        write_at(
            write_all(buf, m, order.drop_last()),
            record.updated_offset as int,
            record.data,
        )
    }
}

/// The length of an image whose content is `n` bytes long: the next multiple
/// of 32 that is not below `n`, and 32 more.
pub open spec fn padded_len(n: nat) -> nat {
    round_up(n, 32) + 32
}

/// The content followed by its padding of zeros.
pub open spec fn with_padding(content: Seq<u8>) -> Seq<u8> {
    Seq::new(
        padded_len(content.len()),
        |p: int|
            if p < content.len() {
                content[p]
            } else {
                0u8
            },
    )
}

/// The content of the rebuilt image before it is padded.
pub open spec fn content_spec(preamble: Seq<u8>, table: Seq<u8>, m: Map<u32, Record>) -> Seq<u8> {
    write_all(preamble + table, m, write_order(m))
}

/// The rebuilt image.
pub open spec fn image_spec(preamble: Seq<u8>, table: Seq<u8>, m: Map<u32, Record>) -> Seq<u8> {
    with_padding(content_spec(preamble, table, m))
}

/// Two write orders of the same index are the same.
pub proof fn lemma_write_order_unique(m: Map<u32, Record>, a: Seq<u32>, b: Seq<u32>)
    requires
        is_write_order(m, a),
        is_write_order(m, b),
    ensures
        a == b,
    decreases a.len(),
{
    if a.len() == 0 {
        if b.len() > 0 {
            assert(b.contains(b[0]));
            assert(a.contains(b[0]));
        }
        assert(a =~= b);
    } else {
        // The last key of `a` is the greatest key, so it is the last key of `b`.
        let top = a.last();
        assert(a.contains(top));
        assert(b.contains(top));
        let at = choose|i: int| 0 <= i < b.len() && b[i] == top;
        if at < b.len() - 1 {
            let above = b[at + 1];
            assert(writes_before(m, top, above));
            assert(b.contains(above));
            assert(a.contains(above));
            let i = choose|i: int| 0 <= i < a.len() && a[i] == above;
            if i < a.len() - 1 {
                assert(writes_before(m, a[i], a[a.len() - 1]));
            }
            assert(false);
        }
        let a0 = a.drop_last();
        let b0 = b.drop_last();
        let m0 = m.remove(top);
        assert(is_write_order(m0, a0)) by {
            assert forall|k: u32| a0.contains(k) <==> m0.contains_key(k) by {
                if a0.contains(k) {
                    let i = choose|i: int| 0 <= i < a0.len() && a0[i] == k;
                    assert(a[i] == k);
                    assert(a.contains(k));
                    assert(writes_before(m, a[i], a[a.len() - 1]));
                }
                if m0.contains_key(k) {
                    assert(a.contains(k));
                    let i = choose|i: int| 0 <= i < a.len() && a[i] == k;
                    assert(a0[i] == k);
                }
            }
            assert forall|i: int, j: int| 0 <= i < j < a0.len() implies writes_before(
                m0,
                #[trigger] a0[i],
                #[trigger] a0[j],
            ) by {
                assert(writes_before(m, a[i], a[j]));
                assert(writes_before(m, a[i], a[a.len() - 1]));
                assert(writes_before(m, a[j], a[a.len() - 1]));
            }
        }
        assert(is_write_order(m0, b0)) by {
            assert forall|k: u32| b0.contains(k) <==> m0.contains_key(k) by {
                if b0.contains(k) {
                    let i = choose|i: int| 0 <= i < b0.len() && b0[i] == k;
                    assert(b[i] == k);
                    assert(b.contains(k));
                    assert(writes_before(m, b[i], b[b.len() - 1]));
                }
                if m0.contains_key(k) {
                    assert(b.contains(k));
                    let i = choose|i: int| 0 <= i < b.len() && b[i] == k;
                    assert(b0[i] == k);
                }
            }
            assert forall|i: int, j: int| 0 <= i < j < b0.len() implies writes_before(
                m0,
                #[trigger] b0[i],
                #[trigger] b0[j],
            ) by {
                assert(writes_before(m, b[i], b[j]));
                assert(writes_before(m, b[i], b[b.len() - 1]));
                assert(writes_before(m, b[j], b[b.len() - 1]));
            }
        }
        lemma_write_order_unique(m0, a0, b0);
        assert(a =~= a0.push(top));
        assert(b =~= b0.push(top));
    }
}

/// An order in which the payloads of `m` are written is the write order of
/// `m`.
pub proof fn lemma_write_order_is(m: Map<u32, Record>, order: Seq<u32>)
    requires
        is_write_order(m, order),
    ensures
        write_order(m) == order,
        is_write_order(m, write_order(m)),
{
    lemma_write_order_unique(m, order, write_order(m));
}

/// A finite index that is not empty has a payload that is written last.
proof fn lemma_last_written_exists(m: Map<u32, Record>)
    requires
        m.dom().finite(),
        m.dom().len() > 0,
    ensures
        exists|top: u32| #[trigger]
            m.contains_key(top) && forall|k: u32|
                m.contains_key(k) && k != top ==> writes_before(m, k, top),
    decreases m.dom().len(),
{
    let x = m.dom().choose();
    assert(m.contains_key(x));
    let rest = m.remove(x);
    if rest.dom().len() == 0 {
        assert forall|k: u32| m.contains_key(k) && k != x implies writes_before(m, k, x) by {
            assert(rest.contains_key(k));
            assert(rest.dom().is_empty());
        }
    } else {
        lemma_last_written_exists(rest);
        let top0 = choose|top: u32| #[trigger]
            rest.contains_key(top) && forall|k: u32|
                rest.contains_key(k) && k != top ==> writes_before(rest, k, top);
        if writes_before(m, top0, x) {
            assert forall|k: u32| m.contains_key(k) && k != x implies writes_before(m, k, x) by {
                assert(rest.contains_key(k));
                if k != top0 {
                    assert(writes_before(rest, k, top0));
                }
            }
        } else {
            assert(m.contains_key(top0));
            assert forall|k: u32| m.contains_key(k) && k != top0 implies writes_before(
                m,
                k,
                top0,
            ) by {
                if k != x {
                    assert(rest.contains_key(k));
                    assert(writes_before(rest, k, top0));
                }
            }
        }
    }
}

/// Every finite index has a write order, which `write_order` names.
pub proof fn lemma_write_order_exists(m: Map<u32, Record>)
    requires
        m.dom().finite(),
    ensures
        is_write_order(m, write_order(m)),
        write_order(m).len() == m.dom().len(),
    decreases m.dom().len(),
{
    if m.dom().len() == 0 {
        let order = Seq::<u32>::empty();
        assert(is_write_order(m, order)) by {
            assert forall|k: u32| order.contains(k) <==> m.contains_key(k) by {
                if m.contains_key(k) {
                    assert(m.dom().contains(k));
                    assert(m.dom().is_empty());
                }
            }
        }
        lemma_write_order_is(m, order);
    } else {
        lemma_last_written_exists(m);
        let top = choose|top: u32| #[trigger]
            m.contains_key(top) && forall|k: u32|
                m.contains_key(k) && k != top ==> writes_before(m, k, top);
        let rest = m.remove(top);
        lemma_write_order_exists(rest);
        let front = write_order(rest);
        let order = front.push(top);
        assert(is_write_order(m, order)) by {
            assert forall|k: u32| order.contains(k) <==> m.contains_key(k) by {
                if order.contains(k) {
                    let i = choose|i: int| 0 <= i < order.len() && order[i] == k;
                    if i < front.len() {
                        assert(front[i] == k);
                        assert(front.contains(k));
                        assert(rest.contains_key(k));
                    }
                }
                if m.contains_key(k) {
                    if k == top {
                        assert(order[front.len() as int] == k);
                    } else {
                        assert(rest.contains_key(k));
                        assert(front.contains(k));
                        let i = choose|i: int| 0 <= i < front.len() && front[i] == k;
                        assert(order[i] == k);
                    }
                }
            }
            assert forall|i: int, j: int| 0 <= i < j < order.len() implies writes_before(
                m,
                #[trigger] order[i],
                #[trigger] order[j],
            ) by {
                assert(front[i] == order[i]);
                assert(front.contains(order[i]));
                assert(rest.contains_key(order[i]));
                if j < front.len() {
                    assert(front[j] == order[j]);
                    assert(front.contains(order[j]));
                    assert(rest.contains_key(order[j]));
                    assert(writes_before(rest, front[i], front[j]));
                }
            }
        }
        lemma_write_order_is(m, order);
    }
}

/// Writing payloads never shortens the buffer.
pub proof fn lemma_write_all_grows(buf: Seq<u8>, m: Map<u32, Record>, order: Seq<u32>, i: int)
    requires
        0 <= i <= order.len(),
    ensures
        buf.len() <= write_all(buf, m, order.take(i)).len() <= write_all(buf, m, order).len(),
        i < order.len() ==> m[order[i]].end() <= write_all(buf, m, order).len(),
    decreases order.len() - i,
{
    if i == order.len() {
        assert(order.take(i) =~= order);
        lemma_write_all_grows_from(buf, m, order);
    } else {
        lemma_write_all_grows(buf, m, order, i + 1);
        assert(order.take(i + 1).drop_last() =~= order.take(i));
        assert(order.take(i + 1).last() == order[i]);
        lemma_write_all_grows_from(buf, m, order.take(i));
    }
}

/// The buffer is at least as long after the writes as before.
proof fn lemma_write_all_grows_from(buf: Seq<u8>, m: Map<u32, Record>, order: Seq<u32>)
    ensures
        buf.len() <= write_all(buf, m, order).len(),
    decreases order.len(),
{
    if order.len() > 0 {
        lemma_write_all_grows_from(buf, m, order.drop_last());
    }
}

/// Writes `data` into `buf` at position `at`. The buffer grows as far as the
/// data reaches, and is filled with zeros between its old end and `at`.
pub fn write_payload(buf: &mut Vec<u8>, at: usize, data: &[u8])
    requires
        at + data@.len() <= usize::MAX,
    ensures
        final(buf)@ == write_at(old(buf)@, at as int, data@),
{
    let ghost before = buf@;
    if buf.len() < at {
        buf.resize(at, 0u8);
        proof {
            assert(buf@.subrange(0, before.len() as int) == before);
            assert forall|p: int| 0 <= p < buf@.len() implies buf@[p] == if p < before.len() {
                before[p]
            } else {
                0u8
            } by {
                if p < before.len() {
                    assert(buf@.subrange(0, before.len() as int)[p] == buf@[p]);
                } else {
                    assert(vstd::pervasive::cloned::<u8>(0u8, buf@[p]));
                }
            }
        }
    }
    let ghost padded = buf@;
    let mut j: usize = 0;
    while j < data.len() && at + j < buf.len()
        invariant
            j <= data@.len(),
            at + data@.len() <= usize::MAX,
            at + j <= buf@.len(),
            buf@.len() == padded.len(),
            forall|p: int|
                0 <= p < buf@.len() ==> buf@[p] == if at <= p < at + j {
                    data@[p - at]
                } else {
                    padded[p]
                },
        decreases data@.len() - j,
    {
        buf.set(at + j, data[j]);
        j = j + 1;
    }
    if j < data.len() {
        let ghost overwritten = buf@;
        let rest = slice_subrange(data, j, data.len());
        buf.extend_from_slice(rest);
        assert forall|p: int| overwritten.len() <= p < buf@.len() implies buf@[p] == data@[p
            - at] by {
            assert(vstd::pervasive::cloned::<u8>(rest@[p - overwritten.len()], buf@[p]));
        }
    }
    assert(buf@ =~= write_at(before, at as int, data@));
}

impl FstIndex {
    /// The keys of the index in the order in which the payloads are written:
    /// in ascending order of updated offset, and in ascending order of
    /// original offset where the updated offsets are the same.
    pub fn write_order(&self) -> (order: Vec<u32>)
        ensures
            order@ == write_order(self@),
            is_write_order(self@, order@),
    {
        let keys = self.keys();
        let mut sorted: Vec<(u32, u32)> = Vec::new();
        let mut i: usize = 0;
        while i < keys.len()
            invariant
                i <= keys@.len(),
                keys@.no_duplicates(),
                forall|k: u32| keys@.contains(k) <==> self@.contains_key(k),
                forall|a: int|
                    0 <= a < sorted@.len() ==> self@.contains_key((#[trigger] sorted@[a]).1)
                        && sorted@[a].0 == self@[sorted@[a].1].updated_offset,
                forall|a: int, b: int|
                    0 <= a < b < sorted@.len() ==> comes_before(
                        #[trigger] sorted@[a],
                        #[trigger] sorted@[b],
                    ),
                forall|a: int|
                    0 <= a < sorted@.len() ==> exists|j: int|
                        0 <= j < i && keys@[j] == (#[trigger] sorted@[a]).1,
                forall|j: int|
                    0 <= j < i ==> exists|a: int|
                        0 <= a < sorted@.len() && sorted@[a].1 == #[trigger] keys@[j],
            decreases keys@.len() - i,
        {
            let key = keys[i];
            assert(keys@.contains(key));
            let offset: u32 = match self.get(key) {
                Some(record) => record.updated_offset,
                None => {
                    assert(false);
                    0
                },
            };
            let mut at: usize = 0;
            while at < sorted.len() && (sorted[at].0 < offset || (sorted[at].0 == offset
                && sorted[at].1 < key))
                invariant
                    at <= sorted@.len(),
                    forall|a: int| 0 <= a < at ==> comes_before(#[trigger] sorted@[a], (offset, key)),
                decreases sorted@.len() - at,
            {
                at = at + 1;
            }
            let ghost before = sorted@;
            proof {
                if at < sorted@.len() {
                    assert(sorted@[at as int].1 != key) by {
                        let j = choose|j: int| 0 <= j < i && keys@[j] == sorted@[at as int].1;
                        assert(keys@[j] != keys@[i as int]);
                    }
                    assert(comes_before((offset, key), sorted@[at as int]));
                }
            }
            sorted.insert(at, (offset, key));
            proof {
                assert forall|a: int| 0 <= a < sorted@.len() implies sorted@[a] == if a < at {
                    before[a]
                } else if a == at {
                    (offset, key)
                } else {
                    before[a - 1]
                } by {}
                assert forall|a: int, b: int| 0 <= a < b < sorted@.len() implies comes_before(
                    #[trigger] sorted@[a],
                    #[trigger] sorted@[b],
                ) by {
                    if a < at && b > at {
                        assert(comes_before(before[a], before[b - 1]));
                    } else if a == at && b > at {
                        if b - 1 > at {
                            assert(comes_before(before[at as int], before[b - 1]));
                        }
                    } else if a > at {
                        assert(comes_before(before[a - 1], before[b - 1]));
                    } else if b < at {
                        assert(comes_before(before[a], before[b]));
                    }
                }
                assert forall|a: int| 0 <= a < sorted@.len() implies exists|j: int|
                    0 <= j < i + 1 && keys@[j] == (#[trigger] sorted@[a]).1 by {
                    if a < at {
                        let j = choose|j: int| 0 <= j < i && keys@[j] == before[a].1;
                        assert(0 <= j < i + 1 && keys@[j] == sorted@[a].1);
                    } else if a == at {
                        assert(0 <= i < i + 1 && keys@[i as int] == sorted@[a].1);
                    } else {
                        let j = choose|j: int| 0 <= j < i && keys@[j] == before[a - 1].1;
                        assert(0 <= j < i + 1 && keys@[j] == sorted@[a].1);
                    }
                }
                assert forall|j: int| 0 <= j < i + 1 implies exists|a: int|
                    0 <= a < sorted@.len() && sorted@[a].1 == #[trigger] keys@[j] by {
                    if j < i {
                        let a = choose|a: int| 0 <= a < before.len() && before[a].1 == keys@[j];
                        if a < at {
                            assert(sorted@[a].1 == keys@[j]);
                        } else {
                            assert(sorted@[a + 1].1 == keys@[j]);
                        }
                    } else {
                        assert(sorted@[at as int].1 == keys@[j]);
                    }
                }
            }
            i = i + 1;
        }
        let mut order: Vec<u32> = Vec::new();
        let mut a: usize = 0;
        while a < sorted.len()
            invariant
                a <= sorted@.len(),
                order@.len() == a,
                forall|b: int| 0 <= b < a ==> order@[b] == (#[trigger] sorted@[b]).1,
            decreases sorted@.len() - a,
        {
            order.push(sorted[a].1);
            a = a + 1;
        }
        proof {
            assert forall|k: u32| order@.contains(k) <==> self@.contains_key(k) by {
                if order@.contains(k) {
                    let b = choose|b: int| 0 <= b < order@.len() && order@[b] == k;
                    assert(sorted@[b].1 == k);
                }
                if self@.contains_key(k) {
                    assert(keys@.contains(k));
                    let j = choose|j: int| 0 <= j < keys@.len() && keys@[j] == k;
                    let b = choose|b: int| 0 <= b < sorted@.len() && sorted@[b].1 == keys@[j];
                    assert(order@[b] == k);
                }
            }
            assert forall|b: int, c: int| 0 <= b < c < order@.len() implies writes_before(
                self@,
                #[trigger] order@[b],
                #[trigger] order@[c],
            ) by {
                assert(comes_before(sorted@[b], sorted@[c]));
            }
            lemma_write_order_is(self@, order@);
        }
        order
    }
}

/// Whether the pair `a` of an updated offset and a key stands before the pair
/// `b`.
pub open spec fn comes_before(a: (u32, u32), b: (u32, u32)) -> bool {
    a.0 < b.0 || (a.0 == b.0 && a.1 < b.1)
}

/// Assembles the rebuilt image from the preamble, the rewritten table and the
/// payloads of the index.
///
/// Returns `None` exactly when the image would be longer than this machine
/// can address.
pub fn assemble(preamble: &[u8], table: &[u8], index: &FstIndex) -> (result: Option<Vec<u8>>)
    ensures
        match result {
            Some(image) => image@ == image_spec(preamble@, table@, index@),
            None => padded_len(content_spec(preamble@, table@, index@).len()) > usize::MAX,
        },
{
    let order = index.write_order();
    let ghost base = preamble@ + table@;
    proof {
        lemma_write_all_grows(base, index@, order@, 0);
    }
    if preamble.len() > usize::MAX - table.len() {
        return None;
    }
    let mut image: Vec<u8> = Vec::new();
    write_payload(&mut image, 0, preamble);
    write_payload(&mut image, preamble.len(), table);
    assert(image@ =~= base);
    let mut i: usize = 0;
    while i < order.len()
        invariant
            i <= order@.len(),
            base == preamble@ + table@,
            order@ == write_order(index@),
            is_write_order(index@, order@),
            image@ == write_all(base, index@, order@.take(i as int)),
        decreases order@.len() - i,
    {
        let key = order[i];
        assert(order@.contains(key));
        proof {
            lemma_write_all_grows(base, index@, order@, i as int);
            lemma_write_all_grows(base, index@, order@, i + 1);
            assert(order@.take(i + 1).drop_last() =~= order@.take(i as int));
            assert(order@.take(i + 1).last() == key);
        }
        match index.get(key) {
            Some(record) => {
                let at: usize = record.updated_offset as usize;
                if record.data.len() > usize::MAX - at {
                    proof {
                        let content = write_all(base, index@, order@);
                        assert(index@[key].end() > usize::MAX);
                        crate::propagate::lemma_round_up(content.len(), 32);
                    }
                    return None;
                }
                write_payload(&mut image, at, record.data.as_slice());
            },
            None => {
                assert(false);
            },
        }
        i = i + 1;
    }
    assert(order@.take(i as int) =~= order@);
    let length: usize = image.len();
    let rest: usize = length % IMAGE_ALIGNMENT;
    let gap: usize = if rest == 0 {
        IMAGE_ALIGNMENT
    } else {
        IMAGE_ALIGNMENT - rest + IMAGE_ALIGNMENT
    };
    assert(length + gap == padded_len(length as nat));
    if gap > usize::MAX - length {
        return None;
    }
    let ghost content = image@;
    image.resize(length + gap, 0u8);
    proof {
        assert(image@.subrange(0, length as int) == content);
        assert forall|p: int| 0 <= p < image@.len() implies image@[p] == if p < content.len() {
            content[p]
        } else {
            0u8
        } by {
            if p < content.len() {
                assert(image@.subrange(0, length as int)[p] == image@[p]);
            } else {
                assert(vstd::pervasive::cloned::<u8>(0u8, image@[p]));
            }
        }
        assert(image@ =~= with_padding(content));
    }
    Some(image)
}

} // verus!
