//! The wire form of requests and the frames that carry requests and
//! responses.
//!
//! A frame is a length of four bytes, the first byte weighing most, and
//! as many bytes of payload as the length says. A payload longer than the
//! largest block is a breach of the protocol on either side of the wire.
//!
//! A request has a wire form of its own, fixed here, so that what one node
//! asks is what the other node reads. The payload of a response is made of
//! values of the chain in their canonical forms; putting those into bytes
//! is the business of whoever embeds the library, and the bytes travel in
//! a frame like any other.

use crate::request_response::messages::{RequestMessage, RequestView};
use crate::types::TxId;
use core::ops::Range;
use vstd::prelude::*;

verus! {

/// The four bytes that spell `x`, the first byte weighing most.
pub open spec fn be32(x: u32) -> Seq<u8> {
    seq![
        (x / 0x100_0000) as u8,
        ((x / 0x1_0000) % 0x100) as u8,
        ((x / 0x100) % 0x100) as u8,
        (x % 0x100) as u8,
    ]
}

/// The number that the first four bytes of `bytes` spell.
pub open spec fn from_be32(bytes: Seq<u8>) -> int {
    bytes[0] * 0x100_0000 + bytes[1] * 0x1_0000 + bytes[2] * 0x100 + bytes[3]
}

/// Spelling a number and reading it back gives the number.
pub proof fn lemma_be32_of_number(x: u32)
    ensures
        be32(x).len() == 4,
        from_be32(be32(x)) == x,
{
    let b0 = x / 0x100_0000;
    let b1 = (x / 0x1_0000) % 0x100;
    let b2 = (x / 0x100) % 0x100;
    let b3 = x % 0x100;
    assert(b0 < 0x100 && b1 < 0x100 && b2 < 0x100 && b3 < 0x100 && x == b0 * 0x100_0000 + b1
        * 0x1_0000 + b2 * 0x100 + b3) by (bit_vector)
        requires
            b0 == x / 0x100_0000,
            b1 == (x / 0x1_0000) % 0x100,
            b2 == (x / 0x100) % 0x100,
            b3 == x % 0x100,
    ;
    assert(be32(x)[0] == b0 as u8);
    assert(be32(x)[1] == b1 as u8);
    assert(be32(x)[2] == b2 as u8);
    assert(be32(x)[3] == b3 as u8);
}

/// Reading four bytes and spelling the number gives the bytes.
pub proof fn lemma_be32_of_bytes(bytes: Seq<u8>)
    requires
        bytes.len() == 4,
    ensures
        0 <= from_be32(bytes) <= u32::MAX,
        be32(from_be32(bytes) as u32) == bytes,
{
    let b0 = bytes[0];
    let b1 = bytes[1];
    let b2 = bytes[2];
    let b3 = bytes[3];
    let n: u32 = (b0 * 0x100_0000 + b1 * 0x1_0000 + b2 * 0x100 + b3) as u32;
    assert(n == from_be32(bytes));
    assert(n / 0x100_0000 == b0 && (n / 0x1_0000) % 0x100 == b1 && (n / 0x100) % 0x100 == b2 && n
        % 0x100 == b3) by (bit_vector)
        requires
            n == b0 * 0x100_0000 + b1 * 0x1_0000 + b2 * 0x100 + b3,
    ;
    assert(be32(n) =~= bytes);
}

/// Spelling a number and reading it back gives the number, and reading
/// four bytes and spelling the number gives the bytes.
pub proof fn lemma_be32(x: u32, bytes: Seq<u8>)
    ensures
        be32(x).len() == 4,
        from_be32(be32(x)) == x,
        bytes.len() == 4 ==> 0 <= from_be32(bytes) <= u32::MAX && be32(from_be32(bytes) as u32)
            == bytes,
{
    lemma_be32_of_number(x);
    if bytes.len() == 4 {
        lemma_be32_of_bytes(bytes);
    }
}

/// Appends the four bytes that spell `x`.
pub fn write_be32(out: &mut Vec<u8>, x: u32)
    ensures
        final(out)@ == old(out)@ + be32(x),
{
    out.push((x / 0x100_0000) as u8);
    out.push(((x / 0x1_0000) % 0x100) as u8);
    out.push(((x / 0x100) % 0x100) as u8);
    out.push((x % 0x100) as u8);
    assert(out@ =~= old(out)@ + be32(x));
}

/// Reads the number that the four bytes at `at` spell.
pub fn read_be32(bytes: &Vec<u8>, at: usize) -> (x: u32)
    requires
        at + 4 <= bytes@.len(),
    ensures
        x == from_be32(bytes@.subrange(at as int, at + 4)),
{
    let n = bytes.len();
    let b0: u32 = bytes[at] as u32;
    let b1: u32 = bytes[at + 1] as u32;
    let b2: u32 = bytes[at + 2] as u32;
    let b3: u32 = bytes[at + 3] as u32;
    b0 * 0x100_0000 + b1 * 0x1_0000 + b2 * 0x100 + b3
}

/// Why a frame is refused.
#[derive(Clone, Copy, Debug, PartialEq, Eq, Structural)]
pub enum FrameError {
    /// The payload is longer than the largest block.
    TooLarge,
}

/// The frame that carries `payload`.
pub open spec fn frame(payload: Seq<u8>) -> Seq<u8> {
    be32(payload.len() as u32) + payload
}

/// What the start of `bytes` holds: nothing yet where a frame is not
/// complete, else the payload of the first frame and the number of bytes
/// that the frame takes; an error where the frame announces more than
/// `max_block_size` bytes.
pub open spec fn spec_decode_frame(bytes: Seq<u8>, max_block_size: u32) -> Result<
    Option<(Seq<u8>, int)>,
    FrameError,
> {
    if bytes.len() < 4 {
        Ok(None)
    } else {
        let announced = from_be32(bytes.subrange(0, 4));
        if announced > max_block_size {
            Err(FrameError::TooLarge)
        } else if bytes.len() < 4 + announced {
            Ok(None)
        } else {
            Ok(Some((bytes.subrange(4, 4 + announced), 4 + announced)))
        }
    }
}

/// A frame that was built is read back as it was built, whatever follows
/// it on the wire.
pub proof fn lemma_frame_roundtrip(payload: Seq<u8>, rest: Seq<u8>, max_block_size: u32)
    requires
        payload.len() <= max_block_size,
    ensures
        spec_decode_frame(frame(payload) + rest, max_block_size) == Ok::<
            Option<(Seq<u8>, int)>,
            FrameError,
        >(Some((payload, 4 + payload.len() as int))),
{
    let bytes = frame(payload) + rest;
    lemma_be32(payload.len() as u32, Seq::empty());
    assert(bytes.subrange(0, 4) =~= be32(payload.len() as u32));
    assert(bytes.subrange(4, 4 + payload.len() as int) =~= payload);
}

/// Builds the frame that carries `payload`, unless the payload is longer
/// than `max_block_size`.
pub fn encode_frame(payload: &Vec<u8>, max_block_size: u32) -> (r: Result<Vec<u8>, FrameError>)
    ensures
        match r {
            Ok(bytes) => payload@.len() <= max_block_size && bytes@ == frame(payload@),
            Err(e) => payload@.len() > max_block_size && e == FrameError::TooLarge,
        },
{
    if payload.len() > max_block_size as usize {
        return Err(FrameError::TooLarge);
    }
    let mut bytes: Vec<u8> = Vec::new();
    write_be32(&mut bytes, payload.len() as u32);
    let ghost head = bytes@;
    let mut i: usize = 0;
    while i < payload.len()
        invariant
            i <= payload@.len(),
            bytes@ == head + payload@.subrange(0, i as int),
        decreases payload@.len() - i,
    {
        bytes.push(payload[i]);
        assert(bytes@ =~= head + payload@.subrange(0, i + 1));
        i = i + 1;
    }
    assert(payload@.subrange(0, i as int) =~= payload@);
    Ok(bytes)
}

/// Reads the first frame of `bytes`: nothing yet where the frame is not
/// complete, else its payload and the number of bytes it took. A frame
/// that announces more than `max_block_size` bytes is an error.
pub fn decode_frame(bytes: &Vec<u8>, max_block_size: u32) -> (r: Result<
    Option<(Vec<u8>, usize)>,
    FrameError,
>)
    ensures
        match r {
            Ok(Some((payload, consumed))) => spec_decode_frame(bytes@, max_block_size) == Ok::<
                Option<(Seq<u8>, int)>,
                FrameError,
            >(Some((payload@, consumed as int))),
            Ok(None) => spec_decode_frame(bytes@, max_block_size) == Ok::<
                Option<(Seq<u8>, int)>,
                FrameError,
            >(None),
            Err(e) => spec_decode_frame(bytes@, max_block_size) == Err::<
                Option<(Seq<u8>, int)>,
                FrameError,
            >(e),
        },
{
    if bytes.len() < 4 {
        return Ok(None);
    }
    let announced = read_be32(bytes, 0);
    if announced > max_block_size {
        return Err(FrameError::TooLarge);
    }
    if bytes.len() - 4 < announced as usize {
        return Ok(None);
    }
    let end: usize = 4 + announced as usize;
    let mut payload: Vec<u8> = Vec::new();
    let mut i: usize = 4;
    while i < end
        invariant
            4 <= i <= end <= bytes@.len(),
            payload@ == bytes@.subrange(4, i as int),
        decreases end - i,
    {
        payload.push(bytes[i]);
        assert(payload@ =~= bytes@.subrange(4, i + 1));
        i = i + 1;
    }
    Ok(Some((payload, end)))
}

/// The ids laid end to end.
pub open spec fn flat(ids: Seq<TxId>) -> Seq<u8>
    decreases ids.len(),
{
    if ids.len() == 0 {
        Seq::empty()
    } else {
        flat(ids.drop_last()) + ids.last()@
    }
}

/// Ids laid end to end take thirty-two bytes each, and each id is found
/// at its place.
pub proof fn lemma_flat(ids: Seq<TxId>)
    ensures
        flat(ids).len() == 32 * ids.len(),
        forall|i: int|
            0 <= i < ids.len() ==> #[trigger] flat(ids).subrange(32 * i, 32 * i + 32) == ids[i]@,
    decreases ids.len(),
{
    if ids.len() > 0 {
        let rest = ids.drop_last();
        lemma_flat(rest);
        assert forall|i: int| 0 <= i < ids.len() implies #[trigger] flat(ids).subrange(
            32 * i,
            32 * i + 32,
        ) == ids[i]@ by {
            if i < rest.len() {
                assert(flat(rest).subrange(32 * i, 32 * i + 32) == rest[i]@);
                assert(flat(ids).subrange(32 * i, 32 * i + 32) =~= flat(rest).subrange(
                    32 * i,
                    32 * i + 32,
                ));
            } else {
                assert(flat(ids).subrange(32 * i, 32 * i + 32) =~= ids.last()@);
            }
        }
    }
}

/// Whether a request has a wire form: a list of ids must not be longer
/// than four bytes can count.
pub open spec fn encodable(request: RequestView) -> bool {
    request matches RequestView::TxPoolFullTransactions(ids) ==> ids.len() <= u32::MAX
}

/// The wire form of a request: one byte for its kind, then the two ends
/// of its range, or the number of its ids and the ids.
pub open spec fn spec_encode_request(request: RequestView) -> Seq<u8> {
    match request {
        RequestView::SealedHeaders { start, end } => seq![0u8] + be32(start) + be32(end),
        RequestView::Transactions { start, end } => seq![1u8] + be32(start) + be32(end),
        RequestView::TxPoolAllTransactionsIds => seq![2u8],
        RequestView::TxPoolFullTransactions(ids) => seq![3u8] + be32(ids.len() as u32) + flat(ids),
    }
}

/// The byte that stands for the kind of a request.
pub open spec fn kind_byte(request: RequestView) -> u8 {
    match request {
        RequestView::SealedHeaders { .. } => 0,
        RequestView::Transactions { .. } => 1,
        RequestView::TxPoolAllTransactionsIds => 2,
        RequestView::TxPoolFullTransactions(_) => 3,
    }
}

/// The wire form of a request begins with the byte of its kind.
pub proof fn lemma_kind_byte(request: RequestView)
    ensures
        spec_encode_request(request).len() >= 1,
        spec_encode_request(request)[0] == kind_byte(request),
{
    match request {
        RequestView::SealedHeaders { start, end } => {
            assert((seq![0u8] + be32(start) + be32(end))[0] == 0u8);
        },
        RequestView::Transactions { start, end } => {
            assert((seq![1u8] + be32(start) + be32(end))[0] == 1u8);
        },
        RequestView::TxPoolAllTransactionsIds => {},
        RequestView::TxPoolFullTransactions(ids) => {
            assert((seq![3u8] + be32(ids.len() as u32) + flat(ids))[0] == 3u8);
        },
    }
}

/// Two ranges with the same wire form have the same ends.
pub proof fn lemma_range_injective(kind: u8, s1: u32, e1: u32, s2: u32, e2: u32)
    requires
        seq![kind] + be32(s1) + be32(e1) == seq![kind] + be32(s2) + be32(e2),
    ensures
        s1 == s2,
        e1 == e2,
{
    let ea = seq![kind] + be32(s1) + be32(e1);
    let eb = seq![kind] + be32(s2) + be32(e2);
    lemma_be32(s1, Seq::empty());
    lemma_be32(s2, Seq::empty());
    lemma_be32(e1, Seq::empty());
    lemma_be32(e2, Seq::empty());
    assert(ea.subrange(1, 5) =~= be32(s1));
    assert(eb.subrange(1, 5) =~= be32(s2));
    assert(ea.subrange(5, 9) =~= be32(e1));
    assert(eb.subrange(5, 9) =~= be32(e2));
    assert(be32(s1) == be32(s2));
    assert(be32(e1) == be32(e2));
    assert(from_be32(be32(s1)) == from_be32(be32(s2)));
    assert(from_be32(be32(e1)) == from_be32(be32(e2)));
}

/// Two lists of ids with the same wire form are the same list.
pub proof fn lemma_ids_injective(x: Seq<TxId>, y: Seq<TxId>)
    requires
        x.len() <= u32::MAX,
        y.len() <= u32::MAX,
        seq![3u8] + be32(x.len() as u32) + flat(x) == seq![3u8] + be32(y.len() as u32) + flat(y),
    ensures
        x == y,
{
    let ea = seq![3u8] + be32(x.len() as u32) + flat(x);
    let eb = seq![3u8] + be32(y.len() as u32) + flat(y);
    lemma_be32(x.len() as u32, Seq::empty());
    lemma_be32(y.len() as u32, Seq::empty());
    assert(ea.subrange(1, 5) =~= be32(x.len() as u32));
    assert(eb.subrange(1, 5) =~= be32(y.len() as u32));
    assert(from_be32(be32(x.len() as u32)) == from_be32(be32(y.len() as u32)));
    assert(x.len() == y.len());
    lemma_flat(x);
    lemma_flat(y);
    assert(ea.subrange(5, ea.len() as int) =~= flat(x));
    assert(eb.subrange(5, eb.len() as int) =~= flat(y));
    assert(flat(x) == flat(y));
    assert forall|i: int| 0 <= i < x.len() implies x[i] == y[i] by {
        assert(flat(x).subrange(32 * i, 32 * i + 32) == x[i]@);
        assert(flat(y).subrange(32 * i, 32 * i + 32) == y[i]@);
        assert(x[i] =~= y[i]);
    }
    assert(x =~= y);
}

/// Two requests with the same wire form are the same request.
pub proof fn lemma_encode_request_injective(a: RequestView, b: RequestView)
    requires
        encodable(a),
        encodable(b),
        spec_encode_request(a) == spec_encode_request(b),
    ensures
        a == b,
{
    lemma_kind_byte(a);
    lemma_kind_byte(b);
    assert(kind_byte(a) == kind_byte(b));
    match a {
        RequestView::SealedHeaders { start: s1, end: e1 } => {
            match b {
                RequestView::SealedHeaders { start: s2, end: e2 } => {
                    lemma_range_injective(0u8, s1, e1, s2, e2);
                },
                _ => {},
            }
        },
        RequestView::Transactions { start: s1, end: e1 } => {
            match b {
                RequestView::Transactions { start: s2, end: e2 } => {
                    lemma_range_injective(1u8, s1, e1, s2, e2);
                },
                _ => {},
            }
        },
        RequestView::TxPoolAllTransactionsIds => {},
        RequestView::TxPoolFullTransactions(x) => {
            match b {
                RequestView::TxPoolFullTransactions(y) => {
                    lemma_ids_injective(x, y);
                },
                _ => {},
            }
        },
    }
}

/// Builds the wire form of `request`, unless it has none.
pub fn encode_request(request: &RequestMessage) -> (r: Option<Vec<u8>>)
    ensures
        match r {
            Some(bytes) => encodable(request@) && bytes@ == spec_encode_request(request@),
            None => !encodable(request@),
        },
{
    let mut bytes: Vec<u8> = Vec::new();
    match request {
        RequestMessage::SealedHeaders(range) => {
            bytes.push(0u8);
            write_be32(&mut bytes, range.start);
            write_be32(&mut bytes, range.end);
            assert(bytes@ =~= spec_encode_request(request@));
        },
        RequestMessage::Transactions(range) => {
            bytes.push(1u8);
            write_be32(&mut bytes, range.start);
            write_be32(&mut bytes, range.end);
            assert(bytes@ =~= spec_encode_request(request@));
        },
        RequestMessage::TxPoolAllTransactionsIds => {
            bytes.push(2u8);
            assert(bytes@ =~= spec_encode_request(request@));
        },
        RequestMessage::TxPoolFullTransactions(ids) => {
            if ids.len() > u32::MAX as usize {
                return None;
            }
            bytes.push(3u8);
            write_be32(&mut bytes, ids.len() as u32);
            let ghost head = bytes@;
            let mut i: usize = 0;
            assert(ids@.subrange(0, 0) =~= Seq::<TxId>::empty());
            while i < ids.len()
                invariant
                    i <= ids@.len(),
                    bytes@ == head + flat(ids@.subrange(0, i as int)),
                decreases ids@.len() - i,
            {
                let ghost before = bytes@;
                let id: [u8; 32] = ids[i];
                let mut j: usize = 0;
                while j < 32
                    invariant
                        j <= 32,
                        bytes@ == before + id@.subrange(0, j as int),
                    decreases 32 - j,
                {
                    bytes.push(id[j]);
                    assert(bytes@ =~= before + id@.subrange(0, j + 1));
                    j = j + 1;
                }
                proof {
                    let prefix = ids@.subrange(0, i + 1);
                    assert(prefix.drop_last() =~= ids@.subrange(0, i as int));
                    assert(prefix.last() == id);
                    assert(id@.subrange(0, 32) =~= id@);
                    assert(bytes@ =~= head + flat(prefix));
                }
                i = i + 1;
            }
            assert(ids@.subrange(0, i as int) =~= ids@);
        },
    }
    Some(bytes)
}

/// Reads a request from its wire form. Bytes that are the wire form of
/// no request give nothing.
pub fn decode_request(bytes: &Vec<u8>) -> (r: Option<RequestMessage>)
    ensures
        match r {
            Some(request) => encodable(request@) && spec_encode_request(request@) == bytes@,
            None => forall|request: RequestView|
                encodable(request) ==> #[trigger] spec_encode_request(request) != bytes@,
        },
{
    proof {
        assert forall|request: RequestView| #[trigger] spec_encode_request(request).len() >= 1 by {}
        assert forall|request: RequestView|
            {
                let e = #[trigger] spec_encode_request(request);
                &&& e.len() >= 1
                &&& e[0] <= 3
                &&& (e[0] == 0 || e[0] == 1) ==> e.len() == 9
                &&& e[0] == 2 ==> e.len() == 1
                &&& e[0] == 3 ==> e.len() >= 5
            } by {}
    }
    if bytes.len() == 0 {
        return None;
    }
    let kind = bytes[0];
    if kind == 0 || kind == 1 {
        if bytes.len() != 9 {
            return None;
        }
        let start = read_be32(bytes, 1);
        let end = read_be32(bytes, 5);
        proof {
            lemma_be32(0, bytes@.subrange(1, 5));
            lemma_be32(0, bytes@.subrange(5, 9));
            assert(bytes@ =~= seq![kind] + be32(start) + be32(end));
        }
        if kind == 0 {
            Some(RequestMessage::SealedHeaders(Range { start, end }))
        } else {
            Some(RequestMessage::Transactions(Range { start, end }))
        }
    } else if kind == 2 {
        if bytes.len() != 1 {
            return None;
        }
        assert(bytes@ =~= seq![2u8]);
        Some(RequestMessage::TxPoolAllTransactionsIds)
    } else if kind == 3 {
        if bytes.len() < 5 {
            return None;
        }
        let count = read_be32(bytes, 1);
        let body: usize = bytes.len() - 5;
        if body % 32 != 0 || body / 32 != count as usize {
            proof {
                assert forall|request: RequestView| encodable(request) implies #[trigger]
                    spec_encode_request(request) != bytes@ by {
                    if spec_encode_request(request) == bytes@ {
                        match request {
                            RequestView::TxPoolFullTransactions(ids) => {
                                lemma_flat(ids);
                                lemma_be32(ids.len() as u32, Seq::empty());
                                assert(bytes@.subrange(1, 5) =~= be32(ids.len() as u32));
                            },
                            _ => {},
                        }
                    }
                }
            }
            return None;
        }
        let mut ids: Vec<TxId> = Vec::new();
        let mut i: usize = 0;
        let n = bytes.len();
        assert(bytes@.subrange(5, 5) =~= flat(ids@));
        while i < count as usize
            invariant
                i <= count,
                n == bytes@.len(),
                ids@.len() == i,
                bytes@.len() == 5 + 32 * count,
                flat(ids@) == bytes@.subrange(5, 5 + 32 * i),
            decreases count - i,
        {
            let ghost before = ids@;
            let mut id: [u8; 32] = [0u8;32];
            let mut j: usize = 0;
            while j < 32
                invariant
                    j <= 32,
                    i < count,
                    n == bytes@.len(),
                    bytes@.len() == 5 + 32 * count,
                    forall|k: int| 0 <= k < j ==> id@[k] == bytes@[5 + 32 * i + k],
                decreases 32 - j,
            {
                id[j] = bytes[5 + 32 * i + j];
                j = j + 1;
            }
            ids.push(id);
            proof {
                assert(ids@.drop_last() =~= before);
                assert(id@ =~= bytes@.subrange(5 + 32 * i, 5 + 32 * i + 32));
                assert(flat(ids@) =~= bytes@.subrange(5, 5 + 32 * (i + 1)));
            }
            i = i + 1;
        }
        proof {
            lemma_be32(0, bytes@.subrange(1, 5));
            assert(be32(count) == bytes@.subrange(1, 5));
            assert(bytes@ =~= seq![3u8] + be32(count) + flat(ids@));
        }
        Some(RequestMessage::TxPoolFullTransactions(ids))
    } else {
        None
    }
}

/// A request that is put on the wire is read back as the same request:
/// for ranges, with the same two ends.
pub proof fn lemma_request_roundtrip(sent: RequestView, received: RequestView)
    requires
        encodable(sent),
        encodable(received),
        spec_encode_request(received) == spec_encode_request(sent),
    ensures
        received == sent,
{
    lemma_encode_request_injective(received, sent);
}

} // verus!
