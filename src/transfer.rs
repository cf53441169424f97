//! The streamed part of a transfer: how a sender cuts a file into `Payload`
//! messages ended by `EOF`, how a receiver acts on each message, and how a
//! directory listing is cut into batches.
use vstd::prelude::*;

use crate::bytes::{append_bytes, copy_range};
use crate::consts::MSG_PAYLOAD_LEN;
use crate::error::HermodError;
use crate::message::{Message, MessageType};
use crate::text::views;

verus! {

/// A message as its type and payload.
pub open spec fn msg_view(m: Message) -> (MessageType, Seq<u8>) {
    (m.kind(), m.data())
}

/// The views of a sequence of messages.
pub open spec fn msg_views(ms: Seq<Message>) -> Seq<(MessageType, Seq<u8>)> {
    ms.map_values(|m: Message| msg_view(m))
}

/// The messages that carry `b`: payloads of at most `MSG_PAYLOAD_LEN` bytes
/// in order, then `EOF`.
pub open spec fn upload_stream(b: Seq<u8>) -> Seq<(MessageType, Seq<u8>)>
    decreases b.len(),
{
    if b.len() == 0 {
        seq![(MessageType::EOF, Seq::<u8>::empty())]
    } else {
        let n = if b.len() <= MSG_PAYLOAD_LEN { b.len() as int } else { MSG_PAYLOAD_LEN as int };
        seq![(MessageType::Payload, b.take(n))] + upload_stream(b.skip(n))
    }
}

/// The bytes a receiver has written once it has seen `EOF`: the payloads
/// before it, in order; `None` when the stream ends first, or an `Error` or
/// any other message interrupts it.
pub open spec fn received(ms: Seq<(MessageType, Seq<u8>)>) -> Option<Seq<u8>>
    decreases ms.len(),
{
    if ms.len() == 0 {
        None
    } else if ms[0].0 == MessageType::EOF {
        Some(Seq::empty())
    } else if ms[0].0 == MessageType::Payload {
        match received(ms.drop_first()) {
            Some(r) => Some(ms[0].1 + r),
            None => None,
        }
    } else {
        None
    }
}

/// Whatever a sender streams, the receiver writes exactly those bytes.
pub proof fn lemma_stream_round_trip(b: Seq<u8>)
    ensures
        received(upload_stream(b)) == Some(b),
    decreases b.len(),
{
    if b.len() > 0 {
        let n = if b.len() <= MSG_PAYLOAD_LEN { b.len() as int } else { MSG_PAYLOAD_LEN as int };
        let s = upload_stream(b);
        let head = (MessageType::Payload, b.take(n));
        assert(s == seq![head] + upload_stream(b.skip(n)));
        assert(s[0] == head);
        assert(s.drop_first() =~= upload_stream(b.skip(n)));
        lemma_stream_round_trip(b.skip(n));
        assert(b.take(n) + b.skip(n) =~= b);
    }
}

/// Every message of a stream fits one frame.
pub proof fn lemma_stream_fits(b: Seq<u8>)
    ensures
        forall|i: int|
            0 <= i < upload_stream(b).len() ==> (#[trigger] upload_stream(b)[i]).1.len()
                <= MSG_PAYLOAD_LEN,
    decreases b.len(),
{
    if b.len() > 0 {
        let n = if b.len() <= MSG_PAYLOAD_LEN { b.len() as int } else { MSG_PAYLOAD_LEN as int };
        lemma_stream_fits(b.skip(n));
        let s = upload_stream(b);
        assert forall|i: int| 0 <= i < s.len() implies (#[trigger] s[i]).1.len() <= MSG_PAYLOAD_LEN by {
            if i > 0 {
                assert(s[i] == upload_stream(b.skip(n))[i - 1]);
            }
        }
    }
}

/// The message a sender emits for what one read of the source gave: a
/// `Payload` of those bytes, or `EOF` once a read gives nothing.
pub fn upload_message(chunk: &[u8]) -> (r: Message)
    requires
        chunk@.len() <= MSG_PAYLOAD_LEN,
    ensures
        chunk@.len() == 0 ==> r.kind() == MessageType::EOF && r.data().len() == 0,
        chunk@.len() > 0 ==> r.kind() == MessageType::Payload && r.data() == chunk@,
{
    if chunk.len() == 0 {
        Message::new(MessageType::EOF, chunk)
    } else {
        Message::new(MessageType::Payload, chunk)
    }
}

/// The whole stream of messages that carries `data`.
pub fn upload_messages(data: &[u8]) -> (r: Vec<Message>)
    ensures
        msg_views(r@) == upload_stream(data@),
{
    let mut out: Vec<Message> = Vec::new();
    let mut pos: usize = 0;
    assert(data@.skip(0) =~= data@);
    assert(msg_views(out@) + upload_stream(data@) =~= upload_stream(data@));
    while pos < data.len()
        invariant
            0 <= pos <= data@.len(),
            msg_views(out@) + upload_stream(data@.skip(pos as int)) == upload_stream(data@),
        decreases data@.len() - pos,
    {
        let n: usize = if data.len() - pos <= MSG_PAYLOAD_LEN {
            data.len() - pos
        } else {
            MSG_PAYLOAD_LEN
        };
        let chunk = copy_range(data, pos, pos + n);
        let m = upload_message(chunk.as_slice());
        let ghost rest = data@.skip(pos as int);
        assert(rest.take(n as int) =~= chunk@);
        assert(rest.skip(n as int) =~= data@.skip(pos + n));
        assert(upload_stream(rest) == seq![(MessageType::Payload, rest.take(n as int))]
            + upload_stream(rest.skip(n as int)));
        let ghost before = msg_views(out@);
        out.push(m);
        assert(msg_views(out@) =~= before.push(msg_view(m)));
        assert(before + upload_stream(rest) =~= before.push(msg_view(m)) + upload_stream(
            data@.skip(pos + n),
        ));
        pos = pos + n;
    }
    let ghost before = msg_views(out@);
    let eof = Message::new(MessageType::EOF, &[]);
    out.push(eof);
    assert(msg_views(out@) =~= before.push(msg_view(eof)));
    assert(data@.skip(pos as int) =~= Seq::<u8>::empty());
    assert(msg_view(eof) == (MessageType::EOF, Seq::<u8>::empty()));
    assert(before + upload_stream(data@.skip(pos as int)) =~= before.push(msg_view(eof)));
    out
}

/// What a receiver does with a message of a file download.
#[derive(Clone, Copy, Debug, PartialEq, Eq, Structural)]
pub enum SinkAction {
    /// `Payload`: append its bytes to the destination.
    Write,
    /// `EOF`: flush and close the destination; the transfer succeeded.
    Finish,
    /// `Error`: remove the partial destination; the transfer failed.
    Abort,
    /// Anything else: the transfer failed.
    Fail,
}

/// The receiver's decision for a message type.
pub fn download_action(t: MessageType) -> (r: SinkAction)
    ensures
        r == SinkAction::Write <==> t == MessageType::Payload,
        r == SinkAction::Finish <==> t == MessageType::EOF,
        r == SinkAction::Abort <==> t == MessageType::Error,
        r == SinkAction::Fail <==> (t != MessageType::Payload && t != MessageType::EOF && t
            != MessageType::Error),
{
    match t {
        MessageType::Payload => SinkAction::Write,
        MessageType::EOF => SinkAction::Finish,
        MessageType::Error => SinkAction::Abort,
        _ => SinkAction::Fail,
    }
}

/// What the receiver of a directory listing does with a message.
#[derive(Clone, Copy, Debug, PartialEq, Eq, Structural)]
pub enum ListingStep {
    /// `Payload`: a batch of paths to add to the listing.
    Append,
    /// `EOF`: the listing is complete.
    Done,
    /// Anything else: the download fails.
    Fail,
}

/// The listing receiver's decision for a message type.
pub fn listing_step(t: MessageType) -> (r: ListingStep)
    ensures
        r == ListingStep::Append <==> t == MessageType::Payload,
        r == ListingStep::Done <==> t == MessageType::EOF,
        r == ListingStep::Fail <==> (t != MessageType::Payload && t != MessageType::EOF),
{
    match t {
        MessageType::Payload => ListingStep::Append,
        MessageType::EOF => ListingStep::Done,
        _ => ListingStep::Fail,
    }
}

/// Checks the message that must open a download: `Metadata`; an `Error` or
/// anything else fails the request.
pub fn expect_metadata(t: MessageType) -> (r: Result<(), HermodError>)
    ensures
        r is Ok <==> t == MessageType::Metadata,
        r is Err ==> r->Err_0 == HermodError::Other,
{
    match t {
        MessageType::Metadata => Ok(()),
        _ => Err(HermodError::Other),
    }
}

/// Checks that a file of a directory download is a file.
pub fn expect_file(dir: bool) -> (r: Result<(), HermodError>)
    ensures
        r is Ok <==> !dir,
        r is Err ==> r->Err_0 == HermodError::IsDir,
{
    if dir {
        Err(HermodError::IsDir)
    } else {
        Ok(())
    }
}

/// Runs the receiver over `msgs` and returns what it wrote, once it sees `EOF`.
pub fn receive_all(msgs: &[Message]) -> (r: Option<Vec<u8>>)
    ensures
        match received(msg_views(msgs@)) {
            Some(b) => r is Some && r->Some_0@ == b,
            None => r is None,
        },
{
    let ghost ms = msg_views(msgs@);
    let mut acc: Vec<u8> = Vec::new();
    let mut i: usize = 0;
    assert(ms.skip(0) =~= ms);
    proof {
        match received(ms) {
            Some(rest) => {
                assert(acc@ + rest =~= rest);
            },
            None => {},
        }
    }
    while i < msgs.len()
        invariant
            0 <= i <= msgs@.len(),
            ms == msg_views(msgs@),
            received(ms) == match received(ms.skip(i as int)) {
                Some(rest) => Some(acc@ + rest),
                None => None,
            },
        decreases msgs@.len() - i,
    {
        let m = &msgs[i];
        assert(ms.skip(i as int)[0] == msg_view(*m));
        assert(ms.skip(i as int).drop_first() =~= ms.skip(i + 1));
        match download_action(m.get_type()) {
            SinkAction::Write => {
                let ghost before = acc@;
                append_bytes(&mut acc, m.get_payload());
                proof {
                    match received(ms.skip(i + 1)) {
                        Some(rest) => {
                            assert(before + (m.data() + rest) =~= acc@ + rest);
                        },
                        None => {},
                    }
                }
            },
            SinkAction::Finish => {
                assert(acc@ + Seq::<u8>::empty() =~= acc@);
                return Some(acc);
            },
            _ => {
                return None;
            },
        }
        i = i + 1;
    }
    assert(ms.skip(i as int).len() == 0);
    None
}

/// Bytes that a path adds to a listing batch: its length and an eight-byte
/// length prefix.
pub open spec fn path_cost(p: Seq<u8>) -> nat {
    p.len() + 8
}

/// Listing bytes that one batch may hold, so that it fits one payload with
/// its own eight-byte count.
pub const BATCH_BUDGET: usize = 65509;

/// The cost of a batch.
pub open spec fn batch_cost(b: Seq<Seq<u8>>) -> nat
    decreases b.len(),
{
    if b.len() == 0 {
        0
    } else {
        batch_cost(b.drop_last()) + path_cost(b.last())
    }
}

/// The paths of the batches, in order.
pub open spec fn concat_batches(bs: Seq<Seq<Seq<u8>>>) -> Seq<Seq<u8>>
    decreases bs.len(),
{
    if bs.len() == 0 {
        seq![]
    } else {
        concat_batches(bs.drop_last()) + bs.last()
    }
}

/// The views of a sequence of batches.
pub open spec fn batch_views(bs: Seq<Vec<Vec<u8>>>) -> Seq<Seq<Seq<u8>>> {
    bs.map_values(|b: Vec<Vec<u8>>| views(b@))
}

/// The first path of the batch after batch `j`, as its cost.
pub open spec fn next_first_cost(bs: Seq<Seq<Seq<u8>>>, j: int) -> nat {
    path_cost(bs[j + 1][0])
}

/// Cuts a directory listing into batches for `Payload` messages.
///
/// The batches hold every path once, in traversal order; none is empty and
/// none costs more than `BATCH_BUDGET`. A batch is closed only when the next
/// path would take it past the budget. The budget counts each path's
/// eight-byte length prefix and leaves room for the batch's own count, so
/// that the encoded batch fits one payload, which a bound on the bare path
/// lengths would not ensure. `None` when some path alone is over the budget.
pub fn batch_paths(paths: &Vec<Vec<u8>>) -> (r: Option<Vec<Vec<Vec<u8>>>>)
    ensures
        r is None <==> exists|i: int|
            0 <= i < paths@.len() && path_cost(#[trigger] paths@[i]@) > BATCH_BUDGET,
        r matches Some(bs) ==> {
            &&& concat_batches(batch_views(bs@)) == views(paths@)
            &&& forall|j: int|
                0 <= j < bs@.len() ==> (#[trigger] batch_views(bs@)[j]).len() > 0 && batch_cost(
                    batch_views(bs@)[j],
                ) <= BATCH_BUDGET
            &&& forall|j: int|
                0 <= j < bs@.len() - 1 ==> batch_cost(#[trigger] batch_views(bs@)[j])
                    + next_first_cost(batch_views(bs@), j) > BATCH_BUDGET
        },
{
    let mut k: usize = 0;
    while k < paths.len()
        invariant
            0 <= k <= paths@.len(),
            forall|m: int| 0 <= m < k ==> path_cost(#[trigger] paths@[m]@) <= BATCH_BUDGET,
        decreases paths@.len() - k,
    {
        if paths[k].len() > BATCH_BUDGET - 8 {
            return None;
        }
        k = k + 1;
    }
    let mut out: Vec<Vec<Vec<u8>>> = Vec::new();
    let mut cur: Vec<Vec<u8>> = Vec::new();
    let mut cost: usize = 0;
    let mut i: usize = 0;
    while i < paths.len()
        invariant
            0 <= i <= paths@.len(),
            forall|k: int| 0 <= k < paths@.len() ==> path_cost(#[trigger] paths@[k]@) <= BATCH_BUDGET,
            concat_batches(batch_views(out@)) + views(cur@) == views(paths@).take(i as int),
            cost == batch_cost(views(cur@)),
            cost <= BATCH_BUDGET,
            i > 0 ==> cur@.len() > 0,
            i == 0 ==> out@.len() == 0 && cur@.len() == 0,
            out@.len() > 0 ==> batch_cost(batch_views(out@)[out@.len() - 1]) + path_cost(
                views(cur@)[0],
            ) > BATCH_BUDGET,
            forall|j: int|
                0 <= j < out@.len() ==> (#[trigger] batch_views(out@)[j]).len() > 0 && batch_cost(
                    batch_views(out@)[j],
                ) <= BATCH_BUDGET,
            forall|j: int|
                0 <= j < out@.len() - 1 ==> batch_cost(#[trigger] batch_views(out@)[j])
                    + next_first_cost(batch_views(out@), j) > BATCH_BUDGET,
        decreases paths@.len() - i,
    {
        let p = copy_range(paths[i].as_slice(), 0, paths[i].len());
        assert(p@ =~= paths@[i as int]@);
        let c = paths[i].len() + 8;
        if cost + c > BATCH_BUDGET {
            let ghost done = batch_views(out@);
            let ghost closed = views(cur@);
            let full = cur;
            out.push(full);
            cur = Vec::new();
            cost = 0;
            assert(batch_views(out@) =~= done.push(closed));
            assert(batch_views(out@).drop_last() =~= done);
            assert(concat_batches(batch_views(out@)) == concat_batches(done) + closed);
            assert(views(cur@) =~= Seq::<Seq<u8>>::empty());
            assert(batch_cost(views(cur@)) == 0);
            assert(concat_batches(batch_views(out@)) + views(cur@) =~= concat_batches(done) + closed);
            assert forall|j: int| 0 <= j < out@.len() implies (#[trigger] batch_views(out@)[j]).len() > 0
                && batch_cost(batch_views(out@)[j]) <= BATCH_BUDGET by {
                if j < done.len() {
                    assert(batch_views(out@)[j] == done[j]);
                } else {
                    assert(batch_views(out@)[j] == closed);
                }
            }
            assert forall|j: int| 0 <= j < out@.len() - 1 implies batch_cost(
                #[trigger] batch_views(out@)[j],
            ) + next_first_cost(batch_views(out@), j) > BATCH_BUDGET by {
                assert(batch_views(out@)[j] == done[j]);
                if j < done.len() - 1 {
                    assert(batch_views(out@)[j + 1] == done[j + 1]);
                } else {
                    assert(batch_views(out@)[j + 1] == closed);
                }
            }
        }
        let ghost before = views(cur@);
        let ghost out_before = batch_views(out@);
        cur.push(p);
        cost = cost + c;
        assert(views(cur@) =~= before.push(p@));
        assert(views(cur@).drop_last() =~= before);
        assert(views(cur@).last() == p@);
        assert(batch_cost(views(cur@)) == batch_cost(before) + path_cost(p@));
        assert(views(cur@)[0] == if before.len() == 0 { p@ } else { before[0] });
        assert(views(paths@).take(i + 1) =~= views(paths@).take(i as int).push(p@));
        assert(concat_batches(batch_views(out@)) + views(cur@) =~= (concat_batches(
            batch_views(out@),
        ) + before).push(p@));
        i = i + 1;
    }
    if cur.len() > 0 {
        let ghost done = batch_views(out@);
        let ghost closed = views(cur@);
        out.push(cur);
        assert(batch_views(out@) =~= done.push(closed));
        assert(batch_views(out@).drop_last() =~= done);
        assert forall|j: int| 0 <= j < out@.len() implies (#[trigger] batch_views(out@)[j]).len() > 0
            && batch_cost(batch_views(out@)[j]) <= BATCH_BUDGET by {
            if j < done.len() {
                assert(batch_views(out@)[j] == done[j]);
            } else {
                assert(batch_views(out@)[j] == closed);
            }
        }
        assert forall|j: int| 0 <= j < out@.len() - 1 implies batch_cost(
            #[trigger] batch_views(out@)[j],
        ) + next_first_cost(batch_views(out@), j) > BATCH_BUDGET by {
            assert(batch_views(out@)[j] == done[j]);
            if j < done.len() - 1 {
                assert(batch_views(out@)[j + 1] == done[j + 1]);
            } else {
                assert(batch_views(out@)[j + 1] == closed);
            }
        }
    } else {
        assert(concat_batches(batch_views(out@)) + views(cur@) =~= concat_batches(batch_views(out@)));
    }
    assert(views(paths@).take(i as int) =~= views(paths@));
    Some(out)
}

} // verus!
