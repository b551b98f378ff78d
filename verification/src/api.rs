//! The primitive surface exported to every loaded program: logging, RPC,
//! watchdog and attribute-cache calls. Each primitive is a thin request/reply
//! protocol over the channel: it sends its request, then receives until it
//! observes the matching reply shape, treating any other observed message as
//! a protocol violation.
//!
//! A primitive that "raises" does so by returning [`Failure::Raised`]: the
//! exception travels up each call frame to the single catch point at the top
//! of the run loop.

use vstd::prelude::*;
use vstd::utf8::encode_utf8;
use crate::channel::{Endpoint, Failure};
use crate::kernel_proto::{
    msg_views, lemma_msg_views_push, rpc_arg_views, Exception, ExceptionView, Message, MessageView,
    RpcArg,
};

verus! {

/// Byte string of a literal: UTF-8, without a terminator.
fn bytes_of(s: &str) -> (r: Vec<u8>)
    ensures
        r@ == encode_utf8(s@),
{
    vstd::slice::slice_to_vec(s.as_bytes())
}

/// The record raised for a watchdog request with a negative timeout.
pub open spec fn value_error_view() -> ExceptionView {
    ExceptionView {
        name: encode_utf8("0:artiq.coredevice.exceptions.ValueError"@),
        file: encode_utf8("<kernel support>"@),
        line: 0,
        column: 0,
        function: encode_utf8("watchdog_set"@),
        message: encode_utf8("cannot set a watchdog with a negative timeout"@),
        param: seq![0u64, 0u64, 0u64],
    }
}

/// The record raised for a rejected cache write.
pub open spec fn cache_error_view() -> ExceptionView {
    ExceptionView {
        name: encode_utf8("0:artiq.coredevice.exceptions.CacheError"@),
        file: encode_utf8("<kernel support>"@),
        line: 0,
        column: 0,
        function: encode_utf8("cache_put"@),
        message: encode_utf8("cannot put into a busy cache row"@),
        param: seq![0u64, 0u64, 0u64],
    }
}

/// Builds the value-error record.
pub fn value_error() -> (e: Exception)
    ensures
        e@ == value_error_view(),
{
    let e = Exception {
        name: bytes_of("0:artiq.coredevice.exceptions.ValueError"),
        file: bytes_of("<kernel support>"),
        line: 0,
        column: 0,
        function: bytes_of("watchdog_set"),
        message: bytes_of("cannot set a watchdog with a negative timeout"),
        param: [0, 0, 0],
    };
    proof {
        assert(e.param@ =~= seq![0u64, 0u64, 0u64]);
    }
    e
}

/// Builds the cache-error record.
pub fn cache_error() -> (e: Exception)
    ensures
        e@ == cache_error_view(),
{
    let e = Exception {
        name: bytes_of("0:artiq.coredevice.exceptions.CacheError"),
        file: bytes_of("<kernel support>"),
        line: 0,
        column: 0,
        function: bytes_of("cache_put"),
        message: bytes_of("cannot put into a busy cache row"),
        param: [0, 0, 0],
    };
    proof {
        assert(e.param@ =~= seq![0u64, 0u64, 0u64]);
    }
    e
}

/// Forwards one piece of already-formatted diagnostic text to the host. No
/// reply is expected.
pub fn send_to_log(ep: &mut Endpoint, text: String)
    ensures
        final(ep).inbox == old(ep).inbox,
        msg_views(final(ep).sent@) == msg_views(old(ep).sent@).push(
            MessageView::LogSlice(text@),
        ),
{
    let ghost sent0 = ep.sent@;
    let ghost m = Message::LogSlice(text);
    ep.send(Message::LogSlice(text));
    proof {
        lemma_msg_views_push(sent0, m);
    }
}

/// Reports that the running program called `abort()`: a diagnostic line,
/// then the terminal aborted report. The kernel domain then idles.
pub fn abort(ep: &mut Endpoint)
    ensures
        final(ep).inbox == old(ep).inbox,
        msg_views(final(ep).sent@) == msg_views(old(ep).sent@) + seq![
            MessageView::Log("kernel called abort()"@),
            MessageView::RunAborted,
        ],
{
    let ghost sent0 = ep.sent@;
    let text: String = "kernel called abort()".to_owned();
    let ghost m1 = Message::Log(text);
    ep.send(Message::Log(text));
    proof {
        lemma_msg_views_push(sent0, m1);
    }
    let ghost sent1 = ep.sent@;
    ep.send(Message::RunAborted);
    proof {
        lemma_msg_views_push(sent1, Message::RunAborted);
        assert(msg_views(sent0).push(m1@).push(MessageView::RunAborted) =~= msg_views(sent0)
            + seq![MessageView::Log("kernel called abort()"@), MessageView::RunAborted]);
    }
}

/// Invokes a host-implemented procedure. A service id of zero designates the
/// attribute-writeback channel and is always marked batched: the host may
/// defer processing until a non-batched call arrives. No reply is expected
/// here; the result, if any, is fetched by [`recv_rpc`].
pub fn send_rpc(ep: &mut Endpoint, service: u32, tag: Vec<u8>, data: Vec<RpcArg>)
    ensures
        final(ep).inbox == old(ep).inbox,
        msg_views(final(ep).sent@) == msg_views(old(ep).sent@).push(
            MessageView::RpcSend {
                service,
                batch: service == 0,
                tag: tag@,
                data: rpc_arg_views(data@),
            },
        ),
{
    let ghost sent0 = ep.sent@;
    let batch = service == 0;
    let ghost m = Message::RpcSend { service, batch, tag: tag, data: data };
    ep.send(Message::RpcSend { service, batch, tag, data });
    proof {
        lemma_msg_views_push(sent0, m);
    }
}

/// Asks the host for the result of the pending procedure call, naming the
/// memory region (`slot`) that is to receive it. Returns the number of
/// result words the host prepared; a propagated host exception is raised at
/// this call site instead of returning a size.
pub fn recv_rpc(ep: &mut Endpoint, slot: usize) -> (r: Result<usize, Failure>)
    ensures
        msg_views(final(ep).sent@) == msg_views(old(ep).sent@).push(
            MessageView::RpcRecvRequest(slot),
        ),
        old(ep).inbox@.len() == 0 ==> r == Err::<usize, Failure>(Failure::NoReply)
            && final(ep).inbox == old(ep).inbox,
        old(ep).inbox@.len() > 0 ==> final(ep).inbox@ == old(ep).inbox@.subrange(
            1,
            old(ep).inbox@.len() as int,
        ) && (match old(ep).inbox@[0] {
            Message::RpcRecvReply(Ok(size)) => r == Ok::<usize, Failure>(size),
            Message::RpcRecvReply(Err(exception)) => r == Err::<usize, Failure>(
                Failure::Raised(exception),
            ),
            m => r == Err::<usize, Failure>(Failure::Unexpected(m)),
        }),
{
    let ghost sent0 = ep.sent@;
    ep.send(Message::RpcRecvRequest(slot));
    proof {
        lemma_msg_views_push(sent0, Message::RpcRecvRequest(slot));
    }
    match ep.recv() {
        None => Err(Failure::NoReply),
        Some(Message::RpcRecvReply(Ok(size))) => Ok(size),
        Some(Message::RpcRecvReply(Err(exception))) => Err(Failure::Raised(exception)),
        Some(m) => Err(Failure::Unexpected(m)),
    }
}

/// Registers a deadline `ms` milliseconds ahead and returns the id the host
/// issued for it. A negative timeout raises a value error immediately, with
/// no channel round trip.
pub fn watchdog_set(ep: &mut Endpoint, ms: i64) -> (r: Result<usize, Failure>)
    ensures
        ms < 0 ==> *final(ep) == *old(ep) && (r matches Err(f) && f matches Failure::Raised(e)
            && e@ == value_error_view()),
        ms >= 0 ==> msg_views(final(ep).sent@) == msg_views(old(ep).sent@).push(
            MessageView::WatchdogSetRequest { ms: ms as u64 },
        ),
        ms >= 0 && old(ep).inbox@.len() == 0 ==> r == Err::<usize, Failure>(Failure::NoReply)
            && final(ep).inbox == old(ep).inbox,
        ms >= 0 && old(ep).inbox@.len() > 0 ==> final(ep).inbox@ == old(ep).inbox@.subrange(
            1,
            old(ep).inbox@.len() as int,
        ) && (match old(ep).inbox@[0] {
            Message::WatchdogSetReply { id } => r == Ok::<usize, Failure>(id),
            m => r == Err::<usize, Failure>(Failure::Unexpected(m)),
        }),
{
    if ms < 0 {
        return Err(Failure::Raised(value_error()));
    }
    let ghost sent0 = ep.sent@;
    ep.send(Message::WatchdogSetRequest { ms: ms as u64 });
    proof {
        lemma_msg_views_push(sent0, Message::WatchdogSetRequest { ms: ms as u64 });
    }
    match ep.recv() {
        None => Err(Failure::NoReply),
        Some(Message::WatchdogSetReply { id }) => Ok(id),
        Some(m) => Err(Failure::Unexpected(m)),
    }
}

/// Cancels the deadline with the given id. Fire and forget: no reply.
pub fn watchdog_clear(ep: &mut Endpoint, id: usize)
    ensures
        final(ep).inbox == old(ep).inbox,
        msg_views(final(ep).sent@) == msg_views(old(ep).sent@).push(
            MessageView::WatchdogClear { id },
        ),
{
    let ghost sent0 = ep.sent@;
    ep.send(Message::WatchdogClear { id });
    proof {
        lemma_msg_views_push(sent0, Message::WatchdogClear { id });
    }
}

/// Reads the persisted snapshot under `key`. An absent key yields an empty
/// value, not an exception; the value is valid until the next channel
/// interaction, so it is handed over whole.
pub fn cache_get(ep: &mut Endpoint, key: String) -> (r: Result<Vec<u32>, Failure>)
    ensures
        msg_views(final(ep).sent@) == msg_views(old(ep).sent@).push(
            MessageView::CacheGetRequest { key: key@ },
        ),
        old(ep).inbox@.len() == 0 ==> r == Err::<Vec<u32>, Failure>(Failure::NoReply)
            && final(ep).inbox == old(ep).inbox,
        old(ep).inbox@.len() > 0 ==> final(ep).inbox@ == old(ep).inbox@.subrange(
            1,
            old(ep).inbox@.len() as int,
        ) && (match old(ep).inbox@[0] {
            Message::CacheGetReply { value } => r == Ok::<Vec<u32>, Failure>(value),
            m => r == Err::<Vec<u32>, Failure>(Failure::Unexpected(m)),
        }),
{
    let ghost sent0 = ep.sent@;
    let ghost m = Message::CacheGetRequest { key: key };
    ep.send(Message::CacheGetRequest { key });
    proof {
        lemma_msg_views_push(sent0, m);
    }
    match ep.recv() {
        None => Err(Failure::NoReply),
        Some(Message::CacheGetReply { value }) => Ok(value),
        Some(m) => Err(Failure::Unexpected(m)),
    }
}

/// Replaces the row under `key`. If the host reports failure — the row is
/// busy being read elsewhere in the host domain — a cache error is raised
/// rather than a status returned, forcing explicit handling at the call
/// site.
pub fn cache_put(ep: &mut Endpoint, key: String, value: Vec<u32>) -> (r: Result<(), Failure>)
    ensures
        msg_views(final(ep).sent@) == msg_views(old(ep).sent@).push(
            MessageView::CachePutRequest { key: key@, value: value@ },
        ),
        old(ep).inbox@.len() == 0 ==> r == Err::<(), Failure>(Failure::NoReply)
            && final(ep).inbox == old(ep).inbox,
        old(ep).inbox@.len() > 0 ==> final(ep).inbox@ == old(ep).inbox@.subrange(
            1,
            old(ep).inbox@.len() as int,
        ) && (match old(ep).inbox@[0] {
            Message::CachePutReply { succeeded } => if succeeded {
                r == Ok::<(), Failure>(())
            } else {
                r matches Err(f) && f matches Failure::Raised(e) && e@ == cache_error_view()
            },
            m => r == Err::<(), Failure>(Failure::Unexpected(m)),
        }),
{
    let ghost sent0 = ep.sent@;
    let ghost m = Message::CachePutRequest { key: key, value: value };
    ep.send(Message::CachePutRequest { key, value });
    proof {
        lemma_msg_views_push(sent0, m);
    }
    match ep.recv() {
        None => Err(Failure::NoReply),
        Some(Message::CachePutReply { succeeded }) => {
            if succeeded {
                Ok(())
            } else {
                Err(Failure::Raised(cache_error()))
            }
        },
        Some(m) => Err(Failure::Unexpected(m)),
    }
}

} // verus!
