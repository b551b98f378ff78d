//! The closed set of message shapes exchanged between the kernel CPU and the
//! host CPU over the mailbox channel, and the exception record that crosses
//! the domain boundary with them.
//!
//! Every value is owned: where the shared-memory protocol passes borrowed
//! references that are valid only until the slot is acknowledged, this model
//! holds the referenced data itself, so that "copy out before acknowledging"
//! is enforced by ownership rather than by discipline.

use vstd::prelude::*;

verus! {

/// Fixed address at which the kernel-support runtime itself is linked.
pub const KERNELCPU_EXEC_ADDRESS: usize = 0x40400000;

/// Fixed address at which a loaded program executes; backtrace addresses at
/// or below this base belong to the runtime, not to the loaded program.
pub const KERNELCPU_PAYLOAD_ADDRESS: usize = 0x40440000;

/// Last address of the kernel CPU's memory window.
pub const KERNELCPU_LAST_ADDRESS: usize = 0x4fffffff;

/// Size of the header that precedes the kernel-support image.
pub const KSUPPORT_HEADER_SIZE: usize = 0x80;

/// A namespaced error record raised in the kernel domain or propagated back
/// from the host. Text fields are raw byte strings, as they cross the
/// boundary; the message template may embed up to three numeric parameters.
#[derive(Clone, Debug, PartialEq)]
pub struct Exception {
    pub name: Vec<u8>,
    pub file: Vec<u8>,
    pub line: u32,
    pub column: u32,
    pub function: Vec<u8>,
    pub message: Vec<u8>,
    pub param: [u64; 3],
}

/// Mathematical value of an [`Exception`].
pub struct ExceptionView {
    pub name: Seq<u8>,
    pub file: Seq<u8>,
    pub line: u32,
    pub column: u32,
    pub function: Seq<u8>,
    pub message: Seq<u8>,
    pub param: Seq<u64>,
}

impl View for Exception {
    type V = ExceptionView;

    open spec fn view(&self) -> ExceptionView {
        ExceptionView {
            name: self.name@,
            file: self.file@,
            line: self.line,
            column: self.column,
            function: self.function@,
            message: self.message@,
            param: self.param@,
        }
    }
}

/// One argument of a remote procedure call: either a machine word (a raw
/// value reference in the shared address space) or a piece of text.
#[derive(Clone, Debug, PartialEq)]
pub enum RpcArg {
    Word(usize),
    Text(String),
}

/// Mathematical value of an [`RpcArg`].
pub enum RpcArgView {
    Word(usize),
    Text(Seq<char>),
}

impl View for RpcArg {
    type V = RpcArgView;

    open spec fn view(&self) -> RpcArgView {
        match self {
            RpcArg::Word(w) => RpcArgView::Word(*w),
            RpcArg::Text(s) => RpcArgView::Text(s@),
        }
    }
}

/// A message occupying the mailbox slot. Exactly one message is in flight at
/// any instant, in either direction; every `...Request` variant has exactly
/// one matching reply (or terminal) variant.
#[derive(Debug, PartialEq)]
pub enum Message {
    LoadRequest(Vec<u8>),
    LoadReply(Result<(), String>),

    NowInitRequest,
    NowInitReply(u64),
    NowSave(u64),

    RunFinished,
    RunException { exception: Exception, backtrace: Vec<usize> },
    RunAborted,

    WatchdogSetRequest { ms: u64 },
    WatchdogSetReply { id: usize },
    WatchdogClear { id: usize },

    RpcSend { service: u32, batch: bool, tag: Vec<u8>, data: Vec<RpcArg> },
    RpcRecvRequest(usize),
    RpcRecvReply(Result<usize, Exception>),

    CacheGetRequest { key: String },
    CacheGetReply { value: Vec<u32> },
    CachePutRequest { key: String, value: Vec<u32> },
    CachePutReply { succeeded: bool },

    Log(String),
    LogSlice(String),
}

/// Mathematical value of a [`Message`].
pub enum MessageView {
    LoadRequest(Seq<u8>),
    LoadReply(Result<(), Seq<char>>),

    NowInitRequest,
    NowInitReply(u64),
    NowSave(u64),

    RunFinished,
    RunException { exception: ExceptionView, backtrace: Seq<usize> },
    RunAborted,

    WatchdogSetRequest { ms: u64 },
    WatchdogSetReply { id: usize },
    WatchdogClear { id: usize },

    RpcSend { service: u32, batch: bool, tag: Seq<u8>, data: Seq<RpcArgView> },
    RpcRecvRequest(usize),
    RpcRecvReply(Result<usize, ExceptionView>),

    CacheGetRequest { key: Seq<char> },
    CacheGetReply { value: Seq<u32> },
    CachePutRequest { key: Seq<char>, value: Seq<u32> },
    CachePutReply { succeeded: bool },

    Log(Seq<char>),
    LogSlice(Seq<char>),
}

/// Views of a sequence of RPC arguments, element by element.
pub open spec fn rpc_arg_views(args: Seq<RpcArg>) -> Seq<RpcArgView> {
    args.map_values(|a: RpcArg| a@)
}

impl View for Message {
    type V = MessageView;

    open spec fn view(&self) -> MessageView {
        match self {
            Message::LoadRequest(image) => MessageView::LoadRequest(image@),
            Message::LoadReply(result) => MessageView::LoadReply(
                match result {
                    Ok(()) => Ok(()),
                    Err(error) => Err(error@),
                },
            ),
            Message::NowInitRequest => MessageView::NowInitRequest,
            Message::NowInitReply(now) => MessageView::NowInitReply(*now),
            Message::NowSave(now) => MessageView::NowSave(*now),
            Message::RunFinished => MessageView::RunFinished,
            Message::RunException { exception, backtrace } => MessageView::RunException {
                exception: exception@,
                backtrace: backtrace@,
            },
            Message::RunAborted => MessageView::RunAborted,
            Message::WatchdogSetRequest { ms } => MessageView::WatchdogSetRequest { ms: *ms },
            Message::WatchdogSetReply { id } => MessageView::WatchdogSetReply { id: *id },
            Message::WatchdogClear { id } => MessageView::WatchdogClear { id: *id },
            Message::RpcSend { service, batch, tag, data } => MessageView::RpcSend {
                service: *service,
                batch: *batch,
                tag: tag@,
                data: rpc_arg_views(data@),
            },
            Message::RpcRecvRequest(slot) => MessageView::RpcRecvRequest(*slot),
            Message::RpcRecvReply(result) => MessageView::RpcRecvReply(
                match result {
                    Ok(size) => Ok(*size),
                    Err(exception) => Err(exception@),
                },
            ),
            Message::CacheGetRequest { key } => MessageView::CacheGetRequest { key: key@ },
            Message::CacheGetReply { value } => MessageView::CacheGetReply { value: value@ },
            Message::CachePutRequest { key, value } => MessageView::CachePutRequest {
                key: key@,
                value: value@,
            },
            Message::CachePutReply { succeeded } => MessageView::CachePutReply {
                succeeded: *succeeded,
            },
            Message::Log(text) => MessageView::Log(text@),
            Message::LogSlice(text) => MessageView::LogSlice(text@),
        }
    }
}

/// Views of a sequence of messages, element by element.
pub open spec fn msg_views(msgs: Seq<Message>) -> Seq<MessageView> {
    msgs.map_values(|m: Message| m@)
}

/// Taking views distributes over appending one message.
pub proof fn lemma_msg_views_push(msgs: Seq<Message>, m: Message)
    ensures
        msg_views(msgs.push(m)) == msg_views(msgs).push(m@),
{
    assert(msg_views(msgs.push(m)) =~= msg_views(msgs).push(m@));
}

} // verus!
