//! The kernel runtime lifecycle: await a load request, report the loader's
//! outcome, perform the clock handshake, and after the program's run report
//! the terminal outcome — finished, an uncaught exception with its filtered
//! backtrace, or a native panic. After any terminal report the kernel
//! domain idles, awaiting a fresh load request.

use vstd::prelude::*;
use crate::channel::{Endpoint, Failure};
use crate::kernel_proto::{
    msg_views, Exception, Message, MessageView, KERNELCPU_PAYLOAD_ADDRESS,
};
use crate::writeback::{attribute_writeback, table_views, wb_ok, wb_table, TypeDesc, TypeDescView};

verus! {

/// What a successful load hands back: the module's zero-initialized data
/// range, found through its two exported boundary symbols, and its entry
/// point. The loader itself is an external collaborator.
#[derive(Clone, Copy, Debug, PartialEq, Eq, Structural)]
pub struct ModuleInfo {
    pub bss_start: usize,
    pub end: usize,
    pub entry: usize,
}

impl ModuleInfo {
    /// The data range's boundary symbols are in order.
    pub open spec fn wf(self) -> bool {
        self.bss_start <= self.end
    }

    /// Number of bytes to zero before the entry point runs.
    pub fn bss_len(&self) -> (r: usize)
        requires
            self.wf(),
        ensures
            r == self.end - self.bss_start,
    {
        self.end - self.bss_start
    }
}

/// How one run of a loaded program ended. The clock value the program left
/// behind comes out with the outcome: the program owns the clock for the
/// duration of the run.
pub enum RunOutcome {
    /// The entry point returned.
    Finished { now: u64 },
    /// An uncaught exception reached the single catch point at the top of
    /// the run loop, with the raw backtrace gathered while unwinding.
    Raised { now: u64, exception: Exception, backtrace: Vec<usize> },
    /// A native panic — a runtime-detected invariant violation, not a user
    /// exception — with its already-formatted text.
    Panicked { message: String },
}

/// The predicate selecting program frames: addresses strictly above the
/// fixed program base. Addresses at or below it are runtime frames.
pub open spec fn above_base(base: usize) -> spec_fn(usize) -> bool {
    |a: usize| a > base
}

/// The translation applied to a retained frame: the offset from the base.
pub open spec fn rebase(base: usize) -> spec_fn(usize) -> usize {
    |a: usize| (a - base) as usize
}

/// The filtered backtrace: the subsequence of addresses strictly greater
/// than the base, each reduced by the base, in original order.
pub open spec fn filtered_backtrace(addrs: Seq<usize>, base: usize) -> Seq<usize>
    decreases addrs.len(),
{
    if addrs.len() == 0 {
        seq![]
    } else {
        let rest = filtered_backtrace(addrs.drop_last(), base);
        if addrs.last() > base {
            rest.push((addrs.last() - base) as usize)
        } else {
            rest
        }
    }
}

proof fn lemma_filtered_backtrace_take(addrs: Seq<usize>, base: usize, i: int)
    requires
        0 <= i < addrs.len(),
    ensures
        filtered_backtrace(addrs.take(i + 1), base) == filtered_backtrace(addrs.take(i), base)
            + (if addrs[i] > base {
            seq![(addrs[i] - base) as usize]
        } else {
            seq![]
        }),
{
    let t1 = addrs.take(i + 1);
    assert(t1.drop_last() =~= addrs.take(i));
    assert(t1.last() == addrs[i]);
    if addrs[i] > base {
        assert(filtered_backtrace(addrs.take(i), base).push((addrs[i] - base) as usize)
            =~= filtered_backtrace(addrs.take(i), base) + seq![(addrs[i] - base) as usize]);
    } else {
        assert(filtered_backtrace(addrs.take(i), base) + Seq::<usize>::empty()
            =~= filtered_backtrace(addrs.take(i), base));
    }
}

/// The filtered backtrace is exactly the raw sequence filtered to the
/// addresses above the base and mapped to their offsets, and its length is
/// the count of such addresses.
pub proof fn lemma_backtrace_filter(addrs: Seq<usize>, base: usize)
    ensures
        filtered_backtrace(addrs, base) == addrs.filter(above_base(base)).map_values(
            rebase(base),
        ),
        filtered_backtrace(addrs, base).len() == addrs.filter(above_base(base)).len(),
    decreases addrs.len(),
{
    reveal(Seq::filter);
    if addrs.len() == 0 {
        assert(filtered_backtrace(addrs, base) =~= addrs.filter(above_base(base)).map_values(
            rebase(base),
        ));
    } else {
        let prior = addrs.drop_last();
        lemma_backtrace_filter(prior, base);
        if addrs.last() > base {
            assert(prior.filter(above_base(base)).map_values(rebase(base)).push(
                rebase(base)(addrs.last()),
            ) =~= prior.filter(above_base(base)).push(addrs.last()).map_values(rebase(base)));
        }
    }
}

/// Drops runtime frames from a raw backtrace and translates the rest:
/// addresses at or below `base` disappear, the others become offsets from
/// `base`, in original order.
#[verifier::loop_isolation(false)]
pub fn filter_backtrace(backtrace: &Vec<usize>, base: usize) -> (r: Vec<usize>)
    ensures
        r@ == filtered_backtrace(backtrace@, base),
{
    let mut r: Vec<usize> = Vec::new();
    let mut i: usize = 0;
    proof {
        assert(filtered_backtrace(backtrace@.take(0), base) =~= Seq::<usize>::empty());
    }
    while i < backtrace.len()
        invariant
            i <= backtrace@.len(),
            r@ == filtered_backtrace(backtrace@.take(i as int), base),
        decreases backtrace@.len() - i,
    {
        let a = backtrace[i];
        if a > base {
            r.push(a - base);
        }
        proof {
            lemma_filtered_backtrace_take(backtrace@, base, i as int);
        }
        i = i + 1;
    }
    proof {
        assert(backtrace@.take(backtrace@.len() as int) =~= backtrace@);
    }
    r
}

/// Receives the next load request. The kernel domain starts here, and
/// returns here after every terminal report.
pub fn await_load(ep: &mut Endpoint) -> (r: Result<Vec<u8>, Failure>)
    ensures
        final(ep).sent == old(ep).sent,
        old(ep).inbox@.len() == 0 ==> r == Err::<Vec<u8>, Failure>(Failure::NoReply)
            && final(ep).inbox == old(ep).inbox,
        old(ep).inbox@.len() > 0 ==> final(ep).inbox@ == old(ep).inbox@.subrange(
            1,
            old(ep).inbox@.len() as int,
        ) && (match old(ep).inbox@[0] {
            Message::LoadRequest(image) => r == Ok::<Vec<u8>, Failure>(image),
            m => r == Err::<Vec<u8>, Failure>(Failure::Unexpected(m)),
        }),
{
    match ep.recv() {
        None => Err(Failure::NoReply),
        Some(Message::LoadRequest(image)) => Ok(image),
        Some(m) => Err(Failure::Unexpected(m)),
    }
}

/// Reports the loader's outcome. On success the load reply is positive and
/// the module is handed on; on failure the textual load error is reported
/// and the kernel domain goes back to idling — there is no retry of a
/// failed load within one boot.
pub fn report_load(ep: &mut Endpoint, outcome: Result<ModuleInfo, String>) -> (r: Option<
    ModuleInfo,
>)
    ensures
        final(ep).inbox == old(ep).inbox,
        outcome matches Ok(m) ==> r == Some(m) && msg_views(final(ep).sent@) == msg_views(
            old(ep).sent@,
        ).push(MessageView::LoadReply(Ok(()))),
        outcome matches Err(e) ==> r is None && msg_views(final(ep).sent@) == msg_views(
            old(ep).sent@,
        ).push(MessageView::LoadReply(Err(e@))),
{
    let ghost sent0 = ep.sent@;
    match outcome {
        Ok(module) => {
            ep.send(Message::LoadReply(Ok(())));
            proof {
                crate::kernel_proto::lemma_msg_views_push(sent0, Message::LoadReply(Ok(())));
            }
            Some(module)
        },
        Err(error) => {
            let ghost m = Message::LoadReply(Err(error));
            ep.send(Message::LoadReply(Err(error)));
            proof {
                crate::kernel_proto::lemma_msg_views_push(sent0, m);
            }
            None
        },
    }
}

/// Asks the host for the current clock value to seed local time, so control
/// timing is continuous across successive loads.
pub fn init_clock(ep: &mut Endpoint) -> (r: Result<u64, Failure>)
    ensures
        msg_views(final(ep).sent@) == msg_views(old(ep).sent@).push(MessageView::NowInitRequest),
        old(ep).inbox@.len() == 0 ==> r == Err::<u64, Failure>(Failure::NoReply)
            && final(ep).inbox == old(ep).inbox,
        old(ep).inbox@.len() > 0 ==> final(ep).inbox@ == old(ep).inbox@.subrange(
            1,
            old(ep).inbox@.len() as int,
        ) && (match old(ep).inbox@[0] {
            Message::NowInitReply(now) => r == Ok::<u64, Failure>(now),
            m => r == Err::<u64, Failure>(Failure::Unexpected(m)),
        }),
{
    let ghost sent0 = ep.sent@;
    ep.send(Message::NowInitRequest);
    proof {
        crate::kernel_proto::lemma_msg_views_push(sent0, Message::NowInitRequest);
    }
    match ep.recv() {
        None => Err(Failure::NoReply),
        Some(Message::NowInitReply(now)) => Ok(now),
        Some(m) => Err(Failure::Unexpected(m)),
    }
}

/// After the entry point returned: hand the clock back, run attribute
/// writeback, and report the run finished.
pub fn finish_run(ep: &mut Endpoint, now: u64, table: &Vec<TypeDesc>)
    requires
        wb_ok(table_views(table@)),
    ensures
        final(ep).inbox == old(ep).inbox,
        msg_views(final(ep).sent@) == msg_views(old(ep).sent@) + (seq![MessageView::NowSave(now)]
            + wb_table(table_views(table@)) + seq![MessageView::RunFinished]),
{
    let ghost sent0 = ep.sent@;
    ep.send(Message::NowSave(now));
    proof {
        crate::kernel_proto::lemma_msg_views_push(sent0, Message::NowSave(now));
    }
    attribute_writeback(ep, table);
    let ghost sent1 = ep.sent@;
    ep.send(Message::RunFinished);
    proof {
        crate::kernel_proto::lemma_msg_views_push(sent1, Message::RunFinished);
        assert(msg_views(ep.sent@) =~= msg_views(sent0) + (seq![MessageView::NowSave(now)]
            + wb_table(table_views(table@)) + seq![MessageView::RunFinished]));
    }
}

/// The terminate handler for an uncaught exception: filter the raw
/// backtrace down to program frames, save the clock, and report the
/// exception with the filtered backtrace. The kernel domain then idles.
pub fn terminate(ep: &mut Endpoint, now: u64, exception: Exception, backtrace: Vec<usize>)
    ensures
        final(ep).inbox == old(ep).inbox,
        msg_views(final(ep).sent@) == msg_views(old(ep).sent@) + seq![
            MessageView::NowSave(now),
            MessageView::RunException {
                exception: exception@,
                backtrace: filtered_backtrace(backtrace@, KERNELCPU_PAYLOAD_ADDRESS),
            },
        ],
{
    let ghost sent0 = ep.sent@;
    let filtered = filter_backtrace(&backtrace, KERNELCPU_PAYLOAD_ADDRESS);
    ep.send(Message::NowSave(now));
    proof {
        crate::kernel_proto::lemma_msg_views_push(sent0, Message::NowSave(now));
    }
    let ghost sent1 = ep.sent@;
    let ghost m = Message::RunException { exception: exception, backtrace: filtered };
    ep.send(Message::RunException { exception, backtrace: filtered });
    proof {
        crate::kernel_proto::lemma_msg_views_push(sent1, m);
        assert(msg_views(ep.sent@) =~= msg_views(sent0) + seq![
            MessageView::NowSave(now),
            m@,
        ]);
    }
}

/// Reports a native panic: the formatted panic text, then the terminal
/// aborted report. No backtrace accompanies a panic.
pub fn report_panic(ep: &mut Endpoint, message: String)
    ensures
        final(ep).inbox == old(ep).inbox,
        msg_views(final(ep).sent@) == msg_views(old(ep).sent@) + seq![
            MessageView::Log(message@),
            MessageView::RunAborted,
        ],
{
    let ghost sent0 = ep.sent@;
    let ghost m = Message::Log(message);
    ep.send(Message::Log(message));
    proof {
        crate::kernel_proto::lemma_msg_views_push(sent0, m);
    }
    let ghost sent1 = ep.sent@;
    ep.send(Message::RunAborted);
    proof {
        crate::kernel_proto::lemma_msg_views_push(sent1, Message::RunAborted);
        assert(msg_views(ep.sent@) =~= msg_views(sent0) + seq![m@, MessageView::RunAborted]);
    }
}

/// The messages one run outcome makes the runtime send after the clock
/// handshake.
pub open spec fn outcome_msgs(outcome: RunOutcome, types: Seq<TypeDescView>) -> Seq<MessageView> {
    match outcome {
        RunOutcome::Finished { now } => seq![MessageView::NowSave(now)] + wb_table(types) + seq![
            MessageView::RunFinished,
        ],
        RunOutcome::Raised { now, exception, backtrace } => seq![
            MessageView::NowSave(now),
            MessageView::RunException {
                exception: exception@,
                backtrace: filtered_backtrace(backtrace@, KERNELCPU_PAYLOAD_ADDRESS),
            },
        ],
        RunOutcome::Panicked { message } => seq![
            MessageView::Log(message@),
            MessageView::RunAborted,
        ],
    }
}

/// One load/initialize/run/report cycle, from the loader's outcome on. The
/// loader's work and the program's execution themselves happen outside: the
/// loader's result comes in as `outcome` of the load, and the run's end as
/// `outcome` of the run. A failed load reports its error and ends the cycle
/// with no further messages; otherwise the load is acknowledged, the clock
/// seeded from the host's reply, and the run's terminal outcome reported.
pub fn run_cycle(
    ep: &mut Endpoint,
    load: Result<ModuleInfo, String>,
    outcome: RunOutcome,
    table: &Vec<TypeDesc>,
) -> (r: Result<(), Failure>)
    requires
        outcome matches RunOutcome::Finished { now } ==> wb_ok(table_views(table@)),
    ensures
        load matches Err(e) ==> r == Ok::<(), Failure>(()) && final(ep).inbox == old(ep).inbox
            && msg_views(final(ep).sent@) == msg_views(old(ep).sent@).push(
            MessageView::LoadReply(Err(e@)),
        ),
        load is Ok ==> ({
            let after_load = msg_views(old(ep).sent@) + seq![
                MessageView::LoadReply(Ok(())),
                MessageView::NowInitRequest,
            ];
            &&& old(ep).inbox@.len() == 0 ==> r == Err::<(), Failure>(Failure::NoReply)
                && final(ep).inbox == old(ep).inbox && msg_views(final(ep).sent@) == after_load
            &&& old(ep).inbox@.len() > 0 ==> final(ep).inbox@ == old(ep).inbox@.subrange(
                1,
                old(ep).inbox@.len() as int,
            ) && (match old(ep).inbox@[0] {
                Message::NowInitReply(_) => r == Ok::<(), Failure>(()) && msg_views(
                    final(ep).sent@,
                ) == after_load + outcome_msgs(outcome, table_views(table@)),
                m => r == Err::<(), Failure>(Failure::Unexpected(m)) && msg_views(final(ep).sent@)
                    == after_load,
            })
        }),
{
    let _module = match report_load(ep, load) {
        None => {
            return Ok(());
        },
        Some(module) => module,
    };
    // Zeroing the module's data range and calling its entry point touch the
    // loaded program's memory, which belongs to the external collaborators;
    // their result comes back in as the run's outcome.
    let _seed = match init_clock(ep) {
        Ok(now) => now,
        Err(failure) => {
            return Err(failure);
        },
    };
    match outcome {
        RunOutcome::Finished { now } => {
            finish_run(ep, now, table);
            Ok(())
        },
        RunOutcome::Raised { now, exception, backtrace } => {
            terminate(ep, now, exception, backtrace);
            Ok(())
        },
        RunOutcome::Panicked { message } => {
            report_panic(ep, message);
            Ok(())
        },
    }
}

} // verus!
