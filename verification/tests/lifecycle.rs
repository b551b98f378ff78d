use ksupport::channel::{Endpoint, Failure};
use ksupport::clock::{sys_jiffies, sys_now};
use ksupport::kernel_proto::{Exception, Message, RpcArg, KERNELCPU_PAYLOAD_ADDRESS};
use ksupport::mailbox::Mailbox;
use ksupport::runtime::{
    await_load, filter_backtrace, run_cycle, terminate, ModuleInfo, RunOutcome,
};
use ksupport::writeback::{attribute_writeback, Attr, TypeDesc};

fn module() -> ModuleInfo {
    ModuleInfo { bss_start: 0x40440100, end: 0x40440180, entry: 0x40440000 }
}

fn exception() -> Exception {
    Exception {
        name: b"0:artiq.coredevice.exceptions.RTIOUnderflow".to_vec(),
        file: b"experiment.py".to_vec(),
        line: 17,
        column: 4,
        function: b"run".to_vec(),
        message: b"RTIO underflow at {0} mu".to_vec(),
        param: [8000, 0, 0],
    }
}

#[test]
fn one_message_in_flight_over_the_slot() {
    // Strict alternation on the slot: send, acknowledge, send again.
    let mut mailbox = Mailbox::new();
    assert!(!mailbox.pending());
    mailbox.send(Message::NowInitRequest);
    assert!(mailbox.pending());
    let first = mailbox.acknowledge();
    assert_eq!(first, Message::NowInitRequest);
    assert!(!mailbox.pending());
    mailbox.send(Message::NowInitReply(1000));
    assert_eq!(mailbox.acknowledge(), Message::NowInitReply(1000));
}

#[test]
fn backtrace_filter_drops_runtime_frames_and_rebases() {
    let base = KERNELCPU_PAYLOAD_ADDRESS;
    let raw = vec![0x100, base + 4, base, base + 0x1000, 0, base + 4];
    let filtered = filter_backtrace(&raw, base);
    // Only addresses strictly above the base stay, reduced by the base, in
    // original order; the length is the count of such addresses.
    assert_eq!(filtered, vec![4, 0x1000, 4]);
}

#[test]
fn backtrace_filter_of_runtime_only_frames_is_empty() {
    let filtered = filter_backtrace(&vec![0, 1, KERNELCPU_PAYLOAD_ADDRESS],
        KERNELCPU_PAYLOAD_ADDRESS);
    assert_eq!(filtered, Vec::new());
}

#[test]
fn happy_path_message_order() {
    // Scenario: a valid image is loaded, the clock is seeded with 1000, the
    // program runs to completion, and the clock comes back with NowSave.
    let image = vec![0x7f, b'K', b'L', b'M'];
    let mut ep = Endpoint::new(vec![
        Message::LoadRequest(image.clone()),
        Message::NowInitReply(1000),
    ]);
    assert_eq!(await_load(&mut ep), Ok(image));
    let outcome = RunOutcome::Finished { now: 1750 };
    assert_eq!(run_cycle(&mut ep, Ok(module()), outcome, &Vec::new()), Ok(()));
    assert_eq!(
        ep.sent,
        vec![
            Message::LoadReply(Ok(())),
            Message::NowInitRequest,
            Message::NowSave(1750),
            Message::RunFinished,
        ]
    );
    assert_eq!(ep.inbox, Vec::new());
}

#[test]
fn bad_load_reports_the_error_and_nothing_more() {
    let mut ep = Endpoint::new(vec![Message::LoadRequest(vec![0xde, 0xad])]);
    assert_eq!(await_load(&mut ep), Ok(vec![0xde, 0xad]));
    let r = run_cycle(
        &mut ep,
        Err(String::from("unknown image format")),
        RunOutcome::Finished { now: 0 },
        &Vec::new(),
    );
    assert_eq!(r, Ok(()));
    // The negative load reply is the only message; the kernel domain idles
    // until a new load request.
    assert_eq!(
        ep.sent,
        vec![Message::LoadReply(Err(String::from("unknown image format")))]
    );
    assert_eq!(ep.inbox, Vec::new());
}

#[test]
fn uncaught_exception_saves_clock_and_reports_filtered_backtrace() {
    let base = KERNELCPU_PAYLOAD_ADDRESS;
    let mut ep = Endpoint::new(vec![
        Message::LoadRequest(vec![1]),
        Message::NowInitReply(500),
    ]);
    assert_eq!(await_load(&mut ep), Ok(vec![1]));
    let outcome = RunOutcome::Raised {
        now: 640,
        exception: exception(),
        backtrace: vec![0x10, base + 0x20, base + 0x34],
    };
    assert_eq!(run_cycle(&mut ep, Ok(module()), outcome, &Vec::new()), Ok(()));
    assert_eq!(
        ep.sent,
        vec![
            Message::LoadReply(Ok(())),
            Message::NowInitRequest,
            Message::NowSave(640),
            Message::RunException { exception: exception(), backtrace: vec![0x20, 0x34] },
        ]
    );
}

#[test]
fn terminate_alone_saves_clock_then_reports() {
    let mut ep = Endpoint::new(Vec::new());
    terminate(&mut ep, 99, exception(), vec![KERNELCPU_PAYLOAD_ADDRESS + 8]);
    assert_eq!(
        ep.sent,
        vec![
            Message::NowSave(99),
            Message::RunException { exception: exception(), backtrace: vec![8] },
        ]
    );
}

#[test]
fn native_panic_reports_aborted_without_backtrace() {
    let mut ep = Endpoint::new(vec![
        Message::LoadRequest(vec![1]),
        Message::NowInitReply(0),
    ]);
    assert_eq!(await_load(&mut ep), Ok(vec![1]));
    let outcome = RunOutcome::Panicked {
        message: String::from("panic at main.rs:7: index out of bounds"),
    };
    assert_eq!(run_cycle(&mut ep, Ok(module()), outcome, &Vec::new()), Ok(()));
    assert_eq!(
        ep.sent,
        vec![
            Message::LoadReply(Ok(())),
            Message::NowInitRequest,
            Message::Log(String::from("panic at main.rs:7: index out of bounds")),
            Message::RunAborted,
        ]
    );
}

#[test]
fn wrong_clock_reply_is_a_protocol_violation() {
    let mut ep = Endpoint::new(vec![
        Message::LoadRequest(vec![1]),
        Message::CachePutReply { succeeded: true },
    ]);
    assert_eq!(await_load(&mut ep), Ok(vec![1]));
    let r = run_cycle(&mut ep, Ok(module()), RunOutcome::Finished { now: 0 }, &Vec::new());
    match r {
        Err(Failure::Unexpected(m)) => {
            assert_eq!(m, Message::CachePutReply { succeeded: true })
        },
        _ => panic!("expected a protocol violation"),
    }
    assert_eq!(ep.sent, vec![Message::LoadReply(Ok(())), Message::NowInitRequest]);
}

#[test]
fn writeback_sends_one_batched_call_per_present_tag() {
    let table = vec![TypeDesc {
        attributes: vec![
            Attr { offset: 8, tag: Some(b"Os".to_vec()), name: String::from("gain") },
            Attr { offset: 16, tag: None, name: String::from("scratch") },
        ],
        objects: vec![0x1000, 0x2000],
    }];
    let mut ep = Endpoint::new(Vec::new());
    attribute_writeback(&mut ep, &table);
    let call = |object: usize| Message::RpcSend {
        service: 0,
        batch: true,
        tag: b"Os".to_vec(),
        data: vec![
            RpcArg::Word(object),
            RpcArg::Text(String::from("gain")),
            RpcArg::Word(object + 8),
        ],
    };
    // The untagged attribute is skipped; every present tag is sent for every
    // object, every run.
    assert_eq!(ep.sent, vec![call(0x1000), call(0x2000)]);
}

#[test]
fn writeback_of_empty_table_sends_nothing() {
    let mut ep = Endpoint::new(Vec::new());
    attribute_writeback(&mut ep, &Vec::new());
    assert_eq!(ep.sent, Vec::new());
}

#[test]
fn finished_run_flushes_writeback_between_clock_save_and_report() {
    let table = vec![TypeDesc {
        attributes: vec![Attr { offset: 4, tag: Some(b"i".to_vec()), name: String::from("n") }],
        objects: vec![0x3000],
    }];
    let mut ep = Endpoint::new(vec![
        Message::LoadRequest(vec![1]),
        Message::NowInitReply(100),
    ]);
    assert_eq!(await_load(&mut ep), Ok(vec![1]));
    let r = run_cycle(&mut ep, Ok(module()), RunOutcome::Finished { now: 200 }, &table);
    assert_eq!(r, Ok(()));
    assert_eq!(
        ep.sent,
        vec![
            Message::LoadReply(Ok(())),
            Message::NowInitRequest,
            Message::NowSave(200),
            Message::RpcSend {
                service: 0,
                batch: true,
                tag: b"i".to_vec(),
                data: vec![
                    RpcArg::Word(0x3000),
                    RpcArg::Text(String::from("n")),
                    RpcArg::Word(0x3004),
                ],
            },
            Message::RunFinished,
        ]
    );
}

#[test]
fn module_bss_range_length() {
    assert_eq!(module().bss_len(), 0x80);
}

#[test]
fn clock_truncates_to_32_bits() {
    assert_eq!(sys_now(0x1_0000_0005), 5);
    assert_eq!(sys_jiffies(0xffff_ffff_ffff_ffff), 0xffff_ffff);
    assert_eq!(sys_now(1234), 1234);
}
