use ksupport::api::{
    abort, cache_get, cache_put, recv_rpc, send_rpc, send_to_log, watchdog_clear, watchdog_set,
};
use ksupport::channel::{Endpoint, Failure};
use ksupport::kernel_proto::{Exception, Message, RpcArg};

fn exception(name: &str) -> Exception {
    Exception {
        name: name.as_bytes().to_vec(),
        file: b"host".to_vec(),
        line: 1,
        column: 2,
        function: b"f".to_vec(),
        message: b"m".to_vec(),
        param: [1, 2, 3],
    }
}

#[test]
fn watchdog_set_negative_raises_value_error_without_round_trip() {
    let mut ep = Endpoint::new(Vec::new());
    match watchdog_set(&mut ep, -1) {
        Err(Failure::Raised(e)) => {
            assert_eq!(e.name, b"0:artiq.coredevice.exceptions.ValueError".to_vec());
            assert_eq!(
                e.message,
                b"cannot set a watchdog with a negative timeout".to_vec()
            );
        },
        _ => panic!("expected a raised value error"),
    }
    // Zero channel round trips: nothing sent, nothing consumed.
    assert_eq!(ep.sent, Vec::new());
    assert_eq!(ep.inbox, Vec::new());
}

#[test]
fn watchdog_set_zero_is_one_round_trip_returning_the_id() {
    let mut ep = Endpoint::new(vec![Message::WatchdogSetReply { id: 5 }]);
    assert_eq!(watchdog_set(&mut ep, 0), Ok(5));
    assert_eq!(ep.sent, vec![Message::WatchdogSetRequest { ms: 0 }]);
    assert_eq!(ep.inbox, Vec::new());
}

#[test]
fn watchdog_set_without_host_reply_hangs() {
    let mut ep = Endpoint::new(Vec::new());
    assert!(matches!(watchdog_set(&mut ep, 30000), Err(Failure::NoReply)));
    assert_eq!(ep.sent, vec![Message::WatchdogSetRequest { ms: 30000 }]);
}

#[test]
fn watchdog_set_treats_wrong_reply_as_protocol_violation() {
    let mut ep = Endpoint::new(vec![Message::RunFinished]);
    match watchdog_set(&mut ep, 10) {
        Err(Failure::Unexpected(m)) => assert_eq!(m, Message::RunFinished),
        _ => panic!("expected a protocol violation"),
    }
}

#[test]
fn watchdog_clear_is_fire_and_forget() {
    let mut ep = Endpoint::new(Vec::new());
    watchdog_clear(&mut ep, 5);
    assert_eq!(ep.sent, vec![Message::WatchdogClear { id: 5 }]);
}

#[test]
fn cache_put_busy_row_raises_cache_error() {
    let mut ep = Endpoint::new(vec![Message::CachePutReply { succeeded: false }]);
    match cache_put(&mut ep, String::from("gain"), vec![1, 2, 3]) {
        Err(Failure::Raised(e)) => {
            assert_eq!(e.name, b"0:artiq.coredevice.exceptions.CacheError".to_vec());
            assert_eq!(e.message, b"cannot put into a busy cache row".to_vec());
        },
        _ => panic!("expected a raised cache error"),
    }
    assert_eq!(
        ep.sent,
        vec![Message::CachePutRequest { key: String::from("gain"), value: vec![1, 2, 3] }]
    );
}

#[test]
fn cache_put_accepted_row_returns_unit() {
    let mut ep = Endpoint::new(vec![Message::CachePutReply { succeeded: true }]);
    assert_eq!(cache_put(&mut ep, String::from("gain"), vec![7]), Ok(()));
}

#[test]
fn cache_get_absent_key_yields_empty_value() {
    let mut ep = Endpoint::new(vec![Message::CacheGetReply { value: Vec::new() }]);
    assert_eq!(cache_get(&mut ep, String::from("missing")), Ok(Vec::new()));
    assert_eq!(ep.sent, vec![Message::CacheGetRequest { key: String::from("missing") }]);
}

#[test]
fn cache_get_hands_the_row_over_whole() {
    let mut ep = Endpoint::new(vec![Message::CacheGetReply { value: vec![10, 20, 30] }]);
    assert_eq!(cache_get(&mut ep, String::from("gain")), Ok(vec![10, 20, 30]));
}

#[test]
fn send_rpc_marks_service_zero_batched() {
    let mut ep = Endpoint::new(Vec::new());
    send_rpc(&mut ep, 0, b"Os".to_vec(), vec![RpcArg::Word(0x1000)]);
    send_rpc(&mut ep, 3, b"i".to_vec(), vec![RpcArg::Word(1), RpcArg::Text(String::from("x"))]);
    assert_eq!(
        ep.sent,
        vec![
            Message::RpcSend {
                service: 0,
                batch: true,
                tag: b"Os".to_vec(),
                data: vec![RpcArg::Word(0x1000)],
            },
            Message::RpcSend {
                service: 3,
                batch: false,
                tag: b"i".to_vec(),
                data: vec![RpcArg::Word(1), RpcArg::Text(String::from("x"))],
            },
        ]
    );
}

#[test]
fn recv_rpc_returns_the_prepared_size() {
    let mut ep = Endpoint::new(vec![Message::RpcRecvReply(Ok(16))]);
    assert_eq!(recv_rpc(&mut ep, 0x40450000), Ok(16));
    assert_eq!(ep.sent, vec![Message::RpcRecvRequest(0x40450000)]);
}

#[test]
fn recv_rpc_exception_reply_is_raised_not_returned() {
    let host_exception = exception("0:artiq.coredevice.exceptions.RPCError");
    let mut ep = Endpoint::new(vec![Message::RpcRecvReply(Err(host_exception.clone()))]);
    match recv_rpc(&mut ep, 0x40450000) {
        Err(Failure::Raised(e)) => assert_eq!(e, host_exception),
        Ok(size) => panic!("a size ({size}) must never come out of an exception reply"),
        _ => panic!("expected the propagated exception"),
    }
    assert_eq!(ep.sent, vec![Message::RpcRecvRequest(0x40450000)]);
}

#[test]
fn send_to_log_forwards_the_text() {
    let mut ep = Endpoint::new(Vec::new());
    send_to_log(&mut ep, String::from("booting"));
    assert_eq!(ep.sent, vec![Message::LogSlice(String::from("booting"))]);
}

#[test]
fn abort_reports_and_idles() {
    let mut ep = Endpoint::new(Vec::new());
    abort(&mut ep);
    assert_eq!(
        ep.sent,
        vec![Message::Log(String::from("kernel called abort()")), Message::RunAborted]
    );
}
