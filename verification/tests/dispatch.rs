use rpc_toy::decode_response_header;
use rpc_toy::decode_response_payload;
use rpc_toy::encode_call;
use rpc_toy::u32_from_be;
use rpc_toy::Action;
use rpc_toy::Registry;
use rpc_toy::ResponseHeader;
use rpc_toy::Session;
use serde_json::Value;

type Handler = fn(&Vec<Value>) -> Option<Value>;

fn add_handler(args: &Vec<Value>) -> Option<Value> {
    let a = args[0].as_i64().unwrap();
    let b = args[1].as_i64().unwrap();
    Some(Value::from(a + b))
}

fn hello_handler(_args: &Vec<Value>) -> Option<Value> {
    Some(Value::String("world".to_string()))
}

fn void_handler(_args: &Vec<Value>) -> Option<Value> {
    None
}

fn demo_registry() -> Registry<Handler> {
    let mut reg: Registry<Handler> = Registry::new();
    reg.register("Add", add_handler);
    reg.register("hello", hello_handler);
    reg.register("void_fn", void_handler);
    reg
}

/// How a run of the connection loop ended.
#[derive(Debug, PartialEq, Eq)]
enum Ended {
    /// The input ran out at a message boundary, or the peer's name was
    /// unregistered: normal termination, nothing more sent.
    Clean,
    /// A malformed message closed the connection.
    Error,
}

/// Drives one connection's state machine over an in-memory byte stream,
/// exactly as a transport loop would: read the bytes the session asks
/// for, perform the action it returns, collect the response bytes it
/// produces.
fn run_connection(reg: &Registry<Handler>, input: &[u8]) -> (Vec<u8>, Ended) {
    let mut sess = Session::new();
    let mut pos: usize = 0;
    let mut out: Vec<u8> = Vec::new();
    loop {
        let n = sess.needed();
        if pos + n > input.len() {
            let ended = if sess.at_boundary() && pos == input.len() {
                Ended::Clean
            } else {
                Ended::Error
            };
            return (out, ended);
        }
        let chunk = input[pos..pos + n].to_vec();
        pos += n;
        let (next, action) = sess.step(reg, chunk);
        sess = next;
        match action {
            Action::Continue => {}
            Action::Invoke { name, args } => match reg.lookup(&name) {
                Some(h) => {
                    let result = h(&args);
                    let (after, written) = sess.respond(&result);
                    sess = after;
                    match written {
                        Ok(bytes) => out.extend_from_slice(&bytes),
                        Err(_) => return (out, Ended::Error),
                    }
                }
                None => return (out, Ended::Clean),
            },
            Action::CloseClean => return (out, Ended::Clean),
            Action::CloseError => return (out, Ended::Error),
        }
    }
}

/// Splits a response stream into decoded results, one per call.
fn decode_responses(mut bytes: &[u8]) -> Vec<Option<Value>> {
    let mut results = Vec::new();
    while !bytes.is_empty() {
        let header = bytes[0..4].to_vec();
        match decode_response_header(&header) {
            ResponseHeader::Void => {
                results.push(None);
                bytes = &bytes[4..];
            }
            ResponseHeader::Payload(n) => {
                let payload = bytes[4..4 + n as usize].to_vec();
                results.push(Some(decode_response_payload(&payload).unwrap()));
                bytes = &bytes[4 + n as usize..];
            }
        }
    }
    results
}

#[test]
fn call_message_round_trips_through_the_session() {
    let reg = demo_registry();
    let args = vec![Value::from(1i64), Value::from(2i64)];
    let frame = encode_call("Add", &args).unwrap();
    let mut sess = Session::new();
    let mut pos: usize = 0;
    loop {
        let n = sess.needed();
        let chunk = frame[pos..pos + n].to_vec();
        pos += n;
        let (next, action) = sess.step(&reg, chunk);
        sess = next;
        match action {
            Action::Continue => {}
            Action::Invoke { name, args: got } => {
                assert_eq!(name, b"Add".to_vec());
                assert_eq!(got, args);
                assert_eq!(pos, frame.len());
                return;
            }
            other => panic!("the session closed instead of dispatching: {:?}", unreachable_kind(other)),
        }
    }
}

fn unreachable_kind(action: Action) -> &'static str {
    match action {
        Action::Continue => "continue",
        Action::Invoke { .. } => "invoke",
        Action::CloseClean => "clean close",
        Action::CloseError => "error close",
    }
}

#[test]
fn add_scenario_returns_three() {
    let reg = demo_registry();
    let args = vec![Value::from(1i64), Value::from(2i64)];
    let frame = encode_call("Add", &args).unwrap();
    let (out, ended) = run_connection(&reg, &frame);
    assert_eq!(ended, Ended::Clean);
    assert_eq!(decode_responses(&out), vec![Some(Value::from(3i64))]);
}

#[test]
fn hello_scenario_returns_world() {
    let reg = demo_registry();
    let frame = encode_call("hello", &[]).unwrap();
    let (out, ended) = run_connection(&reg, &frame);
    assert_eq!(ended, Ended::Clean);
    assert_eq!(
        decode_responses(&out),
        vec![Some(Value::String("world".to_string()))]
    );
}

#[test]
fn void_scenario_returns_no_value() {
    let reg = demo_registry();
    let frame = encode_call("void_fn", &[]).unwrap();
    let (out, ended) = run_connection(&reg, &frame);
    assert_eq!(ended, Ended::Clean);
    assert_eq!(out.len(), 4);
    assert_eq!(decode_responses(&out), vec![None]);
}

#[test]
fn sequential_calls_answered_in_order() {
    let reg = demo_registry();
    let mut input = encode_call("Add", &[Value::from(1i64), Value::from(2i64)]).unwrap();
    input.extend(encode_call("Add", &[Value::from(10i64), Value::from(20i64)]).unwrap());
    input.extend(encode_call("hello", &[]).unwrap());
    let (out, ended) = run_connection(&reg, &input);
    assert_eq!(ended, Ended::Clean);
    assert_eq!(
        decode_responses(&out),
        vec![
            Some(Value::from(3i64)),
            Some(Value::from(30i64)),
            Some(Value::String("world".to_string())),
        ]
    );
}

#[test]
fn unknown_function_closes_without_response() {
    let reg = demo_registry();
    let frame = encode_call("Missing", &[Value::from(1i64)]).unwrap();
    let (out, ended) = run_connection(&reg, &frame);
    assert_eq!(out, Vec::<u8>::new());
    assert_eq!(ended, Ended::Clean);
}

#[test]
fn name_that_is_not_utf8_closes_with_error() {
    let reg = demo_registry();
    let input: Vec<u8> = vec![0, 0, 0, 2, 0xff, 0xfe];
    let (out, ended) = run_connection(&reg, &input);
    assert_eq!(out, Vec::<u8>::new());
    assert_eq!(ended, Ended::Error);
}

#[test]
fn argument_that_does_not_parse_closes_with_error() {
    let reg = demo_registry();
    let mut input: Vec<u8> = Vec::new();
    input.extend_from_slice(&[0, 0, 0, 3]);
    input.extend_from_slice(b"Add");
    input.extend_from_slice(&[0, 0, 0, 4]);
    input.extend_from_slice(b"{oo}");
    let (out, ended) = run_connection(&reg, &input);
    assert_eq!(out, Vec::<u8>::new());
    assert_eq!(ended, Ended::Error);
}

#[test]
fn stream_cut_mid_message_is_an_error() {
    let reg = demo_registry();
    let frame = encode_call("Add", &[Value::from(1i64), Value::from(2i64)]).unwrap();
    let cut = &frame[0..frame.len() - 3];
    let (out, ended) = run_connection(&reg, cut);
    assert_eq!(out, Vec::<u8>::new());
    assert_eq!(ended, Ended::Error);
}

#[test]
fn empty_input_is_a_clean_close() {
    let reg = demo_registry();
    let (out, ended) = run_connection(&reg, &[]);
    assert_eq!(out, Vec::<u8>::new());
    assert_eq!(ended, Ended::Clean);
}

#[test]
fn register_same_name_replaces_the_handler() {
    let mut reg: Registry<Handler> = Registry::new();
    reg.register("Add", hello_handler);
    reg.register("Add", add_handler);
    reg.register("other", void_handler);
    let frame = encode_call("Add", &[Value::from(2i64), Value::from(5i64)]).unwrap();
    let (out, ended) = run_connection(&reg, &frame);
    assert_eq!(ended, Ended::Clean);
    assert_eq!(decode_responses(&out), vec![Some(Value::from(7i64))]);
    let frame = encode_call("other", &[]).unwrap();
    let (out, _) = run_connection(&reg, &frame);
    assert_eq!(decode_responses(&out), vec![None]);
}

#[test]
fn empty_name_is_a_name_like_any_other() {
    let mut reg: Registry<Handler> = Registry::new();
    reg.register("", hello_handler);
    let frame = encode_call("", &[]).unwrap();
    assert_eq!(&frame[..], &[0u8, 0, 0, 0, 0, 0, 0, 0][..]);
    let (out, ended) = run_connection(&reg, &frame);
    assert_eq!(ended, Ended::Clean);
    assert_eq!(
        decode_responses(&out),
        vec![Some(Value::String("world".to_string()))]
    );
}

#[test]
fn multibyte_name_travels_as_its_utf8_bytes() {
    let mut reg: Registry<Handler> = Registry::new();
    reg.register("grüße", add_handler);
    let frame = encode_call("grüße", &[Value::from(4i64), Value::from(5i64)]).unwrap();
    assert_eq!(u32_from_be(&frame[0..4].to_vec()), "grüße".len() as u32);
    let (out, ended) = run_connection(&reg, &frame);
    assert_eq!(ended, Ended::Clean);
    assert_eq!(decode_responses(&out), vec![Some(Value::from(9i64))]);
}

#[test]
fn concurrent_connections_do_not_cross_talk() {
    let reg = demo_registry();
    let workers: i64 = 8;
    let calls_per_worker: i64 = 25;
    crossbeam::thread::scope(|scope| {
        for w in 0..workers {
            let reg = &reg;
            scope.spawn(move |_| {
                for k in 0..calls_per_worker {
                    let a = w * 1000 + k;
                    let b = w * 7 + 3 * k + 1;
                    let args = vec![Value::from(a), Value::from(b)];
                    let frame = encode_call("Add", &args).unwrap();
                    let (out, ended) = run_connection(reg, &frame);
                    assert_eq!(ended, Ended::Clean);
                    assert_eq!(decode_responses(&out), vec![Some(Value::from(a + b))]);
                }
            });
        }
    })
    .unwrap();
}
