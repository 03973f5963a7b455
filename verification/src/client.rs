use vstd::prelude::*;

use crate::codec::{enc_command, encode_command, hex_digit};
use crate::command::{Command, build_command, all_keys_known, spec_param, spec_assigned, PARAM_COUNT};
use crate::errors::ClientError;

verus! {

/// Default port of the request/reply channel.
pub const DEFAULT_REQUEST_PORT: u16 = 15555;

/// Default port of the data pull channel.
pub const DEFAULT_DATA_PORT: u16 = 15556;

/// Default send and receive timeout, in milliseconds.
pub const DEFAULT_TIMEOUT_MS: u32 = 60000;

/// What came of one attempt to send a frame on a socket.
pub enum SendOutcome {
    /// The frame was handed to the socket.
    Sent,
    /// The send timed out.
    TimedOut,
    /// The send failed for another socket-level reason.
    Fault,
}

/// What came of one attempt to receive a frame from a socket.
pub enum RecvOutcome {
    /// A frame arrived and its bytes were valid UTF-8.
    Text(String),
    /// A frame arrived but its bytes were not valid UTF-8.
    NotUtf8,
    /// No frame arrived within the timeout window.
    TimedOut,
    /// The receive failed for another socket-level reason.
    Fault,
}

/// True when `s` parses as a JSON value.
pub uninterp spec fn json_ok(s: Seq<char>) -> bool;

/// Relies on serde_json::from_str::<Value>: whether a text parses as JSON is
/// a function of its characters alone.
#[verifier::external_body]
fn json_parse_check(s: &str) -> (r: bool)
    ensures
        r == json_ok(s@),
{
    serde_json::from_str::<serde_json::Value>(s).is_ok()
}

/// The decimal digits of `n`.
pub open spec fn dec_of(n: int) -> Seq<char>
    decreases n,
{
    if n < 10 {
        seq![hex_digit(if n < 0 { 0 } else { n })]
    } else {
        dec_of(n / 10) + seq![hex_digit(n % 10)]
    }
}

/// A `tcp://host:port` endpoint string.
pub open spec fn endpoint_of(host: Seq<char>, port: int) -> Seq<char> {
    "tcp://"@ + host + ":"@ + dec_of(port)
}

/// Appends the decimal digits of `n` to `out`.
fn append_dec(out: &mut String, n: u16)
    ensures
        final(out)@ == old(out)@ + dec_of(n as int),
    decreases n,
{
    if n < 10 {
        out.append(crate::codec::hex_digit_str(n as u8));
    } else {
        append_dec(out, n / 10);
        out.append(crate::codec::hex_digit_str((n % 10) as u8));
    }
}

/// The transport client's configuration: one host, one request/reply
/// endpoint, one data pull endpoint, one timeout for both directions.
///
/// The two ports are distinct for the client's whole lifetime; the socket
/// endpoints themselves are owned by the unverified shell around the
/// library, which performs each send and receive and hands the outcome back
/// to the decision functions below.
pub struct Functions {
    pub host: String,
    pub request_port: u16,
    pub data_port: u16,
    pub timeout_ms: u32,
}

impl Functions {
    /// The invariant of a connected client: both channels point at the same
    /// host through two distinct ports.
    pub open spec fn wf(self) -> bool {
        self.request_port != self.data_port
    }

    /// A client configuration for `host` with the default ports and the
    /// default timeout.
    pub fn new(host: String) -> (r: Functions)
        ensures
            r.wf(),
            r.host@ == host@,
            r.request_port == DEFAULT_REQUEST_PORT,
            r.data_port == DEFAULT_DATA_PORT,
            r.timeout_ms == DEFAULT_TIMEOUT_MS,
    {
        Functions {
            host,
            request_port: DEFAULT_REQUEST_PORT,
            data_port: DEFAULT_DATA_PORT,
            timeout_ms: DEFAULT_TIMEOUT_MS,
        }
    }

    /// A client configuration with explicit ports and timeout. A
    /// configuration whose two channels would share one port cannot be
    /// connected and is rejected as a connection failure.
    pub fn connect(host: String, request_port: u16, data_port: u16, timeout_ms: u32) -> (r: Result<
        Functions,
        ClientError,
    >)
        ensures
            r is Ok <==> request_port != data_port,
            r is Err ==> r->Err_0 == ClientError::Connection,
            r is Ok ==> r->Ok_0.wf() && r->Ok_0.host@ == host@ && r->Ok_0.request_port == request_port
                && r->Ok_0.data_port == data_port && r->Ok_0.timeout_ms == timeout_ms,
    {
        if request_port == data_port {
            Err(ClientError::Connection)
        } else {
            Ok(Functions { host, request_port, data_port, timeout_ms })
        }
    }

    /// The endpoint the request/reply socket connects to.
    pub fn request_endpoint(&self) -> (r: String)
        ensures
            r@ == endpoint_of(self.host@, self.request_port as int),
    {
        self.endpoint(self.request_port)
    }

    /// The endpoint the data pull socket connects to.
    pub fn data_endpoint(&self) -> (r: String)
        ensures
            r@ == endpoint_of(self.host@, self.data_port as int),
    {
        self.endpoint(self.data_port)
    }

    fn endpoint(&self, port: u16) -> (r: String)
        ensures
            r@ == endpoint_of(self.host@, port as int),
    {
        let mut out = String::new();
        out.append("tcp://");
        out.append(self.host.as_str());
        out.append(":");
        append_dec(&mut out, port);
        proof {
            assert(out@ =~= endpoint_of(self.host@, port as int));
        }
        out
    }

    /// The single frame that `send_json` writes for `cmd`: its canonical
    /// JSON encoding.
    pub fn request_frame(&self, cmd: &Command) -> (r: String)
        ensures
            r@ == enc_command(*cmd),
    {
        encode_command(cmd)
    }

    /// Decides what a send attempt's outcome means for the caller: only a
    /// frame actually handed to the socket lets the call go on; a send
    /// timeout or fault is a transport failure.
    pub fn send_result(&self, outcome: &SendOutcome) -> (r: Result<(), ClientError>)
        ensures
            r is Ok <==> outcome is Sent,
            r is Err ==> r->Err_0 == ClientError::Transport,
    {
        match outcome {
            SendOutcome::Sent => Ok(()),
            SendOutcome::TimedOut => Err(ClientError::Transport),
            SendOutcome::Fault => Err(ClientError::Transport),
        }
    }

    /// Decides what the synchronous acknowledgement on the request channel
    /// means: exactly the text `OK` acknowledges the command; any other
    /// reply is a server-side transport fault, silence within the window is
    /// a timeout, and bytes that are not UTF-8 cannot be decoded.
    pub fn ack_result(&self, outcome: &RecvOutcome) -> (r: Result<(), ClientError>)
        ensures
            r is Ok <==> (outcome is Text && outcome->Text_0@ == "OK"@),
            outcome is Text && outcome->Text_0@ != "OK"@ ==> r == Err::<(), ClientError>(
                ClientError::Transport,
            ),
            outcome is TimedOut ==> r == Err::<(), ClientError>(ClientError::Timeout),
            outcome is NotUtf8 ==> r == Err::<(), ClientError>(ClientError::Decoding),
            outcome is Fault ==> r == Err::<(), ClientError>(ClientError::Transport),
    {
        match outcome {
            RecvOutcome::Text(msg) => {
                if crate::command::str_eq_str(msg.as_str(), "OK") {
                    Ok(())
                } else {
                    Err(ClientError::Transport)
                }
            },
            RecvOutcome::TimedOut => Err(ClientError::Timeout),
            RecvOutcome::NotUtf8 => Err(ClientError::Decoding),
            RecvOutcome::Fault => Err(ClientError::Transport),
        }
    }

    /// Decides what arrived on the data pull channel: a frame that is valid
    /// UTF-8 and parses as JSON is the reply, returned as its JSON text;
    /// silence within the window is a timeout; anything else cannot be
    /// decoded or is a transport fault.
    pub fn recv_json(&self, outcome: RecvOutcome) -> (r: Result<String, ClientError>)
        ensures
            r is Ok <==> (outcome is Text && json_ok(outcome->Text_0@)),
            r is Ok ==> r->Ok_0@ == outcome->Text_0@,
            outcome is Text && !json_ok(outcome->Text_0@) ==> r == Err::<String, ClientError>(
                ClientError::Decoding,
            ),
            outcome is TimedOut ==> r == Err::<String, ClientError>(ClientError::Timeout),
            outcome is NotUtf8 ==> r == Err::<String, ClientError>(ClientError::Decoding),
            outcome is Fault ==> r == Err::<String, ClientError>(ClientError::Transport),
    {
        match outcome {
            RecvOutcome::Text(msg) => {
                if json_parse_check(msg.as_str()) {
                    Ok(msg)
                } else {
                    Err(ClientError::Decoding)
                }
            },
            RecvOutcome::TimedOut => Err(ClientError::Timeout),
            RecvOutcome::NotUtf8 => Err(ClientError::Decoding),
            RecvOutcome::Fault => Err(ClientError::Transport),
        }
    }

    /// The asynchronous payload leg of a call; the reply always arrives on
    /// the pull channel, so this is `recv_json` under its historical name.
    pub fn pull_reply(&self, outcome: RecvOutcome) -> (r: Result<String, ClientError>)
        ensures
            r is Ok <==> (outcome is Text && json_ok(outcome->Text_0@)),
            r is Ok ==> r->Ok_0@ == outcome->Text_0@,
            outcome is Text && !json_ok(outcome->Text_0@) ==> r == Err::<String, ClientError>(
                ClientError::Decoding,
            ),
            outcome is TimedOut ==> r == Err::<String, ClientError>(ClientError::Timeout),
            outcome is NotUtf8 ==> r == Err::<String, ClientError>(ClientError::Decoding),
            outcome is Fault ==> r == Err::<String, ClientError>(ClientError::Transport),
    {
        self.recv_json(outcome)
    }

    /// The host-binding entry point's deciding half: maps the open keyword
    /// set onto the fixed schema and serializes the result. A keyword
    /// outside the schema is rejected before anything else happens, so no
    /// frame exists to be sent.
    pub fn command_frame(&self, action: String, params: &Vec<(String, String)>) -> (r: Result<
        String,
        ClientError,
    >)
        ensures
            r is Ok <==> all_keys_known(params@),
            r is Err ==> r->Err_0 == ClientError::UnknownParameter,
            r is Ok ==> exists|c: Command|
                c.action@ == action@ && (forall|i: int|
                    0 <= i < PARAM_COUNT ==> spec_param(c, i) == spec_assigned(params@, i))
                    && r->Ok_0@ == enc_command(c),
    {
        match build_command(action, params) {
            Ok(cmd) => {
                let frame = encode_command(&cmd);
                proof {
                    assert(cmd.action@ == action@ && (forall|i: int|
                        0 <= i < PARAM_COUNT ==> spec_param(cmd, i) == spec_assigned(params@, i))
                        && frame@ == enc_command(cmd));
                }
                Ok(frame)
            },
            Err(e) => Err(e),
        }
    }
}

} // verus!
