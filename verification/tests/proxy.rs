//! Opening a tunnel through a proxy.

use hclient_native::error::{Error, ErrorKind, IoFailure, Source};
use hclient_native::proxy::{Next, Step, Tunnel, READ_CHUNK};

/// A proxy protocol: what it opens with, and what it does with what it got.
trait Handshake {
    fn begin(&mut self, host: &str, port: u16) -> Vec<u8>;
    fn advance(&mut self, buf: &mut Vec<u8>) -> Result<Step, Error>;
}

struct HttpConnect;

impl Handshake for HttpConnect {
    fn begin(&mut self, host: &str, port: u16) -> Vec<u8> {
        format!("CONNECT {host}:{port} HTTP/1.1\r\nHost: {host}:{port}\r\n\r\n").into_bytes()
    }

    fn advance(&mut self, buf: &mut Vec<u8>) -> Result<Step, Error> {
        match buf.windows(4).position(|w| w == b"\r\n\r\n") {
            None => Ok(Step::NeedMore),
            Some(i) => {
                buf.drain(..i + 4);
                Ok(Step::Done)
            }
        }
    }
}

/// A protocol with two round trips.
struct Socks5 {
    host: String,
    greeted: bool,
}

impl Handshake for Socks5 {
    fn begin(&mut self, host: &str, _: u16) -> Vec<u8> {
        self.host = host.to_string();
        vec![0x05, 0x01, 0x00]
    }

    fn advance(&mut self, buf: &mut Vec<u8>) -> Result<Step, Error> {
        if !self.greeted {
            if buf.len() < 2 {
                return Ok(Step::NeedMore);
            }
            buf.drain(..2);
            self.greeted = true;
            let mut out = vec![0x05, 0x01, 0x00, 0x03, self.host.len() as u8];
            out.extend_from_slice(self.host.as_bytes());
            out.extend_from_slice(&[0x01, 0xbb]);
            return Ok(Step::Write(out));
        }
        if buf.len() < 10 {
            return Ok(Step::NeedMore);
        }
        buf.drain(..10);
        Ok(Step::Done)
    }
}

struct ScriptIo {
    reply: Vec<u8>,
    at: usize,
    written: Vec<u8>,
    chunk: usize,
    write_chunk: usize,
    flushes: usize,
}

impl ScriptIo {
    fn byte_at_a_time(reply: &[u8]) -> Self {
        ScriptIo {
            reply: reply.to_vec(),
            at: 0,
            written: Vec::new(),
            chunk: 1,
            write_chunk: 3,
            flushes: 0,
        }
    }

    fn one_flight(reply: &[u8]) -> Self {
        ScriptIo {
            chunk: usize::MAX,
            write_chunk: usize::MAX,
            ..ScriptIo::byte_at_a_time(reply)
        }
    }
}

fn drive<H: Handshake>(
    io: &mut ScriptIo,
    h: &mut H,
    host: &str,
    port: u16,
) -> Result<Vec<u8>, Error> {
    let (mut tunnel, mut next) = Tunnel::begin(h.begin(host, port));
    loop {
        next = match next {
            Next::Write => {
                let n = io.write_chunk.min(tunnel.to_write().len());
                io.written.extend_from_slice(&tunnel.to_write()[..n]);
                tunnel.wrote(n)
            }
            Next::Flush => {
                io.flushes += 1;
                tunnel.flushed()
            }
            Next::Advance => {
                let mut buf = tunnel.received().to_vec();
                let step = h.advance(&mut buf)?;
                tunnel.advanced(step, buf)
            }
            Next::Read => {
                let left = &io.reply[io.at..];
                let n = io.chunk.min(left.len()).min(READ_CHUNK);
                let got = left[..n].to_vec();
                io.at += n;
                tunnel.read(&got)
            }
            Next::Open => return Ok(tunnel.into_received()),
            Next::Fail(e) => return Err(e),
        };
    }
}

#[test]
fn a_handshake_arriving_one_byte_at_a_time_still_completes() {
    let mut io =
        ScriptIo::byte_at_a_time(&b"HTTP/1.1 200 Connection established\r\nVia: p\r\n\r\n"[..]);
    let mut h = HttpConnect;
    let leftover = drive(&mut io, &mut h, "example.com", 443).expect("open");
    assert!(leftover.is_empty());
    assert!(
        io.written
            .starts_with(b"CONNECT example.com:443 HTTP/1.1\r\n"),
        "{:?}",
        String::from_utf8_lossy(&io.written)
    );
}

#[test]
fn a_peer_that_stops_mid_handshake_is_a_connect_failure() {
    let mut io = ScriptIo::byte_at_a_time(&b"HTTP/1.1 200 OK\r\n"[..]);
    let mut h = HttpConnect;
    let err = drive(&mut io, &mut h, "example.com", 443).expect_err("truncated");
    assert_eq!(*err.kind(), ErrorKind::Connect);
    assert!(matches!(err.source(), Source::Io(IoFailure::UnexpectedEof)));
    assert_eq!(err.message(), "Connect: unexpected end of file");
}

#[test]
fn the_driver_is_the_same_loop_for_a_multi_round_trip_protocol() {
    let mut io = ScriptIo::byte_at_a_time(
        &[
            &[0x05, 0x00][..],
            &[0x05, 0x00, 0x00, 0x01, 0, 0, 0, 0, 0, 0][..],
        ]
        .concat(),
    );
    let mut h = Socks5 {
        host: String::new(),
        greeted: false,
    };
    let leftover = drive(&mut io, &mut h, "example.com", 443).expect("open");
    assert!(leftover.is_empty());
    assert_eq!(&io.written[..3], &[0x05, 0x01, 0x00]);
    assert!(io.written.windows(11).any(|w| w == b"example.com"));
    assert_eq!(io.flushes, 2, "one flush for each thing said");
}

#[test]
fn bytes_past_the_handshake_reach_the_caller_who_decides() {
    let mut io = ScriptIo::one_flight(b"HTTP/1.1 200 OK\r\n\r\nthe proxy spoke first");
    let mut h = HttpConnect;
    let leftover = drive(&mut io, &mut h, "example.com", 443).expect("open");
    assert_eq!(&leftover[..], b"the proxy spoke first");
}

#[test]
fn a_write_that_takes_nothing_is_a_failure() {
    let (mut tunnel, next) = Tunnel::begin(vec![1, 2]);
    assert!(matches!(next, Next::Write));
    match tunnel.wrote(0) {
        Next::Fail(e) => assert_eq!(e.message(), "Connect: write zero"),
        other => panic!("{other:?}"),
    }
    match tunnel.failed("reset".to_string()) {
        Next::Fail(e) => assert_eq!(e.message(), "Connect: reset"),
        other => panic!("{other:?}"),
    }
}

#[test]
fn nothing_to_say_is_flushed_all_the_same() {
    let (mut tunnel, next) = Tunnel::begin(Vec::new());
    assert!(matches!(next, Next::Flush));
    assert!(matches!(
        tunnel.advanced(Step::Write(Vec::new()), Vec::new()),
        Next::Flush
    ));
}
