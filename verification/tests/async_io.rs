use combinators::{AsyncIoAdapter, FetchStep, Poll, ReadFailure};
use std::future::Future;
use std::io::{Read, Seek, Write};
use std::pin::Pin;
use std::sync::Arc;
use std::task::{Context, Waker};
use tokio::io::{AsyncRead, AsyncReadExt, ReadBuf};
use tokio::sync::oneshot;

/// An adapter as a stream of tokio, whose worker runs on a thread for blocking work.
struct Stream<S> {
    shared: Arc<parking_lot::Mutex<(AsyncIoAdapter<S>, Option<Waker>)>>,
    tx: Arc<parking_lot::Mutex<Option<oneshot::Sender<std::io::Result<()>>>>>,
    rx: oneshot::Receiver<std::io::Result<()>>,
}

impl<S> Stream<S> {
    fn new(inner: S) -> Self {
        let (tx, rx) = oneshot::channel();
        Stream {
            shared: Arc::new(parking_lot::Mutex::new((AsyncIoAdapter::new(inner), None))),
            tx: Arc::new(parking_lot::Mutex::new(Some(tx))),
            rx,
        }
    }
}

impl<S: Read + Unpin + Send + 'static> AsyncRead for Stream<S> {
    fn poll_read(
        self: Pin<&mut Self>,
        cx: &mut Context<'_>,
        buf: &mut ReadBuf<'_>,
    ) -> std::task::Poll<std::io::Result<()>> {
        let s = self.get_mut();
        let mut shared = s.shared.lock();
        if shared.0.poll_ready(buf) {
            return std::task::Poll::Ready(Ok(()));
        }
        let completion = match Pin::new(&mut s.rx).poll(cx) {
            std::task::Poll::Ready(message) => Poll::Ready(message.unwrap()),
            std::task::Poll::Pending => Poll::Pending,
        };
        let step = shared.0.poll_fetch(buf.remaining(), completion);
        shared.1 = Some(cx.waker().clone());
        match step {
            FetchStep::Ready(outcome) => std::task::Poll::Ready(outcome),
            FetchStep::Pending => std::task::Poll::Pending,
            FetchStep::Fetch(mut source, len) => {
                let shared = s.shared.clone();
                let tx = s.tx.clone();
                tokio::task::spawn_blocking(move || {
                    let mut lease = vec![0; len];
                    let outcome = source.read(&mut lease).map_err(|e| {
                        if e.kind() == std::io::ErrorKind::Interrupted {
                            ReadFailure::Interrupted
                        } else {
                            ReadFailure::Failed(e)
                        }
                    });
                    let mut shared = shared.lock();
                    if let Some(message) = shared.0.do_write(source, lease, outcome) {
                        tx.lock().take().unwrap().send(message).unwrap();
                    }
                    if let Some(waker) = shared.1.take() {
                        waker.wake();
                    }
                });
                std::task::Poll::Pending
            }
        }
    }
}

/// A stream whose every other read is interrupted, and which fails when `good` is read.
struct Flaky {
    good: std::io::Cursor<Vec<u8>>,
    interrupted: bool,
    fails: bool,
}

impl Read for Flaky {
    fn read(&mut self, buf: &mut [u8]) -> std::io::Result<usize> {
        self.interrupted = !self.interrupted;
        if self.interrupted {
            return Err(std::io::ErrorKind::Interrupted.into());
        }
        let n = Read::read(&mut self.good, buf)?;
        if n == 0 && self.fails {
            return Err(std::io::ErrorKind::PermissionDenied.into());
        }
        Ok(n)
    }
}

#[test]
fn a_blocking_stream_is_read_asynchronously() {
    let runtime = tokio::runtime::Builder::new_current_thread().build().unwrap();
    runtime.block_on(async {
        let mut buf = std::io::Cursor::new(Vec::new());
        buf.write_all(b"hello\n").unwrap();
        buf.rewind().unwrap();
        let mut f = Stream::new(buf);
        let mut buf: Vec<u8> = Vec::new();
        f.read_to_end(&mut buf).await.unwrap();
        assert_eq!(&buf, b"hello\n");
    });
}

#[test]
fn an_interrupted_stream_is_read_asynchronously() {
    let runtime = tokio::runtime::Builder::new_current_thread().build().unwrap();
    runtime.block_on(async {
        let bytes: Vec<u8> = (0..1000).map(|i| (i % 251) as u8).collect();
        let good = std::io::Cursor::new(bytes.clone());
        let mut f = Stream::new(Flaky { good, interrupted: false, fails: false });
        let mut buf: Vec<u8> = Vec::new();
        f.read_to_end(&mut buf).await.unwrap();
        assert_eq!(buf, bytes);
    });
}

#[test]
fn a_failed_stream_tells_its_error() {
    let runtime = tokio::runtime::Builder::new_current_thread().build().unwrap();
    runtime.block_on(async {
        let good = std::io::Cursor::new(b"ok".to_vec());
        let mut f = Stream::new(Flaky { good, interrupted: false, fails: true });
        let mut buf: Vec<u8> = Vec::new();
        let e = f.read_to_end(&mut buf).await.unwrap_err();
        assert_eq!(e.kind(), std::io::ErrorKind::PermissionDenied);
        assert_eq!(&buf[..2], b"ok");
    });
}

/// Polls until the stream has ended, with a buffer of `room` bytes for each poll.
fn read_to_end(adapter: &mut AsyncIoAdapter<&[u8]>, room: usize) -> Vec<u8> {
    let mut all = Vec::new();
    let mut channel = None;
    loop {
        let mut memory = vec![0; room];
        let mut buf = ReadBuf::new(&mut memory);
        if adapter.poll_ready(&mut buf) {
            assert!(!buf.filled().is_empty());
            all.extend_from_slice(buf.filled());
            continue;
        }
        let completion = match channel.take() {
            Some(message) => Poll::Ready(message),
            None => Poll::Pending,
        };
        match adapter.poll_fetch(buf.remaining(), completion) {
            FetchStep::Ready(outcome) => {
                assert_eq!(outcome, Ok::<(), &str>(()));
                return all;
            }
            FetchStep::Pending => panic!("no worker is running"),
            FetchStep::Fetch(mut source, len) => {
                assert!(!adapter.is_idle());
                let mut lease = vec![0; len];
                let n = Read::read(&mut source, &mut lease).unwrap();
                let message = adapter.do_write(source, lease, Ok(n));
                if message.is_some() {
                    assert!(channel.is_none());
                    channel = message;
                }
            }
        }
    }
}

#[test]
fn a_blocking_stream_is_read_to_its_end() {
    for room in [1, 2, 5, 6, 7, 100] {
        let mut adapter = AsyncIoAdapter::new(&b"hello\n"[..]);
        assert_eq!(read_to_end(&mut adapter, room), b"hello\n");
        assert!(adapter.is_idle());
        assert_eq!(adapter.into_inner(), b"");
    }
}

fn fetch(adapter: &mut AsyncIoAdapter<&'static str>, wanted: usize) -> (&'static str, usize) {
    match adapter.poll_fetch::<()>(wanted, Poll::Pending) {
        FetchStep::Fetch(source, len) => (source, len),
        other => panic!("{:?}", other),
    }
}

fn taken(adapter: &mut AsyncIoAdapter<&'static str>, room: usize) -> Option<Vec<u8>> {
    let mut memory = vec![0; room];
    let mut buf = ReadBuf::new(&mut memory);
    if adapter.poll_ready(&mut buf) {
        Some(buf.filled().to_vec())
    } else {
        assert!(buf.filled().is_empty());
        None
    }
}

#[test]
fn the_stream_is_lent_to_one_worker() {
    let mut adapter = AsyncIoAdapter::new("stream");
    assert!(adapter.is_idle());
    assert_eq!(taken(&mut adapter, 4), None);
    assert_eq!(fetch(&mut adapter, 4), ("stream", 4));
    assert!(!adapter.is_idle());
    assert!(matches!(adapter.poll_fetch::<()>(4, Poll::Pending), FetchStep::Pending));
    assert_eq!(adapter.do_write::<()>("stream later", b"ab..".to_vec(), Ok(2)), None);
    assert!(adapter.is_idle());
    assert_eq!(adapter.into_inner(), "stream later");
}

#[test]
fn bytes_are_taken_in_order_as_they_fit() {
    let mut adapter = AsyncIoAdapter::new("stream");
    fetch(&mut adapter, 6);
    assert_eq!(adapter.do_write::<()>("stream", b"abcde.".to_vec(), Ok(5)), None);
    assert_eq!(taken(&mut adapter, 2), Some(b"ab".to_vec()));
    assert_eq!(taken(&mut adapter, 2), Some(b"cd".to_vec()));
    assert_eq!(taken(&mut adapter, 2), Some(b"e".to_vec()));
    assert_eq!(taken(&mut adapter, 2), None);
}

#[test]
fn bytes_are_put_behind_what_the_buffer_holds() {
    let mut adapter = AsyncIoAdapter::new("stream");
    fetch(&mut adapter, 3);
    assert_eq!(adapter.do_write::<()>("stream", b"abc".to_vec(), Ok(3)), None);
    let mut memory = *b"......";
    let mut buf = ReadBuf::new(&mut memory);
    buf.put_slice(b"x");
    assert!(adapter.poll_ready(&mut buf));
    assert_eq!(buf.filled(), b"xabc");
    assert_eq!(buf.initialized(), b"xabc..");
}

#[test]
fn an_interrupted_read_leaves_nothing() {
    let mut adapter = AsyncIoAdapter::new("stream");
    fetch(&mut adapter, 4);
    let message = adapter.do_write::<()>("stream", b"....".to_vec(), Err(ReadFailure::Interrupted));
    assert_eq!(message, None);
    assert_eq!(taken(&mut adapter, 4), None);
    assert_eq!(fetch(&mut adapter, 3), ("stream", 3));
}

#[test]
fn a_failed_read_leaves_its_lease_ahead_of_the_error() {
    let mut adapter = AsyncIoAdapter::new("stream");
    fetch(&mut adapter, 3);
    let message =
        adapter.do_write("stream", b"abc".to_vec(), Err(ReadFailure::Failed("broken")));
    assert_eq!(message, Some(Err("broken")));
    assert_eq!(taken(&mut adapter, 9), Some(b"abc".to_vec()));
    assert!(matches!(
        adapter.poll_fetch(9, Poll::Ready(Err("broken"))),
        FetchStep::Ready(Err("broken"))
    ));
    assert!(adapter.is_idle());
}

#[test]
fn the_end_is_told_once() {
    let mut adapter = AsyncIoAdapter::new("stream");
    fetch(&mut adapter, 3);
    assert_eq!(adapter.do_write::<()>("stream", b"...".to_vec(), Ok(0)), Some(Ok(())));
    fetch(&mut adapter, 3);
    assert_eq!(adapter.do_write::<()>("stream", b"...".to_vec(), Ok(0)), None);
    fetch(&mut adapter, 3);
    let message = adapter.do_write("stream", b"...".to_vec(), Err(ReadFailure::Failed("broken")));
    assert_eq!(message, None);
}
