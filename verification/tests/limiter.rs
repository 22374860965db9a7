use combinators::{InvalidSeek, KnownExpanse, Limiter, Poll, SeekFrom};
use std::io::{Read, Seek, Write};
use std::pin::Pin;
use std::task::Context;
use tokio::io::{AsyncRead, AsyncReadExt, AsyncSeek, AsyncSeekExt, ReadBuf};

/// A window as a stream of std and of tokio.
struct Stream<S>(Limiter<S>);

fn to_std(op: SeekFrom) -> std::io::SeekFrom {
    match op {
        SeekFrom::Start(n) => std::io::SeekFrom::Start(n),
        SeekFrom::End(n) => std::io::SeekFrom::End(n),
        SeekFrom::Current(n) => std::io::SeekFrom::Current(n),
    }
}

fn from_std(op: std::io::SeekFrom) -> SeekFrom {
    match op {
        std::io::SeekFrom::Start(n) => SeekFrom::Start(n),
        std::io::SeekFrom::End(n) => SeekFrom::End(n),
        std::io::SeekFrom::Current(n) => SeekFrom::Current(n),
    }
}

fn from_poll<T>(polled: std::task::Poll<T>) -> Poll<T> {
    match polled {
        std::task::Poll::Ready(x) => Poll::Ready(x),
        std::task::Poll::Pending => Poll::Pending,
    }
}

fn to_poll<T>(polled: Poll<T>) -> std::task::Poll<T> {
    match polled {
        Poll::Ready(x) => std::task::Poll::Ready(x),
        Poll::Pending => std::task::Poll::Pending,
    }
}

impl<S: Read> Read for Stream<S> {
    fn read(&mut self, buf: &mut [u8]) -> std::io::Result<usize> {
        match self.0.begin_transfer(buf.len()) {
            None => Ok(0),
            Some(n) => {
                let outcome = self.0.source_stream.read(&mut buf[..n]);
                self.0.finish_transfer(outcome)
            }
        }
    }
}

impl<S: Write> Write for Stream<S> {
    fn write(&mut self, buf: &[u8]) -> std::io::Result<usize> {
        match self.0.begin_transfer(buf.len()) {
            None => Ok(0),
            Some(n) => {
                let outcome = self.0.source_stream.write(&buf[..n]);
                self.0.finish_transfer(outcome)
            }
        }
    }

    fn flush(&mut self) -> std::io::Result<()> {
        self.0.source_stream.flush()
    }
}

impl<S: Seek> Seek for Stream<S> {
    fn seek(&mut self, op: std::io::SeekFrom) -> std::io::Result<u64> {
        let relative = self.0.start_seek(from_std(op));
        let outcome = self.0.source_stream.seek(to_std(relative));
        self.0.finish_seek(outcome)
    }
}

impl<S: AsyncRead + Unpin> AsyncRead for Stream<S> {
    fn poll_read(
        self: Pin<&mut Self>,
        cx: &mut Context<'_>,
        buf: &mut ReadBuf<'_>,
    ) -> std::task::Poll<std::io::Result<()>> {
        let limiter = &mut self.get_mut().0;
        let Some(n) = limiter.begin_poll_read(buf) else {
            return std::task::Poll::Ready(Ok(()));
        };
        let mut unfilled = buf.take(n);
        let polled = Pin::new(&mut limiter.source_stream).poll_read(cx, &mut unfilled);
        let read = unfilled.filled().len();
        to_poll(limiter.finish_poll_read(buf, from_poll(polled.map(|x| x.map(|()| read)))))
    }
}

impl<S: AsyncSeek + Unpin> AsyncSeek for Stream<S> {
    fn start_seek(self: Pin<&mut Self>, op: std::io::SeekFrom) -> std::io::Result<()> {
        let limiter = &mut self.get_mut().0;
        let relative = limiter.start_seek(from_std(op));
        Pin::new(&mut limiter.source_stream).start_seek(to_std(relative))
    }

    fn poll_complete(
        self: Pin<&mut Self>,
        cx: &mut Context<'_>,
    ) -> std::task::Poll<std::io::Result<u64>> {
        let limiter = &mut self.get_mut().0;
        let polled = Pin::new(&mut limiter.source_stream).poll_complete(cx);
        to_poll(limiter.poll_complete(from_poll(polled)))
    }
}

#[test]
fn a_window_is_read_and_sought_in_both_ways() {
    let runtime = tokio::runtime::Builder::new_current_thread().build().unwrap();
    runtime.block_on(async {
        let mut buf = std::io::Cursor::new(Vec::new());
        buf.write_all(b"hello\n").unwrap();
        Seek::seek(&mut buf, std::io::SeekFrom::Start(1)).unwrap();

        let mut limited = Stream(Limiter::take(1, buf, 3));
        let mut s = String::new();
        Read::read_to_string(&mut limited, &mut s).unwrap();
        assert_eq!(s, "ell");

        AsyncSeekExt::seek(&mut limited, std::io::SeekFrom::End(-1)).await.unwrap();
        s.clear();
        AsyncReadExt::read_to_string(&mut limited, &mut s).await.unwrap();
        assert_eq!(s, "l");
    });
}

#[test]
fn a_write_ends_with_the_window() {
    let mut buf = std::io::Cursor::new(b"hello\n".to_vec());
    buf.set_position(1);
    let mut limited = Stream(Limiter::take(1, buf, 3));
    assert_eq!(limited.write(b"ABCDE").unwrap(), 3);
    assert_eq!(limited.write(b"F").unwrap(), 0);
    limited.flush().unwrap();
    assert_eq!(Seek::seek(&mut limited, std::io::SeekFrom::Start(1)).unwrap(), 2);
    assert_eq!(limited.write(b"x").unwrap(), 1);
    assert_eq!(limited.0.into_inner().into_inner(), b"hAxCo\n");
}

#[test]
fn a_new_window_stands_at_its_start() {
    let limiter = Limiter::take(7, "stream", 12);
    assert_eq!(limiter.max_len, 12);
    assert_eq!(limiter.internal_pos, 0);
    assert_eq!(limiter.start_pos, 7);
    assert_eq!(limiter.full_length(), 12);
    assert_eq!(limiter.remaining_len(), 12);
    assert_eq!(limiter.clone().into_inner(), "stream");
}

#[test]
fn a_transfer_is_limited_by_what_is_left() {
    let mut limiter = Limiter::take(0, (), 10);
    assert_eq!(limiter.limit_length(4), 4);
    limiter.push_cursor(7);
    assert_eq!(limiter.remaining_len(), 3);
    assert_eq!(limiter.limit_length(4), 3);
    assert_eq!(limiter.begin_transfer(4), Some(3));
    assert_eq!(limiter.begin_transfer(0), None);
    limiter.push_cursor(3);
    assert_eq!(limiter.begin_transfer(4), None);
}

fn at(max_len: usize, internal_pos: usize) -> Limiter<()> {
    Limiter { max_len, internal_pos, start_pos: 100, source_stream: () }
}

#[test]
fn a_seek_is_taken_into_the_window() {
    let limiter = at(10, 4);
    assert_eq!(limiter.convert_seek_request_to_relative(SeekFrom::Start(0)), -4);
    assert_eq!(limiter.convert_seek_request_to_relative(SeekFrom::Start(9)), 5);
    assert_eq!(limiter.convert_seek_request_to_relative(SeekFrom::Start(10)), 6);
    assert_eq!(limiter.convert_seek_request_to_relative(SeekFrom::Start(11)), 6);
    assert_eq!(limiter.convert_seek_request_to_relative(SeekFrom::Start(u64::MAX)), 6);
    assert_eq!(limiter.convert_seek_request_to_relative(SeekFrom::End(0)), 6);
    assert_eq!(limiter.convert_seek_request_to_relative(SeekFrom::End(3)), 6);
    assert_eq!(limiter.convert_seek_request_to_relative(SeekFrom::End(-10)), -4);
    assert_eq!(limiter.convert_seek_request_to_relative(SeekFrom::End(-11)), -4);
    assert_eq!(limiter.convert_seek_request_to_relative(SeekFrom::End(i64::MIN)), -4);
    assert_eq!(limiter.convert_seek_request_to_relative(SeekFrom::Current(0)), 0);
    assert_eq!(limiter.convert_seek_request_to_relative(SeekFrom::Current(2)), 2);
    assert_eq!(limiter.convert_seek_request_to_relative(SeekFrom::Current(7)), 6);
    assert_eq!(limiter.convert_seek_request_to_relative(SeekFrom::Current(-5)), -4);
    assert_eq!(limiter.start_seek(SeekFrom::End(-1)), SeekFrom::Current(5));
}

#[test]
fn a_seek_beyond_the_numbers_is_seen() {
    let limiter = at(10, 4);
    assert_eq!(limiter.checked_seek(SeekFrom::End(-1)), Some(5));
    assert_eq!(limiter.checked_seek(SeekFrom::End(i64::MAX - 10)), Some(6));
    assert_eq!(limiter.checked_seek(SeekFrom::End(i64::MAX - 9)), None);
    assert_eq!(limiter.checked_seek(SeekFrom::Current(i64::MAX - 4)), Some(6));
    assert_eq!(limiter.checked_seek(SeekFrom::Current(i64::MAX)), None);
    assert_eq!(limiter.checked_seek(SeekFrom::Start(u64::MAX)), Some(6));
}

#[test]
fn a_window_longer_than_a_signed_number_counts_its_end_as_negative() {
    let Ok(max_len) = usize::try_from(i64::MAX as u64 + 11) else {
        return;
    };
    let limiter = at(max_len, 4);
    assert_eq!(limiter.checked_seek(SeekFrom::End(0)), Some(-4));
    assert_eq!(limiter.checked_seek(SeekFrom::End(-1)), Some(-4));
    assert_eq!(limiter.checked_seek(SeekFrom::Start(9)), Some(5));
    assert_eq!(limiter.checked_seek(SeekFrom::Start(u64::MAX)), Some(i64::MIN + 6));
    assert_eq!(limiter.checked_seek(SeekFrom::End(i64::MIN)), None);
}

#[test]
fn a_stream_lands_where_the_seek_goes() {
    for op in [
        SeekFrom::Start(3),
        SeekFrom::Start(30),
        SeekFrom::End(-4),
        SeekFrom::End(2),
        SeekFrom::Current(-1),
        SeekFrom::Current(-100),
        SeekFrom::Current(5),
    ] {
        let mut limiter = at(10, 4);
        let landed = (104 + limiter.convert_seek_request_to_relative(op)) as u64;
        assert!(limiter.accepts_position(landed));
        assert_eq!(limiter.finish_seek::<()>(Ok(landed)), Ok(landed));
        assert_eq!(limiter.internal_pos as u64 + 100, landed);
        assert!(limiter.internal_pos <= 10);
    }
}

#[test]
fn only_positions_of_the_window_are_accepted() {
    let limiter = at(10, 4);
    assert!(!limiter.accepts_position(99));
    assert!(limiter.accepts_position(100));
    assert!(limiter.accepts_position(110));
    assert!(!limiter.accepts_position(111));
    let past_all = Limiter { start_pos: u64::MAX, ..at(1, 0) };
    assert!(!past_all.accepts_position(u64::MAX));
    let mut limiter = at(10, 4);
    limiter.interpret_new_pos(107);
    assert_eq!(limiter.internal_pos, 7);
}

#[test]
fn what_the_stream_answers_is_passed_on() {
    let mut limiter = at(10, 4);
    assert_eq!(limiter.finish_transfer(Err("broken")), Err("broken"));
    assert_eq!(limiter.internal_pos, 4);
    assert_eq!(limiter.finish_transfer::<()>(Ok(0)), Ok(0));
    assert_eq!(limiter.internal_pos, 4);
    assert_eq!(limiter.finish_transfer::<()>(Ok(6)), Ok(6));
    assert_eq!(limiter.internal_pos, 10);
    assert_eq!(limiter.finish_seek(Err("broken")), Err("broken"));
    assert_eq!(limiter.internal_pos, 10);
    assert_eq!(limiter.poll_complete::<()>(Poll::Pending), Poll::Pending);
    assert_eq!(limiter.internal_pos, 10);
    assert_eq!(limiter.poll_complete(Poll::Ready(Err("broken"))), Poll::Ready(Err("broken")));
    assert_eq!(limiter.internal_pos, 10);
    assert_eq!(limiter.poll_complete::<()>(Poll::Ready(Ok(101))), Poll::Ready(Ok(101)));
    assert_eq!(limiter.internal_pos, 1);
    assert_eq!(limiter.finish_poll_write::<()>(Poll::Pending), Poll::Pending);
    assert_eq!(limiter.finish_poll_write(Poll::Ready(Err("broken"))), Poll::Ready(Err("broken")));
    assert_eq!(limiter.internal_pos, 1);
    assert_eq!(limiter.finish_poll_write::<()>(Poll::Ready(Ok(2))), Poll::Ready(Ok(2)));
    assert_eq!(limiter.internal_pos, 3);
}

#[test]
fn a_polled_read_prepares_and_fills_the_buffer() {
    let mut memory = [std::mem::MaybeUninit::uninit(); 8];
    let mut buf = ReadBuf::uninit(&mut memory);
    buf.put_slice(b"ab");
    let mut limiter = at(10, 6);

    assert_eq!(limiter.begin_poll_read(&mut buf), Some(4));
    assert_eq!(buf.filled(), b"ab");
    assert_eq!(buf.initialized(), b"ab\0\0\0\0");

    assert_eq!(limiter.finish_poll_read::<()>(&mut buf, Poll::Pending), Poll::Pending);
    let failed = limiter.finish_poll_read(&mut buf, Poll::Ready(Err("broken")));
    assert_eq!(failed, Poll::Ready(Err("broken")));
    let nothing = limiter.finish_poll_read::<()>(&mut buf, Poll::Ready(Ok(0)));
    assert_eq!(nothing, Poll::Ready(Ok(())));
    assert_eq!(buf.filled(), b"ab");
    assert_eq!(limiter.internal_pos, 6);

    buf.take(4).put_slice(b"cde");
    let read = limiter.finish_poll_read::<()>(&mut buf, Poll::Ready(Ok(3)));
    assert_eq!(read, Poll::Ready(Ok(())));
    assert_eq!(buf.filled(), b"abcde");
    assert_eq!(limiter.internal_pos, 9);

    assert_eq!(limiter.begin_poll_read(&mut buf), Some(1));
    limiter.push_cursor(1);
    assert_eq!(limiter.begin_poll_read(&mut buf), None);
}

#[test]
fn a_polled_read_asks_for_no_more_than_the_buffer_takes() {
    let mut memory = [1u8, 2, 3];
    let mut buf = ReadBuf::new(&mut memory);
    let limiter = at(10, 0);
    assert_eq!(limiter.begin_poll_read(&mut buf), Some(3));
    assert_eq!(buf.initialized(), [1, 2, 3]);
    buf.set_filled(3);
    assert_eq!(limiter.begin_poll_read(&mut buf), None);
}

#[test]
fn transfers_together_stay_within_the_window() {
    let mut limiter = at(10, 0);
    let mut total = 0;
    for requested in [3, 0, 5, 4, 9, 1] {
        if let Some(n) = limiter.begin_transfer(requested) {
            total += limiter.finish_transfer::<InvalidSeek>(Ok(n)).unwrap();
        }
    }
    assert_eq!(total, 10);
    assert_eq!(limiter.remaining_len(), 0);
}
