use combinators::{Cursor, InvalidSeek, Limiter, SeekFrom};
use tokio::io::ReadBuf;

fn window(bytes: &[u8], start: u64, len: usize) -> Limiter<Cursor> {
    let mut cursor = Cursor::new(bytes.to_vec());
    cursor.seek(SeekFrom::Start(start)).unwrap();
    Limiter::take(start, cursor, len)
}

fn read_to_end(limiter: &mut Limiter<Cursor>, step: usize) -> Vec<u8> {
    let mut all = Vec::new();
    let mut buf = vec![0; step];
    loop {
        let n = limiter.read(&mut buf);
        if n == 0 {
            return all;
        }
        all.extend_from_slice(&buf[..n]);
    }
}

#[test]
fn a_window_in_memory_gives_its_bytes() {
    for step in 1..5 {
        let mut limited = window(b"hello\n", 1, 3);
        assert_eq!(read_to_end(&mut limited, step), b"ell");
        assert_eq!(limited.seek(SeekFrom::End(-1)), Ok(3));
        assert_eq!(limited.remaining_len(), 1);
        assert_eq!(read_to_end(&mut limited, step), b"l");
        assert_eq!(limited.seek(SeekFrom::Current(-2)), Ok(2));
        assert_eq!(read_to_end(&mut limited, step), b"ll");
        assert_eq!(limited.seek(SeekFrom::Current(0)), Ok(4));
    }
}

#[test]
fn a_window_may_reach_past_the_bytes() {
    let mut limited = window(b"hello\n", 4, 100);
    assert_eq!(read_to_end(&mut limited, 3), b"o\n");
    assert_eq!(limited.remaining_len(), 98);
    assert_eq!(limited.seek(SeekFrom::End(0)), Ok(104));
    assert_eq!(read_to_end(&mut limited, 3), b"");
}

#[test]
fn a_write_in_memory_changes_the_window_alone() {
    let mut limited = window(b"hello\n", 1, 3);
    assert_eq!(limited.write(b"ABCDEFG"), 3);
    assert_eq!(limited.write(b"H"), 0);
    assert_eq!(limited.seek(SeekFrom::Start(0)), Ok(1));
    assert_eq!(read_to_end(&mut limited, 2), b"ABC");
    assert_eq!(limited.into_inner().into_inner(), b"hABCo\n");
}

#[test]
fn a_stream_out_of_step_may_refuse_a_seek() {
    let mut limited = Limiter::take(0, Cursor::new(b"hello\n".to_vec()), 3);
    limited.push_cursor(2);
    assert_eq!(limited.seek(SeekFrom::Start(0)), Err(InvalidSeek));
    assert_eq!(limited.internal_pos, 2);
}

#[test]
fn the_rest_of_the_buffer_is_left_alone() {
    let mut limited = window(b"hello\n", 1, 3);
    let mut buf = *b"......";
    assert_eq!(limited.read(&mut buf), 3);
    assert_eq!(&buf, b"ell...");
    assert_eq!(limited.read(&mut buf), 0);
    assert_eq!(&buf, b"ell...");
}

#[test]
fn a_polled_read_in_memory_gives_the_same_bytes() {
    let mut limited = window(b"hello\n", 1, 3);
    let mut memory = [std::mem::MaybeUninit::uninit(); 8];
    let mut buf = ReadBuf::uninit(&mut memory);
    buf.put_slice(b">");
    limited.poll_read(&mut buf);
    assert_eq!(buf.filled(), b">ell");
    assert_eq!(buf.initialized(), b">ell");
    assert_eq!(limited.remaining_len(), 0);
    limited.poll_read(&mut buf);
    assert_eq!(buf.filled(), b">ell");

    let mut limited = window(b"hello\n", 4, 5);
    let mut buf = ReadBuf::uninit(&mut memory);
    limited.poll_read(&mut buf);
    assert_eq!(buf.filled(), b"o\n");
    assert_eq!(buf.initialized(), b"o\n\0\0\0");
    assert_eq!(limited.remaining_len(), 3);
}

#[test]
fn a_seek_back_undoes_a_seek() {
    let mut limited = window(b"hello world", 2, 7);
    limited.seek(SeekFrom::Start(3)).unwrap();
    for distance in [-3, -1, 0, 2, 4] {
        assert_eq!(limited.seek(SeekFrom::Current(distance)), Ok((5 + distance) as u64));
        assert_eq!(limited.seek(SeekFrom::Current(-distance)), Ok(5));
    }
}

#[test]
fn a_seek_from_an_end_does_not_depend_on_the_position() {
    for pos in [0, 3, 7] {
        let mut limited = window(b"hello world", 2, 7);
        limited.seek(SeekFrom::Start(pos)).unwrap();
        assert_eq!(limited.seek(SeekFrom::End(-2)), Ok(7));
        limited.seek(SeekFrom::Start(pos)).unwrap();
        assert_eq!(limited.seek(SeekFrom::Start(4)), Ok(6));
    }
}

#[test]
fn a_window_reads_back_what_was_written() {
    let mut limited = window(b"hello world", 2, 7);
    limited.seek(SeekFrom::Start(5)).unwrap();
    assert_eq!(limited.write(b"ABC"), 2);
    limited.seek(SeekFrom::Current(-2)).unwrap();
    assert_eq!(read_to_end(&mut limited, 4), b"AB");
    assert_eq!(limited.into_inner().into_inner(), b"hello wABld");
}
