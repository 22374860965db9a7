use combinators::{Cursor, SeekFrom};
use std::io::{Read, Seek, Write};
use std::pin::Pin;
use std::task::{Context, Poll, Waker};
use tokio::io::{AsyncRead, ReadBuf};

const BYTES: &[u8] = b"0123456789";

fn both(pos: u64) -> (Cursor, std::io::Cursor<Box<[u8]>>) {
    let mut ours = Cursor::new(BYTES.to_vec());
    assert_eq!(ours.seek(SeekFrom::Start(pos)), Ok(pos));
    let mut theirs = std::io::Cursor::new(BYTES.to_vec().into_boxed_slice());
    theirs.set_position(pos);
    (ours, theirs)
}

fn assert_same(ours: &Cursor, theirs: &std::io::Cursor<Box<[u8]>>) {
    assert_eq!(ours.position(), theirs.position());
    assert_eq!(ours.get_ref()[..], theirs.get_ref()[..]);
}

#[test]
fn reads_agree_with_std() {
    for pos in [0, 1, 9, 10, 11, u64::MAX] {
        for len in [0, 1, 5, 10, 12] {
            let (mut ours, mut theirs) = both(pos);
            let mut a = vec![b'.'; len];
            let mut b = vec![b'.'; len];
            assert_eq!(ours.read(&mut a), theirs.read(&mut b).unwrap());
            assert_eq!(a, b);
            assert_same(&ours, &theirs);
        }
    }
}

#[test]
fn writes_agree_with_std() {
    for pos in [0, 1, 9, 10, 11, u64::MAX] {
        for len in [0, 1, 5, 10, 12] {
            let (mut ours, mut theirs) = both(pos);
            let data = &b"ABCDEFGHIJKL"[..len];
            assert_eq!(ours.write(data), theirs.write(data).unwrap());
            assert_same(&ours, &theirs);
        }
    }
}

#[test]
fn seeks_agree_with_std() {
    for pos in [0, 1, 9, 10, 11, u64::MAX] {
        for n in [0, 1, -1, 9, -9, 10, -10, 11, -11, i64::MAX, i64::MIN] {
            let (mut ours, mut theirs) = both(pos);
            assert_eq!(
                ours.seek(SeekFrom::End(n)).ok(),
                theirs.seek(std::io::SeekFrom::End(n)).ok()
            );
            assert_same(&ours, &theirs);
            assert_eq!(
                ours.seek(SeekFrom::Current(n)).ok(),
                theirs.seek(std::io::SeekFrom::Current(n)).ok()
            );
            assert_same(&ours, &theirs);
        }
    }
}

#[test]
fn reads_into_a_read_buf_agree_with_tokio() {
    let mut cx = Context::from_waker(Waker::noop());
    for pos in [0, 1, 9, 10, 11, u64::MAX] {
        for len in [2, 3, 5, 12, 20] {
            let (mut ours, mut theirs) = both(pos);
            let mut a = vec![b'.'; len];
            let mut b = vec![b'.'; len];
            let mut buf_a = ReadBuf::new(&mut a);
            let mut buf_b = ReadBuf::new(&mut b);
            buf_a.put_slice(b"xy");
            buf_b.put_slice(b"xy");
            let n = ours.read_into(&mut buf_a);
            assert!(matches!(
                Pin::new(&mut theirs).poll_read(&mut cx, &mut buf_b),
                Poll::Ready(Ok(()))
            ));
            assert_eq!(n + 2, buf_b.filled().len());
            assert_eq!(buf_a.filled(), buf_b.filled());
            assert_eq!(buf_a.initialized(), buf_b.initialized());
            assert_same(&ours, &theirs);
        }
    }
}

#[test]
fn a_read_gives_back_what_was_written() {
    let mut cursor = Cursor::new(BYTES.to_vec());
    cursor.seek(SeekFrom::Start(7)).unwrap();
    assert_eq!(cursor.write(b"ABCDE"), 3);
    cursor.seek(SeekFrom::Current(-3)).unwrap();
    let mut buf = [0; 3];
    assert_eq!(cursor.read(&mut buf), 3);
    assert_eq!(&buf, b"ABC");
    assert_eq!(cursor.into_inner(), b"0123456ABC");
}
