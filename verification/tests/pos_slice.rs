//! Cursor behaviour: big-endian reads and peeks, exact positions, and the
//! bounds errors on every way of running past the end of the buffer.

use classfile::error::Error;
use classfile::pos_slice::PoSlice;

#[test]
fn pos_slice_works() {
    let bytes = [4, 6, 2, 7, 1, 2, 9, 6, 8, 0];
    let mut poslice = PoSlice::new(&bytes);
    assert_eq!(poslice.read_u1().unwrap(), 4);
    assert_eq!(poslice.peek_u2().unwrap(), 1538);
    assert_eq!(poslice.read_u2().unwrap(), 1538);
    assert_eq!(poslice.peek_u2().unwrap(), 1793);
    assert_eq!(poslice.read_u4().unwrap(), 117_506_569);
    assert_eq!(poslice.read_slice(2).unwrap(), &[6, 8]);
    assert_eq!(poslice.read_u1().unwrap(), 0);
}

#[test]
fn pos_slice_final_position() {
    let bytes = [4, 6, 2, 7, 1, 2, 9, 6, 8, 0];
    let mut poslice = PoSlice::new(&bytes);
    assert_eq!(poslice.pos(), 0);
    assert_eq!(poslice.read_u1().unwrap(), 4);
    assert_eq!(poslice.pos(), 1);
    assert_eq!(poslice.peek_u2().unwrap(), 1538);
    assert_eq!(poslice.pos(), 1);
    assert_eq!(poslice.read_u2().unwrap(), 1538);
    assert_eq!(poslice.pos(), 3);
    assert_eq!(poslice.read_u4().unwrap(), 117_506_569);
    assert_eq!(poslice.pos(), 7);
    assert_eq!(poslice.read_slice(2).unwrap(), &[6, 8]);
    assert_eq!(poslice.pos(), 9);
    assert_eq!(poslice.read_u1().unwrap(), 0);
    assert_eq!(poslice.pos(), 10);
}

#[test]
fn reads_past_end_fail_without_advancing() {
    let bytes = [1, 2, 3];
    let mut s = PoSlice::new(&bytes);
    assert_eq!(s.read_u2().unwrap(), 0x0102);
    // only one byte remains: every wider request fails and the position
    // stays where it was
    assert_eq!(s.read_u2(), Err(Error::OutOfBounds(3)));
    assert_eq!(s.pos(), 2);
    assert_eq!(s.read_u4(), Err(Error::OutOfBounds(5)));
    assert_eq!(s.pos(), 2);
    assert_eq!(s.peek_u2(), Err(Error::OutOfBounds(3)));
    assert_eq!(s.peek_u4(), Err(Error::OutOfBounds(5)));
    assert_eq!(s.read_slice(2), Err(Error::OutOfBounds(3)));
    assert_eq!(s.read_slice_vec(2), Err(Error::OutOfBounds(3)));
    assert_eq!(s.skip(2), Err(Error::OutOfBounds(4)));
    assert_eq!(s.pos(), 2);
    // the last byte is still readable
    assert_eq!(s.read_u1().unwrap(), 3);
    assert_eq!(s.read_u1(), Err(Error::OutOfBounds(3)));
    assert_eq!(s.peek_u1(), Err(Error::OutOfBounds(3)));
    assert_eq!(s.pos(), 3);
}

#[test]
fn empty_buffer_reads_fail() {
    let bytes: [u8; 0] = [];
    let mut s = PoSlice::new(&bytes);
    assert_eq!(s.read_u1(), Err(Error::OutOfBounds(0)));
    assert_eq!(s.peek_u1(), Err(Error::OutOfBounds(0)));
    assert_eq!(s.read_u2(), Err(Error::OutOfBounds(1)));
    assert_eq!(s.read_u4(), Err(Error::OutOfBounds(3)));
    assert_eq!(s.read_slice(1), Err(Error::OutOfBounds(0)));
    // a zero-length read always fits
    assert_eq!(s.read_slice(0).unwrap(), &[]);
    assert_eq!(s.pos(), 0);
}

#[test]
fn skip_advances_and_is_bounded() {
    let bytes = [9, 8, 7, 6];
    let mut s = PoSlice::new(&bytes);
    assert_eq!(s.skip(3).unwrap(), 3);
    assert_eq!(s.pos(), 3);
    assert_eq!(s.skip(1).unwrap(), 1);
    assert_eq!(s.pos(), 4);
    assert_eq!(s.skip(1), Err(Error::OutOfBounds(5)));
    assert_eq!(s.pos(), 4);
}

#[test]
fn read_slice_vec_copies_the_span() {
    let bytes = [10, 20, 30, 40];
    let mut s = PoSlice::new(&bytes);
    assert_eq!(s.skip(1).unwrap(), 1);
    let v = s.read_slice_vec(2).unwrap();
    assert_eq!(v, vec![20, 30]);
    assert_eq!(s.pos(), 3);
}

#[test]
fn peek_slice_views_the_remainder() {
    let bytes = [1, 2, 3, 4, 5];
    let mut s = PoSlice::new(&bytes);
    assert_eq!(s.skip(1).unwrap(), 1);
    assert_eq!(s.peek_slice(2).unwrap(), &[4, 5]);
    assert_eq!(s.pos(), 1);
    assert_eq!(s.peek_slice(4), Err(Error::OutOfBounds(5)));
}
