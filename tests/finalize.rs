use packet::{Buffer, Dynamic, Error, Finalization, Octets, OctetsMut, Patch, Slice};

#[test]
fn patches_apply_in_order() {
    let mut f = Finalization::default();
    f.add(Patch::HighNibble { offset: 1, value: 4 });
    f.add(Patch::HighNibble { offset: 1, value: 6 });
    assert_eq!(f.len(), 2);
    let mut out = vec![0x00u8, 0x0b, 0xff];
    f.finalize(&mut out).unwrap();
    assert_eq!(out, vec![0x00, 0x6b, 0xff]);
}

#[test]
fn patch_out_of_range_leaves_bytes() {
    let mut f = Finalization::new();
    f.add(Patch::HighNibble { offset: 0, value: 6 });
    f.add(Patch::HighNibble { offset: 3, value: 6 });
    let mut out = vec![0x01u8, 0x02, 0x03];
    assert_eq!(f.finalize(&mut out), Err(Error::InvalidOffset));
    assert_eq!(out, vec![0x01, 0x02, 0x03]);
}

#[test]
fn dynamic_buffer_grows_with_zeros() {
    let mut b = Dynamic::default();
    b.next(3).unwrap();
    assert_eq!(b.as_octets(), &[0u8, 0, 0]);
    b.next(2).unwrap();
    assert_eq!(b.as_octets().len(), 3);
    b.more(2).unwrap();
    assert_eq!(b.as_octets(), &[0u8; 5]);
    assert_eq!(b.offset(), 0);
    assert_eq!(b.into_inner(), vec![0u8; 5]);
}

#[test]
fn slice_buffer_grows_within_its_borrow() {
    let mut storage = [9u8; 6];
    let mut b = Slice::new(&mut storage[..], 2);
    assert_eq!(b.offset(), 2);
    assert_eq!(b.as_octets().len(), 0);
    b.next(2).unwrap();
    assert_eq!(b.as_octets(), &[0u8, 0]);
    b.more(1).unwrap();
    b.set_octet(2, 5);
    assert_eq!(b.as_octets(), &[0u8, 0, 5]);
    assert_eq!(b.more(2), Err(Error::OutOfCapacity));
    assert_eq!(b.next(5), Err(Error::SmallBuffer));
    b.as_octets_mut()[0] = 4;
    b.more(1).unwrap();
    assert_eq!(b.into_inner(), &[9u8, 9, 4, 0, 5, 0]);
}
