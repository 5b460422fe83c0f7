use pinocchio_util::access::array_of;
use pinocchio_util::example::context::IWantToBeARealBoy;
use pinocchio_util::{
    load, read_discriminator, view_exclusive, view_readonly, AccessError, DataLen,
    LayoutDescriptor, Primitive, RawBuffer,
};

fn counting(n: u8) -> Vec<u8> {
    (0..n).collect()
}

#[test]
fn bytes_are_viewed_without_a_buffer_around_them() {
    let layout = LayoutDescriptor::new(&[2, 3]).unwrap();
    let bytes = counting(5);
    let view = view_readonly(&bytes, &layout).unwrap();
    assert_eq!(view.field(0), Some(&[0u8, 1][..]));
    assert_eq!(view.field(1), Some(&[2u8, 3, 4][..]));
    assert!(std::ptr::eq(view.as_bytes().as_ptr(), bytes.as_ptr()));
    assert!(matches!(view_readonly(&bytes[..4], &layout), Err(AccessError::SizeMismatch)));
}

#[test]
fn bytes_are_written_in_place() {
    let layout = LayoutDescriptor::new(&[2, 3]).unwrap();
    let mut bytes = counting(5);
    {
        let mut view = view_exclusive(&mut bytes, &layout).unwrap();
        assert_eq!(view.write_field(0, &[7, 8]), Ok(()));
    }
    assert_eq!(bytes, vec![7, 8, 2, 3, 4]);
    let mut short = counting(4);
    assert!(matches!(view_exclusive(&mut short, &layout), Err(AccessError::SizeMismatch)));
    assert_eq!(short, counting(4));
}

#[test]
fn a_discriminator_is_read_from_bytes() {
    let bytes = [1u8, 2, 3, 4, 5, 6, 7, 8, 9];
    assert_eq!(read_discriminator(&bytes, None), Ok(vec![1, 2, 3, 4, 5, 6, 7, 8]));
    assert_eq!(read_discriminator(&bytes, Some(4)), Ok(vec![1, 2, 3, 4]));
    assert_eq!(read_discriminator(&bytes, Some(9)), Ok(bytes.to_vec()));
    assert_eq!(read_discriminator(&bytes, Some(10)), Err(AccessError::SizeMismatch));
    assert_eq!(read_discriminator(&bytes[..7], None), Err(AccessError::SizeMismatch));
    assert_eq!(read_discriminator(&[], Some(usize::MAX)), Err(AccessError::SizeMismatch));
}

#[test]
fn an_array_is_made_of_as_many_bytes() {
    assert_eq!(array_of::<3>(&[1, 2, 3]), Some([1, 2, 3]));
    assert_eq!(array_of::<3>(&[1, 2]), None);
    assert_eq!(array_of::<3>(&[1, 2, 3, 4]), None);
    assert_eq!(array_of::<0>(&[]), Some([]));
}

#[test]
fn a_primitive_is_known_by_its_name() {
    let names = [
        ("u8", Primitive::U8),
        ("i8", Primitive::I8),
        ("bool", Primitive::Bool),
        ("u16", Primitive::U16),
        ("i16", Primitive::I16),
        ("u32", Primitive::U32),
        ("i32", Primitive::I32),
        ("u64", Primitive::U64),
        ("i64", Primitive::I64),
        ("u128", Primitive::U128),
        ("i128", Primitive::I128),
    ];
    for (name, primitive) in names {
        assert_eq!(Primitive::from_name(name), Some(primitive));
    }
    for name in ["", "U8", "usize", "isize", "f32", "u256", "u8 ", "char", "str"] {
        assert_eq!(Primitive::from_name(name), None);
    }
}

#[test]
fn the_example_record_is_read_out_of_a_view() {
    let layout = <IWantToBeARealBoy as DataLen>::layout();
    let buffer = RawBuffer::new([0u8; 32], false, false, counting(41));
    let view = load(&buffer, &layout).unwrap();
    let record = IWantToBeARealBoy::from_view(&view).unwrap();
    let mut data = [0u8; 32];
    for (i, byte) in data.iter_mut().enumerate() {
        *byte = 8 + i as u8;
    }
    assert_eq!(
        record,
        IWantToBeARealBoy { discriminator: [0, 1, 2, 3, 4, 5, 6, 7], data, bump: 40 }
    );
}

#[test]
fn the_example_record_is_not_read_out_of_another_layout() {
    let bytes = counting(41);
    for sizes in [&[8usize, 32][..], &[8, 32, 1, 0], &[8, 31, 2], &[7, 33, 1], &[41], &[]] {
        let layout = LayoutDescriptor::new(sizes).unwrap();
        let view = view_readonly(&bytes[..layout.size()], &layout).unwrap();
        assert_eq!(IWantToBeARealBoy::from_view(&view), None);
    }
}
