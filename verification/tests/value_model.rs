use rayforce::error::RayforceError;
use rayforce::runtime::Rayforce;
use rayforce::value::{RayObj, RayType};

#[test]
fn test_obj_structure() {
    let rayforce = Rayforce::new().unwrap();

    let obj1 = RayObj::from(123i64);
    let val: i64 = obj1.as_i64().unwrap();
    assert_eq!(val, 123);

    let vec = vec![1, 2, 3];
    let obj2 = RayObj::from_i64_slice(vec.as_slice());
    assert_eq!(obj2.vec_len().unwrap(), vec.len());
    let mut got: Vec<i64> = Vec::new();
    for i in 0..obj2.vec_len().unwrap() {
        got.push(obj2.get_i64_at(i).unwrap());
    }
    assert_eq!(got, vec);

    let obj3 = RayObj::from_text("Hello, world!");
    let val: &Vec<u8> = obj3.as_bytes().unwrap();
    assert_eq!(val.as_slice(), "Hello, world!".as_bytes());

    drop(rayforce);
}

#[test]
fn clone_then_drop_leaves_rendering_unchanged() {
    let original = RayObj::from_i64_slice(&[1, 2, 3]);
    let before = original.render();
    let duplicate = original.clone();
    assert_eq!(duplicate.render(), before);
    drop(duplicate);
    let after = original.render();
    assert_eq!(before, after);
    assert_eq!(after, b"1 2 3".to_vec());
}

#[test]
fn scalar_constructors_and_accessors() {
    assert_eq!(RayObj::from(true).as_bool().unwrap(), true);
    assert_eq!(RayObj::from(7u8).as_byte().unwrap(), 7u8);
    assert_eq!(RayObj::from(-4i16).as_i16().unwrap(), -4i16);
    assert_eq!(RayObj::from(100000i32).as_i32().unwrap(), 100000i32);
    assert_eq!(RayObj::from(-5i64).as_i64().unwrap(), -5i64);
    let text = RayObj::from_bytes(vec![104, 105]);
    assert_eq!(text.as_bytes().unwrap().as_slice(), b"hi");
}

#[test]
fn wrong_variant_access_is_a_checked_error() {
    let b = RayObj::from(true);
    assert_eq!(b.as_i64(), Err(RayforceError::WrongVariant));
    assert_eq!(b.as_byte(), Err(RayforceError::WrongVariant));
    let mut n = RayObj::from(5i64);
    assert_eq!(n.set_bool(false), Err(RayforceError::WrongVariant));
    assert_eq!(n.as_i64().unwrap(), 5);
    assert!(n.vec_len().is_err());
    assert_eq!(n.get_i64_at(0), Err(RayforceError::WrongVariant));
}

#[test]
fn out_of_bounds_access_is_a_checked_error() {
    let v = RayObj::from_i64_slice(&[1, 2]);
    assert_eq!(v.get_i64_at(2), Err(RayforceError::OutOfBounds));
    let mut w = RayObj::from_i64_slice(&[1, 2]);
    assert_eq!(w.set_i64_at(5, 9), Err(RayforceError::OutOfBounds));
    assert_eq!(w.get_i64_at(1).unwrap(), 2);
}

#[test]
fn fresh_vector_is_zero_filled_and_fully_writable() {
    let mut v = RayObj::vector(RayType::I64, 3).unwrap();
    assert_eq!(v.vec_len().unwrap(), 3);
    assert_eq!(v.get_i64_at(0).unwrap(), 0);
    for i in 0..3 {
        v.set_i64_at(i, (i as i64) + 1).unwrap();
    }
    assert_eq!(v.render(), b"1 2 3".to_vec());

    let mut bytes = RayObj::vector(RayType::Byte, 2).unwrap();
    bytes.set_byte_at(0, 104).unwrap();
    bytes.set_byte_at(1, 105).unwrap();
    assert_eq!(bytes.as_bytes().unwrap().as_slice(), b"hi");

    assert!(matches!(
        RayObj::vector(RayType::Null, 1),
        Err(RayforceError::WrongVariant)
    ));
}

#[test]
fn sixteen_and_thirty_two_bit_vectors() {
    let mut v16 = RayObj::vector(RayType::I16, 2).unwrap();
    v16.set_i16_at(0, -1).unwrap();
    v16.set_i16_at(1, 300).unwrap();
    assert_eq!(v16.get_i16_at(0).unwrap(), -1);
    assert_eq!(v16.render(), b"-1 300".to_vec());

    let mut v32 = RayObj::vector(RayType::I32, 2).unwrap();
    v32.set_i32_at(0, 70000).unwrap();
    assert_eq!(v32.get_i32_at(0).unwrap(), 70000);
    assert_eq!(v32.get_i32_at(1).unwrap(), 0);
}

#[test]
fn scalar_setters_overwrite_in_place() {
    let mut b = RayObj::from(false);
    b.set_bool(true).unwrap();
    assert_eq!(b.as_bool().unwrap(), true);
    let mut n = RayObj::from(1i64);
    n.set_i64(9).unwrap();
    assert_eq!(n.as_i64().unwrap(), 9);
    let mut h = RayObj::from(3u8);
    h.set_byte(200).unwrap();
    assert_eq!(h.as_byte().unwrap(), 200);
    let mut s16 = RayObj::from(5i16);
    s16.set_i16(-6).unwrap();
    assert_eq!(s16.as_i16().unwrap(), -6);
    let mut s32 = RayObj::from(5i32);
    s32.set_i32(-7).unwrap();
    assert_eq!(s32.as_i32().unwrap(), -7);
}

#[test]
fn type_discriminants_and_nil() {
    assert_eq!(RayObj::null().type_of(), RayType::Null);
    assert!(RayObj::null().is_nil());
    assert!(!RayObj::from(0i64).is_nil());
    assert_eq!(RayObj::from(true).type_of(), RayType::Bool);
    assert_eq!(RayObj::from(1u8).type_of(), RayType::Byte);
    assert_eq!(RayObj::from(1i16).type_of(), RayType::I16);
    assert_eq!(RayObj::from(1i32).type_of(), RayType::I32);
    assert_eq!(RayObj::from(1i64).type_of(), RayType::I64);
    assert_eq!(RayObj::from_text("x").type_of(), RayType::Bytes);
    assert_eq!(RayObj::from_i64_slice(&[1]).type_of(), RayType::VecI64);
}

#[test]
fn rendering_exact_values() {
    assert_eq!(RayObj::null().render(), b"null".to_vec());
    assert_eq!(RayObj::from(true).render(), b"true".to_vec());
    assert_eq!(RayObj::from(false).render(), b"false".to_vec());
    assert_eq!(RayObj::from(0i64).render(), b"0".to_vec());
    assert_eq!(RayObj::from(-5i64).render(), b"-5".to_vec());
    assert_eq!(RayObj::from(9223372036854775807i64).render(), b"9223372036854775807".to_vec());
    assert_eq!(RayObj::from(i64::MIN).render(), b"-9223372036854775808".to_vec());
    assert_eq!(RayObj::from(200u8).render(), b"200".to_vec());
    assert_eq!(RayObj::from(-12i16).render(), b"-12".to_vec());
    assert_eq!(RayObj::from(1000000i32).render(), b"1000000".to_vec());
    assert_eq!(RayObj::from_text("plain").render(), b"plain".to_vec());
    assert_eq!(RayObj::from_i64_slice(&[]).render(), b"".to_vec());
    assert_eq!(RayObj::from_i64_slice(&[42]).render(), b"42".to_vec());
    assert_eq!(RayObj::from_i64_slice(&[-1, 0, 1]).render(), b"-1 0 1".to_vec());
}

#[test]
fn raw_payload_access_matches_value() {
    let v = RayObj::from(77i64);
    match v.as_ptr() {
        rayforce::value::Payload::I64(n) => assert_eq!(*n, 77),
        _ => panic!("unexpected payload kind"),
    }
}

#[test]
fn error_messages() {
    assert_eq!(
        RayforceError::RuntimeCreationFailed.message(),
        "Failed to create runtime"
    );
    assert_eq!(RayforceError::WrongVariant.message(), "Value has a different type");
    assert_eq!(
        RayforceError::OutOfBounds.message(),
        "Element index past the end of the vector"
    );
}
