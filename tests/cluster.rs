use matter::access::{AccessReq, Privilege};
use matter::attribute::{
    AttrValue, Attribute, ACCESS_RV, ACCESS_RWVO, ACCESS_WRITE, QUALITY_FIXED, QUALITY_PERSISTENT,
};
use matter::cluster::{Cluster, ATTR_CLUSTER_REVISION, ATTR_FEATURE_MAP};
use matter::error::{Error, IMStatusCode};
use matter::tlv::TlvElement;

const OPERATE: AccessReq = AccessReq { privilege: Privilege::Operate };

fn rw(id: u16, v: AttrValue) -> Attribute {
    Attribute::new(id, v, ACCESS_RWVO, QUALITY_PERSISTENT).unwrap()
}

#[test]
fn new_cluster_has_system_attributes() {
    let c = Cluster::new(0x1234);
    assert_eq!(c.read_attribute_raw(ATTR_FEATURE_MAP), Ok(&AttrValue::Uint32(0)));
    assert_eq!(c.read_attribute_raw(ATTR_CLUSTER_REVISION), Ok(&AttrValue::Uint16(1)));
    assert_eq!(c.read_attribute_raw(0), Err(Error::AttributeNotFound));
    assert!(Attribute::is_system(0xF000));
    assert!(Attribute::is_system(0xFFFE));
    assert!(!Attribute::is_system(0xFFFF));
    assert!(!Attribute::is_system(0xEFFF));
}

#[test]
fn fixed_and_writable_is_refused() {
    assert_eq!(
        Attribute::new(1, AttrValue::Bool(true), ACCESS_WRITE, QUALITY_FIXED),
        Err(Error::InvalidData)
    );
}

#[test]
fn duplicate_ids_are_refused() {
    let mut c = Cluster::new(1);
    assert_eq!(c.add_attribute(rw(5, AttrValue::Uint8(1))), Ok(()));
    assert_eq!(c.add_attribute(rw(5, AttrValue::Uint8(2))), Err(Error::DuplicateAttribute));
    let list = vec![rw(6, AttrValue::Bool(true)), rw(6, AttrValue::Bool(false))];
    assert_eq!(c.add_attributes(&list), Err(Error::DuplicateAttribute));
    assert_eq!(c.get_attribute(6), Err(Error::AttributeNotFound));
    assert_eq!(c.read_attribute_raw(5), Ok(&AttrValue::Uint8(1)));
}

#[test]
fn too_many_attributes() {
    let mut c = Cluster::new(1);
    let list: Vec<Attribute> = (0..30).map(|i| rw(i, AttrValue::Uint8(0))).collect();
    assert_eq!(c.add_attributes(&list), Ok(()));
    assert_eq!(c.add_attribute(rw(100, AttrValue::Uint8(0))), Err(Error::TooManyAttributes));
}

#[test]
fn raw_write_then_read() {
    let mut c = Cluster::new(1);
    c.add_attribute(rw(2, AttrValue::Uint16(0))).unwrap();
    assert_eq!(c.write_attribute_raw(2, AttrValue::Uint16(500)), Ok(()));
    assert_eq!(c.read_attribute_raw(2), Ok(&AttrValue::Uint16(500)));
    assert_eq!(c.take_dirty(), vec![2]);
    assert!(c.dirty().is_empty());
    assert_eq!(c.write_attribute_raw(2, AttrValue::Bool(true)), Err(Error::InvalidDataType));
    assert_eq!(c.write_attribute_raw(9, AttrValue::Bool(true)), Err(Error::AttributeNotFound));
    assert_eq!(c.write_attribute_raw(ATTR_FEATURE_MAP, AttrValue::Uint32(1)), Err(Error::AccessDenied));
}

#[test]
fn write_to_fixed_is_unsupported() {
    let mut c = Cluster::new(1);
    let admin = AccessReq { privilege: Privilege::Admin };
    let t = TlvElement::UnsignedInt(3);
    assert_eq!(c.write_attribute(&admin, ATTR_CLUSTER_REVISION, &t), Err(IMStatusCode::UnsupportedWrite));
    assert_eq!(c.write_attribute_from_tlv(ATTR_CLUSTER_REVISION, &t), Err(IMStatusCode::UnsupportedWrite));
    assert_eq!(c.read_attribute_raw(ATTR_CLUSTER_REVISION), Ok(&AttrValue::Uint16(1)));
}

#[test]
fn tlv_round_trip() {
    let mut c = Cluster::new(1);
    c.add_attribute(rw(1, AttrValue::Int16(0))).unwrap();
    c.add_attribute(rw(2, AttrValue::Utf8(String::new()))).unwrap();
    c.add_attribute(rw(3, AttrValue::Bool(false))).unwrap();
    let cases = vec![
        (1, TlvElement::SignedInt(-1234)),
        (2, TlvElement::Utf8("kitchen".to_string())),
        (3, TlvElement::Bool(true)),
    ];
    for (id, t) in cases {
        assert_eq!(c.write_attribute(&OPERATE, id, &t), Ok(()));
        assert_eq!(c.read_attribute(&OPERATE, id), Ok(t));
    }
}

#[test]
fn tlv_write_errors() {
    let mut c = Cluster::new(1);
    c.add_attribute(rw(1, AttrValue::Uint8(0))).unwrap();
    c.add_attribute(Attribute::new(2, AttrValue::Uint8(0), ACCESS_RV, 0).unwrap()).unwrap();
    assert_eq!(c.write_attribute(&OPERATE, 1, &TlvElement::UnsignedInt(256)), Err(IMStatusCode::ConstraintError));
    assert_eq!(c.write_attribute(&OPERATE, 1, &TlvElement::SignedInt(1)), Err(IMStatusCode::InvalidDataType));
    assert_eq!(c.write_attribute(&OPERATE, 2, &TlvElement::UnsignedInt(1)), Err(IMStatusCode::UnsupportedWrite));
    assert_eq!(c.write_attribute(&OPERATE, 7, &TlvElement::UnsignedInt(1)), Err(IMStatusCode::UnsupportedAttribute));
    let view = AccessReq { privilege: Privilege::View };
    assert_eq!(c.write_attribute(&view, 1, &TlvElement::UnsignedInt(1)), Err(IMStatusCode::UnsupportedAccess));
    assert_eq!(c.read_attribute_raw(1), Ok(&AttrValue::Uint8(0)));
}

#[test]
fn decode_and_encode() {
    let like = AttrValue::Int8(0);
    assert_eq!(like.decode_like(&TlvElement::SignedInt(-128)), Ok(AttrValue::Int8(-128)));
    assert_eq!(like.decode_like(&TlvElement::SignedInt(128)), Err(IMStatusCode::ConstraintError));
    assert_eq!(AttrValue::Uint32(7).encode(), Some(TlvElement::UnsignedInt(7)));
    assert_eq!(AttrValue::Custom.encode(), None);
    assert_eq!(TlvElement::UnsignedInt(70000).u16(), Err(IMStatusCode::ConstraintError));
    assert_eq!(Error::AccessDenied.to_status(), IMStatusCode::UnsupportedWrite);
}

#[test]
fn access_is_checked_before_read_bit() {
    let mut c = Cluster::new(1);
    c.add_attribute(Attribute::new(4, AttrValue::Uint8(0), 0x0010, 0).unwrap()).unwrap();
    let none = AccessReq { privilege: Privilege::NoAccess };
    let view = AccessReq { privilege: Privilege::View };
    assert_eq!(c.read_attribute(&none, 4), Err(IMStatusCode::UnsupportedAccess));
    assert_eq!(c.read_attribute(&view, 4), Err(IMStatusCode::UnsupportedRead));
    assert_eq!(c.read_attribute(&none, 9), Err(IMStatusCode::UnsupportedAttribute));
}
