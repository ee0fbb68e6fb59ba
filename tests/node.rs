use matter::access::{AccessReq, Privilege};
use matter::attribute::AttrValue;
use matter::error::{Error, IMStatusCode};
use matter::level_control::{LevelControlCluster, ATTR_CURRENT_LEVEL, ATTR_OPTIONS};
use matter::node::{AnyCluster, DeviceType, Node};
use matter::on_off::{OnOffCluster, ATTR_ON_OFF};
use matter::tlv::TlvElement;

const OPERATE: AccessReq = AccessReq { privilege: Privilege::Operate };
const LIGHT: DeviceType = DeviceType { dtype: 0x0100, drev: 2 };

fn on_off_of(n: &Node, ep: u16) -> AttrValue {
    match n.get_cluster(ep, 0x0006).unwrap() {
        AnyCluster::OnOff(c) => c.base().read_attribute_raw(ATTR_ON_OFF).unwrap().clone(),
        _ => panic!("not an On/Off cluster"),
    }
}

fn two_lights() -> Node {
    let mut n = Node::new();
    for _ in 0..2 {
        let ep = n.add_endpoint(LIGHT).unwrap();
        n.add_cluster(ep, AnyCluster::OnOff(*OnOffCluster::new().unwrap())).unwrap();
    }
    n
}

#[test]
fn endpoints_are_numbered_from_one() {
    let mut n = Node::new();
    assert_eq!(n.add_endpoint(LIGHT), Ok(1));
    assert_eq!(n.add_endpoint(LIGHT), Ok(2));
    assert_eq!(n.endpoint(2).unwrap().id(), 2);
    assert_eq!(n.endpoint(1).unwrap().device_type(), LIGHT);
    assert!(n.endpoint(0).is_none());
    for _ in 2..16 {
        n.add_endpoint(LIGHT).unwrap();
    }
    assert_eq!(n.add_endpoint(LIGHT), Err(Error::TooManyEndpoints));
}

#[test]
fn add_cluster_errors() {
    let mut n = two_lights();
    let again = AnyCluster::OnOff(*OnOffCluster::new().unwrap());
    assert_eq!(n.add_cluster(1, again), Err(Error::DuplicateCluster));
    let other = AnyCluster::OnOff(*OnOffCluster::new().unwrap());
    assert_eq!(n.add_cluster(3, other), Err(Error::NoEndpoint));
    assert!(matches!(n.get_cluster(1, 0x0008), Err(Error::NotFound)));
    assert!(matches!(n.get_cluster(9, 0x0006), Err(Error::NoEndpoint)));
}

#[test]
fn wildcard_on_reaches_every_endpoint() {
    let mut n = two_lights();
    let r = n.dispatch(&OPERATE, None, 0x0006, Some(0x01), &vec![]);
    let got: Vec<(u16, IMStatusCode)> = r.iter().map(|s| (s.endpoint_id, s.status)).collect();
    assert_eq!(got, vec![(1, IMStatusCode::Success), (2, IMStatusCode::Success)]);
    assert_eq!(on_off_of(&n, 1), AttrValue::Bool(true));
    assert_eq!(on_off_of(&n, 2), AttrValue::Bool(true));
}

#[test]
fn path_errors() {
    let mut n = two_lights();
    let r = n.dispatch(&OPERATE, Some(5), 0x0006, Some(0x01), &vec![]);
    assert_eq!(r[0].status, IMStatusCode::UnsupportedEndpoint);
    let r = n.dispatch(&OPERATE, Some(1), 0x0008, Some(0x01), &vec![]);
    assert_eq!(r[0].status, IMStatusCode::UnsupportedCluster);
    let r = n.dispatch(&OPERATE, None, 0x0008, Some(0x01), &vec![]);
    assert!(r.is_empty());
    let r = n.dispatch(&OPERATE, Some(2), 0x0006, Some(0x02), &vec![]);
    assert_eq!((r[0].endpoint_id, r[0].status), (2, IMStatusCode::Success));
    assert_eq!(on_off_of(&n, 1), AttrValue::Bool(false));
    assert_eq!(on_off_of(&n, 2), AttrValue::Bool(true));
}

#[test]
fn level_with_on_off_drives_companion() {
    let mut n = two_lights();
    n.add_cluster(1, AnyCluster::LevelControl(*LevelControlCluster::new().unwrap())).unwrap();
    let data = vec![
        TlvElement::UnsignedInt(80),
        TlvElement::UnsignedInt(0),
        TlvElement::UnsignedInt(0),
        TlvElement::UnsignedInt(0),
    ];
    let r = n.dispatch(&OPERATE, Some(1), 0x0008, Some(0x04), &data);
    assert_eq!(r[0].status, IMStatusCode::Success);
    assert_eq!(on_off_of(&n, 1), AttrValue::Bool(true));
    assert_eq!(on_off_of(&n, 2), AttrValue::Bool(false));
    let r = n.dispatch(&OPERATE, Some(1), 0x0008, Some(0xFF), &data);
    assert_eq!(r[0].status, IMStatusCode::UnsupportedCommand);
}

#[test]
fn cluster_paths_ascend() {
    let mut n = Node::new();
    let a = n.add_endpoint(LIGHT).unwrap();
    let b = n.add_endpoint(LIGHT).unwrap();
    n.add_cluster(b, AnyCluster::OnOff(*OnOffCluster::new().unwrap())).unwrap();
    n.add_cluster(a, AnyCluster::LevelControl(*LevelControlCluster::new().unwrap())).unwrap();
    n.add_cluster(a, AnyCluster::OnOff(*OnOffCluster::new().unwrap())).unwrap();
    assert_eq!(n.cluster_paths(), vec![(1, 0x0006), (1, 0x0008), (2, 0x0006)]);
}

#[test]
fn peripheral_state_reaches_read() {
    let mut n = two_lights();
    assert_eq!(n.push_on_off_state(2, true), Ok(()));
    assert_eq!(n.push_on_off_state(3, true), Err(Error::NoEndpoint));
    match n.get_cluster(2, 0x0006).unwrap() {
        AnyCluster::OnOff(c) => {
            let view = AccessReq { privilege: Privilege::View };
            assert_eq!(c.read_attribute(&view, ATTR_ON_OFF), Ok(TlvElement::Bool(true)));
        }
        _ => panic!("not an On/Off cluster"),
    }
    assert_eq!(on_off_of(&n, 2), AttrValue::Bool(false));
}

#[test]
fn dirty_marks_are_collected_in_order() {
    let mut n = two_lights();
    n.add_cluster(2, AnyCluster::LevelControl(*LevelControlCluster::new().unwrap())).unwrap();
    n.dispatch(&OPERATE, None, 0x0006, Some(0x01), &vec![]);
    let data = vec![
        TlvElement::UnsignedInt(9),
        TlvElement::UnsignedInt(0),
        TlvElement::UnsignedInt(0),
        TlvElement::UnsignedInt(0),
    ];
    n.dispatch(&OPERATE, Some(2), 0x0008, Some(0x00), &data);
    assert_eq!(n.take_dirty(), vec![(1, 0x0006, 0), (2, 0x0006, 0), (2, 0x0008, 0)]);
    assert!(n.take_dirty().is_empty());
    assert_eq!(on_off_of(&n, 1), AttrValue::Bool(true));
}

#[test]
fn attribute_path_through_node() {
    let mut n = two_lights();
    n.add_cluster(1, AnyCluster::LevelControl(*LevelControlCluster::new().unwrap())).unwrap();
    let op = AccessReq { privilege: Privilege::Operate };
    let t = TlvElement::UnsignedInt(3);
    assert_eq!(n.write_attribute(&op, 1, 0x0008, ATTR_OPTIONS, &t), Ok(()));
    assert_eq!(n.read_attribute(&op, 1, 0x0008, ATTR_OPTIONS), Ok(t.clone()));
    assert_eq!(n.write_attribute(&op, 1, 0x0008, ATTR_CURRENT_LEVEL, &t), Err(IMStatusCode::UnsupportedWrite));
    assert_eq!(n.read_attribute(&op, 1, 0x0008, ATTR_CURRENT_LEVEL), Ok(TlvElement::UnsignedInt(0)));
    assert_eq!(n.write_attribute(&op, 2, 0x0008, ATTR_OPTIONS, &t), Err(IMStatusCode::UnsupportedCluster));
    assert_eq!(n.read_attribute(&op, 4, 0x0006, ATTR_ON_OFF), Err(IMStatusCode::UnsupportedEndpoint));
    assert_eq!(n.write_attribute(&op, 1, 0x0006, ATTR_ON_OFF, &TlvElement::Bool(true)), Err(IMStatusCode::UnsupportedWrite));
}

#[test]
fn invoke_needs_operate() {
    let mut n = two_lights();
    let view = AccessReq { privilege: Privilege::View };
    let r = n.dispatch(&view, Some(1), 0x0006, Some(0x01), &vec![]);
    assert_eq!(r[0].status, IMStatusCode::UnsupportedAccess);
    assert_eq!(on_off_of(&n, 1), AttrValue::Bool(false));
    let r = n.dispatch(&view, Some(1), 0x0006, Some(0x09), &vec![]);
    assert_eq!(r[0].status, IMStatusCode::UnsupportedCommand);
}

#[test]
fn responses_carry_callbacks_and_coupling() {
    let mut n = Node::new();
    let ep = n.add_endpoint(LIGHT).unwrap();
    let mut light = OnOffCluster::new().unwrap();
    let on = light.add_callback(matter::on_off::Commands::On);
    let off = light.add_callback(matter::on_off::Commands::Off);
    n.add_cluster(ep, AnyCluster::OnOff(*light)).unwrap();
    n.add_cluster(ep, AnyCluster::LevelControl(*LevelControlCluster::new().unwrap())).unwrap();
    let r = n.dispatch(&OPERATE, Some(ep), 0x0006, Some(0x01), &vec![]);
    assert_eq!(r[0].callbacks, vec![on]);
    let zero = vec![
        TlvElement::UnsignedInt(0),
        TlvElement::UnsignedInt(0),
        TlvElement::UnsignedInt(0),
        TlvElement::UnsignedInt(0),
    ];
    let r = n.dispatch(&OPERATE, Some(ep), 0x0008, Some(0x04), &zero);
    assert_eq!(r[0].status, IMStatusCode::Success);
    assert_eq!(r[0].callbacks, vec![off]);
    assert_eq!(on_off_of(&n, ep), AttrValue::Bool(false));
    let r = n.dispatch(&OPERATE, Some(ep), 0x0008, Some(0x00), &zero);
    assert!(r[0].callbacks.is_empty());
}
