use matter::access::{AccessReq, Privilege};
use matter::attribute::AttrValue;
use matter::error::IMStatusCode;
use matter::on_off::{Attributes, Commands, OnOffCluster, UpdateData, ATTR_ON_OFF};
use matter::tlv::TlvElement;

fn on_off(c: &OnOffCluster) -> AttrValue {
    c.base().read_attribute_raw(ATTR_ON_OFF).unwrap().clone()
}

const VIEW: AccessReq = AccessReq { privilege: Privilege::View };

#[test]
fn fresh_cluster_is_off() {
    let c = OnOffCluster::new().unwrap();
    assert_eq!(on_off(&c), AttrValue::Bool(false));
    assert_eq!(c.base().id(), 0x0006);
    assert_eq!(Attributes::OnOff.id(), 0);
    assert_eq!(c.shared_state(), UpdateData { on_off: false, is_fresh: false });
}

#[test]
fn toggle_twice_returns_to_off() {
    let mut c = OnOffCluster::new().unwrap();
    let h = c.add_callback(Commands::Toggle);
    let r1 = c.handle_command(Some(0x02));
    assert_eq!(r1.status, IMStatusCode::Success);
    assert_eq!(r1.callbacks, vec![h]);
    assert_eq!(on_off(&c), AttrValue::Bool(true));
    let r2 = c.handle_command(Some(0x02));
    assert_eq!(r2.status, IMStatusCode::Success);
    assert_eq!(r2.callbacks, vec![h]);
    assert_eq!(on_off(&c), AttrValue::Bool(false));
}

#[test]
fn on_when_already_on_writes_nothing() {
    let mut c = OnOffCluster::new().unwrap();
    assert_eq!(c.handle_command(Some(0x01)).status, IMStatusCode::Success);
    assert_eq!(c.base().dirty(), &vec![ATTR_ON_OFF]);
    let h = c.add_callback(Commands::On);
    let r = c.handle_command(Some(0x01));
    assert_eq!(r.status, IMStatusCode::Success);
    assert_eq!(r.callbacks, vec![h]);
    assert_eq!(on_off(&c), AttrValue::Bool(true));
    assert_eq!(c.base().dirty(), &vec![ATTR_ON_OFF]);
}

#[test]
fn off_turns_off() {
    let mut c = OnOffCluster::new().unwrap();
    c.handle_command(Some(0x01));
    let r = c.handle_command(Some(0x00));
    assert_eq!(r.status, IMStatusCode::Success);
    assert_eq!(on_off(&c), AttrValue::Bool(false));
}

#[test]
fn unknown_or_missing_command_is_unsupported() {
    let mut c = OnOffCluster::new().unwrap();
    c.add_callback(Commands::On);
    let r = c.handle_command(Some(0x03));
    assert_eq!(r.status, IMStatusCode::UnsupportedCommand);
    assert!(r.callbacks.is_empty());
    assert_eq!(c.handle_command(None).status, IMStatusCode::UnsupportedCommand);
    assert_eq!(on_off(&c), AttrValue::Bool(false));
}

#[test]
fn callbacks_run_in_registration_order() {
    let mut c = OnOffCluster::new().unwrap();
    let a = c.add_callback(Commands::On);
    let _b = c.add_callback(Commands::Off);
    let d = c.add_callback(Commands::On);
    assert_eq!(c.run_callback(Commands::On), vec![a, d]);
    assert_eq!(c.handle_command(Some(0x01)).callbacks, vec![0, 2]);
    assert_eq!(c.run_callback(Commands::Toggle), Vec::<usize>::new());
}

#[test]
fn fresh_shared_state_wins_on_read() {
    let mut c = OnOffCluster::new().unwrap();
    c.push_state(true);
    assert_eq!(on_off(&c), AttrValue::Bool(false));
    assert_eq!(c.read_attribute(&VIEW, ATTR_ON_OFF), Ok(TlvElement::Bool(true)));
}

#[test]
fn stale_shared_state_reads_attribute() {
    let mut c = OnOffCluster::new().unwrap();
    assert_eq!(c.read_attribute(&VIEW, ATTR_ON_OFF), Ok(TlvElement::Bool(false)));
    c.push_state(true);
    c.handle_command(Some(0x00));
    assert_eq!(c.read_attribute(&VIEW, ATTR_ON_OFF), Ok(TlvElement::Bool(false)));
}

#[test]
fn update_state_marks_fresh() {
    let mut u = UpdateData { on_off: false, is_fresh: false };
    u.update_state(true);
    assert_eq!(u, UpdateData { on_off: true, is_fresh: true });
}

#[test]
fn read_errors() {
    let c = OnOffCluster::new().unwrap();
    assert_eq!(c.read_attribute(&VIEW, 0x0042), Err(IMStatusCode::UnsupportedAttribute));
    let none = AccessReq { privilege: Privilege::NoAccess };
    assert_eq!(c.read_attribute(&none, ATTR_ON_OFF), Err(IMStatusCode::UnsupportedAccess));
    assert_eq!(c.read_attribute(&VIEW, 0xFFFD), Ok(TlvElement::UnsignedInt(1)));
}

#[test]
fn command_ids() {
    assert_eq!(Commands::from_u32(0), Some(Commands::Off));
    assert_eq!(Commands::from_u32(1), Some(Commands::On));
    assert_eq!(Commands::from_u32(2), Some(Commands::Toggle));
    assert_eq!(Commands::from_u32(3), None);
}
