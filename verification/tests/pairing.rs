use hinata::builder::{
    interface_role, wanted, InterfaceRole, PreDeviceBuilder, HINATA_VID, USAGE_PAGE_READ,
    USAGE_PAGE_WRITE,
};

#[test]
fn roles_by_usage_page() {
    assert_eq!(HINATA_VID, 0xF822);
    assert_eq!(interface_role(USAGE_PAGE_READ), InterfaceRole::Read);
    assert_eq!(interface_role(1), InterfaceRole::Read);
    assert_eq!(interface_role(USAGE_PAGE_WRITE), InterfaceRole::Write);
    assert_eq!(interface_role(6), InterfaceRole::Write);
    assert_eq!(interface_role(0), InterfaceRole::Other);
    assert_eq!(interface_role(0xFF00), InterfaceRole::Other);
}

#[test]
fn only_the_vendor_and_what_is_not_left_out() {
    let exclude = vec!["8&1&0".to_string(), "8&2&0".to_string()];
    assert!(wanted(0xF822, &"8&3&0".to_string(), &exclude));
    assert!(!wanted(0xF822, &"8&1&0".to_string(), &exclude));
    assert!(!wanted(0xF822, &"8&2&0".to_string(), &exclude));
    assert!(!wanted(0xF823, &"8&3&0".to_string(), &exclude));
    assert!(wanted(0xF822, &"".to_string(), &Vec::new()));
}

#[test]
fn an_instance_is_a_device_with_both_interfaces_and_a_name() {
    let mut builder: PreDeviceBuilder<&str> = PreDeviceBuilder::new(Some("HINATA".to_string()), 0x0147);
    assert!(builder.read.is_none() && builder.write.is_none());
    assert_eq!(builder.pid, Some(0x0147));
    builder.record(0xFF00, "vendor page");
    assert!(builder.read.is_none() && builder.write.is_none());
    builder.record(USAGE_PAGE_READ, "first read");
    builder.record(USAGE_PAGE_READ, "read");
    assert_eq!(builder.read, Some("read"));
    assert!(builder.write.is_none());
    builder.record(USAGE_PAGE_WRITE, "write");
    let paired = builder.finish().unwrap();
    assert_eq!(paired.read, "read");
    assert_eq!(paired.write, "write");
    assert_eq!(paired.device_name, "HINATA");
    assert_eq!(paired.pid, 0x0147);
}

#[test]
fn an_incomplete_instance_is_no_device() {
    let mut only_read: PreDeviceBuilder<u8> = PreDeviceBuilder::new(Some("HINATA".to_string()), 1);
    only_read.record(USAGE_PAGE_READ, 1);
    assert!(only_read.finish().is_none());

    let mut only_write: PreDeviceBuilder<u8> = PreDeviceBuilder::new(Some("HINATA".to_string()), 1);
    only_write.record(USAGE_PAGE_WRITE, 2);
    assert!(only_write.finish().is_none());

    let mut nameless: PreDeviceBuilder<u8> = PreDeviceBuilder::new(None, 1);
    nameless.record(USAGE_PAGE_READ, 1);
    nameless.record(USAGE_PAGE_WRITE, 2);
    assert!(nameless.finish().is_none());

    let empty: PreDeviceBuilder<u8> = PreDeviceBuilder::new(Some("HINATA".to_string()), 1);
    assert!(empty.finish().is_none());
}
