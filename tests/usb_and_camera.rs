use openspace_sync::camera_finder::find_camera_volume;
use openspace_sync::usb_profile::{
    parse_hex_digits, parse_hex_u16, UsbBus, UsbMedia, UsbNode, UsbRoot, UsbVolume,
};

#[test]
fn profiler_ids_keep_the_first_word() {
    assert_eq!(parse_hex_u16("0x070a  (Insta360)"), Some(0x070a));
    assert_eq!(parse_hex_u16("0x4026"), Some(0x4026));
    assert_eq!(parse_hex_u16("   0x05ca Ricoh"), Some(0x05ca));
}

#[test]
fn profiler_ids_without_literal_read_the_word() {
    assert_eq!(parse_hex_u16("abc"), Some(0xabc));
    assert_eq!(parse_hex_u16("+ff"), Some(0xff));
    assert_eq!(parse_hex_u16("0X1F"), Some(0x1f));
    assert_eq!(parse_hex_u16("0x0x12"), Some(0));
    assert_eq!(parse_hex_u16("x0x1f"), Some(0x1f));
}

#[test]
fn bad_profiler_ids_are_none() {
    assert_eq!(parse_hex_u16(""), None);
    assert_eq!(parse_hex_u16("   "), None);
    assert_eq!(parse_hex_u16("zz"), None);
    assert_eq!(parse_hex_u16("0x12345"), None);
    assert_eq!(parse_hex_u16("0x"), None);
    assert_eq!(parse_hex_u16("-1"), None);
}

#[test]
fn hex_digits_follow_from_str_radix() {
    assert_eq!(parse_hex_digits("ffff"), Some(0xffff));
    assert_eq!(parse_hex_digits("10000"), None);
    assert_eq!(parse_hex_digits("+0"), Some(0));
    assert_eq!(parse_hex_digits("+"), None);
    assert_eq!(parse_hex_digits(""), None);
    assert_eq!(parse_hex_digits("00000000000001"), Some(1));
    for v in [0u16, 1, 0x70a, 0x4026, 0xffff] {
        assert_eq!(parse_hex_digits(&format!("{:x}", v)), u16::from_str_radix(&format!("{:x}", v), 16).ok());
    }
}

fn node(name: &str, vendor: Option<u16>, product: Option<u16>, serial: Option<&str>, mounts: Vec<Option<&str>>) -> UsbNode {
    let volumes = mounts
        .into_iter()
        .map(|m| UsbVolume {
            name: "vol".to_string(),
            bsd_name: None,
            file_system: None,
            iocontent: None,
            mount_point: m.map(|s| s.to_string()),
            size: None,
            size_in_bytes: None,
            volume_uuid: None,
        })
        .collect();
    UsbNode {
        name: name.to_string(),
        bcd_device: None,
        location_id: None,
        manufacturer: None,
        product_id: product,
        serial_num: serial.map(|s| s.to_string()),
        vendor_id: vendor,
        items: None,
        media: Some(vec![UsbMedia { name: "media".to_string(), bsd_name: None, usb_interface: None, volumes: Some(volumes) }]),
    }
}

fn bus(items: Vec<UsbNode>) -> UsbBus {
    UsbBus { items, name: "USB31Bus".to_string(), host_controller: None }
}

#[test]
fn camera_volume_is_first_mounted_volume_of_first_camera() {
    let root = UsbRoot {
        spusb_data_type: vec![
            bus(vec![node("Keyboard", Some(1452), Some(1), None, vec![Some("/kbd")])]),
            bus(vec![
                node("Hub", None, None, None, vec![]),
                node("Insta360 ONE X2", Some(1802), Some(16422), Some("INSXECAFEBEEF"), vec![None, Some("/Volumes/Untitled")]),
            ]),
        ],
    };
    let info = find_camera_volume(&root).expect("a camera");
    assert_eq!(info.mount_point, "/Volumes/Untitled");
    assert_eq!(info.device_id, "Insta360 One X2:sn:INSXECAFEBEEF");
}

#[test]
fn camera_without_serial_is_unknown() {
    let root = UsbRoot { spusb_data_type: vec![bus(vec![node("Theta", Some(1482), Some(877), None, vec![Some("/Volumes/THETA")])])] };
    let info = find_camera_volume(&root).expect("a camera");
    assert_eq!(info.device_id, "Theta Z1:sn:unknown");
    assert_eq!(info.mount_point, "/Volumes/THETA");
}

#[test]
fn no_camera_or_no_mounted_volume_is_not_found() {
    let none = UsbRoot { spusb_data_type: vec![bus(vec![node("Disk", Some(1), Some(2), None, vec![Some("/d")])])] };
    assert!(find_camera_volume(&none).is_none());
    let unmounted = UsbRoot { spusb_data_type: vec![bus(vec![node("Cam", Some(1802), Some(16423), None, vec![None])])] };
    assert!(find_camera_volume(&unmounted).is_none());
    let empty = UsbRoot { spusb_data_type: vec![] };
    assert!(find_camera_volume(&empty).is_none());
}
