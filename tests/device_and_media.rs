use openspace_sync::device_type::{is_camera, DeviceType, VendorType};
use openspace_sync::media::has_media_extension;

#[test]
fn vendor_ids_map_to_vendors() {
    assert_eq!(VendorType::from_vendor_id(1802), Some(VendorType::Insta));
    assert_eq!(VendorType::from_vendor_id(1482), Some(VendorType::Theta));
    assert_eq!(VendorType::from_vendor_id(0), None);
    assert_eq!(VendorType::from_vendor_id(1803), None);
}

#[test]
fn product_ids_map_to_models() {
    assert_eq!(DeviceType::from_product_id(16422), Some(DeviceType::Insta360OneX2));
    assert_eq!(DeviceType::from_product_id(16423), Some(DeviceType::Insta360OneX2));
    assert_eq!(DeviceType::from_product_id(877), Some(DeviceType::ThetaZ1));
    assert_eq!(DeviceType::from_product_id(878), None);
}

#[test]
fn names_are_human_readable() {
    assert_eq!(VendorType::Insta.name(), "Insta");
    assert_eq!(VendorType::Theta.name(), "Theta");
    assert_eq!(DeviceType::Insta360OneX2.name(), "Insta360 One X2");
    assert_eq!(DeviceType::ThetaZ1.name(), "Theta Z1");
}

#[test]
fn camera_needs_known_vendor_and_product() {
    assert!(is_camera(1802, 16422));
    assert!(is_camera(1482, 877));
    assert!(!is_camera(1802, 1));
    assert!(!is_camera(7, 16422));
    assert!(!is_camera(0, 0));
}

#[test]
fn media_extension_ignores_ascii_case() {
    assert!(has_media_extension("VID_20240101_000001_00_001.insv"));
    assert!(has_media_extension("clip.INSV"));
    assert!(has_media_extension("clip.InSv"));
    assert!(has_media_extension("a.b.insv"));
}

#[test]
fn media_extension_rejects_other_names() {
    assert!(!has_media_extension(".insv"));
    assert!(!has_media_extension("insv"));
    assert!(!has_media_extension("clip.insv.bak"));
    assert!(!has_media_extension("clip.mp4"));
    assert!(!has_media_extension("clip.insvx"));
    assert!(!has_media_extension("clip."));
    assert!(!has_media_extension(""));
}
