use nothing_core::discovery::{B171_MANUFACTURER_PREFIX, NOTHING_COMPANY_ID, NOTHING_SERVICE_ID};
use nothing_core::{
    classify_device, has_b171_alias, is_b171_advertisement, preferred_device, vendor_uuid,
    DeviceDescriptor, DiscoveryMatch, NOTHING_SERVICE_UUID,
};
use std::collections::HashMap;
use uuid::Uuid;

fn descriptor(address: &str, connected: bool) -> DeviceDescriptor {
    DeviceDescriptor {
        address: address.into(),
        alias: "Nothing Ear".into(),
        model: Some("B171".into()),
        paired: true,
        connected,
        vendor_service: true,
    }
}

fn b171_data() -> HashMap<u16, Vec<u8>> {
    let mut manufacturer_data = HashMap::new();
    manufacturer_data.insert(NOTHING_COMPANY_ID, B171_MANUFACTURER_PREFIX.to_vec());
    manufacturer_data
}

#[test]
fn vendor_uuid_is_stable_and_valid() {
    assert!(Uuid::parse_str(NOTHING_SERVICE_UUID).is_ok());
    assert_eq!(Uuid::from_u128(vendor_uuid()).to_string(), NOTHING_SERVICE_UUID);
    assert_eq!(vendor_uuid(), NOTHING_SERVICE_ID);
}

#[test]
fn recognizes_the_b171_advertisement_signature() {
    let manufacturer_data = b171_data();
    assert!(is_b171_advertisement("Nothing Ear", &manufacturer_data));
    assert!(!is_b171_advertisement("Nothing Ear (a)", &manufacturer_data));
}

#[test]
fn advertisement_needs_the_company_and_prefix() {
    let mut other_company = HashMap::new();
    other_company.insert(0x004c, B171_MANUFACTURER_PREFIX.to_vec());
    assert!(!is_b171_advertisement("Nothing Ear", &other_company));
    let mut short = HashMap::new();
    short.insert(NOTHING_COMPANY_ID, vec![0x01, 0x01, 0xb1]);
    assert!(!is_b171_advertisement("Nothing Ear", &short));
    let mut longer = HashMap::new();
    longer.insert(NOTHING_COMPANY_ID, vec![0x01, 0x01, 0xb1, 0x71, 0x42]);
    assert!(is_b171_advertisement("  nothing EAR ", &longer));
}

#[test]
fn alias_match_ignores_case_and_surrounding_space() {
    assert!(has_b171_alias("Nothing Ear"));
    assert!(has_b171_alias("\tNOTHING ear \n"));
    assert!(!has_b171_alias("Nothing Ear (2)"));
    assert!(!has_b171_alias("Nothing  Ear"));
    assert!(!has_b171_alias(""));
}

#[test]
fn prefers_an_already_connected_paired_device() {
    let devices = vec![
        descriptor("00:00:00:00:00:01", false),
        descriptor("00:00:00:00:00:02", true),
    ];
    assert_eq!(
        preferred_device(devices).map(|device| device.address),
        Some("00:00:00:00:00:02".into())
    );
}

#[test]
fn falls_back_to_the_first_device() {
    let devices = vec![
        descriptor("00:00:00:00:00:03", false),
        descriptor("00:00:00:00:00:04", false),
    ];
    assert_eq!(
        preferred_device(devices).map(|device| device.address),
        Some("00:00:00:00:00:03".into())
    );
    assert_eq!(preferred_device(Vec::new()), None);
}

#[test]
fn unpaired_b171_earbuds_need_pairing() {
    let found = classify_device(
        "AA:BB:CC:DD:EE:FF".into(),
        Some("Nothing Ear".into()),
        &b171_data(),
        false,
        false,
        false,
    );
    assert_eq!(found, DiscoveryMatch::NearbyUnpaired);
    let other = classify_device(
        "AA:BB:CC:DD:EE:FF".into(),
        Some("Headphones".into()),
        &HashMap::new(),
        false,
        true,
        false,
    );
    assert_eq!(other, DiscoveryMatch::Other);
}

#[test]
fn paired_devices_are_taken_by_service_alias_or_advertisement() {
    let by_service = classify_device(
        "11:22:33:44:55:66".into(),
        None,
        &HashMap::new(),
        true,
        true,
        true,
    );
    assert_eq!(
        by_service,
        DiscoveryMatch::Paired(DeviceDescriptor {
            address: "11:22:33:44:55:66".into(),
            alias: "Nothing audio device".into(),
            model: None,
            paired: true,
            connected: true,
            vendor_service: true,
        })
    );
    let by_advertisement = classify_device(
        "11:22:33:44:55:66".into(),
        Some("Nothing Ear".into()),
        &b171_data(),
        true,
        false,
        false,
    );
    match by_advertisement {
        DiscoveryMatch::Paired(device) => {
            assert_eq!(device.model.as_deref(), Some("B171"));
            assert!(!device.vendor_service);
        }
        other => panic!("unexpected {other:?}"),
    }
    let neither = classify_device(
        "11:22:33:44:55:66".into(),
        Some("Speaker".into()),
        &HashMap::new(),
        true,
        false,
        true,
    );
    assert_eq!(neither, DiscoveryMatch::Other);
}
