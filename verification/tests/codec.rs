use obelisk::codec::{Codec, MediaType};
use obelisk::net::{AddressFamily, IpAddress};

#[test]
fn codec_media_types() {
    assert_eq!(Codec::G711PCMA.media_type(), MediaType::Audio);
    assert_eq!(Codec::G711PCMU.media_type(), MediaType::Audio);
    assert_eq!(Codec::G722.media_type(), MediaType::Audio);
    assert_eq!(Codec::H264.media_type(), MediaType::Video);
}

#[test]
fn codec_encoding_names() {
    assert_eq!(Codec::G711PCMA.encoding_name(), "PCMA");
    assert_eq!(Codec::G711PCMU.encoding_name(), "PCMU");
    assert_eq!(Codec::G722.encoding_name(), "G722");
    assert_eq!(Codec::H264.encoding_name(), "H264");
}

#[test]
fn codec_clock_rates() {
    assert_eq!(Codec::G711PCMA.clock_rate(), 8000);
    assert_eq!(Codec::G711PCMU.clock_rate(), 8000);
    assert_eq!(Codec::G722.clock_rate(), 8000);
    assert_eq!(Codec::H264.clock_rate(), 90000);
}

#[test]
fn address_family_of_ip() {
    assert_eq!(AddressFamily::of(IpAddress::V4(0x7f000001)), AddressFamily::V4);
    assert_eq!(AddressFamily::of(IpAddress::V6(1)), AddressFamily::V6);
    assert!(IpAddress::V4(0).is_unspecified());
    assert!(IpAddress::V6(0).is_unspecified());
    assert!(!IpAddress::V4(1).is_unspecified());
}
