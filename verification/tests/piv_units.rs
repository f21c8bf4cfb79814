use yubirs::error::{Error, Secret};
use yubirs::piv::apdu::Apdu;
use yubirs::piv::command::{chain, get_data, put_data_field};
use yubirs::piv::hal::collected_response;
use yubirs::piv::id::Object;
use yubirs::piv::key::parse_management_key;
use yubirs::piv::pin::{check_secret, pad_secret};
use yubirs::piv::response::{
    challenge_outcome, object_outcome, parse_response, version_outcome, witness_outcome,
};
use yubirs::piv::sw::StatusWord;
use yubirs::piv::tlv::{decode_length, unwrap_object, wrap_object};
use yubirs::piv::version::{decimal, Version};
use yubirs::{init, init_outcome};

#[test]
fn test_apdu_round_trip() {
    let apdu = Apdu::new(0x00, 0xDB, 0x3F, 0xFF, &[1, 2, 3]).unwrap();
    let bytes = apdu.to_bytes();
    assert_eq!(vec![0x00, 0xDB, 0x3F, 0xFF, 0x03, 1, 2, 3], bytes);
    let back = Apdu::from_bytes(&bytes).unwrap();
    assert_eq!(bytes, back.to_bytes());
    assert_eq!(&[1, 2, 3][..], back.data());
}

#[test]
fn test_apdu_rejects_bad_length() {
    assert!(matches!(Apdu::from_bytes(&[0, 1, 2]), Err(Error::InvalidApdu)));
    assert!(matches!(Apdu::from_bytes(&[0, 1, 2, 3, 2, 9]), Err(Error::InvalidApdu)));
    assert!(matches!(Apdu::new(0, 0, 0, 0, &[0u8; 256]), Err(Error::DataTooLong)));
    assert!(Apdu::new(0, 0, 0, 0, &[0u8; 255]).is_ok());
}

#[test]
fn test_status_word_round_trip() {
    for v in [0x9000u16, 0x6110, 0x63C2, 0x6982, 0x6983, 0x6A82, 0x1234, 0x6A88] {
        assert_eq!(v, StatusWord::new(v).value());
    }
    assert_eq!(StatusWord::IncorrectPin(2), StatusWord::new(0x63C2));
    assert_eq!(StatusWord::BytesRemaining(0x10), StatusWord::from_bytes(0x61, 0x10));
    assert_eq!(StatusWord::Unknown(0x1234), StatusWord::new(0x1234));
}

#[test]
fn test_parse_response() {
    let (sw, data) = parse_response(&[1, 2, 0x90, 0x00]).unwrap();
    assert_eq!(StatusWord::Success, sw);
    assert_eq!(vec![1, 2], data);
    assert!(matches!(parse_response(&[0x90]), Err(Error::InvalidResponse)));
}

#[test]
fn test_pad_secret() {
    assert_eq!(vec![0x31, 0x32, 0x33, 0xFF, 0xFF, 0xFF, 0xFF, 0xFF], pad_secret(b"123"));
    assert!(matches!(
        check_secret("123456789", Secret::Puk, false),
        Err(Error::SecretTooLong { secret: Secret::Puk, existing: false })
    ));
    assert_eq!(
        b"12345678".to_vec(),
        check_secret("12345678", Secret::Pin, true).unwrap()
    );
}

#[test]
fn test_tlv_lengths() {
    for (n, enc) in [(5usize, vec![5u8]), (0x80, vec![0x81, 0x80]), (0x1234, vec![0x82, 0x12, 0x34])] {
        let data = vec![7u8; n];
        let wrapped = wrap_object(&data);
        assert_eq!(0x53, wrapped[0]);
        assert_eq!(&enc[..], &wrapped[1..1 + enc.len()]);
        assert_eq!(Some((n, enc.len())), decode_length(&wrapped, 1));
        assert_eq!(data, unwrap_object(&wrapped).unwrap());
    }
    assert!(matches!(unwrap_object(&[0x53, 0x03, 1, 2]), Err(Error::InvalidResponse)));
    assert!(matches!(unwrap_object(&[0x54, 0x01, 1]), Err(Error::InvalidResponse)));
}

#[test]
fn test_chain_split() {
    let data: Vec<u8> = (0..600u32).map(|i| i as u8).collect();
    let apdus = chain(0xDB, 0x3F, 0xFF, &data);
    assert_eq!(3, apdus.len());
    assert_eq!(vec![0x10, 0xDB, 0x3F, 0xFF, 0xFF], apdus[0][0..5].to_vec());
    assert_eq!(vec![0x00, 0xDB, 0x3F, 0xFF, 90], apdus[2][0..5].to_vec());
    let joined: Vec<u8> = apdus.iter().flat_map(|a| a[5..].to_vec()).collect();
    assert_eq!(data, joined);
    let short = chain(0xDB, 0x3F, 0xFF, &[1, 2]);
    assert_eq!(vec![vec![0x00, 0xDB, 0x3F, 0xFF, 2, 1, 2]], short);
    let exact = chain(0xDB, 0x3F, 0xFF, &[0u8; 255]);
    assert_eq!(1, exact.len());
}

#[test]
fn test_command_bytes() {
    assert_eq!(vec![0x00, 0xCB, 0x3F, 0xFF, 0x03, 0x5C, 0x01, 0x7E], get_data(Object::Discovery));
    assert_eq!(
        vec![0x5C, 0x03, 0x5F, 0xC1, 0x07, 0x53, 0x01, 0xAA],
        put_data_field(Object::Capability, &[0xAA])
    );
}

#[test]
fn test_version_string() {
    assert_eq!("1.0.4", Version::new(&[1, 0, 4]).unwrap().to_string());
    assert_eq!("255.10.99", Version::new(&[255, 10, 99]).unwrap().to_string());
    assert!(matches!(Version::new(&[1, 0]), Err(Error::InvalidVersion)));
    assert_eq!("0", decimal(0));
    assert_eq!("100", decimal(100));
}

#[test]
fn test_outcomes() {
    assert_eq!(
        Version { major: 5, minor: 2, patch: 7 },
        version_outcome(StatusWord::Success, &[5, 2, 7]).unwrap()
    );
    assert!(matches!(
        version_outcome(StatusWord::FileNotFound, &[5, 2, 7]),
        Err(Error::Status(StatusWord::FileNotFound))
    ));
    let w = witness_outcome(StatusWord::Success, &[0x7C, 0x0A, 0x80, 0x08, 1, 2, 3, 4, 5, 6, 7, 8]);
    assert_eq!(vec![1, 2, 3, 4, 5, 6, 7, 8], w.unwrap());
    assert!(matches!(
        witness_outcome(StatusWord::Success, &[0x7C, 0x0A, 0x81, 0x08, 1, 2, 3, 4, 5, 6, 7, 8]),
        Err(Error::InvalidResponse)
    ));
    let expected = [9u8, 8, 7, 6, 5, 4, 3, 2];
    assert!(challenge_outcome(
        StatusWord::Success,
        &[0x7C, 0x0A, 0x82, 0x08, 9, 8, 7, 6, 5, 4, 3, 2],
        &expected
    )
    .is_ok());
    assert!(matches!(
        challenge_outcome(StatusWord::Success, &[0x7C, 0x0A, 0x82, 0x08, 9, 8, 7, 6, 5, 4, 3, 1], &expected),
        Err(Error::AuthenticationFailure)
    ));
    assert!(matches!(
        challenge_outcome(StatusWord::SecurityStatusNotSatisfied, &[], &expected),
        Err(Error::AuthenticationFailure)
    ));
    assert_eq!(vec![1, 2], object_outcome(StatusWord::Success, &[0x53, 0x02, 1, 2]).unwrap());
    assert_eq!(
        "The specified file does not exist in the smart card.",
        object_outcome(StatusWord::FileNotFound, &[]).err().unwrap().to_string()
    );
}

#[test]
fn test_parse_management_key() {
    let key = parse_management_key("010203040506070801020304050607080102030405060708").unwrap();
    assert_eq!(vec![1, 2, 3, 4, 5, 6, 7, 8, 1, 2, 3, 4, 5, 6, 7, 8, 1, 2, 3, 4, 5, 6, 7, 8], key);
    let key = parse_management_key("fedcba9876543210FEDCBA9876543210fedcba9876543210").unwrap();
    assert_eq!(0xFE, key[0]);
    assert_eq!(0x10, key[23]);
    assert!(matches!(parse_management_key("0102"), Err(Error::InvalidManagementKey)));
    assert!(matches!(
        parse_management_key("g10203040506070801020304050607080102030405060708"),
        Err(Error::InvalidManagementKey)
    ));
}

#[test]
fn test_error_messages() {
    assert_eq!("Authentication failure", Error::AuthenticationFailure.to_string());
    assert_eq!("Initializing sodiumoxide library failed", Error::SodiumInit.to_string());
    assert_eq!(
        "The supplied PIN/PUK is incorrect.",
        Error::Status(StatusWord::IncorrectPin(1)).to_string()
    );
    assert_eq!("custom", Error::Message("custom".to_owned()).to_string());
}

#[test]
fn test_init() {
    assert!(init().is_ok());
    assert!(init_outcome(Ok(())).is_ok());
    assert!(matches!(init_outcome(Err(())), Err(Error::SodiumInit)));
}

#[test]
fn test_collected_response() {
    let (sw, data) = collected_response(StatusWord::Success, vec![1, 2]).unwrap();
    assert_eq!(StatusWord::Success, sw);
    assert_eq!(vec![1, 2], data);
    assert!(matches!(
        collected_response(StatusWord::BytesRemaining(4), vec![1]),
        Err(Error::InvalidResponse)
    ));
}
