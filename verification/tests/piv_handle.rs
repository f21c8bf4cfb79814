use std::cell::RefCell;
use std::collections::HashMap;

use des::cipher::generic_array::GenericArray;
use des::cipher::{BlockDecrypt, BlockEncrypt, KeyInit};

use yubirs::error::Error;
use yubirs::piv::apdu::Apdu;
use yubirs::piv::hal::PcscHal;
use yubirs::piv::handle::{Handle, Version};
use yubirs::piv::id::Object;
use yubirs::piv::sw::StatusWord;
use yubirs::piv::{DEFAULT_MGM_KEY, DEFAULT_PIN, DEFAULT_PUK, DEFAULT_READER};

const DEFAULT_KEY_BYTES: [u8; 24] = [
    1, 2, 3, 4, 5, 6, 7, 8, 1, 2, 3, 4, 5, 6, 7, 8, 1, 2, 3, 4, 5, 6, 7, 8,
];
const WITNESS: [u8; 8] = [0x11, 0x22, 0x33, 0x44, 0x55, 0x66, 0x77, 0x88];
const CHUID_TAG: [u8; 3] = [0x5F, 0xC1, 0x02];

fn tdes_encrypt(key: &[u8], block: &[u8]) -> Vec<u8> {
    let cipher = des::TdesEde3::new_from_slice(key).unwrap();
    let mut b = GenericArray::clone_from_slice(block);
    cipher.encrypt_block(&mut b);
    b.to_vec()
}

fn tdes_decrypt(key: &[u8], block: &[u8]) -> Vec<u8> {
    let cipher = des::TdesEde3::new_from_slice(key).unwrap();
    let mut b = GenericArray::clone_from_slice(block);
    cipher.decrypt_block(&mut b);
    b.to_vec()
}

fn unpad(secret: &[u8]) -> Vec<u8> {
    secret.iter().cloned().take_while(|b| *b != 0xFF).collect()
}

/// The state of a simulated YubiKey PIV application.
struct CardState {
    pin: Vec<u8>,
    puk: Vec<u8>,
    mgm_key: Vec<u8>,
    pin_tries: u8,
    puk_tries: u8,
    pin_retries: u8,
    puk_retries: u8,
    authenticated: bool,
    pin_verified: bool,
    witness_pending: bool,
    objects: HashMap<Vec<u8>, Vec<u8>>,
    pending: Vec<u8>,
    put_buffer: Vec<u8>,
    sent: Vec<Vec<u8>>,
}

impl CardState {
    fn new() -> CardState {
        CardState {
            pin: b"123456".to_vec(),
            puk: b"12345678".to_vec(),
            mgm_key: DEFAULT_KEY_BYTES.to_vec(),
            pin_tries: 3,
            puk_tries: 3,
            pin_retries: 3,
            puk_retries: 3,
            authenticated: false,
            pin_verified: false,
            witness_pending: false,
            objects: HashMap::new(),
            pending: Vec::new(),
            put_buffer: Vec::new(),
            sent: Vec::new(),
        }
    }

    fn answer_chunk(&mut self) -> (StatusWord, Vec<u8>) {
        if self.pending.len() > 256 {
            let rest = self.pending.split_off(256);
            let chunk = std::mem::replace(&mut self.pending, rest);
            let left = if self.pending.len() >= 256 { 0 } else { self.pending.len() as u8 };
            (StatusWord::BytesRemaining(left), chunk)
        } else {
            (StatusWord::Success, std::mem::take(&mut self.pending))
        }
    }

    fn check_secret(&mut self, puk: bool, given: &[u8]) -> Option<StatusWord> {
        let tries = if puk { self.puk_tries } else { self.pin_tries };
        if tries == 0 {
            return Some(StatusWord::AuthenticationBlocked);
        }
        let expected = if puk { self.puk.clone() } else { self.pin.clone() };
        if unpad(given) == expected {
            if puk {
                self.puk_tries = self.puk_retries;
            } else {
                self.pin_tries = self.pin_retries;
            }
            None
        } else {
            let left = tries - 1;
            if puk {
                self.puk_tries = left;
            } else {
                self.pin_tries = left;
            }
            Some(StatusWord::IncorrectPin(left))
        }
    }

    fn process(&mut self, apdu: &Apdu) -> (StatusWord, Vec<u8>) {
        let data = apdu.data().to_vec();
        match apdu.ins() {
            0xA4 => {
                if data == vec![0xA0, 0x00, 0x00, 0x03, 0x08] {
                    (StatusWord::Success, Vec::new())
                } else {
                    (StatusWord::FileNotFound, Vec::new())
                }
            }
            0xFD => (StatusWord::Success, vec![1, 0, 4]),
            0xC0 => self.answer_chunk(),
            0x20 => match self.check_secret(false, &data) {
                Some(sw) => (sw, Vec::new()),
                None => {
                    self.pin_verified = true;
                    (StatusWord::Success, Vec::new())
                }
            },
            0x24 => {
                let puk = apdu.p2() == 0x81;
                match self.check_secret(puk, &data[0..8]) {
                    Some(sw) => (sw, Vec::new()),
                    None => {
                        let new = unpad(&data[8..16]);
                        if puk {
                            self.puk = new;
                        } else {
                            self.pin = new;
                        }
                        (StatusWord::Success, Vec::new())
                    }
                }
            }
            0x2C => match self.check_secret(true, &data[0..8]) {
                Some(sw) => (sw, Vec::new()),
                None => {
                    self.pin = unpad(&data[8..16]);
                    self.pin_tries = self.pin_retries;
                    (StatusWord::Success, Vec::new())
                }
            },
            0xFB => {
                if self.pin_tries == 0 && self.puk_tries == 0 {
                    *self = CardState::new();
                    (StatusWord::Success, Vec::new())
                } else {
                    (StatusWord::ConditionsNotSatisfied, Vec::new())
                }
            }
            0xFA => {
                if !self.authenticated || !self.pin_verified {
                    return (StatusWord::SecurityStatusNotSatisfied, Vec::new());
                }
                self.pin_retries = apdu.p1();
                self.puk_retries = apdu.p2();
                self.pin_tries = apdu.p1();
                self.puk_tries = apdu.p2();
                self.pin = b"123456".to_vec();
                self.puk = b"12345678".to_vec();
                (StatusWord::Success, Vec::new())
            }
            0xFF => {
                if !self.authenticated {
                    return (StatusWord::SecurityStatusNotSatisfied, Vec::new());
                }
                if data.len() != 27 || data[0..3] != [0x03, 0x9B, 0x18] {
                    return (StatusWord::IncorrectData, Vec::new());
                }
                self.mgm_key = data[3..].to_vec();
                (StatusWord::Success, Vec::new())
            }
            0x87 => {
                if data == vec![0x7C, 0x02, 0x80, 0x00] {
                    self.witness_pending = true;
                    let mut answer = vec![0x7C, 0x0A, 0x80, 0x08];
                    answer.extend(tdes_encrypt(&self.mgm_key, &WITNESS));
                    (StatusWord::Success, answer)
                } else if data.len() == 22 && data[0..4] == [0x7C, 0x14, 0x80, 0x08] {
                    let ok = self.witness_pending && data[4..12] == WITNESS;
                    self.witness_pending = false;
                    if !ok {
                        return (StatusWord::SecurityStatusNotSatisfied, Vec::new());
                    }
                    self.authenticated = true;
                    let mut answer = vec![0x7C, 0x0A, 0x82, 0x08];
                    answer.extend(tdes_encrypt(&self.mgm_key, &data[14..22]));
                    (StatusWord::Success, answer)
                } else {
                    (StatusWord::IncorrectData, Vec::new())
                }
            }
            0xCB => {
                let tag = data[2..].to_vec();
                match self.objects.get(&tag) {
                    Some(object) => {
                        let mut stored = vec![0x53];
                        if object.len() < 0x80 {
                            stored.push(object.len() as u8);
                        } else if object.len() < 0x100 {
                            stored.extend([0x81, object.len() as u8]);
                        } else {
                            stored.extend([0x82, (object.len() >> 8) as u8, object.len() as u8]);
                        }
                        stored.extend(object.iter().cloned());
                        self.pending = stored;
                        self.answer_chunk()
                    }
                    None => (StatusWord::FileNotFound, Vec::new()),
                }
            }
            0xDB => {
                self.put_buffer.extend(data);
                if apdu.cla() == 0x10 {
                    return (StatusWord::Success, Vec::new());
                }
                let field = std::mem::take(&mut self.put_buffer);
                if !self.authenticated {
                    return (StatusWord::SecurityStatusNotSatisfied, Vec::new());
                }
                let tag_len = field[1] as usize;
                let tag = field[2..2 + tag_len].to_vec();
                let rest = &field[2 + tag_len..];
                let (len, skip) = match rest[1] {
                    0x81 => (rest[2] as usize, 3),
                    0x82 => (((rest[2] as usize) << 8) | rest[3] as usize, 4),
                    n => (n as usize, 2),
                };
                self.objects.insert(tag, rest[skip..skip + len].to_vec());
                (StatusWord::Success, Vec::new())
            }
            _ => (StatusWord::InstructionNotSupported, Vec::new()),
        }
    }
}

/// A PC/SC layer over a simulated card.
struct PcscTestStub {
    connected: bool,
    readers: Vec<String>,
    card: RefCell<CardState>,
}

impl PcscTestStub {
    fn set_mock_readers(&mut self, readers: &[&str]) {
        self.readers = readers.iter().map(|&r| -> String { r.to_owned() }).collect();
    }

    /// Puts the simulated card in a given state before a test.
    fn prepare_card<F: FnOnce(&mut CardState)>(&self, f: F) {
        f(&mut self.card.borrow_mut());
    }

    fn sent_apdus(&self) -> Vec<Vec<u8>> {
        self.card.borrow().sent.clone()
    }
}

impl PcscHal for PcscTestStub {
    fn new() -> Result<Self, Error> {
        Ok(PcscTestStub {
            connected: false,
            readers: vec![DEFAULT_READER.to_owned()],
            card: RefCell::new(CardState::new()),
        })
    }

    fn list_readers(&self) -> Result<Vec<String>, Error> {
        Ok(self.readers.clone())
    }

    fn connect(&mut self, reader: Option<&str>) -> Result<(), Error> {
        let reader: &str = reader.unwrap_or(DEFAULT_READER);
        for r in self.readers.iter() {
            if r.contains(reader) {
                self.connected = true;
                let mut card = self.card.borrow_mut();
                card.authenticated = false;
                card.pin_verified = false;
                return Ok(());
            }
        }
        Err(Error::Message(format!("No reader matching '{}' found", reader)))
    }

    fn disconnect(&mut self) {
        self.connected = false;
    }

    fn send_data_impl(&self, apdu: &[u8]) -> Result<(StatusWord, Vec<u8>), Error> {
        if !self.connected {
            return Err(Error::Message("Can't send data without first being connected.".to_owned()));
        }
        let parsed = Apdu::from_bytes(apdu)?;
        let mut card = self.card.borrow_mut();
        card.sent.push(apdu.to_vec());
        Ok(card.process(&parsed))
    }

    fn begin_transaction(&self) -> Result<(), Error> {
        if !self.connected {
            return Err(Error::Message(
                "Can't begin transaction without first being connected.".to_owned(),
            ));
        }
        Ok(())
    }

    fn end_transaction(&self) -> Result<(), Error> {
        if !self.connected {
            return Err(Error::Message(
                "Can't end transaction without first being connected.".to_owned(),
            ));
        }
        Ok(())
    }
}

fn new_test_handle() -> Handle<PcscTestStub> {
    let mut handle: Handle<PcscTestStub> = Handle::new().unwrap();
    handle.get_hal_mut().set_mock_readers(&[DEFAULT_READER]);
    handle
}

#[test]
fn test_list_readers() {
    // This is a really stupid test, which essentially just verifies that
    // set_mock_readers works.
    let mut handle = new_test_handle();
    handle
        .get_hal_mut()
        .set_mock_readers(&[DEFAULT_READER, "foobar"]);

    let expected_readers = vec![DEFAULT_READER.to_owned(), "foobar".to_owned()];
    assert_eq!(expected_readers, handle.list_readers().unwrap());
}

#[test]
fn test_get_version() {
    let mut handle = new_test_handle();

    let expected = Version::new(&[1, 0, 4]).unwrap();
    handle.connect(None).unwrap();
    assert_eq!("1.0.4", expected.to_string().as_str());
    assert_eq!(expected, handle.get_version().unwrap());
}

#[test]
fn test_change_pin_success() {
    let mut handle = new_test_handle();

    handle.connect(None).unwrap();
    assert!(handle.change_pin(DEFAULT_PIN, "123").is_ok());
}

#[test]
fn test_change_pin_wrong_pin() {
    let mut handle = new_test_handle();

    handle.connect(None).unwrap();
    assert_eq!(
        "The supplied PIN/PUK is incorrect.",
        handle
            .change_pin("123", "111111")
            .err()
            .unwrap()
            .to_string()
    );
}

#[test]
fn test_change_pin_invalid_parameters() {
    let mut handle = new_test_handle();

    handle.connect(None).unwrap();
    assert_eq!(
        "Invalid existing PIN; it exceeds 8 characters".to_owned(),
        handle
            .change_pin("123456789", "123456")
            .err()
            .unwrap()
            .to_string()
    );
    assert_eq!(
        "Invalid new PIN; it exceeds 8 characters".to_owned(),
        handle
            .change_pin("123456", "123456789")
            .err()
            .unwrap()
            .to_string()
    );
}

#[test]
fn test_unblock_pin_success() {
    let mut handle = new_test_handle();

    handle.connect(None).unwrap();
    assert!(handle.unblock_pin(DEFAULT_PUK, DEFAULT_PIN).is_ok());
}

#[test]
fn test_change_puk_invalid_parameters() {
    let mut handle = new_test_handle();

    handle.connect(None).unwrap();
    assert_eq!(
        "Invalid existing PUK; it exceeds 8 characters".to_owned(),
        handle
            .change_puk("123456789", "123456")
            .err()
            .unwrap()
            .to_string()
    );
    assert_eq!(
        "Invalid new PUK; it exceeds 8 characters".to_owned(),
        handle
            .change_puk("123456", "123456789")
            .err()
            .unwrap()
            .to_string()
    );
}

#[test]
fn test_change_puk() {
    let mut handle = new_test_handle();

    handle.connect(None).unwrap();
    assert!(handle.change_puk(DEFAULT_PUK, "123").is_ok());
}

#[test]
fn test_change_puk_wrong_puk() {
    let mut handle = new_test_handle();

    handle.connect(None).unwrap();
    assert_eq!(
        "The supplied PIN/PUK is incorrect.",
        handle
            .change_puk("123", "111111")
            .err()
            .unwrap()
            .to_string()
    );
}

#[test]
fn test_reset_success() {
    let mut handle = new_test_handle();
    handle.get_hal().prepare_card(|card| {
        card.pin_tries = 0;
        card.puk_tries = 0;
    });

    handle.connect(None).unwrap();
    assert!(handle.reset().is_ok());
}

#[test]
fn test_set_retries() {
    let mut handle = new_test_handle();

    handle.connect(None).unwrap();
    assert!(handle.set_retries(DEFAULT_MGM_KEY, DEFAULT_PIN, 6, 6).is_ok());
}

#[test]
fn test_change_mgm_key() {
    let mut handle = new_test_handle();

    handle.connect(None).unwrap();
    assert!(handle
        .set_management_key(
            DEFAULT_MGM_KEY,
            "fedcba9876543210fedcba9876543210fedcba9876543210",
            false
        )
        .is_ok());
}

#[test]
fn test_change_mgm_key_wrong_key() {
    let mut handle = new_test_handle();

    handle.connect(None).unwrap();
    assert_eq!(
        "Authentication failure",
        handle
            .set_management_key(
                "fedcba9876543210fedcba9876543210fedcba9876543210",
                DEFAULT_MGM_KEY,
                false
            )
            .err()
            .unwrap()
            .to_string()
    );
}

#[test]
fn test_set_chuid() {
    let mut handle = new_test_handle();

    handle.connect(None).unwrap();
    assert!(handle.set_chuid(DEFAULT_MGM_KEY).is_ok());
}

#[test]
fn test_set_ccc() {
    let mut handle = new_test_handle();

    handle.connect(None).unwrap();
    assert!(handle.set_ccc(DEFAULT_MGM_KEY).is_ok());
}

#[test]
fn test_read_object_chuid() {
    let mut handle = new_test_handle();
    handle.get_hal().prepare_card(|card| {
        card.objects.insert(CHUID_TAG.to_vec(), vec![0x30, 0x19, 0xd4, 0xe7]);
    });

    handle.connect(None).unwrap();
    assert!(handle.read_object(Object::Chuid).is_ok());
}

#[test]
fn test_read_object_chuid_missing() {
    let mut handle = new_test_handle();

    handle.connect(None).unwrap();
    assert_eq!(
        "The specified file does not exist in the smart card.",
        handle.read_object(Object::Chuid).err().unwrap().to_string()
    );
}

#[test]
fn test_read_object_returns_stored_data() {
    let mut handle = new_test_handle();
    handle.get_hal().prepare_card(|card| {
        card.objects.insert(CHUID_TAG.to_vec(), vec![0x30, 0x19, 0xd4, 0xe7]);
    });
    handle.connect(None).unwrap();
    assert_eq!(vec![0x30, 0x19, 0xd4, 0xe7], handle.read_object(Object::Chuid).unwrap());
    let sent = handle.get_hal().sent_apdus();
    assert_eq!(
        vec![0x00, 0xCB, 0x3F, 0xFF, 0x05, 0x5C, 0x03, 0x5F, 0xC1, 0x02],
        sent[sent.len() - 1]
    );
}

#[test]
fn test_set_chuid_stores_template() {
    let mut handle = new_test_handle();
    handle.connect(None).unwrap();
    handle.set_chuid(DEFAULT_MGM_KEY).unwrap();
    let chuid = handle.read_object(Object::Chuid).unwrap();
    assert_eq!(59, chuid.len());
    assert_eq!(&[0x30, 0x19, 0xd4, 0xe7][..], &chuid[0..4]);
    assert_eq!(&[0xeb, 0x34, 0x10][..], &chuid[26..29]);
    assert_eq!(
        &[0x35, 0x08, 0x32, 0x30, 0x33, 0x30, 0x30, 0x31, 0x30, 0x31, 0x3e, 0x00, 0xfe, 0x00][..],
        &chuid[45..59]
    );
}

#[test]
fn test_set_ccc_stores_template() {
    let mut handle = new_test_handle();
    handle.connect(None).unwrap();
    handle.set_ccc(DEFAULT_MGM_KEY).unwrap();
    let ccc = handle.read_object(Object::Capability).unwrap();
    assert_eq!(51, ccc.len());
    assert_eq!(&[0xf0, 0x15, 0xa0, 0x00, 0x00, 0x01, 0x16, 0xff, 0x02][..], &ccc[0..9]);
    assert_eq!(&[0xf1, 0x01, 0x21][..], &ccc[23..26]);
}

#[test]
fn test_long_object_round_trip() {
    let mut handle = new_test_handle();
    handle.connect(None).unwrap();
    let data: Vec<u8> = (0..1000u32).map(|i| (i % 251) as u8).collect();
    handle
        .write_object(DEFAULT_MGM_KEY, Object::Authentication, &data)
        .unwrap();
    let sent = handle.get_hal().sent_apdus();
    let chained: Vec<&Vec<u8>> = sent.iter().filter(|a| a[1] == 0xDB).collect();
    assert_eq!(4, chained.len());
    assert_eq!(0x10, chained[0][0]);
    assert_eq!(0x10, chained[2][0]);
    assert_eq!(0x00, chained[3][0]);
    assert_eq!(data, handle.read_object(Object::Authentication).unwrap());
}

#[test]
fn test_write_object_too_large() {
    let mut handle = new_test_handle();
    handle.connect(None).unwrap();
    let data = vec![0u8; 3064];
    let err = handle
        .write_object(DEFAULT_MGM_KEY, Object::Printed, &data)
        .err()
        .unwrap();
    assert_eq!("Object data exceeds 3063 bytes", err.to_string());
}

#[test]
fn test_change_pin_then_verify() {
    let mut handle = new_test_handle();
    handle.connect(None).unwrap();
    handle.change_pin(DEFAULT_PIN, "654321").unwrap();
    assert!(handle.verify_pin("654321").is_ok());
    match handle.verify_pin(DEFAULT_PIN) {
        Err(Error::Status(StatusWord::IncorrectPin(2))) => {}
        other => panic!("unexpected {:?}", other),
    }
}

#[test]
fn test_pin_blocked_after_three_failures() {
    let mut handle = new_test_handle();
    handle.connect(None).unwrap();
    for _ in 0..3 {
        assert!(handle.verify_pin("000000").is_err());
    }
    match handle.verify_pin(DEFAULT_PIN) {
        Err(Error::Status(StatusWord::AuthenticationBlocked)) => {}
        other => panic!("unexpected {:?}", other),
    }
    assert!(handle.unblock_pin(DEFAULT_PUK, "1111").is_ok());
    assert!(handle.verify_pin("1111").is_ok());
}

#[test]
fn test_verify_pin_too_long_sends_nothing() {
    let mut handle = new_test_handle();
    handle.connect(None).unwrap();
    let before = handle.get_hal().sent_apdus().len();
    match handle.verify_pin("123456789") {
        Err(Error::SecretTooLong { .. }) => {}
        other => panic!("unexpected {:?}", other),
    }
    assert_eq!(before, handle.get_hal().sent_apdus().len());
}

#[test]
fn test_verify_pin_apdu() {
    let mut handle = new_test_handle();
    handle.connect(None).unwrap();
    assert!(handle.verify_pin("1234").is_err());
    let sent = handle.get_hal().sent_apdus();
    assert_eq!(
        vec![0x00, 0x20, 0x00, 0x80, 0x08, 0x31, 0x32, 0x33, 0x34, 0xFF, 0xFF, 0xFF, 0xFF],
        sent[sent.len() - 1]
    );
}

#[test]
fn test_set_retries_invalid_count() {
    let mut handle = new_test_handle();
    handle.connect(None).unwrap();
    assert_eq!(
        "Invalid retry count; it must be at least 1",
        handle
            .set_retries(DEFAULT_MGM_KEY, DEFAULT_PIN, 0, 6)
            .err()
            .unwrap()
            .to_string()
    );
}

#[test]
fn test_invalid_management_key() {
    let mut handle = new_test_handle();
    handle.connect(None).unwrap();
    assert_eq!(
        "Invalid management key; it must be 48 hexadecimal digits",
        handle.set_chuid("0102").err().unwrap().to_string()
    );
    assert!(handle
        .set_chuid("zz0203040506070801020304050607080102030405060708")
        .is_err());
}

#[test]
fn test_new_management_key_is_used() {
    let mut handle = new_test_handle();
    handle.connect(None).unwrap();
    let new_key = "FEDCBA9876543210FEDCBA9876543210FEDCBA9876543210";
    handle
        .set_management_key(DEFAULT_MGM_KEY, new_key, false)
        .unwrap();
    assert!(handle.set_chuid(new_key).is_ok());
    assert!(handle.set_chuid(DEFAULT_MGM_KEY).is_err());
}

#[test]
fn test_authentication_answers_decrypted_witness() {
    let mut handle = new_test_handle();
    handle.connect(None).unwrap();
    handle.set_ccc(DEFAULT_MGM_KEY).unwrap();
    let sent = handle.get_hal().sent_apdus();
    let second = sent
        .iter()
        .find(|a| a[1] == 0x87 && a.len() == 27)
        .unwrap();
    assert_eq!(&WITNESS[..], &second[9..17]);
    assert_eq!(
        WITNESS.to_vec(),
        tdes_decrypt(&DEFAULT_KEY_BYTES, &tdes_encrypt(&DEFAULT_KEY_BYTES, &WITNESS))
    );
}

#[test]
fn test_connect_unknown_reader() {
    let mut handle = new_test_handle();
    assert_eq!(
        "No reader matching 'foobar' found",
        handle.connect(Some("foobar")).err().unwrap().to_string()
    );
}

#[test]
fn test_reset_refused_while_pin_usable() {
    let mut handle = new_test_handle();
    handle.connect(None).unwrap();
    match handle.reset() {
        Err(Error::Status(StatusWord::ConditionsNotSatisfied)) => {}
        other => panic!("unexpected {:?}", other),
    }
}
