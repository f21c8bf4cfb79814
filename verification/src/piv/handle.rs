use vstd::prelude::*;
use vstd::string::StringSliceAdditionalSpecFns;

use crate::error::{Error, Secret};
use crate::piv::chuid::{build_ccc, build_chuid, spec_ccc, spec_chuid, CCC_ID_LEN, CHUID_GUID_LEN};
use crate::piv::command;
use crate::piv::command::{
    spec_chain, spec_change_reference, spec_get_data, spec_get_version, spec_put_data_field,
    spec_reset, spec_reset_retry_counter, spec_set_management_key,
    spec_set_retries, spec_verify_pin, INS_PUT_DATA,
};
use crate::piv::crypt::{random_bytes, tdes_decrypt_block, tdes_encrypt_block, RandomSource};
use crate::piv::event::{
    lemma_auth_run_stable, lemma_collect_run_stable, lemma_prefix_push,
    lemma_prefix_refl, lemma_prefix_trans, lemma_put_run_stable, lemma_status_run_stable,
    lemma_then_status_stable, spec_answer, spec_auth_run, spec_chained_run, spec_collect_run,
    spec_command_at, spec_connect_run, spec_finish, spec_object_run, spec_prefix, spec_put_run,
    spec_reader, spec_readers, spec_status_run, spec_then_status, spec_transaction, spec_version_run, Event,
};
use crate::piv::hal::{send_data, PcscHal};
use crate::piv::id::Object;
use crate::piv::key::{parse_management_key, spec_hex_decode, spec_hex_valid, MGM_KEY_LEN};
use crate::piv::link::Link;
use crate::piv::pin::{check_secret, spec_pad_secret, SECRET_MAX_LEN};
use crate::piv::response::{
    challenge_outcome, object_outcome, spec_vec_result, version_outcome, witness_outcome,
};
use crate::piv::sw::StatusWord;

pub use crate::piv::version::Version;

verus! {
/// The largest PIV data object that a YubiKey stores.
pub const MAX_OBJECT_LEN: usize = 3063;

/// Whether a PIN or PUK is short enough for the card.
pub open spec fn spec_secret_ok(secret: &str) -> bool {
    secret.spec_bytes().len() <= SECRET_MAX_LEN
}

/// Whether a management key is written as 48 hexadecimal digits.
pub open spec fn spec_key_ok(key: &str) -> bool {
    key.spec_bytes().len() == 2 * MGM_KEY_LEN && spec_hex_valid(key.spec_bytes())
}

/// The padded form of a PIN or PUK, as the card receives it.
pub open spec fn spec_padded(secret: &str) -> Seq<u8> {
    spec_pad_secret(secret.spec_bytes())
}

/// The 24 key bytes that a management key written in hexadecimal denotes.
pub open spec fn spec_key(key: &str) -> Seq<u8> {
    spec_hex_decode(key.spec_bytes())
}

/// The result of an operation done inside a transaction, given the result of ending the
/// transaction: the operation's error first, then the transaction's.
pub fn finish<R>(r: Result<R, Error>, end: Result<(), Error>) -> (out: Result<R, Error>)
    ensures
        r is Err ==> out == r,
        r is Ok && end is Ok ==> out == r,
        r is Ok ==> (end matches Err(e) ==> out == Err::<R, Error>(e)),
        out is Ok ==> r is Ok,
        out == spec_finish(r, end),
{
    match r {
        Err(e) => Err(e),
        Ok(v) => match end {
            Ok(()) => Ok(v),
            Err(e) => Err(e),
        },
    }
}


/// A connection to the PIV application of a smart card, over some PC/SC layer. Every call
/// into the layer goes through `link`, which records it with its result.
pub struct Handle<T: PcscHal> {
    link: Link<T>,
    random: RandomSource,
}

impl<T: PcscHal> Handle<T> {
    /// The PC/SC layer of this handle.
    pub closed spec fn spec_hal(&self) -> T {
        self.link.spec_hal()
    }

    /// Every call that this handle has made into its PC/SC layer, in order, with what the
    /// layer returned.
    pub closed spec fn spec_events(&self) -> Seq<Event> {
        self.link.spec_events()
    }

    /// Every random value that this handle has drawn for the objects it stores, in order.
    pub closed spec fn spec_draws(&self) -> Seq<Seq<u8>> {
        self.random.spec_draws()
    }

    /// Opens a handle over a new PC/SC context.
    pub fn new() -> (r: Result<Handle<T>, Error>)
        ensures
            r matches Ok(h) ==> h.spec_events() == Seq::<Event>::empty(),
    {
        match T::new() {
            Ok(hal) => Ok(Handle { link: Link::new(hal), random: RandomSource::new() }),
            Err(e) => Err(e),
        }
    }

    /// Opens a handle over the given PC/SC layer.
    pub fn new_with_hal(hal: T) -> (r: Handle<T>)
        ensures
            r.spec_hal() == hal,
            r.spec_events() == Seq::<Event>::empty(),
    {
        Handle { link: Link::new(hal), random: RandomSource::new() }
    }

    /// The PC/SC layer of this handle.
    pub fn get_hal(&self) -> (r: &T)
        ensures
            *r == self.spec_hal(),
    {
        self.link.hal()
    }

    /// Mutable access to the PC/SC layer (calls made through it are not recorded).
    pub fn get_hal_mut(&mut self) -> (r: &mut T)
        ensures
            *r == old(self).spec_hal(),
            final(self).spec_hal() == *final(r),
            final(self).spec_events() == old(self).spec_events(),
    {
        self.link.hal_mut()
    }

    /// The names of the attached readers, as the PC/SC layer lists them; the call is
    /// recorded with what it returned.
    pub fn list_readers(&mut self) -> (r: Result<Vec<String>, Error>)
        ensures
            final(self).spec_events() == old(self).spec_events().push(
                Event::ListedReaders(spec_readers(r)),
            ),
            final(self).spec_hal() == old(self).spec_hal(),
    {
        self.link.list_readers()
    }

    /// Sends one command and collects its whole response.
    fn transmit(&mut self, apdu: &[u8]) -> (r: Result<(StatusWord, Vec<u8>), Error>)
        ensures
            final(self).spec_draws() == old(self).spec_draws(),
            final(self).spec_hal() == old(self).spec_hal(),
            spec_prefix(old(self).spec_events(), final(self).spec_events()),
            spec_collect_run(apdu@, final(self).spec_events(), old(self).spec_events().len() as int)
                == Some((spec_answer(r), final(self).spec_events().len() as int)),
    {
        send_data(&mut self.link, apdu)
    }

    /// Sends one command and reduces the answer to its status.
    fn transmit_status(&mut self, apdu: &[u8]) -> (r: Result<(), Error>)
        ensures
            final(self).spec_draws() == old(self).spec_draws(),
            final(self).spec_hal() == old(self).spec_hal(),
            spec_prefix(old(self).spec_events(), final(self).spec_events()),
            spec_status_run(apdu@, final(self).spec_events(), old(self).spec_events().len() as int)
                == Some((r, final(self).spec_events().len() as int)),
    {
        match self.transmit(apdu) {
            Ok((sw, _)) => sw.to_result(),
            Err(e) => Err(e),
        }
    }

    /// Begins a transaction; on success, the record grows by that.
    fn begin(&mut self) -> (r: Result<(), Error>)
        ensures
            final(self).spec_draws() == old(self).spec_draws(),
            final(self).spec_events() == old(self).spec_events().push(Event::Began(r)),
            final(self).spec_hal() == old(self).spec_hal(),
    {
        self.link.begin()
    }

    /// Ends a transaction.
    fn end(&mut self) -> (r: Result<(), Error>)
        ensures
            final(self).spec_draws() == old(self).spec_draws(),
            final(self).spec_events() == old(self).spec_events().push(Event::Ended(r)),
            final(self).spec_hal() == old(self).spec_hal(),
    {
        self.link.end()
    }

    /// Connects to a card (in the default reader when `reader` is `None`) and selects its
    /// PIV application: the PC/SC connection to the requested reader is made, and when it
    /// succeeded, SELECT of the PIV application is sent; the result is the connection's
    /// error or the status of that answer.
    pub fn connect(&mut self, reader: Option<&str>) -> (r: Result<(), Error>)
        ensures
            spec_prefix(old(self).spec_events(), final(self).spec_events()),
            spec_connect_run(spec_reader(reader), final(self).spec_events(), old(self).spec_events().len() as int)
                == Some((r, final(self).spec_events().len() as int)),
    {
        let ghost before = self.spec_events();
        let c = self.link.connect(reader);
        proof {
            lemma_prefix_push(before, Event::Connected(spec_reader(reader), c));
        }
        match c {
            Ok(()) => {},
            Err(e) => {
                return Err(e);
            },
        }
        let ghost connected = self.spec_events();
        let apdu = command::select_application();
        let r = self.transmit_status(apdu.as_slice());
        proof {
            lemma_prefix_trans(before, connected, self.spec_events());
        }
        r
    }

    /// Drops the connection to the card.
    pub fn disconnect(&mut self)
        ensures
            final(self).spec_events() == old(self).spec_events().push(Event::Disconnected),
    {
        self.link.disconnect()
    }

    /// Sends a chained command; stops at the first APDU that the card does not accept.
    fn send_chained(&mut self, apdus: &Vec<Vec<u8>>) -> (r: Result<(StatusWord, Vec<u8>), Error>)
        requires
            apdus@.len() >= 1,
        ensures
            final(self).spec_draws() == old(self).spec_draws(),
            final(self).spec_hal() == old(self).spec_hal(),
            spec_prefix(old(self).spec_events(), final(self).spec_events()),
            spec_chained_run(
                Seq::new(apdus@.len(), |i: int| apdus@[i]@),
                final(self).spec_events(),
                old(self).spec_events().len() as int,
            ) == Some((spec_answer(r), final(self).spec_events().len() as int)),
    {
        proof {
            let all = Seq::new(apdus@.len(), |i: int| apdus@[i]@);
            assert(all.skip(0) =~= all);
        }
        self.send_chained_from(apdus, 0)
    }

    /// Sends the chained APDUs from index `i` on.
    fn send_chained_from(&mut self, apdus: &Vec<Vec<u8>>, i: usize) -> (r: Result<(StatusWord, Vec<u8>), Error>)
        requires
            i < apdus@.len(),
        ensures
            final(self).spec_draws() == old(self).spec_draws(),
            final(self).spec_hal() == old(self).spec_hal(),
            spec_prefix(old(self).spec_events(), final(self).spec_events()),
            spec_chained_run(
                Seq::new(apdus@.len(), |j: int| apdus@[j]@).skip(i as int),
                final(self).spec_events(),
                old(self).spec_events().len() as int,
            ) == Some((spec_answer(r), final(self).spec_events().len() as int)),
        decreases apdus@.len() - i,
    {
        let ghost all = Seq::new(apdus@.len(), |j: int| apdus@[j]@);
        let ghost rest = all.skip(i as int);
        let ghost before = self.spec_events();
        let answer = self.transmit(apdus[i].as_slice());
        let ghost sent = self.spec_events();
        proof {
            assert(rest[0] == apdus@[i as int]@);
            assert(rest.skip(1) =~= all.skip(i + 1));
        }
        match answer {
            Ok((sw, data)) => {
                if i == apdus.len() - 1 || !sw.is_success() {
                    Ok((sw, data))
                } else {
                    let r = self.send_chained_from(apdus, i + 1);
                    proof {
                        lemma_collect_run_stable(rest[0], sent, self.spec_events(), before.len() as int);
                        lemma_prefix_trans(before, sent, self.spec_events());
                    }
                    r
                }
            },
            Err(e) => Err(e),
        }
    }

    /// Reads the firmware version of the PIV application: GET VERSION is sent, and the
    /// result is the version in its answer, or the error that the answer gives.
    pub fn get_version(&mut self) -> (r: Result<Version, Error>)
        ensures
            final(self).spec_hal() == old(self).spec_hal(),
            spec_prefix(old(self).spec_events(), final(self).spec_events()),
            spec_version_run(spec_get_version(), final(self).spec_events(), old(self).spec_events().len() as int)
                == Some((r, final(self).spec_events().len() as int)),
    {
        let apdu = command::get_version();
        match self.transmit(apdu.as_slice()) {
            Ok((sw, data)) => version_outcome(sw, data.as_slice()),
            Err(e) => Err(e),
        }
    }

    /// Authenticates to the card with a 24-byte 3DES management key: the card sends a
    /// witness, which we decrypt and return with a random challenge of ours; the card must
    /// answer with our challenge encrypted under the same key.
    fn authenticate(&mut self, key: &[u8]) -> (r: Result<(), Error>)
        requires
            key@.len() == MGM_KEY_LEN,
        ensures
            final(self).spec_draws() == old(self).spec_draws(),
            final(self).spec_hal() == old(self).spec_hal(),
            spec_prefix(old(self).spec_events(), final(self).spec_events()),
            spec_auth_run(key@, final(self).spec_events(), old(self).spec_events().len() as int)
                == Some((r, final(self).spec_events().len() as int)),
    {
        let ghost before = self.spec_events();
        let request = command::auth_witness_request();
        let first = self.transmit(request.as_slice());
        let witness = match first {
            Ok((sw, data)) => match witness_outcome(sw, data.as_slice()) {
                Ok(w) => w,
                Err(e) => {
                    return Err(e);
                },
            },
            Err(e) => {
                return Err(e);
            },
        };
        let ghost asked = self.spec_events();
        let decrypted = tdes_decrypt_block(key, witness.as_slice());
        let challenge = random_bytes(8);
        let answer = command::auth_challenge(decrypted.as_slice(), challenge.as_slice());
        let expected = tdes_encrypt_block(key, challenge.as_slice());
        let second = self.transmit(answer.as_slice());
        proof {
            assert(answer@.skip(19) =~= challenge@);
            lemma_collect_run_stable(request@, asked, self.spec_events(), before.len() as int);
            lemma_prefix_trans(before, asked, self.spec_events());
            lemma_prefix_refl(self.spec_events());
            assert(spec_command_at(self.spec_events(), asked.len() as int) == answer@);
        }
        match second {
            Ok((sw, data)) => challenge_outcome(sw, data.as_slice(), expected.as_slice()),
            Err(e) => Err(e),
        }
    }

    fn verify_padded_pin(&mut self, pin: &[u8]) -> (r: Result<(), Error>)
        requires
            pin@.len() == SECRET_MAX_LEN,
        ensures
            final(self).spec_hal() == old(self).spec_hal(),
            spec_prefix(old(self).spec_events(), final(self).spec_events()),
            spec_status_run(spec_verify_pin(pin@), final(self).spec_events(), old(self).spec_events().len() as int)
                == Some((r, final(self).spec_events().len() as int)),
    {
        let apdu = command::verify_pin(pin);
        self.transmit_status(apdu.as_slice())
    }

    /// Verifies the PIN. A PIN longer than eight bytes is refused before the card is
    /// asked; otherwise, in a transaction, VERIFY of the padded PIN is sent, and the result
    /// is the status of its answer.
    pub fn verify_pin(&mut self, pin: &str) -> (r: Result<(), Error>)
        ensures
            final(self).spec_hal() == old(self).spec_hal(),
            !spec_secret_ok(pin) <==> r == Err::<(), Error>(
                Error::SecretTooLong { secret: Secret::Pin, existing: true },
            ) && final(self).spec_events() == old(self).spec_events(),
            spec_secret_ok(pin) ==> spec_transaction(
                old(self).spec_events(),
                final(self).spec_events(),
                (|evs: Seq<Event>, at: int| spec_status_run(spec_verify_pin(spec_padded(pin)), evs, at)),
                r,
            ),
    {
        let padded = match check_secret(pin, Secret::Pin, true) {
            Ok(p) => p,
            Err(e) => {
                return Err(e);
            },
        };
        let ghost before = self.spec_events();
        let b = self.begin();
        proof {
            lemma_prefix_push(before, Event::Began(b));
        }
        match b {
            Ok(()) => {},
            Err(e) => {
                return Err(e);
            },
        }
        let ghost began = self.spec_events();
        let inner = self.verify_padded_pin(padded.as_slice());
        let ghost body = self.spec_events();
        let end = self.end();
        proof {
            lemma_prefix_push(body, Event::Ended(end));
            lemma_prefix_trans(began, body, self.spec_events());
            lemma_prefix_trans(before, began, self.spec_events());
            lemma_status_run_stable(spec_verify_pin(padded@), body, self.spec_events(), began.len() as int);
        }
        finish(inner, end)
    }

    fn change_reference(&mut self, secret: Secret, current: &str, replacement: &str) -> (r: Result<(), Error>)
        ensures
            final(self).spec_hal() == old(self).spec_hal(),
            !spec_secret_ok(current) <==> r == Err::<(), Error>(
                Error::SecretTooLong { secret, existing: true },
            ) && final(self).spec_events() == old(self).spec_events(),
            spec_secret_ok(current) && !spec_secret_ok(replacement) <==> r == Err::<(), Error>(
                Error::SecretTooLong { secret, existing: false },
            ) && final(self).spec_events() == old(self).spec_events(),
            spec_secret_ok(current) && spec_secret_ok(replacement) ==> spec_transaction(
                old(self).spec_events(),
                final(self).spec_events(),
                (|evs: Seq<Event>, at: int| spec_status_run(
                    spec_change_reference(secret, spec_padded(current), spec_padded(replacement)),
                    evs,
                    at,
                )),
                r,
            ),
    {
        let old_padded = match check_secret(current, secret, true) {
            Ok(p) => p,
            Err(e) => {
                return Err(e);
            },
        };
        let new_padded = match check_secret(replacement, secret, false) {
            Ok(p) => p,
            Err(e) => {
                return Err(e);
            },
        };
        let ghost before = self.spec_events();
        let b = self.begin();
        proof {
            lemma_prefix_push(before, Event::Began(b));
        }
        match b {
            Ok(()) => {},
            Err(e) => {
                return Err(e);
            },
        }
        let ghost began = self.spec_events();
        let apdu = command::change_reference(secret, old_padded.as_slice(), new_padded.as_slice());
        let inner = self.transmit_status(apdu.as_slice());
        let ghost body = self.spec_events();
        let end = self.end();
        proof {
            lemma_prefix_push(body, Event::Ended(end));
            lemma_prefix_trans(began, body, self.spec_events());
            lemma_prefix_trans(before, began, self.spec_events());
            lemma_status_run_stable(apdu@, body, self.spec_events(), began.len() as int);
        }
        finish(inner, end)
    }

    /// Changes the PIN. Either PIN longer than eight bytes is refused before the card is
    /// asked, the current one first; otherwise, in a transaction, CHANGE REFERENCE DATA
    /// with both padded PINs is sent, and the result is the status of its answer.
    pub fn change_pin(&mut self, old_pin: &str, new_pin: &str) -> (r: Result<(), Error>)
        ensures
            final(self).spec_hal() == old(self).spec_hal(),
            !spec_secret_ok(old_pin) <==> r == Err::<(), Error>(
                Error::SecretTooLong { secret: Secret::Pin, existing: true },
            ) && final(self).spec_events() == old(self).spec_events(),
            spec_secret_ok(old_pin) && !spec_secret_ok(new_pin) <==> r == Err::<(), Error>(
                Error::SecretTooLong { secret: Secret::Pin, existing: false },
            ) && final(self).spec_events() == old(self).spec_events(),
            spec_secret_ok(old_pin) && spec_secret_ok(new_pin) ==> spec_transaction(
                old(self).spec_events(),
                final(self).spec_events(),
                (|evs: Seq<Event>, at: int| spec_status_run(
                    spec_change_reference(Secret::Pin, spec_padded(old_pin), spec_padded(new_pin)),
                    evs,
                    at,
                )),
                r,
            ),
    {
        self.change_reference(Secret::Pin, old_pin, new_pin)
    }

    /// Changes the PUK. Either PUK longer than eight bytes is refused before the card is
    /// asked, the current one first; otherwise, in a transaction, CHANGE REFERENCE DATA
    /// with both padded PUKs is sent, and the result is the status of its answer.
    pub fn change_puk(&mut self, old_puk: &str, new_puk: &str) -> (r: Result<(), Error>)
        ensures
            final(self).spec_hal() == old(self).spec_hal(),
            !spec_secret_ok(old_puk) <==> r == Err::<(), Error>(
                Error::SecretTooLong { secret: Secret::Puk, existing: true },
            ) && final(self).spec_events() == old(self).spec_events(),
            spec_secret_ok(old_puk) && !spec_secret_ok(new_puk) <==> r == Err::<(), Error>(
                Error::SecretTooLong { secret: Secret::Puk, existing: false },
            ) && final(self).spec_events() == old(self).spec_events(),
            spec_secret_ok(old_puk) && spec_secret_ok(new_puk) ==> spec_transaction(
                old(self).spec_events(),
                final(self).spec_events(),
                (|evs: Seq<Event>, at: int| spec_status_run(
                    spec_change_reference(Secret::Puk, spec_padded(old_puk), spec_padded(new_puk)),
                    evs,
                    at,
                )),
                r,
            ),
    {
        self.change_reference(Secret::Puk, old_puk, new_puk)
    }

    /// Unblocks the PIN with the PUK and sets a new PIN. A PUK or PIN longer than eight
    /// bytes is refused before the card is asked, the PUK first; otherwise, in a
    /// transaction, RESET RETRY COUNTER with both padded secrets is sent, and the result
    /// is the status of its answer.
    pub fn unblock_pin(&mut self, puk: &str, new_pin: &str) -> (r: Result<(), Error>)
        ensures
            final(self).spec_hal() == old(self).spec_hal(),
            !spec_secret_ok(puk) <==> r == Err::<(), Error>(
                Error::SecretTooLong { secret: Secret::Puk, existing: true },
            ) && final(self).spec_events() == old(self).spec_events(),
            spec_secret_ok(puk) && !spec_secret_ok(new_pin) <==> r == Err::<(), Error>(
                Error::SecretTooLong { secret: Secret::Pin, existing: false },
            ) && final(self).spec_events() == old(self).spec_events(),
            spec_secret_ok(puk) && spec_secret_ok(new_pin) ==> spec_transaction(
                old(self).spec_events(),
                final(self).spec_events(),
                (|evs: Seq<Event>, at: int| spec_status_run(
                    spec_reset_retry_counter(spec_padded(puk), spec_padded(new_pin)),
                    evs,
                    at,
                )),
                r,
            ),
    {
        let puk_padded = match check_secret(puk, Secret::Puk, true) {
            Ok(p) => p,
            Err(e) => {
                return Err(e);
            },
        };
        let pin_padded = match check_secret(new_pin, Secret::Pin, false) {
            Ok(p) => p,
            Err(e) => {
                return Err(e);
            },
        };
        let ghost before = self.spec_events();
        let b = self.begin();
        proof {
            lemma_prefix_push(before, Event::Began(b));
        }
        match b {
            Ok(()) => {},
            Err(e) => {
                return Err(e);
            },
        }
        let ghost began = self.spec_events();
        let apdu = command::reset_retry_counter(puk_padded.as_slice(), pin_padded.as_slice());
        let inner = self.transmit_status(apdu.as_slice());
        let ghost body = self.spec_events();
        let end = self.end();
        proof {
            lemma_prefix_push(body, Event::Ended(end));
            lemma_prefix_trans(began, body, self.spec_events());
            lemma_prefix_trans(before, began, self.spec_events());
            lemma_status_run_stable(apdu@, body, self.spec_events(), began.len() as int);
        }
        finish(inner, end)
    }

    /// Erases the PIV application (the card accepts this only once the PIN and the PUK
    /// are both blocked): in a transaction, RESET is sent, and the result is the status of
    /// its answer.
    pub fn reset(&mut self) -> (r: Result<(), Error>)
        ensures
            final(self).spec_hal() == old(self).spec_hal(),
            spec_transaction(
                old(self).spec_events(),
                final(self).spec_events(),
                (|evs: Seq<Event>, at: int| spec_status_run(spec_reset(), evs, at)),
                r,
            ),
    {
        let ghost before = self.spec_events();
        let b = self.begin();
        proof {
            lemma_prefix_push(before, Event::Began(b));
        }
        match b {
            Ok(()) => {},
            Err(e) => {
                return Err(e);
            },
        }
        let ghost began = self.spec_events();
        let apdu = command::reset();
        let inner = self.transmit_status(apdu.as_slice());
        let ghost body = self.spec_events();
        let end = self.end();
        proof {
            lemma_prefix_push(body, Event::Ended(end));
            lemma_prefix_trans(began, body, self.spec_events());
            lemma_prefix_trans(before, began, self.spec_events());
            lemma_status_run_stable(apdu@, body, self.spec_events(), began.len() as int);
        }
        finish(inner, end)
    }

    /// Reads a data object: in a transaction, GET DATA of the object is sent, and the
    /// result is the object's data in its answer, or the error that the answer gives (an
    /// object that the card does not hold gives its "file not found" status).
    pub fn read_object(&mut self, object: Object) -> (r: Result<Vec<u8>, Error>)
        ensures
            final(self).spec_hal() == old(self).spec_hal(),
            spec_transaction(
                old(self).spec_events(),
                final(self).spec_events(),
                (|evs: Seq<Event>, at: int| spec_object_run(spec_get_data(object), evs, at)),
                spec_vec_result(r),
            ),
    {
        let ghost before = self.spec_events();
        let b = self.begin();
        proof {
            lemma_prefix_push(before, Event::Began(b));
        }
        match b {
            Ok(()) => {},
            Err(e) => {
                return Err(e);
            },
        }
        let ghost began = self.spec_events();
        let apdu = command::get_data(object);
        let inner = match self.transmit(apdu.as_slice()) {
            Ok((sw, data)) => object_outcome(sw, data.as_slice()),
            Err(e) => Err(e),
        };
        let ghost body = self.spec_events();
        let end = self.end();
        proof {
            lemma_prefix_push(body, Event::Ended(end));
            lemma_prefix_trans(began, body, self.spec_events());
            lemma_prefix_trans(before, began, self.spec_events());
            lemma_collect_run_stable(apdu@, body, self.spec_events(), began.len() as int);
        }
        let out = finish(inner, end);
        proof {
            assert(spec_vec_result(out) == spec_finish(spec_vec_result(inner), end));
        }
        out
    }


    /// Sets the number of attempts of the PIN and of the PUK (which resets both to their
    /// defaults). A malformed key, a PIN longer than eight bytes or a count of zero is
    /// refused before the card is asked, in that order; otherwise, in a transaction, the
    /// handle authenticates with the key, then VERIFY of the padded PIN is sent, then SET
    /// PIN RETRIES, each only when everything before it succeeded.
    pub fn set_retries(&mut self, mgm_key: &str, pin: &str, pin_retries: u8, puk_retries: u8) -> (r:
        Result<(), Error>)
        ensures
            final(self).spec_hal() == old(self).spec_hal(),
            !spec_key_ok(mgm_key) <==> r == Err::<(), Error>(Error::InvalidManagementKey)
                && final(self).spec_events() == old(self).spec_events(),
            spec_key_ok(mgm_key) && !spec_secret_ok(pin) <==> r == Err::<(), Error>(
                Error::SecretTooLong { secret: Secret::Pin, existing: true },
            ) && final(self).spec_events() == old(self).spec_events(),
            spec_key_ok(mgm_key) && spec_secret_ok(pin) && (pin_retries == 0 || puk_retries == 0)
                <==> r == Err::<(), Error>(Error::InvalidRetryCount) && final(self).spec_events()
                == old(self).spec_events(),
            spec_key_ok(mgm_key) && spec_secret_ok(pin) && pin_retries > 0 && puk_retries > 0
                ==> spec_transaction(
                old(self).spec_events(),
                final(self).spec_events(),
                (|evs: Seq<Event>, at: int| spec_then_status(
                    spec_then_status(
                        spec_auth_run(spec_key(mgm_key), evs, at),
                        spec_verify_pin(spec_padded(pin)),
                        evs,
                    ),
                    spec_set_retries(pin_retries, puk_retries),
                    evs,
                )),
                r,
            ),
    {
        let key = match parse_management_key(mgm_key) {
            Ok(k) => k,
            Err(e) => {
                return Err(e);
            },
        };
        let padded = match check_secret(pin, Secret::Pin, true) {
            Ok(p) => p,
            Err(e) => {
                return Err(e);
            },
        };
        if pin_retries == 0 || puk_retries == 0 {
            return Err(Error::InvalidRetryCount);
        }
        let ghost before = self.spec_events();
        let b = self.begin();
        proof {
            lemma_prefix_push(before, Event::Began(b));
        }
        match b {
            Ok(()) => {},
            Err(e) => {
                return Err(e);
            },
        }
        let ghost began = self.spec_events();
        let ghost n = began.len() as int;
        let ghost verify = spec_verify_pin(padded@);
        let ghost retries = spec_set_retries(pin_retries, puk_retries);
        let auth = self.authenticate(key.as_slice());
        let ghost authed = self.spec_events();
        proof {
            lemma_prefix_refl(authed);
        }
        let inner = match auth {
            Ok(()) => {
                let verified = self.verify_padded_pin(padded.as_slice());
                let ghost checked = self.spec_events();
                proof {
                    lemma_auth_run_stable(key@, authed, checked, n);
                }
                match verified {
                    Ok(()) => {
                        let apdu = command::set_retries(pin_retries, puk_retries);
                        let r = self.transmit_status(apdu.as_slice());
                        proof {
                            lemma_prefix_trans(authed, checked, self.spec_events());
                            lemma_auth_run_stable(key@, authed, self.spec_events(), n);
                            lemma_status_run_stable(verify, checked, self.spec_events(), authed.len() as int);
                        }
                        r
                    },
                    Err(e) => Err(e),
                }
            },
            Err(e) => Err(e),
        };
        let ghost body = self.spec_events();
        let end = self.end();
        proof {
            lemma_prefix_push(body, Event::Ended(end));
            lemma_prefix_trans(began, authed, body);
            lemma_prefix_trans(began, body, self.spec_events());
            lemma_prefix_trans(before, began, self.spec_events());
            let first = spec_auth_run(key@, body, n);
            lemma_auth_run_stable(key@, body, self.spec_events(), n);
            lemma_then_status_stable(first, verify, body, self.spec_events());
            lemma_then_status_stable(spec_then_status(first, verify, body), retries, body, self.spec_events());
        }
        finish(inner, end)
    }

    /// Replaces the management key; with `require_touch`, the card will ask for a touch
    /// whenever the new key is used. A malformed key is refused before the card is asked,
    /// the current one first; otherwise, in a transaction, the handle authenticates with
    /// the current key, and when that succeeded, SET MANAGEMENT KEY with the new key is
    /// sent.
    pub fn set_management_key(&mut self, old_key: &str, new_key: &str, require_touch: bool) -> (r:
        Result<(), Error>)
        ensures
            final(self).spec_hal() == old(self).spec_hal(),
            !(spec_key_ok(old_key) && spec_key_ok(new_key)) <==> r == Err::<(), Error>(
                Error::InvalidManagementKey,
            ) && final(self).spec_events() == old(self).spec_events(),
            spec_key_ok(old_key) && spec_key_ok(new_key) ==> spec_transaction(
                old(self).spec_events(),
                final(self).spec_events(),
                (|evs: Seq<Event>, at: int| spec_then_status(
                    spec_auth_run(spec_key(old_key), evs, at),
                    spec_set_management_key(spec_key(new_key), require_touch),
                    evs,
                )),
                r,
            ),
    {
        let current = match parse_management_key(old_key) {
            Ok(k) => k,
            Err(e) => {
                return Err(e);
            },
        };
        let replacement = match parse_management_key(new_key) {
            Ok(k) => k,
            Err(e) => {
                return Err(e);
            },
        };
        let ghost before = self.spec_events();
        let b = self.begin();
        proof {
            lemma_prefix_push(before, Event::Began(b));
        }
        match b {
            Ok(()) => {},
            Err(e) => {
                return Err(e);
            },
        }
        let ghost began = self.spec_events();
        let ghost n = began.len() as int;
        let ghost replace = spec_set_management_key(replacement@, require_touch);
        let auth = self.authenticate(current.as_slice());
        let ghost authed = self.spec_events();
        proof {
            lemma_prefix_refl(authed);
        }
        let inner = match auth {
            Ok(()) => {
                let apdu = command::set_management_key(replacement.as_slice(), require_touch);
                let r = self.transmit_status(apdu.as_slice());
                proof {
                    lemma_auth_run_stable(current@, authed, self.spec_events(), n);
                }
                r
            },
            Err(e) => Err(e),
        };
        let ghost body = self.spec_events();
        let end = self.end();
        proof {
            lemma_prefix_push(body, Event::Ended(end));
            lemma_prefix_trans(began, authed, body);
            lemma_prefix_trans(began, body, self.spec_events());
            lemma_prefix_trans(before, began, self.spec_events());
            lemma_auth_run_stable(current@, body, self.spec_events(), n);
            lemma_then_status_stable(spec_auth_run(current@, body, n), replace, body, self.spec_events());
        }
        finish(inner, end)
    }

    /// Authenticates with `key`, and when that succeeded, sends PUT DATA of `object`
    /// holding `data`, chained.
    fn write_object_authenticated(&mut self, key: &[u8], object: Object, data: &[u8]) -> (r:
        Result<(), Error>)
        requires
            key@.len() == MGM_KEY_LEN,
            data@.len() <= MAX_OBJECT_LEN,
        ensures
            final(self).spec_draws() == old(self).spec_draws(),
            final(self).spec_hal() == old(self).spec_hal(),
            spec_prefix(old(self).spec_events(), final(self).spec_events()),
            spec_put_run(
                key@,
                spec_chain(INS_PUT_DATA, 0x3F, 0xFF, spec_put_data_field(object, data@)),
                final(self).spec_events(),
                old(self).spec_events().len() as int,
            ) == Some((r, final(self).spec_events().len() as int)),
    {
        let ghost n = old(self).spec_events().len() as int;
        match self.authenticate(key) {
            Ok(()) => {},
            Err(e) => {
                return Err(e);
            },
        }
        let ghost auth_events = self.spec_events();
        let field = command::put_data_field(object, data);
        let apdus = command::chain(INS_PUT_DATA, 0x3F, 0xFF, field.as_slice());
        proof {
            command::lemma_chain_shape(INS_PUT_DATA, 0x3F, 0xFF, field@);
        }
        let sent = self.send_chained(&apdus);
        proof {
            assert(Seq::new(apdus@.len(), |i: int| apdus@[i]@) =~= spec_chain(
                INS_PUT_DATA,
                0x3F,
                0xFF,
                field@,
            ));
            lemma_auth_run_stable(key@, auth_events, self.spec_events(), n);
            lemma_prefix_trans(old(self).spec_events(), auth_events, self.spec_events());
        }
        match sent {
            Ok((sw, _)) => sw.to_result(),
            Err(e) => Err(e),
        }
    }

    /// Stores a data object. A malformed key, or data larger than an object may hold, is
    /// refused before the card is asked, the key first; otherwise, in a transaction, the
    /// handle authenticates with the key, and when that succeeded, PUT DATA of the object
    /// is sent, chained, and the result is the status of the last answer.
    pub fn write_object(&mut self, mgm_key: &str, object: Object, data: &[u8]) -> (r: Result<
        (),
        Error,
    >)
        ensures
            final(self).spec_draws() == old(self).spec_draws(),
            final(self).spec_hal() == old(self).spec_hal(),
            !spec_key_ok(mgm_key) <==> r == Err::<(), Error>(Error::InvalidManagementKey)
                && final(self).spec_events() == old(self).spec_events(),
            spec_key_ok(mgm_key) && data@.len() > MAX_OBJECT_LEN <==> r == Err::<(), Error>(
                Error::ObjectTooLarge,
            ) && final(self).spec_events() == old(self).spec_events(),
            spec_key_ok(mgm_key) && data@.len() <= MAX_OBJECT_LEN ==> spec_transaction(
                old(self).spec_events(),
                final(self).spec_events(),
                (|evs: Seq<Event>, at: int| spec_put_run(
                    spec_key(mgm_key),
                    spec_chain(INS_PUT_DATA, 0x3F, 0xFF, spec_put_data_field(object, data@)),
                    evs,
                    at,
                )),
                r,
            ),
    {
        let key = match parse_management_key(mgm_key) {
            Ok(k) => k,
            Err(e) => {
                return Err(e);
            },
        };
        if data.len() > MAX_OBJECT_LEN {
            return Err(Error::ObjectTooLarge);
        }
        let ghost before = self.spec_events();
        let b = self.begin();
        proof {
            lemma_prefix_push(before, Event::Began(b));
        }
        match b {
            Ok(()) => {},
            Err(e) => {
                return Err(e);
            },
        }
        let ghost began = self.spec_events();
        let inner = self.write_object_authenticated(key.as_slice(), object, data);
        let ghost body = self.spec_events();
        let end = self.end();
        proof {
            lemma_prefix_push(body, Event::Ended(end));
            lemma_prefix_trans(began, body, self.spec_events());
            lemma_prefix_trans(before, began, self.spec_events());
            lemma_put_run_stable(
                key@,
                spec_chain(INS_PUT_DATA, 0x3F, 0xFF, spec_put_data_field(object, data@)),
                body,
                self.spec_events(),
                began.len() as int,
            );
        }
        finish(inner, end)
    }

    /// Stores a fresh CHUID with a random GUID, as `write_object` does: a malformed key is
    /// refused before the card is asked; otherwise the CHUID holds the 16 bytes drawn from
    /// the random source during this call (its one draw), and the card is asked as
    /// `write_object` asks it.
    pub fn set_chuid(&mut self, mgm_key: &str) -> (r: Result<(), Error>)
        ensures
            final(self).spec_hal() == old(self).spec_hal(),
            !spec_key_ok(mgm_key) <==> r == Err::<(), Error>(Error::InvalidManagementKey)
                && final(self).spec_events() == old(self).spec_events(),
            spec_key_ok(mgm_key) ==> exists|guid: Seq<u8>|
                #![trigger spec_chuid(guid)]
                guid.len() == CHUID_GUID_LEN && spec_transaction(
                    old(self).spec_events(),
                    final(self).spec_events(),
                    (|evs: Seq<Event>, at: int| spec_put_run(
                        spec_key(mgm_key),
                        spec_chain(
                            INS_PUT_DATA,
                            0x3F,
                            0xFF,
                            spec_put_data_field(Object::Chuid, spec_chuid(guid)),
                        ),
                        evs,
                        at,
                    )),
                    r,
                ),
            final(self).spec_draws() == old(self).spec_draws().push(final(self).spec_draws().last()),
            final(self).spec_draws().last().len() == CHUID_GUID_LEN,
            spec_key_ok(mgm_key) ==> spec_transaction(
                old(self).spec_events(),
                final(self).spec_events(),
                (|evs: Seq<Event>, at: int| spec_put_run(
                    spec_key(mgm_key),
                    spec_chain(
                        INS_PUT_DATA,
                        0x3F,
                        0xFF,
                        spec_put_data_field(Object::Chuid, spec_chuid(final(self).spec_draws().last())),
                    ),
                    evs,
                    at,
                )),
                r,
            ),
    {
        let guid = self.random.draw(CHUID_GUID_LEN);
        let chuid = build_chuid(guid.as_slice());
        let r = self.write_object(mgm_key, Object::Chuid, chuid.as_slice());
        proof {
            assert(chuid@ == spec_chuid(guid@));
        }
        r
    }

    /// Stores a fresh CCC with a random card identifier, as `write_object` does: a
    /// malformed key is refused before the card is asked; otherwise the CCC holds the 14
    /// bytes drawn from the random source during this call (its one draw), and the card is
    /// asked as `write_object` asks it.
    pub fn set_ccc(&mut self, mgm_key: &str) -> (r: Result<(), Error>)
        ensures
            final(self).spec_hal() == old(self).spec_hal(),
            !spec_key_ok(mgm_key) <==> r == Err::<(), Error>(Error::InvalidManagementKey)
                && final(self).spec_events() == old(self).spec_events(),
            spec_key_ok(mgm_key) ==> exists|id: Seq<u8>|
                #![trigger spec_ccc(id)]
                id.len() == CCC_ID_LEN && spec_transaction(
                    old(self).spec_events(),
                    final(self).spec_events(),
                    (|evs: Seq<Event>, at: int| spec_put_run(
                        spec_key(mgm_key),
                        spec_chain(
                            INS_PUT_DATA,
                            0x3F,
                            0xFF,
                            spec_put_data_field(Object::Capability, spec_ccc(id)),
                        ),
                        evs,
                        at,
                    )),
                    r,
                ),
            final(self).spec_draws() == old(self).spec_draws().push(final(self).spec_draws().last()),
            final(self).spec_draws().last().len() == CCC_ID_LEN,
            spec_key_ok(mgm_key) ==> spec_transaction(
                old(self).spec_events(),
                final(self).spec_events(),
                (|evs: Seq<Event>, at: int| spec_put_run(
                    spec_key(mgm_key),
                    spec_chain(
                        INS_PUT_DATA,
                        0x3F,
                        0xFF,
                        spec_put_data_field(Object::Capability, spec_ccc(final(self).spec_draws().last())),
                    ),
                    evs,
                    at,
                )),
                r,
            ),
    {
        let id = self.random.draw(CCC_ID_LEN);
        let ccc = build_ccc(id.as_slice());
        let r = self.write_object(mgm_key, Object::Capability, ccc.as_slice());
        proof {
            assert(ccc@ == spec_ccc(id@));
        }
        r
    }
}

} // verus!
