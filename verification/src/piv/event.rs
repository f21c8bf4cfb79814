use vstd::prelude::*;

use crate::error::Error;
use crate::piv::command::{
    lemma_select_application_bytes, spec_auth_challenge, spec_auth_witness_request, spec_get_response,
    spec_select_application,
};
use crate::piv::crypt::{spec_tdes_decrypt, spec_tdes_encrypt};
use crate::piv::hal::MAX_GET_RESPONSE_ROUNDS;
use crate::piv::response::{
    spec_challenge_outcome, spec_object_outcome, spec_version_outcome, spec_witness_outcome,
};
use crate::piv::sw::StatusWord;
use crate::piv::version::Version;

verus! {

/// What the PC/SC layer answered to one APDU: the status word and the data, or an error.
pub type Answer = Result<(StatusWord, Seq<u8>), Error>;

/// One call into the PC/SC layer, with what it returned. Only `piv::link::Link`, which
/// makes the calls, records these.
pub enum Event {
    /// `PcscHal::list_readers`, and the names it returned.
    ListedReaders(Result<Seq<Seq<char>>, Error>),
    /// `PcscHal::connect` with the requested reader, and its result.
    Connected(Option<Seq<char>>, Result<(), Error>),
    /// `PcscHal::disconnect`.
    Disconnected,
    /// `PcscHal::begin_transaction`, and its result.
    Began(Result<(), Error>),
    /// `PcscHal::send_data_impl` with one APDU, and its answer.
    Exchanged(Seq<u8>, Answer),
    /// `PcscHal::end_transaction`, and its result.
    Ended(Result<(), Error>),
}

/// The requested reader's name, if one was requested.
pub open spec fn spec_reader(reader: Option<&str>) -> Option<Seq<char>> {
    match reader {
        Some(s) => Some(s@),
        None => None,
    }
}

/// A list of reader names, each taken by its view.
pub open spec fn spec_readers(r: Result<Vec<String>, Error>) -> Result<Seq<Seq<char>>, Error> {
    match r {
        Ok(names) => Ok(names@.map_values(|name: String| name@)),
        Err(e) => Err(e),
    }
}

/// An answer with its data taken by its view.
pub open spec fn spec_answer(r: Result<(StatusWord, Vec<u8>), Error>) -> Answer {
    match r {
        Ok((sw, d)) => Ok((sw, d@)),
        Err(e) => Err(e),
    }
}

/// What an answer means for a command that only reports a status.
pub open spec fn spec_status_of(a: Answer) -> Result<(), Error> {
    match a {
        Ok((sw, _)) => if sw == StatusWord::Success {
            Ok(())
        } else {
            Err(Error::Status(sw))
        },
        Err(e) => Err(e),
    }
}

/// The result of an operation done inside a transaction, given how the transaction ended.
pub open spec fn spec_finish<R>(inner: Result<R, Error>, end: Result<(), Error>) -> Result<R, Error> {
    match inner {
        Err(e) => Err(e),
        Ok(v) => match end {
            Ok(()) => Ok(v),
            Err(e) => Err(e),
        },
    }
}

/// `after` begins with `before`.
pub open spec fn spec_prefix(before: Seq<Event>, after: Seq<Event>) -> bool {
    before.len() <= after.len() && after.subrange(0, before.len() as int) == before
}

/// Every log begins with itself.
pub proof fn lemma_prefix_refl(log: Seq<Event>)
    ensures
        spec_prefix(log, log),
{
    assert(log.subrange(0, log.len() as int) =~= log);
}

/// A log begins with what it extends.
pub proof fn lemma_prefix_push(before: Seq<Event>, e: Event)
    ensures
        spec_prefix(before, before.push(e)),
{
    assert(before.push(e).subrange(0, before.len() as int) =~= before);
}

/// Beginning with a log is transitive, and a longer log agrees with a shorter one on the
/// shorter one's positions.
pub proof fn lemma_prefix_trans(a: Seq<Event>, b: Seq<Event>, c: Seq<Event>)
    requires
        spec_prefix(a, b),
        spec_prefix(b, c),
    ensures
        spec_prefix(a, c),
        forall|i: int| 0 <= i < b.len() ==> c[i] == b[i],
{
    assert forall|i: int| 0 <= i < b.len() implies c[i] == b[i] by {
        assert(c.subrange(0, b.len() as int)[i] == c[i]);
    }
    assert(c.subrange(0, a.len() as int) =~= a) by {
        assert forall|i: int| 0 <= i < a.len() implies c.subrange(0, a.len() as int)[i] == a[i] by {
            assert(b.subrange(0, a.len() as int)[i] == b[i]);
        }
    }
}

/// Collecting a response whose status so far is `sw`, after `rounds` GET RESPONSE
/// commands, with the data `data` so far: while the card announces more data and fewer
/// than the maximum rounds were made, GET RESPONSE is exchanged at `at` and its data is
/// appended. Gives the collected answer and the position after it.
pub open spec fn spec_collect_from(sw: StatusWord, data: Seq<u8>, rounds: nat, evs: Seq<Event>, at: int) -> Option<
    (Answer, int),
>
    decreases MAX_GET_RESPONSE_ROUNDS - rounds,
{
    if rounds < MAX_GET_RESPONSE_ROUNDS && sw is BytesRemaining {
        if 0 <= at < evs.len() {
            match evs[at] {
                Event::Exchanged(c, a) => if c != spec_get_response() {
                    None
                } else {
                    match a {
                        Err(e) => Some((Err(e), at + 1)),
                        Ok((next, more)) => spec_collect_from(next, data + more, rounds + 1, evs, at + 1),
                    }
                },
                _ => None,
            }
        } else {
            None
        }
    } else if sw is BytesRemaining {
        Some((Err(Error::InvalidResponse), at))
    } else {
        Some((Ok((sw, data)), at))
    }
}

/// `send_data` of the command `cmd` from position `at`: the command is exchanged, then
/// its response is collected.
pub open spec fn spec_collect_run(cmd: Seq<u8>, evs: Seq<Event>, at: int) -> Option<(Answer, int)> {
    if 0 <= at < evs.len() {
        match evs[at] {
            Event::Exchanged(c, a) => if c != cmd {
                None
            } else {
                match a {
                    Err(e) => Some((Err(e), at + 1)),
                    Ok((sw, d)) => spec_collect_from(sw, d, 0, evs, at + 1),
                }
            },
            _ => None,
        }
    } else {
        None
    }
}

/// The command that the exchange at position `at` carried.
pub open spec fn spec_command_at(evs: Seq<Event>, at: int) -> Seq<u8> {
    match evs[at] {
        Event::Exchanged(c, _) => c,
        _ => Seq::empty(),
    }
}

/// The command `cmd` is sent from position `at`; its answer decides a status.
pub open spec fn spec_status_run(cmd: Seq<u8>, evs: Seq<Event>, at: int) -> Option<(Result<(), Error>, int)> {
    match spec_collect_run(cmd, evs, at) {
        Some((a, k)) => Some((spec_status_of(a), k)),
        None => None,
    }
}

/// GET VERSION is sent from position `at`; its answer gives the version.
pub open spec fn spec_version_run(cmd: Seq<u8>, evs: Seq<Event>, at: int) -> Option<(Result<Version, Error>, int)> {
    match spec_collect_run(cmd, evs, at) {
        Some((Ok((sw, d)), k)) => Some((spec_version_outcome(sw, d), k)),
        Some((Err(e), k)) => Some((Err(e), k)),
        None => None,
    }
}

/// GET DATA `cmd` is sent from position `at`; its answer gives the object's data.
pub open spec fn spec_object_run(cmd: Seq<u8>, evs: Seq<Event>, at: int) -> Option<(Result<Seq<u8>, Error>, int)> {
    match spec_collect_run(cmd, evs, at) {
        Some((Ok((sw, d)), k)) => Some((spec_object_outcome(sw, d), k)),
        Some((Err(e), k)) => Some((Err(e), k)),
        None => None,
    }
}

/// Connecting from position `at`: the PC/SC connection to `reader`, then (when it was
/// made) the selection of the PIV application.
pub open spec fn spec_connect_run(reader: Option<Seq<char>>, evs: Seq<Event>, at: int) -> Option<
    (Result<(), Error>, int),
> {
    if 0 <= at < evs.len() {
        match evs[at] {
            Event::Connected(name, Err(e)) => if name == reader {
                Some((Err(e), at + 1))
            } else {
                None
            },
            Event::Connected(name, Ok(())) => if name == reader {
                spec_status_run(spec_select_application(), evs, at + 1)
            } else {
                None
            },
            _ => None,
        }
    } else {
        None
    }
}

/// A status run that happens only when `first` succeeded.
pub open spec fn spec_then_status(first: Option<(Result<(), Error>, int)>, cmd: Seq<u8>, evs: Seq<Event>) -> Option<
    (Result<(), Error>, int),
> {
    match first {
        Some((Ok(()), k)) => spec_status_run(cmd, evs, k),
        other => other,
    }
}

/// Authentication with the management key `key` from position `at`: the witness request;
/// then, when the card sent a witness, a command with the witness decrypted under the key
/// and a challenge, whose answer must be the challenge encrypted under the key.
pub open spec fn spec_auth_run(key: Seq<u8>, evs: Seq<Event>, at: int) -> Option<(Result<(), Error>, int)> {
    match spec_collect_run(spec_auth_witness_request(), evs, at) {
        Some((Err(e), k)) => Some((Err(e), k)),
        Some((Ok((sw, d)), k)) => match spec_witness_outcome(sw, d) {
            Err(e) => Some((Err(e), k)),
            Ok(w) => if 0 <= k < evs.len() {
                let c2 = spec_command_at(evs, k);
                let challenge = c2.skip(19);
                if c2.len() == 27 && c2 == spec_auth_challenge(spec_tdes_decrypt(key, w), challenge) {
                    match spec_collect_run(c2, evs, k) {
                        Some((Ok((sw2, d2)), j)) => Some(
                            (spec_challenge_outcome(sw2, d2, spec_tdes_encrypt(key, challenge)), j),
                        ),
                        Some((Err(e), j)) => Some((Err(e), j)),
                        None => None,
                    }
                } else {
                    None
                }
            } else {
                None
            },
        },
        None => None,
    }
}

/// The APDUs of a chained command sent from position `at`, each after the card accepted
/// the one before; gives the last answer.
pub open spec fn spec_chained_run(apdus: Seq<Seq<u8>>, evs: Seq<Event>, at: int) -> Option<(Answer, int)>
    decreases apdus.len(),
{
    if apdus.len() == 0 {
        None
    } else {
        match spec_collect_run(apdus[0], evs, at) {
            Some((Ok((sw, d)), k)) => if apdus.len() == 1 || sw != StatusWord::Success {
                Some((Ok((sw, d)), k))
            } else {
                spec_chained_run(apdus.skip(1), evs, k)
            },
            Some((Err(e), k)) => Some((Err(e), k)),
            None => None,
        }
    }
}

/// Authentication with `key`, then (when it succeeded) the chained command `apdus`.
pub open spec fn spec_put_run(key: Seq<u8>, apdus: Seq<Seq<u8>>, evs: Seq<Event>, at: int) -> Option<
    (Result<(), Error>, int),
> {
    match spec_auth_run(key, evs, at) {
        Some((Ok(()), k)) => match spec_chained_run(apdus, evs, k) {
            Some((a, j)) => Some((spec_status_of(a), j)),
            None => None,
        },
        other => other,
    }
}

/// `after` extends `before` by an operation run inside a transaction: beginning the
/// transaction failed, and `r` is that error; or it began, the operation's calls (`body`,
/// from the position where they start) gave some result, the transaction ended, and `r`
/// is the operation's result finished with the end's.
pub open spec fn spec_transaction<R>(
    before: Seq<Event>,
    after: Seq<Event>,
    body: spec_fn(Seq<Event>, int) -> Option<(Result<R, Error>, int)>,
    r: Result<R, Error>,
) -> bool {
    let n = before.len() as int;
    &&& spec_prefix(before, after)
    &&& n < after.len()
    &&& match after[n] {
        Event::Began(Err(e)) => after.len() == n + 1 && r == Err::<R, Error>(e),
        Event::Began(Ok(())) => match body(after, n + 1) {
            Some((inner, k)) => after.len() == k + 1 && match after[k] {
                Event::Ended(end) => r == spec_finish(inner, end),
                _ => false,
            },
            None => false,
        },
        _ => false,
    }
}

/// A collected answer never announces more data.
pub proof fn lemma_collect_from_never_remaining(sw: StatusWord, data: Seq<u8>, rounds: nat, evs: Seq<Event>, at: int)
    ensures
        spec_collect_from(sw, data, rounds, evs, at) matches Some((Ok((s, _)), _)) ==> !(s is BytesRemaining),
    decreases MAX_GET_RESPONSE_ROUNDS - rounds,
{
    if rounds < MAX_GET_RESPONSE_ROUNDS && sw is BytesRemaining && 0 <= at < evs.len() {
        match evs[at] {
            Event::Exchanged(c, Ok((next, more))) => {
                lemma_collect_from_never_remaining(next, data + more, rounds + 1, evs, at + 1);
            },
            _ => {},
        }
    }
}

/// What a collection found stays found when more calls follow.
pub proof fn lemma_collect_from_stable(
    sw: StatusWord,
    data: Seq<u8>,
    rounds: nat,
    e1: Seq<Event>,
    e2: Seq<Event>,
    at: int,
)
    requires
        spec_prefix(e1, e2),
        0 <= at <= e1.len(),
        spec_collect_from(sw, data, rounds, e1, at) is Some,
    ensures
        spec_collect_from(sw, data, rounds, e2, at) == spec_collect_from(sw, data, rounds, e1, at),
        spec_collect_from(sw, data, rounds, e1, at) matches Some((_, k)) ==> at <= k <= e1.len(),
    decreases MAX_GET_RESPONSE_ROUNDS - rounds,
{
    lemma_prefix_refl(e2);
    lemma_prefix_trans(e1, e2, e2);
    if rounds < MAX_GET_RESPONSE_ROUNDS && sw is BytesRemaining {
        assert(e2[at] == e1[at]);
        match e1[at] {
            Event::Exchanged(c, a) => {
                match a {
                    Ok((next, more)) => {
                        lemma_collect_from_stable(next, data + more, rounds + 1, e1, e2, at + 1);
                    },
                    Err(_) => {},
                }
            },
            _ => {},
        }
    }
}

/// What a `send_data` run found stays found when more calls follow.
pub proof fn lemma_collect_run_stable(cmd: Seq<u8>, e1: Seq<Event>, e2: Seq<Event>, at: int)
    requires
        spec_prefix(e1, e2),
        spec_collect_run(cmd, e1, at) is Some,
    ensures
        spec_collect_run(cmd, e2, at) == spec_collect_run(cmd, e1, at),
        spec_collect_run(cmd, e1, at) matches Some((_, k)) ==> at < k <= e1.len(),
{
    lemma_prefix_refl(e2);
    lemma_prefix_trans(e1, e2, e2);
    assert(e2[at] == e1[at]);
    match e1[at] {
        Event::Exchanged(c, a) => {
            match a {
                Ok((sw, d)) => {
                    lemma_collect_from_stable(sw, d, 0, e1, e2, at + 1);
                },
                Err(_) => {},
            }
        },
        _ => {},
    }
}

/// What an authentication run found stays found when more calls follow.
pub proof fn lemma_auth_run_stable(key: Seq<u8>, e1: Seq<Event>, e2: Seq<Event>, at: int)
    requires
        spec_prefix(e1, e2),
        spec_auth_run(key, e1, at) is Some,
    ensures
        spec_auth_run(key, e2, at) == spec_auth_run(key, e1, at),
        spec_auth_run(key, e1, at) matches Some((_, k)) ==> at < k <= e1.len(),
{
    lemma_prefix_refl(e2);
    lemma_prefix_trans(e1, e2, e2);
    lemma_collect_run_stable(spec_auth_witness_request(), e1, e2, at);
    match spec_collect_run(spec_auth_witness_request(), e1, at) {
        Some((Ok((sw, d)), k)) => {
            if spec_witness_outcome(sw, d) is Ok && 0 <= k < e1.len() {
                assert(e2[k] == e1[k]);
                let c2 = spec_command_at(e1, k);
                if spec_collect_run(c2, e1, k) is Some {
                    lemma_collect_run_stable(c2, e1, e2, k);
                }
            }
        },
        _ => {},
    }
}

/// What a chained run found stays found when more calls follow.
pub proof fn lemma_chained_run_stable(apdus: Seq<Seq<u8>>, e1: Seq<Event>, e2: Seq<Event>, at: int)
    requires
        spec_prefix(e1, e2),
        spec_chained_run(apdus, e1, at) is Some,
    ensures
        spec_chained_run(apdus, e2, at) == spec_chained_run(apdus, e1, at),
        spec_chained_run(apdus, e1, at) matches Some((_, k)) ==> at < k <= e1.len(),
    decreases apdus.len(),
{
    lemma_collect_run_stable(apdus[0], e1, e2, at);
    match spec_collect_run(apdus[0], e1, at) {
        Some((Ok((sw, d)), k)) => {
            if !(apdus.len() == 1 || sw != StatusWord::Success) {
                lemma_chained_run_stable(apdus.skip(1), e1, e2, k);
            }
        },
        _ => {},
    }
}

/// A status run that follows a stable first step stays found when more calls follow.
pub proof fn lemma_then_status_stable(
    first: Option<(Result<(), Error>, int)>,
    cmd: Seq<u8>,
    e1: Seq<Event>,
    e2: Seq<Event>,
)
    requires
        spec_prefix(e1, e2),
        spec_then_status(first, cmd, e1) is Some,
    ensures
        spec_then_status(first, cmd, e2) == spec_then_status(first, cmd, e1),
        (first matches Some((_, k)) && k <= e1.len()) ==> (spec_then_status(first, cmd, e1) matches Some((_, j)) && j <= e1.len()),
{
    match first {
        Some((Ok(()), k)) => {
            lemma_status_run_stable(cmd, e1, e2, k);
        },
        _ => {},
    }
}

/// What an authenticated PUT DATA run found stays found when more calls follow.
pub proof fn lemma_put_run_stable(key: Seq<u8>, apdus: Seq<Seq<u8>>, e1: Seq<Event>, e2: Seq<Event>, at: int)
    requires
        spec_prefix(e1, e2),
        spec_put_run(key, apdus, e1, at) is Some,
    ensures
        spec_put_run(key, apdus, e2, at) == spec_put_run(key, apdus, e1, at),
        spec_put_run(key, apdus, e1, at) matches Some((_, k)) ==> k <= e1.len(),
{
    lemma_auth_run_stable(key, e1, e2, at);
    match spec_auth_run(key, e1, at) {
        Some((Ok(()), k)) => {
            lemma_chained_run_stable(apdus, e1, e2, k);
        },
        _ => {},
    }
}

/// What a status run found stays found when more calls follow.
pub proof fn lemma_status_run_stable(cmd: Seq<u8>, e1: Seq<Event>, e2: Seq<Event>, at: int)
    requires
        spec_prefix(e1, e2),
        spec_status_run(cmd, e1, at) is Some,
    ensures
        spec_status_run(cmd, e2, at) == spec_status_run(cmd, e1, at),
        spec_status_run(cmd, e1, at) matches Some((_, k)) ==> at < k <= e1.len(),
{
    lemma_collect_run_stable(cmd, e1, e2, at);
}

/// Connecting from position `at`: when the PC/SC connection to the requested reader
/// failed, its error is the result and nothing follows; when it was made, the next
/// exchange is SELECT of the PIV application (00 A4 04 00 05 A0 00 00 03 08), and the
/// result is the status of that command's collected answer.
pub proof fn lemma_connect_selects(reader: Option<Seq<char>>, evs: Seq<Event>, at: int, r: Result<(), Error>, k: int)
    requires
        spec_connect_run(reader, evs, at) == Some((r, k)),
    ensures
        0 <= at < evs.len(),
        evs[at] matches Event::Connected(name, _) && name == reader,
        evs[at] matches Event::Connected(_, Err(e)) ==> r == Err::<(), Error>(e) && k == at + 1,
        evs[at] matches Event::Connected(_, Ok(())) ==> {
            &&& at + 1 < k
            &&& spec_command_at(evs, at + 1) == seq![0x00u8, 0xA4, 0x04, 0x00, 0x05, 0xA0, 0x00, 0x00, 0x03, 0x08]
            &&& spec_collect_run(seq![0x00u8, 0xA4, 0x04, 0x00, 0x05, 0xA0, 0x00, 0x00, 0x03, 0x08], evs, at + 1)
                matches Some((a, j)) && j == k && r == spec_status_of(a)
        },
{
    lemma_select_application_bytes();
    if evs[at] matches Event::Connected(_, Ok(())) {
        let sel = spec_select_application();
        lemma_prefix_refl(evs);
        lemma_collect_run_stable(sel, evs, evs, at + 1);
    }
}

} // verus!
