use vstd::prelude::*;

use crate::error::Error;
use crate::piv::bytes::append_bytes;
use crate::piv::command::get_response;
use crate::piv::event::{
    lemma_collect_from_never_remaining, lemma_prefix_push, lemma_prefix_refl, lemma_prefix_trans,
    spec_answer, spec_collect_from, spec_collect_run, spec_prefix, Event,
};
use crate::piv::link::Link;
use crate::piv::sw::StatusWord;

verus! {

/// The most GET RESPONSE commands that one command's response may take; a card that
/// keeps announcing more data after that is answered with `Error::InvalidResponse`.
pub const MAX_GET_RESPONSE_ROUNDS: usize = 256;

/// The PC/SC layer under a `Handle`: the readers, the connection to a card, and the raw
/// exchange of APDUs. The library implements it over the `pcsc` crate; tests implement it
/// with a simulated card.
pub trait PcscHal: Sized {
    /// Establishes a PC/SC context.
    fn new() -> Result<Self, Error>;

    /// The names of the readers that are attached.
    fn list_readers(&self) -> Result<Vec<String>, Error>;

    /// Connects to the card in the first reader whose name contains `reader` (or the
    /// default reader's name, when `reader` is `None`).
    fn connect(&mut self, reader: Option<&str>) -> Result<(), Error>;

    /// Drops the connection to the card, if there is one.
    fn disconnect(&mut self);

    /// Sends one command APDU and returns the status word and the data of the answer.
    fn send_data_impl(&self, apdu: &[u8]) -> Result<(StatusWord, Vec<u8>), Error>;

    /// Starts an exclusive transaction with the card.
    fn begin_transaction(&self) -> Result<(), Error>;

    /// Ends the transaction that `begin_transaction` started.
    fn end_transaction(&self) -> Result<(), Error>;
}

/// The response that a collected answer gives: the status word and all the data, unless
/// the card still announces more data.
pub fn collected_response(sw: StatusWord, data: Vec<u8>) -> (r: Result<(StatusWord, Vec<u8>), Error>)
    ensures
        sw is BytesRemaining ==> r matches Err(Error::InvalidResponse),
        !(sw is BytesRemaining) ==> (r matches Ok((rsw, rd)) && rsw == sw && rd@ == data@),
{
    if sw.is_bytes_remaining() {
        Err(Error::InvalidResponse)
    } else {
        Ok((sw, data))
    }
}

/// Collects the rest of a response whose status so far is `sw` and data so far `data`,
/// after `rounds` GET RESPONSE commands: while the card announces more data (SW 61XX) and
/// fewer than `MAX_GET_RESPONSE_ROUNDS` rounds were made, fetches the next part with GET
/// RESPONSE and appends it.
fn collect_more<T: PcscHal>(link: &mut Link<T>, sw: StatusWord, data: Vec<u8>, rounds: usize) -> (r:
    Result<(StatusWord, Vec<u8>), Error>)
    requires
        rounds <= MAX_GET_RESPONSE_ROUNDS,
    ensures
        final(link).spec_hal() == old(link).spec_hal(),
        spec_prefix(old(link).spec_events(), final(link).spec_events()),
        spec_collect_from(
            sw,
            data@,
            rounds as nat,
            final(link).spec_events(),
            old(link).spec_events().len() as int,
        ) == Some((spec_answer(r), final(link).spec_events().len() as int)),
    decreases MAX_GET_RESPONSE_ROUNDS - rounds,
{
    proof {
        lemma_prefix_refl(link.spec_events());
    }
    if rounds < MAX_GET_RESPONSE_ROUNDS && sw.is_bytes_remaining() {
        let ghost before = link.spec_events();
        let request = get_response();
        let answer = link.exchange(request.as_slice());
        proof {
            lemma_prefix_push(before, Event::Exchanged(request@, spec_answer(answer)));
        }
        match answer {
            Ok((next, more)) => {
                let ghost asked = link.spec_events();
                let mut data = data;
                append_bytes(&mut data, more.as_slice());
                let r = collect_more(link, next, data, rounds + 1);
                proof {
                    lemma_prefix_trans(before, asked, link.spec_events());
                }
                r
            },
            Err(e) => Err(e),
        }
    } else {
        collected_response(sw, data)
    }
}

/// Sends one command APDU and collects its whole response: while the card announces more
/// data (SW 61XX), fetches it with GET RESPONSE and appends it, for at most
/// `MAX_GET_RESPONSE_ROUNDS` rounds. Every exchange is recorded in `link`.
pub fn send_data<T: PcscHal>(link: &mut Link<T>, apdu: &[u8]) -> (r: Result<(StatusWord, Vec<u8>), Error>)
    ensures
        r matches Ok((sw, _)) ==> !(sw is BytesRemaining),
        final(link).spec_hal() == old(link).spec_hal(),
        spec_prefix(old(link).spec_events(), final(link).spec_events()),
        spec_collect_run(apdu@, final(link).spec_events(), old(link).spec_events().len() as int)
            == Some((spec_answer(r), final(link).spec_events().len() as int)),
{
    let ghost before = link.spec_events();
    let first = link.exchange(apdu);
    proof {
        lemma_prefix_push(before, Event::Exchanged(apdu@, spec_answer(first)));
    }
    match first {
        Ok((sw, data)) => {
            let ghost asked = link.spec_events();
            let r = collect_more(link, sw, data, 0);
            proof {
                lemma_prefix_trans(before, asked, link.spec_events());
                lemma_collect_from_never_remaining(sw, data@, 0, link.spec_events(), asked.len() as int);
            }
            r
        },
        Err(e) => Err(e),
    }
}

} // verus!
