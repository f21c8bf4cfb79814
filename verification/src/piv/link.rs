use vstd::prelude::*;

use crate::error::Error;
use crate::piv::event::{spec_answer, spec_reader, spec_readers, Event};
use crate::piv::hal::PcscHal;
use crate::piv::sw::StatusWord;

verus! {

/// A PC/SC layer together with the record of every call made into it. The record is
/// private to this module, and each method that adds to it makes the call that it
/// records and records what the call returned; nothing else changes it.
pub struct Link<T: PcscHal> {
    hal: T,
    events: Ghost<Seq<Event>>,
}

impl<T: PcscHal> Link<T> {
    /// The PC/SC layer.
    pub closed spec fn spec_hal(&self) -> T {
        self.hal
    }

    /// The calls made so far, in order, with what they returned.
    pub closed spec fn spec_events(&self) -> Seq<Event> {
        self.events@
    }

    /// A link over `hal`, with nothing recorded yet.
    pub fn new(hal: T) -> (r: Link<T>)
        ensures
            r.spec_hal() == hal,
            r.spec_events() == Seq::<Event>::empty(),
    {
        Link { hal, events: Ghost(Seq::empty()) }
    }

    /// The PC/SC layer.
    pub fn hal(&self) -> (r: &T)
        ensures
            *r == self.spec_hal(),
    {
        &self.hal
    }

    /// Mutable access to the PC/SC layer; the record stays as it is, and calls made
    /// through the reference are not recorded.
    pub fn hal_mut(&mut self) -> (r: &mut T)
        ensures
            *r == old(self).spec_hal(),
            final(self).spec_hal() == *final(r),
            final(self).spec_events() == old(self).spec_events(),
    {
        &mut self.hal
    }

    /// `PcscHal::list_readers`, recorded with the names it returned.
    pub fn list_readers(&mut self) -> (r: Result<Vec<String>, Error>)
        ensures
            final(self).spec_events() == old(self).spec_events().push(
                Event::ListedReaders(spec_readers(r)),
            ),
            final(self).spec_hal() == old(self).spec_hal(),
    {
        let r = self.hal.list_readers();
        proof {
            self.events@ = self.events@.push(Event::ListedReaders(spec_readers(r)));
        }
        r
    }

    /// `PcscHal::connect`, recorded with the requested reader.
    pub fn connect(&mut self, reader: Option<&str>) -> (r: Result<(), Error>)
        ensures
            final(self).spec_events() == old(self).spec_events().push(
                Event::Connected(spec_reader(reader), r),
            ),
    {
        let r = self.hal.connect(reader);
        proof {
            self.events@ = self.events@.push(Event::Connected(spec_reader(reader), r));
        }
        r
    }

    /// `PcscHal::disconnect`, recorded.
    pub fn disconnect(&mut self)
        ensures
            final(self).spec_events() == old(self).spec_events().push(Event::Disconnected),
    {
        self.hal.disconnect();
        proof {
            self.events@ = self.events@.push(Event::Disconnected);
        }
    }

    /// `PcscHal::begin_transaction`, recorded.
    pub fn begin(&mut self) -> (r: Result<(), Error>)
        ensures
            final(self).spec_events() == old(self).spec_events().push(Event::Began(r)),
            final(self).spec_hal() == old(self).spec_hal(),
    {
        let r = self.hal.begin_transaction();
        proof {
            self.events@ = self.events@.push(Event::Began(r));
        }
        r
    }

    /// `PcscHal::end_transaction`, recorded.
    pub fn end(&mut self) -> (r: Result<(), Error>)
        ensures
            final(self).spec_events() == old(self).spec_events().push(Event::Ended(r)),
            final(self).spec_hal() == old(self).spec_hal(),
    {
        let r = self.hal.end_transaction();
        proof {
            self.events@ = self.events@.push(Event::Ended(r));
        }
        r
    }

    /// `PcscHal::send_data_impl` of one APDU, recorded with its answer.
    pub fn exchange(&mut self, apdu: &[u8]) -> (r: Result<(StatusWord, Vec<u8>), Error>)
        ensures
            final(self).spec_events() == old(self).spec_events().push(
                Event::Exchanged(apdu@, spec_answer(r)),
            ),
            final(self).spec_hal() == old(self).spec_hal(),
    {
        let r = self.hal.send_data_impl(apdu);
        proof {
            self.events@ = self.events@.push(Event::Exchanged(apdu@, spec_answer(r)));
        }
        r
    }
}

} // verus!
