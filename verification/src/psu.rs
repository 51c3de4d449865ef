//! One supply: its device path and the 12V pages of its last readout.
//!
//! The serial device itself is opened, written and read by the caller; a
//! `Psu` hands out the sessions that say what to write and read.

use vstd::prelude::*;
use crate::protocol::SetupSession;
use crate::readout::{ReadoutSession, READOUT_END, RAIL_COUNT, PAGE_COUNT, spec_readout, copy_pages};
use crate::readings::{PsuReadings, TwelveVPageReadings};

verus! {

pub struct Psu {
    path: String,
    last_pages: Vec<TwelveVPageReadings>,
}

impl Psu {
    /// The device path.
    pub closed spec fn spec_path(&self) -> Seq<char> {
        self.path@
    }

    /// The 12V pages of the last readout (none before the first).
    pub closed spec fn spec_last_pages(&self) -> Seq<TwelveVPageReadings> {
        self.last_pages@
    }

    /// A supply on the device at `path`, not read yet.
    pub fn new(path: &str) -> (p: Psu)
        ensures
            p.spec_path() == path@,
            p.spec_last_pages() == Seq::<TwelveVPageReadings>::empty(),
    {
        Psu { path: String::from_str(path), last_pages: Vec::new() }
    }

    pub fn get_path(&self) -> (r: &str)
        ensures
            r@ == self.spec_path(),
    {
        self.path.as_str()
    }

    /// The session that sets up the dongle.
    pub fn setup_dongle(&self) -> (s: SetupSession)
        ensures
            s.wf(),
            s.position() == 0,
    {
        SetupSession::new()
    }

    /// Starts a readout; a 12V page whose selection fails keeps the reading
    /// of the last readout.
    pub fn read_all(&self) -> (s: ReadoutSession)
        ensures
            s.wf(),
            s.position() == 0,
            s.replies() == Seq::<Seq<u8>>::empty(),
            s.previous_pages() == self.spec_last_pages(),
    {
        ReadoutSession::new(copy_pages(&self.last_pages))
    }

    /// The readings of a finished readout; its 12V pages become the ones the
    /// next readout falls back on.
    pub fn finish_read_all(&mut self, session: ReadoutSession) -> (r: PsuReadings)
        requires
            session.wf(),
            session.position() == READOUT_END,
        ensures
            r@ == spec_readout(session.replies(), session.previous_pages()),
            r@.rails.len() == RAIL_COUNT,
            r@.twelve_v_pages.len() <= PAGE_COUNT,
            forall|a: int, b: int|
                0 <= a < b < r@.twelve_v_pages.len() ==> #[trigger] r@.twelve_v_pages[a].page
                    < #[trigger] r@.twelve_v_pages[b].page,
            forall|a: int| 0 <= a < r@.twelve_v_pages.len() ==> #[trigger] r@.twelve_v_pages[a].page < PAGE_COUNT,
            final(self).spec_last_pages() == r@.twelve_v_pages,
            final(self).spec_path() == old(self).spec_path(),
    {
        let r = session.finish();
        self.last_pages = copy_pages(&r.twelve_v_pages);
        r
    }

    /// Lets go of the supply; the device is closed by whoever opened it.
    pub fn release(&mut self)
        ensures
            final(self).spec_path() == old(self).spec_path(),
            final(self).spec_last_pages() == old(self).spec_last_pages(),
    {
    }
}

} // verus!
