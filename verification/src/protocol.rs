//! What the dongle is asked, transaction by transaction: the steps of the
//! register operations, the setup script and the readout script's layout.

use vstd::prelude::*;
use crate::frame::{BRIDGE_COMMAND, spec_block_read_header, spec_block_read_fetch, spec_block_write_frame, block_read_header, block_read_fetch, block_read_reply_len, block_write_frame};

verus! {

/// What the caller is asked to do next: run one bridge transaction and hand
/// back its decoded reply (cut to `expected` bytes), or wait. A transaction
/// starts by discarding any input left unread by the one before (such as the
/// trailer byte of a reply), so that replies stay in step with requests.
#[derive(Debug)]
pub enum Action {
    Transact { command: usize, msg: Vec<u8>, expected: usize },
    Pause { millis: u64 },
}

/// The mathematical value of an `Action`.
pub enum Step {
    Transact { command: usize, msg: Seq<u8>, expected: int },
    Pause { millis: int },
}

impl View for Action {
    type V = Step;

    open spec fn view(&self) -> Step {
        match self {
            Action::Transact { command, msg, expected } => Step::Transact {
                command: *command,
                msg: msg@,
                expected: *expected as int,
            },
            Action::Pause { millis } => Step::Pause { millis: *millis as int },
        }
    }
}

/// The pause after a page write, before reading the page back.
pub const PAGE_SETTLE_MILLIS: u64 = 2;

/// The header transaction of a block read; its one-byte reply is not used.
pub open spec fn header_step(len: u8, reg: u8) -> Step {
    Step::Transact { command: BRIDGE_COMMAND, msg: spec_block_read_header(len, reg), expected: 1 }
}

/// The fetch transaction of a block read.
pub open spec fn fetch_step(len: u8) -> Step {
    Step::Transact { command: BRIDGE_COMMAND, msg: spec_block_read_fetch(len), expected: len + 1 }
}

/// Step `k` (0 or 1) of a block read of `len` bytes from `reg`.
pub open spec fn read_step(len: u8, reg: u8, k: int) -> Step {
    if k == 0 { header_step(len, reg) } else { fetch_step(len) }
}

/// A one-byte block write of `value` to `reg`, answered by a one-byte acknowledgement.
pub open spec fn write_step(reg: u8, value: u8) -> Step {
    Step::Transact {
        command: BRIDGE_COMMAND,
        msg: spec_block_write_frame(reg, seq![value]),
        expected: 1,
    }
}

/// Step `k` (0 to 3) of selecting `page` through the page register `reg`:
/// write it, wait, then read the register back (one byte).
pub open spec fn select_step(reg: u8, page: u8, k: int) -> Step {
    if k == 0 {
        write_step(reg, page)
    } else if k == 1 {
        Step::Pause { millis: PAGE_SETTLE_MILLIS as int }
    } else {
        read_step(1, reg, k - 2)
    }
}

pub fn read_action(len: u8, reg: u8, k: u8) -> (a: Action)
    requires
        k < 2,
    ensures
        a@ == read_step(len, reg, k as int),
{
    if k == 0 {
        Action::Transact { command: BRIDGE_COMMAND, msg: block_read_header(len, reg), expected: 1 }
    } else {
        Action::Transact {
            command: BRIDGE_COMMAND,
            msg: block_read_fetch(len),
            expected: block_read_reply_len(len),
        }
    }
}

pub fn select_action(reg: u8, page: u8, k: u8) -> (a: Action)
    requires
        k < 4,
    ensures
        a@ == select_step(reg, page, k as int),
{
    if k == 0 {
        let data: [u8; 1] = [page];
        let frame = block_write_frame(reg, &data);
        assert(data@ =~= seq![page]);
        Action::Transact { command: BRIDGE_COMMAND, msg: frame, expected: 1 }
    } else if k == 1 {
        Action::Pause { millis: PAGE_SETTLE_MILLIS }
    } else {
        read_action(1, reg, k - 2)
    }
}

// ---------------------------------------------------------------------------
// The dongle's setup script.

/// Number of transactions in the setup script.
pub const SETUP_LEN: u8 = 5;

/// The setup script: read the dongle's name (up to 64 bytes), set the SMBus
/// bridge to 100 kHz, read the dongle's version (3 bytes), then read the
/// supply's model name once (this primes the controller). Replies are unused.
pub open spec fn setup_step(pos: int) -> Step {
    if pos == 0 {
        Step::Transact { command: BRIDGE_COMMAND, msg: seq![0x02u8], expected: 64 }
    } else if pos == 1 {
        Step::Transact {
            command: BRIDGE_COMMAND,
            msg: seq![0x11u8, 0x02u8, 0x64u8, 0x00u8, 0x00u8, 0x00u8, 0x00u8],
            expected: 1,
        }
    } else if pos == 2 {
        Step::Transact { command: BRIDGE_COMMAND, msg: seq![0x00u8], expected: 3 }
    } else {
        read_step(0x07, 0x9a, pos - 3)
    }
}

/// A run of the setup script.
pub struct SetupSession {
    pos: u8,
}

impl SetupSession {
    /// How many steps of the script are done.
    pub closed spec fn position(&self) -> int {
        self.pos as int
    }

    pub closed spec fn wf(&self) -> bool {
        self.pos <= SETUP_LEN
    }

    pub fn new() -> (s: SetupSession)
        ensures
            s.wf(),
            s.position() == 0,
    {
        SetupSession { pos: 0 }
    }

    pub fn is_finished(&self) -> (b: bool)
        requires
            self.wf(),
        ensures
            b == (self.position() == SETUP_LEN),
    {
        self.pos == SETUP_LEN
    }

    /// The transaction to run now.
    pub fn action(&self) -> (a: Action)
        requires
            self.wf(),
            self.position() < SETUP_LEN,
        ensures
            a@ == setup_step(self.position()),
    {
        if self.pos == 0 {
            let msg: Vec<u8> = vec![0x02];
            assert(msg@ =~= seq![0x02u8]);
            Action::Transact { command: BRIDGE_COMMAND, msg, expected: 64 }
        } else if self.pos == 1 {
            let msg: Vec<u8> = vec![0x11, 0x02, 0x64, 0x00, 0x00, 0x00, 0x00];
            assert(msg@ =~= seq![0x11u8, 0x02u8, 0x64u8, 0x00u8, 0x00u8, 0x00u8, 0x00u8]);
            Action::Transact { command: BRIDGE_COMMAND, msg, expected: 1 }
        } else if self.pos == 2 {
            let msg: Vec<u8> = vec![0x00];
            assert(msg@ =~= seq![0x00u8]);
            Action::Transact { command: BRIDGE_COMMAND, msg, expected: 3 }
        } else {
            read_action(0x07, 0x9a, self.pos - 3)
        }
    }

    /// Takes the reply to the current transaction (unused) and moves on.
    pub fn advance(&mut self, reply: Vec<u8>)
        requires
            old(self).wf(),
            old(self).position() < SETUP_LEN,
        ensures
            final(self).wf(),
            final(self).position() == old(self).position() + 1,
    {
        self.pos = self.pos + 1;
    }
}

} // verus!
