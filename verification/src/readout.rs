//! The readout of one supply as a state machine.
//!
//! The readout is a fixed script of bridge transactions with two decisions:
//! the cable-type register is read only from AX1500 models, and a 12V page's
//! registers are read only once the page register reads back the page just
//! written; a page whose selection is not confirmed keeps its reading from the
//! previous readout, if there was one. The caller runs each transaction (or
//! pause) that `action` names and hands its reply to `advance`.
//!
//! Positions in the script are numbered consecutively: a block read takes two
//! positions (header, fetch) and a page selection four (write, pause, header,
//! fetch). `replies` holds the reply handed in at each position passed, an
//! empty one at each position skipped.

use vstd::prelude::*;
use vstd::arithmetic::div_mod::lemma_fundamental_div_mod_converse;
use crate::frame::{prefix, block_read_payload, spec_block_write_frame};
use crate::linear11::{Linear11, spec_decode, decode_linear11, spec_uptime_seconds, uptime_seconds};
use crate::protocol::{Action, Step, read_step, select_step, read_action, select_action};
use crate::readings::{FanMode, RailReadings, TwelveVPageReadings, PsuReadings, ReadingsView};
use crate::text::{contains_run, spec_model_name, model_name, str_contains, utf8_lossy, lemma_trim_trailing_nul};

verus! {

// ---------------------------------------------------------------------------
// Layout of the script.

/// Model name, 7 bytes from register 0x9a.
pub const NAME_POS: usize = 1;
/// Fan mode, 1 byte from register 0xf0.
pub const FAN_MODE_POS: usize = 3;
/// Fan speed, register 0x90.
pub const FAN_SPEED_POS: usize = 5;
/// First temperature, register 0x8e.
pub const TEMP1_POS: usize = 7;
/// Input power as the supply measures it, register 0x97.
pub const INPUT_POWER_POS: usize = 13;
/// Input current, register 0x89.
pub const INPUT_CURRENT_POS: usize = 15;
/// Input voltage, register 0x88.
pub const INPUT_VOLTAGE_POS: usize = 17;
/// Output power, register 0xee (read, not used).
pub const OUTPUT_POWER_POS: usize = 19;
/// Cable type, 1 byte from register 0xf2 (AX1500 only).
pub const CABLE_POS: usize = 21;
/// Second temperature, register 0x8d.
pub const TEMP2_POS: usize = 23;
/// The three rails, 14 positions each.
pub const RAILS_BASE: usize = 24;
pub const RAIL_LEN: usize = 14;
pub const RAIL_COUNT: usize = 3;
/// Back to main page 0 before the 12V pages.
pub const PAGES_SELECT_BASE: usize = 66;
/// The twelve 12V pages, 12 positions each.
pub const PAGES_BASE: usize = 70;
pub const PAGE_LEN: usize = 12;
pub const PAGE_COUNT: usize = 12;
/// Back to main page 0, then the uptime.
pub const TAIL_BASE: usize = 214;
/// Uptime, register 0xd2.
pub const UPTIME_POS: usize = 219;
/// The end of the script.
pub const READOUT_END: usize = 220;

const STAGE_PREFIX: u8 = 0;
const STAGE_RAIL: u8 = 1;
const STAGE_PAGES_SELECT: u8 = 2;
const STAGE_PAGE: u8 = 3;
const STAGE_TAIL: u8 = 4;
const STAGE_DONE: u8 = 5;

pub open spec fn rail_pos(rail: int, k: int) -> int {
    RAILS_BASE + RAIL_LEN * rail + k
}

pub open spec fn page_pos(page: int, k: int) -> int {
    PAGES_BASE + PAGE_LEN * page + k
}

/// Positions 0..24: model name, fan, temperature, main page 0, input side,
/// cable type, second temperature.
pub open spec fn prefix_step(k: int) -> Step {
    if k < 2 {
        read_step(7, 0x9a, k)
    } else if k < 4 {
        read_step(1, 0xf0, k - 2)
    } else if k < 6 {
        read_step(2, 0x90, k - 4)
    } else if k < 8 {
        read_step(2, 0x8e, k - 6)
    } else if k < 12 {
        select_step(0x00, 0, k - 8)
    } else if k < 14 {
        read_step(2, 0x97, k - 12)
    } else if k < 16 {
        read_step(2, 0x89, k - 14)
    } else if k < 18 {
        read_step(2, 0x88, k - 16)
    } else if k < 20 {
        read_step(2, 0xee, k - 18)
    } else if k < 22 {
        read_step(1, 0xf2, k - 20)
    } else {
        read_step(2, 0x8d, k - 22)
    }
}

/// One rail: main page `rail`, 12V page 0, then voltage, current, power.
pub open spec fn rail_step(rail: int, k: int) -> Step {
    if k < 4 {
        select_step(0x00, rail as u8, k)
    } else if k < 8 {
        select_step(0xe7, 0, k - 4)
    } else if k < 10 {
        read_step(2, 0x8b, k - 8)
    } else if k < 12 {
        read_step(2, 0x8c, k - 10)
    } else {
        read_step(2, 0x96, k - 12)
    }
}

/// One 12V page: select it, then voltage, current, power, OCP limit.
pub open spec fn page_step(page: int, k: int) -> Step {
    if k < 4 {
        select_step(0xe7, page as u8, k)
    } else if k < 6 {
        read_step(2, 0x8b, k - 4)
    } else if k < 8 {
        read_step(2, 0xe8, k - 6)
    } else if k < 10 {
        read_step(2, 0xe9, k - 8)
    } else {
        read_step(2, 0xea, k - 10)
    }
}

/// Main page 0, then the uptime.
pub open spec fn tail_step(k: int) -> Step {
    if k < 4 {
        select_step(0x00, 0, k)
    } else {
        read_step(2, 0xd2, k - 4)
    }
}

/// The transaction at each position of the script.
pub open spec fn readout_step(pos: int) -> Step {
    if pos < RAILS_BASE {
        prefix_step(pos)
    } else if pos < PAGES_SELECT_BASE {
        rail_step((pos - RAILS_BASE) / RAIL_LEN as int, (pos - RAILS_BASE) % RAIL_LEN as int)
    } else if pos < PAGES_BASE {
        select_step(0x00, 0, pos - PAGES_SELECT_BASE)
    } else if pos < TAIL_BASE {
        page_step((pos - PAGES_BASE) / PAGE_LEN as int, (pos - PAGES_BASE) % PAGE_LEN as int)
    } else {
        tail_step(pos - TAIL_BASE)
    }
}

// ---------------------------------------------------------------------------
// What the replies mean.

/// The payload of the block read whose fetch is at `pos`: its first `len` bytes.
pub open spec fn reply_payload(replies: Seq<Seq<u8>>, pos: int, len: int) -> Seq<u8> {
    prefix(replies[pos], len)
}

/// The LINEAR11 register value fetched at `pos`.
pub open spec fn register_at(replies: Seq<Seq<u8>>, pos: int) -> Linear11 {
    spec_decode(reply_payload(replies, pos, 2))
}

/// "AX1500", the model that reports its cable type.
pub open spec fn ax1500_tag() -> Seq<char> {
    seq!['A', 'X', '1', '5', '0', '0']
}

/// Whether the model name read names an AX1500.
pub open spec fn spec_is_ax1500(replies: Seq<Seq<u8>>) -> bool {
    contains_run(spec_model_name(reply_payload(replies, NAME_POS as int, 7)), ax1500_tag())
}

pub open spec fn first_byte_is(bytes: Seq<u8>, value: u8) -> bool {
    bytes.len() > 0 && bytes[0] == value
}

/// Fan mode 0 is automatic, any other value fixed; no byte, unknown.
pub open spec fn spec_fan_mode(bytes: Seq<u8>) -> FanMode {
    if bytes.len() == 0 {
        FanMode::Unknown
    } else if bytes[0] == 0 {
        FanMode::Auto
    } else {
        FanMode::Fixed
    }
}

/// The 20A cable is reported by AX1500 models with a nonzero cable byte.
pub open spec fn spec_cable(replies: Seq<Seq<u8>>) -> bool {
    spec_is_ax1500(replies) && reply_payload(replies, CABLE_POS as int, 1).len() > 0
        && reply_payload(replies, CABLE_POS as int, 1)[0] != 0
}

pub open spec fn spec_rail(replies: Seq<Seq<u8>>, rail: int) -> RailReadings {
    RailReadings {
        voltage: register_at(replies, rail_pos(rail, 9)),
        current: register_at(replies, rail_pos(rail, 11)),
        power: register_at(replies, rail_pos(rail, 13)),
    }
}

/// Whether the 12V page register read back `page` after it was written.
pub open spec fn page_confirmed(replies: Seq<Seq<u8>>, page: int) -> bool {
    first_byte_is(reply_payload(replies, page_pos(page, 3), 1), page as u8)
}

pub open spec fn spec_fresh_page(replies: Seq<Seq<u8>>, page: int) -> TwelveVPageReadings {
    TwelveVPageReadings {
        page: page as u8,
        voltage: register_at(replies, page_pos(page, 5)),
        current: register_at(replies, page_pos(page, 7)),
        power: register_at(replies, page_pos(page, 9)),
        ocp_limit: register_at(replies, page_pos(page, 11)),
    }
}

/// The first reading of `page` in `pages`, if any.
pub open spec fn find_page(pages: Seq<TwelveVPageReadings>, page: int) -> Option<TwelveVPageReadings>
    decreases pages.len(),
{
    if pages.len() == 0 {
        None
    } else if pages[0].page == page {
        Some(pages[0])
    } else {
        find_page(pages.drop_first(), page)
    }
}

/// What a readout reports for 12V page `page`: a fresh reading when the page
/// was confirmed, else the previous readout's reading of it, if any.
pub open spec fn page_entry(
    replies: Seq<Seq<u8>>,
    previous: Seq<TwelveVPageReadings>,
    page: int,
) -> Option<TwelveVPageReadings> {
    if page_confirmed(replies, page) {
        Some(spec_fresh_page(replies, page))
    } else {
        find_page(previous, page)
    }
}

pub open spec fn option_seq<T>(o: Option<T>) -> Seq<T> {
    match o {
        Some(x) => seq![x],
        None => Seq::empty(),
    }
}

/// The 12V pages reported for pages `0..n`, in page order.
pub open spec fn spec_pages(
    replies: Seq<Seq<u8>>,
    previous: Seq<TwelveVPageReadings>,
    n: int,
) -> Seq<TwelveVPageReadings>
    decreases n,
{
    if n <= 0 {
        Seq::empty()
    } else {
        spec_pages(replies, previous, n - 1) + option_seq(page_entry(replies, previous, n - 1))
    }
}

/// What a finished readout reports, given the replies and the previous 12V pages.
pub open spec fn spec_readout(replies: Seq<Seq<u8>>, previous: Seq<TwelveVPageReadings>) -> ReadingsView {
    ReadingsView {
        bus: 0,
        address: 0,
        name: spec_model_name(reply_payload(replies, NAME_POS as int, 7)),
        input_voltage: register_at(replies, INPUT_VOLTAGE_POS as int),
        input_current: register_at(replies, INPUT_CURRENT_POS as int),
        input_power_raw: register_at(replies, INPUT_POWER_POS as int),
        cable_type_20a: spec_cable(replies),
        fan_mode: spec_fan_mode(reply_payload(replies, FAN_MODE_POS as int, 1)),
        rails: Seq::new(RAIL_COUNT as nat, |r: int| spec_rail(replies, r)),
        twelve_v_pages: spec_pages(replies, previous, PAGE_COUNT as int),
        temp1: register_at(replies, TEMP1_POS as int),
        temp2: register_at(replies, TEMP2_POS as int),
        fan_speed: register_at(replies, FAN_SPEED_POS as int),
        uptime_seconds: spec_uptime_seconds(reply_payload(replies, UPTIME_POS as int, 2)) as u32,
    }
}

/// `s` extended with empty replies up to length `n`.
pub open spec fn padded(s: Seq<Seq<u8>>, n: int) -> Seq<Seq<u8>> {
    s + Seq::new((n - s.len()) as nat, |i: int| Seq::<u8>::empty())
}

/// Where the script goes after the reply `reply` at `pos`: past the cable-type
/// read unless the model is an AX1500, and past a 12V page's registers unless
/// the page's selection was confirmed; otherwise to the next position.
pub open spec fn next_position(pos: int, reply: Seq<u8>, replies: Seq<Seq<u8>>) -> int {
    if pos == OUTPUT_POWER_POS && !spec_is_ax1500(replies) {
        TEMP2_POS - 1
    } else if PAGES_BASE <= pos < TAIL_BASE && (pos - PAGES_BASE) % PAGE_LEN as int == 3
        && !first_byte_is(prefix(reply, 1), ((pos - PAGES_BASE) / PAGE_LEN as int) as u8) {
        pos + 9
    } else {
        pos + 1
    }
}

// ---------------------------------------------------------------------------
// The machine.

/// A readout in progress.
pub struct ReadoutSession {
    stage: u8,
    index: u8,
    k: u8,
    name: String,
    is_ax1500: bool,
    fan_mode: FanMode,
    fan_speed: Linear11,
    temp1: Linear11,
    input_power_raw: Linear11,
    input_current: Linear11,
    input_voltage: Linear11,
    cable_type_20a: bool,
    temp2: Linear11,
    rail_voltage: Linear11,
    rail_current: Linear11,
    rails: Vec<RailReadings>,
    page_voltage: Linear11,
    page_current: Linear11,
    page_power: Linear11,
    pages: Vec<TwelveVPageReadings>,
    previous: Vec<TwelveVPageReadings>,
    uptime: u32,
    replies: Ghost<Seq<Seq<u8>>>,
}

spec fn position_of(stage: u8, index: u8, k: u8) -> int {
    if stage == STAGE_PREFIX {
        k as int
    } else if stage == STAGE_RAIL {
        rail_pos(index as int, k as int)
    } else if stage == STAGE_PAGES_SELECT {
        PAGES_SELECT_BASE + k
    } else if stage == STAGE_PAGE {
        page_pos(index as int, k as int)
    } else if stage == STAGE_TAIL {
        TAIL_BASE + k
    } else {
        READOUT_END as int
    }
}

impl ReadoutSession {
    /// The current position in the script.
    pub closed spec fn position(&self) -> int {
        position_of(self.stage, self.index, self.k)
    }

    /// The replies handed in so far, by position (empty at skipped positions).
    pub closed spec fn replies(&self) -> Seq<Seq<u8>> {
        self.replies@
    }

    /// The 12V pages of the previous readout.
    pub closed spec fn previous_pages(&self) -> Seq<TwelveVPageReadings> {
        self.previous@
    }

    closed spec fn rails_done(&self) -> int {
        if self.stage < STAGE_RAIL {
            0
        } else if self.stage == STAGE_RAIL {
            self.index as int
        } else {
            RAIL_COUNT as int
        }
    }

    closed spec fn pages_done(&self) -> int {
        if self.stage < STAGE_PAGE {
            0
        } else if self.stage == STAGE_PAGE {
            self.index as int
        } else {
            PAGE_COUNT as int
        }
    }

    closed spec fn shape_ok(&self) -> bool {
        &&& self.stage <= STAGE_DONE
        &&& self.stage == STAGE_PREFIX ==> self.index == 0 && self.k < 24
        &&& self.stage == STAGE_RAIL ==> self.index < 3 && self.k < 14
        &&& self.stage == STAGE_PAGES_SELECT ==> self.index == 0 && self.k < 4
        &&& self.stage == STAGE_PAGE ==> self.index < 12 && self.k < 12
        &&& self.stage == STAGE_TAIL ==> self.index == 0 && self.k < 6
        &&& self.stage == STAGE_DONE ==> self.index == 0 && self.k == 0
    }

    closed spec fn prefix_ok(&self) -> bool {
        let pos = self.position();
        let log = self.replies@;
        &&& pos > NAME_POS ==> self.name@ == spec_model_name(reply_payload(log, NAME_POS as int, 7))
            && self.is_ax1500 == spec_is_ax1500(log)
        &&& pos > FAN_MODE_POS ==> self.fan_mode == spec_fan_mode(reply_payload(log, FAN_MODE_POS as int, 1))
        &&& pos > FAN_SPEED_POS ==> self.fan_speed == register_at(log, FAN_SPEED_POS as int)
        &&& pos > TEMP1_POS ==> self.temp1 == register_at(log, TEMP1_POS as int)
        &&& pos > INPUT_POWER_POS ==> self.input_power_raw == register_at(log, INPUT_POWER_POS as int)
        &&& pos > INPUT_CURRENT_POS ==> self.input_current == register_at(log, INPUT_CURRENT_POS as int)
        &&& pos > INPUT_VOLTAGE_POS ==> self.input_voltage == register_at(log, INPUT_VOLTAGE_POS as int)
        &&& (CABLE_POS - 1 <= pos <= CABLE_POS) ==> spec_is_ax1500(log)
        &&& pos <= CABLE_POS ==> !self.cable_type_20a
        &&& pos > CABLE_POS ==> self.cable_type_20a == spec_cable(log)
        &&& pos > TEMP2_POS ==> self.temp2 == register_at(log, TEMP2_POS as int)
    }

    closed spec fn rails_ok(&self) -> bool {
        let log = self.replies@;
        &&& self.rails@.len() == self.rails_done()
        &&& forall|r: int| 0 <= r < self.rails_done() ==> #[trigger] self.rails@[r] == spec_rail(log, r)
        &&& self.stage == STAGE_RAIL && self.k > 9 ==> self.rail_voltage == register_at(log, rail_pos(self.index as int, 9))
        &&& self.stage == STAGE_RAIL && self.k > 11 ==> self.rail_current == register_at(log, rail_pos(self.index as int, 11))
    }

    closed spec fn pages_ok(&self) -> bool {
        let log = self.replies@;
        &&& self.pages@ == spec_pages(log, self.previous@, self.pages_done())
        &&& self.stage == STAGE_PAGE && self.k >= 4 ==> page_confirmed(log, self.index as int)
        &&& self.stage == STAGE_PAGE && self.k > 5 ==> self.page_voltage == register_at(log, page_pos(self.index as int, 5))
        &&& self.stage == STAGE_PAGE && self.k > 7 ==> self.page_current == register_at(log, page_pos(self.index as int, 7))
        &&& self.stage == STAGE_PAGE && self.k > 9 ==> self.page_power == register_at(log, page_pos(self.index as int, 9))
    }

    closed spec fn tail_ok(&self) -> bool {
        self.stage == STAGE_DONE ==> self.uptime as int == spec_uptime_seconds(
            reply_payload(self.replies@, UPTIME_POS as int, 2),
        )
    }

    /// The session's invariant.
    pub closed spec fn wf(&self) -> bool {
        &&& self.shape_ok()
        &&& self.replies@.len() == self.position()
        &&& self.prefix_ok()
        &&& self.rails_ok()
        &&& self.pages_ok()
        &&& self.tail_ok()
    }

    /// Starts a readout, given the 12V pages of the previous one.
    pub fn new(previous: Vec<TwelveVPageReadings>) -> (s: ReadoutSession)
        ensures
            s.wf(),
            s.position() == 0,
            s.replies() == Seq::<Seq<u8>>::empty(),
            s.previous_pages() == previous@,
    {
        let zero = Linear11 { mantissa: 0, exponent: 0 };
        ReadoutSession {
            stage: STAGE_PREFIX,
            index: 0,
            k: 0,
            name: String::new(),
            is_ax1500: false,
            fan_mode: FanMode::Unknown,
            fan_speed: zero,
            temp1: zero,
            input_power_raw: zero,
            input_current: zero,
            input_voltage: zero,
            cable_type_20a: false,
            temp2: zero,
            rail_voltage: zero,
            rail_current: zero,
            rails: Vec::new(),
            page_voltage: zero,
            page_current: zero,
            page_power: zero,
            pages: Vec::new(),
            previous,
            uptime: 0,
            replies: Ghost(Seq::empty()),
        }
    }

    /// Whether the script is done.
    pub fn is_finished(&self) -> (b: bool)
        requires
            self.wf(),
        ensures
            b == (self.position() == READOUT_END),
    {
        self.stage == STAGE_DONE
    }

    /// The transaction, or pause, to perform now.
    pub fn action(&self) -> (a: Action)
        requires
            self.wf(),
            self.position() < READOUT_END,
        ensures
            a@ == readout_step(self.position()),
    {
        let k = self.k;
        let i = self.index;
        if self.stage == STAGE_PREFIX {
            if k < 2 {
                read_action(7, 0x9a, k)
            } else if k < 4 {
                read_action(1, 0xf0, k - 2)
            } else if k < 6 {
                read_action(2, 0x90, k - 4)
            } else if k < 8 {
                read_action(2, 0x8e, k - 6)
            } else if k < 12 {
                select_action(0x00, 0, k - 8)
            } else if k < 14 {
                read_action(2, 0x97, k - 12)
            } else if k < 16 {
                read_action(2, 0x89, k - 14)
            } else if k < 18 {
                read_action(2, 0x88, k - 16)
            } else if k < 20 {
                read_action(2, 0xee, k - 18)
            } else if k < 22 {
                read_action(1, 0xf2, k - 20)
            } else {
                read_action(2, 0x8d, k - 22)
            }
        } else if self.stage == STAGE_RAIL {
            proof {
                lemma_fundamental_div_mod_converse(
                    self.position() - RAILS_BASE, RAIL_LEN as int, i as int, k as int);
            }
            if k < 4 {
                select_action(0x00, i, k)
            } else if k < 8 {
                select_action(0xe7, 0, k - 4)
            } else if k < 10 {
                read_action(2, 0x8b, k - 8)
            } else if k < 12 {
                read_action(2, 0x8c, k - 10)
            } else {
                read_action(2, 0x96, k - 12)
            }
        } else if self.stage == STAGE_PAGES_SELECT {
            select_action(0x00, 0, k)
        } else if self.stage == STAGE_PAGE {
            proof {
                lemma_fundamental_div_mod_converse(
                    self.position() - PAGES_BASE, PAGE_LEN as int, i as int, k as int);
            }
            if k < 4 {
                select_action(0xe7, i, k)
            } else if k < 6 {
                read_action(2, 0x8b, k - 4)
            } else if k < 8 {
                read_action(2, 0xe8, k - 6)
            } else if k < 10 {
                read_action(2, 0xe9, k - 8)
            } else {
                read_action(2, 0xea, k - 10)
            }
        } else {
            if k < 4 {
                select_action(0x00, 0, k)
            } else {
                read_action(2, 0xd2, k - 4)
            }
        }
    }
}


/// The 12V pages reported for pages `0..n` depend only on the replies before
/// the end of page `n - 1`'s block.
proof fn lemma_pages_frame(
    l1: Seq<Seq<u8>>,
    l2: Seq<Seq<u8>>,
    previous: Seq<TwelveVPageReadings>,
    n: int,
)
    requires
        0 <= n,
        page_pos(n, 0) <= l1.len(),
        page_pos(n, 0) <= l2.len(),
        forall|q: int| 0 <= q < page_pos(n, 0) ==> #[trigger] l1[q] == l2[q],
    ensures
        spec_pages(l1, previous, n) == spec_pages(l2, previous, n),
    decreases n,
{
    if n > 0 {
        lemma_pages_frame(l1, l2, previous, n - 1);
        assert(l1[page_pos(n - 1, 3)] == l2[page_pos(n - 1, 3)]);
        assert(l1[page_pos(n - 1, 5)] == l2[page_pos(n - 1, 5)]);
        assert(l1[page_pos(n - 1, 7)] == l2[page_pos(n - 1, 7)]);
        assert(l1[page_pos(n - 1, 9)] == l2[page_pos(n - 1, 9)]);
        assert(l1[page_pos(n - 1, 11)] == l2[page_pos(n - 1, 11)]);
    }
}

/// The first reading of `page` in `pages`.
fn find_page_exec(pages: &Vec<TwelveVPageReadings>, page: u8) -> (r: Option<TwelveVPageReadings>)
    ensures
        r == find_page(pages@, page as int),
{
    let mut j: usize = 0;
    assert(pages@.skip(0) =~= pages@);
    while j < pages.len()
        invariant
            j <= pages@.len(),
            find_page(pages@, page as int) == find_page(pages@.skip(j as int), page as int),
        decreases pages@.len() - j,
    {
        let p = pages[j];
        assert(pages@.skip(j as int)[0] == p);
        assert(pages@.skip(j as int).drop_first() =~= pages@.skip(j + 1));
        if p.page == page {
            return Some(p);
        }
        j += 1;
    }
    assert(pages@.skip(j as int).len() == 0);
    None
}

impl ReadoutSession {
    /// Hands in the reply to the current action (empty after a pause) and
    /// moves to the next position of the script.
    pub fn advance(&mut self, reply: Vec<u8>)
        requires
            old(self).wf(),
            old(self).position() < READOUT_END,
        ensures
            final(self).wf(),
            final(self).position() == next_position(old(self).position(), reply@, old(self).replies()),
            final(self).replies() == padded(old(self).replies().push(reply@), final(self).position()),
            final(self).previous_pages() == old(self).previous_pages(),
    {
        if self.stage == STAGE_PREFIX {
            self.advance_prefix(reply);
        } else if self.stage == STAGE_RAIL {
            self.advance_rail(reply);
        } else if self.stage == STAGE_PAGES_SELECT {
            self.advance_pages_select(reply);
        } else if self.stage == STAGE_PAGE {
            self.advance_page(reply);
        } else {
            self.advance_tail(reply);
        }
    }

    #[verifier::rlimit(40)]
    fn advance_prefix(&mut self, reply: Vec<u8>)
        requires
            old(self).wf(),
            old(self).stage == STAGE_PREFIX,
        ensures
            final(self).wf(),
            final(self).position() == next_position(old(self).position(), reply@, old(self).replies()),
            final(self).replies() == padded(old(self).replies().push(reply@), final(self).position()),
            final(self).previous_pages() == old(self).previous_pages(),
    {
        let ghost old_log = self.replies@;
        let ghost pos = self.position();
        let k = self.k;
        let ghost reply_view = reply@;
        if k == 1 {
            let name_bytes = block_read_payload(reply, 7);
            self.name = model_name(name_bytes.as_slice());
            let tag = "AX1500";
            proof {
                reveal_strlit("AX1500");
            }
            assert(tag@ =~= ax1500_tag());
            self.is_ax1500 = str_contains(self.name.as_str(), tag);
        } else if k == 3 {
            let b = block_read_payload(reply, 1);
            self.fan_mode = if b.len() == 0 {
                FanMode::Unknown
            } else if b[0] == 0 {
                FanMode::Auto
            } else {
                FanMode::Fixed
            };
        } else if k == 5 {
            self.fan_speed = decode_linear11(block_read_payload(reply, 2).as_slice());
        } else if k == 7 {
            self.temp1 = decode_linear11(block_read_payload(reply, 2).as_slice());
        } else if k == 13 {
            self.input_power_raw = decode_linear11(block_read_payload(reply, 2).as_slice());
        } else if k == 15 {
            self.input_current = decode_linear11(block_read_payload(reply, 2).as_slice());
        } else if k == 17 {
            self.input_voltage = decode_linear11(block_read_payload(reply, 2).as_slice());
        } else if k == 21 {
            let b = block_read_payload(reply, 1);
            self.cable_type_20a = b.len() > 0 && b[0] != 0;
        } else if k == 23 {
            self.temp2 = decode_linear11(block_read_payload(reply, 2).as_slice());
        }
        if k == 19 && !self.is_ax1500 {
            self.k = 22;
            self.replies = Ghost(padded(old_log.push(reply_view), 22));
        } else if k == 23 {
            self.stage = STAGE_RAIL;
            self.index = 0;
            self.k = 0;
            self.replies = Ghost(old_log.push(reply_view));
        } else {
            self.k = k + 1;
            self.replies = Ghost(old_log.push(reply_view));
        }
        proof {
            let log = self.replies@;
            assert(log.len() == self.position());
            assert forall|q: int| 0 <= q < pos implies #[trigger] log[q] == old_log[q] by {}
            assert(log[pos] == reply_view);
            assert(self.replies@ =~= padded(old_log.push(reply_view), self.position()));
        }
    }

    #[verifier::rlimit(40)]
    fn advance_rail(&mut self, reply: Vec<u8>)
        requires
            old(self).wf(),
            old(self).stage == STAGE_RAIL,
        ensures
            final(self).wf(),
            final(self).position() == next_position(old(self).position(), reply@, old(self).replies()),
            final(self).replies() == padded(old(self).replies().push(reply@), final(self).position()),
            final(self).previous_pages() == old(self).previous_pages(),
    {
        let ghost old_log = self.replies@;
        let ghost old_rails = self.rails@;
        let ghost pos = self.position();
        let ghost reply_view = reply@;
        let k = self.k;
        let i = self.index;
        if k == 9 {
            self.rail_voltage = decode_linear11(block_read_payload(reply, 2).as_slice());
        } else if k == 11 {
            self.rail_current = decode_linear11(block_read_payload(reply, 2).as_slice());
        } else if k == 13 {
            let power = decode_linear11(block_read_payload(reply, 2).as_slice());
            self.rails.push(RailReadings { voltage: self.rail_voltage, current: self.rail_current, power });
        }
        if k == 13 {
            if i == 2 {
                self.stage = STAGE_PAGES_SELECT;
                self.index = 0;
            } else {
                self.index = i + 1;
            }
            self.k = 0;
        } else {
            self.k = k + 1;
        }
        self.replies = Ghost(old_log.push(reply_view));
        proof {
            let log = self.replies@;
            assert forall|q: int| 0 <= q < pos implies #[trigger] log[q] == old_log[q] by {}
            assert(log[pos] == reply_view);
            assert forall|r: int| 0 <= r < self.rails_done() implies #[trigger] self.rails@[r] == spec_rail(log, r) by {
                if r < i {
                    assert(old_rails[r] == spec_rail(old_log, r));
                    assert(log[rail_pos(r, 9)] == old_log[rail_pos(r, 9)]);
                    assert(log[rail_pos(r, 11)] == old_log[rail_pos(r, 11)]);
                    assert(log[rail_pos(r, 13)] == old_log[rail_pos(r, 13)]);
                } else {
                    assert(log[rail_pos(r, 9)] == old_log[rail_pos(r, 9)]);
                    assert(log[rail_pos(r, 11)] == old_log[rail_pos(r, 11)]);
                }
            }
            assert(self.replies@ =~= padded(old_log.push(reply_view), self.position()));
        }
    }

    fn advance_pages_select(&mut self, reply: Vec<u8>)
        requires
            old(self).wf(),
            old(self).stage == STAGE_PAGES_SELECT,
        ensures
            final(self).wf(),
            final(self).position() == next_position(old(self).position(), reply@, old(self).replies()),
            final(self).replies() == padded(old(self).replies().push(reply@), final(self).position()),
            final(self).previous_pages() == old(self).previous_pages(),
    {
        let ghost old_log = self.replies@;
        let ghost pos = self.position();
        let ghost reply_view = reply@;
        if self.k == 3 {
            self.stage = STAGE_PAGE;
            self.index = 0;
            self.k = 0;
        } else {
            self.k = self.k + 1;
        }
        self.replies = Ghost(old_log.push(reply_view));
        proof {
            let log = self.replies@;
            assert forall|q: int| 0 <= q < pos implies #[trigger] log[q] == old_log[q] by {}
            assert forall|r: int| 0 <= r < self.rails_done() implies #[trigger] self.rails@[r] == spec_rail(log, r) by {
                assert(log[rail_pos(r, 9)] == old_log[rail_pos(r, 9)]);
                assert(log[rail_pos(r, 11)] == old_log[rail_pos(r, 11)]);
                assert(log[rail_pos(r, 13)] == old_log[rail_pos(r, 13)]);
            }
            assert(self.replies@ =~= padded(old_log.push(reply_view), self.position()));
        }
    }

    #[verifier::rlimit(60)]
    fn advance_page(&mut self, reply: Vec<u8>)
        requires
            old(self).wf(),
            old(self).stage == STAGE_PAGE,
        ensures
            final(self).wf(),
            final(self).position() == next_position(old(self).position(), reply@, old(self).replies()),
            final(self).replies() == padded(old(self).replies().push(reply@), final(self).position()),
            final(self).previous_pages() == old(self).previous_pages(),
    {
        let ghost old_log = self.replies@;
        let ghost old_pages = self.pages@;
        let ghost pos = self.position();
        let ghost reply_view = reply@;
        let ghost prev = self.previous@;
        let k = self.k;
        let i = self.index;
        proof {
            lemma_fundamental_div_mod_converse(pos - PAGES_BASE, PAGE_LEN as int, i as int, k as int);
        }
        let mut page_done = false;
        let mut skip = false;
        if k == 3 {
            let b = block_read_payload(reply, 1);
            let confirmed = b.len() > 0 && b[0] == i;
            if !confirmed {
                match find_page_exec(&self.previous, i) {
                    Some(p) => self.pages.push(p),
                    None => {},
                }
                page_done = true;
                skip = true;
            }
        } else if k == 5 {
            self.page_voltage = decode_linear11(block_read_payload(reply, 2).as_slice());
        } else if k == 7 {
            self.page_current = decode_linear11(block_read_payload(reply, 2).as_slice());
        } else if k == 9 {
            self.page_power = decode_linear11(block_read_payload(reply, 2).as_slice());
        } else if k == 11 {
            let ocp_limit = decode_linear11(block_read_payload(reply, 2).as_slice());
            self.pages.push(TwelveVPageReadings {
                page: i,
                voltage: self.page_voltage,
                current: self.page_current,
                power: self.page_power,
                ocp_limit,
            });
            page_done = true;
        }
        if page_done {
            if i == 11 {
                self.stage = STAGE_TAIL;
                self.index = 0;
            } else {
                self.index = i + 1;
            }
            self.k = 0;
        } else {
            self.k = k + 1;
        }
        if skip {
            self.replies = Ghost(padded(old_log.push(reply_view), pos + 9));
        } else {
            self.replies = Ghost(old_log.push(reply_view));
        }
        proof {
            let log = self.replies@;
            assert(log.len() == self.position());
            assert forall|q: int| 0 <= q < pos implies #[trigger] log[q] == old_log[q] by {}
            assert(log[pos] == reply_view);
            assert forall|r: int| 0 <= r < self.rails_done() implies #[trigger] self.rails@[r] == spec_rail(log, r) by {
                assert(log[rail_pos(r, 9)] == old_log[rail_pos(r, 9)]);
                assert(log[rail_pos(r, 11)] == old_log[rail_pos(r, 11)]);
                assert(log[rail_pos(r, 13)] == old_log[rail_pos(r, 13)]);
            }
            lemma_pages_frame(log, old_log, prev, i as int);
            if page_done {
                assert(spec_pages(log, prev, i + 1) == spec_pages(log, prev, i as int)
                    + option_seq(page_entry(log, prev, i as int)));
                if k == 11 {
                    assert(log[page_pos(i as int, 3)] == old_log[page_pos(i as int, 3)]);
                    assert(log[page_pos(i as int, 5)] == old_log[page_pos(i as int, 5)]);
                    assert(log[page_pos(i as int, 7)] == old_log[page_pos(i as int, 7)]);
                    assert(log[page_pos(i as int, 9)] == old_log[page_pos(i as int, 9)]);
                    assert(page_entry(log, prev, i as int) == Some(spec_fresh_page(log, i as int)));
                }
                assert(self.pages@ =~= spec_pages(log, prev, i + 1));
            } else if k >= 4 {
                assert(log[page_pos(i as int, 3)] == old_log[page_pos(i as int, 3)]);
            }
            assert(self.replies@ =~= padded(old_log.push(reply_view), self.position()));
        }
    }

    fn advance_tail(&mut self, reply: Vec<u8>)
        requires
            old(self).wf(),
            old(self).stage == STAGE_TAIL,
        ensures
            final(self).wf(),
            final(self).position() == next_position(old(self).position(), reply@, old(self).replies()),
            final(self).replies() == padded(old(self).replies().push(reply@), final(self).position()),
            final(self).previous_pages() == old(self).previous_pages(),
    {
        let ghost old_log = self.replies@;
        let ghost pos = self.position();
        let ghost reply_view = reply@;
        let ghost prev = self.previous@;
        if self.k == 5 {
            self.uptime = uptime_seconds(block_read_payload(reply, 2).as_slice());
            self.stage = STAGE_DONE;
            self.k = 0;
        } else {
            self.k = self.k + 1;
        }
        self.replies = Ghost(old_log.push(reply_view));
        proof {
            let log = self.replies@;
            assert forall|q: int| 0 <= q < pos implies #[trigger] log[q] == old_log[q] by {}
            assert forall|r: int| 0 <= r < self.rails_done() implies #[trigger] self.rails@[r] == spec_rail(log, r) by {
                assert(log[rail_pos(r, 9)] == old_log[rail_pos(r, 9)]);
                assert(log[rail_pos(r, 11)] == old_log[rail_pos(r, 11)]);
                assert(log[rail_pos(r, 13)] == old_log[rail_pos(r, 13)]);
            }
            lemma_pages_frame(log, old_log, prev, PAGE_COUNT as int);
            assert(self.replies@ =~= padded(old_log.push(reply_view), self.position()));
        }
    }
}


/// A copy of a list of 12V page readings.
pub fn copy_pages(pages: &Vec<TwelveVPageReadings>) -> (c: Vec<TwelveVPageReadings>)
    ensures
        c@ == pages@,
{
    let mut c: Vec<TwelveVPageReadings> = Vec::new();
    let mut j: usize = 0;
    while j < pages.len()
        invariant
            j <= pages@.len(),
            c@ == pages@.take(j as int),
        decreases pages@.len() - j,
    {
        c.push(pages[j]);
        j += 1;
        assert(c@ =~= pages@.take(j as int));
    }
    assert(pages@.take(pages@.len() as int) =~= pages@);
    c
}

impl ReadoutSession {
    /// The readings of a finished readout.
    pub fn finish(self) -> (r: PsuReadings)
        requires
            self.wf(),
            self.position() == READOUT_END,
        ensures
            r@ == spec_readout(self.replies(), self.previous_pages()),
            r@.rails.len() == RAIL_COUNT,
            r@.twelve_v_pages.len() <= PAGE_COUNT,
            forall|a: int, b: int|
                0 <= a < b < r@.twelve_v_pages.len() ==> #[trigger] r@.twelve_v_pages[a].page
                    < #[trigger] r@.twelve_v_pages[b].page,
            forall|a: int| 0 <= a < r@.twelve_v_pages.len() ==> #[trigger] r@.twelve_v_pages[a].page < PAGE_COUNT,
    {
        let ghost log = self.replies@;
        proof {
            lemma_pages_ordered(log, self.previous@, PAGE_COUNT as int);
        }
        let r = PsuReadings {
            bus: 0,
            address: 0,
            name: self.name,
            input_voltage: self.input_voltage,
            input_current: self.input_current,
            input_power_raw: self.input_power_raw,
            cable_type_20a: self.cable_type_20a,
            fan_mode: self.fan_mode,
            rails: self.rails,
            twelve_v_pages: self.pages,
            temp1: self.temp1,
            temp2: self.temp2,
            fan_speed: self.fan_speed,
            uptime_seconds: self.uptime,
        };
        assert(r.rails@ =~= Seq::new(RAIL_COUNT as nat, |q: int| spec_rail(log, q)));
        r
    }
}


// ---------------------------------------------------------------------------
// Laws of the readout.

proof fn lemma_find_page_found(pages: Seq<TwelveVPageReadings>, page: int)
    ensures
        find_page(pages, page) matches Some(p) ==> p.page == page && pages.contains(p),
        find_page(pages, page) is None ==> forall|j: int| 0 <= j < pages.len() ==> #[trigger] pages[j].page != page,
    decreases pages.len(),
{
    if pages.len() > 0 && pages[0].page != page {
        lemma_find_page_found(pages.drop_first(), page);
        if let Some(p) = find_page(pages, page) {
            let j = choose|j: int| 0 <= j < pages.drop_first().len() && pages.drop_first()[j] == p;
            assert(pages[j + 1] == p);
        } else {
            assert forall|j: int| 0 <= j < pages.len() implies #[trigger] pages[j].page != page by {
                if j > 0 {
                    assert(pages.drop_first()[j - 1] == pages[j]);
                }
            }
        }
    }
}

proof fn lemma_page_entry_page(replies: Seq<Seq<u8>>, previous: Seq<TwelveVPageReadings>, page: int)
    requires
        0 <= page < 256,
    ensures
        page_entry(replies, previous, page) matches Some(p) ==> p.page == page,
{
    lemma_find_page_found(previous, page);
}

/// The 12V pages of a readout come in strictly increasing page order, each
/// below the number of pages looked at.
pub proof fn lemma_pages_ordered(replies: Seq<Seq<u8>>, previous: Seq<TwelveVPageReadings>, n: int)
    requires
        0 <= n <= PAGE_COUNT,
    ensures
        forall|a: int, b: int|
            0 <= a < b < spec_pages(replies, previous, n).len() ==>
                #[trigger] spec_pages(replies, previous, n)[a].page < #[trigger] spec_pages(replies, previous, n)[b].page,
        forall|a: int|
            0 <= a < spec_pages(replies, previous, n).len() ==>
                #[trigger] spec_pages(replies, previous, n)[a].page < n,
        spec_pages(replies, previous, n).len() <= n,
    decreases n,
{
    if n > 0 {
        lemma_pages_ordered(replies, previous, n - 1);
        lemma_page_entry_page(replies, previous, n - 1);
        let s = spec_pages(replies, previous, n - 1);
        let t = spec_pages(replies, previous, n);
        assert forall|a: int| 0 <= a < t.len() implies #[trigger] t[a].page < n by {
            if a < s.len() {
                assert(t[a] == s[a]);
            }
        }
        assert forall|a: int, b: int| 0 <= a < b < t.len() implies #[trigger] t[a].page < #[trigger] t[b].page by {
            assert(t[a] == s[a]);
            if b < s.len() {
                assert(t[b] == s[b]);
            }
        }
    }
}

/// A 12V page whose selection was confirmed is reported with the registers
/// just read.
pub proof fn lemma_confirmed_page_fresh(replies: Seq<Seq<u8>>, previous: Seq<TwelveVPageReadings>, page: int)
    requires
        0 <= page < PAGE_COUNT,
        page_confirmed(replies, page),
    ensures
        spec_readout(replies, previous).twelve_v_pages.contains(spec_fresh_page(replies, page)),
{
    lemma_pages_contains(replies, previous, page, PAGE_COUNT as int);
}

proof fn lemma_pages_contains(replies: Seq<Seq<u8>>, previous: Seq<TwelveVPageReadings>, page: int, n: int)
    requires
        0 <= page < n,
    ensures
        page_entry(replies, previous, page) matches Some(p) ==> spec_pages(replies, previous, n).contains(p),
    decreases n,
{
    if let Some(p) = page_entry(replies, previous, page) {
        let s = spec_pages(replies, previous, n - 1);
        let t = spec_pages(replies, previous, n);
        if page == n - 1 {
            assert(t[s.len() as int] == p);
        } else {
            lemma_pages_contains(replies, previous, page, n - 1);
            let j = choose|j: int| 0 <= j < s.len() && s[j] == p;
            assert(t[j] == p);
        }
    }
}

/// A 12V page that the previous readout reported, and that this readout
/// could not confirm, is reported again with its previous reading.
pub proof fn lemma_unconfirmed_page_kept(
    replies: Seq<Seq<u8>>,
    previous: Seq<TwelveVPageReadings>,
    page: int,
)
    requires
        0 <= page < PAGE_COUNT,
        !page_confirmed(replies, page),
        find_page(previous, page) is Some,
    ensures
        spec_readout(replies, previous).twelve_v_pages.contains(find_page(previous, page)->0),
{
    lemma_pages_contains(replies, previous, page, PAGE_COUNT as int);
}

/// Once reported, a 12V page keeps being reported: every page of the previous
/// readout (below twelve) appears again in the next one, fresh or kept.
pub proof fn lemma_pages_persist(
    replies: Seq<Seq<u8>>,
    previous: Seq<TwelveVPageReadings>,
    q: TwelveVPageReadings,
)
    requires
        previous.contains(q),
        q.page < PAGE_COUNT,
    ensures
        exists|j: int|
            0 <= j < spec_readout(replies, previous).twelve_v_pages.len()
                && #[trigger] spec_readout(replies, previous).twelve_v_pages[j].page == q.page,
{
    let page = q.page as int;
    lemma_find_page_found(previous, page);
    lemma_page_entry_page(replies, previous, page);
    lemma_pages_contains(replies, previous, page, PAGE_COUNT as int);
    let p = page_entry(replies, previous, page)->0;
    let t = spec_readout(replies, previous).twelve_v_pages;
    let j = choose|j: int| 0 <= j < t.len() && t[j] == p;
    assert(t[j].page == q.page);
}

/// The script only moves forward, and never past its end.
pub proof fn lemma_progress(pos: int, reply: Seq<u8>, replies: Seq<Seq<u8>>)
    requires
        0 <= pos < READOUT_END,
    ensures
        pos < next_position(pos, reply, replies) <= READOUT_END,
{
    if PAGES_BASE <= pos < TAIL_BASE {
        let q = (pos - PAGES_BASE) / PAGE_LEN as int;
        let r = (pos - PAGES_BASE) % PAGE_LEN as int;
        vstd::arithmetic::div_mod::lemma_fundamental_div_mod(pos - PAGES_BASE, PAGE_LEN as int);
        assert(0 <= r < 12);
        assert(q <= 11);
    }
}

/// The 20A cable is reported only for a supply whose reported name contains
/// "AX1500".
pub proof fn lemma_cable_needs_ax1500_name(replies: Seq<Seq<u8>>, previous: Seq<TwelveVPageReadings>)
    ensures
        spec_readout(replies, previous).cable_type_20a ==> contains_run(
            spec_readout(replies, previous).name,
            ax1500_tag(),
        ),
{
}

/// The cable-type register is read right after the output power exactly
/// when the name read contains "AX1500"; otherwise the script goes on to the
/// second temperature.
pub proof fn lemma_cable_read_iff_ax1500(reply: Seq<u8>, replies: Seq<Seq<u8>>)
    ensures
        readout_step(CABLE_POS - 1) == read_step(1, 0xf2, 0),
        next_position(OUTPUT_POWER_POS as int, reply, replies) == if contains_run(
            spec_model_name(reply_payload(replies, NAME_POS as int, 7)),
            ax1500_tag(),
        ) {
            CABLE_POS - 1
        } else {
            TEMP2_POS - 1
        },
{
}

/// Whatever the previous pages and whatever the supply replied, a readout
/// reports three rails and at most twelve 12V pages, in strictly increasing
/// page order, each below twelve; its name does not end in a NUL.
pub proof fn lemma_readout_shape(replies: Seq<Seq<u8>>, previous: Seq<TwelveVPageReadings>)
    ensures
        spec_readout(replies, previous).rails.len() == RAIL_COUNT,
        spec_readout(replies, previous).twelve_v_pages.len() <= PAGE_COUNT,
        forall|a: int, b: int|
            0 <= a < b < spec_readout(replies, previous).twelve_v_pages.len() ==>
                #[trigger] spec_readout(replies, previous).twelve_v_pages[a].page
                    < #[trigger] spec_readout(replies, previous).twelve_v_pages[b].page,
        forall|a: int|
            0 <= a < spec_readout(replies, previous).twelve_v_pages.len() ==>
                #[trigger] spec_readout(replies, previous).twelve_v_pages[a].page < PAGE_COUNT,
        spec_readout(replies, previous).name.len() == 0
            || spec_readout(replies, previous).name.last() != '\0',
{
    lemma_pages_ordered(replies, previous, PAGE_COUNT as int);
    lemma_trim_trailing_nul(utf8_lossy(reply_payload(replies, NAME_POS as int, 7)));
}

/// The fan mode reported is Unknown exactly when the fan-mode register's
/// reply is empty, Auto exactly when its first byte is 0, and Fixed exactly
/// when its first byte is anything else.
pub proof fn lemma_fan_mode_law(replies: Seq<Seq<u8>>, previous: Seq<TwelveVPageReadings>)
    ensures
        ({
            let back = replies[FAN_MODE_POS as int];
            let mode = spec_readout(replies, previous).fan_mode;
            &&& (mode == FanMode::Unknown <==> back.len() == 0)
            &&& (mode == FanMode::Auto <==> back.len() > 0 && back[0] == 0)
            &&& (mode == FanMode::Fixed <==> back.len() > 0 && back[0] != 0)
        }),
{
    let back = replies[FAN_MODE_POS as int];
    let p = reply_payload(replies, FAN_MODE_POS as int, 1);
    if back.len() > 0 {
        assert(p.len() == 1 && p[0] == back[0]);
    } else {
        assert(p.len() == 0);
    }
}

proof fn lemma_pages_with_page(replies: Seq<Seq<u8>>, previous: Seq<TwelveVPageReadings>, p: int, n: int)
    requires
        0 <= p < 256,
        0 <= n <= PAGE_COUNT,
    ensures
        forall|j: int|
            0 <= j < spec_pages(replies, previous, n).len() && #[trigger] spec_pages(replies, previous, n)[j].page == p
                ==> p < n && page_entry(replies, previous, p) == Some(spec_pages(replies, previous, n)[j]),
    decreases n,
{
    if n > 0 {
        lemma_pages_with_page(replies, previous, p, n - 1);
        lemma_pages_ordered(replies, previous, n - 1);
        lemma_page_entry_page(replies, previous, n - 1);
        let s = spec_pages(replies, previous, n - 1);
        let t = spec_pages(replies, previous, n);
        assert forall|j: int|
            0 <= j < t.len() && #[trigger] t[j].page == p implies p < n && page_entry(replies, previous, p) == Some(t[j]) by {
            if j < s.len() {
                assert(t[j] == s[j]);
            } else {
                assert(t[j] == page_entry(replies, previous, n - 1)->0);
            }
        }
    }
}

/// A 12V page is reported with the registers just read only when the page
/// register read back exactly that page number. When it read back anything
/// else (or nothing), every report of that page is a reading from the
/// previous readout, and the page is left out if the previous readout had no
/// reading of it.
pub proof fn lemma_page_readback_exact(replies: Seq<Seq<u8>>, previous: Seq<TwelveVPageReadings>, p: int)
    requires
        0 <= p < PAGE_COUNT,
    ensures
        ({
            let back = replies[PAGES_BASE + PAGE_LEN * p + 3];
            let exact = back.len() > 0 && back[0] == p as u8;
            let pages = spec_readout(replies, previous).twelve_v_pages;
            &&& exact ==> pages.contains(TwelveVPageReadings {
                page: p as u8,
                voltage: spec_decode(prefix(replies[PAGES_BASE + PAGE_LEN * p + 5], 2)),
                current: spec_decode(prefix(replies[PAGES_BASE + PAGE_LEN * p + 7], 2)),
                power: spec_decode(prefix(replies[PAGES_BASE + PAGE_LEN * p + 9], 2)),
                ocp_limit: spec_decode(prefix(replies[PAGES_BASE + PAGE_LEN * p + 11], 2)),
            })
            &&& !exact ==> forall|j: int|
                0 <= j < pages.len() && #[trigger] pages[j].page == p ==> previous.contains(pages[j])
            &&& (!exact && forall|k: int| 0 <= k < previous.len() ==> #[trigger] previous[k].page != p)
                ==> forall|j: int| 0 <= j < pages.len() ==> #[trigger] pages[j].page != p
        }),
{
    let back = replies[page_pos(p, 3)];
    let pb = reply_payload(replies, page_pos(p, 3), 1);
    if back.len() > 0 {
        assert(pb.len() == 1 && pb[0] == back[0]);
    }
    lemma_pages_with_page(replies, previous, p, PAGE_COUNT as int);
    lemma_find_page_found(previous, p);
    if back.len() > 0 && back[0] == p as u8 {
        lemma_confirmed_page_fresh(replies, previous, p);
    }
}

/// At a 12V page's read-back, the script goes on to that page's registers
/// only when the reply's first byte is exactly the page number; otherwise it
/// skips to the next page.
pub proof fn lemma_page_skip_exact(p: int, reply: Seq<u8>, replies: Seq<Seq<u8>>)
    requires
        0 <= p < PAGE_COUNT,
    ensures
        next_position(PAGES_BASE + PAGE_LEN * p + 3, reply, replies) == if reply.len() > 0
            && reply[0] == p as u8 {
            PAGES_BASE + PAGE_LEN * p + 4
        } else {
            PAGES_BASE + PAGE_LEN * (p + 1)
        },
{
    let pos = PAGES_BASE + PAGE_LEN * p + 3;
    lemma_fundamental_div_mod_converse(pos - PAGES_BASE, PAGE_LEN as int, p, 3);
    if reply.len() > 0 {
        assert(prefix(reply, 1)[0] == reply[0]);
    }
}

/// The script's fetch at `pos` (with its header just before) is a block read
/// of `len` bytes from register `reg`.
pub open spec fn block_read_at(pos: int, len: u8, reg: u8) -> bool {
    &&& readout_step(pos - 1) == Step::Transact {
        command: 0,
        msg: seq![0x13u8, 0x03u8, 0x06u8, 0x01u8, 0x07u8, len, reg],
        expected: 1,
    }
    &&& readout_step(pos) == Step::Transact {
        command: 0,
        msg: seq![0x08u8, 0x07u8, len],
        expected: len + 1,
    }
}

proof fn lemma_identity_reads()
    ensures
        block_read_at(NAME_POS as int, 7, 0x9a),
        block_read_at(FAN_MODE_POS as int, 1, 0xf0),
        block_read_at(FAN_SPEED_POS as int, 2, 0x90),
        block_read_at(TEMP1_POS as int, 2, 0x8e),
{
}

proof fn lemma_input_reads()
    ensures
        block_read_at(INPUT_POWER_POS as int, 2, 0x97),
        block_read_at(INPUT_CURRENT_POS as int, 2, 0x89),
        block_read_at(INPUT_VOLTAGE_POS as int, 2, 0x88),
        block_read_at(CABLE_POS as int, 1, 0xf2),
        block_read_at(TEMP2_POS as int, 2, 0x8d),
{
}

proof fn lemma_tail_reads()
    ensures
        block_read_at(UPTIME_POS as int, 2, 0xd2),
{
}

/// Every register value the readout reports comes from a block read of that
/// register at the position it is taken from: the model name 7 bytes, the
/// fan mode, cable type and page read-backs 1 byte, and every LINEAR11
/// register and the uptime 2 bytes.
pub proof fn lemma_register_reads()
    ensures
        block_read_at(NAME_POS as int, 7, 0x9a),
        block_read_at(FAN_MODE_POS as int, 1, 0xf0),
        block_read_at(FAN_SPEED_POS as int, 2, 0x90),
        block_read_at(TEMP1_POS as int, 2, 0x8e),
        block_read_at(INPUT_POWER_POS as int, 2, 0x97),
        block_read_at(INPUT_CURRENT_POS as int, 2, 0x89),
        block_read_at(INPUT_VOLTAGE_POS as int, 2, 0x88),
        block_read_at(CABLE_POS as int, 1, 0xf2),
        block_read_at(TEMP2_POS as int, 2, 0x8d),
        block_read_at(UPTIME_POS as int, 2, 0xd2),
        forall|r: int| 0 <= r < RAIL_COUNT ==> #[trigger] block_read_at(rail_pos(r, 9), 2, 0x8b),
        forall|r: int| 0 <= r < RAIL_COUNT ==> #[trigger] block_read_at(rail_pos(r, 11), 2, 0x8c),
        forall|r: int| 0 <= r < RAIL_COUNT ==> #[trigger] block_read_at(rail_pos(r, 13), 2, 0x96),
        forall|p: int| 0 <= p < PAGE_COUNT ==> #[trigger] block_read_at(page_pos(p, 3), 1, 0xe7),
        forall|p: int| 0 <= p < PAGE_COUNT ==> #[trigger] block_read_at(page_pos(p, 5), 2, 0x8b),
        forall|p: int| 0 <= p < PAGE_COUNT ==> #[trigger] block_read_at(page_pos(p, 7), 2, 0xe8),
        forall|p: int| 0 <= p < PAGE_COUNT ==> #[trigger] block_read_at(page_pos(p, 9), 2, 0xe9),
        forall|p: int| 0 <= p < PAGE_COUNT ==> #[trigger] block_read_at(page_pos(p, 11), 2, 0xea),
{
    lemma_identity_reads();
    lemma_input_reads();
    lemma_tail_reads();
    assert forall|r: int| 0 <= r < RAIL_COUNT implies #[trigger] block_read_at(rail_pos(r, 9), 2, 0x8b) by {
        lemma_fundamental_div_mod_converse(rail_pos(r, 9) - 1 - RAILS_BASE, RAIL_LEN as int, r, 8);
        lemma_fundamental_div_mod_converse(rail_pos(r, 9) - RAILS_BASE, RAIL_LEN as int, r, 9);
    }
    assert forall|r: int| 0 <= r < RAIL_COUNT implies #[trigger] block_read_at(rail_pos(r, 11), 2, 0x8c) by {
        lemma_fundamental_div_mod_converse(rail_pos(r, 11) - 1 - RAILS_BASE, RAIL_LEN as int, r, 10);
        lemma_fundamental_div_mod_converse(rail_pos(r, 11) - RAILS_BASE, RAIL_LEN as int, r, 11);
    }
    assert forall|r: int| 0 <= r < RAIL_COUNT implies #[trigger] block_read_at(rail_pos(r, 13), 2, 0x96) by {
        lemma_fundamental_div_mod_converse(rail_pos(r, 13) - 1 - RAILS_BASE, RAIL_LEN as int, r, 12);
        lemma_fundamental_div_mod_converse(rail_pos(r, 13) - RAILS_BASE, RAIL_LEN as int, r, 13);
    }
    assert forall|p: int| 0 <= p < PAGE_COUNT implies #[trigger] block_read_at(page_pos(p, 3), 1, 0xe7) by {
        lemma_fundamental_div_mod_converse(page_pos(p, 3) - 1 - PAGES_BASE, PAGE_LEN as int, p, 2);
        lemma_fundamental_div_mod_converse(page_pos(p, 3) - PAGES_BASE, PAGE_LEN as int, p, 3);
    }
    assert forall|p: int| 0 <= p < PAGE_COUNT implies #[trigger] block_read_at(page_pos(p, 5), 2, 0x8b) by {
        lemma_fundamental_div_mod_converse(page_pos(p, 5) - 1 - PAGES_BASE, PAGE_LEN as int, p, 4);
        lemma_fundamental_div_mod_converse(page_pos(p, 5) - PAGES_BASE, PAGE_LEN as int, p, 5);
    }
    assert forall|p: int| 0 <= p < PAGE_COUNT implies #[trigger] block_read_at(page_pos(p, 7), 2, 0xe8) by {
        lemma_fundamental_div_mod_converse(page_pos(p, 7) - 1 - PAGES_BASE, PAGE_LEN as int, p, 6);
        lemma_fundamental_div_mod_converse(page_pos(p, 7) - PAGES_BASE, PAGE_LEN as int, p, 7);
    }
    assert forall|p: int| 0 <= p < PAGE_COUNT implies #[trigger] block_read_at(page_pos(p, 9), 2, 0xe9) by {
        lemma_fundamental_div_mod_converse(page_pos(p, 9) - 1 - PAGES_BASE, PAGE_LEN as int, p, 8);
        lemma_fundamental_div_mod_converse(page_pos(p, 9) - PAGES_BASE, PAGE_LEN as int, p, 9);
    }
    assert forall|p: int| 0 <= p < PAGE_COUNT implies #[trigger] block_read_at(page_pos(p, 11), 2, 0xea) by {
        lemma_fundamental_div_mod_converse(page_pos(p, 11) - 1 - PAGES_BASE, PAGE_LEN as int, p, 10);
        lemma_fundamental_div_mod_converse(page_pos(p, 11) - PAGES_BASE, PAGE_LEN as int, p, 11);
    }
}

/// The script's step at `pos` writes `value` to the page register `reg`, the
/// next one waits 2 ms, and the two after read the register back (1 byte).
pub open spec fn page_select_at(pos: int, reg: u8, value: u8) -> bool {
    &&& readout_step(pos) == Step::Transact {
        command: 0,
        msg: seq![0x13u8, 0x01u8, 0x04u8, 0x02u8, reg, value],
        expected: 1,
    }
    &&& readout_step(pos + 1) == Step::Pause { millis: 2 }
    &&& block_read_at(pos + 3, 1, reg)
}

proof fn lemma_main_page_selects()
    ensures
        page_select_at(8, 0x00, 0),
        page_select_at(PAGES_SELECT_BASE as int, 0x00, 0),
        page_select_at(TAIL_BASE as int, 0x00, 0),
{
    assert(seq![0u8] + Seq::<u8>::empty() =~= seq![0u8]);
    assert(seq![0x13u8, 0x01u8, 0x04u8, ((seq![0u8].len() + 1) % 256) as u8, 0x00u8] + seq![0u8]
        =~= seq![0x13u8, 0x01u8, 0x04u8, 0x02u8, 0x00u8, 0u8]);
}

/// Before the first power reading, before the 12V pages and before the
/// uptime, main page 0 is selected; each rail selects its main page and 12V
/// page 0; each 12V page is selected through register 0xe7 by its number.
pub proof fn lemma_page_selects()
    ensures
        page_select_at(8, 0x00, 0),
        page_select_at(PAGES_SELECT_BASE as int, 0x00, 0),
        page_select_at(TAIL_BASE as int, 0x00, 0),
        forall|r: int| 0 <= r < RAIL_COUNT ==> #[trigger] page_select_at(rail_pos(r, 0), 0x00, r as u8),
        forall|r: int| 0 <= r < RAIL_COUNT ==> #[trigger] page_select_at(rail_pos(r, 4), 0xe7, 0),
        forall|p: int| 0 <= p < PAGE_COUNT ==> #[trigger] page_select_at(page_pos(p, 0), 0xe7, p as u8),
{
    lemma_main_page_selects();
    assert forall|r: int| 0 <= r < RAIL_COUNT implies #[trigger] page_select_at(rail_pos(r, 0), 0x00, r as u8) by {
        lemma_fundamental_div_mod_converse(rail_pos(r, 0) - RAILS_BASE, RAIL_LEN as int, r, 0);
        lemma_fundamental_div_mod_converse(rail_pos(r, 0) + 1 - RAILS_BASE, RAIL_LEN as int, r, 1);
        lemma_fundamental_div_mod_converse(rail_pos(r, 0) + 2 - RAILS_BASE, RAIL_LEN as int, r, 2);
        lemma_fundamental_div_mod_converse(rail_pos(r, 0) + 3 - RAILS_BASE, RAIL_LEN as int, r, 3);
        assert(spec_block_write_frame(0x00, seq![r as u8]) =~= seq![0x13u8, 0x01u8, 0x04u8, 0x02u8, 0x00u8, r as u8]);
    }
    assert forall|r: int| 0 <= r < RAIL_COUNT implies #[trigger] page_select_at(rail_pos(r, 4), 0xe7, 0) by {
        lemma_fundamental_div_mod_converse(rail_pos(r, 4) - RAILS_BASE, RAIL_LEN as int, r, 4);
        lemma_fundamental_div_mod_converse(rail_pos(r, 4) + 1 - RAILS_BASE, RAIL_LEN as int, r, 5);
        lemma_fundamental_div_mod_converse(rail_pos(r, 4) + 2 - RAILS_BASE, RAIL_LEN as int, r, 6);
        lemma_fundamental_div_mod_converse(rail_pos(r, 4) + 3 - RAILS_BASE, RAIL_LEN as int, r, 7);
        assert(spec_block_write_frame(0xe7, seq![0u8]) =~= seq![0x13u8, 0x01u8, 0x04u8, 0x02u8, 0xe7u8, 0u8]);
    }
    assert forall|p: int| 0 <= p < PAGE_COUNT implies #[trigger] page_select_at(page_pos(p, 0), 0xe7, p as u8) by {
        lemma_fundamental_div_mod_converse(page_pos(p, 0) - PAGES_BASE, PAGE_LEN as int, p, 0);
        lemma_fundamental_div_mod_converse(page_pos(p, 0) + 1 - PAGES_BASE, PAGE_LEN as int, p, 1);
        lemma_fundamental_div_mod_converse(page_pos(p, 0) + 2 - PAGES_BASE, PAGE_LEN as int, p, 2);
        lemma_fundamental_div_mod_converse(page_pos(p, 0) + 3 - PAGES_BASE, PAGE_LEN as int, p, 3);
        assert(spec_block_write_frame(0xe7, seq![p as u8]) =~= seq![0x13u8, 0x01u8, 0x04u8, 0x02u8, 0xe7u8, p as u8]);
    }
}

/// The LINEAR11 value in the first two bytes of a reply.
pub open spec fn word_of(reply: Seq<u8>) -> Linear11 {
    spec_decode(prefix(reply, 2))
}

/// Each value a readout reports is the reply fetched from its register: the
/// scalar readings from their fixed positions, each rail from its three
/// reads, the uptime as a little-endian count, and the 20A cable exactly for
/// an AX1500 name with a nonzero cable byte.
pub proof fn lemma_readout_fields(replies: Seq<Seq<u8>>, previous: Seq<TwelveVPageReadings>)
    ensures
        ({
            let r = spec_readout(replies, previous);
            let up = replies[UPTIME_POS as int];
            let cable = replies[CABLE_POS as int];
            &&& r.bus == 0 && r.address == 0
            &&& r.fan_speed == word_of(replies[FAN_SPEED_POS as int])
            &&& r.temp1 == word_of(replies[TEMP1_POS as int])
            &&& r.input_power_raw == word_of(replies[INPUT_POWER_POS as int])
            &&& r.input_current == word_of(replies[INPUT_CURRENT_POS as int])
            &&& r.input_voltage == word_of(replies[INPUT_VOLTAGE_POS as int])
            &&& r.temp2 == word_of(replies[TEMP2_POS as int])
            &&& forall|i: int| 0 <= i < RAIL_COUNT ==> #[trigger] r.rails[i] == (RailReadings {
                voltage: word_of(replies[RAILS_BASE + RAIL_LEN * i + 9]),
                current: word_of(replies[RAILS_BASE + RAIL_LEN * i + 11]),
                power: word_of(replies[RAILS_BASE + RAIL_LEN * i + 13]),
            })
            &&& r.uptime_seconds == if up.len() >= 2 { up[0] as int + 256 * up[1] as int } else { 0 }
            &&& r.cable_type_20a == (contains_run(r.name, seq!['A', 'X', '1', '5', '0', '0'])
                && cable.len() > 0 && cable[0] != 0)
        }),
{
    let up = replies[UPTIME_POS as int];
    let pu = reply_payload(replies, UPTIME_POS as int, 2);
    if up.len() >= 2 {
        assert(pu[0] == up[0] && pu[1] == up[1]);
    }
    let cable = replies[CABLE_POS as int];
    let pc = reply_payload(replies, CABLE_POS as int, 1);
    if cable.len() > 0 {
        assert(pc[0] == cable[0]);
    }
}

} // verus!
