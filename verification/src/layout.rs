//! Integer parts of the display's layout.

use vstd::prelude::*;
use crate::readings::PsuReadings;

verus! {

/// The largest number of 12V pages among the readouts (0 when there are none).
pub open spec fn max_page_count(readings: Seq<PsuReadings>) -> nat
    decreases readings.len(),
{
    if readings.len() == 0 {
        0
    } else {
        let rest = max_page_count(readings.drop_last());
        let here = readings.last().twelve_v_pages@.len();
        if here > rest { here } else { rest }
    }
}

/// Finds the largest number of 12V pages among the readouts.
pub fn max_pages(readings: &Vec<PsuReadings>) -> (m: usize)
    ensures
        m == max_page_count(readings@),
        forall|j: int| 0 <= j < readings@.len() ==> #[trigger] readings@[j].twelve_v_pages@.len() <= m,
        readings@.len() == 0 ==> m == 0,
        readings@.len() > 0 ==> exists|j: int| 0 <= j < readings@.len() && #[trigger] readings@[j].twelve_v_pages@.len() == m,
{
    proof {
        lemma_max_page_count(readings@);
    }
    let mut m: usize = 0;
    let mut j: usize = 0;
    while j < readings.len()
        invariant
            j <= readings@.len(),
            m == max_page_count(readings@.take(j as int)),
        decreases readings@.len() - j,
    {
        assert(readings@.take(j + 1).drop_last() =~= readings@.take(j as int));
        let here = readings[j].twelve_v_pages.len();
        if here > m {
            m = here;
        }
        j += 1;
    }
    assert(readings@.take(readings@.len() as int) =~= readings@);
    m
}

/// The largest page count is at least every readout's page count and is the
/// page count of one of them; with no readouts it is 0.
pub proof fn lemma_max_page_count(readings: Seq<PsuReadings>)
    ensures
        forall|j: int| 0 <= j < readings.len() ==> #[trigger] readings[j].twelve_v_pages@.len() <= max_page_count(readings),
        readings.len() == 0 ==> max_page_count(readings) == 0,
        readings.len() > 0 ==> exists|j: int| 0 <= j < readings.len() && #[trigger] readings[j].twelve_v_pages@.len() == max_page_count(readings),
    decreases readings.len(),
{
    if readings.len() > 0 {
        let init = readings.drop_last();
        lemma_max_page_count(init);
        let last = readings.len() - 1;
        assert forall|j: int| 0 <= j < readings.len() implies #[trigger] readings[j].twelve_v_pages@.len() <= max_page_count(readings) by {
            if j < last {
                assert(init[j] == readings[j]);
            }
        }
        if readings[last].twelve_v_pages@.len() == max_page_count(readings) {
        } else {
            let j = choose|j: int| 0 <= j < init.len() && #[trigger] init[j].twelve_v_pages@.len() == max_page_count(init);
            assert(init[j] == readings[j]);
        }
    }
}

/// Rows of each supply's 12V section: none when no supply has pages, else a
/// header row, a row per page of the supply with the most pages (counted as
/// a 16-bit row number) and two borders, saturating at the largest row count.
pub open spec fn spec_pages_section_height(max_pages: int) -> int {
    if max_pages == 0 {
        0
    } else if max_pages % 65536 + 3 > u16::MAX {
        u16::MAX as int
    } else {
        max_pages % 65536 + 3
    }
}

/// The height of the 12V section.
pub fn pages_section_height(max_pages: usize) -> (h: u16)
    requires
        max_pages % 65536 != 65535,
    ensures
        h == spec_pages_section_height(max_pages as int),
{
    if max_pages == 0 {
        0
    } else {
        let rows = (max_pages % 65536) as u16;
        (rows + 1).saturating_add(2)
    }
}

pub open spec fn spec_rail_label(index: int) -> Seq<char> {
    if index == 0 {
        seq!['1', '2', 'V', ' ']
    } else if index == 1 {
        seq![' ', '5', 'V', ' ']
    } else if index == 2 {
        seq!['3', '.', '3', 'V']
    } else {
        seq!['?', '?', '?', '?']
    }
}

/// The label of the rail at `index` in a readout: 12V, 5V and 3.3V in that
/// order, question marks past them.
pub fn rail_label(index: usize) -> (label: &'static str)
    ensures
        label@ == spec_rail_label(index as int),
{
    if index == 0 {
        proof { reveal_strlit("12V "); }
        let l = "12V ";
        assert(l@ =~= spec_rail_label(0));
        l
    } else if index == 1 {
        proof { reveal_strlit(" 5V "); }
        let l = " 5V ";
        assert(l@ =~= spec_rail_label(1));
        l
    } else if index == 2 {
        proof { reveal_strlit("3.3V"); }
        let l = "3.3V";
        assert(l@ =~= spec_rail_label(2));
        l
    } else {
        proof { reveal_strlit("????"); }
        let l = "????";
        assert(l@ =~= spec_rail_label(3));
        l
    }
}

} // verus!
