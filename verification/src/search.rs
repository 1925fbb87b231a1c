//! The device-search state machine: enumerates every distinct device
//! address on the bus, one address per call, by the standard
//! collision-resolution tree walk — no recursion, and the whole resumable
//! position held in a fixed-size state value.

use vstd::prelude::*;
use crate::Cmd;
use crate::Error;
use crate::Rom;
use crate::UartTrait;
use crate::low_level;
use crate::crc;

verus! {

/// Bit `i` of a 64-bit address, counted from the least-significant end.
pub open spec fn addr_bit(x: u64, i: u64) -> bool {
    (x >> i) & 1 == 1
}

/// The bits of `d` strictly below position `n`.
spec fn low_bits(d: u64, n: u8) -> u64 {
    d & !(0xFFFF_FFFF_FFFF_FFFFu64 << n)
}

/// The resumable position of an in-progress enumeration.  Only a completed
/// search step produces one; the caller passes it back unchanged.
pub struct SearchState {
    /// The address of the last found device.
    address: u64,
    /// Bit positions where a collision was observed and the 1 branch is
    /// still unexplored.
    discrepancies: u64,
    /// Position of the most significant unresolved collision; 0 when the
    /// mask is empty.
    last_discrepancy_index: u8,
}

impl SearchState {
    pub closed spec fn addr(self) -> u64 {
        self.address
    }

    pub closed spec fn disc(self) -> u64 {
        self.discrepancies
    }

    pub closed spec fn last_disc(self) -> u8 {
        self.last_discrepancy_index
    }

    /// The index always names the most significant set bit of the mask,
    /// the index is zero when the mask is empty, and the walk took the 0
    /// branch at every position still in the mask.
    pub open spec fn wf(self) -> bool {
        &&& (self.disc() == 0 ==> self.last_disc() == 0)
        &&& (self.disc() != 0 ==> self.last_disc() < 64 && (self.disc() >> (
        self.last_disc() as u64)) == 1)
        &&& (forall|j: u64| j < 64 && addr_bit(self.disc(), j) ==> !addr_bit(self.addr(), j))
    }
}

/// `a` comes before `b` in the order the tree walk explores addresses:
/// at their lowest differing bit position, `a` holds 0 and `b` holds 1.
pub open spec fn walk_precedes(a: u64, b: u64) -> bool {
    exists|p: u64|
        p < 64 && !addr_bit(a, p) && #[trigger] addr_bit(b, p) && (forall|j: u64|
            j < p ==> addr_bit(a, j) == addr_bit(b, j))
}

/// A resumed search step never repeats the address it resumed from and
/// strictly succeeds it in the walk's exploration order: the two agree
/// below the collision position it revisits, where the old walk took the
/// 0 branch and the new walk takes the 1 branch.  Successive discoveries
/// are therefore all distinct, and an enumeration is finite.
pub proof fn lemma_resumed_address_is_new(s: SearchState, new_addr: u64)
    requires
        s.wf(),
        s.disc() != 0,
        forall|j: u64| j < s.last_disc() ==> addr_bit(new_addr, j) == addr_bit(s.addr(), j),
        addr_bit(new_addr, s.last_disc() as u64),
    ensures
        new_addr != s.addr(),
        walk_precedes(s.addr(), new_addr),
{
    let l = s.last_disc() as u64;
    let d = s.disc();
    assert(addr_bit(d, l)) by (bit_vector)
        requires
            (d >> l) == 1,
    ;
    assert(l < 64 && !addr_bit(s.addr(), l) && addr_bit(new_addr, l) && (forall|j: u64|
        j < l ==> addr_bit(s.addr(), j) == addr_bit(new_addr, j)));
}

/// One enumeration step.  With no prior state it starts at the root of the
/// decision tree; with a prior state it replays the recorded choices up to
/// the deepest unresolved collision, takes the unexplored 1 branch there,
/// and resolves the remaining bits.  Returns the next discovered address
/// with the state to resume from, `Ok(None)` when the enumeration is
/// complete (or the bus is empty), or an error — which is terminal for the
/// whole enumeration.
#[verifier::loop_isolation(false)]
pub fn device_search<U: UartTrait>(
    uart: &mut U,
    search_state: Option<&SearchState>,
    only_alarming: bool,
) -> (r: Result<Option<(Rom, SearchState)>, Error>)
    requires
        search_state matches Some(s) ==> s.wf(),
    ensures
        (search_state matches Some(s) && s.disc() == 0) ==> r matches Ok(None),
        r matches Ok(Some((rom, st))) ==> {
            &&& st.wf()
            &&& crc::crc8_seq(rom.0@) == 0
            &&& forall|j: int|
                0 <= j < 8 ==> rom.0@[j] == (((st.addr() >> ((8 * j) as u64)) & 0xFF) as u8)
            &&& (search_state matches Some(s) ==> {
                &&& (forall|j: u64|
                    j < s.last_disc() ==> addr_bit(st.addr(), j) == addr_bit(s.addr(), j))
                &&& addr_bit(st.addr(), s.last_disc() as u64)
            })
        },
{
    if let Some(ss) = search_state {
        if ss.discrepancies == 0 {
            return Ok(None);
        }
    }
    if !low_level::ow_reset(uart).ok_or(Error::Uart)? {
        return Ok(None);
    }

    let command = if only_alarming {
        Cmd::SearchAlarm
    } else {
        Cmd::SearchNormal
    };
    low_level::ow_write_byte(uart, command.code()).ok_or(Error::Uart)?;

    let mut last_discrepancy_index: u8 = 0;
    let mut address: u64;
    let mut discrepancies: u64;
    let continue_start_bit: u8;

    if let Some(ss) = search_state {
        let d: u64 = ss.discrepancies;
        let l: u8 = ss.last_discrepancy_index;
        // replay the recorded choices up to the deepest unresolved collision
        proof {
            assert(low_bits(d, 0) == 0) by (bit_vector);
        }
        let mut bit_index: u8 = 0;
        while bit_index < l
            invariant
                bit_index <= l,
                l < 64,
                d != 0,
                (d >> (l as u64)) == 1,
                low_bits(d, bit_index) == 0 ==> last_discrepancy_index == 0,
                low_bits(d, bit_index) != 0 ==> last_discrepancy_index < bit_index && (low_bits(
                    d,
                    bit_index,
                ) >> (last_discrepancy_index as u64)) == 1,
            decreases l - bit_index,
        {
            let _false_bit = !low_level::ow_read_bit(uart).ok_or(Error::Uart)?;
            let _true_bit = !low_level::ow_read_bit(uart).ok_or(Error::Uart)?;
            let was_discrepancy_bit = (d & (1u64 << bit_index)) != 0;
            if was_discrepancy_bit {
                proof {
                    let bi = bit_index;
                    assert((low_bits(d, (bi + 1) as u8) >> (bi as u64)) == 1 && low_bits(
                        d,
                        (bi + 1) as u8,
                    ) != 0) by (bit_vector)
                        requires
                            d & (1u64 << bi) != 0,
                            bi < 63,
                    ;
                }
                last_discrepancy_index = bit_index;
            } else {
                proof {
                    let bi = bit_index;
                    assert(low_bits(d, (bi + 1) as u8) == low_bits(d, bi)) by (bit_vector)
                        requires
                            d & (1u64 << bi) == 0,
                            bi < 63,
                    ;
                }
            }
            let previous_chosen_bit = (ss.address & (1u64 << bit_index)) != 0;

            // choose the same branch as last time
            low_level::ow_write_bit(uart, previous_chosen_bit).ok_or(Error::Uart)?;
            bit_index = bit_index + 1;
        }
        address = ss.address;
        // At the collision bit itself both response signals must still show
        // a collision: a device took the 0 branch last time.  Take the
        // unexplored 1 branch now.
        {
            let false_bit = !low_level::ow_read_bit(uart).ok_or(Error::Uart)?;
            let true_bit = !low_level::ow_read_bit(uart).ok_or(Error::Uart)?;
            if !(false_bit && true_bit) {
                // the bus population changed between calls
                return Err(Error::UnexpectedResponse);
            }
            address = address | (1u64 << l);
            low_level::ow_write_bit(uart, true).ok_or(Error::Uart)?;
        }

        // the collision just taken is now fully resolved; keep the rest
        discrepancies = d & !(1u64 << l);
        proof {
            assert(d & !(1u64 << l) == low_bits(d, l)) by (bit_vector)
                requires
                    l < 64,
                    (d >> (l as u64)) == 1,
            ;
            if l < 63 {
                assert((low_bits(d, l) >> ((l + 1) as u64)) == 0) by (bit_vector)
                    requires
                        l < 63,
                ;
            }
        }
        continue_start_bit = l + 1;
    } else {
        address = 0;
        discrepancies = 0;
        continue_start_bit = 0;
        proof {
            assert((0u64 >> (0u64)) == 0) by (bit_vector);
        }
    }

    let ghost base_address: u64 = address;
    let ghost cs: u8 = continue_start_bit;

    proof {
        assert forall|j: u64| j < 64 && addr_bit(discrepancies, j) implies !addr_bit(
            address,
            j,
        ) by {
            if let Some(ss) = search_state {
                let l64 = ss.last_discrepancy_index as u64;
                lemma_kept_bit(ss.discrepancies, l64, j);
                assert(addr_bit(ss.disc(), j));
                lemma_untouched_bit(ss.address, l64, j);
            } else {
                assert(!addr_bit(0u64, j)) by (bit_vector);
            }
        }
    }

    let mut bit_index: u8 = continue_start_bit;
    while bit_index < 64
        invariant
            cs <= bit_index <= 64,
            discrepancies == 0 ==> last_discrepancy_index == 0,
            discrepancies != 0 ==> last_discrepancy_index < 64 && (discrepancies >> (
            last_discrepancy_index as u64)) == 1,
            bit_index < 64 ==> (discrepancies >> (bit_index as u64)) == 0,
            forall|j: u64| j < cs ==> addr_bit(address, j) == addr_bit(base_address, j),
            forall|j: u64| j < 64 && addr_bit(discrepancies, j) ==> !addr_bit(address, j),
        decreases 64 - bit_index,
    {
        let ghost d_head = discrepancies;
        let false_bit = !low_level::ow_read_bit(uart).ok_or(Error::Uart)?;
        let true_bit = !low_level::ow_read_bit(uart).ok_or(Error::Uart)?;
        let chosen_bit = match (false_bit, true_bit) {
            (false, false) => {
                // no device responded, though the walk is mid-tree
                return Err(Error::UnexpectedResponse);
            },
            (false, true) => {
                // all remaining devices agree on 1
                true
            },
            (true, false) => {
                // all remaining devices agree on 0
                false
            },
            (true, true) => {
                // a fresh collision: record it and take the 0 branch, so
                // that addresses come out in ascending branch order
                proof {
                    let bi = bit_index;
                    let d0 = discrepancies;
                    assert(((d0 | (1u64 << bi)) >> (bi as u64)) == 1 && (d0 | (1u64 << bi)) != 0
                        && (bi < 63 ==> ((d0 | (1u64 << bi)) >> ((bi + 1) as u64)) == 0)) by (bit_vector)
                        requires
                            bi < 64,
                            (d0 >> (bi as u64)) == 0,
                    ;
                }
                discrepancies = discrepancies | (1u64 << bit_index);
                last_discrepancy_index = bit_index;
                false
            },
        };
        proof {
            let bi = bit_index;
            let d1 = discrepancies;
            if bi < 63 && (d1 >> (bi as u64)) == 0 {
                assert((d1 >> ((bi + 1) as u64)) == 0) by (bit_vector)
                    requires
                        bi < 63,
                        (d1 >> (bi as u64)) == 0,
                ;
            }
        }
        let address_mask = 1u64 << bit_index;
        let ghost addr_before: u64 = address;
        if chosen_bit {
            address = address | address_mask;
        } else {
            address = address & !address_mask;
        }
        proof {
            assert forall|j: u64| j < cs implies addr_bit(address, j) == addr_bit(
                addr_before,
                j,
            ) by {
                lemma_untouched_bit(addr_before, bit_index as u64, j);
            }
            let bi = bit_index as u64;
            let d1 = discrepancies;
            assert forall|j: u64| j < 64 && addr_bit(d1, j) implies !addr_bit(address, j) by {
                if j == bi {
                    if chosen_bit {
                        // an agreeing position is never in the mask
                        assert(!addr_bit(d1, bi)) by (bit_vector)
                            requires
                                (d1 >> bi) == 0,
                        ;
                    } else {
                        lemma_set_bit(addr_before, bi);
                    }
                } else {
                    lemma_untouched_bit(d_head, bi, j);
                    lemma_untouched_bit(addr_before, bi, j);
                }
            }
        }
        low_level::ow_write_bit(uart, chosen_bit).ok_or(Error::Uart)?;
        bit_index = bit_index + 1;
    }
    let rom = rom_from_address(address);
    if !crc::verify(&rom.0) {
        return Err(Error::CrcMismatch);
    }
    proof {
        if let Some(s) = search_state {
            let l = s.last_disc();
            assert forall|j: u64| j < l implies addr_bit(address, j) == addr_bit(s.addr(), j) by {
                lemma_untouched_bit(s.addr(), l as u64, j);
            }
            assert(addr_bit(base_address, l as u64)) by {
                lemma_set_bit(s.addr(), l as u64);
            }
        }
    }
    Ok(
        Some(
            (
                rom,
                SearchState {
                    address,
                    discrepancies,
                    last_discrepancy_index,
                },
            ),
        ),
    )
}

/// Setting or clearing bit `i` leaves every other bit as it was.
proof fn lemma_untouched_bit(x: u64, i: u64, j: u64)
    by (bit_vector)
    requires
        i < 64,
        j < 64,
        i != j,
    ensures
        addr_bit(x | (1u64 << i), j) == addr_bit(x, j),
        addr_bit(x & !(1u64 << i), j) == addr_bit(x, j),
{
}

/// Setting bit `i` makes it 1; clearing it makes it 0.
proof fn lemma_set_bit(x: u64, i: u64)
    by (bit_vector)
    requires
        i < 64,
    ensures
        addr_bit(x | (1u64 << i), i),
        !addr_bit(x & !(1u64 << i), i),
{
}

/// A bit still in the mask after clearing position `l` was in the mask
/// before, at a position other than `l`.
proof fn lemma_kept_bit(d: u64, l: u64, j: u64)
    by (bit_vector)
    requires
        l < 64,
        j < 64,
    ensures
        addr_bit(d & !(1u64 << l), j) ==> (addr_bit(d, j) && j != l),
{
}

/// The eight bytes of a 64-bit address, least-significant byte first.
fn rom_from_address(address: u64) -> (rom: Rom)
    ensures
        forall|j: int| 0 <= j < 8 ==> rom.0@[j] == (((address >> ((8 * j) as u64)) & 0xFF) as u8),
{
    let rom = Rom(
        [
            shifted_byte(address, 0),
            shifted_byte(address, 8),
            shifted_byte(address, 16),
            shifted_byte(address, 24),
            shifted_byte(address, 32),
            shifted_byte(address, 40),
            shifted_byte(address, 48),
            shifted_byte(address, 56),
        ],
    );
    rom
}

/// Byte `sh / 8` of a 64-bit value.
fn shifted_byte(x: u64, sh: u64) -> (r: u8)
    requires
        sh < 64,
    ensures
        r == (((x >> sh) & 0xFF) as u8),
{
    proof {
        assert(((x >> sh) & 0xFF) < 256) by (bit_vector);
    }
    ((x >> sh) & 0xFF) as u8
}

/// A whole enumeration: hands out one address per `next` call, in the
/// branch order of the decision tree, and is terminal after an error or
/// after the last device.
pub struct DeviceSearch {
    state: Option<SearchState>,
    finished: bool,
    only_alarming: bool,
}

impl DeviceSearch {
    /// Any held resume state is well formed, and a finished enumeration
    /// holds none.
    pub closed spec fn wf(self) -> bool {
        &&& (self.state matches Some(s) ==> s.wf())
        &&& (self.finished ==> self.state is None)
    }

    pub closed spec fn is_finished(self) -> bool {
        self.finished
    }

    /// The state the next call resumes from; `None` at the start of an
    /// enumeration and after it ends.
    pub closed spec fn held(self) -> Option<SearchState> {
        self.state
    }

    /// Whether the enumeration asks only for alarming devices.
    pub closed spec fn alarm_only(self) -> bool {
        self.only_alarming
    }

    /// An enumeration that has not touched the bus: no held resume state,
    /// not finished.
    pub open spec fn is_fresh(self) -> bool {
        self.held() is None && !self.is_finished()
    }

    /// A fresh enumeration, of every device or of alarming devices only.
    pub fn new(only_alarming: bool) -> (r: DeviceSearch)
        ensures
            r.wf(),
            r.is_fresh(),
            r.alarm_only() == only_alarming,
    {
        DeviceSearch { state: None, finished: false, only_alarming }
    }

    /// The next discovered address: `None` once the enumeration is over,
    /// `Some(Err(..))` on a failure, which ends the enumeration as well.
    /// Every address handed out carries a checksum byte that the integrity
    /// check accepts, is stored as the resume point of the following call,
    /// and strictly succeeds the previous one in the walk's exploration
    /// order — so a full run never repeats an address.
    pub fn next<U: UartTrait>(&mut self, uart: &mut U) -> (r: Option<Result<Rom, Error>>)
        requires
            old(self).wf(),
        ensures
            final(self).wf(),
            final(self).alarm_only() == old(self).alarm_only(),
            old(self).is_finished() ==> r is None && *final(self) == *old(self),
            r matches Some(Ok(rom)) ==> {
                &&& !final(self).is_finished()
                &&& final(self).held() matches Some(st) && {
                    &&& st.wf()
                    &&& crc::crc8_seq(rom.0@) == 0
                    &&& forall|j: int|
                        0 <= j < 8 ==> rom.0@[j] == (((st.addr() >> ((8 * j) as u64)) & 0xFF) as u8)
                    &&& (old(self).held() matches Some(s) ==> st.addr() != s.addr()
                        && walk_precedes(s.addr(), st.addr()))
                }
            },
            r is None ==> final(self).is_finished() && final(self).held() is None,
            r matches Some(Err(_)) ==> final(self).is_finished() && final(self).held() is None,
    {
        if self.finished {
            return None;
        }
        let ghost prev = self.state;
        let result = device_search(uart, self.state.as_ref(), self.only_alarming);
        match result {
            Ok(Some((address, search_state))) => {
                proof {
                    if let Some(s) = prev {
                        lemma_resumed_address_is_new(s, search_state.address);
                    }
                }
                self.state = Some(search_state);
                Some(Ok(address))
            },
            Ok(None) => {
                self.state = None;
                self.finished = true;
                None
            },
            Err(err) => {
                self.state = None;
                self.finished = true;
                Some(Err(err))
            },
        }
    }
}

} // verus!
