//! The bus driver and chip lifecycle: every pin-level sequence that drives
//! the chip, stated as a specification sequence of [`PinAction`]s and proved
//! to be exactly what the executable functions perform.

use vstd::prelude::*;
use crate::pins::{Level, PinAction, PinMode};
use crate::pins::{ADDR_DATA, DATA, SHIFT_CLOCK, SHIFT_LATCH, SHIFT_MR, SID_CS, SID_RESET};
use crate::pins::{CS_PULSE_MICROS, RESET_PULSE_MICROS};

verus! {

/// A pin backend: something that can configure pins, drive levels onto them,
/// and hold levels for a minimum duration.  Its specification is the ordered
/// trace of actions it has been asked to perform; each method appends exactly
/// one action to that trace.
pub trait SidGpio {
    spec fn actions(&self) -> Seq<PinAction>;

    fn write(&mut self, pin: u8, level: Level)
        ensures
            final(self).actions() == old(self).actions().push(PinAction::Write(pin, level)),
    ;

    fn set_mode(&mut self, pin: u8, mode: PinMode)
        ensures
            final(self).actions() == old(self).actions().push(PinAction::SetMode(pin, mode)),
    ;

    fn sleep_micros(&mut self, micros: u64)
        ensures
            final(self).actions() == old(self).actions().push(PinAction::SleepMicros(micros)),
    ;
}

/// A backend that accepts every call and does nothing, for running the
/// pipeline on machines without the physical board.  The trace it is asked to
/// perform is kept only in ghost state.
pub struct DummyGpio {
    trace: Ghost<Seq<PinAction>>,
}

impl DummyGpio {
    pub fn new() -> (r: DummyGpio)
        ensures
            r.actions() == Seq::<PinAction>::empty(),
    {
        DummyGpio { trace: Ghost(Seq::empty()) }
    }
}

impl SidGpio for DummyGpio {
    closed spec fn actions(&self) -> Seq<PinAction> {
        self.trace@
    }

    fn write(&mut self, pin: u8, level: Level) {
        self.trace = Ghost(self.trace@.push(PinAction::Write(pin, level)));
    }

    fn set_mode(&mut self, pin: u8, mode: PinMode) {
        self.trace = Ghost(self.trace@.push(PinAction::SetMode(pin, mode)));
    }

    fn sleep_micros(&mut self, micros: u64) {
        self.trace = Ghost(self.trace@.push(PinAction::SleepMicros(micros)));
    }
}

/// A backend that records the actions it is asked to perform, so that an
/// unverified front end can replay them on real pins and tests can inspect
/// them.
pub struct TraceGpio {
    pub log: Vec<PinAction>,
}

impl TraceGpio {
    pub fn new() -> (r: TraceGpio)
        ensures
            r.actions() == Seq::<PinAction>::empty(),
    {
        TraceGpio { log: Vec::new() }
    }
}

impl SidGpio for TraceGpio {
    open spec fn actions(&self) -> Seq<PinAction> {
        self.log@
    }

    fn write(&mut self, pin: u8, level: Level) {
        self.log.push(PinAction::Write(pin, level));
    }

    fn set_mode(&mut self, pin: u8, mode: PinMode) {
        self.log.push(PinAction::SetMode(pin, mode));
    }

    fn sleep_micros(&mut self, micros: u64) {
        self.log.push(PinAction::SleepMicros(micros));
    }
}

/// The level of bit `bit` of `value`: High exactly when the bit is set.
pub open spec fn spec_bit_level(value: u8, bit: u8) -> Level {
    if value & (1u8 << bit) == 0 {
        Level::Low
    } else {
        Level::High
    }
}

/// Bit extraction is pure and total: the level of bit `bit` of `value` is
/// High exactly when `(value >> bit) & 1 == 1`.
pub fn get_level_for_bit(value: u8, bit: u8) -> (r: Level)
    requires
        bit < 8,
    ensures
        r == spec_bit_level(value, bit),
        r == Level::High <==> (value >> bit) & 1 == 1,
{
    proof {
        assert((value & (1u8 << bit) == 0) <==> ((value >> bit) & 1 != 1)) by (bit_vector)
            requires bit < 8;
    }
    if value & (1u8 << bit) == 0 {
        Level::Low
    } else {
        Level::High
    }
}

/// The four pin operations that shift one address bit and one data bit into
/// the two shift registers: present both levels, then pulse the shared clock.
pub open spec fn bit_pair_actions(addr: u8, data: u8, bit: u8) -> Seq<PinAction> {
    seq![
        PinAction::Write(ADDR_DATA, spec_bit_level(addr, bit)),
        PinAction::Write(DATA, spec_bit_level(data, bit)),
        PinAction::Write(SHIFT_CLOCK, Level::High),
        PinAction::Write(SHIFT_CLOCK, Level::Low),
    ]
}

/// The pin operations that shift out the first `k` bit pairs of `addr` and
/// `data`, most-significant bit first: bits 7 down to 8 - k.
pub open spec fn shift_prefix_actions(addr: u8, data: u8, k: nat) -> Seq<PinAction>
    recommends
        k <= 8,
    decreases k,
{
    if k == 0 {
        Seq::empty()
    } else {
        shift_prefix_actions(addr, data, (k - 1) as nat) + bit_pair_actions(addr, data, (8 - k) as u8)
    }
}

/// The latch pulse that moves both shift registers' contents to their
/// parallel outputs at once.
pub open spec fn latch_pulse_actions() -> Seq<PinAction> {
    seq![
        PinAction::Write(SHIFT_LATCH, Level::High),
        PinAction::Write(SHIFT_LATCH, Level::Low),
    ]
}

/// The chip-select pulse that commits a write: select Low, hold at least the
/// chip's minimum write pulse width, select High.
pub open spec fn select_pulse_actions() -> Seq<PinAction> {
    seq![
        PinAction::Write(SID_CS, Level::Low),
        PinAction::SleepMicros(CS_PULSE_MICROS),
        PinAction::Write(SID_CS, Level::High),
    ]
}

/// Everything one register write performs: shift all 8 bit pairs out
/// most-significant bit first, latch, then pulse chip select.
pub open spec fn write_register_actions(addr: u8, data: u8) -> Seq<PinAction> {
    shift_prefix_actions(addr, data, 8) + latch_pulse_actions() + select_pulse_actions()
}

/// Pulses chip select to make the chip sample the address and data now on its
/// bus.
fn output_to_6581<G: SidGpio>(gpio: &mut G)
    ensures
        final(gpio).actions() == old(gpio).actions() + select_pulse_actions(),
{
    gpio.write(SID_CS, Level::Low);
    gpio.sleep_micros(CS_PULSE_MICROS);
    gpio.write(SID_CS, Level::High);
    proof {
        assert(gpio.actions() =~= old(gpio).actions() + select_pulse_actions());
    }
}

/// Writes one register of the chip: shifts the 8 address bits and 8 data bits
/// out in parallel, most-significant bit first, pulsing the shared clock once
/// per bit pair; pulses the latch; then pulses chip select.
pub fn output_to_gpio<G: SidGpio>(gpio: &mut G, addr: u8, data: u8)
    ensures
        final(gpio).actions() == old(gpio).actions() + write_register_actions(addr, data),
{
    let mut k: u8 = 0;
    while k < 8
        invariant
            k <= 8,
            gpio.actions() == old(gpio).actions() + shift_prefix_actions(addr, data, k as nat),
        decreases 8 - k,
    {
        let bit = 7 - k;
        let addr_level = get_level_for_bit(addr, bit);
        let data_level = get_level_for_bit(data, bit);
        gpio.write(ADDR_DATA, addr_level);
        gpio.write(DATA, data_level);
        gpio.write(SHIFT_CLOCK, Level::High);
        gpio.write(SHIFT_CLOCK, Level::Low);
        k = k + 1;
        proof {
            assert(gpio.actions() =~= old(gpio).actions() + shift_prefix_actions(addr, data, k as nat));
        }
    }
    gpio.write(SHIFT_LATCH, Level::High);
    gpio.write(SHIFT_LATCH, Level::Low);
    output_to_6581(gpio);
    proof {
        assert(gpio.actions() =~= old(gpio).actions() + write_register_actions(addr, data));
    }
}

/// The power-on reset: reset Low, hold at least the chip's minimum reset
/// pulse width, reset High, then park chip select High (idle).
pub open spec fn reset_actions() -> Seq<PinAction> {
    seq![
        PinAction::Write(SID_RESET, Level::Low),
        PinAction::SleepMicros(RESET_PULSE_MICROS),
        PinAction::Write(SID_RESET, Level::High),
        PinAction::Write(SID_CS, Level::High),
    ]
}

/// Resets the chip and leaves it deselected.
fn reset_6581<G: SidGpio>(gpio: &mut G)
    ensures
        final(gpio).actions() == old(gpio).actions() + reset_actions(),
{
    gpio.write(SID_RESET, Level::Low);
    gpio.sleep_micros(RESET_PULSE_MICROS);
    gpio.write(SID_RESET, Level::High);
    gpio.write(SID_CS, Level::High);
    proof {
        assert(gpio.actions() =~= old(gpio).actions() + reset_actions());
    }
}

/// Everything initialization performs, in order: configure every driven pin
/// as an output, reset the chip, put the shift registers into a known cleared
/// state (master-clear Low with clock and latch Low), then release the clear.
pub open spec fn init_actions() -> Seq<PinAction> {
    seq![
        PinAction::SetMode(ADDR_DATA, PinMode::Output),
        PinAction::SetMode(DATA, PinMode::Output),
        PinAction::SetMode(SHIFT_CLOCK, PinMode::Output),
        PinAction::SetMode(SHIFT_LATCH, PinMode::Output),
        PinAction::SetMode(SHIFT_MR, PinMode::Output),
        PinAction::SetMode(SID_CS, PinMode::Output),
        PinAction::SetMode(SID_RESET, PinMode::Output),
    ] + reset_actions() + seq![
        PinAction::Write(SHIFT_MR, Level::Low),
        PinAction::Write(SHIFT_CLOCK, Level::Low),
        PinAction::Write(SHIFT_LATCH, Level::Low),
        PinAction::Write(SHIFT_MR, Level::High),
    ]
}

/// One-time startup of the pin set and the chip: configures every pin this
/// driver uses for output, resets the chip, and clears the shift registers.
/// Must run before the first register write.
pub fn init_gpio<G: SidGpio>(gpio: &mut G)
    ensures
        final(gpio).actions() == old(gpio).actions() + init_actions(),
{
    gpio.set_mode(ADDR_DATA, PinMode::Output);
    gpio.set_mode(DATA, PinMode::Output);
    gpio.set_mode(SHIFT_CLOCK, PinMode::Output);
    gpio.set_mode(SHIFT_LATCH, PinMode::Output);
    gpio.set_mode(SHIFT_MR, PinMode::Output);
    gpio.set_mode(SID_CS, PinMode::Output);
    gpio.set_mode(SID_RESET, PinMode::Output);

    reset_6581(gpio);

    gpio.write(SHIFT_MR, Level::Low);
    gpio.write(SHIFT_CLOCK, Level::Low);
    gpio.write(SHIFT_LATCH, Level::Low);

    gpio.write(SHIFT_MR, Level::High);
    proof {
        assert(gpio.actions() =~= old(gpio).actions() + init_actions());
    }
}

/// 1 if `a` drives a level onto `pin`, else 0.
pub open spec fn write_hit(a: PinAction, pin: u8) -> nat {
    match a {
        PinAction::Write(p, _) => if p == pin { 1nat } else { 0nat },
        _ => 0nat,
    }
}

/// How many actions of `s` drive a level onto `pin`.
pub open spec fn count_writes_to(s: Seq<PinAction>, pin: u8) -> nat
    decreases s.len(),
{
    if s.len() == 0 {
        0nat
    } else {
        write_hit(s[0], pin) + count_writes_to(s.drop_first(), pin)
    }
}

/// Counting writes to a pin distributes over concatenation.
pub proof fn lemma_count_writes_concat(a: Seq<PinAction>, b: Seq<PinAction>, pin: u8)
    ensures
        count_writes_to(a + b, pin) == count_writes_to(a, pin) + count_writes_to(b, pin),
    decreases a.len(),
{
    if a.len() == 0 {
        assert(a + b =~= b);
    } else {
        assert((a + b).drop_first() =~= a.drop_first() + b);
        lemma_count_writes_concat(a.drop_first(), b, pin);
    }
}

proof fn lemma_count_writes_four(w0: PinAction, w1: PinAction, w2: PinAction, w3: PinAction, pin: u8)
    ensures
        count_writes_to(seq![w0, w1, w2, w3], pin)
            == write_hit(w0, pin) + write_hit(w1, pin) + write_hit(w2, pin) + write_hit(w3, pin),
{
    assert(seq![w0, w1, w2, w3].drop_first() =~= seq![w1, w2, w3]);
    assert(seq![w1, w2, w3].drop_first() =~= seq![w2, w3]);
    assert(seq![w2, w3].drop_first() =~= seq![w3]);
    assert(seq![w3].drop_first() =~= Seq::<PinAction>::empty());
    assert(count_writes_to(Seq::<PinAction>::empty(), pin) == 0);
    assert(count_writes_to(seq![w3], pin) == write_hit(w3, pin));
    assert(count_writes_to(seq![w2, w3], pin) == write_hit(w2, pin) + write_hit(w3, pin));
    assert(count_writes_to(seq![w1, w2, w3], pin)
        == write_hit(w1, pin) + write_hit(w2, pin) + write_hit(w3, pin));
}

proof fn lemma_count_writes_three(w0: PinAction, w1: PinAction, w2: PinAction, pin: u8)
    ensures
        count_writes_to(seq![w0, w1, w2], pin)
            == write_hit(w0, pin) + write_hit(w1, pin) + write_hit(w2, pin),
{
    assert(seq![w0, w1, w2].drop_first() =~= seq![w1, w2]);
    assert(seq![w1, w2].drop_first() =~= seq![w2]);
    assert(seq![w2].drop_first() =~= Seq::<PinAction>::empty());
    assert(count_writes_to(Seq::<PinAction>::empty(), pin) == 0);
    assert(count_writes_to(seq![w2], pin) == write_hit(w2, pin));
    assert(count_writes_to(seq![w1, w2], pin) == write_hit(w1, pin) + write_hit(w2, pin));
}

proof fn lemma_count_writes_two(w0: PinAction, w1: PinAction, pin: u8)
    ensures
        count_writes_to(seq![w0, w1], pin) == write_hit(w0, pin) + write_hit(w1, pin),
{
    assert(seq![w0, w1].drop_first() =~= seq![w1]);
    assert(seq![w1].drop_first() =~= Seq::<PinAction>::empty());
    assert(count_writes_to(Seq::<PinAction>::empty(), pin) == 0);
    assert(count_writes_to(seq![w1], pin) == write_hit(w1, pin));
}

proof fn lemma_count_shift_prefix(addr: u8, data: u8, k: nat, pin: u8)
    requires
        k <= 8,
    ensures
        count_writes_to(shift_prefix_actions(addr, data, k), pin)
            == k * (write_hit(PinAction::Write(ADDR_DATA, Level::Low), pin)
                + write_hit(PinAction::Write(DATA, Level::Low), pin)
                + 2 * write_hit(PinAction::Write(SHIFT_CLOCK, Level::Low), pin)),
    decreases k,
{
    let per = write_hit(PinAction::Write(ADDR_DATA, Level::Low), pin)
        + write_hit(PinAction::Write(DATA, Level::Low), pin)
        + 2 * write_hit(PinAction::Write(SHIFT_CLOCK, Level::Low), pin);
    if k == 0 {
    } else {
        lemma_count_shift_prefix(addr, data, (k - 1) as nat, pin);
        let bit = (8 - k) as u8;
        lemma_count_writes_four(
            PinAction::Write(ADDR_DATA, spec_bit_level(addr, bit)),
            PinAction::Write(DATA, spec_bit_level(data, bit)),
            PinAction::Write(SHIFT_CLOCK, Level::High),
            PinAction::Write(SHIFT_CLOCK, Level::Low),
            pin,
        );
        lemma_count_writes_concat(
            shift_prefix_actions(addr, data, (k - 1) as nat),
            bit_pair_actions(addr, data, bit),
            pin,
        );
        assert(count_writes_to(bit_pair_actions(addr, data, bit), pin) == per);
        assert((k - 1) * per + per == k * per) by (nonlinear_arith);
    }
}

proof fn lemma_shift_prefix_len(addr: u8, data: u8, k: nat)
    requires
        k <= 8,
    ensures
        shift_prefix_actions(addr, data, k).len() == 4 * k,
    decreases k,
{
    if k > 0 {
        lemma_shift_prefix_len(addr, data, (k - 1) as nat);
    }
}

proof fn lemma_shift_prefix_at(addr: u8, data: u8, k: nat, j: nat)
    requires
        j < k <= 8,
    ensures
        shift_prefix_actions(addr, data, k)[4 * j as int]
            == PinAction::Write(ADDR_DATA, spec_bit_level(addr, (7 - j) as u8)),
        shift_prefix_actions(addr, data, k)[4 * j as int + 1]
            == PinAction::Write(DATA, spec_bit_level(data, (7 - j) as u8)),
        shift_prefix_actions(addr, data, k)[4 * j as int + 2]
            == PinAction::Write(SHIFT_CLOCK, Level::High),
        shift_prefix_actions(addr, data, k)[4 * j as int + 3]
            == PinAction::Write(SHIFT_CLOCK, Level::Low),
    decreases k,
{
    lemma_shift_prefix_len(addr, data, k);
    lemma_shift_prefix_len(addr, data, (k - 1) as nat);
    if j + 1 == k {
        assert((8 - k) as u8 == (7 - j) as u8);
    } else {
        lemma_shift_prefix_at(addr, data, (k - 1) as nat, j);
    }
}

/// The action the shift phase of a register write performs at offset `i`:
/// offsets `4k`, `4k + 1`, `4k + 2`, `4k + 3` present bit `7 - k` of the
/// address, bit `7 - k` of the data, and the two edges of one shared clock
/// pulse.
pub open spec fn shift_action_at(addr: u8, data: u8, i: int) -> PinAction {
    let bit = (7 - i / 4) as u8;
    if i % 4 == 0 {
        PinAction::Write(ADDR_DATA, spec_bit_level(addr, bit))
    } else if i % 4 == 1 {
        PinAction::Write(DATA, spec_bit_level(data, bit))
    } else if i % 4 == 2 {
        PinAction::Write(SHIFT_CLOCK, Level::High)
    } else {
        PinAction::Write(SHIFT_CLOCK, Level::Low)
    }
}

/// Law: one register write performs exactly the shift, latch and select
/// protocol, in order.  Its 37 actions are: 8 bit pairs presented
/// most-significant bit first, each followed by one pulse of the shared shift
/// clock; then one latch pulse; then one chip-select pulse held Low for at
/// least the chip's minimum write pulse width of 2 microseconds.  In total
/// the shift clock sees 16 writes (8 pulses), the latch 2 (1 pulse) and chip
/// select 2 (1 pulse).
pub proof fn lemma_write_register_shape(addr: u8, data: u8)
    ensures
        write_register_actions(addr, data).len() == 37,
        forall|i: int| 0 <= i < 32 ==> #[trigger] write_register_actions(addr, data)[i]
            == shift_action_at(addr, data, i),
        write_register_actions(addr, data)[32] == PinAction::Write(SHIFT_LATCH, Level::High),
        write_register_actions(addr, data)[33] == PinAction::Write(SHIFT_LATCH, Level::Low),
        write_register_actions(addr, data)[34] == PinAction::Write(SID_CS, Level::Low),
        write_register_actions(addr, data)[35] == PinAction::SleepMicros(CS_PULSE_MICROS),
        write_register_actions(addr, data)[36] == PinAction::Write(SID_CS, Level::High),
        CS_PULSE_MICROS >= 2,
        count_writes_to(write_register_actions(addr, data), SHIFT_CLOCK) == 16,
        count_writes_to(write_register_actions(addr, data), SHIFT_LATCH) == 2,
        count_writes_to(write_register_actions(addr, data), SID_CS) == 2,
{
    let w = write_register_actions(addr, data);
    let shifts = shift_prefix_actions(addr, data, 8);
    lemma_shift_prefix_len(addr, data, 8);
    assert(w.len() == 37);
    assert forall|i: int| 0 <= i < 32 implies #[trigger] w[i] == shift_action_at(addr, data, i) by {
        let j = i / 4;
        lemma_shift_prefix_at(addr, data, 8, j as nat);
        assert(i == 4 * j + i % 4);
        assert(w[i] == shifts[i]);
    }
    let latch_select = latch_pulse_actions() + select_pulse_actions();
    lemma_count_writes_concat(shifts, latch_select, SHIFT_CLOCK);
    lemma_count_writes_concat(shifts, latch_select, SHIFT_LATCH);
    lemma_count_writes_concat(shifts, latch_select, SID_CS);
    lemma_count_writes_concat(latch_pulse_actions(), select_pulse_actions(), SHIFT_CLOCK);
    lemma_count_writes_concat(latch_pulse_actions(), select_pulse_actions(), SHIFT_LATCH);
    lemma_count_writes_concat(latch_pulse_actions(), select_pulse_actions(), SID_CS);
    lemma_count_shift_prefix(addr, data, 8, SHIFT_CLOCK);
    lemma_count_shift_prefix(addr, data, 8, SHIFT_LATCH);
    lemma_count_shift_prefix(addr, data, 8, SID_CS);
    lemma_count_writes_two(
        PinAction::Write(SHIFT_LATCH, Level::High),
        PinAction::Write(SHIFT_LATCH, Level::Low),
        SHIFT_CLOCK,
    );
    lemma_count_writes_two(
        PinAction::Write(SHIFT_LATCH, Level::High),
        PinAction::Write(SHIFT_LATCH, Level::Low),
        SHIFT_LATCH,
    );
    lemma_count_writes_two(
        PinAction::Write(SHIFT_LATCH, Level::High),
        PinAction::Write(SHIFT_LATCH, Level::Low),
        SID_CS,
    );
    lemma_count_writes_three(
        PinAction::Write(SID_CS, Level::Low),
        PinAction::SleepMicros(CS_PULSE_MICROS),
        PinAction::Write(SID_CS, Level::High),
        SHIFT_CLOCK,
    );
    lemma_count_writes_three(
        PinAction::Write(SID_CS, Level::Low),
        PinAction::SleepMicros(CS_PULSE_MICROS),
        PinAction::Write(SID_CS, Level::High),
        SHIFT_LATCH,
    );
    lemma_count_writes_three(
        PinAction::Write(SID_CS, Level::Low),
        PinAction::SleepMicros(CS_PULSE_MICROS),
        PinAction::Write(SID_CS, Level::High),
        SID_CS,
    );
    assert(w =~= shifts + latch_select);
}

} // verus!
