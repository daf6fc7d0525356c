//! A minimal model of the OPNA / YMF288 timers and status register.
//!
//! The host decides in virtual time which timer interrupt comes next and builds
//! the status the PMD interrupt routine reads. Real time is paced by the board's
//! crystal, so only the order and ratio of the interrupts matter here.

use vstd::prelude::*;

verus! {

// Control bits of register 0x27.
/// Load Timer A (a rising edge restarts it).
pub const LOAD_A: u8 = 0x01;
/// Load Timer B (a rising edge restarts it).
pub const LOAD_B: u8 = 0x02;
/// Let Timer A raise its flag.
pub const ENABLE_A: u8 = 0x04;
/// Let Timer B raise its flag.
pub const ENABLE_B: u8 = 0x08;
/// Clear the Timer A flag.
pub const RESET_A: u8 = 0x10;
/// Clear the Timer B flag.
pub const RESET_B: u8 = 0x20;

// Status register bits.
/// Timer A overflowed.
pub const ST_TIMER_A: u8 = 0x01;
/// Timer B overflowed.
pub const ST_TIMER_B: u8 = 0x02;
/// Busy; always 0 here, writes complete at once.
pub const ST_BUSY: u8 = 0x80;

/// The two OPNA timers.
#[derive(Clone, Copy, PartialEq, Eq, Structural, Debug)]
pub enum Timer {
    A,
    B,
}

/// The timer part of an OPNA: the Timer A and Timer B settings, the control
/// register, the two overflow flags and the virtual clock with each timer's
/// next overflow time (in master-clock cycles).
pub struct Opna {
    na: u16,
    nb: u8,
    ctrl: u8,
    flag_a: bool,
    flag_b: bool,
    now: u64,
    next_a: u64,
    next_b: u64,
}

/// The mathematical state of an [`Opna`].
pub struct OpnaModel {
    /// Timer A setting, 10 bits (registers 0x24 high 8 bits, 0x25 low 2 bits).
    pub na: int,
    /// Timer B setting, 8 bits (register 0x26).
    pub nb: int,
    /// Control register 0x27 as last written.
    pub ctrl: u8,
    pub flag_a: bool,
    pub flag_b: bool,
    /// Virtual time of the last event.
    pub now: int,
    /// Virtual time at which Timer A overflows next.
    pub next_a: int,
    /// Virtual time at which Timer B overflows next.
    pub next_b: int,
}

impl OpnaModel {
    /// The state after power-on: everything zero.
    pub open spec fn init() -> Self {
        OpnaModel {
            na: 0,
            nb: 0,
            ctrl: 0,
            flag_a: false,
            flag_b: false,
            now: 0,
            next_a: 0,
            next_b: 0,
        }
    }

    /// Values an `Opna` can hold.
    pub open spec fn wf(self) -> bool {
        &&& 0 <= self.na < 1024
        &&& 0 <= self.nb < 256
        &&& 0 <= self.now <= u64::MAX
        &&& 0 <= self.next_a <= u64::MAX
        &&& 0 <= self.next_b <= u64::MAX
    }

    /// Timer A period in master-clock cycles: T_A = 72 * (1024 - NA).
    pub open spec fn period_a(self) -> int {
        72 * (1024 - self.na)
    }

    /// Timer B period in master-clock cycles: T_B = 1152 * (256 - NB).
    pub open spec fn period_b(self) -> int {
        1152 * (256 - self.nb)
    }

    /// Timer A counts and interrupts: both Load and Enable are set.
    pub open spec fn a_running(self) -> bool {
        self.ctrl & LOAD_A != 0 && self.ctrl & ENABLE_A != 0
    }

    /// Timer B counts and interrupts: both Load and Enable are set.
    pub open spec fn b_running(self) -> bool {
        self.ctrl & LOAD_B != 0 && self.ctrl & ENABLE_B != 0
    }

    /// The status register: bit 0 is the Timer A flag, bit 1 the Timer B flag,
    /// every other bit (Busy included) is 0.
    pub open spec fn status(self) -> u8 {
        if self.flag_a && self.flag_b {
            3
        } else if self.flag_a {
            1
        } else if self.flag_b {
            2
        } else {
            0
        }
    }

    /// Writing the control register: a Reset bit clears its flag, a rising
    /// Load edge restarts its timer one period from now.
    pub open spec fn write_ctrl(self, data: u8) -> Self {
        OpnaModel {
            ctrl: data,
            flag_a: if data & RESET_A != 0 { false } else { self.flag_a },
            flag_b: if data & RESET_B != 0 { false } else { self.flag_b },
            next_a: if data & LOAD_A != 0 && self.ctrl & LOAD_A == 0 {
                self.now + self.period_a()
            } else {
                self.next_a
            },
            next_b: if data & LOAD_B != 0 && self.ctrl & LOAD_B == 0 {
                self.now + self.period_b()
            } else {
                self.next_b
            },
            ..self
        }
    }

    /// Writing `data` to register `addr`: 0x24 sets the high 8 bits of NA,
    /// 0x25 its low 2 bits, 0x26 sets NB, 0x27 the control register; any
    /// other address changes nothing.
    pub open spec fn write_reg(self, addr: u8, data: u8) -> Self {
        if addr == 0x24 {
            OpnaModel { na: data * 4 + self.na % 4, ..self }
        } else if addr == 0x25 {
            OpnaModel { na: (self.na / 4) * 4 + data % 4, ..self }
        } else if addr == 0x26 {
            OpnaModel { nb: data as int, ..self }
        } else if addr == 0x27 {
            self.write_ctrl(data)
        } else {
            self
        }
    }

    /// The timer that interrupts next: the running one with the earlier
    /// overflow time, Timer B on a tie; none when neither runs.
    pub open spec fn next_timer(self) -> Option<Timer> {
        if self.a_running() && self.b_running() {
            if self.next_b <= self.next_a {
                Some(Timer::B)
            } else {
                Some(Timer::A)
            }
        } else if self.a_running() {
            Some(Timer::A)
        } else if self.b_running() {
            Some(Timer::B)
        } else {
            None
        }
    }

    /// Timer A overflows: time moves to its overflow, its flag rises and it
    /// restarts for another period.
    pub open spec fn fire_a(self) -> Self {
        OpnaModel { now: self.next_a, flag_a: true, next_a: self.next_a + self.period_a(), ..self }
    }

    /// Timer B overflows: time moves to its overflow, its flag rises and it
    /// restarts for another period.
    pub open spec fn fire_b(self) -> Self {
        OpnaModel { now: self.next_b, flag_b: true, next_b: self.next_b + self.period_b(), ..self }
    }

    /// The state after the next timer interrupt (unchanged when none is due).
    pub open spec fn step(self) -> Self {
        match self.next_timer() {
            Some(Timer::A) => self.fire_a(),
            Some(Timer::B) => self.fire_b(),
            None => self,
        }
    }

    /// The write keeps every time within `u64`.
    pub open spec fn write_fits(self, addr: u8, data: u8) -> bool {
        addr == 0x27 ==> {
            &&& (data & LOAD_A != 0 && self.ctrl & LOAD_A == 0) ==> self.now + self.period_a()
                <= u64::MAX
            &&& (data & LOAD_B != 0 && self.ctrl & LOAD_B == 0) ==> self.now + self.period_b()
                <= u64::MAX
        }
    }

    /// The next interrupt keeps every time within `u64`.
    pub open spec fn step_fits(self) -> bool {
        match self.next_timer() {
            Some(Timer::A) => self.next_a + self.period_a() <= u64::MAX,
            Some(Timer::B) => self.next_b + self.period_b() <= u64::MAX,
            None => true,
        }
    }

    /// Timer A's next overflow lies within one period of the current time.
    pub open spec fn a_within_period(self) -> bool {
        self.now <= self.next_a <= self.now + self.period_a()
    }

    /// Every running timer overflows no earlier than the current time.
    pub open spec fn deadlines_ahead(self) -> bool {
        &&& self.a_running() ==> self.next_a >= self.now
        &&& self.b_running() ==> self.next_b >= self.now
    }
}

impl View for Opna {
    type V = OpnaModel;

    closed spec fn view(&self) -> OpnaModel {
        OpnaModel {
            na: self.na as int,
            nb: self.nb as int,
            ctrl: self.ctrl,
            flag_a: self.flag_a,
            flag_b: self.flag_b,
            now: self.now as int,
            next_a: self.next_a as int,
            next_b: self.next_b as int,
        }
    }
}

impl Opna {
    #[verifier::type_invariant]
    spec fn inv(self) -> bool {
        self.na < 1024
    }

    /// An OPNA just after reset.
    pub fn new() -> (o: Self)
        ensures
            o@ == OpnaModel::init(),
            o@.wf(),
    {
        Self {
            na: 0,
            nb: 0,
            ctrl: 0,
            flag_a: false,
            flag_b: false,
            now: 0,
            next_a: 0,
            next_b: 0,
        }
    }

    /// The Timer A setting NA (10 bits).
    pub fn na(&self) -> (r: u16)
        ensures
            r as int == self@.na,
            r < 1024,
            self@.wf(),
    {
        proof {
            use_type_invariant(self);
        }
        self.na
    }

    /// The Timer B setting NB.
    pub fn nb(&self) -> (r: u8)
        ensures
            r as int == self@.nb,
            self@.wf(),
    {
        proof {
            use_type_invariant(self);
        }
        self.nb
    }

    /// Whether `write_reg(addr, data)` keeps every time within `u64`.
    pub fn write_fits(&self, addr: u8, data: u8) -> (r: bool)
        ensures
            r == self@.write_fits(addr, data),
    {
        proof {
            use_type_invariant(self);
        }
        if addr != 0x27 {
            return true;
        }
        let a_ok = !(data & LOAD_A != 0 && self.ctrl & LOAD_A == 0) || self.now <= u64::MAX
            - self.period_a();
        let b_ok = !(data & LOAD_B != 0 && self.ctrl & LOAD_B == 0) || self.now <= u64::MAX
            - self.period_b();
        a_ok && b_ok
    }

    /// Whether `next_event` keeps every time within `u64`.
    pub fn event_fits(&self) -> (r: bool)
        ensures
            r == self@.step_fits(),
    {
        proof {
            use_type_invariant(self);
        }
        let a_on = self.ctrl & LOAD_A != 0 && self.ctrl & ENABLE_A != 0;
        let b_on = self.ctrl & LOAD_B != 0 && self.ctrl & ENABLE_B != 0;
        let fires_a = a_on && !(b_on && self.next_b <= self.next_a);
        let fires_b = b_on && !fires_a;
        if fires_a {
            self.next_a <= u64::MAX - self.period_a()
        } else if fires_b {
            self.next_b <= u64::MAX - self.period_b()
        } else {
            true
        }
    }

    /// Applies a write to registers 0x24-0x27; other addresses are ignored.
    pub fn write_reg(&mut self, addr: u8, data: u8)
        requires
            old(self)@.write_fits(addr, data),
        ensures
            final(self)@ == old(self)@.write_reg(addr, data),
            final(self)@.wf(),
    {
        proof {
            use_type_invariant(&*self);
        }
        if addr == 0x24 {
            let na = self.na;
            let hi = data as u16;
            let v = (na & 0x0003) | (hi << 2);
            assert(v == hi * 4 + na % 4 && v < 1024) by (bit_vector)
                requires
                    v == (na & 0x0003) | (hi << 2),
                    na < 1024,
                    hi < 256,
            ;
            self.na = v;
        } else if addr == 0x25 {
            let na = self.na;
            let lo = data as u16;
            let v = (na & 0x03FC) | (lo & 0x0003);
            assert(v == (na / 4) * 4 + lo % 4 && v < 1024) by (bit_vector)
                requires
                    v == (na & 0x03FC) | (lo & 0x0003),
                    na < 1024,
                    lo < 256,
            ;
            self.na = v;
        } else if addr == 0x26 {
            self.nb = data;
        } else if addr == 0x27 {
            self.write_ctrl(data);
        }
    }

    fn write_ctrl(&mut self, data: u8)
        requires
            old(self)@.write_fits(0x27, data),
        ensures
            final(self)@ == old(self)@.write_ctrl(data),
    {
        proof {
            use_type_invariant(&*self);
        }
        // A Reset bit clears its flag.
        if data & RESET_A != 0 {
            self.flag_a = false;
        }
        if data & RESET_B != 0 {
            self.flag_b = false;
        }
        // A rising Load edge restarts the timer.
        let prev = self.ctrl;
        self.ctrl = data;
        if data & LOAD_A != 0 && prev & LOAD_A == 0 {
            self.next_a = self.now + self.period_a();
        }
        if data & LOAD_B != 0 && prev & LOAD_B == 0 {
            self.next_b = self.now + self.period_b();
        }
    }

    // Periods in master-clock cycles: T_A = 72 * (1024 - NA), T_B = 1152 * (256 - NB),
    // a ratio of 16:1 per step.
    fn period_a(&self) -> (p: u64)
        ensures
            p as int == self@.period_a(),
            0 < p <= 73728,
    {
        proof {
            use_type_invariant(self);
        }
        72 * (1024 - self.na as u64)
    }

    fn period_b(&self) -> (p: u64)
        ensures
            p as int == self@.period_b(),
            0 < p <= 294912,
    {
        1152 * (256 - self.nb as u64)
    }

    /// The current virtual time, in master-clock cycles.
    pub fn now(&self) -> (t: u64)
        ensures
            t as int == self@.now,
            self@.wf(),
    {
        proof {
            use_type_invariant(self);
        }
        self.now
    }

    /// The status register (a read with A0 = 0): bit 0 = Timer A flag,
    /// bit 1 = Timer B flag, bit 7 = Busy (always 0).
    pub fn read_status(&self) -> (s: u8)
        ensures
            s == self@.status(),
            self@.wf(),
    {
        proof {
            use_type_invariant(self);
        }
        let mut s: u8 = 0;
        if self.flag_a {
            s |= ST_TIMER_A;
        }
        if self.flag_b {
            s |= ST_TIMER_B;
        }
        assert(0u8 | 1u8 == 1u8 && 0u8 | 2u8 == 2u8 && 1u8 | 2u8 == 3u8) by (bit_vector);
        s
    }

    /// Advances to the next timer interrupt, raises that timer's flag and
    /// returns it. Each event is one timer (one board buffer). On a tie
    /// Timer B comes first, as in PMD's handler. `None` when no timer runs
    /// (both Load and Enable set).
    pub fn next_event(&mut self) -> (t: Option<Timer>)
        requires
            old(self)@.step_fits(),
        ensures
            t == old(self)@.next_timer(),
            final(self)@ == old(self)@.step(),
            final(self)@.wf(),
    {
        proof {
            use_type_invariant(&*self);
        }
        let a_on = self.ctrl & LOAD_A != 0 && self.ctrl & ENABLE_A != 0;
        let b_on = self.ctrl & LOAD_B != 0 && self.ctrl & ENABLE_B != 0;
        match (a_on, b_on) {
            (false, false) => None,
            (true, false) => Some(self.fire_a()),
            (false, true) => Some(self.fire_b()),
            // Both running: the earlier one; Timer B on a tie.
            (true, true) => {
                if self.next_b <= self.next_a {
                    Some(self.fire_b())
                } else {
                    Some(self.fire_a())
                }
            },
        }
    }

    fn fire_a(&mut self) -> (t: Timer)
        requires
            old(self)@.next_a + old(self)@.period_a() <= u64::MAX,
        ensures
            t == Timer::A,
            final(self)@ == old(self)@.fire_a(),
    {
        proof {
            use_type_invariant(&*self);
        }
        self.now = self.next_a;
        self.flag_a = true;
        self.next_a = self.next_a + self.period_a();
        Timer::A
    }

    fn fire_b(&mut self) -> (t: Timer)
        requires
            old(self)@.next_b + old(self)@.period_b() <= u64::MAX,
        ensures
            t == Timer::B,
            final(self)@ == old(self)@.fire_b(),
    {
        proof {
            use_type_invariant(&*self);
        }
        self.now = self.next_b;
        self.flag_b = true;
        self.next_b = self.next_b + self.period_b();
        Timer::B
    }
}

/// Law: NA is four times the byte written to 0x24 plus the low two bits of the
/// byte written to 0x25, and the two registers may be written in either order.
pub proof fn law_na_from_two_registers(m: OpnaModel, hi: u8, lo: u8)
    requires
        m.wf(),
    ensures
        m.write_reg(0x24, hi).write_reg(0x25, lo).na == hi * 4 + lo % 4,
        m.write_reg(0x24, hi).write_reg(0x25, lo) == m.write_reg(0x25, lo).write_reg(0x24, hi),
{
    let x = m.write_reg(0x24, hi);
    assert((hi * 4 + m.na % 4) / 4 == hi) by (nonlinear_arith)
        requires
            0 <= m.na,
            0 <= hi,
    ;
    assert((hi * 4 + m.na % 4) % 4 == m.na % 4) by (nonlinear_arith)
        requires
            0 <= m.na,
            0 <= hi,
    ;
    let y = m.write_reg(0x25, lo);
    assert(((m.na / 4) * 4 + lo % 4) % 4 == lo % 4) by (nonlinear_arith)
        requires
            0 <= m.na,
            0 <= lo,
    ;
}

/// Law: writes to registers other than 0x24-0x27 change nothing.
pub proof fn law_other_registers_ignored(m: OpnaModel, addr: u8, data: u8)
    requires
        addr < 0x24 || addr > 0x27,
    ensures
        m.write_reg(addr, data) == m,
{
}

/// Law: there is no event exactly when no timer runs (Load and Enable both
/// set), and then the state stays as it is.
pub proof fn law_idle_has_no_event(m: OpnaModel)
    ensures
        (m.next_timer() is None) == (!m.a_running() && !m.b_running()),
        m.next_timer() is None ==> m.step() == m,
{
}

/// Law: an event moves time to the earliest overflow among the running timers,
/// Timer B first on a tie, and raises the fired timer's flag only.
pub proof fn law_event_is_earliest(m: OpnaModel)
    requires
        m.a_running() || m.b_running(),
    ensures
        m.a_running() ==> m.step().now <= m.next_a,
        m.b_running() ==> m.step().now <= m.next_b,
        m.next_timer() == Some(Timer::A) ==> m.step().now == m.next_a && m.step().flag_a
            && m.step().flag_b == m.flag_b,
        m.next_timer() == Some(Timer::B) ==> m.step().now == m.next_b && m.step().flag_b
            && m.step().flag_a == m.flag_a,
        m.a_running() && m.b_running() && m.next_a == m.next_b ==> m.next_timer() == Some(
            Timer::B,
        ),
        m.next_timer() == Some(Timer::B) <==> m.b_running() && (!m.a_running() || m.next_b
            <= m.next_a),
        m.next_timer() == Some(Timer::A) ==> m.step().next_a == m.next_a + m.period_a()
            && m.step().next_b == m.next_b,
        m.next_timer() == Some(Timer::B) ==> m.step().next_b == m.next_b + m.period_b()
            && m.step().next_a == m.next_a,
        m.step().ctrl == m.ctrl && m.step().na == m.na && m.step().nb == m.nb,
{
}

/// Law: the status flags follow the history. Power-on clears both; an event
/// raises the fired timer's flag and keeps the other; a register write only
/// ever clears a flag, and only through its Reset bit in a write to 0x27. The
/// status register shows the two flags in bits 0 and 1 and nothing else
/// (Busy is always 0).
pub proof fn law_status_follows_history(m: OpnaModel, addr: u8, data: u8)
    ensures
        OpnaModel::init().status() == 0,
        m.status() & 0xFC == 0,
        m.status() & ST_TIMER_A != 0 <==> m.flag_a,
        m.status() & ST_TIMER_B != 0 <==> m.flag_b,
        m.step().flag_a == (m.flag_a || m.next_timer() == Some(Timer::A)),
        m.step().flag_b == (m.flag_b || m.next_timer() == Some(Timer::B)),
        m.write_reg(addr, data).flag_a == (m.flag_a && !(addr == 0x27 && data & RESET_A != 0)),
        m.write_reg(addr, data).flag_b == (m.flag_b && !(addr == 0x27 && data & RESET_B != 0)),
{
    assert(0u8 & 0xFCu8 == 0 && 1u8 & 0xFCu8 == 0 && 2u8 & 0xFCu8 == 0 && 3u8 & 0xFCu8 == 0)
        by (bit_vector);
    assert(0u8 & 1u8 == 0 && 1u8 & 1u8 != 0 && 2u8 & 1u8 == 0 && 3u8 & 1u8 != 0) by (bit_vector);
    assert(0u8 & 2u8 == 0 && 1u8 & 2u8 == 0 && 2u8 & 2u8 != 0 && 3u8 & 2u8 != 0) by (bit_vector);
}

/// Law: a control write stores its value and leaves the timer settings and the
/// clock alone, and writing the same value twice is the same as once.
pub proof fn law_control_write(m: OpnaModel, data: u8)
    ensures
        m.write_reg(0x27, data).ctrl == data,
        m.write_reg(0x27, data).now == m.now,
        m.write_reg(0x27, data).na == m.na,
        m.write_reg(0x27, data).nb == m.nb,
        m.write_reg(0x27, data).write_reg(0x27, data) == m.write_reg(0x27, data),
{
}

/// Law: a timer that runs alone interrupts exactly once per period.
pub proof fn law_lone_timer_is_periodic(m: OpnaModel)
    requires
        m.wf(),
        m.a_running() != m.b_running(),
    ensures
        m.a_running() ==> m.step().step().now == m.step().now + m.period_a() && m.period_a() > 0,
        m.b_running() ==> m.step().step().now == m.step().now + m.period_b() && m.period_b() > 0,
{
}

/// Law: while every running timer's overflow lies ahead, an event never moves
/// time backwards and keeps the overflows ahead.
pub proof fn law_time_moves_forward(m: OpnaModel)
    requires
        m.wf(),
        m.deadlines_ahead(),
    ensures
        m.step().now >= m.now,
        m.step().deadlines_ahead(),
{
}

/// Law: starting both timers with one control write puts each overflow one
/// period ahead, and events keep Timer A's overflow within one period.
pub proof fn law_a_stays_within_period(m: OpnaModel, data: u8)
    requires
        m.wf(),
    ensures
        m.ctrl & LOAD_A == 0 && data & LOAD_A != 0 ==> m.write_reg(0x27, data).a_within_period(),
        m.a_running() && m.deadlines_ahead() && m.a_within_period() ==> m.step().a_within_period(),
{
}

/// Law: when Timer A runs faster than Timer B, Timer B never interrupts twice
/// in a row: after every Timer B event the next one is Timer A.
pub proof fn law_slower_timer_never_fires_twice_in_a_row(m: OpnaModel)
    requires
        m.wf(),
        m.a_running(),
        m.b_running(),
        m.period_a() < m.period_b(),
        m.deadlines_ahead(),
        m.a_within_period(),
        m.next_timer() == Some(Timer::B),
    ensures
        m.step().next_timer() == Some(Timer::A),
{
}

/// Law: a Reset bit in a control write clears its timer's flag, and the
/// status register then shows that bit as 0.
pub proof fn law_reset_clears_flag(m: OpnaModel, data: u8)
    ensures
        data & RESET_A != 0 ==> !m.write_reg(0x27, data).flag_a
            && m.write_reg(0x27, data).status() & ST_TIMER_A == 0,
        data & RESET_B != 0 ==> !m.write_reg(0x27, data).flag_b
            && m.write_reg(0x27, data).status() & ST_TIMER_B == 0,
{
    assert(0u8 & 1u8 == 0u8 && 2u8 & 1u8 == 0u8 && 0u8 & 2u8 == 0u8 && 1u8 & 2u8 == 0u8)
        by (bit_vector);
}

/// Law: only a rising Load edge restarts a timer, one period after the current
/// time; a write that keeps Load set leaves its countdown alone.
pub proof fn law_load_edge_restarts(m: OpnaModel, data: u8)
    ensures
        data & LOAD_A != 0 && m.ctrl & LOAD_A == 0 ==> m.write_reg(0x27, data).next_a == m.now
            + m.period_a(),
        m.ctrl & LOAD_A != 0 || data & LOAD_A == 0 ==> m.write_reg(0x27, data).next_a == m.next_a,
        data & LOAD_B != 0 && m.ctrl & LOAD_B == 0 ==> m.write_reg(0x27, data).next_b == m.now
            + m.period_b(),
        m.ctrl & LOAD_B != 0 || data & LOAD_B == 0 ==> m.write_reg(0x27, data).next_b == m.next_b,
{
}

/// Law: a timer interrupts only while both its Load bit (01h / 02h) and its
/// Enable bit (04h / 08h) are set in the value last written to 0x27; with
/// both timers on, the one that overflows first comes next, Timer B on a tie.
pub proof fn law_event_needs_load_and_enable(m: OpnaModel)
    ensures
        m.next_timer() == Some(Timer::A) ==> m.ctrl & 0x01 != 0 && m.ctrl & 0x04 != 0,
        m.next_timer() == Some(Timer::B) ==> m.ctrl & 0x02 != 0 && m.ctrl & 0x08 != 0,
        m.next_timer() is None <==> (m.ctrl & 0x01 == 0 || m.ctrl & 0x04 == 0) && (m.ctrl & 0x02
            == 0 || m.ctrl & 0x08 == 0),
        m.ctrl & 0x01 != 0 && m.ctrl & 0x04 != 0 && (m.ctrl & 0x02 == 0 || m.ctrl & 0x08 == 0
            || m.next_a < m.next_b) ==> m.next_timer() == Some(Timer::A),
        m.ctrl & 0x02 != 0 && m.ctrl & 0x08 != 0 && (m.ctrl & 0x01 == 0 || m.ctrl & 0x04 == 0
            || m.next_b <= m.next_a) ==> m.next_timer() == Some(Timer::B),
{
}

/// Law: an interrupt moves the clock to the fired timer's overflow, raises
/// its flag and schedules its next overflow one period later (72 * (1024 - NA)
/// cycles for Timer A, 1152 * (256 - NB) for Timer B); nothing else changes.
/// Without a running timer nothing happens. An interrupt always fits while
/// both overflows lie at least one longest period below the end of `u64`.
pub proof fn law_event_advances_clock(m: OpnaModel)
    ensures
        m.next_timer() == Some(Timer::A) ==> m.step() == (OpnaModel {
            now: m.next_a,
            flag_a: true,
            next_a: m.next_a + 72 * (1024 - m.na),
            ..m
        }),
        m.next_timer() == Some(Timer::B) ==> m.step() == (OpnaModel {
            now: m.next_b,
            flag_b: true,
            next_b: m.next_b + 1152 * (256 - m.nb),
            ..m
        }),
        m.next_timer() is None ==> m.step() == m,
        m.wf() && m.next_a + 73728 <= u64::MAX && m.next_b + 294912 <= u64::MAX ==> m.step_fits(),
{
}

/// Law: a write to a timer setting register (0x24, 0x25, 0x26) changes only
/// NA or NB: the control value, the clock, both overflow times and both flags
/// stay. 0x24 sets the high eight bits of NA, 0x25 its low two bits, 0x26 sets
/// NB. Such a write is always allowed.
pub proof fn law_setting_write_keeps_timing(m: OpnaModel, addr: u8, data: u8)
    requires
        0x24 <= addr <= 0x26,
    ensures
        m.write_reg(addr, data).ctrl == m.ctrl,
        m.write_reg(addr, data).now == m.now,
        m.write_reg(addr, data).next_a == m.next_a,
        m.write_reg(addr, data).next_b == m.next_b,
        m.write_reg(addr, data).flag_a == m.flag_a,
        m.write_reg(addr, data).flag_b == m.flag_b,
        addr == 0x26 ==> m.write_reg(addr, data).nb == data && m.write_reg(addr, data).na == m.na,
        addr != 0x26 ==> m.write_reg(addr, data).nb == m.nb,
        addr == 0x24 ==> m.write_reg(addr, data).na / 4 == data && m.write_reg(addr, data).na % 4
            == m.na % 4,
        addr == 0x25 ==> m.write_reg(addr, data).na / 4 == m.na / 4 && m.write_reg(addr, data).na
            % 4 == data % 4,
        m.write_fits(addr, data),
{
    if addr == 0x24 {
        assert((data * 4 + m.na % 4) / 4 == data && (data * 4 + m.na % 4) % 4 == m.na % 4)
            by (nonlinear_arith);
    } else if addr == 0x25 {
        assert(((m.na / 4) * 4 + data % 4) / 4 == m.na / 4 && ((m.na / 4) * 4 + data % 4) % 4
            == data % 4) by (nonlinear_arith);
    }
}

/// Law: a write of `data` to 0x27 stores it as the control value and keeps NA,
/// NB and the clock; bit 10h clears the Timer A flag and 20h the Timer B flag;
/// a rising edge of bit 01h (Timer A) or 02h (Timer B) against the previous
/// control value restarts that timer one period after the current time, and
/// otherwise its overflow time stays. Such a write always fits while the clock
/// lies at least one longest period below the end of `u64`.
pub proof fn law_control_write_bits(m: OpnaModel, data: u8)
    ensures
        m.write_reg(0x27, data).ctrl == data,
        m.write_reg(0x27, data).na == m.na,
        m.write_reg(0x27, data).nb == m.nb,
        m.write_reg(0x27, data).now == m.now,
        m.write_reg(0x27, data).flag_a == (m.flag_a && data & 0x10 == 0),
        m.write_reg(0x27, data).flag_b == (m.flag_b && data & 0x20 == 0),
        m.write_reg(0x27, data).next_a == (if data & 0x01 != 0 && m.ctrl & 0x01 == 0 {
            m.now + 72 * (1024 - m.na)
        } else {
            m.next_a
        }),
        m.write_reg(0x27, data).next_b == (if data & 0x02 != 0 && m.ctrl & 0x02 == 0 {
            m.now + 1152 * (256 - m.nb)
        } else {
            m.next_b
        }),
        m.wf() && m.now + 294912 <= u64::MAX ==> m.write_fits(0x27, data),
{
}

} // verus!
