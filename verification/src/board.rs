//! The emulated PC-98 side of the board: the OPNA I/O trap, the answers to
//! board detection, the DOS stub, and the packets that carry PMD's register
//! writes to the board's Timer A / Timer B buffers.
//!
//! One PMD timer interrupt is one tick and one batch; the batch goes to the
//! buffer of the timer that fired, ended by `INT_END`. The board's own timers
//! pace playback. The order of events comes from the virtual OPNA model
//! (Timer B first on a tie).

use vstd::prelude::*;
use crate::emu::EmuRegs;
use crate::opna::{Opna, OpnaModel, Timer};
use crate::packet::PacketSend;

verus! {

/// Segment the COM image is loaded at.
pub const LOADSEG: u16 = 0x1000;

/// The host side of the emulated sound board.
pub struct Host {
    latch0: u8,
    latch1: u8,
    ssg: [u8; 16],
    opna: Opna,
    // IntSelect of the current event (0 = buffer B, INT_SELECT_A = buffer A).
    cur_intsel: u8,
    // true: writes to 0x27 are forwarded as they are (the board's timers run).
    timer_armed: bool,
    timer_vec: u8,
    pub installed: bool,
    pub exited: bool,
}

/// The mathematical state of a [`Host`].
pub struct HostModel {
    /// Address latch of the front bank (port 188h).
    pub latch0: u8,
    /// Address latch of the back bank (port 18Ch).
    pub latch1: u8,
    /// Shadow of the SSG registers 0x00-0x0F.
    pub ssg: Seq<u8>,
    pub opna: OpnaModel,
    /// IntSelect bits of the buffer the current event's writes go to.
    pub cur_intsel: u8,
    pub timer_armed: bool,
    /// Interrupt vector of the OPNA timer handler.
    pub timer_vec: u8,
    pub installed: bool,
    pub exited: bool,
}

/// The DOS functions the stub answers with success.
pub open spec fn dos_handled(ah: u16) -> bool {
    ah == 0x30 || ah == 0x52 || ah == 0x51 || ah == 0x62 || ah == 0x25 || ah == 0x35 || ah
        == 0x49 || ah == 0x48 || ah == 0x4A || ah == 0x09 || ah == 0x02
}

/// The registers after the DOS stub served INT 21h: TSR (31h) and exit (4Ch)
/// stop the emulator with the registers untouched; the handled functions set
/// their results and clear the carry flag; anything else sets the carry flag.
pub open spec fn dos_regs(r: EmuRegs) -> EmuRegs {
    let ah = r.ax / 256;
    if ah == 0x31 || ah == 0x4C {
        r
    } else if dos_handled(ah) {
        let done = if ah == 0x30 {
            EmuRegs { ax: 0x0005, ..r }
        } else if ah == 0x52 {
            EmuRegs { es: 0x0050, bx: 0, ..r }
        } else if ah == 0x51 || ah == 0x62 {
            EmuRegs { bx: LOADSEG, ..r }
        } else if ah == 0x35 {
            EmuRegs { bx: 0, es: 0, ..r }
        } else if ah == 0x48 {
            EmuRegs { ax: 0x9000, ..r }
        } else {
            r
        };
        EmuRegs { flags: done.flags & 0xFFFE, ..done }
    } else {
        EmuRegs { flags: r.flags | 1, ..r }
    }
}

/// What the DOS stub returns: 2 when the emulator must stop (TSR or exit),
/// 1 otherwise.
pub open spec fn dos_code(ah: u16) -> i32 {
    if ah == 0x31 || ah == 0x4C {
        2
    } else {
        1
    }
}

impl HostModel {
    /// The state before install.
    pub open spec fn init() -> Self {
        HostModel {
            latch0: 0,
            latch1: 0,
            ssg: Seq::new(16, |i: int| 0u8),
            opna: OpnaModel::init(),
            cur_intsel: 0,
            timer_armed: false,
            timer_vec: 0xFF,
            installed: false,
            exited: false,
        }
    }

    /// The packet for a register write on `bank` (0 = front, otherwise back),
    /// aimed at the current event's buffer.
    pub open spec fn packet(self, bank: u8, reg: u8, data: u8) -> PacketSend {
        PacketSend {
            ty: (if bank != 0 {
                PacketSend::BANK_SELECT
            } else {
                0u8
            }) | self.cur_intsel,
            reg_address: reg,
            data: data,
            end_sym: PacketSend::END_SYM,
        }
    }

    /// The value forwarded for a write to 0x27: as written once armed; before
    /// that with the four timer bits (Load/Enable) cleared, so the board's
    /// timers do not start early.
    pub open spec fn forwarded_ctrl(self, val: u8) -> u8 {
        if self.timer_armed {
            val
        } else {
            val & 0xF0
        }
    }

    /// The state after PMD writes `val` to I/O port `port`.
    pub open spec fn out(self, port: u32, val: u8) -> Self {
        if port == 0x188 {
            HostModel { latch0: val, ..self }
        } else if port == 0x18A {
            let r = self.latch0;
            HostModel {
                ssg: if r < 0x10 {
                    self.ssg.update(r as int, val)
                } else {
                    self.ssg
                },
                opna: self.opna.write_reg(r, val),
                ..self
            }
        } else if port == 0x18C {
            HostModel { latch1: val, ..self }
        } else {
            self
        }
    }

    /// The packet sent to the board for a write of `val` to port `port`: data
    /// writes to 18Ah (front bank) and 18Eh (back bank) go out with the latched
    /// register; latch writes and other ports send nothing.
    pub open spec fn out_packet(self, port: u32, val: u8) -> Option<PacketSend> {
        if port == 0x18A {
            let r = self.latch0;
            Some(
                self.packet(
                    0,
                    r,
                    if r == 0x27 {
                        self.forwarded_ctrl(val)
                    } else {
                        val
                    },
                ),
            )
        } else if port == 0x18E {
            Some(self.packet(1, self.latch1, val))
        } else {
            None
        }
    }

    /// What a read of port `port` returns: the OPNA status at 188h; at 18Ah
    /// 01h after latching FFh (the YMF288 is there), FFh for the joystick
    /// registers 0Eh/0Fh, the SSG shadow for other SSG registers, else 0;
    /// 0 at 18Ch/18Eh; FFh everywhere else (no OPNA at base 088h, no sound
    /// board ID at A460h).
    pub open spec fn in_port(self, port: u32) -> u8 {
        if port == 0x18A {
            if self.latch0 == 0xFF {
                0x01
            } else if self.latch0 == 0x0E || self.latch0 == 0x0F {
                0xFF
            } else if self.latch0 < 0x10 {
                self.ssg[self.latch0 as int]
            } else {
                0x00
            }
        } else if port == 0x18C || port == 0x18E {
            0x00
        } else if port == 0x188 {
            self.opna.status()
        } else {
            0xFF
        }
    }

    /// The state after the DOS stub served INT 21h function `ah`.
    pub open spec fn after_dos(self, ah: u16) -> Self {
        HostModel {
            installed: self.installed || ah == 0x31,
            exited: self.exited || ah == 0x4C,
            ..self
        }
    }

    /// The buffer bits for the writes of an event of `t`.
    pub open spec fn intsel_for(t: Timer) -> u8 {
        match t {
            Timer::A => PacketSend::INT_SELECT_A,
            Timer::B => 0,
        }
    }

    /// The state after the next timer event.
    pub open spec fn next_event(self) -> Self {
        match self.opna.next_timer() {
            Some(t) => HostModel { opna: self.opna.step(), cur_intsel: Self::intsel_for(t), ..self },
            None => self,
        }
    }

    /// The write keeps the OPNA clock within `u64`.
    pub open spec fn out_fits(self, port: u32, val: u8) -> bool {
        port == 0x18A ==> self.opna.write_fits(self.latch0, val)
    }
}

impl View for Host {
    type V = HostModel;

    closed spec fn view(&self) -> HostModel {
        HostModel {
            latch0: self.latch0,
            latch1: self.latch1,
            ssg: self.ssg@,
            opna: self.opna@,
            cur_intsel: self.cur_intsel,
            timer_armed: self.timer_armed,
            timer_vec: self.timer_vec,
            installed: self.installed,
            exited: self.exited,
        }
    }
}

impl Host {
    /// A host before install: no timer vector known yet (FFh), board not armed.
    pub fn new() -> (h: Self)
        ensures
            h@ == HostModel::init(),
            h@.ssg.len() == 16,
    {
        let h = Self {
            latch0: 0,
            latch1: 0,
            ssg: [0u8, 0, 0, 0, 0, 0, 0, 0, 0, 0, 0, 0, 0, 0, 0, 0],
            opna: Opna::new(),
            cur_intsel: 0,
            timer_armed: false,
            timer_vec: 0xFF,
            installed: false,
            exited: false,
        };
        assert(h@.ssg =~= HostModel::init().ssg);
        h
    }

    /// Whether `out(port, val)` keeps the OPNA clock within `u64`.
    pub fn out_fits(&self, port: u32, val: u8) -> (r: bool)
        ensures
            r == self@.out_fits(port, val),
    {
        port != 0x18A || self.opna.write_fits(self.latch0, val)
    }

    /// Whether `next_event` keeps the OPNA clock within `u64`.
    pub fn event_fits(&self) -> (r: bool)
        ensures
            r == self@.opna.step_fits(),
    {
        self.opna.event_fits()
    }

    /// PMD wrote `val` to I/O port `port`. Returns the packet to send to the
    /// board, if the write is one.
    pub fn out(&mut self, port: u32, val: u8) -> (p: Option<PacketSend>)
        requires
            old(self)@.out_fits(port, val),
        ensures
            final(self)@ == old(self)@.out(port, val),
            final(self)@.ssg.len() == 16,
            p == old(self)@.out_packet(port, val),
    {
        if port == 0x188 {
            self.latch0 = val;
            None
        } else if port == 0x18A {
            let r = self.latch0;
            if r < 0x10 {
                self.ssg[r as usize] = val;
            }
            self.opna.write_reg(r, val);
            if r == 0x27 {
                // Once armed the value goes out as PMD wrote it, so the board's
                // timers run; before that (install, MUSIC_START) with every
                // timer disabled, so they do not start early.
                let v = if self.timer_armed {
                    val
                } else {
                    val & !0x0Fu8
                };
                assert(val & !0x0Fu8 == val & 0xF0u8) by (bit_vector);
                Some(self.emit(0, 0x27, v))
            } else {
                Some(self.emit(0, r, val))
            }
        } else if port == 0x18C {
            self.latch1 = val;
            None
        } else if port == 0x18E {
            let r = self.latch1;
            Some(self.emit(1, r, val))
        } else {
            None
        }
    }

    /// The packet for a register write on `bank`, aimed at the current
    /// event's buffer.
    pub fn emit(&self, bank: u8, reg: u8, data: u8) -> (p: PacketSend)
        ensures
            p == self@.packet(bank, reg, data),
    {
        let bank_bit = if bank != 0 {
            PacketSend::BANK_SELECT
        } else {
            0
        };
        let ty = bank_bit | self.cur_intsel;
        PacketSend::new(ty, reg, data)
    }

    /// PMD read I/O port `port`: the answer that makes it detect a YMF288 at
    /// base 188h and read the timer status.
    pub fn in_port(&self, port: u32) -> (v: u8)
        ensures
            v == self@.in_port(port),
            self@.ssg.len() == 16,
    {
        if port == 0x18A {
            if self.latch0 == 0xFF {
                0x01
            } else if self.latch0 == 0x0E || self.latch0 == 0x0F {
                0xFF
            } else if self.latch0 < 0x10 {
                self.ssg[self.latch0 as usize]
            } else {
                0x00
            }
        } else if port == 0x18C || port == 0x18E {
            0x00
        } else if port == 0x188 {
            self.opna.read_status()
        } else {
            0xFF
        }
    }

    /// The DOS stub for INT 21h. Returns 1 when served, 2 when the emulator
    /// must stop (TSR: install done; exit).
    pub fn dos(&mut self, r: &mut EmuRegs) -> (code: i32)
        ensures
            code == dos_code(old(r).ax / 256),
            *final(r) == dos_regs(*old(r)),
            final(self)@ == old(self)@.after_dos(old(r).ax / 256),
    {
        let ah = r.ah();
        if ah == 0x30 {
            r.set_ax(0x0005);
        } else if ah == 0x52 {
            r.es = 0x0050;
            r.bx = 0;
        } else if ah == 0x51 || ah == 0x62 {
            r.bx = LOADSEG;
        } else if ah == 0x35 {
            r.bx = 0;
            r.es = 0;
        } else if ah == 0x48 {
            r.set_ax(0x9000);
        } else if ah == 0x25 || ah == 0x49 || ah == 0x4A || ah == 0x09 || ah == 0x02 {
        } else if ah == 0x31 {
            self.installed = true;
            return 2;
        } else if ah == 0x4C {
            self.exited = true;
            return 2;
        } else {
            r.flags = r.flags | 1;
            return 1;
        }
        let f = r.flags;
        assert(f & !1u16 == f & 0xFFFE) by (bit_vector);
        r.flags = f & !1u16;
        1
    }

    /// An interrupt raised inside the emulator: INT 21h goes to the DOS stub;
    /// for INT 60h (PMD's own API) and the OPNA timer vector the emulator runs
    /// the real handler (0); any other interrupt counts as handled, as a no-op
    /// (1).
    pub fn intr(&mut self, num: u8, r: &mut EmuRegs) -> (code: i32)
        ensures
            num == 0x21 ==> code == dos_code(old(r).ax / 256) && *final(r) == dos_regs(*old(r))
                && final(self)@ == old(self)@.after_dos(old(r).ax / 256),
            num != 0x21 ==> *final(r) == *old(r) && final(self)@ == old(self)@ && code == (if num
                == 0x60 || num == old(self)@.timer_vec {
                0i32
            } else {
                1i32
            }),
    {
        if num == 0x21 {
            self.dos(r)
        } else if num == 0x60 || num == self.timer_vec {
            0
        } else {
            1
        }
    }

    /// Records the interrupt vector of the OPNA timer handler.
    pub fn set_timer_vec(&mut self, vec: u8)
        ensures
            final(self)@ == (HostModel { timer_vec: vec, ..old(self)@ }),
    {
        self.timer_vec = vec;
    }

    /// From now on writes to 0x27 go to the board as written.
    pub fn arm_board(&mut self)
        ensures
            final(self)@ == (HostModel { timer_armed: true, ..old(self)@ }),
    {
        self.timer_armed = true;
    }

    /// On a change of song: a fresh OPNA model, a cleared SSG shadow and the
    /// board disarmed, so nothing of the previous song carries over (the new
    /// MUSIC_START writes NA/NB/0x27 again; 07h is read-modify-written; a Load
    /// edge restarts the board's timers cleanly on the first event).
    pub fn reset_timers(&mut self)
        ensures
            final(self)@ == (HostModel {
                opna: OpnaModel::init(),
                ssg: HostModel::init().ssg,
                timer_armed: false,
                ..old(self)@
            }),
    {
        self.opna = Opna::new();
        self.ssg = [0u8, 0, 0, 0, 0, 0, 0, 0, 0, 0, 0, 0, 0, 0, 0, 0];
        assert(self@.ssg =~= HostModel::init().ssg);
        self.timer_armed = false;
    }

    /// Sends the following writes to buffer B (music) again, as initialisation
    /// writes outside a timer event belong there.
    pub fn reset_intsel_to_b(&mut self)
        ensures
            final(self)@ == (HostModel { cur_intsel: 0, ..old(self)@ }),
    {
        self.cur_intsel = 0;
    }

    /// The next event (A or B): raises the OPNA flag and aims the following
    /// writes at that timer's buffer (A: SSG drums / effects, B: music).
    pub fn next_event(&mut self) -> (t: Option<Timer>)
        requires
            old(self)@.opna.step_fits(),
        ensures
            t == old(self)@.opna.next_timer(),
            final(self)@ == old(self)@.next_event(),
    {
        let t = self.opna.next_event();
        match t {
            Some(Timer::A) => {
                self.cur_intsel = PacketSend::INT_SELECT_A;
            },
            Some(Timer::B) => {
                self.cur_intsel = 0;
            },
            None => {},
        }
        t
    }

    /// The reset before playback: the driver drops its queue and the board its
    /// buffers, order queue and pending timers.
    pub fn flush_reset(&self) -> (p: PacketSend)
        ensures
            p == PacketSend::make(PacketSend::FLUSH, 0, 0),
    {
        PacketSend::new(PacketSend::FLUSH, 0, 0)
    }

    /// End of batch for the current buffer, then a forced drain (install,
    /// MUSIC_START and the first tick, which start the board's timers).
    pub fn flush_drain(&self) -> (p: [PacketSend; 2])
        ensures
            p@ == seq![
                PacketSend::make(PacketSend::INT_END | self@.cur_intsel, 0, 0),
                PacketSend::make(PacketSend::FORCE_TIMEOUT, 0, 0),
            ],
    {
        [
            PacketSend::new(PacketSend::INT_END | self.cur_intsel, 0, 0),
            PacketSend::new(PacketSend::FORCE_TIMEOUT, 0, 0),
        ]
    }

    /// End of batch for the current buffer only; from then on the board's
    /// interrupt drains it.
    pub fn end_batch(&self) -> (p: PacketSend)
        ensures
            p == PacketSend::make(PacketSend::INT_END | self@.cur_intsel, 0, 0),
    {
        PacketSend::new(PacketSend::INT_END | self.cur_intsel, 0, 0)
    }
}

/// Law: after an event of timer `t`, every register write PMD makes goes to
/// `t`'s buffer (IntSelect A for Timer A, buffer B for Timer B), on the bank of
/// the port written, and is no control packet.
pub proof fn law_writes_go_to_event_buffer(h: HostModel, t: Timer, port: u32, val: u8)
    requires
        h.opna.next_timer() == Some(t),
        port == 0x18A || port == 0x18E,
    ensures
        ({
            let p = h.next_event().out_packet(port, val)->0;
            &&& h.next_event().out_packet(port, val) is Some
            &&& p.ty & PacketSend::INT_SELECT_A == HostModel::intsel_for(t)
            &&& p.ty & PacketSend::BANK_SELECT == (if port == 0x18E {
                1u8
            } else {
                0u8
            })
            &&& p.ty & (PacketSend::INT_END | PacketSend::FORCE_TIMEOUT | PacketSend::FLUSH
                | PacketSend::SIZE_REQUEST) == 0
            &&& p.end_sym == PacketSend::END_SYM
        }),
{
    assert(forall|b: u8, s: u8|
        (b == 0 || b == 1) && (s == 0 || s == 0x40) ==> #[trigger] ((b | s) & 0x40u8) == s && (b
            | s) & 1u8 == b && (b | s) & 0xB8u8 == 0) by (bit_vector);
    assert(0x80u8 | 0x20u8 | 0x10u8 | 0x08u8 == 0xB8u8) by (bit_vector);
}

/// Law: an event decides where the tick's batch ends: after a Timer A event
/// the batch end is C0h (buffer A), after Timer B 80h (buffer B); without an
/// event the buffer and the timer model stay as they were.
pub proof fn law_batch_end_follows_event(h: HostModel)
    ensures
        h.opna.next_timer() == Some(Timer::A) ==> (PacketSend::INT_END
            | h.next_event().cur_intsel) == 0xC0u8,
        h.opna.next_timer() == Some(Timer::B) ==> (PacketSend::INT_END
            | h.next_event().cur_intsel) == 0x80u8,
        h.opna.next_timer() is None ==> h.next_event() == h,
{
    assert(0x80u8 | 0x40u8 == 0xC0u8 && 0x80u8 | 0u8 == 0x80u8) by (bit_vector);
}

/// Law: a data write carries the register last latched on its own bank; a
/// latch on one bank does not disturb the other.
pub proof fn law_data_write_uses_latched_register(h: HostModel, r: u8, v: u8)
    ensures
        h.out(0x188, r).out_packet(0x18A, v)->0.reg_address == r,
        h.out(0x18C, r).out_packet(0x18E, v)->0.reg_address == r,
        h.out(0x18C, r).latch0 == h.latch0,
        h.out(0x188, r).latch1 == h.latch1,
{
}

/// Law: reading the data port gives back what was last written to an SSG
/// register (other than the joystick ports 0Eh/0Fh, which read FFh).
pub proof fn law_ssg_read_gives_back_write(h: HostModel, r: u8, v: u8)
    requires
        h.ssg.len() == 16,
        r < 0x10,
    ensures
        r != 0x0E && r != 0x0F ==> h.out(0x188, r).out(0x18A, v).in_port(0x18A) == v,
        r == 0x0E || r == 0x0F ==> h.out(0x188, r).out(0x18A, v).in_port(0x18A) == 0xFF,
{
}

/// Law: until the board is armed, a write to 0x27 reaches the board with its
/// timer bits (Load A/B, Enable A/B) cleared; once armed, as written. The OPNA
/// model sees the write as written either way.
pub proof fn law_ctrl_masked_until_armed(h: HostModel, v: u8)
    requires
        h.latch0 == 0x27,
    ensures
        !h.timer_armed ==> h.out_packet(0x18A, v)->0.data & 0x0F == 0
            && h.out_packet(0x18A, v)->0.data & 0xF0 == v & 0xF0,
        h.timer_armed ==> h.out_packet(0x18A, v)->0.data == v,
        h.out(0x18A, v).opna == h.opna.write_reg(0x27, v),
{
    assert((v & 0xF0u8) & 0x0Fu8 == 0 && (v & 0xF0u8) & 0xF0u8 == v & 0xF0u8) by (bit_vector);
}

/// Law: the status port reads the OPNA status register, and an event raises
/// the fired timer's bit in it.
pub proof fn law_status_port_shows_event(h: HostModel)
    ensures
        h.in_port(0x188) == h.opna.status(),
        h.opna.next_timer() == Some(Timer::A) ==> h.next_event().in_port(0x188) & 1 == 1,
        h.opna.next_timer() == Some(Timer::B) ==> h.next_event().in_port(0x188) & 2 == 2,
{
    assert(1u8 & 1u8 == 1u8 && 3u8 & 1u8 == 1u8 && 2u8 & 2u8 == 2u8 && 3u8 & 2u8 == 2u8)
        by (bit_vector);
}

/// Law: a data write on the front bank (18Ah) reaches the OPNA timer model as
/// a write of the latched register, whatever register that is; it changes
/// nothing but the timer model and, for registers 00h-0Fh, the SSG shadow;
/// and it goes to the board as one packet of the current buffer with that
/// register and value (a write to 0x27 with its low four bits cleared while
/// the board is not armed).
pub proof fn law_front_write_reaches_timer_model(h: HostModel, r: u8, v: u8)
    requires
        h.ssg.len() == 16,
    ensures
        h.out(0x188, r).out(0x18A, v).opna == h.opna.write_reg(r, v),
        h.out(0x188, r).out(0x18A, v).latch0 == r,
        h.out(0x188, r).out(0x18A, v).latch1 == h.latch1,
        h.out(0x188, r).out(0x18A, v).cur_intsel == h.cur_intsel,
        h.out(0x188, r).out(0x18A, v).timer_armed == h.timer_armed,
        h.out(0x188, r).out(0x18A, v).timer_vec == h.timer_vec,
        h.out(0x188, r).out(0x18A, v).installed == h.installed,
        h.out(0x188, r).out(0x18A, v).exited == h.exited,
        h.out(0x188, r).out(0x18A, v).ssg.len() == 16,
        forall|i: int|
            0 <= i < 16 ==> #[trigger] h.out(0x188, r).out(0x18A, v).ssg[i] == (if i == r {
                v
            } else {
                h.ssg[i]
            }),
        h.out(0x188, r).out_packet(0x18A, v) == Some(
            PacketSend {
                ty: h.cur_intsel,
                reg_address: r,
                data: if r == 0x27 && !h.timer_armed {
                    v & 0xF0
                } else {
                    v
                },
                end_sym: 0xAA,
            },
        ),
{
    assert(forall|c: u8| #[trigger] (0u8 | c) == c) by (bit_vector);
}

/// Law: the back bank (18Ch/18Eh) only latches and forwards: its data write
/// goes to the board as one packet with bank bit 01h in the current buffer,
/// and changes neither the timer model, the SSG shadow nor anything else.
/// Latching on the front bank changes only the front latch, and a write to any
/// other port changes nothing and sends nothing.
pub proof fn law_back_bank_and_latches(h: HostModel, r: u8, v: u8, port: u32)
    ensures
        h.out(0x18C, r).out(0x18E, v) == (HostModel { latch1: r, ..h }),
        h.out(0x18C, r).out_packet(0x18E, v) == Some(
            PacketSend { ty: h.cur_intsel | 0x01, reg_address: r, data: v, end_sym: 0xAA },
        ),
        h.out(0x188, r) == (HostModel { latch0: r, ..h }),
        h.out_packet(0x188, r) is None && h.out_packet(0x18C, r) is None,
        port != 0x188 && port != 0x18A && port != 0x18C && port != 0x18E ==> h.out(port, v) == h
            && h.out_packet(port, v) is None,
{
    assert(forall|c: u8| #[trigger] (1u8 | c) == (c | 1u8)) by (bit_vector);
}

/// Law: the answers to board detection: after latching FFh the data port reads
/// 01h (a YMF288 is present); 0Eh/0Fh read FFh; registers 10h-FEh read 0; the
/// back bank reads 0; the OPNA at base 088h and the sound board ID port A460h
/// read FFh (absent), as does every other unknown port.
pub proof fn law_detection_answers(h: HostModel, port: u32)
    ensures
        h.out(0x188, 0xFF).in_port(0x18A) == 0x01,
        h.out(0x188, 0x0E).in_port(0x18A) == 0xFF,
        h.out(0x188, 0x0F).in_port(0x18A) == 0xFF,
        0x10 <= h.latch0 < 0xFF ==> h.in_port(0x18A) == 0,
        h.in_port(0x18C) == 0 && h.in_port(0x18E) == 0,
        h.in_port(0x08A) == 0xFF && h.in_port(0xA460) == 0xFF,
        port != 0x188 && port != 0x18A && port != 0x18C && port != 0x18E ==> h.in_port(port)
            == 0xFF,
{
}

/// Law: the DOS stub's answers, by function number AH = AX / 256. TSR (31h)
/// and exit (4Ch) stop the emulator (2) and touch no register. The served
/// functions return 1 with the carry flag (bit 0 of FLAGS) cleared and every
/// other flag kept: 30h reports DOS 5 in AX; 52h the list of lists at
/// 0050h:0000h; 51h and 62h the PSP at the load segment 1000h in BX; 35h a
/// null vector in ES:BX; 48h the segment 9000h in AX; 25h, 49h, 4Ah, 09h and
/// 02h change nothing else. Any other function returns 1 with the carry flag
/// set and nothing else changed.
pub proof fn law_dos_answers(r: EmuRegs)
    ensures
        r.ax / 256 == 0x31 || r.ax / 256 == 0x4C ==> dos_regs(r) == r && dos_code(r.ax / 256)
            == 2,
        r.ax / 256 != 0x31 && r.ax / 256 != 0x4C ==> dos_code(r.ax / 256) == 1,
        r.ax / 256 == 0x30 ==> dos_regs(r) == (EmuRegs { ax: 5, flags: r.flags & 0xFFFE, ..r }),
        r.ax / 256 == 0x52 ==> dos_regs(r) == (EmuRegs {
            es: 0x50,
            bx: 0,
            flags: r.flags & 0xFFFE,
            ..r
        }),
        r.ax / 256 == 0x51 || r.ax / 256 == 0x62 ==> dos_regs(r) == (EmuRegs {
            bx: 0x1000,
            flags: r.flags & 0xFFFE,
            ..r
        }),
        r.ax / 256 == 0x35 ==> dos_regs(r) == (EmuRegs {
            bx: 0,
            es: 0,
            flags: r.flags & 0xFFFE,
            ..r
        }),
        r.ax / 256 == 0x48 ==> dos_regs(r) == (EmuRegs {
            ax: 0x9000,
            flags: r.flags & 0xFFFE,
            ..r
        }),
        r.ax / 256 == 0x25 || r.ax / 256 == 0x49 || r.ax / 256 == 0x4A || r.ax / 256 == 0x09
            || r.ax / 256 == 0x02 ==> dos_regs(r) == (EmuRegs { flags: r.flags & 0xFFFE, ..r }),
        !(r.ax / 256 == 0x30 || r.ax / 256 == 0x52 || r.ax / 256 == 0x51 || r.ax / 256 == 0x62
            || r.ax / 256 == 0x35 || r.ax / 256 == 0x48 || r.ax / 256 == 0x25 || r.ax / 256
            == 0x49 || r.ax / 256 == 0x4A || r.ax / 256 == 0x09 || r.ax / 256 == 0x02 || r.ax
            / 256 == 0x31 || r.ax / 256 == 0x4C) ==> dos_regs(r) == (EmuRegs {
            flags: r.flags | 1,
            ..r
        }),
        r.ax / 256 != 0x31 && r.ax / 256 != 0x4C ==> (dos_regs(r).flags & 1 == 0) == dos_handled(
            r.ax / 256,
        ),
{
    let f = r.flags;
    assert((f & 0xFFFE) & 1 == 0 && (f | 1) & 1 != 0) by (bit_vector);
}

/// Law: an event aims the following writes at its timer's buffer: IntSelect
/// 40h after a Timer A event, 0 (buffer B) after a Timer B event, and the
/// timer model takes the event; nothing else changes. Without an event the
/// host stays as it is.
pub proof fn law_event_selects_buffer(h: HostModel)
    ensures
        h.opna.next_timer() == Some(Timer::A) ==> h.next_event() == (HostModel {
            opna: h.opna.step(),
            cur_intsel: 0x40,
            ..h
        }),
        h.opna.next_timer() == Some(Timer::B) ==> h.next_event() == (HostModel {
            opna: h.opna.step(),
            cur_intsel: 0,
            ..h
        }),
        h.opna.next_timer() is None ==> h.next_event() == h,
{
}

} // verus!
