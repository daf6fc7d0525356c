use pmdhost::board::{Host, LOADSEG};
use pmdhost::emu::EmuRegs;
use pmdhost::opna::Timer;
use pmdhost::packet::PacketSend;

fn regs_with_ah(ah: u8) -> EmuRegs {
    EmuRegs {
        ax: (ah as u16) << 8 | 0x11,
        bx: 0x2222,
        cx: 0x3333,
        dx: 0x4444,
        si: 0,
        di: 0,
        bp: 0,
        sp: 0xFFFE,
        ds: 0x1000,
        es: 0x5555,
        cs: 0x1000,
        ip: 0x100,
        flags: 0x0202,
    }
}

// Writes `val` to front-bank register `reg`, returning the packet sent.
fn write_front(h: &mut Host, reg: u8, val: u8) -> Option<PacketSend> {
    assert_eq!(h.out(0x188, reg), None);
    h.out(0x18A, val)
}

#[test]
fn board_detection_answers() {
    let mut h = Host::new();
    h.out(0x188, 0xFF);
    assert_eq!(h.in_port(0x18A), 0x01);
    h.out(0x188, 0x0E);
    assert_eq!(h.in_port(0x18A), 0xFF);
    h.out(0x188, 0x0F);
    assert_eq!(h.in_port(0x18A), 0xFF);
    h.out(0x188, 0x30);
    assert_eq!(h.in_port(0x18A), 0x00);
    assert_eq!(h.in_port(0x18C), 0x00);
    assert_eq!(h.in_port(0x18E), 0x00);
    assert_eq!(h.in_port(0x08A), 0xFF);
    assert_eq!(h.in_port(0xA460), 0xFF);
    assert_eq!(h.in_port(0x1234), 0xFF);
    assert_eq!(h.in_port(0x188), 0x00);
}

#[test]
fn ssg_read_gives_back_write() {
    let mut h = Host::new();
    let p = write_front(&mut h, 0x07, 0x38).unwrap();
    assert_eq!(p, PacketSend::new(0, 0x07, 0x38));
    h.out(0x188, 0x07);
    assert_eq!(h.in_port(0x18A), 0x38);
    // The joystick ports read FFh even after a write.
    write_front(&mut h, 0x0E, 0x12);
    assert_eq!(h.in_port(0x18A), 0xFF);
}

#[test]
fn ctrl_masked_until_armed() {
    let mut h = Host::new();
    let p = write_front(&mut h, 0x27, 0x3F).unwrap();
    assert_eq!(p.reg_address, 0x27);
    assert_eq!(p.data, 0x30);
    h.arm_board();
    let p = write_front(&mut h, 0x27, 0x3F).unwrap();
    assert_eq!(p.data, 0x3F);
    // After a reset of the timers the mask applies again.
    h.reset_timers();
    let p = write_front(&mut h, 0x27, 0x0F).unwrap();
    assert_eq!(p.data, 0x00);
}

#[test]
fn back_bank_write() {
    let mut h = Host::new();
    h.out(0x188, 0x11);
    assert_eq!(h.out(0x18C, 0x30), None);
    let p = h.out(0x18E, 0x55).unwrap();
    assert_eq!(p, PacketSend::new(PacketSend::BANK_SELECT, 0x30, 0x55));
    // The front latch is untouched.
    let p = h.out(0x18A, 0x01).unwrap();
    assert_eq!(p.reg_address, 0x11);
    assert_eq!(h.out(0x100, 0x01), None);
}

#[test]
fn writes_go_to_the_event_buffer() {
    let mut h = Host::new();
    write_front(&mut h, 0x24, 0);
    write_front(&mut h, 0x25, 0);
    write_front(&mut h, 0x26, 0);
    write_front(&mut h, 0x27, 0x0F);
    assert_eq!(h.next_event(), Some(Timer::A));
    assert_eq!(h.in_port(0x188) & 0x01, 0x01);
    let p = write_front(&mut h, 0x40, 0x7F).unwrap();
    assert_eq!(p.ty, PacketSend::INT_SELECT_A);
    h.out(0x18C, 0x40);
    assert_eq!(h.out(0x18E, 0x7F).unwrap().ty, PacketSend::INT_SELECT_A | PacketSend::BANK_SELECT);
    assert_eq!(h.end_batch(), PacketSend::new(PacketSend::INT_END | PacketSend::INT_SELECT_A, 0, 0));
    h.reset_intsel_to_b();
    assert_eq!(write_front(&mut h, 0x40, 0x7F).unwrap().ty, 0);
    assert_eq!(h.end_batch(), PacketSend::new(PacketSend::INT_END, 0, 0));
}

#[test]
fn timer_b_event_targets_buffer_b() {
    let mut h = Host::new();
    write_front(&mut h, 0x26, 0);
    write_front(&mut h, 0x27, 0x0A); // Load B + Enable B
    assert!(h.event_fits());
    assert_eq!(h.next_event(), Some(Timer::B));
    assert_eq!(h.in_port(0x188), 0x02);
    assert_eq!(write_front(&mut h, 0x28, 0xF0).unwrap().ty, 0);
}

#[test]
fn no_event_without_running_timer() {
    let mut h = Host::new();
    assert_eq!(h.next_event(), None);
    assert_eq!(h.flush_drain()[0], PacketSend::new(PacketSend::INT_END, 0, 0));
}

#[test]
fn control_packets() {
    let h = Host::new();
    assert_eq!(h.flush_reset().as_bytes(), [0x10, 0, 0, 0xAA]);
    let d = h.flush_drain();
    assert_eq!(d[0].as_bytes(), [0x80, 0, 0, 0xAA]);
    assert_eq!(d[1].as_bytes(), [0x20, 0, 0, 0xAA]);
    assert_eq!(h.end_batch().as_bytes(), [0x80, 0, 0, 0xAA]);
}

#[test]
fn emit_sets_bank_and_buffer() {
    let h = Host::new();
    assert_eq!(h.emit(1, 0x30, 0x12), PacketSend::new(1, 0x30, 0x12));
    assert_eq!(h.emit(0, 0x30, 0x12), PacketSend::new(0, 0x30, 0x12));
}

#[test]
fn dos_version_and_memory() {
    let mut h = Host::new();
    let mut r = regs_with_ah(0x30);
    r.flags |= 1;
    assert_eq!(h.dos(&mut r), 1);
    assert_eq!(r.ax, 0x0005);
    assert_eq!(r.flags & 1, 0);
    let mut r = regs_with_ah(0x48);
    assert_eq!(h.dos(&mut r), 1);
    assert_eq!(r.ax, 0x9000);
    let mut r = regs_with_ah(0x62);
    assert_eq!(h.dos(&mut r), 1);
    assert_eq!(r.bx, LOADSEG);
    let mut r = regs_with_ah(0x52);
    h.dos(&mut r);
    assert_eq!((r.es, r.bx), (0x0050, 0));
    let mut r = regs_with_ah(0x35);
    h.dos(&mut r);
    assert_eq!((r.es, r.bx), (0, 0));
    let before = regs_with_ah(0x25);
    let mut r = before;
    assert_eq!(h.dos(&mut r), 1);
    assert_eq!(r, EmuRegs { flags: 0x0202, ..before });
    assert!(!h.installed && !h.exited);
}

#[test]
fn dos_unknown_sets_carry() {
    let mut h = Host::new();
    let mut r = regs_with_ah(0x3D);
    assert_eq!(h.dos(&mut r), 1);
    assert_eq!(r.flags, 0x0203);
    assert_eq!(r.ax, 0x3D11);
}

#[test]
fn dos_tsr_and_exit_stop_the_emulator() {
    let mut h = Host::new();
    let mut r = regs_with_ah(0x31);
    assert_eq!(h.dos(&mut r), 2);
    assert!(h.installed);
    assert!(!h.exited);
    assert_eq!(r, regs_with_ah(0x31));
    let mut r = regs_with_ah(0x4C);
    assert_eq!(h.dos(&mut r), 2);
    assert!(h.exited);
}

#[test]
fn interrupt_dispatch() {
    let mut h = Host::new();
    let mut r = regs_with_ah(0x30);
    assert_eq!(h.intr(0x21, &mut r), 1);
    assert_eq!(r.ax, 5);
    let mut r = regs_with_ah(0x30);
    assert_eq!(h.intr(0x60, &mut r), 0);
    assert_eq!(h.intr(0x18, &mut r), 1);
    h.set_timer_vec(0x18);
    assert_eq!(h.intr(0x18, &mut r), 0);
    assert_eq!(r, regs_with_ah(0x30));
    // Before a vector is known it is FFh.
    let mut h = Host::new();
    assert_eq!(h.intr(0xFF, &mut r), 0);
}

#[test]
fn reset_timers_clears_model_and_shadow() {
    let mut h = Host::new();
    write_front(&mut h, 0x07, 0x38);
    write_front(&mut h, 0x26, 0);
    h.arm_board();
    write_front(&mut h, 0x27, 0x0A);
    assert_eq!(h.next_event(), Some(Timer::B));
    h.reset_timers();
    assert_eq!(h.next_event(), None);
    assert_eq!(h.in_port(0x188), 0);
    h.out(0x188, 0x07);
    assert_eq!(h.in_port(0x18A), 0);
    assert!(h.out_fits(0x18A, 0xFF));
}
