use pmdhost::opna::{Opna, Timer, ENABLE_A, ENABLE_B, LOAD_A, LOAD_B, RESET_B, ST_TIMER_B};

// Control values that set both Load and Enable.
const RUN_A: u8 = LOAD_A | ENABLE_A;
const RUN_B: u8 = LOAD_B | ENABLE_B;

#[test]
fn na_compose_from_two_regs() {
    let mut o = Opna::new();
    o.write_reg(0x24, 0xAB); // high 8 bits
    o.write_reg(0x25, 0x02); // low 2 bits
    assert_eq!(o.na(), (0xAB << 2) | 0x02);
}

#[test]
fn tie_fires_b_before_a() {
    let mut o = Opna::new();
    // NA=0 -> 72*1024 = 73728, NB=192 -> 1152*64 = 73728: the same time.
    o.write_reg(0x24, 0);
    o.write_reg(0x25, 0);
    o.write_reg(0x26, 192);
    o.write_reg(0x27, RUN_A | RUN_B);
    assert_eq!(o.next_event(), Some(Timer::B));
    assert_eq!(o.next_event(), Some(Timer::A));
}

#[test]
fn faster_timer_fires_more_often() {
    let mut o = Opna::new();
    o.write_reg(0x24, 0); // NA=0 -> period 73728
    o.write_reg(0x25, 0);
    o.write_reg(0x26, 0); // NB=0 -> period 294912 (about 4 times slower)
    o.write_reg(0x27, RUN_A | RUN_B);
    let mut a = 0;
    let mut b = 0;
    for _ in 0..20 {
        match o.next_event() {
            Some(Timer::A) => a += 1,
            Some(Timer::B) => b += 1,
            None => break,
        }
    }
    assert!(a > b, "速い Timer A の方が多く発火するはず (a={a}, b={b})");
}

#[test]
fn reset_bit_clears_flag() {
    let mut o = Opna::new();
    o.write_reg(0x26, 0);
    o.write_reg(0x27, RUN_B);
    o.next_event();
    assert_eq!(o.read_status() & ST_TIMER_B, ST_TIMER_B);
    o.write_reg(0x27, RUN_B | RESET_B);
    assert_eq!(o.read_status() & ST_TIMER_B, 0);
}

#[test]
fn no_event_when_disabled() {
    let mut o = Opna::new();
    o.write_reg(0x26, 0);
    // Load without Enable: no interrupt.
    o.write_reg(0x27, LOAD_B);
    assert_eq!(o.next_event(), None);
}

// NA=0 / NB=0 with both timers running.
fn both_running() -> Opna {
    let mut o = Opna::new();
    o.write_reg(0x24, 0);
    o.write_reg(0x25, 0);
    o.write_reg(0x26, 0);
    o.write_reg(0x27, RUN_A | RUN_B);
    o
}

#[test]
fn na_registers_commute() {
    let mut x = Opna::new();
    x.write_reg(0x24, 0x12);
    x.write_reg(0x25, 0xFF);
    let mut y = Opna::new();
    y.write_reg(0x25, 0xFF);
    y.write_reg(0x24, 0x12);
    assert_eq!(x.na(), 0x12 * 4 + 3);
    assert_eq!(y.na(), x.na());
    // A second 0x24 write keeps the low bits.
    x.write_reg(0x24, 0xFF);
    assert_eq!(x.na(), 0x3FF);
}

#[test]
fn nb_is_register_26() {
    let mut o = Opna::new();
    o.write_reg(0x26, 0xC8);
    assert_eq!(o.nb(), 0xC8);
}

#[test]
fn other_registers_are_ignored() {
    let mut o = both_running();
    let before = (o.na(), o.nb(), o.now(), o.read_status());
    o.write_reg(0x23, 0xFF);
    o.write_reg(0x28, 0xFF);
    o.write_reg(0x00, 0xFF);
    assert_eq!((o.na(), o.nb(), o.now(), o.read_status()), before);
    assert_eq!(o.next_event(), Some(Timer::A));
}

#[test]
fn fresh_opna_is_idle() {
    let mut o = Opna::new();
    assert_eq!(o.read_status(), 0);
    assert_eq!(o.now(), 0);
    assert_eq!(o.next_event(), None);
    assert_eq!(o.now(), 0);
    assert_eq!(o.read_status(), 0);
}

#[test]
fn enable_without_load_has_no_event() {
    let mut o = Opna::new();
    o.write_reg(0x27, ENABLE_A | ENABLE_B);
    assert_eq!(o.next_event(), None);
}

#[test]
fn lone_timer_a_is_periodic() {
    let mut o = Opna::new();
    o.write_reg(0x24, 0x80); // NA = 512 -> period 72 * 512 = 36864
    o.write_reg(0x27, RUN_A);
    assert_eq!(o.next_event(), Some(Timer::A));
    assert_eq!(o.now(), 36864);
    assert_eq!(o.next_event(), Some(Timer::A));
    assert_eq!(o.now(), 2 * 36864);
    assert_eq!(o.read_status(), 0x01);
}

#[test]
fn lone_timer_b_is_periodic() {
    let mut o = Opna::new();
    o.write_reg(0x26, 255); // period 1152
    o.write_reg(0x27, RUN_B);
    for k in 1..=5u64 {
        assert_eq!(o.next_event(), Some(Timer::B));
        assert_eq!(o.now(), k * 1152);
    }
    assert_eq!(o.read_status(), 0x02);
}

#[test]
fn events_come_in_time_order() {
    let mut o = both_running();
    // A at 73728, 147456, 221184, 294912 (tie with B: B first), ...
    let mut last = 0;
    let mut seen = Vec::new();
    for _ in 0..6 {
        let t = o.next_event().unwrap();
        assert!(o.now() >= last);
        last = o.now();
        seen.push((t, o.now()));
    }
    assert_eq!(
        seen,
        vec![
            (Timer::A, 73728),
            (Timer::A, 147456),
            (Timer::A, 221184),
            (Timer::B, 294912),
            (Timer::A, 294912),
            (Timer::A, 368640),
        ]
    );
    assert_eq!(o.read_status(), 0x03);
}

#[test]
fn slower_timer_never_fires_twice_in_a_row() {
    let mut o = Opna::new();
    o.write_reg(0x24, 0xF0); // NA = 960 -> 4608
    o.write_reg(0x26, 250); // NB = 250 -> 6912
    o.write_reg(0x27, RUN_A | RUN_B);
    let mut prev = None;
    for _ in 0..200 {
        let t = o.next_event();
        assert!(!(t == Some(Timer::B) && prev == Some(Timer::B)));
        prev = t;
    }
}

#[test]
fn reset_a_clears_only_flag_a() {
    let mut o = both_running();
    for _ in 0..4 {
        o.next_event();
    }
    assert_eq!(o.read_status(), 0x03);
    o.write_reg(0x27, RUN_A | RUN_B | 0x10);
    assert_eq!(o.read_status(), 0x02);
}

#[test]
fn load_edge_restarts_and_held_load_keeps_countdown() {
    let mut o = Opna::new();
    o.write_reg(0x24, 0x80); // period 36864
    o.write_reg(0x27, RUN_A);
    assert_eq!(o.next_event(), Some(Timer::A)); // now 36864
    // Load stays set: no restart, the next overflow stays at 73728.
    o.write_reg(0x27, RUN_A);
    assert_eq!(o.next_event(), Some(Timer::A));
    assert_eq!(o.now(), 73728);
    // Stop, then load again: restarts one period after now.
    o.write_reg(0x27, 0);
    assert_eq!(o.next_event(), None);
    o.write_reg(0x27, RUN_A);
    assert_eq!(o.next_event(), Some(Timer::A));
    assert_eq!(o.now(), 73728 + 36864);
}

#[test]
fn overflow_checks_report_headroom() {
    let mut o = both_running();
    assert!(o.event_fits());
    assert!(o.write_fits(0x27, RUN_A));
    assert!(o.write_fits(0x30, 0xFF));
    o.next_event();
    assert!(o.event_fits());
}
