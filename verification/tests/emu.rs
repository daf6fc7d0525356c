use pmdhost::emu::EmuRegs;

fn regs() -> EmuRegs {
    EmuRegs {
        ax: 0x1234,
        bx: 1,
        cx: 2,
        dx: 0xABCD,
        si: 3,
        di: 4,
        bp: 5,
        sp: 6,
        ds: 7,
        es: 8,
        cs: 9,
        ip: 10,
        flags: 11,
    }
}

#[test]
fn byte_registers() {
    let r = regs();
    assert_eq!(r.ah(), 0x12);
    assert_eq!(r.al(), 0x34);
    assert_eq!(r.dl(), 0xCD);
}

#[test]
fn set_ax_changes_only_ax() {
    let mut r = regs();
    r.set_ax(0xBEEF);
    assert_eq!(r.ax, 0xBEEF);
    assert_eq!(r.ah(), 0xBE);
    assert_eq!(EmuRegs { ax: 0x1234, ..r }, regs());
}
