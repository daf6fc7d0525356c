use pmdhost::packet::PacketSend;
use pmdhost::pipe::{queue_size_from_reply, report, BatchReport, BatchStats, RECENT_WRITES};

fn write(ty: u8, reg: u8, data: u8) -> PacketSend {
    PacketSend::new(ty, reg, data)
}

#[test]
fn batches_are_filed_per_buffer() {
    let mut s = BatchStats::default();
    for i in 0..3 {
        s.record(&write(PacketSend::INT_SELECT_A, 0x10, i));
    }
    s.record(&write(PacketSend::INT_END | PacketSend::INT_SELECT_A, 0, 0));
    s.record(&write(0, 0x20, 1));
    s.record(&write(PacketSend::BANK_SELECT, 0x21, 2));
    s.record(&write(PacketSend::INT_END, 0, 0));
    s.record(&write(PacketSend::INT_END, 0, 0));
    assert_eq!(s.a, vec![3]);
    assert_eq!(s.b, vec![2, 0]);
}

#[test]
fn control_packets_are_not_counted() {
    let mut s = BatchStats::default();
    s.record(&write(0, 0x20, 1));
    s.record(&write(PacketSend::FORCE_TIMEOUT, 0, 0));
    s.record(&write(PacketSend::FLUSH, 0, 0));
    s.record(&write(PacketSend::SIZE_REQUEST, 0, 0));
    s.record(&write(PacketSend::INT_END, 0, 0));
    assert_eq!(s.b, vec![1]);
    assert!(s.a.is_empty());
    assert_eq!(s.recent().len(), 1);
}

#[test]
fn writes_are_conserved() {
    let mut s = BatchStats::default();
    let mut sent = 0u32;
    for i in 0..500u32 {
        let p = if i % 7 == 6 {
            write(PacketSend::INT_END | if i % 2 == 0 { PacketSend::INT_SELECT_A } else { 0 }, 0, 0)
        } else if i % 11 == 0 {
            write(PacketSend::FORCE_TIMEOUT, 0, 0)
        } else {
            sent += 1;
            write(0, (i % 256) as u8, 0)
        };
        s.record(&p);
    }
    s.record(&write(PacketSend::INT_END, 0, 0));
    let total: u32 = s.a.iter().sum::<u32>() + s.b.iter().sum::<u32>();
    assert_eq!(total, sent);
}

#[test]
fn recent_keeps_the_last_writes() {
    let mut s = BatchStats::default();
    for i in 0..100u32 {
        s.record(&write(PacketSend::BANK_SELECT | PacketSend::INT_SELECT_A, i as u8, 0x7F));
    }
    let r = s.recent();
    assert_eq!(r.len(), RECENT_WRITES);
    assert_eq!(r[0], (1, 20, 0x7F));
    assert_eq!(r[RECENT_WRITES - 1], (1, 99, 0x7F));
    assert!(s.record_fits(&write(0, 0, 0)));
}

#[test]
fn report_of_no_batches() {
    assert_eq!(report(&[]), BatchReport::NoBatches);
}

#[test]
fn report_of_empty_batches() {
    assert_eq!(report(&[0, 0, 0]), BatchReport::OnlyEmpty { batches: 3 });
}

#[test]
fn report_percentiles() {
    assert_eq!(
        report(&[0, 5, 3, 300, 1]),
        BatchReport::Sizes { count: 4, sum: 309, max: 300, p50: 5, p90: 300, p99: 300, over256: 1 }
    );
    let sizes: Vec<u32> = (1..=200).rev().collect();
    assert_eq!(
        report(&sizes),
        BatchReport::Sizes { count: 200, sum: 20100, max: 200, p50: 101, p90: 181, p99: 199, over256: 0 }
    );
    assert_eq!(
        report(&[7]),
        BatchReport::Sizes { count: 1, sum: 7, max: 7, p50: 7, p90: 7, p99: 7, over256: 0 }
    );
}

#[test]
fn queue_size_is_little_endian() {
    assert_eq!(queue_size_from_reply([0xC2, 0x01, 0, 0]), 450);
    assert_eq!(queue_size_from_reply([1, 2, 3, 4]), 0x0403_0201);
    assert_eq!(queue_size_from_reply([0xFF; 4]), u32::MAX);
}
