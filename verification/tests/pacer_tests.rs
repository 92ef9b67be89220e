use mpquic::pacer::{LossRate, Pacer, MAX_BUF_SIZE, MAX_DATAGRAM_SIZE};

#[test]
fn new_pacer_starts_with_the_largest_payload() {
    let p = Pacer::new();
    assert_eq!(p.ceiling, 65507);
    assert_eq!(p.ceiling, MAX_BUF_SIZE);
    assert_eq!(p.baseline, LossRate { lost: 0, sent: 0 });
}

#[test]
fn half_a_percent_of_loss_cuts_the_ceiling() {
    let mut p = Pacer::new();
    p.observe(5, 1000, MAX_DATAGRAM_SIZE);
    assert_eq!(p.ceiling, 49128);
    assert_eq!(p.baseline, LossRate { lost: 5, sent: 1000 });
}

#[test]
fn steady_loss_leaves_the_ceiling() {
    let mut p = Pacer::new();
    p.observe(5, 1000, 1350);
    let before = p;
    p.observe(5, 1000, 1350);
    assert_eq!(p, before);
    p.observe(10, 2000, 1350);
    assert_eq!(p, before);
    p.observe(6, 1000, 1350);
    assert_eq!(p, before);
    p.observe(0, 5000, 1350);
    assert_eq!(p, before);
}

#[test]
fn loss_must_grow_by_more_than_a_thousandth() {
    let mut p = Pacer::new();
    p.observe(1, 1000, 1350);
    assert_eq!(p.ceiling, 65507);
    p.observe(1001, 1000000, 1350);
    assert_eq!(p.ceiling, 49128);
    assert_eq!(p.baseline, LossRate { lost: 1001, sent: 1000000 });
}

#[test]
fn no_traffic_is_no_loss() {
    let mut p = Pacer::new();
    p.observe(0, 0, 1350);
    assert_eq!(p, Pacer::new());
    p.observe(7, 0, 1350);
    assert_eq!(p, Pacer::new());
}

#[test]
fn ceiling_is_floored_at_ten_datagrams() {
    let mut p = Pacer { baseline: LossRate::zero(), ceiling: 16000 };
    p.observe(1, 10, 1350);
    assert_eq!(p.ceiling, 13500);
    p.observe(9, 10, 1350);
    assert_eq!(p.ceiling, 13500);
}

#[test]
fn repeated_cuts_go_down_to_the_floor() {
    let mut p = Pacer::new();
    let mut lost = 0;
    let mut seen = Vec::new();
    for _ in 0..7 {
        lost += 10;
        p.observe(lost, 1000, 1350);
        seen.push(p.ceiling);
    }
    assert_eq!(seen, vec![49128, 36846, 27633, 20724, 15543, 13500, 13500]);
}

#[test]
fn regressed_compares_exact_fractions() {
    let zero = LossRate::zero();
    assert!(LossRate { lost: 5, sent: 1000 }.regressed(&zero));
    assert!(!LossRate { lost: 1, sent: 1000 }.regressed(&zero));
    assert!(LossRate { lost: 2, sent: 1000 }.regressed(&LossRate { lost: 999, sent: 1000000 }));
    assert!(!LossRate { lost: 2, sent: 1000 }.regressed(&LossRate { lost: 1, sent: 1000 }));
    assert!(LossRate { lost: u64::MAX, sent: u64::MAX }.regressed(&LossRate { lost: 0, sent: u64::MAX }));
    assert!(!LossRate { lost: u64::MAX, sent: u64::MAX }
        .regressed(&LossRate { lost: u64::MAX, sent: u64::MAX }));
}

#[test]
fn quota_is_whole_datagrams_of_the_smaller_limit() {
    let p = Pacer::new();
    assert_eq!(p.quota(100000, 1350), 64800);
    assert_eq!(p.quota(13500, 1350), 13500);
    assert_eq!(p.quota(13499, 1350), 12150);
    assert_eq!(p.quota(1349, 1350), 0);
    assert_eq!(p.quota(0, 1350), 0);
    let cut = Pacer { baseline: LossRate::zero(), ceiling: 49128 };
    assert_eq!(cut.quota(100000, 1350), 48600);
    assert_eq!(cut.quota(100000, 1200), 48000);
}

#[test]
fn steady_loss_asks_nothing_of_the_datagram_size() {
    let mut p = Pacer::new();
    p.observe(0, 1000, usize::MAX);
    assert_eq!(p, Pacer::new());
    p.observe(1, 1000, usize::MAX);
    assert_eq!(p, Pacer::new());
}
