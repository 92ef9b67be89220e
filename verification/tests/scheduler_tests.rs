use mpquic::addr::SocketAddress;
use mpquic::scheduler::{
    scheduler_by_name, same_text, MinRttScheduler, PathStats, RoundRobinScheduler, Scheduler,
    SchedulerKind,
};

fn addr(last: u8, port: u16) -> SocketAddress {
    SocketAddress::V4 { octets: [10, 0, 0, last], port }
}

fn path(n: u8, sent_bytes: u64, rtt_ms: u128) -> PathStats {
    PathStats {
        local_addr: addr(n, 4433),
        peer_addr: addr(100 + n, 5000),
        rtt: rtt_ms * 1_000_000,
        sent_bytes,
        recv_bytes: 0,
        cwnd: 0,
        bytes_in_flight: 0,
    }
}

fn id(n: u8) -> (SocketAddress, SocketAddress) {
    (addr(n, 4433), addr(100 + n, 5000))
}

#[test]
fn round_robin_names_each_path_once_in_order() {
    let paths = vec![path(1, 5, 30), path(2, 0, 10), path(3, 9, 20), path(4, 1, 1)];
    let mut sched = RoundRobinScheduler::new();
    sched.start(&paths);
    assert_eq!(sched.next, 4);
    for n in 1..=4u8 {
        assert_eq!(sched.next_path(&paths), Some(id(n)));
    }
}

#[test]
fn round_robin_goes_around_the_paths() {
    let paths = vec![path(1, 5, 30), path(2, 0, 10)];
    let mut sched = RoundRobinScheduler::new();
    sched.start(&paths);
    assert_eq!(sched.next_path(&paths), Some(id(1)));
    assert_eq!(sched.next_path(&paths), Some(id(2)));
    assert_eq!(sched.next_path(&paths), Some(id(1)));
    assert_eq!(sched.next_path(&paths), Some(id(2)));
    assert_eq!(sched.next, 1);
}

#[test]
fn round_robin_call_k_names_path_k_minus_one_modulo_n() {
    let paths = vec![path(1, 5, 30), path(2, 0, 10), path(3, 1, 10)];
    let mut sched = RoundRobinScheduler::new();
    sched.start(&paths);
    for k in 1..=10usize {
        let expected = ((k - 1) % 3) as u8 + 1;
        assert_eq!(sched.next_path(&paths), Some(id(expected)));
        assert!(sched.next < 3);
    }
}

#[test]
fn round_robin_on_one_path() {
    let paths = vec![path(1, 5, 30)];
    let mut sched = RoundRobinScheduler::new();
    sched.start(&paths);
    assert_eq!(sched.next_path(&paths), Some(id(1)));
    assert_eq!(sched.next_path(&paths), Some(id(1)));
    assert_eq!(sched.next, 0);
}

#[test]
fn round_robin_without_paths_names_none() {
    let paths: Vec<PathStats> = Vec::new();
    let mut sched = RoundRobinScheduler::new();
    sched.start(&paths);
    assert_eq!(sched.next_path(&paths), None);
    assert_eq!(sched.next, 0);
    assert_eq!(sched.next_path(&paths), None);
}

#[test]
fn round_robin_without_start_begins_behind_the_first_path() {
    let paths = vec![path(1, 5, 30), path(2, 0, 10)];
    let mut sched = RoundRobinScheduler::new();
    assert_eq!(sched.next_path(&paths), Some(id(2)));
    assert_eq!(sched.next_path(&paths), Some(id(1)));
}

#[test]
fn round_robin_follows_a_shrinking_path_list() {
    let paths = vec![path(1, 5, 30), path(2, 0, 10), path(3, 0, 10)];
    let mut sched = RoundRobinScheduler::new();
    sched.start(&paths);
    assert_eq!(sched.next_path(&paths), Some(id(1)));
    assert_eq!(sched.next_path(&paths), Some(id(2)));
    assert_eq!(sched.next_path(&paths[..2]), Some(id(1)));
    assert_eq!(sched.next_path(&paths[..2]), Some(id(2)));
    assert_eq!(sched.next_path(&paths[..1]), Some(id(1)));
    sched.next = 7;
    assert_eq!(sched.next_path(&paths), Some(id(1)));
}

#[test]
fn min_rtt_prefers_an_unsent_path() {
    let mut paths = vec![path(1, 0, 80), path(2, 7, 10)];
    let mut sched = MinRttScheduler::new();
    sched.start(&paths);
    assert_eq!(sched.next_path(&paths), Some(id(1)));
    assert_eq!(sched.next_path(&paths), Some(id(1)));
    paths[0].sent_bytes = 1;
    assert_eq!(sched.next_path(&paths), Some(id(2)));
}

#[test]
fn min_rtt_takes_the_first_unsent_path() {
    let paths = vec![path(1, 3, 80), path(2, 0, 90), path(3, 0, 1)];
    assert_eq!(MinRttScheduler::pick(&paths), Some(1));
}

#[test]
fn min_rtt_takes_the_lowest_round_trip_time() {
    let paths = vec![path(1, 3, 80), path(2, 1, 20), path(3, 4, 50)];
    assert_eq!(MinRttScheduler::pick(&paths), Some(1));
    let mut sched = MinRttScheduler::new();
    assert_eq!(sched.next_path(&paths), Some(id(2)));
}

#[test]
fn min_rtt_breaks_ties_by_order() {
    let paths = vec![path(1, 3, 80), path(2, 1, 20), path(3, 4, 20), path(4, 4, 20)];
    assert_eq!(MinRttScheduler::pick(&paths), Some(1));
}

#[test]
fn min_rtt_compares_below_a_millisecond() {
    let mut paths = vec![path(1, 3, 20), path(2, 1, 20)];
    paths[1].rtt -= 1;
    assert_eq!(MinRttScheduler::pick(&paths), Some(1));
}

#[test]
fn min_rtt_without_paths_names_none() {
    let mut sched = MinRttScheduler::new();
    assert_eq!(sched.next_path(&[]), None);
    assert_eq!(MinRttScheduler::pick(&[]), None);
}

#[test]
fn scheduler_is_selected_by_name() {
    assert_eq!(
        scheduler_by_name("rr"),
        Some(SchedulerKind::RoundRobin(RoundRobinScheduler { next: 0 }))
    );
    assert_eq!(scheduler_by_name("minRtt"), Some(SchedulerKind::MinRtt(MinRttScheduler {})));
    assert_eq!(scheduler_by_name("minrtt"), None);
    assert_eq!(scheduler_by_name("RR"), None);
    assert_eq!(scheduler_by_name(""), None);
    assert_eq!(scheduler_by_name("rr "), None);
}

#[test]
fn selected_scheduler_behaves_as_its_strategy() {
    let paths = vec![path(1, 5, 30), path(2, 3, 10)];
    let mut rr = scheduler_by_name("rr").unwrap();
    rr.start(&paths);
    assert_eq!(rr.next_path(&paths), Some(id(1)));
    assert_eq!(rr.next_path(&paths), Some(id(2)));
    assert_eq!(rr.next_path(&paths), Some(id(1)));
    let mut min = scheduler_by_name("minRtt").unwrap();
    min.start(&paths);
    assert_eq!(min.next_path(&paths), Some(id(2)));
    assert_eq!(min.next_path(&paths), Some(id(2)));
}

#[test]
fn same_text_compares_strings() {
    assert!(same_text("abc", "abc"));
    assert!(!same_text("abc", "abd"));
    assert!(!same_text("abc", "ab"));
    assert!(same_text("", ""));
}
