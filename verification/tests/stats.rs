use netlab::headers::Counters;
use netlab::stats::{accumulate, zero_counters, WorkerMsg, WorkerStats};

fn c(ip: i32, tcp: i32, tcpo: i32, ipo: i32) -> Counters {
    Counters { ip_ctr: ip, tcp_ctr: tcp, tcp_options_ctr: tcpo, ip_options_ctr: ipo }
}

#[test]
fn totals_accumulate() {
    let mut t = zero_counters();
    accumulate(&mut t, &c(1, 1, 0, 0));
    accumulate(&mut t, &c(1, 0, 0, 1));
    assert_eq!(t, c(2, 1, 0, 1));
    let mut u = zero_counters();
    accumulate(&mut u, &c(1, 0, 0, 1));
    accumulate(&mut u, &c(1, 1, 0, 0));
    assert_eq!(t, u);
}

#[test]
fn workers_and_reports() {
    let mut s = WorkerStats::new();
    s.absorb(&WorkerMsg { worker_id: 1, counters: c(1, 1, 1, 0) });
    s.absorb(&WorkerMsg { worker_id: 5, counters: c(1, 0, 0, 1) });
    s.absorb(&WorkerMsg { worker_id: 1, counters: c(1, 1, 0, 0) });
    assert_eq!(s.worker(1), c(2, 2, 1, 0));
    assert_eq!(s.worker(3), zero_counters());
    assert_eq!(s.worker(5), c(1, 0, 0, 1));
    s.report();
    assert_eq!(s.total(), c(3, 2, 1, 1));
    s.report();
    assert_eq!(s.total(), c(6, 4, 2, 2));
}
