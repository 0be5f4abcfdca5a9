use netscanner::action::Action;
use netscanner::ipv4::Cidr;
use netscanner::scanner::{completion, plan, start, Event, Start, Task, Worker, ARP_PAUSE_MS};

fn run(events: Vec<Event>) -> (Worker, Vec<Action>) {
    let mut worker = Worker::new();
    let mut sent: Vec<Action> = Vec::new();
    for event in events {
        let (next, actions) = worker.advance(event);
        worker = next;
        sent.extend(actions);
    }
    (worker, sent)
}

fn pulled(ip: &str) -> Event {
    Event::Pulled(Some(ip.to_string()))
}

#[test]
fn plans() {
    assert_eq!(start(&vec![], 32), Start::Complete);
    assert_eq!(
        start(&vec![0x0a00_0001, 0x0a00_0002], 32),
        Start::Run { queue: vec!["10.0.0.1".to_string(), "10.0.0.2".to_string()], workers: 2 }
    );
    assert_eq!(
        start(&vec![1, 2, 3], 2),
        Start::Run {
            queue: vec!["0.0.0.1".to_string(), "0.0.0.2".to_string(), "0.0.0.3".to_string()],
            workers: 2
        }
    );
    assert_eq!(
        start(&vec![7], 0),
        Start::Run { queue: vec!["0.0.0.7".to_string()], workers: 0 }
    );
}

#[test]
fn plans_of_networks() {
    assert_eq!(
        plan(Cidr { first: 0x0a00_0004, length: 31 }, 32),
        Start::Run { queue: vec!["10.0.0.4".to_string(), "10.0.0.5".to_string()], workers: 2 }
    );
    match plan(Cidr { first: 0xc0a8_0100, length: 24 }, 32) {
        Start::Run { queue, workers } => {
            assert_eq!((queue.len(), workers), (256, 32));
            assert_eq!(queue[255], "192.168.1.255");
        }
        Start::Complete => panic!("there is something to scan"),
    }
}

#[test]
fn an_empty_queue_leaves_nothing_uncounted() {
    let (worker, sent) = run(vec![
        pulled("10.0.0.1"),
        Event::Stopped(false),
        Event::Ponged(false),
        Event::Pulled(None),
    ]);
    assert_eq!(worker, Worker::Done);
    assert_eq!(sent, vec![Action::CountIp]);
}

#[test]
fn a_live_host_is_reported_named_and_counted() {
    let ip = "10.0.0.1".to_string();
    let mut worker = Worker::new();
    let mut sent: Vec<Action> = Vec::new();
    let course = vec![
        (Task::Pull, Event::Pulled(Some(ip.clone()))),
        (Task::ReadStop, Event::Stopped(false)),
        (Task::Ping(ip.clone()), Event::Ponged(true)),
        (Task::ReadStop, Event::Stopped(false)),
        (Task::ResolveHostname(ip.clone()), Event::Hostname("nas".to_string())),
        (Task::ReadStop, Event::Stopped(false)),
        (Task::Pause(ARP_PAUSE_MS), Event::Paused),
        (Task::ReadStop, Event::Stopped(false)),
        (Task::ReadMac(ip.clone()), Event::Mac("00:1a:2b:3c:4d:5e".to_string())),
        (Task::Pull, Event::Pulled(None)),
    ];
    for (task, event) in course {
        assert_eq!(worker.task(), task);
        let (next, actions) = worker.advance(event);
        worker = next;
        sent.extend(actions);
    }
    assert_eq!(worker.task(), Task::Exit);
    assert_eq!(
        sent,
        vec![
            Action::PingIpResponded(ip.clone()),
            Action::IpResolved {
                ip,
                hostname: "nas".to_string(),
                mac: "00:1a:2b:3c:4d:5e".to_string()
            },
            Action::CountIp,
        ]
    );
}

#[test]
fn a_silent_host_is_only_counted() {
    let (worker, sent) = run(vec![pulled("10.0.0.1"), Event::Stopped(false), Event::Ponged(false)]);
    assert_eq!(worker, Worker::Idle);
    assert_eq!(sent, vec![Action::CountIp]);
}

#[test]
fn a_stop_before_the_ping_ends_the_worker() {
    let (worker, sent) = run(vec![pulled("10.0.0.1"), Event::Stopped(true), pulled("10.0.0.2")]);
    assert_eq!(worker, Worker::Done);
    assert!(sent.is_empty());
}

#[test]
fn a_stop_after_the_answer_skips_the_names() {
    let (worker, sent) = run(vec![
        pulled("10.0.0.1"),
        Event::Stopped(false),
        Event::Ponged(true),
        Event::Stopped(true),
    ]);
    assert_eq!(worker, Worker::Idle);
    assert_eq!(sent, vec![Action::PingIpResponded("10.0.0.1".to_string()), Action::CountIp]);
}

#[test]
fn a_stop_between_later_steps_sends_only_the_count() {
    let expected = vec![Action::PingIpResponded("10.0.0.1".to_string()), Action::CountIp];
    let answered = || {
        vec![
            pulled("10.0.0.1"),
            Event::Stopped(false),
            Event::Ponged(true),
            Event::Stopped(false),
            Event::Hostname("nas".to_string()),
        ]
    };
    let mut events = answered();
    events.push(Event::Stopped(true));
    assert_eq!(run(events), (Worker::Idle, expected.clone()));
    let mut later = answered();
    later.push(Event::Stopped(false));
    later.push(Event::Paused);
    later.push(Event::Stopped(true));
    assert_eq!(run(later), (Worker::Idle, expected));
}

#[test]
fn a_stopped_worker_leaves_the_queue() {
    let (worker, sent) = run(vec![
        pulled("10.0.0.1"),
        Event::Stopped(false),
        Event::Ponged(true),
        Event::Stopped(true),
        pulled("10.0.0.2"),
        Event::Stopped(true),
    ]);
    assert_eq!(worker.task(), Task::Exit);
    assert_eq!(sent, vec![Action::PingIpResponded("10.0.0.1".to_string()), Action::CountIp]);
}

#[test]
fn the_scan_is_complete_when_the_last_worker_left() {
    assert_eq!(completion(2), None);
    assert_eq!(completion(1), None);
    assert_eq!(completion(0), Some(Action::ScanComplete));
}

/// Lets workers take turns at one queue, the turns given by a simple generator. Hosts with an even last
/// octet answer; the scan is stopped after a number of turns.
fn share(workers: usize, length: u8, seed: u64, stop_after: usize) -> (Vec<String>, Vec<Action>) {
    let mut queue = match plan(Cidr { first: 0x0a00_0000, length }, workers) {
        Start::Run { queue, .. } => queue,
        Start::Complete => Vec::new(),
    };
    queue.reverse();
    let mut pool: Vec<Worker> = (0..workers).map(|_| Worker::new()).collect();
    let mut pinged: Vec<String> = Vec::new();
    let mut sent: Vec<Action> = Vec::new();
    let mut state = seed;
    let mut turns = 0;
    while pool.iter().any(|w| w.task() != Task::Exit) {
        state = state.wrapping_mul(6364136223846793005).wrapping_add(1442695040888963407);
        let i = (state >> 33) as usize % workers;
        let worker = std::mem::replace(&mut pool[i], Worker::Done);
        let event = match worker.task() {
            Task::Pull => Event::Pulled(queue.pop()),
            Task::ReadStop => Event::Stopped(turns >= stop_after),
            Task::Ping(ip) => {
                let alive = ip.ends_with(['0', '2', '4', '6', '8']);
                pinged.push(ip);
                Event::Ponged(alive)
            }
            Task::ResolveHostname(ip) => Event::Hostname(ip),
            Task::Pause(_) => Event::Paused,
            Task::ReadMac(ip) => Event::Mac(ip),
            Task::Exit => continue,
        };
        let (next, actions) = worker.advance(event);
        pool[i] = next;
        sent.extend(actions);
        turns += 1;
    }
    (pinged, sent)
}

#[test]
fn workers_share_a_queue() {
    for seed in 0..20 {
        let (mut pinged, sent) = share(5, 26, seed, usize::MAX);
        assert_eq!(sent.iter().filter(|a| **a == Action::CountIp).count(), 64);
        assert_eq!(pinged.len(), 64);
        pinged.sort();
        pinged.dedup();
        assert_eq!(pinged.len(), 64);
        for ip in pinged {
            let reports = sent.iter().filter(|a| **a == Action::PingIpResponded(ip.clone())).count();
            let names = sent
                .iter()
                .filter(|a| matches!(a, Action::IpResolved { ip: named, .. } if *named == ip))
                .count();
            let alive = ip.ends_with(['0', '2', '4', '6', '8']);
            assert_eq!((reports, names), if alive { (1, 1) } else { (0, 0) });
        }
    }
}

#[test]
fn a_stopped_pool_counts_no_address_twice() {
    for stop_after in [0, 1, 7, 30, 100] {
        let (mut pinged, sent) = share(3, 27, 11, stop_after);
        let counts = sent.iter().filter(|a| **a == Action::CountIp).count();
        assert_eq!(counts, pinged.len());
        assert!(counts < 32);
        pinged.sort();
        let all = pinged.len();
        pinged.dedup();
        assert_eq!(pinged.len(), all);
    }
}

#[test]
fn an_event_that_answers_nothing_changes_nothing() {
    let (worker, sent) = run(vec![Event::Paused, Event::Ponged(true), Event::Mac(String::new())]);
    assert_eq!(worker, Worker::Idle);
    assert!(sent.is_empty());
}
