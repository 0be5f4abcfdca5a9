//! The scanner: a queue of addresses, and workers that take them one by one.
//!
//! A worker is a state machine. [`Worker::task`] says what it wants done next, and
//! [`Worker::advance`] takes what came of it.
use crate::action::{Action, Message};
use crate::ipv4::{format_ipv4, get_ips4_from_cidr, Cidr};
use vstd::prelude::*;

verus! {

/// The pause, in milliseconds, that the system needs to take a host that answered into its ARP
/// cache.
pub const ARP_PAUSE_MS: u64 = 150;

/// How a scan starts.
#[derive(Debug, PartialEq, Eq)]
pub enum Start {
    /// There is nothing to scan: the scan is complete.
    Complete,
    /// `workers` workers share the addresses of `queue`.
    Run { queue: Vec<String>, workers: usize },
}

/// The smaller of two numbers.
pub open spec fn smaller(a: nat, b: nat) -> nat {
    if a <= b {
        a
    } else {
        b
    }
}

/// The notations of `ips`.
pub open spec fn notations(ips: Seq<u32>) -> Seq<Seq<char>> {
    ips.map_values(|a: u32| crate::ipv4::ipv4_text(a))
}

/// Plans the scan of `ips`: no more workers than `pool_size`, nor than there are addresses.
pub fn start(ips: &Vec<u32>, pool_size: usize) -> (plan: Start)
    ensures
        plan is Complete == (ips@.len() == 0),
        plan matches Start::Run { queue, workers } ==> crate::shell::texts(queue@) == notations(ips@)
            && workers == smaller(pool_size as nat, ips@.len()),
{
    let total: usize = ips.len();
    if total == 0 {
        return Start::Complete;
    }
    let mut queue: Vec<String> = Vec::new();
    let mut i: usize = 0;
    while i < total
        invariant
            i <= total == ips@.len(),
            crate::shell::texts(queue@) == notations(ips@).take(i as int),
        decreases total - i,
    {
        let ghost before = crate::shell::texts(queue@);
        queue.push(format_ipv4(ips[i]));
        proof {
            assert(crate::shell::texts(queue@) =~= before.push(
                crate::ipv4::ipv4_text(ips@[i as int]),
            ));
            assert(notations(ips@).take(i + 1) =~= notations(ips@).take(i as int).push(
                crate::ipv4::ipv4_text(ips@[i as int]),
            ));
        }
        i = i + 1;
    }
    proof {
        assert(notations(ips@).take(i as int) == notations(ips@));
    }
    let workers: usize = if pool_size <= total {
        pool_size
    } else {
        total
    };
    Start::Run { queue, workers }
}

/// Plans the scan of the addresses of `network`: no more workers than `pool_size`, nor than there are
/// addresses.
pub fn plan(network: Cidr, pool_size: usize) -> (plan: Start)
    requires
        network.wf(),
        network.size() <= usize::MAX,
    ensures
        plan matches Start::Run { queue, workers } && crate::shell::texts(queue@) == notations(
            network.addresses(),
        ) && workers == smaller(pool_size as nat, network.size()),
{
    proof {
        crate::ipv4::lemma_addresses_consecutive(network);
    }
    start(&get_ips4_from_cidr(network), pool_size)
}

/// A worker.
#[derive(Debug, PartialEq, Eq)]
pub enum Worker {
    /// It is about to take an address from the queue.
    Idle,
    /// It has an address, and looks whether the scan was stopped.
    Holding { ip: String },
    /// It asks whether the host answers.
    Pinging { ip: String },
    /// The host answered; it looks again whether the scan was stopped.
    Answered { ip: String },
    /// It asks for the host's name.
    Naming { ip: String },
    /// It has the host's name, and looks again whether the scan was stopped.
    Named { ip: String, hostname: String },
    /// It waits for the system's ARP cache.
    Pausing { ip: String, hostname: String },
    /// It has waited, and looks again whether the scan was stopped.
    Rested { ip: String, hostname: String },
    /// It asks for the host's hardware address.
    Locating { ip: String, hostname: String },
    /// It is done.
    Done,
}

/// What a worker wants done.
#[derive(Debug, PartialEq, Eq)]
pub enum Task {
    /// Take the next address from the queue.
    Pull,
    /// Look whether the scan was stopped.
    ReadStop,
    /// Ask whether this host answers.
    Ping(String),
    /// Ask for the name of this host.
    ResolveHostname(String),
    /// Wait for this many milliseconds.
    Pause(u64),
    /// Ask for the hardware address of this host.
    ReadMac(String),
    /// Nothing: the worker is done.
    Exit,
}

/// What came of a task.
#[derive(Debug, PartialEq, Eq)]
pub enum Event {
    /// This address was taken from the queue; `None` if the queue is empty.
    Pulled(Option<String>),
    /// Whether the scan was stopped.
    Stopped(bool),
    /// Whether the host answered.
    Ponged(bool),
    /// The host's name.
    Hostname(String),
    /// The pause is over.
    Paused,
    /// The host's hardware address.
    Mac(String),
}

/// What a worker is at.
pub enum Stage {
    Idle,
    Holding { ip: Seq<char> },
    Pinging { ip: Seq<char> },
    Answered { ip: Seq<char> },
    Naming { ip: Seq<char> },
    Named { ip: Seq<char>, hostname: Seq<char> },
    Pausing { ip: Seq<char>, hostname: Seq<char> },
    Rested { ip: Seq<char>, hostname: Seq<char> },
    Locating { ip: Seq<char>, hostname: Seq<char> },
    Done,
}

/// What a task consists in.
pub enum Job {
    Pull,
    ReadStop,
    Ping(Seq<char>),
    ResolveHostname(Seq<char>),
    Pause(u64),
    ReadMac(Seq<char>),
    Exit,
}

/// What an event says.
pub enum News {
    Pulled(Option<Seq<char>>),
    Stopped(bool),
    Ponged(bool),
    Hostname(Seq<char>),
    Paused,
    Mac(Seq<char>),
}

impl View for Worker {
    type V = Stage;

    open spec fn view(&self) -> Stage {
        match *self {
            Worker::Idle => Stage::Idle,
            Worker::Holding { ip } => Stage::Holding { ip: ip@ },
            Worker::Pinging { ip } => Stage::Pinging { ip: ip@ },
            Worker::Answered { ip } => Stage::Answered { ip: ip@ },
            Worker::Naming { ip } => Stage::Naming { ip: ip@ },
            Worker::Named { ip, hostname } => Stage::Named { ip: ip@, hostname: hostname@ },
            Worker::Pausing { ip, hostname } => Stage::Pausing { ip: ip@, hostname: hostname@ },
            Worker::Rested { ip, hostname } => Stage::Rested { ip: ip@, hostname: hostname@ },
            Worker::Locating { ip, hostname } => Stage::Locating { ip: ip@, hostname: hostname@ },
            Worker::Done => Stage::Done,
        }
    }
}

impl View for Task {
    type V = Job;

    open spec fn view(&self) -> Job {
        match *self {
            Task::Pull => Job::Pull,
            Task::ReadStop => Job::ReadStop,
            Task::Ping(ip) => Job::Ping(ip@),
            Task::ResolveHostname(ip) => Job::ResolveHostname(ip@),
            Task::Pause(ms) => Job::Pause(ms),
            Task::ReadMac(ip) => Job::ReadMac(ip@),
            Task::Exit => Job::Exit,
        }
    }
}

impl View for Event {
    type V = News;

    open spec fn view(&self) -> News {
        match *self {
            Event::Pulled(ip) => News::Pulled(crate::rows::optional_text(ip)),
            Event::Stopped(b) => News::Stopped(b),
            Event::Ponged(b) => News::Ponged(b),
            Event::Hostname(s) => News::Hostname(s@),
            Event::Paused => News::Paused,
            Event::Mac(s) => News::Mac(s@),
        }
    }
}

/// What a worker wants done at a stage.
pub open spec fn job(w: Stage) -> Job {
    match w {
        Stage::Idle => Job::Pull,
        Stage::Holding { ip } => Job::ReadStop,
        Stage::Pinging { ip } => Job::Ping(ip),
        Stage::Answered { ip } => Job::ReadStop,
        Stage::Naming { ip } => Job::ResolveHostname(ip),
        Stage::Named { ip, hostname } => Job::ReadStop,
        Stage::Pausing { ip, hostname } => Job::Pause(ARP_PAUSE_MS),
        Stage::Rested { ip, hostname } => Job::ReadStop,
        Stage::Locating { ip, hostname } => Job::ReadMac(ip),
        Stage::Done => Job::Exit,
    }
}

/// The stage that follows on an event, and the messages that the worker sends then. An event that
/// does not answer the worker's task changes nothing.
pub open spec fn advanced(w: Stage, e: News) -> (Stage, Seq<Message>) {
    let silent = Seq::<Message>::empty();
    match (w, e) {
        (Stage::Idle, News::Pulled(Some(ip))) => (Stage::Holding { ip }, silent),
        (Stage::Idle, News::Pulled(None)) => (Stage::Done, silent),
        (Stage::Holding { ip }, News::Stopped(stopped)) => if stopped {
            (Stage::Done, silent)
        } else {
            (Stage::Pinging { ip }, silent)
        },
        (Stage::Pinging { ip }, News::Ponged(alive)) => if alive {
            (Stage::Answered { ip }, seq![Message::PingIpResponded(ip)])
        } else {
            (Stage::Idle, seq![Message::CountIp])
        },
        (Stage::Answered { ip }, News::Stopped(stopped)) => if stopped {
            (Stage::Idle, seq![Message::CountIp])
        } else {
            (Stage::Naming { ip }, silent)
        },
        (Stage::Naming { ip }, News::Hostname(hostname)) => (
            Stage::Named { ip, hostname },
            silent,
        ),
        (Stage::Named { ip, hostname }, News::Stopped(stopped)) => if stopped {
            (Stage::Idle, seq![Message::CountIp])
        } else {
            (Stage::Pausing { ip, hostname }, silent)
        },
        (Stage::Pausing { ip, hostname }, News::Paused) => (
            Stage::Rested { ip, hostname },
            silent,
        ),
        (Stage::Rested { ip, hostname }, News::Stopped(stopped)) => if stopped {
            (Stage::Idle, seq![Message::CountIp])
        } else {
            (Stage::Locating { ip, hostname }, silent)
        },
        (Stage::Locating { ip, hostname }, News::Mac(mac)) => (
            Stage::Idle,
            seq![Message::IpResolved { ip, hostname, mac }, Message::CountIp],
        ),
        _ => (w, silent),
    }
}

/// What a list of messages says.
pub open spec fn messages(actions: Seq<Action>) -> Seq<Message> {
    actions.map_values(|a: Action| a@)
}

impl Worker {
    /// A worker at the start.
    pub fn new() -> (w: Worker)
        ensures
            w@ == Stage::Idle,
    {
        Worker::Idle
    }

    /// What the worker wants done.
    pub fn task(&self) -> (t: Task)
        ensures
            t@ == job(self@),
    {
        match self {
            Worker::Idle => Task::Pull,
            Worker::Holding { ip } => Task::ReadStop,
            Worker::Pinging { ip } => Task::Ping(ip.clone()),
            Worker::Answered { ip } => Task::ReadStop,
            Worker::Naming { ip } => Task::ResolveHostname(ip.clone()),
            Worker::Named { ip, hostname } => Task::ReadStop,
            Worker::Pausing { ip, hostname } => Task::Pause(ARP_PAUSE_MS),
            Worker::Rested { ip, hostname } => Task::ReadStop,
            Worker::Locating { ip, hostname } => Task::ReadMac(ip.clone()),
            Worker::Done => Task::Exit,
        }
    }

    /// Takes what came of the task. The result is the worker's next stage, and the messages that
    /// it sends.
    pub fn advance(self, event: Event) -> (r: (Worker, Vec<Action>))
        ensures
            (r.0@, messages(r.1@)) == advanced(self@, event@),
    {
        let ghost before = self@;
        let ghost news = event@;
        let mut sent: Vec<Action> = Vec::new();
        let next = match (self, event) {
            (Worker::Idle, Event::Pulled(Some(ip))) => Worker::Holding { ip },
            (Worker::Idle, Event::Pulled(None)) => Worker::Done,
            (Worker::Holding { ip }, Event::Stopped(stopped)) => if stopped {
                Worker::Done
            } else {
                Worker::Pinging { ip }
            },
            (Worker::Pinging { ip }, Event::Ponged(alive)) => if alive {
                sent.push(Action::PingIpResponded(ip.clone()));
                Worker::Answered { ip }
            } else {
                sent.push(Action::CountIp);
                Worker::Idle
            },
            (Worker::Answered { ip }, Event::Stopped(stopped)) => if stopped {
                sent.push(Action::CountIp);
                Worker::Idle
            } else {
                Worker::Naming { ip }
            },
            (Worker::Naming { ip }, Event::Hostname(hostname)) => Worker::Named { ip, hostname },
            (Worker::Named { ip, hostname }, Event::Stopped(stopped)) => if stopped {
                sent.push(Action::CountIp);
                Worker::Idle
            } else {
                Worker::Pausing { ip, hostname }
            },
            (Worker::Pausing { ip, hostname }, Event::Paused) => Worker::Rested { ip, hostname },
            (Worker::Rested { ip, hostname }, Event::Stopped(stopped)) => if stopped {
                sent.push(Action::CountIp);
                Worker::Idle
            } else {
                Worker::Locating { ip, hostname }
            },
            (Worker::Locating { ip, hostname }, Event::Mac(mac)) => {
                sent.push(Action::IpResolved { ip, hostname, mac });
                sent.push(Action::CountIp);
                Worker::Idle
            },
            (worker, _) => worker,
        };
        proof {
            assert(messages(sent@) =~= advanced(before, news).1);
        }
        (next, sent)
    }
}

/// The stage after a series of events, and all messages that were sent on the way.
pub open spec fn ran(w: Stage, events: Seq<News>) -> (Stage, Seq<Message>)
    decreases events.len(),
{
    if events.len() == 0 {
        (w, Seq::empty())
    } else {
        let (before, sent) = ran(w, events.drop_last());
        let (after, now) = advanced(before, events.last());
        (after, sent + now)
    }
}

/// The number of addresses that a worker took from the queue in a series of events.
pub open spec fn pulled(w: Stage, events: Seq<News>) -> nat
    decreases events.len(),
{
    if events.len() == 0 {
        0
    } else {
        let before = ran(w, events.drop_last()).0;
        pulled(w, events.drop_last()) + if before is Idle && (events.last() matches News::Pulled(
            Some(_),
        )) {
            1nat
        } else {
            0
        }
    }
}

/// The number of addresses that were counted in a series of messages.
pub open spec fn counted(sent: Seq<Message>) -> nat {
    sent.filter(|m: Message| m is CountIp).len()
}

proof fn lemma_counted_add(a: Seq<Message>, b: Seq<Message>)
    ensures
        counted(a + b) == counted(a) + counted(b),
{
    Seq::filter_distributes_over_add(a, b, |m: Message| m is CountIp);
}

/// A worker counts every address that it takes from the queue, once and after it is done with it:
/// when it is about to take the next one all are counted, and at other times all but the one that
/// it holds. Only an address that it holds when it sees that the scan was stopped is never counted.
pub proof fn law_every_ip_is_counted(events: Seq<News>)
    ensures
        ({
            let (after, sent) = ran(Stage::Idle, events);
            let n = pulled(Stage::Idle, events);
            match after {
                Stage::Idle => counted(sent) == n,
                Stage::Done => counted(sent) == n || (counted(sent) + 1 == n && events.contains(
                    News::Stopped(true),
                )),
                _ => counted(sent) + 1 == n,
            }
        }),
    decreases events.len(),
{
    reveal(Seq::filter);
    assert(counted(Seq::<Message>::empty()) == 0);
    if events.len() > 0 {
        law_every_ip_is_counted(events.drop_last());
        let (before, sent) = ran(Stage::Idle, events.drop_last());
        let (after, now) = advanced(before, events.last());
        let stop = News::Stopped(true);
        if events.drop_last().contains(stop) {
            let i = choose|i: int| 0 <= i < events.drop_last().len() && events.drop_last()[i] == stop;
            assert(events[i] == stop);
        }
        assert(events.contains(events.last()));
        lemma_counted_add(sent, now);
        assert(counted(seq![Message::CountIp]) == 1) by {
            assert(seq![Message::CountIp].drop_last() =~= Seq::<Message>::empty());
        }
        if let Stage::Locating { ip, hostname } = before {
            if let News::Mac(mac) = events.last() {
                let m = Message::IpResolved { ip, hostname, mac };
                assert(counted(seq![m]) == 0) by {
                    assert(seq![m].drop_last() =~= Seq::<Message>::empty());
                }
                lemma_counted_add(seq![m], seq![Message::CountIp]);
                assert(seq![m] + seq![Message::CountIp] =~= now);
            }
        }
        if let Stage::Pinging { ip } = before {
            let m = Message::PingIpResponded(ip);
            assert(counted(seq![m]) == 0) by {
                assert(seq![m].drop_last() =~= Seq::<Message>::empty());
            }
        }
    }
}

/// The address of the host that a worker knows to have answered.
pub open spec fn known_alive(w: Stage) -> Option<Seq<char>> {
    match w {
        Stage::Answered { ip } => Some(ip),
        Stage::Naming { ip } => Some(ip),
        Stage::Named { ip, hostname } => Some(ip),
        Stage::Pausing { ip, hostname } => Some(ip),
        Stage::Rested { ip, hostname } => Some(ip),
        Stage::Locating { ip, hostname } => Some(ip),
        _ => None,
    }
}

/// A host is reported as soon as it answers: when its names are sent, the message that it answered
/// was sent before.
pub proof fn law_names_follow_the_answer(events: Seq<News>)
    ensures
        ({
            let (after, sent) = ran(Stage::Idle, events);
            &&& known_alive(after) matches Some(ip) ==> sent.contains(Message::PingIpResponded(ip))
            &&& forall|i: int, ip: Seq<char>, hostname: Seq<char>, mac: Seq<char>|
                0 <= i < sent.len() && #[trigger] sent[i] == (#[trigger] names_message(
                    ip,
                    hostname,
                    mac,
                )) ==> exists|j: int| 0 <= j < i && sent[j] == Message::PingIpResponded(ip)
        }),
    decreases events.len(),
{
    if events.len() > 0 {
        law_names_follow_the_answer(events.drop_last());
        let (before, sent) = ran(Stage::Idle, events.drop_last());
        let (after, now) = advanced(before, events.last());
        let all = sent + now;
        if let Some(ip) = known_alive(after) {
            if let Some(same) = known_alive(before) {
                let k = choose|k: int|
                    0 <= k < sent.len() && sent[k] == Message::PingIpResponded(same);
                assert(all[k] == Message::PingIpResponded(ip));
            } else {
                assert(all[sent.len() as int] == Message::PingIpResponded(ip));
            }
        }
        assert forall|i: int, ip: Seq<char>, hostname: Seq<char>, mac: Seq<char>|
            0 <= i < all.len() && #[trigger] all[i] == (#[trigger] names_message(
                ip,
                hostname,
                mac,
            )) implies exists|j: int| 0 <= j < i && all[j] == Message::PingIpResponded(ip) by {
            if i < sent.len() {
                assert(sent[i] == names_message(ip, hostname, mac));
                let k = choose|k: int| 0 <= k < i && sent[k] == Message::PingIpResponded(ip);
                assert(all[k] == Message::PingIpResponded(ip));
            } else {
                assert(known_alive(before) == Some(ip));
                let k = choose|k: int|
                    0 <= k < sent.len() && sent[k] == Message::PingIpResponded(ip);
                assert(all[k] == Message::PingIpResponded(ip));
            }
        }
    }
}

/// The message with the names of a host.
pub open spec fn names_message(ip: Seq<char>, hostname: Seq<char>, mac: Seq<char>) -> Message {
    Message::IpResolved { ip, hostname, mac }
}

/// A worker that is done stays so, and sends nothing.
pub proof fn law_done_is_silent(events: Seq<News>)
    ensures
        ran(Stage::Done, events) == (Stage::Done, Seq::<Message>::empty()),
    decreases events.len(),
{
    if events.len() > 0 {
        law_done_is_silent(events.drop_last());
        assert(ran(Stage::Done, events).1 =~= Seq::<Message>::empty());
    }
}

/// A worker looks whether the scan was stopped before every step on a host: before it pings it, asks
/// for its name, pauses, or asks for its hardware address.
pub proof fn law_stop_is_checked_between_steps(w: Stage, e: News)
    requires
        advanced(w, e).0 != w,
        job(advanced(w, e).0) is Ping || job(advanced(w, e).0) is ResolveHostname || job(
            advanced(w, e).0,
        ) is Pause || job(advanced(w, e).0) is ReadMac,
    ensures
        job(w) is ReadStop,
        e == News::Stopped(false),
{
}

/// A worker that sees that the scan was stopped takes no further step on its host. Before the ping it is
/// done without a message; after it, it counts the address and sends nothing else. It is then done as
/// soon as it has taken another address, or has found none.
pub proof fn law_stop_ends_the_worker(w: Stage, next: Option<Seq<char>>)
    requires
        job(w) is ReadStop,
    ensures
        ({
            let events = seq![News::Stopped(true), News::Pulled(next), News::Stopped(true)];
            &&& advanced(w, News::Stopped(true)).0 is Done || advanced(w, News::Stopped(true)).0 is Idle
            &&& ran(w, events) == (
                Stage::Done,
                if w is Holding {
                    Seq::<Message>::empty()
                } else {
                    seq![Message::CountIp]
                },
            )
        }),
{
    let events = seq![News::Stopped(true), News::Pulled(next), News::Stopped(true)];
    reveal_with_fuel(ran, 4);
    assert(events.drop_last().drop_last().drop_last() =~= Seq::empty());
    assert(events.drop_last().last() == events[1]);
    assert(events.drop_last().drop_last().last() == events[0]);
    if w is Holding {
        assert(ran(w, events).1 =~= Seq::<Message>::empty());
    } else {
        assert(ran(w, events).1 =~= seq![Message::CountIp]);
    }
}

/// When a worker sees that the scan was stopped, after the host answered.
pub enum StopSeen {
    AfterAnswer,
    AfterName,
    AfterPause,
    Never,
}

/// The messages about one address: that the host answered, if it did; then its names, if the scan
/// was not stopped meanwhile; and in any case that the address is done.
pub open spec fn report(
    ip: Seq<char>,
    alive: bool,
    seen: StopSeen,
    hostname: Seq<char>,
    mac: Seq<char>,
) -> Seq<Message> {
    if !alive {
        seq![Message::CountIp]
    } else if seen is Never {
        seq![
            Message::PingIpResponded(ip),
            Message::IpResolved { ip, hostname, mac },
            Message::CountIp,
        ]
    } else {
        seq![Message::PingIpResponded(ip), Message::CountIp]
    }
}

/// What comes of the tasks of a worker that takes `ip` from the queue of a scan that was not
/// stopped yet.
pub open spec fn course(
    ip: Seq<char>,
    alive: bool,
    seen: StopSeen,
    hostname: Seq<char>,
    mac: Seq<char>,
) -> Seq<News> {
    let start = seq![News::Pulled(Some(ip)), News::Stopped(false), News::Ponged(alive)];
    let named = start.push(News::Stopped(false)).push(News::Hostname(hostname));
    let rested = named.push(News::Stopped(false)).push(News::Paused);
    if !alive {
        start
    } else {
        match seen {
            StopSeen::AfterAnswer => start.push(News::Stopped(true)),
            StopSeen::AfterName => named.push(News::Stopped(true)),
            StopSeen::AfterPause => rested.push(News::Stopped(true)),
            StopSeen::Never => rested.push(News::Stopped(false)).push(News::Mac(mac)),
        }
    }
}

proof fn lemma_ran_push(w: Stage, events: Seq<News>, e: News)
    ensures
        ran(w, events.push(e)) == ({
            let (before, sent) = ran(w, events);
            let (after, now) = advanced(before, e);
            (after, sent + now)
        }),
{
    assert(events.push(e).drop_last() =~= events);
}

/// A worker that takes an address from the queue sends the report on it, and is then about to take
/// the next one.
pub proof fn law_worker_reports(
    ip: Seq<char>,
    alive: bool,
    seen: StopSeen,
    hostname: Seq<char>,
    mac: Seq<char>,
)
    ensures
        ran(Stage::Idle, course(ip, alive, seen, hostname, mac)) == (
            Stage::Idle,
            report(ip, alive, seen, hostname, mac),
        ),
{
    let w = Stage::Idle;
    let empty = Seq::<News>::empty();
    let e1 = empty.push(News::Pulled(Some(ip)));
    let e2 = e1.push(News::Stopped(false));
    let start = e2.push(News::Ponged(alive));
    assert(start =~= seq![News::Pulled(Some(ip)), News::Stopped(false), News::Ponged(alive)]);
    lemma_ran_push(w, empty, News::Pulled(Some(ip)));
    lemma_ran_push(w, e1, News::Stopped(false));
    lemma_ran_push(w, e2, News::Ponged(alive));
    let looked = start.push(News::Stopped(false));
    let named = looked.push(News::Hostname(hostname));
    let pausing = named.push(News::Stopped(false));
    let rested = pausing.push(News::Paused);
    let locating = rested.push(News::Stopped(false));
    lemma_ran_push(w, start, News::Stopped(true));
    lemma_ran_push(w, start, News::Stopped(false));
    lemma_ran_push(w, looked, News::Hostname(hostname));
    lemma_ran_push(w, named, News::Stopped(true));
    lemma_ran_push(w, named, News::Stopped(false));
    lemma_ran_push(w, pausing, News::Paused);
    lemma_ran_push(w, rested, News::Stopped(true));
    lemma_ran_push(w, rested, News::Stopped(false));
    lemma_ran_push(w, locating, News::Mac(mac));
    assert(ran(w, course(ip, alive, seen, hostname, mac)).1 =~= report(
        ip,
        alive,
        seen,
        hostname,
        mac,
    ));
}

/// What is to be sent when `running` workers have not left yet: that the scan is complete, once none
/// is left.
pub fn completion(running: usize) -> (action: Option<Action>)
    ensures
        crate::action::message(action) == due(running as nat),
{
    if running == 0 {
        Some(Action::ScanComplete)
    } else {
        None
    }
}

/// The message that is due when `running` workers have not left yet.
pub open spec fn due(running: nat) -> Option<Message> {
    if running == 0 {
        Some(Message::ScanComplete)
    } else {
        None
    }
}

/// What a worker does, task by task, with the address that it took from the queue: it looks whether the
/// scan was stopped before every step, pings that very address, asks for that host's name, pauses, asks
/// for that host's hardware address, and reports what it heard of that host. It counts the address
/// whichever way it is done with it after the ping, and goes back to the queue.
pub proof fn law_worker_takes_its_steps(ip: Seq<char>, hostname: Seq<char>, mac: Seq<char>)
    ensures
        ({
            let silent = Seq::<Message>::empty();
            let idle = Stage::Idle;
            let (w1, m1) = advanced(idle, News::Pulled(Some(ip)));
            let (w2, m2) = advanced(w1, News::Stopped(false));
            let (w3, m3) = advanced(w2, News::Ponged(true));
            let (w4, m4) = advanced(w3, News::Stopped(false));
            let (w5, m5) = advanced(w4, News::Hostname(hostname));
            let (w6, m6) = advanced(w5, News::Stopped(false));
            let (w7, m7) = advanced(w6, News::Paused);
            let (w8, m8) = advanced(w7, News::Stopped(false));
            let counted = (idle, seq![Message::CountIp]);
            &&& job(idle) == Job::Pull && m1 == silent
            &&& job(w1) == Job::ReadStop && m2 == silent
            &&& job(w2) == Job::Ping(ip) && m3 == seq![Message::PingIpResponded(ip)]
            &&& job(w3) == Job::ReadStop && m4 == silent
            &&& job(w4) == Job::ResolveHostname(ip) && m5 == silent
            &&& job(w5) == Job::ReadStop && m6 == silent
            &&& job(w6) == Job::Pause(150) && m7 == silent
            &&& job(w7) == Job::ReadStop && m8 == silent
            &&& job(w8) == Job::ReadMac(ip)
            &&& advanced(w8, News::Mac(mac)) == (
                idle,
                seq![Message::IpResolved { ip, hostname, mac }, Message::CountIp],
            )
            &&& job(advanced(idle, News::Pulled(None)).0) == Job::Exit
            &&& advanced(idle, News::Pulled(None)).1 == silent
            &&& job(advanced(w1, News::Stopped(true)).0) == Job::Exit
            &&& advanced(w1, News::Stopped(true)).1 == silent
            &&& advanced(w2, News::Ponged(false)) == counted
            &&& advanced(w3, News::Stopped(true)) == counted
            &&& advanced(w5, News::Stopped(true)) == counted
            &&& advanced(w7, News::Stopped(true)) == counted
        }),
{
}

/// Whether an event answers a task.
pub open spec fn answers(j: Job, e: News) -> bool {
    match j {
        Job::Pull => e is Pulled,
        Job::ReadStop => e is Stopped,
        Job::Ping(_) => e is Ponged,
        Job::ResolveHostname(_) => e is Hostname,
        Job::Pause(_) => e is Paused,
        Job::ReadMac(_) => e is Mac,
        Job::Exit => false,
    }
}

/// An event that does not answer the task of a worker changes nothing, and one that answers it ends the
/// task.
pub proof fn law_only_answers_count(w: Stage, e: News)
    ensures
        !answers(job(w), e) ==> advanced(w, e) == (w, Seq::<Message>::empty()),
        answers(job(w), e) ==> advanced(w, e).0 != w,
{
}

/// Every stage of a worker that has an address in its hands is one that it reaches, step by step, from
/// taking that address.
pub proof fn law_stages_are_reached(w: Stage)
    ensures
        ({
            let at = |ip: Seq<char>| advanced(Stage::Idle, News::Pulled(Some(ip))).0;
            let after = |v: Stage, e: News| advanced(v, e).0;
            let go = News::Stopped(false);
            match w {
                Stage::Idle => true,
                Stage::Done => w == after(Stage::Idle, News::Pulled(None)),
                Stage::Holding { ip } => w == at(ip),
                Stage::Pinging { ip } => w == after(at(ip), go),
                Stage::Answered { ip } => w == after(after(at(ip), go), News::Ponged(true)),
                Stage::Naming { ip } => w == after(
                    after(after(at(ip), go), News::Ponged(true)),
                    go,
                ),
                Stage::Named { ip, hostname } => w == after(
                    Stage::Naming { ip },
                    News::Hostname(hostname),
                ),
                Stage::Pausing { ip, hostname } => w == after(Stage::Named { ip, hostname }, go),
                Stage::Rested { ip, hostname } => w == after(
                    Stage::Pausing { ip, hostname },
                    News::Paused,
                ),
                Stage::Locating { ip, hostname } => w == after(Stage::Rested { ip, hostname }, go),
            }
        }),
{
}

/// A task names the host whose text it holds.
pub proof fn law_tasks_as_jobs(ip: String, ms: u64)
    ensures
        Task::Ping(ip)@ == Job::Ping(ip@),
        Task::ResolveHostname(ip)@ == Job::ResolveHostname(ip@),
        Task::ReadMac(ip)@ == Job::ReadMac(ip@),
        Task::Pause(ms)@ == Job::Pause(ms),
        Task::Pull@ == Job::Pull,
        Task::ReadStop@ == Job::ReadStop,
        Task::Exit@ == Job::Exit,
{
}

/// An event says what it holds.
pub proof fn law_events_as_news(text: String, b: bool)
    ensures
        Event::Pulled(Some(text))@ == News::Pulled(Some(text@)),
        Event::Pulled(None)@ == News::Pulled(None),
        Event::Stopped(b)@ == News::Stopped(b),
        Event::Ponged(b)@ == News::Ponged(b),
        Event::Hostname(text)@ == News::Hostname(text@),
        Event::Paused@ == News::Paused,
        Event::Mac(text)@ == News::Mac(text@),
{
}

/// The queue of a scan holds the notations of the addresses, one for each and in their order, and there
/// are as many workers as the pool has, but no more than there are addresses.
pub proof fn law_queue_and_workers(ips: Seq<u32>, i: int, pool_size: nat)
    requires
        0 <= i < ips.len(),
    ensures
        notations(ips).len() == ips.len(),
        notations(ips)[i] == crate::ipv4::ipv4_text(ips[i]),
        smaller(pool_size, ips.len()) <= pool_size,
        smaller(pool_size, ips.len()) <= ips.len(),
        smaller(pool_size, ips.len()) == pool_size || smaller(pool_size, ips.len()) == ips.len(),
{
}

/// The scan is complete exactly when no worker is left.
pub proof fn law_completion(running: nat)
    ensures
        running == 0 ==> due(running) == Some(Message::ScanComplete),
        running > 0 ==> due(running) is None,
{
}

/// A worker is at the stage that it holds, with the address and the name that it holds.
pub proof fn law_workers_at_stages(ip: String, hostname: String)
    ensures
        Worker::Idle@ == Stage::Idle,
        (Worker::Holding { ip })@ == (Stage::Holding { ip: ip@ }),
        (Worker::Pinging { ip })@ == (Stage::Pinging { ip: ip@ }),
        (Worker::Answered { ip })@ == (Stage::Answered { ip: ip@ }),
        (Worker::Naming { ip })@ == (Stage::Naming { ip: ip@ }),
        (Worker::Named { ip, hostname })@ == (Stage::Named { ip: ip@, hostname: hostname@ }),
        (Worker::Pausing { ip, hostname })@ == (Stage::Pausing { ip: ip@, hostname: hostname@ }),
        (Worker::Rested { ip, hostname })@ == (Stage::Rested { ip: ip@, hostname: hostname@ }),
        (Worker::Locating { ip, hostname })@ == (Stage::Locating { ip: ip@, hostname: hostname@ }),
        Worker::Done@ == Stage::Done,
{
}

/// A list of messages says what its messages say, one by one.
pub proof fn law_messages_one_by_one(actions: Seq<Action>, i: int)
    requires
        0 <= i < actions.len(),
    ensures
        messages(actions).len() == actions.len(),
        messages(actions)[i] == actions[i]@,
{
}

} // verus!
