//! Several workers at one queue, and the coordinator that waits until all of them have left.
use crate::action::Message;
use crate::ipv4::Cidr;
use crate::scanner::{Job, News, Stage};
use vstd::prelude::*;

verus! {

/// A scan: the addresses that no worker has taken yet, what the workers are at, the messages that were
/// sent, and what has become of the addresses that were taken.
pub struct Pool {
    pub queue: Seq<Seq<char>>,
    pub workers: Seq<Stage>,
    pub sent: Seq<Message>,
    /// Whether the coordinator has left.
    pub complete: bool,
    /// The addresses that workers had pinged.
    pub pinged: Seq<Seq<char>>,
    /// The addresses that workers had pinged, and that answered.
    pub alive: Seq<Seq<char>>,
    /// The addresses whose names workers asked for, and what they heard.
    pub found_names: Seq<(Seq<char>, Seq<char>)>,
    /// The addresses whose hardware addresses workers asked for, and what they heard.
    pub found_macs: Seq<(Seq<char>, Seq<char>)>,
    /// The addresses that were given up before the ping because the scan was stopped.
    pub dropped: Seq<Seq<char>>,
}

/// One step of a scan.
pub enum Move {
    /// A worker takes what came of its task. What comes of taking an address is up to the queue.
    Worker { index: int, news: News },
    /// The coordinator looks whether all workers have left.
    Coordinator,
}

/// A scan at the start.
pub open spec fn pool(queue: Seq<Seq<char>>, workers: nat) -> Pool {
    Pool {
        queue,
        workers: Seq::new(workers, |i: int| Stage::Idle),
        sent: Seq::empty(),
        complete: false,
        pinged: Seq::empty(),
        alive: Seq::empty(),
        found_names: Seq::empty(),
        found_macs: Seq::empty(),
        dropped: Seq::empty(),
    }
}

/// What a worker hears: one that takes an address hears what the queue gives.
pub open spec fn heard(queue: Seq<Seq<char>>, w: Stage, news: News) -> News {
    if w is Idle {
        News::Pulled(
            if queue.len() > 0 {
                Some(queue[0])
            } else {
                None
            },
        )
    } else {
        news
    }
}

/// The number of workers at a stage of a certain kind.
pub open spec fn number(workers: Seq<Stage>, kind: spec_fn(Stage) -> bool) -> nat
    decreases workers.len(),
{
    if workers.len() == 0 {
        0
    } else {
        number(workers.drop_last(), kind) + if kind(workers.last()) {
            1nat
        } else {
            0
        }
    }
}

/// The number of messages of a certain kind.
pub open spec fn tally(sent: Seq<Message>, kind: spec_fn(Message) -> bool) -> nat {
    sent.filter(kind).len()
}

/// The number of workers that have not left.
pub open spec fn running(p: Pool) -> nat {
    number(p.workers, |w: Stage| !(w is Done))
}

/// A scan after one step.
pub open spec fn stepped(p: Pool, m: Move) -> Pool {
    match m {
        Move::Worker { index, news } => if 0 <= index < p.workers.len() {
            worked(p, index, news)
        } else {
            p
        },
        Move::Coordinator => match crate::scanner::due(running(p)) {
            Some(message) if !p.complete => Pool {
                sent: p.sent.push(message),
                complete: true,
                ..p
            },
            _ => p,
        },
    }
}

/// A scan after one step of a worker.
pub open spec fn worked(p: Pool, index: int, news: News) -> Pool {
    let w = p.workers[index];
    let e = heard(p.queue, w, news);
    let (after, now) = crate::scanner::advanced(w, e);
    Pool {
        queue: if w is Idle && p.queue.len() > 0 {
            p.queue.drop_first()
        } else {
            p.queue
        },
        workers: p.workers.update(index, after),
        sent: p.sent + now,
        complete: p.complete,
        pinged: match (crate::scanner::job(w), e) {
            (Job::Ping(ip), News::Ponged(_)) => p.pinged.push(ip),
            _ => p.pinged,
        },
        alive: match (crate::scanner::job(w), e) {
            (Job::Ping(ip), News::Ponged(true)) => p.alive.push(ip),
            _ => p.alive,
        },
        found_names: match (crate::scanner::job(w), e) {
            (Job::ResolveHostname(ip), News::Hostname(hostname)) => p.found_names.push(
                (ip, hostname),
            ),
            _ => p.found_names,
        },
        found_macs: match (crate::scanner::job(w), e) {
            (Job::ReadMac(ip), News::Mac(mac)) => p.found_macs.push((ip, mac)),
            _ => p.found_macs,
        },
        dropped: match (w, e) {
            (Stage::Holding { ip }, News::Stopped(true)) => p.dropped.push(ip),
            _ => p.dropped,
        },
    }
}

/// A scan after a series of steps, in whatever order the workers take them.
pub open spec fn after_moves(p: Pool, moves: Seq<Move>) -> Pool
    decreases moves.len(),
{
    if moves.len() == 0 {
        p
    } else {
        stepped(after_moves(p, moves.drop_last()), moves.last())
    }
}

/// Whether a step shows no worker that the scan was stopped.
pub open spec fn goes_on(m: Move) -> bool {
    m matches Move::Worker { index, news } ==> news != News::Stopped(true)
}

/// Whether no worker sees in a series of steps that the scan was stopped.
pub open spec fn unstopped(moves: Seq<Move>) -> bool {
    forall|i: int| 0 <= i < moves.len() ==> goes_on(#[trigger] moves[i])
}

/// Whether a worker at a stage has an address in its hands.
pub open spec fn busy(w: Stage) -> bool {
    !(w is Idle) && !(w is Done)
}

/// Whether a worker at a stage has `ip` in its hands, and has not pinged it yet.
pub open spec fn waits(w: Stage, ip: Seq<char>) -> bool {
    w == (Stage::Holding { ip }) || w == (Stage::Pinging { ip })
}

/// The number of times that `ip` occurs.
pub open spec fn times(ips: Seq<Seq<char>>, ip: Seq<char>) -> nat {
    ips.to_multiset().count(ip)
}

/// The number of messages that `ip` answered.
pub open spec fn reported(sent: Seq<Message>, ip: Seq<char>) -> nat {
    tally(sent, |m: Message| m == Message::PingIpResponded(ip))
}

/// Whether a message gives the names of `ip`.
pub open spec fn names(m: Message, ip: Seq<char>) -> bool {
    m matches Message::IpResolved { ip: named, hostname, mac } && named == ip
}

/// The number of messages with the names of `ip`.
pub open spec fn named(sent: Seq<Message>, ip: Seq<char>) -> nat {
    tally(sent, |m: Message| names(m, ip))
}

/// The number of messages that the scan is complete.
pub open spec fn completed(sent: Seq<Message>) -> nat {
    tally(sent, |m: Message| m is ScanComplete)
}

proof fn lemma_number_update(
    workers: Seq<Stage>,
    i: int,
    w: Stage,
    kind: spec_fn(Stage) -> bool,
)
    requires
        0 <= i < workers.len(),
    ensures
        number(workers.update(i, w), kind) + (if kind(workers[i]) {
            1nat
        } else {
            0
        }) == number(workers, kind) + (if kind(w) {
            1nat
        } else {
            0
        }),
    decreases workers.len(),
{
    let after = workers.update(i, w);
    if i == workers.len() - 1 {
        assert(after.drop_last() =~= workers.drop_last());
    } else {
        assert(after.drop_last() =~= workers.drop_last().update(i, w));
        lemma_number_update(workers.drop_last(), i, w, kind);
    }
}

proof fn lemma_number_none(workers: Seq<Stage>, kind: spec_fn(Stage) -> bool)
    ensures
        number(workers, kind) <= workers.len(),
        number(workers, kind) == 0 <==> forall|i: int|
            0 <= i < workers.len() ==> !kind(#[trigger] workers[i]),
    decreases workers.len(),
{
    if workers.len() > 0 {
        let front = workers.drop_last();
        lemma_number_none(front, kind);
        if number(workers, kind) == 0 {
            assert forall|i: int| 0 <= i < workers.len() implies !kind(#[trigger] workers[i]) by {
                if i < front.len() {
                    assert(!kind(front[i]));
                }
            }
        }
        if forall|i: int| 0 <= i < workers.len() ==> !kind(#[trigger] workers[i]) {
            assert forall|i: int| 0 <= i < front.len() implies !kind(#[trigger] front[i]) by {
                assert(!kind(workers[i]));
            }
            assert(!kind(workers[workers.len() - 1]));
        }
    }
}

proof fn lemma_tally_one(sent: Seq<Message>, m: Message, kind: spec_fn(Message) -> bool)
    ensures
        tally(sent.push(m), kind) == tally(sent, kind) + if kind(m) {
            1nat
        } else {
            0
        },
{
    reveal(Seq::filter);
    assert(sent.push(m).drop_last() =~= sent);
}

/// What a step of a worker adds to the tally of a kind of messages.
proof fn lemma_tally_step(p: Pool, index: int, news: News, kind: spec_fn(Message) -> bool)
    requires
        0 <= index < p.workers.len(),
    ensures
        ({
            let w = p.workers[index];
            let now = crate::scanner::advanced(w, heard(p.queue, w, news)).1;
            let all = worked(p, index, news).sent;
            &&& now.len() <= 2
            &&& now.len() == 0 ==> all == p.sent
            &&& now.len() == 1 ==> tally(all, kind) == tally(p.sent, kind) + (if kind(now[0]) {
                1nat
            } else {
                0
            })
            &&& now.len() == 2 ==> tally(all, kind) == tally(p.sent, kind) + (if kind(now[0]) {
                1nat
            } else {
                0
            }) + (if kind(now[1]) {
                1nat
            } else {
                0
            })
        }),
{
    let w = p.workers[index];
    let now = crate::scanner::advanced(w, heard(p.queue, w, news)).1;
    let all = worked(p, index, news).sent;
    if now.len() == 0 {
        assert(all =~= p.sent);
    } else if now.len() == 1 {
        assert(all =~= p.sent.push(now[0]));
        lemma_tally_one(p.sent, now[0], kind);
    } else if now.len() == 2 {
        assert(all =~= p.sent.push(now[0]).push(now[1]));
        lemma_tally_one(p.sent, now[0], kind);
        lemma_tally_one(p.sent.push(now[0]), now[1], kind);
    }
}

/// Every address of `queue` is still to be taken, in a worker's hands, counted or dropped.
spec fn balanced(p: Pool, queue: Seq<Seq<char>>) -> bool {
    p.queue.len() + number(p.workers, |w: Stage| busy(w)) + crate::scanner::counted(p.sent)
        + p.dropped.len() == queue.len()
}

proof fn lemma_balanced(p: Pool, m: Move, queue: Seq<Seq<char>>)
    requires
        balanced(p, queue),
    ensures
        balanced(stepped(p, m), queue),
{
    let kind = |m: Message| m is CountIp;
    assert(crate::scanner::counted(p.sent) == tally(p.sent, kind));
    assert(crate::scanner::counted(stepped(p, m).sent) == tally(stepped(p, m).sent, kind));
    match m {
        Move::Worker { index, news } => {
            if 0 <= index < p.workers.len() {
                let w = p.workers[index];
                let after = crate::scanner::advanced(w, heard(p.queue, w, news)).0;
                lemma_tally_step(p, index, news, kind);
                lemma_number_update(p.workers, index, after, |w: Stage| busy(w));
            }
        },
        Move::Coordinator => {
            lemma_tally_one(p.sent, Message::ScanComplete, kind);
        },
    }
}

/// Every occurrence of `ip` in `queue` is still to be taken, waits in a worker's hands, was pinged or
/// was dropped.
spec fn accounted(p: Pool, queue: Seq<Seq<char>>, ip: Seq<char>) -> bool {
    times(p.queue, ip) + number(p.workers, |w: Stage| waits(w, ip)) + times(p.pinged, ip) + times(
        p.dropped,
        ip,
    ) == times(queue, ip)
}

proof fn lemma_times(ips: Seq<Seq<char>>, other: Seq<char>, ip: Seq<char>)
    ensures
        times(ips.push(other), ip) == times(ips, ip) + (if other == ip {
            1nat
        } else {
            0
        }),
        ips.len() > 0 ==> times(ips, ip) == times(ips.drop_first(), ip) + (if ips[0] == ip {
            1nat
        } else {
            0
        }),
{
    ips.to_multiset_ensures();
    if ips.len() > 0 {
        assert(ips.drop_first() =~= ips.remove(0));
        assert(ips.contains(ips[0]));
    }
}

proof fn lemma_accounted(p: Pool, m: Move, queue: Seq<Seq<char>>, ip: Seq<char>)
    requires
        accounted(p, queue, ip),
    ensures
        accounted(stepped(p, m), queue, ip),
{
    if let Move::Worker { index, news } = m {
        if 0 <= index < p.workers.len() {
            let w = p.workers[index];
            let after = crate::scanner::advanced(w, heard(p.queue, w, news)).0;
            lemma_number_update(p.workers, index, after, |w: Stage| waits(w, ip));
            lemma_times(p.queue, ip, ip);
            if let Stage::Pinging { ip: other } = w {
                lemma_times(p.pinged, other, ip);
            }
            if let Stage::Holding { ip: other } = w {
                lemma_times(p.dropped, other, ip);
            }
        }
    }
}

/// A host is reported as often as it answered, and its names are sent, or are still looked up, at most
/// as often.
spec fn truthful(p: Pool, ip: Seq<char>) -> bool {
    &&& reported(p.sent, ip) == times(p.alive, ip)
    &&& times(p.alive, ip) <= times(p.pinged, ip)
    &&& named(p.sent, ip) + number(
        p.workers,
        |w: Stage| crate::scanner::known_alive(w) == Some(ip),
    ) <= times(p.alive, ip)
}

/// The names of every host that answered are sent, or are still looked up.
spec fn thorough(p: Pool, ip: Seq<char>) -> bool {
    named(p.sent, ip) + number(
        p.workers,
        |w: Stage| crate::scanner::known_alive(w) == Some(ip),
    ) == times(p.alive, ip)
}

proof fn lemma_truthful(p: Pool, m: Move, ip: Seq<char>)
    requires
        truthful(p, ip),
    ensures
        truthful(stepped(p, m), ip),
        thorough(p, ip) && goes_on(m) ==> thorough(stepped(p, m), ip),
{
    let reports = |m: Message| m == Message::PingIpResponded(ip);
    let gives = |m: Message| names(m, ip);
    match m {
        Move::Worker { index, news } => {
            if 0 <= index < p.workers.len() {
                let w = p.workers[index];
                let after = crate::scanner::advanced(w, heard(p.queue, w, news)).0;
                lemma_tally_step(p, index, news, reports);
                lemma_tally_step(p, index, news, gives);
                lemma_number_update(
                    p.workers,
                    index,
                    after,
                    |w: Stage| crate::scanner::known_alive(w) == Some(ip),
                );
                if let Stage::Pinging { ip: other } = w {
                    lemma_times(p.pinged, other, ip);
                    lemma_times(p.alive, other, ip);
                }
            }
        },
        Move::Coordinator => {
            lemma_tally_one(p.sent, Message::ScanComplete, reports);
            lemma_tally_one(p.sent, Message::ScanComplete, gives);
        },
    }
}

/// Nothing is dropped, and a worker leaves only an empty queue.
spec fn persistent(p: Pool) -> bool {
    &&& p.dropped.len() == 0
    &&& p.queue.len() > 0 ==> number(p.workers, |w: Stage| w is Done) == 0
}

proof fn lemma_persistent(p: Pool, m: Move)
    requires
        persistent(p),
        goes_on(m),
    ensures
        persistent(stepped(p, m)),
{
    if let Move::Worker { index, news } = m {
        if 0 <= index < p.workers.len() {
            let w = p.workers[index];
            let after = crate::scanner::advanced(w, heard(p.queue, w, news)).0;
            lemma_number_update(p.workers, index, after, |w: Stage| w is Done);
        }
    }
}

/// The scan is complete when all workers have left, which is said once and at the end.
spec fn closed_once(p: Pool) -> bool {
    &&& completed(p.sent) == if p.complete {
        1nat
    } else {
        0
    }
    &&& p.complete ==> running(p) == 0 && p.sent.len() > 0 && p.sent.last() == Message::ScanComplete
}

proof fn lemma_closed_once(p: Pool, m: Move)
    requires
        closed_once(p),
    ensures
        closed_once(stepped(p, m)),
{
    let kind = |m: Message| m is ScanComplete;
    match m {
        Move::Worker { index, news } => {
            if 0 <= index < p.workers.len() {
                let w = p.workers[index];
                let after = crate::scanner::advanced(w, heard(p.queue, w, news)).0;
                lemma_tally_step(p, index, news, kind);
                lemma_number_update(p.workers, index, after, |w: Stage| !(w is Done));
                lemma_number_none(p.workers, |w: Stage| !(w is Done));
            }
        },
        Move::Coordinator => {
            lemma_tally_one(p.sent, Message::ScanComplete, kind);
        },
    }
}

/// All of the above, after any series of steps.
proof fn lemma_after_moves(queue: Seq<Seq<char>>, workers: nat, moves: Seq<Move>, ip: Seq<char>)
    ensures
        ({
            let p = after_moves(pool(queue, workers), moves);
            &&& p.workers.len() == workers
            &&& balanced(p, queue)
            &&& accounted(p, queue, ip)
            &&& truthful(p, ip)
            &&& closed_once(p)
            &&& unstopped(moves) ==> persistent(p) && thorough(p, ip)
        }),
    decreases moves.len(),
{
    if moves.len() == 0 {
        let p = pool(queue, workers);
        reveal(Seq::filter);
        lemma_number_none(p.workers, |w: Stage| busy(w));
        lemma_number_none(p.workers, |w: Stage| waits(w, ip));
        lemma_number_none(p.workers, |w: Stage| w is Done);
        lemma_number_none(
            p.workers,
            |w: Stage| crate::scanner::known_alive(w) == Some(ip),
        );
        assert(times(p.pinged, ip) == 0) by {
            p.pinged.to_multiset_ensures();
            assert(!p.pinged.contains(ip));
        }
    } else {
        let front = moves.drop_last();
        let p = after_moves(pool(queue, workers), front);
        let m = moves.last();
        lemma_after_moves(queue, workers, front, ip);
        lemma_balanced(p, m, queue);
        lemma_accounted(p, m, queue, ip);
        lemma_truthful(p, m, ip);
        lemma_closed_once(p, m);
        if unstopped(moves) {
            assert forall|i: int| 0 <= i < front.len() implies goes_on(#[trigger] front[i]) by {
                assert(goes_on(moves[i]));
            }
            assert(goes_on(moves[moves.len() - 1]));
            lemma_persistent(p, m);
        }
    }
}

/// However the workers of a scan take turns, and whether or not it is stopped: no more addresses are
/// counted than the queue had, no address is pinged more often than it stood in the queue, a host is
/// reported exactly as often as it answered, and its names are sent at most as often.
pub proof fn law_nothing_is_counted_twice(
    queue: Seq<Seq<char>>,
    workers: nat,
    moves: Seq<Move>,
    ip: Seq<char>,
)
    ensures
        ({
            let p = after_moves(pool(queue, workers), moves);
            &&& crate::scanner::counted(p.sent) <= queue.len()
            &&& times(p.pinged, ip) <= times(queue, ip)
            &&& reported(p.sent, ip) == times(p.alive, ip) <= times(p.pinged, ip)
            &&& named(p.sent, ip) <= times(p.alive, ip)
        }),
{
    lemma_after_moves(queue, workers, moves, ip);
}

/// However the workers of a scan take turns: once all of them have left a scan that was not stopped,
/// every address of the queue was counted, every address was pinged exactly as often as it stood in the
/// queue, and every host that answered was reported and named exactly as often as it answered.
pub proof fn law_a_scan_covers_its_queue(
    queue: Seq<Seq<char>>,
    workers: nat,
    moves: Seq<Move>,
    ip: Seq<char>,
)
    requires
        workers > 0,
        unstopped(moves),
        running(after_moves(pool(queue, workers), moves)) == 0,
    ensures
        ({
            let p = after_moves(pool(queue, workers), moves);
            &&& crate::scanner::counted(p.sent) == queue.len()
            &&& times(p.pinged, ip) == times(queue, ip)
            &&& reported(p.sent, ip) == times(p.alive, ip)
            &&& named(p.sent, ip) == times(p.alive, ip)
        }),
{
    let p = after_moves(pool(queue, workers), moves);
    lemma_after_moves(queue, workers, moves, ip);
    lemma_number_none(p.workers, |w: Stage| !(w is Done));
    lemma_number_none(p.workers, |w: Stage| w is Done);
    lemma_number_none(p.workers, |w: Stage| busy(w));
    lemma_number_none(p.workers, |w: Stage| waits(w, ip));
    lemma_number_none(p.workers, |w: Stage| crate::scanner::known_alive(w) == Some(ip));
    assert(p.workers[0] is Done);
    p.queue.to_multiset_ensures();
    p.dropped.to_multiset_ensures();
    assert(!p.queue.contains(ip));
    assert(!p.dropped.contains(ip));
}

/// Once all workers have left the scan of a network that was not stopped, every address of the network
/// was pinged exactly once and reported exactly if the host answered, and as many addresses were counted
/// as the network has.
pub proof fn law_every_address_is_scanned_once(
    network: Cidr,
    workers: nat,
    moves: Seq<Move>,
    address: u32,
)
    requires
        network.wf(),
        network.addresses().contains(address),
        workers > 0,
        unstopped(moves),
        running(
            after_moves(pool(crate::scanner::notations(network.addresses()), workers), moves),
        ) == 0,
    ensures
        ({
            let queue = crate::scanner::notations(network.addresses());
            let p = after_moves(pool(queue, workers), moves);
            let ip = crate::ipv4::ipv4_text(address);
            &&& crate::scanner::counted(p.sent) == network.size()
            &&& times(p.pinged, ip) == 1
            &&& reported(p.sent, ip) == named(p.sent, ip) == (if p.alive.contains(ip) {
                1nat
            } else {
                0
            })
        }),
{
    let addresses = network.addresses();
    let queue = crate::scanner::notations(addresses);
    let p = after_moves(pool(queue, workers), moves);
    let ip = crate::ipv4::ipv4_text(address);
    crate::ipv4::lemma_addresses_consecutive(network);
    assert forall|i: int, j: int| 0 <= i < queue.len() && 0 <= j < queue.len() && i != j implies queue[i]
        != queue[j] by {
        crate::ipv4::lemma_ipv4_text_injective(addresses[i], addresses[j]);
    }
    let k = choose|k: int| 0 <= k < addresses.len() && addresses[k] == address;
    assert(queue[k] == ip);
    assert(queue.contains(ip));
    queue.lemma_multiset_has_no_duplicates();
    queue.to_multiset_ensures();
    p.alive.to_multiset_ensures();
    law_a_scan_covers_its_queue(queue, workers, moves, ip);
    law_nothing_is_counted_twice(queue, workers, moves, ip);
}

/// The name that a worker has in its hands, and the host that it belongs to.
pub open spec fn name_in_hand(w: Stage) -> Option<(Seq<char>, Seq<char>)> {
    match w {
        Stage::Named { ip, hostname } => Some((ip, hostname)),
        Stage::Pausing { ip, hostname } => Some((ip, hostname)),
        Stage::Rested { ip, hostname } => Some((ip, hostname)),
        Stage::Locating { ip, hostname } => Some((ip, hostname)),
        _ => None,
    }
}

/// The names in the workers' hands, and those that were sent, are what was heard of their hosts.
spec fn faithful(p: Pool) -> bool {
    &&& forall|i: int|
        0 <= i < p.workers.len() ==> (name_in_hand(#[trigger] p.workers[i]) matches Some(pair)
            ==> p.found_names.contains(pair))
    &&& forall|i: int|
        0 <= i < p.sent.len() ==> (#[trigger] p.sent[i] matches Message::IpResolved {
            ip,
            hostname,
            mac,
        } ==> p.found_names.contains((ip, hostname)) && p.found_macs.contains((ip, mac)))
}

proof fn lemma_still_contains(
    s: Seq<(Seq<char>, Seq<char>)>,
    x: (Seq<char>, Seq<char>),
)
    ensures
        s.push(x).contains(x),
        forall|y: (Seq<char>, Seq<char>)| s.contains(y) ==> #[trigger] s.push(x).contains(y),
{
    assert(s.push(x)[s.len() as int] == x);
    assert forall|y: (Seq<char>, Seq<char>)| s.contains(y) implies #[trigger] s.push(x).contains(
        y,
    ) by {
        let i = choose|i: int| 0 <= i < s.len() && s[i] == y;
        assert(s.push(x)[i] == y);
    }
}

proof fn lemma_faithful(p: Pool, m: Move)
    requires
        faithful(p),
    ensures
        faithful(stepped(p, m)),
{
    let q = stepped(p, m);
    if let Move::Worker { index, news } = m {
        if 0 <= index < p.workers.len() {
            let w = p.workers[index];
            let e = heard(p.queue, w, news);
            if let (Job::ResolveHostname(ip), News::Hostname(hostname)) = (crate::scanner::job(w), e) {
                lemma_still_contains(p.found_names, (ip, hostname));
            }
            if let (Job::ReadMac(ip), News::Mac(mac)) = (crate::scanner::job(w), e) {
                lemma_still_contains(p.found_macs, (ip, mac));
            }
            assert forall|i: int| 0 <= i < q.workers.len() implies (name_in_hand(
                #[trigger] q.workers[i],
            ) matches Some(pair) ==> q.found_names.contains(pair)) by {
                assert(name_in_hand(p.workers[i]) matches Some(pair) ==> p.found_names.contains(pair));
                assert(name_in_hand(w) matches Some(pair) ==> p.found_names.contains(pair));
            }
            assert forall|i: int| 0 <= i < q.sent.len() implies (
            #[trigger] q.sent[i] matches Message::IpResolved { ip, hostname, mac }
                ==> q.found_names.contains((ip, hostname)) && q.found_macs.contains((ip, mac))) by {
                assert(name_in_hand(w) matches Some(pair) ==> p.found_names.contains(pair));
                if i < p.sent.len() {
                    assert(q.sent[i] == p.sent[i]);
                }
            }
        }
    } else {
        assert forall|i: int| 0 <= i < q.sent.len() implies (
        #[trigger] q.sent[i] matches Message::IpResolved { ip, hostname, mac }
            ==> q.found_names.contains((ip, hostname)) && q.found_macs.contains((ip, mac))) by {
            if i < p.sent.len() {
                assert(q.sent[i] == p.sent[i]);
            }
        }
    }
}

/// The names that are sent for a host are those that were heard when that very host was asked for: the
/// name as the answer to the question for its name, the hardware address as the answer to the question
/// for its hardware address.
pub proof fn law_names_belong_to_their_host(
    queue: Seq<Seq<char>>,
    workers: nat,
    moves: Seq<Move>,
    ip: Seq<char>,
    hostname: Seq<char>,
    mac: Seq<char>,
)
    ensures
        ({
            let p = after_moves(pool(queue, workers), moves);
            p.sent.contains(Message::IpResolved { ip, hostname, mac }) ==> p.found_names.contains(
                (ip, hostname),
            ) && p.found_macs.contains((ip, mac))
        }),
{
    lemma_after_moves_faithful(queue, workers, moves);
    let p = after_moves(pool(queue, workers), moves);
    let m = Message::IpResolved { ip, hostname, mac };
    if p.sent.contains(m) {
        let i = choose|i: int| 0 <= i < p.sent.len() && p.sent[i] == m;
        assert(p.sent[i] == m);
    }
}

proof fn lemma_after_moves_faithful(queue: Seq<Seq<char>>, workers: nat, moves: Seq<Move>)
    ensures
        faithful(after_moves(pool(queue, workers), moves)),
    decreases moves.len(),
{
    if moves.len() > 0 {
        lemma_after_moves_faithful(queue, workers, moves.drop_last());
        lemma_faithful(after_moves(pool(queue, workers), moves.drop_last()), moves.last());
    }
}

/// A scan is said to be complete at most once, after every other message, and only when all workers have
/// left; when they have and the coordinator looks, it is said.
pub proof fn law_completion_comes_last(queue: Seq<Seq<char>>, workers: nat, moves: Seq<Move>)
    ensures
        ({
            let p = after_moves(pool(queue, workers), moves);
            let looked = stepped(p, Move::Coordinator);
            &&& completed(p.sent) <= 1
            &&& completed(p.sent) == 1 ==> p.sent.last() == Message::ScanComplete && running(p) == 0
            &&& running(p) == 0 ==> completed(looked.sent) == 1
            &&& running(p) > 0 ==> looked == p
        }),
{
    let p = after_moves(pool(queue, workers), moves);
    lemma_after_moves(queue, workers, moves, Seq::empty());
    lemma_closed_once(p, Move::Coordinator);
}

/// At no time are more hosts pinged than there are workers, and the planned number of workers is at
/// most the size of the pool and at most the number of addresses.
pub proof fn law_few_hosts_are_pinged_at_once(
    ips: Seq<u32>,
    pool_size: nat,
    moves: Seq<Move>,
)
    ensures
        ({
            let workers = crate::scanner::smaller(pool_size, ips.len());
            let p = after_moves(pool(crate::scanner::notations(ips), workers), moves);
            &&& p.workers.len() == workers
            &&& number(p.workers, |w: Stage| w is Pinging) <= pool_size
            &&& number(p.workers, |w: Stage| w is Pinging) <= ips.len()
        }),
{
    let workers = crate::scanner::smaller(pool_size, ips.len());
    let queue = crate::scanner::notations(ips);
    let p = after_moves(pool(queue, workers), moves);
    lemma_after_moves(queue, workers, moves, Seq::empty());
    lemma_number_none(p.workers, |w: Stage| w is Pinging);
}

} // verus!
