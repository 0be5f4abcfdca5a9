//! The hosts that answered, and the order in which they are listed.
use crate::action::SortColumn;
use crate::ipv4::parse_ipv4;
use crate::text::{comes_before, to_lowercase};
use vstd::prelude::*;

verus! {

/// A host that answered.
#[derive(Clone, Debug, PartialEq)]
pub struct ScannedIp {
    pub ip: String,
    pub mac: String,
    pub hostname: String,
    pub vendor: String,
}

/// What is known of a host.
pub struct Row {
    pub ip: Seq<char>,
    pub mac: Seq<char>,
    pub hostname: Seq<char>,
    pub vendor: Seq<char>,
}

impl View for ScannedIp {
    type V = Row;

    open spec fn view(&self) -> Row {
        Row { ip: self.ip@, mac: self.mac@, hostname: self.hostname@, vendor: self.vendor@ }
    }
}

/// What is known of the hosts of a list.
pub open spec fn rows_of(hosts: Seq<ScannedIp>) -> Seq<Row> {
    hosts.map_values(|h: ScannedIp| h@)
}

/// A host of which only the address is known.
pub open spec fn placeholder(ip: Seq<char>) -> Row {
    Row { ip, mac: Seq::empty(), hostname: Seq::empty(), vendor: Seq::empty() }
}

/// Whether a host with the address `ip` is listed.
pub open spec fn listed(rows: Seq<Row>, ip: Seq<char>) -> bool {
    exists|i: int| 0 <= i < rows.len() && (#[trigger] rows[i]).ip == ip
}

/// No address is listed twice.
pub open spec fn distinct_ips(rows: Seq<Row>) -> bool {
    forall|i: int, j: int|
        0 <= i < j < rows.len() ==> (#[trigger] rows[i]).ip != (#[trigger] rows[j]).ip
}

/// The first place where `ip` is listed.
pub fn position(hosts: &Vec<ScannedIp>, ip: &String) -> (at: Option<usize>)
    ensures
        at is Some == listed(rows_of(hosts@), ip@),
        at matches Some(i) ==> i < hosts@.len() && hosts@[i as int]@.ip == ip@ && forall|j: int|
            0 <= j < i ==> (#[trigger] hosts@[j])@.ip != ip@,
{
    let mut i: usize = 0;
    while i < hosts.len()
        invariant
            i <= hosts@.len(),
            forall|j: int| 0 <= j < i ==> (#[trigger] hosts@[j])@.ip != ip@,
        decreases hosts@.len() - i,
    {
        if hosts[i].ip == *ip {
            proof {
                assert(rows_of(hosts@)[i as int].ip == ip@);
            }
            return Some(i);
        }
        i = i + 1;
    }
    proof {
        assert forall|k: int| 0 <= k < hosts@.len() implies (#[trigger] rows_of(hosts@)[k]).ip
            != ip@ by {
            assert(hosts@[k]@.ip != ip@);
        }
    }
    None
}

/// The host `r` with the hardware address `mac`, and with `company` in the place of its vendor if
/// there is one.
pub open spec fn with_address(r: Row, mac: Seq<char>, company: Option<Seq<char>>) -> Row {
    match company {
        Some(vendor) => Row { mac, vendor, ..r },
        None => Row { mac, ..r },
    }
}

/// The text of an optional text.
pub open spec fn optional_text(s: Option<String>) -> Option<Seq<char>> {
    match s {
        Some(t) => Some(t@),
        None => None,
    }
}

impl ScannedIp {
    /// A host of which only the address is known.
    pub fn placeholder(ip: String) -> (host: ScannedIp)
        ensures
            host@ == placeholder(ip@),
    {
        ScannedIp { ip, mac: String::new(), hostname: String::new(), vendor: String::new() }
    }

    /// Gives the host a hardware address, and the company that it is registered for if that is
    /// known.
    pub fn set_mac(&mut self, mac: String, company: Option<String>)
        ensures
            final(self)@ == with_address(old(self)@, mac@, optional_text(company)),
    {
        self.mac = mac;
        if let Some(name) = company {
            self.vendor = name;
        }
    }
}

/// The number by which an address is ordered: its own where `ip` is an IPv4 address, else 0.
pub open spec fn ip_key(ip: Seq<char>) -> u32 {
    if exists|a: u32| ip == crate::ipv4::ipv4_text(a) {
        choose|a: u32| ip == crate::ipv4::ipv4_text(a)
    } else {
        0
    }
}

/// The number by which an address is ordered.
fn ip_number(ip: &String) -> (n: u32)
    ensures
        n == ip_key(ip@),
{
    match parse_ipv4(ip.as_str()) {
        Some(a) => {
            proof {
                let b = choose|b: u32| ip@ == crate::ipv4::ipv4_text(b);
                crate::ipv4::lemma_ipv4_text_injective(a, b);
            }
            a
        },
        None => 0,
    }
}

/// Whether `a` may stand before `b` when hosts are listed by `column`: by the number of their
/// addresses, or by the small-letter form of the column's text.
pub open spec fn may_precede(a: Row, b: Row, column: SortColumn) -> bool {
    match column {
        SortColumn::Ip => ip_key(a.ip) <= ip_key(b.ip),
        SortColumn::Mac => crate::text::lex_le(
            crate::text::lowercase(a.mac),
            crate::text::lowercase(b.mac),
        ),
        SortColumn::Hostname => crate::text::lex_le(
            crate::text::lowercase(a.hostname),
            crate::text::lowercase(b.hostname),
        ),
        SortColumn::Vendor => crate::text::lex_le(
            crate::text::lowercase(a.vendor),
            crate::text::lowercase(b.vendor),
        ),
    }
}

/// Whether the text by which `r` is ordered is lowered as an ASCII text is, if it is one.
pub open spec fn key_lowered(r: Row, column: SortColumn) -> bool {
    match column {
        SortColumn::Ip => true,
        SortColumn::Mac => crate::text::lowers_ascii(r.mac),
        SortColumn::Hostname => crate::text::lowers_ascii(r.hostname),
        SortColumn::Vendor => crate::text::lowers_ascii(r.vendor),
    }
}

/// Whether among several rows the case of ASCII letters does not matter for their order: every text
/// that is compared is lowered as an ASCII text is, if it is one.
#[verifier::opaque]
pub open spec fn keys_lowered(rows: Seq<Row>, column: SortColumn) -> bool {
    rows.len() >= 2 ==> forall|i: int|
        0 <= i < rows.len() ==> key_lowered(#[trigger] rows[i], column)
}

fn in_order(a: &ScannedIp, b: &ScannedIp, column: SortColumn) -> (r: bool)
    ensures
        r == may_precede(a@, b@, column),
        key_lowered(a@, column),
        key_lowered(b@, column),
{
    match column {
        SortColumn::Ip => ip_number(&a.ip) <= ip_number(&b.ip),
        SortColumn::Mac => comes_before(
            to_lowercase(a.mac.as_str()).as_str(),
            to_lowercase(b.mac.as_str()).as_str(),
        ),
        SortColumn::Hostname => comes_before(
            to_lowercase(a.hostname.as_str()).as_str(),
            to_lowercase(b.hostname.as_str()).as_str(),
        ),
        SortColumn::Vendor => comes_before(
            to_lowercase(a.vendor.as_str()).as_str(),
            to_lowercase(b.vendor.as_str()).as_str(),
        ),
    }
}

/// Any two rows may stand in one order or the other, and the order is transitive.
pub proof fn lemma_order(a: Row, b: Row, c: Row, column: SortColumn)
    ensures
        may_precede(a, b, column) || may_precede(b, a, column),
        may_precede(a, b, column) && may_precede(b, c, column) ==> may_precede(a, c, column),
{
    let key = |r: Row| match column {
        SortColumn::Ip => Seq::<char>::empty(),
        SortColumn::Mac => crate::text::lowercase(r.mac),
        SortColumn::Hostname => crate::text::lowercase(r.hostname),
        SortColumn::Vendor => crate::text::lowercase(r.vendor),
    };
    crate::text::lemma_lex_total(key(a), key(b));
    if crate::text::lex_le(key(a), key(b)) && crate::text::lex_le(key(b), key(c)) {
        crate::text::lemma_lex_transitive(key(a), key(b), key(c));
    }
}

/// Whether `a` and `b` are equal as far as `column` is concerned.
pub open spec fn tied(a: Row, b: Row, column: SortColumn) -> bool {
    may_precede(a, b, column) && may_precede(b, a, column)
}

/// Whether no row stands before one that should precede it.
pub open spec fn in_column_order(rows: Seq<Row>, column: SortColumn) -> bool {
    forall|i: int, j: int|
        0 <= i <= j < rows.len() ==> may_precede(#[trigger] rows[i], #[trigger] rows[j], column)
}

/// Whether `sorted` lists the rows of `rows` by `column`, those that are tied in the order in which
/// they stood.
pub open spec fn is_stable_sort(rows: Seq<Row>, sorted: Seq<Row>, column: SortColumn) -> bool {
    &&& sorted.to_multiset() == rows.to_multiset()
    &&& in_column_order(sorted, column)
    &&& forall|r: Row|
        #![trigger tied_rows(sorted, r, column)]
        tied_rows(sorted, r, column) == tied_rows(rows, r, column)
}

/// The rows of `rows` that are tied with `r`, in their order.
pub open spec fn tied_rows(rows: Seq<Row>, r: Row, column: SortColumn) -> Seq<Row> {
    rows.filter(|x: Row| tied(x, r, column))
}

/// `sorted` with `r` behind the last row that may precede it.
pub open spec fn with_row(sorted: Seq<Row>, r: Row, column: SortColumn) -> Seq<Row>
    decreases sorted.len(),
{
    if sorted.len() == 0 || may_precede(sorted.last(), r, column) {
        sorted.push(r)
    } else {
        with_row(sorted.drop_last(), r, column).push(sorted.last())
    }
}

/// `rows` listed by `column`, those that are tied in the order in which they stood.
#[verifier::opaque]
pub open spec fn sorted_rows(rows: Seq<Row>, column: SortColumn) -> Seq<Row>
    decreases rows.len(),
{
    if rows.len() == 0 {
        rows
    } else {
        with_row(sorted_rows(rows.drop_last(), column), rows.last(), column)
    }
}

/// Sorts `hosts` by `column`; hosts that are tied keep their order.
pub fn sort_hosts(hosts: &mut Vec<ScannedIp>, column: SortColumn)
    ensures
        rows_of(final(hosts)@) == sorted_rows(rows_of(old(hosts)@), column),
        is_stable_sort(rows_of(old(hosts)@), rows_of(final(hosts)@), column),
        keys_lowered(rows_of(old(hosts)@), column),
        keys_lowered(rows_of(final(hosts)@), column),
{
    let ghost rows = rows_of(hosts@);
    let mut i: usize = 0;
    proof {
        reveal(sorted_rows);
        reveal(keys_lowered);
        assert(rows.take(0) =~= Seq::empty());
        assert(rows_of(hosts@).take(0) =~= sorted_rows(rows.take(0), column));
        assert(rows_of(hosts@).skip(0) =~= rows.skip(0));
    }
    while i < hosts.len()
        invariant
            i <= hosts@.len(),
            hosts@.len() == rows.len(),
            rows_of(hosts@).take(i as int) == sorted_rows(rows.take(i as int), column),
            rows_of(hosts@).skip(i as int) == rows.skip(i as int),
            keys_lowered(rows_of(hosts@).take(i as int), column),
        decreases hosts@.len() - i,
    {
        let ghost before = rows_of(hosts@);
        let ghost front = before.take(i as int);
        let ghost r = before[i as int];
        let mut j: usize = i;
        proof {
            assert(front.take(i as int) == front);
            assert(front.subrange(i as int, i as int) =~= Seq::empty());
            assert(with_row(front, r, column) =~= with_row(front.take(j as int), r, column)
                + front.subrange(j as int, i as int));
        }
        while j > 0 && !in_order(&hosts[j - 1], &hosts[i], column)
            invariant
                j <= i < hosts@.len(),
                rows_of(hosts@) == before,
                before.len() == hosts@.len(),
                front == before.take(i as int),
                r == before[i as int],
                with_row(front, r, column) == with_row(front.take(j as int), r, column)
                    + front.subrange(j as int, i as int),
                j < i ==> key_lowered(r, column) && key_lowered(front[i - 1], column),
            decreases j,
        {
            proof {
                assert(before[j - 1] == hosts@[j - 1]@);
                assert(before[i as int] == hosts@[i as int]@);
                assert(front.take(j as int).last() == before[j - 1]);
                assert(front.take(j as int).drop_last() == front.take(j - 1));
                assert(with_row(front.take(j - 1), r, column).push(before[j - 1])
                    + front.subrange(j as int, i as int) =~= with_row(front.take(j - 1), r, column)
                    + front.subrange(j - 1, i as int));
            }
            j = j - 1;
        }
        proof {
            if j > 0 {
                assert(before[j - 1] == hosts@[j - 1]@);
                assert(before[i as int] == hosts@[i as int]@);
                assert(front.take(j as int).last() == before[j - 1]);
            }
            assert(with_row(front.take(j as int), r, column) == front.take(j as int).push(r));
            reveal(keys_lowered);
            assert(i > 0 ==> key_lowered(r, column) && key_lowered(front[i - 1], column));
            assert forall|k: int| i > 0 && 0 <= k < i implies key_lowered(
                #[trigger] front[k],
                column,
            ) by {
                if i == 1 {
                    assert(k == i - 1);
                }
            }
        }
        let host = hosts.remove(i);
        hosts.insert(j, host);
        proof {
            reveal(sorted_rows);
            let after = rows_of(hosts@);
            assert(after =~= before.remove(i as int).insert(j as int, r));
            assert(after.take(i + 1) =~= front.take(j as int).push(r) + front.subrange(
                j as int,
                i as int,
            ));
            assert(keys_lowered(after.take(i + 1), column)) by {
                assert forall|k: int| i > 0 && 0 <= k < i + 1 implies key_lowered(
                    #[trigger] after.take(i + 1)[k],
                    column,
                ) by {
                    if k < j {
                        assert(after.take(i + 1)[k] == front[k]);
                    } else if k > j {
                        assert(after.take(i + 1)[k] == front[k - 1]);
                    }
                }
            }
            assert(rows.take(i + 1).drop_last() == rows.take(i as int));
            assert(rows.skip(i as int)[0] == rows[i as int]);
            assert(before.skip(i as int)[0] == r);
            assert(rows.take(i + 1).last() == r);
            assert(after.skip(i + 1) =~= before.skip(i + 1));
            assert(before.skip(i + 1) =~= before.skip(i as int).drop_first());
            assert(rows.skip(i + 1) =~= rows.skip(i as int).drop_first());
        }
        i = i + 1;
    }
    proof {
        assert(rows_of(hosts@).take(i as int) == rows_of(hosts@));
        assert(rows.take(i as int) == rows);
        law_sort_is_stable(rows, column);
        lemma_keys_lowered(rows_of(hosts@), rows, column);
    }
}

/// What holds of the keys of a list holds of those of a rearranged one.
proof fn lemma_keys_lowered(sorted: Seq<Row>, rows: Seq<Row>, column: SortColumn)
    requires
        sorted.to_multiset() == rows.to_multiset(),
        keys_lowered(sorted, column),
    ensures
        keys_lowered(rows, column),
{
    broadcast use vstd::seq_lib::group_to_multiset_ensures;

    reveal(keys_lowered);
    sorted.to_multiset_ensures();
    rows.to_multiset_ensures();
    assert(sorted.len() == rows.len());
    assert forall|i: int| rows.len() >= 2 && 0 <= i < rows.len() implies key_lowered(
        #[trigger] rows[i],
        column,
    ) by {
        assert(rows.contains(rows[i]));
        assert(sorted.to_multiset().count(rows[i]) > 0);
        assert(sorted.contains(rows[i]));
        let k = choose|k: int| 0 <= k < sorted.len() && sorted[k] == rows[i];
        assert(key_lowered(sorted[k], column));
    }
}

/// Putting a row into a list in column order keeps the order and the rows, and puts the row behind
/// those that it is tied with.
proof fn lemma_with_row(sorted: Seq<Row>, r: Row, column: SortColumn)
    requires
        in_column_order(sorted, column),
    ensures
        with_row(sorted, r, column).to_multiset() == sorted.to_multiset().insert(r),
        in_column_order(with_row(sorted, r, column), column),
        forall|i: int|
            0 <= i < with_row(sorted, r, column).len() ==> #[trigger] with_row(
                sorted,
                r,
                column,
            )[i] == r || sorted.contains(with_row(sorted, r, column)[i]),
        forall|x: Row|
            #![trigger tied_rows(with_row(sorted, r, column), x, column)]
            tied_rows(with_row(sorted, r, column), x, column) == tied_rows(
                sorted.push(r),
                x,
                column,
            ),
    decreases sorted.len(),
{
    broadcast use vstd::seq_lib::group_to_multiset_ensures;

    let out = with_row(sorted, r, column);
    if sorted.len() == 0 || may_precede(sorted.last(), r, column) {
        assert forall|i: int, j: int| 0 <= i <= j < out.len() implies may_precede(
            #[trigger] out[i],
            #[trigger] out[j],
            column,
        ) by {
            lemma_order(r, r, r, column);
            if j == sorted.len() && i < j {
                assert(may_precede(sorted[i], sorted[sorted.len() - 1], column));
                lemma_order(sorted[i], sorted.last(), r, column);
            }
        }
        assert forall|i: int| 0 <= i < out.len() implies #[trigger] out[i] == r || sorted.contains(
            out[i],
        ) by {
            if i < sorted.len() {
                assert(out[i] == sorted[i]);
            }
        }
    } else {
        let front = sorted.drop_last();
        let last = sorted.last();
        lemma_with_row(front, r, column);
        let inner = with_row(front, r, column);
        assert(front.push(last) == sorted);
        assert(out.to_multiset() =~= inner.to_multiset().insert(last));
        assert(out.to_multiset() =~= sorted.to_multiset().insert(r));
        lemma_order(r, last, last, column);
        lemma_order(last, last, last, column);
        assert forall|i: int, j: int| 0 <= i <= j < out.len() implies may_precede(
            #[trigger] out[i],
            #[trigger] out[j],
            column,
        ) by {
            if j < inner.len() {
                assert(may_precede(inner[i], inner[j], column));
            } else if i < inner.len() {
                assert(inner[i] == r || front.contains(inner[i]));
                if inner[i] != r {
                    let k = choose|k: int| 0 <= k < front.len() && front[k] == inner[i];
                    assert(may_precede(sorted[k], sorted[sorted.len() - 1], column));
                }
            }
        }
        assert forall|i: int| 0 <= i < out.len() implies #[trigger] out[i] == r || sorted.contains(
            out[i],
        ) by {
            if i < inner.len() {
                assert(inner[i] == r || front.contains(inner[i]));
                if inner[i] != r {
                    let k = choose|k: int| 0 <= k < front.len() && front[k] == inner[i];
                    assert(sorted[k] == inner[i]);
                }
            } else {
                assert(sorted[sorted.len() - 1] == last);
            }
        }
        assert forall|x: Row|
            #![trigger tied_rows(out, x, column)]
            tied_rows(out, x, column) == tied_rows(sorted.push(r), x, column) by {
            let p = |y: Row| tied(y, x, column);
            assert(tied_rows(inner, x, column) == tied_rows(front.push(r), x, column));
            lemma_filter_push(inner, p, last);
            lemma_filter_push(front, p, r);
            lemma_filter_push(front, p, last);
            lemma_filter_push(sorted, p, r);
            if p(r) && p(last) {
                lemma_order(last, x, r, column);
            }
            assert(tied_rows(out, x, column) =~= tied_rows(sorted.push(r), x, column));
        }
    }
}

/// What a filter keeps of a list with one more row.
proof fn lemma_filter_push(s: Seq<Row>, p: spec_fn(Row) -> bool, r: Row)
    ensures
        s.push(r).filter(p) == if p(r) {
            s.filter(p).push(r)
        } else {
            s.filter(p)
        },
{
    reveal(Seq::filter);
    assert(s.push(r).drop_last() == s);
}

/// Sorting rearranges the rows, puts them in the order of the column, and keeps the order of rows
/// that are tied.
pub proof fn law_sort_is_stable(rows: Seq<Row>, column: SortColumn)
    ensures
        is_stable_sort(rows, sorted_rows(rows, column), column),
    decreases rows.len(),
{
    broadcast use vstd::seq_lib::group_to_multiset_ensures;

    reveal(sorted_rows);
    if rows.len() > 0 {
        let front = rows.drop_last();
        let r = rows.last();
        let inner = sorted_rows(front, column);
        law_sort_is_stable(front, column);
        lemma_with_row(inner, r, column);
        assert(front.push(r) == rows);
        assert(sorted_rows(rows, column).to_multiset() =~= rows.to_multiset());
        assert forall|x: Row|
            #![trigger tied_rows(sorted_rows(rows, column), x, column)]
            tied_rows(sorted_rows(rows, column), x, column) == tied_rows(rows, x, column) by {
            let p = |y: Row| tied(y, x, column);
            lemma_filter_push(inner, p, r);
            lemma_filter_push(front, p, r);
            assert(tied_rows(inner, x, column) == tied_rows(front, x, column));
            assert(tied_rows(with_row(inner, r, column), x, column) == tied_rows(
                inner.push(r),
                x,
                column,
            ));
        }
    }
}

/// There is only one way to sort rows by a column and keep the order of those that are tied.
pub proof fn law_stable_sort_is_unique(
    rows: Seq<Row>,
    a: Seq<Row>,
    b: Seq<Row>,
    column: SortColumn,
)
    requires
        is_stable_sort(rows, a, column),
        is_stable_sort(rows, b, column),
    ensures
        a == b,
{
    assert forall|x: Row|
        #![trigger tied_rows(a, x, column)]
        tied_rows(a, x, column) == tied_rows(b, x, column) by {
        assert(tied_rows(b, x, column) == tied_rows(rows, x, column));
    }
    lemma_sorted_unique(a, b, column);
}

proof fn lemma_sorted_unique(a: Seq<Row>, b: Seq<Row>, column: SortColumn)
    requires
        in_column_order(a, column),
        in_column_order(b, column),
        forall|x: Row|
            #![trigger tied_rows(a, x, column)]
            tied_rows(a, x, column) == tied_rows(b, x, column),
    ensures
        a == b,
    decreases a.len(),
{
    if a.len() == 0 {
        if b.len() > 0 {
            let x = b.last();
            lemma_order(x, x, x, column);
            b.lemma_filter_contains(|y: Row| tied(y, x, column), b.len() - 1);
            reveal(Seq::filter);
            assert(tied_rows(a, x, column).len() == 0);
            assert(false);
        }
        assert(a =~= b);
    } else {
        let x = a.last();
        let p = |y: Row| tied(y, x, column);
        lemma_order(x, x, x, column);
        a.lemma_filter_contains(p, a.len() - 1);
        assert(tied_rows(a, x, column).contains(x));
        b.lemma_filter_contains_rev(p, x);
        assert(b.contains(x));
        let k = choose|k: int| 0 <= k < b.len() && b[k] == x;
        let y = b.last();
        let q = |z: Row| tied(z, y, column);
        lemma_order(y, y, y, column);
        b.lemma_filter_contains(q, b.len() - 1);
        assert(tied_rows(b, y, column).contains(y));
        assert(tied_rows(a, y, column).contains(y));
        a.lemma_filter_contains_rev(q, y);
        let l = choose|l: int| 0 <= l < a.len() && a[l] == y;
        assert(may_precede(b[k], b[b.len() - 1], column));
        assert(may_precede(a[l], a[a.len() - 1], column));
        assert(tied(y, x, column));
        let fa = a.drop_last();
        let fb = b.drop_last();
        assert(fa.push(x) == a);
        assert(fb.push(y) == b);
        lemma_filter_push(fa, p, x);
        lemma_filter_push(fb, p, y);
        assert(tied_rows(a, x, column).last() == x);
        assert(tied_rows(b, x, column).last() == y);
        assert(x == y);
        assert forall|z: Row|
            #![trigger tied_rows(fa, z, column)]
            tied_rows(fa, z, column) == tied_rows(fb, z, column) by {
            let pz = |w: Row| tied(w, z, column);
            lemma_filter_push(fa, pz, x);
            lemma_filter_push(fb, pz, y);
            assert(tied_rows(a, z, column) == tied_rows(b, z, column));
            if pz(x) {
                assert(tied_rows(fa, z, column) =~= tied_rows(a, z, column).drop_last());
                assert(tied_rows(fb, z, column) =~= tied_rows(b, z, column).drop_last());
            }
        }
        lemma_sorted_unique(fa, fb, column);
    }
}

/// Sorting a list twice by one column is sorting it once.
pub proof fn law_sort_is_idempotent(rows: Seq<Row>, column: SortColumn)
    ensures
        sorted_rows(sorted_rows(rows, column), column) == sorted_rows(rows, column),
{
    let once = sorted_rows(rows, column);
    law_sort_is_stable(rows, column);
    law_sort_is_stable(once, column);
    assert(is_stable_sort(once, once, column));
    law_stable_sort_is_unique(once, sorted_rows(once, column), once, column);
}

/// Sorting lists the same addresses as before, and none of them twice if none was.
pub proof fn law_sort_keeps_ips(rows: Seq<Row>, column: SortColumn)
    ensures
        sorted_rows(rows, column).len() == rows.len(),
        forall|ip: Seq<char>|
            #[trigger] listed(sorted_rows(rows, column), ip) == listed(rows, ip),
        distinct_ips(rows) ==> distinct_ips(sorted_rows(rows, column)),
{
    broadcast use vstd::seq_lib::group_to_multiset_ensures;

    let out = sorted_rows(rows, column);
    law_sort_is_stable(rows, column);
    assert(out.to_multiset().len() == rows.to_multiset().len());
    assert forall|i: int| 0 <= i < out.len() implies rows.contains(#[trigger] out[i]) by {
        assert(out.contains(out[i]));
        assert(out.to_multiset().count(out[i]) > 0);
        assert(rows.to_multiset().count(out[i]) > 0);
    }
    assert forall|i: int| 0 <= i < rows.len() implies out.contains(#[trigger] rows[i]) by {
        assert(rows.contains(rows[i]));
        assert(rows.to_multiset().count(rows[i]) > 0);
        assert(out.to_multiset().count(rows[i]) > 0);
    }
    assert forall|ip: Seq<char>| #[trigger] listed(out, ip) == listed(rows, ip) by {
        if listed(out, ip) {
            let i = choose|i: int| 0 <= i < out.len() && (#[trigger] out[i]).ip == ip;
            let k = choose|k: int| 0 <= k < rows.len() && rows[k] == out[i];
            assert(rows[k].ip == ip);
        }
        if listed(rows, ip) {
            let i = choose|i: int| 0 <= i < rows.len() && (#[trigger] rows[i]).ip == ip;
            let k = choose|k: int| 0 <= k < out.len() && out[k] == rows[i];
            assert(out[k].ip == ip);
        }
    }
    if distinct_ips(rows) {
        assert(rows.no_duplicates());
        rows.lemma_multiset_has_no_duplicates();
        out.lemma_multiset_has_no_duplicates_conv();
        assert forall|i: int, j: int| 0 <= i < j < out.len() implies (#[trigger] out[i]).ip
            != (#[trigger] out[j]).ip by {
            assert(out[i] != out[j]);
            let k = choose|k: int| 0 <= k < rows.len() && rows[k] == out[i];
            let l = choose|l: int| 0 <= l < rows.len() && rows[l] == out[j];
            assert(rows[k].ip == out[i].ip);
            assert(rows[l].ip == out[j].ip);
        }
    }
}

/// A table that is listed by address has the addresses in ascending order, as numbers.
pub proof fn law_addresses_ascend(rows: Seq<Row>, i: int, j: int, a: u32, b: u32)
    requires
        0 <= i < j < sorted_rows(rows, SortColumn::Ip).len(),
        sorted_rows(rows, SortColumn::Ip)[j].ip == crate::ipv4::ipv4_text(b),
    ensures
        sorted_rows(rows, SortColumn::Ip)[i].ip == crate::ipv4::ipv4_text(a) ==> a <= b,
{
    let sorted = sorted_rows(rows, SortColumn::Ip);
    law_sort_is_stable(rows, SortColumn::Ip);
    assert(may_precede(sorted[i], sorted[j], SortColumn::Ip));
    lemma_ip_key(sorted[j].ip, b);
    if sorted[i].ip == crate::ipv4::ipv4_text(a) {
        lemma_ip_key(sorted[i].ip, a);
    }
}

/// In a table that is listed by address no row whose text is no address stands behind one whose address
/// is not 0.0.0.0.
pub proof fn law_what_is_no_address_comes_first(rows: Seq<Row>, i: int, j: int, a: u32)
    requires
        0 <= i < j < sorted_rows(rows, SortColumn::Ip).len(),
        sorted_rows(rows, SortColumn::Ip)[i].ip == crate::ipv4::ipv4_text(a),
        forall|b: u32|
            sorted_rows(rows, SortColumn::Ip)[j].ip != #[trigger] crate::ipv4::ipv4_text(b),
    ensures
        a == 0,
{
    let sorted = sorted_rows(rows, SortColumn::Ip);
    law_sort_is_stable(rows, SortColumn::Ip);
    assert(may_precede(sorted[i], sorted[j], SortColumn::Ip));
    lemma_ip_key(sorted[i].ip, a);
}

proof fn lemma_ip_key(ip: Seq<char>, a: u32)
    requires
        ip == crate::ipv4::ipv4_text(a),
    ensures
        ip_key(ip) == a,
{
    let b = choose|b: u32| ip == crate::ipv4::ipv4_text(b);
    crate::ipv4::lemma_ipv4_text_injective(a, b);
}

/// The text of a row in a column; that of its address where the column is the address.
pub open spec fn cell(r: Row, column: SortColumn) -> Seq<char> {
    match column {
        SortColumn::Ip => r.ip,
        SortColumn::Mac => r.mac,
        SortColumn::Hostname => r.hostname,
        SortColumn::Vendor => r.vendor,
    }
}

/// A table that is listed by hardware address, name or vendor has the texts of that column, in small
/// letters, in the order of a dictionary: of two rows the first one's text is the start of the second
/// one's, or has the smaller character where they first differ.
pub proof fn law_texts_ascend(rows: Seq<Row>, i: int, j: int, column: SortColumn)
    requires
        column != SortColumn::Ip,
        0 <= i < j < sorted_rows(rows, column).len(),
    ensures
        ({
            let a = crate::text::lowercase(cell(sorted_rows(rows, column)[i], column));
            let b = crate::text::lowercase(cell(sorted_rows(rows, column)[j], column));
            exists|k: int|
                0 <= k <= a.len() && k <= b.len() && #[trigger] a.take(k) == b.take(k) && (k == a.len()
                    || (k < b.len() && a[k] < b[k]))
        }),
{
    let sorted = sorted_rows(rows, column);
    law_sort_is_stable(rows, column);
    assert(may_precede(sorted[i], sorted[j], column));
    crate::text::law_dictionary_order(
        crate::text::lowercase(cell(sorted[i], column)),
        crate::text::lowercase(cell(sorted[j], column)),
    );
}

/// Listing a table by a column rearranges its rows, and keeps the order of those with the same text in the
/// column, capital and small letters being the same.
pub proof fn law_ties_keep_their_order(rows: Seq<Row>, key: Seq<char>, column: SortColumn)
    requires
        column != SortColumn::Ip,
    ensures
        sorted_rows(rows, column).to_multiset() == rows.to_multiset(),
        sorted_rows(rows, column).filter(
            |r: Row| crate::text::lowercase(cell(r, column)) == crate::text::lowercase(key),
        ) == rows.filter(
            |r: Row| crate::text::lowercase(cell(r, column)) == crate::text::lowercase(key),
        ),
{
    let like = Row { ip: key, mac: key, hostname: key, vendor: key };
    let same = |r: Row| crate::text::lowercase(cell(r, column)) == crate::text::lowercase(key);
    law_sort_is_stable(rows, column);
    assert forall|r: Row| same(r) == #[trigger] tied(r, like, column) by {
        if tied(r, like, column) {
            crate::text::law_order_is_antisymmetric(
                crate::text::lowercase(cell(r, column)),
                crate::text::lowercase(key),
            );
        }
        crate::text::lemma_lex_total(
            crate::text::lowercase(key),
            crate::text::lowercase(key),
        );
    }
    lemma_same_filter(rows, same, |r: Row| tied(r, like, column));
    lemma_same_filter(sorted_rows(rows, column), same, |r: Row| tied(r, like, column));
    assert(tied_rows(sorted_rows(rows, column), like, column) == tied_rows(rows, like, column));
}

/// Listing a table by address rearranges its rows, and keeps the order of those with the same address and
/// of those whose text is no address.
pub proof fn law_equal_addresses_keep_their_order(rows: Seq<Row>, a: u32)
    ensures
        sorted_rows(rows, SortColumn::Ip).to_multiset() == rows.to_multiset(),
        a > 0 ==> sorted_rows(rows, SortColumn::Ip).filter(
            |r: Row| r.ip == crate::ipv4::ipv4_text(a),
        ) == rows.filter(|r: Row| r.ip == crate::ipv4::ipv4_text(a)),
{
    let column = SortColumn::Ip;
    let text = crate::ipv4::ipv4_text(a);
    let like = placeholder(text);
    let same = |r: Row| r.ip == crate::ipv4::ipv4_text(a);
    law_sort_is_stable(rows, column);
    lemma_ip_key(text, a);
    if a > 0 {
        assert forall|r: Row| same(r) == #[trigger] tied(r, like, column) by {
            if tied(r, like, column) {
                assert(ip_key(r.ip) == a);
                assert(exists|b: u32| r.ip == crate::ipv4::ipv4_text(b));
                let b = choose|b: u32| r.ip == crate::ipv4::ipv4_text(b);
                lemma_ip_key(r.ip, b);
            }
        }
        lemma_same_filter(rows, same, |r: Row| tied(r, like, column));
        lemma_same_filter(sorted_rows(rows, column), same, |r: Row| tied(r, like, column));
        assert(tied_rows(sorted_rows(rows, column), like, column) == tied_rows(rows, like, column));
    }
}

proof fn lemma_same_filter(rows: Seq<Row>, p: spec_fn(Row) -> bool, q: spec_fn(Row) -> bool)
    requires
        forall|r: Row| #[trigger] p(r) == q(r),
    ensures
        rows.filter(p) == rows.filter(q),
    decreases rows.len(),
{
    reveal(Seq::filter);
    if rows.len() > 0 {
        lemma_same_filter(rows.drop_last(), p, q);
        assert(p(rows.last()) == q(rows.last()));
    }
}

/// What is known of a host is what its fields hold; a host of which only the address is known has no
/// hardware address, name and vendor.
pub proof fn law_hosts_as_rows(hosts: Seq<ScannedIp>, i: int, ip: Seq<char>)
    requires
        0 <= i < hosts.len(),
    ensures
        rows_of(hosts).len() == hosts.len(),
        rows_of(hosts)[i].ip == hosts[i].ip@,
        rows_of(hosts)[i].mac == hosts[i].mac@,
        rows_of(hosts)[i].hostname == hosts[i].hostname@,
        rows_of(hosts)[i].vendor == hosts[i].vendor@,
        placeholder(ip).ip == ip,
        placeholder(ip).mac.len() == 0,
        placeholder(ip).hostname.len() == 0,
        placeholder(ip).vendor.len() == 0,
{
}

/// A host that gets a hardware address keeps its address and its name, and gets the vendor of the
/// hardware address if that is known.
pub proof fn law_hardware_address_of_a_host(r: Row, mac: Seq<char>, company: Option<Seq<char>>)
    ensures
        with_address(r, mac, company).ip == r.ip,
        with_address(r, mac, company).mac == mac,
        with_address(r, mac, company).hostname == r.hostname,
        company matches Some(name) ==> with_address(r, mac, company).vendor == name,
        company is None ==> with_address(r, mac, company).vendor == r.vendor,
{
}

/// Where the texts that are compared are lowered, those of ASCII have their capital letters replaced by
/// the small ones: the case of ASCII letters does not matter for the order.
pub proof fn law_case_does_not_matter(rows: Seq<Row>, i: int, column: SortColumn)
    requires
        keys_lowered(rows, column),
        rows.len() >= 2,
        0 <= i < rows.len(),
        column != SortColumn::Ip,
    ensures
        vstd::utf8::is_ascii_chars(cell(rows[i], column)) ==> crate::text::lowercase(
            cell(rows[i], column),
        ) == cell(rows[i], column).map_values(|c: char| crate::text::ascii_lower(c)),
{
    reveal(keys_lowered);
    assert(key_lowered(rows[i], column));
}

/// A text that may be missing is the text where it is there.
pub proof fn law_optional_texts(s: String)
    ensures
        optional_text(Some(s)) == Some(s@),
        optional_text(None) is None,
{
}

} // verus!
