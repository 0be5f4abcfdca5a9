//! The system's network commands: how they are called, and what their output says.
use crate::text::{chars_of, decode_lossy, find, occurs, split, trimmed_name, Separator};
use vstd::prelude::*;

verus! {

/// The views of a list of texts.
pub open spec fn texts(v: Seq<String>) -> Seq<Seq<char>> {
    v.map_values(|s: String| s@)
}

/// The arguments of `ping` that send one packet to `ip` and wait one second for the answer.
pub fn ping_args(macos: bool, ip: &str) -> (args: Vec<String>)
    ensures
        texts(args@) == seq!["-c"@, "1"@, if macos { "-t"@ } else { "-W"@ }, "1"@, ip@],
{
    let wait = if macos { "-t" } else { "-W" };
    let args = vec![
        "-c".to_owned(),
        "1".to_owned(),
        wait.to_owned(),
        "1".to_owned(),
        ip.to_owned(),
    ];
    proof {
        assert(texts(args@) =~= seq!["-c"@, "1"@, wait@, "1"@, ip@]);
    }
    args
}

/// Whether the host answered: `ping` could be run, and reported success. `success` is `None` where
/// it could not be run.
pub fn ping_host(success: Option<bool>) -> (alive: bool)
    ensures
        alive == (success == Some(true)),
{
    match success {
        Some(s) => s,
        None => false,
    }
}

/// The arguments of `dig` that ask for the name of `ip`.
pub fn dig_args(ip: &str) -> (args: Vec<String>)
    ensures
        texts(args@) == seq!["-x"@, ip@, "+short"@, "+time=2"@, "+tries=1"@],
{
    let args = vec![
        "-x".to_owned(),
        ip.to_owned(),
        "+short".to_owned(),
        "+time=2".to_owned(),
        "+tries=1".to_owned(),
    ];
    proof {
        assert(texts(args@) =~= seq!["-x"@, ip@, "+short"@, "+time=2"@, "+tries=1"@]);
    }
    args
}

/// The arguments of `nslookup` that ask for the name of `ip`.
pub fn nslookup_args(ip: &str) -> (args: Vec<String>)
    ensures
        texts(args@) == seq![ip@],
{
    let args = vec![ip.to_owned()];
    proof {
        assert(texts(args@) =~= seq![ip@]);
    }
    args
}

/// The arguments of `arp` that ask for the entry of `ip`.
pub fn arp_args(ip: &str) -> (args: Vec<String>)
    ensures
        texts(args@) == seq!["-n"@, ip@],
{
    let args = vec!["-n".to_owned(), ip.to_owned()];
    proof {
        assert(texts(args@) =~= seq!["-n"@, ip@]);
    }
    args
}

/// The name that a line of `dig`'s output gives: the line, trimmed, without full stops at its
/// end. An empty line and a comment, which starts with two semicolons, give none.
pub open spec fn dig_line(line: Seq<char>) -> Option<Seq<char>> {
    let name = crate::text::strip_dots(crate::text::trim(line));
    if name.len() > 0 && !crate::text::occurs_at(name, ";;"@, 0) {
        Some(name)
    } else {
        None
    }
}

/// The name that the first of `lines` with a name gives.
pub open spec fn first_dig_line(lines: Seq<Seq<char>>) -> Option<Seq<char>>
    decreases lines.len(),
{
    if lines.len() == 0 {
        None
    } else if dig_line(lines[0]) is Some {
        dig_line(lines[0])
    } else {
        first_dig_line(lines.drop_first())
    }
}

/// The name in the output of `dig`: that of the first line that gives one.
pub open spec fn dig_name(output: Seq<char>) -> Option<Seq<char>> {
    first_dig_line(crate::text::pieces(output, Separator::LineFeed))
}

/// Reads the output of `dig`.
pub fn hostname_from_dig(output: &str) -> (r: Option<String>)
    ensures
        r is Some == dig_name(output@) is Some,
        r matches Some(name) ==> Some(name@) == dig_name(output@),
{
    let lines = split(&chars_of(output), Separator::LineFeed);
    let comment = chars_of(";;");
    let ghost all = crate::text::pieces(output@, Separator::LineFeed);
    let mut i: usize = 0;
    proof {
        assert(all.skip(0) == all);
        assert(all.len() == lines@.len());
    }
    while i < lines.len()
        invariant
            i <= lines@.len(),
            all == crate::text::char_lists(lines@),
            all.len() == lines@.len(),
            comment@ == ";;"@,
            first_dig_line(all) == first_dig_line(all.skip(i as int)),
            all == crate::text::pieces(output@, Separator::LineFeed),
        decreases lines@.len() - i,
    {
        let name = trimmed_name(&lines[i], 0);
        let v = chars_of(name.as_str());
        proof {
            assert(all[i as int] == lines@[i as int]@);
            assert(lines@[i as int]@.skip(0) == lines@[i as int]@);
            assert(all.skip(i as int)[0] == all[i as int]);
            assert(all.skip(i as int).drop_first() == all.skip(i + 1));
        }
        if v.len() > 0 && !occurs(&v, &comment, 0) {
            return Some(name);
        }
        i = i + 1;
    }
    None
}

/// The name that a line of `nslookup`'s output gives: what follows the first `name = ` in it,
/// trimmed, without full stops at its end.
pub open spec fn nslookup_line(line: Seq<char>) -> Option<Seq<char>> {
    if exists|i: int| crate::text::occurs_at(line, "name = "@, i) {
        let i = choose|i: int| crate::text::first_occurrence(line, "name = "@, Some(i));
        Some(crate::text::strip_dots(crate::text::trim(line.skip(i + 7))))
    } else {
        None
    }
}

/// The name that the first of `lines` with a name gives.
pub open spec fn first_nslookup_line(lines: Seq<Seq<char>>) -> Option<Seq<char>>
    decreases lines.len(),
{
    if lines.len() == 0 {
        None
    } else if nslookup_line(lines[0]) is Some {
        nslookup_line(lines[0])
    } else {
        first_nslookup_line(lines.drop_first())
    }
}

/// The name in the output of `nslookup`: that of the first line that gives one.
pub open spec fn nslookup_name(output: Seq<char>) -> Option<Seq<char>> {
    first_nslookup_line(crate::text::pieces(output, Separator::LineFeed))
}

/// Reads the output of `nslookup`.
pub fn hostname_from_nslookup(output: &str) -> (r: Option<String>)
    ensures
        r is Some == nslookup_name(output@) is Some,
        r matches Some(name) ==> Some(name@) == nslookup_name(output@),
{
    let lines = split(&chars_of(output), Separator::LineFeed);
    let label = chars_of("name = ");
    let ghost all = crate::text::pieces(output@, Separator::LineFeed);
    let mut i: usize = 0;
    proof {
        assert(all.skip(0) == all);
        assert(all.len() == lines@.len());
    }
    while i < lines.len()
        invariant
            i <= lines@.len(),
            all == crate::text::char_lists(lines@),
            all.len() == lines@.len(),
            label@ == "name = "@,
            first_nslookup_line(all) == first_nslookup_line(all.skip(i as int)),
            all == crate::text::pieces(output@, Separator::LineFeed),
        decreases lines@.len() - i,
    {
        let line = &lines[i];
        proof {
            assert(all[i as int] == line@);
            assert(all.skip(i as int)[0] == all[i as int]);
            assert(all.skip(i as int).drop_first() == all.skip(i + 1));
        }
        match find(line, &label) {
            Some(at) => {
                proof {
                    reveal_strlit("name = ");
                    let j = choose|j: int|
                        crate::text::first_occurrence(line@, "name = "@, Some(j));
                    assert(j == at) by {
                        assert(crate::text::occurs_at(line@, "name = "@, at as int));
                        assert(crate::text::occurs_at(line@, "name = "@, j));
                    }
                    assert(label@.len() == 7);
                    assert(at + 7 <= line.len());
                }
                return Some(trimmed_name(line, at + 7));
            },
            None => {},
        }
        i = i + 1;
    }
    None
}

/// What is known of a host's name after `dig` was asked.
#[derive(Debug, PartialEq, Eq)]
pub enum Lookup {
    /// This is the name, and there is nothing left to ask.
    Found(String),
    /// `nslookup` is to be asked.
    AskNslookup,
}

/// What the output of a command is as text; `None` where it could not be run.
pub open spec fn output_text(output: Option<Seq<u8>>) -> Option<Seq<char>> {
    match output {
        Some(bytes) => Some(crate::text::utf8_lossy(bytes)),
        None => None,
    }
}

/// The bytes of an output.
pub open spec fn output_bytes(output: Option<Vec<u8>>) -> Option<Seq<u8>> {
    match output {
        Some(v) => Some(v@),
        None => None,
    }
}

/// The name that `dig` gives, `None` where it could not be run or gives none.
pub open spec fn dig_result(output: Option<Seq<char>>) -> Option<Seq<char>> {
    match output {
        Some(text) => dig_name(text),
        None => None,
    }
}

/// The name that `nslookup` gives; empty where it could not be run or gives none.
pub open spec fn nslookup_result(output: Option<Seq<char>>) -> Seq<char> {
    match output {
        Some(text) => match nslookup_name(text) {
            Some(name) => name,
            None => Seq::empty(),
        },
        None => Seq::empty(),
    }
}

/// The name of a host: the one that `dig` gives, else the one that `nslookup` gives, else the
/// empty text.
pub open spec fn resolved_name(dig: Option<Seq<char>>, nslookup: Option<Seq<char>>) -> Seq<char> {
    match dig_result(dig) {
        Some(name) => name,
        None => nslookup_result(nslookup),
    }
}

/// Goes on with `dig`'s output, `None` where `dig` could not be run.
pub fn after_dig(output: Option<Vec<u8>>) -> (next: Lookup)
    ensures
        next is Found == dig_result(output_text(output_bytes(output))) is Some,
        next matches Lookup::Found(name) ==> forall|nslookup: Option<Seq<char>>|
            name@ == #[trigger] resolved_name(output_text(output_bytes(output)), nslookup),
        next is AskNslookup ==> forall|nslookup: Option<Seq<char>>|
            nslookup_result(nslookup) == #[trigger] resolved_name(
                output_text(output_bytes(output)),
                nslookup,
            ),
        output matches Some(bytes) ==> crate::text::decodes_valid(bytes@),
{
    match output {
        Some(bytes) => match hostname_from_dig(decode_lossy(bytes.as_slice()).as_str()) {
            Some(name) => Lookup::Found(name),
            None => Lookup::AskNslookup,
        },
        None => Lookup::AskNslookup,
    }
}

/// The host's name by `nslookup`'s output, `None` where `nslookup` could not be run.
pub fn after_nslookup(output: Option<Vec<u8>>) -> (name: String)
    ensures
        name@ == nslookup_result(output_text(output_bytes(output))),
        output matches Some(bytes) ==> crate::text::decodes_valid(bytes@),
{
    match output {
        Some(bytes) => match hostname_from_nslookup(decode_lossy(bytes.as_slice()).as_str()) {
            Some(name) => name,
            None => String::new(),
        },
        None => String::new(),
    }
}

/// Whether `c` can stand in a hardware address.
pub open spec fn in_mac(c: char) -> bool {
    '0' <= c <= '9' || 'a' <= c <= 'f' || 'A' <= c <= 'F' || c == ':' || c == '-'
}

/// Whether `word` looks like a hardware address: at least eleven characters, all of them
/// hexadecimal digits, colons or hyphens, with a colon or a hyphen among them.
pub open spec fn looks_like_mac(word: Seq<char>) -> bool {
    &&& word.len() >= 11
    &&& exists|i: int| 0 <= i < word.len() && (#[trigger] word[i] == ':' || word[i] == '-')
    &&& forall|i: int| 0 <= i < word.len() ==> in_mac(#[trigger] word[i])
}

/// `word` with colons in the place of hyphens.
pub open spec fn with_colons(word: Seq<char>) -> Seq<char> {
    word.map_values(
        |c: char|
            if c == '-' {
                ':'
            } else {
                c
            },
    )
}

/// The first of `words` that looks like a hardware address, with colons.
pub open spec fn first_mac(words: Seq<Seq<char>>) -> Option<Seq<char>>
    decreases words.len(),
{
    if words.len() == 0 {
        None
    } else if looks_like_mac(words[0]) {
        Some(with_colons(words[0]))
    } else {
        first_mac(words.drop_first())
    }
}

/// The hardware address in the output of `arp`; empty where there is none.
pub open spec fn arp_mac(output: Seq<char>) -> Seq<char> {
    match first_mac(crate::text::pieces(output, Separator::White)) {
        Some(mac) => mac,
        None => Seq::empty(),
    }
}

fn is_mac(word: &Vec<char>) -> (b: bool)
    ensures
        b == looks_like_mac(word@),
{
    if word.len() < 11 {
        return false;
    }
    let mut marked = false;
    let mut i: usize = 0;
    while i < word.len()
        invariant
            i <= word@.len(),
            marked == exists|k: int| 0 <= k < i && (#[trigger] word@[k] == ':' || word@[k] == '-'),
            forall|k: int| 0 <= k < i ==> in_mac(#[trigger] word@[k]),
        decreases word@.len() - i,
    {
        let c = word[i];
        if c == ':' || c == '-' {
            marked = true;
        } else if !(('0' <= c && c <= '9') || ('a' <= c && c <= 'f') || ('A' <= c && c <= 'F')) {
            proof {
                assert(!in_mac(word@[i as int]));
            }
            return false;
        }
        i = i + 1;
    }
    marked
}

/// The hardware address that the output of `arp` names.
pub fn mac_from_arp(output: &str) -> (mac: String)
    ensures
        mac@ == arp_mac(output@),
{
    let words = split(&chars_of(output), Separator::White);
    let ghost all = crate::text::pieces(output@, Separator::White);
    let mut i: usize = 0;
    proof {
        assert(all.skip(0) == all);
        assert(all.len() == words@.len());
    }
    while i < words.len()
        invariant
            i <= words@.len(),
            all == crate::text::char_lists(words@),
            all.len() == words@.len(),
            first_mac(all) == first_mac(all.skip(i as int)),
            all == crate::text::pieces(output@, Separator::White),
        decreases words@.len() - i,
    {
        let word = &words[i];
        proof {
            assert(all[i as int] == word@);
            assert(all.skip(i as int)[0] == all[i as int]);
            assert(all.skip(i as int).drop_first() == all.skip(i + 1));
        }
        if is_mac(word) {
            let mut mac = String::new();
            let mut k: usize = 0;
            while k < word.len()
                invariant
                    k <= word@.len(),
                    mac@ == with_colons(word@).take(k as int),
                decreases word@.len() - k,
            {
                mac.push(
                    if word[k] == '-' {
                        ':'
                    } else {
                        word[k]
                    },
                );
                k = k + 1;
                proof {
                    assert(mac@ =~= with_colons(word@).take(k as int));
                }
            }
            proof {
                assert(with_colons(word@).take(k as int) == with_colons(word@));
            }
            return mac;
        }
        i = i + 1;
    }
    String::new()
}

/// The hardware address that the output of `arp` names; empty where it could not be run or names
/// none.
pub fn get_mac(output: Option<Vec<u8>>) -> (mac: String)
    ensures
        mac@ == match output_text(output_bytes(output)) {
            Some(text) => arp_mac(text),
            None => Seq::empty(),
        },
        output matches Some(bytes) ==> crate::text::decodes_valid(bytes@),
{
    match output {
        Some(bytes) => mac_from_arp(decode_lossy(bytes.as_slice()).as_str()),
        None => String::new(),
    }
}

proof fn lemma_first_mac(words: Seq<Seq<char>>)
    ensures
        first_mac(words) matches Some(mac) ==> exists|w: Seq<char>|
            #[trigger] looks_like_mac(w) && mac == with_colons(w),
    decreases words.len(),
{
    if words.len() > 0 && !looks_like_mac(words[0]) {
        lemma_first_mac(words.drop_first());
    }
}

/// A hardware address that was read from the output of `arp` is empty, or has at least eleven
/// characters: hexadecimal digits and at least one colon, and no hyphen.
pub proof fn law_mac_is_in_colon_form(output: Seq<char>)
    ensures
        ({
            let mac = arp_mac(output);
            mac.len() > 0 ==> {
                &&& mac.len() >= 11
                &&& mac.contains(':')
                &&& forall|i: int| 0 <= i < mac.len() ==> in_mac(#[trigger] mac[i]) && mac[i] != '-'
            }
        }),
{
    let mac = arp_mac(output);
    lemma_first_mac(crate::text::pieces(output, Separator::White));
    if mac.len() > 0 {
        let w = choose|w: Seq<char>| #[trigger] looks_like_mac(w) && mac == with_colons(w);
        let i = choose|i: int| 0 <= i < w.len() && (#[trigger] w[i] == ':' || w[i] == '-');
        assert(mac[i] == ':');
        assert forall|j: int| 0 <= j < mac.len() implies in_mac(#[trigger] mac[j]) && mac[j] != '-' by {
            assert(in_mac(w[j]));
        }
    }
}

proof fn lemma_no_final_dot(s: Seq<char>)
    ensures
        crate::text::strip_dots(s).len() > 0 ==> crate::text::strip_dots(s).last() != '.',
    decreases s.len(),
{
    if s.len() > 0 && s.last() == '.' {
        lemma_no_final_dot(s.drop_last());
    }
}

proof fn lemma_first_dig_line(lines: Seq<Seq<char>>)
    ensures
        first_dig_line(lines) matches Some(name) ==> name.len() > 0 && name.last() != '.',
    decreases lines.len(),
{
    if lines.len() > 0 {
        lemma_no_final_dot(crate::text::trim(lines[0]));
        lemma_first_dig_line(lines.drop_first());
    }
}

proof fn lemma_first_nslookup_line(lines: Seq<Seq<char>>)
    ensures
        first_nslookup_line(lines) matches Some(name) ==> name.len() > 0 ==> name.last() != '.',
    decreases lines.len(),
{
    if lines.len() > 0 {
        let i = choose|i: int|
            crate::text::first_occurrence(lines[0], "name = "@, Some(i));
        lemma_no_final_dot(crate::text::trim(lines[0].skip(i + 7)));
        lemma_first_nslookup_line(lines.drop_first());
    }
}

/// The name of a host never ends with a full stop.
pub proof fn law_names_have_no_final_dot(dig: Option<Seq<char>>, nslookup: Option<Seq<char>>)
    ensures
        ({
            let name = resolved_name(dig, nslookup);
            name.len() > 0 ==> name.last() != '.'
        }),
{
    if let Some(text) = dig {
        lemma_first_dig_line(crate::text::pieces(text, Separator::LineFeed));
    }
    if let Some(text) = nslookup {
        lemma_first_nslookup_line(crate::text::pieces(text, Separator::LineFeed));
    }
}

/// Whether `s` has no line feed in it.
pub open spec fn one_line(s: Seq<char>) -> bool {
    forall|i: int| 0 <= i < s.len() ==> #[trigger] s[i] != '\n'
}

/// Whether `s` consists of white space.
pub open spec fn blank(s: Seq<char>) -> bool {
    forall|i: int| 0 <= i < s.len() ==> crate::text::is_white(#[trigger] s[i])
}

/// Whether `s` consists of full stops.
pub open spec fn all_dots(s: Seq<char>) -> bool {
    forall|i: int| 0 <= i < s.len() ==> #[trigger] s[i] == '.'
}

/// Whether `name` can stand between white space and the `dots` behind it as the name of a line: it
/// neither starts with white space nor ends with a full stop, nor with white space where no full stop
/// follows.
pub open spec fn framed(name: Seq<char>, dots: Seq<char>) -> bool {
    &&& name.len() > 0 ==> !crate::text::is_white(name[0]) && name.last() != '.'
    &&& name.len() > 0 && dots.len() == 0 ==> !crate::text::is_white(name.last())
}

/// A line of `dig`'s output gives the name that stands in it, character by character, between white
/// space in front and full stops and white space behind; it gives none where there is no name or the
/// name starts with two semicolons.
pub proof fn law_dig_line_gives_its_name(
    head: Seq<char>,
    name: Seq<char>,
    dots: Seq<char>,
    tail: Seq<char>,
)
    requires
        blank(head),
        blank(tail),
        all_dots(dots),
        framed(name, dots),
    ensures
        dig_line(head + name + dots + tail) == if name.len() == 0 || (name.len() >= 2 && name[0] == ';'
            && name[1] == ';') {
            None
        } else {
            Some(name)
        },
{
    crate::text::law_name_in_a_text(head, name, dots, tail);
    crate::text::law_occurrence(name, ";;"@, 0);
    reveal_strlit(";;");
    if name.len() >= 2 {
        assert(name[0int + 0int] == name[0]);
        assert(name[0int + 1int] == name[1]);
    }
}

/// The name in `dig`'s output is that of the first line if that gives one, and otherwise that of the
/// lines behind it.
pub proof fn law_dig_reads_line_by_line(line: Seq<char>, rest: Seq<char>)
    requires
        one_line(line),
    ensures
        dig_name(line) == dig_line(line),
        dig_name(line + seq!['\n'] + rest) == if dig_line(line) is Some {
            dig_line(line)
        } else {
            dig_name(rest)
        },
{
    let sep = Separator::LineFeed;
    crate::text::law_pieces_from_the_front(line, '\n', rest, sep);
    let lines = seq![line] + crate::text::pieces(rest, sep);
    assert(lines.drop_first() =~= crate::text::pieces(rest, sep));
    assert(seq![line].drop_first() =~= Seq::empty());
    reveal_with_fuel(first_dig_line, 2);
}

/// `dig`'s output of a name, with or without full stops behind it, gives exactly that name, whatever
/// lines follow, and whatever empty lines and comments stand in front of it.
pub proof fn law_dig_gives_the_name_back(
    skipped: Seq<Seq<char>>,
    name: Seq<char>,
    dots: Seq<char>,
    rest: Seq<char>,
)
    requires
        forall|i: int|
            0 <= i < skipped.len() ==> one_line(#[trigger] skipped[i]) && (blank(skipped[i]) || (
            skipped[i].len() >= 2 && skipped[i][0] == ';' && skipped[i][1] == ';')),
        one_line(name),
        name.len() > 0,
        !crate::text::is_white(name[0]),
        !crate::text::is_white(name.last()),
        name.last() != '.',
        !(name.len() >= 2 && name[0] == ';' && name[1] == ';'),
        all_dots(dots),
    ensures
        dig_name(lines_text(skipped) + name + dots + seq!['\n'] + rest) == Some(name),
    decreases skipped.len(),
{
    let shown = name + dots;
    let here = shown + seq!['\n'] + rest;
    if skipped.len() == 0 {
        assert forall|i: int| 0 <= i < shown.len() implies #[trigger] shown[i] != '\n' by {
            if i < name.len() {
                assert(shown[i] == name[i]);
            } else {
                assert(shown[i] == dots[i - name.len()]);
            }
        }
        law_dig_reads_line_by_line(shown, rest);
        law_dig_line_gives_its_name(Seq::empty(), name, dots, Seq::empty());
        assert(Seq::<char>::empty() + name + dots + Seq::<char>::empty() =~= shown);
        assert(lines_text(skipped) + name + dots + seq!['\n'] + rest =~= here);
    } else {
        let line = skipped[0];
        let others = skipped.drop_first();
        assert forall|i: int| 0 <= i < others.len() implies one_line(#[trigger] others[i]) && (blank(
            others[i],
        ) || (others[i].len() >= 2 && others[i][0] == ';' && others[i][1] == ';')) by {
            assert(one_line(skipped[i + 1]));
        }
        law_dig_gives_the_name_back(others, name, dots, rest);
        let behind = lines_text(others) + name + dots + seq!['\n'] + rest;
        assert(one_line(line));
        law_dig_reads_line_by_line(line, behind);
        lemma_skipped_line(line);
        assert(lines_text(skipped) + name + dots + seq!['\n'] + rest =~= line + seq!['\n'] + behind);
    }
}

/// The text of some lines, each with a line feed behind it.
pub open spec fn lines_text(lines: Seq<Seq<char>>) -> Seq<char>
    decreases lines.len(),
{
    if lines.len() == 0 {
        Seq::empty()
    } else {
        lines[0] + seq!['\n'] + lines_text(lines.drop_first())
    }
}

proof fn lemma_trim_end_bounds(s: Seq<char>)
    ensures
        crate::text::trim_end(s).len() <= s.len(),
        s.take(crate::text::trim_end(s).len() as int) == crate::text::trim_end(s),
        blank(s.skip(crate::text::trim_end(s).len() as int)),
        crate::text::trim_end(s).len() > 0 ==> !crate::text::is_white(crate::text::trim_end(s).last()),
    decreases s.len(),
{
    let t = crate::text::trim_end(s);
    if s.len() > 0 && crate::text::is_white(s.last()) {
        lemma_trim_end_bounds(s.drop_last());
        assert(s.take(t.len() as int) =~= s.drop_last().take(t.len() as int));
        let w = s.skip(t.len() as int);
        let v = s.drop_last().skip(t.len() as int);
        assert forall|i: int| 0 <= i < w.len() implies crate::text::is_white(#[trigger] w[i]) by {
            if i < v.len() {
                assert(w[i] == v[i]);
            } else {
                assert(w[i] == s.last());
            }
        }
    } else {
        assert(s.take(s.len() as int) =~= s);
    }
}

proof fn lemma_trim_start_bounds(s: Seq<char>)
    ensures
        crate::text::trim_start(s).len() <= s.len(),
        s.skip(s.len() - crate::text::trim_start(s).len()) == crate::text::trim_start(s),
        blank(s.take(s.len() - crate::text::trim_start(s).len())),
        crate::text::trim_start(s).len() > 0 ==> !crate::text::is_white(crate::text::trim_start(s)[0]),
    decreases s.len(),
{
    let t = crate::text::trim_start(s);
    if s.len() > 0 && crate::text::is_white(s[0]) {
        let u = s.drop_first();
        lemma_trim_start_bounds(u);
        assert(s.skip(s.len() - t.len()) =~= u.skip(u.len() - t.len()));
        let w = s.take(s.len() - t.len());
        let v = u.take(u.len() - t.len());
        assert forall|i: int| 0 <= i < w.len() implies crate::text::is_white(#[trigger] w[i]) by {
            if i > 0 {
                assert(w[i] == v[i - 1]);
            }
        }
    } else {
        assert(s.skip(0) =~= s);
    }
}

proof fn lemma_strip_dots_bounds(s: Seq<char>)
    ensures
        crate::text::strip_dots(s).len() <= s.len(),
        s.take(crate::text::strip_dots(s).len() as int) == crate::text::strip_dots(s),
        all_dots(s.skip(crate::text::strip_dots(s).len() as int)),
    decreases s.len(),
{
    let t = crate::text::strip_dots(s);
    if s.len() > 0 && s.last() == '.' {
        lemma_strip_dots_bounds(s.drop_last());
        assert(s.take(t.len() as int) =~= s.drop_last().take(t.len() as int));
        let w = s.skip(t.len() as int);
        let v = s.drop_last().skip(t.len() as int);
        assert forall|i: int| 0 <= i < w.len() implies #[trigger] w[i] == '.' by {
            if i < v.len() {
                assert(w[i] == v[i]);
            } else {
                assert(w[i] == s.last());
            }
        }
    } else {
        assert(s.take(s.len() as int) =~= s);
    }
}

/// Every text is white space, a name, full stops and white space, in this order.
proof fn lemma_frame(s: Seq<char>) -> (parts: (Seq<char>, Seq<char>, Seq<char>, Seq<char>))
    ensures
        s == parts.0 + parts.1 + parts.2 + parts.3,
        blank(parts.0),
        blank(parts.3),
        all_dots(parts.2),
        framed(parts.1, parts.2),
{
    let t = crate::text::trim_start(s);
    let u = crate::text::trim_end(t);
    let name = crate::text::strip_dots(u);
    lemma_trim_start_bounds(s);
    lemma_trim_end_bounds(t);
    lemma_strip_dots_bounds(u);
    lemma_no_final_dot(u);
    let head = s.take(s.len() - t.len());
    let tail = t.skip(u.len() as int);
    let dots = u.skip(name.len() as int);
    assert(s =~= head + t);
    assert(t =~= u + tail);
    assert(u =~= name + dots);
    assert(s =~= head + name + dots + tail);
    if name.len() > 0 {
        assert(name[0] == u[0]);
        assert(u[0] == t[0]);
    }
    if dots.len() == 0 {
        assert(u =~= name);
    }
    (head, name, dots, tail)
}

proof fn lemma_skipped_line(line: Seq<char>)
    requires
        blank(line) || (line.len() >= 2 && line[0] == ';' && line[1] == ';'),
    ensures
        dig_line(line) is None,
{
    let (head, name, dots, tail) = lemma_frame(line);
    law_dig_line_gives_its_name(head, name, dots, tail);
    if blank(line) {
        if name.len() > 0 {
            assert(line[head.len() as int] == name[0]);
        }
    } else {
        if head.len() > 0 {
            assert(head[0] == line[0]);
        }
        if name.len() == 1 {
            if dots.len() > 0 {
                assert(line[1] == dots[0]);
            } else {
                assert(line[1] == tail[0]);
            }
        } else if name.len() == 0 {
            if dots.len() > 0 {
                assert(line[0] == dots[0]);
            } else {
                assert(line[0] == tail[0]);
            }
        } else {
            assert(line[0] == name[0]);
            assert(line[1] == name[1]);
        }
    }
}

proof fn lemma_first_dig_line_is_a_part(lines: Seq<Seq<char>>) -> (found: (
    int,
    Seq<char>,
    Seq<char>,
    Seq<char>,
))
    requires
        first_dig_line(lines) is Some,
    ensures
        0 <= found.0 < lines.len(),
        lines[found.0] == found.1 + first_dig_line(lines)->0 + found.2 + found.3,
        blank(found.1),
        all_dots(found.2),
        blank(found.3),
        framed(first_dig_line(lines)->0, found.2),
        forall|i: int| 0 <= i < found.0 ==> dig_line(#[trigger] lines[i]) is None,
    decreases lines.len(),
{
    if dig_line(lines[0]) is Some {
        let (head, name, dots, tail) = lemma_frame(lines[0]);
        law_dig_line_gives_its_name(head, name, dots, tail);
        (0, head, dots, tail)
    } else {
        let rest = lines.drop_first();
        let (k, head, dots, tail) = lemma_first_dig_line_is_a_part(rest);
        assert forall|i: int| 0 <= i < k + 1 implies dig_line(#[trigger] lines[i]) is None by {
            if i > 0 {
                assert(dig_line(rest[i - 1]) is None);
            }
        }
        (k + 1, head, dots, tail)
    }
}

/// The name that is read from `dig`'s output is a stretch of one of its lines, with only white space
/// before it and only full stops and white space behind it. It is not empty, and starts with no two
/// semicolons.
pub proof fn law_dig_name_is_part_of_a_line(output: Seq<char>)
    requires
        dig_name(output) is Some,
    ensures
        ({
            let name = dig_name(output)->0;
            let lines = crate::text::pieces(output, Separator::LineFeed);
            &&& name.len() > 0
            &&& !(name.len() >= 2 && name[0] == ';' && name[1] == ';')
            &&& exists|k: int, head: Seq<char>, dots: Seq<char>, tail: Seq<char>|
                0 <= k < lines.len() && blank(head) && all_dots(dots) && blank(tail) && framed(
                    name,
                    dots,
                ) && #[trigger] lines[k] == #[trigger] (head + name + dots + tail)
        }),
{
    let name = dig_name(output)->0;
    let lines = crate::text::pieces(output, Separator::LineFeed);
    let (k, head, dots, tail) = lemma_first_dig_line_is_a_part(lines);
    assert(lines[k] == head + name + dots + tail);
    lemma_named_dig_line(lines);
}

proof fn lemma_named_dig_line(lines: Seq<Seq<char>>)
    ensures
        first_dig_line(lines) matches Some(name) ==> name.len() > 0 && !(name.len() >= 2 && name[0]
            == ';' && name[1] == ';'),
    decreases lines.len(),
{
    if lines.len() > 0 {
        let (head, name, dots, tail) = lemma_frame(lines[0]);
        law_dig_line_gives_its_name(head, name, dots, tail);
        lemma_named_dig_line(lines.drop_first());
    }
}

/// A line of `nslookup`'s output gives what follows the first `name = ` in it, character by character,
/// without white space around it and full stops behind it; a line without `name = ` gives none.
pub proof fn law_nslookup_line_gives_its_name(
    before: Seq<char>,
    head: Seq<char>,
    name: Seq<char>,
    dots: Seq<char>,
    tail: Seq<char>,
    other: Seq<char>,
)
    requires
        blank(head),
        blank(tail),
        all_dots(dots),
        framed(name, dots),
        forall|i: int|
            0 <= i < before.len() ==> !#[trigger] crate::text::occurs_at(
                before + "name = "@ + (head + name + dots + tail),
                "name = "@,
                i,
            ),
        forall|i: int| !#[trigger] crate::text::occurs_at(other, "name = "@, i),
    ensures
        nslookup_line(before + "name = "@ + (head + name + dots + tail)) == Some(name),
        nslookup_line(other) is None,
{
    reveal_strlit("name = ");
    let key = "name = "@;
    let behind = head + name + dots + tail;
    let line = before + key + behind;
    let at = before.len() as int;
    assert(line.subrange(at, at + key.len()) =~= key);
    assert(crate::text::occurs_at(line, key, at));
    assert(crate::text::first_occurrence(line, key, Some(at)));
    let i = choose|i: int| crate::text::first_occurrence(line, key, Some(i));
    assert(i == at) by {
        if i < at {
            assert(!crate::text::occurs_at(line, key, i));
        } else if i > at {
            assert(!crate::text::occurs_at(line, key, at));
        }
    }
    assert(line.skip(at + 7) =~= behind);
    crate::text::law_name_in_a_text(head, name, dots, tail);
}

/// The name in `nslookup`'s output is that of the first line if that gives one, and otherwise that of
/// the lines behind it.
pub proof fn law_nslookup_reads_line_by_line(line: Seq<char>, rest: Seq<char>)
    requires
        one_line(line),
    ensures
        nslookup_name(line) == nslookup_line(line),
        nslookup_name(line + seq!['\n'] + rest) == if nslookup_line(line) is Some {
            nslookup_line(line)
        } else {
            nslookup_name(rest)
        },
{
    let sep = Separator::LineFeed;
    crate::text::law_pieces_from_the_front(line, '\n', rest, sep);
    let lines = seq![line] + crate::text::pieces(rest, sep);
    assert(lines.drop_first() =~= crate::text::pieces(rest, sep));
    assert(seq![line].drop_first() =~= Seq::empty());
    reveal_with_fuel(first_nslookup_line, 2);
}

/// The name of a host is the one in `dig`'s output; where there is none, or `dig` could not be run, it is
/// the one in `nslookup`'s output; and where there is none either, it is empty.
pub proof fn law_dig_is_preferred(dig: Seq<char>, nslookup: Seq<char>)
    ensures
        dig_name(dig) matches Some(name) ==> resolved_name(Some(dig), Some(nslookup)) == name
            && resolved_name(Some(dig), None) == name,
        dig_name(dig) is None ==> resolved_name(Some(dig), Some(nslookup)) == resolved_name(
            None,
            Some(nslookup),
        ) && resolved_name(Some(dig), None) == Seq::<char>::empty(),
        nslookup_name(nslookup) matches Some(name) ==> resolved_name(None, Some(nslookup)) == name,
        nslookup_name(nslookup) is None ==> resolved_name(None, Some(nslookup)) == Seq::<char>::empty(),
        resolved_name(None, None) == Seq::<char>::empty(),
{
}

/// Whether `c` is one of the sixteen hexadecimal digits, in small or capital letters.
pub open spec fn hexadecimal(c: char) -> bool {
    '0' <= c <= '9' || 'a' <= c <= 'f' || 'A' <= c <= 'F'
}

/// Whether `s` has a colon or a hyphen in it.
pub open spec fn has_mark(s: Seq<char>) -> bool {
    s.contains(':') || s.contains('-')
}

/// Whether a word without white space is taken for a hardware address.
pub open spec fn mac_word(word: Seq<char>) -> bool {
    &&& word.len() >= 11
    &&& has_mark(word)
    &&& forall|i: int|
        0 <= i < word.len() ==> hexadecimal(#[trigger] word[i]) || word[i] == ':' || word[i] == '-'
}

proof fn lemma_mac_word(word: Seq<char>)
    ensures
        looks_like_mac(word) <==> mac_word(word),
{
    if looks_like_mac(word) {
        let i = choose|i: int| 0 <= i < word.len() && (#[trigger] word[i] == ':' || word[i] == '-');
        assert(word.contains(word[i]));
        assert forall|i: int| 0 <= i < word.len() implies hexadecimal(#[trigger] word[i]) || word[i]
            == ':' || word[i] == '-' by {
            assert(in_mac(word[i]));
        }
    }
    if mac_word(word) {
        if word.contains(':') {
            let i = choose|i: int| 0 <= i < word.len() && word[i] == ':';
            assert(word[i] == ':');
        } else {
            let i = choose|i: int| 0 <= i < word.len() && word[i] == '-';
            assert(word[i] == '-');
        }
        assert forall|i: int| 0 <= i < word.len() implies in_mac(#[trigger] word[i]) by {
            assert(hexadecimal(word[i]) || word[i] == ':' || word[i] == '-');
        }
    }
}

/// Whether `s` has no white space in it.
pub open spec fn one_word(s: Seq<char>) -> bool {
    forall|i: int| 0 <= i < s.len() ==> !crate::text::is_white(#[trigger] s[i])
}

/// The hardware address in `arp`'s output is its first word, with colons in the place of hyphens, if that
/// word has at least eleven characters, all of them hexadecimal digits, colons and hyphens, with a colon
/// or a hyphen among them; otherwise it is that in the words behind. Where no word is left it is empty.
pub proof fn law_arp_reads_word_by_word(word: Seq<char>, c: char, rest: Seq<char>)
    requires
        one_word(word),
        crate::text::is_white(c),
    ensures
        mac_word(word) ==> arp_mac(word + seq![c] + rest) == arp_mac(word) && arp_mac(word).len()
            == word.len() && forall|i: int|
            0 <= i < word.len() ==> #[trigger] arp_mac(word)[i] == (if word[i] == '-' {
                ':'
            } else {
                word[i]
            }),
        !mac_word(word) ==> arp_mac(word + seq![c] + rest) == arp_mac(rest) && arp_mac(word)
            == Seq::<char>::empty(),
{
    let sep = Separator::White;
    crate::text::law_pieces_from_the_front(word, c, rest, sep);
    lemma_mac_word(word);
    let words = seq![word] + crate::text::pieces(rest, sep);
    assert(words.drop_first() =~= crate::text::pieces(rest, sep));
    assert(seq![word].drop_first() =~= Seq::empty());
    reveal_with_fuel(first_mac, 2);
}

/// Words without colons and hyphens are passed over.
proof fn lemma_arp_skips(head: Seq<char>, c: char, rest: Seq<char>)
    requires
        !has_mark(head),
        crate::text::is_white(c),
    ensures
        arp_mac(head + seq![c] + rest) == arp_mac(rest),
    decreases head.len(),
{
    if one_word(head) {
        law_arp_reads_word_by_word(head, c, rest);
    } else {
        let k = lemma_first_white(head);
        let word = head.take(k);
        let others = head.skip(k + 1);
        assert(head =~= word + seq![head[k]] + others);
        let behind = others + seq![c] + rest;
        assert(head + seq![c] + rest =~= word + seq![head[k]] + behind);
        assert(!has_mark(word)) by {
            if word.contains(':') {
                let i = choose|i: int| 0 <= i < word.len() && word[i] == ':';
                assert(head[i] == ':');
            }
            if word.contains('-') {
                let i = choose|i: int| 0 <= i < word.len() && word[i] == '-';
                assert(head[i] == '-');
            }
        }
        assert(!has_mark(others)) by {
            if others.contains(':') {
                let i = choose|i: int| 0 <= i < others.len() && others[i] == ':';
                assert(head[i + k + 1] == ':');
            }
            if others.contains('-') {
                let i = choose|i: int| 0 <= i < others.len() && others[i] == '-';
                assert(head[i + k + 1] == '-');
            }
        }
        law_arp_reads_word_by_word(word, head[k], behind);
        lemma_arp_skips(others, c, rest);
    }
}

proof fn lemma_first_white(s: Seq<char>) -> (k: int)
    requires
        !one_word(s),
    ensures
        0 <= k < s.len(),
        crate::text::is_white(s[k]),
        one_word(s.take(k)),
    decreases s.len(),
{
    let front = s.drop_last();
    if one_word(front) {
        let i = choose|i: int| 0 <= i < s.len() && crate::text::is_white(#[trigger] s[i]);
        if i < front.len() {
            assert(!crate::text::is_white(front[i]));
        }
        assert(s.take(s.len() - 1) =~= front);
        s.len() - 1
    } else {
        let k = lemma_first_white(front);
        assert(s.take(k) =~= front.take(k));
        k
    }
}

/// The notation of any hardware address, and any other word of six pairs of hexadecimal digits with colons
/// between them, is read back unchanged from `arp`'s output, behind words without colons and hyphens and
/// whatever follows it.
pub proof fn law_arp_gives_the_address_back(
    head: Seq<char>,
    before: char,
    word: Seq<char>,
    after: char,
    rest: Seq<char>,
    mac: crate::action::MacAddr,
)
    requires
        !has_mark(head),
        crate::text::is_white(before),
        crate::text::is_white(after),
        word.len() == 17,
        forall|i: int|
            0 <= i < 17 ==> if i % 3 == 2 {
                #[trigger] word[i] == ':'
            } else {
                hexadecimal(word[i])
            },
    ensures
        arp_mac(head + seq![before] + (word + seq![after] + rest)) == word,
        arp_mac(head + seq![before] + word) == word,
        arp_mac(head + seq![before] + (crate::vendor::mac_text(mac) + seq![after] + rest))
            == crate::vendor::mac_text(mac),
{
    lemma_arp_skips(head, before, word + seq![after] + rest);
    lemma_arp_skips(head, before, word);
    lemma_six_pairs(word, after, rest);
    let text = crate::vendor::mac_text(mac);
    lemma_arp_skips(head, before, text + seq![after] + rest);
    crate::vendor::law_mac_notation(mac);
    assert forall|i: int| 0 <= i < 17 implies if i % 3 == 2 {
        #[trigger] text[i] == ':'
    } else {
        hexadecimal(text[i])
    } by {
        assert(i == 0 || i == 1 || i == 2 || i == 3 || i == 4 || i == 5 || i == 6 || i == 7 || i == 8
            || i == 9 || i == 10 || i == 11 || i == 12 || i == 13 || i == 14 || i == 15 || i == 16);
    }
    lemma_six_pairs(text, after, rest);
}

proof fn lemma_six_pairs(word: Seq<char>, after: char, rest: Seq<char>)
    requires
        crate::text::is_white(after),
        word.len() == 17,
        forall|i: int|
            0 <= i < 17 ==> if i % 3 == 2 {
                #[trigger] word[i] == ':'
            } else {
                hexadecimal(word[i])
            },
    ensures
        arp_mac(word) == word,
        arp_mac(word + seq![after] + rest) == word,
{
    assert forall|i: int| 0 <= i < word.len() implies !crate::text::is_white(#[trigger] word[i]) by {
    }
    assert(word[2] == ':');
    assert(word.contains(':'));
    law_arp_reads_word_by_word(word, after, rest);
    assert(arp_mac(word) =~= word);
}

/// What is looked for in the output of a command is looked for in the text that its bytes are read as.
pub proof fn law_output_is_text(bytes: Vec<u8>)
    ensures
        output_text(output_bytes(Some(bytes))) == Some(crate::text::utf8_lossy(bytes@)),
        output_text(output_bytes(None)) is None,
{
}

/// What is found in the output of a command is what is found in its text; a command that could not be run
/// gives no name, and the texts of a list of arguments are those of its members.
pub proof fn law_results_of_commands(text: Seq<char>, args: Seq<String>, i: int)
    requires
        0 <= i < args.len(),
    ensures
        dig_result(Some(text)) == dig_name(text),
        dig_result(None) is None,
        nslookup_name(text) matches Some(name) ==> nslookup_result(Some(text)) == name,
        nslookup_name(text) is None ==> nslookup_result(Some(text)).len() == 0,
        nslookup_result(None).len() == 0,
        texts(args).len() == args.len(),
        texts(args)[i] == args[i]@,
{
}

/// `nslookup`'s output gives back the name behind the first `name = ` of a line, whatever lines without
/// `name = ` stand in front of it and whatever lines follow.
pub proof fn law_nslookup_gives_the_name_back(
    skipped: Seq<Seq<char>>,
    before: Seq<char>,
    name: Seq<char>,
    dots: Seq<char>,
    rest: Seq<char>,
)
    requires
        forall|i: int|
            0 <= i < skipped.len() ==> one_line(#[trigger] skipped[i]) && forall|j: int|
                !#[trigger] crate::text::occurs_at(skipped[i], "name = "@, j),
        one_line(before),
        forall|i: int|
            0 <= i < before.len() ==> !#[trigger] crate::text::occurs_at(
                before + "name = "@ + (name + dots),
                "name = "@,
                i,
            ),
        one_line(name),
        name.len() > 0,
        !crate::text::is_white(name[0]),
        !crate::text::is_white(name.last()),
        name.last() != '.',
        all_dots(dots),
    ensures
        nslookup_name(
            lines_text(skipped) + (before + "name = "@ + (name + dots)) + seq!['\n'] + rest,
        ) == Some(name),
    decreases skipped.len(),
{
    let line = before + "name = "@ + (name + dots);
    if skipped.len() == 0 {
        lemma_nslookup_line(before, name, dots);
        law_nslookup_reads_line_by_line(line, rest);
        assert(lines_text(skipped) + line + seq!['\n'] + rest =~= line + seq!['\n'] + rest);
    } else {
        let first = skipped[0];
        let others = skipped.drop_first();
        assert forall|i: int| 0 <= i < others.len() implies one_line(#[trigger] others[i]) && forall|j: int|
            !#[trigger] crate::text::occurs_at(others[i], "name = "@, j) by {
            assert(one_line(skipped[i + 1]));
        }
        law_nslookup_gives_the_name_back(others, before, name, dots, rest);
        let behind = lines_text(others) + line + seq!['\n'] + rest;
        assert(one_line(first));
        assert(nslookup_line(first) is None);
        law_nslookup_reads_line_by_line(first, behind);
        assert(lines_text(skipped) + line + seq!['\n'] + rest =~= first + seq!['\n'] + behind);
    }
}

proof fn lemma_nslookup_line(before: Seq<char>, name: Seq<char>, dots: Seq<char>)
    requires
        one_line(before),
        forall|i: int|
            0 <= i < before.len() ==> !#[trigger] crate::text::occurs_at(
                before + "name = "@ + (name + dots),
                "name = "@,
                i,
            ),
        one_line(name),
        name.len() > 0,
        !crate::text::is_white(name[0]),
        !crate::text::is_white(name.last()),
        name.last() != '.',
        all_dots(dots),
    ensures
        one_line(before + "name = "@ + (name + dots)),
        nslookup_line(before + "name = "@ + (name + dots)) == Some(name),
{
    let empty = Seq::<char>::empty();
    let line = before + "name = "@ + (name + dots);
    assert(empty + name + dots + empty =~= name + dots);
    assert forall|i: int| !#[trigger] crate::text::occurs_at(empty, "name = "@, i) by {
        reveal_strlit("name = ");
    }
    law_nslookup_line_gives_its_name(before, empty, name, dots, empty, empty);
    reveal_strlit("name = ");
    assert forall|i: int| 0 <= i < line.len() implies #[trigger] line[i] != '\n' by {
        let key = "name = "@;
        if i < before.len() {
            assert(line[i] == before[i]);
        } else if i < before.len() + key.len() {
            assert(line[i] == key[i - before.len()]);
        } else if i < before.len() + key.len() + name.len() {
            assert(line[i] == name[i - before.len() - key.len()]);
        } else {
            assert(line[i] == dots[i - before.len() - key.len() - name.len()]);
        }
    }
}

} // verus!
