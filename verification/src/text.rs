//! Text as sequences of characters: splitting, trimming, searching, ordering and numerals.
use vstd::prelude::*;

verus! {

/// `String::push` appends the character.
pub assume_specification[ String::push ](s: &mut String, c: char)
    ensures
        final(s)@ == old(s)@.push(c),
;

/// The characters of `s`, in order.
pub fn chars_of(s: &str) -> (v: Vec<char>)
    ensures
        v@ == s@,
{
    let mut v: Vec<char> = Vec::new();
    for c in it: s.chars()
        invariant
            v@ == s@.take(it.index() as int),
            it.seq() == s@,
    {
        v.push(c);
    }
    proof { assert(s@.take(s@.len() as int) == s@); }
    v
}

/// The text made of `v[from..to]`.
pub fn text_of(v: &Vec<char>, from: usize, to: usize) -> (s: String)
    requires
        from <= to <= v@.len(),
    ensures
        s@ == v@.subrange(from as int, to as int),
{
    let mut s = String::new();
    let mut i: usize = from;
    while i < to
        invariant
            from <= i <= to <= v@.len(),
            s@ == v@.subrange(from as int, i as int),
        decreases to - i,
    {
        s.push(v[i]);
        i = i + 1;
    }
    s
}

/// The decimal digit `d`.
pub open spec fn digit(d: nat) -> char {
    (d + 48) as char
}

/// `n` in decimal, without leading zeros.
pub open spec fn decimal(n: nat) -> Seq<char>
    decreases n,
{
    if n < 10 {
        seq![digit(n)]
    } else {
        decimal(n / 10).push(digit(n % 10))
    }
}

/// `n` in decimal.
pub fn decimal_text(n: u64) -> (s: String)
    ensures
        s@ == decimal(n as nat),
    decreases n,
{
    let d: u8 = (n % 10) as u8;
    let c: char = (d + 48) as char;
    let mut s = if n < 10 { String::new() } else { decimal_text(n / 10) };
    s.push(c);
    s
}


/// The digits of a decimal numeral are all digits.
pub proof fn lemma_decimal_digits(n: nat)
    ensures
        decimal(n).len() > 0,
        forall|i: int| 0 <= i < decimal(n).len() ==> '0' <= #[trigger] decimal(n)[i] <= '9',
    decreases n,
{
    if n >= 10 {
        lemma_decimal_digits(n / 10);
    }
}

/// `n` in decimal, with a minus sign in front where it is negative.
pub open spec fn signed_decimal(n: int) -> Seq<char> {
    if n < 0 {
        seq!['-'] + decimal((-n) as nat)
    } else {
        decimal(n as nat)
    }
}

/// `n` in decimal, with a minus sign in front where it is negative.
pub fn signed_decimal_text(n: i32) -> (s: String)
    ensures
        s@ == signed_decimal(n as int),
{
    if n < 0 {
        let mut s = String::new();
        s.push('-');
        let magnitude: u64 = (-(n as i64)) as u64;
        s.append(decimal_text(magnitude).as_str());
        s
    } else {
        decimal_text(n as u64)
    }
}

/// The characters with Unicode's `White_Space` property.
pub open spec fn is_white(c: char) -> bool {
    ||| '\u{9}' <= c <= '\u{d}'
    ||| c == ' '
    ||| c == '\u{85}'
    ||| c == '\u{a0}'
    ||| c == '\u{1680}'
    ||| '\u{2000}' <= c <= '\u{200a}'
    ||| c == '\u{2028}'
    ||| c == '\u{2029}'
    ||| c == '\u{202f}'
    ||| c == '\u{205f}'
    ||| c == '\u{3000}'
}

/// Whether `c` is white space.
pub fn is_whitespace(c: char) -> (b: bool)
    ensures
        b == is_white(c),
{
    ('\u{9}' <= c && c <= '\u{d}') || c == ' ' || c == '\u{85}' || c == '\u{a0}' || c == '\u{1680}'
        || ('\u{2000}' <= c && c <= '\u{200a}') || c == '\u{2028}' || c == '\u{2029}' || c
        == '\u{202f}' || c == '\u{205f}' || c == '\u{3000}'
}

/// What a text is cut at.
#[derive(Clone, Copy, PartialEq, Eq, Structural)]
pub enum Separator {
    /// Every line feed.
    LineFeed,
    /// Every white-space character.
    White,
    /// Every full stop.
    Dot,
}

impl Separator {
    /// Whether a text is cut at `c`.
    pub open spec fn cuts(self, c: char) -> bool {
        match self {
            Separator::LineFeed => c == '\n',
            Separator::White => is_white(c),
            Separator::Dot => c == '.',
        }
    }

    fn cuts_at(self, c: char) -> (b: bool)
        ensures
            b == self.cuts(c),
    {
        match self {
            Separator::LineFeed => c == '\n',
            Separator::White => is_whitespace(c),
            Separator::Dot => c == '.',
        }
    }
}

/// The stretches between the separators of `s`, the empty ones included.
pub open spec fn pieces(s: Seq<char>, sep: Separator) -> Seq<Seq<char>>
    decreases s.len(),
{
    if s.len() == 0 {
        seq![Seq::empty()]
    } else {
        let before = pieces(s.drop_last(), sep);
        if sep.cuts(s.last()) {
            before.push(Seq::empty())
        } else {
            before.drop_last().push(before.last().push(s.last()))
        }
    }
}

/// The views of a list of character lists.
pub open spec fn char_lists(v: Seq<Vec<char>>) -> Seq<Seq<char>> {
    v.map_values(|p: Vec<char>| p@)
}

/// Cuts `s` at every separator.
pub fn split(s: &Vec<char>, sep: Separator) -> (parts: Vec<Vec<char>>)
    ensures
        char_lists(parts@) == pieces(s@, sep),
{
    let mut parts: Vec<Vec<char>> = Vec::new();
    let mut current: Vec<char> = Vec::new();
    let mut i: usize = 0;
    proof {
        assert(s@.take(0) == Seq::<char>::empty());
        assert(char_lists(parts@).push(current@) =~= pieces(s@.take(0), sep));
    }
    while i < s.len()
        invariant
            i <= s@.len(),
            char_lists(parts@).push(current@) == pieces(s@.take(i as int), sep),
        decreases s@.len() - i,
    {
        let c = s[i];
        let ghost before = char_lists(parts@).push(current@);
        let ghost parts0 = parts@;
        let ghost current0 = current@;
        proof {
            assert(s@.take(i + 1).drop_last() == s@.take(i as int));
            assert(before.last() == current@);
            assert(before.drop_last() == char_lists(parts@));
        }
        if sep.cuts_at(c) {
            let mut done: Vec<char> = Vec::new();
            std::mem::swap(&mut done, &mut current);
            parts.push(done);
            proof {
                assert(char_lists(parts@) =~= char_lists(parts0).push(current0));
                assert(current@ =~= Seq::<char>::empty());
            }
        } else {
            current.push(c);
        }
        i = i + 1;
    }
    let ghost parts0 = parts@;
    let ghost current0 = current@;
    parts.push(current);
    proof {
        assert(s@.take(s@.len() as int) == s@);
        assert(char_lists(parts@) =~= char_lists(parts0).push(current0));
    }
    parts
}

/// A text always has at least one piece.
pub proof fn lemma_pieces_nonempty(s: Seq<char>, sep: Separator)
    ensures
        pieces(s, sep).len() > 0,
    decreases s.len(),
{
    if s.len() > 0 {
        lemma_pieces_nonempty(s.drop_last(), sep);
    }
}

/// Whether `s` has no separator in it.
pub open spec fn uncut(s: Seq<char>, sep: Separator) -> bool {
    forall|i: int| 0 <= i < s.len() ==> !sep.cuts(#[trigger] s[i])
}

/// A text without separators is its own only piece.
pub proof fn lemma_pieces_uncut(s: Seq<char>, sep: Separator)
    requires
        uncut(s, sep),
    ensures
        pieces(s, sep) == seq![s],
    decreases s.len(),
{
    if s.len() > 0 {
        lemma_pieces_uncut(s.drop_last(), sep);
        assert(s.drop_last().push(s.last()) == s);
    } else {
        assert(s =~= Seq::empty());
    }
}

/// A separator and an uncut text behind it add that text as a piece.
pub proof fn lemma_pieces_append(s: Seq<char>, c: char, t: Seq<char>, sep: Separator)
    requires
        sep.cuts(c),
        uncut(t, sep),
    ensures
        pieces(s.push(c) + t, sep) == pieces(s, sep).push(t),
    decreases t.len(),
{
    if t.len() == 0 {
        assert(s.push(c) + t == s.push(c));
        assert(s.push(c).drop_last() == s);
        assert(t =~= Seq::empty());
    } else {
        let whole = s.push(c) + t;
        lemma_pieces_append(s, c, t.drop_last(), sep);
        assert(whole.drop_last() == s.push(c) + t.drop_last());
        assert(whole.last() == t.last());
        assert(t.drop_last().push(t.last()) == t);
        assert(pieces(s, sep).push(t.drop_last()).drop_last() == pieces(s, sep));
    }
}

/// The texts of `parts` with full stops between them.
pub open spec fn dotted(parts: Seq<Seq<char>>) -> Seq<char>
    decreases parts.len(),
{
    if parts.len() == 0 {
        Seq::empty()
    } else if parts.len() == 1 {
        parts[0]
    } else {
        dotted(parts.drop_last()).push('.') + parts.last()
    }
}

/// Putting full stops between the pieces cut at full stops gives the text back.
pub proof fn lemma_dotted_pieces(s: Seq<char>)
    ensures
        dotted(pieces(s, Separator::Dot)) == s,
    decreases s.len(),
{
    let sep = Separator::Dot;
    if s.len() > 0 {
        let before = pieces(s.drop_last(), sep);
        lemma_dotted_pieces(s.drop_last());
        lemma_pieces_nonempty(s.drop_last(), sep);
        let after = pieces(s, sep);
        if sep.cuts(s.last()) {
            assert(after.drop_last() == before);
            assert(after.last() =~= Seq::empty());
            assert(dotted(after) =~= s);
        } else {
            assert(after.drop_last() == before.drop_last());
            if before.len() == 1 {
                assert(dotted(after) =~= s);
            } else {
                assert(dotted(after) =~= dotted(before).push(s.last()));
                assert(s.drop_last().push(s.last()) == s);
            }
        }
    }
}

/// `s` without the white space at its end.
pub open spec fn trim_end(s: Seq<char>) -> Seq<char>
    decreases s.len(),
{
    if s.len() > 0 && is_white(s.last()) {
        trim_end(s.drop_last())
    } else {
        s
    }
}

/// `s` without the white space at its start.
pub open spec fn trim_start(s: Seq<char>) -> Seq<char>
    decreases s.len(),
{
    if s.len() > 0 && is_white(s[0]) {
        trim_start(s.drop_first())
    } else {
        s
    }
}

/// `s` without the white space at either end.
pub open spec fn trim(s: Seq<char>) -> Seq<char> {
    trim_end(trim_start(s))
}

/// `s` without the full stops at its end.
pub open spec fn strip_dots(s: Seq<char>) -> Seq<char>
    decreases s.len(),
{
    if s.len() > 0 && s.last() == '.' {
        strip_dots(s.drop_last())
    } else {
        s
    }
}

/// `v[from..]`, trimmed, without the full stops that then end it.
pub fn trimmed_name(v: &Vec<char>, from: usize) -> (s: String)
    requires
        from <= v@.len(),
    ensures
        s@ == strip_dots(trim(v@.skip(from as int))),
{
    let mut start: usize = from;
    proof { assert(v@.skip(from as int) == v@.subrange(start as int, v@.len() as int)); }
    while start < v.len() && is_whitespace(v[start])
        invariant
            from <= start <= v@.len(),
            trim_start(v@.skip(from as int)) == trim_start(v@.subrange(start as int, v@.len() as int)),
        decreases v@.len() - start,
    {
        proof {
            assert(v@.subrange(start as int, v@.len() as int).drop_first() == v@.subrange(
                start + 1,
                v@.len() as int,
            ));
        }
        start = start + 1;
    }
    let mut end: usize = v.len();
    proof {
        if start < v@.len() {
            assert(v@.subrange(start as int, v@.len() as int)[0] == v@[start as int]);
        }
        assert(trim_start(v@.skip(from as int)) == v@.subrange(start as int, end as int));
    }
    while end > start && is_whitespace(v[end - 1])
        invariant
            start <= end <= v@.len(),
            trim(v@.skip(from as int)) == trim_end(v@.subrange(start as int, end as int)),
        decreases end,
    {
        proof {
            assert(v@.subrange(start as int, end as int).drop_last() == v@.subrange(
                start as int,
                end - 1,
            ));
        }
        end = end - 1;
    }
    proof {
        if end > start {
            assert(v@.subrange(start as int, end as int).last() == v@[end - 1]);
        }
    }
    while end > start && v[end - 1] == '.'
        invariant
            start <= end <= v@.len(),
            strip_dots(trim(v@.skip(from as int))) == strip_dots(
                v@.subrange(start as int, end as int),
            ),
        decreases end,
    {
        proof {
            assert(v@.subrange(start as int, end as int).drop_last() == v@.subrange(
                start as int,
                end - 1,
            ));
        }
        end = end - 1;
    }
    proof {
        if end > start {
            assert(v@.subrange(start as int, end as int).last() == v@[end - 1]);
        }
    }
    text_of(v, start, end)
}

/// Whether `pattern` stands in `s` at position `i`.
pub open spec fn occurs_at(s: Seq<char>, pattern: Seq<char>, i: int) -> bool {
    0 <= i && i + pattern.len() <= s.len() && s.subrange(i, i + pattern.len()) == pattern
}

/// Whether `pattern` stands in `s` at position `i`.
pub fn occurs(s: &Vec<char>, pattern: &Vec<char>, i: usize) -> (b: bool)
    requires
        i <= s@.len(),
    ensures
        b == occurs_at(s@, pattern@, i as int),
{
    if s.len() - i < pattern.len() {
        return false;
    }
    let mut k: usize = 0;
    while k < pattern.len()
        invariant
            k <= pattern@.len(),
            i + pattern@.len() <= s.len(),
            s@.subrange(i as int, i + k) == pattern@.take(k as int),
        decreases pattern@.len() - k,
    {
        if s[i + k] != pattern[k] {
            proof {
                assert(s@.subrange(i as int, i + pattern@.len())[k as int] == s@[i + k]);
            }
            return false;
        }
        proof {
            assert(s@.subrange(i as int, i + k + 1) =~= s@.subrange(i as int, i + k).push(s@[i + k]));
            assert(pattern@.take(k + 1) =~= pattern@.take(k as int).push(pattern@[k as int]));
        }
        k = k + 1;
    }
    proof { assert(pattern@.take(pattern@.len() as int) == pattern@); }
    true
}

/// Whether `at` is the first place where `pattern` stands in `s`, `None` meaning that it stands
/// nowhere.
pub open spec fn first_occurrence(s: Seq<char>, pattern: Seq<char>, at: Option<int>) -> bool {
    match at {
        Some(i) => occurs_at(s, pattern, i) && forall|j: int|
            0 <= j < i ==> !#[trigger] occurs_at(s, pattern, j),
        None => forall|j: int| !#[trigger] occurs_at(s, pattern, j),
    }
}

/// The first place where `pattern` stands in `s`.
pub fn find(s: &Vec<char>, pattern: &Vec<char>) -> (at: Option<usize>)
    ensures
        at matches Some(i) ==> i <= s@.len() && first_occurrence(s@, pattern@, Some(i as int)),
        at is None ==> first_occurrence(s@, pattern@, None),
{
    let mut i: usize = 0;
    while i < s.len()
        invariant
            i <= s@.len(),
            forall|j: int| 0 <= j < i ==> !#[trigger] occurs_at(s@, pattern@, j),
        decreases s@.len() - i,
    {
        if occurs(s, pattern, i) {
            return Some(i);
        }
        i = i + 1;
    }
    if occurs(s, pattern, i) {
        return Some(i);
    }
    None
}

/// Whether `a` comes before `b`, or is `b`, in the order of the characters' code points.
pub open spec fn lex_le(a: Seq<char>, b: Seq<char>) -> bool
    decreases a.len(),
{
    if a.len() == 0 {
        true
    } else if b.len() == 0 {
        false
    } else if a[0] == b[0] {
        lex_le(a.drop_first(), b.drop_first())
    } else {
        a[0] < b[0]
    }
}

/// Of two texts one comes first.
pub proof fn lemma_lex_total(a: Seq<char>, b: Seq<char>)
    ensures
        lex_le(a, b) || lex_le(b, a),
    decreases a.len(),
{
    if a.len() > 0 && b.len() > 0 && a[0] == b[0] {
        lemma_lex_total(a.drop_first(), b.drop_first());
    }
}

/// The order of texts is transitive.
pub proof fn lemma_lex_transitive(a: Seq<char>, b: Seq<char>, c: Seq<char>)
    requires
        lex_le(a, b),
        lex_le(b, c),
    ensures
        lex_le(a, c),
    decreases a.len(),
{
    if a.len() > 0 && b.len() > 0 && c.len() > 0 && a[0] == b[0] && b[0] == c[0] {
        lemma_lex_transitive(a.drop_first(), b.drop_first(), c.drop_first());
    }
}

/// Whether `a` comes before `b`, or is `b`, in the order of the characters' code points.
pub fn comes_before(a: &str, b: &str) -> (r: bool)
    ensures
        r == lex_le(a@, b@),
{
    let u = chars_of(a);
    let v = chars_of(b);
    let mut i: usize = 0;
    proof {
        assert(u@.skip(0) == u@);
        assert(v@.skip(0) == v@);
    }
    while i < u.len() && i < v.len() && u[i] == v[i]
        invariant
            i <= u@.len(),
            i <= v@.len(),
            lex_le(u@, v@) == lex_le(u@.skip(i as int), v@.skip(i as int)),
        decreases u@.len() - i,
    {
        proof {
            assert(u@.skip(i as int).drop_first() == u@.skip(i + 1));
            assert(v@.skip(i as int).drop_first() == v@.skip(i + 1));
        }
        i = i + 1;
    }
    if i >= u.len() {
        true
    } else if i >= v.len() {
        false
    } else {
        u[i] < v[i]
    }
}

/// `s` with spaces behind it up to `width` characters.
pub open spec fn padded(s: Seq<char>, width: nat) -> Seq<char> {
    s + Seq::new((if s.len() < width { width - s.len() } else { 0 }) as nat, |i: int| ' ')
}

/// `s` with spaces behind it up to `width` characters.
pub fn padded_text(s: &str, width: usize) -> (r: String)
    ensures
        r@ == padded(s@, width as nat),
{
    let mut r = s.to_owned();
    let mut n: usize = s.unicode_len();
    while n < width
        invariant
            s@.len() <= n,
            n <= width || n == s@.len(),
            r@ == s@ + Seq::new((n - s@.len()) as nat, |i: int| ' '),
        decreases width - n,
    {
        r.push(' ');
        n = n + 1;
        proof {
            assert(r@ =~= s@ + Seq::new((n - s@.len()) as nat, |i: int| ' '));
        }
    }
    r
}

/// What `String::from_utf8_lossy` makes of `bytes`.
pub uninterp spec fn utf8_lossy(bytes: Seq<u8>) -> Seq<char>;

/// Calls `String::from_utf8_lossy`, whose result on given bytes is `utf8_lossy`: bytes that are
/// valid UTF-8 are decoded as they stand. What it puts in the place of invalid bytes is not said
/// further.
#[verifier::external_body]
pub(crate) fn decode_lossy(bytes: &[u8]) -> (s: String)
    ensures
        s@ == utf8_lossy(bytes@),
        vstd::utf8::valid_utf8(bytes@) ==> s@ == vstd::utf8::decode_utf8(bytes@),
{
    String::from_utf8_lossy(bytes).into_owned()
}

/// Whether bytes that are valid UTF-8 are decoded as they stand.
pub open spec fn decodes_valid(bytes: Seq<u8>) -> bool {
    vstd::utf8::valid_utf8(bytes) ==> utf8_lossy(bytes) == vstd::utf8::decode_utf8(bytes)
}

/// What `str::to_lowercase` makes of `s`.
pub uninterp spec fn lowercase(s: Seq<char>) -> Seq<char>;

/// The small letter of an ASCII capital letter; every other character itself.
pub open spec fn ascii_lower(c: char) -> char {
    if 'A' <= c <= 'Z' {
        (c as u32 + 32) as char
    } else {
        c
    }
}

/// Whether the small-letter form of an ASCII text has its capital letters replaced by the small ones,
/// and nothing else changed.
pub open spec fn lowers_ascii(s: Seq<char>) -> bool {
    vstd::utf8::is_ascii_chars(s) ==> lowercase(s) == s.map_values(|c: char| ascii_lower(c))
}

/// Calls `str::to_lowercase`, whose result on a given text is `lowercase`: an ASCII text keeps
/// its length and has its capital letters replaced by the small ones. How other characters are
/// lowered is not said further.
#[verifier::external_body]
pub(crate) fn to_lowercase(s: &str) -> (r: String)
    ensures
        r@ == lowercase(s@),
        vstd::utf8::is_ascii_chars(s@) ==> r@ == s@.map_values(|c: char| ascii_lower(c)),
{
    s.to_lowercase()
}

/// The number that a series of decimal digits denotes.
pub open spec fn value(digits: Seq<char>) -> int
    decreases digits.len(),
{
    if digits.len() == 0 {
        0
    } else {
        10 * value(digits.drop_last()) + (digits.last() as int - '0' as int)
    }
}

/// The decimal numeral of a number consists of digits, has no zero in front of another digit, and
/// denotes the number.
pub proof fn law_decimal_denotes_the_number(n: nat)
    ensures
        decimal(n).len() > 0,
        forall|i: int| 0 <= i < decimal(n).len() ==> '0' <= #[trigger] decimal(n)[i] <= '9',
        decimal(n).len() > 1 ==> decimal(n)[0] != '0',
        value(decimal(n)) == n,
    decreases n,
{
    lemma_decimal_digits(n);
    if n < 10 {
        assert(decimal(n).drop_last() =~= Seq::empty());
        assert(value(decimal(n).drop_last()) == 0);
    } else {
        law_decimal_denotes_the_number(n / 10);
        assert(decimal(n).drop_last() =~= decimal(n / 10));
        if decimal(n / 10).len() == 1 {
            assert(decimal(n / 10).drop_last() =~= Seq::empty());
            assert(value(decimal(n / 10).drop_last()) == 0);
            assert(decimal(n / 10)[0] == decimal(n / 10).last());
            assert(n / 10 > 0);
        }
        assert(decimal(n)[0] == decimal(n / 10)[0]);
    }
}

/// The numeral of a negative number is a minus sign and the numeral of its magnitude; that of any other
/// number has no sign.
pub proof fn law_signed_decimal_denotes_the_number(n: int)
    ensures
        n >= 0 ==> value(signed_decimal(n)) == n && '0' <= signed_decimal(n)[0] <= '9',
        n < 0 ==> signed_decimal(n)[0] == '-' && value(signed_decimal(n).drop_first()) == -n,
        n < 0 ==> signed_decimal(n).drop_first() == decimal((-n) as nat),
{
    if n >= 0 {
        law_decimal_denotes_the_number(n as nat);
    } else {
        law_decimal_denotes_the_number((-n) as nat);
        assert(signed_decimal(n).drop_first() =~= decimal((-n) as nat));
    }
}

/// A text is cut at line feeds, at white space or at full stops.
pub proof fn law_separators(c: char)
    ensures
        Separator::LineFeed.cuts(c) <==> c == '\n',
        Separator::Dot.cuts(c) <==> c == '.',
        Separator::White.cuts(c) <==> is_white(c),
        is_white('\n'),
        is_white(' '),
        is_white('\t'),
        is_white('\r'),
        '!' <= c <= '~' ==> !is_white(c),
{
}

/// The pieces of a text are what stands before its first separator, and the pieces of what stands behind
/// it; a text without separators is its only piece.
pub proof fn law_pieces_from_the_front(first: Seq<char>, c: char, rest: Seq<char>, sep: Separator)
    requires
        forall|i: int| 0 <= i < first.len() ==> !sep.cuts(#[trigger] first[i]),
        sep.cuts(c),
    ensures
        pieces(first, sep) == seq![first],
        pieces(first + seq![c] + rest, sep) == seq![first] + pieces(rest, sep),
    decreases rest.len(),
{
    let whole = first + seq![c] + rest;
    lemma_pieces_uncut(first, sep);
    lemma_pieces_nonempty(rest, sep);
    if rest.len() == 0 {
        assert(whole =~= first.push(c));
        assert(whole.drop_last() =~= first);
        assert(pieces(whole, sep) =~= seq![first] + pieces(rest, sep));
    } else {
        law_pieces_from_the_front(first, c, rest.drop_last(), sep);
        lemma_pieces_nonempty(rest.drop_last(), sep);
        assert(whole.drop_last() =~= first + seq![c] + rest.drop_last());
        let before = pieces(rest.drop_last(), sep);
        let all = seq![first] + before;
        assert(all.last() == before.last());
        assert(all.drop_last() =~= seq![first] + before.drop_last());
        assert(pieces(whole, sep) =~= seq![first] + pieces(rest, sep));
    }
}

proof fn lemma_trim_end(s: Seq<char>, tail: Seq<char>)
    requires
        forall|i: int| 0 <= i < tail.len() ==> is_white(#[trigger] tail[i]),
        s.len() > 0 ==> !is_white(s.last()),
    ensures
        trim_end(s + tail) == s,
    decreases tail.len(),
{
    if tail.len() == 0 {
        assert(s + tail =~= s);
    } else {
        assert((s + tail).drop_last() =~= s + tail.drop_last());
        assert((s + tail).last() == tail.last());
        lemma_trim_end(s, tail.drop_last());
    }
}

proof fn lemma_trim_start(head: Seq<char>, s: Seq<char>)
    requires
        forall|i: int| 0 <= i < head.len() ==> is_white(#[trigger] head[i]),
        s.len() > 0 ==> !is_white(s[0]),
    ensures
        trim_start(head + s) == s,
    decreases head.len(),
{
    if head.len() == 0 {
        assert(head + s =~= s);
    } else {
        assert((head + s).drop_first() =~= head.drop_first() + s);
        assert((head + s)[0] == head[0]);
        lemma_trim_start(head.drop_first(), s);
    }
}

proof fn lemma_strip_dots(s: Seq<char>, dots: Seq<char>)
    requires
        forall|i: int| 0 <= i < dots.len() ==> #[trigger] dots[i] == '.',
        s.len() > 0 ==> s.last() != '.',
    ensures
        strip_dots(s + dots) == s,
    decreases dots.len(),
{
    if dots.len() == 0 {
        assert(s + dots =~= s);
    } else {
        assert((s + dots).drop_last() =~= s + dots.drop_last());
        assert((s + dots).last() == dots.last());
        lemma_strip_dots(s, dots.drop_last());
    }
}

/// Trimming a text takes the white space off its ends and nothing else, and stripping it takes off the
/// full stops at its end and nothing else.
pub proof fn law_name_in_a_text(head: Seq<char>, name: Seq<char>, dots: Seq<char>, tail: Seq<char>)
    requires
        forall|i: int| 0 <= i < head.len() ==> is_white(#[trigger] head[i]),
        forall|i: int| 0 <= i < tail.len() ==> is_white(#[trigger] tail[i]),
        forall|i: int| 0 <= i < dots.len() ==> #[trigger] dots[i] == '.',
        name.len() > 0 ==> !is_white(name[0]) && name.last() != '.',
        name.len() > 0 && dots.len() == 0 ==> !is_white(name.last()),
    ensures
        trim(head + name + dots + tail) == name + dots,
        strip_dots(trim(head + name + dots + tail)) == name,
{
    let inner = name + dots;
    assert(!is_white('.'));
    if name.len() > 0 {
        assert(inner[0] == name[0]);
    }
    if dots.len() > 0 {
        assert(inner.last() == dots.last());
    } else {
        assert(inner =~= name);
    }
    if inner.len() > 0 {
        assert((inner + tail)[0] == inner[0]);
        lemma_trim_start(head, inner + tail);
        assert(head + name + dots + tail =~= head + (inner + tail));
        lemma_trim_end(inner, tail);
    } else {
        assert(head + name + dots + tail =~= (head + tail) + inner);
        let all = head + tail;
        assert forall|i: int| 0 <= i < all.len() implies is_white(#[trigger] all[i]) by {
            if i < head.len() {
                assert(all[i] == head[i]);
            } else {
                assert(all[i] == tail[i - head.len()]);
            }
        }
        lemma_trim_start(all, inner);
        assert(inner =~= Seq::empty());
    }
    lemma_strip_dots(name, dots);
}

/// A pattern stands in a text where the text has its characters, one by one.
pub proof fn law_occurrence(s: Seq<char>, pattern: Seq<char>, i: int)
    ensures
        occurs_at(s, pattern, i) <==> {
            &&& 0 <= i
            &&& i + pattern.len() <= s.len()
            &&& forall|k: int| 0 <= k < pattern.len() ==> #[trigger] s[i + k] == pattern[k]
        },
{
    if 0 <= i && i + pattern.len() <= s.len() {
        let part = s.subrange(i, i + pattern.len());
        if forall|k: int| 0 <= k < pattern.len() ==> #[trigger] s[i + k] == pattern[k] {
            assert forall|k: int| 0 <= k < pattern.len() implies part[k] == pattern[k] by {
                assert(s[i + k] == pattern[k]);
            }
            assert(part =~= pattern);
        }
        if part == pattern {
            assert forall|k: int| 0 <= k < pattern.len() implies #[trigger] s[i + k] == pattern[k] by {
                assert(part[k] == pattern[k]);
            }
        }
    }
}

/// Texts stand in the order of a dictionary: `a` comes before `b`, or is `b`, exactly where `a` is the
/// start of `b`, or has the smaller character at the first place where they differ.
pub proof fn law_dictionary_order(a: Seq<char>, b: Seq<char>)
    ensures
        lex_le(a, b) <==> exists|k: int|
            0 <= k <= a.len() && k <= b.len() && #[trigger] a.take(k) == b.take(k) && (k == a.len() || (k
                < b.len() && a[k] < b[k])),
    decreases a.len(),
{
    if a.len() == 0 {
        assert(a.take(0) =~= b.take(0));
    } else if b.len() > 0 && a[0] == b[0] {
        let x = a.drop_first();
        let y = b.drop_first();
        law_dictionary_order(x, y);
        if lex_le(x, y) {
            let k = choose|k: int|
                0 <= k <= x.len() && k <= y.len() && #[trigger] x.take(k) == y.take(k) && (k == x.len()
                    || (k < y.len() && x[k] < y[k]));
            assert forall|i: int| 0 <= i < k + 1 implies #[trigger] a[i] == b[i] by {
                if i > 0 {
                    assert(x.take(k)[i - 1] == y.take(k)[i - 1]);
                }
            }
            assert(a.take(k + 1) =~= b.take(k + 1));
        }
        if exists|k: int|
            0 <= k <= a.len() && k <= b.len() && #[trigger] a.take(k) == b.take(k) && (k == a.len() || (k
                < b.len() && a[k] < b[k])) {
            let k = choose|k: int|
                0 <= k <= a.len() && k <= b.len() && #[trigger] a.take(k) == b.take(k) && (k == a.len()
                    || (k < b.len() && a[k] < b[k]));
            assert(k > 0);
            assert forall|i: int| 0 <= i < k - 1 implies #[trigger] x[i] == y[i] by {
                assert(a.take(k)[i + 1] == b.take(k)[i + 1]);
            }
            assert(x.take(k - 1) =~= y.take(k - 1));
        }
    } else {
        assert(a.take(0) =~= b.take(0));
        if exists|k: int|
            0 <= k <= a.len() && k <= b.len() && #[trigger] a.take(k) == b.take(k) && (k == a.len() || (k
                < b.len() && a[k] < b[k])) {
            let k = choose|k: int|
                0 <= k <= a.len() && k <= b.len() && #[trigger] a.take(k) == b.take(k) && (k == a.len()
                    || (k < b.len() && a[k] < b[k]));
            if k > 0 {
                assert(a.take(k)[0] == b.take(k)[0]);
            }
        }
    }
}

/// Texts that come before each other are the same.
pub proof fn law_order_is_antisymmetric(a: Seq<char>, b: Seq<char>)
    requires
        lex_le(a, b),
        lex_le(b, a),
    ensures
        a == b,
    decreases a.len(),
{
    if a.len() > 0 && b.len() > 0 {
        law_order_is_antisymmetric(a.drop_first(), b.drop_first());
        assert(a =~= seq![a[0]] + a.drop_first());
        assert(b =~= seq![b[0]] + b.drop_first());
    } else {
        assert(a =~= b);
    }
}

/// Padding puts spaces behind a text, as many as it is short of the width, and changes nothing else.
pub proof fn law_padding(s: Seq<char>, width: nat)
    ensures
        padded(s, width).take(s.len() as int) == s,
        padded(s, width).len() == if s.len() < width {
            width
        } else {
            s.len()
        },
        forall|i: int| s.len() <= i < padded(s, width).len() ==> #[trigger] padded(s, width)[i] == ' ',
{
    assert(padded(s, width).take(s.len() as int) =~= s);
}

/// The small letters of ASCII stand 32 places behind the capital ones, and nothing else is lowered.
pub proof fn law_ascii_letters(c: char)
    ensures
        'A' <= c <= 'Z' ==> 'a' <= ascii_lower(c) <= 'z' && ascii_lower(c) as int - 'a' as int == c as int
            - 'A' as int,
        !('A' <= c <= 'Z') ==> ascii_lower(c) == c,
{
}

/// Bytes that are valid UTF-8 are read as the characters that they encode.
pub proof fn law_valid_bytes(bytes: Seq<u8>)
    requires
        decodes_valid(bytes),
        vstd::utf8::valid_utf8(bytes),
    ensures
        utf8_lossy(bytes) == vstd::utf8::decode_utf8(bytes),
{
}

/// The first place of a pattern is one where it stands, with none before it; a pattern has no place where
/// it stands nowhere. A list of pieces holds the characters of its members.
pub proof fn law_first_places(s: Seq<char>, pattern: Seq<char>, i: int, v: Seq<Vec<char>>, k: int)
    requires
        0 <= k < v.len(),
    ensures
        first_occurrence(s, pattern, Some(i)) ==> s.subrange(i, i + pattern.len()) == pattern && 0 <= i
            && i + pattern.len() <= s.len(),
        first_occurrence(s, pattern, Some(i)) ==> forall|j: int|
            0 <= j < i && j + pattern.len() <= s.len() ==> #[trigger] s.subrange(j, j + pattern.len())
                != pattern,
        first_occurrence(s, pattern, None) ==> forall|j: int|
            0 <= j && j + pattern.len() <= s.len() ==> #[trigger] s.subrange(j, j + pattern.len())
                != pattern,
        char_lists(v).len() == v.len(),
        char_lists(v)[k] == v[k]@,
{
    if first_occurrence(s, pattern, Some(i)) {
        assert forall|j: int| 0 <= j < i && j + pattern.len() <= s.len() implies #[trigger] s.subrange(
            j,
            j + pattern.len(),
        ) != pattern by {
            assert(!occurs_at(s, pattern, j));
        }
    }
    if first_occurrence(s, pattern, None) {
        assert forall|j: int| 0 <= j && j + pattern.len() <= s.len() implies #[trigger] s.subrange(
            j,
            j + pattern.len(),
        ) != pattern by {
            assert(!occurs_at(s, pattern, j));
        }
    }
}

} // verus!
