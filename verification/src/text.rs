//! Character-level text utilities: searching, splitting into lines and
//! fields, ASCII case folding, and decimal integers.

use vstd::prelude::*;

verus! {

/// `i` is the position of the first `c` in `s`, or `s.len()` when `s` holds no `c`.
pub open spec fn is_first(s: Seq<char>, c: char, i: int) -> bool {
    &&& 0 <= i <= s.len()
    &&& i < s.len() ==> s[i] == c
    &&& forall|j: int| 0 <= j < i ==> s[j] != c
}

/// Position of the first `c` in `s`; `s.len()` when there is none.
pub open spec fn index_of(s: Seq<char>, c: char) -> int {
    choose|i: int| is_first(s, c, i)
}

/// Whether `c` occurs in `s`.
pub open spec fn has_char(s: Seq<char>, c: char) -> bool {
    exists|i: int| 0 <= i < s.len() && s[i] == c
}

/// A position that satisfies `is_first` is the one `index_of` names.
pub proof fn lemma_index_of(s: Seq<char>, c: char, i: int)
    requires
        is_first(s, c, i),
    ensures
        index_of(s, c) == i,
{
    let k = index_of(s, c);
    assert(is_first(s, c, k));
    if k < i {
        assert(s[k] == c);
    }
    if i < k {
        assert(s[i] == c);
    }
}

/// `index_of` always names a position within `0 ..= s.len()`, and that
/// position is inside `s` exactly when `c` occurs.
pub proof fn lemma_index_of_range(s: Seq<char>, c: char)
    ensures
        is_first(s, c, index_of(s, c)),
        index_of(s, c) < s.len() <==> has_char(s, c),
    decreases s.len(),
{
    if s.len() == 0 {
        assert(is_first(s, c, 0));
    } else if s[0] == c {
        assert(is_first(s, c, 0));
    } else {
        let t = s.drop_first();
        lemma_index_of_range(t, c);
        let k = index_of(t, c);
        assert forall|j: int| 0 <= j < k + 1 implies s[j] != c by {
            if j > 0 {
                assert(t[j - 1] == s[j]);
            }
        }
        if k < t.len() {
            assert(t[k] == s[k + 1]);
        }
        assert(is_first(s, c, k + 1));
    }
    let i = index_of(s, c);
    if i < s.len() {
        assert(s[i] == c);
    }
}

/// The characters of `s`, in order.
pub fn chars_of(s: &str) -> (v: Vec<char>)
    ensures
        v@ == s@,
{
    let mut v: Vec<char> = Vec::new();
    for c in it: s.chars()
        invariant
            v@ == it.seq().take(it.index() as int),
            it.seq() == s@,
    {
        v.push(c);
    }
    v
}

/// `String::push`: the string afterwards is the string before with `c`
/// appended as its last character.
#[verifier::external_body]
pub(crate) fn push_char(s: &mut String, c: char)
    ensures
        final(s)@ == old(s)@.push(c),
{
    s.push(c)
}

/// The text `cs[from..to]` as a string.
pub fn text_of(cs: &Vec<char>, from: usize, to: usize) -> (r: String)
    requires
        from <= to <= cs.len(),
    ensures
        r@ == cs@.subrange(from as int, to as int),
{
    let mut r = String::new();
    let mut i: usize = from;
    while i < to
        invariant
            from <= i <= to <= cs.len(),
            r@ == cs@.subrange(from as int, i as int),
        decreases to - i,
    {
        push_char(&mut r, cs[i]);
        i = i + 1;
    }
    r
}

/// Appends the text `cs[from..to]` to `s`.
pub fn append_chars(s: &mut String, cs: &Vec<char>, from: usize, to: usize)
    requires
        from <= to <= cs.len(),
    ensures
        final(s)@ == old(s)@ + cs@.subrange(from as int, to as int),
{
    let mut i: usize = from;
    assert(s@ == old(s)@ + cs@.subrange(from as int, from as int));
    while i < to
        invariant
            from <= i <= to <= cs.len(),
            s@ == old(s)@ + cs@.subrange(from as int, i as int),
        decreases to - i,
    {
        push_char(s, cs[i]);
        i = i + 1;
        assert(s@ == old(s)@ + cs@.subrange(from as int, i as int));
    }
}

/// Position of the first `c` within `cs[from..to]`, as an index into `cs`;
/// `to` when the window holds no `c`.
pub fn find_char(cs: &Vec<char>, from: usize, to: usize, c: char) -> (r: usize)
    requires
        from <= to <= cs.len(),
    ensures
        from <= r <= to,
        r - from == index_of(cs@.subrange(from as int, to as int), c),
{
    let mut i: usize = from;
    while i < to && cs[i] != c
        invariant
            from <= i <= to <= cs.len(),
            forall|j: int| from <= j < i ==> cs@[j] != c,
        decreases to - i,
    {
        i = i + 1;
    }
    proof {
        let w = cs@.subrange(from as int, to as int);
        assert forall|j: int| 0 <= j < i - from implies w[j] != c by {
            assert(w[j] == cs@[from + j]);
        }
        if i < to {
            assert(w[i - from] == cs@[i as int]);
        }
        lemma_index_of(w, c, i - from);
    }
    i
}

/// A line without the carriage return that precedes its line feed.
pub open spec fn strip_cr(line: Seq<char>) -> Seq<char> {
    if line.len() > 0 && line.last() == '\r' {
        line.drop_last()
    } else {
        line
    }
}

/// The lines of `s`. A line ends at a line feed, or at a carriage return
/// directly followed by one; neither belongs to the line. The last line needs
/// no line ending, and a text that ends with one has no empty line after it.
pub open spec fn lines(s: Seq<char>) -> Seq<Seq<char>>
    decreases s.len(),
{
    if s.len() == 0 {
        Seq::empty()
    } else {
        let i = index_of(s, '\n');
        if 0 <= i < s.len() {
            seq![strip_cr(s.take(i))] + lines(s.skip(i + 1))
        } else {
            seq![s]
        }
    }
}

/// The pieces of `s` between occurrences of `sep`. There is always at least
/// one piece; adjacent separators give an empty piece.
pub open spec fn split(s: Seq<char>, sep: char) -> Seq<Seq<char>>
    decreases s.len(),
{
    let i = index_of(s, sep);
    if 0 <= i < s.len() {
        seq![s.take(i)] + split(s.skip(i + 1), sep)
    } else {
        seq![s]
    }
}

/// The texts `pieces` with `sep` between each two of them.
pub open spec fn join(pieces: Seq<Seq<char>>, sep: char) -> Seq<char>
    decreases pieces.len(),
{
    if pieces.len() == 0 {
        Seq::empty()
    } else if pieces.len() == 1 {
        pieces[0]
    } else {
        pieces[0] + seq![sep] + join(pieces.drop_first(), sep)
    }
}

/// Splitting loses nothing: no piece holds the separator, and the pieces
/// with the separator between them are the text that was split.
pub proof fn lemma_split_join(s: Seq<char>, sep: char)
    ensures
        split(s, sep).len() >= 1,
        join(split(s, sep), sep) == s,
        forall|k: int| 0 <= k < split(s, sep).len() ==> !has_char(#[trigger] split(s, sep)[k], sep),
    decreases s.len(),
{
    lemma_index_of_range(s, sep);
    let i = index_of(s, sep);
    let pieces = split(s, sep);
    if 0 <= i < s.len() {
        let rest = split(s.skip(i + 1), sep);
        lemma_split_join(s.skip(i + 1), sep);
        assert(pieces == seq![s.take(i)] + rest);
        assert(pieces.drop_first() == rest);
        assert(pieces[0] == s.take(i));
        assert(s.take(i) + seq![sep] + s.skip(i + 1) == s);
        assert forall|k: int| 0 <= k < pieces.len() implies !has_char(#[trigger] pieces[k], sep) by {
            if k == 0 {
                if has_char(pieces[0], sep) {
                    let j = choose|j: int| 0 <= j < pieces[0].len() && pieces[0][j] == sep;
                    assert(s[j] == sep);
                }
            } else {
                assert(pieces[k] == rest[k - 1]);
            }
        }
    } else {
        assert(pieces == seq![s]);
        assert(pieces[0] == s);
    }
}

/// No line holds a line feed.
pub proof fn lemma_lines_hold_no_line_feed(s: Seq<char>)
    ensures
        forall|k: int| 0 <= k < lines(s).len() ==> !has_char(#[trigger] lines(s)[k], '\n'),
    decreases s.len(),
{
    if s.len() > 0 {
        lemma_index_of_range(s, '\n');
        let i = index_of(s, '\n');
        let ls = lines(s);
        if 0 <= i < s.len() {
            let rest = lines(s.skip(i + 1));
            lemma_lines_hold_no_line_feed(s.skip(i + 1));
            let first = strip_cr(s.take(i));
            assert(ls == seq![first] + rest);
            assert forall|k: int| 0 <= k < ls.len() implies !has_char(#[trigger] ls[k], '\n') by {
                if k == 0 {
                    if has_char(first, '\n') {
                        let j = choose|j: int| 0 <= j < first.len() && first[j] == '\n';
                        assert(s[j] == '\n');
                    }
                } else {
                    assert(ls[k] == rest[k - 1]);
                }
            }
        } else {
            assert(ls == seq![s]);
            assert(ls[0] == s);
        }
    }
}

/// A half-open window `[start, end)` into a text.
pub struct Span {
    pub start: usize,
    pub end: usize,
}

impl Span {
    /// The window lies inside a text of `len` characters.
    pub open spec fn within(self, len: int) -> bool {
        self.start <= self.end <= len
    }

    /// The characters of `cs` that the window covers.
    pub open spec fn of(self, cs: Seq<char>) -> Seq<char> {
        cs.subrange(self.start as int, self.end as int)
    }
}

/// The texts that `spans` cut out of `cs`, in order.
pub open spec fn cut(cs: Seq<char>, spans: Seq<Span>) -> Seq<Seq<char>> {
    Seq::new(spans.len(), |i: int| spans[i].of(cs))
}

/// Where each line of `cs` starts and ends.
pub fn line_spans(cs: &Vec<char>) -> (r: Vec<Span>)
    ensures
        cut(cs@, r@) == lines(cs@),
        forall|i: int| 0 <= i < r.len() ==> (#[trigger] r[i]).within(cs.len() as int),
{
    let n: usize = cs.len();
    let mut spans: Vec<Span> = Vec::new();
    let mut pos: usize = 0;
    assert(cs@.skip(0) == cs@);
    assert(cut(cs@, spans@) + lines(cs@.skip(0)) == lines(cs@));
    while pos < n
        invariant
            n == cs.len(),
            pos <= n,
            lines(cs@) == cut(cs@, spans@) + lines(cs@.skip(pos as int)),
            forall|i: int| 0 <= i < spans.len() ==> (#[trigger] spans[i]).within(n as int),
        decreases n - pos,
    {
        let nl: usize = find_char(cs, pos, n, '\n');
        let ghost w = cs@.skip(pos as int);
        let ghost before = spans@;
        assert(w == cs@.subrange(pos as int, n as int));
        if nl < n {
            let mut end: usize = nl;
            if end > pos && cs[end - 1] == '\r' {
                end = end - 1;
            }
            spans.push(Span { start: pos, end });
            proof {
                let i = nl - pos;
                assert(w.take(i) == cs@.subrange(pos as int, nl as int));
                assert(strip_cr(w.take(i)) == cs@.subrange(pos as int, end as int));
                assert(w.skip(i + 1) == cs@.skip(nl + 1));
                assert(lines(w) == seq![cs@.subrange(pos as int, end as int)] + lines(
                    cs@.skip(nl + 1),
                ));
                assert(cut(cs@, spans@) == cut(cs@, before) + seq![
                    cs@.subrange(pos as int, end as int),
                ]);
                assert(lines(cs@) == cut(cs@, spans@) + lines(cs@.skip(nl + 1)));
            }
            pos = nl + 1;
        } else {
            spans.push(Span { start: pos, end: n });
            proof {
                assert(lines(w) == seq![w]);
                assert(cs@.skip(n as int).len() == 0);
                assert(lines(cs@.skip(n as int)) == Seq::<Seq<char>>::empty());
                assert(cut(cs@, spans@) == cut(cs@, before) + seq![w]);
                assert(lines(cs@) == cut(cs@, spans@) + lines(cs@.skip(n as int)));
            }
            pos = n;
        }
    }
    assert(cs@.skip(n as int).len() == 0);
    assert(lines(cs@) == cut(cs@, spans@));
    spans
}

/// Where each piece of `cs[from..to]` between occurrences of `sep` starts and ends.
pub fn field_spans(cs: &Vec<char>, from: usize, to: usize, sep: char) -> (r: Vec<Span>)
    requires
        from <= to <= cs.len(),
    ensures
        cut(cs@, r@) == split(cs@.subrange(from as int, to as int), sep),
        r.len() >= 1,
        forall|i: int| 0 <= i < r.len() ==> (#[trigger] r[i]).within(cs.len() as int),
{
    let mut spans: Vec<Span> = Vec::new();
    let mut pos: usize = from;
    let mut open: bool = true;
    let ghost whole = cs@.subrange(from as int, to as int);
    assert(cut(cs@, spans@) + split(whole, sep) == split(whole, sep));
    while open
        invariant
            from <= pos <= to <= cs.len(),
            whole == cs@.subrange(from as int, to as int),
            open ==> split(whole, sep) == cut(cs@, spans@) + split(
                cs@.subrange(pos as int, to as int),
                sep,
            ),
            !open ==> split(whole, sep) == cut(cs@, spans@) && spans.len() >= 1,
            forall|i: int| 0 <= i < spans.len() ==> (#[trigger] spans[i]).within(cs.len() as int),
        decreases to - pos + (if open { 1int } else { 0int }),
    {
        let f: usize = find_char(cs, pos, to, sep);
        let ghost w = cs@.subrange(pos as int, to as int);
        let ghost before = spans@;
        spans.push(Span { start: pos, end: f });
        proof {
            assert(cut(cs@, spans@) == cut(cs@, before) + seq![cs@.subrange(pos as int, f as int)]);
        }
        if f < to {
            proof {
                let i = f - pos;
                assert(w.take(i) == cs@.subrange(pos as int, f as int));
                assert(w.skip(i + 1) == cs@.subrange(f + 1, to as int));
                assert(split(w, sep) == seq![cs@.subrange(pos as int, f as int)] + split(
                    cs@.subrange(f + 1, to as int),
                    sep,
                ));
                assert(split(whole, sep) == cut(cs@, spans@) + split(
                    cs@.subrange(f + 1, to as int),
                    sep,
                ));
            }
            pos = f + 1;
        } else {
            proof {
                assert(split(w, sep) == seq![w]);
                assert(split(whole, sep) == cut(cs@, spans@));
            }
            open = false;
        }
    }
    spans
}

/// `c` is one of the ten decimal digits.
pub open spec fn is_digit(c: char) -> bool {
    '0' <= c && c <= '9'
}

/// The number that the digit `c` stands for.
pub open spec fn digit_value(c: char) -> int {
    c as int - 48
}

/// Every character of `s` is a decimal digit.
pub open spec fn all_digits(s: Seq<char>) -> bool {
    forall|i: int| 0 <= i < s.len() ==> is_digit(#[trigger] s[i])
}

/// The number that the digit string `s` denotes in base ten.
pub open spec fn decimal_value(s: Seq<char>) -> int
    decreases s.len(),
{
    if s.len() == 0 {
        0
    } else {
        decimal_value(s.drop_last()) * 10 + digit_value(s.last())
    }
}

/// `s` starts with a minus sign.
pub open spec fn is_negative(s: Seq<char>) -> bool {
    s.len() > 0 && s[0] == '-'
}

/// `s` without its leading sign, if it has one.
pub open spec fn unsigned_part(s: Seq<char>) -> Seq<char> {
    if s.len() > 0 && (s[0] == '-' || s[0] == '+') {
        s.skip(1)
    } else {
        s
    }
}

/// The number that `s` denotes: its digits in base ten, negated after a minus sign.
pub open spec fn signed_value(s: Seq<char>) -> int {
    if is_negative(s) {
        -decimal_value(unsigned_part(s))
    } else {
        decimal_value(unsigned_part(s))
    }
}

/// The 32-bit integer that `s` spells: an optional `+` or `-`, then one or
/// more decimal digits and nothing else, with a value that fits. `None` for
/// every other text.
pub open spec fn parse_i32(s: Seq<char>) -> Option<i32> {
    let digits = unsigned_part(s);
    if digits.len() > 0 && all_digits(digits) && i32::MIN <= signed_value(s) <= i32::MAX {
        Some(signed_value(s) as i32)
    } else {
        None
    }
}

/// A digit string denotes a number that is at least the number any of its
/// prefixes denotes, and never a negative one.
pub proof fn lemma_decimal_value_prefix(s: Seq<char>, k: int)
    requires
        all_digits(s),
        0 <= k <= s.len(),
    ensures
        0 <= decimal_value(s.take(k)) <= decimal_value(s),
    decreases s.len(),
{
    if s.len() == 0 {
        assert(s.take(k) == s);
    } else {
        let t = s.drop_last();
        assert(is_digit(s[s.len() - 1]));
        assert forall|i: int| 0 <= i < t.len() implies is_digit(#[trigger] t[i]) by {
            assert(t[i] == s[i]);
        }
        lemma_decimal_value_prefix(t, t.len() as int);
        assert(t.take(t.len() as int) == t);
        if k == s.len() {
            assert(s.take(k) == s);
        } else {
            lemma_decimal_value_prefix(t, k);
            assert(t.take(k) == s.take(k));
        }
    }
}

/// The 32-bit integer that `cs[from..to]` spells, if it spells one.
pub fn parse_i32_at(cs: &Vec<char>, from: usize, to: usize) -> (r: Option<i32>)
    requires
        from <= to <= cs.len(),
    ensures
        r == parse_i32(cs@.subrange(from as int, to as int)),
{
    let ghost s = cs@.subrange(from as int, to as int);
    let mut start: usize = from;
    let mut negative: bool = false;
    if from < to {
        assert(s[0] == cs@[from as int]);
        if cs[from] == '-' {
            negative = true;
            start = from + 1;
        } else if cs[from] == '+' {
            start = from + 1;
        }
    }
    let ghost digits = unsigned_part(s);
    assert(digits == cs@.subrange(start as int, to as int));
    assert(negative == is_negative(s));
    if start == to {
        return None;
    }
    let mut acc: i64 = 0;
    let mut i: usize = start;
    while i < to
        invariant
            from <= start <= i <= to <= cs.len(),
            s == cs@.subrange(from as int, to as int),
            digits == unsigned_part(s),
            digits == cs@.subrange(start as int, to as int),
            negative == is_negative(s),
            forall|j: int| 0 <= j < i - start ==> is_digit(#[trigger] digits[j]),
            acc == decimal_value(digits.take(i - start)),
            0 <= acc <= 2147483648,
        decreases to - i,
    {
        let c: char = cs[i];
        assert(digits[i - start] == c);
        if !(c >= '0' && c <= '9') {
            assert(!is_digit(digits[i - start]));
            return None;
        }
        let d: i64 = (c as u32 - 48) as i64;
        let next: i64 = acc * 10 + d;
        proof {
            let p = digits.take(i - start + 1);
            assert(p.drop_last() == digits.take(i - start));
            assert(p.last() == c);
            assert(next == decimal_value(p));
        }
        if next > 2147483648 {
            proof {
                if all_digits(digits) {
                    lemma_decimal_value_prefix(digits, i - start + 1);
                }
            }
            return None;
        }
        acc = next;
        i = i + 1;
    }
    assert(digits.take(to - start) == digits);
    assert(all_digits(digits));
    if negative {
        Some((-acc) as i32)
    } else if acc > 2147483647 {
        None
    } else {
        Some(acc as i32)
    }
}

/// The character that writes the digit `d`.
pub open spec fn digit_char(d: int) -> char {
    (d + 48) as char
}

/// The decimal digits of `n`, most significant first, without leading zeros.
pub open spec fn decimal_digits(n: nat) -> Seq<char>
    decreases n,
{
    if n < 10 {
        seq![digit_char(n as int)]
    } else {
        decimal_digits(n / 10).push(digit_char((n % 10) as int))
    }
}

/// How `v` is written in base ten: a minus sign for a negative number, then its digits.
pub open spec fn decimal_text(v: int) -> Seq<char> {
    if v < 0 {
        seq!['-'] + decimal_digits((-v) as nat)
    } else {
        decimal_digits(v as nat)
    }
}

fn push_digits(s: &mut String, n: u32)
    ensures
        final(s)@ == old(s)@ + decimal_digits(n as nat),
    decreases n,
{
    if n >= 10 {
        push_digits(s, n / 10);
    }
    let d: u8 = (n % 10) as u8;
    let c: char = (d + 48) as char;
    assert(c == digit_char((n % 10) as int));
    push_char(s, c);
    assert(final(s)@ == old(s)@ + decimal_digits(n as nat));
}

/// `v` written in base ten.
pub fn decimal_string(v: i32) -> (r: String)
    ensures
        r@ == decimal_text(v as int),
{
    let mut r = String::new();
    if v < 0 {
        push_char(&mut r, '-');
        let m: u32 = (-(v as i64)) as u32;
        push_digits(&mut r, m);
    } else {
        push_digits(&mut r, v as u32);
    }
    assert(r@ == decimal_text(v as int));
    r
}

/// What `decimal_digits` writes is a non-empty digit string that denotes `n`.
pub proof fn lemma_decimal_digits(n: nat)
    ensures
        decimal_digits(n).len() > 0,
        all_digits(decimal_digits(n)),
        decimal_value(decimal_digits(n)) == n,
    decreases n,
{
    let s = decimal_digits(n);
    if n < 10 {
        assert(s.drop_last().len() == 0);
        assert(decimal_value(s.drop_last()) == 0);
        assert(s.last() == digit_char(n as int));
    } else {
        lemma_decimal_digits(n / 10);
        let t = decimal_digits(n / 10);
        assert(s.drop_last() == t);
        assert(s.last() == digit_char((n % 10) as int));
        assert forall|i: int| 0 <= i < s.len() implies is_digit(#[trigger] s[i]) by {
            if i < t.len() {
                assert(s[i] == t[i]);
            }
        }
    }
}

/// Reading back what `decimal_string` writes gives the number that was written.
pub proof fn lemma_decimal_round_trip(v: i32)
    ensures
        parse_i32(decimal_text(v as int)) == Some(v),
{
    let s = decimal_text(v as int);
    if v < 0 {
        let d = decimal_digits((-v) as nat);
        lemma_decimal_digits((-v) as nat);
        assert(s[0] == '-');
        assert(s.skip(1) == d);
    } else {
        lemma_decimal_digits(v as nat);
        assert(is_digit(s[0]));
    }
}

/// `c` as a capital letter if it is one of the letters `a` to `z`; `c` itself otherwise.
pub open spec fn ascii_upper(c: char) -> char {
    if 'a' <= c && c <= 'z' {
        (c as int - 32) as char
    } else {
        c
    }
}

/// `a` and `b` are the same text up to the case of the letters `A` to `Z`.
pub open spec fn same_ignoring_case(a: Seq<char>, b: Seq<char>) -> bool {
    &&& a.len() == b.len()
    &&& forall|i: int| 0 <= i < a.len() ==> ascii_upper(#[trigger] a[i]) == ascii_upper(b[i])
}

/// `c` as a capital letter if it is one of the letters `a` to `z`.
pub fn to_ascii_upper(c: char) -> (r: char)
    ensures
        r == ascii_upper(c),
{
    if c >= 'a' && c <= 'z' {
        let b: u8 = (c as u32 - 32) as u8;
        b as char
    } else {
        c
    }
}

/// Whether `cs[from..to]` is `name` up to the case of the letters `A` to `Z`.
pub fn matches_ignoring_case(cs: &Vec<char>, from: usize, to: usize, name: &str) -> (r: bool)
    requires
        from <= to <= cs.len(),
    ensures
        r == same_ignoring_case(cs@.subrange(from as int, to as int), name@),
{
    let other = chars_of(name);
    let ghost a = cs@.subrange(from as int, to as int);
    if other.len() != to - from {
        return false;
    }
    let mut i: usize = 0;
    while i < other.len()
        invariant
            from <= to <= cs.len(),
            other.len() == to - from,
            i <= other.len(),
            a == cs@.subrange(from as int, to as int),
            other@ == name@,
            forall|j: int| 0 <= j < i ==> ascii_upper(#[trigger] a[j]) == ascii_upper(other@[j]),
        decreases other.len() - i,
    {
        assert(a[i as int] == cs@[from + i]);
        if to_ascii_upper(cs[from + i]) != to_ascii_upper(other[i]) {
            return false;
        }
        i = i + 1;
    }
    true
}

/// Whether `a` and `b` are the same text.
pub fn same_text(a: &str, b: &str) -> (r: bool)
    ensures
        r == (a@ == b@),
{
    let x = chars_of(a);
    let y = chars_of(b);
    if x.len() != y.len() {
        return false;
    }
    let mut i: usize = 0;
    while i < x.len()
        invariant
            x.len() == y.len(),
            i <= x.len(),
            x@ == a@,
            y@ == b@,
            forall|j: int| 0 <= j < i ==> x@[j] == y@[j],
        decreases x.len() - i,
    {
        if x[i] != y[i] {
            return false;
        }
        i = i + 1;
    }
    assert(x@ =~= y@);
    true
}

/// `s` ends with the text `suffix`.
pub open spec fn ends_with(s: Seq<char>, suffix: Seq<char>) -> bool {
    s.len() >= suffix.len() && s.skip(s.len() - suffix.len()) == suffix
}

/// Whether `s` ends with the text `suffix`.
pub fn has_suffix(s: &str, suffix: &str) -> (r: bool)
    ensures
        r == ends_with(s@, suffix@),
{
    let x = chars_of(s);
    let y = chars_of(suffix);
    if x.len() < y.len() {
        return false;
    }
    let off: usize = x.len() - y.len();
    let ghost tail = x@.skip(off as int);
    let mut i: usize = 0;
    while i < y.len()
        invariant
            off + y.len() == x.len(),
            i <= y.len(),
            x@ == s@,
            y@ == suffix@,
            tail == x@.skip(off as int),
            forall|j: int| 0 <= j < i ==> tail[j] == y@[j],
        decreases y.len() - i,
    {
        assert(tail[i as int] == x@[off + i]);
        if x[off + i] != y[i] {
            return false;
        }
        i = i + 1;
    }
    assert(tail =~= y@);
    true
}

/// The test that a character is not `c`.
pub open spec fn other_than(c: char) -> spec_fn(char) -> bool {
    |x: char| x != c
}

/// `s` with every occurrence of `c` taken out.
pub fn without_char(s: &str, c: char) -> (r: String)
    ensures
        r@ == s@.filter(other_than(c)),
{
    let cs = chars_of(s);
    let mut r = String::new();
    let mut i: usize = 0;
    assert(cs@.take(0).filter(other_than(c)) == Seq::<char>::empty()) by {
        reveal(Seq::filter);
    }
    while i < cs.len()
        invariant
            i <= cs.len(),
            cs@ == s@,
            r@ == cs@.take(i as int).filter(other_than(c)),
        decreases cs.len() - i,
    {
        proof {
            assert(cs@.take(i + 1) == cs@.take(i as int).push(cs@[i as int]));
            cs@.take(i as int).lemma_filter_push(cs@[i as int], other_than(c));
        }
        if cs[i] != c {
            push_char(&mut r, cs[i]);
        }
        i = i + 1;
    }
    assert(cs@.take(cs.len() as int) == cs@);
    r
}

/// `i` is the position of the last `c` in `s`, or -1 when `s` holds no `c`.
pub open spec fn is_last(s: Seq<char>, c: char, i: int) -> bool {
    &&& -1 <= i < s.len()
    &&& 0 <= i ==> s[i] == c
    &&& forall|j: int| i < j < s.len() ==> s[j] != c
}

/// Position of the last `c` in `s`; -1 when there is none.
pub open spec fn last_index_of(s: Seq<char>, c: char) -> int {
    choose|i: int| is_last(s, c, i)
}

/// A position that satisfies `is_last` is the one `last_index_of` names.
pub proof fn lemma_last_index_of(s: Seq<char>, c: char, i: int)
    requires
        is_last(s, c, i),
    ensures
        last_index_of(s, c) == i,
{
    let k = last_index_of(s, c);
    assert(is_last(s, c, k));
    if k < i {
        assert(s[i] == c);
    }
    if i < k {
        assert(s[k] == c);
    }
}

/// Position of the last `c` in `cs`, if there is one.
pub fn find_last_char(cs: &Vec<char>, c: char) -> (r: Option<usize>)
    ensures
        match r {
            Some(i) => i < cs.len() && last_index_of(cs@, c) == i,
            None => last_index_of(cs@, c) == -1,
        },
{
    let mut i: usize = cs.len();
    while i > 0
        invariant
            i <= cs.len(),
            forall|j: int| i <= j < cs.len() ==> cs@[j] != c,
        decreases i,
    {
        if cs[i - 1] == c {
            proof {
                lemma_last_index_of(cs@, c, i - 1);
            }
            return Some(i - 1);
        }
        i = i - 1;
    }
    proof {
        lemma_last_index_of(cs@, c, -1);
    }
    None
}

} // verus!
