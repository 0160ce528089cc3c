//! Character-level text helpers shared by the rest of the library, with the
//! mathematical meaning of each operation stated over `Seq<char>`.
use vstd::prelude::*;

verus! {

/// The characters of `s`, in order.
pub fn chars_of(s: &str) -> (out: Vec<char>)
    ensures
        out@ == s@,
{
    broadcast use vstd::string::group_string_axioms;
    let mut out: Vec<char> = Vec::new();
    for c in it: s.chars()
        invariant
            out@ == it.seq().take(it.index() as int),
            it.seq() == s@,
    {
        out.push(c);
    }
    out
}

/// Appends one character to a `String` (std's `String::push`).
/// Trusted: `String::push` appends the given char at the end of the string.
#[verifier::external_body]
pub(crate) fn push_char(s: &mut String, c: char)
    ensures
        final(s)@ == old(s)@.push(c),
{
    s.push(c);
}

/// Builds a `String` holding exactly the characters of `chars`.
pub fn string_of(chars: &[char]) -> (out: String)
    ensures
        out@ == chars@,
{
    let mut out = String::new();
    let mut i: usize = 0;
    while i < chars.len()
        invariant
            i <= chars@.len(),
            out@ == chars@.take(i as int),
        decreases chars@.len() - i,
    {
        push_char(&mut out, chars[i]);
        assert(chars@.take(i as int).push(chars@[i as int]) =~= chars@.take(i + 1));
        i += 1;
    }
    assert(chars@.take(chars@.len() as int) =~= chars@);
    out
}

/// A fresh `String` with the same characters as `s`.
pub fn to_owned_string(s: &str) -> (out: String)
    ensures
        out@ == s@,
{
    s.to_owned()
}

/// Whether two character sequences are equal.
pub fn str_eq(a: &str, b: &str) -> (r: bool)
    ensures
        r == (a@ == b@),
{
    let x = a.to_owned();
    let y = b.to_owned();
    x == y
}

/// Unicode White_Space, the set that `char::is_whitespace` tests.
pub open spec fn is_ws(c: char) -> bool {
    let u = c as u32;
    ||| u == 0x09 || u == 0x0A || u == 0x0B || u == 0x0C || u == 0x0D || u == 0x20
    ||| u == 0x85 || u == 0xA0 || u == 0x1680
    ||| (0x2000 <= u && u <= 0x200A)
    ||| u == 0x2028 || u == 0x2029 || u == 0x202F || u == 0x205F || u == 0x3000
}

/// Whether `c` is Unicode whitespace.
pub fn is_whitespace(c: char) -> (r: bool)
    ensures
        r == is_ws(c),
{
    let u = c as u32;
    u == 0x09 || u == 0x0A || u == 0x0B || u == 0x0C || u == 0x0D || u == 0x20 || u == 0x85
        || u == 0xA0 || u == 0x1680 || (0x2000 <= u && u <= 0x200A) || u == 0x2028 || u
        == 0x2029 || u == 0x202F || u == 0x205F || u == 0x3000
}

/// `s` without its leading whitespace.
pub open spec fn trim_start(s: Seq<char>) -> Seq<char>
    decreases s.len(),
{
    if s.len() > 0 && is_ws(s[0]) {
        trim_start(s.drop_first())
    } else {
        s
    }
}

/// `s` without its trailing whitespace.
pub open spec fn trim_end(s: Seq<char>) -> Seq<char>
    decreases s.len(),
{
    if s.len() > 0 && is_ws(s.last()) {
        trim_end(s.drop_last())
    } else {
        s
    }
}

/// `s` without leading and trailing whitespace, as `str::trim` gives it.
pub open spec fn trim(s: Seq<char>) -> Seq<char> {
    trim_end(trim_start(s))
}

proof fn lemma_trim_start_first(s: Seq<char>)
    ensures
        trim_start(s).len() > 0 ==> !is_ws(trim_start(s)[0]),
    decreases s.len(),
{
    if s.len() > 0 && is_ws(s[0]) {
        lemma_trim_start_first(s.drop_first());
    }
}

proof fn lemma_trim_end_prefix(s: Seq<char>)
    ensures
        trim_end(s).len() <= s.len(),
        trim_end(s) == s.take(trim_end(s).len() as int),
        trim_end(s).len() > 0 ==> !is_ws(trim_end(s).last()),
    decreases s.len(),
{
    if s.len() > 0 && is_ws(s.last()) {
        lemma_trim_end_prefix(s.drop_last());
        assert(s.drop_last().take(trim_end(s).len() as int) =~= s.take(trim_end(s).len() as int));
    } else {
        assert(s.take(s.len() as int) =~= s);
    }
}

/// Trimming twice is trimming once.
pub proof fn lemma_trim_idempotent(s: Seq<char>)
    ensures
        trim(trim(s)) == trim(s),
{
    let x = trim_start(s);
    let t = trim(s);
    lemma_trim_start_first(s);
    lemma_trim_end_prefix(x);
    if t.len() > 0 {
        assert(t[0] == x[0]);
        assert(trim_start(t) == t);
        assert(trim_end(t) == t);
    } else {
        assert(trim_start(t) == t);
        assert(trim_end(t) == t);
    }
}

proof fn lemma_trim_start_index(s: Seq<char>, i: int)
    requires
        0 <= i <= s.len(),
        forall|k: int| 0 <= k < i ==> is_ws(#[trigger] s[k]),
        i == s.len() || !is_ws(s[i]),
    ensures
        trim_start(s) == s.subrange(i, s.len() as int),
    decreases i,
{
    if i > 0 {
        assert(s.len() > 0 && is_ws(s[0]));
        let t = s.drop_first();
        assert forall|k: int| 0 <= k < i - 1 implies is_ws(#[trigger] t[k]) by {
            assert(t[k] == s[k + 1]);
        }
        lemma_trim_start_index(t, i - 1);
        assert(t.subrange(i - 1, t.len() as int) =~= s.subrange(i, s.len() as int));
    } else {
        assert(s.subrange(0, s.len() as int) =~= s);
    }
}

proof fn lemma_trim_end_index(s: Seq<char>, j: int)
    requires
        0 <= j <= s.len(),
        forall|k: int| j <= k < s.len() ==> is_ws(#[trigger] s[k]),
        j == 0 || !is_ws(s[j - 1]),
    ensures
        trim_end(s) == s.subrange(0, j),
    decreases s.len() - j,
{
    if j < s.len() {
        assert(is_ws(s.last()));
        let t = s.drop_last();
        assert forall|k: int| j <= k < t.len() implies is_ws(#[trigger] t[k]) by {
            assert(t[k] == s[k]);
        }
        lemma_trim_end_index(t, j);
        assert(t.subrange(0, j) =~= s.subrange(0, j));
    } else {
        assert(s.subrange(0, j) =~= s);
    }
}

/// The characters of `s` between `lo` and `hi`, trimmed of whitespace.
pub fn trimmed_range(s: &Vec<char>, lo: usize, hi: usize) -> (out: Vec<char>)
    requires
        lo <= hi <= s@.len(),
    ensures
        out@ == trim(s@.subrange(lo as int, hi as int)),
{
    let ghost w = s@.subrange(lo as int, hi as int);
    let mut i = lo;
    while i < hi && is_whitespace(s[i])
        invariant
            lo <= i <= hi <= s@.len(),
            w == s@.subrange(lo as int, hi as int),
            forall|k: int| 0 <= k < i - lo ==> is_ws(#[trigger] w[k]),
        decreases hi - i,
    {
        i += 1;
    }
    proof {
        lemma_trim_start_index(w, i - lo);
    }
    let ghost v = w.subrange(i - lo, w.len() as int);
    let mut j = hi;
    while j > i && is_whitespace(s[j - 1])
        invariant
            lo <= i <= j <= hi <= s@.len(),
            w == s@.subrange(lo as int, hi as int),
            v == w.subrange(i - lo, w.len() as int),
            forall|k: int| j - i <= k < v.len() ==> is_ws(#[trigger] v[k]),
        decreases j - i,
    {
        j -= 1;
    }
    proof {
        lemma_trim_end_index(v, j - i);
    }
    let mut out: Vec<char> = Vec::new();
    let mut k = i;
    while k < j
        invariant
            i <= k <= j <= s@.len(),
            out@ == s@.subrange(i as int, k as int),
        decreases j - k,
    {
        out.push(s[k]);
        assert(s@.subrange(i as int, k as int).push(s@[k as int]) =~= s@.subrange(
            i as int,
            k + 1,
        ));
        k += 1;
    }
    assert(v.subrange(0, j - i) =~= s@.subrange(i as int, j as int));
    out
}

/// The pieces of `s` between occurrences of `sep`, as `str::split` yields them
/// for a single-character pattern (there is always at least one piece).
pub open spec fn split_on(s: Seq<char>, sep: char) -> Seq<Seq<char>>
    decreases s.len(),
{
    if s.len() == 0 {
        seq![Seq::<char>::empty()]
    } else {
        let prev = split_on(s.drop_last(), sep);
        if s.last() == sep {
            prev.push(Seq::<char>::empty())
        } else {
            prev.update(prev.len() - 1, prev.last().push(s.last()))
        }
    }
}

pub proof fn lemma_split_on_nonempty(s: Seq<char>, sep: char)
    ensures
        split_on(s, sep).len() >= 1,
    decreases s.len(),
{
    if s.len() > 0 {
        lemma_split_on_nonempty(s.drop_last(), sep);
    }
}

/// Lexicographic order on character sequences, by code point. Because UTF-8
/// preserves code-point order, this is the order `str`'s `<` gives.
pub open spec fn seq_lt(a: Seq<char>, b: Seq<char>) -> bool
    decreases a.len(),
{
    if a.len() == 0 {
        b.len() > 0
    } else if b.len() == 0 {
        false
    } else if a[0] < b[0] {
        true
    } else if a[0] == b[0] {
        seq_lt(a.drop_first(), b.drop_first())
    } else {
        false
    }
}

pub proof fn lemma_seq_lt_irreflexive(a: Seq<char>)
    ensures
        !seq_lt(a, a),
    decreases a.len(),
{
    if a.len() > 0 {
        lemma_seq_lt_irreflexive(a.drop_first());
    }
}

pub proof fn lemma_seq_lt_transitive(a: Seq<char>, b: Seq<char>, c: Seq<char>)
    requires
        seq_lt(a, b),
        seq_lt(b, c),
    ensures
        seq_lt(a, c),
    decreases a.len(),
{
    if a.len() > 0 && b.len() > 0 && c.len() > 0 {
        if a[0] == b[0] && b[0] == c[0] {
            lemma_seq_lt_transitive(a.drop_first(), b.drop_first(), c.drop_first());
        }
    }
}

pub proof fn lemma_seq_lt_total(a: Seq<char>, b: Seq<char>)
    ensures
        seq_lt(a, b) || seq_lt(b, a) || a == b,
    decreases a.len(),
{
    if a.len() > 0 && b.len() > 0 {
        if a[0] == b[0] {
            lemma_seq_lt_total(a.drop_first(), b.drop_first());
            if a.drop_first() == b.drop_first() {
                assert(a =~= seq![a[0]] + a.drop_first());
                assert(b =~= seq![b[0]] + b.drop_first());
            }
        }
    } else if a.len() == 0 && b.len() == 0 {
        assert(a =~= b);
    }
}

/// Whether `a` comes strictly before `b` in lexicographic order.
pub fn chars_lt(a: &Vec<char>, b: &Vec<char>) -> (r: bool)
    ensures
        r == seq_lt(a@, b@),
{
    let mut i: usize = 0;
    assert(a@.skip(0) =~= a@ && b@.skip(0) =~= b@);
    while i < a.len() && i < b.len() && a[i] == b[i]
        invariant
            i <= a@.len(),
            i <= b@.len(),
            forall|k: int| 0 <= k < i ==> a@[k] == b@[k],
            seq_lt(a@, b@) == seq_lt(a@.skip(i as int), b@.skip(i as int)),
        decreases a@.len() - i,
    {
        proof {
            let x = a@.skip(i as int);
            let y = b@.skip(i as int);
            assert(x.drop_first() =~= a@.skip(i + 1));
            assert(y.drop_first() =~= b@.skip(i + 1));
        }
        i += 1;
    }
    if i == a.len() {
        i < b.len()
    } else if i == b.len() {
        false
    } else {
        a[i] < b[i]
    }
}

/// Whether `a` comes strictly before `b` in lexicographic order.
pub fn str_lt(a: &str, b: &str) -> (r: bool)
    ensures
        r == seq_lt(a@, b@),
{
    let x = chars_of(a);
    let y = chars_of(b);
    chars_lt(&x, &y)
}

/// The trimmed, non-blank pieces of a list, in order.
pub open spec fn nonblank_trimmed(pieces: Seq<Seq<char>>) -> Seq<Seq<char>>
    decreases pieces.len(),
{
    if pieces.len() == 0 {
        Seq::empty()
    } else {
        let prev = nonblank_trimmed(pieces.drop_last());
        if trim(pieces.last()).len() > 0 {
            prev.push(trim(pieces.last()))
        } else {
            prev
        }
    }
}

/// The comma-separated tokens of `s`, each trimmed, blanks dropped.
pub open spec fn comma_tokens(s: Seq<char>) -> Seq<Seq<char>> {
    nonblank_trimmed(split_on(s, ','))
}

/// The tokens of `s` between commas, trimmed, without the blank ones, in order.
pub fn comma_separated_tokens(s: &str) -> (out: Vec<String>)
    ensures
        crate::ordered::views(out@) == comma_tokens(s@),
{
    let cs = chars_of(s);
    let mut out: Vec<String> = Vec::new();
    let mut start: usize = 0;
    let mut i: usize = 0;
    let ghost mut done: Seq<Seq<char>> = Seq::empty();
    proof {
        assert(cs@.take(0) =~= Seq::<char>::empty());
        assert(cs@.subrange(0, 0) =~= Seq::<char>::empty());
        assert(split_on(cs@.take(0), ',') =~= done.push(cs@.subrange(0, 0)));
    }
    while i < cs.len()
        invariant
            cs@ == s@,
            start <= i <= cs@.len(),
            split_on(cs@.take(i as int), ',') == done.push(cs@.subrange(start as int, i as int)),
            crate::ordered::views(out@) == nonblank_trimmed(done),
        decreases cs@.len() - i,
    {
        let ghost t = cs@.take(i + 1);
        proof {
            assert(t.drop_last() =~= cs@.take(i as int));
            assert(t.last() == cs@[i as int]);
        }
        if cs[i] == ',' {
            let piece = trimmed_range(&cs, start, i);
            let ghost before = crate::ordered::views(out@);
            if piece.len() > 0 {
                let ps = string_of(piece.as_slice());
                out.push(ps);
                assert(crate::ordered::views(out@) =~= before.push(ps@));
            }
            proof {
                let old_done = done;
                done = done.push(cs@.subrange(start as int, i as int));
                assert(done.drop_last() =~= old_done);
                assert(cs@.subrange(i + 1, i + 1) =~= Seq::<char>::empty());
            }
            start = i + 1;
        } else {
            proof {
                assert(cs@.subrange(start as int, i as int).push(cs@[i as int]) =~= cs@.subrange(
                    start as int,
                    i + 1,
                ));
                let prev = done.push(cs@.subrange(start as int, i as int));
                assert(prev.update(prev.len() - 1, prev.last().push(cs@[i as int])) =~= done.push(
                    cs@.subrange(start as int, i + 1),
                ));
            }
        }
        i += 1;
    }
    let last_piece = trimmed_range(&cs, start, cs.len());
    let ghost before = crate::ordered::views(out@);
    if last_piece.len() > 0 {
        let ps = string_of(last_piece.as_slice());
        out.push(ps);
        assert(crate::ordered::views(out@) =~= before.push(ps@));
    }
    proof {
        assert(cs@.take(cs@.len() as int) =~= cs@);
        let all = done.push(cs@.subrange(start as int, cs@.len() as int));
        assert(all.drop_last() =~= done);
    }
    out
}

/// ASCII letters folded to lower case; other characters unchanged.
pub open spec fn ascii_lower_char(c: char) -> char {
    if 'A' <= c && c <= 'Z' {
        ((c as u32) + 32) as char
    } else {
        c
    }
}

/// `s` with ASCII letters folded to lower case (as `to_ascii_lowercase`).
pub open spec fn ascii_lower(s: Seq<char>) -> Seq<char> {
    s.map_values(|c: char| ascii_lower_char(c))
}

/// Folds ASCII letters of `s` to lower case.
pub fn to_ascii_lower(s: &str) -> (out: String)
    ensures
        out@ == ascii_lower(s@),
{
    let cs = chars_of(s);
    let mut out = String::new();
    let mut i: usize = 0;
    while i < cs.len()
        invariant
            i <= cs@.len(),
            cs@ == s@,
            out@ == ascii_lower(cs@.take(i as int)),
        decreases cs@.len() - i,
    {
        let c = cs[i];
        let lc = if 'A' <= c && c <= 'Z' {
            let b = (c as u8) + 32;
            b as char
        } else {
            c
        };
        push_char(&mut out, lc);
        proof {
            assert(ascii_lower(cs@.take(i + 1)) =~= ascii_lower(cs@.take(i as int)).push(ascii_lower_char(c)));
        }
        i += 1;
    }
    assert(cs@.take(cs@.len() as int) =~= cs@);
    out
}

/// The decimal digits of `n`, without leading zeros (`"0"` for zero).
pub open spec fn decimal(n: nat) -> Seq<char>
    decreases n,
{
    if n < 10 {
        seq![digit_char(n)]
    } else {
        decimal(n / 10).push(digit_char(n % 10))
    }
}

/// The character of a decimal digit.
pub open spec fn digit_char(d: nat) -> char {
    if d == 0 { '0' }
    else if d == 1 { '1' }
    else if d == 2 { '2' }
    else if d == 3 { '3' }
    else if d == 4 { '4' }
    else if d == 5 { '5' }
    else if d == 6 { '6' }
    else if d == 7 { '7' }
    else if d == 8 { '8' }
    else { '9' }
}

fn digit(d: u64) -> (c: char)
    requires
        d < 10,
    ensures
        c == digit_char(d as nat),
{
    if d == 0 { '0' }
    else if d == 1 { '1' }
    else if d == 2 { '2' }
    else if d == 3 { '3' }
    else if d == 4 { '4' }
    else if d == 5 { '5' }
    else if d == 6 { '6' }
    else if d == 7 { '7' }
    else if d == 8 { '8' }
    else { '9' }
}

/// `n` written in decimal, as `{}` formats an unsigned integer.
pub fn decimal_string(n: u64) -> (out: String)
    ensures
        out@ == decimal(n as nat),
    decreases n,
{
    if n < 10 {
        let mut out = String::new();
        push_char(&mut out, digit(n));
        out
    } else {
        let mut out = decimal_string(n / 10);
        push_char(&mut out, digit(n % 10));
        out
    }
}

/// The pieces of `s` between occurrences of `sep`, as `str::split` yields them.
pub fn split_pieces(s: &str, sep: char) -> (out: Vec<String>)
    ensures
        crate::ordered::views(out@) == split_on(s@, sep),
{
    let cs = chars_of(s);
    let mut out: Vec<String> = Vec::new();
    let mut start: usize = 0;
    let mut i: usize = 0;
    proof {
        assert(cs@.take(0) =~= Seq::<char>::empty());
        assert(cs@.subrange(0, 0) =~= Seq::<char>::empty());
        assert(split_on(cs@.take(0), sep) =~= crate::ordered::views(out@).push(cs@.subrange(0, 0)));
    }
    while i < cs.len()
        invariant
            cs@ == s@,
            start <= i <= cs@.len(),
            split_on(cs@.take(i as int), sep) == crate::ordered::views(out@).push(cs@.subrange(start as int, i as int)),
        decreases cs@.len() - i,
    {
        let ghost t = cs@.take(i + 1);
        proof {
            assert(t.drop_last() =~= cs@.take(i as int));
            assert(t.last() == cs@[i as int]);
        }
        if cs[i] == sep {
            let piece = string_of(&cs.as_slice()[start..i]);
            let ghost before = crate::ordered::views(out@);
            out.push(piece);
            proof {
                assert(cs@.subrange(start as int, i as int) =~= piece@);
                assert(crate::ordered::views(out@) =~= before.push(piece@));
                assert(cs@.subrange(i + 1, i + 1) =~= Seq::<char>::empty());
            }
            start = i + 1;
        } else {
            proof {
                assert(cs@.subrange(start as int, i as int).push(cs@[i as int]) =~= cs@.subrange(
                    start as int,
                    i + 1,
                ));
                let prev = crate::ordered::views(out@).push(cs@.subrange(start as int, i as int));
                assert(prev.update(prev.len() - 1, prev.last().push(cs@[i as int])) =~= crate::ordered::views(out@).push(
                    cs@.subrange(start as int, i + 1),
                ));
            }
        }
        i += 1;
    }
    let piece = string_of(&cs.as_slice()[start..cs.len()]);
    let ghost before = crate::ordered::views(out@);
    out.push(piece);
    proof {
        assert(cs@.take(cs@.len() as int) =~= cs@);
        assert(cs@.subrange(start as int, cs@.len() as int) =~= piece@);
        assert(crate::ordered::views(out@) =~= before.push(piece@));
    }
    out
}

/// An ASCII decimal digit.
pub open spec fn is_digit(c: char) -> bool {
    '0' <= c && c <= '9'
}

/// The value of a string of decimal digits.
pub open spec fn digits_value(s: Seq<char>) -> nat
    decreases s.len(),
{
    if s.len() == 0 {
        0
    } else {
        digits_value(s.drop_last()) * 10 + ((s.last() as u32) - ('0' as u32)) as nat
    }
}

/// What `str::parse` gives for an unsigned integer type whose largest value
/// is `max`: an optional `+` and then one or more decimal digits whose value
/// is at most `max`; anything else is an error.
pub open spec fn spec_parse_uint(s: Seq<char>, max: nat) -> Option<nat> {
    if all_digits(unsigned_part(s)) && digits_value(unsigned_part(s)) <= max {
        Some(digits_value(unsigned_part(s)))
    } else {
        None
    }
}

/// What `str::parse::<u32>` gives.
pub open spec fn spec_parse_u32(s: Seq<char>) -> Option<u32> {
    match spec_parse_uint(s, u32::MAX as nat) {
        Some(v) => Some(v as u32),
        None => None,
    }
}

/// The text after one leading `+`, if there is one.
pub open spec fn unsigned_part(s: Seq<char>) -> Seq<char> {
    if s.len() > 0 && s[0] == '+' { s.drop_first() } else { s }
}

/// One or more characters, all decimal digits.
pub open spec fn all_digits(d: Seq<char>) -> bool {
    d.len() > 0 && forall|i: int| 0 <= i < d.len() ==> is_digit(#[trigger] d[i])
}

proof fn lemma_digits_value_monotone(s: Seq<char>, i: int)
    requires
        0 <= i <= s.len(),
        forall|k: int| 0 <= k < s.len() ==> is_digit(#[trigger] s[k]),
    ensures
        digits_value(s.take(i)) <= digits_value(s),
    decreases s.len() - i,
{
    if i < s.len() {
        lemma_digits_value_monotone(s, i + 1);
        let t = s.take(i + 1);
        assert(t.drop_last() =~= s.take(i));
        assert(is_digit(t.last()));
    } else {
        assert(s.take(i) =~= s);
    }
}

/// Parses a decimal unsigned integer no larger than `max`, as `str::parse`
/// does for an unsigned type whose largest value is `max`.
pub fn parse_uint(s: &str, max: u64) -> (r: Option<u64>)
    ensures
        match spec_parse_uint(s@, max as nat) {
            Some(v) => r == Some(v as u64),
            None => r is None,
        },
{
    let cs = chars_of(s);
    let mut start: usize = 0;
    if cs.len() > 0 && cs[0] == '+' {
        start = 1;
    }
    let ghost d = unsigned_part(s@);
    proof {
        assert(cs@.skip(start as int) =~= d);
    }
    if start == cs.len() {
        return None;
    }
    let mut value: u64 = 0;
    let mut i: usize = start;
    while i < cs.len()
        invariant
            cs@ == s@,
            start <= i <= cs@.len(),
            d == cs@.skip(start as int),
            d == unsigned_part(s@),
            d.len() > 0,
            forall|k: int| start <= k < i ==> is_digit(#[trigger] cs@[k]),
            value == digits_value(d.take(i - start)),
            value <= max,
        decreases cs@.len() - i,
    {
        let c = cs[i];
        if !('0' <= c && c <= '9') {
            proof {
                assert(d[i - start] == cs@[i as int]);
                assert(!is_digit(d[i - start]));
                assert(!all_digits(d));
            }
            return None;
        }
        let dv = (c as u32) - ('0' as u32);
        proof {
            let t = d.take(i - start + 1);
            assert(t.drop_last() =~= d.take(i - start));
            assert(d[i - start] == cs@[i as int]);
            assert(t.last() == c);
        }
        if dv as u64 > max || value > (max - dv as u64) / 10 {
            proof {
                let t = d.take(i - start + 1);
                assert(digits_value(t) == value * 10 + dv);
                if dv <= max {
                    assert(value * 10 + dv > max) by (nonlinear_arith)
                        requires
                            value > (max - dv) / 10,
                            dv <= max,
                    ;
                }
                assert(forall|k: int| 0 <= k < i - start + 1 ==> is_digit(#[trigger] d.take(i - start + 1)[k]));
                if all_digits(d) {
                    lemma_digits_value_monotone(d, i - start + 1);
                }
            }
            return None;
        }
        let next = value * 10 + dv as u64;
        proof {
            let t = d.take(i - start + 1);
            assert(next == digits_value(t));
        }
        value = next;
        i += 1;
    }
    proof {
        assert(d.take(d.len() as int) =~= d);
    }
    Some(value)
}

/// Parses a decimal `u32` as `str::parse::<u32>` does.
pub fn parse_u32(s: &str) -> (r: Option<u32>)
    ensures
        r == spec_parse_u32(s@),
{
    match parse_uint(s, 4294967295u64) {
        Some(v) => Some(v as u32),
        None => None,
    }
}

/// `s` without leading and trailing whitespace (`str::trim`).
pub fn trim_string(s: &str) -> (out: String)
    ensures
        out@ == trim(s@),
{
    let cs = chars_of(s);
    let t = trimmed_range(&cs, 0, cs.len());
    assert(cs@.subrange(0, cs@.len() as int) =~= s@);
    string_of(t.as_slice())
}

/// `n` written in decimal with a leading `-` when negative, as `{}` formats
/// a signed integer.
pub open spec fn signed_decimal(n: int) -> Seq<char> {
    if n < 0 { seq!['-'] + decimal((-n) as nat) } else { decimal(n as nat) }
}

/// `n` written in decimal, as `{}` formats an `i64`.
pub fn signed_decimal_string(n: i64) -> (out: String)
    ensures
        out@ == signed_decimal(n as int),
{
    if n < 0 {
        let magnitude: u64 = if n == i64::MIN { 9223372036854775808u64 } else { (-n) as u64 };
        let digits = decimal_string(magnitude);
        let mut out = String::new();
        push_char(&mut out, '-');
        out.append(digits.as_str());
        assert(out@ =~= seq!['-'] + decimal((-n) as nat));
        out
    } else {
        decimal_string(n as u64)
    }
}

} // verus!
