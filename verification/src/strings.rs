//! Text primitives: each executable function works on `&str` and is specified
//! over the sequence of characters that the string holds.

use vstd::prelude::*;

verus! {

// ── Whitespace and trimming ─────────────────────────────────────────────

/// The Unicode `White_Space` characters.
pub open spec fn is_white_space(c: char) -> bool {
    let u = c as u32;
    ||| 0x09 <= u <= 0x0d
    ||| u == 0x20
    ||| u == 0x85
    ||| u == 0xa0
    ||| u == 0x1680
    ||| 0x2000 <= u <= 0x200a
    ||| u == 0x2028
    ||| u == 0x2029
    ||| u == 0x202f
    ||| u == 0x205f
    ||| u == 0x3000
}

/// `s` without its leading whitespace.
pub open spec fn trim_start_of(s: Seq<char>) -> Seq<char>
    decreases s.len(),
{
    if s.len() > 0 && is_white_space(s[0]) {
        trim_start_of(s.skip(1))
    } else {
        s
    }
}

/// `s` without its trailing whitespace.
pub open spec fn trim_end_of(s: Seq<char>) -> Seq<char>
    decreases s.len(),
{
    if s.len() > 0 && is_white_space(s.last()) {
        trim_end_of(s.drop_last())
    } else {
        s
    }
}

/// `s` without leading and trailing whitespace.
pub open spec fn trim_of(s: Seq<char>) -> Seq<char> {
    trim_end_of(trim_start_of(s))
}

/// `s` without the trailing occurrences of `c`.
pub open spec fn trim_end_char_of(s: Seq<char>, c: char) -> Seq<char>
    decreases s.len(),
{
    if s.len() > 0 && s.last() == c {
        trim_end_char_of(s.drop_last(), c)
    } else {
        s
    }
}

// ── Searching and splitting ─────────────────────────────────────────────

/// Index of the first `c` in `s`, or `s.len()` when there is none.
pub open spec fn first_index(s: Seq<char>, c: char) -> int
    decreases s.len(),
{
    if s.len() == 0 || s[0] == c {
        0
    } else {
        1 + first_index(s.skip(1), c)
    }
}

/// Index of the last `c` in `s`, or -1 when there is none.
pub open spec fn last_index(s: Seq<char>, c: char) -> int
    decreases s.len(),
{
    if s.len() == 0 {
        -1
    } else if s.last() == c {
        s.len() - 1
    } else {
        last_index(s.drop_last(), c)
    }
}

/// The pieces of `s` between the occurrences of `sep`; there is always at
/// least one, possibly empty.
pub open spec fn split_of(s: Seq<char>, sep: char) -> Seq<Seq<char>>
    decreases s.len(),
{
    let i = first_index(s, sep);
    if 0 <= i < s.len() {
        seq![s.take(i)] + split_of(s.skip(i + 1), sep)
    } else {
        seq![s]
    }
}

/// Whether `pat` stands in `s` at index `i`.
pub open spec fn occurs_at(s: Seq<char>, pat: Seq<char>, i: int) -> bool {
    0 <= i && i + pat.len() <= s.len() && s.subrange(i, i + pat.len()) == pat
}

/// Whether `i` is where `pat` first occurs in `s`.
pub open spec fn first_occurrence(s: Seq<char>, pat: Seq<char>, i: int) -> bool {
    occurs_at(s, pat, i) && forall|j: int| 0 <= j < i ==> !occurs_at(s, pat, j)
}

/// `s` cut at the first occurrence of `pat`: what stands before it and what
/// stands behind it.
pub open spec fn split_once_of(s: Seq<char>, pat: Seq<char>) -> Option<(Seq<char>, Seq<char>)> {
    if exists|i: int| first_occurrence(s, pat, i) {
        let i = choose|i: int| first_occurrence(s, pat, i);
        Some((s.take(i), s.skip(i + pat.len())))
    } else {
        None
    }
}

// ── ASCII case ──────────────────────────────────────────────────────────

/// `c` with `A`..`Z` mapped to `a`..`z`.
pub open spec fn lower_char(c: char) -> char {
    if 'A' <= c <= 'Z' {
        ((c as u32) + 32) as char
    } else {
        c
    }
}

/// `s` with every `A`..`Z` mapped to `a`..`z`.
pub open spec fn lower_of(s: Seq<char>) -> Seq<char> {
    s.map_values(|c: char| lower_char(c))
}

// ── Decimal numbers ─────────────────────────────────────────────────────

/// Whether `c` is an ASCII digit.
pub open spec fn is_digit(c: char) -> bool {
    '0' <= c <= '9'
}

/// Whether `s` is one or more ASCII digits.
pub open spec fn is_digits(s: Seq<char>) -> bool {
    s.len() > 0 && forall|i: int| 0 <= i < s.len() ==> is_digit(#[trigger] s[i])
}

/// The number that the ASCII digits `s` write in base ten.
pub open spec fn digits_value(s: Seq<char>) -> int
    decreases s.len(),
{
    if s.len() == 0 {
        0
    } else {
        digits_value(s.drop_last()) * 10 + (s.last() as u32 - '0' as u32)
    }
}

/// The digits of `n` in base ten, without leading zeros.
pub open spec fn decimal_of(n: nat) -> Seq<char>
    decreases n,
{
    let digit = (('0' as u32) + n % 10) as char;
    if n < 10 {
        seq![digit]
    } else {
        decimal_of(n / 10).push(digit)
    }
}

/// The digits of `n` in base ten, behind a `-` where it is negative.
pub open spec fn signed_decimal_of(n: int) -> Seq<char> {
    if n < 0 {
        seq!['-'] + decimal_of((-n) as nat)
    } else {
        decimal_of(n as nat)
    }
}

/// The integer that `s` writes: an optional sign (`-` only where `signed`),
/// then one or more ASCII digits.
pub open spec fn integer_of(s: Seq<char>, signed: bool) -> Option<int> {
    let negative = signed && s.len() > 0 && s[0] == '-';
    let digits = if s.len() > 0 && (s[0] == '+' || negative) {
        s.skip(1)
    } else {
        s
    };
    if is_digits(digits) {
        Some(
            if negative {
                -digits_value(digits)
            } else {
                digits_value(digits)
            },
        )
    } else {
        None
    }
}

/// The `u16` that `s` writes.
pub open spec fn u16_of(s: Seq<char>) -> Option<u16> {
    match integer_of(s, false) {
        Some(n) => if n <= u16::MAX {
            Some(n as u16)
        } else {
            None
        },
        None => None,
    }
}

/// The `i64` that `s` writes.
pub open spec fn i64_of(s: Seq<char>) -> Option<i64> {
    match integer_of(s, true) {
        Some(n) => if i64::MIN <= n <= i64::MAX {
            Some(n as i64)
        } else {
            None
        },
        None => None,
    }
}

// ── Lemmas ──────────────────────────────────────────────────────────────

/// Where the first `c` stands.
pub proof fn lemma_first_index_is(s: Seq<char>, c: char, i: int)
    requires
        0 <= i <= s.len(),
        forall|j: int| 0 <= j < i ==> s[j] != c,
        i < s.len() ==> s[i] == c,
    ensures
        first_index(s, c) == i,
    decreases s.len(),
{
    if i > 0 {
        lemma_first_index_is(s.skip(1), c, i - 1);
    }
}

pub proof fn lemma_first_index(s: Seq<char>, c: char)
    ensures
        0 <= first_index(s, c) <= s.len(),
        forall|j: int| 0 <= j < first_index(s, c) ==> s[j] != c,
        first_index(s, c) < s.len() ==> s[first_index(s, c)] == c,
    decreases s.len(),
{
    if s.len() > 0 && s[0] != c {
        lemma_first_index(s.skip(1), c);
        assert forall|j: int| 0 <= j < first_index(s, c) implies s[j] != c by {
            if j > 0 {
                assert(s.skip(1)[j - 1] == s[j]);
            }
        }
    }
}

/// Where the last `c` stands.
pub proof fn lemma_last_index_is(s: Seq<char>, c: char, i: int)
    requires
        -1 <= i < s.len(),
        forall|j: int| i < j < s.len() ==> s[j] != c,
        i >= 0 ==> s[i] == c,
    ensures
        last_index(s, c) == i,
    decreases s.len(),
{
    if s.len() > 0 && i < s.len() - 1 {
        lemma_last_index_is(s.drop_last(), c, i);
    }
}

proof fn lemma_trim_start_is(s: Seq<char>, i: int)
    requires
        0 <= i <= s.len(),
        forall|j: int| 0 <= j < i ==> is_white_space(s[j]),
        i < s.len() ==> !is_white_space(s[i]),
    ensures
        trim_start_of(s) == s.skip(i),
    decreases s.len(),
{
    if i > 0 {
        lemma_trim_start_is(s.skip(1), i - 1);
        assert(s.skip(1).skip(i - 1) =~= s.skip(i));
    } else {
        assert(s.skip(0) =~= s);
    }
}

proof fn lemma_trim_end_is(s: Seq<char>, i: int)
    requires
        0 <= i <= s.len(),
        forall|j: int| i <= j < s.len() ==> is_white_space(s[j]),
        i > 0 ==> !is_white_space(s[i - 1]),
    ensures
        trim_end_of(s) == s.take(i),
    decreases s.len(),
{
    if i < s.len() {
        lemma_trim_end_is(s.drop_last(), i);
        assert(s.drop_last().take(i) =~= s.take(i));
    } else {
        assert(s.take(i) =~= s);
    }
}

proof fn lemma_trim_end_char_is(s: Seq<char>, c: char, i: int)
    requires
        0 <= i <= s.len(),
        forall|j: int| i <= j < s.len() ==> s[j] == c,
        i > 0 ==> s[i - 1] != c,
    ensures
        trim_end_char_of(s, c) == s.take(i),
    decreases s.len(),
{
    if i < s.len() {
        lemma_trim_end_char_is(s.drop_last(), c, i);
        assert(s.drop_last().take(i) =~= s.take(i));
    } else {
        assert(s.take(i) =~= s);
    }
}

/// A text is cut where `pat` first occurs.
pub proof fn lemma_split_once_is(s: Seq<char>, pat: Seq<char>, i: int)
    requires
        first_occurrence(s, pat, i),
    ensures
        split_once_of(s, pat) == Some((s.take(i), s.skip(i + pat.len()))),
{
    let k = choose|k: int| first_occurrence(s, pat, k);
    assert(k == i);
}

/// A digit string is worth at least as much as any of its beginnings.
proof fn lemma_digits_value_prefix(s: Seq<char>, i: int)
    requires
        0 <= i <= s.len(),
        forall|j: int| 0 <= j < s.len() ==> is_digit(#[trigger] s[j]),
    ensures
        0 <= digits_value(s.take(i)) <= digits_value(s),
    decreases s.len(),
{
    if s.len() == 0 {
        assert(s.take(i) =~= s);
    } else if i == s.len() {
        assert(s.take(i) =~= s);
        lemma_digits_value_prefix(s.drop_last(), s.len() - 1);
        assert(s.drop_last().take(s.len() - 1) =~= s.drop_last());
        assert(is_digit(s.last()));
    } else {
        lemma_digits_value_prefix(s.drop_last(), i);
        assert(s.drop_last().take(i) =~= s.take(i));
        assert(is_digit(s.last()));
    }
}

// ── Executable functions ────────────────────────────────────────────────

/// The characters of `s`.
pub fn chars_of(s: &str) -> (chars: Vec<char>)
    ensures
        chars@ == s@,
{
    let mut chars: Vec<char> = Vec::new();
    for c in it: s.chars()
        invariant
            chars@ == s@.take(it.index()),
            it.seq() == s@,
    {
        chars.push(c);
    }
    chars
}

/// Whether two strings hold the same characters.
pub fn same_text(a: &str, b: &str) -> (same: bool)
    ensures
        same == (a@ == b@),
{
    let x = chars_of(a);
    let y = chars_of(b);
    if x.len() != y.len() {
        return false;
    }
    for i in 0..x.len()
        invariant
            x.len() == y.len(),
            x@ == a@,
            y@ == b@,
            forall|j: int| 0 <= j < i ==> x@[j] == y@[j],
    {
        if x[i] != y[i] {
            return false;
        }
    }
    assert(a@ =~= b@);
    true
}

/// Whether `c` is a Unicode `White_Space` character.
fn white_space(c: char) -> (yes: bool)
    ensures
        yes == is_white_space(c),
{
    let u: u32 = c as u32;
    (0x09 <= u && u <= 0x0d) || u == 0x20 || u == 0x85 || u == 0xa0 || u == 0x1680 || (0x2000 <= u
        && u <= 0x200a) || u == 0x2028 || u == 0x2029 || u == 0x202f || u == 0x205f || u == 0x3000
}

/// `s` without leading and trailing whitespace.
pub fn trim(s: &str) -> (trimmed: &str)
    ensures
        trimmed@ == trim_of(s@),
{
    let chars = chars_of(s);
    let mut from: usize = 0;
    while from < chars.len() && white_space(chars[from])
        invariant
            chars@ == s@,
            from <= chars.len(),
            forall|j: int| 0 <= j < from ==> is_white_space(s@[j]),
        decreases chars.len() - from,
    {
        from = from + 1;
    }
    let mut to: usize = chars.len();
    while from < to && white_space(chars[to - 1])
        invariant
            chars@ == s@,
            from <= to <= chars.len(),
            forall|j: int| to <= j < chars.len() ==> is_white_space(s@[j]),
        decreases to,
    {
        to = to - 1;
    }
    proof {
        lemma_trim_start_is(s@, from as int);
        lemma_trim_end_is(s@.skip(from as int), to - from);
        assert(s@.skip(from as int).take(to - from) =~= s@.subrange(from as int, to as int));
    }
    s.substring_char(from, to)
}

/// `s` without the trailing occurrences of `c`.
pub fn trim_end_char(s: &str, c: char) -> (trimmed: &str)
    ensures
        trimmed@ == trim_end_char_of(s@, c),
{
    let chars = chars_of(s);
    let mut to: usize = chars.len();
    while 0 < to && chars[to - 1] == c
        invariant
            chars@ == s@,
            to <= chars.len(),
            forall|j: int| to <= j < chars.len() ==> s@[j] == c,
        decreases to,
    {
        to = to - 1;
    }
    proof {
        lemma_trim_end_char_is(s@, c, to as int);
        assert(s@.take(to as int) =~= s@.subrange(0, to as int));
    }
    s.substring_char(0, to)
}

/// The first piece of `s` reaches up to the first `sep`.
pub proof fn lemma_split_head(s: Seq<char>, sep: char)
    ensures
        split_of(s, sep).len() > 0,
        split_of(s, sep)[0] == s.take(first_index(s, sep)),
{
    lemma_first_index(s, sep);
    assert(s.take(s.len() as int) =~= s);
}

/// The pieces of `s` between the occurrences of `sep`.
pub fn split(s: &str, sep: char) -> (pieces: Vec<&str>)
    ensures
        pieces@.len() == split_of(s@, sep).len(),
        forall|i: int|
            0 <= i < pieces@.len() ==> (#[trigger] pieces@[i])@ == split_of(s@, sep)[i],
{
    let chars = chars_of(s);
    let mut pieces: Vec<&str> = Vec::new();
    let mut from: usize = 0;
    let mut at: usize = 0;
    assert(s@.skip(0) =~= s@);
    while at < chars.len()
        invariant
            chars@ == s@,
            from <= at <= chars.len(),
            forall|j: int| from <= j < at ==> s@[j] != sep,
            pieces@.map_values(|p: &str| p@) + split_of(s@.skip(from as int), sep) == split_of(
                s@,
                sep,
            ),
        decreases chars.len() - at,
    {
        if chars[at] == sep {
            let ghost rest = s@.skip(from as int);
            let ghost before = pieces@;
            let piece = s.substring_char(from, at);
            pieces.push(piece);
            proof {
                lemma_first_index_is(rest, sep, at - from);
                assert(rest.take(at - from) =~= piece@);
                assert(rest.skip(at - from + 1) =~= s@.skip(at + 1));
                assert(pieces@.map_values(|p: &str| p@) =~= before.map_values(|p: &str| p@).push(
                    piece@,
                ));
                assert(before.map_values(|p: &str| p@).push(piece@) + split_of(
                    s@.skip(at + 1),
                    sep,
                ) =~= before.map_values(|p: &str| p@) + (seq![piece@] + split_of(
                    s@.skip(at + 1),
                    sep,
                )));
            }
            from = at + 1;
        }
        at = at + 1;
    }
    let ghost before = pieces@;
    let piece = s.substring_char(from, at);
    pieces.push(piece);
    proof {
        let rest = s@.skip(from as int);
        lemma_first_index_is(rest, sep, rest.len() as int);
        assert(rest =~= piece@);
        assert(pieces@.map_values(|p: &str| p@) =~= before.map_values(|p: &str| p@) + seq![piece@]);
        assert forall|i: int| 0 <= i < pieces@.len() implies (#[trigger] pieces@[i])@ == split_of(
            s@,
            sep,
        )[i] by {
            assert(pieces@.map_values(|p: &str| p@)[i] == pieces@[i]@);
        }
    }
    pieces
}

/// What stands in `s` behind the prefix `prefix`, if `s` starts with it.
pub fn strip_prefix<'a>(s: &'a str, prefix: &str) -> (rest: Option<&'a str>)
    ensures
        match rest {
            Some(r) => prefix@.is_prefix_of(s@) && r@ == s@.skip(prefix@.len() as int),
            None => !prefix@.is_prefix_of(s@),
        },
{
    let x = chars_of(s);
    let y = chars_of(prefix);
    if x.len() < y.len() {
        return None;
    }
    for i in 0..y.len()
        invariant
            y.len() <= x.len(),
            x@ == s@,
            y@ == prefix@,
            forall|j: int| 0 <= j < i ==> x@[j] == y@[j],
    {
        if x[i] != y[i] {
            assert(s@.subrange(0, prefix@.len() as int)[i as int] != prefix@[i as int]);
            return None;
        }
    }
    assert(prefix@ =~= s@.subrange(0, prefix@.len() as int));
    assert(s@.skip(prefix@.len() as int) =~= s@.subrange(prefix@.len() as int, s@.len() as int));
    Some(s.substring_char(y.len(), x.len()))
}

/// Whether `s` ends with the character `c`.
pub fn ends_with_char(s: &str, c: char) -> (yes: bool)
    ensures
        yes == (s@.len() > 0 && s@.last() == c),
{
    let chars = chars_of(s);
    chars.len() > 0 && chars[chars.len() - 1] == c
}

/// `s` cut at the first occurrence of `pat`.
pub fn split_once<'a>(s: &'a str, pat: &str) -> (parts: Option<(&'a str, &'a str)>)
    requires
        pat@.len() > 0,
    ensures
        match parts {
            Some((before, behind)) => split_once_of(s@, pat@) == Some((before@, behind@)),
            None => split_once_of(s@, pat@) is None,
        },
{
    let x = chars_of(s);
    let y = chars_of(pat);
    let mut i: usize = 0;
    while i < x.len() && y.len() <= x.len() - i
        invariant
            x@ == s@,
            y@ == pat@,
            pat@.len() > 0,
            i <= x.len(),
            forall|j: int| 0 <= j < i ==> !occurs_at(s@, pat@, j),
        decreases x.len() - i,
    {
        let mut k: usize = 0;
        while k < y.len() && x[i + k] == y[k]
            invariant
                x@ == s@,
                y@ == pat@,
                k <= y.len(),
                i + y.len() <= x.len(),
                forall|j: int| 0 <= j < k ==> x@[i + j] == y@[j],
            decreases y.len() - k,
        {
            k = k + 1;
        }
        if k == y.len() {
            proof {
                assert(s@.subrange(i as int, i + pat@.len()) =~= pat@);
                lemma_split_once_is(s@, pat@, i as int);
                assert(s@.take(i as int) =~= s@.subrange(0, i as int));
                assert(s@.skip(i + pat@.len()) =~= s@.subrange(i + pat@.len(), s@.len() as int));
            }
            return Some((s.substring_char(0, i), s.substring_char(i + y.len(), x.len())));
        }
        assert(s@.subrange(i as int, i + pat@.len())[k as int] != pat@[k as int]);
        i = i + 1;
    }
    None
}

/// `s` cut at the last `c`.
pub fn rsplit_once_char(s: &str, c: char) -> (parts: Option<(&str, &str)>)
    ensures
        match parts {
            Some((before, behind)) => {
                let i = last_index(s@, c);
                0 <= i < s@.len() && before@ == s@.take(i) && behind@ == s@.skip(i + 1)
            },
            None => last_index(s@, c) == -1,
        },
{
    let chars = chars_of(s);
    let mut end: usize = chars.len();
    while 0 < end
        invariant
            chars@ == s@,
            end <= chars.len(),
            forall|j: int| end <= j < chars.len() ==> s@[j] != c,
        decreases end,
    {
        if chars[end - 1] == c {
            proof {
                lemma_last_index_is(s@, c, end - 1);
                assert(s@.take(end - 1) =~= s@.subrange(0, end - 1));
                assert(s@.skip(end as int) =~= s@.subrange(end as int, s@.len() as int));
            }
            return Some((s.substring_char(0, end - 1), s.substring_char(end, chars.len())));
        }
        end = end - 1;
    }
    proof {
        lemma_last_index_is(s@, c, -1);
    }
    None
}

/// `c` with `A`..`Z` mapped to `a`..`z`.
fn lower(c: char) -> (l: char)
    ensures
        l == lower_char(c),
{
    if 'A' <= c && c <= 'Z' {
        let b: u8 = c as u8 + 32;
        b as char
    } else {
        c
    }
}

/// Whether two strings agree up to ASCII case.
pub fn eq_ignore_ascii_case(a: &str, b: &str) -> (same: bool)
    ensures
        same == (lower_of(a@) == lower_of(b@)),
{
    let x = chars_of(a);
    let y = chars_of(b);
    if x.len() != y.len() {
        assert(lower_of(a@).len() != lower_of(b@).len());
        return false;
    }
    for i in 0..x.len()
        invariant
            x.len() == y.len(),
            x@ == a@,
            y@ == b@,
            forall|j: int| 0 <= j < i ==> lower_char(x@[j]) == lower_char(y@[j]),
    {
        if lower(x[i]) != lower(y[i]) {
            assert(lower_of(a@)[i as int] != lower_of(b@)[i as int]);
            return false;
        }
    }
    assert(lower_of(a@) =~= lower_of(b@));
    true
}

/// `n` written in base ten.
pub fn decimal(n: u64) -> (text: String)
    ensures
        text@ == decimal_of(n as nat),
    decreases n,
{
    let digit: u8 = 48 + (n % 10) as u8;
    let last: char = digit as char;
    let mut text = if n < 10 {
        String::new()
    } else {
        decimal(n / 10)
    };
    push_char(&mut text, last);
    assert(text@ =~= decimal_of(n as nat));
    text
}

/// Appends one ASCII character.
fn push_char(text: &mut String, c: char)
    requires
        '0' <= c <= '9',
    ensures
        final(text)@ == old(text)@.push(c),
{
    let digits = "0123456789";
    let at: usize = (c as u8 - 48) as usize;
    proof {
        reveal_strlit("0123456789");
        assert(digits@.subrange(at as int, at + 1) =~= seq![c]);
        assert(text@ + seq![c] =~= text@.push(c));
    }
    text.append(digits.substring_char(at, at + 1));
}

/// The magnitude that the digits `chars[from..]` write, capped at `cap`
/// (`None` beyond it, or when they are not digits, or when there are none).
fn magnitude(chars: &Vec<char>, from: usize, cap: u64) -> (value: Option<u64>)
    requires
        from <= chars.len(),
        9 <= cap <= 0x8000_0000_0000_0000,
    ensures
        ({
            let digits = chars@.skip(from as int);
            match value {
                Some(v) => is_digits(digits) && v == digits_value(digits) && v <= cap,
                None => !is_digits(digits) || digits_value(digits) > cap,
            }
        }),
{
    let ghost digits = chars@.skip(from as int);
    if from == chars.len() {
        return None;
    }
    let mut v: u64 = 0;
    let mut i: usize = from;
    while i < chars.len()
        invariant
            from <= i <= chars.len(),
            9 <= cap <= 0x8000_0000_0000_0000,
            digits == chars@.skip(from as int),
            forall|j: int| 0 <= j < i - from ==> is_digit(#[trigger] digits[j]),
            v == digits_value(digits.take(i - from)),
            v <= cap,
        decreases chars.len() - i,
    {
        let c = chars[i];
        assert(digits[i - from] == c);
        if !('0' <= c && c <= '9') {
            return None;
        }
        let d: u64 = (c as u8 - 48) as u64;
        assert(digits.take(i - from + 1).drop_last() =~= digits.take(i - from));
        assert(digits_value(digits.take(i - from + 1)) == v * 10 + d);
        if v > (cap - d) / 10 {
            proof {
                assert(digits_value(digits.take(i - from + 1)) > cap);
                if is_digits(digits) {
                    lemma_digits_value_prefix(digits, i - from + 1);
                }
            }
            return None;
        }
        v = v * 10 + d;
        i = i + 1;
    }
    assert(digits.take(i - from) =~= digits);
    Some(v)
}

/// The `u16` that `s` writes, an optional `+` allowed.
pub fn parse_u16(s: &str) -> (value: Option<u16>)
    ensures
        value == u16_of(s@),
{
    let chars = chars_of(s);
    let from: usize = if chars.len() > 0 && chars[0] == '+' {
        1
    } else {
        0
    };
    assert(s@.skip(0) =~= s@);
    match magnitude(&chars, from, 0xffff) {
        Some(v) => Some(v as u16),
        None => None,
    }
}

/// The `i64` that `s` writes, an optional sign allowed.
pub fn parse_i64(s: &str) -> (value: Option<i64>)
    ensures
        value == i64_of(s@),
{
    let chars = chars_of(s);
    assert(s@.skip(0) =~= s@);
    if chars.len() > 0 && chars[0] == '-' {
        match magnitude(&chars, 1, 0x8000_0000_0000_0000) {
            Some(v) => if v == 0x8000_0000_0000_0000 {
                Some(i64::MIN)
            } else {
                Some(-(v as i64))
            },
            None => None,
        }
    } else {
        let from: usize = if chars.len() > 0 && chars[0] == '+' {
            1
        } else {
            0
        };
        match magnitude(&chars, from, 0x7fff_ffff_ffff_ffff) {
            Some(v) => Some(v as i64),
            None => None,
        }
    }
}

/// A copy of an optional string.
pub fn copy_option(s: &Option<String>) -> (copy: Option<String>)
    ensures
        option_text(copy) == option_text(*s),
{
    match s {
        Some(t) => Some(t.clone()),
        None => None,
    }
}

/// The characters of an optional string.
pub open spec fn option_text(s: Option<String>) -> Option<Seq<char>> {
    match s {
        Some(t) => Some(t@),
        None => None,
    }
}

/// The characters of an optional string slice.
pub open spec fn option_str(s: Option<&str>) -> Option<Seq<char>> {
    match s {
        Some(t) => Some(t@),
        None => None,
    }
}

/// Decimal digits read back as the number that they write.
pub proof fn lemma_decimal_reads_back(n: nat)
    ensures
        is_digits(decimal_of(n)),
        digits_value(decimal_of(n)) == n,
    decreases n,
{
    let text = decimal_of(n);
    if n < 10 {
        assert(text.drop_last() =~= seq![]);
        assert(digits_value(text.drop_last()) == 0);
    } else {
        lemma_decimal_reads_back(n / 10);
        assert(text.drop_last() =~= decimal_of(n / 10));
        assert forall|i: int| 0 <= i < text.len() implies is_digit(#[trigger] text[i]) by {
            if i < text.len() - 1 {
                assert(text[i] == decimal_of(n / 10)[i]);
            }
        }
    }
}

/// Digits agree with a text up to ASCII case only where they are that text.
pub proof fn lemma_digits_have_no_case(digits: Seq<char>, other: Seq<char>)
    requires
        is_digits(digits),
        lower_of(digits) == lower_of(other),
    ensures
        digits == other,
{
    assert(lower_of(digits).len() == digits.len());
    assert(lower_of(other).len() == other.len());
    assert forall|i: int| 0 <= i < digits.len() implies digits[i] == other[i] by {
        assert(lower_of(digits)[i] == lower_char(digits[i]));
        assert(lower_of(other)[i] == lower_char(other[i]));
        assert(is_digit(digits[i]));
    }
    assert(digits =~= other);
}

/// A text without whitespace at its ends stays as it is when trimmed.
pub proof fn lemma_nothing_to_trim(s: Seq<char>)
    requires
        s.len() > 0 ==> !is_white_space(s[0]) && !is_white_space(s.last()),
    ensures
        trim_of(s) == s,
{
    lemma_trim_start_is(s, 0);
    assert(s.skip(0) =~= s);
    lemma_trim_end_is(s, s.len() as int);
    assert(s.take(s.len() as int) =~= s);
}

/// Texts that agree up to ASCII case hold a character that is no letter at
/// the same last place.
pub proof fn lemma_last_index_ignores_case(a: Seq<char>, b: Seq<char>, c: char)
    requires
        lower_of(a) == lower_of(b),
        !('A' <= c <= 'Z') && !('a' <= c <= 'z'),
    ensures
        a.len() == b.len(),
        last_index(a, c) == last_index(b, c),
        -1 <= last_index(a, c) < a.len(),
    decreases a.len(),
{
    assert(lower_of(a).len() == a.len());
    assert(lower_of(b).len() == b.len());
    if a.len() > 0 {
        assert(lower_of(a).last() == lower_char(a.last()));
        assert(lower_of(b).last() == lower_char(b.last()));
        assert(lower_of(a.drop_last()) =~= lower_of(a).drop_last());
        assert(lower_of(b.drop_last()) =~= lower_of(b).drop_last());
        lemma_last_index_ignores_case(a.drop_last(), b.drop_last(), c);
    }
}

// ── Laws ────────────────────────────────────────────────────────────────

/// The whitespace that is trimmed is that of Unicode.
pub proof fn law_white_space(c: char)
    ensures
        is_white_space(c) <==> set![
            '\u{9}', '\u{a}', '\u{b}', '\u{c}', '\u{d}', ' ', '\u{85}', '\u{a0}', '\u{1680}',
            '\u{2000}', '\u{2001}', '\u{2002}', '\u{2003}', '\u{2004}', '\u{2005}', '\u{2006}',
            '\u{2007}', '\u{2008}', '\u{2009}', '\u{200a}', '\u{2028}', '\u{2029}', '\u{202f}',
            '\u{205f}', '\u{3000}',
        ].contains(c),
{
}

/// Whether a text consists of whitespace.
pub open spec fn is_blank(s: Seq<char>) -> bool {
    forall|i: int| 0 <= i < s.len() ==> is_white_space(#[trigger] s[i])
}

/// Whether a text neither begins nor ends with whitespace.
pub open spec fn has_no_padding(s: Seq<char>) -> bool {
    s.len() > 0 ==> !is_white_space(s[0]) && !is_white_space(s.last())
}

/// Trimming takes away the whitespace around a text and nothing of the text,
/// however long either is.
pub proof fn law_trim_takes_the_padding(before: Seq<char>, text: Seq<char>, behind: Seq<char>)
    requires
        is_blank(before),
        is_blank(behind),
        has_no_padding(text),
    ensures
        trim_of(before + text + behind) == text,
{
    let s = before + text + behind;
    if text.len() == 0 {
        assert forall|j: int| 0 <= j < s.len() implies is_white_space(s[j]) by {
            if j < before.len() {
                assert(s[j] == before[j]);
            } else {
                assert(s[j] == behind[j - before.len()]);
            }
        }
        lemma_trim_start_is(s, s.len() as int);
        assert(s.skip(s.len() as int) =~= text);
        lemma_trim_end_is(text, 0);
        assert(text.take(0) =~= text);
    } else {
        assert forall|j: int| 0 <= j < before.len() implies is_white_space(s[j]) by {
            assert(s[j] == before[j]);
        }
        lemma_trim_start_is(s, before.len() as int);
        let rest = s.skip(before.len() as int);
        assert(rest =~= text + behind);
        assert forall|j: int| text.len() <= j < rest.len() implies is_white_space(rest[j]) by {
            assert(rest[j] == behind[j - text.len()]);
        }
        lemma_trim_end_is(rest, text.len() as int);
        assert(rest.take(text.len() as int) =~= text);
    }
}

/// Every trailing `c` is taken away, and nothing else.
pub proof fn law_trim_end_char_takes_the_tail(text: Seq<char>, c: char, n: nat)
    requires
        text.len() > 0 ==> text.last() != c,
    ensures
        trim_end_char_of(text + Seq::new(n, |i: int| c), c) == text,
{
    let s = text + Seq::new(n, |i: int| c);
    lemma_trim_end_char_is(s, c, text.len() as int);
    assert(s.take(text.len() as int) =~= text);
}

/// Pieces put together with `sep` between them.
pub open spec fn joined(pieces: Seq<Seq<char>>, sep: char) -> Seq<char>
    decreases pieces.len(),
{
    if pieces.len() == 0 {
        seq![]
    } else if pieces.len() == 1 {
        pieces[0]
    } else {
        pieces[0] + seq![sep] + joined(pieces.skip(1), sep)
    }
}

/// Splitting loses nothing: the pieces hold no separator, and put together
/// they are the text.
pub proof fn law_split_and_join(s: Seq<char>, sep: char)
    ensures
        split_of(s, sep).len() > 0,
        joined(split_of(s, sep), sep) == s,
        forall|i: int|
            0 <= i < split_of(s, sep).len() ==> !(#[trigger] split_of(s, sep)[i]).contains(sep),
    decreases s.len(),
{
    lemma_first_index(s, sep);
    let i = first_index(s, sep);
    let pieces = split_of(s, sep);
    if i < s.len() {
        let rest = s.skip(i + 1);
        law_split_and_join(rest, sep);
        assert(pieces.skip(1) =~= split_of(rest, sep));
        assert(s =~= s.take(i) + seq![sep] + rest);
        assert forall|k: int| 0 <= k < pieces.len() implies !(#[trigger] pieces[k]).contains(
            sep,
        ) by {
            if k > 0 {
                assert(pieces[k] == split_of(rest, sep)[k - 1]);
            }
        }
    }
}

/// Pieces without a separator are what their joint text splits into.
pub proof fn law_join_and_split(pieces: Seq<Seq<char>>, sep: char)
    requires
        pieces.len() > 0,
        forall|i: int| 0 <= i < pieces.len() ==> !(#[trigger] pieces[i]).contains(sep),
    ensures
        split_of(joined(pieces, sep), sep) == pieces,
    decreases pieces.len(),
{
    let s = joined(pieces, sep);
    let head = pieces[0];
    assert forall|j: int| 0 <= j < head.len() implies s[j] != sep by {
        assert(s[j] == head[j]);
        assert(head.contains(head[j]));
    }
    lemma_first_index_is(s, sep, head.len() as int);
    if pieces.len() == 1 {
        assert(split_of(s, sep) =~= pieces);
    } else {
        let rest = pieces.skip(1);
        assert forall|i: int| 0 <= i < rest.len() implies !(#[trigger] rest[i]).contains(sep) by {
            assert(rest[i] == pieces[i + 1]);
        }
        law_join_and_split(rest, sep);
        assert(s.take(head.len() as int) =~= head);
        assert(s.skip(head.len() as int + 1) =~= joined(rest, sep));
        assert(split_of(s, sep) =~= pieces);
    }
}

/// A text is cut where `pat` first stands in it, and nothing but that `pat`
/// is lost; it stays whole exactly where `pat` does not stand in it.
pub proof fn law_split_once_cuts_at_the_first(s: Seq<char>, pat: Seq<char>)
    ensures
        match split_once_of(s, pat) {
            Some((before, behind)) => {
                &&& s == before + pat + behind
                &&& forall|i: int|
                    0 <= i < before.len() ==> #[trigger] s.subrange(i, i + pat.len()) != pat
            },
            None => forall|i: int|
                0 <= i <= s.len() - pat.len() ==> #[trigger] s.subrange(i, i + pat.len()) != pat,
        },
{
    match split_once_of(s, pat) {
        Some((before, behind)) => {
            let i = choose|i: int| first_occurrence(s, pat, i);
            assert(first_occurrence(s, pat, i));
            assert(before =~= s.take(i));
            assert(s =~= before + pat + behind);
            assert forall|j: int| 0 <= j < before.len() implies #[trigger] s.subrange(
                j,
                j + pat.len(),
            ) != pat by {
                assert(!occurs_at(s, pat, j));
            }
        },
        None => {
            assert forall|i: int| 0 <= i <= s.len() - pat.len() implies #[trigger] s.subrange(
                i,
                i + pat.len(),
            ) != pat by {
                if s.subrange(i, i + pat.len()) == pat {
                    assert(occurs_at(s, pat, i));
                    lemma_occurrence_has_a_first(s, pat, i);
                }
            }
        },
    }
}

proof fn lemma_occurrence_has_a_first(s: Seq<char>, pat: Seq<char>, i: int)
    requires
        occurs_at(s, pat, i),
    ensures
        exists|k: int| first_occurrence(s, pat, k),
    decreases i,
{
    if exists|j: int| 0 <= j < i && occurs_at(s, pat, j) {
        let j = choose|j: int| 0 <= j < i && occurs_at(s, pat, j);
        lemma_occurrence_has_a_first(s, pat, j);
    } else {
        assert(first_occurrence(s, pat, i));
    }
}

/// Texts agree up to ASCII case where they agree letter by letter, the two
/// cases of `A` to `Z` counting as one letter and every other character as
/// itself.
pub proof fn law_case_is_ignored_letter_by_letter(a: Seq<char>, b: Seq<char>)
    ensures
        lower_of(a) == lower_of(b) <==> {
            &&& a.len() == b.len()
            &&& forall|i: int|
                0 <= i < a.len() ==> {
                    ||| #[trigger] a[i] == b[i]
                    ||| 'A' <= a[i] <= 'Z' && b[i] as u32 == a[i] as u32 + 32
                    ||| 'A' <= b[i] <= 'Z' && a[i] as u32 == b[i] as u32 + 32
                }
        },
{
    assert(lower_of(a).len() == a.len());
    assert(lower_of(b).len() == b.len());
    if lower_of(a) == lower_of(b) {
        assert forall|i: int| 0 <= i < a.len() implies {
            ||| #[trigger] a[i] == b[i]
            ||| 'A' <= a[i] <= 'Z' && b[i] as u32 == a[i] as u32 + 32
            ||| 'A' <= b[i] <= 'Z' && a[i] as u32 == b[i] as u32 + 32
        } by {
            assert(lower_of(a)[i] == lower_char(a[i]));
            assert(lower_of(b)[i] == lower_char(b[i]));
        }
    } else if a.len() == b.len() {
        if forall|i: int|
            0 <= i < a.len() ==> {
                ||| #[trigger] a[i] == b[i]
                ||| 'A' <= a[i] <= 'Z' && b[i] as u32 == a[i] as u32 + 32
                ||| 'A' <= b[i] <= 'Z' && a[i] as u32 == b[i] as u32 + 32
            } {
            assert(lower_of(a) =~= lower_of(b));
        }
    }
}

/// A number is written without needless zeros, and its digits give it back.
pub proof fn law_decimal(n: nat)
    ensures
        is_digits(decimal_of(n)),
        digits_value(decimal_of(n)) == n,
        n > 0 ==> decimal_of(n)[0] != '0',
        n < 10 ==> decimal_of(n).len() == 1,
    decreases n,
{
    lemma_decimal_reads_back(n);
    if n >= 10 {
        law_decimal(n / 10);
        assert(decimal_of(n)[0] == decimal_of(n / 10)[0]);
    }
}

proof fn lemma_decimal_is_an_integer(n: nat, signed: bool)
    ensures
        integer_of(decimal_of(n), signed) == Some(n as int),
        integer_of(seq!['+'] + decimal_of(n), signed) == Some(n as int),
        integer_of(seq!['-'] + decimal_of(n), true) == Some(-(n as int)),
{
    let digits = decimal_of(n);
    lemma_decimal_reads_back(n);
    assert(is_digit(digits[0]));
    assert((seq!['+'] + digits).skip(1) =~= digits);
    assert((seq!['-'] + digits).skip(1) =~= digits);
}

/// A decimal number is read as a `u16`, with or without a `+`, exactly where
/// it fits; a text with any other character in it is none.
pub proof fn law_u16_is_read(n: nat, s: Seq<char>, i: int)
    ensures
        u16_of(decimal_of(n)) == (if n <= 65535 {
            Some(n as u16)
        } else {
            None
        }),
        u16_of(seq!['+'] + decimal_of(n)) == u16_of(decimal_of(n)),
        s.len() == 0 ==> u16_of(s) is None,
        0 <= i < s.len() && !('0' <= s[i] <= '9') && !(i == 0 && s[0] == '+') ==> u16_of(s) is None,
{
    lemma_decimal_is_an_integer(n, false);
    lemma_other_characters(s, i, false);
}

/// A decimal number is read as an `i64`, with or without a sign, exactly where
/// it fits; a text with any other character in it is none.
pub proof fn law_i64_is_read(n: nat, s: Seq<char>, i: int)
    ensures
        i64_of(decimal_of(n)) == (if n <= i64::MAX {
            Some(n as i64)
        } else {
            None
        }),
        i64_of(seq!['+'] + decimal_of(n)) == i64_of(decimal_of(n)),
        i64_of(seq!['-'] + decimal_of(n)) == (if -n >= i64::MIN {
            Some((-n) as i64)
        } else {
            None
        }),
        s.len() == 0 ==> i64_of(s) is None,
        0 <= i < s.len() && !('0' <= s[i] <= '9') && !(i == 0 && (s[0] == '+' || s[0] == '-'))
            ==> i64_of(s) is None,
{
    lemma_decimal_is_an_integer(n, true);
    lemma_other_characters(s, i, true);
}

proof fn lemma_other_characters(s: Seq<char>, i: int, signed: bool)
    ensures
        s.len() == 0 ==> integer_of(s, signed) is None,
        0 <= i < s.len() && !('0' <= s[i] <= '9') && !(i == 0 && (s[0] == '+' || (signed && s[0]
            == '-'))) ==> integer_of(s, signed) is None,
{
    if 0 <= i < s.len() && !('0' <= s[i] <= '9') && !(i == 0 && (s[0] == '+' || (signed && s[0]
        == '-'))) {
        if s[0] == '+' || (signed && s[0] == '-') {
            assert(s.skip(1)[i - 1] == s[i]);
            assert(!is_digit(s.skip(1)[i - 1]));
        } else {
            assert(!is_digit(s[i]));
        }
    }
}

/// The text of an optional string is that of the string, whole.
pub proof fn law_optional_text(owned: String, borrowed: &str)
    ensures
        option_text(Some(owned)) == Some(owned@),
        option_text(None) is None,
        option_str(Some(borrowed)) == Some(borrowed@),
        option_str(None) is None,
{
}

} // verus!
