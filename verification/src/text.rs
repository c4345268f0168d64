//! Character-level building blocks: whitespace-separated words, decimal
//! numbers, searching and ASCII case folding.
//!
//! Strings are modelled as `Seq<char>`; the executable functions work on
//! character slices so that every position is reached in constant time.

use vstd::prelude::*;

verus! {

/// The characters of `s`, in order.
pub fn chars_of(s: &str) -> (v: Vec<char>)
    ensures
        v@ == s@,
{
    let mut v: Vec<char> = Vec::new();
    for c in it: s.chars()
        invariant
            v@ == it.seq().take(it.index() as int),
            it.seq() == s@,
    {
        v.push(c);
    }
    v
}

/// The characters `from..to` of `s` as an owned string.
pub fn substring(s: &str, from: usize, to: usize) -> (r: String)
    requires
        from <= to <= s@.len(),
    ensures
        r@ == s@.subrange(from as int, to as int),
{
    s.substring_char(from, to).to_owned()
}

// ---------------------------------------------------------------------------
// Whitespace and words
// ---------------------------------------------------------------------------

/// The characters that carry the Unicode `White_Space` property.
pub open spec fn is_whitespace(c: char) -> bool {
    ||| c == ' '
    ||| '\t' <= c <= '\r'
    ||| c == '\u{85}'
    ||| c == '\u{a0}'
    ||| c == '\u{1680}'
    ||| '\u{2000}' <= c <= '\u{200a}'
    ||| c == '\u{2028}'
    ||| c == '\u{2029}'
    ||| c == '\u{202f}'
    ||| c == '\u{205f}'
    ||| c == '\u{3000}'
}

/// Whether `c` is a whitespace character.
pub fn whitespace(c: char) -> (b: bool)
    ensures
        b == is_whitespace(c),
{
    c == ' ' || ('\t' <= c && c <= '\r') || c == '\u{85}' || c == '\u{a0}' || c == '\u{1680}' || (
    '\u{2000}' <= c && c <= '\u{200a}') || c == '\u{2028}' || c == '\u{2029}' || c == '\u{202f}'
        || c == '\u{205f}' || c == '\u{3000}'
}

/// Length of the longest prefix of `s` made only of whitespace (`ws`) or
/// only of other characters (`!ws`).
pub open spec fn run_len(s: Seq<char>, ws: bool) -> nat
    decreases s.len(),
{
    if s.len() > 0 && is_whitespace(s[0]) == ws {
        1 + run_len(s.skip(1), ws)
    } else {
        0
    }
}

/// A run is a prefix: it is no longer than the sequence, every character in
/// it is of the run's kind, and the character after it, if any, is not.
pub proof fn lemma_run_len(s: Seq<char>, ws: bool)
    ensures
        run_len(s, ws) <= s.len(),
        forall|i: int| 0 <= i < run_len(s, ws) ==> is_whitespace(#[trigger] s[i]) == ws,
        run_len(s, ws) < s.len() ==> is_whitespace(s[run_len(s, ws) as int]) != ws,
    decreases s.len(),
{
    if s.len() > 0 && is_whitespace(s[0]) == ws {
        let t = s.skip(1);
        lemma_run_len(t, ws);
        assert forall|i: int| 0 <= i < run_len(s, ws) implies is_whitespace(#[trigger] s[i])
            == ws by {
            if i > 0 {
                assert(s[i] == t[i - 1]);
            }
        }
    }
}

/// A stretch `run` of characters of one kind, followed by nothing or by a
/// character of the other kind, is a whole run.
pub proof fn lemma_run_len_of(run: Seq<char>, rest: Seq<char>, ws: bool)
    requires
        forall|i: int| 0 <= i < run.len() ==> is_whitespace(#[trigger] run[i]) == ws,
        rest.len() > 0 ==> is_whitespace(rest[0]) != ws,
    ensures
        run_len(run + rest, ws) == run.len(),
    decreases run.len(),
{
    let s = run + rest;
    if run.len() == 0 {
    } else {
        assert(s.skip(1) =~= run.skip(1) + rest);
        lemma_run_len_of(run.skip(1), rest, ws);
    }
}

/// The maximal runs of non-whitespace characters in `s`, left to right.
pub open spec fn words(s: Seq<char>) -> Seq<Seq<char>>
    decreases s.len(),
{
    let rest = s.skip(run_len(s, true) as int);
    let n = run_len(rest, false);
    if n == 0 {
        Seq::empty()
    } else {
        proof {
            lemma_run_len(s, true);
            lemma_run_len(rest, false);
        }
        seq![rest.take(n as int)] + words(rest.skip(n as int))
    }
}

/// Every word holds at least one character, and no whitespace.
pub proof fn lemma_words(s: Seq<char>)
    ensures
        forall|k: int|
            0 <= k < words(s).len() ==> (#[trigger] words(s)[k]).len() > 0 && forall|i: int|
                0 <= i < words(s)[k].len() ==> !is_whitespace(#[trigger] words(s)[k][i]),
    decreases s.len(),
{
    let rest = s.skip(run_len(s, true) as int);
    let n = run_len(rest, false);
    lemma_run_len(s, true);
    lemma_run_len(rest, false);
    if n > 0 {
        // The first word is a run of other characters; the induction
        // hypothesis speaks of the words after it.
        let tail = words(rest.skip(n as int));
        lemma_words(rest.skip(n as int));
        assert forall|k: int| 0 <= k < words(s).len() implies (#[trigger] words(s)[k]).len() > 0
            && forall|i: int|
            0 <= i < words(s)[k].len() ==> !is_whitespace(#[trigger] words(s)[k][i]) by {
            if k > 0 {
                assert(words(s)[k] == tail[k - 1]);
            }
        }
    }
}

/// The `k`-th word of `s`, or the empty sequence when `s` has fewer words.
pub open spec fn word(s: Seq<char>, k: int) -> Seq<char> {
    if 0 <= k < words(s).len() {
        words(s)[k]
    } else {
        Seq::empty()
    }
}

/// End of the run of whitespace (`ws`) or of other characters (`!ws`) that
/// starts at `from`.
pub fn run_end(s: &[char], from: usize, ws: bool) -> (end: usize)
    requires
        from <= s.len(),
    ensures
        from <= end <= s.len(),
        end - from == run_len(s@.skip(from as int), ws),
{
    let mut i: usize = from;
    while i < s.len() && whitespace(s[i]) == ws
        invariant
            from <= i <= s.len(),
            run_len(s@.skip(from as int), ws) == (i - from) + run_len(s@.skip(i as int), ws),
        decreases s.len() - i,
    {
        assert(s@.skip(i as int).skip(1) =~= s@.skip(i + 1));
        i = i + 1;
    }
    i
}

// ---------------------------------------------------------------------------
// Decimal numbers
// ---------------------------------------------------------------------------

/// Whether `c` is one of the ASCII digits `0` to `9`.
pub open spec fn is_digit(c: char) -> bool {
    '0' <= c <= '9'
}

/// The value of the digit `c`; zero for any other character.
pub open spec fn digit_value(c: char) -> nat {
    if is_digit(c) {
        (c as int - '0' as int) as nat
    } else {
        0
    }
}

/// The character that shows the digit `d`.
pub open spec fn digit_char(d: nat) -> char
    recommends
        d < 10,
{
    ('0' as int + d) as char
}

/// Whether `s` is made of ASCII digits only.
pub open spec fn all_digits(s: Seq<char>) -> bool {
    forall|i: int| 0 <= i < s.len() ==> is_digit(#[trigger] s[i])
}

/// The number that the digit string `s` denotes in base ten.
pub open spec fn number(s: Seq<char>) -> nat
    decreases s.len(),
{
    if s.len() == 0 {
        0
    } else {
        number(s.drop_last()) * 10 + digit_value(s.last())
    }
}

/// The shortest decimal notation of `n`.
pub open spec fn decimal(n: nat) -> Seq<char>
    decreases n,
{
    if n < 10 {
        seq![digit_char(n)]
    } else {
        decimal(n / 10).push(digit_char(n % 10))
    }
}

/// Reading more digits never gives a smaller number.
pub proof fn lemma_number_prefix(s: Seq<char>, k: int)
    requires
        0 <= k <= s.len(),
    ensures
        number(s.take(k)) <= number(s),
    decreases s.len() - k,
{
    if k == s.len() {
        assert(s.take(k) =~= s);
    } else {
        lemma_number_prefix(s.drop_last(), k);
        assert(s.drop_last().take(k) =~= s.take(k));
    }
}

/// `decimal` writes digits only, without a leading zero, and `number` reads
/// back what `decimal` wrote.
pub proof fn lemma_decimal(n: nat)
    ensures
        decimal(n).len() >= 1,
        all_digits(decimal(n)),
        number(decimal(n)) == n,
        decimal(n).len() > 1 ==> decimal(n)[0] != '0',
        decimal(n)[0] == '0' <==> n == 0,
    decreases n,
{
    if n < 10 {
        let s = decimal(n);
        assert(number(s.drop_last()) == 0);
    } else {
        lemma_decimal(n / 10);
        let s = decimal(n);
        assert(s.drop_last() =~= decimal(n / 10));
    }
}

/// The digits `from..to` of `s` as a number, when they are all digits and
/// the number is at most `max`.
pub fn parse_number(s: &[char], from: usize, to: usize, max: u32) -> (r: Option<u32>)
    requires
        from <= to <= s.len(),
        max <= 100_000_000,
    ensures
        r matches Some(v) ==> v == number(s@.subrange(from as int, to as int)),
        r is Some <==> all_digits(s@.subrange(from as int, to as int)) && number(
            s@.subrange(from as int, to as int),
        ) <= max,
{
    let ghost span = s@.subrange(from as int, to as int);
    let mut acc: u32 = 0;
    let mut i: usize = from;
    while i < to
        invariant
            from <= i <= to <= s.len(),
            max <= 100_000_000,
            span == s@.subrange(from as int, to as int),
            all_digits(span.take(i - from)),
            acc == number(span.take(i - from)),
            acc <= max,
        decreases to - i,
    {
        let c = s[i];
        proof {
            assert(span.take(i - from + 1).drop_last() =~= span.take(i - from));
            assert(span.take(i - from + 1).last() == c);
        }
        if !('0' <= c && c <= '9') {
            return None;
        }
        let d: u32 = (c as u32) - ('0' as u32);
        if acc * 10 + d > max {
            proof {
                lemma_number_prefix(span, i - from + 1);
            }
            return None;
        }
        acc = acc * 10 + d;
        i = i + 1;
    }
    proof {
        assert(span.take(to - from) =~= span);
    }
    Some(acc)
}

/// The shortest decimal notation of `n`.
pub fn decimal_string(n: usize) -> (r: String)
    ensures
        r@ == decimal(n as nat),
    decreases n,
{
    let d: usize = n % 10;
    proof {
        reveal_strlit("0123456789");
    }
    let digit = "0123456789".substring_char(d, d + 1);
    assert(digit@ =~= seq![digit_char(d as nat)]);
    if n < 10 {
        digit.to_owned()
    } else {
        let mut r = decimal_string(n / 10);
        r.append(digit);
        r
    }
}

// ---------------------------------------------------------------------------
// Searching
// ---------------------------------------------------------------------------

/// Position of the last `c` in `s`, or `-1` when `s` holds none.
pub open spec fn last_index_of(s: Seq<char>, c: char) -> int
    decreases s.len(),
{
    if s.len() == 0 {
        -1
    } else if s.last() == c {
        s.len() - 1
    } else {
        last_index_of(s.drop_last(), c)
    }
}

/// `last_index_of` finds a `c` exactly when there is one, and no `c`
/// follows the one it finds.
pub proof fn lemma_last_index_of(s: Seq<char>, c: char)
    ensures
        -1 <= last_index_of(s, c) < s.len(),
        last_index_of(s, c) >= 0 ==> s[last_index_of(s, c)] == c,
        forall|i: int| last_index_of(s, c) < i < s.len() ==> #[trigger] s[i] != c,
    decreases s.len(),
{
    if s.len() > 0 && s.last() != c {
        let t = s.drop_last();
        lemma_last_index_of(t, c);
        assert forall|i: int| last_index_of(s, c) < i < s.len() implies #[trigger] s[i] != c by {
            if i < t.len() {
                assert(s[i] == t[i]);
            }
        }
    }
}

/// In `front`, a `c`, and a `back` that holds no `c`, the last `c` is the
/// one in the middle.
pub proof fn lemma_last_index_of_split(front: Seq<char>, c: char, back: Seq<char>)
    requires
        !back.contains(c),
    ensures
        last_index_of(front + seq![c] + back, c) == front.len(),
    decreases back.len(),
{
    let s = front + seq![c] + back;
    if back.len() > 0 {
        assert(back.last() != c);
        assert(s.drop_last() =~= front + seq![c] + back.drop_last());
        assert forall|i: int| 0 <= i < back.drop_last().len() implies back.drop_last()[i]
            != c by {
            assert(back.drop_last()[i] == back[i]);
        }
        lemma_last_index_of_split(front, c, back.drop_last());
    }
}

/// Position of the last `c` in `s`, if `s` holds one.
pub fn find_last(s: &[char], c: char) -> (r: Option<usize>)
    ensures
        match r {
            Some(i) => i < s.len() && i == last_index_of(s@, c),
            None => last_index_of(s@, c) == -1,
        },
{
    let mut i: usize = s.len();
    assert(s@.take(i as int) =~= s@);
    while i > 0 && s[i - 1] != c
        invariant
            i <= s.len(),
            last_index_of(s@, c) == last_index_of(s@.take(i as int), c),
        decreases i,
    {
        assert(s@.take(i as int).drop_last() =~= s@.take(i - 1));
        i = i - 1;
    }
    if i == 0 {
        None
    } else {
        Some(i - 1)
    }
}

// ---------------------------------------------------------------------------
// ASCII case folding and comparison
// ---------------------------------------------------------------------------

/// `c` with the ASCII capitals `A` to `Z` turned into `a` to `z`.
pub open spec fn to_lower(c: char) -> char {
    if 'A' <= c <= 'Z' {
        (c as int + 32) as char
    } else {
        c
    }
}

/// `s` with every character folded by [`to_lower`].
pub open spec fn lowercase(s: Seq<char>) -> Seq<char> {
    Seq::new(s.len(), |i: int| to_lower(s[i]))
}

/// The characters `from..` of `s`, folded to lower case.
pub fn lowered(s: &[char], from: usize) -> (r: Vec<char>)
    requires
        from <= s.len(),
    ensures
        r@ == lowercase(s@.skip(from as int)),
{
    let mut r: Vec<char> = Vec::new();
    let mut i: usize = from;
    while i < s.len()
        invariant
            from <= i <= s.len(),
            r@.len() == i - from,
            forall|k: int| 0 <= k < r@.len() ==> r@[k] == to_lower(s@[from + k]),
        decreases s.len() - i,
    {
        let c = s[i];
        let l = if 'A' <= c && c <= 'Z' {
            ((c as u8) + 32) as char
        } else {
            c
        };
        r.push(l);
        i = i + 1;
    }
    r
}

/// Whether the characters of `s` are exactly those of `text`.
pub fn equals_str(s: &[char], text: &str) -> (b: bool)
    ensures
        b == (s@ == text@),
{
    let mut n: usize = 0;
    let mut same = true;
    for c in it: text.chars()
        invariant
            it.seq() == text@,
            same ==> n == it.index() && n <= s.len() && s@.take(n as int) == text@.take(n as int),
            !same ==> s@ != text@,
    {
        if same && n < s.len() && s[n] == c {
            n = n + 1;
        } else {
            same = false;
        }
    }
    proof {
        if same {
            assert(text@.take(n as int) =~= text@);
            if n == s.len() {
                assert(s@.take(n as int) =~= s@);
            }
        }
    }
    same && n == s.len()
}

} // verus!
