//! Texts as sequences of characters: numbers in base ten, prefixes and
//! suffixes, and cutting at a separator.
use vstd::prelude::*;
use vstd::string::*;

verus! {

/// The characters of `s`, in order.
pub fn to_chars(s: &str) -> (v: Vec<char>)
    ensures
        v@ == s@,
{
    broadcast use vstd::string::group_string_axioms;

    let mut v: Vec<char> = Vec::new();
    for c in it: s.chars()
        invariant
            v@ == it.seq().take(it.index()),
            it.seq() == s@,
    {
        v.push(c);
    }
    v
}

/// The characters of a text that may be absent.
pub open spec fn text_view(value: Option<String>) -> Option<Seq<char>> {
    match value {
        Some(s) => Some(s@),
        None => None,
    }
}

/// The characters of each text of a list.
pub open spec fn texts_view(texts: Seq<String>) -> Seq<Seq<char>> {
    Seq::new(texts.len(), |i: int| texts[i]@)
}

/// Whether the characters of `chars` from `from` up to `to` are exactly `word`.
pub fn range_is(chars: &Vec<char>, from: usize, to: usize, word: &Vec<char>) -> (r: bool)
    requires
        from <= to <= chars@.len(),
    ensures
        r == (chars@.subrange(from as int, to as int) == word@),
{
    if to - from != word.len() {
        return false;
    }
    let r = range_has_prefix(chars, from, to, word);
    proof {
        let s = chars@.subrange(from as int, to as int);
        assert(s.take(s.len() as int) == s);
    }
    r
}

/// `c` is one of the ten ASCII digits.
pub open spec fn is_digit(c: char) -> bool {
    '0' <= c && c <= '9'
}

/// The number an ASCII digit stands for.
pub open spec fn digit_value(c: char) -> nat
    recommends
        is_digit(c),
{
    (c as u32 - '0' as u32) as nat
}

/// The ASCII digit that stands for `d`.
pub open spec fn digit_char(d: nat) -> char
    recommends
        d < 10,
{
    if d == 0 {
        '0'
    } else if d == 1 {
        '1'
    } else if d == 2 {
        '2'
    } else if d == 3 {
        '3'
    } else if d == 4 {
        '4'
    } else if d == 5 {
        '5'
    } else if d == 6 {
        '6'
    } else if d == 7 {
        '7'
    } else if d == 8 {
        '8'
    } else {
        '9'
    }
}

/// Every character of `s` is an ASCII digit.
pub open spec fn all_digits(s: Seq<char>) -> bool {
    forall|i: int| 0 <= i < s.len() ==> is_digit(#[trigger] s[i])
}

/// The number that a run of ASCII digits writes in base ten.
pub open spec fn decimal_value(s: Seq<char>) -> nat
    decreases s.len(),
{
    if s.len() == 0 {
        0
    } else {
        decimal_value(s.drop_last()) * 10 + digit_value(s.last())
    }
}

/// What parsing `s` as an unsigned integer no larger than `max` gives: an
/// optional `+`, then at least one ASCII digit and nothing else. Anything else,
/// or a number above `max`, gives `None`.
pub open spec fn parse_unsigned(s: Seq<char>, max: nat) -> Option<nat> {
    let digits = if s.len() > 0 && s[0] == '+' {
        s.skip(1)
    } else {
        s
    };
    if digits.len() > 0 && all_digits(digits) && decimal_value(digits) <= max {
        Some(decimal_value(digits))
    } else {
        None
    }
}

/// The shortest run of ASCII digits that writes `n` in base ten.
pub open spec fn decimal_digits(n: nat) -> Seq<char>
    decreases n,
{
    if n < 10 {
        seq![digit_char(n)]
    } else {
        decimal_digits(n / 10).push(digit_char(n % 10))
    }
}

/// Dropping digits from the end of a run never makes its value larger.
pub proof fn lemma_decimal_value_prefix(s: Seq<char>, k: int)
    requires
        0 <= k <= s.len(),
    ensures
        decimal_value(s.take(k)) <= decimal_value(s),
    decreases s.len() - k,
{
    if k == s.len() {
        assert(s.take(k) == s);
    } else {
        lemma_decimal_value_prefix(s, k + 1);
        assert(s.take(k + 1).drop_last() == s.take(k));
    }
}

/// The digits written for a number are digits, and read back as that number.
pub proof fn lemma_decimal_digits(n: nat)
    ensures
        decimal_digits(n).len() > 0,
        all_digits(decimal_digits(n)),
        decimal_value(decimal_digits(n)) == n,
    decreases n,
{
    if n < 10 {
        let s = decimal_digits(n);
        assert(s.drop_last().len() == 0);
        assert(decimal_value(s.drop_last()) == 0);
        assert(s.last() == digit_char(n));
    } else {
        lemma_decimal_digits(n / 10);
        let s = decimal_digits(n);
        assert(s.drop_last() == decimal_digits(n / 10));
        assert(s.last() == digit_char(n % 10));
        assert forall|i: int| 0 <= i < s.len() implies is_digit(#[trigger] s[i]) by {
            if i < s.len() - 1 {
                assert(s[i] == decimal_digits(n / 10)[i]);
            }
        }
    }
}

/// A number written in base ten holds no character that is no digit.
pub proof fn lemma_digits_free(n: nat, c: char)
    requires
        !is_digit(c),
    ensures
        free_of(decimal_digits(n), c),
{
    lemma_decimal_digits(n);
    let s = decimal_digits(n);
    assert forall|i: int| 0 <= i < s.len() implies #[trigger] s[i] != c by {
        assert(is_digit(s[i]));
    }
}

/// A written number parses as itself under a limit it respects, and as
/// nothing under a limit it exceeds.
pub proof fn lemma_parse_written(n: nat, max: nat)
    ensures
        parse_unsigned(decimal_digits(n), max) == if n <= max {
            Some(n)
        } else {
            None
        },
{
    lemma_decimal_digits(n);
    let s = decimal_digits(n);
    assert(is_digit(s[0]));
}

/// A written number parses as itself under any limit it respects.
pub proof fn lemma_parse_decimal_digits(n: nat, max: nat)
    requires
        n <= max,
    ensures
        parse_unsigned(decimal_digits(n), max) == Some(n),
{
    lemma_decimal_digits(n);
    let s = decimal_digits(n);
    assert(is_digit(s[0]));
}

/// Parses the characters of `chars` from `from` up to `to` as an unsigned
/// integer no larger than `max`.
pub fn parse_decimal(chars: &Vec<char>, from: usize, to: usize, max: u64) -> (r: Option<u64>)
    requires
        from <= to <= chars@.len(),
    ensures
        r == match parse_unsigned(chars@.subrange(from as int, to as int), max as nat) {
            Some(n) => Some(n as u64),
            None => None,
        },
{
    let ghost s = chars@.subrange(from as int, to as int);
    let mut i: usize = from;
    if from < to && chars[from] == '+' {
        i = from + 1;
    }
    let start: usize = i;
    let ghost digits = chars@.subrange(start as int, to as int);
    assert(digits == if s.len() > 0 && s[0] == '+' {
        s.skip(1)
    } else {
        s
    });
    if start == to {
        return None;
    }
    let mut value: u64 = 0;
    while i < to
        invariant
            start <= i <= to <= chars@.len(),
            start < to,
            s == chars@.subrange(from as int, to as int),
            digits == chars@.subrange(start as int, to as int),
            digits == if s.len() > 0 && s[0] == '+' {
                s.skip(1)
            } else {
                s
            },
            all_digits(digits.take(i - start)),
            value == decimal_value(digits.take(i - start)),
            value <= max,
        decreases to - i,
    {
        let c: char = chars[i];
        proof {
            assert(digits[i - start] == c);
            assert(digits.take(i - start + 1).drop_last() == digits.take(i - start));
            assert(digits.take(i - start + 1).last() == c);
            lemma_decimal_value_prefix(digits, i - start + 1);
        }
        if !(c >= '0' && c <= '9') {
            assert(!is_digit(digits[i - start]));
            return None;
        }
        let d: u64 = (c as u32 - '0' as u32) as u64;
        if value > max / 10 {
            return None;
        }
        let shifted: u64 = value * 10;
        if d > max - shifted {
            return None;
        }
        value = shifted + d;
        i += 1;
        proof {
            assert forall|j: int| 0 <= j < i - start implies is_digit(
                #[trigger] digits.take(i - start)[j],
            ) by {
                if j < i - start - 1 {
                    assert(digits.take(i - start - 1)[j] == digits.take(i - start)[j]);
                }
            }
        }
    }
    assert(digits.take(i - start) == digits);
    Some(value)
}

/// The one-character text of the digit `d`.
pub fn digit_str(d: u64) -> (r: &'static str)
    requires
        d < 10,
    ensures
        r@ == seq![digit_char(d as nat)],
{
    proof {
        reveal_strlit("0");
        reveal_strlit("1");
        reveal_strlit("2");
        reveal_strlit("3");
        reveal_strlit("4");
        reveal_strlit("5");
        reveal_strlit("6");
        reveal_strlit("7");
        reveal_strlit("8");
        reveal_strlit("9");
    }
    let r = if d == 0 {
        "0"
    } else if d == 1 {
        "1"
    } else if d == 2 {
        "2"
    } else if d == 3 {
        "3"
    } else if d == 4 {
        "4"
    } else if d == 5 {
        "5"
    } else if d == 6 {
        "6"
    } else if d == 7 {
        "7"
    } else if d == 8 {
        "8"
    } else {
        "9"
    };
    assert(r@ =~= seq![digit_char(d as nat)]);
    r
}

/// Appends `n`, written in base ten, to `out`.
pub fn push_decimal_wide(out: &mut String, n: u128)
    ensures
        final(out)@ == old(out)@ + decimal_digits(n as nat),
    decreases n,
{
    if n >= 10 {
        push_decimal_wide(out, n / 10);
    }
    out.append(digit_str((n % 10) as u64));
    assert(final(out)@ =~= old(out)@ + decimal_digits(n as nat));
}

/// Appends `n`, written in base ten, to `out`.
pub fn push_decimal(out: &mut String, n: u64)
    ensures
        final(out)@ == old(out)@ + decimal_digits(n as nat),
{
    push_decimal_wide(out, n as u128);
}

/// `s` begins with `prefix`.
pub open spec fn has_prefix(s: Seq<char>, prefix: Seq<char>) -> bool {
    prefix.len() <= s.len() && s.take(prefix.len() as int) == prefix
}

/// `s` ends with `suffix`.
pub open spec fn has_suffix(s: Seq<char>, suffix: Seq<char>) -> bool {
    suffix.len() <= s.len() && s.skip(s.len() - suffix.len()) == suffix
}

/// Whether the characters of `chars` from `from` up to `to` begin with `prefix`.
pub fn range_has_prefix(chars: &Vec<char>, from: usize, to: usize, prefix: &Vec<char>) -> (r: bool)
    requires
        from <= to <= chars@.len(),
    ensures
        r == has_prefix(chars@.subrange(from as int, to as int), prefix@),
{
    let n: usize = prefix.len();
    if n > to - from {
        return false;
    }
    let ghost s = chars@.subrange(from as int, to as int);
    let mut i: usize = 0;
    while i < n
        invariant
            from <= to <= chars@.len(),
            n == prefix@.len(),
            n <= to - from,
            i <= n,
            s == chars@.subrange(from as int, to as int),
            s.take(i as int) == prefix@.take(i as int),
        decreases n - i,
    {
        if chars[from + i] != prefix[i] {
            proof {
                assert(s.take(n as int)[i as int] == s[i as int]);
                assert(s[i as int] != prefix@[i as int]);
            }
            return false;
        }
        i += 1;
        proof {
            assert(s.take(i as int) =~= s.take(i - 1).push(s[i - 1]));
            assert(prefix@.take(i as int) =~= prefix@.take(i - 1).push(prefix@[i - 1]));
        }
    }
    assert(prefix@.take(n as int) == prefix@);
    true
}

/// Whether the characters of `chars` from `from` up to `to` end with `suffix`.
pub fn range_has_suffix(chars: &Vec<char>, from: usize, to: usize, suffix: &Vec<char>) -> (r: bool)
    requires
        from <= to <= chars@.len(),
    ensures
        r == has_suffix(chars@.subrange(from as int, to as int), suffix@),
{
    let n: usize = suffix.len();
    if n > to - from {
        return false;
    }
    let r = range_has_prefix(chars, to - n, to, suffix);
    proof {
        let s = chars@.subrange(from as int, to as int);
        let tail = chars@.subrange(to - n, to as int);
        assert(s.skip(s.len() - n) =~= tail);
        assert(tail.take(n as int) =~= tail);
    }
    r
}

/// Where `c` first occurs in `s`, or the length of `s` if it does not.
pub open spec fn first_index(s: Seq<char>, c: char) -> int
    decreases s.len(),
{
    if s.len() == 0 {
        0
    } else if s[0] == c {
        0
    } else {
        1 + first_index(s.skip(1), c)
    }
}

/// The pieces of `s` between occurrences of `sep`. There is always at least
/// one piece, and a piece is empty where two separators touch or where `s`
/// begins or ends with one.
pub open spec fn split_on(s: Seq<char>, sep: char) -> Seq<Seq<char>>
    decreases s.len(),
{
    let i = first_index(s, sep);
    if 0 <= i < s.len() {
        seq![s.take(i)] + split_on(s.skip(i + 1), sep)
    } else {
        seq![s]
    }
}

/// `c` does not occur in `s`.
pub open spec fn free_of(s: Seq<char>, c: char) -> bool {
    forall|i: int| 0 <= i < s.len() ==> #[trigger] s[i] != c
}

/// A position that holds `c`, with nothing before it that does, is the first
/// occurrence; a text free of `c` has none.
pub proof fn lemma_first_index_is(s: Seq<char>, c: char, k: int)
    requires
        0 <= k <= s.len(),
        free_of(s.take(k), c),
        k < s.len() ==> s[k] == c,
    ensures
        first_index(s, c) == k,
    decreases s.len(),
{
    if s.len() == 0 {
    } else if k == 0 {
    } else {
        assert(s.take(k)[0] == s[0]);
        assert forall|i: int| 0 <= i < k - 1 implies #[trigger] s.skip(1).take(k - 1)[i] != c by {
            assert(s.take(k)[i + 1] == s[i + 1]);
        }
        lemma_first_index_is(s.skip(1), c, k - 1);
    }
}

/// Splitting `head`, a separator and `rest`, where `head` holds no separator,
/// gives `head` and then the pieces of `rest`.
pub proof fn lemma_split_cons(head: Seq<char>, rest: Seq<char>, sep: char)
    requires
        free_of(head, sep),
    ensures
        split_on(head + seq![sep] + rest, sep) == seq![head] + split_on(rest, sep),
{
    let s = head + seq![sep] + rest;
    let k = head.len() as int;
    assert(s.take(k) =~= head);
    assert(s[k] == sep);
    lemma_first_index_is(s, sep, k);
    assert(s.skip(k + 1) =~= rest);
}

/// A text that holds no separator is its own single piece.
pub proof fn lemma_split_single(s: Seq<char>, sep: char)
    requires
        free_of(s, sep),
    ensures
        split_on(s, sep) == seq![s],
{
    assert(s.take(s.len() as int) =~= s);
    lemma_first_index_is(s, sep, s.len() as int);
}

/// The first occurrence lies within the text, nothing before it matches, and
/// where it lies short of the end it matches.
pub proof fn lemma_first_index(s: Seq<char>, c: char)
    ensures
        0 <= first_index(s, c) <= s.len(),
        free_of(s.take(first_index(s, c)), c),
        first_index(s, c) < s.len() ==> s[first_index(s, c)] == c,
    decreases s.len(),
{
    if s.len() > 0 && s[0] != c {
        lemma_first_index(s.skip(1), c);
        let k = first_index(s.skip(1), c);
        assert forall|i: int| 0 <= i < k + 1 implies #[trigger] s.take(k + 1)[i] != c by {
            if i > 0 {
                assert(s.skip(1).take(k)[i - 1] == s[i]);
            }
        }
    }
}

/// The pieces put together again, with `sep` between each two.
pub open spec fn joined(parts: Seq<Seq<char>>, sep: char) -> Seq<char>
    decreases parts.len(),
{
    if parts.len() == 0 {
        Seq::empty()
    } else if parts.len() == 1 {
        parts[0]
    } else {
        parts[0] + seq![sep] + joined(parts.skip(1), sep)
    }
}

/// Joining one more piece puts a separator and the piece at the end.
pub proof fn lemma_joined_push(parts: Seq<Seq<char>>, piece: Seq<char>, sep: char)
    requires
        parts.len() > 0,
    ensures
        joined(parts.push(piece), sep) == joined(parts, sep) + seq![sep] + piece,
    decreases parts.len(),
{
    let all = parts.push(piece);
    assert(all[0] == parts[0]);
    if parts.len() == 1 {
        assert(all.skip(1) =~= seq![piece]);
        assert(joined(seq![piece], sep) == piece);
    } else {
        assert(all.skip(1) =~= parts.skip(1).push(piece));
        lemma_joined_push(parts.skip(1), piece, sep);
        assert(joined(all, sep) =~= joined(parts, sep) + seq![sep] + piece);
    }
}

/// There is always a piece.
pub proof fn lemma_split_nonempty(s: Seq<char>, sep: char)
    ensures
        split_on(s, sep).len() >= 1,
    decreases s.len(),
{
    let i = first_index(s, sep);
    if 0 <= i < s.len() {
        lemma_split_nonempty(s.skip(i + 1), sep);
    }
}

/// Cutting a text and joining the pieces gives the text back.
pub proof fn lemma_joined_split(s: Seq<char>, sep: char)
    ensures
        joined(split_on(s, sep), sep) == s,
    decreases s.len(),
{
    lemma_first_index(s, sep);
    let i = first_index(s, sep);
    if 0 <= i < s.len() {
        let rest = s.skip(i + 1);
        lemma_joined_split(rest, sep);
        lemma_split_nonempty(rest, sep);
        let parts = split_on(s, sep);
        assert(parts == seq![s.take(i)] + split_on(rest, sep));
        assert(parts[0] == s.take(i));
        assert(parts.skip(1) =~= split_on(rest, sep));
        assert(s =~= s.take(i) + seq![sep] + rest);
    }
}

/// Cutting two texts with a separator between them gives the pieces of the
/// first and then the pieces of the second.
pub proof fn lemma_split_concat(a: Seq<char>, b: Seq<char>, sep: char)
    ensures
        split_on(a + seq![sep] + b, sep) == split_on(a, sep) + split_on(b, sep),
    decreases a.len(),
{
    lemma_first_index(a, sep);
    let i = first_index(a, sep);
    if 0 <= i < a.len() {
        let head = a.take(i);
        let tail = a.skip(i + 1);
        lemma_split_concat(tail, b, sep);
        assert(a + seq![sep] + b =~= head + seq![sep] + (tail + seq![sep] + b));
        lemma_split_cons(head, tail + seq![sep] + b, sep);
        assert(seq![head] + (split_on(tail, sep) + split_on(b, sep)) =~= (seq![head] + split_on(
            tail,
            sep,
        )) + split_on(b, sep));
    } else {
        assert(a.take(a.len() as int) =~= a);
        lemma_split_cons(a, b, sep);
        lemma_split_single(a, sep);
    }
}

/// The pieces that a list of ranges cuts out of `s`.
pub open spec fn pieces(s: Seq<char>, ranges: Seq<(usize, usize)>) -> Seq<Seq<char>> {
    Seq::new(ranges.len(), |k: int| s.subrange(ranges[k].0 as int, ranges[k].1 as int))
}

/// Every range lies within a text of length `len`.
pub open spec fn ranges_within(ranges: Seq<(usize, usize)>, len: nat) -> bool {
    forall|k: int|
        0 <= k < ranges.len() ==> (#[trigger] ranges[k]).0 <= ranges[k].1 && ranges[k].1 <= len
}

/// Cuts `chars`, from `from` up to `to`, at every `sep`. The ranges returned
/// are the pieces, in order, as positions in `chars`.
pub fn split_ranges(chars: &Vec<char>, from: usize, to: usize, sep: char) -> (ranges: Vec<
    (usize, usize),
>)
    requires
        from <= to <= chars@.len(),
    ensures
        ranges_within(ranges@, chars@.len()),
        pieces(chars@, ranges@) == split_on(chars@.subrange(from as int, to as int), sep),
        forall|k: int| 0 <= k < ranges@.len() ==> from <= (#[trigger] ranges@[k]).0,
        forall|k: int| 0 <= k < ranges@.len() ==> (#[trigger] ranges@[k]).1 <= to,
{
    let mut ranges: Vec<(usize, usize)> = Vec::new();
    let mut start: usize = from;
    let mut i: usize = from;
    let ghost whole = chars@.subrange(from as int, to as int);
    assert(chars@.subrange(start as int, to as int) == whole);
    assert(pieces(chars@, ranges@) =~= Seq::<Seq<char>>::empty());
    while i < to
        invariant
            from <= start <= i <= to <= chars@.len(),
            whole == chars@.subrange(from as int, to as int),
            ranges_within(ranges@, chars@.len()),
            forall|k: int| 0 <= k < ranges@.len() ==> from <= (#[trigger] ranges@[k]).0,
            forall|k: int| 0 <= k < ranges@.len() ==> (#[trigger] ranges@[k]).1 <= to,
            free_of(chars@.subrange(start as int, i as int), sep),
            split_on(whole, sep) == pieces(chars@, ranges@) + split_on(
                chars@.subrange(start as int, to as int),
                sep,
            ),
        decreases to - i,
    {
        if chars[i] == sep {
            proof {
                let rest = chars@.subrange(start as int, to as int);
                let head = chars@.subrange(start as int, i as int);
                let tail = chars@.subrange(i + 1, to as int);
                assert(rest =~= head + seq![sep] + tail);
                lemma_split_cons(head, tail, sep);
                assert(pieces(chars@, ranges@.push((start, i))) =~= pieces(chars@, ranges@)
                    + seq![head]);
            }
            ranges.push((start, i));
            start = i + 1;
            assert(chars@.subrange(start as int, start as int) =~= Seq::<char>::empty());
        } else {
            proof {
                let before = chars@.subrange(start as int, i as int);
                let after = chars@.subrange(start as int, i + 1);
                assert forall|j: int| 0 <= j < after.len() implies #[trigger] after[j] != sep by {
                    if j < before.len() {
                        assert(before[j] == after[j]);
                    }
                }
            }
        }
        i += 1;
    }
    proof {
        let last = chars@.subrange(start as int, to as int);
        lemma_split_single(last, sep);
        assert(pieces(chars@, ranges@.push((start, to))) =~= pieces(chars@, ranges@) + seq![last]);
    }
    ranges.push((start, to));
    ranges
}

} // verus!
