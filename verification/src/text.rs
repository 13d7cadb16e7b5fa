//! Text as the command lines, theme files and sysfs attributes need it: words,
//! substrings and unsigned numbers.

use vstd::prelude::*;

verus! {

/// The views of a sequence of strings.
pub open spec fn texts(strings: Seq<String>) -> Seq<Seq<char>> {
    strings.map_values(|s: String| s@)
}

/// Whether `c` has the Unicode property `White_Space`.
pub open spec fn is_space(c: char) -> bool {
    ||| '\u{9}' <= c <= '\u{d}'
    ||| c == ' '
    ||| c == '\u{85}'
    ||| c == '\u{a0}'
    ||| c == '\u{1680}'
    ||| '\u{2000}' <= c <= '\u{200a}'
    ||| c == '\u{2028}'
    ||| c == '\u{2029}'
    ||| c == '\u{202f}'
    ||| c == '\u{205f}'
    ||| c == '\u{3000}'
}

/// Tells whether `c` separates words.
pub fn is_whitespace(c: char) -> (space: bool)
    ensures
        space == is_space(c),
{
    ('\u{9}' <= c && c <= '\u{d}') || c == ' ' || c == '\u{85}' || c == '\u{a0}' || c == '\u{1680}'
        || ('\u{2000}' <= c && c <= '\u{200a}') || c == '\u{2028}' || c == '\u{2029}'
        || c == '\u{202f}' || c == '\u{205f}' || c == '\u{3000}'
}

/// How many characters of `s` stand before its first white space.
pub open spec fn word_len(s: Seq<char>) -> nat
    decreases s.len(),
{
    if s.len() == 0 || is_space(s[0]) {
        0
    } else {
        1 + word_len(s.skip(1))
    }
}

/// The maximal runs of characters of `s` that hold no white space, in order.
pub open spec fn words(s: Seq<char>) -> Seq<Seq<char>>
    decreases s.len(),
{
    if s.len() == 0 {
        seq![]
    } else if is_space(s[0]) {
        words(s.skip(1))
    } else {
        proof {
            lemma_word_len(s.skip(1));
        }
        let n = 1 + word_len(s.skip(1));
        seq![s.take(n as int)] + words(s.skip(n as int))
    }
}

/// The characters before the first white space hold none.
pub proof fn lemma_word_len(s: Seq<char>)
    ensures
        word_len(s) <= s.len(),
        forall|i: int| 0 <= i < word_len(s) ==> !is_space(#[trigger] s[i]),
        word_len(s) < s.len() ==> is_space(s[word_len(s) as int]),
    decreases s.len(),
{
    if s.len() > 0 && !is_space(s[0]) {
        lemma_word_len(s.skip(1));
        assert forall|i: int| 0 <= i < word_len(s) implies !is_space(#[trigger] s[i]) by {
            if i > 0 {
                assert(s[i] == s.skip(1)[i - 1]);
            }
        }
    }
}

proof fn lemma_word_len_is(s: Seq<char>, n: nat)
    requires
        n <= s.len(),
        forall|i: int| 0 <= i < n ==> !is_space(#[trigger] s[i]),
        n == s.len() || is_space(s[n as int]),
    ensures
        word_len(s) == n,
    decreases s.len(),
{
    if n > 0 {
        assert(!is_space(s[0]));
        assert forall|i: int| 0 <= i < n - 1 implies !is_space(#[trigger] s.skip(1)[i]) by {
            assert(s.skip(1)[i] == s[i + 1]);
        }
        lemma_word_len_is(s.skip(1), (n - 1) as nat);
    }
}

/// Splits `s` at white space, leaving no empty word.
pub fn split_words(s: &str) -> (parts: Vec<String>)
    ensures
        texts(parts@) == words(s@),
{
    let n: usize = s.unicode_len();
    let mut parts: Vec<String> = Vec::new();
    let mut i: usize = 0;
    proof {
        assert(s@.skip(0) == s@);
        assert(texts(parts@) == Seq::<Seq<char>>::empty());
    }
    while i < n
        invariant
            i <= n,
            n == s@.len(),
            texts(parts@) + words(s@.skip(i as int)) == words(s@),
        decreases n - i,
    {
        let ghost rest = s@.skip(i as int);
        if is_whitespace(s.get_char(i)) {
            proof {
                assert(rest[0] == s@[i as int]);
                assert(rest.skip(1) == s@.skip(i + 1));
            }
            i += 1;
        } else {
            let mut j: usize = i + 1;
            while j < n && !is_whitespace(s.get_char(j))
                invariant
                    i < j <= n,
                    n == s@.len(),
                    forall|k: int| i <= k < j ==> !is_space(#[trigger] s@[k]),
                decreases n - j,
            {
                j += 1;
            }
            let word = s.substring_char(i, j).to_owned();
            proof {
                assert(rest[0] == s@[i as int]);
                lemma_word_len_is(rest, (j - i) as nat);
                assert(word@ == rest.take(j - i));
                assert(rest.skip(j - i) == s@.skip(j as int));
                assert(texts(parts@.push(word)) == texts(parts@).push(word@));
                assert(texts(parts@).push(word@) + words(s@.skip(j as int)) == texts(parts@) + (
                seq![word@] + words(s@.skip(j as int))));
            }
            parts.push(word);
            i = j;
        }
    }
    proof {
        assert(s@.skip(n as int) == Seq::<char>::empty());
        assert(texts(parts@) + Seq::<Seq<char>>::empty() == texts(parts@));
    }
    parts
}

/// Every word is non-empty and holds no white space.
pub proof fn words_hold_no_space(s: Seq<char>)
    ensures
        forall|i: int|
            0 <= i < words(s).len() ==> (#[trigger] words(s)[i]).len() > 0,
        forall|i: int, k: int|
            0 <= i < words(s).len() && 0 <= k < words(s)[i].len() ==> !is_space(
                #[trigger] words(s)[i][k],
            ),
    decreases s.len(),
{
    if s.len() == 0 {
        assert(words(s) == Seq::<Seq<char>>::empty());
    } else {
        if is_space(s[0]) {
            words_hold_no_space(s.skip(1));
            assert(words(s) == words(s.skip(1)));
        } else {
            let n = 1 + word_len(s.skip(1));
            lemma_word_len(s);
            words_hold_no_space(s.skip(n as int));
            let rest = words(s.skip(n as int));
            assert forall|i: int| 0 <= i < words(s).len() implies (#[trigger] words(s)[i]).len()
                > 0 by {
                if i > 0 {
                    assert(words(s)[i] == rest[i - 1]);
                }
            }
            assert forall|i: int, k: int|
                0 <= i < words(s).len() && 0 <= k < words(s)[i].len() implies !is_space(
                #[trigger] words(s)[i][k],
            ) by {
                if i > 0 {
                    assert(words(s)[i] == rest[i - 1]);
                } else {
                    assert(words(s)[i][k] == s[k]);
                }
            }
        }
    }
}

/// The words joined by single spaces.
pub open spec fn join_words(parts: Seq<Seq<char>>) -> Seq<char>
    decreases parts.len(),
{
    if parts.len() == 0 {
        seq![]
    } else if parts.len() == 1 {
        parts[0]
    } else {
        parts[0] + seq![' '] + join_words(parts.skip(1))
    }
}

/// Joining words by single spaces and splitting again gives the words back.
pub proof fn split_undoes_join(parts: Seq<Seq<char>>)
    requires
        forall|i: int| 0 <= i < parts.len() ==> (#[trigger] parts[i]).len() > 0,
        forall|i: int, k: int|
            0 <= i < parts.len() && 0 <= k < parts[i].len() ==> !is_space(#[trigger] parts[i][k]),
    ensures
        words(join_words(parts)) == parts,
    decreases parts.len(),
{
    if parts.len() > 0 {
        let joined = join_words(parts);
        let first = parts[0];
        let n = first.len();
        assert(!is_space(parts[0][0]));
        assert(joined.take(n as int) == first);
        assert forall|i: int| 0 <= i < n implies !is_space(#[trigger] joined[i]) by {
            assert(joined[i] == parts[0][i]);
        }
        lemma_word_len_is(joined, n);
        assert(words(joined) == seq![first] + words(joined.skip(n as int)));
        if parts.len() == 1 {
            assert(joined.skip(n as int) == Seq::<char>::empty());
            assert(parts == seq![first]);
        } else {
            let tail = parts.skip(1);
            let rest = joined.skip(n as int);
            assert(rest[0] == ' ');
            assert(rest.skip(1) == join_words(tail));
            assert forall|i: int, k: int|
                0 <= i < tail.len() && 0 <= k < tail[i].len() implies !is_space(
                #[trigger] tail[i][k],
            ) by {
                assert(tail[i][k] == parts[i + 1][k]);
            }
            split_undoes_join(tail);
            assert(parts == seq![first] + tail);
        }
    }
}

/// Tells whether two texts are the same.
pub fn same_text(a: &str, b: &str) -> (same: bool)
    ensures
        same == (a@ == b@),
{
    a.to_owned() == b.to_owned()
}

/// The characters of `s`, one by one.
pub fn chars_of(s: &str) -> (chars: Vec<char>)
    ensures
        chars@ == s@,
{
    let mut chars: Vec<char> = Vec::new();
    for c in it: s.chars()
        invariant
            chars@ == it.seq().take(it.index()),
            it.seq() == s@,
    {
        chars.push(c);
    }
    chars
}

/// Whether `pattern` stands in `s` from position `i` on.
pub open spec fn occurs_at(s: Seq<char>, pattern: Seq<char>, i: int) -> bool {
    0 <= i <= s.len() - pattern.len() && s.subrange(i, i + pattern.len()) == pattern
}

/// Whether `pattern` stands somewhere in `s`.
pub open spec fn occurs(s: Seq<char>, pattern: Seq<char>) -> bool {
    exists|i: int| occurs_at(s, pattern, i)
}

fn pattern_at(s: &Vec<char>, pattern: &Vec<char>, at: usize) -> (found: bool)
    requires
        at + pattern@.len() <= s@.len(),
    ensures
        found == occurs_at(s@, pattern@, at as int),
{
    let len: usize = s.len();
    let mut k: usize = 0;
    while k < pattern.len()
        invariant
            len == s@.len(),
            at + pattern@.len() <= s@.len(),
            k <= pattern@.len(),
            forall|j: int| 0 <= j < k ==> s@[at + j] == #[trigger] pattern@[j],
        decreases pattern@.len() - k,
    {
        if s[at + k] != pattern[k] {
            assert(s@.subrange(at as int, at + pattern@.len())[k as int] != pattern@[k as int]);
            return false;
        }
        k += 1;
    }
    assert(s@.subrange(at as int, at + pattern@.len()) == pattern@);
    true
}

/// Tells whether `pattern` stands somewhere in `s`.
pub fn contains(s: &str, pattern: &str) -> (found: bool)
    ensures
        found == occurs(s@, pattern@),
{
    let text = chars_of(s);
    let wanted = chars_of(pattern);
    if wanted.len() > text.len() {
        return false;
    }
    let last: usize = text.len() - wanted.len();
    let mut i: usize = 0;
    while i < last
        invariant
            text@ == s@,
            wanted@ == pattern@,
            last == text@.len() - wanted@.len(),
            i <= last,
            forall|j: int| 0 <= j < i ==> !occurs_at(text@, wanted@, j),
        decreases last - i,
    {
        if pattern_at(&text, &wanted, i) {
            return true;
        }
        i += 1;
    }
    pattern_at(&text, &wanted, last)
}

/// Whether `s` begins with `prefix`.
pub open spec fn begins_with(s: Seq<char>, prefix: Seq<char>) -> bool {
    occurs_at(s, prefix, 0)
}

/// Tells whether `s` begins with `prefix`.
pub fn starts_with(s: &str, prefix: &str) -> (yes: bool)
    ensures
        yes == begins_with(s@, prefix@),
{
    let text = chars_of(s);
    let wanted = chars_of(prefix);
    if wanted.len() > text.len() {
        return false;
    }
    pattern_at(&text, &wanted, 0)
}

/// What `c` counts for as a digit, 36 where it is none.
pub open spec fn digit_value(c: char) -> int {
    if '0' <= c <= '9' {
        c as int - '0' as int
    } else if 'a' <= c <= 'z' {
        c as int - 'a' as int + 10
    } else if 'A' <= c <= 'Z' {
        c as int - 'A' as int + 10
    } else {
        36
    }
}

fn digit_of(c: char) -> (d: u64)
    ensures
        d == digit_value(c),
{
    if '0' <= c && c <= '9' {
        c as u64 - '0' as u64
    } else if 'a' <= c && c <= 'z' {
        c as u64 - 'a' as u64 + 10
    } else if 'A' <= c && c <= 'Z' {
        c as u64 - 'A' as u64 + 10
    } else {
        36
    }
}

/// The number that the digits `s` write in base `radix`.
pub open spec fn digits_value(s: Seq<char>, radix: int) -> int
    decreases s.len(),
{
    if s.len() == 0 {
        0
    } else {
        digits_value(s.drop_last(), radix) * radix + digit_value(s.last())
    }
}

/// The digits of `s`: all of it but one leading plus sign.
pub open spec fn unsigned_part(s: Seq<char>) -> Seq<char> {
    if s.len() > 0 && s[0] == '+' {
        s.skip(1)
    } else {
        s
    }
}

/// The number that `s` writes in base `radix`, if it is one: digits only,
/// at least one of them, after at most one plus sign, and no more than 32 bits.
pub open spec fn number(s: Seq<char>, radix: int) -> Option<u32> {
    let digits = unsigned_part(s);
    if digits.len() > 0 && (forall|i: int|
        0 <= i < digits.len() ==> digit_value(#[trigger] digits[i]) < radix) && digits_value(
        digits,
        radix,
    ) <= u32::MAX {
        Some(digits_value(digits, radix) as u32)
    } else {
        None
    }
}

proof fn lemma_value_grows(s: Seq<char>, n: int, radix: int)
    requires
        0 <= n <= s.len(),
        radix >= 1,
    ensures
        0 <= digits_value(s.take(n), radix) <= digits_value(s, radix),
    decreases s.len(),
{
    if n == s.len() {
        assert(s.take(n) == s);
        if n > 0 {
            lemma_value_grows(s.drop_last(), n - 1, radix);
            assert(digits_value(s.drop_last(), radix) * radix >= 0) by (nonlinear_arith)
                requires
                    digits_value(s.drop_last(), radix) >= 0,
                    radix >= 1,
            ;
        }
    } else {
        lemma_value_grows(s.drop_last(), n, radix);
        assert(s.drop_last().take(n) == s.take(n));
        let v = digits_value(s.drop_last(), radix);
        assert(v * radix >= v) by (nonlinear_arith)
            requires
                v >= 0,
                radix >= 1,
        ;
    }
}

/// Reads an unsigned number of at most 32 bits in base `radix`.
pub fn parse_number(s: &str, radix: u32) -> (value: Option<u32>)
    requires
        2 <= radix <= 36,
    ensures
        value == number(s@, radix as int),
{
    let text = chars_of(s);
    let start: usize = if text.len() > 0 && text[0] == '+' {
        1
    } else {
        0
    };
    let ghost digits = unsigned_part(s@);
    proof {
        assert(digits == s@.skip(start as int));
    }
    if start == text.len() {
        return None;
    }
    let mut acc: u64 = 0;
    let mut i: usize = start;
    while i < text.len()
        invariant
            2 <= radix <= 36,
            text@ == s@,
            start <= i <= text@.len(),
            digits == s@.skip(start as int),
            digits == unsigned_part(s@),
            acc == digits_value(digits.take(i - start), radix as int),
            acc <= u32::MAX,
            forall|k: int| 0 <= k < i - start ==> digit_value(#[trigger] digits[k]) < radix,
        decreases text@.len() - i,
    {
        let d = digit_of(text[i]);
        assert(digits[i - start] == text@[i as int]);
        if d >= radix as u64 {
            return None;
        }
        assert(acc * radix <= u32::MAX * 36) by (nonlinear_arith)
            requires
                0 <= acc <= u32::MAX,
                0 <= radix <= 36,
        ;
        let next: u64 = acc * (radix as u64) + d;
        proof {
            assert(digits.take(i - start + 1).drop_last() == digits.take(i - start));
            assert(digits.take(i - start + 1).last() == text@[i as int]);
            assert(next == digits_value(digits.take(i - start + 1), radix as int));
        }
        if next > u32::MAX as u64 {
            proof {
                lemma_value_grows(digits, i - start + 1, radix as int);
            }
            return None;
        }
        acc = next;
        i += 1;
    }
    proof {
        assert(digits.take(digits.len() as int) == digits);
    }
    Some(acc as u32)
}

/// `s` without the white space that it begins with.
pub open spec fn trimmed_start(s: Seq<char>) -> Seq<char>
    decreases s.len(),
{
    if s.len() > 0 && is_space(s[0]) {
        trimmed_start(s.skip(1))
    } else {
        s
    }
}

/// `s` without the white space that it ends with.
pub open spec fn trimmed_end(s: Seq<char>) -> Seq<char>
    decreases s.len(),
{
    if s.len() > 0 && is_space(s.last()) {
        trimmed_end(s.drop_last())
    } else {
        s
    }
}

/// `s` without the white space around it.
pub open spec fn trimmed(s: Seq<char>) -> Seq<char> {
    trimmed_end(trimmed_start(s))
}

/// Cuts off the white space around `s`.
pub fn trim(s: &str) -> (inner: &str)
    ensures
        inner@ == trimmed(s@),
{
    let n: usize = s.unicode_len();
    let mut from: usize = 0;
    proof {
        assert(s@.skip(0) == s@);
    }
    while from < n && is_whitespace(s.get_char(from))
        invariant
            from <= n,
            n == s@.len(),
            trimmed_start(s@.skip(from as int)) == trimmed_start(s@),
        decreases n - from,
    {
        proof {
            assert(s@.skip(from as int)[0] == s@[from as int]);
            assert(s@.skip(from as int).skip(1) == s@.skip(from + 1));
        }
        from += 1;
    }
    let mut to: usize = n;
    let ghost body = s@.skip(from as int);
    proof {
        if from < n {
            assert(body[0] == s@[from as int]);
        }
        assert(trimmed_start(s@) == body);
        assert(s@.subrange(from as int, n as int) == body);
    }
    while to > from && is_whitespace(s.get_char(to - 1))
        invariant
            from <= to <= n,
            n == s@.len(),
            trimmed_end(s@.subrange(from as int, to as int)) == trimmed_end(body),
        decreases to,
    {
        proof {
            let cut = s@.subrange(from as int, to as int);
            assert(cut.last() == s@[to - 1]);
            assert(cut.drop_last() == s@.subrange(from as int, to - 1));
        }
        to -= 1;
    }
    proof {
        let cut = s@.subrange(from as int, to as int);
        if to > from {
            assert(cut.last() == s@[to - 1]);
        }
    }
    s.substring_char(from, to)
}

/// Reads the number that a sysfs attribute holds: decimal digits, with white
/// space around them ignored.
pub fn read_u32(contents: &str) -> (value: Option<u32>)
    ensures
        value == number(trimmed(contents@), 10),
{
    parse_number(trim(contents), 10)
}

// ---------------------------------------------------------------------------
// Words
// ---------------------------------------------------------------------------

/// Among the characters of ASCII, the six white-space ones separate words and no
/// letter, digit or sign does; beyond ASCII, the 19 others with the property
/// `White_Space` do, and nothing else.
pub proof fn white_space_is_what_unicode_says(c: char)
    ensures
        is_space(c) <==> {
            let u = c as u32;
            ||| u == 0x20 || u == 0x09 || u == 0x0a || u == 0x0b || u == 0x0c || u == 0x0d
            ||| u == 0x85 || u == 0xa0 || u == 0x1680 || u == 0x2028 || u == 0x2029 || u == 0x202f
                || u == 0x205f || u == 0x3000
            ||| u == 0x2000 || u == 0x2001 || u == 0x2002 || u == 0x2003 || u == 0x2004 || u
                == 0x2005 || u == 0x2006 || u == 0x2007 || u == 0x2008 || u == 0x2009 || u == 0x200a
        },
        0x21 <= c as u32 <= 0x7e ==> !is_space(c),
{
}

/// White space separates: the words of two texts with white space between them
/// are those of the first and then those of the second.
pub proof fn white_space_separates_words(first: Seq<char>, space: char, second: Seq<char>)
    requires
        is_space(space),
    ensures
        words(first + seq![space] + second) == words(first) + words(second),
    decreases first.len(),
{
    let whole = first + seq![space] + second;
    if first.len() == 0 {
        assert(whole[0] == space);
        assert(whole.skip(1) == second);
        assert(words(first) + words(second) == words(second));
    } else if is_space(first[0]) {
        assert(whole[0] == first[0]);
        assert(whole.skip(1) == first.skip(1) + seq![space] + second);
        white_space_separates_words(first.skip(1), space, second);
    } else {
        lemma_word_len(first);
        let n = word_len(first);
        assert(whole[0] == first[0]);
        assert forall|i: int| 0 <= i < n implies !is_space(#[trigger] whole[i]) by {
            assert(whole[i] == first[i]);
        }
        assert(whole[n as int] == (if n < first.len() {
            first[n as int]
        } else {
            space
        }));
        lemma_word_len_is(whole, n);
        assert(whole.take(n as int) == first.take(n as int));
        assert(whole.skip(n as int) == first.skip(n as int) + seq![space] + second);
        white_space_separates_words(first.skip(n as int), space, second);
        assert(seq![first.take(n as int)] + (words(first.skip(n as int)) + words(second)) == seq![
            first.take(n as int),
        ] + words(first.skip(n as int)) + words(second));
    }
}

/// A text without white space is one word, and an empty text none.
pub proof fn text_without_space_is_one_word(s: Seq<char>)
    requires
        forall|i: int| 0 <= i < s.len() ==> !is_space(#[trigger] s[i]),
    ensures
        s.len() > 0 ==> words(s) == seq![s],
        s.len() == 0 ==> words(s).len() == 0,
{
    if s.len() > 0 {
        lemma_word_len_is(s, s.len());
        assert(!is_space(s[0]));
        assert(s.take(s.len() as int) == s);
        let none = Seq::<char>::empty();
        assert(s.skip(s.len() as int) == none);
        assert(words(none) == Seq::<Seq<char>>::empty());
        assert(seq![s] + words(none) == seq![s]);
    }
}

// ---------------------------------------------------------------------------
// Substrings
// ---------------------------------------------------------------------------

/// A pattern stands in a text exactly when the text is something, the pattern
/// and something.
pub proof fn pattern_stands_between_two_parts(s: Seq<char>, pattern: Seq<char>)
    ensures
        occurs(s, pattern) <==> exists|before: Seq<char>, after: Seq<char>| s == #[trigger] (before
            + pattern + after),
{
    if occurs(s, pattern) {
        let i = choose|i: int| occurs_at(s, pattern, i);
        assert(s == s.take(i) + pattern + s.skip(i + pattern.len())) by {
            let joined = s.take(i) + pattern + s.skip(i + pattern.len());
            assert forall|k: int| 0 <= k < s.len() implies s[k] == #[trigger] joined[k] by {
                if i <= k < i + pattern.len() {
                    assert(s.subrange(i, i + pattern.len())[k - i] == s[k]);
                }
            }
            assert(joined =~= s);
        }
    }
    if exists|before: Seq<char>, after: Seq<char>| s == #[trigger] (before + pattern + after) {
        let (before, after) = choose|before: Seq<char>, after: Seq<char>|
            s == #[trigger] (before + pattern + after);
        let i = before.len() as int;
        assert(s.subrange(i, i + pattern.len()) == pattern);
        assert(occurs_at(s, pattern, i));
    }
}

/// A text begins with a prefix exactly when it is no shorter and has the
/// prefix's characters in its first places.
pub proof fn prefix_is_the_first_characters(s: Seq<char>, prefix: Seq<char>)
    ensures
        begins_with(s, prefix) <==> prefix.len() <= s.len() && forall|i: int|
            0 <= i < prefix.len() ==> s[i] == #[trigger] prefix[i],
{
    if begins_with(s, prefix) {
        assert forall|i: int| 0 <= i < prefix.len() implies s[i] == #[trigger] prefix[i] by {
            assert(s.subrange(0, prefix.len() as int)[i] == s[i]);
        }
    } else if prefix.len() <= s.len() && (forall|i: int|
        0 <= i < prefix.len() ==> s[i] == #[trigger] prefix[i]) {
        assert(s.subrange(0, prefix.len() as int) =~= prefix);
    }
}

// ---------------------------------------------------------------------------
// Numbers
// ---------------------------------------------------------------------------

/// The digits 0 to 9 count for 0 to 9, the letters from 10 on, small and capital
/// ones alike; nothing else is a digit in any base up to 36.
pub proof fn digits_and_letters_count_up(c: char)
    ensures
        0x30 <= c as u32 <= 0x39 ==> digit_value(c) == c as u32 - 0x30,
        0x61 <= c as u32 <= 0x7a ==> digit_value(c) == c as u32 - 0x61 + 10,
        0x41 <= c as u32 <= 0x5a ==> digit_value(c) == c as u32 - 0x41 + 10,
        !(0x30 <= c as u32 <= 0x39) && !(0x61 <= c as u32 <= 0x7a) && !(0x41 <= c as u32 <= 0x5a)
            ==> digit_value(c) >= 36,
{
}

/// A number written with one digit is that digit, and a further digit makes it
/// `radix` times as large plus the digit, where that still fits in 32 bits; a
/// number that is too large stays none with any further digit.
pub proof fn further_digit_multiplies_and_adds(s: Seq<char>, c: char, radix: int)
    requires
        2 <= radix <= 36,
        0 <= digit_value(c) < radix,
    ensures
        number(seq![c], radix) == Some(digit_value(c) as u32),
        number(s, radix) matches Some(v) ==> number(s.push(c), radix) == (if v * radix
            + digit_value(c) <= 0xffff_ffff {
            Some((v * radix + digit_value(c)) as u32)
        } else {
            None
        }),
        s.len() > 0 && s != seq!['+'] && number(s, radix) is None ==> number(s.push(c), radix)
            is None,
{
    let one = seq![c];
    assert(unsigned_part(one) == one);
    assert(one.drop_last() == Seq::<char>::empty());
    assert(digits_value(one.drop_last(), radix) == 0);
    assert(0 * radix == 0);
    assert(digits_value(one, radix) == digit_value(c));
    assert forall|i: int| 0 <= i < one.len() implies digit_value(#[trigger] one[i]) < radix by {}
    let more = s.push(c);
    if s.len() > 0 {
        let d = unsigned_part(s);
        assert(unsigned_part(more) == d.push(c)) by {
            assert(more[0] == s[0]);
            if s[0] == '+' {
                assert(more.skip(1) =~= s.skip(1).push(c));
            }
        }
        assert(d.push(c).drop_last() == d);
        assert(digits_value(d.push(c), radix) == digits_value(d, radix) * radix + digit_value(c));
        if d.len() > 0 {
            assert(forall|i: int| 0 <= i < d.len() ==> d.push(c)[i] == d[i]);
            if forall|i: int| 0 <= i < d.len() ==> digit_value(#[trigger] d[i]) < radix {
                assert forall|i: int| 0 <= i < d.push(c).len() implies digit_value(
                    #[trigger] d.push(c)[i],
                ) < radix by {
                    if i < d.len() {
                        assert(d.push(c)[i] == d[i]);
                    }
                }
                lemma_value_grows(d, 0, radix);
                let v = digits_value(d, radix);
                assert(v * radix >= v) by (nonlinear_arith)
                    requires
                        v >= 0,
                        radix >= 2,
                ;
            } else {
                let i = choose|i: int| 0 <= i < d.len() && !(digit_value(#[trigger] d[i]) < radix);
                assert(d.push(c)[i] == d[i]);
            }
        } else {
            assert(s =~= seq!['+']);
        }
    }
}

/// One plus sign before a number changes nothing. A text without digits, or with
/// anything but digits after its first character, is no number.
pub proof fn only_digits_make_a_number(s: Seq<char>, radix: int)
    requires
        2 <= radix <= 36,
    ensures
        s.len() > 0 && s[0] != '+' ==> number(seq!['+'] + s, radix) == number(s, radix),
        s.len() == 0 ==> number(s, radix) is None,
        number(seq!['+'], radix) is None,
        (exists|i: int| 1 <= i < s.len() && digit_value(#[trigger] s[i]) >= radix) ==> number(
            s,
            radix,
        ) is None,
        s.len() > 0 && s[0] != '+' && digit_value(s[0]) >= radix ==> number(s, radix) is None,
{
    assert((seq!['+'] + s).skip(1) == s);
    assert(seq!['+'].skip(1) == Seq::<char>::empty());
    let d = unsigned_part(s);
    if exists|i: int| 1 <= i < s.len() && digit_value(#[trigger] s[i]) >= radix {
        let i = choose|i: int| 1 <= i < s.len() && digit_value(#[trigger] s[i]) >= radix;
        if s[0] == '+' {
            assert(d[i - 1] == s[i]);
        } else {
            assert(d[i] == s[i]);
        }
    }
    if s.len() > 0 && s[0] != '+' && digit_value(s[0]) >= radix {
        assert(d[0] == s[0]);
    }
}

proof fn lemma_trimmed_start(before: Seq<char>, rest: Seq<char>)
    requires
        forall|i: int| 0 <= i < before.len() ==> is_space(#[trigger] before[i]),
        rest.len() == 0 || !is_space(rest[0]),
    ensures
        trimmed_start(before + rest) == rest,
    decreases before.len(),
{
    let whole = before + rest;
    if before.len() == 0 {
        assert(whole == rest);
    } else {
        assert(whole[0] == before[0]);
        assert(whole.skip(1) == before.skip(1) + rest);
        lemma_trimmed_start(before.skip(1), rest);
    }
}

proof fn lemma_trimmed_end(rest: Seq<char>, after: Seq<char>)
    requires
        forall|i: int| 0 <= i < after.len() ==> is_space(#[trigger] after[i]),
        rest.len() == 0 || !is_space(rest.last()),
    ensures
        trimmed_end(rest + after) == rest,
    decreases after.len(),
{
    let whole = rest + after;
    if after.len() == 0 {
        assert(whole == rest);
    } else {
        assert(whole.last() == after[after.len() - 1]);
        assert(whole.drop_last() == rest + after.drop_last());
        lemma_trimmed_end(rest, after.drop_last());
    }
}

/// Trimming takes away all white space before and after a text, and nothing of
/// a text that begins and ends without any.
pub proof fn trimming_takes_the_space_around(
    before: Seq<char>,
    inner: Seq<char>,
    after: Seq<char>,
)
    requires
        forall|i: int| 0 <= i < before.len() ==> is_space(#[trigger] before[i]),
        forall|i: int| 0 <= i < after.len() ==> is_space(#[trigger] after[i]),
        inner.len() == 0 || (!is_space(inner[0]) && !is_space(inner.last())),
    ensures
        trimmed(before + inner + after) == inner,
{
    let whole = before + inner + after;
    if inner.len() == 0 {
        let spaces = before + after;
        assert(whole == spaces + Seq::<char>::empty());
        assert forall|i: int| 0 <= i < spaces.len() implies is_space(#[trigger] spaces[i]) by {
            if i >= before.len() {
                assert(spaces[i] == after[i - before.len()]);
            }
        }
        lemma_trimmed_start(spaces, Seq::<char>::empty());
        assert(inner == Seq::<char>::empty());
    } else {
        assert(whole == before + (inner + after));
        lemma_trimmed_start(before, inner + after);
        lemma_trimmed_end(inner, after);
    }
}

/// The views of strings are those of each, in order.
pub proof fn texts_are_string_by_string(strings: Seq<String>)
    ensures
        texts(strings).len() == strings.len(),
        forall|i: int| 0 <= i < strings.len() ==> texts(strings)[i] == (#[trigger] strings[i])@,
{
}

} // verus!
