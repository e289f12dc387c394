//! Text helpers: decimal rendering, Unicode white space, trimming, splitting
//! into lines and words, hexadecimal numbers and UTF-16.

use vstd::prelude::*;

verus! {

// ---------------------------------------------------------------------------
// Decimal rendering
// ---------------------------------------------------------------------------

/// The character that stands for the decimal digit `d`.
pub open spec fn digit_char(d: nat) -> char {
    if d == 0 {
        '0'
    } else if d == 1 {
        '1'
    } else if d == 2 {
        '2'
    } else if d == 3 {
        '3'
    } else if d == 4 {
        '4'
    } else if d == 5 {
        '5'
    } else if d == 6 {
        '6'
    } else if d == 7 {
        '7'
    } else if d == 8 {
        '8'
    } else {
        '9'
    }
}

/// `n` in base ten, most significant digit first, without leading zeros.
pub open spec fn decimal(n: nat) -> Seq<char>
    decreases n,
{
    if n < 10 {
        seq![digit_char(n)]
    } else {
        decimal(n / 10).push(digit_char(n % 10))
    }
}

/// The one-character text of a decimal digit.
fn digit_text(d: u64) -> (text: &'static str)
    requires
        d < 10,
    ensures
        text@ == seq![digit_char(d as nat)],
{
    proof {
        reveal_strlit("0");
        reveal_strlit("1");
        reveal_strlit("2");
        reveal_strlit("3");
        reveal_strlit("4");
        reveal_strlit("5");
        reveal_strlit("6");
        reveal_strlit("7");
        reveal_strlit("8");
        reveal_strlit("9");
    }
    match d {
        0 => "0",
        1 => "1",
        2 => "2",
        3 => "3",
        4 => "4",
        5 => "5",
        6 => "6",
        7 => "7",
        8 => "8",
        _ => "9",
    }
}

/// Renders `n` in base ten.
pub fn decimal_text(n: u64) -> (text: String)
    ensures
        text@ == decimal(n as nat),
    decreases n,
{
    if n < 10 {
        digit_text(n).to_owned()
    } else {
        let mut text = decimal_text(n / 10);
        text.append(digit_text(n % 10));
        text
    }
}

/// The number that a run of decimal digits denotes.
pub open spec fn decimal_value(s: Seq<char>) -> nat
    decreases s.len(),
{
    if s.len() == 0 {
        0
    } else {
        10 * decimal_value(s.drop_last()) + (s.last() as nat - '0' as nat) as nat
    }
}

/// A number's decimal form consists of digits, has no leading zero unless it
/// is a single digit, and denotes that number.
pub proof fn law_decimal_reads_back(n: nat)
    ensures
        decimal_value(decimal(n)) == n,
        decimal(n).len() >= 1,
        forall|i: int| 0 <= i < decimal(n).len() ==> '0' <= #[trigger] decimal(n)[i] <= '9',
        decimal(n).len() > 1 ==> decimal(n)[0] != '0',
    decreases n,
{
    if n >= 10 {
        let high = decimal(n / 10);
        let low = digit_char(n % 10);
        law_decimal_reads_back(n / 10);
        assert(decimal(n) == high.push(low));
        assert(high.push(low).drop_last() == high);
        assert(high.push(low).last() == low);
        assert(high.push(low)[0] == high[0]);
        if n / 10 < 10 {
            assert(high == seq![digit_char(n / 10)]);
        } else {
            assert(high == decimal(n / 10 / 10).push(digit_char(n / 10 % 10)));
            law_decimal_reads_back(n / 10 / 10);
        }
    } else {
        assert(decimal_value(decimal(n).drop_last()) == 0);
    }
}

// ---------------------------------------------------------------------------
// Characters of a string
// ---------------------------------------------------------------------------

/// The characters of `s`, in order.
pub fn characters(s: &str) -> (chars: Vec<char>)
    ensures
        chars@ == s@,
{
    let mut chars: Vec<char> = Vec::new();
    for c in it: s.chars()
        invariant
            it.seq() == s@,
            chars@ == s@.take(it.index() as int),
    {
        proof {
            assert(s@.take(it.index() as int + 1) == s@.take(it.index() as int).push(s@[it.index() as int]));
        }
        chars.push(c);
    }
    assert(s@.take(s@.len() as int) == s@);
    chars
}

// ---------------------------------------------------------------------------
// White space and trimming
// ---------------------------------------------------------------------------

/// Whether `c` has the Unicode `White_Space` property.
pub open spec fn white(c: char) -> bool {
    ||| '\u{9}' <= c <= '\u{d}'
    ||| c == ' '
    ||| c == '\u{85}'
    ||| c == '\u{a0}'
    ||| c == '\u{1680}'
    ||| '\u{2000}' <= c <= '\u{200a}'
    ||| c == '\u{2028}'
    ||| c == '\u{2029}'
    ||| c == '\u{202f}'
    ||| c == '\u{205f}'
    ||| c == '\u{3000}'
}

/// Tests whether `c` has the Unicode `White_Space` property.
pub fn is_white(c: char) -> (b: bool)
    ensures
        b == white(c),
{
    ('\u{9}' <= c && c <= '\u{d}') || c == ' ' || c == '\u{85}' || c == '\u{a0}' || c == '\u{1680}'
        || ('\u{2000}' <= c && c <= '\u{200a}') || c == '\u{2028}' || c == '\u{2029}' || c
        == '\u{202f}' || c == '\u{205f}' || c == '\u{3000}'
}

/// `s` without its leading white space.
pub open spec fn trimmed_start(s: Seq<char>) -> Seq<char>
    decreases s.len(),
{
    if s.len() > 0 && white(s[0]) {
        trimmed_start(s.drop_first())
    } else {
        s
    }
}

/// `s` without its trailing white space.
pub open spec fn trimmed_end(s: Seq<char>) -> Seq<char>
    decreases s.len(),
{
    if s.len() > 0 && white(s.last()) {
        trimmed_end(s.drop_last())
    } else {
        s
    }
}

/// `s` without the white space at either end.
pub open spec fn trimmed(s: Seq<char>) -> Seq<char> {
    trimmed_end(trimmed_start(s))
}

/// Removes the white space at either end of `s`.
pub fn trim(s: &str) -> (text: String)
    ensures
        text@ == trimmed(s@),
{
    let chars = characters(s);
    let n: usize = chars.len();
    let mut a: usize = 0;
    assert(s@.skip(0) == s@);
    while a < n && is_white(chars[a])
        invariant
            a <= n,
            n == chars@.len(),
            chars@ == s@,
            trimmed_start(s@) == trimmed_start(s@.skip(a as int)),
        decreases n - a,
    {
        assert(s@.skip(a as int).drop_first() == s@.skip(a as int + 1));
        a += 1;
    }
    assert(a < n ==> s@.skip(a as int)[0] == chars@[a as int]);
    assert(trimmed_start(s@) == s@.skip(a as int));
    let mut b: usize = n;
    assert(s@.subrange(a as int, n as int) == s@.skip(a as int));
    while b > a && is_white(chars[b - 1])
        invariant
            a <= b <= n,
            n == chars@.len(),
            chars@ == s@,
            trimmed_end(s@.skip(a as int)) == trimmed_end(s@.subrange(a as int, b as int)),
        decreases b,
    {
        assert(s@.subrange(a as int, b as int).drop_last() == s@.subrange(a as int, b - 1));
        b -= 1;
    }
    assert(b > a ==> s@.subrange(a as int, b as int).last() == chars@[b - 1]);
    s.substring_char(a, b).to_owned()
}

/// Trimming brings no character into a text.
pub proof fn lemma_trimmed_is_part(s: Seq<char>, c: char)
    requires
        !s.contains(c),
    ensures
        !trimmed(s).contains(c),
{
    lemma_trimmed_start_is_part(s, c);
    lemma_trimmed_end_is_part(trimmed_start(s), c);
}

proof fn lemma_trimmed_start_is_part(s: Seq<char>, c: char)
    requires
        !s.contains(c),
    ensures
        !trimmed_start(s).contains(c),
    decreases s.len(),
{
    if s.len() > 0 && white(s[0]) {
        let t = s.drop_first();
        assert(!t.contains(c)) by {
            if t.contains(c) {
                let i = choose|i: int| 0 <= i < t.len() && t[i] == c;
                assert(s[i + 1] == c);
            }
        }
        lemma_trimmed_start_is_part(t, c);
    }
}

proof fn lemma_trimmed_end_is_part(s: Seq<char>, c: char)
    requires
        !s.contains(c),
    ensures
        !trimmed_end(s).contains(c),
    decreases s.len(),
{
    if s.len() > 0 && white(s.last()) {
        let t = s.drop_last();
        assert(!t.contains(c)) by {
            if t.contains(c) {
                let i = choose|i: int| 0 <= i < t.len() && t[i] == c;
                assert(s[i] == c);
            }
        }
        lemma_trimmed_end_is_part(t, c);
    }
}

/// `s` without the run of `c` at its end.
pub open spec fn without_trailing(s: Seq<char>, c: char) -> Seq<char>
    decreases s.len(),
{
    if s.len() > 0 && s.last() == c {
        without_trailing(s.drop_last(), c)
    } else {
        s
    }
}

/// Removes every `c` from the end of `s`.
pub fn trim_trailing(s: &str, c: char) -> (text: String)
    ensures
        text@ == without_trailing(s@, c),
{
    let chars = characters(s);
    let mut b: usize = chars.len();
    assert(s@.take(b as int) == s@);
    while b > 0 && chars[b - 1] == c
        invariant
            b <= chars@.len(),
            chars@ == s@,
            without_trailing(s@, c) == without_trailing(s@.take(b as int), c),
        decreases b,
    {
        assert(s@.take(b as int).drop_last() == s@.take(b - 1));
        b -= 1;
    }
    assert(b > 0 ==> s@.take(b as int).last() == chars@[b - 1]);
    assert(s@.subrange(0, b as int) == s@.take(b as int));
    s.substring_char(0, b).to_owned()
}

// ---------------------------------------------------------------------------
// Splitting
// ---------------------------------------------------------------------------

/// The index of the first `c` in `s`, or the length of `s` if it has none.
pub open spec fn position(s: Seq<char>, c: char) -> nat
    decreases s.len(),
{
    if s.len() == 0 || s[0] == c {
        0
    } else {
        1 + position(s.drop_first(), c)
    }
}

/// The part of `s` before the first `c`: all of `s` if it has none.
pub open spec fn before(s: Seq<char>, c: char) -> Seq<char> {
    s.take(position(s, c) as int)
}

/// The pieces of `s` between occurrences of `sep`.
pub open spec fn split(s: Seq<char>, sep: char) -> Seq<Seq<char>>
    decreases s.len(),
{
    let p = position(s, sep) as int;
    if p >= s.len() {
        seq![s]
    } else {
        seq![s.take(p)] + split(s.skip(p + 1), sep)
    }
}

/// The number of characters before the first white space in `s`.
pub open spec fn word_len(s: Seq<char>) -> nat
    decreases s.len(),
{
    if s.len() == 0 || white(s[0]) {
        0
    } else {
        1 + word_len(s.drop_first())
    }
}

/// The maximal runs of characters in `s` that are not white space.
pub open spec fn words(s: Seq<char>) -> Seq<Seq<char>>
    decreases s.len(),
{
    if s.len() == 0 {
        Seq::empty()
    } else if white(s[0]) {
        words(s.drop_first())
    } else {
        proof {
            lemma_word_len(s);
        }
        seq![s.take(word_len(s) as int)] + words(s.skip(word_len(s) as int))
    }
}

/// The contents of a sequence of slices.
pub open spec fn contents(v: Seq<&[char]>) -> Seq<Seq<char>> {
    Seq::new(v.len(), |i: int| v[i]@)
}

/// A position is that of the first occurrence.
pub proof fn lemma_position(s: Seq<char>, c: char, k: int)
    requires
        0 <= k <= s.len(),
        forall|i: int| 0 <= i < k ==> s[i] != c,
        k < s.len() ==> s[k] == c,
    ensures
        position(s, c) == k,
    decreases s.len(),
{
    if k > 0 {
        assert(s[0] != c);
        assert forall|i: int| 0 <= i < k - 1 implies s.drop_first()[i] != c by {
            assert(s[i + 1] != c);
        }
        lemma_position(s.drop_first(), c, k - 1);
    }
}

/// What a position says of the characters up to it.
pub proof fn lemma_position_is_first(s: Seq<char>, c: char)
    ensures
        position(s, c) <= s.len(),
        forall|i: int| 0 <= i < position(s, c) ==> s[i] != c,
        position(s, c) < s.len() ==> s[position(s, c) as int] == c,
    decreases s.len(),
{
    if s.len() > 0 && s[0] != c {
        let t = s.drop_first();
        lemma_position_is_first(t, c);
        assert forall|i: int| 0 <= i < position(s, c) implies s[i] != c by {
            if i > 0 {
                assert(t[i - 1] != c);
            }
        }
    }
}

/// A word is no longer than the text it starts.
pub proof fn lemma_word_len(s: Seq<char>)
    ensures
        word_len(s) <= s.len(),
    decreases s.len(),
{
    if s.len() > 0 && !white(s[0]) {
        lemma_word_len(s.drop_first());
    }
}

/// A run of characters up to the next white space is a word.
proof fn lemma_word(s: Seq<char>, k: int)
    requires
        0 <= k <= s.len(),
        forall|i: int| 0 <= i < k ==> !white(s[i]),
        k < s.len() ==> white(s[k]),
    ensures
        word_len(s) == k,
    decreases s.len(),
{
    if k > 0 {
        assert(!white(s[0]));
        assert forall|i: int| 0 <= i < k - 1 implies !white(s.drop_first()[i]) by {
            assert(!white(s[i + 1]));
        }
        lemma_word(s.drop_first(), k - 1);
    }
}

/// The part of `s` before the first `c`.
pub fn text_before(s: &str, c: char) -> (text: String)
    ensures
        text@ == before(s@, c),
{
    let chars = characters(s);
    let mut p: usize = 0;
    while p < chars.len() && chars[p] != c
        invariant
            p <= chars@.len(),
            chars@ == s@,
            forall|i: int| 0 <= i < p ==> s@[i] != c,
        decreases chars@.len() - p,
    {
        p += 1;
    }
    proof {
        lemma_position(s@, c, p as int);
        assert(s@.subrange(0, p as int) == s@.take(p as int));
    }
    s.substring_char(0, p).to_owned()
}

/// Splits `s` at every `sep`.
pub fn split_at_each<'a>(s: &'a [char], sep: char) -> (pieces: Vec<&'a [char]>)
    ensures
        contents(pieces@) == split(s@, sep),
{
    let mut pieces: Vec<&'a [char]> = Vec::new();
    let mut start: usize = 0;
    let mut i: usize = 0;
    assert(s@.skip(0) == s@);
    assert(contents(pieces@) + split(s@, sep) == split(s@, sep));
    while i < s.len()
        invariant
            start <= i <= s@.len(),
            forall|k: int| start <= k < i ==> s@[k] != sep,
            contents(pieces@) + split(s@.skip(start as int), sep) == split(s@, sep),
        decreases s@.len() - i,
    {
        if s[i] == sep {
            let ghost done = contents(pieces@);
            let ghost rest = s@.skip(start as int);
            pieces.push(vstd::slice::slice_subrange(s, start, i));
            proof {
                let p = i - start;
                lemma_position(rest, sep, p);
                assert(rest.take(p) == s@.subrange(start as int, i as int));
                assert(rest.skip(p + 1) == s@.skip(i + 1));
                assert(contents(pieces@) == done.push(rest.take(p)));
                assert(contents(pieces@) + split(s@.skip(i + 1), sep) == done + (seq![rest.take(p)]
                    + split(rest.skip(p + 1), sep)));
            }
            start = i + 1;
        }
        i += 1;
    }
    let ghost done = contents(pieces@);
    let ghost rest = s@.skip(start as int);
    pieces.push(vstd::slice::slice_subrange(s, start, s.len()));
    proof {
        lemma_position(rest, sep, rest.len() as int);
        assert(rest == s@.subrange(start as int, s@.len() as int));
        assert(contents(pieces@) == done.push(rest));
        assert(contents(pieces@) == done + seq![rest]);
    }
    pieces
}

/// Splits `s` into its words.
pub fn split_words<'a>(s: &'a [char]) -> (pieces: Vec<&'a [char]>)
    ensures
        contents(pieces@) == words(s@),
{
    let mut pieces: Vec<&'a [char]> = Vec::new();
    let mut i: usize = 0;
    assert(s@.skip(0) == s@);
    assert(contents(pieces@) + words(s@) == words(s@));
    while i < s.len()
        invariant
            i <= s@.len(),
            contents(pieces@) + words(s@.skip(i as int)) == words(s@),
        decreases s@.len() - i,
    {
        let ghost rest = s@.skip(i as int);
        assert(rest[0] == s@[i as int]);
        if is_white(s[i]) {
            assert(rest.drop_first() == s@.skip(i + 1));
            i += 1;
        } else {
            let start: usize = i;
            while i < s.len() && !is_white(s[i])
                invariant
                    start <= i <= s@.len(),
                    forall|k: int| start <= k < i ==> !white(s@[k]),
                decreases s@.len() - i,
            {
                i += 1;
            }
            assert(i > start);
            let ghost done = contents(pieces@);
            pieces.push(vstd::slice::slice_subrange(s, start, i));
            proof {
                let n = i - start;
                lemma_word(rest, n);
                assert(rest.take(n) == s@.subrange(start as int, i as int));
                assert(rest.skip(n) == s@.skip(i as int));
                assert(contents(pieces@) == done.push(rest.take(n)));
                assert(contents(pieces@) + words(s@.skip(i as int)) == done + (seq![rest.take(n)]
                    + words(rest.skip(n))));
            }
        }
    }
    assert(s@.skip(i as int).len() == 0);
    assert(contents(pieces@) + Seq::<Seq<char>>::empty() == contents(pieces@));
    pieces
}

// ---------------------------------------------------------------------------
// Hexadecimal numbers
// ---------------------------------------------------------------------------

/// The value of a hexadecimal digit of either case.
pub open spec fn hex_digit(c: char) -> Option<nat> {
    if '0' <= c <= '9' {
        Some((c as nat - '0' as nat) as nat)
    } else if 'a' <= c <= 'f' {
        Some((c as nat - 'a' as nat + 10) as nat)
    } else if 'A' <= c <= 'F' {
        Some((c as nat - 'A' as nat + 10) as nat)
    } else {
        None
    }
}

/// The number that a run of hexadecimal digits denotes.
pub open spec fn hex_value(s: Seq<char>) -> Option<nat>
    decreases s.len(),
{
    if s.len() == 0 {
        Some(0)
    } else {
        match (hex_value(s.drop_last()), hex_digit(s.last())) {
            (Some(v), Some(d)) => Some(16 * v + d),
            _ => None,
        }
    }
}

/// `s` without one leading plus sign.
pub open spec fn unsigned(s: Seq<char>) -> Seq<char> {
    if s.len() > 0 && s[0] == '+' {
        s.drop_first()
    } else {
        s
    }
}

/// The 32-bit number that `s` denotes in base sixteen: an optional plus sign
/// and at least one digit, with a value that fits.
pub open spec fn hex_u32(s: Seq<char>) -> Option<u32> {
    match hex_value(unsigned(s)) {
        Some(v) => if unsigned(s).len() > 0 && v <= u32::MAX {
            Some(v as u32)
        } else {
            None
        },
        None => None,
    }
}

fn hex_digit_value(c: char) -> (d: Option<u32>)
    ensures
        match d {
            Some(v) => hex_digit(c) == Some(v as nat) && v < 16,
            None => hex_digit(c) is None,
        },
{
    if '0' <= c && c <= '9' {
        Some(c as u32 - '0' as u32)
    } else if 'a' <= c && c <= 'f' {
        Some(c as u32 - 'a' as u32 + 10)
    } else if 'A' <= c && c <= 'F' {
        Some(c as u32 - 'A' as u32 + 10)
    } else {
        None
    }
}

/// A prefix that denotes no number, or one out of range, rules out the whole.
proof fn lemma_hex_prefix(s: Seq<char>, k: int)
    requires
        0 <= k <= s.len(),
    ensures
        hex_value(s) matches Some(v) ==> (hex_value(s.take(k)) matches Some(w) && w <= v),
    decreases s.len() - k,
{
    if k == s.len() {
        assert(s.take(k) == s);
    } else {
        lemma_hex_prefix(s, k + 1);
        assert(s.take(k + 1).drop_last() == s.take(k));
    }
}

/// Reads a 32-bit hexadecimal number.
pub fn parse_hex(s: &[char]) -> (r: Option<u32>)
    ensures
        r == hex_u32(s@),
{
    let start: usize = if s.len() > 0 && s[0] == '+' {
        1
    } else {
        0
    };
    let ghost digits = unsigned(s@);
    assert(digits == s@.skip(start as int));
    if start == s.len() {
        return None;
    }
    let mut value: u32 = 0;
    let mut i: usize = start;
    while i < s.len()
        invariant
            start <= i <= s@.len(),
            digits == unsigned(s@),
            digits == s@.skip(start as int),
            hex_value(digits.take(i - start)) == Some(value as nat),
        decreases s@.len() - i,
    {
        proof {
            let k = i - start;
            assert(digits.take(k + 1).drop_last() == digits.take(k));
            assert(digits.take(k + 1).last() == s@[i as int]);
            lemma_hex_prefix(digits, k + 1);
        }
        match hex_digit_value(s[i]) {
            None => {
                return None;
            },
            Some(d) => {
                if value > (u32::MAX - d) / 16 {
                    return None;
                }
                value = value * 16 + d;
            },
        }
        i += 1;
    }
    assert(digits.take(digits.len() as int) == digits);
    Some(value)
}

// ---------------------------------------------------------------------------
// UTF-16
// ---------------------------------------------------------------------------

/// The UTF-16 code units of one character.
pub open spec fn utf16_units(c: char) -> Seq<u16> {
    let v = c as int;
    if v < 0x10000 {
        seq![v as u16]
    } else {
        seq![(0xD800 + (v - 0x10000) / 1024) as u16, (0xDC00 + (v - 0x10000) % 1024) as u16]
    }
}

/// The UTF-16 encoding of a text.
pub open spec fn utf16(s: Seq<char>) -> Seq<u16>
    decreases s.len(),
{
    if s.len() == 0 {
        Seq::empty()
    } else {
        utf16(s.drop_last()) + utf16_units(s.last())
    }
}

/// Appends the UTF-16 code units of `c`.
fn push_utf16(units: &mut Vec<u16>, c: char)
    ensures
        final(units)@ == old(units)@ + utf16_units(c),
{
    let v: u32 = c as u32;
    if v < 0x10000 {
        units.push(v as u16);
    } else {
        let w: u32 = v - 0x10000;
        units.push((0xD800 + w / 1024) as u16);
        units.push((0xDC00 + w % 1024) as u16);
    }
    assert(units@ == old(units)@ + utf16_units(c));
}

/// Encodes `s` in UTF-16.
pub fn encode_utf16(s: &str) -> (units: Vec<u16>)
    ensures
        units@ == utf16(s@),
{
    let chars = characters(s);
    let mut units: Vec<u16> = Vec::new();
    let mut i: usize = 0;
    while i < chars.len()
        invariant
            i <= chars@.len(),
            chars@ == s@,
            units@ == utf16(s@.take(i as int)),
        decreases chars@.len() - i,
    {
        assert(s@.take(i + 1).drop_last() == s@.take(i as int));
        assert(s@.take(i + 1).last() == s@[i as int]);
        push_utf16(&mut units, chars[i]);
        i += 1;
    }
    assert(s@.take(s@.len() as int) == s@);
    units
}

// ---------------------------------------------------------------------------
// Laws
// ---------------------------------------------------------------------------

/// Trimming takes white space away from both ends, and nothing else.
pub proof fn law_trimming_takes_white_space(s: Seq<char>)
    ensures
        exists|a: int, b: int|
            {
                &&& 0 <= a <= b <= s.len()
                &&& trimmed(s) == #[trigger] s.subrange(a, b)
                &&& forall|i: int| 0 <= i < a ==> white(#[trigger] s[i])
                &&& forall|i: int| b <= i < s.len() ==> white(#[trigger] s[i])
            },
        trimmed(s).len() > 0 ==> !white(trimmed(s)[0]) && !white(trimmed(s).last()),
{
    let a = lemma_trimmed_start(s);
    let t = trimmed_start(s);
    let n = lemma_trimmed_end(t);
    assert(trimmed(s) == s.subrange(a, a + n));
    assert forall|i: int| a + n <= i < s.len() implies white(#[trigger] s[i]) by {
        assert(white(t[i - a]));
    }
}

/// How much white space a text starts with.
proof fn lemma_trimmed_start(s: Seq<char>) -> (a: int)
    ensures
        0 <= a <= s.len(),
        trimmed_start(s) == s.skip(a),
        forall|i: int| 0 <= i < a ==> white(#[trigger] s[i]),
        a < s.len() ==> !white(s[a]),
    decreases s.len(),
{
    if s.len() > 0 && white(s[0]) {
        let t = s.drop_first();
        let a = lemma_trimmed_start(t) + 1;
        assert(t.skip(a - 1) == s.skip(a));
        assert forall|i: int| 0 <= i < a implies white(#[trigger] s[i]) by {
            if i > 0 {
                assert(white(t[i - 1]));
            }
        }
        a
    } else {
        assert(s.skip(0) == s);
        0
    }
}

/// Where the white space at the end of a text starts.
proof fn lemma_trimmed_end(s: Seq<char>) -> (b: int)
    ensures
        0 <= b <= s.len(),
        trimmed_end(s) == s.take(b),
        forall|i: int| b <= i < s.len() ==> white(#[trigger] s[i]),
        b > 0 ==> !white(s[b - 1]),
    decreases s.len(),
{
    if s.len() > 0 && white(s.last()) {
        let t = s.drop_last();
        let b = lemma_trimmed_end(t);
        assert(t.take(b) == s.take(b));
        assert forall|i: int| b <= i < s.len() implies white(#[trigger] s[i]) by {
            if i < t.len() {
                assert(white(t[i]));
            }
        }
        b
    } else {
        assert(s.take(s.len() as int) == s);
        s.len() as int
    }
}

/// A text with white space at its ends is trimmed to what stands between.
pub proof fn law_trimming_finds_the_text(pre: Seq<char>, s: Seq<char>, post: Seq<char>)
    requires
        forall|i: int| 0 <= i < pre.len() ==> white(#[trigger] pre[i]),
        forall|i: int| 0 <= i < post.len() ==> white(#[trigger] post[i]),
        s.len() > 0,
        !white(s[0]),
        !white(s.last()),
    ensures
        trimmed(pre + s + post) == s,
{
    let whole = pre + s + post;
    let a = lemma_trimmed_start(whole);
    if a < pre.len() {
        assert(whole[a] == pre[a]);
    }
    if a > pre.len() {
        assert(whole[pre.len() as int] == s[0]);
    }
    let t = trimmed_start(whole);
    assert(t == s + post);
    let b = lemma_trimmed_end(t);
    if b > s.len() {
        assert(t[b - 1] == post[b - 1 - s.len()]);
    }
    if b < s.len() {
        assert(t[s.len() - 1] == s.last());
    }
    assert(t.take(b) == s);
}

/// What stands before a character is a start of the text, without that
/// character, up to its first occurrence or the end.
pub proof fn law_before_ends_at_the_first(s: Seq<char>, c: char)
    ensures
        before(s, c).len() <= s.len(),
        before(s, c) == s.take(before(s, c).len() as int),
        !before(s, c).contains(c),
        before(s, c) == s || s[before(s, c).len() as int] == c,
{
    lemma_position_is_first(s, c);
    if position(s, c) == s.len() {
        assert(before(s, c) == s);
    }
}

/// A text is split at every separator, and nowhere else.
pub proof fn law_split_at_every_separator(s: Seq<char>, t: Seq<char>, sep: char)
    ensures
        split(s + seq![sep] + t, sep) == split(s, sep) + split(t, sep),
        !s.contains(sep) ==> split(s, sep) == seq![s],
    decreases s.len(),
{
    let whole = s + seq![sep] + t;
    lemma_position_is_first(s, sep);
    if !s.contains(sep) {
        assert forall|i: int| 0 <= i < s.len() implies s[i] != sep by {
            assert(s.contains(s[i]));
        }
        lemma_position(s, sep, s.len() as int);
    }
    let p = position(s, sep) as int;
    assert(whole[p] == sep);
    assert forall|i: int| 0 <= i < p implies whole[i] != sep by {
        assert(whole[i] == s[i]);
    }
    lemma_position(whole, sep, p);
    assert(whole.take(p) == s.take(p));
    if p < s.len() {
        let rest = s.skip(p + 1);
        law_split_at_every_separator(rest, t, sep);
        assert(whole.skip(p + 1) == rest + seq![sep] + t);
        assert(split(whole, sep) == seq![s.take(p)] + (split(rest, sep) + split(
            t,
            sep,
        )));
        assert(split(whole, sep) == split(s, sep) + split(t, sep));
    } else {
        assert(whole.skip(p + 1) == t);
        assert(s.take(p) == s);
    }
}


/// White space separates words and is no part of them.
pub proof fn law_words_are_separated_by_white_space(w: Seq<char>, c: char, s: Seq<char>)
    requires
        white(c),
        forall|i: int| 0 <= i < w.len() ==> !white(#[trigger] w[i]),
    ensures
        words(Seq::empty()) == Seq::<Seq<char>>::empty(),
        words(seq![c] + s) == words(s),
        w.len() > 0 ==> words(w) == seq![w],
        w.len() > 0 ==> words(w + seq![c] + s) == seq![w] + words(s),
{
    assert((seq![c] + s).drop_first() == s);
    if w.len() > 0 {
        let n = w.len() as int;
        lemma_word(w, n);
        assert(w.take(n) == w);
        assert(words(w.skip(n)) == Seq::<Seq<char>>::empty());
        assert(words(w) == seq![w]);
        let whole = w + seq![c] + s;
        assert forall|i: int| 0 <= i < n implies !white(#[trigger] whole[i]) by {
            assert(whole[i] == w[i]);
        }
        assert(whole[n] == c);
        assert(whole[0] == w[0]);
        lemma_word(whole, n);
        assert(whole.take(n) == w);
        assert(whole.skip(n) == seq![c] + s);
    }
}

/// Hexadecimal digits are read in either case, and no other character is one.
pub proof fn law_hexadecimal_digits(c: char)
    ensures
        match hex_digit(c) {
            Some(d) => d < 16 && (if d < 10 {
                c as int == '0' as int + d
            } else {
                c as int == 'a' as int + d - 10 || c as int == 'A' as int + d - 10
            }),
            None => !('0' <= c <= '9') && !('a' <= c <= 'f') && !('A' <= c <= 'F'),
        },
{
}

/// A hexadecimal number is worth sixteen times its leading part and the value
/// of its last digit.  One that does not fit in 32 bits is none.
pub proof fn law_hexadecimal_numbers(s: Seq<char>, c: char)
    requires
        s.len() > 0,
        s[0] != '+',
    ensures
        hex_u32(seq![c]) == (match hex_digit(c) {
            Some(d) => Some(d as u32),
            None => None,
        }),
        hex_u32(s.push(c)) == (match (hex_u32(s), hex_digit(c)) {
            (Some(v), Some(d)) => if 16 * v + d <= 0xffff_ffff {
                Some((16 * v + d) as u32)
            } else {
                None
            },
            _ => None,
        }),
{
    let one = seq![c];
    assert(one.drop_last().len() == 0);
    assert(hex_value(one.drop_last()) == Some(0nat));
    if c == '+' {
        assert(one.drop_first().len() == 0);
    }
    assert(s.push(c).drop_last() == s);
    assert(unsigned(s) == s);
    assert(unsigned(s.push(c)) == s.push(c));
}

/// A number may have one plus sign in front, and needs a digit.
pub proof fn law_hexadecimal_signs(s: Seq<char>)
    ensures
        hex_u32(Seq::empty()) is None,
        hex_u32(seq!['+']) is None,
        s.len() > 0 && s[0] != '+' ==> hex_u32(seq!['+'] + s) == hex_u32(s),
        s.len() > 0 && s[0] == '+' ==> hex_u32(seq!['+'] + s) is None,
{
    assert(seq!['+'].drop_first().len() == 0);
    assert((seq!['+'] + s).drop_first() == s);
    if s.len() > 0 && s[0] == '+' {
        let sign = s.take(1);
        assert(sign.last() == '+');
        assert(hex_value(sign) is None);
        lemma_hex_prefix(s, 1);
    }
}

/// A character outside the first 65536 is encoded by a high and a low
/// surrogate, from which it can be told; any other by itself.
pub proof fn law_surrogates_read_back(c: char)
    ensures
        (c as int) < 0x10000 ==> utf16_units(c).len() == 1 && utf16_units(c)[0] == c as int,
        c as int >= 0x10000 ==> {
            let u = utf16_units(c);
            &&& u.len() == 2
            &&& 0xD800 <= u[0] < 0xDC00
            &&& 0xDC00 <= u[1] < 0xE000
            &&& c as int == 0x10000 + 1024 * (u[0] - 0xD800) + (u[1] - 0xDC00)
        },
{
}

/// A text is encoded character by character.
pub proof fn law_utf16_of_a_text(s: Seq<char>, t: Seq<char>, c: char)
    ensures
        utf16(Seq::empty()) == Seq::<u16>::empty(),
        utf16(seq![c]) == utf16_units(c),
        utf16(s + t) == utf16(s) + utf16(t),
    decreases t.len(),
{
    assert(seq![c].drop_last().len() == 0);
    assert(utf16(seq![c].drop_last()) + utf16_units(c) == utf16_units(c));
    if t.len() == 0 {
        assert(s + t == s);
        assert(utf16(s) + utf16(t) == utf16(s));
    } else {
        law_utf16_of_a_text(s, t.drop_last(), c);
        assert((s + t).drop_last() == s + t.drop_last());
        assert(utf16(s + t) == utf16(s) + utf16(t));
    }
}

} // verus!
