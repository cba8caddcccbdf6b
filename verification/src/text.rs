//! Text primitives shared by every module.
//!
//! Strings are modelled as sequences of `char`. Everything here is stated over
//! those sequences and proved, apart from the few functions of the standard
//! library whose contracts stand at the end of the file.

use vstd::prelude::*;

verus! {

/// Characters with the Unicode `White_Space` property.
pub open spec fn is_white(c: char) -> bool {
    let u = c as u32;
    ||| 0x09 <= u <= 0x0D
    ||| u == 0x20
    ||| u == 0x85
    ||| u == 0xA0
    ||| u == 0x1680
    ||| 0x2000 <= u <= 0x200A
    ||| u == 0x2028
    ||| u == 0x2029
    ||| u == 0x202F
    ||| u == 0x205F
    ||| u == 0x3000
}

/// `true` when the text consists of white space only (or is empty).
pub open spec fn is_blank(s: Seq<char>) -> bool {
    forall|i: int| 0 <= i < s.len() ==> is_white(#[trigger] s[i])
}

/// The text without its leading white space.
pub open spec fn trim_front(s: Seq<char>) -> Seq<char>
    decreases s.len(),
{
    if s.len() > 0 && is_white(s[0]) {
        trim_front(s.skip(1))
    } else {
        s
    }
}

/// The text without its trailing white space.
pub open spec fn trim_back(s: Seq<char>) -> Seq<char>
    decreases s.len(),
{
    if s.len() > 0 && is_white(s.last()) {
        trim_back(s.drop_last())
    } else {
        s
    }
}

/// The text without leading and trailing white space.
pub open spec fn trimmed(s: Seq<char>) -> Seq<char> {
    trim_back(trim_front(s))
}

/// ASCII lower case of one character; every other character is kept.
pub open spec fn lower_char(c: char) -> char {
    if 'A' <= c && c <= 'Z' {
        (c as u32 + 32) as char
    } else {
        c
    }
}

/// ASCII lower case of a text.
pub open spec fn ascii_lower(s: Seq<char>) -> Seq<char> {
    s.map_values(|c: char| lower_char(c))
}

/// `pattern` stands in `s` at position `at`.
pub open spec fn occurs_at(s: Seq<char>, pattern: Seq<char>, at: int) -> bool {
    &&& 0 <= at
    &&& at + pattern.len() <= s.len()
    &&& s.subrange(at, at + pattern.len()) == pattern
}

/// `pattern` stands somewhere in `s`.
pub open spec fn has_text(s: Seq<char>, pattern: Seq<char>) -> bool {
    exists|at: int| #[trigger] occurs_at(s, pattern, at)
}

/// `s` begins with `prefix`.
pub open spec fn begins_with(s: Seq<char>, prefix: Seq<char>) -> bool {
    occurs_at(s, prefix, 0)
}

/// Decimal digit of a number below ten.
pub open spec fn digit(n: nat) -> char {
    (48 + n) as char
}

/// Decimal notation of a number, without leading zeros.
pub open spec fn decimal(n: nat) -> Seq<char>
    decreases n,
{
    if n < 10 {
        seq![digit(n)]
    } else {
        decimal(n / 10).push(digit(n % 10))
    }
}

/// `count` copies of one character.
pub open spec fn repeated(c: char, count: nat) -> Seq<char> {
    Seq::new(count, |i: int| c)
}

/// The text, filled up on the right with spaces to at least `width` characters.
pub open spec fn left_aligned(s: Seq<char>, width: nat) -> Seq<char> {
    if s.len() >= width {
        s
    } else {
        s + repeated(' ', (width - s.len()) as nat)
    }
}

/// The text, filled up on the left with `fill` to at least `width` characters.
pub open spec fn right_aligned(s: Seq<char>, width: nat, fill: char) -> Seq<char> {
    if s.len() >= width {
        s
    } else {
        repeated(fill, (width - s.len()) as nat) + s
    }
}

/// Notation of a truth value.
pub open spec fn truth(b: bool) -> Seq<char> {
    if b {
        "true"@
    } else {
        "false"@
    }
}

/// The characters of a text.
pub fn chars_of(text: &str) -> (out: Vec<char>)
    ensures
        out@ == text@,
{
    let mut out: Vec<char> = Vec::new();
    for c in it: text.chars()
        invariant
            it.seq() == text@,
            out@ == text@.take(it.index()),
    {
        out.push(c);
        assert(text@.take(it.index() + 1) == text@.take(it.index()).push(c));
    }
    assert(text@.take(text@.len() as int) == text@);
    out
}

/// The text made of the characters `chars[from..to]`.
pub fn text_of(chars: &Vec<char>, from: usize, to: usize) -> (out: String)
    requires
        from <= to <= chars@.len(),
    ensures
        out@ == chars@.subrange(from as int, to as int),
{
    let mut out = String::new();
    let mut i: usize = from;
    while i < to
        invariant
            from <= i <= to <= chars@.len(),
            out@ == chars@.subrange(from as int, i as int),
        decreases to - i,
    {
        out.push(chars[i]);
        i += 1;
        assert(chars@.subrange(from as int, i as int) == chars@.subrange(
            from as int,
            i - 1,
        ).push(chars@[i - 1]));
    }
    out
}

/// Whether a character has the Unicode `White_Space` property.
pub fn white(c: char) -> (yes: bool)
    ensures
        yes == is_white(c),
{
    let u: u32 = c as u32;
    (0x09 <= u && u <= 0x0D) || u == 0x20 || u == 0x85 || u == 0xA0 || u == 0x1680 || (0x2000 <= u
        && u <= 0x200A) || u == 0x2028 || u == 0x2029 || u == 0x202F || u == 0x205F || u == 0x3000
}

proof fn lemma_trim_front(s: Seq<char>, n: int)
    requires
        0 <= n <= s.len(),
        forall|i: int| 0 <= i < n ==> is_white(#[trigger] s[i]),
        n < s.len() ==> !is_white(s[n]),
    ensures
        trim_front(s) == s.skip(n),
    decreases n,
{
    if n > 0 {
        assert(is_white(s[0]));
        assert forall|i: int| 0 <= i < n - 1 implies is_white(#[trigger] s.skip(1)[i]) by {
            assert(s.skip(1)[i] == s[i + 1]);
        }
        lemma_trim_front(s.skip(1), n - 1);
        assert(s.skip(1).skip(n - 1) == s.skip(n));
    } else {
        assert(s.skip(0) == s);
    }
}

proof fn lemma_trim_back(s: Seq<char>, n: int)
    requires
        0 <= n <= s.len(),
        forall|i: int| n <= i < s.len() ==> is_white(#[trigger] s[i]),
        n > 0 ==> !is_white(s[n - 1]),
    ensures
        trim_back(s) == s.take(n),
    decreases s.len() - n,
{
    if n < s.len() {
        assert(is_white(s[s.len() - 1]));
        lemma_trim_back(s.drop_last(), n);
        assert(s.drop_last().take(n) == s.take(n));
    } else {
        assert(s.take(n) == s);
    }
}

/// A text is blank exactly when nothing is left of it after trimming.
pub proof fn lemma_blank_is_trimmed_away(s: Seq<char>)
    ensures
        is_blank(s) <==> trimmed(s).len() == 0,
    decreases s.len(),
{
    if s.len() > 0 && is_white(s[0]) {
        lemma_blank_is_trimmed_away(s.skip(1));
        assert(is_blank(s) <==> is_blank(s.skip(1))) by {
            if is_blank(s.skip(1)) {
                assert forall|i: int| 0 <= i < s.len() implies is_white(#[trigger] s[i]) by {
                    if i > 0 {
                        assert(s.skip(1)[i - 1] == s[i]);
                    }
                }
            }
        }
    } else if s.len() > 0 {
        lemma_trim_back_keeps_first(s);
    }
}

proof fn lemma_trim_back_keeps_first(s: Seq<char>)
    requires
        s.len() > 0,
        !is_white(s[0]),
    ensures
        trim_back(s).len() > 0,
    decreases s.len(),
{
    if is_white(s.last()) {
        lemma_trim_back_keeps_first(s.drop_last());
    }
}

/// Removes leading and trailing white space.
pub fn trim(text: &str) -> (out: String)
    ensures
        out@ == trimmed(text@),
{
    let chars = chars_of(text);
    let mut from: usize = 0;
    while from < chars.len() && white(chars[from])
        invariant
            from <= chars@.len(),
            forall|i: int| 0 <= i < from ==> is_white(#[trigger] chars@[i]),
        decreases chars@.len() - from,
    {
        from += 1;
    }
    let mut to: usize = chars.len();
    while to > from && white(chars[to - 1])
        invariant
            from <= to <= chars@.len(),
            forall|i: int| to <= i < chars@.len() ==> is_white(#[trigger] chars@[i]),
        decreases to,
    {
        to -= 1;
    }
    proof {
        lemma_trim_front(chars@, from as int);
        let rest = chars@.skip(from as int);
        assert forall|i: int| to - from <= i < rest.len() implies is_white(#[trigger] rest[i]) by {
            assert(rest[i] == chars@[i + from]);
        }
        lemma_trim_back(rest, to - from);
        assert(rest.take(to - from) == chars@.subrange(from as int, to as int));
    }
    text_of(&chars, from, to)
}

/// Whether a text consists of white space only.
pub fn blank(text: &str) -> (yes: bool)
    ensures
        yes == is_blank(text@),
        yes == (trimmed(text@).len() == 0),
{
    proof {
        lemma_blank_is_trimmed_away(text@);
    }
    let rest = trim(text);
    rest.as_str().is_empty()
}

/// ASCII lower case of one character.
pub fn lower(c: char) -> (out: char)
    ensures
        out == lower_char(c),
{
    if 'A' <= c && c <= 'Z' {
        let small: u8 = c as u8 + 32;
        small as char
    } else {
        c
    }
}

/// ASCII lower case of a text.
pub fn to_lower(text: &str) -> (out: String)
    ensures
        out@ == ascii_lower(text@),
{
    let mut out = String::new();
    for c in it: text.chars()
        invariant
            it.seq() == text@,
            out@ == ascii_lower(text@.take(it.index())),
    {
        out.push(lower(c));
        assert(ascii_lower(text@.take(it.index() + 1)) == ascii_lower(
            text@.take(it.index()),
        ).push(lower_char(c)));
    }
    assert(text@.take(text@.len() as int) == text@);
    out
}

/// Whether `pattern` stands in `chars` at position `at`.
pub fn stands_at(chars: &Vec<char>, pattern: &Vec<char>, at: usize) -> (yes: bool)
    requires
        at <= chars@.len(),
    ensures
        yes == occurs_at(chars@, pattern@, at as int),
{
    if pattern.len() > chars.len() - at {
        return false;
    }
    let mut i: usize = 0;
    while i < pattern.len()
        invariant
            i <= pattern@.len(),
            at + pattern@.len() <= chars.len(),
            forall|j: int| 0 <= j < i ==> chars@[at + j] == #[trigger] pattern@[j],
        decreases pattern@.len() - i,
    {
        if chars[at + i] != pattern[i] {
            assert(chars@.subrange(at as int, at + pattern@.len())[i as int] != pattern@[i as int]);
            return false;
        }
        i += 1;
    }
    assert(chars@.subrange(at as int, at + pattern@.len()) == pattern@);
    true
}

/// Whether two texts are the same.
pub fn same(a: &str, b: &str) -> (yes: bool)
    ensures
        yes == (a@ == b@),
{
    let left = chars_of(a);
    let right = chars_of(b);
    if left.len() != right.len() {
        return false;
    }
    proof {
        assert(left@.subrange(0, left@.len() as int) == left@);
    }
    stands_at(&left, &right, 0)
}

/// Whether two texts are the same up to ASCII case.
pub fn same_ignoring_case(a: &str, b: &str) -> (yes: bool)
    ensures
        yes == (ascii_lower(a@) == ascii_lower(b@)),
{
    let left = to_lower(a);
    let right = to_lower(b);
    same(left.as_str(), right.as_str())
}

/// Whether `text` begins with `prefix`.
pub fn has_prefix(text: &str, prefix: &str) -> (yes: bool)
    ensures
        yes == begins_with(text@, prefix@),
{
    let chars = chars_of(text);
    let head = chars_of(prefix);
    stands_at(&chars, &head, 0)
}

/// What follows `prefix` in `text`, when `text` begins with it.
pub fn after_prefix(text: &str, prefix: &str) -> (rest: Option<String>)
    ensures
        rest is Some <==> begins_with(text@, prefix@),
        rest matches Some(r) ==> r@ == text@.skip(prefix@.len() as int),
{
    let chars = chars_of(text);
    let head = chars_of(prefix);
    if stands_at(&chars, &head, 0) {
        let to: usize = chars.len();
        let rest = text_of(&chars, head.len(), to);
        assert(chars@.subrange(head@.len() as int, to as int) == text@.skip(prefix@.len() as int));
        Some(rest)
    } else {
        None
    }
}

/// Whether `pattern` stands somewhere in `text`.
pub fn contains(text: &str, pattern: &str) -> (yes: bool)
    ensures
        yes == has_text(text@, pattern@),
{
    let chars = chars_of(text);
    let part = chars_of(pattern);
    let mut at: usize = 0;
    while at < chars.len()
        invariant
            at <= chars@.len(),
            chars@ == text@,
            part@ == pattern@,
            forall|j: int| 0 <= j < at ==> !#[trigger] occurs_at(text@, pattern@, j),
        decreases chars@.len() - at,
    {
        if stands_at(&chars, &part, at) {
            return true;
        }
        at += 1;
    }
    let found = stands_at(&chars, &part, at);
    proof {
        if !found {
            assert forall|j: int| !#[trigger] occurs_at(text@, pattern@, j) by {
                if j == at {
                    assert(!occurs_at(text@, pattern@, at as int));
                }
            }
        }
    }
    found
}

/// Decimal notation of a number.
pub fn number(n: u64) -> (out: String)
    ensures
        out@ == decimal(n as nat),
    decreases n,
{
    let last: u8 = (n % 10) as u8;
    let c: char = (48 + last) as char;
    assert(c == digit(n as nat % 10));
    let mut out = if n < 10 {
        String::new()
    } else {
        number(n / 10)
    };
    out.push(c);
    out
}

/// `count` copies of one character.
fn fill(c: char, count: usize) -> (out: String)
    ensures
        out@ == repeated(c, count as nat),
{
    let mut out = String::new();
    let mut i: usize = 0;
    while i < count
        invariant
            i <= count,
            out@ == repeated(c, i as nat),
        decreases count - i,
    {
        out.push(c);
        i += 1;
        assert(repeated(c, i as nat) == repeated(c, (i - 1) as nat).push(c));
    }
    out
}

/// Fills a text up on the right with spaces to at least `width` characters.
pub fn align_left(text: &str, width: usize) -> (out: String)
    ensures
        out@ == left_aligned(text@, width as nat),
{
    let len: usize = text.unicode_len();
    let mut out = text.to_owned();
    if len < width {
        let pad = fill(' ', width - len);
        out.append(pad.as_str());
    }
    out
}

/// Fills a text up on the left with `c` to at least `width` characters.
pub fn align_right(text: &str, width: usize, c: char) -> (out: String)
    ensures
        out@ == right_aligned(text@, width as nat, c),
{
    let len: usize = text.unicode_len();
    if len < width {
        let mut out = fill(c, width - len);
        out.append(text);
        out
    } else {
        text.to_owned()
    }
}

/// Notation of a truth value.
pub fn flag(b: bool) -> (out: String)
    ensures
        out@ == truth(b),
{
    if b {
        "true".to_owned()
    } else {
        "false".to_owned()
    }
}

/// The texts of a list of strings.
pub open spec fn texts(list: Seq<String>) -> Seq<Seq<char>> {
    list.map_values(|s: String| s@)
}

/// Joins a text out of three parts.
pub fn joined(before: &str, middle: &str, after: &str) -> (out: String)
    ensures
        out@ == before@ + middle@ + after@,
{
    let mut out = before.to_owned();
    out.append(middle);
    out.append(after);
    out
}

/// Hexadecimal digit of a number below sixteen, in lower case.
pub open spec fn hex_digit(n: nat) -> char {
    if n < 10 {
        (48 + n) as char
    } else {
        (87 + n) as char
    }
}

/// Hexadecimal notation of a number, without leading zeros.
pub open spec fn hexadecimal(n: nat) -> Seq<char>
    decreases n,
{
    if n < 16 {
        seq![hex_digit(n)]
    } else {
        hexadecimal(n / 16).push(hex_digit(n % 16))
    }
}

/// Hexadecimal notation of a number.
pub fn hex(n: u32) -> (out: String)
    ensures
        out@ == hexadecimal(n as nat),
    decreases n,
{
    let last: u8 = (n % 16) as u8;
    let c: char = if last < 10 {
        (48 + last) as char
    } else {
        (87 + last) as char
    };
    assert(c == hex_digit(n as nat % 16));
    let mut out = if n < 16 {
        String::new()
    } else {
        hex(n / 16)
    };
    out.push(c);
    out
}

/// Adds a line to a list of lines.
pub fn add_line(lines: &mut Vec<String>, line: String)
    ensures
        texts(final(lines)@) == texts(old(lines)@).push(line@),
{
    lines.push(line);
    assert(texts(lines@) == texts(old(lines)@).push(line@));
}

/// `String::push`: the character is appended to the end of the string.
pub assume_specification[ String::push ](s: &mut String, c: char)
    ensures
        final(s)@ == old(s)@.push(c),
;

/// Trimming takes white space off the two ends and nothing else: the result is a
/// part of the text, only white space stands around it, and none at its ends.
pub proof fn trimming_takes_white_space_off_the_ends(s: Seq<char>)
    ensures
        exists|from: int, to: int|
            0 <= from <= to <= s.len() && trimmed(s) == #[trigger] s.subrange(from, to) && (
            forall|i: int| 0 <= i < from || to <= i < s.len() ==> is_white(#[trigger] s[i])),
        trimmed(s).len() > 0 ==> !is_white(trimmed(s)[0]) && !is_white(trimmed(s).last()),
{
    let from = lemma_front(s);
    let rest = s.skip(from);
    let len = lemma_back(rest);
    lemma_trim_front(s, from);
    lemma_trim_back(rest, len);
    let to = from + len;
    assert(rest.take(len) == s.subrange(from, to));
    assert forall|i: int| 0 <= i < from || to <= i < s.len() implies is_white(
        #[trigger] s[i],
    ) by {
        if to <= i < s.len() {
            assert(rest[i - from] == s[i]);
        }
    }
    if trimmed(s).len() > 0 {
        assert(trimmed(s)[0] == s[from]);
        assert(trimmed(s).last() == rest[len - 1]);
    }
}

proof fn lemma_front(s: Seq<char>) -> (n: int)
    ensures
        0 <= n <= s.len(),
        forall|i: int| 0 <= i < n ==> is_white(#[trigger] s[i]),
        n < s.len() ==> !is_white(s[n]),
    decreases s.len(),
{
    if s.len() > 0 && is_white(s[0]) {
        let n = lemma_front(s.skip(1));
        assert forall|i: int| 0 <= i < n + 1 implies is_white(#[trigger] s[i]) by {
            if i > 0 {
                assert(s.skip(1)[i - 1] == s[i]);
            }
        }
        n + 1
    } else {
        0
    }
}

proof fn lemma_back(s: Seq<char>) -> (n: int)
    ensures
        0 <= n <= s.len(),
        forall|i: int| n <= i < s.len() ==> is_white(#[trigger] s[i]),
        n > 0 ==> !is_white(s[n - 1]),
    decreases s.len(),
{
    if s.len() > 0 && is_white(s.last()) {
        let n = lemma_back(s.drop_last());
        assert forall|i: int| n <= i < s.len() implies is_white(#[trigger] s[i]) by {
            if i < s.len() - 1 {
                assert(s.drop_last()[i] == s[i]);
            }
        }
        n
    } else {
        s.len() as int
    }
}

/// Of the ASCII characters the space and the control characters from the tabulator
/// to the carriage return are white, and no others: neither a letter nor a digit nor
/// a punctuation mark is ever trimmed.
pub proof fn no_printable_ascii_is_white(c: char)
    requires
        c as u32 <= 0x7F,
    ensures
        is_white(c) <==> c as u32 == 32 || 9 <= c as u32 <= 13,
{
}

/// Lower case changes the letters from `A` to `Z`, each into its own small letter, and
/// leaves everything else where and what it is.
pub proof fn lower_case_changes_capitals_only(s: Seq<char>)
    ensures
        ascii_lower(s).len() == s.len(),
        forall|i: int|
            0 <= i < s.len() ==> (#[trigger] ascii_lower(s)[i]) as int == if 65 <= s[i] as int
                <= 90 {
                s[i] as int + 32
            } else {
                s[i] as int
            },
{
}

/// A text stands in another one exactly when that is made of it with something in
/// front and something behind.
pub proof fn a_text_stands_between_what_surrounds_it(s: Seq<char>, pattern: Seq<char>)
    ensures
        has_text(s, pattern) <==> exists|before: Seq<char>, after: Seq<char>|
            s == #[trigger] (before + pattern + after),
        begins_with(s, pattern) <==> exists|after: Seq<char>| s == #[trigger] (pattern + after),
{
    if has_text(s, pattern) {
        let at = choose|at: int| #[trigger] occurs_at(s, pattern, at);
        let before = s.take(at);
        let after = s.skip(at + pattern.len());
        assert(s.subrange(at, at + pattern.len()) == pattern);
        assert(s == before + pattern + after) by {
            assert forall|i: int| 0 <= i < s.len() implies s[i] == (before + pattern + after)[i] by {
                if at <= i < at + pattern.len() {
                    assert(s.subrange(at, at + pattern.len())[i - at] == s[i]);
                }
            }
        }
    }
    if exists|before: Seq<char>, after: Seq<char>| s == #[trigger] (before + pattern + after) {
        let (before, after) = choose|before: Seq<char>, after: Seq<char>|
            s == #[trigger] (before + pattern + after);
        lemma_stands_between(before, pattern, after);
    }
    if begins_with(s, pattern) {
        let after = s.skip(pattern.len() as int);
        assert(s.subrange(0, pattern.len() as int) == pattern);
        assert(s == pattern + after) by {
            assert forall|i: int| 0 <= i < s.len() implies s[i] == (pattern + after)[i] by {
                if i < pattern.len() {
                    assert(s.subrange(0, pattern.len() as int)[i] == s[i]);
                }
            }
        }
    }
    if exists|after: Seq<char>| s == #[trigger] (pattern + after) {
        let after = choose|after: Seq<char>| s == #[trigger] (pattern + after);
        assert(s.subrange(0, pattern.len() as int) == pattern);
    }
}

/// A text stands in what is made of it.
pub proof fn lemma_stands_between(before: Seq<char>, pattern: Seq<char>, after: Seq<char>)
    ensures
        has_text(before + pattern + after, pattern),
{
    let s = before + pattern + after;
    assert(s.subrange(before.len() as int, (before.len() + pattern.len()) as int) == pattern);
    assert(occurs_at(s, pattern, before.len() as int));
}

/// The number that a text of decimal digits stands for.
pub open spec fn decimal_value(digits: Seq<char>) -> int
    decreases digits.len(),
{
    if digits.len() == 0 {
        0
    } else {
        10 * decimal_value(digits.drop_last()) + (digits.last() as int - 48)
    }
}

/// A number reads back from its decimal notation, which consists of digits and begins
/// with a zero only when the number is zero.
pub proof fn a_number_reads_back(n: nat)
    ensures
        decimal_value(decimal(n)) == n,
        forall|i: int| 0 <= i < decimal(n).len() ==> 48 <= (#[trigger] decimal(n)[i]) as int <= 57,
        decimal(n).len() > 0,
        decimal(n)[0] == '0' <==> n == 0,
    decreases n,
{
    assert(digit(n % 10) as int == 48 + n % 10);
    if n < 10 {
        assert(decimal(n).drop_last() == Seq::<char>::empty());
        assert(decimal_value(Seq::<char>::empty()) == 0);
        assert(decimal(n).last() == digit(n));
    } else {
        a_number_reads_back(n / 10);
        let head = decimal(n / 10);
        let all = decimal(n);
        assert(all == head.push(digit(n % 10)));
        assert(all.drop_last() == head);
        assert(all.last() == digit(n % 10));
        assert(all[0] == head[0]);
        assert forall|i: int| 0 <= i < all.len() implies 48 <= (#[trigger] all[i]) as int <= 57 by {
            if i < head.len() {
                assert(all[i] == head[i]);
            }
        }
    }
}

/// The number that a text of hexadecimal digits stands for.
pub open spec fn hexadecimal_value(digits: Seq<char>) -> int
    decreases digits.len(),
{
    if digits.len() == 0 {
        0
    } else {
        let last = digits.last() as int;
        16 * hexadecimal_value(digits.drop_last()) + (if last >= 97 {
            last - 87
        } else {
            last - 48
        })
    }
}

/// A number reads back from its hexadecimal notation.
pub proof fn a_hexadecimal_number_reads_back(n: nat)
    ensures
        hexadecimal_value(hexadecimal(n)) == n,
        forall|i: int|
            0 <= i < hexadecimal(n).len() ==> (48 <= (#[trigger] hexadecimal(n)[i]) as int <= 57
                || 97 <= hexadecimal(n)[i] as int <= 102),
        hexadecimal(n).len() > 0,
        hexadecimal(n)[0] == '0' <==> n == 0,
    decreases n,
{
    let m = n % 16;
    assert(hex_digit(m) as int == if m < 10 {
        48 + m
    } else {
        87 + m
    });
    if n < 16 {
        assert(hexadecimal(n).drop_last() == Seq::<char>::empty());
        assert(hexadecimal_value(Seq::<char>::empty()) == 0);
        assert(hexadecimal(n).last() == hex_digit(n));
    } else {
        a_hexadecimal_number_reads_back(n / 16);
        let head = hexadecimal(n / 16);
        let all = hexadecimal(n);
        assert(all == head.push(hex_digit(m)));
        assert(all.drop_last() == head);
        assert(all.last() == hex_digit(m));
        assert(all[0] == head[0]);
        assert forall|i: int| 0 <= i < all.len() implies (48 <= (#[trigger] all[i]) as int <= 57
            || 97 <= all[i] as int <= 102) by {
            if i < head.len() {
                assert(all[i] == head[i]);
            }
        }
    }
}

/// Aligning a text keeps all of it, at the named side, and fills the rest of the
/// width; a text that is wide enough stays as it is.
pub proof fn aligning_only_fills_up(s: Seq<char>, width: nat, fill: char)
    ensures
        left_aligned(s, width).len() == if s.len() < width {
            width
        } else {
            s.len()
        },
        right_aligned(s, width, fill).len() == left_aligned(s, width).len(),
        forall|i: int| 0 <= i < s.len() ==> #[trigger] left_aligned(s, width)[i] == s[i],
        forall|i: int| s.len() <= i < width ==> #[trigger] left_aligned(s, width)[i] == ' ',
        forall|i: int|
            0 <= i < s.len() ==> right_aligned(s, width, fill)[right_aligned(s, width, fill).len()
                - s.len() + i] == #[trigger] s[i],
        forall|i: int|
            0 <= i < right_aligned(s, width, fill).len() - s.len()
                ==> #[trigger] right_aligned(s, width, fill)[i] == fill,
{
}

/// The two characters are the same, or the capital and the small form of one ASCII
/// letter.
pub open spec fn same_letter(a: char, b: char) -> bool {
    ||| a == b
    ||| 65 <= a as int <= 90 && b as int == a as int + 32
    ||| 65 <= b as int <= 90 && a as int == b as int + 32
}

/// Two texts are the same up to ASCII case exactly when they are of one length and have
/// the same letter in every place.
pub proof fn texts_are_compared_letter_by_letter(a: Seq<char>, b: Seq<char>)
    ensures
        ascii_lower(a) == ascii_lower(b) <==> a.len() == b.len() && forall|i: int|
            0 <= i < a.len() ==> same_letter(#[trigger] a[i], b[i]),
{
    if ascii_lower(a) == ascii_lower(b) {
        assert(ascii_lower(a).len() == ascii_lower(b).len());
        assert forall|i: int| 0 <= i < a.len() implies same_letter(#[trigger] a[i], b[i]) by {
            assert(ascii_lower(a)[i] == ascii_lower(b)[i]);
            assert(lower_char(a[i]) == lower_char(b[i]));
        }
    }
    if a.len() == b.len() && forall|i: int| 0 <= i < a.len() ==> same_letter(#[trigger] a[i], b[i]) {
        assert forall|i: int| 0 <= i < a.len() implies ascii_lower(a)[i] == ascii_lower(b)[i] by {
            assert(same_letter(a[i], b[i]));
        }
        assert(ascii_lower(a) =~= ascii_lower(b));
    }
}

/// A word of small ASCII letters is kept by trimming and by lower case.
pub proof fn lemma_small_word(s: Seq<char>)
    requires
        forall|i: int| 0 <= i < s.len() ==> 97 <= (#[trigger] s[i]) as int <= 122,
    ensures
        ascii_lower(trimmed(s)) == s,
{
    if s.len() > 0 {
        assert(!is_white(s[0]));
        assert(!is_white(s[s.len() - 1]));
    }
    lemma_trim_front(s, 0);
    assert(s.skip(0) == s);
    lemma_trim_back(s, s.len() as int);
    assert(s.take(s.len() as int) == s);
    assert forall|i: int| 0 <= i < s.len() implies ascii_lower(s)[i] == s[i] by {
        assert(97 <= s[i] as int <= 122);
    }
    assert(ascii_lower(s) =~= s);
}

/// Beyond ASCII the spaces and separators of Unicode and the next line control are white,
/// and no other character.
pub proof fn the_spaces_of_unicode_are_white(c: char)
    requires
        c as u32 > 0x7F,
    ensures
        is_white(c) ==> {
            ||| c == '\u{85}' || c == '\u{A0}' || c == '\u{1680}'
            ||| 0x2000 <= c as u32 <= 0x200A
            ||| c == '\u{2028}' || c == '\u{2029}' || c == '\u{202F}' || c == '\u{205F}'
            ||| c == '\u{3000}'
        },
        c == '\u{85}' || c == '\u{A0}' || c == '\u{1680}' || c == '\u{2028}' || c == '\u{2029}' || c
            == '\u{202F}' || c == '\u{205F}' || c == '\u{3000}' ==> is_white(c),
        0x2000 <= c as u32 <= 0x200A ==> is_white(c),
{
}

/// A truth value is told by its own name.
pub proof fn truth_values_are_told_apart(b: bool, out: String)
    requires
        call_ensures(flag, (b,), out),
    ensures
        b ==> out@ == "true"@,
        !b ==> out@ == "false"@,
        "true"@ != "false"@,
{
    reveal_strlit("true");
    reveal_strlit("false");
    assert("true"@.len() == 4 && "false"@.len() == 5);
}

/// What stands in a text still stands in it with something in front and behind.
pub proof fn lemma_still_stands(
    before: Seq<char>,
    s: Seq<char>,
    after: Seq<char>,
    pattern: Seq<char>,
)
    requires
        has_text(s, pattern),
    ensures
        has_text(before + s + after, pattern),
{
    let at = choose|at: int| #[trigger] occurs_at(s, pattern, at);
    let all = before + s + after;
    let from = before.len() + at;
    assert(all.subrange(from, from + pattern.len()) == s.subrange(at, at + pattern.len()));
    assert(occurs_at(all, pattern, from));
}

} // verus!
