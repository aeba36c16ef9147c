//! Text handling: trimming, splitting, searching, numbers to and from decimal digits.
//!
//! A piece of text is modelled by the sequence of its characters.

use vstd::prelude::*;

verus! {

/// Appending one character puts it at the end of the text.
pub assume_specification[ String::push ](text: &mut String, c: char)
    ensures
        final(text)@ == old(text)@.push(c),
;

/// Appending a piece of text puts it behind what was there.
pub assume_specification[ String::push_str ](text: &mut String, more: &str)
    ensures
        final(text)@ == old(text)@ + more@,
;

// --- characters ----------------------------------------------------------------

/// The characters with Unicode's `White_Space` property.
pub open spec fn is_white(c: char) -> bool {
    ||| 0x9 <= c as u32 <= 0xd
    ||| c as u32 == 0x20
    ||| c as u32 == 0x85
    ||| c as u32 == 0xa0
    ||| c as u32 == 0x1680
    ||| 0x2000 <= c as u32 <= 0x200a
    ||| c as u32 == 0x2028
    ||| c as u32 == 0x2029
    ||| c as u32 == 0x202f
    ||| c as u32 == 0x205f
    ||| c as u32 == 0x3000
}

/// Whether `c` is white space.
pub fn is_whitespace(c: char) -> (r: bool)
    ensures
        r == is_white(c),
{
    let n: u32 = c as u32;
    (0x9 <= n && n <= 0xd) || n == 0x20 || n == 0x85 || n == 0xa0 || n == 0x1680 || (0x2000 <= n
        && n <= 0x200a) || n == 0x2028 || n == 0x2029 || n == 0x202f || n == 0x205f || n == 0x3000
}

/// The decimal digits `0` to `9`.
pub open spec fn is_digit(c: char) -> bool {
    '0' <= c <= '9'
}

/// The number that a decimal digit stands for.
pub open spec fn digit_value(c: char) -> int {
    c as int - '0' as int
}

/// The decimal digit for `0 <= n < 10`.
pub open spec fn digit_char(n: int) -> char {
    (n + 48) as char
}

/// The characters of `s`, one by one.
pub fn to_chars(s: &str) -> (r: Vec<char>)
    ensures
        r@ == s@,
{
    let mut out: Vec<char> = Vec::new();
    for c in it: s.chars()
        invariant
            it.seq() == s@,
            out@ == s@.take(it.index() as int),
    {
        out.push(c);
        assert(s@.take(it.index() + 1) =~= s@.take(it.index() as int).push(c));
    }
    assert(s@.take(s@.len() as int) =~= s@);
    out
}

/// The text made of the characters `from..to` of `chars`.
pub fn from_range(chars: &Vec<char>, from: usize, to: usize) -> (r: String)
    requires
        from <= to <= chars@.len(),
    ensures
        r@ == chars@.subrange(from as int, to as int),
{
    let mut out = String::new();
    let mut i: usize = from;
    while i < to
        invariant
            from <= i <= to <= chars@.len(),
            out@ == chars@.subrange(from as int, i as int),
        decreases to - i,
    {
        out.push(chars[i]);
        i += 1;
        assert(chars@.subrange(from as int, i as int) =~= chars@.subrange(
            from as int,
            i as int - 1,
        ).push(chars@[i as int - 1]));
    }
    out
}

/// The text made of all of `chars`.
pub fn from_chars(chars: &Vec<char>) -> (r: String)
    ensures
        r@ == chars@,
{
    let r = from_range(chars, 0, chars.len());
    assert(chars@.subrange(0, chars@.len() as int) =~= chars@);
    r
}

/// A copy of `s`.
pub fn owned(s: &str) -> (r: String)
    ensures
        r@ == s@,
{
    s.to_owned()
}

/// Whether two texts are the same.
pub fn same(a: &str, b: &str) -> (r: bool)
    ensures
        r == (a@ == b@),
{
    let x = to_chars(a);
    let y = to_chars(b);
    if x.len() != y.len() {
        return false;
    }
    let mut i: usize = 0;
    while i < x.len()
        invariant
            x@ == a@,
            y@ == b@,
            x@.len() == y@.len(),
            0 <= i <= x@.len(),
            forall|j: int| 0 <= j < i ==> x@[j] == y@[j],
        decreases x@.len() - i,
    {
        if x[i] != y[i] {
            return false;
        }
        i += 1;
    }
    assert(a@ =~= b@);
    true
}

// --- trimming ------------------------------------------------------------------

/// `s` without its leading white space.
pub open spec fn trim_front(s: Seq<char>) -> Seq<char>
    decreases s.len(),
{
    if s.len() > 0 && is_white(s[0]) {
        trim_front(s.drop_first())
    } else {
        s
    }
}

/// `s` without its trailing white space.
pub open spec fn trim_back(s: Seq<char>) -> Seq<char>
    decreases s.len(),
{
    if s.len() > 0 && is_white(s.last()) {
        trim_back(s.drop_last())
    } else {
        s
    }
}

/// `s` without white space at either end.
pub open spec fn trimmed(s: Seq<char>) -> Seq<char> {
    trim_back(trim_front(s))
}

/// How many of the characters of `chars` come before the first that is not white space.
fn white_prefix(chars: &Vec<char>) -> (n: usize)
    ensures
        n <= chars@.len(),
        trim_front(chars@) == chars@.skip(n as int),
{
    let mut i: usize = 0;
    assert(chars@.skip(0) =~= chars@);
    while i < chars.len() && is_whitespace(chars[i])
        invariant
            i <= chars@.len(),
            trim_front(chars@) == trim_front(chars@.skip(i as int)),
        decreases chars@.len() - i,
    {
        assert(chars@.skip(i as int).drop_first() =~= chars@.skip(i as int + 1));
        i += 1;
    }
    i
}

/// Where the trailing white space of `chars[from..]` starts.
fn white_suffix(chars: &Vec<char>, from: usize) -> (n: usize)
    requires
        from <= chars@.len(),
    ensures
        from <= n <= chars@.len(),
        trim_back(chars@.skip(from as int)) == chars@.subrange(from as int, n as int),
{
    let mut i: usize = chars.len();
    assert(chars@.subrange(from as int, i as int) =~= chars@.skip(from as int));
    while i > from && is_whitespace(chars[i - 1])
        invariant
            from <= i <= chars@.len(),
            trim_back(chars@.skip(from as int)) == trim_back(
                chars@.subrange(from as int, i as int),
            ),
        decreases i,
    {
        assert(chars@.subrange(from as int, i as int).drop_last() =~= chars@.subrange(
            from as int,
            i as int - 1,
        ));
        i -= 1;
    }
    i
}

/// `s` without white space at either end.
pub fn trim(s: &str) -> (r: String)
    ensures
        r@ == trimmed(s@),
{
    let chars = to_chars(s);
    let from = white_prefix(&chars);
    let to = white_suffix(&chars, from);
    from_range(&chars, from, to)
}

/// `s` without its trailing white space.
pub fn trim_end(s: &str) -> (r: String)
    ensures
        r@ == trim_back(s@),
{
    let chars = to_chars(s);
    let to = white_suffix(&chars, 0);
    assert(chars@.skip(0) =~= chars@);
    from_range(&chars, 0, to)
}

// --- splitting -----------------------------------------------------------------

/// The position of the first white space of `s`, or its length.
pub open spec fn word_end(s: Seq<char>) -> nat
    decreases s.len(),
{
    if s.len() == 0 || is_white(s[0]) {
        0
    } else {
        1 + word_end(s.drop_first())
    }
}

/// `word_end` stays within the text.
pub proof fn word_end_bound(s: Seq<char>)
    ensures
        word_end(s) <= s.len(),
        s.len() > 0 && !is_white(s[0]) ==> word_end(s) > 0,
    decreases s.len(),
{
    if s.len() > 0 && !is_white(s[0]) {
        word_end_bound(s.drop_first());
    }
}

/// The words of `s`: its longest stretches without white space, in order.
pub open spec fn words_of(s: Seq<char>) -> Seq<Seq<char>>
    decreases s.len(),
{
    if s.len() == 0 {
        Seq::empty()
    } else if is_white(s[0]) {
        words_of(s.drop_first())
    } else {
        let n = word_end(s);
        if 0 < n <= s.len() {
            seq![s.take(n as int)] + words_of(s.skip(n as int))
        } else {
            Seq::empty()
        }
    }
}

/// The position of the first white space of `chars[from..]`.
pub fn find_white(chars: &Vec<char>, from: usize) -> (n: usize)
    requires
        from <= chars@.len(),
    ensures
        from <= n <= chars@.len(),
        n - from == word_end(chars@.skip(from as int)),
{
    let mut i: usize = from;
    while i < chars.len() && !is_whitespace(chars[i])
        invariant
            from <= i <= chars@.len(),
            word_end(chars@.skip(from as int)) == (i - from) + word_end(chars@.skip(i as int)),
        decreases chars@.len() - i,
    {
        assert(chars@.skip(i as int).drop_first() =~= chars@.skip(i as int + 1));
        i += 1;
    }
    i
}

/// The words of `s`, in order.
pub fn words(s: &str) -> (r: Vec<String>)
    ensures
        texts(r@) == words_of(s@),
{
    let chars = to_chars(s);
    let mut out: Vec<String> = Vec::new();
    let mut i: usize = 0;
    assert(chars@.skip(0) =~= chars@);
    assert(texts(out@) + words_of(chars@) =~= words_of(chars@));
    while i < chars.len()
        invariant
            chars@ == s@,
            i <= chars@.len(),
            texts(out@) + words_of(chars@.skip(i as int)) == words_of(s@),
        decreases chars@.len() - i,
    {
        let ghost rest = chars@.skip(i as int);
        if is_whitespace(chars[i]) {
            assert(rest.drop_first() =~= chars@.skip(i as int + 1));
            i += 1;
        } else {
            proof {
                word_end_bound(rest);
            }
            let n = find_white(&chars, i);
            let word = from_range(&chars, i, n);
            let ghost before = texts(out@);
            out.push(word);
            proof {
                assert(rest.take(n - i) =~= word@);
                assert(rest.skip(n - i) =~= chars@.skip(n as int));
                assert(texts(out@) =~= before.push(word@));
                assert(before + (seq![word@] + words_of(chars@.skip(n as int))) =~= before.push(
                    word@,
                ) + words_of(chars@.skip(n as int)));
            }
            i = n;
        }
    }
    assert(texts(out@) + words_of(chars@.skip(i as int)) =~= texts(out@));
    out
}

/// The position of the first line feed of `s`, or its length.
pub open spec fn line_end(s: Seq<char>) -> nat
    decreases s.len(),
{
    if s.len() == 0 || s[0] == '\n' {
        0
    } else {
        1 + line_end(s.drop_first())
    }
}

/// A line without the carriage return of its ending.
pub open spec fn without_return(line: Seq<char>) -> Seq<char> {
    if line.len() > 0 && line.last() == '\r' {
        line.drop_last()
    } else {
        line
    }
}

/// The lines of `s`. A line ends with a line feed, or with a carriage return and a line feed; the
/// ending is not part of the line, and that of the last line may be missing.
pub open spec fn lines_of(s: Seq<char>) -> Seq<Seq<char>>
    decreases s.len(),
{
    let n = line_end(s);
    if s.len() == 0 {
        Seq::empty()
    } else if n < s.len() {
        seq![without_return(s.take(n as int))] + lines_of(s.skip(n as int + 1))
    } else {
        seq![s]
    }
}

/// The lines of `s`, in order.
pub fn lines(s: &str) -> (r: Vec<String>)
    ensures
        texts(r@) == lines_of(s@),
{
    let chars = to_chars(s);
    let mut out: Vec<String> = Vec::new();
    let mut i: usize = 0;
    assert(chars@.skip(0) =~= chars@);
    assert(texts(out@) + lines_of(chars@) =~= lines_of(chars@));
    while i < chars.len()
        invariant
            chars@ == s@,
            i <= chars@.len(),
            texts(out@) + lines_of(chars@.skip(i as int)) == lines_of(s@),
        decreases chars@.len() - i,
    {
        let ghost rest = chars@.skip(i as int);
        let mut n: usize = i;
        while n < chars.len() && chars[n] != '\n'
            invariant
                i <= n <= chars@.len(),
                line_end(chars@.skip(i as int)) == (n - i) + line_end(chars@.skip(n as int)),
            decreases chars@.len() - n,
        {
            assert(chars@.skip(n as int).drop_first() =~= chars@.skip(n as int + 1));
            n += 1;
        }
        let ghost before = texts(out@);
        if n < chars.len() {
            assert(rest.take(n - i) =~= chars@.subrange(i as int, n as int));
            let to: usize = if n > i && chars[n - 1] == '\r' {
                n - 1
            } else {
                n
            };
            let line = from_range(&chars, i, to);
            assert(line@ =~= without_return(rest.take(n - i)));
            out.push(line);
            proof {
                assert(rest.skip(n - i + 1) =~= chars@.skip(n as int + 1));
                assert(texts(out@) =~= before.push(line@));
                assert(before + (seq![line@] + lines_of(chars@.skip(n as int + 1)))
                    =~= before.push(line@) + lines_of(chars@.skip(n as int + 1)));
            }
            i = n + 1;
        } else {
            let line = from_range(&chars, i, n);
            assert(line@ =~= rest);
            out.push(line);
            proof {
                assert(texts(out@) =~= before.push(line@));
                assert(before + seq![line@] =~= before.push(line@));
                assert(before.push(line@) + lines_of(chars@.skip(n as int)) =~= before.push(line@));
            }
            i = n;
        }
    }
    assert(texts(out@) + lines_of(chars@.skip(i as int)) =~= texts(out@));
    out
}

// --- lists of texts ------------------------------------------------------------

/// What a list of texts holds.
pub open spec fn texts(list: Seq<String>) -> Seq<Seq<char>> {
    list.map_values(|s: String| s@)
}

/// What a list of borrowed texts holds.
pub open spec fn str_texts(list: Seq<&str>) -> Seq<Seq<char>> {
    list.map_values(|s: &str| s@)
}

/// The texts of `list` one behind the other, with `sep` between them.
pub open spec fn joined(list: Seq<Seq<char>>, sep: Seq<char>) -> Seq<char>
    decreases list.len(),
{
    if list.len() == 0 {
        Seq::empty()
    } else if list.len() == 1 {
        list[0]
    } else {
        joined(list.drop_last(), sep) + sep + list.last()
    }
}

/// The texts of `list` one behind the other, with `sep` between them.
pub fn join(list: &Vec<String>, sep: &str) -> (r: String)
    ensures
        r@ == joined(texts(list@), sep@),
{
    let mut out = String::new();
    let mut i: usize = 0;
    while i < list.len()
        invariant
            i <= list@.len(),
            out@ == joined(texts(list@).take(i as int), sep@),
        decreases list@.len() - i,
    {
        let ghost upto = texts(list@).take(i as int + 1);
        assert(upto.drop_last() =~= texts(list@).take(i as int));
        if i > 0 {
            out.push_str(sep);
        }
        let ghost before = out@;
        out.push_str(list[i].as_str());
        assert(Seq::<char>::empty() + list@[i as int]@ =~= list@[i as int]@);
        i += 1;
    }
    assert(texts(list@).take(i as int) =~= texts(list@));
    out
}

/// A copy of a list of texts.
pub fn copy_texts(list: &Vec<String>) -> (r: Vec<String>)
    ensures
        texts(r@) == texts(list@),
{
    let mut out: Vec<String> = Vec::new();
    let mut i: usize = 0;
    while i < list.len()
        invariant
            i <= list@.len(),
            texts(out@) == texts(list@).take(i as int),
        decreases list@.len() - i,
    {
        let ghost before = texts(out@);
        out.push(owned(list[i].as_str()));
        i += 1;
        assert(texts(out@) =~= before.push(list@[i as int - 1]@));
        assert(texts(list@).take(i as int) =~= before.push(list@[i as int - 1]@));
    }
    assert(texts(list@).take(i as int) =~= texts(list@));
    out
}

// --- searching -----------------------------------------------------------------

/// Whether `needle` stands in `s` at position `i`.
pub open spec fn stands_at(s: Seq<char>, needle: Seq<char>, i: int) -> bool {
    0 <= i && i + needle.len() <= s.len() && s.subrange(i, i + needle.len()) == needle
}

/// Whether `needle` stands anywhere in `s`.
pub open spec fn has_part(s: Seq<char>, needle: Seq<char>) -> bool {
    exists|i: int| stands_at(s, needle, i)
}

/// Whether `needle` stands anywhere in `s`.
pub fn contains(s: &str, needle: &str) -> (r: bool)
    ensures
        r == has_part(s@, needle@),
{
    let x = to_chars(s);
    let y = to_chars(needle);
    let n: usize = x.len();
    let mut i: usize = 0;
    while n - i >= y.len()
        invariant
            x@ == s@,
            y@ == needle@,
            n == x@.len(),
            i <= n,
            forall|k: int| 0 <= k < i ==> !stands_at(s@, needle@, k),
        decreases n - i,
    {
        let mut j: usize = 0;
        while j < y.len() && x[i + j] == y[j]
            invariant
                j <= y@.len(),
                i + y@.len() <= n,
                n == x@.len(),
                forall|k: int| 0 <= k < j ==> x@[i + k] == y@[k],
            decreases y@.len() - j,
        {
            j += 1;
        }
        if j == y.len() {
            assert(s@.subrange(i as int, i + needle@.len()) =~= needle@);
            assert(stands_at(s@, needle@, i as int));
            return true;
        }
        proof {
            if stands_at(s@, needle@, i as int) {
                assert(s@.subrange(i as int, i + needle@.len())[j as int] == x@[i + j]);
            }
        }
        i += 1;
    }
    false
}

/// Whether the character `c` stands anywhere in `s`.
pub fn contains_char(s: &str, c: char) -> (r: bool)
    ensures
        r == s@.contains(c),
{
    let chars = to_chars(s);
    let mut i: usize = 0;
    while i < chars.len()
        invariant
            chars@ == s@,
            i <= chars@.len(),
            forall|k: int| 0 <= k < i ==> s@[k] != c,
        decreases chars@.len() - i,
    {
        if chars[i] == c {
            return true;
        }
        i += 1;
    }
    false
}

// --- letter case ---------------------------------------------------------------

/// The lower-case letter of an upper-case ASCII letter; any other character itself.
pub open spec fn ascii_lower(c: char) -> char {
    if 'A' <= c <= 'Z' {
        (c as u32 + 32) as char
    } else {
        c
    }
}

/// `s` with its ASCII letters in lower case.
pub open spec fn ascii_lowered(s: Seq<char>) -> Seq<char> {
    s.map_values(|c: char| ascii_lower(c))
}

/// `s` with its ASCII letters in lower case.
pub fn to_ascii_lowercase(s: &str) -> (r: String)
    ensures
        r@ == ascii_lowered(s@),
{
    let mut out = String::new();
    for c in it: s.chars()
        invariant
            it.seq() == s@,
            out@ == ascii_lowered(s@).take(it.index() as int),
    {
        let low: char = if 'A' <= c && c <= 'Z' {
            ((c as u8) + 32) as char
        } else {
            c
        };
        out.push(low);
        assert(ascii_lowered(s@).take(it.index() + 1) =~= ascii_lowered(s@).take(
            it.index() as int,
        ).push(low));
    }
    assert(ascii_lowered(s@).take(s@.len() as int) =~= ascii_lowered(s@));
    out
}

/// The lower-case form of a text by Unicode's rules.
pub uninterp spec fn lowered(s: Seq<char>) -> Seq<char>;

/// The standard library's `str::to_lowercase`: what it returns depends on the text alone.
#[verifier::external_body]
pub(crate) fn to_lowercase(s: &str) -> (r: String)
    ensures
        r@ == lowered(s@),
{
    s.to_lowercase()
}

/// A text between double quotes, with the escapes that Rust's debug output gives it.
pub uninterp spec fn quoted(s: Seq<char>) -> Seq<char>;

/// The debug output of a text (`{:?}`): what it returns depends on the text alone.
#[verifier::external_body]
pub(crate) fn quote(s: &str) -> (r: String)
    ensures
        r@ == quoted(s@),
{
    format!("{s:?}")
}

// --- numbers -------------------------------------------------------------------

/// `n` in decimal digits, without leading zeros.
pub open spec fn decimal(n: nat) -> Seq<char>
    decreases n,
{
    if n < 10 {
        seq![digit_char(n as int)]
    } else {
        decimal(n / 10).push(digit_char((n % 10) as int))
    }
}

/// `n` in decimal digits, without leading zeros.
pub fn to_decimal(n: u64) -> (r: String)
    ensures
        r@ == decimal(n as nat),
    decreases n,
{
    let mut out = if n < 10 {
        String::new()
    } else {
        to_decimal(n / 10)
    };
    let c: char = (48 + (n % 10) as u8) as char;
    out.push(c);
    assert(n < 10 ==> out@ =~= decimal(n as nat));
    out
}

/// `n < 100` in two decimal digits.
pub open spec fn two_digits(n: int) -> Seq<char> {
    seq![digit_char(n / 10), digit_char(n % 10)]
}

/// `n < 100` in two decimal digits.
pub fn to_two_digits(n: u64) -> (r: String)
    requires
        n < 100,
    ensures
        r@ == two_digits(n as int),
{
    let mut out = String::new();
    out.push((48 + (n / 10) as u8) as char);
    out.push((48 + (n % 10) as u8) as char);
    assert(out@ =~= two_digits(n as int));
    out
}

/// Whether `s` holds decimal digits only.
pub open spec fn all_digits(s: Seq<char>) -> bool {
    forall|i: int| 0 <= i < s.len() ==> is_digit(#[trigger] s[i])
}

/// The number that a row of decimal digits stands for; none stand for zero.
pub open spec fn digits_value(s: Seq<char>) -> nat
    decreases s.len(),
{
    if s.len() == 0 {
        0
    } else {
        10 * digits_value(s.drop_last()) + digit_value(s.last()) as nat
    }
}

/// The digits of a number as typed: what is left of it behind one plus sign.
pub open spec fn unsigned_part(s: Seq<char>) -> Seq<char> {
    if s.len() > 0 && s[0] == '+' {
        s.drop_first()
    } else {
        s
    }
}

/// The number that `s` stands for, if it is one of at most `max`: decimal digits, at least one,
/// perhaps behind a plus sign.
pub open spec fn unsigned(s: Seq<char>, max: nat) -> Option<nat> {
    let digits = unsigned_part(s);
    if digits.len() > 0 && all_digits(digits) && digits_value(digits) <= max {
        Some(digits_value(digits))
    } else {
        None
    }
}

/// More digits make no smaller number.
proof fn digits_value_grows(s: Seq<char>, i: int)
    requires
        all_digits(s),
        0 <= i <= s.len(),
    ensures
        digits_value(s.take(i)) <= digits_value(s),
    decreases s.len() - i,
{
    if i < s.len() {
        digits_value_grows(s, i + 1);
        assert(s.take(i + 1).drop_last() =~= s.take(i));
        assert(is_digit(s[i]));
    } else {
        assert(s.take(i) =~= s);
    }
}

/// The number that `s` stands for, if it is one of at most `max`.
pub fn parse_unsigned(s: &str, max: u64) -> (r: Option<u64>)
    ensures
        match unsigned(s@, max as nat) {
            Some(n) => r == Some(n as u64) && n <= u64::MAX,
            None => r is None,
        },
{
    let chars = to_chars(s);
    let from: usize = if chars.len() > 0 && chars[0] == '+' {
        1
    } else {
        0
    };
    let ghost digits = unsigned_part(s@);
    assert(digits =~= chars@.skip(from as int));
    if chars.len() == from {
        return None;
    }
    let mut value: u64 = 0;
    let mut i: usize = from;
    while i < chars.len()
        invariant
            chars@ == s@,
            from <= 1,
            from <= i <= chars@.len(),
            digits == unsigned_part(s@),
            digits == chars@.skip(from as int),
            digits.len() > 0,
            forall|k: int| 0 <= k < i - from ==> is_digit(#[trigger] digits[k]),
            value == digits_value(digits.take(i - from)),
            value <= max,
        decreases chars@.len() - i,
    {
        let c = chars[i];
        assert(digits[i - from] == c);
        if c < '0' || c > '9' {
            return None;
        }
        let d: u64 = (c as u8 - 48) as u64;
        let ghost upto = digits.take(i - from + 1);
        assert(upto.drop_last() =~= digits.take(i - from));
        assert(digits_value(upto) == 10 * value + d);
        if value > (max - if d < max { d } else { max }) / 10 || d > max {
            proof {
                if all_digits(digits) {
                    digits_value_grows(digits, i - from + 1);
                }
            }
            return None;
        }
        value = value * 10 + d;
        i += 1;
    }
    assert(digits.take(i - from) =~= digits);
    Some(value)
}

} // verus!
