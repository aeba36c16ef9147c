//! What holds of texts: what trimming leaves, and what it is to be part of another text.

use vstd::prelude::*;

use crate::text::{
    all_digits, digits_value, has_part, is_digit, is_white, joined, line_end, lines_of, stands_at,
    trim_back, trim_front, trimmed, unsigned,
};

verus! {

/// Whether `part` is what is left of `s` when the white space at both ends is taken off.
pub open spec fn is_trimmed_to(s: Seq<char>, part: Seq<char>) -> bool {
    exists|i: int|
        0 <= i <= i + part.len() <= s.len() && #[trigger] s.subrange(i, i + part.len()) == part && (
        forall|k: int| 0 <= k < i ==> is_white(#[trigger] s[k])) && (forall|k: int|
            i + part.len() <= k < s.len() ==> is_white(#[trigger] s[k])) && (part.len() > 0
            ==> !is_white(part[0]) && !is_white(part.last()))
}

/// What trimming in front leaves.
proof fn trim_front_is_the_end(s: Seq<char>) -> (i: int)
    ensures
        0 <= i <= s.len(),
        trim_front(s) == s.skip(i),
        forall|k: int| 0 <= k < i ==> is_white(#[trigger] s[k]),
        i < s.len() ==> !is_white(s[i]),
    decreases s.len(),
{
    if s.len() > 0 && is_white(s[0]) {
        let rest = s.drop_first();
        let i = trim_front_is_the_end(rest);
        assert(rest.skip(i) =~= s.skip(i + 1));
        assert forall|k: int| 0 <= k < i + 1 implies is_white(#[trigger] s[k]) by {
            if k > 0 {
                assert(rest[k - 1] == s[k]);
            }
        }
        assert(i < rest.len() ==> rest[i] == s[i + 1]);
        i + 1
    } else {
        assert(s.skip(0) =~= s);
        0
    }
}

/// What trimming at the back leaves.
pub proof fn trim_back_is_the_start(s: Seq<char>) -> (n: int)
    ensures
        0 <= n <= s.len(),
        trim_back(s) == s.take(n),
        forall|k: int| n <= k < s.len() ==> is_white(#[trigger] s[k]),
        n > 0 ==> !is_white(s[n - 1]),
    decreases s.len(),
{
    if s.len() > 0 && is_white(s.last()) {
        let rest = s.drop_last();
        let n = trim_back_is_the_start(rest);
        assert(rest.take(n) =~= s.take(n));
        assert forall|k: int| n <= k < s.len() implies is_white(#[trigger] s[k]) by {
            if k < rest.len() {
                assert(rest[k] == s[k]);
            }
        }
        assert(n > 0 ==> rest[n - 1] == s[n - 1]);
        n
    } else {
        assert(s.take(s.len() as int) =~= s);
        s.len() as int
    }
}

/// Trimming leaves the text between the white space at its ends; of white space alone it leaves
/// nothing.
pub proof fn trimmed_is_the_middle(s: Seq<char>)
    ensures
        is_trimmed_to(s, trimmed(s)),
        trimmed(s).len() == 0 <==> forall|k: int| 0 <= k < s.len() ==> is_white(#[trigger] s[k]),
{
    let i = trim_front_is_the_end(s);
    let front = trim_front(s);
    let n = trim_back_is_the_start(front);
    let part = trimmed(s);
    assert(part =~= s.subrange(i, i + n));
    assert forall|k: int| i + n <= k < s.len() implies is_white(#[trigger] s[k]) by {
        assert(front[k - i] == s[k]);
    }
    assert(s.subrange(i, i + part.len()) == part);
    if n > 0 {
        assert(part[0] == front[0] && front[0] == s[i]);
        assert(part.last() == front[n - 1]);
        assert(!is_white(s[i]));
    } else {
        assert forall|k: int| 0 <= k < s.len() implies is_white(#[trigger] s[k]) by {
            if k >= i {
                assert(front[k - i] == s[k]);
            }
        }
    }
}

/// A text is part of another where the other is made of something, the text, and something more.
pub proof fn parts_are_parts(s: Seq<char>, part: Seq<char>)
    ensures
        has_part(s, part) <==> exists|before: Seq<char>, behind: Seq<char>|
            s == #[trigger] (before + part + behind),
{
    if has_part(s, part) {
        let i = choose|i: int| stands_at(s, part, i);
        let before = s.take(i);
        let behind = s.skip(i + part.len());
        assert(s =~= before + part + behind);
    }
    if exists|before: Seq<char>, behind: Seq<char>| s == #[trigger] (before + part + behind) {
        let (before, behind) = choose|before: Seq<char>, behind: Seq<char>|
            s == #[trigger] (before + part + behind);
        let i = before.len() as int;
        assert(s.subrange(i, i + part.len()) =~= part);
        assert(stands_at(s, part, i));
    }
}

/// Joined texts stand behind each other in order, with the separator between two of them and nowhere
/// else.
pub proof fn joined_texts_keep_their_order(list: Seq<Seq<char>>, sep: Seq<char>, i: int)
    requires
        0 <= i < list.len(),
    ensures
        joined(Seq::empty(), sep).len() == 0,
        list.len() == 1 ==> joined(list, sep) == list[0],
        0 < i ==> joined(list, sep) == joined(list.take(i), sep) + sep + joined(list.skip(i), sep),
    decreases list.len(),
{
    if 0 < i {
        let rest = list.drop_last();
        if i == list.len() - 1 {
            assert(list.take(i) =~= rest);
            assert(list.skip(i) =~= seq![list.last()]);
        } else {
            joined_texts_keep_their_order(rest, sep, i);
            assert(rest.take(i) =~= list.take(i));
            assert(list.skip(i).drop_last() =~= rest.skip(i));
            assert(list.skip(i).last() == list.last());
            let (a, b) = (joined(list.take(i), sep), joined(rest.skip(i), sep));
            assert((a + sep + b) + sep + list.last() =~= a + sep + (b + sep + list.last()));
        }
    }
}

/// A text is its first line, a line feed and the text of the other lines; a carriage return before the
/// line feed belongs to neither. A text without a line feed is one line.
pub proof fn lines_end_at_line_feeds(line: Seq<char>, rest: Seq<char>)
    requires
        forall|k: int| 0 <= k < line.len() ==> #[trigger] line[k] != '\n',
    ensures
        line.len() > 0 ==> lines_of(line) == seq![line],
        lines_of(Seq::empty()).len() == 0,
        line.len() == 0 || line.last() != '\r' ==> lines_of(line + seq!['\n'] + rest) == seq![line]
            + lines_of(rest),
        lines_of(line + seq!['\r', '\n'] + rest) == seq![line] + lines_of(rest),
{
    if line.len() > 0 {
        line_ends(line, Seq::empty());
        assert(line + Seq::<char>::empty() =~= line);
    }
    let one = line + seq!['\n'] + rest;
    assert(one =~= line + (seq!['\n'] + rest));
    line_ends(line, seq!['\n'] + rest);
    assert(one.take(line.len() as int) =~= line);
    assert(one.skip(line.len() as int + 1) =~= rest);
    let long = line.push('\r');
    let two = line + seq!['\r', '\n'] + rest;
    assert(two =~= long + (seq!['\n'] + rest));
    assert forall|k: int| 0 <= k < long.len() implies #[trigger] long[k] != '\n' by {
        if k < line.len() {
            assert(long[k] == line[k]);
        }
    }
    line_ends(long, seq!['\n'] + rest);
    assert(two.take(long.len() as int) =~= long);
    assert(two.skip(long.len() as int + 1) =~= rest);
    assert(long.drop_last() =~= line);
}

/// Where the first line ends.
proof fn line_ends(line: Seq<char>, rest: Seq<char>)
    requires
        forall|k: int| 0 <= k < line.len() ==> #[trigger] line[k] != '\n',
        rest.len() > 0 ==> rest[0] == '\n',
    ensures
        line_end(line + rest) == line.len(),
    decreases line.len(),
{
    if line.len() > 0 {
        let less = line.drop_first();
        assert forall|k: int| 0 <= k < less.len() implies #[trigger] less[k] != '\n' by {
            assert(less[k] == line[k + 1]);
        }
        line_ends(less, rest);
        assert((line + rest).drop_first() =~= less + rest);
        assert((line + rest)[0] == line[0]);
    } else {
        assert(line + rest =~= rest);
    }
}

/// A number is read from its decimal digits, perhaps behind a plus sign, where it is not too great;
/// an empty text, or one with another character, is none.
pub proof fn numbers_are_read_from_digits(s: Seq<char>, max: nat, i: int)
    requires
        0 <= i < s.len(),
    ensures
        all_digits(s) && digits_value(s) <= max ==> unsigned(s, max) == Some(digits_value(s)),
        all_digits(s) && digits_value(s) > max ==> unsigned(s, max) is None,
        all_digits(s) ==> unsigned(seq!['+'] + s, max) == unsigned(s, max),
        !is_digit(s[i]) && (i > 0 || s[i] != '+') ==> unsigned(s, max) is None,
        unsigned(Seq::empty(), max) is None,
        unsigned(seq!['+'], max) is None,
{
    let plus = seq!['+'] + s;
    assert(plus.drop_first() =~= s);
    if all_digits(s) {
        assert(is_digit(s[0]));
    }
    if !is_digit(s[i]) {
        assert(!all_digits(s));
        if s[0] == '+' && i > 0 {
            assert(s.drop_first()[i - 1] == s[i]);
        }
    }
    assert(seq!['+'].drop_first() =~= Seq::<char>::empty());
}

} // verus!
