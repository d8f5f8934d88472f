//! The text of the interactive session: the usage message, the numbered list
//! of search results, and the reading of the line that selects one of them.

use crate::job::{SearchResult, SearchResultView};
use crate::text::{chars_of, decimal, joined, push_decimal, push_joined, texts};
use vstd::prelude::*;

verus! {

/// The usage message for a program started as `program`.
pub open spec fn usage_of(program: Seq<char>) -> Seq<char> {
    "Usage:\n"@ + program + " (track_url | album_url | playlist_url | artist_url )"@
}

/// The usage message for a program started as `program`.
pub fn usage_text(program: &str) -> (r: String)
    ensures
        r@ == usage_of(program@),
{
    let mut out = String::from_str("Usage:\n");
    out.append(program);
    out.append(" (track_url | album_url | playlist_url | artist_url )");
    out
}

/// What the program is asked to look for: its arguments after the first,
/// which is its own name, joined by single spaces. `None` where it was
/// started without arguments, which calls for the usage message.
pub open spec fn query_of(args: Seq<Seq<char>>) -> Option<Seq<char>> {
    if args.len() <= 1 {
        None
    } else {
        Some(joined(args.skip(1), " "@))
    }
}

/// What the program is asked to look for, given the arguments it was
/// started with.
pub fn query(args: &Vec<String>) -> (r: Option<String>)
    ensures
        (r is Some) == (query_of(texts(args@)) is Some),
        r is Some ==> r->0@ == query_of(texts(args@))->0,
{
    if args.len() <= 1 {
        return None;
    }
    let mut rest: Vec<String> = Vec::new();
    let mut i: usize = 1;
    while i < args.len()
        invariant
            1 <= i <= args.len(),
            rest.len() == i - 1,
            forall|j: int| 0 <= j < i - 1 ==> (#[trigger] rest[j])@ == args[j + 1]@,
        decreases args.len() - i,
    {
        rest.push(args[i].clone());
        i += 1;
    }
    assert(texts(rest@) =~= texts(args@).skip(1));
    let mut out = String::new();
    push_joined(&mut out, &rest, " ");
    assert(out@ =~= joined(texts(rest@), " "@));
    Some(out)
}

/// The list entry for the search result at index `position`: its number,
/// counted from one, the author and the title.
pub open spec fn menu_line_of(position: nat, result: SearchResultView) -> Seq<char> {
    decimal(position + 1) + ": "@ + result.author + " - "@ + result.title
}

/// The numbered list of search results, one entry per result.
pub fn menu(results: &Vec<SearchResult>) -> (r: Vec<String>)
    ensures
        r.len() == results.len(),
        forall|i: int|
            0 <= i < results.len() ==> (#[trigger] r[i])@ == menu_line_of(i as nat, results[i]@),
{
    let mut lines: Vec<String> = Vec::new();
    let mut i: usize = 0;
    while i < results.len()
        invariant
            i <= results.len(),
            lines.len() == i,
            forall|j: int|
                0 <= j < i ==> (#[trigger] lines[j])@ == menu_line_of(j as nat, results[j]@),
        decreases results.len() - i,
    {
        let mut line = String::new();
        push_decimal(&mut line, (i + 1) as u64);
        line.append(": ");
        line.append(results[i].author.as_str());
        line.append(" - ");
        line.append(results[i].title.as_str());
        assert(line@ =~= menu_line_of(i as nat, results[i as int]@));
        lines.push(line);
        i += 1;
    }
    lines
}

/// White space: the characters that Unicode gives the property White_Space.
pub open spec fn is_blank(c: char) -> bool {
    let code = c as u32;
    ||| 0x09 <= code <= 0x0d
    ||| code == 0x20
    ||| code == 0x85
    ||| code == 0xa0
    ||| code == 0x1680
    ||| 0x2000 <= code <= 0x200a
    ||| code == 0x2028
    ||| code == 0x2029
    ||| code == 0x202f
    ||| code == 0x205f
    ||| code == 0x3000
}

/// Whether `c` is white space.
pub fn blank(c: char) -> (r: bool)
    ensures
        r == is_blank(c),
{
    let code: u32 = c as u32;
    (0x09 <= code && code <= 0x0d) || code == 0x20 || code == 0x85 || code == 0xa0 || code
        == 0x1680 || (0x2000 <= code && code <= 0x200a) || code == 0x2028 || code == 0x2029
        || code == 0x202f || code == 0x205f || code == 0x3000
}

/// Number of white-space characters at the start of `s`.
pub open spec fn leading_blanks(s: Seq<char>) -> nat
    decreases s.len(),
{
    if s.len() > 0 && is_blank(s[0]) {
        1 + leading_blanks(s.drop_first())
    } else {
        0
    }
}

/// Number of white-space characters at the end of `s`.
pub open spec fn trailing_blanks(s: Seq<char>) -> nat
    decreases s.len(),
{
    if s.len() > 0 && is_blank(s.last()) {
        1 + trailing_blanks(s.drop_last())
    } else {
        0
    }
}

/// `s` without the white space at its start and at its end.
pub open spec fn trimmed(s: Seq<char>) -> Seq<char> {
    let rest = s.skip(leading_blanks(s) as int);
    rest.take(rest.len() - trailing_blanks(rest))
}

/// `leading_blanks` counts exactly the blanks before the first other
/// character.
pub proof fn lemma_leading_blanks(s: Seq<char>, n: int)
    requires
        0 <= n <= s.len(),
        forall|i: int| 0 <= i < n ==> is_blank(#[trigger] s[i]),
        n < s.len() ==> !is_blank(s[n]),
    ensures
        leading_blanks(s) == n,
    decreases s.len(),
{
    if n > 0 {
        let rest = s.drop_first();
        assert(is_blank(s[0]));
        assert forall|i: int| 0 <= i < n - 1 implies is_blank(#[trigger] rest[i]) by {
            assert(rest[i] == s[i + 1]);
        }
        lemma_leading_blanks(rest, n - 1);
    }
}

/// `trailing_blanks` counts exactly the blanks after the last other
/// character.
pub proof fn lemma_trailing_blanks(s: Seq<char>, n: int)
    requires
        0 <= n <= s.len(),
        forall|i: int| s.len() - n <= i < s.len() ==> is_blank(#[trigger] s[i]),
        n < s.len() ==> !is_blank(s[s.len() - n - 1]),
    ensures
        trailing_blanks(s) == n,
    decreases s.len(),
{
    if n > 0 {
        let rest = s.drop_last();
        assert(is_blank(s[s.len() - 1]));
        assert forall|i: int| rest.len() - (n - 1) <= i < rest.len() implies is_blank(
            #[trigger] rest[i],
        ) by {
            assert(rest[i] == s[i]);
        }
        lemma_trailing_blanks(rest, n - 1);
    }
}

/// Whether `c` is one of the ten decimal digits.
pub open spec fn is_digit(c: char) -> bool {
    0x30 <= c as u32 <= 0x39
}

/// The number that a digit stands for.
pub open spec fn digit_value(c: char) -> nat {
    (c as u32 - 0x30) as nat
}

/// The number that a sequence of digits denotes; zero for the empty one.
pub open spec fn numeral_value(s: Seq<char>) -> nat
    decreases s.len(),
{
    if s.len() == 0 {
        0
    } else {
        numeral_value(s.drop_last()) * 10 + digit_value(s.last())
    }
}

/// Whether `s` holds digits only.
pub open spec fn all_digits(s: Seq<char>) -> bool {
    forall|i: int| 0 <= i < s.len() ==> is_digit(#[trigger] s[i])
}

/// `s` without the plus sign that it may start with.
pub open spec fn unsigned_part(s: Seq<char>) -> Seq<char> {
    if s.len() > 0 && s[0] == '+' {
        s.drop_first()
    } else {
        s
    }
}

/// The number written in `s`: an optional plus sign, then at least one digit
/// and nothing but digits. `None` where `s` is not of that form or the number
/// is above `limit`.
pub open spec fn parsed_number(s: Seq<char>, limit: nat) -> Option<nat> {
    let body = unsigned_part(s);
    if body.len() > 0 && all_digits(body) && numeral_value(body) <= limit {
        Some(numeral_value(body))
    } else {
        None
    }
}

/// The number that a line of input selects: the number written in it, white
/// space around it aside, and 1 where it holds no such number.
pub open spec fn selection_of(input: Seq<char>) -> nat {
    match parsed_number(trimmed(input), usize::MAX as nat) {
        Some(n) => n,
        None => 1,
    }
}

/// The index that a line of input selects in a list of `count` entries
/// numbered from one; `None` where the number is not in the list.
pub open spec fn choice_of(input: Seq<char>, count: nat) -> Option<nat> {
    let n = selection_of(input);
    if 1 <= n <= count {
        Some((n - 1) as nat)
    } else {
        None
    }
}

/// A numeral is worth at least as much as each of its prefixes.
pub proof fn lemma_numeral_grows(s: Seq<char>, k: int)
    requires
        0 <= k <= s.len(),
    ensures
        numeral_value(s.take(k)) <= numeral_value(s),
    decreases s.len() - k,
{
    if k < s.len() {
        lemma_numeral_grows(s, k + 1);
        assert(s.take(k + 1).drop_last() =~= s.take(k));
    } else {
        assert(s.take(k) =~= s);
    }
}

/// The number that `chars[from..to]` denotes: see [`parsed_number`].
fn parse_digits(chars: &Vec<char>, from: usize, to: usize) -> (r: Option<usize>)
    requires
        from <= to <= chars.len(),
    ensures
        (r is Some) == (parsed_number(chars@.subrange(from as int, to as int), usize::MAX as nat)
            is Some),
        r is Some ==> r->0 == parsed_number(
            chars@.subrange(from as int, to as int),
            usize::MAX as nat,
        )->0,
{
    let ghost s = chars@.subrange(from as int, to as int);
    let start: usize = if from < to && chars[from] == '+' {
        from + 1
    } else {
        from
    };
    let ghost body = chars@.subrange(start as int, to as int);
    assert(body =~= unsigned_part(s));
    if start == to {
        return None;
    }
    let mut value: usize = 0;
    let mut i: usize = start;
    assert(body.take(0) =~= Seq::empty());
    while i < to
        invariant
            from <= start <= i <= to <= chars.len(),
            start < to,
            s == chars@.subrange(from as int, to as int),
            body == chars@.subrange(start as int, to as int),
            body == unsigned_part(s),
            forall|j: int| 0 <= j < i - start ==> is_digit(#[trigger] body[j]),
            value == numeral_value(body.take(i - start)),
        decreases to - i,
    {
        let c = chars[i];
        let code: u32 = c as u32;
        assert(body[i - start] == c);
        if code < 0x30 || code > 0x39 {
            assert(!is_digit(body[i - start]));
            return None;
        }
        let d: usize = (code - 0x30) as usize;
        proof {
            assert(body.take(i - start + 1).drop_last() =~= body.take(i - start));
            assert(body.take(i - start + 1).last() == c);
            assert(numeral_value(body.take(i - start + 1)) == value * 10 + d);
            lemma_numeral_grows(body, i - start + 1);
        }
        if value > (usize::MAX - d) / 10 {
            return None;
        }
        value = value * 10 + d;
        i += 1;
    }
    assert(body.take(i - start) =~= body);
    Some(value)
}

/// The number that a line of input selects, 1 where it holds none.
pub fn parse_selection(input: &str) -> (n: usize)
    ensures
        n == selection_of(input@),
{
    let chars = chars_of(input);
    let mut from: usize = 0;
    while from < chars.len() && blank(chars[from])
        invariant
            from <= chars.len(),
            forall|i: int| 0 <= i < from ==> is_blank(#[trigger] chars[i]),
        decreases chars.len() - from,
    {
        from += 1;
    }
    let mut to: usize = chars.len();
    while to > from && blank(chars[to - 1])
        invariant
            from <= to <= chars.len(),
            forall|i: int| to <= i < chars.len() ==> is_blank(#[trigger] chars[i]),
        decreases to,
    {
        to -= 1;
    }
    proof {
        let rest = chars@.skip(from as int);
        lemma_leading_blanks(chars@, from as int);
        assert forall|i: int| rest.len() - (chars.len() - to) <= i < rest.len() implies is_blank(
            #[trigger] rest[i],
        ) by {
            assert(rest[i] == chars[i + from]);
        }
        lemma_trailing_blanks(rest, chars.len() - to);
        assert(trimmed(chars@) =~= chars@.subrange(from as int, to as int));
    }
    match parse_digits(&chars, from, to) {
        Some(n) => n,
        None => 1,
    }
}

/// The index that a line of input selects in a list of `count` entries
/// numbered from one. `None` asks for another line: the number is not in the
/// list.
pub fn selected_index(input: &str, count: usize) -> (r: Option<usize>)
    ensures
        (r is Some) == (choice_of(input@, count as nat) is Some),
        r is Some ==> r->0 == choice_of(input@, count as nat)->0,
        r is Some ==> r->0 < count,
{
    let n = parse_selection(input);
    if 1 <= n && n <= count {
        Some(n - 1)
    } else {
        None
    }
}

} // verus!
