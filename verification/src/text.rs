//! Operations on text, stated over sequences of characters.

use vstd::prelude::*;
use vstd::string::StrSliceExecFns;
use vstd::string::StringExecFns;

verus! {

/// The characters of `s`, in order.
pub fn chars_of(s: &str) -> (chars: Vec<char>)
    ensures
        chars@ == s@,
{
    let mut chars: Vec<char> = Vec::new();
    for c in it: s.chars()
        invariant
            it.seq() == s@,
            chars@ == it.seq().take(it.index()),
    {
        chars.push(c);
    }
    chars
}

/// Whether two strings hold the same characters.
pub fn same_text(a: &str, b: &str) -> (same: bool)
    ensures
        same == (a@ == b@),
{
    let x = chars_of(a);
    let y = chars_of(b);
    if x.len() != y.len() {
        return false;
    }
    let mut i: usize = 0;
    while i < x.len()
        invariant
            x.len() == y.len(),
            i <= x.len(),
            x@ == a@,
            y@ == b@,
            x@.take(i as int) == y@.take(i as int),
        decreases x.len() - i,
    {
        if x[i] != y[i] {
            return false;
        }
        assert(x@.take(i + 1) == x@.take(i as int).push(x@[i as int]));
        assert(y@.take(i + 1) == y@.take(i as int).push(y@[i as int]));
        i += 1;
    }
    assert(x@ == x@.take(i as int));
    assert(y@ == y@.take(i as int));
    true
}

/// Whether `pattern` stands in `text` at place `at`.
pub open spec fn occurs_at(text: Seq<char>, pattern: Seq<char>, at: int) -> bool {
    0 <= at && at + pattern.len() <= text.len() && text.subrange(at, at + pattern.len())
        == pattern
}

/// The pieces of `text` from place `start` on, cut at each occurrence of
/// `pattern` found from place `at` on, going left to right; an occurrence
/// begins only where the one before it has ended. An empty pattern occurs
/// nowhere.
pub open spec fn pieces_from(text: Seq<char>, pattern: Seq<char>, start: int, at: int) -> Seq<
    Seq<char>,
>
    recommends
        0 <= start <= at,
    decreases text.len() - at,
{
    if pattern.len() == 0 || at < 0 || at + pattern.len() > text.len() {
        seq![text.subrange(start, text.len() as int)]
    } else if occurs_at(text, pattern, at) {
        seq![text.subrange(start, at)] + pieces_from(
            text,
            pattern,
            at + pattern.len(),
            at + pattern.len(),
        )
    } else {
        pieces_from(text, pattern, start, at + 1)
    }
}

/// The pieces into which the occurrences of `pattern` cut `text`.
pub open spec fn pieces(text: Seq<char>, pattern: Seq<char>) -> Seq<Seq<char>> {
    pieces_from(text, pattern, 0, 0)
}

/// Whether `pattern` stands in `text` at place `at`.
fn matches_at(text: &Vec<char>, pattern: &Vec<char>, at: usize) -> (found: bool)
    requires
        at + pattern.len() <= text.len(),
    ensures
        found == occurs_at(text@, pattern@, at as int),
{
    let mut k: usize = 0;
    while k < pattern.len()
        invariant
            k <= pattern.len(),
            at + pattern.len() <= text.len(),
            forall|j: int| 0 <= j < k ==> text@[at + j] == pattern@[j],
        decreases pattern.len() - k,
    {
        if text[at + k] != pattern[k] {
            assert(text@.subrange(at as int, at + pattern.len())[k as int] != pattern@[k as int]);
            return false;
        }
        k += 1;
    }
    assert(text@.subrange(at as int, at + pattern.len()) =~= pattern@);
    true
}

/// Cuts `text` at each occurrence of `pattern`, going left to right. An
/// empty pattern cuts nowhere.
pub fn split(text: &str, pattern: &str) -> (parts: Vec<String>)
    ensures
        parts.deep_view() == pieces(text@, pattern@),
        parts.len() >= 1,
{
    let chars = chars_of(text);
    let pat = chars_of(pattern);
    let mut parts: Vec<String> = Vec::new();
    if pat.len() == 0 {
        let whole = String::from_str(text);
        parts.push(whole);
        assert(text@.subrange(0, text@.len() as int) =~= text@);
        assert(parts.deep_view() =~= seq![whole@]);
        return parts;
    }
    let mut start: usize = 0;
    let mut at: usize = 0;
    while pat.len() <= chars.len() && at <= chars.len() - pat.len()
        invariant
            chars@ == text@,
            pat@ == pattern@,
            pat.len() > 0,
            start <= at,
            start <= chars.len(),
            at <= chars.len() || pat.len() > chars.len(),
            pieces(text@, pattern@) == parts.deep_view() + pieces_from(
                text@,
                pattern@,
                start as int,
                at as int,
            ),
        decreases chars.len() - at,
    {
        if matches_at(&chars, &pat, at) {
            let piece = String::from_str(text.substring_char(start, at));
            let ghost before = parts.deep_view();
            let ghost rest = pieces_from(
                text@,
                pattern@,
                at + pattern@.len(),
                at + pattern@.len(),
            );
            parts.push(piece);
            assert(parts.deep_view() =~= before.push(piece@));
            assert(before.push(piece@) + rest =~= before + (seq![piece@] + rest));
            at = at + pat.len();
            start = at;
        } else {
            at += 1;
        }
    }
    let last = String::from_str(text.substring_char(start, chars.len()));
    let ghost before = parts.deep_view();
    parts.push(last);
    assert(parts.deep_view() =~= before.push(last@));
    assert(before.push(last@) =~= before + seq![last@]);
    parts
}

/// Whether `c` is white space: a character with the Unicode property
/// `White_Space`.
pub open spec fn is_space(c: char) -> bool {
    let n = c as u32;
    ||| 0x09 <= n <= 0x0d
    ||| n == 0x20
    ||| n == 0x85
    ||| n == 0xa0
    ||| n == 0x1680
    ||| 0x2000 <= n <= 0x200a
    ||| n == 0x2028
    ||| n == 0x2029
    ||| n == 0x202f
    ||| n == 0x205f
    ||| n == 0x3000
}

/// `text` without the white space it begins with.
pub open spec fn trimmed_start(text: Seq<char>) -> Seq<char>
    decreases text.len(),
{
    if text.len() > 0 && is_space(text[0]) {
        trimmed_start(text.drop_first())
    } else {
        text
    }
}

/// `text` without the white space it ends with.
pub open spec fn trimmed_end(text: Seq<char>) -> Seq<char>
    decreases text.len(),
{
    if text.len() > 0 && is_space(text.last()) {
        trimmed_end(text.drop_last())
    } else {
        text
    }
}

/// `text` without the white space around it.
pub open spec fn trimmed(text: Seq<char>) -> Seq<char> {
    trimmed_end(trimmed_start(text))
}

/// Cutting white space from the start of `text` leaves what follows its
/// first `count` characters, where those are white space and the next is not.
proof fn lemma_trimmed_start(text: Seq<char>, count: int)
    requires
        0 <= count <= text.len(),
        forall|j: int| 0 <= j < count ==> is_space(text[j]),
        count < text.len() ==> !is_space(text[count]),
    ensures
        trimmed_start(text) == text.subrange(count, text.len() as int),
    decreases count,
{
    if count == 0 {
        assert(text.subrange(0, text.len() as int) =~= text);
    } else {
        let rest = text.drop_first();
        assert forall|j: int| 0 <= j < count - 1 implies is_space(rest[j]) by {
            assert(rest[j] == text[j + 1]);
        }
        lemma_trimmed_start(rest, count - 1);
        assert(rest.subrange(count - 1, rest.len() as int) =~= text.subrange(
            count,
            text.len() as int,
        ));
    }
}

/// Cutting white space from the end of `text` leaves its first `keep`
/// characters, where all after them are white space and the last of them is
/// not.
proof fn lemma_trimmed_end(text: Seq<char>, keep: int)
    requires
        0 <= keep <= text.len(),
        forall|j: int| keep <= j < text.len() ==> is_space(text[j]),
        keep > 0 ==> !is_space(text[keep - 1]),
    ensures
        trimmed_end(text) == text.subrange(0, keep),
    decreases text.len() - keep,
{
    if keep == text.len() {
        assert(text.subrange(0, keep) =~= text);
    } else {
        let rest = text.drop_last();
        lemma_trimmed_end(rest, keep);
        assert(rest.subrange(0, keep) =~= text.subrange(0, keep));
    }
}

/// Whether `c` is white space.
pub fn is_whitespace(c: char) -> (space: bool)
    ensures
        space == is_space(c),
{
    let n = c as u32;
    (0x09 <= n && n <= 0x0d) || n == 0x20 || n == 0x85 || n == 0xa0 || n == 0x1680 || (0x2000
        <= n && n <= 0x200a) || n == 0x2028 || n == 0x2029 || n == 0x202f || n == 0x205f || n
        == 0x3000
}

/// `text` without the white space around it.
pub fn trim(text: &str) -> (inner: &str)
    ensures
        inner@ == trimmed(text@),
{
    let chars = chars_of(text);
    let mut from: usize = 0;
    while from < chars.len() && is_whitespace(chars[from])
        invariant
            from <= chars.len(),
            forall|j: int| 0 <= j < from ==> is_space(chars@[j]),
        decreases chars.len() - from,
    {
        from += 1;
    }
    let mut to: usize = chars.len();
    while to > from && is_whitespace(chars[to - 1])
        invariant
            from <= to <= chars.len(),
            forall|j: int| to <= j < chars.len() ==> is_space(chars@[j]),
        decreases to,
    {
        to -= 1;
    }
    proof {
        lemma_trimmed_start(text@, from as int);
        let tail = text@.subrange(from as int, text@.len() as int);
        lemma_trimmed_end(tail, to - from);
        assert(tail.subrange(0, to - from) =~= text@.subrange(from as int, to as int));
    }
    text.substring_char(from, to)
}

/// The texts of `items` in order, with `separator` between each two.
pub open spec fn joined(items: Seq<Seq<char>>, separator: Seq<char>) -> Seq<char>
    decreases items.len(),
{
    if items.len() == 0 {
        Seq::empty()
    } else if items.len() == 1 {
        items[0]
    } else {
        joined(items.drop_last(), separator) + separator + items.last()
    }
}

/// Whether `part` stands somewhere in `text`.
pub open spec fn stands_in(text: Seq<char>, part: Seq<char>) -> bool {
    exists|at: int| occurs_at(text, part, at)
}

/// Each of the joined texts stands in the joined text.
pub proof fn lemma_joined_holds(items: Seq<Seq<char>>, separator: Seq<char>, which: int)
    requires
        0 <= which < items.len(),
    ensures
        stands_in(joined(items, separator), items[which]),
    decreases items.len(),
{
    let all = joined(items, separator);
    if items.len() == 1 {
        assert(all.subrange(0, all.len() as int) =~= all);
        assert(occurs_at(all, items[which], 0));
    } else {
        let front = joined(items.drop_last(), separator);
        if which == items.len() - 1 {
            let at: int = (front.len() + separator.len()) as int;
            assert(all.subrange(at, at + items[which].len()) =~= items[which]);
            assert(occurs_at(all, items[which], at));
        } else {
            lemma_joined_holds(items.drop_last(), separator, which);
            let at = choose|at: int| occurs_at(front, items.drop_last()[which], at);
            assert(all.subrange(at, at + items[which].len()) =~= front.subrange(
                at,
                at + items[which].len(),
            ));
            assert(occurs_at(all, items[which], at));
        }
    }
}

/// The texts of `items` in order, with `separator` between each two.
pub fn join(items: &Vec<String>, separator: &str) -> (text: String)
    ensures
        text@ == joined(items.deep_view(), separator@),
{
    let mut text = String::new();
    let mut i: usize = 0;
    while i < items.len()
        invariant
            i <= items.len(),
            text@ == joined(items.deep_view().take(i as int), separator@),
        decreases items.len() - i,
    {
        if i > 0 {
            text.append(separator);
        }
        text.append(items[i].as_str());
        proof {
            let done = items.deep_view().take(i + 1);
            assert(done.drop_last() =~= items.deep_view().take(i as int));
            assert(done.last() == items[i as int]@);
            if i == 0 {
                assert(text@ =~= done[0]);
            }
        }
        i += 1;
    }
    assert(items.deep_view().take(i as int) =~= items.deep_view());
    text
}

/// `first` followed by `second`.
pub fn chain(first: &str, second: &str) -> (text: String)
    ensures
        text@ == first@ + second@,
{
    String::from_str(first).concat(second)
}

/// `first`, a full stop, and `second`: the path of `second` within `first`.
pub fn dotted(first: &str, second: &str) -> (path: String)
    ensures
        path@ == first@ + "."@ + second@,
{
    let mut path = String::from_str(first);
    path.append(".");
    path.append(second);
    path
}

/// Joining a text and then further texts puts the separator after the
/// first.
proof fn lemma_joined_after_first(first: Seq<char>, rest: Seq<Seq<char>>, separator: Seq<char>)
    requires
        rest.len() > 0,
    ensures
        joined(seq![first] + rest, separator) == first + separator + joined(rest, separator),
    decreases rest.len(),
{
    let all = seq![first] + rest;
    if rest.len() == 1 {
        assert(all.drop_last() =~= seq![first]);
        assert(seq![first][0] == first);
        assert(all.last() == rest[0]);
        assert(joined(all, separator) == joined(seq![first], separator) + separator + rest[0]);
    } else {
        assert(all.drop_last() =~= seq![first] + rest.drop_last());
        lemma_joined_after_first(first, rest.drop_last(), separator);
        assert(joined(all, separator) =~= first + separator + joined(rest, separator));
    }
}

/// The pieces from a place on, joined by the pattern, are the text from
/// that place on.
proof fn lemma_pieces_join(text: Seq<char>, pattern: Seq<char>, start: int, at: int)
    requires
        0 <= start <= at,
        start <= text.len(),
    ensures
        pieces_from(text, pattern, start, at).len() >= 1,
        joined(pieces_from(text, pattern, start, at), pattern) == text.subrange(
            start,
            text.len() as int,
        ),
    decreases text.len() - at,
{
    if pattern.len() == 0 || at + pattern.len() > text.len() {
    } else if occurs_at(text, pattern, at) {
        let next = at + pattern.len();
        let rest = pieces_from(text, pattern, next, next);
        lemma_pieces_join(text, pattern, next, next);
        lemma_joined_after_first(text.subrange(start, at), rest, pattern);
        assert(text.subrange(start, at) + pattern + text.subrange(next, text.len() as int)
            =~= text.subrange(start, text.len() as int));
    } else {
        lemma_pieces_join(text, pattern, start, at + 1);
    }
}

/// The pattern stands in none of the pieces from a place on, where it
/// stands at no place of the text between the start of the first piece and
/// the place from which it is looked for.
proof fn lemma_pieces_hold_no_pattern(
    text: Seq<char>,
    pattern: Seq<char>,
    start: int,
    at: int,
    which: int,
    place: int,
)
    requires
        pattern.len() > 0,
        0 <= start <= at,
        start <= text.len(),
        forall|p: int| start <= p < at ==> !occurs_at(text, pattern, p),
        0 <= which < pieces_from(text, pattern, start, at).len(),
    ensures
        !occurs_at(pieces_from(text, pattern, start, at)[which], pattern, place),
    decreases text.len() - at,
{
    let m = pattern.len();
    if at + m > text.len() {
        let piece = text.subrange(start, text.len() as int);
        if occurs_at(piece, pattern, place) {
            assert(piece.subrange(place, place + m) =~= text.subrange(
                start + place,
                start + place + m,
            ));
            assert(occurs_at(text, pattern, start + place));
        }
    } else if occurs_at(text, pattern, at) {
        let next = at + m;
        let piece = text.subrange(start, at);
        if which == 0 {
            if occurs_at(piece, pattern, place) {
                assert(piece.subrange(place, place + m) =~= text.subrange(
                    start + place,
                    start + place + m,
                ));
                assert(occurs_at(text, pattern, start + place));
            }
        } else {
            lemma_pieces_hold_no_pattern(text, pattern, next, next, which - 1, place);
        }
    } else {
        lemma_pieces_hold_no_pattern(text, pattern, start, at + 1, which, place);
    }
}

/// The pieces of a text, joined by the pattern that cut them, are the
/// text; and the pattern stands in none of them.
pub proof fn law_split(text: Seq<char>, pattern: Seq<char>)
    ensures
        pieces(text, pattern).len() >= 1,
        joined(pieces(text, pattern), pattern) == text,
        pattern.len() > 0 ==> forall|which: int, place: int|
            0 <= which < pieces(text, pattern).len() ==> !#[trigger] occurs_at(
                pieces(text, pattern)[which],
                pattern,
                place,
            ),
{
    lemma_pieces_join(text, pattern, 0, 0);
    assert(text.subrange(0, text.len() as int) =~= text);
    if pattern.len() > 0 {
        assert forall|which: int, place: int|
            0 <= which < pieces(text, pattern).len() implies !#[trigger] occurs_at(
            pieces(text, pattern)[which],
            pattern,
            place,
        ) by {
            lemma_pieces_hold_no_pattern(text, pattern, 0, 0, which, place);
        }
    }
}

/// The character that writes the digit `d`.
pub open spec fn digit_char(d: int) -> char {
    if d == 0 {
        '0'
    } else if d == 1 {
        '1'
    } else if d == 2 {
        '2'
    } else if d == 3 {
        '3'
    } else if d == 4 {
        '4'
    } else if d == 5 {
        '5'
    } else if d == 6 {
        '6'
    } else if d == 7 {
        '7'
    } else if d == 8 {
        '8'
    } else {
        '9'
    }
}

/// The decimal digits of `n`, without leading zeros.
pub open spec fn digits(n: nat) -> Seq<char>
    decreases n,
{
    if n < 10 {
        seq![digit_char(n as int)]
    } else {
        digits(n / 10).push(digit_char((n % 10) as int))
    }
}

/// The decimal text of `n`: its digits, after a minus sign where it is
/// negative.
pub open spec fn decimal(n: int) -> Seq<char> {
    if n < 0 {
        seq!['-'] + digits((-n) as nat)
    } else {
        digits(n as nat)
    }
}

/// The text of the digit `d`.
fn digit_text(d: u64) -> (text: &'static str)
    requires
        d < 10,
    ensures
        text@ == seq![digit_char(d as int)],
{
    proof {
        reveal_strlit("0");
        reveal_strlit("1");
        reveal_strlit("2");
        reveal_strlit("3");
        reveal_strlit("4");
        reveal_strlit("5");
        reveal_strlit("6");
        reveal_strlit("7");
        reveal_strlit("8");
        reveal_strlit("9");
    }
    let text = if d == 0 {
        "0"
    } else if d == 1 {
        "1"
    } else if d == 2 {
        "2"
    } else if d == 3 {
        "3"
    } else if d == 4 {
        "4"
    } else if d == 5 {
        "5"
    } else if d == 6 {
        "6"
    } else if d == 7 {
        "7"
    } else if d == 8 {
        "8"
    } else {
        "9"
    };
    assert(text@ =~= seq![digit_char(d as int)]);
    text
}

/// The decimal text of an unsigned number.
pub fn unsigned_decimal(n: u64) -> (text: String)
    ensures
        text@ == decimal(n as int),
        text@ == digits(n as nat),
    decreases n,
{
    if n < 10 {
        String::from_str(digit_text(n))
    } else {
        let mut text = unsigned_decimal(n / 10);
        text.append(digit_text(n % 10));
        assert(text@ =~= digits(n as nat));
        text
    }
}

/// The decimal text of a signed number.
pub fn signed_decimal(n: i64) -> (text: String)
    ensures
        text@ == decimal(n as int),
{
    if n < 0 {
        let magnitude: u64 = if n == i64::MIN {
            0x8000_0000_0000_0000u64
        } else {
            (-n) as u64
        };
        let body = unsigned_decimal(magnitude);
        proof {
            reveal_strlit("-");
            assert("-"@ =~= seq!['-']);
        }
        chain("-", body.as_str())
    } else {
        unsigned_decimal(n as u64)
    }
}

} // verus!
