//! Operations on text, stated over sequences of characters.

use vstd::prelude::*;
use vstd::utf8::*;

verus! {

/// `String::push` appends one character at the end.
pub assume_specification[ String::push ](s: &mut String, c: char)
    ensures
        final(s)@ == old(s)@.push(c),
;

/// Whether two texts hold the same characters.
pub fn same(a: &str, b: &str) -> (r: bool)
    ensures
        r == (a@ == b@),
{
    let x = a.as_bytes();
    let y = b.as_bytes();
    proof {
        encode_utf8_decode_utf8(a@);
        encode_utf8_decode_utf8(b@);
    }
    if x.len() != y.len() {
        return false;
    }
    let mut i: usize = 0;
    while i < x.len()
        invariant
            i <= x.len(),
            x@ == encode_utf8(a@),
            y@ == encode_utf8(b@),
            x.len() == y.len(),
            forall|j: int| 0 <= j < i ==> x@[j] == y@[j],
        decreases x.len() - i,
    {
        if x[i] != y[i] {
            return false;
        }
        i = i + 1;
    }
    assert(x@ =~= y@);
    true
}

/// The characters of a text.
pub fn chars_of(s: &str) -> (r: Vec<char>)
    ensures
        r@ == s@,
{
    let mut out: Vec<char> = Vec::new();
    for c in it: s.chars()
        invariant
            out@ == s@.subrange(0, it.index() as int),
            it.seq() == s@,
    {
        out.push(c);
    }
    out
}

/// The text made of the characters `from..to`.
pub fn slice(chars: &Vec<char>, from: usize, to: usize) -> (r: String)
    requires
        from <= to <= chars@.len(),
    ensures
        r@ == chars@.subrange(from as int, to as int),
{
    let mut out = String::new();
    let mut i: usize = from;
    while i < to
        invariant
            from <= i <= to <= chars@.len(),
            out@ == chars@.subrange(from as int, i as int),
        decreases to - i,
    {
        out.push(chars[i]);
        i = i + 1;
        assert(chars@.subrange(from as int, i as int).drop_last() =~= chars@.subrange(
            from as int,
            i - 1,
        ));
    }
    out
}

/// Number of UTF-8 bytes of a character.
pub open spec fn char_width(c: char) -> nat {
    if c as u32 <= 0x7f {
        1
    } else if c as u32 <= 0x7ff {
        2
    } else if c as u32 <= 0xffff {
        3
    } else {
        4
    }
}

/// Number of UTF-8 bytes of a text.
pub open spec fn byte_length(s: Seq<char>) -> nat
    decreases s.len(),
{
    if s.len() == 0 {
        0
    } else {
        byte_length(s.drop_last()) + char_width(s.last())
    }
}

proof fn byte_length_first(s: Seq<char>)
    requires
        s.len() > 0,
    ensures
        byte_length(s) == char_width(s[0]) + byte_length(s.drop_first()),
    decreases s.len(),
{
    if s.len() == 1 {
        assert(s.drop_last() =~= Seq::empty());
        assert(s.drop_first() =~= Seq::empty());
        assert(byte_length(s.drop_last()) == 0);
    } else {
        byte_length_first(s.drop_last());
        assert(s.drop_last().drop_first() =~= s.drop_first().drop_last());
    }
}

/// The encoding of a text has `byte_length` bytes.
pub proof fn byte_length_is_encoded_length(s: Seq<char>)
    ensures
        encode_utf8(s).len() == byte_length(s),
    decreases s.len(),
{
    if s.len() > 0 {
        byte_length_first(s);
        byte_length_is_encoded_length(s.drop_first());
        char_is_scalar(s[0]);
        assert(encode_scalar(s[0] as u32).len() == char_width(s[0]));
        assert(encode_utf8(s) == encode_scalar(s[0] as u32) + encode_utf8(s.drop_first()));
    }
}

/// Number of UTF-8 bytes of `s`.
pub fn byte_len(s: &str) -> (r: usize)
    ensures
        r == byte_length(s@),
{
    proof {
        byte_length_is_encoded_length(s@);
    }
    s.as_bytes().len()
}

/// Number of UTF-8 bytes of `c`.
pub fn width(c: char) -> (r: usize)
    ensures
        r == char_width(c),
        1 <= r <= 4,
{
    let code: u32 = c as u32;
    if code <= 0x7f {
        1
    } else if code <= 0x7ff {
        2
    } else if code <= 0xffff {
        3
    } else {
        4
    }
}

/// Whether `s` begins with `prefix`.
pub fn starts_with(s: &str, prefix: &str) -> (r: bool)
    ensures
        r == prefix@.is_prefix_of(s@),
{
    let a = chars_of(s);
    let b = chars_of(prefix);
    if b.len() > a.len() {
        return false;
    }
    let mut i: usize = 0;
    while i < b.len()
        invariant
            i <= b.len() <= a.len(),
            a@ == s@,
            b@ == prefix@,
            forall|j: int| 0 <= j < i ==> a@[j] == b@[j],
        decreases b.len() - i,
    {
        if a[i] != b[i] {
            assert(s@.subrange(0, prefix@.len() as int)[i as int] != prefix@[i as int]);
            return false;
        }
        i = i + 1;
    }
    assert(prefix@ =~= s@.subrange(0, prefix@.len() as int));
    true
}

/// Whether `s` ends with `suffix`.
pub fn ends_with(s: &str, suffix: &str) -> (r: bool)
    ensures
        r == suffix@.is_suffix_of(s@),
{
    let a = chars_of(s);
    let b = chars_of(suffix);
    if b.len() > a.len() {
        return false;
    }
    let offset: usize = a.len() - b.len();
    let mut i: usize = 0;
    while i < b.len()
        invariant
            i <= b.len() <= a.len(),
            a@ == s@,
            b@ == suffix@,
            offset == a.len() - b.len(),
            forall|j: int| 0 <= j < i ==> a@[j + offset] == b@[j],
        decreases b.len() - i,
    {
        if a[i + offset] != b[i] {
            assert(s@.subrange(offset as int, s@.len() as int)[i as int] != suffix@[i as int]);
            return false;
        }
        i = i + 1;
    }
    assert(suffix@ =~= s@.subrange(offset as int, s@.len() as int));
    true
}

/// What follows `prefix` in `s`, when `s` begins with it.
pub open spec fn without_prefix(s: Seq<char>, prefix: Seq<char>) -> Option<Seq<char>> {
    if prefix.is_prefix_of(s) {
        Some(s.skip(prefix.len() as int))
    } else {
        None
    }
}

/// What precedes `suffix` in `s`, when `s` ends with it.
pub open spec fn without_suffix(s: Seq<char>, suffix: Seq<char>) -> Option<Seq<char>> {
    if suffix.is_suffix_of(s) {
        Some(s.take(s.len() - suffix.len()))
    } else {
        None
    }
}

/// The rest of `s` after `prefix`.
pub fn strip_prefix(s: &str, prefix: &str) -> (r: Option<String>)
    ensures
        r.deep_view() == without_prefix(s@, prefix@),
{
    if starts_with(s, prefix) {
        let a = chars_of(s);
        let n: usize = chars_of(prefix).len();
        Some(slice(&a, n, a.len()))
    } else {
        None
    }
}

/// The part of `s` before `suffix`.
pub fn strip_suffix(s: &str, suffix: &str) -> (r: Option<String>)
    ensures
        r.deep_view() == without_suffix(s@, suffix@),
{
    if ends_with(s, suffix) {
        let a = chars_of(s);
        let n: usize = chars_of(suffix).len();
        Some(slice(&a, 0, a.len() - n))
    } else {
        None
    }
}

/// Where the first `c` of `s` stands; the length of `s` when there is none.
pub open spec fn first_index(s: Seq<char>, c: char) -> int
    decreases s.len(),
{
    if s.len() == 0 || s[0] == c {
        0
    } else {
        1 + first_index(s.drop_first(), c)
    }
}

/// Where the last `c` of `s` stands; -1 when there is none.
pub open spec fn last_index(s: Seq<char>, c: char) -> int
    decreases s.len(),
{
    if s.len() == 0 {
        -1
    } else if s.last() == c {
        s.len() - 1
    } else {
        last_index(s.drop_last(), c)
    }
}

/// What `first_index` finds.
pub proof fn first_index_is(s: Seq<char>, c: char, n: int)
    requires
        0 <= n <= s.len(),
        forall|j: int| 0 <= j < n ==> #[trigger] s[j] != c,
        n < s.len() ==> s[n] == c,
    ensures
        first_index(s, c) == n,
    decreases n,
{
    if n > 0 {
        assert(s[0] != c);
        assert forall|j: int| 0 <= j < n - 1 implies #[trigger] s.drop_first()[j] != c by {
            assert(s[j + 1] != c);
        }
        first_index_is(s.drop_first(), c, n - 1);
    }
}

/// `first_index` stands at the first occurrence.
pub proof fn first_index_bounds(s: Seq<char>, c: char)
    ensures
        0 <= first_index(s, c) <= s.len(),
        first_index(s, c) < s.len() <==> s.contains(c),
        first_index(s, c) < s.len() ==> s[first_index(s, c)] == c,
        forall|j: int| 0 <= j < first_index(s, c) ==> #[trigger] s[j] != c,
    decreases s.len(),
{
    if s.len() > 0 && s[0] != c {
        let t = s.drop_first();
        first_index_bounds(t, c);
        if s.contains(c) {
            let j = choose|j: int| 0 <= j < s.len() && s[j] == c;
            assert(t[j - 1] == c);
        }
        assert forall|j: int| 0 <= j < first_index(s, c) implies #[trigger] s[j] != c by {
            if j > 0 {
                assert(t[j - 1] == s[j]);
            }
        }
        if first_index(s, c) < s.len() {
            assert(s[first_index(s, c)] == t[first_index(t, c)]);
        }
    }
}

/// Where the first `c` stands, from the front.
pub fn find_char(chars: &Vec<char>, c: char) -> (r: usize)
    ensures
        r == first_index(chars@, c),
        r <= chars@.len(),
{
    let mut i: usize = 0;
    while i < chars.len() && chars[i] != c
        invariant
            i <= chars.len(),
            forall|j: int| 0 <= j < i ==> #[trigger] chars@[j] != c,
        decreases chars.len() - i,
    {
        i = i + 1;
    }
    proof {
        first_index_is(chars@, c, i as int);
    }
    i
}

/// Where the last `c` stands.
pub fn find_last_char(chars: &Vec<char>, c: char) -> (r: Option<usize>)
    ensures
        match r {
            Some(i) => i == last_index(chars@, c) && i < chars@.len(),
            None => last_index(chars@, c) == -1,
        },
{
    let mut i: usize = chars.len();
    assert(chars@.take(i as int) =~= chars@);
    while i > 0
        invariant
            i <= chars.len(),
            last_index(chars@, c) == last_index(chars@.take(i as int), c),
        decreases i,
    {
        assert(chars@.take(i as int).drop_last() =~= chars@.take(i - 1));
        i = i - 1;
        if chars[i] == c {
            return Some(i);
        }
    }
    None
}

/// Whether `c` stands in `s`.
pub fn contains_char(s: &str, c: char) -> (r: bool)
    ensures
        r == s@.contains(c),
{
    let chars = chars_of(s);
    proof {
        first_index_bounds(s@, c);
    }
    find_char(&chars, c) < chars.len()
}

/// The parts of `s` before and after its first `c`.
pub open spec fn cut_at_first(s: Seq<char>, c: char) -> Option<(Seq<char>, Seq<char>)> {
    let i = first_index(s, c);
    if i < s.len() {
        Some((s.take(i), s.skip(i + 1)))
    } else {
        None
    }
}

/// Splits `s` at its first `c`.
pub fn split_once(s: &str, c: char) -> (r: Option<(String, String)>)
    ensures
        r.deep_view() == cut_at_first(s@, c),
{
    let chars = chars_of(s);
    let i = find_char(&chars, c);
    if i < chars.len() {
        Some((slice(&chars, 0, i), slice(&chars, i + 1, chars.len())))
    } else {
        None
    }
}

/// The parts of `s` before and after its last `c`.
pub open spec fn cut_at_last(s: Seq<char>, c: char) -> Option<(Seq<char>, Seq<char>)> {
    let i = last_index(s, c);
    if i >= 0 {
        Some((s.take(i), s.skip(i + 1)))
    } else {
        None
    }
}

/// Splits `s` at its last `c`.
pub fn rsplit_once(s: &str, c: char) -> (r: Option<(String, String)>)
    ensures
        r.deep_view() == cut_at_last(s@, c),
{
    let chars = chars_of(s);
    let n: usize = chars.len();
    match find_last_char(&chars, c) {
        Some(i) => Some((slice(&chars, 0, i), slice(&chars, i + 1, n))),
        None => None,
    }
}

/// The pieces of `s` between its separators `c`; never empty.
pub open spec fn pieces(s: Seq<char>, c: char) -> Seq<Seq<char>>
    decreases s.len(),
{
    if s.len() == 0 {
        seq![Seq::empty()]
    } else {
        let front = pieces(s.drop_last(), c);
        if s.last() == c {
            front.push(Seq::empty())
        } else {
            front.drop_last().push(front.last().push(s.last()))
        }
    }
}

/// There is always at least one piece.
pub proof fn pieces_nonempty(s: Seq<char>, c: char)
    ensures
        pieces(s, c).len() > 0,
    decreases s.len(),
{
    if s.len() > 0 {
        pieces_nonempty(s.drop_last(), c);
    }
}

/// The pieces of two texts joined by a separator are the pieces of both.
pub proof fn pieces_of_joined(a: Seq<char>, b: Seq<char>, c: char)
    ensures
        pieces(a.push(c) + b, c) == pieces(a, c) + pieces(b, c),
    decreases b.len(),
{
    pieces_nonempty(a, c);
    if b.len() == 0 {
        assert(a.push(c) + b =~= a.push(c));
        assert(a.push(c).drop_last() =~= a);
        assert(pieces(a, c).push(Seq::empty()) =~= pieces(a, c) + pieces(b, c));
    } else {
        let whole = a.push(c) + b;
        pieces_of_joined(a, b.drop_last(), c);
        pieces_nonempty(b.drop_last(), c);
        assert(whole.drop_last() =~= a.push(c) + b.drop_last());
        let left = pieces(a, c);
        let right = pieces(b.drop_last(), c);
        if b.last() == c {
            assert((left + right).push(Seq::empty()) =~= left + right.push(Seq::empty()));
        } else {
            assert((left + right).drop_last() =~= left + right.drop_last());
            assert((left + right.drop_last()).push(right.last().push(b.last())) =~= left
                + right.drop_last().push(right.last().push(b.last())));
        }
    }
}

/// Splits `s` at every `c`.
pub fn split(s: &str, c: char) -> (r: Vec<String>)
    ensures
        r.deep_view() == pieces(s@, c),
        r.len() > 0,
{
    let chars = chars_of(s);
    let mut out: Vec<String> = Vec::new();
    let mut current = String::new();
    let mut i: usize = 0;
    assert(chars@.take(0) =~= Seq::empty());
    assert(out.deep_view().push(current@) =~= seq![Seq::empty()]);
    while i < chars.len()
        invariant
            i <= chars.len(),
            out.deep_view().push(current@) == pieces(chars@.take(i as int), c),
        decreases chars.len() - i,
    {
        let ghost front = out.deep_view().push(current@);
        assert(chars@.take(i + 1).drop_last() =~= chars@.take(i as int));
        assert(chars@.take(i + 1).last() == chars@[i as int]);
        if chars[i] == c {
            push_text(&mut out, current);
            current = String::new();
            assert(out.deep_view() =~= front);
        } else {
            assert(front.drop_last() =~= out.deep_view());
            current.push(chars[i]);
        }
        i = i + 1;
    }
    assert(chars@.take(i as int) =~= chars@);
    push_text(&mut out, current);
    out
}

fn push_text(out: &mut Vec<String>, item: String)
    ensures
        final(out).deep_view() == old(out).deep_view().push(item@),
{
    let ghost front = out.deep_view();
    out.push(item);
    assert(out.deep_view() =~= front.push(item@));
}

/// The parts one after the other, with `separator` between them.
pub open spec fn joined(parts: Seq<Seq<char>>, separator: Seq<char>) -> Seq<char>
    decreases parts.len(),
{
    if parts.len() == 0 {
        Seq::empty()
    } else if parts.len() == 1 {
        parts[0]
    } else {
        joined(parts.drop_last(), separator) + separator + parts.last()
    }
}

/// Joins `parts` with `separator` between them.
pub fn join(parts: &Vec<String>, separator: &str) -> (r: String)
    ensures
        r@ == joined(parts.deep_view(), separator@),
{
    let mut out = String::new();
    let mut i: usize = 0;
    while i < parts.len()
        invariant
            i <= parts.len(),
            out@ == joined(parts.deep_view().take(i as int), separator@),
        decreases parts.len() - i,
    {
        assert(parts.deep_view().take(i + 1).drop_last() =~= parts.deep_view().take(i as int));
        assert(parts.deep_view().take(i + 1).last() == parts.deep_view()[i as int]);
        if i > 0 {
            out.append(separator);
        } else {
            assert(parts.deep_view().take(1)[0] == parts.deep_view()[0]);
            assert(out@ + parts@[0]@ =~= parts@[0]@);
        }
        out.append(&parts[i]);
        i = i + 1;
    }
    assert(parts.deep_view().take(i as int) =~= parts.deep_view());
    out
}

/// A list of no texts.
pub fn no_texts() -> (r: Vec<String>)
    ensures
        r.deep_view() == Seq::<Seq<char>>::empty(),
{
    let out: Vec<String> = Vec::new();
    assert(out.deep_view() =~= Seq::<Seq<char>>::empty());
    out
}

/// A list of one text.
pub fn one_text(text: &str) -> (r: Vec<String>)
    ensures
        r.deep_view() == seq![text@],
{
    let mut out: Vec<String> = Vec::new();
    push_text(&mut out, text.to_owned());
    assert(out.deep_view() =~= seq![text@]);
    out
}

/// A list of two texts.
pub fn two_texts(first: &str, second: &str) -> (r: Vec<String>)
    ensures
        r.deep_view() == seq![first@, second@],
{
    let mut out: Vec<String> = one_text(first);
    push_text(&mut out, second.to_owned());
    assert(out.deep_view() =~= seq![first@, second@]);
    out
}

/// The concatenation of two texts.
pub fn concat2(a: &str, b: &str) -> (r: String)
    ensures
        r@ == a@ + b@,
{
    let mut out = a.to_owned();
    out.append(b);
    out
}

/// The concatenation of three texts.
pub fn concat3(a: &str, b: &str, c: &str) -> (r: String)
    ensures
        r@ == a@ + b@ + c@,
{
    let mut out = concat2(a, b);
    out.append(c);
    out
}

/// The concatenation of four texts.
pub fn concat4(a: &str, b: &str, c: &str, d: &str) -> (r: String)
    ensures
        r@ == a@ + b@ + c@ + d@,
{
    let mut out = concat3(a, b, c);
    out.append(d);
    out
}

/// The concatenation of five texts.
pub fn concat5(a: &str, b: &str, c: &str, d: &str, e: &str) -> (r: String)
    ensures
        r@ == a@ + b@ + c@ + d@ + e@,
{
    let mut out = concat4(a, b, c, d);
    out.append(e);
    out
}

/// The concatenation of seven texts.
pub fn concat7(a: &str, b: &str, c: &str, d: &str, e: &str, f: &str, g: &str) -> (r: String)
    ensures
        r@ == a@ + b@ + c@ + d@ + e@ + f@ + g@,
{
    let mut out = concat5(a, b, c, d, e);
    out.append(f);
    out.append(g);
    out
}

/// The characters with the Unicode property White_Space.
pub open spec fn space(c: char) -> bool {
    ||| 0x9 <= c as u32 <= 0xd
    ||| c as u32 == 0x20
    ||| c as u32 == 0x85
    ||| c as u32 == 0xa0
    ||| c as u32 == 0x1680
    ||| 0x2000 <= c as u32 <= 0x200a
    ||| 0x2028 <= c as u32 <= 0x2029
    ||| c as u32 == 0x202f
    ||| c as u32 == 0x205f
    ||| c as u32 == 0x3000
}

/// Whether `c` is white space.
pub fn is_space(c: char) -> (r: bool)
    ensures
        r == space(c),
{
    let code: u32 = c as u32;
    (0x9 <= code && code <= 0xd) || code == 0x20 || code == 0x85 || code == 0xa0 || code == 0x1680
        || (0x2000 <= code && code <= 0x200a) || (0x2028 <= code && code <= 0x2029) || code
        == 0x202f || code == 0x205f || code == 0x3000
}

/// The control characters: the general category Cc.
pub open spec fn control(c: char) -> bool {
    c as u32 <= 0x1f || 0x7f <= c as u32 <= 0x9f
}

/// Whether `c` is a control character.
pub fn is_control(c: char) -> (r: bool)
    ensures
        r == control(c),
{
    let code: u32 = c as u32;
    code <= 0x1f || (0x7f <= code && code <= 0x9f)
}

/// Whether a control character stands in `s`.
pub open spec fn has_control(s: Seq<char>) -> bool {
    exists|i: int| 0 <= i < s.len() && control(#[trigger] s[i])
}

/// Whether a control character stands in `s`.
pub fn contains_control(s: &str) -> (r: bool)
    ensures
        r == has_control(s@),
{
    let chars = chars_of(s);
    let mut i: usize = 0;
    while i < chars.len()
        invariant
            i <= chars.len(),
            chars@ == s@,
            forall|j: int| 0 <= j < i ==> !control(#[trigger] chars@[j]),
        decreases chars.len() - i,
    {
        if is_control(chars[i]) {
            return true;
        }
        i = i + 1;
    }
    false
}

/// `s` without the white space at its front.
pub open spec fn trimmed_start(s: Seq<char>) -> Seq<char>
    decreases s.len(),
{
    if s.len() > 0 && space(s[0]) {
        trimmed_start(s.drop_first())
    } else {
        s
    }
}

/// `s` without the white space at its end.
pub open spec fn trimmed_end(s: Seq<char>) -> Seq<char>
    decreases s.len(),
{
    if s.len() > 0 && space(s.last()) {
        trimmed_end(s.drop_last())
    } else {
        s
    }
}

/// `s` without the white space at both ends.
pub open spec fn trimmed(s: Seq<char>) -> Seq<char> {
    trimmed_end(trimmed_start(s))
}

/// `s` without the white space at both ends.
pub fn trim(s: &str) -> (r: String)
    ensures
        r@ == trimmed(s@),
{
    let chars = chars_of(s);
    let mut from: usize = 0;
    assert(chars@.skip(0) =~= chars@);
    while from < chars.len() && is_space(chars[from])
        invariant
            from <= chars.len(),
            trimmed_start(chars@) == trimmed_start(chars@.skip(from as int)),
        decreases chars.len() - from,
    {
        assert(chars@.skip(from as int).drop_first() =~= chars@.skip(from + 1));
        from = from + 1;
    }
    let mut to: usize = chars.len();
    assert(chars@.subrange(from as int, to as int) =~= chars@.skip(from as int));
    while to > from && is_space(chars[to - 1])
        invariant
            from <= to <= chars.len(),
            trimmed_end(trimmed_start(chars@)) == trimmed_end(
                chars@.subrange(from as int, to as int),
            ),
        decreases to,
    {
        assert(chars@.subrange(from as int, to as int).drop_last() =~= chars@.subrange(
            from as int,
            to - 1,
        ));
        to = to - 1;
    }
    slice(&chars, from, to)
}

/// Whether `needle` stands in `s` at position `i`.
pub open spec fn stands_at(s: Seq<char>, needle: Seq<char>, i: int) -> bool {
    0 <= i && i + needle.len() <= s.len() && s.subrange(i, i + needle.len()) == needle
}

/// Whether `needle` stands somewhere in `s`.
pub open spec fn occurs(s: Seq<char>, needle: Seq<char>) -> bool {
    exists|i: int| stands_at(s, needle, i)
}

/// Whether `needle` stands in `chars` at position `i`.
pub fn matches_at(chars: &Vec<char>, needle: &Vec<char>, i: usize) -> (r: bool)
    requires
        i <= chars@.len(),
    ensures
        r == stands_at(chars@, needle@, i as int),
{
    if needle.len() > chars.len() - i {
        return false;
    }
    let mut k: usize = 0;
    while k < needle.len()
        invariant
            k <= needle.len(),
            i + needle.len() <= chars.len(),
            forall|j: int| 0 <= j < k ==> chars@[i + j] == needle@[j],
        decreases needle.len() - k,
    {
        if chars[i + k] != needle[k] {
            assert(chars@.subrange(i as int, i + needle@.len())[k as int] != needle@[k as int]);
            return false;
        }
        k = k + 1;
    }
    assert(chars@.subrange(i as int, i + needle@.len()) =~= needle@);
    true
}

/// Whether `needle` stands somewhere in `s`.
pub fn contains(s: &str, needle: &str) -> (r: bool)
    ensures
        r == occurs(s@, needle@),
{
    let chars = chars_of(s);
    let wanted = chars_of(needle);
    let mut i: usize = 0;
    while i <= chars.len()
        invariant
            i <= chars.len() + 1,
            chars@ == s@,
            wanted@ == needle@,
            forall|j: int| 0 <= j < i ==> !stands_at(s@, needle@, j),
        decreases chars.len() + 1 - i,
    {
        if matches_at(&chars, &wanted, i) {
            return true;
        }
        if i == chars.len() {
            assert forall|j: int| !stands_at(s@, needle@, j) by {
                if j > chars.len() {
                }
            }
            return false;
        }
        i = i + 1;
    }
    false
}

/// The first place at or after `from` where `needle` stands in `s`.
pub open spec fn first_place(s: Seq<char>, needle: Seq<char>, from: int) -> Option<int>
    decreases s.len() + 1 - from,
{
    if from < 0 || from + needle.len() > s.len() {
        None
    } else if stands_at(s, needle, from) {
        Some(from)
    } else {
        first_place(s, needle, from + 1)
    }
}

/// Where `needle` first stands in `chars`.
pub fn find_text(chars: &Vec<char>, needle: &Vec<char>) -> (r: Option<usize>)
    ensures
        match r {
            Some(i) => first_place(chars@, needle@, 0) == Some(i as int) && stands_at(
                chars@,
                needle@,
                i as int,
            ),
            None => first_place(chars@, needle@, 0) is None,
        },
{
    let n: usize = chars.len();
    let m: usize = needle.len();
    if m > n {
        return None;
    }
    let mut i: usize = 0;
    while i <= n - m
        invariant
            m <= n,
            n == chars.len(),
            m == needle.len(),
            i <= n - m + 1,
            first_place(chars@, needle@, 0) == first_place(chars@, needle@, i as int),
        decreases n - m + 1 - i,
    {
        if matches_at(chars, needle, i) {
            return Some(i);
        }
        if i == n - m {
            assert(first_place(chars@, needle@, i + 1) is None);
            return None;
        }
        i = i + 1;
    }
    None
}

/// `s` cut in two at the first place where `separator` stands.
pub open spec fn cut_at_text(s: Seq<char>, separator: Seq<char>) -> Option<(Seq<char>, Seq<char>)> {
    match first_place(s, separator, 0) {
        Some(i) => Some((s.take(i), s.skip(i + separator.len()))),
        None => None,
    }
}

/// Cuts `s` in two at the first place where `separator` stands.
pub fn split_once_text(s: &str, separator: &str) -> (r: Option<(String, String)>)
    ensures
        r.deep_view() == cut_at_text(s@, separator@),
{
    let chars = chars_of(s);
    let wanted = chars_of(separator);
    let n: usize = chars.len();
    let m: usize = wanted.len();
    match find_text(&chars, &wanted) {
        Some(i) => {
            let left = slice(&chars, 0, i);
            let right = slice(&chars, i + m, n);
            assert(left@ =~= s@.take(i as int));
            assert(right@ =~= s@.skip(i + m));
            Some((left, right))
        },
        None => None,
    }
}

proof fn first_place_is_inside(s: Seq<char>, needle: Seq<char>, from: int)
    ensures
        match first_place(s, needle, from) {
            Some(i) => from <= i && stands_at(s, needle, i),
            None => true,
        },
    decreases s.len() + 1 - from,
{
    if from >= 0 && from + needle.len() <= s.len() && !stands_at(s, needle, from) {
        first_place_is_inside(s, needle, from + 1);
    }
}

/// What a cut leaves behind the separator is shorter than the text, unless the separator
/// is empty.
pub proof fn cut_at_text_is_shorter(s: Seq<char>, separator: Seq<char>)
    ensures
        match cut_at_text(s, separator) {
            Some((left, right)) => right.len() + separator.len() <= s.len(),
            None => true,
        },
{
    first_place_is_inside(s, separator, 0);
}

/// The pieces of `s` between the places where `separator` stands.
pub open spec fn text_pieces(s: Seq<char>, separator: Seq<char>) -> Seq<Seq<char>>
    decreases s.len(),
{
    if separator.len() == 0 {
        seq![s]
    } else {
        proof {
            cut_at_text_is_shorter(s, separator);
        }
        match cut_at_text(s, separator) {
            Some((left, right)) => seq![left] + text_pieces(right, separator),
            None => seq![s],
        }
    }
}

/// Cuts `s` at the places where `separator` stands.
pub fn split_text(s: &str, separator: &str) -> (r: Vec<String>)
    requires
        separator@.len() > 0,
    ensures
        r.deep_view() == text_pieces(s@, separator@),
{
    let mut out: Vec<String> = Vec::new();
    let mut rest: String = s.to_owned();
    assert(text_pieces(s@, separator@) =~= out.deep_view() + text_pieces(rest@, separator@));
    loop
        invariant
            separator@.len() > 0,
            text_pieces(s@, separator@) == out.deep_view() + text_pieces(rest@, separator@),
        decreases rest@.len(),
    {
        proof {
            cut_at_text_is_shorter(rest@, separator@);
        }
        let ghost before = out.deep_view();
        match split_once_text(&rest, separator) {
            Some((left, right)) => {
                let ghost cut = left@;
                push_text(&mut out, left);
                assert(out.deep_view() + text_pieces(right@, separator@) =~= before + (seq![cut]
                    + text_pieces(right@, separator@)));
                rest = right;
            },
            None => {
                let ghost last = rest@;
                push_text(&mut out, rest);
                assert(out.deep_view() =~= before + seq![last]);
                return out;
            },
        }
    }
}

/// `s` with every `from` replaced by `to`.
pub open spec fn with_char(s: Seq<char>, from: char, to: char) -> Seq<char> {
    s.map_values(|c: char| if c == from { to } else { c })
}

/// Replaces every `from` by `to`.
pub fn replace_char(s: &str, from: char, to: char) -> (r: String)
    ensures
        r@ == with_char(s@, from, to),
{
    let chars = chars_of(s);
    let mut out = String::new();
    let mut i: usize = 0;
    while i < chars.len()
        invariant
            i <= chars.len(),
            chars@ == s@,
            out@ == with_char(s@, from, to).take(i as int),
        decreases chars.len() - i,
    {
        let c = chars[i];
        out.push(if c == from { to } else { c });
        i = i + 1;
        assert(out@ =~= with_char(s@, from, to).take(i as int));
    }
    assert(out@ =~= with_char(s@, from, to));
    out
}

/// An ASCII upper-case letter in lower case; any other character as it is.
pub open spec fn lower(c: char) -> char {
    if 'A' <= c && c <= 'Z' {
        (c as u32 + 32) as char
    } else {
        c
    }
}

/// `s` with its ASCII letters in lower case.
pub open spec fn ascii_lowered(s: Seq<char>) -> Seq<char> {
    s.map_values(|c: char| lower(c))
}

/// `s` with its ASCII letters in lower case.
pub fn to_ascii_lowercase(s: &str) -> (r: String)
    ensures
        r@ == ascii_lowered(s@),
{
    let chars = chars_of(s);
    let mut out = String::new();
    let mut i: usize = 0;
    while i < chars.len()
        invariant
            i <= chars.len(),
            chars@ == s@,
            out@ == ascii_lowered(s@).take(i as int),
        decreases chars.len() - i,
    {
        let c = chars[i];
        if 'A' <= c && c <= 'Z' {
            out.push((c as u8 + 32) as char);
        } else {
            out.push(c);
        }
        i = i + 1;
        assert(out@ =~= ascii_lowered(s@).take(i as int));
    }
    assert(out@ =~= ascii_lowered(s@));
    out
}

/// The character of a decimal digit.
pub open spec fn digit(d: nat) -> char {
    if d == 0 {
        '0'
    } else if d == 1 {
        '1'
    } else if d == 2 {
        '2'
    } else if d == 3 {
        '3'
    } else if d == 4 {
        '4'
    } else if d == 5 {
        '5'
    } else if d == 6 {
        '6'
    } else if d == 7 {
        '7'
    } else if d == 8 {
        '8'
    } else {
        '9'
    }
}

/// A number in decimal.
pub open spec fn digits(n: nat) -> Seq<char>
    decreases n,
{
    if n < 10 {
        seq![digit(n)]
    } else {
        digits(n / 10).push(digit(n % 10))
    }
}

/// Writes a number in decimal.
pub fn decimal(n: u64) -> (r: String)
    ensures
        r@ == digits(n as nat),
    decreases n,
{
    let d: u64 = n % 10;
    let c: char = if d == 0 {
        '0'
    } else if d == 1 {
        '1'
    } else if d == 2 {
        '2'
    } else if d == 3 {
        '3'
    } else if d == 4 {
        '4'
    } else if d == 5 {
        '5'
    } else if d == 6 {
        '6'
    } else if d == 7 {
        '7'
    } else if d == 8 {
        '8'
    } else {
        '9'
    };
    if n < 10 {
        let mut out = String::new();
        out.push(c);
        assert(out@ =~= seq![digit(n as nat)]);
        out
    } else {
        let mut out = decimal(n / 10);
        out.push(c);
        out
    }
}

/// Where a needle first stands, and that it stands nowhere before.
pub proof fn first_place_is_first(s: Seq<char>, needle: Seq<char>, from: int)
    requires
        0 <= from,
    ensures
        match first_place(s, needle, from) {
            Some(i) => from <= i && stands_at(s, needle, i) && forall|j: int|
                from <= j < i ==> !#[trigger] stands_at(s, needle, j),
            None => forall|j: int| from <= j ==> !#[trigger] stands_at(s, needle, j),
        },
    decreases s.len() + 1 - from,
{
    if from + needle.len() <= s.len() && !stands_at(s, needle, from) {
        first_place_is_first(s, needle, from + 1);
    }
}

/// A text of two characters stands where its characters stand.
pub proof fn stands_by_characters(s: Seq<char>, needle: Seq<char>, i: int)
    requires
        needle.len() == 2,
    ensures
        stands_at(s, needle, i) <==> 0 <= i && i + 2 <= s.len() && s[i] == needle[0] && s[i + 1]
            == needle[1],
{
    if 0 <= i && i + 2 <= s.len() {
        let part = s.subrange(i, i + 2);
        assert(part[0] == s[i] && part[1] == s[i + 1]);
        if part[0] == needle[0] && part[1] == needle[1] {
            assert(part =~= needle);
        }
    }
}

proof fn first_place_is_found(s: Seq<char>, needle: Seq<char>, from: int, n: int)
    requires
        0 <= from <= n,
        stands_at(s, needle, n),
        forall|j: int| from <= j < n ==> !#[trigger] stands_at(s, needle, j),
    ensures
        first_place(s, needle, from) == Some(n),
    decreases n - from,
{
    if from < n {
        assert(!stands_at(s, needle, from));
        first_place_is_found(s, needle, from + 1, n);
    }
}

proof fn nothing_stands_before(left: Seq<char>, separator: Seq<char>, right: Seq<char>, j: int)
    requires
        separator.len() == 2,
        separator[0] != separator[1],
        !occurs(left, separator),
        0 <= j < left.len(),
    ensures
        !stands_at(left + separator + right, separator, j),
{
    let s = left + separator + right;
    stands_by_characters(s, separator, j);
    stands_by_characters(left, separator, j);
    assert(!stands_at(left, separator, j));
    if j + 1 < left.len() {
        assert(s[j] == left[j] && s[j + 1] == left[j + 1]);
    } else {
        assert(s[j + 1] == separator[0]);
    }
}

/// A text that stands in front of a separator of two different characters, and does not hold
/// it, is what is cut off there.
pub proof fn cut_behind(left: Seq<char>, separator: Seq<char>, right: Seq<char>)
    requires
        separator.len() == 2,
        separator[0] != separator[1],
        !occurs(left, separator),
    ensures
        cut_at_text(left + separator + right, separator) == Some((left, right)),
{
    let s = left + separator + right;
    let n = left.len() as int;
    assert(s[n] == separator[0] && s[n + 1] == separator[1]);
    stands_by_characters(s, separator, n);
    assert forall|j: int| 0 <= j < n implies !#[trigger] stands_at(s, separator, j) by {
        nothing_stands_before(left, separator, right, j);
    }
    first_place_is_found(s, separator, 0, n);
    assert(s.take(n) =~= left);
    assert(s.skip(n + 2) =~= right);
}

/// What stands in a part of a text stands in the text.
pub proof fn occurs_in_whole(s: Seq<char>, needle: Seq<char>, from: int, to: int)
    requires
        0 <= from <= to <= s.len(),
        occurs(s.subrange(from, to), needle),
    ensures
        occurs(s, needle),
{
    let part = s.subrange(from, to);
    let j = choose|j: int| stands_at(part, needle, j);
    assert(s.subrange(from + j, from + j + needle.len()) =~= part.subrange(j, j + needle.len()));
    assert(stands_at(s, needle, from + j));
}

/// What a cut leaves in front of the separator does not hold it, and what the text does not
/// hold is in neither part.
pub proof fn cuts_hold_less(s: Seq<char>, separator: Seq<char>, other: Seq<char>)
    requires
        separator.len() > 0,
        cut_at_text(s, separator) is Some,
    ensures
        ({
            let (left, right) = cut_at_text(s, separator)->0;
            &&& !occurs(left, separator)
            &&& occurs(left, other) ==> occurs(s, other)
            &&& occurs(right, other) ==> occurs(s, other)
        }),
{
    first_place_is_first(s, separator, 0);
    let i = first_place(s, separator, 0)->0;
    let left = s.take(i);
    let right = s.skip(i + separator.len());
    if occurs(left, separator) {
        let j = choose|j: int| stands_at(left, separator, j);
        assert(s.subrange(j, j + separator.len()) =~= left.subrange(j, j + separator.len()));
        assert(stands_at(s, separator, j));
    }
    assert(left =~= s.subrange(0, i));
    assert(right =~= s.subrange(i + separator.len(), s.len() as int));
    if occurs(left, other) {
        occurs_in_whole(s, other, 0, i);
    }
    if occurs(right, other) {
        occurs_in_whole(s, other, i + separator.len(), s.len() as int);
    }
}

/// There is always a piece; no piece holds the separator, and what the text does not hold is in
/// no piece.
pub proof fn pieces_hold_less(s: Seq<char>, separator: Seq<char>, other: Seq<char>)
    requires
        separator.len() > 0,
    ensures
        text_pieces(s, separator).len() > 0,
        forall|k: int|
            0 <= k < text_pieces(s, separator).len() ==> {
                &&& !occurs(#[trigger] text_pieces(s, separator)[k], separator)
                &&& occurs(text_pieces(s, separator)[k], other) ==> occurs(s, other)
            },
    decreases s.len(),
{
    first_place_is_first(s, separator, 0);
    match cut_at_text(s, separator) {
        Some((left, right)) => {
            cut_at_text_is_shorter(s, separator);
            cuts_hold_less(s, separator, other);
            pieces_hold_less(right, separator, other);
            let rest = text_pieces(right, separator);
            let all = text_pieces(s, separator);
            assert(all =~= seq![left] + rest);
            assert forall|k: int| 0 <= k < all.len() implies {
                &&& !occurs(#[trigger] all[k], separator)
                &&& occurs(all[k], other) ==> occurs(s, other)
            } by {
                if k > 0 {
                    assert(all[k] == rest[k - 1]);
                }
            }
        },
        None => {
            if occurs(s, separator) {
                let j = choose|j: int| stands_at(s, separator, j);
                assert(!stands_at(s, separator, j));
            }
        },
    }
}

/// Parts that are joined start with the first of them.
pub proof fn joined_from_the_front(parts: Seq<Seq<char>>, separator: Seq<char>)
    requires
        parts.len() > 1,
    ensures
        joined(parts, separator) == parts[0] + separator + joined(parts.skip(1), separator),
    decreases parts.len(),
{
    let front = parts.drop_last();
    let rest = parts.skip(1);
    if parts.len() == 2 {
        assert(front[0] == parts[0]);
        assert(rest[0] == parts[1]);
        assert(joined(front, separator) == parts[0]);
        assert(joined(rest, separator) == parts[1]);
        assert(joined(parts, separator) == joined(front, separator) + separator + parts.last());
    } else {
        joined_from_the_front(front, separator);
        assert(front.skip(1) =~= rest.drop_last());
        assert(rest.last() == parts.last());
        assert(joined(parts, separator) =~= parts[0] + separator + joined(rest, separator));
    }
}

/// Parts that are joined by a separator of two different characters, and do not hold it, are
/// the pieces of the joined text.
pub proof fn joined_parts_are_the_pieces(parts: Seq<Seq<char>>, separator: Seq<char>)
    requires
        parts.len() > 0,
        separator.len() == 2,
        separator[0] != separator[1],
        forall|k: int| 0 <= k < parts.len() ==> !occurs(#[trigger] parts[k], separator),
    ensures
        text_pieces(joined(parts, separator), separator) == parts,
    decreases parts.len(),
{
    let all = joined(parts, separator);
    if parts.len() == 1 {
        first_place_is_first(all, separator, 0);
        assert(!occurs(parts[0], separator));
        assert(text_pieces(all, separator) =~= parts);
    } else {
        let rest = parts.skip(1);
        joined_from_the_front(parts, separator);
        assert forall|k: int| 0 <= k < rest.len() implies !occurs(#[trigger] rest[k], separator) by {
            assert(rest[k] == parts[k + 1]);
        }
        joined_parts_are_the_pieces(rest, separator);
        assert(!occurs(parts[0], separator));
        cut_behind(parts[0], separator, joined(rest, separator));
        assert(text_pieces(all, separator) =~= parts);
    }
}

/// A text of two characters stands in joined parts only where it stands in a part, or where the
/// separator ends with its first character or starts with its second.
pub proof fn joined_hold_no_more(
    parts: Seq<Seq<char>>,
    separator: Seq<char>,
    needle: Seq<char>,
)
    requires
        separator.len() == 2,
        needle.len() == 2,
        separator[0] != needle[1],
        separator[0] != needle[0],
        separator[1] != needle[0],
        forall|k: int| 0 <= k < parts.len() ==> !occurs(#[trigger] parts[k], needle),
    ensures
        !occurs(joined(parts, separator), needle),
    decreases parts.len(),
{
    let all = joined(parts, separator);
    if parts.len() > 1 {
        let front = parts.drop_last();
        assert forall|k: int| 0 <= k < front.len() implies !occurs(#[trigger] front[k], needle) by {
            assert(front[k] == parts[k]);
        }
        joined_hold_no_more(front, separator, needle);
        let a = joined(front, separator);
        let b = parts.last();
        assert(!occurs(parts[parts.len() - 1], needle));
        if occurs(all, needle) {
            let j = choose|j: int| stands_at(all, needle, j);
            stands_by_characters(all, needle, j);
            if j + 2 <= a.len() {
                stands_by_characters(a, needle, j);
                assert(stands_at(a, needle, j));
            } else if j + 1 == a.len() {
                assert(all[j + 1] == separator[0]);
            } else if j == a.len() {
                assert(all[j] == separator[0]);
            } else if j == a.len() + 1 {
                assert(all[j] == separator[1]);
            } else {
                let k = j - a.len() - 2;
                stands_by_characters(b, needle, k);
                assert(stands_at(b, needle, k));
            }
        }
    } else if parts.len() == 1 {
        assert(!occurs(parts[0], needle));
    } else if occurs(all, needle) {
        let j = choose|j: int| stands_at(all, needle, j);
        assert(false);
    }
}

} // verus!
