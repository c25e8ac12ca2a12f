//! Character-level helpers over strings.

use vstd::prelude::*;
use vstd::string::StringExecFns;

verus! {

broadcast use vstd::string::group_string_axioms;

/// Appends one character to a string.
///
/// Trusted: `String::push`, which the standard library documents as
/// appending the given character to the end of the string.
#[verifier::external_body]
pub(crate) fn push_char(s: &mut String, c: char)
    ensures
        final(s)@ == old(s)@.push(c),
{
    s.push(c)
}

/// The characters of `s`, in order.
pub fn chars_of(s: &str) -> (v: Vec<char>)
    ensures
        v@ == s@,
{
    let mut v: Vec<char> = Vec::new();
    for c in it: s.chars()
        invariant
            it.seq() == s@,
            v@ == it.seq().take(it.index()),
    {
        v.push(c);
    }
    v
}

/// The string made of the characters `v`, in order.
pub fn string_of(v: &Vec<char>) -> (s: String)
    ensures
        s@ == v@,
{
    let mut s = String::new();
    let mut i: usize = 0;
    while i < v.len()
        invariant
            i <= v.len(),
            s@ == v@.take(i as int),
        decreases v.len() - i,
    {
        push_char(&mut s, v[i]);
        i += 1;
    }
    s
}


/// The lower-case form of an ASCII capital; any other character itself.
pub open spec fn ascii_lower(c: char) -> char {
    if 'A' <= c && c <= 'Z' {
        ((c as u8) + 32) as char
    } else {
        c
    }
}

/// Whether two texts are equal up to the case of ASCII letters.
pub open spec fn same_ignoring_case(a: Seq<char>, b: Seq<char>) -> bool {
    &&& a.len() == b.len()
    &&& forall|i: int| 0 <= i < a.len() ==> ascii_lower(#[trigger] a[i]) == ascii_lower(b[i])
}

/// The words joined by `sep`.
pub open spec fn joined(words: Seq<Seq<char>>, sep: Seq<char>) -> Seq<char>
    decreases words.len(),
{
    if words.len() == 0 {
        Seq::empty()
    } else if words.len() == 1 {
        words[0]
    } else {
        joined(words.drop_last(), sep) + sep + words.last()
    }
}

/// The lower-case form of an ASCII capital; any other character itself.
pub fn to_ascii_lower(c: char) -> (low: char)
    ensures
        low == ascii_lower(c),
{
    if 'A' <= c && c <= 'Z' {
        ((c as u8) + 32) as char
    } else {
        c
    }
}

/// Whether the two strings hold the same characters.
pub fn same_text(a: &str, b: &str) -> (same: bool)
    ensures
        same == (a@ == b@),
{
    let x = chars_of(a);
    let y = chars_of(b);
    if x.len() != y.len() {
        return false;
    }
    let mut i: usize = 0;
    while i < x.len()
        invariant
            i <= x.len(),
            x.len() == y.len(),
            x@ == a@,
            y@ == b@,
            forall|j: int| 0 <= j < i ==> x@[j] == y@[j],
        decreases x.len() - i,
    {
        if x[i] != y[i] {
            return false;
        }
        i += 1;
    }
    proof {
        assert(x@ =~= y@);
    }
    true
}

/// Whether the two strings are equal up to the case of ASCII letters.
pub fn same_text_ignoring_case(a: &str, b: &str) -> (same: bool)
    ensures
        same == same_ignoring_case(a@, b@),
{
    let x = chars_of(a);
    let y = chars_of(b);
    if x.len() != y.len() {
        return false;
    }
    let mut i: usize = 0;
    while i < x.len()
        invariant
            i <= x.len(),
            x.len() == y.len(),
            x@ == a@,
            y@ == b@,
            forall|j: int| 0 <= j < i ==> ascii_lower(#[trigger] x@[j]) == ascii_lower(y@[j]),
        decreases x.len() - i,
    {
        if to_ascii_lower(x[i]) != to_ascii_lower(y[i]) {
            return false;
        }
        i += 1;
    }
    true
}

/// Whether `text` begins with `prefix`.
pub fn has_prefix(text: &str, prefix: &str) -> (yes: bool)
    ensures
        yes == prefix@.is_prefix_of(text@),
{
    let x = chars_of(text);
    let p = chars_of(prefix);
    if p.len() > x.len() {
        return false;
    }
    let mut i: usize = 0;
    while i < p.len()
        invariant
            i <= p.len(),
            p.len() <= x.len(),
            x@ == text@,
            p@ == prefix@,
            forall|j: int| 0 <= j < i ==> x@[j] == p@[j],
        decreases p.len() - i,
    {
        if x[i] != p[i] {
            proof {
                assert(x@.subrange(0, p.len() as int)[i as int] == x@[i as int]);
            }
            return false;
        }
        i += 1;
    }
    proof {
        assert(p@ =~= x@.subrange(0, p.len() as int));
    }
    true
}

/// The words joined by `sep`.
pub fn join(words: &Vec<String>, sep: &str) -> (line: String)
    ensures
        line@ == joined(words.deep_view(), sep@),
{
    let mut line = String::new();
    let mut i: usize = 0;
    while i < words.len()
        invariant
            i <= words.len(),
            line@ == joined(words.deep_view().take(i as int), sep@),
        decreases words.len() - i,
    {
        proof {
            let all = words.deep_view();
            assert(all.take(i + 1).drop_last() == all.take(i as int));
            assert(all.take(i + 1).last() == words@[i as int]@);
            if i == 0 {
                assert(Seq::<char>::empty() + words@[0]@ == words@[0]@);
            }
        }
        if i > 0 {
            line.append(sep);
        }
        line.append(words[i].as_str());
        i += 1;
    }
    proof {
        assert(words.deep_view().take(words.len() as int) == words.deep_view());
    }
    line
}

/// Whether the character is white space: the characters with the Unicode
/// property `White_Space`.
pub open spec fn is_space(c: char) -> bool {
    let n = c as u32;
    ||| 0x09 <= n <= 0x0d
    ||| n == 0x20
    ||| n == 0x85
    ||| n == 0xa0
    ||| n == 0x1680
    ||| 0x2000 <= n <= 0x200a
    ||| n == 0x2028
    ||| n == 0x2029
    ||| n == 0x202f
    ||| n == 0x205f
    ||| n == 0x3000
}

/// The position of the first character at or after `from` for which
/// `is_space` is `space`, or the length where there is none.
pub open spec fn first_where(text: Seq<char>, from: int, space: bool) -> int
    decreases text.len() - from,
{
    if from < 0 || from >= text.len() {
        text.len() as int
    } else if is_space(text[from]) == space {
        from
    } else {
        first_where(text, from + 1, space)
    }
}

/// The text without its leading white space.
pub open spec fn trimmed_start(text: Seq<char>) -> Seq<char> {
    text.skip(first_where(text, 0, false))
}

/// The text with every `from` replaced by `to`.
pub open spec fn replaced(text: Seq<char>, from: char, to: char) -> Seq<char> {
    Seq::new(text.len(), |i: int| if text[i] == from { to } else { text[i] })
}

/// Whether the character is white space.
pub fn char_is_space(c: char) -> (yes: bool)
    ensures
        yes == is_space(c),
{
    let n = c as u32;
    (0x09 <= n && n <= 0x0d) || n == 0x20 || n == 0x85 || n == 0xa0 || n == 0x1680 || (0x2000 <= n
        && n <= 0x200a) || n == 0x2028 || n == 0x2029 || n == 0x202f || n == 0x205f || n == 0x3000
}

/// Finds the first character at or after `from` that is white space, if
/// `space`, or that is not, if not `space`.
pub fn find_where(text: &Vec<char>, from: usize, space: bool) -> (at: usize)
    requires
        from <= text.len(),
    ensures
        at == first_where(text@, from as int, space),
        from <= at <= text.len(),
{
    let mut i: usize = from;
    while i < text.len()
        invariant
            from <= i <= text.len(),
            first_where(text@, from as int, space) == first_where(text@, i as int, space),
        decreases text.len() - i,
    {
        if char_is_space(text[i]) == space {
            return i;
        }
        i += 1;
    }
    i
}

/// The characters of `text` from `from` to `to`, as a string.
pub fn string_of_range(text: &Vec<char>, from: usize, to: usize) -> (s: String)
    requires
        from <= to <= text.len(),
    ensures
        s@ == text@.subrange(from as int, to as int),
{
    let mut s = String::new();
    let mut i: usize = from;
    while i < to
        invariant
            from <= i <= to,
            to <= text.len(),
            s@ == text@.subrange(from as int, i as int),
        decreases to - i,
    {
        push_char(&mut s, text[i]);
        i += 1;
    }
    s
}

/// The text with every `from` replaced by `to`.
pub fn replace_char(text: &str, from: char, to: char) -> (s: String)
    ensures
        s@ == replaced(text@, from, to),
{
    let chars = chars_of(text);
    let mut s = String::new();
    let mut i: usize = 0;
    while i < chars.len()
        invariant
            i <= chars.len(),
            chars@ == text@,
            s@ == replaced(text@, from, to).take(i as int),
        decreases chars.len() - i,
    {
        let c = if chars[i] == from {
            to
        } else {
            chars[i]
        };
        push_char(&mut s, c);
        i += 1;
    }
    s
}

} // verus!
