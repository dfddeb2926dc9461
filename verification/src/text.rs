//! Small text operations shared by the rest of the library: whitespace
//! trimming, comma splitting, case folding and number formatting.

use vstd::prelude::*;
use vstd::std_specs::iter::IteratorSpec;
use vstd::string::{StrSliceExecFns, StringExecFns};

verus! {

/// The characters of each string.
pub open spec fn strings_view(v: Seq<String>) -> Seq<Seq<char>> {
    v.map_values(|s: String| s@)
}

/// The characters of an optional string.
pub open spec fn opt_str_view(o: Option<String>) -> Option<Seq<char>> {
    match o {
        Some(s) => Some(s@),
        None => None,
    }
}

/// Whether `c` has the Unicode `White_Space` property (the set that
/// `char::is_whitespace` and `str::trim` use).
pub open spec fn is_white_space(c: char) -> bool {
    let u = c as u32;
    ||| (0x09 <= u && u <= 0x0D)
    ||| u == 0x20
    ||| u == 0x85
    ||| u == 0xA0
    ||| u == 0x1680
    ||| (0x2000 <= u && u <= 0x200A)
    ||| u == 0x2028
    ||| u == 0x2029
    ||| u == 0x202F
    ||| u == 0x205F
    ||| u == 0x3000
}

/// Number of leading white-space characters of `s`.
pub open spec fn leading_white_space(s: Seq<char>) -> nat
    decreases s.len(),
{
    if s.len() == 0 {
        0
    } else if is_white_space(s[0]) {
        1 + leading_white_space(s.drop_first())
    } else {
        0
    }
}

/// Number of trailing white-space characters of `s`.
pub open spec fn trailing_white_space(s: Seq<char>) -> nat
    decreases s.len(),
{
    if s.len() == 0 {
        0
    } else if is_white_space(s.last()) {
        1 + trailing_white_space(s.drop_last())
    } else {
        0
    }
}

/// `s` without its leading and trailing white space (what `str::trim` gives).
pub open spec fn trimmed(s: Seq<char>) -> Seq<char> {
    let rest = s.skip(leading_white_space(s) as int);
    rest.take(rest.len() - trailing_white_space(rest))
}

/// Unicode lower-case mapping of a string, as `str::to_lowercase` computes it.
pub uninterp spec fn lowercase(s: Seq<char>) -> Seq<char>;

/// The decimal digit for `d` (`0 <= d < 10`).
pub open spec fn digit_char(d: nat) -> char {
    ((48 + d) as u32) as char
}

/// Decimal representation of `n`, without sign or padding.
pub open spec fn decimal(n: nat) -> Seq<char>
    decreases n,
{
    if n < 10 {
        seq![digit_char(n)]
    } else {
        decimal(n / 10).push(digit_char(n % 10))
    }
}

/// Whether two string slices hold the same characters (`str`'s `==`).
pub fn str_equal(a: &str, b: &str) -> (r: bool)
    ensures
        r == (a@ == b@),
{
    let ca = chars_of(a);
    let cb = chars_of(b);
    if ca.len() != cb.len() {
        return false;
    }
    for i in 0..ca.len()
        invariant
            ca@ == a@,
            cb@ == b@,
            ca@.len() == cb@.len(),
            forall|j: int| 0 <= j < i ==> a@[j] == b@[j],
    {
        if ca[i] != cb[i] {
            return false;
        }
    }
    assert(a@ =~= b@);
    true
}

/// Calls `str::to_lowercase`: the result is `lowercase` of the argument's
/// characters. The Unicode case tables themselves are not restated here.
#[verifier::external_body]
pub(crate) fn to_lowercase(s: &str) -> (r: String)
    ensures
        r@ == lowercase(s@),
{
    s.to_lowercase()
}

/// Calls `String::push`: appends one character.
#[verifier::external_body]
pub(crate) fn push_char(s: &mut String, c: char)
    ensures
        final(s)@ == old(s)@.push(c),
{
    s.push(c)
}

/// Calls `String::pop`: removes and returns the last character, if any.
#[verifier::external_body]
pub(crate) fn pop_char(s: &mut String) -> (r: Option<char>)
    ensures
        old(s)@.len() == 0 ==> r is None && final(s)@ == old(s)@,
        old(s)@.len() > 0 ==> r == Some(old(s)@.last()) && final(s)@ == old(s)@.drop_last(),
{
    s.pop()
}

/// The decimal representation of `n` (what `usize::to_string` gives).
pub fn usize_to_string(n: usize) -> (r: String)
    ensures
        r@ == decimal(n as nat),
    decreases n,
{
    let d = n % 10;
    let c: char = if d == 0 {
        '0'
    } else if d == 1 {
        '1'
    } else if d == 2 {
        '2'
    } else if d == 3 {
        '3'
    } else if d == 4 {
        '4'
    } else if d == 5 {
        '5'
    } else if d == 6 {
        '6'
    } else if d == 7 {
        '7'
    } else if d == 8 {
        '8'
    } else {
        '9'
    };
    assert(c == digit_char(d as nat));
    if n < 10 {
        let mut r = String::new();
        push_char(&mut r, c);
        assert(r@ =~= seq![digit_char(n as nat)]);
        r
    } else {
        let mut r = usize_to_string(n / 10);
        push_char(&mut r, c);
        r
    }
}

/// The characters of `s`, in order.
pub fn chars_of(s: &str) -> (r: Vec<char>)
    ensures
        r@ == s@,
{
    let mut out: Vec<char> = Vec::new();
    for c in it: s.chars()
        invariant
            out@ == it.seq().take(it.index() as int),
    {
        out.push(c);
    }
    assert(out@ =~= s@);
    out
}

/// A string made of `cs[from..to]`.
pub fn string_from_chars(cs: &Vec<char>, from: usize, to: usize) -> (r: String)
    requires
        from <= to <= cs@.len(),
    ensures
        r@ == cs@.subrange(from as int, to as int),
{
    let mut out = String::new();
    let mut i = from;
    while i < to
        invariant
            from <= i <= to <= cs@.len(),
            out@ == cs@.subrange(from as int, i as int),
        decreases to - i,
    {
        push_char(&mut out, cs[i]);
        assert(cs@.subrange(from as int, i + 1) =~= cs@.subrange(from as int, i as int).push(cs@[i as int]));
        i = i + 1;
    }
    out
}

/// Whether `c` is white space (what `char::is_whitespace` decides).
pub fn char_is_white_space(c: char) -> (r: bool)
    ensures
        r == is_white_space(c),
{
    let u = c as u32;
    (0x09 <= u && u <= 0x0D) || u == 0x20 || u == 0x85 || u == 0xA0 || u == 0x1680 || (0x2000
        <= u && u <= 0x200A) || u == 0x2028 || u == 0x2029 || u == 0x202F || u == 0x205F || u
        == 0x3000
}

proof fn lemma_leading_white_space(s: Seq<char>, i: int)
    requires
        0 <= i <= s.len(),
        forall|j: int| 0 <= j < i ==> is_white_space(#[trigger] s[j]),
    ensures
        leading_white_space(s) == i + leading_white_space(s.skip(i)),
    decreases i,
{
    if i > 0 {
        lemma_leading_white_space(s.drop_first(), i - 1);
        assert(s.drop_first().skip(i - 1) =~= s.skip(i));
    } else {
        assert(s.skip(0) =~= s);
    }
}

proof fn lemma_trailing_white_space(s: Seq<char>, i: int)
    requires
        0 <= i <= s.len(),
        forall|j: int| i <= j < s.len() ==> is_white_space(#[trigger] s[j]),
    ensures
        trailing_white_space(s) == (s.len() - i) + trailing_white_space(s.take(i)),
    decreases s.len() - i,
{
    if i < s.len() {
        lemma_trailing_white_space(s.drop_last(), i);
        assert(s.drop_last().take(i) =~= s.take(i));
    } else {
        assert(s.take(i) =~= s);
    }
}

/// The characters of `cs[from..to]` without leading and trailing white space.
pub fn trim_chars(cs: &Vec<char>, from: usize, to: usize) -> (r: String)
    requires
        from <= to <= cs@.len(),
    ensures
        r@ == trimmed(cs@.subrange(from as int, to as int)),
{
    let ghost s = cs@.subrange(from as int, to as int);
    let mut start = from;
    while start < to && char_is_white_space(cs[start])
        invariant
            from <= start <= to <= cs@.len(),
            s == cs@.subrange(from as int, to as int),
            forall|j: int| 0 <= j < start - from ==> is_white_space(#[trigger] s[j]),
        decreases to - start,
    {
        start = start + 1;
    }
    proof {
        lemma_leading_white_space(s, start - from);
        if start < to {
            assert(s.skip(start - from)[0] == cs@[start as int]);
        }
        assert(leading_white_space(s.skip(start - from)) == 0);
    }
    let mut end = to;
    while end > start && char_is_white_space(cs[end - 1])
        invariant
            from <= start <= end <= to <= cs@.len(),
            s == cs@.subrange(from as int, to as int),
            forall|j: int| end - from <= j < to - from ==> is_white_space(#[trigger] s[j]),
        decreases end - start,
    {
        end = end - 1;
    }
    proof {
        let rest = s.skip(start - from);
        lemma_trailing_white_space(rest, end - start);
        let kept = rest.take(end - start);
        if end > start {
            assert(kept.last() == cs@[end - 1]);
        }
        assert(trailing_white_space(kept) == 0);
        assert(rest.take(rest.len() - trailing_white_space(rest)) =~= cs@.subrange(
            start as int,
            end as int,
        ));
    }
    string_from_chars(cs, start, end)
}

/// `s` without its leading and trailing white space (`str::trim`).
pub fn trim(s: &str) -> (r: String)
    ensures
        r@ == trimmed(s@),
{
    let cs = chars_of(s);
    let r = trim_chars(&cs, 0, cs.len());
    assert(cs@.subrange(0, cs@.len() as int) =~= s@);
    r
}

/// A string with the characters of `a` followed by those of `b`.
pub fn concat2(a: &str, b: &str) -> (r: String)
    ensures
        r@ == a@ + b@,
{
    let mut out = a.to_owned();
    out.append(b);
    out
}

/// A string with the characters of `a`, then `b`, then `c`.
pub fn concat3(a: &str, b: &str, c: &str) -> (r: String)
    ensures
        r@ == a@ + b@ + c@,
{
    let mut out = a.to_owned();
    out.append(b);
    out.append(c);
    out
}

/// Pieces of `s` between the occurrences of `sep`, in order (what
/// `str::split` yields; there is always at least one piece).
pub open spec fn split_pieces(s: Seq<char>, sep: char) -> Seq<Seq<char>>
    decreases s.len(),
{
    if s.len() == 0 {
        seq![seq![]]
    } else {
        let p = split_pieces(s.drop_last(), sep);
        if s.last() == sep {
            p.push(seq![])
        } else {
            p.update(p.len() - 1, p.last().push(s.last()))
        }
    }
}

/// The pieces, trimmed, without those that are left empty.
pub open spec fn nonempty_trimmed(pieces: Seq<Seq<char>>) -> Seq<Seq<char>>
    decreases pieces.len(),
{
    if pieces.len() == 0 {
        seq![]
    } else {
        let r = nonempty_trimmed(pieces.drop_last());
        let t = trimmed(pieces.last());
        if t.len() == 0 {
            r
        } else {
            r.push(t)
        }
    }
}

/// The comma-separated names of `text`: split at `,`, trimmed, empty
/// names dropped.
pub open spec fn comma_list(text: Seq<char>) -> Seq<Seq<char>> {
    nonempty_trimmed(split_pieces(text, ','))
}

/// `parts` joined with `sep` between consecutive parts.
pub open spec fn joined(parts: Seq<Seq<char>>, sep: Seq<char>) -> Seq<char>
    decreases parts.len(),
{
    if parts.len() == 0 {
        seq![]
    } else if parts.len() == 1 {
        parts[0]
    } else {
        joined(parts.drop_last(), sep) + sep + parts.last()
    }
}

pub proof fn lemma_split_pieces_nonempty(s: Seq<char>, sep: char)
    ensures
        split_pieces(s, sep).len() >= 1,
    decreases s.len(),
{
    if s.len() > 0 {
        lemma_split_pieces_nonempty(s.drop_last(), sep);
    }
}

/// The comma-separated names of `text` (see `comma_list`).
pub fn split_comma_list(text: &str) -> (r: Vec<String>)
    ensures
        strings_view(r@) == comma_list(text@),
{
    let cs = chars_of(text);
    let mut out: Vec<String> = Vec::new();
    let mut start: usize = 0;
    let mut i: usize = 0;
    proof {
        assert(cs@.take(0) =~= seq![]);
        assert(split_pieces(cs@.take(0), ',').len() == 1);
        assert(cs@.subrange(0, 0) =~= seq![]);
        assert(split_pieces(cs@.take(0), ',').drop_last() =~= seq![]);
        assert(strings_view(out@) =~= seq![]);
    }
    while i < cs.len()
        invariant
            0 <= start <= i <= cs@.len(),
            cs@ == text@,
            split_pieces(cs@.take(i as int), ',').len() >= 1,
            split_pieces(cs@.take(i as int), ',').last() == cs@.subrange(start as int, i as int),
            strings_view(out@) == nonempty_trimmed(
                split_pieces(cs@.take(i as int), ',').drop_last(),
            ),
        decreases cs@.len() - i,
    {
        let ghost p = split_pieces(cs@.take(i as int), ',');
        assert(cs@.take(i + 1).drop_last() =~= cs@.take(i as int));
        assert(cs@.take(i + 1).last() == cs@[i as int]);
        if cs[i] == ',' {
            let piece = trim_chars(&cs, start, i);
            let ghost before = strings_view(out@);
            let ghost t = trimmed(p.last());
            assert(p.push(seq![]).drop_last() =~= p);
            assert(p =~= p.drop_last().push(p.last()));
            if piece.unicode_len() > 0 {
                out.push(piece);
                assert(strings_view(out@) =~= before.push(t));
            }
            start = i + 1;
            assert(cs@.subrange(start as int, (i + 1) as int) =~= seq![]);
        } else {
            let ghost q = p.update(p.len() - 1, p.last().push(cs@[i as int]));
            assert(q.drop_last() =~= p.drop_last());
            assert(cs@.subrange(start as int, (i + 1) as int) =~= cs@.subrange(
                start as int,
                i as int,
            ).push(cs@[i as int]));
        }
        i = i + 1;
    }
    let piece = trim_chars(&cs, start, cs.len());
    proof {
        let p = split_pieces(cs@.take(i as int), ',');
        assert(cs@.take(i as int) =~= cs@);
        assert(p =~= p.drop_last().push(p.last()));
    }
    let ghost before = strings_view(out@);
    if piece.unicode_len() > 0 {
        out.push(piece);
        assert(strings_view(out@) =~= before.push(trimmed(
            split_pieces(text@, ',').last(),
        )));
    }
    out
}

/// `parts` joined with `sep` between consecutive parts (`[String]::join`).
pub fn join_strings(parts: &Vec<String>, sep: &str) -> (r: String)
    ensures
        r@ == joined(strings_view(parts@), sep@),
{
    let ghost v = strings_view(parts@);
    let mut out = String::new();
    let mut i: usize = 0;
    while i < parts.len()
        invariant
            0 <= i <= parts@.len(),
            v == strings_view(parts@),
            out@ == joined(v.take(i as int), sep@),
        decreases parts@.len() - i,
    {
        assert(v.take(i + 1).drop_last() =~= v.take(i as int));
        if i > 0 {
            out.append(sep);
        }
        out.append(parts[i].as_str());
        assert(v.take(i + 1).last() == parts@[i as int]@);
        if i == 0 {
            assert(joined(v.take(1), sep@) == v.take(1)[0]);
            assert(joined(v.take(0), sep@) =~= seq![]);
            assert(out@ =~= parts@[0]@);
        }
        i = i + 1;
    }
    assert(v.take(parts@.len() as int) =~= v);
    out
}

} // verus!
