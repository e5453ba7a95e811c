//! Characters and texts: white space, trimming and joining.

use vstd::prelude::*;
use vstd::string::*;

verus! {

/// `String::push` appends the character to the end of the string.
pub assume_specification[ String::push ](s: &mut String, ch: char)
    ensures
        final(s)@ == old(s)@.push(ch),
;

/// `char::from_u32` gives the character with that scalar value, and `None`
/// for the numbers that are no scalar value: the surrogates, and whatever lies
/// above `0x10FFFF`.
pub assume_specification[ char::from_u32 ](i: u32) -> (c: Option<char>)
    ensures
        c is Some <==> is_scalar(i as int),
        c matches Some(c) ==> c as u32 == i,
;

/// Whether a number is a Unicode scalar value.
pub open spec fn is_scalar(i: int) -> bool {
    0 <= i < 0xD800 || 0xE000 <= i < 0x110000
}

/// The characters that Unicode gives the property `White_Space`.
pub open spec fn white_space(c: char) -> bool {
    let u = c as u32;
    ||| 0x0009 <= u <= 0x000D
    ||| u == 0x0020
    ||| u == 0x0085
    ||| u == 0x00A0
    ||| u == 0x1680
    ||| 0x2000 <= u <= 0x200A
    ||| u == 0x2028
    ||| u == 0x2029
    ||| u == 0x202F
    ||| u == 0x205F
    ||| u == 0x3000
}

/// Whether a character is white space.
pub fn is_white_space(c: char) -> (r: bool)
    ensures
        r == white_space(c),
{
    let u: u32 = c as u32;
    (0x0009 <= u && u <= 0x000D) || u == 0x0020 || u == 0x0085 || u == 0x00A0 || u == 0x1680 || (
    0x2000 <= u && u <= 0x200A) || u == 0x2028 || u == 0x2029 || u == 0x202F || u == 0x205F || u
        == 0x3000
}

/// Whether a text has nothing in it but white space.
pub open spec fn blank(s: Seq<char>) -> bool {
    forall|i: int| 0 <= i < s.len() ==> white_space(#[trigger] s[i])
}

/// Whether a text has nothing in it but white space.
pub fn is_blank(text: &str) -> (r: bool)
    ensures
        r == blank(text@),
{
    let mut r: bool = true;
    for c in iter: text.chars()
        invariant
            iter.seq() == text@,
            r <==> (forall|i: int| 0 <= i < iter.index() ==> white_space(#[trigger] text@[i])),
    {
        if !is_white_space(c) {
            r = false;
        }
    }
    r
}

/// A text without the white space at its start.
pub open spec fn trimmed_start(s: Seq<char>) -> Seq<char>
    decreases s.len(),
{
    if s.len() > 0 && white_space(s.first()) {
        trimmed_start(s.drop_first())
    } else {
        s
    }
}

/// A text without the white space at its end.
pub open spec fn trimmed_end(s: Seq<char>) -> Seq<char>
    decreases s.len(),
{
    if s.len() > 0 && white_space(s.last()) {
        trimmed_end(s.drop_last())
    } else {
        s
    }
}

/// A text without the white space at its start and at its end.
pub open spec fn trimmed(s: Seq<char>) -> Seq<char> {
    trimmed_end(trimmed_start(s))
}

/// Trimming the start drops the white space before the first other character.
proof fn lemma_trimmed_start_splits(s: Seq<char>) -> (from: int)
    ensures
        0 <= from <= s.len(),
        trimmed_start(s) == s.subrange(from, s.len() as int),
        forall|i: int| 0 <= i < from ==> white_space(#[trigger] s[i]),
        from < s.len() ==> !white_space(s[from]),
    decreases s.len(),
{
    if s.len() > 0 && white_space(s.first()) {
        let rest = s.drop_first();
        let k = lemma_trimmed_start_splits(rest);
        assert forall|i: int| 0 <= i < k + 1 implies white_space(#[trigger] s[i]) by {
            if i > 0 {
                assert(white_space(rest[i - 1]));
            }
        }
        assert(rest.subrange(k, rest.len() as int) =~= s.subrange(k + 1, s.len() as int));
        assert(k < rest.len() ==> rest[k] == s[k + 1]);
        k + 1
    } else {
        assert(s.subrange(0, s.len() as int) =~= s);
        0
    }
}

/// Trimming the end drops the white space after the last other character.
proof fn lemma_trimmed_end_splits(s: Seq<char>) -> (to: int)
    ensures
        0 <= to <= s.len(),
        trimmed_end(s) == s.subrange(0, to),
        forall|i: int| to <= i < s.len() ==> white_space(#[trigger] s[i]),
        to > 0 ==> !white_space(s[to - 1]),
    decreases s.len(),
{
    if s.len() > 0 && white_space(s.last()) {
        let rest = s.drop_last();
        let k = lemma_trimmed_end_splits(rest);
        assert forall|i: int| k <= i < s.len() implies white_space(#[trigger] s[i]) by {
            if i < rest.len() {
                assert(white_space(rest[i]));
            }
        }
        assert(rest.subrange(0, k) =~= s.subrange(0, k));
        k
    } else {
        assert(s.subrange(0, s.len() as int) =~= s);
        s.len() as int
    }
}

/// Removes the white space at both ends of a text.
pub fn trim(text: &str) -> (r: String)
    ensures
        r@ == trimmed(text@),
{
    let n: usize = text.unicode_len();
    let mut i: usize = 0;
    // The first character that is no white space, and the place after the
    // last one; both at 0 while there was none.
    let mut from: usize = 0;
    let mut to: usize = 0;
    for c in iter: text.chars()
        invariant
            iter.seq() == text@,
            i == iter.index(),
            n == text@.len(),
            from <= to <= i,
            to == 0 ==> (from == 0 && forall|k: int| 0 <= k < i ==> white_space(#[trigger] text@[k])),
            to > 0 ==> {
                &&& from < to
                &&& !white_space(text@[from as int])
                &&& !white_space(text@[to - 1])
                &&& forall|k: int| 0 <= k < from ==> white_space(#[trigger] text@[k])
                &&& forall|k: int| to <= k < i ==> white_space(#[trigger] text@[k])
            },
    {
        if !is_white_space(c) {
            if to == 0 {
                from = i;
            }
            to = i + 1;
        }
        i = i + 1;
    }
    proof {
        let first = lemma_trimmed_start_splits(text@);
        if to == 0 {
            assert(first == n);
            assert(text@.subrange(n as int, n as int) =~= text@.subrange(0, 0));
            assert(trimmed_end(text@.subrange(0, 0)) == text@.subrange(0, 0));
        } else {
            assert(first == from);
            let rest = text@.subrange(from as int, n as int);
            let last = lemma_trimmed_end_splits(rest);
            if last < to - from {
                assert(white_space(rest[to - from - 1]));
            }
            if last > to - from {
                assert(white_space(text@[from + last - 1]));
            }
            assert(rest.subrange(0, to - from) =~= text@.subrange(from as int, to as int));
        }
    }
    text.substring_char(from, to).to_owned()
}

/// Trimming a text leaves a stretch of it that neither starts nor ends with
/// white space, and loses nothing but white space.
pub proof fn law_trimmed_is_the_core(s: Seq<char>)
    ensures
        exists|from: int, to: int|
            #![trigger s.subrange(from, to)]
            {
                &&& 0 <= from <= to <= s.len()
                &&& trimmed(s) == s.subrange(from, to)
                &&& forall|i: int| 0 <= i < from ==> white_space(#[trigger] s[i])
                &&& forall|i: int| to <= i < s.len() ==> white_space(#[trigger] s[i])
            },
        trimmed(s).len() > 0 ==> !white_space(trimmed(s).first()) && !white_space(
            trimmed(s).last(),
        ),
{
    let front = lemma_trimmed_start_splits(s);
    let core = trimmed_start(s);
    let to = lemma_trimmed_end_splits(core);
    assert(trimmed(s) =~= s.subrange(front, front + to));
    assert forall|i: int| front + to <= i < s.len() implies white_space(#[trigger] s[i]) by {
        assert(white_space(core[i - front]));
    }
    if trimmed(s).len() > 0 {
        assert(trimmed(s).first() == core.first());
    }
}

/// A text is blank exactly where trimming leaves nothing of it.
pub proof fn law_blank_is_trimmed_to_nothing(s: Seq<char>)
    ensures
        blank(s) <==> trimmed(s).len() == 0,
{
    let from = lemma_trimmed_start_splits(s);
    let core = trimmed_start(s);
    let to = lemma_trimmed_end_splits(core);
    if blank(s) {
        assert(from == s.len());
    }
    if trimmed(s).len() == 0 {
        assert forall|i: int| 0 <= i < s.len() implies white_space(#[trigger] s[i]) by {
            if i >= from {
                assert(white_space(core[i - from]));
            }
        }
    }
}

/// Trimming twice is trimming once.
pub proof fn law_trimming_is_idempotent(s: Seq<char>)
    ensures
        trimmed(trimmed(s)) == trimmed(s),
{
    law_trimmed_is_the_core(s);
}

/// A result that carries a text, with the text taken by its characters.
pub open spec fn text_result<E>(r: Result<String, E>) -> Result<Seq<char>, E> {
    match r {
        Ok(text) => Ok(text@),
        Err(e) => Err(e),
    }
}

/// The text that a result carries, or nothing where it carries an error.
pub open spec fn text_or_empty<E>(r: Result<Seq<char>, E>) -> Seq<char> {
    match r {
        Ok(text) => text,
        Err(e) => Seq::empty(),
    }
}

/// Texts one after the other.
pub open spec fn joined(texts: Seq<Seq<char>>) -> Seq<char>
    decreases texts.len(),
{
    if texts.len() == 0 {
        Seq::empty()
    } else {
        joined(texts.drop_last()) + texts.last()
    }
}

/// Each of some texts stands whole among the others, behind those before it and
/// before those behind it.
pub proof fn law_joining_keeps_every_text(
    before: Seq<Seq<char>>,
    text: Seq<char>,
    after: Seq<Seq<char>>,
)
    ensures
        joined(before + seq![text] + after) == joined(before) + text + joined(after),
    decreases after.len(),
{
    let all = before + seq![text] + after;
    if after.len() == 0 {
        assert(all.drop_last() =~= before);
        assert(all.last() == text);
        assert(joined(after) =~= Seq::empty());
        assert(joined(all) =~= joined(before) + text + joined(after));
    } else {
        law_joining_keeps_every_text(before, text, after.drop_last());
        assert(all.drop_last() =~= before + seq![text] + after.drop_last());
        assert(all.last() == after.last());
        assert(joined(all) =~= joined(before) + text + joined(after));
    }
}

} // verus!
