//! Text as a sequence of characters: classes of characters, trimming, and
//! the first line of a text.

use vstd::prelude::*;
use vstd::string::*;

verus! {

/// Whether `char::is_whitespace` holds of `c`: whether `c` has the Unicode
/// property `White_Space`.
pub uninterp spec fn is_whitespace(c: char) -> bool;

/// Calls `char::is_whitespace`. The result is a function of the character
/// alone, which [`is_whitespace`] names.
#[verifier::external_body]
fn char_is_whitespace(c: char) -> (r: bool)
    ensures
        r == is_whitespace(c),
{
    c.is_whitespace()
}

/// A set of characters that a trim removes.
#[derive(Clone, Copy, Debug)]
pub enum CharClass {
    /// Every character with the Unicode property `White_Space`.
    Whitespace,
    /// One character only.
    Only(char),
}

impl CharClass {
    /// Whether `c` belongs to the class.
    pub open spec fn has(self, c: char) -> bool {
        match self {
            CharClass::Whitespace => is_whitespace(c),
            CharClass::Only(wanted) => c == wanted,
        }
    }

    /// Tests whether `c` belongs to the class.
    pub fn contains(&self, c: char) -> (r: bool)
        ensures
            r == self.has(c),
    {
        match self {
            CharClass::Whitespace => char_is_whitespace(c),
            CharClass::Only(wanted) => c == *wanted,
        }
    }
}

/// How many characters at the front of `s` belong to `class`, up to the
/// first one that does not.
pub open spec fn leading(s: Seq<char>, class: CharClass) -> nat
    decreases s.len(),
{
    if s.len() > 0 && class.has(s[0]) {
        1 + leading(s.drop_first(), class)
    } else {
        0
    }
}

/// How many characters at the back of `s` belong to `class`, down to the
/// last one that does not.
pub open spec fn trailing(s: Seq<char>, class: CharClass) -> nat
    decreases s.len(),
{
    if s.len() > 0 && class.has(s.last()) {
        1 + trailing(s.drop_last(), class)
    } else {
        0
    }
}

/// `s` without the characters of `class` at its front.
pub open spec fn trim_start(s: Seq<char>, class: CharClass) -> Seq<char> {
    s.skip(leading(s, class) as int)
}

/// `s` without the characters of `class` at its back.
pub open spec fn trim_end(s: Seq<char>, class: CharClass) -> Seq<char> {
    s.take(s.len() - trailing(s, class))
}

/// `s` without the characters of `class` at either end.
pub open spec fn trim(s: Seq<char>, class: CharClass) -> Seq<char> {
    trim_end(trim_start(s, class), class)
}

/// Neither the first nor the last character of `s` belongs to `class`.
pub open spec fn is_trimmed(s: Seq<char>, class: CharClass) -> bool {
    s.len() > 0 ==> !class.has(s[0]) && !class.has(s.last())
}

/// The position of the first line feed in `s`, or the length of `s` where
/// it holds none.
pub open spec fn line_end(s: Seq<char>) -> nat
    decreases s.len(),
{
    if s.len() == 0 || s[0] == '\n' {
        0
    } else {
        1 + line_end(s.drop_first())
    }
}

/// What stands before the first line feed of `s`; all of `s` where it
/// holds none.
pub open spec fn first_line(s: Seq<char>) -> Seq<char> {
    s.take(line_end(s) as int)
}

/// `s` holds no line feed.
pub open spec fn is_single_line(s: Seq<char>) -> bool {
    forall|i: int| 0 <= i < s.len() ==> s[i] != '\n'
}

/// `leading` is the one position `k` such that every character before it
/// belongs to the class and the character at it, if any, does not.
pub proof fn lemma_leading_is(s: Seq<char>, class: CharClass, k: int)
    requires
        0 <= k <= s.len(),
        forall|i: int| 0 <= i < k ==> class.has(s[i]),
        k < s.len() ==> !class.has(s[k]),
    ensures
        leading(s, class) == k,
    decreases k,
{
    if k > 0 {
        let rest = s.drop_first();
        assert(class.has(s[0]));
        assert forall|i: int| 0 <= i < k - 1 implies class.has(rest[i]) by {
            assert(rest[i] == s[i + 1]);
        }
        if k - 1 < rest.len() {
            assert(rest[k - 1] == s[k]);
        }
        lemma_leading_is(rest, class, k - 1);
    }
}

/// `trailing` is the one count `k` such that the last `k` characters
/// belong to the class and the one before them, if any, does not.
pub proof fn lemma_trailing_is(s: Seq<char>, class: CharClass, k: int)
    requires
        0 <= k <= s.len(),
        forall|i: int| s.len() - k <= i < s.len() ==> class.has(s[i]),
        k < s.len() ==> !class.has(s[s.len() - k - 1]),
    ensures
        trailing(s, class) == k,
    decreases k,
{
    if k > 0 {
        let rest = s.drop_last();
        assert(class.has(s.last()));
        assert forall|i: int| rest.len() - (k - 1) <= i < rest.len() implies class.has(
            rest[i],
        ) by {
            assert(rest[i] == s[i]);
        }
        if k - 1 < rest.len() {
            assert(rest[rest.len() - (k - 1) - 1] == s[s.len() - k - 1]);
        }
        lemma_trailing_is(rest, class, k - 1);
    }
}

/// What `leading` counts: no more than the length, only characters of the
/// class, and all of them up to the first that is not.
pub proof fn lemma_leading_bounds(s: Seq<char>, class: CharClass)
    ensures
        leading(s, class) <= s.len(),
        forall|i: int| 0 <= i < leading(s, class) ==> class.has(s[i]),
        leading(s, class) < s.len() ==> !class.has(s[leading(s, class) as int]),
    decreases s.len(),
{
    if s.len() > 0 && class.has(s[0]) {
        let rest = s.drop_first();
        lemma_leading_bounds(rest, class);
        assert forall|i: int| 0 <= i < leading(s, class) implies class.has(s[i]) by {
            if i > 0 {
                assert(s[i] == rest[i - 1]);
            }
        }
        if leading(s, class) < s.len() {
            assert(s[leading(s, class) as int] == rest[leading(rest, class) as int]);
        }
    }
}

/// What `trailing` counts: no more than the length, only characters of the
/// class, and all of them down to the last that is not.
pub proof fn lemma_trailing_bounds(s: Seq<char>, class: CharClass)
    ensures
        trailing(s, class) <= s.len(),
        forall|i: int| s.len() - trailing(s, class) <= i < s.len() ==> class.has(s[i]),
        trailing(s, class) < s.len() ==> !class.has(s[s.len() - trailing(s, class) - 1]),
    decreases s.len(),
{
    if s.len() > 0 && class.has(s.last()) {
        let rest = s.drop_last();
        lemma_trailing_bounds(rest, class);
        assert forall|i: int| s.len() - trailing(s, class) <= i < s.len() implies class.has(
            s[i],
        ) by {
            if i < s.len() - 1 {
                assert(s[i] == rest[i]);
            }
        }
        if trailing(s, class) < s.len() {
            assert(s[s.len() - trailing(s, class) - 1] == rest[rest.len() - trailing(
                rest,
                class,
            ) - 1]);
        }
    }
}

/// A trim leaves a stretch of the text, with no character of the class at
/// either end of it.
pub proof fn lemma_trim_is_stretch(s: Seq<char>, class: CharClass) -> (bounds: (int, int))
    ensures
        0 <= bounds.0 <= bounds.1 <= s.len(),
        trim(s, class) == s.subrange(bounds.0, bounds.1),
        is_trimmed(trim(s, class), class),
{
    let front = trim_start(s, class);
    lemma_leading_bounds(s, class);
    lemma_trailing_bounds(front, class);
    let from = leading(s, class) as int;
    let to = from + front.len() - trailing(front, class);
    assert(trim(s, class) =~= s.subrange(from, to));
    let kept = trim(s, class);
    if kept.len() > 0 {
        assert(kept[0] == s[from]);
        assert(kept.last() == front[front.len() - trailing(front, class) - 1]);
    }
    (from, to)
}

/// A text with no character of the class at either end is what its trim
/// leaves.
pub proof fn lemma_trim_of_trimmed(s: Seq<char>, class: CharClass)
    requires
        is_trimmed(s, class),
    ensures
        trim(s, class) == s,
{
    lemma_leading_is(s, class, 0);
    lemma_trailing_is(s, class, 0);
    assert(trim(s, class) =~= s);
}

/// A text with a character of the class at one end loses it to the trim.
pub proof fn lemma_trim_shortens(s: Seq<char>, class: CharClass)
    requires
        !is_trimmed(s, class),
    ensures
        trim(s, class).len() < s.len(),
{
    let front = trim_start(s, class);
    lemma_leading_bounds(s, class);
    lemma_trailing_bounds(front, class);
    if !class.has(s[0]) {
        assert(front =~= s);
    }
}

/// Trimming twice by one class leaves what trimming once leaves.
pub proof fn lemma_trim_idempotent(s: Seq<char>, class: CharClass)
    ensures
        trim(trim(s, class), class) == trim(s, class),
{
    lemma_trim_is_stretch(s, class);
    lemma_trim_of_trimmed(trim(s, class), class);
}

/// `line_end` is the one position `k` with no line feed before it and, if
/// it lies inside the text, a line feed at it.
pub proof fn lemma_line_end_is(s: Seq<char>, k: int)
    requires
        0 <= k <= s.len(),
        forall|i: int| 0 <= i < k ==> s[i] != '\n',
        k < s.len() ==> s[k] == '\n',
    ensures
        line_end(s) == k,
    decreases k,
{
    if k > 0 {
        let rest = s.drop_first();
        assert(s[0] != '\n');
        assert forall|i: int| 0 <= i < k - 1 implies rest[i] != '\n' by {
            assert(rest[i] == s[i + 1]);
        }
        if k - 1 < rest.len() {
            assert(rest[k - 1] == s[k]);
        }
        lemma_line_end_is(rest, k - 1);
    }
}

/// Where `line_end` lies: inside the text or at its end, after no line
/// feed, and at a line feed if inside.
pub proof fn lemma_line_end_bounds(s: Seq<char>)
    ensures
        line_end(s) <= s.len(),
        forall|i: int| 0 <= i < line_end(s) ==> s[i] != '\n',
        line_end(s) < s.len() ==> s[line_end(s) as int] == '\n',
    decreases s.len(),
{
    if s.len() > 0 && s[0] != '\n' {
        let rest = s.drop_first();
        lemma_line_end_bounds(rest);
        assert forall|i: int| 0 <= i < line_end(s) implies s[i] != '\n' by {
            if i > 0 {
                assert(s[i] == rest[i - 1]);
            }
        }
        if line_end(s) < s.len() {
            assert(s[line_end(s) as int] == rest[line_end(rest) as int]);
        }
    }
}

/// The first line holds no line feed, and a text that holds none is its
/// own first line.
pub proof fn lemma_first_line_single(s: Seq<char>)
    ensures
        is_single_line(first_line(s)),
        is_single_line(s) ==> first_line(s) == s,
{
    lemma_line_end_bounds(s);
    if is_single_line(s) {
        lemma_line_end_is(s, s.len() as int);
        assert(first_line(s) =~= s);
    }
}

/// The characters of `text`, in order.
pub fn characters(text: &str) -> (out: Vec<char>)
    ensures
        out@ == text@,
{
    let mut out: Vec<char> = Vec::new();
    for c in it: text.chars()
        invariant
            out@ == it.seq().take(it.index()),
            it.seq() == text@,
    {
        out.push(c);
    }
    out
}

/// Where the first line of `chars` ends.
pub fn find_line_end(chars: &Vec<char>) -> (end: usize)
    ensures
        end == line_end(chars@),
        end <= chars.len(),
{
    let mut end: usize = 0;
    while end < chars.len() && chars[end] != '\n'
        invariant
            end <= chars.len(),
            forall|i: int| 0 <= i < end ==> chars@[i] != '\n',
        decreases chars.len() - end,
    {
        end += 1;
    }
    proof {
        lemma_line_end_is(chars@, end as int);
    }
    end
}

/// Where the stretch of `chars` from `from` up to `to` begins once the
/// characters of `class` at its front are left out.
pub fn trim_front(chars: &Vec<char>, from: usize, to: usize, class: CharClass) -> (start: usize)
    requires
        from <= to <= chars.len(),
    ensures
        from <= start <= to,
        chars@.subrange(start as int, to as int) == trim_start(
            chars@.subrange(from as int, to as int),
            class,
        ),
{
    let mut start: usize = from;
    while start < to && class.contains(chars[start])
        invariant
            from <= start <= to <= chars.len(),
            forall|i: int| from <= i < start ==> class.has(chars@[i]),
        decreases to - start,
    {
        start += 1;
    }
    proof {
        let whole = chars@.subrange(from as int, to as int);
        lemma_leading_is(whole, class, start - from);
        assert(trim_start(whole, class) =~= chars@.subrange(start as int, to as int));
    }
    start
}

/// Where the stretch of `chars` from `from` up to `to` ends once the
/// characters of `class` at its back are left out.
pub fn trim_back(chars: &Vec<char>, from: usize, to: usize, class: CharClass) -> (end: usize)
    requires
        from <= to <= chars.len(),
    ensures
        from <= end <= to,
        chars@.subrange(from as int, end as int) == trim_end(
            chars@.subrange(from as int, to as int),
            class,
        ),
{
    let mut end: usize = to;
    while end > from && class.contains(chars[end - 1])
        invariant
            from <= end <= to <= chars.len(),
            forall|i: int| end <= i < to ==> class.has(chars@[i]),
        decreases end - from,
    {
        end -= 1;
    }
    proof {
        let whole = chars@.subrange(from as int, to as int);
        lemma_trailing_is(whole, class, to - end);
        assert(trim_end(whole, class) =~= chars@.subrange(from as int, end as int));
    }
    end
}

/// Trims the stretch of `chars` from `from` up to `to` by `class`, and
/// returns where what is left begins and ends.
pub fn trim_stretch(chars: &Vec<char>, from: usize, to: usize, class: CharClass) -> (kept: (
    usize,
    usize,
))
    requires
        from <= to <= chars.len(),
    ensures
        from <= kept.0 <= kept.1 <= to,
        chars@.subrange(kept.0 as int, kept.1 as int) == trim(
            chars@.subrange(from as int, to as int),
            class,
        ),
{
    let start = trim_front(chars, from, to, class);
    let end = trim_back(chars, start, to, class);
    (start, end)
}

/// `text` without the characters of `class` at either end.
pub fn trimmed<'a>(text: &'a str, class: CharClass) -> (kept: &'a str)
    ensures
        kept@ == trim(text@, class),
{
    let chars = characters(text);
    let bounds = trim_stretch(&chars, 0, chars.len(), class);
    assert(chars@.subrange(0, chars.len() as int) =~= text@);
    text.substring_char(bounds.0, bounds.1)
}

/// The texts of `strings`, one for one.
pub open spec fn texts_of(strings: Seq<String>) -> Seq<Seq<char>> {
    Seq::new(strings.len(), |i: int| strings[i]@)
}

/// `parts` one after the other, with `separator` between each two.
pub open spec fn joined(parts: Seq<Seq<char>>, separator: Seq<char>) -> Seq<char>
    decreases parts.len(),
{
    if parts.len() == 0 {
        Seq::empty()
    } else if parts.len() == 1 {
        parts[0]
    } else {
        joined(parts.drop_last(), separator) + separator + parts.last()
    }
}

/// Joins `parts`, with `separator` between each two.
pub fn join(parts: &Vec<String>, separator: &str) -> (whole: String)
    ensures
        whole@ == joined(texts_of(parts@), separator@),
{
    let ghost texts = texts_of(parts@);
    let mut whole = String::new();
    let mut i: usize = 0;
    assert(texts.take(0) =~= Seq::<Seq<char>>::empty());
    while i < parts.len()
        invariant
            i <= parts.len(),
            texts == texts_of(parts@),
            whole@ == joined(texts.take(i as int), separator@),
        decreases parts.len() - i,
    {
        assert(texts.take(i + 1).drop_last() =~= texts.take(i as int));
        assert(texts.take(i + 1).last() == parts@[i as int]@);
        if i > 0 {
            whole.append(separator);
        }
        whole.append(parts[i].as_str());
        assert(whole@ =~= joined(texts.take(i + 1), separator@));
        i += 1;
    }
    assert(texts.take(parts.len() as int) =~= texts);
    whole
}

} // verus!
