//! Text primitives on sequences of Unicode scalar values.

use vstd::prelude::*;

verus! {

/// `String::push` appends one character.
pub assume_specification[ String::push ](s: &mut String, c: char)
    ensures
        final(s)@ == old(s)@.push(c),
;

/// The texts of a sequence of strings.
pub open spec fn texts(strings: Seq<String>) -> Seq<Seq<char>> {
    strings.map_values(|s: String| s@)
}

/// The text of an optional string.
pub open spec fn opt_text(value: Option<String>) -> Option<Seq<char>> {
    match value {
        Some(s) => Some(s@),
        None => None,
    }
}

/// The characters of a string, in order.
pub fn chars_of(s: &str) -> (r: Vec<char>)
    ensures
        r@ == s@,
{
    let mut out: Vec<char> = Vec::new();
    for c in it: s.chars()
        invariant
            it.seq() == s@,
            out@ == s@.take(it.index() as int),
    {
        out.push(c);
        proof {
            assert(s@.take(it.index() + 1) == s@.take(it.index() as int).push(c));
        }
    }
    proof {
        assert(s@.take(s@.len() as int) == s@);
    }
    out
}

/// The string made of `chars[from..to]`.
pub fn string_of(chars: &Vec<char>, from: usize, to: usize) -> (r: String)
    requires
        from <= to <= chars@.len(),
    ensures
        r@ == chars@.subrange(from as int, to as int),
{
    let mut out = String::new();
    let mut i: usize = from;
    while i < to
        invariant
            from <= i <= to <= chars@.len(),
            out@ == chars@.subrange(from as int, i as int),
        decreases to - i,
    {
        out.push(chars[i]);
        i += 1;
        proof {
            assert(chars@.subrange(from as int, i as int) == chars@.subrange(
                from as int,
                i - 1,
            ).push(chars@[i - 1]));
        }
    }
    out
}

/// An owned copy of an optional string.
pub fn copy_opt(value: &Option<String>) -> (r: Option<String>)
    ensures
        opt_text(r) == opt_text(*value),
{
    match value {
        Some(s) => Some(s.clone()),
        None => None,
    }
}

/// Whether two texts are the same.
pub fn text_eq(a: &str, b: &str) -> (r: bool)
    ensures
        r == (a@ == b@),
{
    let left = chars_of(a);
    let right = chars_of(b);
    if left.len() != right.len() {
        return false;
    }
    let mut i: usize = 0;
    while i < left.len()
        invariant
            left@ == a@,
            right@ == b@,
            left@.len() == right@.len(),
            i <= left@.len(),
            forall|j: int| 0 <= j < i ==> left@[j] == right@[j],
        decreases left@.len() - i,
    {
        if left[i] != right[i] {
            return false;
        }
        i += 1;
    }
    proof {
        assert(a@ =~= b@);
    }
    true
}

// ---------------------------------------------------------------------------
// White space

/// The characters with the Unicode `White_Space` property.
pub open spec fn is_white_space(c: char) -> bool {
    let v = c as u32;
    ||| 0x9 <= v <= 0xd
    ||| v == 0x20
    ||| v == 0x85
    ||| v == 0xa0
    ||| v == 0x1680
    ||| 0x2000 <= v <= 0x200a
    ||| v == 0x2028
    ||| v == 0x2029
    ||| v == 0x202f
    ||| v == 0x205f
    ||| v == 0x3000
}

/// Whether `c` has the Unicode `White_Space` property.
pub fn white_space(c: char) -> (r: bool)
    ensures
        r == is_white_space(c),
{
    let v = c as u32;
    (v >= 0x9 && v <= 0xd) || v == 0x20 || v == 0x85 || v == 0xa0 || v == 0x1680 || (v >= 0x2000
        && v <= 0x200a) || v == 0x2028 || v == 0x2029 || v == 0x202f || v == 0x205f || v == 0x3000
}

/// `s` without its leading white space.
pub open spec fn trim_start_of(s: Seq<char>) -> Seq<char>
    decreases s.len(),
{
    if s.len() > 0 && is_white_space(s[0]) {
        trim_start_of(s.drop_first())
    } else {
        s
    }
}

/// `s` without its trailing white space.
pub open spec fn trim_end_of(s: Seq<char>) -> Seq<char>
    decreases s.len(),
{
    if s.len() > 0 && is_white_space(s.last()) {
        trim_end_of(s.drop_last())
    } else {
        s
    }
}

/// `s` without its leading and trailing white space.
pub open spec fn trim_of(s: Seq<char>) -> Seq<char> {
    trim_end_of(trim_start_of(s))
}

/// `s` without its leading and trailing white space.
pub fn trim(s: &str) -> (r: String)
    ensures
        r@ == trim_of(s@),
{
    let chars = chars_of(s);
    let mut from: usize = 0;
    proof {
        assert(chars@.skip(0) == chars@);
    }
    while from < chars.len() && white_space(chars[from])
        invariant
            chars@ == s@,
            from <= chars@.len(),
            trim_start_of(chars@.skip(from as int)) == trim_start_of(s@),
        decreases chars@.len() - from,
    {
        proof {
            assert(chars@.skip(from as int).drop_first() == chars@.skip(from + 1));
        }
        from += 1;
    }
    let mut to: usize = chars.len();
    proof {
        assert(chars@.subrange(from as int, to as int) == chars@.skip(from as int));
        assert(trim_start_of(s@) == chars@.skip(from as int));
    }
    while to > from && white_space(chars[to - 1])
        invariant
            from <= to <= chars@.len(),
            trim_end_of(chars@.subrange(from as int, to as int)) == trim_of(s@),
        decreases to,
    {
        proof {
            assert(chars@.subrange(from as int, to as int).drop_last() == chars@.subrange(
                from as int,
                to - 1,
            ));
        }
        to -= 1;
    }
    string_of(&chars, from, to)
}

/// The words of `s`: its maximal runs of characters that are no white space.
/// `word` holds the characters of the run that is still open at the front.
pub open spec fn words_from(s: Seq<char>, word: Seq<char>) -> Seq<Seq<char>>
    decreases s.len(),
{
    if s.len() == 0 {
        if word.len() == 0 {
            Seq::empty()
        } else {
            seq![word]
        }
    } else if is_white_space(s[0]) {
        if word.len() == 0 {
            words_from(s.drop_first(), word)
        } else {
            seq![word] + words_from(s.drop_first(), Seq::empty())
        }
    } else {
        words_from(s.drop_first(), word.push(s[0]))
    }
}

/// The words of `s`: its maximal runs of characters that are no white space.
pub open spec fn words_of(s: Seq<char>) -> Seq<Seq<char>> {
    words_from(s, Seq::empty())
}

/// The words of `s`, in order.
pub fn words(s: &str) -> (r: Vec<String>)
    ensures
        texts(r@) == words_of(s@),
{
    let chars = chars_of(s);
    let mut out: Vec<String> = Vec::new();
    let mut start: usize = 0;
    let mut i: usize = 0;
    proof {
        assert(chars@.skip(0) == chars@);
        assert(chars@.subrange(0, 0) == Seq::<char>::empty());
        assert(texts(out@) + words_of(s@) == words_of(s@));
    }
    while i < chars.len()
        invariant
            chars@ == s@,
            start <= i <= chars@.len(),
            texts(out@) + words_from(
                chars@.skip(i as int),
                chars@.subrange(start as int, i as int),
            ) == words_of(s@),
        decreases chars@.len() - i,
    {
        let ghost rest = chars@.skip(i as int);
        let ghost word = chars@.subrange(start as int, i as int);
        let ghost before = texts(out@);
        proof {
            assert(rest.drop_first() == chars@.skip(i + 1));
        }
        if white_space(chars[i]) {
            if start < i {
                out.push(string_of(&chars, start, i));
                proof {
                    assert(texts(out@) == before.push(word));
                    assert(before + (seq![word] + words_from(rest.drop_first(), Seq::empty()))
                        == before.push(word) + words_from(rest.drop_first(), Seq::empty()));
                }
            } else {
                assert(word == Seq::<char>::empty());
            }
            start = i + 1;
            proof {
                assert(chars@.subrange(start as int, i + 1) == Seq::<char>::empty());
            }
        } else {
            proof {
                assert(chars@.subrange(start as int, i + 1) == word.push(chars@[i as int]));
            }
        }
        i += 1;
    }
    let ghost before = texts(out@);
    proof {
        assert(chars@.skip(i as int) == Seq::<char>::empty());
    }
    if start < i {
        out.push(string_of(&chars, start, i));
        proof {
            let word = chars@.subrange(start as int, i as int);
            assert(texts(out@) == before.push(word));
            assert(before + seq![word] == before.push(word));
        }
    } else {
        proof {
            assert(before + Seq::<Seq<char>>::empty() == before);
        }
    }
    out
}

// ---------------------------------------------------------------------------
// ASCII case

/// `c` with an upper case ASCII letter made lower case.
pub open spec fn lower_char(c: char) -> char {
    if 'A' <= c <= 'Z' {
        (c as u32 + 32) as char
    } else {
        c
    }
}

/// `s` with its upper case ASCII letters made lower case.
pub open spec fn ascii_lower_of(s: Seq<char>) -> Seq<char> {
    s.map_values(|c: char| lower_char(c))
}

/// `s` with its upper case ASCII letters made lower case.
pub fn ascii_lower(s: &str) -> (r: String)
    ensures
        r@ == ascii_lower_of(s@),
{
    let chars = chars_of(s);
    let mut out = String::new();
    let mut i: usize = 0;
    while i < chars.len()
        invariant
            chars@ == s@,
            i <= chars@.len(),
            out@ == ascii_lower_of(s@.take(i as int)),
        decreases chars@.len() - i,
    {
        let c = chars[i];
        if c >= 'A' && c <= 'Z' {
            let lowered: u8 = c as u8 + 32;
            out.push(lowered as char);
        } else {
            out.push(c);
        }
        proof {
            assert(ascii_lower_of(s@.take(i + 1)) == ascii_lower_of(s@.take(i as int)).push(
                lower_char(c),
            ));
        }
        i += 1;
    }
    proof {
        assert(s@.take(i as int) == s@);
    }
    out
}

// ---------------------------------------------------------------------------
// Prefixes and suffixes

/// Whether `s` starts with `prefix`.
pub open spec fn has_prefix(s: Seq<char>, prefix: Seq<char>) -> bool {
    prefix.len() <= s.len() && s.take(prefix.len() as int) == prefix
}

/// Whether `s` ends with `suffix`.
pub open spec fn has_suffix(s: Seq<char>, suffix: Seq<char>) -> bool {
    suffix.len() <= s.len() && s.skip(s.len() - suffix.len()) == suffix
}

/// What follows `prefix` in `s`, where `s` starts with it.
pub fn strip_prefix(s: &str, prefix: &str) -> (r: Option<String>)
    ensures
        r is Some <==> has_prefix(s@, prefix@),
        r matches Some(rest) ==> rest@ == s@.skip(prefix@.len() as int),
{
    let chars = chars_of(s);
    let wanted = chars_of(prefix);
    if wanted.len() > chars.len() {
        return None;
    }
    let head = string_of(&chars, 0, wanted.len());
    proof {
        assert(head@ == s@.take(prefix@.len() as int));
    }
    if !text_eq(head.as_str(), prefix) {
        return None;
    }
    let rest = string_of(&chars, wanted.len(), chars.len());
    proof {
        assert(rest@ == s@.skip(prefix@.len() as int));
    }
    Some(rest)
}

/// Whether `s` starts with `prefix`.
pub fn starts_with(s: &str, prefix: &str) -> (r: bool)
    ensures
        r == has_prefix(s@, prefix@),
{
    strip_prefix(s, prefix).is_some()
}

/// What precedes `suffix` in `s`, where `s` ends with it.
pub fn strip_suffix(s: &str, suffix: &str) -> (r: Option<String>)
    ensures
        r is Some <==> has_suffix(s@, suffix@),
        r matches Some(rest) ==> rest@ == s@.take(s@.len() - suffix@.len()),
{
    let chars = chars_of(s);
    let wanted = chars_of(suffix);
    if wanted.len() > chars.len() {
        return None;
    }
    let at: usize = chars.len() - wanted.len();
    let tail = string_of(&chars, at, chars.len());
    proof {
        assert(tail@ == s@.skip(s@.len() - suffix@.len()));
    }
    if !text_eq(tail.as_str(), suffix) {
        return None;
    }
    let rest = string_of(&chars, 0, at);
    proof {
        assert(rest@ == s@.take(s@.len() - suffix@.len()));
    }
    Some(rest)
}

/// Whether `s` ends with `suffix`.
pub fn ends_with(s: &str, suffix: &str) -> (r: bool)
    ensures
        r == has_suffix(s@, suffix@),
{
    strip_suffix(s, suffix).is_some()
}

/// Whether `c` occurs in `s`.
pub fn contains_char(s: &str, c: char) -> (r: bool)
    ensures
        r == s@.contains(c),
{
    let chars = chars_of(s);
    let mut i: usize = 0;
    while i < chars.len()
        invariant
            chars@ == s@,
            i <= chars@.len(),
            forall|j: int| 0 <= j < i ==> s@[j] != c,
        decreases chars@.len() - i,
    {
        if chars[i] == c {
            return true;
        }
        i += 1;
    }
    false
}

// ---------------------------------------------------------------------------
// Replacing, splitting, joining

/// `s` with each `from` replaced by `to`.
pub open spec fn replace_of(s: Seq<char>, from: char, to: Seq<char>) -> Seq<char>
    decreases s.len(),
{
    if s.len() == 0 {
        Seq::empty()
    } else {
        replace_of(s.drop_last(), from, to) + (if s.last() == from {
            to
        } else {
            seq![s.last()]
        })
    }
}

/// `s` with each `from` replaced by `to`.
pub fn replace(s: &str, from: char, to: &str) -> (r: String)
    ensures
        r@ == replace_of(s@, from, to@),
{
    let chars = chars_of(s);
    let mut out = String::new();
    let mut i: usize = 0;
    while i < chars.len()
        invariant
            chars@ == s@,
            i <= chars@.len(),
            out@ == replace_of(s@.take(i as int), from, to@),
        decreases chars@.len() - i,
    {
        let ghost before = out@;
        proof {
            assert(s@.take(i + 1).drop_last() == s@.take(i as int));
        }
        if chars[i] == from {
            out.append(to);
        } else {
            out.push(chars[i]);
            assert(out@ == before + seq![chars@[i as int]]);
        }
        i += 1;
    }
    proof {
        assert(s@.take(i as int) == s@);
    }
    out
}

/// The parts of `s` between the occurrences of `sep`; always at least one.
pub open spec fn split_of(s: Seq<char>, sep: char) -> Seq<Seq<char>>
    decreases s.len(),
{
    if s.len() == 0 {
        seq![Seq::empty()]
    } else {
        let parts = split_of(s.drop_last(), sep);
        if s.last() == sep {
            parts.push(Seq::empty())
        } else {
            parts.drop_last().push(parts.last().push(s.last()))
        }
    }
}

pub proof fn lemma_split_nonempty(s: Seq<char>, sep: char)
    ensures
        split_of(s, sep).len() >= 1,
    decreases s.len(),
{
    if s.len() > 0 {
        lemma_split_nonempty(s.drop_last(), sep);
    }
}

/// The parts of `s` between the occurrences of `sep`.
pub fn split(s: &str, sep: char) -> (r: Vec<String>)
    ensures
        texts(r@) == split_of(s@, sep),
{
    let chars = chars_of(s);
    let mut out: Vec<String> = Vec::new();
    let mut start: usize = 0;
    let mut i: usize = 0;
    proof {
        assert(chars@.subrange(0, 0) == Seq::<char>::empty());
        assert(s@.take(0) == Seq::<char>::empty());
        assert(texts(out@).push(Seq::empty()) == split_of(Seq::<char>::empty(), sep));
    }
    while i < chars.len()
        invariant
            chars@ == s@,
            start <= i <= chars@.len(),
            texts(out@).push(chars@.subrange(start as int, i as int)) == split_of(
                s@.take(i as int),
                sep,
            ),
        decreases chars@.len() - i,
    {
        let ghost before = texts(out@);
        let ghost part = chars@.subrange(start as int, i as int);
        proof {
            assert(s@.take(i + 1).drop_last() == s@.take(i as int));
            assert(before.push(part).drop_last() == before);
        }
        if chars[i] == sep {
            out.push(string_of(&chars, start, i));
            start = i + 1;
            proof {
                assert(texts(out@) == before.push(part));
                assert(chars@.subrange(start as int, i + 1) == Seq::<char>::empty());
            }
        } else {
            proof {
                assert(chars@.subrange(start as int, i + 1) == part.push(chars@[i as int]));
            }
        }
        i += 1;
    }
    let ghost before = texts(out@);
    out.push(string_of(&chars, start, i));
    proof {
        assert(s@.take(i as int) == s@);
        assert(texts(out@) == before.push(chars@.subrange(start as int, i as int)));
    }
    out
}

/// `parts` with `sep` between each two of them.
pub open spec fn join_of(parts: Seq<Seq<char>>, sep: Seq<char>) -> Seq<char>
    decreases parts.len(),
{
    if parts.len() == 0 {
        Seq::empty()
    } else if parts.len() == 1 {
        parts[0]
    } else {
        join_of(parts.drop_last(), sep) + sep + parts.last()
    }
}

/// `parts` with `sep` between each two of them.
pub fn join(parts: &Vec<String>, sep: &str) -> (r: String)
    ensures
        r@ == join_of(texts(parts@), sep@),
{
    let mut out = String::new();
    let mut i: usize = 0;
    proof {
        assert(texts(parts@).take(0) == Seq::<Seq<char>>::empty());
    }
    while i < parts.len()
        invariant
            i <= parts@.len(),
            out@ == join_of(texts(parts@).take(i as int), sep@),
        decreases parts@.len() - i,
    {
        let ghost all = texts(parts@);
        if i > 0 {
            out.append(sep);
        }
        out.append(parts[i].as_str());
        proof {
            assert(all.take(i + 1).drop_last() == all.take(i as int));
            assert(all.take(i + 1).last() == parts@[i as int]@);
            if i == 0 {
                assert(Seq::<char>::empty() + parts@[0]@ == parts@[0]@);
            }
        }
        i += 1;
    }
    proof {
        assert(texts(parts@).take(i as int) == texts(parts@));
    }
    out
}

// ---------------------------------------------------------------------------
// Laws of white space

/// Whether `part` is `s` without `before` characters at its front and `after` at its back, all of
/// them white space.
pub open spec fn is_trimmed_by(s: Seq<char>, part: Seq<char>, before: int, after: int) -> bool {
    &&& 0 <= before && 0 <= after && before + part.len() + after == s.len()
    &&& part == s.subrange(before, before + part.len())
    &&& forall|i: int| 0 <= i < before ==> is_white_space(#[trigger] s[i])
    &&& forall|i: int| s.len() - after <= i < s.len() ==> is_white_space(#[trigger] s[i])
}

proof fn lemma_trim_start(s: Seq<char>) -> (before: int)
    ensures
        is_trimmed_by(s, trim_start_of(s), before, 0),
        trim_start_of(s).len() > 0 ==> !is_white_space(trim_start_of(s)[0]),
    decreases s.len(),
{
    if s.len() > 0 && is_white_space(s[0]) {
        let rest = s.drop_first();
        let skipped = lemma_trim_start(rest);
        let part = trim_start_of(s);
        assert(part == s.subrange(skipped + 1, s.len() as int));
        assert forall|i: int| 0 <= i < skipped + 1 implies is_white_space(#[trigger] s[i]) by {
            if i > 0 {
                assert(rest[i - 1] == s[i]);
            }
        }
        skipped + 1
    } else {
        assert(s == s.subrange(0, s.len() as int));
        0
    }
}

proof fn lemma_trim_end(s: Seq<char>) -> (after: int)
    ensures
        is_trimmed_by(s, trim_end_of(s), 0, after),
        trim_end_of(s).len() > 0 ==> !is_white_space(trim_end_of(s).last()),
    decreases s.len(),
{
    if s.len() > 0 && is_white_space(s.last()) {
        let rest = s.drop_last();
        let cut = lemma_trim_end(rest);
        assert(trim_end_of(s) == s.subrange(0, trim_end_of(s).len() as int));
        assert forall|i: int| s.len() - (cut + 1) <= i < s.len() implies is_white_space(
            #[trigger] s[i],
        ) by {
            if i < s.len() - 1 {
                assert(rest[i] == s[i]);
            }
        }
        cut + 1
    } else {
        assert(s == s.subrange(0, s.len() as int));
        0
    }
}

/// Trimming takes white space away at the two ends, all of it, and nothing else. What has none
/// there stays as it is, so that trimming twice is trimming once.
pub proof fn law_trim(s: Seq<char>)
    ensures
        exists|before: int, after: int| #[trigger] is_trimmed_by(s, trim_of(s), before, after),
        trim_of(s).len() > 0 ==> !is_white_space(trim_of(s)[0]) && !is_white_space(
            trim_of(s).last(),
        ),
        s.len() > 0 && !is_white_space(s[0]) && !is_white_space(s.last()) ==> trim_of(s) == s,
        trim_of(trim_of(s)) == trim_of(s),
{
    let start = trim_start_of(s);
    let before = lemma_trim_start(s);
    let after = lemma_trim_end(start);
    let part = trim_of(s);
    assert(part == s.subrange(before, before + part.len()));
    assert forall|i: int| s.len() - after <= i < s.len() implies is_white_space(
        #[trigger] s[i],
    ) by {
        assert(start[i - before] == s[i]);
    }
    assert(is_trimmed_by(s, part, before, after));
    if part.len() > 0 {
        assert(part[0] == start[0]);
    }
}

// ---------------------------------------------------------------------------
// Laws of case, parts and words

/// Lower case changes the letters from `A` to `Z` alone: each becomes the letter that stands as far
/// behind `a`, so that none of them is left, and a text in lower case stays as it is.
pub proof fn law_lower_case(s: Seq<char>)
    ensures
        ascii_lower_of(s).len() == s.len(),
        forall|i: int|
            0 <= i < s.len() ==> (if 'A' <= s[i] && s[i] <= 'Z' {
                #[trigger] ascii_lower_of(s)[i] as int - 'a' as int == s[i] as int - 'A' as int
            } else {
                ascii_lower_of(s)[i] == s[i]
            }),
        ascii_lower_of(ascii_lower_of(s)) == ascii_lower_of(s),
{
    assert(ascii_lower_of(ascii_lower_of(s)) == ascii_lower_of(s));
}

/// The parts of a text, joined by what it was split at, are the text again.
pub proof fn law_split_joins_back(s: Seq<char>, sep: char)
    ensures
        join_of(split_of(s, sep), seq![sep]) == s,
    decreases s.len(),
{
    if s.len() > 0 {
        let front = s.drop_last();
        law_split_joins_back(front, sep);
        lemma_split_nonempty(front, sep);
        let before = split_of(front, sep);
        let parts = split_of(s, sep);
        assert(front.push(s.last()) == s);
        if s.last() == sep {
            assert(parts.drop_last() == before);
            assert(parts.last() == Seq::<char>::empty());
            assert(front + seq![sep] + Seq::<char>::empty() == s);
        } else {
            assert(parts.drop_last() == before.drop_last());
            if before.len() > 1 {
                let joined = join_of(before.drop_last(), seq![sep]) + seq![sep];
                assert(joined + before.last() == front);
                assert(joined + before.last().push(s.last()) == s);
            }
        }
    }
}

/// A text begins with a prefix where something behind the prefix makes it up, and ends with a
/// suffix where something before the suffix does.
pub proof fn law_prefixes_and_suffixes(s: Seq<char>, part: Seq<char>, rest: Seq<char>)
    ensures
        has_prefix(part + rest, part),
        has_suffix(rest + part, part),
        has_prefix(s, part) ==> s == part + s.skip(part.len() as int),
        has_suffix(s, part) ==> s == s.take(s.len() - part.len()) + part,
{
    assert((part + rest).take(part.len() as int) == part);
    assert((rest + part).skip(rest.len() as int) == part);
}

proof fn lemma_words_nonempty(s: Seq<char>, word: Seq<char>)
    requires
        forall|j: int| 0 <= j < word.len() ==> !is_white_space(#[trigger] word[j]),
    ensures
        forall|i: int|
            0 <= i < words_from(s, word).len() ==> (#[trigger] words_from(s, word)[i]).len() > 0,
        forall|i: int, j: int|
            0 <= i < words_from(s, word).len() && 0 <= j < words_from(s, word)[i].len()
                ==> !is_white_space(#[trigger] words_from(s, word)[i][j]),
    decreases s.len(),
{
    if s.len() > 0 {
        let rest = s.drop_first();
        let all = words_from(s, word);
        if is_white_space(s[0]) {
            lemma_words_nonempty(rest, Seq::empty());
            let later = words_from(rest, Seq::empty());
            if word.len() == 0 {
                assert(word == Seq::<char>::empty());
                assert(all == later);
            } else {
                assert(all == seq![word] + later);
                assert forall|i: int| 0 <= i < all.len() implies (#[trigger] all[i]).len() > 0 by {
                    if i > 0 {
                        assert(all[i] == later[i - 1]);
                    }
                }
                assert forall|i: int, j: int|
                    0 <= i < all.len() && 0 <= j < all[i].len() implies !is_white_space(
                    #[trigger] all[i][j],
                ) by {
                    if i > 0 {
                        assert(all[i] == later[i - 1]);
                        assert(!is_white_space(later[i - 1][j]));
                    }
                }
            }
        } else {
            lemma_words_nonempty(rest, word.push(s[0]));
            assert(all == words_from(rest, word.push(s[0])));
        }
    } else if word.len() > 0 {
        assert(words_from(s, word) == seq![word]);
    }
}

proof fn lemma_words_of_plain(plain: Seq<char>, rest: Seq<char>, word: Seq<char>)
    requires
        forall|j: int| 0 <= j < plain.len() ==> !is_white_space(#[trigger] plain[j]),
    ensures
        words_from(plain + rest, word) == words_from(rest, word + plain),
    decreases plain.len(),
{
    if plain.len() == 0 {
        assert(plain + rest == rest);
        assert(word + plain == word);
    } else {
        let fewer = plain.drop_first();
        assert((plain + rest).drop_first() == fewer + rest);
        assert((plain + rest)[0] == plain[0]);
        lemma_words_of_plain(fewer, rest, word.push(plain[0]));
        assert(word.push(plain[0]) + fewer == word + plain);
    }
}

/// The words of a text are those stretches between white space that are not empty: a first word is
/// followed by the words behind the white space after it, white space in front counts for nothing,
/// and no word is empty or holds white space.
pub proof fn law_words(word: Seq<char>, gap: char, rest: Seq<char>)
    requires
        word.len() > 0,
        forall|j: int| 0 <= j < word.len() ==> !is_white_space(#[trigger] word[j]),
        is_white_space(gap),
    ensures
        words_of(Seq::<char>::empty()).len() == 0,
        words_of(word) == seq![word],
        words_of(seq![gap] + rest) == words_of(rest),
        words_of(word + seq![gap] + rest) == seq![word] + words_of(rest),
        forall|i: int| 0 <= i < words_of(rest).len() ==> (#[trigger] words_of(rest)[i]).len() > 0,
        forall|i: int, j: int|
            0 <= i < words_of(rest).len() && 0 <= j < words_of(rest)[i].len() ==> !is_white_space(
                #[trigger] words_of(rest)[i][j],
            ),
{
    let empty = Seq::<char>::empty();
    lemma_words_nonempty(rest, empty);
    lemma_words_of_plain(word, empty, empty);
    assert(word + empty == word);
    assert(empty + word == word);
    let spaced = seq![gap] + rest;
    assert(spaced.drop_first() == rest);
    assert(spaced[0] == gap);
    lemma_words_of_plain(word, spaced, empty);
    assert(word + seq![gap] + rest == word + spaced);
}

}
