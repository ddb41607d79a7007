//! Slash-separated object keys and prefixes.

use vstd::prelude::*;

use crate::text::{join, join_of, replace, replace_of, split, split_of, text_eq, texts};

verus! {

/// Whether a path component is kept: it is not empty and names no relative directory.
pub open spec fn is_component(part: Seq<char>) -> bool {
    part.len() > 0 && part != "."@ && part != ".."@
}

/// The components of a path that is written with slashes or backslashes.
pub open spec fn components_of(raw: Seq<char>) -> Seq<Seq<char>> {
    split_of(replace_of(raw, '\\', "/"@), '/').filter(|part: Seq<char>| is_component(part))
}

/// The components of a path, joined by slashes.
pub open spec fn clean_path_of(raw: Seq<char>) -> Seq<char> {
    join_of(components_of(raw), "/"@)
}

/// The components of a path, joined by slashes.
pub fn clean_path(raw: &str) -> (r: String)
    ensures
        r@ == clean_path_of(raw@),
{
    let slashed = replace(raw, '\\', "/");
    let parts = split(slashed.as_str(), '/');
    let ghost keep = |part: Seq<char>| is_component(part);
    let ghost all = split_of(slashed@, '/');
    let mut kept: Vec<String> = Vec::new();
    let mut i: usize = 0;
    proof {
        reveal_with_fuel(Seq::filter, 1);
        assert(texts(kept@) == all.take(0).filter(keep));
    }
    while i < parts.len()
        invariant
            keep == (|part: Seq<char>| is_component(part)),
            all == texts(parts@),
            i <= parts@.len(),
            texts(kept@) == all.take(i as int).filter(keep),
        decreases parts@.len() - i,
    {
        let ghost before = texts(kept@);
        proof {
            reveal_with_fuel(Seq::filter, 1);
            assert(all.take(i + 1).drop_last() == all.take(i as int));
            assert(all.take(i + 1).last() == parts@[i as int]@);
        }
        let part = parts[i].as_str();
        if !part.is_empty() && !text_eq(part, ".") && !text_eq(part, "..") {
            kept.push(parts[i].clone());
            proof {
                assert(texts(kept@) == before.push(parts@[i as int]@));
            }
        }
        i += 1;
    }
    proof {
        assert(all.take(i as int) == all);
    }
    join(&kept, "/")
}

// ---------------------------------------------------------------------------
// Laws of clean paths

proof fn lemma_split_append(a: Seq<char>, b: Seq<char>, sep: char)
    requires
        !b.contains(sep),
    ensures
        split_of((a.push(sep)) + b, sep) == split_of(a, sep).push(b),
    decreases b.len(),
{
    let whole = a.push(sep) + b;
    if b.len() == 0 {
        assert(whole == a.push(sep));
        assert(whole.drop_last() == a);
        assert(b == Seq::<char>::empty());
    } else {
        let shorter = b.drop_last();
        assert forall|c: char| shorter.contains(c) implies b.contains(c) by {
            let i = choose|i: int| 0 <= i < shorter.len() && shorter[i] == c;
            assert(b[i] == c);
        }
        lemma_split_append(a, shorter, sep);
        assert(whole.drop_last() == a.push(sep) + shorter);
        assert(whole.last() == b.last());
        assert(b.contains(b.last())) by {
            assert(b[b.len() - 1] == b.last());
        }
        let parts = split_of(a, sep).push(shorter);
        assert(parts.drop_last() == split_of(a, sep));
        assert(shorter.push(b.last()) == b);
    }
}

proof fn lemma_split_plain(b: Seq<char>, sep: char)
    requires
        !b.contains(sep),
    ensures
        split_of(b, sep) == seq![b],
    decreases b.len(),
{
    if b.len() == 0 {
        assert(b == Seq::<char>::empty());
    } else {
        let shorter = b.drop_last();
        assert forall|c: char| shorter.contains(c) implies b.contains(c) by {
            let i = choose|i: int| 0 <= i < shorter.len() && shorter[i] == c;
            assert(b[i] == c);
        }
        lemma_split_plain(shorter, sep);
        assert(b.contains(b.last())) by {
            assert(b[b.len() - 1] == b.last());
        }
        assert(seq![shorter].drop_last() == Seq::<Seq<char>>::empty());
        assert(shorter.push(b.last()) == b);
        assert(Seq::<Seq<char>>::empty().push(b) == seq![b]);
    }
}

/// Splitting at a separator undoes joining with it.
pub proof fn lemma_split_join(parts: Seq<Seq<char>>, sep: char)
    requires
        parts.len() > 0,
        forall|i: int| 0 <= i < parts.len() ==> !(#[trigger] parts[i]).contains(sep),
    ensures
        split_of(join_of(parts, seq![sep]), sep) == parts,
    decreases parts.len(),
{
    if parts.len() == 1 {
        lemma_split_plain(parts[0], sep);
        assert(parts == seq![parts[0]]);
    } else {
        let front = parts.drop_last();
        assert forall|i: int| 0 <= i < front.len() implies !(#[trigger] front[i]).contains(sep) by {
            assert(front[i] == parts[i]);
        }
        lemma_split_join(front, sep);
        let joined = join_of(front, seq![sep]);
        assert(joined + seq![sep] == joined.push(sep));
        assert(parts.last() == parts[parts.len() - 1]);
        lemma_split_append(joined, parts.last(), sep);
        assert(front.push(parts.last()) == parts);
    }
}

/// No part of a split text holds the separator, and no character that the text does not hold.
pub proof fn lemma_split_parts(s: Seq<char>, sep: char)
    ensures
        split_of(s, sep).len() >= 1,
        forall|i: int|
            0 <= i < split_of(s, sep).len() ==> !(#[trigger] split_of(s, sep)[i]).contains(sep),
        forall|i: int, c: char|
            #![trigger split_of(s, sep)[i].contains(c)]
            0 <= i < split_of(s, sep).len() && split_of(s, sep)[i].contains(c) ==> s.contains(c),
    decreases s.len(),
{
    if s.len() > 0 {
        let front = s.drop_last();
        lemma_split_parts(front, sep);
        let before = split_of(front, sep);
        let parts = split_of(s, sep);
        assert(s[s.len() - 1] == s.last());
        assert forall|c: char| front.contains(c) implies s.contains(c) by {
            let i = choose|i: int| 0 <= i < front.len() && front[i] == c;
            assert(s[i] == c);
        }
        assert forall|i: int, c: char|
            #![trigger parts[i].contains(c)]
            0 <= i < parts.len() && parts[i].contains(c) implies s.contains(c) && c != sep by {
            let j = choose|j: int| 0 <= j < parts[i].len() && parts[i][j] == c;
            if s.last() == sep {
                if i < before.len() {
                    assert(parts[i] == before[i]);
                    assert(before[i].contains(c));
                }
            } else if i < before.len() - 1 {
                assert(parts[i] == before[i]);
                assert(before[i].contains(c));
            } else {
                assert(parts[i] == before.last().push(s.last()));
                if j < before.last().len() {
                    assert(before[i][j] == c);
                    assert(before[i].contains(c));
                }
            }
        }
        assert forall|i: int| 0 <= i < parts.len() implies !(#[trigger] parts[i]).contains(sep) by {
            if parts[i].contains(sep) {
                assert(s.contains(sep) && sep != sep);
            }
        }
    } else {
        assert forall|i: int| 0 <= i < split_of(s, sep).len() implies !(#[trigger] split_of(
            s,
            sep,
        )[i]).contains(sep) by {
            assert(split_of(s, sep)[i] == Seq::<char>::empty());
        }
    }
}

/// A text in which a character was replaced does not hold it, where the replacement does not.
pub proof fn lemma_replace_removes(s: Seq<char>, from: char, to: Seq<char>)
    requires
        !to.contains(from),
    ensures
        !replace_of(s, from, to).contains(from),
    decreases s.len(),
{
    if s.len() > 0 {
        lemma_replace_removes(s.drop_last(), from, to);
        let front = replace_of(s.drop_last(), from, to);
        let whole = replace_of(s, from, to);
        if whole.contains(from) {
            let i = choose|i: int| 0 <= i < whole.len() && whole[i] == from;
            if i < front.len() {
                assert(front[i] == from);
                assert(front.contains(from));
            } else if s.last() == from {
                assert(to[i - front.len()] == from);
                assert(to.contains(from));
            }
        }
    }
}

/// Replacing a character that does not occur changes nothing.
pub proof fn lemma_replace_absent(s: Seq<char>, from: char, to: Seq<char>)
    requires
        !s.contains(from),
    ensures
        replace_of(s, from, to) == s,
    decreases s.len(),
{
    if s.len() > 0 {
        let front = s.drop_last();
        assert(s[s.len() - 1] == s.last());
        assert forall|c: char| front.contains(c) implies s.contains(c) by {
            let i = choose|i: int| 0 <= i < front.len() && front[i] == c;
            assert(s[i] == c);
        }
        lemma_replace_absent(front, from, to);
        assert(front + seq![s.last()] == s);
    } else {
        assert(s == Seq::<char>::empty());
    }
}

proof fn lemma_filter_all<A>(s: Seq<A>, keep: spec_fn(A) -> bool)
    requires
        forall|i: int| 0 <= i < s.len() ==> keep(#[trigger] s[i]),
    ensures
        s.filter(keep) == s,
    decreases s.len(),
{
    reveal_with_fuel(Seq::filter, 1);
    if s.len() > 0 {
        let front = s.drop_last();
        assert forall|i: int| 0 <= i < front.len() implies keep(#[trigger] front[i]) by {
            assert(front[i] == s[i]);
        }
        lemma_filter_all(front, keep);
        assert(s.last() == s[s.len() - 1]);
        assert(front.push(s.last()) == s);
    }
}

proof fn lemma_filter_kept<A>(s: Seq<A>, keep: spec_fn(A) -> bool)
    ensures
        forall|i: int|
            0 <= i < s.filter(keep).len() ==> keep(#[trigger] s.filter(keep)[i]) && s.contains(
                s.filter(keep)[i],
            ),
    decreases s.len(),
{
    reveal_with_fuel(Seq::filter, 1);
    if s.len() > 0 {
        let front = s.drop_last();
        lemma_filter_kept(front, keep);
        let kept = s.filter(keep);
        let before = front.filter(keep);
        assert forall|i: int| 0 <= i < kept.len() implies keep(#[trigger] kept[i]) && s.contains(
            kept[i],
        ) by {
            if i < before.len() {
                assert(kept[i] == before[i]);
                let j = choose|j: int| 0 <= j < front.len() && front[j] == before[i];
                assert(s[j] == before[i]);
            } else {
                assert(s[s.len() - 1] == kept[i]);
            }
        }
    }
}

/// Whether `parts` are the components of some path: each is kept, and none holds a slash or a
/// backslash.
pub open spec fn are_components(parts: Seq<Seq<char>>) -> bool {
    forall|i: int|
        0 <= i < parts.len() ==> is_component(#[trigger] parts[i]) && !parts[i].contains('/')
            && !parts[i].contains('\\')
}

/// The components of a path are kept components: no empty one, no `.` or `..`, and none with a
/// slash or a backslash in it.
pub proof fn law_components(raw: Seq<char>)
    ensures
        are_components(components_of(raw)),
{
    reveal_strlit("/");
    let slashed = replace_of(raw, '\\', "/"@);
    let keep = |part: Seq<char>| is_component(part);
    assert(!("/"@).contains('\\'));
    lemma_replace_removes(raw, '\\', "/"@);
    lemma_split_parts(slashed, '/');
    lemma_filter_kept(split_of(slashed, '/'), keep);
    let parts = components_of(raw);
    let all = split_of(slashed, '/');
    assert forall|i: int| 0 <= i < parts.len() implies is_component(#[trigger] parts[i])
        && !parts[i].contains('/') && !parts[i].contains('\\') by {
        assert(keep(parts[i]));
        let j = choose|j: int| 0 <= j < all.len() && all[j] == parts[i];
        assert(!all[j].contains('/'));
        if all[j].contains('\\') {
            assert(slashed.contains('\\'));
        }
    }
}

/// A text joined from parts holds only characters of the parts and of the separator.
pub proof fn lemma_join_chars(parts: Seq<Seq<char>>, sep: Seq<char>, c: char)
    requires
        forall|i: int| 0 <= i < parts.len() ==> !(#[trigger] parts[i]).contains(c),
        !sep.contains(c),
    ensures
        !join_of(parts, sep).contains(c),
    decreases parts.len(),
{
    let whole = join_of(parts, sep);
    if parts.len() == 1 {
        assert(!parts[0].contains(c));
    } else if parts.len() > 1 {
        let front = parts.drop_last();
        assert forall|i: int| 0 <= i < front.len() implies !(#[trigger] front[i]).contains(c) by {
            assert(front[i] == parts[i]);
        }
        lemma_join_chars(front, sep, c);
        assert(!parts[parts.len() - 1].contains(c));
        let joined = join_of(front, sep);
        if whole.contains(c) {
            let i = choose|i: int| 0 <= i < whole.len() && whole[i] == c;
            if i < joined.len() {
                assert(joined[i] == c);
            } else if i < joined.len() + sep.len() {
                assert(sep[i - joined.len()] == c);
            } else {
                assert(parts.last()[i - joined.len() - sep.len()] == c);
            }
        }
    }
}

/// Components that were joined by slashes are read back unchanged.
pub proof fn lemma_components_of_joined(parts: Seq<Seq<char>>)
    requires
        are_components(parts),
    ensures
        components_of(join_of(parts, "/"@)) == parts,
{
    reveal_strlit("/");
    assert("/"@ == seq!['/']);
    let joined = join_of(parts, "/"@);
    let keep = |part: Seq<char>| is_component(part);
    assert forall|i: int| 0 <= i < parts.len() implies !(#[trigger] parts[i]).contains('\\') by {
        assert(is_component(parts[i]));
    }
    assert forall|i: int| 0 <= i < parts.len() implies !(#[trigger] parts[i]).contains('/') by {
        assert(is_component(parts[i]));
    }
    lemma_join_chars(parts, "/"@, '\\');
    lemma_replace_absent(joined, '\\', "/"@);
    if parts.len() == 0 {
        reveal_with_fuel(Seq::filter, 2);
        assert(split_of(joined, '/') == seq![Seq::<char>::empty()]);
        assert(seq![Seq::<char>::empty()].drop_last() == Seq::<Seq<char>>::empty());
        assert(components_of(joined) == Seq::<Seq<char>>::empty());
    } else {
        lemma_split_join(parts, '/');
        lemma_filter_all(parts, keep);
    }
}

/// Cleaning a clean path changes nothing.
pub proof fn law_clean_path_idempotent(raw: Seq<char>)
    ensures
        components_of(clean_path_of(raw)) == components_of(raw),
        clean_path_of(clean_path_of(raw)) == clean_path_of(raw),
{
    law_components(raw);
    lemma_components_of_joined(components_of(raw));
}

/// A slash behind a clean path adds no component.
pub proof fn lemma_clean_path_with_slash(raw: Seq<char>)
    requires
        clean_path_of(raw).len() > 0,
    ensures
        components_of(clean_path_of(raw) + "/"@) == components_of(raw),
        clean_path_of(clean_path_of(raw) + "/"@) == clean_path_of(raw),
{
    reveal_strlit("/");
    assert("/"@ == seq!['/']);
    law_components(raw);
    let parts = components_of(raw);
    let keep = |part: Seq<char>| is_component(part);
    let joined = clean_path_of(raw);
    let slashed = joined + "/"@;
    assert forall|i: int| 0 <= i < parts.len() implies !(#[trigger] parts[i]).contains('\\') by {
        assert(is_component(parts[i]));
    }
    assert forall|i: int| 0 <= i < parts.len() implies !(#[trigger] parts[i]).contains('/') by {
        assert(is_component(parts[i]));
    }
    lemma_join_chars(parts, "/"@, '\\');
    if slashed.contains('\\') {
        let i = choose|i: int| 0 <= i < slashed.len() && slashed[i] == '\\';
        assert(i < joined.len());
        assert(joined[i] == '\\');
    }
    lemma_replace_absent(slashed, '\\', "/"@);
    lemma_split_join(parts, '/');
    let empty = Seq::<char>::empty();
    assert(slashed == joined.push('/') + empty);
    assert(!empty.contains('/'));
    lemma_split_append(joined, empty, '/');
    lemma_filter_all(parts, keep);
    reveal_with_fuel(Seq::filter, 1);
    let all = split_of(slashed, '/');
    assert(all == parts.push(empty));
    assert(all.drop_last() == parts);
    assert(!keep(all.last()));
}

proof fn lemma_split_concat(a: Seq<char>, b: Seq<char>, sep: char)
    ensures
        split_of(a.push(sep) + b, sep) == split_of(a, sep) + split_of(b, sep),
    decreases b.len(),
{
    let whole = a.push(sep) + b;
    let first = split_of(a, sep);
    if b.len() == 0 {
        assert(whole == a.push(sep));
        assert(whole.drop_last() == a);
        assert(first.push(Seq::<char>::empty()) == first + seq![Seq::<char>::empty()]);
    } else {
        let fewer = b.drop_last();
        lemma_split_concat(a, fewer, sep);
        lemma_split_parts(fewer, sep);
        assert(whole.drop_last() == a.push(sep) + fewer);
        assert(whole.last() == b.last());
        let second = split_of(fewer, sep);
        let both = first + second;
        if b.last() == sep {
            assert(both.push(Seq::<char>::empty()) == first + second.push(Seq::<char>::empty()));
        } else {
            assert(both.last() == second.last());
            assert(both.drop_last() == first + second.drop_last());
            let last = second.last().push(b.last());
            assert(both.drop_last().push(last) == first + second.drop_last().push(last));
        }
    }
}

/// A path keeps each component and their order: the components of two paths with a slash or a
/// backslash between them are those of the first and then those of the second.
pub proof fn law_paths_add_up(a: Seq<char>, b: Seq<char>)
    ensures
        components_of(a.push('/') + b) == components_of(a) + components_of(b),
        components_of(a.push('\\') + b) == components_of(a) + components_of(b),
{
    reveal_strlit("/");
    let keep = |part: Seq<char>| is_component(part);
    let front = replace_of(a, '\\', "/"@);
    let back = replace_of(b, '\\', "/"@);
    assert(seq!['/'] == "/"@);
    crate::metrics::lemma_replace_one('/', '\\', "/"@);
    crate::metrics::lemma_replace_one('\\', '\\', "/"@);
    crate::metrics::lemma_replace_concat(a, seq!['/'], '\\', "/"@);
    crate::metrics::lemma_replace_concat(a, seq!['\\'], '\\', "/"@);
    crate::metrics::lemma_replace_concat(a.push('/'), b, '\\', "/"@);
    crate::metrics::lemma_replace_concat(a.push('\\'), b, '\\', "/"@);
    assert(a + seq!['/'] == a.push('/'));
    assert(a + seq!['\\'] == a.push('\\'));
    assert(front + "/"@ == front.push('/'));
    lemma_split_concat(front, back, '/');
    Seq::filter_distributes_over_add(split_of(front, '/'), split_of(back, '/'), keep);
}

/// A name without slashes is its own and only component; no name, `.` and `..` give none.
pub proof fn law_single_components(part: Seq<char>)
    requires
        !part.contains('/'),
        !part.contains('\\'),
    ensures
        part.len() > 0 && part != "."@ && part != ".."@ ==> components_of(part) == seq![part],
        part.len() == 0 || part == "."@ || part == ".."@ ==> components_of(part).len() == 0,
        clean_path_of(part) == (if part == "."@ || part == ".."@ {
            Seq::<char>::empty()
        } else {
            part
        }),
{
    let keep = |kept: Seq<char>| is_component(kept);
    lemma_replace_absent(part, '\\', "/"@);
    lemma_split_plain(part, '/');
    reveal_with_fuel(Seq::filter, 2);
    assert(seq![part].drop_last() == Seq::<Seq<char>>::empty());
    assert(seq![part].last() == part);
    if is_component(part) {
        assert(seq![part].filter(keep) == seq![part]);
    } else {
        assert(seq![part].filter(keep) == Seq::<Seq<char>>::empty());
    }
    if part.len() == 0 {
        assert(part == Seq::<char>::empty());
    }
}

}
