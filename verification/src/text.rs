//! Strings as sequences of characters.
//!
//! Every contract of this crate speaks of a string through its view, a
//! `Seq<char>`. This module holds the operations on strings that the rest of
//! the crate is written with, each with the sequence it yields.

use vstd::prelude::*;

verus! {

broadcast use vstd::string::group_string_axioms;

/// `String::push`: appends one character.
pub assume_specification[ String::push ](string: &mut String, ch: char)
    ensures
        final(string)@ == old(string)@.push(ch),
;

/// `String::push_str`: appends a string slice.
pub assume_specification[ String::push_str ](string: &mut String, other: &str)
    ensures
        final(string)@ == old(string)@ + other@,
;

/// The characters of a string slice.
pub fn chars_of(text: &str) -> (chars: Vec<char>)
    ensures
        chars@ == text@,
{
    let mut chars: Vec<char> = Vec::new();
    for c in it: text.chars()
        invariant
            it.seq() == text@,
            chars@ == text@.take(it.index() as int),
    {
        chars.push(c);
        assert(text@.take(it.index() as int + 1) == text@.take(it.index() as int).push(c));
    }
    assert(text@.take(text@.len() as int) == text@);
    chars
}

/// The string made of the characters from `from` up to, not including, `to`.
pub fn string_of(chars: &Vec<char>, from: usize, to: usize) -> (text: String)
    requires
        from <= to <= chars@.len(),
    ensures
        text@ == chars@.subrange(from as int, to as int),
{
    let mut text: String = String::new();
    let mut i: usize = from;
    while i < to
        invariant
            from <= i <= to <= chars@.len(),
            text@ == chars@.subrange(from as int, i as int),
        decreases to - i,
    {
        text.push(chars[i]);
        i = i + 1;
        assert(chars@.subrange(from as int, i as int) == chars@.subrange(from as int, i - 1).push(
            chars@[i - 1],
        ));
    }
    text
}

/// Whether two strings hold the same characters.
pub fn same(a: &str, b: &str) -> (r: bool)
    ensures
        r == (a@ == b@),
{
    let left: Vec<char> = chars_of(a);
    let right: Vec<char> = chars_of(b);
    if left.len() != right.len() {
        return false;
    }
    let mut i: usize = 0;
    while i < left.len()
        invariant
            i <= left@.len(),
            left@.len() == right@.len(),
            forall|j: int| 0 <= j < i ==> left@[j] == right@[j],
            left@ == a@,
            right@ == b@,
        decreases left@.len() - i,
    {
        if left[i] != right[i] {
            assert(left@[i as int] != right@[i as int]);
            return false;
        }
        i = i + 1;
    }
    assert(left@ == right@);
    true
}

/// `pattern` occurs in `s` at position `at`.
pub open spec fn occurs_at(s: Seq<char>, pattern: Seq<char>, at: int) -> bool {
    0 <= at && at + pattern.len() <= s.len() && s.subrange(at, at + pattern.len()) == pattern
}

/// The first position from `from` on at which `pattern` occurs, or -1.
pub open spec fn find_from(s: Seq<char>, pattern: Seq<char>, from: int) -> int
    decreases s.len() - from + 1,
{
    if from + pattern.len() > s.len() {
        -1
    } else if occurs_at(s, pattern, from) {
        from
    } else {
        find_from(s, pattern, from + 1)
    }
}

/// What `find_from` promises: the position returned is the first one.
pub proof fn find_from_is_first(s: Seq<char>, pattern: Seq<char>, from: int)
    requires
        0 <= from,
    ensures
        find_from(s, pattern, from) >= 0 ==> {
            &&& from <= find_from(s, pattern, from)
            &&& occurs_at(s, pattern, find_from(s, pattern, from))
            &&& forall|i: int|
                from <= i < find_from(s, pattern, from) ==> !occurs_at(s, pattern, i)
        },
        find_from(s, pattern, from) < 0 ==> {
            &&& find_from(s, pattern, from) == -1
            &&& forall|i: int| from <= i ==> !occurs_at(s, pattern, i)
        },
    decreases s.len() - from + 1,
{
    if from + pattern.len() <= s.len() && !occurs_at(s, pattern, from) {
        find_from_is_first(s, pattern, from + 1);
    }
}

fn matches_at(s: &Vec<char>, pattern: &Vec<char>, at: usize) -> (r: bool)
    requires
        at <= s@.len(),
    ensures
        r == occurs_at(s@, pattern@, at as int),
{
    if s.len() - at < pattern.len() {
        return false;
    }
    let mut i: usize = 0;
    while i < pattern.len()
        invariant
            i <= pattern@.len(),
            at + pattern@.len() <= s@.len() <= usize::MAX,
            forall|j: int| 0 <= j < i ==> s@[at + j] == pattern@[j],
        decreases pattern@.len() - i,
    {
        if s[at + i] != pattern[i] {
            assert(s@.subrange(at as int, at + pattern@.len())[i as int] != pattern@[i as int]);
            return false;
        }
        i = i + 1;
    }
    assert(s@.subrange(at as int, at + pattern@.len()) == pattern@);
    true
}

/// Finds the first occurrence of `pattern` from `from` on.
pub fn find(s: &Vec<char>, pattern: &Vec<char>, from: usize) -> (r: Option<usize>)
    requires
        from <= s@.len(),
    ensures
        match r {
            Some(i) => i == find_from(s@, pattern@, from as int) && i + pattern@.len() <= s@.len()
                && from <= i,
            None => find_from(s@, pattern@, from as int) == -1,
        },
{
    let mut i: usize = from;
    while s.len() - i >= pattern.len()
        invariant
            from <= i <= s@.len(),
            find_from(s@, pattern@, i as int) == find_from(s@, pattern@, from as int),
        decreases s@.len() - i,
    {
        if matches_at(s, pattern, i) {
            return Some(i);
        }
        assert(i < s@.len()) by {
            if i == s@.len() {
                assert(s@.subrange(i as int, i as int) == pattern@);
            }
        }
        i = i + 1;
    }
    None
}

/// The pieces of `s` from `start` on, cut at every occurrence of `pattern`.
pub open spec fn split_from(s: Seq<char>, pattern: Seq<char>, start: int) -> Seq<Seq<char>>
    decreases s.len() - start,
{
    let i = find_from(s, pattern, start);
    if start <= i && i + pattern.len() <= s.len() && pattern.len() > 0 {
        seq![s.subrange(start, i)] + split_from(s, pattern, i + pattern.len())
    } else {
        seq![s.skip(start)]
    }
}

/// The pieces of `s`, cut at every occurrence of `pattern`.
pub open spec fn split_seq(s: Seq<char>, pattern: Seq<char>) -> Seq<Seq<char>> {
    split_from(s, pattern, 0)
}

/// Cuts a string at every occurrence of `pattern`.
pub fn split(text: &str, pattern: &str) -> (parts: Vec<String>)
    requires
        pattern@.len() > 0,
    ensures
        parts.deep_view() == split_seq(text@, pattern@),
        parts@.len() > 0,
{
    let s: Vec<char> = chars_of(text);
    let p: Vec<char> = chars_of(pattern);
    let n: usize = s.len();
    let mut parts: Vec<String> = Vec::new();
    let mut start: usize = 0;
    loop
        invariant_except_break
            parts.deep_view() + split_from(s@, p@, start as int) == split_seq(s@, p@),
        invariant
            s@ == text@,
            p@ == pattern@,
            p@.len() > 0,
            start <= n == s@.len(),
        ensures
            parts.deep_view() == split_seq(s@, p@),
            parts@.len() > 0,
        decreases s@.len() - start,
    {
        match find(&s, &p, start) {
            Some(i) => {
                let ghost before = parts.deep_view();
                let ghost piece = s@.subrange(start as int, i as int);
                parts.push(string_of(&s, start, i));
                assert(parts.deep_view() == before.push(piece));
                assert(before + (seq![piece] + split_from(s@, p@, i + p@.len())) == before.push(
                    piece,
                ) + split_from(s@, p@, i + p@.len()));
                start = i + p.len();
            },
            None => {
                let ghost before = parts.deep_view();
                parts.push(string_of(&s, start, n));
                assert(parts.deep_view() == before.push(s@.skip(start as int)));
                assert(before + seq![s@.skip(start as int)] == before.push(s@.skip(start as int)));
                break;
            },
        }
    }
    parts
}

/// The parts one after another, with `separator` between them.
pub open spec fn join_seq(parts: Seq<Seq<char>>, separator: Seq<char>) -> Seq<char>
    decreases parts.len(),
{
    if parts.len() == 0 {
        Seq::empty()
    } else if parts.len() == 1 {
        parts[0]
    } else {
        join_seq(parts.drop_last(), separator) + separator + parts.last()
    }
}

/// Puts the parts from `from` up to `to` one after another, with `separator`
/// between them.
pub fn join(parts: &Vec<String>, from: usize, to: usize, separator: &str) -> (r: String)
    requires
        from <= to <= parts@.len(),
    ensures
        r@ == join_seq(parts.deep_view().subrange(from as int, to as int), separator@),
{
    let mut r: String = String::new();
    let ghost all = parts.deep_view();
    let mut i: usize = from;
    while i < to
        invariant
            from <= i <= to <= parts@.len(),
            all == parts.deep_view(),
            r@ == join_seq(all.subrange(from as int, i as int), separator@),
        decreases to - i,
    {
        assert(all.subrange(from as int, i + 1).drop_last() == all.subrange(from as int, i as int));
        if i > from {
            r.push_str(separator);
        }
        r.push_str(parts[i].as_str());
        i = i + 1;
    }
    r
}

/// Cutting and joining again at the same pattern changes nothing.
pub proof fn split_joins_back(s: Seq<char>, pattern: Seq<char>)
    ensures
        join_seq(split_seq(s, pattern), pattern) == s,
        split_seq(s, pattern).len() > 0,
{
    split_from_joins_back(s, pattern, 0);
    assert(s.skip(0) == s);
}

proof fn split_from_joins_back(s: Seq<char>, pattern: Seq<char>, start: int)
    requires
        0 <= start <= s.len(),
    ensures
        join_seq(split_from(s, pattern, start), pattern) == s.skip(start),
        split_from(s, pattern, start).len() > 0,
    decreases s.len() - start,
{
    let i = find_from(s, pattern, start);
    if start <= i && i + pattern.len() <= s.len() && pattern.len() > 0 {
        find_from_is_first(s, pattern, start);
        split_from_joins_back(s, pattern, i + pattern.len());
        let rest = split_from(s, pattern, i + pattern.len());
        join_front(s.subrange(start, i), rest, pattern);
        assert(s.subrange(i, i + pattern.len()) == pattern);
        assert(s.subrange(start, i) + pattern + s.skip(i + pattern.len()) == s.skip(start));
    }
}

/// Joining with one more part in front.
pub proof fn join_front(first: Seq<char>, rest: Seq<Seq<char>>, separator: Seq<char>)
    requires
        rest.len() > 0,
    ensures
        join_seq(seq![first] + rest, separator) == first + separator + join_seq(rest, separator),
    decreases rest.len(),
{
    let all = seq![first] + rest;
    if rest.len() == 1 {
        assert(all.drop_last() == seq![first]);
        assert(join_seq(all.drop_last(), separator) == first);
    } else {
        join_front(first, rest.drop_last(), separator);
        assert(all.drop_last() == seq![first] + rest.drop_last());
        assert(first + separator + (join_seq(rest.drop_last(), separator) + separator + rest.last())
            == (first + separator + join_seq(rest.drop_last(), separator)) + separator
            + rest.last());
    }
}

/// Joining two lists of parts one after the other.
pub proof fn join_append(front: Seq<Seq<char>>, back: Seq<Seq<char>>, separator: Seq<char>)
    requires
        front.len() > 0,
        back.len() > 0,
    ensures
        join_seq(front + back, separator) == join_seq(front, separator) + separator + join_seq(
            back,
            separator,
        ),
    decreases front.len(),
{
    let first = front[0];
    let rest = front.skip(1);
    assert(front == seq![first] + rest);
    if rest.len() == 0 {
        join_front(first, back, separator);
        assert(front + back == seq![first] + back);
        assert(front.drop_last() == Seq::<Seq<char>>::empty());
        assert(join_seq(front, separator) == first);
    } else {
        join_append(rest, back, separator);
        join_front(first, rest, separator);
        join_front(first, rest + back, separator);
        assert(front + back == seq![first] + (rest + back));
        assert(first + separator + (join_seq(rest, separator) + separator + join_seq(
            back,
            separator,
        )) == (first + separator + join_seq(rest, separator)) + separator + join_seq(
            back,
            separator,
        ));
    }
}

proof fn find_from_shifts(s: Seq<char>, pattern: Seq<char>, start: int, k: int)
    requires
        0 <= start <= s.len(),
        0 <= k,
    ensures
        find_from(s, pattern, start + k) == (if find_from(s.skip(start), pattern, k) < 0 {
            -1
        } else {
            find_from(s.skip(start), pattern, k) + start
        }),
    decreases s.len() - start - k + 1,
{
    let tail = s.skip(start);
    if k + pattern.len() <= tail.len() {
        assert(tail.subrange(k, k + pattern.len()) == s.subrange(
            start + k,
            start + k + pattern.len(),
        ));
        if !occurs_at(tail, pattern, k) {
            find_from_shifts(s, pattern, start, k + 1);
        }
    }
}

proof fn split_from_shifts(s: Seq<char>, pattern: Seq<char>, start: int, k: int)
    requires
        0 <= start <= s.len(),
        0 <= k <= s.len() - start,
    ensures
        split_from(s, pattern, start + k) == split_from(s.skip(start), pattern, k),
    decreases s.len() - start - k,
{
    let tail = s.skip(start);
    find_from_shifts(s, pattern, start, k);
    find_from_is_first(tail, pattern, k);
    let i = find_from(tail, pattern, k);
    if i >= 0 && pattern.len() > 0 {
        split_from_shifts(s, pattern, start, i + pattern.len());
        assert(tail.subrange(k, i) == s.subrange(start + k, start + i));
        assert(start + (i + pattern.len()) == (start + i) + pattern.len());
    } else {
        assert(tail.skip(k) == s.skip(start + k));
    }
}

/// No part that a cut at a single character leaves holds that character.
pub proof fn split_parts_lack(s: Seq<char>, c: char, start: int, i: int)
    requires
        0 <= start <= s.len(),
        0 <= i < split_from(s, seq![c], start).len(),
    ensures
        !split_from(s, seq![c], start)[i].contains(c),
    decreases s.len() - start,
{
    let pattern = seq![c];
    let at = find_from(s, pattern, start);
    find_from_is_first(s, pattern, start);
    let end = if at >= 0 {
        at
    } else {
        s.len() as int
    };
    let first = s.subrange(start, end);
    assert(!first.contains(c)) by {
        if first.contains(c) {
            let j = choose|j: int| 0 <= j < first.len() && first[j] == c;
            assert(s.subrange(start + j, start + j + 1) == pattern);
            assert(occurs_at(s, pattern, start + j));
        }
    }
    if at >= 0 {
        if i > 0 {
            split_parts_lack(s, c, at + 1, i - 1);
        }
    } else {
        assert(s.skip(start) == first);
    }
}

/// Parts that lack a character are what a cut at that character makes of
/// them joined by it.
pub proof fn join_splits_back(parts: Seq<Seq<char>>, c: char)
    requires
        parts.len() > 0,
        forall|i: int| 0 <= i < parts.len() ==> !(#[trigger] parts[i]).contains(c),
    ensures
        split_seq(join_seq(parts, seq![c]), seq![c]) == parts,
    decreases parts.len(),
{
    let pattern = seq![c];
    let s = join_seq(parts, pattern);
    find_from_is_first(s, pattern, 0);
    let at = find_from(s, pattern, 0);
    if parts.len() == 1 {
        if at >= 0 {
            assert(s.subrange(at, at + 1)[0] == c);
            assert(parts[0].contains(c));
        }
        assert(s.skip(0) == s);
    } else {
        let first = parts[0];
        let rest = parts.skip(1);
        assert(parts == seq![first] + rest);
        join_front(first, rest, pattern);
        let n = first.len() as int;
        assert(s.subrange(n, n + 1) == pattern);
        assert(occurs_at(s, pattern, n));
        assert(at == n) by {
            if at < n {
                assert(s.subrange(at, at + 1)[0] == c);
                assert(first[at] == c);
                assert(first.contains(c));
            }
        }
        assert(s.skip(n + 1) == join_seq(rest, pattern));
        split_from_shifts(s, pattern, n + 1, 0);
        assert forall|i: int| 0 <= i < rest.len() implies !(#[trigger] rest[i]).contains(c) by {
            assert(rest[i] == parts[i + 1]);
        }
        join_splits_back(rest, c);
        assert(s.subrange(0, n) == first);
    }
}

/// `s` with every occurrence of `pattern` replaced.
pub open spec fn replace_seq(s: Seq<char>, pattern: Seq<char>, with: Seq<char>) -> Seq<char> {
    join_seq(split_seq(s, pattern), with)
}

/// Replaces every occurrence of `pattern`.
pub fn replace(text: &str, pattern: &str, with: &str) -> (r: String)
    requires
        pattern@.len() > 0,
    ensures
        r@ == replace_seq(text@, pattern@, with@),
{
    let parts: Vec<String> = split(text, pattern);
    let n: usize = parts.len();
    assert(parts.deep_view().subrange(0, n as int) == parts.deep_view());
    join(&parts, 0, n, with)
}

/// Whether `text` begins with `prefix`.
pub fn starts_with(text: &str, prefix: &str) -> (r: bool)
    ensures
        r == prefix@.is_prefix_of(text@),
{
    let s: Vec<char> = chars_of(text);
    let p: Vec<char> = chars_of(prefix);
    matches_at(&s, &p, 0)
}

/// Whether `text` ends with `suffix`.
pub fn ends_with(text: &str, suffix: &str) -> (r: bool)
    ensures
        r == suffix@.is_suffix_of(text@),
{
    let s: Vec<char> = chars_of(text);
    let p: Vec<char> = chars_of(suffix);
    if s.len() < p.len() {
        return false;
    }
    matches_at(&s, &p, s.len() - p.len())
}

/// `text` without `prefix`, where it begins with it.
pub open spec fn strip_prefix_seq(s: Seq<char>, prefix: Seq<char>) -> Option<Seq<char>> {
    if prefix.is_prefix_of(s) {
        Some(s.skip(prefix.len() as int))
    } else {
        None
    }
}

/// Takes `prefix` off the front of `text`.
pub fn strip_prefix(text: &str, prefix: &str) -> (r: Option<String>)
    ensures
        r.deep_view() == strip_prefix_seq(text@, prefix@),
{
    let s: Vec<char> = chars_of(text);
    let p: Vec<char> = chars_of(prefix);
    if matches_at(&s, &p, 0) {
        Some(string_of(&s, p.len(), s.len()))
    } else {
        None
    }
}

/// `text` without `suffix`, where it ends with it.
pub open spec fn strip_suffix_seq(s: Seq<char>, suffix: Seq<char>) -> Option<Seq<char>> {
    if suffix.is_suffix_of(s) {
        Some(s.take(s.len() - suffix.len()))
    } else {
        None
    }
}

/// Takes `suffix` off the end of `text`.
pub fn strip_suffix(text: &str, suffix: &str) -> (r: Option<String>)
    ensures
        r.deep_view() == strip_suffix_seq(text@, suffix@),
{
    let s: Vec<char> = chars_of(text);
    let p: Vec<char> = chars_of(suffix);
    if s.len() < p.len() {
        return None;
    }
    if matches_at(&s, &p, s.len() - p.len()) {
        Some(string_of(&s, 0, s.len() - p.len()))
    } else {
        None
    }
}

/// Whether `text` holds the character `wanted`.
pub fn contains_char(text: &str, wanted: char) -> (r: bool)
    ensures
        r == text@.contains(wanted),
{
    let s: Vec<char> = chars_of(text);
    let mut i: usize = 0;
    while i < s.len()
        invariant
            i <= s@.len(),
            s@ == text@,
            forall|j: int| 0 <= j < i ==> s@[j] != wanted,
        decreases s@.len() - i,
    {
        if s[i] == wanted {
            return true;
        }
        i = i + 1;
    }
    false
}

/// One string after another.
pub fn concat(a: &str, b: &str) -> (r: String)
    ensures
        r@ == a@ + b@,
{
    let mut r: String = a.to_owned();
    r.push_str(b);
    r
}

/// Three strings after one another.
pub fn concat3(a: &str, b: &str, c: &str) -> (r: String)
    ensures
        r@ == a@ + b@ + c@,
{
    let mut r: String = concat(a, b);
    r.push_str(c);
    r
}

/// Whether a text is among others.
pub fn contains_text(texts: &Vec<String>, text: &str) -> (r: bool)
    ensures
        r == texts.deep_view().contains(text@),
{
    let ghost all = texts.deep_view();
    let mut i: usize = 0;
    while i < texts.len()
        invariant
            i <= texts@.len(),
            all == texts.deep_view(),
            forall|j: int| 0 <= j < i ==> all[j] != text@,
        decreases texts@.len() - i,
    {
        assert(all[i as int] == texts@[i as int]@);
        if same(texts[i].as_str(), text) {
            return true;
        }
        i = i + 1;
    }
    false
}

/// The texts that are not among others, in order.
pub open spec fn texts_without(texts: Seq<Seq<char>>, others: Seq<Seq<char>>) -> Seq<Seq<char>> {
    texts.filter(|text: Seq<char>| !others.contains(text))
}

/// The texts that are not among others.
pub fn without_texts(texts: &Vec<String>, others: &Vec<String>) -> (r: Vec<String>)
    ensures
        r.deep_view() == texts_without(texts.deep_view(), others.deep_view()),
{
    let ghost all = texts.deep_view();
    let ghost is_kept = |text: Seq<char>| !others.deep_view().contains(text);
    let mut r: Vec<String> = Vec::new();
    let mut i: usize = 0;
    proof {
        reveal(Seq::filter);
        assert(r.deep_view() == all.take(0).filter(is_kept));
    }
    while i < texts.len()
        invariant
            i <= texts@.len(),
            all == texts.deep_view(),
            is_kept == (|text: Seq<char>| !others.deep_view().contains(text)),
            r.deep_view() == all.take(i as int).filter(is_kept),
        decreases texts@.len() - i,
    {
        let ghost before = r.deep_view();
        proof {
            reveal(Seq::filter);
            assert(all.take(i + 1).drop_last() == all.take(i as int));
            assert(all[i as int] == texts@[i as int]@);
        }
        if !contains_text(others, texts[i].as_str()) {
            r.push(texts[i].clone());
            assert(r.deep_view() == before.push(all[i as int]));
        }
        i = i + 1;
    }
    assert(all.take(all.len() as int) == all);
    r
}

/// The white-space property of a character.
pub uninterp spec fn white_space(c: char) -> bool;

/// `char::is_whitespace`: the Unicode `White_Space` property. Among the ASCII
/// characters these are the space and the controls from tab to carriage return.
#[verifier::external_body]
fn is_white_space(c: char) -> (r: bool)
    ensures
        r == white_space(c),
        (c as u32) < 128 ==> r == (c == ' ' || 9 <= c as u32 <= 13),
{
    c.is_whitespace()
}

/// `s` without the white space at its start.
pub open spec fn trim_start_seq(s: Seq<char>) -> Seq<char>
    decreases s.len(),
{
    if s.len() > 0 && white_space(s[0]) {
        trim_start_seq(s.skip(1))
    } else {
        s
    }
}

/// `s` without the white space at its end.
pub open spec fn trim_end_seq(s: Seq<char>) -> Seq<char>
    decreases s.len(),
{
    if s.len() > 0 && white_space(s.last()) {
        trim_end_seq(s.drop_last())
    } else {
        s
    }
}

/// `s` without the white space at either end.
pub open spec fn trim_seq(s: Seq<char>) -> Seq<char> {
    trim_end_seq(trim_start_seq(s))
}

/// Takes the white space off both ends.
pub fn trim(text: &str) -> (r: String)
    ensures
        r@ == trim_seq(text@),
{
    let s: Vec<char> = chars_of(text);
    let mut from: usize = 0;
    assert(s@.skip(0) == text@);
    while from < s.len() && is_white_space(s[from])
        invariant
            from <= s@.len(),
            s@ == text@,
            trim_start_seq(s@.skip(from as int)) == trim_start_seq(text@),
        ensures
            from <= s@.len(),
            s@.skip(from as int) == trim_start_seq(text@),
        decreases s@.len() - from,
    {
        assert(s@.skip(from as int).skip(1) == s@.skip(from + 1));
        from = from + 1;
    }
    let mut to: usize = s.len();
    assert(s@.subrange(from as int, to as int) == s@.skip(from as int));
    while from < to && is_white_space(s[to - 1])
        invariant
            from <= to <= s@.len(),
            trim_end_seq(s@.subrange(from as int, to as int)) == trim_seq(text@),
        ensures
            from <= to <= s@.len(),
            s@.subrange(from as int, to as int) == trim_seq(text@),
        decreases to - from,
    {
        assert(s@.subrange(from as int, to as int).drop_last() == s@.subrange(
            from as int,
            to - 1,
        ));
        to = to - 1;
    }
    string_of(&s, from, to)
}

/// Takes the white space off the end.
pub fn trim_end(text: &str) -> (r: String)
    ensures
        r@ == trim_end_seq(text@),
{
    let s: Vec<char> = chars_of(text);
    let mut to: usize = s.len();
    assert(s@.take(to as int) == s@);
    while to > 0 && is_white_space(s[to - 1])
        invariant
            to <= s@.len(),
            trim_end_seq(s@.take(to as int)) == trim_end_seq(text@),
        ensures
            to <= s@.len(),
            s@.take(to as int) == trim_end_seq(text@),
        decreases to,
    {
        assert(s@.take(to as int).drop_last() == s@.take(to - 1));
        to = to - 1;
    }
    assert(s@.subrange(0, to as int) == s@.take(to as int));
    string_of(&s, 0, to)
}

/// A line without one carriage return at its end.
pub open spec fn without_return(line: Seq<char>) -> Seq<char> {
    if line.len() > 0 && line.last() == '\r' {
        line.drop_last()
    } else {
        line
    }
}

/// The lines of `s`. A line ends with a line feed, which may follow a carriage
/// return; the end of the last line may be missing.
pub open spec fn lines_seq(s: Seq<char>) -> Seq<Seq<char>> {
    let pieces = split_seq(s, "\n"@);
    let ended = pieces.drop_last().map_values(|line: Seq<char>| without_return(line));
    if pieces.last().len() == 0 {
        ended
    } else {
        ended.push(pieces.last())
    }
}

/// Cuts a text into its lines.
pub fn lines(text: &str) -> (r: Vec<String>)
    ensures
        r.deep_view() == lines_seq(text@),
{
    proof {
        reveal_strlit("\n");
        reveal_strlit("\r");
    }
    let pieces: Vec<String> = split(text, "\n");
    let ghost model = pieces.deep_view();
    let last: usize = pieces.len() - 1;
    let mut r: Vec<String> = Vec::new();
    let mut i: usize = 0;
    while i < last
        invariant
            i <= last,
            last == pieces@.len() - 1,
            model == pieces.deep_view(),
            "\r"@ == seq!['\r'],
            r.deep_view() == model.take(i as int).map_values(|line: Seq<char>| without_return(line)),
        decreases last - i,
    {
        let ghost before = r.deep_view();
        let line: String = match strip_suffix(pieces[i].as_str(), "\r") {
            Some(line) => line,
            None => pieces[i].clone(),
        };
        assert(line@ == without_return(model[i as int])) by {
            let whole = model[i as int];
            if "\r"@.is_suffix_of(whole) {
                assert(whole.last() == whole.subrange(whole.len() - 1, whole.len() as int)[0]);
                assert(whole.take(whole.len() - 1) == whole.drop_last());
            } else if whole.len() > 0 {
                assert(whole.last() != '\r') by {
                    if whole.last() == '\r' {
                        assert(whole.subrange(whole.len() - 1, whole.len() as int) == "\r"@);
                    }
                }
            }
        }
        r.push(line);
        assert(r.deep_view() == before.push(line@));
        assert(model.take(i + 1).map_values(|line: Seq<char>| without_return(line)) == model.take(
            i as int,
        ).map_values(|line: Seq<char>| without_return(line)).push(without_return(model[i as int])));
        i = i + 1;
    }
    assert(model.take(last as int) == model.drop_last());
    let ghost before = r.deep_view();
    if !pieces[last].as_str().is_empty() {
        r.push(pieces[last].clone());
        assert(r.deep_view() == before.push(model.last()));
    }
    r
}

/// The words of `s`: what stands between white space.
pub open spec fn words_seq(s: Seq<char>) -> Seq<Seq<char>>
    decreases s.len(),
{
    if s.len() == 0 {
        Seq::empty()
    } else {
        let words = words_seq(s.drop_last());
        if white_space(s.last()) {
            words
        } else if s.len() == 1 || white_space(s[s.len() - 2]) {
            words.push(seq![s.last()])
        } else {
            words.drop_last().push(words.last().push(s.last()))
        }
    }
}

/// Cuts a text into its words.
pub fn words(text: &str) -> (r: Vec<String>)
    ensures
        r.deep_view() == words_seq(text@),
{
    let s: Vec<char> = chars_of(text);
    let mut r: Vec<String> = Vec::new();
    let mut word: String = String::new();
    let mut i: usize = 0;
    assert(s@.take(0) == Seq::<char>::empty());
    while i < s.len()
        invariant
            i <= s@.len(),
            s@ == text@,
            word@.len() > 0 <==> (i > 0 && !white_space(s@[i - 1])),
            words_seq(s@.take(i as int)) == (if word@.len() > 0 {
                r.deep_view().push(word@)
            } else {
                r.deep_view()
            }),
        decreases s@.len() - i,
    {
        let ghost done = r.deep_view();
        let ghost so_far = word@;
        assert(s@.take(i + 1).drop_last() == s@.take(i as int));
        assert(i > 0 ==> s@.take(i + 1)[i - 1] == s@[i - 1]);
        if is_white_space(s[i]) {
            if !word.as_str().is_empty() {
                r.push(word);
                word = String::new();
                assert(r.deep_view() == done.push(so_far));
            }
        } else {
            word.push(s[i]);
            assert(done.push(so_far).drop_last() == done);
            assert(so_far.len() == 0 ==> word@ == seq![s@[i as int]]);
        }
        i = i + 1;
    }
    assert(s@.take(s@.len() as int) == s@);
    if !word.as_str().is_empty() {
        let ghost done = r.deep_view();
        let ghost so_far = word@;
        r.push(word);
        assert(r.deep_view() == done.push(so_far));
    }
    r
}

/// Whether `a` comes before `b`, character by character.
pub open spec fn comes_before(a: Seq<char>, b: Seq<char>) -> bool
    decreases a.len(),
{
    if b.len() == 0 {
        false
    } else if a.len() == 0 {
        true
    } else if a[0] != b[0] {
        a[0] < b[0]
    } else {
        comes_before(a.skip(1), b.skip(1))
    }
}

/// Whether one text comes before another.
pub fn less(a: &str, b: &str) -> (r: bool)
    ensures
        r == comes_before(a@, b@),
{
    let x: Vec<char> = chars_of(a);
    let y: Vec<char> = chars_of(b);
    let mut i: usize = 0;
    assert(x@.skip(0) == x@ && y@.skip(0) == y@);
    while i < x.len() && i < y.len()
        invariant
            i <= x@.len(),
            i <= y@.len(),
            x@ == a@,
            y@ == b@,
            comes_before(x@.skip(i as int), y@.skip(i as int)) == comes_before(a@, b@),
        decreases x@.len() - i,
    {
        assert(x@.skip(i as int).skip(1) == x@.skip(i + 1));
        assert(y@.skip(i as int).skip(1) == y@.skip(i + 1));
        if x[i] != y[i] {
            return x[i] < y[i];
        }
        i = i + 1;
    }
    i < y.len()
}

/// The order of texts is strict and total.
pub proof fn order_is_total(a: Seq<char>, b: Seq<char>)
    ensures
        !(comes_before(a, b) && comes_before(b, a)),
        !comes_before(a, b) && !comes_before(b, a) ==> a == b,
        !comes_before(a, a),
    decreases a.len(),
{
    if a.len() > 0 && b.len() > 0 && a[0] == b[0] {
        order_is_total(a.skip(1), b.skip(1));
        assert(a == seq![a[0]] + a.skip(1));
        assert(b == seq![b[0]] + b.skip(1));
    } else if a.len() > 0 {
        order_is_total(a.skip(1), a.skip(1));
    }
}

/// The order of texts is transitive, also where neighbours may be equal.
pub proof fn order_is_transitive(a: Seq<char>, b: Seq<char>, c: Seq<char>)
    requires
        !comes_before(b, a),
        !comes_before(c, b),
    ensures
        !comes_before(c, a),
    decreases a.len(),
{
    if a.len() > 0 && b.len() > 0 && c.len() > 0 && a[0] == b[0] && b[0] == c[0] {
        order_is_transitive(a.skip(1), b.skip(1), c.skip(1));
    }
}

/// A number of spaces.
pub open spec fn spaces(n: int) -> Seq<char>
    decreases n,
{
    if n <= 0 {
        Seq::empty()
    } else {
        spaces(n - 1).push(' ')
    }
}

/// Adds spaces.
pub fn push_spaces(text: &mut String, n: usize)
    ensures
        final(text)@ == old(text)@ + spaces(n as int),
{
    let ghost start = text@;
    let mut i: usize = 0;
    assert(start + spaces(0) == start);
    while i < n
        invariant
            i <= n,
            text@ == start + spaces(i as int),
        decreases n - i,
    {
        text.push(' ');
        i = i + 1;
        assert((start + spaces(i - 1)).push(' ') == start + spaces(i - 1).push(' '));
    }
}

/// `s` with spaces after it, up to `width` columns.
pub open spec fn pad_right_seq(s: Seq<char>, width: int) -> Seq<char> {
    s + spaces(width - s.len())
}

/// Fills a text up with spaces to `width` columns.
pub fn pad_right(text: &str, width: usize) -> (r: String)
    ensures
        r@ == pad_right_seq(text@, width as int),
{
    let n: usize = chars_of(text).len();
    let mut r: String = text.to_owned();
    if n < width {
        push_spaces(&mut r, width - n);
    } else {
        assert(r@ + Seq::<char>::empty() == r@);
    }
    r
}

/// The digits of `n` with zeros before them, up to `width` digits.
pub open spec fn padded_decimal(n: nat, width: nat) -> Seq<char> {
    zeros(width - decimal(n).len()) + decimal(n)
}

/// A number of zeros.
pub open spec fn zeros(n: int) -> Seq<char>
    decreases n,
{
    if n <= 0 {
        Seq::empty()
    } else {
        zeros(n - 1).push('0')
    }
}

/// Writes a number in decimal, with zeros before it up to `width` digits.
pub fn padded_decimal_string(n: u64, width: usize) -> (r: String)
    ensures
        r@ == padded_decimal(n as nat, width as nat),
{
    let digits: String = decimal_string(n);
    let len: usize = chars_of(digits.as_str()).len();
    let mut r: String = String::new();
    let mut i: usize = len;
    while i < width
        invariant
            len <= i,
            i <= width || i == len,
            r@ == zeros(i - len),
        decreases width - i,
    {
        r.push('0');
        i = i + 1;
    }
    assert(len >= width ==> zeros(width - len) == Seq::<char>::empty());
    r.push_str(digits.as_str());
    r
}

/// The alphanumeric property of a character.
pub uninterp spec fn alphanumeric(c: char) -> bool;

/// `char::is_alphanumeric`: a letter or a number by the rules of Unicode, which
/// go by the name `alphanumeric`. Among the ASCII characters these are the
/// digits and the letters.
#[verifier::external_body]
pub(crate) fn is_alphanumeric(c: char) -> (r: bool)
    ensures
        r == alphanumeric(c),
        (c as u32) < 128 ==> r == ('0' <= c <= '9' || 'a' <= c <= 'z' || 'A' <= c <= 'Z'),
{
    c.is_alphanumeric()
}

/// Bytes as text, with a replacement character for what is no text.
pub uninterp spec fn utf8_lossy(bytes: Seq<u8>) -> Seq<char>;

/// `String::from_utf8_lossy`: bytes that are UTF-8 as the text they encode; what
/// becomes of others goes by the name `utf8_lossy`.
#[verifier::external_body]
pub(crate) fn text_lossy(bytes: &Vec<u8>) -> (r: String)
    ensures
        r@ == utf8_lossy(bytes@),
        vstd::utf8::valid_utf8(bytes@) ==> r@ == vstd::utf8::decode_utf8(bytes@),
{
    String::from_utf8_lossy(bytes).into_owned()
}

/// An ASCII capital as its small letter, any other character as it is.
pub open spec fn ascii_lower(c: char) -> char {
    if 'A' <= c <= 'Z' {
        (c as u8 + 32) as u8 as char
    } else {
        c
    }
}

/// `s` with ASCII capitals as small letters.
pub open spec fn ascii_lower_seq(s: Seq<char>) -> Seq<char> {
    Seq::new(s.len(), |i: int| ascii_lower(s[i]))
}

fn lower_ascii(c: char) -> (r: char)
    ensures
        r == ascii_lower(c),
{
    if 'A' <= c && c <= 'Z' {
        (c as u8 + 32) as char
    } else {
        c
    }
}

/// Turns ASCII capitals into small letters.
pub fn to_ascii_lower(text: &str) -> (r: String)
    ensures
        r@ == ascii_lower_seq(text@),
{
    let s: Vec<char> = chars_of(text);
    let mut r: String = String::new();
    let mut i: usize = 0;
    while i < s.len()
        invariant
            i <= s@.len(),
            s@ == text@,
            r@ == ascii_lower_seq(s@).take(i as int),
        decreases s@.len() - i,
    {
        r.push(lower_ascii(s[i]));
        i = i + 1;
        assert(ascii_lower_seq(s@).take(i as int) == ascii_lower_seq(s@).take(i - 1).push(
            ascii_lower(s@[i - 1]),
        ));
    }
    assert(ascii_lower_seq(s@).take(s@.len() as int) == ascii_lower_seq(s@));
    r
}

/// `s` in lower case, by the rules of Unicode.
pub uninterp spec fn lowercase(s: Seq<char>) -> Seq<char>;

/// `str::to_lowercase`: the text in lower case by the rules of Unicode, which
/// go by the name `lowercase`. On ASCII text only the capitals change.
#[verifier::external_body]
pub(crate) fn to_lowercase(text: &str) -> (r: String)
    ensures
        r@ == lowercase(text@),
        vstd::utf8::is_ascii_chars(text@) ==> r@ == ascii_lower_seq(text@),
{
    text.to_lowercase()
}

/// The digit `d` as a character.
pub open spec fn digit_char(d: nat) -> char {
    (48 + d) as u8 as char
}

/// The decimal digits of `n`, without leading zeros.
pub open spec fn decimal(n: nat) -> Seq<char>
    decreases n,
{
    if n < 10 {
        seq![digit_char(n)]
    } else {
        decimal(n / 10).push(digit_char(n % 10))
    }
}

/// Writes a number in decimal.
pub fn decimal_string(n: u64) -> (r: String)
    ensures
        r@ == decimal(n as nat),
    decreases n,
{
    let mut r: String = if n < 10 {
        String::new()
    } else {
        decimal_string(n / 10)
    };
    r.push((48u8 + (n % 10) as u8) as char);
    assert(n < 10 ==> r@ == seq![digit_char(n as nat)]);
    r
}

/// A hexadecimal digit, in lower case.
pub open spec fn hex_digit(n: u8) -> char {
    if n < 10 {
        (48 + n) as u8 as char
    } else {
        (87 + n) as u8 as char
    }
}

/// The first `n` bytes in hexadecimal, two digits each.
pub open spec fn hex_seq(bytes: Seq<u8>, n: int) -> Seq<char>
    decreases n,
{
    if n <= 0 {
        Seq::empty()
    } else {
        hex_seq(bytes, n - 1).push(hex_digit(bytes[n - 1] / 16)).push(hex_digit(bytes[n - 1] % 16))
    }
}

fn hex_char(n: u8) -> (r: char)
    requires
        n < 16,
    ensures
        r == hex_digit(n),
{
    if n < 10 {
        (48 + n) as char
    } else {
        (87 + n) as char
    }
}

/// The first `n` bytes in hexadecimal.
pub fn hex_string(bytes: &Vec<u8>, n: usize) -> (r: String)
    requires
        n <= bytes@.len(),
    ensures
        r@ == hex_seq(bytes@, n as int),
{
    let mut r: String = String::new();
    let mut i: usize = 0;
    while i < n
        invariant
            i <= n <= bytes@.len(),
            r@ == hex_seq(bytes@, i as int),
        decreases n - i,
    {
        r.push(hex_char(bytes[i] / 16));
        r.push(hex_char(bytes[i] % 16));
        i = i + 1;
    }
    r
}

/// Whether a character is one of the ten ASCII digits.
pub open spec fn is_digit(c: char) -> bool {
    '0' <= c <= '9'
}

/// The number that a run of digits stands for.
pub open spec fn digits_value(s: Seq<char>) -> nat
    decreases s.len(),
{
    if s.len() == 0 {
        0
    } else {
        (10 * digits_value(s.drop_last()) + (s.last() as u32 - 48)) as nat
    }
}

/// `s` without one leading plus sign.
pub open spec fn unsigned_digits(s: Seq<char>) -> Seq<char> {
    if s.len() > 0 && s[0] == '+' {
        s.skip(1)
    } else {
        s
    }
}

/// The number that `s` stands for: at least one digit and nothing else, after
/// an optional plus sign, and no more than `max`.
pub open spec fn parse_unsigned_seq(s: Seq<char>, max: nat) -> Option<nat> {
    let digits = unsigned_digits(s);
    if digits.len() > 0 && (forall|i: int| 0 <= i < digits.len() ==> is_digit(#[trigger] digits[i]))
        && digits_value(digits) <= max {
        Some(digits_value(digits))
    } else {
        None
    }
}

proof fn digits_value_grows(s: Seq<char>, n: int)
    requires
        0 <= n <= s.len(),
        forall|i: int| 0 <= i < s.len() ==> is_digit(#[trigger] s[i]),
    ensures
        digits_value(s.take(n)) <= digits_value(s),
    decreases s.len(),
{
    if n == s.len() {
        assert(s.take(n) == s);
    } else {
        assert(s.drop_last().take(n) == s.take(n));
        digits_value_grows(s.drop_last(), n);
    }
}

/// Reads an unsigned decimal number that is no more than `max`.
pub fn parse_unsigned(text: &str, max: u64) -> (r: Option<u64>)
    ensures
        match r {
            Some(n) => parse_unsigned_seq(text@, max as nat) == Some(n as nat),
            None => parse_unsigned_seq(text@, max as nat) is None,
        },
{
    let s: Vec<char> = chars_of(text);
    let start: usize = if s.len() > 0 && s[0] == '+' {
        1
    } else {
        0
    };
    let ghost digits = unsigned_digits(text@);
    assert(digits == s@.skip(start as int));
    if start == s.len() {
        return None;
    }
    let mut i: usize = start;
    let mut n: u64 = 0;
    assert(digits.take(0) == Seq::<char>::empty());
    while i < s.len()
        invariant
            start <= i <= s@.len(),
            digits == unsigned_digits(text@),
            digits == s@.skip(start as int),
            digits.len() > 0,
            n == digits_value(digits.take(i - start)),
            n <= max,
            forall|j: int| 0 <= j < i - start ==> is_digit(#[trigger] digits[j]),
        decreases s@.len() - i,
    {
        let c: char = s[i];
        assert(digits[i - start] == c);
        if !('0' <= c && c <= '9') {
            assert(!is_digit(digits[i - start]));
            return None;
        }
        let d: u64 = (c as u32 - 48) as u64;
        assert(digits.take(i + 1 - start).drop_last() == digits.take(i - start));
        let next: u128 = 10 * (n as u128) + d as u128;
        if next > max as u128 {
            proof {
                if forall|j: int| 0 <= j < digits.len() ==> is_digit(#[trigger] digits[j]) {
                    digits_value_grows(digits, i + 1 - start);
                }
            }
            return None;
        }
        n = next as u64;
        i = i + 1;
    }
    assert(digits.take(digits.len() as int) == digits);
    Some(n)
}

/// What is written in decimal reads back as the same number.
pub proof fn decimal_reads_back(n: nat, max: nat)
    requires
        n <= max,
    ensures
        parse_unsigned_seq(decimal(n), max) == Some(n),
{
    decimal_digits(n);
    assert(unsigned_digits(decimal(n)) == decimal(n)) by {
        assert(is_digit(decimal(n)[0]));
    }
}

/// A number is written in digits, at least one, and they stand for the number.
pub proof fn decimal_digits(n: nat)
    ensures
        decimal(n).len() > 0,
        forall|i: int| 0 <= i < decimal(n).len() ==> is_digit(#[trigger] decimal(n)[i]),
        digits_value(decimal(n)) == n,
    decreases n,
{
    if n >= 10 {
        decimal_digits(n / 10);
        assert(decimal(n).drop_last() == decimal(n / 10));
    } else {
        assert(decimal(n).drop_last() == Seq::<char>::empty());
        assert(digits_value(decimal(n).drop_last()) == 0);
    }
    assert(digit_char(n % 10) as u32 == 48 + n % 10);
}

/// What is left of a list without another is what only the first holds.
pub proof fn without_leaves_the_rest(texts: Seq<Seq<char>>, others: Seq<Seq<char>>, text: Seq<char>)
    ensures
        texts_without(texts, others).contains(text) <==> texts.contains(text) && !others.contains(
            text,
        ),
    decreases texts.len(),
{
    reveal(Seq::filter);
    let is_kept = |t: Seq<char>| !others.contains(t);
    if texts.len() > 0 {
        let front = texts.drop_last();
        without_leaves_the_rest(front, others, text);
        assert(texts == front.push(texts.last()));
        let kept = front.filter(is_kept);
        if texts.contains(text) && !front.contains(text) {
            let i = choose|i: int| 0 <= i < texts.len() && texts[i] == text;
            assert(i < front.len() ==> front[i] == text);
        }
        if front.contains(text) {
            let i = choose|i: int| 0 <= i < front.len() && front[i] == text;
            assert(texts[i] == text);
        }
        if is_kept(texts.last()) {
            let all = kept.push(texts.last());
            if all.contains(text) && !kept.contains(text) {
                let i = choose|i: int| 0 <= i < all.len() && all[i] == text;
                assert(i < kept.len() ==> kept[i] == text);
            }
            if kept.contains(text) {
                let i = choose|i: int| 0 <= i < kept.len() && kept[i] == text;
                assert(all[i] == text);
            }
            assert(all[kept.len() as int] == texts.last());
            assert(texts[front.len() as int] == texts.last());
        }
    }
}

/// Trimming takes blanks away from both ends and nothing else, and leaves none
/// there.
pub proof fn trimming_takes_blanks(s: Seq<char>)
    ensures
        ({
            let t = trim_seq(s);
            &&& t.len() > 0 ==> !white_space(t[0]) && !white_space(t.last())
            &&& trim_seq(t) == t
            &&& exists|i: int, j: int|
                0 <= i <= j <= s.len() && t == #[trigger] s.subrange(i, j) && (forall|k: int|
                    0 <= k < i || j <= k < s.len() ==> white_space(#[trigger] s[k]))
        }),
{
    let i = start_of_trimmed(s);
    let rest = trim_start_seq(s);
    let n = end_of_trimmed(rest);
    let t = trim_seq(s);
    assert(t == s.subrange(i, i + n));
    assert forall|k: int| 0 <= k < i || i + n <= k < s.len() implies white_space(
        #[trigger] s[k],
    ) by {
        if k >= i + n {
            assert(rest[k - i] == s[k]);
        }
    }
    if t.len() > 0 {
        assert(t[0] == rest[0]);
    }
    assert(trim_start_seq(t) == t);
    assert(trim_end_seq(t) == t);
}

proof fn start_of_trimmed(s: Seq<char>) -> (i: int)
    ensures
        0 <= i <= s.len(),
        trim_start_seq(s) == s.skip(i),
        i < s.len() ==> !white_space(s[i]),
        forall|k: int| 0 <= k < i ==> white_space(#[trigger] s[k]),
    decreases s.len(),
{
    if s.len() > 0 && white_space(s[0]) {
        let j = start_of_trimmed(s.skip(1));
        assert(s.skip(1).skip(j) == s.skip(j + 1));
        assert forall|k: int| 0 <= k < j + 1 implies white_space(#[trigger] s[k]) by {
            if k > 0 {
                assert(s.skip(1)[k - 1] == s[k]);
            }
        }
        if j + 1 < s.len() {
            assert(s.skip(1)[j] == s[j + 1]);
        }
        j + 1
    } else {
        assert(s.skip(0) == s);
        0
    }
}

proof fn end_of_trimmed(s: Seq<char>) -> (n: int)
    ensures
        0 <= n <= s.len(),
        trim_end_seq(s) == s.take(n),
        n > 0 ==> !white_space(s[n - 1]),
        forall|k: int| n <= k < s.len() ==> white_space(#[trigger] s[k]),
    decreases s.len(),
{
    if s.len() > 0 && white_space(s.last()) {
        let front = s.drop_last();
        let n = end_of_trimmed(front);
        assert(front.take(n) == s.take(n));
        assert forall|k: int| n <= k < s.len() implies white_space(#[trigger] s[k]) by {
            if k < front.len() {
                assert(front[k] == s[k]);
            }
        }
        if n > 0 {
            assert(front[n - 1] == s[n - 1]);
        }
        n
    } else {
        assert(s.take(s.len() as int) == s);
        s.len() as int
    }
}

/// A blank parts words: the words of two texts with a blank between them are those
/// of the first and then those of the second.
pub proof fn blanks_part_words(a: Seq<char>, blank: char, b: Seq<char>)
    requires
        white_space(blank),
    ensures
        words_seq(a.push(blank) + b) == words_seq(a) + words_seq(b),
    decreases b.len(),
{
    let all = a.push(blank) + b;
    if b.len() == 0 {
        assert(all == a.push(blank));
        assert(all.drop_last() == a);
        assert(words_seq(a) + words_seq(b) == words_seq(a));
    } else {
        let front = b.drop_last();
        blanks_part_words(a, blank, front);
        assert(all.drop_last() == a.push(blank) + front);
        assert(all.last() == b.last());
        let c = b.last();
        if !white_space(c) {
            if b.len() == 1 {
                assert(all[all.len() - 2] == blank);
            } else {
                assert(all[all.len() - 2] == b[b.len() - 2]);
                if !white_space(b[b.len() - 2]) {
                    some_word_ends(front);
                }
            }
        }
        assert(words_seq(all) =~= words_seq(a) + words_seq(b));
    }
}

proof fn some_word_ends(s: Seq<char>)
    requires
        s.len() > 0,
        !white_space(s.last()),
    ensures
        words_seq(s).len() > 0,
{
}

/// A text without a blank is one word.
pub proof fn one_word_is_itself(s: Seq<char>)
    requires
        s.len() > 0,
        forall|i: int| 0 <= i < s.len() ==> !white_space(#[trigger] s[i]),
    ensures
        words_seq(s) == seq![s],
    decreases s.len(),
{
    let front = s.drop_last();
    if s.len() > 1 {
        assert forall|i: int| 0 <= i < front.len() implies !white_space(#[trigger] front[i]) by {
            assert(front[i] == s[i]);
        }
        one_word_is_itself(front);
        assert(!white_space(s[s.len() - 2]));
        assert(front.push(s.last()) == s);
        assert(!white_space(s[s.len() - 1]));
        assert(words_seq(s) =~= seq![s]);
    } else {
        assert(words_seq(front) == Seq::<Seq<char>>::empty());
        assert(s == seq![s.last()]);
        assert(!white_space(s[0]));
        assert(words_seq(s) =~= seq![s]);
    }
}

/// Lines that were written one after another, with a line feed between them, read
/// back as they were.
pub proof fn lines_read_back(lines: Seq<Seq<char>>)
    requires
        lines.len() > 0,
        lines.last().len() > 0,
        forall|i: int|
            0 <= i < lines.len() ==> !(#[trigger] lines[i]).contains('\n') && !lines[i].contains(
                '\r',
            ),
    ensures
        lines_seq(join_seq(lines, "\n"@)) == lines,
{
    reveal_strlit("\n");
    assert("\n"@ == seq!['\n']);
    join_splits_back(lines, '\n');
    let text = join_seq(lines, "\n"@);
    let pieces = split_seq(text, "\n"@);
    assert(pieces == lines);
    assert forall|i: int| 0 <= i < lines.len() implies without_return(#[trigger] lines[i])
        == lines[i] by {
        if lines[i].len() > 0 {
            assert(lines[i].last() == lines[i][lines[i].len() - 1]);
        }
    }
    assert(lines_seq(text) =~= lines);
}

/// What does not occur in a text is not replaced in it.
pub proof fn absent_patterns_change_nothing(s: Seq<char>, pattern: Seq<char>, with: Seq<char>)
    requires
        forall|i: int| !occurs_at(s, pattern, i),
    ensures
        replace_seq(s, pattern, with) == s,
        split_seq(s, pattern) == seq![s],
{
    find_from_is_first(s, pattern, 0);
    assert(s.skip(0) == s);
}

/// A padded text begins with the text and is as wide as asked, or as the text
/// where that is wider.
pub proof fn padding_keeps_the_text(s: Seq<char>, width: int)
    ensures
        s.is_prefix_of(pad_right_seq(s, width)),
        pad_right_seq(s, width).len() == (if width > s.len() {
            width
        } else {
            s.len() as int
        }),
        forall|i: int|
            s.len() <= i < pad_right_seq(s, width).len() ==> #[trigger] pad_right_seq(s, width)[i]
                == ' ',
{
    spaces_are_spaces(width - s.len());
}

proof fn spaces_are_spaces(n: int)
    ensures
        spaces(n).len() == (if n > 0 {
            n
        } else {
            0
        }),
        forall|i: int| 0 <= i < spaces(n).len() ==> #[trigger] spaces(n)[i] == ' ',
    decreases n,
{
    if n > 0 {
        spaces_are_spaces(n - 1);
    }
}

/// Two lists of bytes with the same hexadecimal digits are the same.
pub proof fn hex_tells_bytes_apart(a: Seq<u8>, b: Seq<u8>, n: int)
    requires
        0 <= n <= a.len(),
        n <= b.len(),
        hex_seq(a, n) == hex_seq(b, n),
    ensures
        a.take(n) == b.take(n),
    decreases n,
{
    if n > 0 {
        let x = hex_seq(a, n);
        let y = hex_seq(b, n);
        let p = hex_seq(a, n - 1);
        let q = hex_seq(b, n - 1);
        assert(x.last() == y.last());
        assert(x.drop_last().last() == y.drop_last().last());
        assert(p == x.drop_last().drop_last());
        assert(q == y.drop_last().drop_last());
        hex_tells_bytes_apart(a, b, n - 1);
        assert(a[n - 1] / 16 == b[n - 1] / 16) by {
            digits_differ(a[n - 1] / 16, b[n - 1] / 16);
        }
        assert(a[n - 1] % 16 == b[n - 1] % 16) by {
            digits_differ(a[n - 1] % 16, b[n - 1] % 16);
        }
        assert forall|i: int| 0 <= i < n implies a.take(n)[i] == b.take(n)[i] by {
            if i < n - 1 {
                assert(a.take(n - 1)[i] == b.take(n - 1)[i]);
            }
        }
    }
    assert(a.take(n) =~= b.take(n));
}

proof fn digits_differ(m: u8, n: u8)
    requires
        m < 16,
        n < 16,
        hex_digit(m) == hex_digit(n),
    ensures
        m == n,
{
    assert(hex_digit(m) as u32 == (if m < 10 {
        48 + m
    } else {
        87 + m
    }));
    assert(hex_digit(n) as u32 == (if n < 10 {
        48 + n
    } else {
        87 + n
    }));
}

/// A number holds nothing but digits.
pub proof fn decimal_lacks(n: nat, c: char)
    requires
        !is_digit(c),
    ensures
        !decimal(n).contains(c),
{
    decimal_digits(n);
}

/// A character that is replaced is gone, unless it is what it is replaced with.
pub proof fn replaced_character_is_gone(s: Seq<char>, c: char, with: Seq<char>)
    requires
        !with.contains(c),
    ensures
        !replace_seq(s, seq![c], with).contains(c),
{
    let parts = split_seq(s, seq![c]);
    assert forall|i: int| 0 <= i < parts.len() implies !(#[trigger] parts[i]).contains(c) by {
        split_parts_lack(s, c, 0, i);
    }
    joined_lacks(parts, with, c);
}

/// What neither the parts nor the separator hold, the joined text does not hold.
pub proof fn joined_lacks(parts: Seq<Seq<char>>, separator: Seq<char>, c: char)
    requires
        !separator.contains(c),
        forall|i: int| 0 <= i < parts.len() ==> !(#[trigger] parts[i]).contains(c),
    ensures
        !join_seq(parts, separator).contains(c),
    decreases parts.len(),
{
    if parts.len() > 1 {
        let front = parts.drop_last();
        assert forall|i: int| 0 <= i < front.len() implies !(#[trigger] front[i]).contains(c) by {
            assert(front[i] == parts[i]);
        }
        joined_lacks(front, separator, c);
        let text = join_seq(parts, separator);
        let start = join_seq(front, separator);
        assert(parts.last() == parts[parts.len() - 1]);
        if text.contains(c) {
            let i = choose|i: int| 0 <= i < text.len() && text[i] == c;
            if i < start.len() {
                assert(start[i] == c);
            } else if i < start.len() + separator.len() {
                assert(separator[i - start.len()] == c);
            } else {
                assert(parts.last()[i - start.len() - separator.len()] == c);
            }
        }
    }
}

/// A padded number ends with the number and is as wide as asked, with zeros in front.
pub proof fn padding_keeps_the_number(n: nat, width: nat)
    ensures
        decimal(n).is_suffix_of(padded_decimal(n, width)),
        decimal(n).len() <= width ==> padded_decimal(n, width).len() == width,
        forall|i: int|
            0 <= i < padded_decimal(n, width).len() - decimal(n).len() ==> #[trigger] padded_decimal(
                n,
                width,
            )[i] == '0',
{
    zeros_are_zeros(width - decimal(n).len());
    let front = zeros(width - decimal(n).len());
    assert(padded_decimal(n, width).skip(front.len() as int) == decimal(n));
}

proof fn zeros_are_zeros(n: int)
    ensures
        zeros(n).len() == (if n > 0 {
            n
        } else {
            0
        }),
        forall|i: int| 0 <= i < zeros(n).len() ==> #[trigger] zeros(n)[i] == '0',
    decreases n,
{
    if n > 0 {
        zeros_are_zeros(n - 1);
    }
}

/// Small letters stay as they are, capital letters become small, and lowering twice is
/// lowering once.
pub proof fn lowering_is_done_once(s: Seq<char>, i: int)
    requires
        0 <= i < s.len(),
    ensures
        ascii_lower_seq(s).len() == s.len(),
        !('A' <= s[i] <= 'Z') ==> ascii_lower_seq(s)[i] == s[i],
        'A' <= s[i] <= 'Z' ==> 'a' <= ascii_lower_seq(s)[i] <= 'z' && ascii_lower_seq(s)[i] as u32
            == s[i] as u32 + 32,
{
}

/// What was put in front can be taken away again, and so can what was put behind.
pub proof fn prefixes_come_off(prefix: Seq<char>, rest: Seq<char>)
    ensures
        strip_prefix_seq(prefix + rest, prefix) == Some(rest),
        strip_suffix_seq(rest + prefix, prefix) == Some(rest),
        strip_prefix_seq(rest, prefix) matches Some(left) ==> prefix + left == rest,
        strip_suffix_seq(rest, prefix) matches Some(left) ==> left + prefix == rest,
{
    assert(prefix.is_prefix_of(prefix + rest));
    assert((prefix + rest).skip(prefix.len() as int) == rest);
    assert(prefix.is_suffix_of(rest + prefix));
    assert((rest + prefix).take(rest.len() as int) == rest);
    if prefix.is_prefix_of(rest) {
        assert(prefix + rest.skip(prefix.len() as int) =~= rest);
    }
    if prefix.is_suffix_of(rest) {
        assert(rest.take(rest.len() - prefix.len()) + prefix =~= rest);
    }
}

/// The first occurrence of a pattern is replaced, what stands before it stays, and what
/// follows is replaced in turn.
pub proof fn first_occurrence_is_replaced(
    s: Seq<char>,
    pattern: Seq<char>,
    with: Seq<char>,
    i: int,
)
    requires
        pattern.len() > 0,
        occurs_at(s, pattern, i),
        forall|k: int| 0 <= k < i ==> !occurs_at(s, pattern, k),
    ensures
        replace_seq(s, pattern, with) == s.take(i) + with + replace_seq(
            s.skip(i + pattern.len()),
            pattern,
            with,
        ),
{
    find_from_is_first(s, pattern, 0);
    let at = find_from(s, pattern, 0);
    if at < 0 {
        assert(!occurs_at(s, pattern, i));
    } else if at < i {
        assert(!occurs_at(s, pattern, at));
    }
    assert(at == i);
    let next = i + pattern.len();
    split_from_shifts(s, pattern, next, 0);
    let rest = split_seq(s.skip(next), pattern);
    assert(split_seq(s, pattern) == seq![s.subrange(0, i)] + rest);
    split_joins_back(s.skip(next), pattern);
    join_front(s.subrange(0, i), rest, with);
    assert(s.subrange(0, i) == s.take(i));
}

/// Texts are ordered by their first difference: by the character there, or a text before
/// every longer one that begins with it.
pub proof fn first_difference_decides(common: Seq<char>, a: char, b: char, x: Seq<char>, y: Seq<char>)
    ensures
        a < b ==> comes_before(common.push(a) + x, common.push(b) + y),
        a < b ==> !comes_before(common.push(b) + y, common.push(a) + x),
        comes_before(common, common.push(a) + x),
    decreases common.len(),
{
    let first = common.push(a) + x;
    let second = common.push(b) + y;
    if common.len() > 0 {
        let rest = common.skip(1);
        first_difference_decides(rest, a, b, x, y);
        assert(first.skip(1) == rest.push(a) + x);
        assert(second.skip(1) == rest.push(b) + y);
    }
}

} // verus!
