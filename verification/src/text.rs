//! Capability and architecture names as character sequences.

use vstd::prelude::*;

verus! {

/// The character sequences that a sequence of strings stands for.
pub open spec fn texts(names: Seq<String>) -> Seq<Seq<char>> {
    Seq::new(names.len(), |i: int| names[i]@)
}

/// A result with its success value replaced by that value's view.
pub open spec fn lifted<T: View, E>(r: Result<T, E>) -> Result<T::V, E> {
    match r {
        Ok(value) => Ok(value@),
        Err(error) => Err(error),
    }
}

/// The segments of `s` that lie between the occurrences of `separator`.
///
/// Reading `s` from the left, a separator opens a new, empty segment and any
/// other character extends the last segment. A text without separators is
/// one segment, and so is the empty text.
pub open spec fn split(s: Seq<char>, separator: char) -> Seq<Seq<char>>
    decreases s.len(),
{
    if s.len() == 0 {
        seq![Seq::<char>::empty()]
    } else {
        let before = split(s.drop_last(), separator);
        if s.last() == separator {
            before.push(Seq::<char>::empty())
        } else {
            before.drop_last().push(before.last().push(s.last()))
        }
    }
}

/// `segments` joined again, with `separator` between neighbours.
pub open spec fn joined(segments: Seq<Seq<char>>, separator: char) -> Seq<char>
    decreases segments.len(),
{
    if segments.len() == 0 {
        Seq::<char>::empty()
    } else if segments.len() == 1 {
        segments[0]
    } else {
        joined(segments.drop_last(), separator).push(separator) + segments.last()
    }
}

/// Splitting loses nothing: there is at least one segment, no segment holds
/// the separator, and joining the segments gives the text back.
pub proof fn split_is_faithful(s: Seq<char>, separator: char)
    ensures
        split(s, separator).len() >= 1,
        forall|i: int|
            0 <= i < split(s, separator).len() ==> !(#[trigger] split(s, separator)[i]).contains(
                separator,
            ),
        joined(split(s, separator), separator) == s,
    decreases s.len(),
{
    let parts = split(s, separator);
    if s.len() == 0 {
        assert(joined(parts, separator) =~= s);
    } else {
        let before = split(s.drop_last(), separator);
        split_is_faithful(s.drop_last(), separator);
        if s.last() == separator {
            assert(parts.drop_last() =~= before);
            assert(joined(parts, separator) =~= s);
        } else {
            let grown = before.last().push(s.last());
            assert forall|i: int| 0 <= i < parts.len() implies !(#[trigger] parts[i]).contains(
                separator,
            ) by {
                if i < parts.len() - 1 {
                    assert(parts[i] == before[i]);
                } else {
                    assert(parts[i] == grown);
                    assert forall|k: int| 0 <= k < grown.len() implies grown[k] != separator by {
                        if k < before.last().len() {
                            assert(before.last().contains(before.last()[k]));
                        }
                    }
                }
            }
            if before.len() == 1 {
                assert(joined(before, separator) == before[0]);
                assert(parts.len() == 1);
                assert(parts[0] == grown);
                assert(before.last() == before[0]);
                assert(before[0] == s.drop_last());
                assert(joined(parts, separator) == parts[0]);
                assert(s.drop_last().push(s.last()) =~= s);
                assert(joined(parts, separator) =~= s);
            } else {
                let head = joined(before.drop_last(), separator).push(separator);
                assert(parts.drop_last() =~= before.drop_last());
                assert(parts.last() == grown);
                assert(joined(before, separator) == head + before.last());
                assert(joined(parts, separator) == head + grown);
                assert(head + grown =~= (head + before.last()).push(s.last()));
                assert(s.drop_last().push(s.last()) =~= s);
            }
        }
    }
}

/// Whether two strings hold the same characters.
pub fn same_text(a: &str, b: &str) -> (r: bool)
    ensures
        r == (a@ == b@),
{
    let x = a.to_owned();
    let y = b.to_owned();
    x == y
}

/// Whether `names` holds `name`.
pub fn contains_text(names: &Vec<String>, name: &str) -> (r: bool)
    ensures
        r == texts(names@).contains(name@),
{
    let mut i: usize = 0;
    while i < names.len()
        invariant
            i <= names.len(),
            forall|j: int| 0 <= j < i ==> texts(names@)[j] != name@,
        decreases names.len() - i,
    {
        if same_text(names[i].as_str(), name) {
            assert(texts(names@)[i as int] == name@);
            return true;
        }
        i += 1;
    }
    false
}

/// A copy of `names`, string by string.
pub fn clone_texts(names: &Vec<String>) -> (r: Vec<String>)
    ensures
        texts(r@) == texts(names@),
{
    let mut r: Vec<String> = Vec::new();
    let mut i: usize = 0;
    while i < names.len()
        invariant
            i <= names.len(),
            r.len() == i,
            forall|j: int| 0 <= j < i ==> r[j]@ == names[j]@,
        decreases names.len() - i,
    {
        r.push(names[i].clone());
        i += 1;
    }
    assert(texts(r@) =~= texts(names@));
    r
}

/// Whether two vectors hold the same strings in the same order.
pub fn same_texts(a: &Vec<String>, b: &Vec<String>) -> (r: bool)
    ensures
        r == (texts(a@) == texts(b@)),
{
    if a.len() != b.len() {
        assert(texts(a@).len() != texts(b@).len());
        return false;
    }
    let mut i: usize = 0;
    while i < a.len()
        invariant
            i <= a.len(),
            a.len() == b.len(),
            forall|j: int| 0 <= j < i ==> a[j]@ == b[j]@,
        decreases a.len() - i,
    {
        if !same_text(a[i].as_str(), b[i].as_str()) {
            assert(texts(a@)[i as int] != texts(b@)[i as int]);
            return false;
        }
        i += 1;
    }
    assert(texts(a@) =~= texts(b@));
    true
}

/// Cuts `text` at every occurrence of `separator`.
pub fn split_text(text: &str, separator: char) -> (parts: Vec<String>)
    ensures
        texts(parts@) == split(text@, separator),
        parts.len() >= 1,
{
    let n: usize = text.unicode_len();
    let mut parts: Vec<String> = Vec::new();
    let mut start: usize = 0;
    let mut i: usize = 0;
    assert(text@.subrange(0, 0) =~= Seq::<char>::empty());
    assert(split(Seq::<char>::empty(), separator) =~= texts(parts@).push(Seq::<char>::empty()));
    while i < n
        invariant
            n == text@.len(),
            start <= i <= n,
            split(text@.subrange(0, i as int), separator) == texts(parts@).push(
                text@.subrange(start as int, i as int),
            ),
        decreases n - i,
    {
        let c = text.get_char(i);
        let ghost done = texts(parts@);
        let ghost open = text@.subrange(start as int, i as int);
        let ghost prefix = text@.subrange(0, i + 1);
        assert(prefix.drop_last() =~= text@.subrange(0, i as int));
        assert(prefix.last() == c);
        if c == separator {
            parts.push(text.substring_char(start, i).to_owned());
            start = i + 1;
            assert(texts(parts@) =~= done.push(open));
            assert(text@.subrange(start as int, i + 1) =~= Seq::<char>::empty());
        } else {
            assert(done.push(open).drop_last() =~= done);
            assert(open.push(c) =~= text@.subrange(start as int, i + 1));
        }
        i += 1;
    }
    let ghost done = texts(parts@);
    parts.push(text.substring_char(start, n).to_owned());
    assert(text@.subrange(0, n as int) =~= text@);
    assert(texts(parts@) =~= done.push(text@.subrange(start as int, n as int)));
    parts
}

} // verus!
