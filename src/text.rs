//! Plain text helpers: splitting on a separator, joining back, and the
//! first position of an element.

use vstd::prelude::*;

verus! {

/// The views of a sequence of strings.
pub open spec fn views(v: Seq<String>) -> Seq<Seq<char>> {
    v.map_values(|s: String| s@)
}

/// The fields of `s` between occurrences of `sep`, in order. There is
/// always at least one field; an empty text has exactly one, empty field.
pub open spec fn fields_of(s: Seq<char>, sep: char) -> Seq<Seq<char>>
    decreases s.len(),
{
    if s.len() == 0 {
        seq![Seq::<char>::empty()]
    } else {
        let rest = fields_of(s.drop_last(), sep);
        if s.last() == sep {
            rest.push(Seq::<char>::empty())
        } else {
            rest.update(rest.len() - 1, rest.last().push(s.last()))
        }
    }
}

/// The fields of `parts` joined with `sep` between consecutive fields.
pub open spec fn join_fields(parts: Seq<Seq<char>>, sep: char) -> Seq<char>
    decreases parts.len(),
{
    if parts.len() == 0 {
        Seq::<char>::empty()
    } else if parts.len() == 1 {
        parts[0]
    } else {
        join_fields(parts.drop_last(), sep) + seq![sep] + parts.last()
    }
}

/// The first position of `x` in `s`, or -1 where `x` does not occur.
pub open spec fn index_of<A>(s: Seq<A>, x: A) -> int
    decreases s.len(),
{
    if s.len() == 0 {
        -1
    } else {
        let r = index_of(s.drop_last(), x);
        if r >= 0 {
            r
        } else if s.last() == x {
            s.len() - 1
        } else {
            -1
        }
    }
}

/// A text always has at least one field.
pub proof fn lemma_fields_nonempty(s: Seq<char>, sep: char)
    ensures
        fields_of(s, sep).len() >= 1,
    decreases s.len(),
{
    if s.len() > 0 {
        lemma_fields_nonempty(s.drop_last(), sep);
    }
}

/// Joining the fields of a text with the separator it was split on gives
/// the text back.
pub proof fn lemma_join_fields_of(s: Seq<char>, sep: char)
    ensures
        join_fields(fields_of(s, sep), sep) == s,
    decreases s.len(),
{
    if s.len() > 0 {
        let p = s.drop_last();
        let rest = fields_of(p, sep);
        lemma_fields_nonempty(p, sep);
        lemma_join_fields_of(p, sep);
        let f = fields_of(s, sep);
        if s.last() == sep {
            assert(f.drop_last() =~= rest);
            assert(s =~= p + seq![sep] + Seq::<char>::empty());
        } else {
            assert(f.drop_last() =~= rest.drop_last());
            if rest.len() == 1 {
                assert(s =~= rest[0].push(s.last()));
            } else {
                assert(p == join_fields(rest.drop_last(), sep) + seq![sep] + rest.last());
                assert(s =~= p.push(s.last()));
                assert(s =~= join_fields(rest.drop_last(), sep) + seq![sep] + rest.last().push(
                    s.last(),
                ));
            }
        }
    }
}

/// The first position of an element is in range and holds the element;
/// there is none exactly where the element does not occur.
pub proof fn lemma_index_of<A>(s: Seq<A>, x: A)
    ensures
        -1 <= index_of(s, x) < s.len(),
        index_of(s, x) >= 0 ==> s[index_of(s, x)] == x,
        index_of(s, x) >= 0 ==> forall|j: int| 0 <= j < index_of(s, x) ==> s[j] != x,
        index_of(s, x) < 0 <==> forall|j: int| 0 <= j < s.len() ==> s[j] != x,
    decreases s.len(),
{
    if s.len() > 0 {
        lemma_index_of(s.drop_last(), x);
        assert forall|j: int| 0 <= j < s.len() - 1 implies s.drop_last()[j] == s[j] by {}
    }
}

/// The first position of `c` in `s`.
pub fn char_index(s: &str, c: char) -> (r: Option<usize>)
    ensures
        r is None <==> index_of(s@, c) < 0,
        r matches Some(i) ==> i < s@.len() && index_of(s@, c) == i,
{
    let n = s.unicode_len();
    let mut found: Option<usize> = None;
    let mut i: usize = 0;
    assert(s@.take(0) =~= Seq::<char>::empty());
    while i < n
        invariant
            n == s@.len(),
            i <= n,
            found is None ==> index_of(s@.take(i as int), c) == -1,
            found matches Some(j) ==> j < i && index_of(s@.take(i as int), c) == j,
        decreases n - i,
    {
        assert(s@.take(i + 1).drop_last() =~= s@.take(i as int));
        if found.is_none() && s.get_char(i) == c {
            found = Some(i);
        }
        i = i + 1;
    }
    assert(s@.take(n as int) =~= s@);
    found
}

/// The first position of a string with the characters of `x` in `v`.
pub fn string_index(v: &Vec<String>, x: &str) -> (r: Option<usize>)
    ensures
        r is None <==> index_of(views(v@), x@) < 0,
        r matches Some(i) ==> i < v@.len() && index_of(views(v@), x@) == i,
{
    let n = v.len();
    let ghost w = views(v@);
    let mut found: Option<usize> = None;
    let mut i: usize = 0;
    assert(w.take(0) =~= Seq::<Seq<char>>::empty());
    while i < n
        invariant
            n == v@.len(),
            w == views(v@),
            i <= n,
            found is None ==> index_of(w.take(i as int), x@) == -1,
            found matches Some(j) ==> j < i && index_of(w.take(i as int), x@) == j,
        decreases n - i,
    {
        assert(w.take(i + 1).drop_last() =~= w.take(i as int));
        if found.is_none() && same_text(v[i].as_str(), x) {
            found = Some(i);
        }
        i = i + 1;
    }
    assert(w.take(n as int) =~= w);
    found
}

/// Splits `s` into the fields between occurrences of `sep`.
pub fn split_fields(s: &str, sep: char) -> (r: Vec<String>)
    ensures
        views(r@) == fields_of(s@, sep),
{
    let n = s.unicode_len();
    let mut fields: Vec<String> = Vec::new();
    let mut start: usize = 0;
    let mut i: usize = 0;
    assert(views(fields@) =~= Seq::<Seq<char>>::empty());
    assert(s@.take(0) =~= Seq::<char>::empty());
    assert(s@.subrange(0, 0) =~= Seq::<char>::empty());
    assert(views(fields@).push(s@.subrange(0, 0)) =~= fields_of(s@.take(0), sep));
    while i < n
        invariant
            n == s@.len(),
            start <= i <= n,
            views(fields@).push(s@.subrange(start as int, i as int)) == fields_of(
                s@.take(i as int),
                sep,
            ),
        decreases n - i,
    {
        let c = s.get_char(i);
        assert(s@.take(i + 1).drop_last() =~= s@.take(i as int));
        assert(s@.take(i + 1).last() == c);
        if c == sep {
            let ghost before = fields@;
            let f = String::from_str(s.substring_char(start, i));
            fields.push(f);
            assert(views(fields@) =~= views(before).push(f@));
            start = i + 1;
            assert(s@.subrange(start as int, start as int) =~= Seq::<char>::empty());
        } else {
            assert(s@.subrange(start as int, i + 1) =~= s@.subrange(start as int, i as int).push(
                c,
            ));
            assert(views(fields@).push(s@.subrange(start as int, i + 1)) =~= views(fields@).push(
                s@.subrange(start as int, i as int),
            ).update(views(fields@).len() as int, s@.subrange(start as int, i as int).push(c)));
        }
        i = i + 1;
    }
    let ghost before = fields@;
    let last = String::from_str(s.substring_char(start, n));
    fields.push(last);
    assert(views(fields@) =~= views(before).push(last@));
    assert(s@.take(n as int) =~= s@);
    fields
}

/// Whether two texts hold the same characters.
pub fn same_text(a: &str, b: &str) -> (r: bool)
    ensures
        r == (a@ == b@),
{
    let x = a.to_owned();
    let y = b.to_owned();
    x == y
}

} // verus!
