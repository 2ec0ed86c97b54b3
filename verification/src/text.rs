//! Verified text utilities: splitting a line on a separator character, the
//! tag/remainder split, and character-wise string equality.

use vstd::prelude::*;

verus! {

/// The fields of `s` split on every occurrence of `sep`, in order; always at
/// least one field, and empty fields are kept, as `str::split` yields them.
pub open spec fn spec_split(s: Seq<char>, sep: char) -> Seq<Seq<char>>
    decreases s.len(),
{
    if s.len() == 0 {
        seq![Seq::<char>::empty()]
    } else if s[0] == sep {
        seq![Seq::<char>::empty()] + spec_split(s.drop_first(), sep)
    } else {
        let rest = spec_split(s.drop_first(), sep);
        seq![seq![s[0]] + rest[0]] + rest.drop_first()
    }
}

/// The text before the first occurrence of `sep` and the text after it, or
/// `None` where `sep` does not occur, as `str::split_once` yields them.
pub open spec fn spec_split_once(s: Seq<char>, sep: char) -> Option<(Seq<char>, Seq<char>)>
    decreases s.len(),
{
    if s.len() == 0 {
        None
    } else if s[0] == sep {
        Some((Seq::<char>::empty(), s.drop_first()))
    } else {
        match spec_split_once(s.drop_first(), sep) {
            None => None,
            Some((a, b)) => Some((seq![s[0]] + a, b)),
        }
    }
}

pub proof fn lemma_split_len(s: Seq<char>, sep: char)
    ensures
        spec_split(s, sep).len() >= 1,
    decreases s.len(),
{
    if s.len() > 0 {
        lemma_split_len(s.drop_first(), sep);
    }
}

/// Splitting text free of the separator yields that text as the one field.
pub proof fn lemma_split_no_sep(s: Seq<char>, sep: char)
    requires
        forall|i: int| 0 <= i < s.len() ==> s[i] != sep,
    ensures
        spec_split(s, sep) =~~= seq![s],
    decreases s.len(),
{
    if s.len() > 0 {
        lemma_split_no_sep(s.drop_first(), sep);
        assert(seq![s[0]] + s.drop_first() =~= s);
    }
}

/// Splitting at the first separator occurrence: the field before it, then the
/// split of what follows.
pub proof fn lemma_split_at_first(s: Seq<char>, sep: char, k: int)
    requires
        0 <= k < s.len(),
        s[k] == sep,
        forall|i: int| 0 <= i < k ==> s[i] != sep,
    ensures
        spec_split(s, sep) =~~= seq![s.subrange(0, k)] + spec_split(
            s.subrange(k + 1, s.len() as int),
            sep,
        ),
    decreases k,
{
    if k == 0 {
        assert(s.subrange(0, 0) =~= Seq::<char>::empty());
        assert(s.drop_first() =~= s.subrange(1, s.len() as int));
    } else {
        let d = s.drop_first();
        assert(d[k - 1] == sep);
        assert(forall|i: int| 0 <= i < k - 1 ==> #[trigger] d[i] == s[i + 1]);
        lemma_split_at_first(d, sep, k - 1);
        lemma_split_len(d.subrange(k, d.len() as int), sep);
        assert(d.subrange(0, k - 1) =~= s.subrange(1, k));
        assert(d.subrange(k, d.len() as int) =~= s.subrange(k + 1, s.len() as int));
        assert(seq![s[0]] + s.subrange(1, k) =~= s.subrange(0, k));
    }
}

/// No separator occurrence means no tag/remainder split.
pub proof fn lemma_split_once_none(s: Seq<char>, sep: char)
    requires
        forall|i: int| 0 <= i < s.len() ==> s[i] != sep,
    ensures
        spec_split_once(s, sep) is None,
    decreases s.len(),
{
    if s.len() > 0 {
        lemma_split_once_none(s.drop_first(), sep);
    }
}

/// The tag/remainder split cuts at the first separator occurrence.
pub proof fn lemma_split_once_at(s: Seq<char>, sep: char, k: int)
    requires
        0 <= k < s.len(),
        s[k] == sep,
        forall|i: int| 0 <= i < k ==> s[i] != sep,
    ensures
        spec_split_once(s, sep) == Some(
            (s.subrange(0, k), s.subrange(k + 1, s.len() as int)),
        ),
    decreases k,
{
    if k == 0 {
        assert(s.subrange(0, 0) =~= Seq::<char>::empty());
        assert(s.drop_first() =~= s.subrange(1, s.len() as int));
    } else {
        let d = s.drop_first();
        assert(d[k - 1] == sep);
        assert(forall|i: int| 0 <= i < k - 1 ==> #[trigger] d[i] == s[i + 1]);
        lemma_split_once_at(d, sep, k - 1);
        assert(d.subrange(0, k - 1) =~= s.subrange(1, k));
        assert(d.subrange(k, d.len() as int) =~= s.subrange(k + 1, s.len() as int));
        assert(seq![s[0]] + s.subrange(1, k) =~= s.subrange(0, k));
    }
}

/// The views of a sequence of string slices.
pub open spec fn views_of(parts: Seq<&str>) -> Seq<Seq<char>> {
    parts.map_values(|p: &str| p@)
}

/// Split `s` on every occurrence of `sep`, keeping empty fields.
pub fn split_on<'a>(s: &'a str, sep: char) -> (parts: Vec<&'a str>)
    ensures
        views_of(parts@) =~~= spec_split(s@, sep),
        parts@.len() == spec_split(s@, sep).len(),
        forall|i: int| 0 <= i < parts@.len() ==> (#[trigger] parts@[i])@ == spec_split(s@, sep)[i],
{
    let n = s.unicode_len();
    let mut parts: Vec<&'a str> = Vec::new();
    let mut start: usize = 0;
    let mut i: usize = 0;
    proof {
        assert(s@.subrange(0, n as int) =~= s@);
        assert(views_of(parts@) =~~= Seq::<Seq<char>>::empty());
        assert(views_of(parts@) + spec_split(s@, sep) =~~= spec_split(s@, sep));
    }
    while i < n
        invariant
            n as int == s@.len(),
            start as int <= i as int <= n as int,
            forall|j: int| start as int <= j < i as int ==> s@[j] != sep,
            spec_split(s@, sep) =~~= views_of(parts@) + spec_split(
                s@.subrange(start as int, n as int),
                sep,
            ),
        decreases n as int - i as int,
    {
        if s.get_char(i) == sep {
            let piece = s.substring_char(start, i);
            proof {
                let suffix = s@.subrange(start as int, n as int);
                assert(suffix[i as int - start as int] == sep);
                assert(forall|j: int|
                    0 <= j < i as int - start as int ==> #[trigger] suffix[j] == s@[start as int
                        + j]);
                lemma_split_at_first(suffix, sep, i as int - start as int);
                assert(suffix.subrange(0, i as int - start as int) =~= s@.subrange(
                    start as int,
                    i as int,
                ));
                assert(suffix.subrange(
                    i as int - start as int + 1,
                    suffix.len() as int,
                ) =~= s@.subrange(i as int + 1, n as int));
                assert(views_of(parts@.push(piece)) =~~= views_of(parts@).push(piece@));
            }
            parts.push(piece);
            start = i + 1;
        }
        i = i + 1;
    }
    let last = s.substring_char(start, n);
    proof {
        let suffix = s@.subrange(start as int, n as int);
        lemma_split_no_sep(suffix, sep);
        assert(views_of(parts@.push(last)) =~~= views_of(parts@).push(last@));
    }
    parts.push(last);
    proof {
        lemma_split_len(s@, sep);
        assert(forall|i: int|
            0 <= i < parts@.len() ==> (#[trigger] parts@[i])@ == views_of(parts@)[i]);
    }
    parts
}

/// Split `s` at the first occurrence of `sep`, or report that it has none.
pub fn split_once_on<'a>(s: &'a str, sep: char) -> (r: Option<(&'a str, &'a str)>)
    ensures
        match r {
            Some(pair) => spec_split_once(s@, sep) == Some((pair.0@, pair.1@)),
            None => spec_split_once(s@, sep) is None,
        },
{
    let n = s.unicode_len();
    let mut i: usize = 0;
    while i < n
        invariant
            n as int == s@.len(),
            i as int <= n as int,
            forall|j: int| 0 <= j < i as int ==> s@[j] != sep,
        decreases n as int - i as int,
    {
        if s.get_char(i) == sep {
            let before = s.substring_char(0, i);
            let after = s.substring_char(i + 1, n);
            proof {
                lemma_split_once_at(s@, sep, i as int);
            }
            return Some((before, after));
        }
        i = i + 1;
    }
    proof {
        lemma_split_once_none(s@, sep);
    }
    None
}

/// Character-wise string equality.
pub fn str_eq(a: &str, b: &str) -> (r: bool)
    ensures
        r == (a@ == b@),
{
    let n = a.unicode_len();
    if n != b.unicode_len() {
        return false;
    }
    let mut i: usize = 0;
    while i < n
        invariant
            n as int == a@.len(),
            n as int == b@.len(),
            i as int <= n as int,
            forall|j: int| 0 <= j < i as int ==> a@[j] == b@[j],
        decreases n as int - i as int,
    {
        if a.get_char(i) != b.get_char(i) {
            return false;
        }
        i = i + 1;
    }
    proof {
        assert(a@ =~= b@);
    }
    true
}

} // verus!
