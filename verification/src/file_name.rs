//! The base name and the extension of a claimed file name.

use vstd::prelude::*;

verus! {

/// The last place at which `s` holds `c`, or -1 where it holds none.
pub open spec fn last_index_of(s: Seq<char>, c: char) -> int
    decreases s.len(),
{
    if s.len() == 0 {
        -1
    } else if s.last() == c {
        s.len() - 1
    } else {
        last_index_of(s.drop_last(), c)
    }
}

/// The base name: what follows the last `/`, or all of `name` where it holds
/// none.
pub open spec fn base_name(name: Seq<char>) -> Seq<char> {
    name.subrange(last_index_of(name, '/') + 1, name.len() as int)
}

/// The extension: what follows the last `.` of the base name. A base name
/// without a dot has none.
pub open spec fn extension_of(name: Seq<char>) -> Option<Seq<char>> {
    let base = base_name(name);
    let dot = last_index_of(base, '.');
    if dot < 0 {
        None
    } else {
        Some(base.subrange(dot + 1, base.len() as int))
    }
}

/// `last_index_of` gives a place that holds `c` and after which `c` does not
/// occur, or -1 where `c` does not occur at all.
pub proof fn lemma_last_index_of(s: Seq<char>, c: char)
    ensures
        -1 <= last_index_of(s, c) < s.len(),
        last_index_of(s, c) >= 0 ==> s[last_index_of(s, c)] == c,
        forall|j: int| last_index_of(s, c) < j < s.len() ==> #[trigger] s[j] != c,
    decreases s.len(),
{
    if s.len() > 0 && s.last() != c {
        let t = s.drop_last();
        lemma_last_index_of(t, c);
        assert forall|j: int| last_index_of(s, c) < j < s.len() implies #[trigger] s[j] != c by {
            if j < t.len() {
                assert(t[j] == s[j]);
            }
        }
    }
}

/// A place that holds `c`, and after which `c` does not occur, is the last.
pub proof fn lemma_last_index_is(s: Seq<char>, c: char, i: int)
    requires
        -1 <= i < s.len(),
        i >= 0 ==> s[i] == c,
        forall|j: int| i < j < s.len() ==> #[trigger] s[j] != c,
    ensures
        last_index_of(s, c) == i,
{
    lemma_last_index_of(s, c);
}

/// Where the base name of `chars` starts.
pub fn base_name_start(chars: &Vec<char>) -> (r: usize)
    ensures
        r == last_index_of(chars@, '/') + 1,
        r <= chars.len(),
{
    let mut i: usize = chars.len();
    while i > 0 && chars[i - 1] != '/'
        invariant
            i <= chars.len(),
            forall|j: int| i <= j < chars.len() ==> #[trigger] chars@[j] != '/',
        decreases i,
    {
        i -= 1;
    }
    proof {
        lemma_last_index_is(chars@, '/', i - 1);
    }
    i
}

/// Where the extension of `chars` starts, if it has one.
pub fn extension_start(chars: &Vec<char>) -> (r: Option<usize>)
    ensures
        match r {
            Some(i) => i <= chars.len() && extension_of(chars@) == Some(
                chars@.subrange(i as int, chars.len() as int),
            ),
            None => extension_of(chars@) is None,
        },
{
    let start = base_name_start(chars);
    let ghost base = base_name(chars@);
    let mut i: usize = chars.len();
    while i > start && chars[i - 1] != '.'
        invariant
            start <= i <= chars.len(),
            start == last_index_of(chars@, '/') + 1,
            base == base_name(chars@),
            forall|j: int| i - start <= j < base.len() ==> #[trigger] base[j] != '.',
        decreases i,
    {
        i -= 1;
    }
    if i == start {
        proof {
            lemma_last_index_is(base, '.', -1);
        }
        None
    } else {
        proof {
            lemma_last_index_is(base, '.', i - 1 - start);
            assert(base.subrange(i - start, base.len() as int) =~= chars@.subrange(
                i as int,
                chars.len() as int,
            ));
        }
        Some(i)
    }
}

} // verus!
