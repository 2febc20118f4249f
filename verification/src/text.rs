//! Strings as sequences of characters: views, comparison and repeated values.
use vstd::hash_set::StringHashSet;
use vstd::prelude::*;
use vstd::string::*;
use vstd::utf8::*;

verus! {

/// The characters of each string of a list.
pub open spec fn texts(strings: Seq<String>) -> Seq<Seq<char>> {
    strings.map_values(|s: String| s@)
}

/// The characters of a string that may be missing.
pub open spec fn optional_text(string: Option<String>) -> Option<Seq<char>> {
    match string {
        Some(s) => Some(s@),
        None => None,
    }
}

/// The characters of a string slice that may be missing.
pub open spec fn optional_str(string: Option<&str>) -> Option<Seq<char>> {
    match string {
        Some(s) => Some(s@),
        None => None,
    }
}

/// The first value of a list that already stands earlier in it.
pub open spec fn first_repeat(values: Seq<Seq<char>>) -> Option<Seq<char>>
    decreases values.len(),
{
    if values.len() == 0 {
        None
    } else {
        match first_repeat(values.drop_last()) {
            Some(value) => Some(value),
            None => if values.drop_last().contains(values.last()) {
                Some(values.last())
            } else {
                None
            },
        }
    }
}

/// A list repeats no value exactly when its values are pairwise different.
pub proof fn lemma_first_repeat(values: Seq<Seq<char>>)
    ensures
        first_repeat(values) is None <==> values.no_duplicates(),
    decreases values.len(),
{
    if values.len() > 0 {
        let init = values.drop_last();
        lemma_first_repeat(init);
        if first_repeat(values) is None {
            assert forall|i: int, j: int|
                0 <= i < values.len() && 0 <= j < values.len() && i != j implies values[i]
                != values[j] by {
                if i < init.len() && j < init.len() {
                    assert(init[i] != init[j]);
                } else if i < init.len() {
                    assert(init.contains(init[i]));
                } else {
                    assert(init.contains(init[j]));
                }
            }
        } else if values.no_duplicates() {
            assert(init.no_duplicates()) by {
                assert forall|i: int, j: int|
                    0 <= i < init.len() && 0 <= j < init.len() && i != j implies init[i]
                    != init[j] by {
                    assert(values[i] != values[j]);
                }
            }
            let k = choose|k: int| 0 <= k < init.len() && init[k] == values.last();
            assert(values[k] == values[values.len() - 1]);
        }
    }
}

/// A value repeated in the front of a list is the first one repeated in the whole list.
pub(crate) proof fn lemma_first_repeat_of_prefix(values: Seq<Seq<char>>, n: int)
    requires
        0 <= n <= values.len(),
        first_repeat(values.take(n)) is Some,
    ensures
        first_repeat(values) == first_repeat(values.take(n)),
    decreases values.len(),
{
    if n < values.len() {
        assert(values.drop_last().take(n) =~= values.take(n));
        lemma_first_repeat_of_prefix(values.drop_last(), n);
    } else {
        assert(values.take(n) =~= values);
    }
}

/// Whether two strings have the same characters.
pub(crate) fn same_text(a: &str, b: &str) -> (r: bool)
    ensures
        r == (a@ == b@),
{
    broadcast use encode_utf8_decode_utf8;

    let left = a.as_bytes();
    let right = b.as_bytes();
    proof {
        assert(decode_utf8(encode_utf8(a@)) == a@);
        assert(decode_utf8(encode_utf8(b@)) == b@);
    }
    if left.len() != right.len() {
        return false;
    }
    let mut i: usize = 0;
    while i < left.len()
        invariant
            left@ == encode_utf8(a@),
            right@ == encode_utf8(b@),
            left@.len() == right@.len(),
            i <= left@.len(),
            left@.take(i as int) == right@.take(i as int),
        decreases left@.len() - i,
    {
        if left[i] != right[i] {
            return false;
        }
        i = i + 1;
        assert(left@.take(i as int) =~= left@.take(i - 1).push(left@[i - 1]));
        assert(right@.take(i as int) =~= right@.take(i - 1).push(right@[i - 1]));
    }
    assert(left@ =~= left@.take(i as int));
    assert(right@ =~= right@.take(i as int));
    true
}

/// A copy of a list of strings.
pub(crate) fn copy_texts(strings: &Vec<String>) -> (r: Vec<String>)
    ensures
        texts(r@) == texts(strings@),
{
    let mut r: Vec<String> = Vec::new();
    let mut i: usize = 0;
    while i < strings.len()
        invariant
            i <= strings@.len(),
            r@.len() == i,
            forall|j: int| 0 <= j < i ==> (#[trigger] r@[j])@ == strings@[j]@,
        decreases strings@.len() - i,
    {
        r.push(strings[i].clone());
        i = i + 1;
    }
    assert(texts(r@) =~= texts(strings@));
    r
}

/// A copy of a string that may be missing.
pub(crate) fn copy_optional(string: &Option<String>) -> (r: Option<String>)
    ensures
        optional_text(r) == optional_text(*string),
{
    match string {
        Some(s) => Some(s.clone()),
        None => None,
    }
}

/// Finds the first value of a list that already stands earlier in it.
pub(crate) fn find_repeat(values: &Vec<String>) -> (r: Option<String>)
    ensures
        optional_text(r) == first_repeat(texts(values@)),
{
    let mut seen = StringHashSet::new();
    let mut i: usize = 0;
    let ghost all = texts(values@);
    assert(all.take(0) =~= Seq::<Seq<char>>::empty());
    while i < values.len()
        invariant
            i <= values@.len(),
            all == texts(values@),
            seen@ == all.take(i as int).to_set(),
            first_repeat(all.take(i as int)) is None,
        decreases values@.len() - i,
    {
        let fresh = seen.insert(values[i].clone());
        proof {
            let next = all.take(i + 1);
            assert(next.drop_last() =~= all.take(i as int));
            assert(next.last() == values@[i as int]@);
            assert(next =~= all.take(i as int).push(next.last()));
            all.take(i as int).lemma_push_to_set_commute(next.last());
        }
        if !fresh {
            proof {
                assert(first_repeat(all.take(i + 1)) == Some(values@[i as int]@));
                lemma_first_repeat_of_prefix(all, i + 1);
            }
            return Some(values[i].clone());
        }
        i = i + 1;
    }
    assert(all.take(i as int) =~= all);
    None
}

} // verus!
