//! Named things in the order of their names.

use vstd::prelude::*;

use crate::text::{chars_of, same_text};

verus! {

/// Whether `a` stands before `b` in the order of their characters.
pub open spec fn precedes(a: Seq<char>, b: Seq<char>) -> bool
    decreases b.len(),
{
    if b.len() == 0 {
        false
    } else if a.len() == 0 {
        true
    } else if a[0] != b[0] {
        a[0] < b[0]
    } else {
        precedes(a.drop_first(), b.drop_first())
    }
}

/// A list in the order of the names, with one more thing in it: in place of the
/// one that has the same name, where there is one.
pub open spec fn put<V>(list: Seq<(Seq<char>, V)>, name: Seq<char>, value: V) -> Seq<
    (Seq<char>, V),
>
    decreases list.len(),
{
    if list.len() > 0 && precedes(name, list.last().0) {
        put(list.drop_last(), name, value).push(list.last())
    } else if list.len() > 0 && list.last().0 == name {
        list.drop_last().push((name, value))
    } else {
        list.push((name, value))
    }
}

/// A list in the order of the names. Of two things with the same name, the
/// later one counts.
pub open spec fn ordered<V>(list: Seq<(Seq<char>, V)>) -> Seq<(Seq<char>, V)>
    decreases list.len(),
{
    if list.len() == 0 {
        list
    } else {
        put(ordered(list.drop_last()), list.last().0, list.last().1)
    }
}

/// The names of a list and the models of what it holds.
pub open spec fn named<V: View>(list: Seq<(String, V)>) -> Seq<(Seq<char>, V::V)> {
    Seq::new(list.len(), |i: int| (list[i].0@, list[i].1@))
}

/// Whether `a` stands before `b` in the order of their characters.
pub fn comes_before(a: &str, b: &str) -> (before: bool)
    ensures
        before == precedes(a@, b@),
{
    let a_chars = chars_of(a);
    let b_chars = chars_of(b);
    let mut i: usize = 0;
    assert(a@.skip(0) == a@);
    assert(b@.skip(0) == b@);
    while i < a_chars.len() && i < b_chars.len()
        invariant
            a_chars@ == a@,
            b_chars@ == b@,
            i <= a@.len(),
            i <= b@.len(),
            precedes(a@, b@) == precedes(a@.skip(i as int), b@.skip(i as int)),
        decreases b@.len() - i,
    {
        if a_chars[i] != b_chars[i] {
            return a_chars[i] < b_chars[i];
        }
        assert(a@.skip(i as int).drop_first() == a@.skip(i + 1));
        assert(b@.skip(i as int).drop_first() == b@.skip(i + 1));
        i = i + 1;
    }
    i < b_chars.len()
}

proof fn lemma_put<V>(list: Seq<(Seq<char>, V)>, name: Seq<char>, value: V, at: int)
    requires
        0 <= at <= list.len(),
        forall|i: int| at <= i < list.len() ==> precedes(name, (#[trigger] list[i]).0),
        at > 0 ==> !precedes(name, list[at - 1].0),
    ensures
        put(list, name, value) == if at > 0 && list[at - 1].0 == name {
            list.update(at - 1, (name, value))
        } else {
            list.insert(at, (name, value))
        },
    decreases list.len(),
{
    if at < list.len() {
        let front = list.drop_last();
        assert(precedes(name, list[list.len() - 1].0));
        assert forall|i: int| at <= i < front.len() implies precedes(
            name,
            (#[trigger] front[i]).0,
        ) by {
            assert(front[i] == list[i]);
        }
        lemma_put(front, name, value, at);
        if at > 0 && list[at - 1].0 == name {
            assert(front.update(at - 1, (name, value)).push(list.last()) == list.update(
                at - 1,
                (name, value),
            ));
        } else {
            assert(front.insert(at, (name, value)).push(list.last()) == list.insert(
                at,
                (name, value),
            ));
        }
    } else if at > 0 && list[at - 1].0 == name {
        assert(list.drop_last().push((name, value)) == list.update(at - 1, (name, value)));
    } else {
        assert(list.push((name, value)) == list.insert(at, (name, value)));
    }
}

/// Puts a thing into a list in the order of the names.
pub fn put_in_order<V: View>(list: &mut Vec<(String, V)>, name: &str, value: V)
    ensures
        named(final(list)@) == put(named(old(list)@), name@, value@),
{
    let ghost before = named(list@);
    let mut at: usize = list.len();
    while at > 0 && comes_before(name, list[at - 1].0.as_str())
        invariant
            at <= list.len(),
            before == named(list@),
            forall|i: int| at <= i < before.len() ==> precedes(name@, (#[trigger] before[i]).0),
        decreases at,
    {
        at = at - 1;
    }
    proof {
        lemma_put(before, name@, value@, at as int);
    }
    if at > 0 && same_text(list[at - 1].0.as_str(), name) {
        list.set(at - 1, (name.to_owned(), value));
        assert(named(list@) == before.update(at - 1, (name@, value@)));
    } else {
        list.insert(at, (name.to_owned(), value));
        assert(named(list@) == before.insert(at as int, (name@, value@)));
    }
}

}
