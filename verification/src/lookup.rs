//! Finding a name in a list of names, and in a list of things that carry
//! names: nodes and edges by identity, functions and modules by name.

use vstd::prelude::*;
use vstd::string::*;
use vstd::utf8::encode_utf8;

verus! {

/// Position of the first occurrence of `name` in `names`, or the length of
/// `names` where it does not occur.
pub open spec fn first_index_of(names: Seq<Seq<char>>, name: Seq<char>) -> int
    decreases names.len(),
{
    if names.len() == 0 {
        0
    } else if names[0] == name {
        0
    } else {
        1 + first_index_of(names.drop_first(), name)
    }
}

/// No name occurs twice.
pub open spec fn distinct(names: Seq<Seq<char>>) -> bool {
    forall|i: int, j: int| 0 <= i < j < names.len() ==> names[i] != names[j]
}

/// `first_index_of` is the least position that holds the name.
pub proof fn lemma_first_index_of(names: Seq<Seq<char>>, name: Seq<char>)
    ensures
        0 <= first_index_of(names, name) <= names.len(),
        first_index_of(names, name) < names.len() ==> names[first_index_of(names, name)] == name,
        forall|j: int| 0 <= j < first_index_of(names, name) ==> names[j] != name,
    decreases names.len(),
{
    if names.len() > 0 && names[0] != name {
        let rest = names.drop_first();
        lemma_first_index_of(rest, name);
        assert forall|j: int| 0 <= j < first_index_of(names, name) implies names[j] != name by {
            if j > 0 {
                assert(names[j] == rest[j - 1]);
            }
        }
    }
}

/// A position that holds the name and has no occurrence before it is the
/// one that `first_index_of` names.
pub proof fn lemma_first_index_is(names: Seq<Seq<char>>, name: Seq<char>, at: int)
    requires
        0 <= at <= names.len(),
        at < names.len() ==> names[at] == name,
        forall|j: int| 0 <= j < at ==> names[j] != name,
    ensures
        first_index_of(names, name) == at,
{
    lemma_first_index_of(names, name);
    let first = first_index_of(names, name);
    if first < at {
        assert(names[first] != name);
    }
}

/// Something that is found by a name.
pub trait Named {
    /// The name, as text.
    spec fn spec_name(&self) -> Seq<char>;

    /// The name.
    fn name(&self) -> (name: &String)
        ensures
            name@ == self.spec_name(),
    ;
}

/// The names of the items, in order.
pub open spec fn names_of<T: Named>(items: Seq<T>) -> Seq<Seq<char>> {
    Seq::new(items.len(), |i: int| items[i].spec_name())
}

/// The first occurrence of a name, read on the items that carry the names:
/// its position is the least one whose item has the name.
pub proof fn lemma_first_named<T: Named>(items: Seq<T>, name: Seq<char>)
    ensures
        0 <= first_index_of(names_of(items), name) <= items.len(),
        first_index_of(names_of(items), name) < items.len() ==> items[first_index_of(
            names_of(items),
            name,
        )].spec_name() == name,
        forall|j: int|
            0 <= j < first_index_of(names_of(items), name) ==> (#[trigger] items[j]).spec_name()
                != name,
{
    lemma_first_index_of(names_of(items), name);
    assert forall|j: int| 0 <= j < first_index_of(names_of(items), name) implies (
    #[trigger] items[j]).spec_name() != name by {
        assert(names_of(items)[j] != name);
    }
}

/// An item that has the name and has no item of that name before it
/// stands at the position of the name's first occurrence.
pub proof fn lemma_first_named_is<T: Named>(items: Seq<T>, name: Seq<char>, at: int)
    requires
        0 <= at <= items.len(),
        at < items.len() ==> items[at].spec_name() == name,
        forall|j: int| 0 <= j < at ==> (#[trigger] items[j]).spec_name() != name,
    ensures
        first_index_of(names_of(items), name) == at,
{
    assert forall|j: int| 0 <= j < at implies names_of(items)[j] != name by {
        assert(items[j].spec_name() != name);
    }
    lemma_first_index_is(names_of(items), name, at);
}

/// Position of the first item named `name`, or the number of items. The
/// scan looks at the byte length and at the last byte of a name before it
/// compares the whole text: names that differ mostly differ there.
pub fn position_of<T: Named>(items: &Vec<T>, name: &String) -> (at: usize)
    ensures
        at == first_index_of(names_of(items@), name@),
        at <= items.len(),
{
    let wanted = name.as_str().as_bytes();
    let length = wanted.len();
    let count = items.len();
    let mut i: usize = 0;
    while i < count
        invariant
            i <= count,
            count == items.len(),
            wanted@ == encode_utf8(name@),
            length == wanted@.len(),
            forall|j: int| 0 <= j < i ==> names_of(items@)[j] != name@,
        decreases count - i,
    {
        let held = items[i].name();
        let bytes = held.as_str().as_bytes();
        if bytes.len() == length && (length == 0 || bytes[length - 1] == wanted[length - 1]) {
            if *held == *name {
                proof {
                    lemma_first_index_is(names_of(items@), name@, i as int);
                }
                return i;
            }
        }
        i += 1;
    }
    proof {
        lemma_first_index_is(names_of(items@), name@, i as int);
    }
    i
}

/// The names after `name` was put into the list: a name that is there
/// stays where it is, and a new name goes to the end.
pub open spec fn with_name(names: Seq<Seq<char>>, name: Seq<char>) -> Seq<Seq<char>> {
    if first_index_of(names, name) < names.len() {
        names
    } else {
        names.push(name)
    }
}

/// The names after `name` was taken out of the list.
pub open spec fn without_name(names: Seq<Seq<char>>, name: Seq<char>) -> Seq<Seq<char>> {
    if first_index_of(names, name) < names.len() {
        names.remove(first_index_of(names, name))
    } else {
        names
    }
}

/// Putting a name into a list without repetition leaves it without
/// repetition. The name is then found where it was, or at the old end, and
/// every other name is found exactly where it was found before.
pub proof fn lemma_with_name(names: Seq<Seq<char>>, name: Seq<char>, other: Seq<char>)
    ensures
        distinct(names) ==> distinct(with_name(names, name)),
        first_index_of(with_name(names, name), name) == first_index_of(names, name),
        first_index_of(with_name(names, name), name) < with_name(names, name).len(),
        other != name ==> (first_index_of(with_name(names, name), other) < with_name(
            names,
            name,
        ).len()) == (first_index_of(names, other) < names.len()),
        other != name && first_index_of(names, other) < names.len() ==> first_index_of(
            with_name(names, name),
            other,
        ) == first_index_of(names, other),
{
    let after = with_name(names, name);
    lemma_first_index_of(names, name);
    lemma_first_index_of(names, other);
    if first_index_of(names, name) >= names.len() {
        lemma_first_index_is(after, name, names.len() as int);
        if other != name {
            let there = first_index_of(names, other);
            if there < names.len() {
                lemma_first_index_is(after, other, there);
            } else {
                lemma_first_index_is(after, other, there + 1);
            }
        }
    }
}

/// Taking a name out of a list without repetition leaves it without
/// repetition. The name is then not found, and every other name is found
/// exactly if it was found before: where it was, or one place earlier if
/// it stood behind the name that went.
pub proof fn lemma_without_name(names: Seq<Seq<char>>, name: Seq<char>, other: Seq<char>)
    requires
        distinct(names),
    ensures
        distinct(without_name(names, name)),
        first_index_of(without_name(names, name), name) == without_name(names, name).len(),
        other != name ==> (first_index_of(without_name(names, name), other) < without_name(
            names,
            name,
        ).len()) == (first_index_of(names, other) < names.len()),
        other != name && first_index_of(names, other) < names.len() ==> first_index_of(
            without_name(names, name),
            other,
        ) == if first_index_of(names, other) < first_index_of(names, name) {
            first_index_of(names, other)
        } else {
            first_index_of(names, other) - 1
        },
{
    let after = without_name(names, name);
    let at = first_index_of(names, name);
    lemma_first_index_of(names, name);
    lemma_first_index_of(names, other);
    lemma_first_index_of(after, name);
    if at < names.len() {
        assert forall|i: int, j: int| 0 <= i < j < after.len() implies after[i] != after[j] by {
            let a = if i < at {
                i
            } else {
                i + 1
            };
            let b = if j < at {
                j
            } else {
                j + 1
            };
            assert(names[a] != names[b]);
        }
        let gone = first_index_of(after, name);
        if gone < after.len() {
            let back = if gone < at {
                gone
            } else {
                gone + 1
            };
            assert(names[back] == name);
        }
        if other != name {
            let there = first_index_of(names, other);
            let moved = if there < at {
                there
            } else {
                there - 1
            };
            assert forall|j: int| 0 <= j < after.len() && j < moved implies after[j] != other by {
                let back = if j < at {
                    j
                } else {
                    j + 1
                };
                assert(names[back] != other);
            }
            if there < names.len() {
                lemma_first_index_is(after, other, moved);
            } else {
                lemma_first_index_is(after, other, after.len() as int);
            }
        }
    } else {
        if other != name {
        }
    }
}

} // verus!
