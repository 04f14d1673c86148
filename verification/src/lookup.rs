//! Finding a name in a list of names.
use vstd::prelude::*;

verus! {

/// Whether `position` is the first place in `names` where `name` stands.
pub open spec fn is_first_of(names: Seq<Seq<char>>, name: Seq<char>, position: int) -> bool {
    &&& 0 <= position < names.len()
    &&& names[position] == name
    &&& forall|j: int| 0 <= j < position ==> #[trigger] names[j] != name
}

/// The first place in `names` where `name` stands, if it stands there.
pub open spec fn first_of(names: Seq<Seq<char>>, name: Seq<char>) -> Option<int> {
    if exists|i: int| is_first_of(names, name, i) {
        Some(choose|i: int| is_first_of(names, name, i))
    } else {
        None
    }
}

/// There is one first place at most.
pub proof fn lemma_first_of_is_one(names: Seq<Seq<char>>, name: Seq<char>, position: int)
    requires
        is_first_of(names, name, position),
    ensures
        first_of(names, name) == Some(position),
{
    let chosen = choose|i: int| is_first_of(names, name, i);
    if chosen < position {
        assert(names[chosen] != name);
    } else if position < chosen {
        assert(names[position] != name);
    }
}

} // verus!
