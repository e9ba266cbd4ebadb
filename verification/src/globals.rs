//! The built-in global policy: a fixed set of names that the environment
//! predefines, consulted once per reportable binding.

use vstd::hash_set::StringHashSet;
use vstd::prelude::*;

verus! {

/// A set of identifier names considered predefined global bindings.
///
/// Lookups are hash lookups. Once made, a set is only read.
pub struct BuiltinGlobalSet {
    names: StringHashSet,
}

impl View for BuiltinGlobalSet {
    type V = Set<Seq<char>>;

    closed spec fn view(&self) -> Set<Seq<char>> {
        self.names@
    }
}

/// The names that occur in `names`.
pub open spec fn name_set(names: Seq<String>) -> Set<Seq<char>> {
    Set::new(|name: Seq<char>| exists|i: int| 0 <= i < names.len() && (#[trigger] names[i])@ == name)
}

impl BuiltinGlobalSet {
    /// The set without names.
    pub fn new() -> (set: BuiltinGlobalSet)
        ensures
            set@ == Set::<Seq<char>>::empty(),
    {
        BuiltinGlobalSet { names: StringHashSet::new() }
    }

    /// The set of exactly the names listed in `names`.
    pub fn from_names(names: &Vec<String>) -> (set: BuiltinGlobalSet)
        ensures
            set@ == name_set(names@),
    {
        let mut set = BuiltinGlobalSet::new();
        let n = names.len();
        let mut i: usize = 0;
        while i < n
            invariant
                n == names@.len(),
                0 <= i <= n,
                set@ == name_set(names@.take(i as int)),
            decreases n - i,
        {
            set.insert(names[i].as_str());
            proof {
                let before = names@.take(i as int);
                let after = names@.take(i + 1);
                assert forall|name: Seq<char>|
                    name_set(after).contains(name) <==> name_set(before).insert(
                        names@[i as int]@,
                    ).contains(name) by {
                    if name_set(after).contains(name) {
                        let k = choose|k: int| 0 <= k < after.len() && (#[trigger] after[k])@ == name;
                        if k < i {
                            assert(before[k]@ == name);
                        }
                    }
                    if name_set(before).contains(name) {
                        let k = choose|k: int|
                            0 <= k < before.len() && (#[trigger] before[k])@ == name;
                        assert(after[k]@ == name);
                    }
                    if name == names@[i as int]@ {
                        assert(after[i as int]@ == name);
                    }
                }
                assert(name_set(after) =~= name_set(before).insert(names@[i as int]@));
            }
            i = i + 1;
        }
        proof {
            assert(names@.take(n as int) =~= names@);
        }
        set
    }

    /// Adds `name` to the set.
    fn insert(&mut self, name: &str)
        ensures
            final(self)@ == old(self)@.insert(name@),
    {
        let owned = String::from_str(name);
        self.names.insert(owned);
    }

    /// Whether `name` is a predefined global binding.
    pub fn is_builtin_global(&self, name: &str) -> (found: bool)
        ensures
            found == self@.contains(name@),
    {
        self.names.contains(name)
    }
}

} // verus!
