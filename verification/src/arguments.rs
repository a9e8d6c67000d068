//! The `key=value` arguments of a prompt.

use crate::text::eq_str;
use vstd::prelude::*;

verus! {

/// One argument of a prompt.
#[derive(Debug)]
pub struct Argument {
    pub key: String,
    pub value: String,
}

impl DeepView for Argument {
    type V = (Seq<char>, Seq<char>);

    open spec fn deep_view(&self) -> (Seq<char>, Seq<char>) {
        (self.key@, self.value@)
    }
}

/// The map that assigns to each key the value behind it; of two values for one
/// key the later counts.
pub open spec fn map_of(entries: Seq<(Seq<char>, Seq<char>)>) -> Map<Seq<char>, Seq<char>>
    decreases entries.len(),
{
    if entries.len() == 0 {
        Map::empty()
    } else {
        map_of(entries.drop_last()).insert(entries.last().0, entries.last().1)
    }
}

/// Whether no key occurs twice in `entries`.
pub open spec fn keys_distinct(entries: Seq<(Seq<char>, Seq<char>)>) -> bool {
    forall|i: int, j: int|
        0 <= i < j < entries.len() ==> (#[trigger] entries[i]).0 != (#[trigger] entries[j]).0
}

/// The arguments given to a prompt: a map from key to value, which remembers the
/// order in which the keys came first.
#[derive(Debug)]
pub struct PromptArguments {
    entries: Vec<Argument>,
}

impl View for PromptArguments {
    type V = Map<Seq<char>, Seq<char>>;

    closed spec fn view(&self) -> Map<Seq<char>, Seq<char>> {
        map_of(self.entries.deep_view())
    }
}

proof fn lemma_map_of(entries: Seq<(Seq<char>, Seq<char>)>)
    requires
        keys_distinct(entries),
    ensures
        map_of(entries).dom().finite(),
        map_of(entries).len() == entries.len(),
        forall|k: Seq<char>| #[trigger]
            map_of(entries).contains_key(k) ==> exists|i: int|
                0 <= i < entries.len() && (#[trigger] entries[i]).0 == k,
        forall|i: int|
            0 <= i < entries.len() ==> map_of(entries).contains_key((#[trigger] entries[i]).0)
                && map_of(entries)[entries[i].0] == entries[i].1,
    decreases entries.len(),
{
    if entries.len() > 0 {
        let rest = entries.drop_last();
        lemma_map_of(rest);
        let last = entries.last();
        assert(!map_of(rest).contains_key(last.0)) by {
            if map_of(rest).contains_key(last.0) {
                let i = choose|i: int| 0 <= i < rest.len() && (#[trigger] rest[i]).0 == last.0;
                assert(entries[i].0 == entries[entries.len() - 1].0);
            }
        }
        assert forall|k: Seq<char>| #[trigger] map_of(entries).contains_key(k) implies exists|
            i: int,
        | 0 <= i < entries.len() && (#[trigger] entries[i]).0 == k by {
            if k == last.0 {
                assert(entries[entries.len() - 1].0 == k);
            } else {
                assert(map_of(rest).contains_key(k));
                let i = choose|i: int| 0 <= i < rest.len() && (#[trigger] rest[i]).0 == k;
                assert(entries[i].0 == k);
            }
        }
        assert forall|i: int| 0 <= i < entries.len() implies map_of(entries).contains_key(
            (#[trigger] entries[i]).0,
        ) && map_of(entries)[entries[i].0] == entries[i].1 by {
            if i < rest.len() {
                assert(rest[i] == entries[i]);
                assert(entries[i].0 != entries[entries.len() - 1].0);
            }
        }
    }
}

proof fn lemma_map_of_update(entries: Seq<(Seq<char>, Seq<char>)>, i: int, value: Seq<char>)
    requires
        keys_distinct(entries),
        0 <= i < entries.len(),
    ensures
        keys_distinct(entries.update(i, (entries[i].0, value))),
        map_of(entries.update(i, (entries[i].0, value))) == map_of(entries).insert(
            entries[i].0,
            value,
        ),
    decreases entries.len(),
{
    let changed = entries.update(i, (entries[i].0, value));
    assert(keys_distinct(changed));
    let rest = entries.drop_last();
    let last = entries.last();
    if i == entries.len() - 1 {
        assert(changed.drop_last() == rest);
        assert(map_of(rest).insert(last.0, last.1).insert(last.0, value) == map_of(rest).insert(
            last.0,
            value,
        ));
    } else {
        lemma_map_of_update(rest, i, value);
        assert(changed.drop_last() == rest.update(i, (rest[i].0, value)));
        assert(entries[i].0 != entries[entries.len() - 1].0);
        assert(map_of(rest).insert(entries[i].0, value).insert(last.0, last.1) == map_of(
            rest,
        ).insert(last.0, last.1).insert(entries[i].0, value));
    }
}

impl PromptArguments {
    #[verifier::type_invariant]
    spec fn no_key_twice(&self) -> bool {
        keys_distinct(self.entries.deep_view())
    }

    /// No arguments.
    pub fn new() -> (r: PromptArguments)
        ensures
            r@ == Map::<Seq<char>, Seq<char>>::empty(),
    {
        let entries: Vec<Argument> = Vec::new();
        assert(entries.deep_view() == Seq::<(Seq<char>, Seq<char>)>::empty());
        PromptArguments { entries }
    }

    /// The position of `key` among the entries, or their number.
    fn position(&self, key: &str) -> (i: usize)
        ensures
            i <= self.entries@.len(),
            i < self.entries@.len() ==> self.entries@[i as int].key@ == key@,
            i == self.entries@.len() ==> forall|j: int|
                0 <= j < self.entries@.len() ==> (#[trigger] self.entries@[j]).key@ != key@,
    {
        let mut i: usize = 0;
        while i < self.entries.len()
            invariant
                i <= self.entries@.len(),
                forall|j: int| 0 <= j < i ==> (#[trigger] self.entries@[j]).key@ != key@,
            decreases self.entries@.len() - i,
        {
            if eq_str(self.entries[i].key.as_str(), key) {
                return i;
            }
            i += 1;
        }
        i
    }

    /// Gives `key` the value `value`, in place of an earlier one.
    pub fn insert(&mut self, key: String, value: String)
        ensures
            final(self)@ == old(self)@.insert(key@, value@),
    {
        proof {
            use_type_invariant(&*self);
        }
        let i: usize = self.position(key.as_str());
        let mut entries: Vec<Argument> = Vec::new();
        std::mem::swap(&mut entries, &mut self.entries);
        let ghost before = entries.deep_view();
        if i < entries.len() {
            let ghost entry = (key@, value@);
            entries.set(i, Argument { key, value });
            proof {
                assert(before[i as int].0 == key@);
                lemma_map_of_update(before, i as int, value@);
                assert(entries.deep_view() == before.update(i as int, entry));
            }
        } else {
            let ghost entry = (key@, value@);
            entries.push(Argument { key, value });
            proof {
                let after = entries.deep_view();
                assert(after == before.push(entry));
                assert(after.drop_last() == before);
                assert forall|j: int, k: int| 0 <= j < k < after.len() implies (
                #[trigger] after[j]).0 != (#[trigger] after[k]).0 by {
                    assert(after[j] == before[j]);
                    if k < before.len() {
                        assert(after[k] == before[k]);
                    }
                }
            }
        }
        self.entries = entries;
    }

    /// The value of `key`.
    pub fn get(&self, key: &str) -> (r: Option<&String>)
        ensures
            match r {
                Some(value) => self@.contains_key(key@) && self@[key@] == value@,
                None => !self@.contains_key(key@),
            },
    {
        proof {
            use_type_invariant(self);
            lemma_map_of(self.entries.deep_view());
        }
        let i: usize = self.position(key);
        if i < self.entries.len() {
            assert(self.entries.deep_view()[i as int] == self.entries@[i as int].deep_view());
            Some(&self.entries[i].value)
        } else {
            proof {
                let entries = self.entries.deep_view();
                assert forall|j: int| 0 <= j < entries.len() implies (#[trigger] entries[j]).0
                    != key@ by {
                    assert(entries[j].0 == self.entries@[j].key@);
                }
            }
            None
        }
    }

    /// How many keys have a value.
    pub fn len(&self) -> (n: usize)
        ensures
            n == self@.len(),
    {
        proof {
            use_type_invariant(self);
            lemma_map_of(self.entries.deep_view());
        }
        self.entries.len()
    }

    /// Whether no key has a value.
    pub fn is_empty(&self) -> (b: bool)
        ensures
            b == (self@.len() == 0),
    {
        self.len() == 0
    }

    /// The arguments one by one, each key once.
    pub fn entries(&self) -> (r: &Vec<Argument>)
        ensures
            map_of(r.deep_view()) == self@,
            keys_distinct(r.deep_view()),
    {
        proof {
            use_type_invariant(self);
        }
        &self.entries
    }
}

/// Of entries whose keys are distinct the map holds exactly the pairs that stand
/// among them.
pub proof fn law_map_holds_the_entries(
    entries: Seq<(Seq<char>, Seq<char>)>,
    key: Seq<char>,
    value: Seq<char>,
)
    requires
        keys_distinct(entries),
    ensures
        map_of(entries).contains_key(key) && map_of(entries)[key] == value <==> entries.contains(
            (key, value),
        ),
        map_of(entries).len() == entries.len(),
{
    lemma_map_of(entries);
    if entries.contains((key, value)) {
        let i = choose|i: int| 0 <= i < entries.len() && entries[i] == (key, value);
        assert(entries[i].0 == key && entries[i].1 == value);
    }
    if map_of(entries).contains_key(key) {
        let i = choose|i: int| 0 <= i < entries.len() && (#[trigger] entries[i]).0 == key;
        assert(entries[i] == (key, map_of(entries)[key]));
    }
}

} // verus!
