//! The store: the keys of a configuration and the value of each, and the
//! three ways to look a value up.

use crate::text::{chars_are, to_chars};
use std::collections::HashMap;
use vstd::hash_set::StringHashSet;
use vstd::prelude::*;
use vstd::set_lib::lemma_len_subset;
use vstd::string::StringExecFns;

verus! {

/// `ahash::RandomState`, the builder of the hashers that a table hashes
/// its keys with. It is made and handed to the table, and never looked
/// into.
#[verifier::external_type_specification]
#[verifier::external_body]
pub struct ExRandomState(ahash::RandomState);

/// What a table holds: the value of each of its keys, keys and values
/// taken as character sequences.
pub uninterp spec fn entries(table: HashMap<String, String, ahash::RandomState>) -> Map<
    Seq<char>,
    Seq<char>,
>;

/// The largest number of entries that a table is sized for in advance.
/// With it the table's size in bytes stays far below `isize::MAX`, on
/// 32-bit targets too.
pub const PRESIZE_LIMIT: usize = 0x10_0000;

/// `ahash::RandomState::new`: a builder of hashers with keys of its own,
/// drawn from the random source of the process. Nothing is claimed of the
/// keys. Where the operating system has no random bytes to give, `ahash`
/// panics; nothing that is handed to this library decides that.
#[verifier::external_body]
fn new_hasher() -> ahash::RandomState {
    ahash::RandomState::new()
}

/// `HashMap::with_capacity_and_hasher`: a table without entries, with room
/// for `capacity` of them, whose keys `hasher` hashes.
#[verifier::external_body]
fn new_table(capacity: usize, hasher: ahash::RandomState) -> (table: HashMap<
    String,
    String,
    ahash::RandomState,
>)
    requires
        capacity <= PRESIZE_LIMIT,
    ensures
        entries(table) =~= Map::empty(),
{
    HashMap::with_capacity_and_hasher(capacity, hasher)
}

/// Whether `m` has `n` keys, and so finitely many.
pub open spec fn has_len(m: Map<Seq<char>, Seq<char>>, n: nat) -> bool {
    m.dom().finite() && m.len() == n
}

/// `HashMap::len`: the number of entries.
#[verifier::external_body]
fn table_len(table: &HashMap<String, String, ahash::RandomState>) -> (n: usize)
    ensures
        has_len(entries(*table), n as nat),
{
    table.len()
}

/// `HashMap::insert`: afterwards `key` has the value `value`, whether or
/// not it had one before, and every other key has what it had.
#[verifier::external_body]
fn table_insert(table: &mut HashMap<String, String, ahash::RandomState>, key: String, value: String)
    ensures
        entries(*final(table)) == entries(*old(table)).insert(key@, value@),
{
    table.insert(key, value);
}

/// `HashMap::get`: the value of `key`, or `None` where the table has no
/// such key.
#[verifier::external_body]
fn table_get<'a>(table: &'a HashMap<String, String, ahash::RandomState>, key: &str) -> (found:
    Option<&'a String>)
    ensures
        match found {
            Some(value) => entries(*table).contains_key(key@) && entries(*table)[key@] == value@,
            None => !entries(*table).contains_key(key@),
        },
{
    table.get(key)
}

/// `HashMap::extend` with the entries of another table: afterwards every
/// key of `other` has the value it has there, and every other key has what
/// it had.
#[verifier::external_body]
fn table_extend(
    table: &mut HashMap<String, String, ahash::RandomState>,
    other: HashMap<String, String, ahash::RandomState>,
)
    ensures
        entries(*final(table)) == entries(*old(table)).union_prefer_right(entries(other)),
{
    table.extend(other);
}

/// The entries of a table in the order in which the table is walked
/// (`IntoIterator` for `&HashMap`, collected by `Vec::from_iter`). Every
/// entry is among them, and nothing else; of the order nothing is claimed.
#[verifier::external_body]
fn table_pairs<'a>(table: &'a HashMap<String, String, ahash::RandomState>) -> (pairs: Vec<
    (&'a String, &'a String),
>)
    ensures
        forall|i: int|
            0 <= i < pairs@.len() ==> entries(*table).contains_key((#[trigger] pairs@[i]).0@)
                && entries(*table)[pairs@[i].0@] == pairs@[i].1@,
        forall|k: Seq<char>|
            entries(*table).contains_key(k) ==> exists|i: int|
                0 <= i < pairs@.len() && (#[trigger] pairs@[i]).0@ == k,
{
    Vec::from_iter(table)
}

/// Where the chain of aliases that starts at `current` ends. A value that
/// is itself a key is an alias of that key, and is followed. The chain ends
/// at the first text that is no key, or whose value the chain has been at
/// before: `seen` holds the keys it has left behind.
pub open spec fn chain_end(
    m: Map<Seq<char>, Seq<char>>,
    current: Seq<char>,
    seen: Set<Seq<char>>,
) -> Seq<char>
    decreases m.dom().difference(seen).len(),
    when m.dom().finite()
{
    if m.contains_key(current) && !seen.contains(current) && m[current] != current
        && !seen.contains(m[current]) {
        proof {
            assert(m.dom().difference(seen.insert(current)) =~= m.dom().difference(seen).remove(
                current,
            ));
        }
        chain_end(m, m[current], seen.insert(current))
    } else {
        current
    }
}

/// What `key` resolves to when aliases are followed: the end of the chain
/// that starts at `key`, or `None` where `key` is no key.
pub open spec fn deep_value(m: Map<Seq<char>, Seq<char>>, key: Seq<char>) -> Option<Seq<char>> {
    if m.contains_key(key) {
        Some(chain_end(m, key, Set::empty()))
    } else {
        None
    }
}

/// Whether `path` is a chain of aliases: each of its texts but the last is
/// a key, and its value is the text that follows.
pub open spec fn is_chain(m: Map<Seq<char>, Seq<char>>, path: Seq<Seq<char>>) -> bool {
    forall|i: int|
        0 <= i < path.len() - 1 ==> m.contains_key(#[trigger] path[i]) && m[path[i]] == path[i + 1]
}

/// Whether the chain `path` cannot go on: its last text is no key, or is a
/// key whose value the chain has been at.
pub open spec fn is_at_its_end(m: Map<Seq<char>, Seq<char>>, path: Seq<Seq<char>>) -> bool {
    path.len() > 0 && (!m.contains_key(path.last()) || path.contains(m[path.last()]))
}

/// Whether `path` is the chain that starts with `start` and goes on as far
/// as it can without coming to a text twice.
pub open spec fn is_full_chain(
    m: Map<Seq<char>, Seq<char>>,
    path: Seq<Seq<char>>,
    start: Seq<Seq<char>>,
) -> bool {
    &&& start.len() <= path.len()
    &&& path.subrange(0, start.len() as int) == start
    &&& path.no_duplicates()
    &&& is_chain(m, path)
    &&& is_at_its_end(m, path)
}

proof fn lemma_chain_from(m: Map<Seq<char>, Seq<char>>, before: Seq<Seq<char>>, current: Seq<char>)
    requires
        m.dom().finite(),
        before.push(current).no_duplicates(),
        is_chain(m, before.push(current)),
    ensures
        exists|path: Seq<Seq<char>>|
            is_full_chain(m, path, before.push(current)) && #[trigger] path.last() == chain_end(
                m,
                current,
                before.to_set(),
            ),
    decreases m.dom().difference(before.to_set()).len(),
{
    let seen = before.to_set();
    let here = before.push(current);
    assert(!seen.contains(current)) by {
        if before.contains(current) {
            let i = choose|i: int| 0 <= i < before.len() && before[i] == current;
            assert(here[i] == current);
            assert(here[before.len() as int] == current);
        }
    }
    assert(here.to_set() =~= seen.insert(current)) by {
        assert forall|x: Seq<char>| here.to_set().contains(x) == seen.insert(current).contains(
            x,
        ) by {
            if here.contains(x) {
                let i = choose|i: int| 0 <= i < here.len() && here[i] == x;
                if i < before.len() {
                    assert(before[i] == x);
                }
            }
            if before.contains(x) {
                let i = choose|i: int| 0 <= i < before.len() && before[i] == x;
                assert(here[i] == x);
            }
            if x == current {
                assert(here[before.len() as int] == x);
            }
        }
    }
    if m.contains_key(current) && m[current] != current && !seen.contains(m[current]) {
        let next = m[current];
        let there = here.push(next);
        assert(there.no_duplicates()) by {
            assert forall|i: int, j: int| 0 <= i < there.len() && 0 <= j < there.len() && i != j implies there[i] != there[j] by {
                if i < here.len() && j < here.len() {
                    assert(here[i] != here[j]);
                } else if i < here.len() {
                    assert(here[i] == there[i]);
                    if here[i] == next {
                        assert(here.to_set().contains(next));
                    }
                } else {
                    assert(here[j] == there[j]);
                    if here[j] == next {
                        assert(here.to_set().contains(next));
                    }
                }
            }
        }
        assert(is_chain(m, there)) by {
            assert forall|i: int| 0 <= i < there.len() - 1 implies m.contains_key(
                #[trigger] there[i],
            ) && m[there[i]] == there[i + 1] by {
                if i < here.len() - 1 {
                    assert(there[i] == here[i]);
                    assert(there[i + 1] == here[i + 1]);
                }
            }
        }
        assert(m.dom().difference(here.to_set()) =~= m.dom().difference(seen).remove(current));
        lemma_chain_from(m, here, next);
        let path = choose|path: Seq<Seq<char>>|
            is_full_chain(m, path, there) && #[trigger] path.last() == chain_end(
                m,
                next,
                here.to_set(),
            );
        assert(path.subrange(0, here.len() as int) =~= here) by {
            assert(path.subrange(0, there.len() as int) == there);
            assert forall|i: int| 0 <= i < here.len() implies path[i] == here[i] by {
                assert(path.subrange(0, there.len() as int)[i] == there[i]);
            }
        }
        assert(is_full_chain(m, path, here));
    } else {
        assert(here.subrange(0, here.len() as int) =~= here);
        assert(here.last() == current);
        if m.contains_key(current) {
            if m[current] == current {
                assert(here[here.len() - 1] == m[current]);
            } else {
                assert(here.to_set().contains(m[current]));
            }
        }
        assert(is_full_chain(m, here, here));
    }
}

/// What a key resolves to is the end of the chain of aliases that starts
/// at the key and goes on as far as it can without coming to a text
/// twice.
pub proof fn lemma_deep_value_is_chain_end(m: Map<Seq<char>, Seq<char>>, key: Seq<char>)
    requires
        m.dom().finite(),
        m.contains_key(key),
    ensures
        exists|path: Seq<Seq<char>>|
            is_full_chain(m, path, seq![key]) && deep_value(m, key) == Some(#[trigger] path.last()),
{
    let none = Seq::<Seq<char>>::empty();
    assert(none.push(key) =~= seq![key]);
    assert(none.to_set() =~= Set::<Seq<char>>::empty());
    lemma_chain_from(m, none, key);
    let path = choose|path: Seq<Seq<char>>|
        is_full_chain(m, path, none.push(key)) && #[trigger] path.last() == chain_end(
            m,
            key,
            none.to_set(),
        );
    assert(is_full_chain(m, path, seq![key]));
}

/// Something is found for a key, and for nothing else.
pub proof fn lemma_deep_value_present(m: Map<Seq<char>, Seq<char>>, key: Seq<char>)
    ensures
        deep_value(m, key) is Some <==> m.contains_key(key),
{
}

/// A key whose value is no key resolves to that value.
pub proof fn lemma_deep_value_plain(m: Map<Seq<char>, Seq<char>>, key: Seq<char>)
    requires
        m.dom().finite(),
        m.contains_key(key),
        !m.contains_key(m[key]),
    ensures
        deep_value(m, key) == Some(m[key]),
{
    reveal_with_fuel(chain_end, 2);
}

/// A key that is its own value resolves to itself.
pub proof fn lemma_deep_value_of_itself(m: Map<Seq<char>, Seq<char>>, key: Seq<char>)
    requires
        m.dom().finite(),
        m.contains_key(key),
        m[key] == key,
    ensures
        deep_value(m, key) == Some(key),
{
}

/// Of two keys that are each the value of the other, each resolves to the
/// other: the chain goes round once and stops.
pub proof fn lemma_deep_value_of_pair(m: Map<Seq<char>, Seq<char>>, a: Seq<char>, b: Seq<char>)
    requires
        m.dom().finite(),
        m.contains_key(a),
        m.contains_key(b),
        m[a] == b,
        m[b] == a,
        a != b,
    ensures
        deep_value(m, a) == Some(b),
{
    reveal_with_fuel(chain_end, 2);
    assert(Set::<Seq<char>>::empty().insert(a).contains(a));
}

/// A chain of two aliases is followed to its end: where `a` has the value
/// `b`, `b` the value `c`, and `c` is no key, `a` resolves to `c`.
pub proof fn lemma_deep_value_of_chain(
    m: Map<Seq<char>, Seq<char>>,
    a: Seq<char>,
    b: Seq<char>,
    c: Seq<char>,
)
    requires
        m.dom().finite(),
        m.contains_key(a),
        m.contains_key(b),
        !m.contains_key(c),
        m[a] == b,
        m[b] == c,
    ensures
        deep_value(m, a) == Some(c),
{
    reveal_with_fuel(chain_end, 3);
    let one = Set::<Seq<char>>::empty().insert(a);
    assert(!one.contains(b));
    assert(!one.insert(b).contains(c));
}

/// Whether some key of `m` has the value `value`.
pub open spec fn has_value(m: Map<Seq<char>, Seq<char>>, value: Seq<char>) -> bool {
    exists|k: Seq<char>| m.contains_key(k) && #[trigger] m[k] == value
}

/// The index of the first of `pairs`, at or after `from`, whose value is
/// `value`, or `pairs.len()` where none has it.
pub open spec fn first_with_value(pairs: Seq<(&String, &String)>, value: Seq<char>, from: int) -> int
    decreases pairs.len() - from,
{
    if 0 <= from < pairs.len() && pairs[from].1@ != value {
        first_with_value(pairs, value, from + 1)
    } else if from < pairs.len() {
        from
    } else {
        pairs.len() as int
    }
}

/// `first_with_value` passes over pairs with other values only, and stops
/// at the first pair that has the value.
pub proof fn lemma_first_with_value(pairs: Seq<(&String, &String)>, value: Seq<char>, from: int)
    requires
        0 <= from <= pairs.len(),
    ensures
        from <= first_with_value(pairs, value, from) <= pairs.len(),
        forall|i: int|
            from <= i < first_with_value(pairs, value, from) ==> (#[trigger] pairs[i]).1@ != value,
        first_with_value(pairs, value, from) < pairs.len() ==> pairs[first_with_value(
            pairs,
            value,
            from,
        )].1@ == value,
    decreases pairs.len() - from,
{
    if from < pairs.len() && pairs[from].1@ != value {
        lemma_first_with_value(pairs, value, from + 1);
    }
}

/// The text of an optional reference.
pub open spec fn text_of(found: Option<&str>) -> Option<Seq<char>> {
    match found {
        Some(s) => Some(s@),
        None => None,
    }
}

/// The key of the first of `pairs` whose value is `value`.
pub fn first_key_of<'a>(pairs: &Vec<(&'a String, &'a String)>, value: &str) -> (r: Option<&'a str>)
    ensures
        text_of(r) == (if first_with_value(pairs@, value@, 0) < pairs@.len() {
            Some(pairs@[first_with_value(pairs@, value@, 0)].0@)
        } else {
            None
        }),
{
    let target = to_chars(value);
    let mut i: usize = 0;
    while i < pairs.len()
        invariant
            i <= pairs.len(),
            target@ == value@,
            first_with_value(pairs@, value@, 0) == first_with_value(pairs@, value@, i as int),
        decreases pairs.len() - i,
    {
        if chars_are(&target, pairs[i].1.as_str()) {
            return Some(pairs[i].0.as_str());
        }
        i += 1;
    }
    None
}

/// The keys of a configuration, each with its value. A key has one value:
/// the one it was given last.
pub struct Store {
    table: HashMap<String, String, ahash::RandomState>,
}

impl View for Store {
    type V = Map<Seq<char>, Seq<char>>;

    closed spec fn view(&self) -> Map<Seq<char>, Seq<char>> {
        entries(self.table)
    }
}

impl Store {
    /// A store without entries.
    pub fn new() -> (r: Store)
        ensures
            r@ == Map::<Seq<char>, Seq<char>>::empty(),
    {
        Store { table: new_table(0, new_hasher()) }
    }

    /// A store without entries, sized in advance for `capacity` of them.
    /// The size is a hint: beyond `PRESIZE_LIMIT` it is not followed.
    pub fn with_capacity(capacity: usize) -> (r: Store)
        ensures
            r@ == Map::<Seq<char>, Seq<char>>::empty(),
    {
        let room = if capacity <= PRESIZE_LIMIT {
            capacity
        } else {
            PRESIZE_LIMIT
        };
        Store { table: new_table(room, new_hasher()) }
    }

    /// The number of keys.
    pub fn len(&self) -> (n: usize)
        ensures
            self@.dom().finite(),
            n == self@.len(),
    {
        table_len(&self.table)
    }

    /// Gives `key` the value `value`, in place of the one it had if it had
    /// one.
    pub fn insert(&mut self, key: String, value: String)
        ensures
            final(self)@ == old(self)@.insert(key@, value@),
    {
        table_insert(&mut self.table, key, value);
    }

    /// The value of `key`.
    pub fn get(&self, key: &str) -> (r: Option<&str>)
        ensures
            text_of(r) == (if self@.contains_key(key@) {
                Some(self@[key@])
            } else {
                None
            }),
    {
        match table_get(&self.table, key) {
            Some(value) => Some(value.as_str()),
            None => None,
        }
    }

    /// Takes over the entries of `other`. Where both have a key, the value
    /// of `other` stays.
    pub fn absorb(&mut self, other: Store)
        ensures
            final(self)@ == old(self)@.union_prefer_right(other@),
    {
        table_extend(&mut self.table, other.table);
    }

    /// A key whose value is `value`: the first that comes up when the store
    /// is walked, in an order that is the store's own. `None` where no key
    /// has that value.
    pub fn find_key(&self, value: &str) -> (r: Option<&str>)
        ensures
            r matches Some(k) ==> self@.contains_key(k@) && self@[k@] == value@,
            r is None <==> !has_value(self@, value@),
    {
        let pairs = table_pairs(&self.table);
        let found = first_key_of(&pairs, value);
        proof {
            let at = first_with_value(pairs@, value@, 0);
            lemma_first_with_value(pairs@, value@, 0);
            if at < pairs@.len() {
                assert(self@.contains_key(pairs@[at].0@));
            } else if has_value(self@, value@) {
                let k = choose|k: Seq<char>| self@.contains_key(k) && #[trigger] self@[k] == value@;
                let j = choose|j: int| 0 <= j < pairs@.len() && (#[trigger] pairs@[j]).0@ == k;
                assert(pairs@[j].1@ == value@);
            }
        }
        found
    }

    /// The value of `key`; where `key` is no key, a key whose value is
    /// `key`.
    pub fn find_obj(&self, key: &str) -> (r: Option<&str>)
        ensures
            self@.contains_key(key@) ==> text_of(r) == Some(self@[key@]),
            !self@.contains_key(key@) ==> (r is None <==> !has_value(self@, key@)),
            !self@.contains_key(key@) ==> (r matches Some(k) ==> self@.contains_key(k@)
                && self@[k@] == key@),
    {
        match self.get(key) {
            Some(value) => Some(value),
            None => self.find_key(key),
        }
    }

    /// What `key` resolves to when aliases are followed.
    pub fn find_deep(&self, key: &str) -> (r: Option<&str>)
        ensures
            self@.dom().finite(),
            text_of(r) == deep_value(self@, key@),
    {
        let count = table_len(&self.table);
        let mut last: Option<&String> = None;
        let mut current: &str = key;
        let mut visited = StringHashSet::new();
        loop
            invariant
                self@.dom().finite(),
                visited@.finite(),
                visited@.subset_of(self@.dom()),
                !visited@.contains(current@),
                last is None ==> current@ == key@ && visited@ =~= Set::<Seq<char>>::empty(),
                last matches Some(l) ==> l@ == current@ && self@.contains_key(key@),
                self@.contains_key(key@) ==> chain_end(self@, key@, Set::empty()) == chain_end(
                    self@,
                    current@,
                    visited@,
                ),
            decreases self@.dom().len() - visited@.len(),
        {
            proof {
                lemma_len_subset(visited@, self@.dom());
            }
            match table_get(&self.table, current) {
                None => {
                    return match last {
                        Some(l) => Some(l.as_str()),
                        None => None,
                    };
                },
                Some(next) => {
                    let ghost before = visited@;
                    visited.insert(String::from_str(current));
                    proof {
                        lemma_len_subset(visited@, self@.dom());
                    }
                    if visited.contains(next.as_str()) {
                        return match last {
                            Some(l) => Some(l.as_str()),
                            None => Some(next.as_str()),
                        };
                    }
                    last = Some(next);
                    current = next.as_str();
                },
            }
        }
    }
}

} // verus!
