use vstd::prelude::*;

verus! {

/// Address of a stored contract.
#[derive(Clone, Copy, Debug, PartialEq, Eq, PartialOrd, Ord, Hash)]
pub struct ContractHash(pub [u8; 32]);

/// Address of a stored contract package (a group of contract versions).
#[derive(Clone, Copy, Debug, PartialEq, Eq, PartialOrd, Ord, Hash)]
pub struct ContractPackageHash(pub [u8; 32]);

/// An address-like key in global state.
#[derive(Clone, Copy, Debug, PartialEq, Eq, PartialOrd, Ord, Hash)]
pub enum Key {
    /// An account, by its hash.
    Account([u8; 32]),
    /// A contract, a contract package or other hash-addressed data.
    Hash([u8; 32]),
    /// An unforgeable reference with its access rights.
    URef([u8; 32], u8),
}

impl Key {
    /// The key under which a stored contract lives.
    pub fn from_contract_hash(h: ContractHash) -> (r: Key)
        ensures
            r == Key::Hash(h.0),
    {
        Key::Hash(h.0)
    }

    /// The key under which a stored contract package lives.
    pub fn from_package_hash(h: ContractPackageHash) -> (r: Key)
        ensures
            r == Key::Hash(h.0),
    {
        Key::Hash(h.0)
    }
}

/// One entry of an account's namespace.
#[derive(Clone, Debug)]
struct NamedKey {
    name: String,
    key: Key,
}

/// The part of an account that resolution reads: its namespace, a mapping
/// from names to keys.
#[derive(Clone, Debug)]
pub struct Account {
    named_keys: Vec<NamedKey>,
}

/// The key of the first entry named `name` among `entries`.
pub open spec fn first_key_named(entries: Seq<(Seq<char>, Key)>, name: Seq<char>) -> Option<Key>
    decreases entries.len(),
{
    if entries.len() == 0 {
        None
    } else if entries[0].0 == name {
        Some(entries[0].1)
    } else {
        first_key_named(entries.drop_first(), name)
    }
}

impl Account {
    /// The namespace entries, in the order they were first added.
    pub closed spec fn entries(&self) -> Seq<(Seq<char>, Key)> {
        self.named_keys@.map_values(|e: NamedKey| (e.name@, e.key))
    }

    /// The namespace as a mapping from names to keys.
    pub open spec fn named_keys(&self) -> Map<Seq<char>, Key> {
        Map::new(
            |n: Seq<char>| first_key_named(self.entries(), n) is Some,
            |n: Seq<char>| first_key_named(self.entries(), n)->0,
        )
    }

    /// An account with an empty namespace.
    pub fn new() -> (r: Account)
        ensures
            r.named_keys() == Map::<Seq<char>, Key>::empty(),
    {
        let r = Account { named_keys: Vec::new() };
        assert(r.named_keys() =~= Map::<Seq<char>, Key>::empty());
        r
    }

    /// Looks `name` up in the namespace.
    pub fn named_key(&self, name: &String) -> (r: Option<Key>)
        ensures
            r == (if self.named_keys().contains_key(name@) {
                Some(self.named_keys()[name@])
            } else {
                None
            }),
    {
        let ghost all = self.entries();
        assert(all.subrange(0, all.len() as int) =~= all);
        let mut i: usize = 0;
        while i < self.named_keys.len()
            invariant
                i <= self.named_keys@.len(),
                all == self.entries(),
                first_key_named(all, name@) == first_key_named(all.subrange(i as int, all.len() as int), name@),
            decreases self.named_keys@.len() - i,
        {
            let ghost rest = all.subrange(i as int, all.len() as int);
            assert(rest.drop_first() =~= all.subrange(i + 1, all.len() as int));
            assert(rest[0] == (self.named_keys@[i as int].name@, self.named_keys@[i as int].key));
            if self.named_keys[i].name.eq(name) {
                return Some(self.named_keys[i].key);
            }
            i = i + 1;
        }
        None
    }

    /// Binds `name` to `key` in the namespace, replacing an earlier binding.
    pub fn insert_named_key(&mut self, name: String, key: Key)
        ensures
            final(self).named_keys() == old(self).named_keys().insert(name@, key),
    {
        let ghost before = self.entries();
        let mut i: usize = 0;
        while i < self.named_keys.len()
            invariant
                i <= self.named_keys@.len(),
                before == self.entries(),
                before == old(self).entries(),
                forall|j: int| 0 <= j < i ==> before[j].0 != name@,
            decreases self.named_keys@.len() - i,
        {
            if self.named_keys[i].name == name {
                self.named_keys.set(i, NamedKey { name, key });
                proof {
                    assert forall|n: Seq<char>|
                        first_key_named(self.entries(), n) == (if n == name@ {
                            Some(key)
                        } else {
                            first_key_named(before, n)
                        }) by {
                        lemma_first_key_replaced(before, self.entries(), i as int, n, name@);
                    }
                    assert(before == old(self).entries());
                    assert(self.named_keys() =~= old(self).named_keys().insert(name@, key));
                }
                return;
            }
            i = i + 1;
        }
        self.named_keys.push(NamedKey { name, key });
        proof {
            assert forall|n: Seq<char>|
                first_key_named(self.entries(), n) == (if n == name@ {
                    Some(key)
                } else {
                    first_key_named(before, n)
                }) by {
                assert(self.entries() =~= before.push((name@, key)));
                lemma_first_key_pushed(before, n, name@, key);
            }
            assert(self.named_keys() =~= old(self).named_keys().insert(name@, key));
        }
    }
}

proof fn lemma_first_key_replaced(
    before: Seq<(Seq<char>, Key)>,
    after: Seq<(Seq<char>, Key)>,
    i: int,
    n: Seq<char>,
    name: Seq<char>,
)
    requires
        0 <= i < before.len(),
        after.len() == before.len(),
        after[i].0 == name,
        before[i].0 == name,
        forall|j: int| 0 <= j < before.len() && j != i ==> after[j] == before[j],
        forall|j: int| 0 <= j < i ==> before[j].0 != name,
    ensures
        first_key_named(after, n) == (if n == name {
            Some(after[i].1)
        } else {
            first_key_named(before, n)
        }),
    decreases before.len(),
{
    if i == 0 {
        assert(after.drop_first() =~= before.drop_first());
    } else {
        let (b, a) = (before.drop_first(), after.drop_first());
        assert forall|j: int| 0 <= j < b.len() && j != i - 1 implies a[j] == b[j] by {
            assert(a[j] == after[j + 1] && b[j] == before[j + 1]);
        }
        assert forall|j: int| 0 <= j < i - 1 implies b[j].0 != name by {
            assert(b[j] == before[j + 1]);
        }
        assert(after[0] == before[0]);
        lemma_first_key_replaced(b, a, i - 1, n, name);
    }
}

proof fn lemma_first_key_pushed(before: Seq<(Seq<char>, Key)>, n: Seq<char>, name: Seq<char>, key: Key)
    requires
        forall|j: int| 0 <= j < before.len() ==> before[j].0 != name,
    ensures
        first_key_named(before.push((name, key)), n) == (if n == name {
            Some(key)
        } else {
            first_key_named(before, n)
        }),
    decreases before.len(),
{
    let pushed = before.push((name, key));
    if before.len() == 0 {
        assert(pushed.drop_first() =~= Seq::<(Seq<char>, Key)>::empty());
    } else {
        assert(pushed.drop_first() =~= before.drop_first().push((name, key)));
        assert(pushed[0] == before[0]);
        assert forall|j: int| 0 <= j < before.len() - 1 implies before.drop_first()[j].0 != name by {
            assert(before.drop_first()[j] == before[j + 1]);
        }
        lemma_first_key_pushed(before.drop_first(), n, name, key);
    }
}

} // verus!
