use vstd::prelude::*;

use std::cmp::Ordering;

use crate::ordering::{
    bytes_field, cmp_bytes, cmp_version, fields_cmp, flip, lemma_bytes_field_injective,
    lemma_fields_cmp_1, lemma_fields_cmp_2, lemma_fields_cmp_3, lemma_fields_cmp_4,
    lemma_fields_equal, lemma_fields_flip, lemma_fields_trans, lemma_text_field_injective,
    lemma_version_field_injective, text_field, then_cmp, version_field,
};
use crate::keys::{Account, ContractHash, ContractPackageHash, Key};
use crate::runtime_args::{
    encodable, encode_args, lemma_decode_encoded_args, parse_args, ArgumentDecodeError, RuntimeArgs,
};

verus! {

/// The entry point of module bytes and of transfers.
pub const DEFAULT_ENTRY_POINT_NAME: &'static str = "call";

/// The executable part of a deploy: which code runs, and the still encoded
/// arguments that it receives.
#[derive(Clone, PartialEq, Eq, PartialOrd, Ord, Hash)]
#[allow(inconsistent_fields)]
pub enum ExecutableDeployItem {
    /// Code supplied with the deploy itself.
    ModuleBytes { module_bytes: Vec<u8>, args: Vec<u8> },
    /// A stored contract, by its address.
    StoredContractByHash { hash: ContractHash, entry_point: String, args: Vec<u8> },
    /// A stored contract, by a name in the caller's namespace.
    StoredContractByName { name: String, entry_point: String, args: Vec<u8> },
    /// A contract package, by a name in the caller's namespace; no version
    /// means the highest enabled one.
    StoredVersionedContractByName {
        name: String,
        version: Option<u32>,
        entry_point: String,
        args: Vec<u8>,
    },
    /// A contract package, by its address; no version means the highest
    /// enabled one.
    StoredVersionedContractByHash {
        hash: ContractPackageHash,
        version: Option<u32>,
        entry_point: String,
        args: Vec<u8>,
    },
    /// The built-in transfer of value.
    Transfer { args: Vec<u8> },
}

/// The value of an [`ExecutableDeployItem`], field by field.
#[allow(inconsistent_fields)]
pub enum DeployItemView {
    ModuleBytes { module_bytes: Seq<u8>, args: Seq<u8> },
    StoredContractByHash { hash: Seq<u8>, entry_point: Seq<char>, args: Seq<u8> },
    StoredContractByName { name: Seq<char>, entry_point: Seq<char>, args: Seq<u8> },
    StoredVersionedContractByName {
        name: Seq<char>,
        version: Option<u32>,
        entry_point: Seq<char>,
        args: Seq<u8>,
    },
    StoredVersionedContractByHash {
        hash: Seq<u8>,
        version: Option<u32>,
        entry_point: Seq<char>,
        args: Seq<u8>,
    },
    Transfer { args: Seq<u8> },
}

impl View for ExecutableDeployItem {
    type V = DeployItemView;

    open spec fn view(&self) -> DeployItemView {
        match self {
            ExecutableDeployItem::ModuleBytes { module_bytes, args } => DeployItemView::ModuleBytes {
                module_bytes: module_bytes@,
                args: args@,
            },
            ExecutableDeployItem::StoredContractByHash { hash, entry_point, args } => {
                DeployItemView::StoredContractByHash {
                    hash: hash.0@,
                    entry_point: entry_point@,
                    args: args@,
                }
            },
            ExecutableDeployItem::StoredContractByName { name, entry_point, args } => {
                DeployItemView::StoredContractByName {
                    name: name@,
                    entry_point: entry_point@,
                    args: args@,
                }
            },
            ExecutableDeployItem::StoredVersionedContractByName {
                name,
                version,
                entry_point,
                args,
            } => DeployItemView::StoredVersionedContractByName {
                name: name@,
                version: *version,
                entry_point: entry_point@,
                args: args@,
            },
            ExecutableDeployItem::StoredVersionedContractByHash {
                hash,
                version,
                entry_point,
                args,
            } => DeployItemView::StoredVersionedContractByHash {
                hash: hash.0@,
                version: *version,
                entry_point: entry_point@,
                args: args@,
            },
            ExecutableDeployItem::Transfer { args } => DeployItemView::Transfer { args: args@ },
        }
    }
}

impl DeployItemView {
    /// The position of the variant in declaration order.
    pub open spec fn rank(self) -> int {
        match self {
            DeployItemView::ModuleBytes { .. } => 0,
            DeployItemView::StoredContractByHash { .. } => 1,
            DeployItemView::StoredContractByName { .. } => 2,
            DeployItemView::StoredVersionedContractByName { .. } => 3,
            DeployItemView::StoredVersionedContractByHash { .. } => 4,
            DeployItemView::Transfer { .. } => 5,
        }
    }

    /// The fields in declaration order, each as the sequence it is ordered by.
    pub open spec fn fields(self) -> Seq<Seq<int>> {
        match self {
            DeployItemView::ModuleBytes { module_bytes, args } => seq![
                bytes_field(module_bytes),
                bytes_field(args),
            ],
            DeployItemView::StoredContractByHash { hash, entry_point, args } => seq![
                bytes_field(hash),
                text_field(entry_point),
                bytes_field(args),
            ],
            DeployItemView::StoredContractByName { name, entry_point, args } => seq![
                text_field(name),
                text_field(entry_point),
                bytes_field(args),
            ],
            DeployItemView::StoredVersionedContractByName { name, version, entry_point, args } => seq![
                text_field(name),
                version_field(version),
                text_field(entry_point),
                bytes_field(args),
            ],
            DeployItemView::StoredVersionedContractByHash { hash, version, entry_point, args } => seq![
                bytes_field(hash),
                version_field(version),
                text_field(entry_point),
                bytes_field(args),
            ],
            DeployItemView::Transfer { args } => seq![bytes_field(args)],
        }
    }

    /// The order of items: by variant first, then field by field, byte
    /// buffers and strings byte by byte.
    pub open spec fn order(self, other: DeployItemView) -> Ordering {
        if self.rank() < other.rank() {
            Ordering::Less
        } else if self.rank() > other.rank() {
            Ordering::Greater
        } else {
            fields_cmp(self.fields(), other.fields())
        }
    }
}

/// Why an item could not be resolved to a key.
#[derive(Clone, Debug, PartialEq, Eq)]
pub enum ResolveError {
    /// The caller's namespace holds no key of this name.
    NamedKeyNotFound(String),
}

/// The characters of the default entry point name.
pub open spec fn default_entry_point() -> Seq<char> {
    seq!['c', 'a', 'l', 'l']
}

impl ExecutableDeployItem {
    /// Whether the item runs code of its own or the built-in transfer, which
    /// need no lookup.
    pub open spec fn is_self_contained(&self) -> bool {
        self is ModuleBytes || self is Transfer
    }

    /// Whether the item names its contract in the caller's namespace.
    pub open spec fn is_name_addressed(&self) -> bool {
        self is StoredContractByName || self is StoredVersionedContractByName
    }

    /// The entry point that the item calls.
    pub open spec fn spec_entry_point(&self) -> Seq<char> {
        match self {
            ExecutableDeployItem::ModuleBytes { .. } => default_entry_point(),
            ExecutableDeployItem::Transfer { .. } => default_entry_point(),
            ExecutableDeployItem::StoredContractByHash { entry_point, .. } => entry_point@,
            ExecutableDeployItem::StoredContractByName { entry_point, .. } => entry_point@,
            ExecutableDeployItem::StoredVersionedContractByName { entry_point, .. } => entry_point@,
            ExecutableDeployItem::StoredVersionedContractByHash { entry_point, .. } => entry_point@,
        }
    }

    /// The name that a name-addressed item looks up.
    pub open spec fn spec_name(&self) -> Seq<char> {
        match self {
            ExecutableDeployItem::StoredContractByName { name, .. } => name@,
            ExecutableDeployItem::StoredVersionedContractByName { name, .. } => name@,
            _ => Seq::empty(),
        }
    }

    /// The argument buffer.
    pub open spec fn spec_args(&self) -> Seq<u8> {
        match self {
            ExecutableDeployItem::ModuleBytes { args, .. } => args@,
            ExecutableDeployItem::StoredContractByHash { args, .. } => args@,
            ExecutableDeployItem::StoredContractByName { args, .. } => args@,
            ExecutableDeployItem::StoredVersionedContractByName { args, .. } => args@,
            ExecutableDeployItem::StoredVersionedContractByHash { args, .. } => args@,
            ExecutableDeployItem::Transfer { args } => args@,
        }
    }

    /// What resolution against `account` gives: `None` where the name is
    /// missing from the namespace, else the key found, if any.
    pub open spec fn spec_resolution(&self, account: Account) -> Option<Option<Key>> {
        match self {
            ExecutableDeployItem::StoredContractByHash { hash, .. } => Some(Some(Key::Hash(hash.0))),
            ExecutableDeployItem::StoredVersionedContractByHash { hash, .. } => Some(
                Some(Key::Hash(hash.0)),
            ),
            ExecutableDeployItem::StoredContractByName { name, .. }
            | ExecutableDeployItem::StoredVersionedContractByName { name, .. } => {
                if account.named_keys().contains_key(name@) {
                    Some(Some(account.named_keys()[name@]))
                } else {
                    None
                }
            },
            _ => Some(None),
        }
    }

    /// Whether the item carries the address of its contract or package.
    pub open spec fn is_hash_addressed(&self) -> bool {
        self is StoredContractByHash || self is StoredVersionedContractByHash
    }

    fn variant_rank(&self) -> (r: u8)
        ensures
            r == self@.rank(),
    {
        match self {
            ExecutableDeployItem::ModuleBytes { .. } => 0,
            ExecutableDeployItem::StoredContractByHash { .. } => 1,
            ExecutableDeployItem::StoredContractByName { .. } => 2,
            ExecutableDeployItem::StoredVersionedContractByName { .. } => 3,
            ExecutableDeployItem::StoredVersionedContractByHash { .. } => 4,
            ExecutableDeployItem::Transfer { .. } => 5,
        }
    }

    /// Compares two items: by variant in declaration order, then field by
    /// field in declaration order.
    pub fn compare(&self, other: &ExecutableDeployItem) -> (r: Ordering)
        ensures
            r == self@.order(other@),
    {
        let (ra, rb) = (self.variant_rank(), other.variant_rank());
        if ra < rb {
            return Ordering::Less;
        } else if ra > rb {
            return Ordering::Greater;
        }
        let ghost (fa, fb) = (self@.fields(), other@.fields());
        match (self, other) {
            (
                ExecutableDeployItem::ModuleBytes { module_bytes: m1, args: a1 },
                ExecutableDeployItem::ModuleBytes { module_bytes: m2, args: a2 },
            ) => {
                proof {
                    lemma_fields_cmp_2(fa, fb);
                }
                then_cmp(cmp_bytes(m1.as_slice(), m2.as_slice()), cmp_bytes(a1.as_slice(), a2.as_slice()))
            },
            (
                ExecutableDeployItem::StoredContractByHash { hash: h1, entry_point: e1, args: a1 },
                ExecutableDeployItem::StoredContractByHash { hash: h2, entry_point: e2, args: a2 },
            ) => {
                proof {
                    lemma_fields_cmp_3(fa, fb);
                }
                then_cmp(
                    cmp_bytes(h1.0.as_slice(), h2.0.as_slice()),
                    then_cmp(
                        cmp_bytes(e1.as_str().as_bytes(), e2.as_str().as_bytes()),
                        cmp_bytes(a1.as_slice(), a2.as_slice()),
                    ),
                )
            },
            (
                ExecutableDeployItem::StoredContractByName { name: n1, entry_point: e1, args: a1 },
                ExecutableDeployItem::StoredContractByName { name: n2, entry_point: e2, args: a2 },
            ) => {
                proof {
                    lemma_fields_cmp_3(fa, fb);
                }
                then_cmp(
                    cmp_bytes(n1.as_str().as_bytes(), n2.as_str().as_bytes()),
                    then_cmp(
                        cmp_bytes(e1.as_str().as_bytes(), e2.as_str().as_bytes()),
                        cmp_bytes(a1.as_slice(), a2.as_slice()),
                    ),
                )
            },
            (
                ExecutableDeployItem::StoredVersionedContractByName {
                    name: n1,
                    version: v1,
                    entry_point: e1,
                    args: a1,
                },
                ExecutableDeployItem::StoredVersionedContractByName {
                    name: n2,
                    version: v2,
                    entry_point: e2,
                    args: a2,
                },
            ) => {
                proof {
                    lemma_fields_cmp_4(fa, fb);
                }
                then_cmp(
                    cmp_bytes(n1.as_str().as_bytes(), n2.as_str().as_bytes()),
                    then_cmp(
                        cmp_version(*v1, *v2),
                        then_cmp(
                            cmp_bytes(e1.as_str().as_bytes(), e2.as_str().as_bytes()),
                            cmp_bytes(a1.as_slice(), a2.as_slice()),
                        ),
                    ),
                )
            },
            (
                ExecutableDeployItem::StoredVersionedContractByHash {
                    hash: h1,
                    version: v1,
                    entry_point: e1,
                    args: a1,
                },
                ExecutableDeployItem::StoredVersionedContractByHash {
                    hash: h2,
                    version: v2,
                    entry_point: e2,
                    args: a2,
                },
            ) => {
                proof {
                    lemma_fields_cmp_4(fa, fb);
                }
                then_cmp(
                    cmp_bytes(h1.0.as_slice(), h2.0.as_slice()),
                    then_cmp(
                        cmp_version(*v1, *v2),
                        then_cmp(
                            cmp_bytes(e1.as_str().as_bytes(), e2.as_str().as_bytes()),
                            cmp_bytes(a1.as_slice(), a2.as_slice()),
                        ),
                    ),
                )
            },
            (
                ExecutableDeployItem::Transfer { args: a1 },
                ExecutableDeployItem::Transfer { args: a2 },
            ) => {
                proof {
                    lemma_fields_cmp_1(fa, fb);
                }
                cmp_bytes(a1.as_slice(), a2.as_slice())
            },
            _ => {
                proof {
                    assert(false);
                }
                Ordering::Equal
            },
        }
    }

    /// Decodes the argument buffer, which the item gives up.
    pub fn into_runtime_args(self) -> (r: Result<RuntimeArgs, ArgumentDecodeError>)
        ensures
            match r {
                Ok(a) => parse_args(self.spec_args()) == Ok::<_, ArgumentDecodeError>(a@),
                Err(e) => parse_args(self.spec_args()) == Err::<Seq<(Seq<char>, Seq<u8>)>, _>(e),
            },
    {
        match self {
            ExecutableDeployItem::ModuleBytes { args, .. }
            | ExecutableDeployItem::StoredContractByHash { args, .. }
            | ExecutableDeployItem::StoredContractByName { args, .. }
            | ExecutableDeployItem::StoredVersionedContractByHash { args, .. }
            | ExecutableDeployItem::StoredVersionedContractByName { args, .. }
            | ExecutableDeployItem::Transfer { args } => RuntimeArgs::from_bytes(&args),
        }
    }

    /// The entry point that the item calls: the default one for module
    /// bytes and transfers, the carried one otherwise.
    pub fn entry_point_name(&self) -> (r: &str)
        ensures
            r@ == self.spec_entry_point(),
    {
        proof {
            reveal_strlit("call");
        }
        match self {
            ExecutableDeployItem::ModuleBytes { .. } | ExecutableDeployItem::Transfer { .. } => {
                DEFAULT_ENTRY_POINT_NAME
            },
            ExecutableDeployItem::StoredVersionedContractByName { entry_point, .. }
            | ExecutableDeployItem::StoredVersionedContractByHash { entry_point, .. }
            | ExecutableDeployItem::StoredContractByHash { entry_point, .. }
            | ExecutableDeployItem::StoredContractByName { entry_point, .. } => entry_point.as_str(),
        }
    }

    /// The key of the contract or package that the item addresses: the
    /// carried address, the namespace entry of the carried name, or none for
    /// module bytes and transfers.
    pub fn to_contract_hash_key(&self, account: &Account) -> (r: Result<Option<Key>, ResolveError>)
        ensures
            r is Ok <==> self.spec_resolution(*account) is Some,
            r is Ok ==> r->Ok_0 == self.spec_resolution(*account)->0,
            r matches Err(ResolveError::NamedKeyNotFound(n)) ==> n@ == self.spec_name(),
    {
        match self {
            ExecutableDeployItem::StoredContractByHash { hash, .. } => Ok(
                Some(Key::from_contract_hash(*hash)),
            ),
            ExecutableDeployItem::StoredVersionedContractByHash { hash, .. } => Ok(
                Some(Key::from_package_hash(*hash)),
            ),
            ExecutableDeployItem::StoredContractByName { name, .. }
            | ExecutableDeployItem::StoredVersionedContractByName { name, .. } => {
                match account.named_key(name) {
                    Some(key) => Ok(Some(key)),
                    None => Err(ResolveError::NamedKeyNotFound(name.clone())),
                }
            },
            ExecutableDeployItem::ModuleBytes { .. } | ExecutableDeployItem::Transfer { .. } => {
                Ok(None)
            },
        }
    }
}

/// Items of an earlier variant come first, whatever their fields.
pub proof fn lemma_rank_dominates(a: DeployItemView, b: DeployItemView)
    requires
        a.rank() < b.rank(),
    ensures
        a.order(b) == Ordering::Less,
        b.order(a) == Ordering::Greater,
{
}

/// Swapping the two items reverses their order; so no item is before itself.
pub proof fn lemma_order_antisymmetric(a: DeployItemView, b: DeployItemView)
    ensures
        b.order(a) == flip(a.order(b)),
{
    lemma_fields_flip(a.fields(), b.fields());
}

/// The order holds two items level exactly when they are equal.
pub proof fn lemma_order_equal_iff_same(a: DeployItemView, b: DeployItemView)
    ensures
        a.order(b) == Ordering::Equal <==> a == b,
{
    lemma_fields_equal(a.fields(), b.fields());
    if a.order(b) == Ordering::Equal {
        let (fa, fb) = (a.fields(), b.fields());
        assert(fa.len() == fb.len());
        assert forall|i: int| 0 <= i < fa.len() implies fa[i] == fb[i] by {}
        match (a, b) {
            (DeployItemView::ModuleBytes { module_bytes: m1, args: a1 },
            DeployItemView::ModuleBytes { module_bytes: m2, args: a2 }) => {
                assert(fa[0] == fb[0] && fa[1] == fb[1]);
                lemma_bytes_field_injective(m1, m2);
                lemma_bytes_field_injective(a1, a2);
            },
            (DeployItemView::StoredContractByHash { hash: h1, entry_point: e1, args: a1 },
            DeployItemView::StoredContractByHash { hash: h2, entry_point: e2, args: a2 }) => {
                assert(fa[0] == fb[0] && fa[1] == fb[1] && fa[2] == fb[2]);
                lemma_bytes_field_injective(h1, h2);
                lemma_text_field_injective(e1, e2);
                lemma_bytes_field_injective(a1, a2);
            },
            (DeployItemView::StoredContractByName { name: n1, entry_point: e1, args: a1 },
            DeployItemView::StoredContractByName { name: n2, entry_point: e2, args: a2 }) => {
                assert(fa[0] == fb[0] && fa[1] == fb[1] && fa[2] == fb[2]);
                lemma_text_field_injective(n1, n2);
                lemma_text_field_injective(e1, e2);
                lemma_bytes_field_injective(a1, a2);
            },
            (
                DeployItemView::StoredVersionedContractByName {
                    name: n1,
                    version: v1,
                    entry_point: e1,
                    args: a1,
                },
                DeployItemView::StoredVersionedContractByName {
                    name: n2,
                    version: v2,
                    entry_point: e2,
                    args: a2,
                },
            ) => {
                assert(fa[0] == fb[0] && fa[1] == fb[1] && fa[2] == fb[2] && fa[3] == fb[3]);
                lemma_text_field_injective(n1, n2);
                lemma_version_field_injective(v1, v2);
                lemma_text_field_injective(e1, e2);
                lemma_bytes_field_injective(a1, a2);
            },
            (
                DeployItemView::StoredVersionedContractByHash {
                    hash: h1,
                    version: v1,
                    entry_point: e1,
                    args: a1,
                },
                DeployItemView::StoredVersionedContractByHash {
                    hash: h2,
                    version: v2,
                    entry_point: e2,
                    args: a2,
                },
            ) => {
                assert(fa[0] == fb[0] && fa[1] == fb[1] && fa[2] == fb[2] && fa[3] == fb[3]);
                lemma_bytes_field_injective(h1, h2);
                lemma_version_field_injective(v1, v2);
                lemma_text_field_injective(e1, e2);
                lemma_bytes_field_injective(a1, a2);
            },
            (DeployItemView::Transfer { args: a1 }, DeployItemView::Transfer { args: a2 }) => {
                assert(fa[0] == fb[0]);
                lemma_bytes_field_injective(a1, a2);
            },
            _ => {},
        }
    }
}

/// The order is transitive.
pub proof fn lemma_order_transitive(a: DeployItemView, b: DeployItemView, c: DeployItemView)
    requires
        a.order(b) == Ordering::Less,
        b.order(c) == Ordering::Less,
    ensures
        a.order(c) == Ordering::Less,
{
    if a.rank() == b.rank() && b.rank() == c.rank() {
        lemma_fields_trans(a.fields(), b.fields(), c.fields());
    }
}

/// Module bytes and transfers call the default entry point, whatever their
/// code and arguments.
pub proof fn lemma_self_contained_entry_point(item: ExecutableDeployItem)
    requires
        item.is_self_contained(),
    ensures
        item.spec_entry_point() == default_entry_point(),
{
}

/// Resolution gives no key, without failing, exactly for module bytes and
/// transfers.
pub proof fn lemma_no_key_iff_self_contained(item: ExecutableDeployItem, account: Account)
    ensures
        item.spec_resolution(account) == Some(None::<Key>) <==> item.is_self_contained(),
{
}

/// A name-addressed item whose name is missing from the namespace fails to
/// resolve.
pub proof fn lemma_missing_name_fails(item: ExecutableDeployItem, account: Account)
    requires
        item.is_name_addressed(),
        !account.named_keys().contains_key(item.spec_name()),
    ensures
        item.spec_resolution(account) is None,
{
}

/// An address-carrying item resolves to the key of its address, the same
/// whatever the account.
pub proof fn lemma_hash_addressed_ignores_account(
    item: ExecutableDeployItem,
    a1: Account,
    a2: Account,
)
    requires
        item.is_hash_addressed(),
    ensures
        item.spec_resolution(a1) == item.spec_resolution(a2),
        item.spec_resolution(a1) matches Some(Some(Key::Hash(_))),
{
}

/// Whatever the item, arguments encoded into its buffer decode back to
/// themselves.
pub proof fn lemma_item_args_round_trip(
    item: ExecutableDeployItem,
    args: Seq<(Seq<char>, Seq<u8>)>,
)
    requires
        encodable(args),
        item.spec_args() == encode_args(args),
    ensures
        parse_args(item.spec_args()) == Ok::<_, ArgumentDecodeError>(args),
{
    lemma_decode_encoded_args(args);
}

} // verus!
