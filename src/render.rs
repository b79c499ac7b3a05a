use vstd::prelude::*;

use crate::deploy_item::{DeployItemView, ExecutableDeployItem};

verus! {

/// The lowercase hexadecimal digit of `d`.
pub open spec fn hex_digit(d: int) -> char {
    seq!['0', '1', '2', '3', '4', '5', '6', '7', '8', '9', 'a', 'b', 'c', 'd', 'e', 'f'][d]
}

/// Two lowercase hexadecimal digits for each byte, high digit first.
pub open spec fn hex_of(b: Seq<u8>) -> Seq<char>
    decreases b.len(),
{
    if b.len() == 0 {
        Seq::empty()
    } else {
        seq![hex_digit(b[0] as int / 16), hex_digit(b[0] as int % 16)] + hex_of(b.drop_first())
    }
}

/// `n` spaces.
pub open spec fn spaces(n: nat) -> Seq<char> {
    Seq::new(n, |i: int| ' ')
}

/// The hexadecimal of `b` in ten characters: centred between spaces where
/// it fits, else its first and last four digits around "..".
pub open spec fn hex_summary_of(b: Seq<u8>) -> Seq<char> {
    let h = hex_of(b);
    if h.len() <= 10 {
        let missing = (10 - h.len()) as nat;
        spaces(missing / 2) + h + spaces((missing - missing / 2) as nat)
    } else {
        h.subrange(0, 4) + seq!['.', '.'] + h.subrange(h.len() - 4, h.len() as int)
    }
}

/// What `{:?}` writes for a string: quoted, with special characters escaped.
pub uninterp spec fn debug_text_of(s: Seq<char>) -> Seq<char>;

/// The decimal digit of `d`.
pub open spec fn decimal_digit(d: nat) -> char {
    seq!['0', '1', '2', '3', '4', '5', '6', '7', '8', '9'][d as int]
}

/// `n` in decimal, without leading zeros.
pub open spec fn decimal_of(n: nat) -> Seq<char>
    decreases n,
{
    if n < 10 {
        seq![decimal_digit(n)]
    } else {
        decimal_of(n / 10) + seq![decimal_digit(n % 10)]
    }
}

/// `s` between double quotes.
pub open spec fn quoted(s: Seq<char>) -> Seq<char> {
    seq!['"'] + s + seq!['"']
}

/// Relies on `hex::encode`: two lowercase hexadecimal digits for each byte,
/// in order.
#[verifier::external_body]
fn hex_encode(b: &[u8]) -> (r: String)
    ensures
        r@ == hex_of(b@),
{
    hex::encode(b)
}

/// Relies on `hex_fmt::HexFmt` at width ten, centred: the whole hexadecimal
/// padded with spaces where it fits, else its first and last four digits
/// around "..".
#[verifier::external_body]
fn hex_summary(b: &[u8]) -> (r: String)
    ensures
        r@ == hex_summary_of(b@),
{
    format!("{:10}", hex_fmt::HexFmt(b))
}

/// Relies on `str`'s `Debug` formatting, which quotes and escapes.
#[verifier::external_body]
fn debug_str(s: &str) -> (r: String)
    ensures
        r@ == debug_text_of(s@),
{
    format!("{:?}", s)
}

fn push_digit(out: &mut String, d: u64)
    requires
        d < 10,
    ensures
        final(out)@ == old(out)@ + seq![decimal_digit(d as nat)],
{
    let digit = match d {
        0 => "0",
        1 => "1",
        2 => "2",
        3 => "3",
        4 => "4",
        5 => "5",
        6 => "6",
        7 => "7",
        8 => "8",
        _ => "9",
    };
    proof {
        reveal_strlit("0");
        reveal_strlit("1");
        reveal_strlit("2");
        reveal_strlit("3");
        reveal_strlit("4");
        reveal_strlit("5");
        reveal_strlit("6");
        reveal_strlit("7");
        reveal_strlit("8");
        reveal_strlit("9");
        assert(digit@ =~= seq![decimal_digit(d as nat)]);
    }
    out.append(digit);
}

fn push_decimal(out: &mut String, n: u64)
    ensures
        final(out)@ == old(out)@ + decimal_of(n as nat),
    decreases n,
{
    if n >= 10 {
        push_decimal(out, n / 10);
    }
    push_digit(out, n % 10);
    assert(final(out)@ =~= old(out)@ + decimal_of(n as nat));
}

impl DeployItemView {
    /// The one-line summary of the item.
    pub open spec fn summary(self) -> Seq<char> {
        match self {
            DeployItemView::ModuleBytes { module_bytes, args } => "execute module bytes "@
                + hex_summary_of(module_bytes) + ", args "@ + hex_summary_of(args),
            DeployItemView::StoredContractByHash { hash, entry_point, args } =>
                "execute stored contract by hash "@ + hex_of(hash) + ", entry point "@
                + entry_point + ", args "@ + hex_summary_of(args),
            DeployItemView::StoredContractByName { name, entry_point, args } =>
                "execute stored contract by name "@ + name + ", entry point "@ + entry_point
                + ", args "@ + hex_summary_of(args),
            DeployItemView::StoredVersionedContractByName { name, version, entry_point, args } =>
                "execute stored versioned contract "@ + name + version_text(version)
                + ", entry point "@ + entry_point + ", args "@ + hex_summary_of(args),
            DeployItemView::StoredVersionedContractByHash { hash, version, entry_point, args } =>
                "execute stored versioned contract by hash "@ + hex_of(hash) + version_text(version)
                + ", entry point "@ + entry_point + ", args "@ + hex_summary_of(args),
            DeployItemView::Transfer { args } => "execute transfer args "@ + hex_summary_of(args),
        }
    }

    /// The field-by-field dump of the item.
    pub open spec fn debug_dump(self) -> Seq<char> {
        match self {
            DeployItemView::ModuleBytes { module_bytes, args } => "ModuleBytes { module_bytes: "@
                + quoted(seq!['['] + decimal_of(module_bytes.len()) + " bytes]"@) + ", args: "@
                + quoted(hex_of(args)) + " }"@,
            DeployItemView::StoredContractByHash { hash, entry_point, args } =>
                "StoredContractByHash { hash: "@ + hex_of(hash) + ", entry_point: "@
                + debug_text_of(entry_point) + ", args: "@ + hex_of(args) + " }"@,
            DeployItemView::StoredContractByName { name, entry_point, args } =>
                "StoredContractByName { name: "@ + debug_text_of(name) + ", entry_point: "@
                + debug_text_of(entry_point) + ", args: "@ + hex_of(args) + " }"@,
            DeployItemView::StoredVersionedContractByName { name, version, entry_point, args } =>
                "StoredVersionedContractByName { name: "@ + debug_text_of(name) + ", version: "@
                + version_debug(version) + ", entry_point: "@ + debug_text_of(entry_point)
                + ", args: "@ + hex_of(args) + " }"@,
            DeployItemView::StoredVersionedContractByHash { hash, version, entry_point, args } =>
                "StoredVersionedContractByHash { hash: "@ + hex_of(hash) + ", version: "@
                + version_debug(version) + ", entry_point: "@ + debug_text_of(entry_point)
                + ", args: "@ + hex_of(args) + " }"@,
            DeployItemView::Transfer { args } => "Transfer { args: "@ + hex_of(args) + " }"@,
        }
    }
}

/// ", version <v>" for a given version, ", latest version" for none.
pub open spec fn version_text(v: Option<u32>) -> Seq<char> {
    match v {
        Some(n) => ", version "@ + decimal_of(n as nat),
        None => ", latest version"@,
    }
}

/// "Some(<v>)" or "None".
pub open spec fn version_debug(v: Option<u32>) -> Seq<char> {
    match v {
        Some(n) => "Some("@ + decimal_of(n as nat) + ")"@,
        None => "None"@,
    }
}

fn push_version_text(out: &mut String, v: Option<u32>)
    ensures
        final(out)@ == old(out)@ + version_text(v),
{
    match v {
        Some(n) => {
            out.append(", version ");
            push_decimal(out, n as u64);
        },
        None => out.append(", latest version"),
    }
    assert(final(out)@ =~= old(out)@ + version_text(v));
}

fn push_version_debug(out: &mut String, v: Option<u32>)
    ensures
        final(out)@ == old(out)@ + version_debug(v),
{
    match v {
        Some(n) => {
            out.append("Some(");
            push_decimal(out, n as u64);
            out.append(")");
        },
        None => out.append("None"),
    }
    assert(final(out)@ =~= old(out)@ + version_debug(v));
}

impl ExecutableDeployItem {
    /// A one-line, human-readable summary of the item, with its byte buffers
    /// shortened.
    pub fn summary(&self) -> (r: String)
        ensures
            r@ == self@.summary(),
    {
        let mut out = String::new();
        match self {
            ExecutableDeployItem::ModuleBytes { module_bytes, args } => {
                out.append("execute module bytes ");
                out.append(hex_summary(module_bytes.as_slice()).as_str());
                out.append(", args ");
            },
            ExecutableDeployItem::StoredContractByHash { hash, entry_point, args } => {
                out.append("execute stored contract by hash ");
                out.append(hex_encode(hash.0.as_slice()).as_str());
                out.append(", entry point ");
                out.append(entry_point.as_str());
                out.append(", args ");
            },
            ExecutableDeployItem::StoredContractByName { name, entry_point, args } => {
                out.append("execute stored contract by name ");
                out.append(name.as_str());
                out.append(", entry point ");
                out.append(entry_point.as_str());
                out.append(", args ");
            },
            ExecutableDeployItem::StoredVersionedContractByName {
                name,
                version,
                entry_point,
                args,
            } => {
                out.append("execute stored versioned contract ");
                out.append(name.as_str());
                push_version_text(&mut out, *version);
                out.append(", entry point ");
                out.append(entry_point.as_str());
                out.append(", args ");
            },
            ExecutableDeployItem::StoredVersionedContractByHash {
                hash,
                version,
                entry_point,
                args,
            } => {
                out.append("execute stored versioned contract by hash ");
                out.append(hex_encode(hash.0.as_slice()).as_str());
                push_version_text(&mut out, *version);
                out.append(", entry point ");
                out.append(entry_point.as_str());
                out.append(", args ");
            },
            ExecutableDeployItem::Transfer { .. } => {
                out.append("execute transfer args ");
            },
        }
        out.append(hex_summary(self.args_slice()).as_str());
        assert(out@ =~= self@.summary());
        out
    }

    /// A field-by-field dump of the item for logs, with byte buffers in
    /// hexadecimal and the code of module bytes as its length.
    pub fn debug_dump(&self) -> (r: String)
        ensures
            r@ == self@.debug_dump(),
    {
        let mut out = String::new();
        match self {
            ExecutableDeployItem::ModuleBytes { module_bytes, args } => {
                out.append("ModuleBytes { module_bytes: \"[");
                push_decimal(&mut out, module_bytes.len() as u64);
                out.append(" bytes]\", args: \"");
                out.append(hex_encode(args.as_slice()).as_str());
                out.append("\" }");
                proof {
                    reveal_strlit("ModuleBytes { module_bytes: \"[");
                    reveal_strlit("ModuleBytes { module_bytes: ");
                    reveal_strlit(" bytes]\", args: \"");
                    reveal_strlit(" bytes]");
                    reveal_strlit(", args: ");
                    reveal_strlit("\" }");
                    reveal_strlit(" }");
                }
                assert(out@ =~= self@.debug_dump());
                return out;
            },
            ExecutableDeployItem::StoredContractByHash { hash, entry_point, .. } => {
                out.append("StoredContractByHash { hash: ");
                out.append(hex_encode(hash.0.as_slice()).as_str());
                out.append(", entry_point: ");
                out.append(debug_str(entry_point.as_str()).as_str());
                out.append(", args: ");
            },
            ExecutableDeployItem::StoredContractByName { name, entry_point, .. } => {
                out.append("StoredContractByName { name: ");
                out.append(debug_str(name.as_str()).as_str());
                out.append(", entry_point: ");
                out.append(debug_str(entry_point.as_str()).as_str());
                out.append(", args: ");
            },
            ExecutableDeployItem::StoredVersionedContractByName {
                name,
                version,
                entry_point,
                ..
            } => {
                out.append("StoredVersionedContractByName { name: ");
                out.append(debug_str(name.as_str()).as_str());
                out.append(", version: ");
                push_version_debug(&mut out, *version);
                out.append(", entry_point: ");
                out.append(debug_str(entry_point.as_str()).as_str());
                out.append(", args: ");
            },
            ExecutableDeployItem::StoredVersionedContractByHash {
                hash,
                version,
                entry_point,
                ..
            } => {
                out.append("StoredVersionedContractByHash { hash: ");
                out.append(hex_encode(hash.0.as_slice()).as_str());
                out.append(", version: ");
                push_version_debug(&mut out, *version);
                out.append(", entry_point: ");
                out.append(debug_str(entry_point.as_str()).as_str());
                out.append(", args: ");
            },
            ExecutableDeployItem::Transfer { .. } => {
                out.append("Transfer { args: ");
            },
        }
        out.append(hex_encode(self.args_slice()).as_str());
        out.append(" }");
        assert(out@ =~= self@.debug_dump());
        out
    }

    /// The argument buffer.
    pub fn args_slice(&self) -> (r: &[u8])
        ensures
            r@ == self.spec_args(),
    {
        match self {
            ExecutableDeployItem::ModuleBytes { args, .. }
            | ExecutableDeployItem::StoredContractByHash { args, .. }
            | ExecutableDeployItem::StoredContractByName { args, .. }
            | ExecutableDeployItem::StoredVersionedContractByHash { args, .. }
            | ExecutableDeployItem::StoredVersionedContractByName { args, .. }
            | ExecutableDeployItem::Transfer { args } => args.as_slice(),
        }
    }
}

} // verus!
