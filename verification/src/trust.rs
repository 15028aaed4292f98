//! Hook trust: the hash that identifies a trusted hook configuration, the
//! names of the trust files, and the decision whether hooks are trusted.
//!
//! Trust is keyed by a SHA-256 hash of the main worktree's path and the
//! hooks; the files themselves are read and written by the caller.

use vstd::prelude::*;
use sha2::Digest;
use crate::config::{Hooks, spec_has_hooks};
use vstd::utf8::encode_utf8;
use crate::paths::same_path;
use crate::color::ColorScheme;
use crate::text::{from_chars, push_str, slice_chars, string_views, to_chars};

verus! {

/// Directory of the trust files under the user's data directory.
pub const TRUST_DIR_NAME: &'static str = "gwtx/trusted";

/// What SHA-256 gives for a byte sequence.
pub uninterp spec fn sha256_of(bytes: Seq<u8>) -> Seq<u8>;

/// The SHA-256 digest of bytes: `sha2`'s `Sha256::digest`, 32 bytes.
#[verifier::external_body]
fn sha256(bytes: &[u8]) -> (r: Vec<u8>)
    ensures
        r@ == sha256_of(bytes@),
        r@.len() == 32,
{
    sha2::Sha256::digest(bytes).to_vec()
}

/// The lowercase hexadecimal digit of `d < 16`.
pub open spec fn hex_digit(d: int) -> char {
    if d < 10 {
        ((d + 48) as u8) as char
    } else {
        ((d - 10 + 97) as u8) as char
    }
}

/// Bytes in lowercase hexadecimal, two digits each: `{:x}` of a digest.
pub open spec fn hex_lower(bytes: Seq<u8>) -> Seq<char>
    decreases bytes.len(),
{
    if bytes.len() == 0 {
        seq![]
    } else {
        hex_lower(bytes.drop_last()) + seq![
            hex_digit(bytes.last() as int / 16),
            hex_digit(bytes.last() as int % 16),
        ]
    }
}

proof fn lemma_hex_lower_len(bytes: Seq<u8>)
    ensures
        hex_lower(bytes).len() == 2 * bytes.len(),
    decreases bytes.len(),
{
    if bytes.len() > 0 {
        lemma_hex_lower_len(bytes.drop_last());
    }
}

fn hex_digit_exec(d: u8) -> (c: char)
    requires
        d < 16,
    ensures
        c == hex_digit(d as int),
{
    if d < 10 {
        ((d + 48) as u8) as char
    } else {
        ((d - 10 + 97) as u8) as char
    }
}

/// Bytes in lowercase hexadecimal.
pub fn to_hex(bytes: &[u8]) -> (r: String)
    ensures
        r@ == hex_lower(bytes@),
{
    let mut out: Vec<char> = Vec::new();
    let mut i: usize = 0;
    while i < bytes.len()
        invariant
            i <= bytes.len(),
            out@ == hex_lower(bytes@.take(i as int)),
        decreases bytes.len() - i,
    {
        let b = bytes[i];
        proof {
            assert(bytes@.take(i + 1).drop_last() =~= bytes@.take(i as int));
        }
        out.push(hex_digit_exec(b / 16));
        out.push(hex_digit_exec(b % 16));
        proof {
            assert(out@ =~= hex_lower(bytes@.take(i as int)) + seq![
                hex_digit(b as int / 16),
                hex_digit(b as int % 16),
            ]);
        }
        i = i + 1;
    }
    proof {
        assert(bytes@.take(bytes.len() as int) =~= bytes@);
    }
    from_chars(&out)
}

/// The bytes that identify a hook configuration: the canonical main worktree
/// path, a line feed, and the hooks as JSON.
pub open spec fn trust_input(canonical_path: &str, hooks_json: &str) -> Seq<u8> {
    encode_utf8(canonical_path@) + encode_utf8("\n"@) + encode_utf8(hooks_json@)
}

proof fn lemma_encoding_injective(a: Seq<char>, b: Seq<char>)
    requires
        encode_utf8(a) == encode_utf8(b),
    ensures
        a == b,
{
    vstd::utf8::encode_utf8_decode_utf8(a);
    vstd::utf8::encode_utf8_decode_utf8(b);
}

/// The bytes hashed for trust begin with the UTF-8 encoding of the
/// canonical path, then a line feed, then the hooks' JSON.
pub proof fn law_trust_input_layout(canonical_path: &str, hooks_json: &str)
    ensures
        ({
            let input = trust_input(canonical_path, hooks_json);
            let n = encode_utf8(canonical_path@).len() as int;
            &&& input.len() == n + 1 + encode_utf8(hooks_json@).len()
            &&& input.take(n) == encode_utf8(canonical_path@)
            &&& input[n] == 10u8
            &&& input.skip(n + 1) == encode_utf8(hooks_json@)
        }),
{
    reveal_strlit("\n");
    let e = encode_utf8("\n"@);
    assert("\n"@ =~= seq!['\n']);
    assert(('\n' as u32) == 10u32);
    assert((10u32 & 0x7F) as u8 == 10u8) by (bit_vector);
    assert(seq!['\n'].drop_first() =~= Seq::<char>::empty());
    assert(encode_utf8(Seq::<char>::empty()) =~= Seq::<u8>::empty());
    assert(vstd::utf8::encode_scalar(10u32) =~= seq![10u8]);
    assert(e =~= seq![10u8]);
    let input = trust_input(canonical_path, hooks_json);
    let n = encode_utf8(canonical_path@).len() as int;
    assert(input.take(n) =~= encode_utf8(canonical_path@));
    assert(input.skip(n + 1) =~= encode_utf8(hooks_json@));
}

/// The trust of one repository's hooks is not the trust of another's: two
/// different paths with the same hooks hash different bytes, and so do two
/// different hook configurations of the same path.
pub proof fn law_trust_input_tells_configurations_apart(
    path1: &str,
    path2: &str,
    hooks1: &str,
    hooks2: &str,
)
    ensures
        path1@ != path2@ && hooks1@ == hooks2@ ==> trust_input(path1, hooks1) != trust_input(path2, hooks2),
        path1@ == path2@ && hooks1@ != hooks2@ ==> trust_input(path1, hooks1) != trust_input(path2, hooks2),
{
    law_trust_input_layout(path1, hooks1);
    law_trust_input_layout(path2, hooks2);
    let i1 = trust_input(path1, hooks1);
    let i2 = trust_input(path2, hooks2);
    if i1 == i2 {
        if hooks1@ == hooks2@ {
            let n1 = encode_utf8(path1@).len() as int;
            let n2 = encode_utf8(path2@).len() as int;
            assert(n1 == n2);
            lemma_encoding_injective(path1@, path2@);
        }
        if path1@ == path2@ {
            lemma_encoding_injective(hooks1@, hooks2@);
        }
    }
}

fn concat_bytes(a: &[u8], b: &[u8]) -> (r: Vec<u8>)
    ensures
        r@ == a@ + b@,
{
    let mut out: Vec<u8> = Vec::new();
    let mut i: usize = 0;
    while i < a.len()
        invariant
            i <= a.len(),
            out@ == a@.take(i as int),
        decreases a.len() - i,
    {
        out.push(a[i]);
        proof {
            assert(a@.take(i + 1) =~= a@.take(i as int).push(a@[i as int]));
        }
        i = i + 1;
    }
    let mut j: usize = 0;
    proof {
        assert(a@.take(a.len() as int) =~= a@);
    }
    while j < b.len()
        invariant
            j <= b.len(),
            out@ == a@ + b@.take(j as int),
        decreases b.len() - j,
    {
        out.push(b[j]);
        proof {
            assert(a@ + b@.take(j + 1) =~= (a@ + b@.take(j as int)).push(b@[j as int]));
        }
        j = j + 1;
    }
    proof {
        assert(b@.take(b.len() as int) =~= b@);
    }
    out
}

/// The SHA-256 hash of a hook configuration, in lowercase hexadecimal:
/// `canonical_path` is the canonicalized main worktree path and
/// `hooks_json` the hooks serialized as JSON.
pub fn compute_hash(canonical_path: &str, hooks_json: &str) -> (r: String)
    ensures
        r@ == hex_lower(sha256_of(trust_input(canonical_path, hooks_json))),
        r@.len() == 64,
{
    let input = concat_bytes(canonical_path.as_bytes(), "\n".as_bytes());
    let input = concat_bytes(&input, hooks_json.as_bytes());
    let digest = sha256(&input);
    proof {
        lemma_hex_lower_len(digest@);
    }
    to_hex(&digest)
}

/// The directory of a main worktree's trust files: the first 16
/// hexadecimal digits of the SHA-256 hash of its path.
pub fn main_worktree_dir_name(path: &str) -> (r: String)
    ensures
        r@ == hex_lower(sha256_of(encode_utf8(path@))).take(16),
{
    let digest = sha256(path.as_bytes());
    let hex = to_hex(&digest);
    proof {
        lemma_hex_lower_len(digest@);
    }
    let cs = to_chars(hex.as_str());
    let first = slice_chars(&cs, 0, 16);
    proof {
        assert(first@ =~= hex_lower(sha256_of(encode_utf8(path@))).take(16));
    }
    from_chars(&first)
}

/// The name of the trust file for a hash.
pub fn trust_file_name(hash: &str) -> (r: String)
    ensures
        r@ == hash@ + ".yaml"@,
{
    let mut out = to_chars(hash);
    push_str(&mut out, ".yaml");
    from_chars(&out)
}

/// What a lookup of the trust file found.
pub enum TrustLookup {
    /// No trust file for these hooks.
    Missing,
    /// A trust file recording this main worktree path.
    Found(String),
}

/// Whether hooks are trusted: no hooks need no trust; otherwise a trust file
/// for their hash must exist and record the same main worktree path, so that
/// a path swapped for a symlink elsewhere is not trusted.
pub open spec fn trusted(has_hooks: bool, lookup: TrustLookup, canonical_path: Seq<char>) -> bool {
    if !has_hooks {
        true
    } else {
        match lookup {
            TrustLookup::Missing => false,
            TrustLookup::Found(p) => same_path(p@, canonical_path),
        }
    }
}

/// Whether `hooks` are trusted, given what the lookup of their trust file
/// found.
pub fn is_trusted(hooks: &Hooks, lookup: &TrustLookup, canonical_path: &str) -> (r: bool)
    ensures
        r == trusted(spec_has_hooks(*hooks), *lookup, canonical_path@),
{
    if !hooks.has_hooks() {
        return true;
    }
    match lookup {
        TrustLookup::Missing => false,
        TrustLookup::Found(p) => crate::paths::paths_equal(p.as_str(), canonical_path),
    }
}

/// A configuration without hooks is trusted whatever is stored.
pub proof fn law_no_hooks_trusted(lookup: TrustLookup, canonical_path: Seq<char>)
    ensures
        trusted(false, lookup, canonical_path),
{
}

/// Trust is never granted from a missing trust file when there are hooks.
pub proof fn law_missing_file_untrusted(canonical_path: Seq<char>)
    ensures
        !trusted(true, TrustLookup::Missing, canonical_path),
{
}

/// Whether a file name is a trust file's: it ends in `.yaml`.
pub open spec fn is_trust_file_name(name: Seq<char>) -> bool {
    crate::text::ends_with(name, ".yaml"@)
}

/// The trust files of one main worktree, by name, each with the main
/// worktree path it records.
pub open spec fn trust_store_after_trust(
    store: Map<Seq<char>, Seq<char>>,
    file: Seq<char>,
    canonical_path: Seq<char>,
) -> Map<Seq<char>, Seq<char>> {
    store.restrict(store.dom().filter(|n: Seq<char>| !is_trust_file_name(n))).insert(file, canonical_path)
}

/// The trust files after untrusting: the file for the current hooks is gone.
pub open spec fn trust_store_after_untrust(store: Map<Seq<char>, Seq<char>>, file: Seq<char>) -> Map<
    Seq<char>,
    Seq<char>,
> {
    store.remove(file)
}

/// What looking up a trust file in the store finds: the path it records.
pub open spec fn trust_store_lookup(store: Map<Seq<char>, Seq<char>>, file: Seq<char>) -> Option<Seq<char>> {
    if store.dom().contains(file) {
        Some(store[file])
    } else {
        None
    }
}

/// Whether hooks are trusted by what a lookup found.
pub open spec fn trusted_by(has_hooks: bool, found: Option<Seq<char>>, canonical_path: Seq<char>) -> bool {
    !has_hooks || (found matches Some(p) && same_path(p, canonical_path))
}

/// Trusting writes the trust file of the current hooks, so they are
/// trusted afterwards; and it deletes every other trust file of the main
/// worktree, so hooks that changed (whose trust file has another name) are
/// no longer trusted and must be trusted again.
pub proof fn law_trust_replaces_older_trust(
    store: Map<Seq<char>, Seq<char>>,
    file: Seq<char>,
    older: Seq<char>,
    canonical_path: Seq<char>,
)
    requires
        is_trust_file_name(older),
        older != file,
    ensures
        trusted_by(true, trust_store_lookup(trust_store_after_trust(store, file, canonical_path), file), canonical_path),
        !trusted_by(true, trust_store_lookup(trust_store_after_trust(store, file, canonical_path), older), canonical_path),
{
}

/// After untrusting, the hooks are not trusted, whatever was stored.
pub proof fn law_untrust_removes_trust(store: Map<Seq<char>, Seq<char>>, file: Seq<char>, canonical_path: Seq<char>)
    ensures
        !trusted_by(true, trust_store_lookup(trust_store_after_untrust(store, file), file), canonical_path),
{
}

/// The trust file names are the names that trusting deletes and untrusting
/// looks for: each ends in `.yaml`.
pub proof fn law_trust_file_names_are_trust_files(hash: Seq<char>)
    ensures
        is_trust_file_name(hash + ".yaml"@),
{
    assert((hash + ".yaml"@).skip(hash.len() as int) =~= ".yaml"@);
}

/// The files of a main worktree's trust directory that trusting deletes
/// before it writes the new trust file: those whose names end in `.yaml`.
pub fn stale_trust_files(names: &Vec<String>) -> (r: Vec<String>)
    ensures
        string_views(r@) == string_views(names@).filter(|n: Seq<char>| is_trust_file_name(n)),
{
    let mut out: Vec<String> = Vec::new();
    let mut i: usize = 0;
    while i < names.len()
        invariant
            i <= names.len(),
            string_views(out@) == string_views(names@).take(i as int).filter(|n: Seq<char>| is_trust_file_name(n)),
        decreases names.len() - i,
    {
        let ghost before = string_views(out@);
        proof {
            let nv = string_views(names@);
            assert(nv.take(i + 1).drop_last() =~= nv.take(i as int));
            assert(nv.take(i + 1).last() == names@[i as int]@);
            reveal(Seq::filter);
        }
        let cs = to_chars(names[i].as_str());
        let suffix = to_chars(".yaml");
        if crate::text::ends_with_chars(&cs, &suffix) {
            out.push(names[i].clone());
            proof {
                assert(string_views(out@) =~= before.push(names@[i as int]@));
            }
        }
        i = i + 1;
    }
    proof {
        assert(string_views(names@).take(names.len() as int) =~= string_views(names@));
    }
    out
}

/// A trusted repository as listed: its main worktree and when it was trusted.
pub struct TrustedRepo {
    pub main_worktree_path: String,
    pub trusted_at: String,
}

/// The lines that list the trusted repositories.
pub open spec fn trusted_list(entries: Seq<TrustedRepo>) -> Seq<Seq<char>>
    decreases entries.len(),
{
    if entries.len() == 0 {
        seq!["No trusted repositories"@]
    } else if entries.len() == 1 {
        seq![
            "Trusted repositories:"@,
            "  "@ + entries[0].main_worktree_path@,
            "    Trusted at: "@ + entries[0].trusted_at@,
        ]
    } else {
        trusted_list(entries.drop_last()) + seq![
            "  "@ + entries.last().main_worktree_path@,
            "    Trusted at: "@ + entries.last().trusted_at@,
        ]
    }
}

/// The lines that list the trusted repositories.
pub fn trusted_list_lines(entries: &Vec<TrustedRepo>) -> (r: Vec<String>)
    ensures
        string_views(r@) == trusted_list(entries@),
{
    let mut out: Vec<String> = Vec::new();
    if entries.len() == 0 {
        out.push("No trusted repositories".to_owned());
        return out;
    }
    out.push("Trusted repositories:".to_owned());
    let mut i: usize = 0;
    while i < entries.len()
        invariant
            0 < entries@.len(),
            i <= entries.len(),
            i == 0 ==> string_views(out@) == seq!["Trusted repositories:"@],
            i > 0 ==> string_views(out@) == trusted_list(entries@.take(i as int)),
        decreases entries.len() - i,
    {
        let ghost before = string_views(out@);
        let e = &entries[i];
        let mut l1 = to_chars("  ");
        push_str(&mut l1, e.main_worktree_path.as_str());
        out.push(from_chars(&l1));
        let mut l2 = to_chars("    Trusted at: ");
        push_str(&mut l2, e.trusted_at.as_str());
        out.push(from_chars(&l2));
        proof {
            assert(string_views(out@) =~= before + seq![
                "  "@ + entries@[i as int].main_worktree_path@,
                "    Trusted at: "@ + entries@[i as int].trusted_at@,
            ]);
            assert(entries@.take(i + 1).drop_last() =~= entries@.take(i as int));
            if i == 0 {
                assert(entries@.take(1)[0] == entries@[0]);
            }
        }
        i = i + 1;
    }
    proof {
        assert(entries@.take(entries.len() as int) =~= entries@);
    }
    out
}

/// What `untrust` reports.
pub fn untrust_message(removed: bool, repo_root: &str) -> (r: String)
    ensures
        removed ==> r@ == "Untrusted hooks for: "@ + repo_root@,
        !removed ==> r@ == "Hooks were not trusted: "@ + repo_root@,
{
    let mut out = if removed {
        to_chars("Untrusted hooks for: ")
    } else {
        to_chars("Hooks were not trusted: ")
    };
    push_str(&mut out, repo_root);
    from_chars(&out)
}

/// The notice shown when a configuration's hooks are not trusted, with the
/// command that skips them where there is one.
pub open spec fn untrusted_notice(scheme: ColorScheme, skip_hint: Option<Seq<char>>) -> Seq<Seq<char>> {
    seq![
        seq![],
        scheme.styled(scheme.theme.error, "Configuration is not trusted."@),
        "The .gwtx.yaml file contains hooks that can execute arbitrary commands."@,
        "For security, you must explicitly review and trust the configuration."@,
        seq![],
        "To trust this configuration, run:"@,
        "  gwtx trust"@,
    ] + match skip_hint {
        Some(c) => seq![seq![], "Or skip hooks:"@, "  "@ + c],
        None => seq![],
    }
}

/// The notice shown when a configuration's hooks are not trusted.
pub fn untrusted_notice_lines(scheme: &ColorScheme, skip_hint: Option<&str>) -> (r: Vec<String>)
    ensures
        string_views(r@) == untrusted_notice(
            *scheme,
            match skip_hint {
                Some(c) => Some(c@),
                None => None,
            },
        ),
{
    let mut out: Vec<String> = Vec::new();
    out.push(String::new());
    out.push(scheme.error("Configuration is not trusted."));
    out.push("The .gwtx.yaml file contains hooks that can execute arbitrary commands.".to_owned());
    out.push("For security, you must explicitly review and trust the configuration.".to_owned());
    out.push(String::new());
    out.push("To trust this configuration, run:".to_owned());
    out.push("  gwtx trust".to_owned());
    let ghost head = string_views(out@);
    match skip_hint {
        Some(c) => {
            out.push(String::new());
            out.push("Or skip hooks:".to_owned());
            let mut l = to_chars("  ");
            push_str(&mut l, c);
            out.push(from_chars(&l));
            proof {
                assert(string_views(out@) =~= head + seq![seq![], "Or skip hooks:"@, "  "@ + c@]);
            }
        },
        None => {
            proof {
                assert(head + seq![] =~= head);
            }
        },
    }
    proof {
        assert(head =~= seq![
            seq![],
            scheme.styled(scheme.theme.error, "Configuration is not trusted."@),
            "The .gwtx.yaml file contains hooks that can execute arbitrary commands."@,
            "For security, you must explicitly review and trust the configuration."@,
            seq![],
            "To trust this configuration, run:"@,
            "  gwtx trust"@,
        ]);
    }
    out
}

} // verus!
