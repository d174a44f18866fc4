//! Credential names, scopes and the stored form of credential text.
//!
//! The Windows Credential Manager and the macOS Keychain themselves are reached
//! by the application; this module decides which targets are read, written and
//! deleted, and converts secrets to and from the bytes that the stores hold.

use vstd::prelude::*;
use vstd::string::*;
use sha2::Digest;
use crate::text::{contains_char, owned, push_char, str_eq};
use crate::utf16::{decode_utf16, encode_utf16, lemma_decode_encode, lemma_encode_zero_free, utf16_decode, utf16_encode};

verus! {

/// The SHA-256 digest of `data`, as the `sha2` crate computes it.
pub uninterp spec fn sha256(data: Seq<u8>) -> Seq<u8>;

/// `<sha2::Sha256 as Digest>::digest`: the SHA-256 digest of `data`. The
/// contract names the digest and states its length, 32 bytes (`Sha256` is
/// declared with output size `U32`); the hash function itself is not stated.
#[verifier::external_body]
fn sha256_digest(data: &[u8]) -> (digest: Vec<u8>)
    ensures
        digest@ == sha256(data@),
        digest@.len() == 32,
{
    sha2::Sha256::digest(data).to_vec()
}

/// The lowercase hexadecimal digit for `n < 16`.
pub open spec fn hex_digit(n: u8) -> char {
    if n < 10 {
        ((48 + n) as u8) as char
    } else {
        ((87 + n) as u8) as char
    }
}

/// Two lowercase hexadecimal digits per byte, as `format!("{byte:02x}")` writes them.
pub open spec fn hex_lower(bytes: Seq<u8>) -> Seq<char>
    decreases bytes.len(),
{
    if bytes.len() == 0 {
        Seq::empty()
    } else {
        seq![hex_digit(bytes[0] / 16), hex_digit(bytes[0] % 16)] + hex_lower(bytes.drop_first())
    }
}

/// A lowercase hexadecimal digit: `0`-`9` or `a`-`f`.
pub open spec fn is_lower_hex(c: char) -> bool {
    ('0' <= c && c <= '9') || ('a' <= c && c <= 'f')
}

/// Eight lowercase hexadecimal digits, the form of every scope.
pub open spec fn is_scope_text(s: Seq<char>) -> bool {
    s.len() == 8 && forall|i: int| 0 <= i < s.len() ==> is_lower_hex(#[trigger] s[i])
}

/// The scope that a digest gives: its first four bytes in lowercase hexadecimal.
pub open spec fn scope_of_digest(digest: Seq<u8>) -> Seq<char> {
    hex_lower(digest.take(4))
}

/// The scope of an installation whose canonical state root reads `root`.
pub open spec fn scope_of_root(root: Seq<char>) -> Seq<char> {
    scope_of_digest(sha256(vstd::utf8::encode_utf8(root)))
}

fn hex_char(n: u8) -> (c: char)
    requires
        n < 16,
    ensures
        c == hex_digit(n),
{
    if n < 10 {
        (48 + n) as char
    } else {
        (87 + n) as char
    }
}

/// The scope that `digest` gives: the lowercase hexadecimal of its first four bytes.
pub fn scope_from_digest(digest: &[u8]) -> (scope: String)
    requires
        digest@.len() >= 4,
    ensures
        scope@ == scope_of_digest(digest@),
        is_scope_text(scope@),
{
    let mut out = String::new();
    let mut i: usize = 0;
    while i < 4
        invariant
            i <= 4,
            digest@.len() >= 4,
            out@ + hex_lower(digest@.subrange(i as int, 4)) == scope_of_digest(digest@),
            out@.len() == 2 * i,
            forall|j: int| 0 <= j < out@.len() ==> is_lower_hex(#[trigger] out@[j]),
        decreases 4 - i,
    {
        let b = digest[i];
        proof {
            let rest = digest@.subrange(i as int, 4);
            assert(rest[0] == b);
            assert(rest.drop_first() =~= digest@.subrange(i + 1, 4));
            assert(out@ + hex_lower(rest) =~= out@.push(hex_digit(b / 16)).push(hex_digit(b % 16))
                + hex_lower(digest@.subrange(i + 1, 4)));
        }
        let hi = hex_char(b / 16);
        let lo = hex_char(b % 16);
        assert(is_lower_hex(hi) && is_lower_hex(lo));
        push_char(&mut out, hi);
        push_char(&mut out, lo);
        i = i + 1;
    }
    assert(digest@.take(4) =~= digest@.subrange(0, 4));
    assert(out@ + hex_lower(digest@.subrange(4, 4)) =~= out@);
    out
}

/// The code of the lowercase hexadecimal digit for `n < 16`: `0`-`9` for
/// 0-9, `a`-`f` for 10-15.
proof fn lemma_hex_digit_code(n: u8)
    requires
        n < 16,
    ensures
        hex_digit(n) as u32 == (if n < 10 { 48 + n } else { 97 + (n - 10) }),
{
    let b: u8 = if n < 10 { (48 + n) as u8 } else { (87 + n) as u8 };
    assert(hex_digit(n) == b as char);
    vstd::utf8::char_u32_cast(b as char, b as u32);
}

proof fn lemma_hex_lower_at(bytes: Seq<u8>, k: int)
    requires
        0 <= k < bytes.len(),
    ensures
        hex_lower(bytes).len() == 2 * bytes.len(),
        hex_lower(bytes)[2 * k] == hex_digit(bytes[k] / 16),
        hex_lower(bytes)[2 * k + 1] == hex_digit(bytes[k] % 16),
    decreases bytes.len(),
{
    lemma_hex_lower_len(bytes.drop_first());
    if k > 0 {
        lemma_hex_lower_at(bytes.drop_first(), k - 1);
    }
}

proof fn lemma_hex_lower_len(bytes: Seq<u8>)
    ensures
        hex_lower(bytes).len() == 2 * bytes.len(),
    decreases bytes.len(),
{
    if bytes.len() > 0 {
        lemma_hex_lower_len(bytes.drop_first());
    }
}

/// The scope spells out the first four digest bytes in order: for each byte,
/// the lowercase hexadecimal digit of its high nibble, then that of its low
/// nibble.
pub proof fn law_scope_spells_the_digest(digest: Seq<u8>, k: int)
    requires
        digest.len() >= 4,
        0 <= k < 4,
    ensures
        scope_of_digest(digest).len() == 8,
        scope_of_digest(digest)[2 * k] as u32 == (if digest[k] / 16 < 10 {
            48 + digest[k] / 16
        } else {
            97 + (digest[k] / 16 - 10)
        }),
        scope_of_digest(digest)[2 * k + 1] as u32 == (if digest[k] % 16 < 10 {
            48 + digest[k] % 16
        } else {
            97 + (digest[k] % 16 - 10)
        }),
{
    let first = digest.take(4);
    assert(first[k] == digest[k]);
    lemma_hex_lower_len(first);
    lemma_hex_lower_at(first, k);
    lemma_hex_digit_code(digest[k] / 16);
    lemma_hex_digit_code(digest[k] % 16);
}

/// The credential scope of an installation whose canonical state root reads
/// `canonical_root`: the first four bytes of the SHA-256 of its UTF-8 bytes,
/// in lowercase hexadecimal (eight digits).
pub fn credential_scope(canonical_root: &str) -> (scope: String)
    ensures
        scope@ == scope_of_root(canonical_root@),
        is_scope_text(scope@),
{
    let digest = sha256_digest(canonical_root.as_bytes());
    scope_from_digest(digest.as_slice())
}

/// The scope that credential names are pinned to: unset until an installation
/// root gives one, then fixed.
pub struct CredentialScope {
    scope: Option<String>,
}

impl View for CredentialScope {
    type V = Option<Seq<char>>;

    closed spec fn view(&self) -> Option<Seq<char>> {
        match self.scope {
            Some(s) => Some(s@),
            None => None,
        }
    }
}

/// A scope holds only where it is set and not empty.
pub open spec fn is_scoped(scope: Option<Seq<char>>) -> bool {
    scope matches Some(s) && s.len() > 0
}

impl CredentialScope {
    /// No scope yet: credential names keep the unscoped form.
    pub fn new() -> (s: Self)
        ensures
            s@ is None,
    {
        CredentialScope { scope: None }
    }

    /// The scope in force, if any.
    pub fn get(&self) -> (s: Option<&str>)
        ensures
            match self@ {
                Some(v) => s matches Some(t) && t@ == v,
                None => s is None,
            },
    {
        match &self.scope {
            Some(s) => Some(s.as_str()),
            None => None,
        }
    }
}

/// The scope after pinning it to the root `canonical_root`: the first
/// non-empty scope stays.
pub open spec fn pinned_scope(before: Option<Seq<char>>, canonical_root: Seq<char>) -> Option<Seq<char>> {
    if before is None && scope_of_root(canonical_root).len() > 0 {
        Some(scope_of_root(canonical_root))
    } else {
        before
    }
}

/// Pins credential names to the installation whose canonical state root reads
/// `canonical_root`. Safe to call more than once: the first non-empty scope wins.
pub fn set_scope_from_root(scope: &mut CredentialScope, canonical_root: &str)
    ensures
        final(scope)@ == pinned_scope(old(scope)@, canonical_root@),
        old(scope)@ is None ==> final(scope)@ == Some(scope_of_root(canonical_root@)),
        old(scope)@ is None ==> is_scope_text(scope_of_root(canonical_root@)),
{
    let computed = credential_scope(canonical_root);
    if computed.as_str().is_empty() {
        return;
    }
    if scope.scope.is_none() {
        scope.scope = Some(computed);
    }
}

/// The prefix of every credential target.
pub open spec fn target_prefix() -> Seq<char> {
    "CodexRouter/"@
}

/// The target under which the credential `name` is stored.
pub open spec fn scoped_target(scope: Option<Seq<char>>, name: Seq<char>) -> Seq<char> {
    if is_scoped(scope) {
        target_prefix() + scope->0 + "/"@ + name
    } else {
        target_prefix() + name
    }
}

/// The target that installations without a scope used for `name`.
pub open spec fn legacy_target(name: Seq<char>) -> Seq<char> {
    target_prefix() + name
}

/// The Windows credential target of `name`: `CodexRouter/{scope}/{name}` once a
/// scope is set, else `CodexRouter/{name}`.
pub fn wincred_target(scope: &CredentialScope, name: &str) -> (target: String)
    ensures
        target@ == scoped_target(scope@, name@),
{
    let mut target = owned("CodexRouter/");
    match scope.get() {
        Some(s) => {
            if !s.is_empty() {
                target.append(s);
                target.append("/");
            }
        },
        None => {},
    }
    target.append(name);
    target
}

/// The target `CodexRouter/{name}` that unscoped installations used.
pub fn legacy_wincred_target(name: &str) -> (target: String)
    ensures
        target@ == legacy_target(name@),
{
    let mut target = owned("CodexRouter/");
    target.append(name);
    target
}

/// The environment variable that overrides the credential `name`, for the
/// credentials that the headless host runtime needs.
pub open spec fn override_variable(name: Seq<char>) -> Option<Seq<char>> {
    if name == "AdminPassword"@ {
        Some("CODEX_ROUTER_ADMIN_PASSWORD"@)
    } else if name == "LocalApiKey"@ {
        Some("CODEX_ROUTER_LOCAL_API_KEY"@)
    } else if name == "CliManagementSecret"@ {
        Some("CODEX_ROUTER_CLI_MANAGEMENT_SECRET"@)
    } else {
        None
    }
}

/// The environment variable that overrides the credential `name`, if it has one.
pub fn environment_override(name: &str) -> (variable: Option<&'static str>)
    ensures
        match override_variable(name@) {
            Some(v) => variable matches Some(t) && t@ == v,
            None => variable is None,
        },
{
    if str_eq(name, "AdminPassword") {
        Some("CODEX_ROUTER_ADMIN_PASSWORD")
    } else if str_eq(name, "LocalApiKey") {
        Some("CODEX_ROUTER_LOCAL_API_KEY")
    } else if str_eq(name, "CliManagementSecret") {
        Some("CODEX_ROUTER_CLI_MANAGEMENT_SECRET")
    } else {
        None
    }
}

/// Whether `c` has the Unicode `White_Space` property (PropList.txt), which
/// `char::is_whitespace` and `str::trim` go by: U+0009..U+000D, U+0020,
/// U+0085, U+00A0, U+1680, U+2000..U+200A, U+2028, U+2029, U+202F, U+205F
/// and U+3000.
pub open spec fn white_space(c: char) -> bool {
    let v = c as u32;
    ||| 0x9 <= v <= 0xD
    ||| v == 0x20
    ||| v == 0x85
    ||| v == 0xA0
    ||| v == 0x1680
    ||| 0x2000 <= v <= 0x200A
    ||| v == 0x2028
    ||| v == 0x2029
    ||| v == 0x202F
    ||| v == 0x205F
    ||| v == 0x3000
}

/// Whether `c` has the Unicode `White_Space` property, as `char::is_whitespace` tells.
pub fn char_is_whitespace(c: char) -> (w: bool)
    ensures
        w == white_space(c),
{
    let v = c as u32;
    (0x9 <= v && v <= 0xD) || v == 0x20 || v == 0x85 || v == 0xA0 || v == 0x1680
        || (0x2000 <= v && v <= 0x200A) || v == 0x2028 || v == 0x2029 || v == 0x202F
        || v == 0x205F || v == 0x3000
}

/// A text that `str::trim` empties: every character is white space.
pub open spec fn is_blank(s: Seq<char>) -> bool {
    forall|i: int| 0 <= i < s.len() ==> white_space(#[trigger] s[i])
}

/// Whether `s.trim()` is empty.
pub fn trims_to_empty(s: &str) -> (blank: bool)
    ensures
        blank == is_blank(s@),
{
    let mut blank = true;
    for c in it: s.chars()
        invariant
            it.seq() == s@,
            blank == is_blank(s@.take(it.index() as int)),
    {
        proof {
            let before = s@.take(it.index() as int);
            assert(c == s@[it.index() as int]);
            assert(s@.take(it.index() + 1) =~= before.push(c));
            if !white_space(c) {
                assert(before.push(c)[before.len() as int] == c);
            }
            if blank && white_space(c) {
                assert forall|i: int| 0 <= i < before.push(c).len() implies white_space(#[trigger] before.push(c)[i]) by {
                    if i < before.len() {
                        assert(before.push(c)[i] == before[i]);
                    }
                }
            }
            if !blank {
                let k = choose|k: int| 0 <= k < before.len() && !white_space(before[k]);
                assert(before.push(c)[k] == before[k]);
            }
        }
        if !char_is_whitespace(c) {
            blank = false;
        }
    }
    assert(s@.take(s@.len() as int) =~= s@);
    blank
}

/// The targets that reading or deleting `name` visits, in order: the scoped
/// target, then, under a scope, the unscoped target of earlier installations.
pub open spec fn stored_targets(scope: Option<Seq<char>>, name: Seq<char>) -> Seq<Seq<char>> {
    if is_scoped(scope) {
        seq![scoped_target(scope, name), legacy_target(name)]
    } else {
        seq![scoped_target(scope, name)]
    }
}

/// The characters of each string in order.
pub open spec fn texts(v: Seq<String>) -> Seq<Seq<char>> {
    v.map_values(|t: String| t@)
}

fn targets_of(scope: &CredentialScope, name: &str) -> (targets: Vec<String>)
    ensures
        texts(targets@) == stored_targets(scope@, name@),
{
    let mut targets: Vec<String> = Vec::new();
    targets.push(wincred_target(scope, name));
    let scoped = match scope.get() {
        Some(s) => !s.is_empty(),
        None => false,
    };
    if scoped {
        targets.push(legacy_wincred_target(name));
    }
    assert(texts(targets@) =~= stored_targets(scope@, name@));
    targets
}

/// Where a credential is read from.
pub enum CredentialSource {
    /// The value of the overriding environment variable.
    Environment(String),
    /// The store, trying these targets in order until one holds the credential.
    Store(Vec<String>),
}

/// The environment value that overrides `name`: the variable's value where
/// `name` has an overriding variable and the value is not blank.
pub open spec fn effective_override(name: Seq<char>, value: Option<Seq<char>>) -> Option<Seq<char>> {
    if override_variable(name) is Some && (value matches Some(v) && !is_blank(v)) {
        value
    } else {
        None
    }
}

/// Where to read the credential `name` from. `variable_value` is the value of
/// the variable that `environment_override(name)` names, where it is set and
/// holds Unicode text.
pub fn read_text(scope: &CredentialScope, name: &str, variable_value: Option<&str>) -> (source: CredentialSource)
    ensures
        match effective_override(name@, match variable_value { Some(v) => Some(v@), None => None }) {
            Some(v) => source matches CredentialSource::Environment(t) && t@ == v,
            None => source matches CredentialSource::Store(targets) && texts(targets@) == stored_targets(scope@, name@),
        },
{
    if environment_override(name).is_some() {
        if let Some(value) = variable_value {
            if !trims_to_empty(value) {
                return CredentialSource::Environment(owned(value));
            }
        }
    }
    CredentialSource::Store(targets_of(scope, name))
}

/// Why a credential cannot be stored or read back.
#[derive(Clone, Copy, PartialEq, Eq, Structural, Debug)]
pub enum CredentialError {
    /// The credential is overridden by its environment variable and is read-only.
    EnvironmentReadOnly,
    /// The name is blank or holds a NUL character.
    InvalidName,
    /// The secret's UTF-16 size does not fit in 32 bits.
    TooLarge,
    /// The secret's UTF-16 form is longer than 2560 bytes.
    ExceedsLimit,
    /// The stored record has an odd size or no data.
    InvalidUtf16Data,
    /// The stored record is not valid UTF-16.
    InvalidUtf16,
    /// The Keychain answered with bytes that are not UTF-8.
    NotUtf8,
}

/// What writing the credential `name` comes to: the target to write, or the
/// reason it is refused.
pub open spec fn write_target_of(scope: Option<Seq<char>>, name: Seq<char>, variable_set: bool) -> Result<Seq<char>, CredentialError> {
    if override_variable(name) is Some && variable_set {
        Err(CredentialError::EnvironmentReadOnly)
    } else if is_blank(name) || name.contains('\0') {
        Err(CredentialError::InvalidName)
    } else {
        Ok(scoped_target(scope, name))
    }
}

/// The target that writing the credential `name` stores the secret under.
/// `variable_set` tells whether the variable that `environment_override(name)`
/// names is set.
pub fn write_text(scope: &CredentialScope, name: &str, variable_set: bool) -> (target: Result<String, CredentialError>)
    ensures
        match write_target_of(scope@, name@, variable_set) {
            Ok(t) => target matches Ok(s) && s@ == t,
            Err(e) => target == Err::<String, CredentialError>(e),
        },
{
    if environment_override(name).is_some() && variable_set {
        return Err(CredentialError::EnvironmentReadOnly);
    }
    if trims_to_empty(name) || contains_char(name, '\0') {
        return Err(CredentialError::InvalidName);
    }
    Ok(wincred_target(scope, name))
}

/// The targets that deleting the credential `name` removes, in order; a
/// target that holds nothing counts as removed.
pub fn delete_text(scope: &CredentialScope, name: &str) -> (targets: Vec<String>)
    ensures
        texts(targets@) == stored_targets(scope@, name@),
{
    targets_of(scope, name)
}

/// The little-endian bytes of UTF-16 units, as Windows lays them out in memory.
pub open spec fn le_bytes(units: Seq<u16>) -> Seq<u8> {
    Seq::new(
        2 * units.len(),
        |i: int| if i % 2 == 0 { (units[i / 2] % 256) as u8 } else { (units[i / 2] / 256) as u8 },
    )
}

/// The UTF-16 units that little-endian bytes of even length hold.
pub open spec fn le_units(bytes: Seq<u8>) -> Seq<u16> {
    Seq::new(bytes.len() / 2, |k: int| (bytes[2 * k] + 256 * bytes[2 * k + 1]) as u16)
}

/// Reading units back from their bytes gives the same units.
pub proof fn lemma_le_round_trip(units: Seq<u16>)
    ensures
        le_units(le_bytes(units)) == units,
{
    let b = le_bytes(units);
    assert forall|k: int| 0 <= k < units.len() implies #[trigger] le_units(b)[k] == units[k] by {
        assert((2 * k) % 2 == 0 && (2 * k) / 2 == k);
        assert((2 * k + 1) % 2 == 1 && (2 * k + 1) / 2 == k);
        assert(b[2 * k] == (units[k] % 256) as u8);
        assert(b[2 * k + 1] == (units[k] / 256) as u8);
    }
    assert(le_units(b) =~= units);
}

/// The index of the first zero unit, or the length where there is none.
pub open spec fn first_zero(units: Seq<u16>) -> int
    decreases units.len(),
{
    if units.len() == 0 {
        0
    } else if units[0] == 0 {
        0
    } else {
        1 + first_zero(units.drop_first())
    }
}

/// An index before which no unit is zero, and at which the units end or a zero
/// stands, is the first zero.
pub proof fn lemma_first_zero(units: Seq<u16>, i: int)
    requires
        0 <= i <= units.len(),
        forall|j: int| 0 <= j < i ==> units[j] != 0,
        i == units.len() || units[i] == 0,
    ensures
        first_zero(units) == i,
    decreases units.len(),
{
    if units.len() > 0 && i > 0 {
        let rest = units.drop_first();
        assert forall|j: int| 0 <= j < i - 1 implies rest[j] != 0 by {
            assert(rest[j] == units[j + 1]);
        }
        lemma_first_zero(rest, i - 1);
    }
}

/// The bytes that a secret is stored as in the Windows Credential Manager: its
/// UTF-16 units, little-endian, at most 2560 bytes.
pub open spec fn credential_blob_of(secret: Seq<char>) -> Result<Seq<u8>, CredentialError> {
    let units = utf16_encode(secret);
    if 2 * units.len() > u32::MAX {
        Err(CredentialError::TooLarge)
    } else if 2 * units.len() > 2560 {
        Err(CredentialError::ExceedsLimit)
    } else {
        Ok(le_bytes(units))
    }
}

/// Overwrites every unit with zero, so that a copy of a secret does not
/// outlive its use.
fn clear_units(units: &mut Vec<u16>)
    ensures
        final(units)@.len() == old(units)@.len(),
        forall|i: int| 0 <= i < final(units)@.len() ==> final(units)@[i] == 0,
{
    let n = units.len();
    let mut k: usize = 0;
    while k < n
        invariant
            n == units@.len(),
            k <= n,
            forall|i: int| 0 <= i < k ==> units@[i] == 0,
        decreases n - k,
    {
        units.set(k, 0);
        k = k + 1;
    }
}

/// The bytes to store for `secret` in the Windows Credential Manager.
pub fn credential_blob(secret: &str) -> (blob: Result<Vec<u8>, CredentialError>)
    ensures
        match credential_blob_of(secret@) {
            Ok(b) => blob matches Ok(v) && v@ == b,
            Err(e) => blob == Err::<Vec<u8>, CredentialError>(e),
        },
{
    let mut units = encode_utf16(secret);
    let n = units.len();
    if n > 0x7FFF_FFFF {
        clear_units(&mut units);
        return Err(CredentialError::TooLarge);
    }
    if n * 2 > 2560 {
        clear_units(&mut units);
        return Err(CredentialError::ExceedsLimit);
    }
    let mut bytes: Vec<u8> = Vec::new();
    let mut k: usize = 0;
    while k < n
        invariant
            n == units@.len(),
            k <= n,
            bytes@ == le_bytes(units@.take(k as int)),
        decreases n - k,
    {
        let u = units[k];
        proof {
            let next = units@.take(k + 1);
            assert(next =~= units@.take(k as int).push(u));
            assert(le_bytes(next) =~= le_bytes(units@.take(k as int)).push((u % 256) as u8).push((u / 256) as u8)) by {
                assert forall|i: int| 0 <= i < 2 * k implies le_bytes(next)[i] == le_bytes(units@.take(k as int))[i] by {
                    assert(i / 2 < k);
                }
                assert((2 * k) as int / 2 == k);
                assert((2 * k + 1) as int / 2 == k);
            }
        }
        bytes.push((u % 256) as u8);
        bytes.push((u / 256) as u8);
        k = k + 1;
    }
    assert(units@.take(n as int) =~= units@);
    clear_units(&mut units);
    Ok(bytes)
}

/// The secret that a stored Windows record holds: `None` stands for a record
/// without data. The bytes are UTF-16 units, little-endian, read up to the
/// first zero unit.
pub open spec fn credential_text(blob: Option<Seq<u8>>) -> Result<Seq<char>, CredentialError> {
    match blob {
        None => Err(CredentialError::InvalidUtf16Data),
        Some(b) => if b.len() % 2 != 0 {
            Err(CredentialError::InvalidUtf16Data)
        } else {
            let units = le_units(b);
            match utf16_decode(units.take(first_zero(units))) {
                Some(t) => Ok(t),
                None => Err(CredentialError::InvalidUtf16),
            }
        },
    }
}

/// The secret that a record read from the Windows Credential Manager holds.
pub fn decode_credential_blob(blob: Option<&[u8]>) -> (secret: Result<String, CredentialError>)
    ensures
        match credential_text(match blob { Some(b) => Some(b@), None => None }) {
            Ok(t) => secret matches Ok(s) && s@ == t,
            Err(e) => secret == Err::<String, CredentialError>(e),
        },
{
    let bytes = match blob {
        Some(b) => b,
        None => { return Err(CredentialError::InvalidUtf16Data); },
    };
    let len = bytes.len();
    if len % 2 != 0 {
        return Err(CredentialError::InvalidUtf16Data);
    }
    let ghost all = le_units(bytes@);
    let n = len / 2;
    let mut units: Vec<u16> = Vec::new();
    let mut k: usize = 0;
    while k < n
        invariant_except_break
            len == bytes@.len(),
            n == len / 2,
            all == le_units(bytes@),
            k <= n,
            units@ == all.take(k as int),
            forall|j: int| 0 <= j < k ==> all[j] != 0,
        ensures
            all == le_units(bytes@),
            units@ == all.take(k as int),
            k <= all.len(),
            forall|j: int| 0 <= j < k ==> all[j] != 0,
            k == all.len() || all[k as int] == 0,
        decreases n - k,
    {
        let u: u16 = (bytes[2 * k] as u16) + 256 * (bytes[2 * k + 1] as u16);
        assert(u == all[k as int]);
        if u == 0 {
            break;
        }
        assert(all.take(k + 1) =~= all.take(k as int).push(u));
        units.push(u);
        k = k + 1;
    }
    proof {
        lemma_first_zero(all, k as int);
    }
    let text = decode_utf16(units.as_slice());
    clear_units(&mut units);
    match text {
        Some(s) => Ok(s),
        None => Err(CredentialError::InvalidUtf16),
    }
}

/// The wide, NUL-terminated form of `value` that Windows APIs take.
pub fn wide(value: &str) -> (units: Vec<u16>)
    ensures
        units@ == utf16_encode(value@).push(0),
{
    let mut units = encode_utf16(value);
    units.push(0);
    units
}

/// `String::from_utf8`: the text that `bytes` encode in UTF-8, or `None`
/// where they are not valid UTF-8.
#[verifier::external_body]
fn string_from_utf8(bytes: Vec<u8>) -> (text: Option<String>)
    ensures
        text is Some <==> vstd::utf8::valid_utf8(bytes@),
        text matches Some(s) ==> s@ == vstd::utf8::decode_utf8(bytes@),
{
    String::from_utf8(bytes).ok()
}

/// `String::pop`: removes the last character and returns it.
#[verifier::external_body]
fn pop_char(s: &mut String) -> (last: Option<char>)
    ensures
        old(s)@.len() == 0 ==> last is None && final(s)@ == old(s)@,
        old(s)@.len() > 0 ==> last == Some(old(s)@.last()) && final(s)@ == old(s)@.drop_last(),
{
    s.pop()
}

/// The text without the newlines that end it.
pub open spec fn trim_trailing_newlines(s: Seq<char>) -> Seq<char>
    decreases s.len(),
{
    if s.len() > 0 && s.last() == '\n' {
        trim_trailing_newlines(s.drop_last())
    } else {
        s
    }
}

/// The secret that `security find-generic-password -w` printed: its UTF-8
/// output without the newlines that end it.
pub open spec fn keychain_text(stdout: Seq<u8>) -> Result<Seq<char>, CredentialError> {
    if vstd::utf8::valid_utf8(stdout) {
        Ok(trim_trailing_newlines(vstd::utf8::decode_utf8(stdout)))
    } else {
        Err(CredentialError::NotUtf8)
    }
}

/// The secret that the Keychain printed on standard output.
pub fn keychain_secret(stdout: Vec<u8>) -> (secret: Result<String, CredentialError>)
    ensures
        match keychain_text(stdout@) {
            Ok(t) => secret matches Ok(s) && s@ == t,
            Err(e) => secret == Err::<String, CredentialError>(e),
        },
{
    let ghost bytes = stdout@;
    let mut text = match string_from_utf8(stdout) {
        Some(t) => t,
        None => { return Err(CredentialError::NotUtf8); },
    };
    let ghost decoded = text@;
    loop
        invariant
            vstd::utf8::valid_utf8(bytes),
            decoded == vstd::utf8::decode_utf8(bytes),
            trim_trailing_newlines(text@) == trim_trailing_newlines(decoded),
        ensures
            vstd::utf8::valid_utf8(bytes),
            decoded == vstd::utf8::decode_utf8(bytes),
            trim_trailing_newlines(text@) == trim_trailing_newlines(decoded),
            trim_trailing_newlines(text@) == text@,
        decreases text@.len(),
    {
        let ghost before = text@;
        match pop_char(&mut text) {
            Some(c) => {
                if c != '\n' {
                    push_char(&mut text, c);
                    assert(text@ =~= before);
                    break;
                }
            },
            None => { break; },
        }
    }
    Ok(text)
}

/// What reading one target of the store gave.
pub enum TargetRead {
    /// The target holds this secret.
    Found(String),
    /// The target holds nothing.
    Missing,
    /// Reading the target failed.
    Failed,
}

/// A read result as plain values: `Err(())` for a failed read, `Ok(None)`
/// for a target that holds nothing.
pub open spec fn read_event(event: TargetRead) -> Result<Option<Seq<char>>, ()> {
    match event {
        TargetRead::Found(s) => Ok(Some(s@)),
        TargetRead::Missing => Ok(None),
        TargetRead::Failed => Err(()),
    }
}

/// What reading a credential does next.
pub enum ReadNext {
    /// Read the target at this index of the list.
    ReadTarget(usize),
    /// Return this secret, or that there is none.
    Finish(Option<String>),
    /// Return the error of the last read.
    Fail,
}

/// What reading a credential does next, as plain values.
pub ghost enum ReadMove {
    ReadTarget(nat),
    Finish(Option<Seq<char>>),
    Fail,
}

impl View for ReadNext {
    type V = ReadMove;

    open spec fn view(&self) -> ReadMove {
        match self {
            ReadNext::ReadTarget(i) => ReadMove::ReadTarget(*i as nat),
            ReadNext::Finish(Some(s)) => ReadMove::Finish(Some(s@)),
            ReadNext::Finish(None) => ReadMove::Finish(None),
            ReadNext::Fail => ReadMove::Fail,
        }
    }
}

/// The move after reading target `index` of `count` gave `event`: a secret
/// found ends the read, an error stops it, an empty target passes to the next.
pub open spec fn read_move(count: nat, index: nat, event: Result<Option<Seq<char>>, ()>) -> ReadMove {
    match event {
        Err(_) => ReadMove::Fail,
        Ok(Some(s)) => ReadMove::Finish(Some(s)),
        Ok(None) => if index + 1 < count {
            ReadMove::ReadTarget(index + 1)
        } else {
            ReadMove::Finish(None)
        },
    }
}

/// The first move of reading `count` targets.
pub fn read_first(count: usize) -> (next: ReadNext)
    ensures
        next@ == (if count > 0 { ReadMove::ReadTarget(0) } else { ReadMove::Finish(None) }),
{
    if count > 0 {
        ReadNext::ReadTarget(0)
    } else {
        ReadNext::Finish(None)
    }
}

/// The move after reading target `index` of `count` gave `event`.
pub fn read_next(count: usize, index: usize, event: TargetRead) -> (next: ReadNext)
    requires
        index < count,
    ensures
        next@ == read_move(count as nat, index as nat, read_event(event)),
{
    match event {
        TargetRead::Found(s) => ReadNext::Finish(Some(s)),
        TargetRead::Failed => ReadNext::Fail,
        TargetRead::Missing => if index + 1 < count {
            ReadNext::ReadTarget(index + 1)
        } else {
            ReadNext::Finish(None)
        },
    }
}

/// Where reading `targets` from `index` on ends, where reading a target gives
/// `events(target)`.
pub open spec fn read_run(
    events: spec_fn(Seq<char>) -> Result<Option<Seq<char>>, ()>,
    targets: Seq<Seq<char>>,
    index: nat,
) -> ReadMove
    decreases targets.len() - index,
{
    if index >= targets.len() {
        ReadMove::Finish(None)
    } else {
        match events(targets[index as int]) {
            Err(_) => ReadMove::Fail,
            Ok(Some(s)) => ReadMove::Finish(Some(s)),
            Ok(None) => read_run(events, targets, index + 1),
        }
    }
}

/// Following `read_first` and `read_next` reads the targets in order and ends
/// where `read_run` says.
pub proof fn law_read_moves_follow_the_run(
    events: spec_fn(Seq<char>) -> Result<Option<Seq<char>>, ()>,
    targets: Seq<Seq<char>>,
    index: nat,
)
    requires
        index < targets.len(),
    ensures
        read_run(events, targets, index) == match read_move(targets.len(), index, events(targets[index as int])) {
            ReadMove::ReadTarget(j) => read_run(events, targets, j),
            other => other,
        },
{
    reveal_with_fuel(read_run, 2);
}

/// What reading a target of the Windows Credential Manager gives, where
/// `store` maps targets to their records' bytes: nothing for a missing target,
/// the decoded secret, or an error for a record that does not decode.
pub open spec fn windows_events(store: Map<Seq<char>, Seq<u8>>) -> spec_fn(Seq<char>) -> Result<Option<Seq<char>>, ()> {
    |t: Seq<char>| if store.contains_key(t) {
        match credential_text(Some(store[t])) {
            Ok(s) => Ok(Some(s)),
            Err(_) => Err(()),
        }
    } else {
        Ok(None)
    }
}

/// What reading a target of the Keychain gives, where `store` maps targets to
/// their secrets and `security find-generic-password -w` prints a secret
/// followed by a newline.
pub open spec fn keychain_events(store: Map<Seq<char>, Seq<char>>) -> spec_fn(Seq<char>) -> Result<Option<Seq<char>>, ()> {
    |t: Seq<char>| if store.contains_key(t) {
        match keychain_text(vstd::utf8::encode_utf8(store[t].push('\n'))) {
            Ok(s) => Ok(Some(s)),
            Err(_) => Err(()),
        }
    } else {
        Ok(None)
    }
}

/// A secret written to the Windows Credential Manager reads back: where
/// writing `name` succeeds (the overriding variable, if any, unset) and the
/// secret has no NUL character, storing its bytes under the written target
/// makes reading `name` take the store and end with that secret, whatever else
/// the store holds.
pub proof fn law_written_secret_reads_back(
    scope: Option<Seq<char>>,
    name: Seq<char>,
    variable_value: Option<Seq<char>>,
    secret: Seq<char>,
    store: Map<Seq<char>, Seq<u8>>,
)
    requires
        write_target_of(scope, name, variable_value is Some) is Ok,
        credential_blob_of(secret) is Ok,
        !secret.contains('\0'),
    ensures
        effective_override(name, variable_value) is None,
        read_run(
            windows_events(store.insert(write_target_of(scope, name, variable_value is Some)->Ok_0, credential_blob_of(secret)->Ok_0)),
            stored_targets(scope, name),
            0,
        ) == ReadMove::Finish(Some(secret)),
{
    law_stored_secret_reads_back(secret);
    let t = write_target_of(scope, name, variable_value is Some)->Ok_0;
    let targets = stored_targets(scope, name);
    assert(targets[0] == t);
    let events = windows_events(store.insert(t, credential_blob_of(secret)->Ok_0));
    assert(events(t) == Ok::<Option<Seq<char>>, ()>(Some(secret)));
}

/// A secret written to the Keychain reads back, where writing `name` succeeds
/// and the secret does not end with a newline.
pub proof fn law_keychain_written_secret_reads_back(
    scope: Option<Seq<char>>,
    name: Seq<char>,
    variable_value: Option<Seq<char>>,
    secret: Seq<char>,
    store: Map<Seq<char>, Seq<char>>,
)
    requires
        write_target_of(scope, name, variable_value is Some) is Ok,
        secret.len() == 0 || secret.last() != '\n',
    ensures
        effective_override(name, variable_value) is None,
        read_run(
            keychain_events(store.insert(write_target_of(scope, name, variable_value is Some)->Ok_0, secret)),
            stored_targets(scope, name),
            0,
        ) == ReadMove::Finish(Some(secret)),
{
    law_keychain_secret_reads_back(secret);
    let t = write_target_of(scope, name, variable_value is Some)->Ok_0;
    let targets = stored_targets(scope, name);
    assert(targets[0] == t);
    let events = keychain_events(store.insert(t, secret));
    assert(events(t) == Ok::<Option<Seq<char>>, ()>(Some(secret)));
}

/// What deleting one target of the store gave.
#[derive(Clone, Copy, PartialEq, Eq, Structural, Debug)]
pub enum TargetDelete {
    /// The target held a credential, which is gone.
    Deleted,
    /// The target held nothing.
    Missing,
    /// Deleting the target failed.
    Failed,
}

/// What deleting a credential does next.
#[derive(Clone, Copy, PartialEq, Eq, Structural, Debug)]
pub enum DeleteNext {
    /// Delete the target at this index of the list.
    DeleteTarget(usize),
    /// Report success.
    Finish,
    /// Return the error of the last delete.
    Fail,
}

/// The first move of deleting `count` targets.
pub fn delete_first(count: usize) -> (next: DeleteNext)
    ensures
        next == (if count > 0 { DeleteNext::DeleteTarget(0) } else { DeleteNext::Finish }),
{
    if count > 0 {
        DeleteNext::DeleteTarget(0)
    } else {
        DeleteNext::Finish
    }
}

/// The move after deleting target `index` of `count` gave `event`: a target
/// that held nothing counts as deleted, an error stops the deletion.
pub fn delete_next(count: usize, index: usize, event: TargetDelete) -> (next: DeleteNext)
    requires
        index < count,
    ensures
        next == (if event == TargetDelete::Failed {
            DeleteNext::Fail
        } else if index + 1 < count {
            DeleteNext::DeleteTarget((index + 1) as usize)
        } else {
            DeleteNext::Finish
        }),
{
    if event == TargetDelete::Failed {
        DeleteNext::Fail
    } else if index + 1 < count {
        DeleteNext::DeleteTarget(index + 1)
    } else {
        DeleteNext::Finish
    }
}

/// The store after deleting `targets` from `index` on, and whether the
/// deletion succeeded, where deleting the targets in `fails` fails.
pub open spec fn delete_run(
    store: Map<Seq<char>, Seq<u8>>,
    fails: Set<Seq<char>>,
    targets: Seq<Seq<char>>,
    index: nat,
) -> (Map<Seq<char>, Seq<u8>>, bool)
    decreases targets.len() - index,
{
    if index >= targets.len() {
        (store, true)
    } else if fails.contains(targets[index as int]) {
        (store, false)
    } else {
        delete_run(store.remove(targets[index as int]), fails, targets, index + 1)
    }
}

/// Following `delete_first` and `delete_next` deletes the targets in order and
/// ends where `delete_run` says: a failure stops, a missing target passes.
pub proof fn law_delete_moves_follow_the_run(
    store: Map<Seq<char>, Seq<u8>>,
    fails: Set<Seq<char>>,
    targets: Seq<Seq<char>>,
    index: nat,
)
    requires
        index < targets.len(),
    ensures
        delete_run(store, fails, targets, index) == (if fails.contains(targets[index as int]) {
            (store, false)
        } else if index + 1 < targets.len() {
            delete_run(store.remove(targets[index as int]), fails, targets, index + 1)
        } else {
            (store.remove(targets[index as int]), true)
        }),
{
    reveal_with_fuel(delete_run, 2);
}

/// Deleting a credential that the store does not hold succeeds and changes
/// nothing.
pub proof fn law_deleting_a_missing_credential_is_a_no_op(
    scope: Option<Seq<char>>,
    name: Seq<char>,
    store: Map<Seq<char>, Seq<u8>>,
)
    requires
        forall|i: int| 0 <= i < stored_targets(scope, name).len() ==> !store.contains_key(#[trigger] stored_targets(scope, name)[i]),
    ensures
        delete_run(store, Set::empty(), stored_targets(scope, name), 0) == (store, true),
{
    reveal_with_fuel(delete_run, 3);
    let targets = stored_targets(scope, name);
    assert(!store.contains_key(targets[0]));
    assert(store.remove(targets[0]) =~= store);
    if targets.len() > 1 {
        assert(!store.contains_key(targets[1]));
        assert(store.remove(targets[1]) =~= store);
    }
}

/// A failed delete of the scoped target stops before the unscoped target of
/// earlier installations is touched.
pub proof fn law_failed_delete_leaves_the_rest(
    scope: Option<Seq<char>>,
    name: Seq<char>,
    store: Map<Seq<char>, Seq<u8>>,
    fails: Set<Seq<char>>,
)
    requires
        fails.contains(scoped_target(scope, name)),
    ensures
        delete_run(store, fails, stored_targets(scope, name), 0) == (store, false),
{
}

/// A deleted credential reads back as none: after deleting `name` succeeds,
/// reading it from the store ends without a secret.
pub proof fn law_deleted_credential_reads_as_none(
    scope: Option<Seq<char>>,
    name: Seq<char>,
    store: Map<Seq<char>, Seq<u8>>,
)
    ensures
        delete_run(store, Set::empty(), stored_targets(scope, name), 0).1,
        read_run(
            windows_events(delete_run(store, Set::empty(), stored_targets(scope, name), 0).0),
            stored_targets(scope, name),
            0,
        ) == ReadMove::Finish(None),
{
    reveal_with_fuel(delete_run, 3);
    reveal_with_fuel(read_run, 3);
    let targets = stored_targets(scope, name);
    let s1 = store.remove(targets[0]);
    if targets.len() > 1 {
        let s2 = s1.remove(targets[1]);
        assert(!s2.contains_key(targets[0]) && !s2.contains_key(targets[1]));
    }
}

/// For every credential name, reading and deleting visit
/// `CodexRouter/{scope}/{name}` and then `CodexRouter/{name}` under a scope,
/// and `CodexRouter/{name}` alone without one.
pub proof fn law_targets_of_every_name(scope: Option<Seq<char>>, name: Seq<char>)
    ensures
        is_scoped(scope) ==> stored_targets(scope, name) == seq![
            seq!['C', 'o', 'd', 'e', 'x', 'R', 'o', 'u', 't', 'e', 'r', '/'] + scope->0 + seq!['/'] + name,
            seq!['C', 'o', 'd', 'e', 'x', 'R', 'o', 'u', 't', 'e', 'r', '/'] + name,
        ],
        !is_scoped(scope) ==> stored_targets(scope, name) == seq![
            seq!['C', 'o', 'd', 'e', 'x', 'R', 'o', 'u', 't', 'e', 'r', '/'] + name,
        ],
{
    reveal_strlit("CodexRouter/");
    reveal_strlit("/");
    let prefix = seq!['C', 'o', 'd', 'e', 'x', 'R', 'o', 'u', 't', 'e', 'r', '/'];
    assert(target_prefix() =~= prefix);
    assert("/"@ =~= seq!['/']);
    if is_scoped(scope) {
        assert(stored_targets(scope, name) =~= seq![prefix + scope->0 + seq!['/'] + name, prefix + name]);
    } else {
        assert(stored_targets(scope, name) =~= seq![prefix + name]);
    }
}

/// Under a scope, a secret that an earlier, unscoped installation stored under
/// `CodexRouter/{name}` still reads back, for every name, and deleting the
/// credential removes it.
pub proof fn law_legacy_secret_reads_back_under_a_scope(scope: Option<Seq<char>>, name: Seq<char>, secret: Seq<char>)
    requires
        is_scoped(scope),
        !secret.contains('\0'),
        credential_blob_of(secret) is Ok,
    ensures
        read_run(
            windows_events(Map::empty().insert(legacy_target(name), credential_blob_of(secret)->Ok_0)),
            stored_targets(scope, name),
            0,
        ) == ReadMove::Finish(Some(secret)),
        !delete_run(
            Map::empty().insert(legacy_target(name), credential_blob_of(secret)->Ok_0),
            Set::empty(),
            stored_targets(scope, name),
            0,
        ).0.contains_key(legacy_target(name)),
{
    reveal_with_fuel(read_run, 3);
    reveal_with_fuel(delete_run, 3);
    law_stored_secret_reads_back(secret);
    law_scoped_target_differs_from_legacy(scope, name);
    let store = Map::<Seq<char>, Seq<u8>>::empty().insert(legacy_target(name), credential_blob_of(secret)->Ok_0);
    let targets = stored_targets(scope, name);
    assert(targets.len() == 2 && targets[1] == legacy_target(name));
    assert(!store.contains_key(targets[0]));
    assert(windows_events(store)(targets[0]) == Ok::<Option<Seq<char>>, ()>(None));
    assert(windows_events(store)(targets[1]) == Ok::<Option<Seq<char>>, ()>(Some(secret)));
}

/// Without a scope, the credential target is the one that unscoped
/// installations used.
pub proof fn law_unscoped_target_is_legacy(scope: Option<Seq<char>>, name: Seq<char>)
    requires
        !is_scoped(scope),
    ensures
        scoped_target(scope, name) == legacy_target(name),
{
}

/// Under a scope, the credential target differs from the unscoped one, so two
/// installations with different roots do not share credentials.
pub proof fn law_scoped_target_differs_from_legacy(scope: Option<Seq<char>>, name: Seq<char>)
    requires
        is_scoped(scope),
    ensures
        scoped_target(scope, name) != legacy_target(name),
{
    assert(scoped_target(scope, name).len() > legacy_target(name).len());
}

/// Once a scope is set, pinning to another root keeps it: the first non-empty
/// scope wins.
pub proof fn law_first_scope_wins(before: Option<Seq<char>>, first_root: Seq<char>, second_root: Seq<char>)
    requires
        pinned_scope(before, first_root) is Some,
    ensures
        pinned_scope(pinned_scope(before, first_root), second_root) == pinned_scope(before, first_root),
{
}

/// A credential is written under the target that reading it tries first.
pub proof fn law_written_target_is_read_first(scope: Option<Seq<char>>, name: Seq<char>, variable_set: bool)
    requires
        write_target_of(scope, name, variable_set) is Ok,
    ensures
        stored_targets(scope, name)[0] == write_target_of(scope, name, variable_set)->Ok_0,
{
}

/// A credential that its environment variable overrides cannot be written.
pub proof fn law_overridden_credential_is_read_only(scope: Option<Seq<char>>, name: Seq<char>)
    requires
        override_variable(name) is Some,
    ensures
        write_target_of(scope, name, true) == Err::<Seq<char>, CredentialError>(CredentialError::EnvironmentReadOnly),
{
}

/// A stored secret is its UTF-16 units in at most 2560 bytes.
pub proof fn law_stored_blob_fits(secret: Seq<char>)
    requires
        credential_blob_of(secret) is Ok,
    ensures
        credential_blob_of(secret)->Ok_0.len() == 2 * utf16_encode(secret).len(),
        credential_blob_of(secret)->Ok_0.len() <= 2560,
{
}

/// What is stored for a secret reads back as that secret, for secrets without
/// a NUL character (reading stops at the first zero unit).
pub proof fn law_stored_secret_reads_back(secret: Seq<char>)
    requires
        !secret.contains('\0'),
        credential_blob_of(secret) is Ok,
    ensures
        credential_text(Some(credential_blob_of(secret)->Ok_0)) == Ok::<Seq<char>, CredentialError>(secret),
{
    let units = utf16_encode(secret);
    let blob = le_bytes(units);
    lemma_le_round_trip(units);
    assert(blob.len() % 2 == 0);
    lemma_encode_zero_free(secret);
    assert forall|j: int| 0 <= j < units.len() implies units[j] != 0 by {
        if units[j] == 0 {
            assert(units.contains(0u16));
        }
    }
    lemma_first_zero(units, units.len() as int);
    assert(units.take(units.len() as int) =~= units);
    lemma_decode_encode(secret);
}

/// What the Keychain prints for a secret, followed by the newline that ends
/// its output, reads back as that secret where the secret does not itself end
/// with a newline.
pub proof fn law_keychain_secret_reads_back(secret: Seq<char>)
    requires
        secret.len() == 0 || secret.last() != '\n',
    ensures
        keychain_text(vstd::utf8::encode_utf8(secret.push('\n'))) == Ok::<Seq<char>, CredentialError>(secret),
{
    vstd::utf8::encode_utf8_valid_utf8(secret.push('\n'));
    vstd::utf8::encode_utf8_decode_utf8(secret.push('\n'));
    assert(secret.push('\n').drop_last() =~= secret);
    assert(secret.push('\n').last() == '\n');
    assert(trim_trailing_newlines(secret.push('\n')) == trim_trailing_newlines(secret));
    assert(trim_trailing_newlines(secret) == secret);
}

/// Where the credential state of an installation lives.
#[derive(Clone, Copy, PartialEq, Eq, Structural, Debug)]
pub enum StateRoot {
    /// The absolute path in `CODEX_ROUTER_USER_DATA_ROOT`.
    UserDataOverride,
    /// The installation root itself.
    RouterRoot,
    /// `%LOCALAPPDATA%\Codex-Router\UserData`, for installed releases.
    LocalAppData,
}

/// Which state root the credential scope is computed from:
/// `user_data_root_is_absolute` tells whether `CODEX_ROUTER_USER_DATA_ROOT` is
/// set to an absolute path, `portable_state` whether
/// `CODEX_ROUTER_PORTABLE_STATE` is `1`, `installed_release` whether the root
/// is an installed release (it holds the release's file list),
/// `local_app_data_present` whether `LOCALAPPDATA` is set.
pub fn credential_state_root(
    user_data_root_is_absolute: bool,
    portable_state: bool,
    installed_release: bool,
    local_app_data_present: bool,
) -> (root: StateRoot)
    ensures
        root == (if user_data_root_is_absolute {
            StateRoot::UserDataOverride
        } else if portable_state {
            StateRoot::RouterRoot
        } else if installed_release && local_app_data_present {
            StateRoot::LocalAppData
        } else {
            StateRoot::RouterRoot
        }),
{
    if user_data_root_is_absolute {
        StateRoot::UserDataOverride
    } else if portable_state {
        StateRoot::RouterRoot
    } else if installed_release && local_app_data_present {
        StateRoot::LocalAppData
    } else {
        StateRoot::RouterRoot
    }
}

} // verus!
