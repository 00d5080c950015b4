//! Azure credential and option resolution, with SAS token splitting.

use vstd::prelude::*;
use vstd::string::StringSliceAdditionalSpecFns;
use vstd::utf8::decode_utf8;
use vstd::utf8::encode_utf8;
use vstd::utf8::valid_utf8;

use crate::config::aws::clone_pairs;
use crate::config::aws::env_lookup;
use crate::config::aws::opt_view;
use crate::config::aws::or_chars;
use crate::config::aws::str_opt_is;
use crate::error::ConfigError;
use crate::error::StorageError;
use crate::strutil::eq_ignore_ascii_case;
use crate::strutil::is_truthy;
use crate::strutil::is_upper_of;
use crate::strutil::lower_chars;
use crate::strutil::str_is_truthy;
use crate::strutil::upper_chars;

verus! {

/// The recognized Azure configuration keys.
#[derive(Clone, Copy, Debug, PartialEq, Eq, Structural)]
pub enum AzureConfigKey {
    AccountKey,
    AccountName,
    ClientId,
    ClientSecret,
    AuthorityId,
    SasKey,
    UseEmulator,
    AllowHttp,
}

/// Which key an option name stands for, up to ASCII case.
pub open spec fn azure_key_of(raw: Seq<char>) -> Option<AzureConfigKey> {
    let l = lower_chars(raw);
    if l == lower_chars("azure_storage_account_key"@) || l == lower_chars(
        "azure_storage_access_key"@,
    ) || l == lower_chars("azure_storage_master_key"@) || l == lower_chars(
        "azure_storage_key"@,
    ) || l == lower_chars("account_key"@) || l == lower_chars("access_key"@) {
        Some(AzureConfigKey::AccountKey)
    } else if l == lower_chars("azure_storage_sas_token"@) || l == lower_chars(
        "azure_storage_sas_key"@,
    ) || l == lower_chars("sas_token"@) || l == lower_chars("sas_key"@) {
        Some(AzureConfigKey::SasKey)
    } else if l == lower_chars("azure_storage_account_name"@) || l == lower_chars(
        "account_name"@,
    ) {
        Some(AzureConfigKey::AccountName)
    } else if l == lower_chars("azure_storage_client_id"@) || l == lower_chars(
        "azure_client_id"@,
    ) || l == lower_chars("client_id"@) {
        Some(AzureConfigKey::ClientId)
    } else if l == lower_chars("azure_storage_client_secret"@) || l == lower_chars(
        "azure_client_secret"@,
    ) || l == lower_chars("client_secret"@) {
        Some(AzureConfigKey::ClientSecret)
    } else if l == lower_chars("azure_storage_tenant_id"@) || l == lower_chars(
        "azure_storage_authority_id"@,
    ) || l == lower_chars("azure_tenant_id"@) || l == lower_chars("azure_authority_id"@) || l
        == lower_chars("tenant_id"@) || l == lower_chars("authority_id"@) {
        Some(AzureConfigKey::AuthorityId)
    } else if l == lower_chars("azure_storage_use_emulator"@) || l == lower_chars(
        "object_store_use_emulator"@,
    ) || l == lower_chars("use_emulator"@) {
        Some(AzureConfigKey::UseEmulator)
    } else {
        None
    }
}

/// Resolves an option name to its key.
pub fn azure_key_for(raw: &str) -> (r: Option<AzureConfigKey>)
    ensures
        r == azure_key_of(raw@),
{
    if eq_ignore_ascii_case(raw, "azure_storage_account_key") || eq_ignore_ascii_case(
        raw,
        "azure_storage_access_key",
    ) || eq_ignore_ascii_case(raw, "azure_storage_master_key") || eq_ignore_ascii_case(
        raw,
        "azure_storage_key",
    ) || eq_ignore_ascii_case(raw, "account_key") || eq_ignore_ascii_case(raw, "access_key") {
        Some(AzureConfigKey::AccountKey)
    } else if eq_ignore_ascii_case(raw, "azure_storage_sas_token") || eq_ignore_ascii_case(
        raw,
        "azure_storage_sas_key",
    ) || eq_ignore_ascii_case(raw, "sas_token") || eq_ignore_ascii_case(raw, "sas_key") {
        Some(AzureConfigKey::SasKey)
    } else if eq_ignore_ascii_case(raw, "azure_storage_account_name") || eq_ignore_ascii_case(
        raw,
        "account_name",
    ) {
        Some(AzureConfigKey::AccountName)
    } else if eq_ignore_ascii_case(raw, "azure_storage_client_id") || eq_ignore_ascii_case(
        raw,
        "azure_client_id",
    ) || eq_ignore_ascii_case(raw, "client_id") {
        Some(AzureConfigKey::ClientId)
    } else if eq_ignore_ascii_case(raw, "azure_storage_client_secret")
        || eq_ignore_ascii_case(raw, "azure_client_secret") || eq_ignore_ascii_case(
        raw,
        "client_secret",
    ) {
        Some(AzureConfigKey::ClientSecret)
    } else if eq_ignore_ascii_case(raw, "azure_storage_tenant_id") || eq_ignore_ascii_case(
        raw,
        "azure_storage_authority_id",
    ) || eq_ignore_ascii_case(raw, "azure_tenant_id") || eq_ignore_ascii_case(
        raw,
        "azure_authority_id",
    ) || eq_ignore_ascii_case(raw, "tenant_id") || eq_ignore_ascii_case(raw, "authority_id") {
        Some(AzureConfigKey::AuthorityId)
    } else if eq_ignore_ascii_case(raw, "azure_storage_use_emulator") || eq_ignore_ascii_case(
        raw,
        "object_store_use_emulator",
    ) || eq_ignore_ascii_case(raw, "use_emulator") {
        Some(AzureConfigKey::UseEmulator)
    } else {
        None
    }
}

/// The value the option map holds for a key: the last entry wins.
pub open spec fn azure_opt_for(opts: Seq<(String, String)>, key: AzureConfigKey) -> Option<
    Seq<char>,
>
    decreases opts.len(),
{
    if opts.len() == 0 {
        None
    } else if azure_key_of(opts.last().0@) == Some(key) {
        Some(opts.last().1@)
    } else {
        azure_opt_for(opts.drop_last(), key)
    }
}

/// The environment fallback for a key: its aliases, upper-cased, checked
/// in declaration order.
pub open spec fn azure_env_for(env: Seq<(String, String)>, key: AzureConfigKey) -> Option<
    Seq<char>,
> {
    match key {
        AzureConfigKey::AccountKey => or6(
            env_lookup(env, upper_chars("azure_storage_account_key"@)),
            env_lookup(env, upper_chars("azure_storage_access_key"@)),
            env_lookup(env, upper_chars("azure_storage_master_key"@)),
            env_lookup(env, upper_chars("azure_storage_key"@)),
            env_lookup(env, upper_chars("account_key"@)),
            env_lookup(env, upper_chars("access_key"@)),
        ),
        AzureConfigKey::SasKey => or_chars(
            or_chars(
                env_lookup(env, upper_chars("azure_storage_sas_token"@)),
                env_lookup(env, upper_chars("azure_storage_sas_key"@)),
            ),
            or_chars(
                env_lookup(env, upper_chars("sas_token"@)),
                env_lookup(env, upper_chars("sas_key"@)),
            ),
        ),
        AzureConfigKey::AccountName => or_chars(
            env_lookup(env, upper_chars("azure_storage_account_name"@)),
            env_lookup(env, upper_chars("account_name"@)),
        ),
        AzureConfigKey::ClientId => or_chars(
            or_chars(
                env_lookup(env, upper_chars("azure_storage_client_id"@)),
                env_lookup(env, upper_chars("azure_client_id"@)),
            ),
            env_lookup(env, upper_chars("client_id"@)),
        ),
        AzureConfigKey::ClientSecret => or_chars(
            or_chars(
                env_lookup(env, upper_chars("azure_storage_client_secret"@)),
                env_lookup(env, upper_chars("azure_client_secret"@)),
            ),
            env_lookup(env, upper_chars("client_secret"@)),
        ),
        AzureConfigKey::AuthorityId => or6(
            env_lookup(env, upper_chars("azure_storage_tenant_id"@)),
            env_lookup(env, upper_chars("azure_storage_authority_id"@)),
            env_lookup(env, upper_chars("azure_tenant_id"@)),
            env_lookup(env, upper_chars("azure_authority_id"@)),
            env_lookup(env, upper_chars("tenant_id"@)),
            env_lookup(env, upper_chars("authority_id"@)),
        ),
        AzureConfigKey::UseEmulator => or_chars(
            or_chars(
                env_lookup(env, upper_chars("azure_storage_use_emulator"@)),
                env_lookup(env, upper_chars("object_store_use_emulator"@)),
            ),
            env_lookup(env, upper_chars("use_emulator"@)),
        ),
        AzureConfigKey::AllowHttp => None,
    }
}

/// The first of six candidate values.
pub open spec fn or6(
    a: Option<Seq<char>>,
    b: Option<Seq<char>>,
    c: Option<Seq<char>>,
    d: Option<Seq<char>>,
    e: Option<Seq<char>>,
    f: Option<Seq<char>>,
) -> Option<Seq<char>> {
    or_chars(or_chars(or_chars(a, b), or_chars(c, d)), or_chars(e, f))
}

/// The Azure configuration resolved from an option map, with the
/// environment snapshot it falls back to.
pub struct AzureConfig {
    pub account_key: Option<String>,
    pub account_name: Option<String>,
    pub client_id: Option<String>,
    pub client_secret: Option<String>,
    pub authority_id: Option<String>,
    pub sas_key: Option<String>,
    pub use_emulator: Option<bool>,
    pub allow_http: Option<bool>,
    pub env: Vec<(String, String)>,
}

/// Scans the option map from the end for the last entry naming this key.
fn azure_find_option(options: &Vec<(String, String)>, key: AzureConfigKey) -> (r: Option<
    String,
>)
    ensures
        str_opt_is(r, azure_opt_for(options@, key)),
{
    let mut j = options.len();
    proof {
        assert(options@.take(options@.len() as int) =~= options@);
    }
    while j > 0
        invariant
            j <= options@.len(),
            azure_opt_for(options@, key) == azure_opt_for(options@.take(j as int), key),
        decreases j,
    {
        j = j - 1;
        proof {
            assert(options@.take(j + 1).drop_last() =~= options@.take(j as int));
            assert(options@.take(j + 1).last() == options@[j as int]);
        }
        let matched = match azure_key_for(options[j].0.as_str()) {
            Some(k) => k == key,
            None => false,
        };
        if matched {
            return Some(options[j].1.clone());
        }
    }
    proof {
        assert(options@.take(0) =~= Seq::<(String, String)>::empty());
    }
    None
}

/// Scans the environment snapshot for the upper-case form of an alias.
fn azure_env_get(env: &Vec<(String, String)>, alias: &str) -> (r: Option<String>)
    ensures
        str_opt_is(r, env_lookup(env@, upper_chars(alias@))),
{
    let n = env.len();
    proof {
        assert(env@.skip(0) =~= env@);
    }
    for i in 0..n
        invariant
            n == env@.len(),
            env_lookup(env@, upper_chars(alias@)) == env_lookup(
                env@.skip(i as int),
                upper_chars(alias@),
            ),
    {
        proof {
            assert(env@.skip(i as int).first() == env@[i as int]);
            assert(env@.skip(i as int).drop_first() =~= env@.skip(i + 1));
        }
        if is_upper_of(env[i].0.as_str(), alias) {
            return Some(env[i].1.clone());
        }
    }
    proof {
        assert(env@.skip(n as int) =~= Seq::<(String, String)>::empty());
    }
    None
}

/// The first of two candidate values.
fn azure_or(a: Option<String>, b: Option<String>) -> (r: Option<String>)
    ensures
        str_opt_is(r, or_chars(opt_view(a), opt_view(b))),
{
    match a {
        Some(v) => Some(v),
        None => b,
    }
}

impl AzureConfig {
    /// Reads the option map once, the last entry winning per key, and
    /// keeps the environment snapshot for fallback.
    pub fn new(options: &Vec<(String, String)>, env: &Vec<(String, String)>) -> (r:
        AzureConfig)
        ensures
            str_opt_is(r.account_key, azure_opt_for(options@, AzureConfigKey::AccountKey)),
            str_opt_is(r.account_name, azure_opt_for(options@, AzureConfigKey::AccountName)),
            str_opt_is(r.client_id, azure_opt_for(options@, AzureConfigKey::ClientId)),
            str_opt_is(
                r.client_secret,
                azure_opt_for(options@, AzureConfigKey::ClientSecret),
            ),
            str_opt_is(r.authority_id, azure_opt_for(options@, AzureConfigKey::AuthorityId)),
            str_opt_is(r.sas_key, azure_opt_for(options@, AzureConfigKey::SasKey)),
            match r.use_emulator {
                Some(b) => azure_opt_for(options@, AzureConfigKey::UseEmulator) matches Some(
                    x,
                ) && b == is_truthy(x),
                None => azure_opt_for(options@, AzureConfigKey::UseEmulator) is None,
            },
            r.allow_http is None,
            r.env@ == env@,
    {
        let use_emulator = match azure_find_option(options, AzureConfigKey::UseEmulator) {
            Some(v) => Some(str_is_truthy(v.as_str())),
            None => None,
        };
        AzureConfig {
            account_key: azure_find_option(options, AzureConfigKey::AccountKey),
            account_name: azure_find_option(options, AzureConfigKey::AccountName),
            client_id: azure_find_option(options, AzureConfigKey::ClientId),
            client_secret: azure_find_option(options, AzureConfigKey::ClientSecret),
            authority_id: azure_find_option(options, AzureConfigKey::AuthorityId),
            sas_key: azure_find_option(options, AzureConfigKey::SasKey),
            use_emulator,
            allow_http: None,
            env: clone_pairs(env),
        }
    }

    /// The value for one key: the stored field, then the environment.
    /// Switches come back as `true` or `false`.
    pub fn get_value(&self, key: AzureConfigKey) -> (r: Option<String>)
        ensures
            str_opt_is(r, azure_field_value(*self, key)),
    {
        match key {
            AzureConfigKey::AccountKey => {
                match &self.account_key {
                    Some(v) => Some(v.clone()),
                    None => {
                        let a = azure_or(
                            azure_env_get(&self.env, "azure_storage_account_key"),
                            azure_env_get(&self.env, "azure_storage_access_key"),
                        );
                        let b = azure_or(
                            azure_env_get(&self.env, "azure_storage_master_key"),
                            azure_env_get(&self.env, "azure_storage_key"),
                        );
                        let c = azure_or(
                            azure_env_get(&self.env, "account_key"),
                            azure_env_get(&self.env, "access_key"),
                        );
                        azure_or(azure_or(a, b), c)
                    },
                }
            },
            AzureConfigKey::AccountName => {
                match &self.account_name {
                    Some(v) => Some(v.clone()),
                    None => azure_or(
                        azure_env_get(&self.env, "azure_storage_account_name"),
                        azure_env_get(&self.env, "account_name"),
                    ),
                }
            },
            AzureConfigKey::ClientId => {
                match &self.client_id {
                    Some(v) => Some(v.clone()),
                    None => azure_or(
                        azure_or(
                            azure_env_get(&self.env, "azure_storage_client_id"),
                            azure_env_get(&self.env, "azure_client_id"),
                        ),
                        azure_env_get(&self.env, "client_id"),
                    ),
                }
            },
            AzureConfigKey::ClientSecret => {
                match &self.client_secret {
                    Some(v) => Some(v.clone()),
                    None => azure_or(
                        azure_or(
                            azure_env_get(&self.env, "azure_storage_client_secret"),
                            azure_env_get(&self.env, "azure_client_secret"),
                        ),
                        azure_env_get(&self.env, "client_secret"),
                    ),
                }
            },
            AzureConfigKey::AuthorityId => {
                match &self.authority_id {
                    Some(v) => Some(v.clone()),
                    None => {
                        let a = azure_or(
                            azure_env_get(&self.env, "azure_storage_tenant_id"),
                            azure_env_get(&self.env, "azure_storage_authority_id"),
                        );
                        let b = azure_or(
                            azure_env_get(&self.env, "azure_tenant_id"),
                            azure_env_get(&self.env, "azure_authority_id"),
                        );
                        let c = azure_or(
                            azure_env_get(&self.env, "tenant_id"),
                            azure_env_get(&self.env, "authority_id"),
                        );
                        azure_or(azure_or(a, b), c)
                    },
                }
            },
            AzureConfigKey::SasKey => {
                match &self.sas_key {
                    Some(v) => Some(v.clone()),
                    None => azure_or(
                        azure_or(
                            azure_env_get(&self.env, "azure_storage_sas_token"),
                            azure_env_get(&self.env, "azure_storage_sas_key"),
                        ),
                        azure_or(
                            azure_env_get(&self.env, "sas_token"),
                            azure_env_get(&self.env, "sas_key"),
                        ),
                    ),
                }
            },
            AzureConfigKey::UseEmulator => {
                match self.use_emulator {
                    Some(b) => Some(azure_bool_string(b)),
                    None => azure_or(
                        azure_or(
                            azure_env_get(&self.env, "azure_storage_use_emulator"),
                            azure_env_get(&self.env, "object_store_use_emulator"),
                        ),
                        azure_env_get(&self.env, "use_emulator"),
                    ),
                }
            },
            AzureConfigKey::AllowHttp => {
                match self.allow_http {
                    Some(b) => Some(azure_bool_string(b)),
                    None => None,
                }
            },
        }
    }
}

/// The value `get_value` serves for one key, over the stored fields and
/// the environment snapshot.
pub open spec fn azure_field_value(c: AzureConfig, key: AzureConfigKey) -> Option<Seq<char>> {
    match key {
        AzureConfigKey::AccountKey => or_chars(
            opt_view(c.account_key),
            azure_env_for(c.env@, key),
        ),
        AzureConfigKey::AccountName => or_chars(
            opt_view(c.account_name),
            azure_env_for(c.env@, key),
        ),
        AzureConfigKey::ClientId => or_chars(opt_view(c.client_id), azure_env_for(c.env@, key)),
        AzureConfigKey::ClientSecret => or_chars(
            opt_view(c.client_secret),
            azure_env_for(c.env@, key),
        ),
        AzureConfigKey::AuthorityId => or_chars(
            opt_view(c.authority_id),
            azure_env_for(c.env@, key),
        ),
        AzureConfigKey::SasKey => or_chars(opt_view(c.sas_key), azure_env_for(c.env@, key)),
        AzureConfigKey::UseEmulator => or_chars(
            bool_view(c.use_emulator),
            azure_env_for(c.env@, key),
        ),
        AzureConfigKey::AllowHttp => bool_view(c.allow_http),
    }
}

/// An optional switch, serialized back to `true`/`false`.
pub open spec fn bool_view(f: Option<bool>) -> Option<Seq<char>> {
    match f {
        Some(b) => if b {
            Some(seq!['t', 'r', 'u', 'e'])
        } else {
            Some(seq!['f', 'a', 'l', 's', 'e'])
        },
        None => None,
    }
}

/// A switch serialized as text, with its view pinned down.
fn azure_bool_string(b: bool) -> (r: String)
    ensures
        b ==> r@ == seq!['t', 'r', 'u', 'e'],
        !b ==> r@ == seq!['f', 'a', 'l', 's', 'e'],
{
    proof {
        reveal_strlit("true");
        reveal_strlit("false");
        assert("true"@ =~= seq!['t', 'r', 'u', 'e']);
        assert("false"@ =~= seq!['f', 'a', 'l', 's', 'e']);
    }
    if b {
        String::from_str("true")
    } else {
        String::from_str("false")
    }
}

/// A hexadecimal digit, as `char::to_digit(16)` accepts it.
pub open spec fn is_hex(b: u8) -> bool {
    (48 <= b && b <= 57) || (97 <= b && b <= 102) || (65 <= b && b <= 70)
}

/// The value of a hexadecimal digit.
pub open spec fn hex_val(b: u8) -> int {
    if 48 <= b && b <= 57 {
        b - 48
    } else if 97 <= b && b <= 102 {
        b - 97 + 10
    } else {
        b - 65 + 10
    }
}

/// Percent decoding over bytes: `%` followed by two hexadecimal digits
/// becomes that byte; a `%` not followed by two such digits stays as it
/// is.
pub open spec fn pct_decode(bytes: Seq<u8>) -> Seq<u8>
    decreases bytes.len(),
{
    if bytes.len() == 0 {
        Seq::empty()
    } else if bytes[0] == 37 && bytes.len() >= 3 && is_hex(bytes[1]) && is_hex(bytes[2]) {
        seq![(hex_val(bytes[1]) * 16 + hex_val(bytes[2])) as u8] + pct_decode(bytes.skip(3))
    } else {
        seq![bytes[0]] + pct_decode(bytes.skip(1))
    }
}

/// Relies on `percent_encoding::percent_decode_str` to decode `%XX`
/// escapes (a malformed escape passes through unchanged) and on its
/// `decode_utf8` to turn the bytes back into text, which fails exactly
/// when they are not well-formed UTF-8.
#[verifier::external_body]
fn percent_decode_utf8(s: &str) -> (r: Option<String>)
    ensures
        r is Some <==> valid_utf8(pct_decode(s.spec_bytes())),
        r matches Some(t) ==> t@ == decode_utf8(pct_decode(s.spec_bytes())),
{
    match percent_encoding::percent_decode_str(s).decode_utf8() {
        Ok(c) => Some(c.into_owned()),
        Err(_) => None,
    }
}

/// How many `?` characters the decoded token starts with: all of them
/// are dropped before splitting.
pub open spec fn count_q(d: Seq<char>) -> int
    decreases d.len(),
{
    if d.len() > 0 && d[0] == '?' {
        1 + count_q(d.drop_first())
    } else {
        0
    }
}

/// Pins `count_q` down by its characteristic properties.
proof fn lemma_count_q(d: Seq<char>, q: int)
    requires
        0 <= q <= d.len(),
        forall|j: int| 0 <= j < q ==> #[trigger] d[j] == '?',
        q < d.len() ==> d[q] != '?',
    ensures
        count_q(d) == q,
    decreases q,
{
    if q > 0 {
        assert(d[0] == '?');
        lemma_count_q(d.drop_first(), q - 1);
    }
}

/// A whitespace character, as trimming and piece-dropping see it: the
/// characters `char::is_whitespace` accepts.
pub open spec fn is_space(c: char) -> bool {
    let v = c as int;
    ||| (9 <= v && v <= 13)
    ||| v == 32
    ||| v == 0x85
    ||| v == 0xA0
    ||| v == 0x1680
    ||| (0x2000 <= v && v <= 0x200A)
    ||| v == 0x2028
    ||| v == 0x2029
    ||| v == 0x202F
    ||| v == 0x205F
    ||| v == 0x3000
}

/// Whether one character is whitespace.
fn char_is_space(c: char) -> (r: bool)
    ensures
        r == is_space(c),
{
    let v = c as u32;
    (9 <= v && v <= 13) || v == 32 || v == 0x85 || v == 0xA0 || v == 0x1680 || (0x2000 <= v
        && v <= 0x200A) || v == 0x2028 || v == 0x2029 || v == 0x202F || v == 0x205F || v
        == 0x3000
}

/// The piece holds something besides spaces.
pub open spec fn has_ns(p: Seq<char>) -> bool {
    exists|i: int| 0 <= i < p.len() && !is_space(#[trigger] p[i])
}

/// The piece holds a key-value separator.
pub open spec fn has_eq(p: Seq<char>) -> bool {
    exists|i: int| 0 <= i < p.len() && #[trigger] p[i] == '='
}

/// No separator occurs in the key.
pub open spec fn no_eq(k: Seq<char>) -> bool {
    forall|i: int| 0 <= i < k.len() ==> #[trigger] k[i] != '='
}

/// Splitting a query string on `&`, keeping only pieces that hold
/// something besides spaces.
pub open spec fn sas_split_rec(s: Seq<char>, cur: Seq<char>) -> Seq<Seq<char>>
    decreases s.len(),
{
    if s.len() == 0 {
        if has_ns(cur) {
            seq![cur]
        } else {
            Seq::empty()
        }
    } else if s[0] == '&' {
        (if has_ns(cur) {
            seq![cur]
        } else {
            Seq::empty()
        }) + sas_split_rec(s.skip(1), Seq::empty())
    } else {
        sas_split_rec(s.skip(1), cur.push(s[0]))
    }
}

/// The pair `(k, v)` is exactly the trimmed piece split at its first
/// separator: spaces lie outside a window whose edges are not spaces, the
/// window reads `k`, one `=`, then `v`, and `k` holds no `=`.
pub open spec fn valid_sas_pair(p: Seq<char>, k: Seq<char>, v: Seq<char>) -> bool {
    exists|a: int, b: int|
        0 <= a <= b <= p.len() && (forall|j: int| 0 <= j < a ==> is_space(#[trigger] p[j])) && (
        forall|j: int| b <= j < p.len() ==> is_space(#[trigger] p[j])) && (a < b ==> !is_space(
            p[a],
        ) && !is_space(p[b - 1])) && #[trigger] p.subrange(a, b) == k + seq!['='] + v && no_eq(
            k,
        )
}

/// Whether the character at `i` is a space.
fn space_at(piece: &str, i: usize) -> (r: bool)
    requires
        i < piece@.len(),
    ensures
        r == is_space(piece@[i as int]),
{
    char_is_space(piece.get_char(i))
}

/// Splits the pieces of a query string on `&`, dropping all-space pieces.
fn split_amp(d: &str, start: usize) -> (r: Vec<String>)
    requires
        start <= d@.len(),
    ensures
        r.deep_view() == sas_split_rec(d@.skip(start as int), Seq::empty()),
{
    let n = d.unicode_len();
    let mut pieces: Vec<String> = Vec::new();
    let mut piece_start: usize = start;
    let mut seen_ns = false;
    let mut i: usize = start;
    proof {
        assert(pieces.deep_view() =~= Seq::<Seq<char>>::empty());
        assert(d@.subrange(start as int, start as int) =~= Seq::<char>::empty());
    }
    while i < n
        invariant
            start <= piece_start <= i <= n == d@.len(),
            seen_ns == has_ns(d@.subrange(piece_start as int, i as int)),
            sas_split_rec(d@.skip(start as int), Seq::empty()) == pieces.deep_view()
                + sas_split_rec(d@.skip(i as int), d@.subrange(piece_start as int, i as int)),
        decreases n - i,
    {
        let c = d.get_char(i);
        if c == '&' {
            proof {
                assert(d@.skip(i as int)[0] == '&');
                assert(d@.skip(i as int).skip(1) =~= d@.skip(i + 1));
                assert(d@.subrange(i + 1, i + 1) =~= Seq::<char>::empty());
            }
            if seen_ns {
                let piece = d.substring_char(piece_start, i).to_owned();
                let ghost pre = pieces;
                let ghost pg = piece;
                pieces.push(piece);
                proof {
                    crate::path::lemma_deep_view_push(pre, pieces, pg);
                }
            }
            piece_start = i + 1;
            seen_ns = false;
        } else {
            proof {
                assert(d@.skip(i as int)[0] == d@[i as int]);
                assert(d@.skip(i as int).skip(1) =~= d@.skip(i + 1));
                assert(d@.subrange(piece_start as int, i + 1) =~= d@.subrange(
                    piece_start as int,
                    i as int,
                ).push(d@[i as int]));
                if !is_space(d@[i as int]) {
                    let p1 = d@.subrange(piece_start as int, i + 1);
                    assert(p1[p1.len() - 1] == d@[i as int]);
                    assert(has_ns(p1));
                } else {
                    assert(has_ns(d@.subrange(piece_start as int, i + 1)) == has_ns(
                        d@.subrange(piece_start as int, i as int),
                    )) by {
                        let p1 = d@.subrange(piece_start as int, i + 1);
                        let p0 = d@.subrange(piece_start as int, i as int);
                        if has_ns(p0) {
                            let j = choose|j: int| 0 <= j < p0.len() && !is_space(p0[j]);
                            assert(!is_space(p1[j]));
                        }
                        if has_ns(p1) {
                            let j = choose|j: int| 0 <= j < p1.len() && !is_space(p1[j]);
                            if j < p0.len() {
                                assert(!is_space(p0[j]));
                            }
                        }
                    }
                }
            }
            let sp = char_is_space(c);
            if !sp {
                seen_ns = true;
            }
            i = i + 1;
            continue ;
        }
        i = i + 1;
    }
    proof {
        assert(d@.skip(n as int) =~= Seq::<char>::empty());
    }
    if seen_ns {
        let piece = d.substring_char(piece_start, n).to_owned();
        let ghost pre = pieces;
        let ghost pg = piece;
        pieces.push(piece);
        proof {
            crate::path::lemma_deep_view_push(pre, pieces, pg);
        }
    }
    pieces
}

/// Splits a percent-encoded SAS token into its key-value pairs: decodes
/// it, drops any leading `?`, splits on `&`, and splits each nonempty
/// piece at its first `=` after trimming spaces.
pub fn split_sas(sas: &str) -> (r: Result<Vec<(String, String)>, ConfigError>)
    ensures
        !valid_utf8(pct_decode(sas.spec_bytes())) ==> r matches Err(ConfigError::Decode { .. }),
        valid_utf8(pct_decode(sas.spec_bytes())) ==> {
            let d = decode_utf8(pct_decode(sas.spec_bytes()));
            let pieces = sas_split_rec(d.skip(count_q(d)), Seq::empty());
            &&& (r is Ok <==> forall|j: int|
                0 <= j < pieces.len() ==> has_eq(#[trigger] pieces[j]))
            &&& (r matches Ok(pairs) ==> pairs@.len() == pieces.len() && forall|j: int|
                0 <= j < pieces.len() ==> valid_sas_pair(
                    pieces[j],
                    (#[trigger] pairs@[j]).0@,
                    pairs@[j].1@,
                ))
            &&& (r is Err ==> r matches Err(ConfigError::MissingCredential))
        },
{
    let decoded = match percent_decode_utf8(sas) {
        Some(d) => d,
        None => {
            return Err(ConfigError::Decode {
                message: String::from_str("SAS keys must be percent-encoded"),
            });
        },
    };
    split_decoded(decoded.as_str())
}

/// Splits an already-decoded query string into its key-value pairs.
fn split_decoded(d: &str) -> (r: Result<Vec<(String, String)>, ConfigError>)
    ensures
        ({
            let pieces = sas_split_rec(d@.skip(count_q(d@)), Seq::empty());
            &&& (r is Ok <==> forall|j: int|
                0 <= j < pieces.len() ==> has_eq(#[trigger] pieces[j]))
            &&& (r matches Ok(pairs) ==> pairs@.len() == pieces.len() && forall|j: int|
                0 <= j < pieces.len() ==> valid_sas_pair(
                    pieces[j],
                    (#[trigger] pairs@[j]).0@,
                    pairs@[j].1@,
                ))
            &&& (r is Err ==> r matches Err(ConfigError::MissingCredential))
        }),
{
    let n = d.unicode_len();
    let mut q: usize = 0;
    while q < n && d.get_char(q) == '?'
        invariant
            q <= n == d@.len(),
            forall|j: int| 0 <= j < q ==> #[trigger] d@[j] == '?',
        decreases n - q,
    {
        q = q + 1;
    }
    proof {
        lemma_count_q(d@, q as int);
    }
    let pieces = split_amp(d, q);
    let ghost piecesg = sas_split_rec(d@.skip(q as int), Seq::empty());
    let mut pairs: Vec<(String, String)> = Vec::new();
    let np = pieces.len();
    for pi in 0..np
        invariant
            np == pieces@.len(),
            pieces.deep_view() == piecesg,
            piecesg == sas_split_rec(d@.skip(count_q(d@)), Seq::empty()),
            pairs@.len() == pi,
            forall|j: int| 0 <= j < pi ==> has_eq(#[trigger] piecesg[j]),
            forall|j: int|
                0 <= j < pi ==> valid_sas_pair(
                    piecesg[j],
                    (#[trigger] pairs@[j]).0@,
                    pairs@[j].1@,
                ),
    {
        let piece = &pieces[pi];
        let ghost pv = piecesg[pi as int];
        proof {
            assert(pieces.deep_view()[pi as int] == pieces@[pi as int]@);
        }
        let m = piece.unicode_len();
        let mut a: usize = 0;
        while a < m && space_at(piece, a)
            invariant
                a <= m == pv.len(),
                pv == piece@,
                forall|j: int| 0 <= j < a ==> is_space(#[trigger] pv[j]),
            decreases m - a,
        {
            a = a + 1;
        }
        let mut b: usize = m;
        while b > a && space_at(piece, b - 1)
            invariant
                a <= b <= m == pv.len(),
                pv == piece@,
                forall|j: int| b <= j < pv.len() ==> is_space(#[trigger] pv[j]),
            decreases b,
        {
            b = b - 1;
        }
        let mut e: usize = a;
        while e < b && piece.get_char(e) != '='
            invariant
                a <= e <= b <= pv.len(),
                pv == piece@,
                forall|j: int| a <= j < e ==> #[trigger] pv[j] != '=',
            decreases b - e,
        {
            e = e + 1;
        }
        if e == b {
            proof {
                // the piece has a non-space character, so if it held a
                // separator it would sit inside the trimmed window
                if has_eq(pv) {
                    let j = choose|j: int| 0 <= j < pv.len() && pv[j] == '=';
                    assert(!is_space(pv[j]));
                    assert(a <= j < b);
                    assert(false);
                }
            }
            return Err(ConfigError::MissingCredential);
        }
        let k = piece.substring_char(a, e).to_owned();
        let v = piece.substring_char(e + 1, b).to_owned();
        proof {
            assert(pv.subrange(a as int, b as int) =~= k@ + seq!['='] + v@);
            assert(valid_sas_pair(pv, k@, v@));
            assert(pv[e as int] == '=');
            assert(has_eq(pv));
        }
        pairs.push((k, v));
    }
    Ok(pairs)
}

/// The static credential a resolved Azure configuration carries.
pub enum AzureCredential {
    /// A storage account access key.
    AccessKey(String),
    /// The key-value pairs of a shared access signature.
    Sas(Vec<(String, String)>),
    /// A service principal: client, secret and tenant.
    ClientSecret { client_id: String, client_secret: String, tenant_id: String },
}

/// A resolved Azure client configuration: everything a real Azure
/// client is built from.
pub struct AzureBuilder {
    pub url: String,
    pub account: String,
    pub use_emulator: Option<bool>,
    pub allow_http: Option<bool>,
    pub credential: AzureCredential,
}

impl AzureConfig {
    /// Resolves a full Azure client configuration. The account name is
    /// required. Credentials are tried in order: an account key from the
    /// options, a SAS token from the options, a full service principal
    /// from the options, one completed from the environment, and last a
    /// SAS token from the environment.
    pub fn get_builder(
        url: String,
        options: &Vec<(String, String)>,
        env: &Vec<(String, String)>,
    ) -> (r: Result<AzureBuilder, StorageError>)
        ensures
            r is Ok <==> azure_builder_ok(options@, env@),
            r matches Err(e) ==> e matches StorageError::Configuration { .. },
            r matches Ok(b) ==> {
                let key = azure_opt_for(options@, AzureConfigKey::AccountKey);
                let sas = azure_opt_for(options@, AzureConfigKey::SasKey);
                &&& b.url@ == url@
                &&& (azure_resolved_account(options@, env@) matches Some(v) && b.account@
                    == v)
                &&& (key matches Some(v) ==> b.credential matches AzureCredential::AccessKey(k)
                    && k@ == v)
                &&& (key is None && sas is Some ==> b.credential is Sas)
                &&& (key is None && sas is None && azure_opts_triple(options@)
                    ==> (b.credential matches AzureCredential::ClientSecret {
                    client_id,
                    client_secret,
                    tenant_id,
                } && Some(client_id@) == azure_opt_for(options@, AzureConfigKey::ClientId)
                    && Some(client_secret@) == azure_opt_for(
                    options@,
                    AzureConfigKey::ClientSecret,
                ) && Some(tenant_id@) == azure_opt_for(
                    options@,
                    AzureConfigKey::AuthorityId,
                )))
                &&& (key is None && sas is None && !azure_opts_triple(options@)
                    && azure_env_triple(options@, env@)
                    ==> (b.credential matches AzureCredential::ClientSecret {
                    client_id,
                    client_secret,
                    tenant_id,
                } && Some(client_id@) == azure_env_completed(
                    options@,
                    env@,
                    AzureConfigKey::ClientId,
                ) && Some(client_secret@) == azure_env_completed(
                    options@,
                    env@,
                    AzureConfigKey::ClientSecret,
                ) && Some(tenant_id@) == azure_env_completed(
                    options@,
                    env@,
                    AzureConfigKey::AuthorityId,
                )))
                &&& (key is None && sas is None && !azure_opts_triple(options@)
                    && !azure_env_triple(options@, env@) ==> b.credential is Sas)
            },
    {
        let config = AzureConfig::new(options, env);
        proof {
            assert(opt_view(config.account_key) == azure_opt_for(
                options@,
                AzureConfigKey::AccountKey,
            ));
            assert(opt_view(config.sas_key) == azure_opt_for(options@, AzureConfigKey::SasKey));
            assert(opt_view(config.client_id) == azure_opt_for(
                options@,
                AzureConfigKey::ClientId,
            ));
            assert(opt_view(config.client_secret) == azure_opt_for(
                options@,
                AzureConfigKey::ClientSecret,
            ));
            assert(opt_view(config.authority_id) == azure_opt_for(
                options@,
                AzureConfigKey::AuthorityId,
            ));
            assert(azure_field_value(config, AzureConfigKey::AccountName)
                == azure_resolved_account(options@, env@));
        }
        let account = match config.get_value(AzureConfigKey::AccountName) {
            Some(v) => v,
            None => {
                proof {
                    assert(!azure_builder_ok(options@, env@));
                }
                return Err(
                    ConfigError::required(
                        String::from_str("azure storage account must be specified"),
                    ).into_storage_error(),
                );
            },
        };
        let use_emulator: Option<bool> = match config.use_emulator {
            Some(b) => Some(b),
            None => {
                match azure_or(
                    azure_or(
                        azure_env_get(&config.env, "azure_storage_use_emulator"),
                        azure_env_get(&config.env, "object_store_use_emulator"),
                    ),
                    azure_env_get(&config.env, "use_emulator"),
                ) {
                    Some(v) => Some(str_is_truthy(v.as_str())),
                    None => None,
                }
            },
        };
        let allow_http: Option<bool> = None;
        if let Some(key) = config.account_key {
            proof {
                assert(azure_credential_ok(options@, env@));
            }
            return Ok(AzureBuilder {
                url,
                account,
                use_emulator,
                allow_http,
                credential: AzureCredential::AccessKey(key),
            });
        }
        if let Some(sas) = config.sas_key {
            let sas_str = sas.as_str();
            let query_pairs = match split_sas(sas_str) {
                Ok(pairs) => pairs,
                Err(e) => {
                    proof {
                        assert(!sas_token_splits(sas@));
                        assert(!azure_credential_ok(options@, env@));
                    }
                    return Err(e.into_storage_error());
                },
            };
            proof {
                assert(sas_token_splits(sas@));
                assert(azure_credential_ok(options@, env@));
            }
            return Ok(AzureBuilder {
                url,
                account,
                use_emulator,
                allow_http,
                credential: AzureCredential::Sas(query_pairs),
            });
        }
        match (&config.client_id, &config.client_secret, &config.authority_id) {
            (Some(client_id), Some(client_secret), Some(tenant_id)) => {
                proof {
                    assert(azure_opts_triple(options@));
                    assert(azure_credential_ok(options@, env@));
                }
                return Ok(AzureBuilder {
                    url,
                    account,
                    use_emulator,
                    allow_http,
                    credential: AzureCredential::ClientSecret {
                        client_id: client_id.clone(),
                        client_secret: client_secret.clone(),
                        tenant_id: tenant_id.clone(),
                    },
                });
            },
            _ => {},
        }
        proof {
            assert(!azure_opts_triple(options@));
        }
        let client_id = match &config.client_id {
            Some(v) => Some(v.clone()),
            None => azure_or(
                azure_or(
                    azure_env_get(&config.env, "azure_storage_client_id"),
                    azure_env_get(&config.env, "azure_client_id"),
                ),
                azure_env_get(&config.env, "client_id"),
            ),
        };
        proof {
            assert(str_opt_is(
                client_id,
                azure_env_completed(options@, env@, AzureConfigKey::ClientId),
            ));
        }
        let client_secret = match &config.client_secret {
            Some(v) => Some(v.clone()),
            None => azure_or(
                azure_or(
                    azure_env_get(&config.env, "azure_storage_client_secret"),
                    azure_env_get(&config.env, "azure_client_secret"),
                ),
                azure_env_get(&config.env, "client_secret"),
            ),
        };
        proof {
            assert(str_opt_is(
                client_secret,
                azure_env_completed(options@, env@, AzureConfigKey::ClientSecret),
            ));
        }
        let authority_id = match &config.authority_id {
            Some(v) => Some(v.clone()),
            None => {
                let a = azure_or(
                    azure_env_get(&config.env, "azure_storage_tenant_id"),
                    azure_env_get(&config.env, "azure_storage_authority_id"),
                );
                let b = azure_or(
                    azure_env_get(&config.env, "azure_tenant_id"),
                    azure_env_get(&config.env, "azure_authority_id"),
                );
                let c = azure_or(
                    azure_env_get(&config.env, "tenant_id"),
                    azure_env_get(&config.env, "authority_id"),
                );
                azure_or(azure_or(a, b), c)
            },
        };
        proof {
            assert(str_opt_is(
                authority_id,
                azure_env_completed(options@, env@, AzureConfigKey::AuthorityId),
            ));
        }
        match (client_id, client_secret, authority_id) {
            (Some(client_id), Some(client_secret), Some(tenant_id)) => {
                proof {
                    assert(azure_env_triple(options@, env@));
                    assert(azure_credential_ok(options@, env@));
                }
                return Ok(AzureBuilder {
                    url,
                    account,
                    use_emulator,
                    allow_http,
                    credential: AzureCredential::ClientSecret {
                        client_id,
                        client_secret,
                        tenant_id,
                    },
                });
            },
            _ => {},
        }
        proof {
            assert(!azure_env_triple(options@, env@));
        }
        let env_sas = azure_or(
            azure_or(
                azure_env_get(&config.env, "azure_storage_sas_token"),
                azure_env_get(&config.env, "azure_storage_sas_key"),
            ),
            azure_or(
                azure_env_get(&config.env, "sas_token"),
                azure_env_get(&config.env, "sas_key"),
            ),
        );
        proof {
            assert(str_opt_is(env_sas, azure_env_for(env@, AzureConfigKey::SasKey)));
        }
        if let Some(sas) = env_sas {
            let sas_str = sas.as_str();
            let query_pairs = match split_sas(sas_str) {
                Ok(pairs) => pairs,
                Err(e) => {
                    proof {
                        assert(!sas_token_splits(sas@));
                        assert(!azure_credential_ok(options@, env@));
                    }
                    return Err(e.into_storage_error());
                },
            };
            proof {
                assert(sas_token_splits(sas@));
                assert(azure_credential_ok(options@, env@));
            }
            return Ok(AzureBuilder {
                url,
                account,
                use_emulator,
                allow_http,
                credential: AzureCredential::Sas(query_pairs),
            });
        }
        proof {
            assert(!azure_credential_ok(options@, env@));
        }
        Err(ConfigError::MissingCredential.into_storage_error())
    }
}

/// The account name resolved from the option map and environment.
pub open spec fn azure_resolved_account(
    options: Seq<(String, String)>,
    env: Seq<(String, String)>,
) -> Option<Seq<char>> {
    or_chars(
        azure_opt_for(options, AzureConfigKey::AccountName),
        azure_env_for(env, AzureConfigKey::AccountName),
    )
}

/// The token decodes to text and every kept piece holds a separator, so
/// splitting it into pairs succeeds.
pub open spec fn sas_token_splits(v: Seq<char>) -> bool {
    valid_utf8(pct_decode(encode_utf8(v))) && {
        let d = decode_utf8(pct_decode(encode_utf8(v)));
        let pieces = sas_split_rec(d.skip(count_q(d)), Seq::empty());
        forall|j: int| 0 <= j < pieces.len() ==> has_eq(#[trigger] pieces[j])
    }
}

/// The option map alone supplies a complete service principal.
pub open spec fn azure_opts_triple(options: Seq<(String, String)>) -> bool {
    &&& azure_opt_for(options, AzureConfigKey::ClientId) is Some
    &&& azure_opt_for(options, AzureConfigKey::ClientSecret) is Some
    &&& azure_opt_for(options, AzureConfigKey::AuthorityId) is Some
}

/// One service-principal part, completed from the environment when the
/// option map lacks it.
pub open spec fn azure_env_completed(
    options: Seq<(String, String)>,
    env: Seq<(String, String)>,
    key: AzureConfigKey,
) -> Option<Seq<char>> {
    or_chars(azure_opt_for(options, key), azure_env_for(env, key))
}

/// The environment completes a service principal.
pub open spec fn azure_env_triple(
    options: Seq<(String, String)>,
    env: Seq<(String, String)>,
) -> bool {
    &&& azure_env_completed(options, env, AzureConfigKey::ClientId) is Some
    &&& azure_env_completed(options, env, AzureConfigKey::ClientSecret) is Some
    &&& azure_env_completed(options, env, AzureConfigKey::AuthorityId) is Some
}

/// Some credential in the fixed precedence order completes: an account
/// key, a splittable SAS token from the options, a service principal from
/// the options or completed from the environment, or a splittable SAS
/// token from the environment.
pub open spec fn azure_credential_ok(
    options: Seq<(String, String)>,
    env: Seq<(String, String)>,
) -> bool {
    match azure_opt_for(options, AzureConfigKey::AccountKey) {
        Some(_) => true,
        None => match azure_opt_for(options, AzureConfigKey::SasKey) {
            Some(sas) => sas_token_splits(sas),
            None => azure_opts_triple(options) || azure_env_triple(options, env) || match
                azure_env_for(env, AzureConfigKey::SasKey) {
                Some(sas) => sas_token_splits(sas),
                None => false,
            },
        },
    }
}

/// Resolving a full Azure client configuration succeeds: the account name
/// resolves and some credential completes.
pub open spec fn azure_builder_ok(
    options: Seq<(String, String)>,
    env: Seq<(String, String)>,
) -> bool {
    azure_resolved_account(options, env) is Some && azure_credential_ok(options, env)
}

} // verus!
