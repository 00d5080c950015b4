//! S3 credential and option resolution.

use vstd::prelude::*;

use crate::error::ConfigError;
use crate::error::StorageError;
use crate::strutil::eq_ignore_ascii_case;
use crate::strutil::is_truthy;
use crate::strutil::is_upper_of;
use crate::strutil::lower_chars;
use crate::strutil::str_is_truthy;
use crate::strutil::upper_chars;

verus! {

/// The recognized S3 configuration keys.
#[derive(Clone, Copy, Debug, PartialEq, Eq, Structural)]
pub enum S3ConfigKey {
    AccessKeyId,
    SecretAccessKey,
    Region,
    DefaultRegion,
    Bucket,
    Endpoint,
    Token,
    VirtualHostedStyleRequest,
    MetadataEndpoint,
    Profile,
    AllowHttp,
}

/// Which key an option name stands for, up to ASCII case.
pub open spec fn s3_key_of(raw: Seq<char>) -> Option<S3ConfigKey> {
    let l = lower_chars(raw);
    if l == lower_chars("aws_access_key_id"@) || l == lower_chars("access_key_id"@) {
        Some(S3ConfigKey::AccessKeyId)
    } else if l == lower_chars("aws_secret_access_key"@) || l == lower_chars(
        "secret_access_key"@,
    ) {
        Some(S3ConfigKey::SecretAccessKey)
    } else if l == lower_chars("aws_default_region"@) || l == lower_chars("default_region"@) {
        Some(S3ConfigKey::DefaultRegion)
    } else if l == lower_chars("aws_region"@) || l == lower_chars("region"@) {
        Some(S3ConfigKey::Region)
    } else if l == lower_chars("aws_bucket"@) || l == lower_chars("bucket"@) {
        Some(S3ConfigKey::Bucket)
    } else if l == lower_chars("aws_endpoint_url"@) || l == lower_chars("aws_endpoint"@) || l
        == lower_chars("endpoint_url"@) || l == lower_chars("endpoint"@) {
        Some(S3ConfigKey::Endpoint)
    } else if l == lower_chars("aws_session_token"@) || l == lower_chars("session_token"@) {
        Some(S3ConfigKey::Token)
    } else if l == lower_chars("aws_virtual_hosted_style_request"@) || l == lower_chars(
        "virtual_hosted_style_request"@,
    ) {
        Some(S3ConfigKey::VirtualHostedStyleRequest)
    } else if l == lower_chars("aws_profile"@) || l == lower_chars("profile"@) {
        Some(S3ConfigKey::Profile)
    } else if l == lower_chars("aws_metadata_endpoint"@) || l == lower_chars(
        "metadata_endpoint"@,
    ) {
        Some(S3ConfigKey::MetadataEndpoint)
    } else {
        None
    }
}

/// Resolves an option name to its key.
pub fn s3_key_for(raw: &str) -> (r: Option<S3ConfigKey>)
    ensures
        r == s3_key_of(raw@),
{
    if eq_ignore_ascii_case(raw, "aws_access_key_id") || eq_ignore_ascii_case(
        raw,
        "access_key_id",
    ) {
        Some(S3ConfigKey::AccessKeyId)
    } else if eq_ignore_ascii_case(raw, "aws_secret_access_key") || eq_ignore_ascii_case(
        raw,
        "secret_access_key",
    ) {
        Some(S3ConfigKey::SecretAccessKey)
    } else if eq_ignore_ascii_case(raw, "aws_default_region") || eq_ignore_ascii_case(
        raw,
        "default_region",
    ) {
        Some(S3ConfigKey::DefaultRegion)
    } else if eq_ignore_ascii_case(raw, "aws_region") || eq_ignore_ascii_case(raw, "region") {
        Some(S3ConfigKey::Region)
    } else if eq_ignore_ascii_case(raw, "aws_bucket") || eq_ignore_ascii_case(raw, "bucket") {
        Some(S3ConfigKey::Bucket)
    } else if eq_ignore_ascii_case(raw, "aws_endpoint_url") || eq_ignore_ascii_case(
        raw,
        "aws_endpoint",
    ) || eq_ignore_ascii_case(raw, "endpoint_url") || eq_ignore_ascii_case(raw, "endpoint") {
        Some(S3ConfigKey::Endpoint)
    } else if eq_ignore_ascii_case(raw, "aws_session_token") || eq_ignore_ascii_case(
        raw,
        "session_token",
    ) {
        Some(S3ConfigKey::Token)
    } else if eq_ignore_ascii_case(raw, "aws_virtual_hosted_style_request")
        || eq_ignore_ascii_case(raw, "virtual_hosted_style_request") {
        Some(S3ConfigKey::VirtualHostedStyleRequest)
    } else if eq_ignore_ascii_case(raw, "aws_profile") || eq_ignore_ascii_case(
        raw,
        "profile",
    ) {
        Some(S3ConfigKey::Profile)
    } else if eq_ignore_ascii_case(raw, "aws_metadata_endpoint") || eq_ignore_ascii_case(
        raw,
        "metadata_endpoint",
    ) {
        Some(S3ConfigKey::MetadataEndpoint)
    } else {
        None
    }
}

/// The value the option map holds for a key: the last entry wins.
pub open spec fn s3_opt_for(opts: Seq<(String, String)>, key: S3ConfigKey) -> Option<Seq<char>>
    decreases opts.len(),
{
    if opts.len() == 0 {
        None
    } else if s3_key_of(opts.last().0@) == Some(key) {
        Some(opts.last().1@)
    } else {
        s3_opt_for(opts.drop_last(), key)
    }
}

/// The value an environment snapshot holds under a name: the first entry
/// wins.
pub open spec fn env_lookup(env: Seq<(String, String)>, name: Seq<char>) -> Option<Seq<char>>
    decreases env.len(),
{
    if env.len() == 0 {
        None
    } else if env.first().0@ == name {
        Some(env.first().1@)
    } else {
        env_lookup(env.drop_first(), name)
    }
}

/// The first of two candidate values.
pub open spec fn or_chars(a: Option<Seq<char>>, b: Option<Seq<char>>) -> Option<Seq<char>> {
    if a is Some {
        a
    } else {
        b
    }
}

/// The environment fallback for a key: its aliases, upper-cased, checked
/// in declaration order.
pub open spec fn s3_env_for(env: Seq<(String, String)>, key: S3ConfigKey) -> Option<Seq<char>> {
    match key {
        S3ConfigKey::AccessKeyId => or_chars(
            env_lookup(env, upper_chars("aws_access_key_id"@)),
            env_lookup(env, upper_chars("access_key_id"@)),
        ),
        S3ConfigKey::SecretAccessKey => or_chars(
            env_lookup(env, upper_chars("aws_secret_access_key"@)),
            env_lookup(env, upper_chars("secret_access_key"@)),
        ),
        S3ConfigKey::DefaultRegion => or_chars(
            env_lookup(env, upper_chars("aws_default_region"@)),
            env_lookup(env, upper_chars("default_region"@)),
        ),
        S3ConfigKey::Region => or_chars(
            env_lookup(env, upper_chars("aws_region"@)),
            env_lookup(env, upper_chars("region"@)),
        ),
        S3ConfigKey::Bucket => or_chars(
            env_lookup(env, upper_chars("aws_bucket"@)),
            env_lookup(env, upper_chars("bucket"@)),
        ),
        S3ConfigKey::Endpoint => or_chars(
            or_chars(
                env_lookup(env, upper_chars("aws_endpoint_url"@)),
                env_lookup(env, upper_chars("aws_endpoint"@)),
            ),
            or_chars(
                env_lookup(env, upper_chars("endpoint_url"@)),
                env_lookup(env, upper_chars("endpoint"@)),
            ),
        ),
        S3ConfigKey::Token => or_chars(
            env_lookup(env, upper_chars("aws_session_token"@)),
            env_lookup(env, upper_chars("session_token"@)),
        ),
        S3ConfigKey::VirtualHostedStyleRequest => or_chars(
            env_lookup(env, upper_chars("aws_virtual_hosted_style_request"@)),
            env_lookup(env, upper_chars("virtual_hosted_style_request"@)),
        ),
        S3ConfigKey::Profile => or_chars(
            env_lookup(env, upper_chars("aws_profile"@)),
            env_lookup(env, upper_chars("profile"@)),
        ),
        S3ConfigKey::MetadataEndpoint => or_chars(
            env_lookup(env, upper_chars("aws_metadata_endpoint"@)),
            env_lookup(env, upper_chars("metadata_endpoint"@)),
        ),
        S3ConfigKey::AllowHttp => None,
    }
}

/// An optional string field holds exactly this optional value.
pub open spec fn str_opt_is(f: Option<String>, s: Option<Seq<char>>) -> bool {
    match f {
        Some(v) => s matches Some(x) && v@ == x,
        None => s is None,
    }
}

/// An optional switch field holds the truthiness of this optional value.
pub open spec fn bool_opt_is(f: Option<bool>, s: Option<Seq<char>>) -> bool {
    match f {
        Some(b) => s matches Some(x) && b == is_truthy(x),
        None => s is None,
    }
}

/// An optional switch, serialized back to `true`/`false`.
pub open spec fn bool_opt_chars(f: Option<bool>) -> Option<Seq<char>> {
    match f {
        Some(b) => if b {
            Some(seq!['t', 'r', 'u', 'e'])
        } else {
            Some(seq!['f', 'a', 'l', 's', 'e'])
        },
        None => None,
    }
}

/// Scans the option map from the end for the last entry naming this key.
fn s3_find_option(options: &Vec<(String, String)>, key: S3ConfigKey) -> (r: Option<String>)
    ensures
        str_opt_is(r, s3_opt_for(options@, key)),
{
    let mut j = options.len();
    proof {
        assert(options@.take(options@.len() as int) =~= options@);
    }
    while j > 0
        invariant
            j <= options@.len(),
            s3_opt_for(options@, key) == s3_opt_for(options@.take(j as int), key),
        decreases j,
    {
        j = j - 1;
        proof {
            assert(options@.take(j + 1).drop_last() =~= options@.take(j as int));
            assert(options@.take(j + 1).last() == options@[j as int]);
        }
        let matched = match s3_key_for(options[j].0.as_str()) {
            Some(k) => k == key,
            None => false,
        };
        if matched {
            return Some(options[j].1.clone());
        }
    }
    proof {
        assert(options@.take(0) =~= Seq::<(String, String)>::empty());
    }
    None
}

/// Scans the environment snapshot for the upper-case form of an alias.
fn env_get_upper(env: &Vec<(String, String)>, alias: &str) -> (r: Option<String>)
    ensures
        str_opt_is(r, env_lookup(env@, upper_chars(alias@))),
{
    let n = env.len();
    proof {
        assert(env@.skip(0) =~= env@);
    }
    for i in 0..n
        invariant
            n == env@.len(),
            env_lookup(env@, upper_chars(alias@)) == env_lookup(
                env@.skip(i as int),
                upper_chars(alias@),
            ),
    {
        proof {
            assert(env@.skip(i as int).first() == env@[i as int]);
            assert(env@.skip(i as int).drop_first() =~= env@.skip(i + 1));
        }
        if is_upper_of(env[i].0.as_str(), alias) {
            return Some(env[i].1.clone());
        }
    }
    proof {
        assert(env@.skip(n as int) =~= Seq::<(String, String)>::empty());
    }
    None
}

/// Copies a list of string pairs.
pub fn clone_pairs(v: &Vec<(String, String)>) -> (r: Vec<(String, String)>)
    ensures
        r@ == v@,
{
    let mut r: Vec<(String, String)> = Vec::new();
    let n = v.len();
    for i in 0..n
        invariant
            n == v@.len(),
            r@ =~= v@.take(i as int),
    {
        r.push((v[i].0.clone(), v[i].1.clone()));
        proof {
            assert(r@ =~= v@.take(i + 1));
        }
    }
    proof {
        assert(v@.take(n as int) =~= v@);
    }
    r
}

/// The S3 configuration resolved from an option map, with the
/// environment snapshot it falls back to.
pub struct S3Config {
    pub access_key_id: Option<String>,
    pub secret_access_key: Option<String>,
    pub region: Option<String>,
    pub default_region: Option<String>,
    pub bucket: Option<String>,
    pub endpoint: Option<String>,
    pub token: Option<String>,
    pub virtual_hosted_style_request: Option<bool>,
    pub metadata_endpoint: Option<String>,
    pub profile: Option<String>,
    pub allow_http: Option<bool>,
    pub env: Vec<(String, String)>,
}

/// The fully resolved value for a key: the option map first, then the
/// environment; the region falls back to the default region.
pub open spec fn s3_resolved(
    options: Seq<(String, String)>,
    env: Seq<(String, String)>,
    key: S3ConfigKey,
) -> Option<Seq<char>> {
    match key {
        S3ConfigKey::Region => or_chars(
            or_chars(
                or_chars(
                    s3_opt_for(options, S3ConfigKey::Region),
                    s3_env_for(env, S3ConfigKey::Region),
                ),
                s3_opt_for(options, S3ConfigKey::DefaultRegion),
            ),
            s3_env_for(env, S3ConfigKey::DefaultRegion),
        ),
        S3ConfigKey::VirtualHostedStyleRequest => or_chars(
            bool_opt_chars(
                match s3_opt_for(options, S3ConfigKey::VirtualHostedStyleRequest) {
                    Some(x) => Some(is_truthy(x)),
                    None => None,
                },
            ),
            s3_env_for(env, S3ConfigKey::VirtualHostedStyleRequest),
        ),
        S3ConfigKey::AllowHttp => s3_env_for(env, S3ConfigKey::AllowHttp),
        _ => or_chars(s3_opt_for(options, key), s3_env_for(env, key)),
    }
}

impl S3Config {
    /// Reads the option map once, the last entry winning per key, and
    /// keeps the environment snapshot for fallback.
    pub fn new(options: &Vec<(String, String)>, env: &Vec<(String, String)>) -> (r: S3Config)
        ensures
            str_opt_is(r.access_key_id, s3_opt_for(options@, S3ConfigKey::AccessKeyId)),
            str_opt_is(
                r.secret_access_key,
                s3_opt_for(options@, S3ConfigKey::SecretAccessKey),
            ),
            str_opt_is(r.region, s3_opt_for(options@, S3ConfigKey::Region)),
            str_opt_is(r.default_region, s3_opt_for(options@, S3ConfigKey::DefaultRegion)),
            str_opt_is(r.bucket, s3_opt_for(options@, S3ConfigKey::Bucket)),
            str_opt_is(r.endpoint, s3_opt_for(options@, S3ConfigKey::Endpoint)),
            str_opt_is(r.token, s3_opt_for(options@, S3ConfigKey::Token)),
            bool_opt_is(
                r.virtual_hosted_style_request,
                s3_opt_for(options@, S3ConfigKey::VirtualHostedStyleRequest),
            ),
            str_opt_is(
                r.metadata_endpoint,
                s3_opt_for(options@, S3ConfigKey::MetadataEndpoint),
            ),
            str_opt_is(r.profile, s3_opt_for(options@, S3ConfigKey::Profile)),
            r.allow_http is None,
            r.env@ == env@,
    {
        let virtual_hosted_style_request = match s3_find_option(
            options,
            S3ConfigKey::VirtualHostedStyleRequest,
        ) {
            Some(v) => Some(str_is_truthy(v.as_str())),
            None => None,
        };
        S3Config {
            access_key_id: s3_find_option(options, S3ConfigKey::AccessKeyId),
            secret_access_key: s3_find_option(options, S3ConfigKey::SecretAccessKey),
            region: s3_find_option(options, S3ConfigKey::Region),
            default_region: s3_find_option(options, S3ConfigKey::DefaultRegion),
            bucket: s3_find_option(options, S3ConfigKey::Bucket),
            endpoint: s3_find_option(options, S3ConfigKey::Endpoint),
            token: s3_find_option(options, S3ConfigKey::Token),
            virtual_hosted_style_request,
            metadata_endpoint: s3_find_option(options, S3ConfigKey::MetadataEndpoint),
            profile: s3_find_option(options, S3ConfigKey::Profile),
            allow_http: None,
            env: clone_pairs(env),
        }
    }

    /// The value for one key: the stored field, then the environment; the
    /// region falls back to the default region. Switches come back as
    /// `true` or `false`.
    pub fn get_value(&self, key: S3ConfigKey) -> (r: Option<String>)
        ensures
            str_opt_is(r, s3_field_value(*self, key)),
    {
        match key {
            S3ConfigKey::Region => {
                let first = field_or_env_checked(
                    &self.region,
                    &self.env,
                    "aws_region",
                    "region",
                );
                match first {
                    Some(v) => Some(v),
                    None => field_or_env_checked(
                        &self.default_region,
                        &self.env,
                        "aws_default_region",
                        "default_region",
                    ),
                }
            },
            S3ConfigKey::AccessKeyId => field_or_env_checked(
                &self.access_key_id,
                &self.env,
                "aws_access_key_id",
                "access_key_id",
            ),
            S3ConfigKey::SecretAccessKey => field_or_env_checked(
                &self.secret_access_key,
                &self.env,
                "aws_secret_access_key",
                "secret_access_key",
            ),
            S3ConfigKey::DefaultRegion => field_or_env_checked(
                &self.default_region,
                &self.env,
                "aws_default_region",
                "default_region",
            ),
            S3ConfigKey::Bucket => field_or_env_checked(
                &self.bucket,
                &self.env,
                "aws_bucket",
                "bucket",
            ),
            S3ConfigKey::Endpoint => {
                match &self.endpoint {
                    Some(v) => Some(v.clone()),
                    None => {
                        let a = or_env(
                            env_get_upper(&self.env, "aws_endpoint_url"),
                            env_get_upper(&self.env, "aws_endpoint"),
                        );
                        or_env(
                            a,
                            or_env(
                                env_get_upper(&self.env, "endpoint_url"),
                                env_get_upper(&self.env, "endpoint"),
                            ),
                        )
                    },
                }
            },
            S3ConfigKey::Token => field_or_env_checked(
                &self.token,
                &self.env,
                "aws_session_token",
                "session_token",
            ),
            S3ConfigKey::VirtualHostedStyleRequest => {
                match self.virtual_hosted_style_request {
                    Some(b) => Some(bool_string_checked(b)),
                    None => or_env(
                        env_get_upper(&self.env, "aws_virtual_hosted_style_request"),
                        env_get_upper(&self.env, "virtual_hosted_style_request"),
                    ),
                }
            },
            S3ConfigKey::MetadataEndpoint => field_or_env_checked(
                &self.metadata_endpoint,
                &self.env,
                "aws_metadata_endpoint",
                "metadata_endpoint",
            ),
            S3ConfigKey::Profile => field_or_env_checked(
                &self.profile,
                &self.env,
                "aws_profile",
                "profile",
            ),
            S3ConfigKey::AllowHttp => {
                match self.allow_http {
                    Some(b) => Some(bool_string_checked(b)),
                    None => None,
                }
            },
        }
    }
}

/// The value `get_value` serves for one key, over the stored fields and
/// the environment snapshot.
pub open spec fn s3_field_value(c: S3Config, key: S3ConfigKey) -> Option<Seq<char>> {
    match key {
        S3ConfigKey::Region => or_chars(
            or_chars(opt_view(c.region), s3_env_for(c.env@, S3ConfigKey::Region)),
            or_chars(
                opt_view(c.default_region),
                s3_env_for(c.env@, S3ConfigKey::DefaultRegion),
            ),
        ),
        S3ConfigKey::AccessKeyId => or_chars(
            opt_view(c.access_key_id),
            s3_env_for(c.env@, key),
        ),
        S3ConfigKey::SecretAccessKey => or_chars(
            opt_view(c.secret_access_key),
            s3_env_for(c.env@, key),
        ),
        S3ConfigKey::DefaultRegion => or_chars(
            opt_view(c.default_region),
            s3_env_for(c.env@, key),
        ),
        S3ConfigKey::Bucket => or_chars(opt_view(c.bucket), s3_env_for(c.env@, key)),
        S3ConfigKey::Endpoint => or_chars(opt_view(c.endpoint), s3_env_for(c.env@, key)),
        S3ConfigKey::Token => or_chars(opt_view(c.token), s3_env_for(c.env@, key)),
        S3ConfigKey::VirtualHostedStyleRequest => or_chars(
            bool_opt_chars(c.virtual_hosted_style_request),
            s3_env_for(c.env@, key),
        ),
        S3ConfigKey::MetadataEndpoint => or_chars(
            opt_view(c.metadata_endpoint),
            s3_env_for(c.env@, key),
        ),
        S3ConfigKey::Profile => or_chars(opt_view(c.profile), s3_env_for(c.env@, key)),
        S3ConfigKey::AllowHttp => bool_opt_chars(c.allow_http),
    }
}

/// The view of an optional string.
pub open spec fn opt_view(o: Option<String>) -> Option<Seq<char>> {
    match o {
        Some(v) => Some(v@),
        None => None,
    }
}

/// The first of two candidate values.
fn or_env(a: Option<String>, b: Option<String>) -> (r: Option<String>)
    ensures
        str_opt_is(
            r,
            or_chars(
                match a {
                    Some(v) => Some(v@),
                    None => None,
                },
                match b {
                    Some(v) => Some(v@),
                    None => None,
                },
            ),
        ),
{
    match a {
        Some(v) => Some(v),
        None => b,
    }
}

/// A resolved S3 client configuration: everything a real S3 client is
/// built from.
pub struct S3Builder {
    pub url: String,
    pub region: String,
    pub bucket_name: String,
    pub endpoint: Option<String>,
    pub virtual_hosted_style_request: Option<bool>,
    pub allow_http: Option<bool>,
    pub access_key_id: Option<String>,
    pub secret_access_key: Option<String>,
}

impl S3Config {
    /// Resolves a full S3 client configuration: region and bucket are
    /// required, endpoint and the switches optional, and static
    /// credentials only when both halves are present.
    pub fn get_builder(
        url: String,
        options: &Vec<(String, String)>,
        env: &Vec<(String, String)>,
    ) -> (r: Result<S3Builder, StorageError>)
        ensures
            r is Ok <==> s3_resolved(options@, env@, S3ConfigKey::Region) is Some
                && s3_resolved(options@, env@, S3ConfigKey::Bucket) is Some,
            r matches Err(e) ==> e matches StorageError::Configuration { .. },
            r matches Ok(b) ==> {
                &&& b.url@ == url@
                &&& (s3_resolved(options@, env@, S3ConfigKey::Region) matches Some(v)
                    && b.region@ == v)
                &&& (s3_resolved(options@, env@, S3ConfigKey::Bucket) matches Some(v)
                    && b.bucket_name@ == v)
                &&& str_opt_is(b.endpoint, s3_resolved(options@, env@, S3ConfigKey::Endpoint))
                &&& bool_opt_is(
                    b.virtual_hosted_style_request,
                    s3_resolved(options@, env@, S3ConfigKey::VirtualHostedStyleRequest),
                )
                &&& bool_opt_is(
                    b.allow_http,
                    s3_resolved(options@, env@, S3ConfigKey::AllowHttp),
                )
                &&& {
                    let ak = s3_resolved(options@, env@, S3ConfigKey::AccessKeyId);
                    let sk = s3_resolved(options@, env@, S3ConfigKey::SecretAccessKey);
                    if ak is Some && sk is Some {
                        str_opt_is(b.access_key_id, ak) && str_opt_is(b.secret_access_key, sk)
                    } else {
                        b.access_key_id is None && b.secret_access_key is None
                    }
                }
            },
    {
        let config = S3Config::new(options, env);
        proof {
            assert(s3_field_value(config, S3ConfigKey::Region) == s3_resolved(
                options@,
                env@,
                S3ConfigKey::Region,
            ));
            assert(s3_field_value(config, S3ConfigKey::Bucket) == s3_resolved(
                options@,
                env@,
                S3ConfigKey::Bucket,
            ));
            assert(s3_field_value(config, S3ConfigKey::Endpoint) == s3_resolved(
                options@,
                env@,
                S3ConfigKey::Endpoint,
            ));
            assert(s3_field_value(config, S3ConfigKey::VirtualHostedStyleRequest)
                == s3_resolved(options@, env@, S3ConfigKey::VirtualHostedStyleRequest));
            assert(s3_field_value(config, S3ConfigKey::AllowHttp) == s3_resolved(
                options@,
                env@,
                S3ConfigKey::AllowHttp,
            ));
            assert(s3_field_value(config, S3ConfigKey::AccessKeyId) == s3_resolved(
                options@,
                env@,
                S3ConfigKey::AccessKeyId,
            ));
            assert(s3_field_value(config, S3ConfigKey::SecretAccessKey) == s3_resolved(
                options@,
                env@,
                S3ConfigKey::SecretAccessKey,
            ));
        }
        let region = match config.get_value(S3ConfigKey::Region) {
            Some(v) => v,
            None => {
                return Err(
                    ConfigError::required(
                        String::from_str("aws region must be specified"),
                    ).into_storage_error(),
                );
            },
        };
        let bucket_name = match config.get_value(S3ConfigKey::Bucket) {
            Some(v) => v,
            None => {
                return Err(
                    ConfigError::required(
                        String::from_str("aws bucket must be specified"),
                    ).into_storage_error(),
                );
            },
        };
        let endpoint = config.get_value(S3ConfigKey::Endpoint);
        let virtual_hosted_style_request = match config.get_value(
            S3ConfigKey::VirtualHostedStyleRequest,
        ) {
            Some(v) => Some(str_is_truthy(v.as_str())),
            None => None,
        };
        let allow_http = match config.get_value(S3ConfigKey::AllowHttp) {
            Some(v) => Some(str_is_truthy(v.as_str())),
            None => None,
        };
        let ak = config.get_value(S3ConfigKey::AccessKeyId);
        let sk = config.get_value(S3ConfigKey::SecretAccessKey);
        let (access_key_id, secret_access_key): (Option<String>, Option<String>) =
            match (ak, sk) {
            (Some(a), Some(s)) => (Some(a), Some(s)),
            _ => (None, None),
        };
        Ok(S3Builder {
            url,
            region,
            bucket_name,
            endpoint,
            virtual_hosted_style_request,
            allow_http,
            access_key_id,
            secret_access_key,
        })
    }
}

/// A field value, or the two-alias environment fallback.
fn field_or_env_checked(
    field: &Option<String>,
    env: &Vec<(String, String)>,
    alias1: &str,
    alias2: &str,
) -> (r: Option<String>)
    ensures
        str_opt_is(
            r,
            or_chars(
                match field {
                    Some(v) => Some(v@),
                    None => None,
                },
                or_chars(
                    env_lookup(env@, upper_chars(alias1@)),
                    env_lookup(env@, upper_chars(alias2@)),
                ),
            ),
        ),
{
    match field {
        Some(v) => Some(v.clone()),
        None => or_env(env_get_upper(env, alias1), env_get_upper(env, alias2)),
    }
}

/// A switch serialized as text, with its view pinned down.
fn bool_string_checked(b: bool) -> (r: String)
    ensures
        b ==> r@ == seq!['t', 'r', 'u', 'e'],
        !b ==> r@ == seq!['f', 'a', 'l', 's', 'e'],
{
    proof {
        reveal_strlit("true");
        reveal_strlit("false");
        assert("true"@ =~= seq!['t', 'r', 'u', 'e']);
        assert("false"@ =~= seq!['f', 'a', 'l', 's', 'e']);
    }
    if b {
        String::from_str("true")
    } else {
        String::from_str("false")
    }
}

} // verus!
