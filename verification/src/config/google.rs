//! Google Cloud Storage credential resolution.

use vstd::prelude::*;

use crate::config::aws::clone_pairs;
use crate::config::aws::env_lookup;
use crate::config::aws::opt_view;
use crate::config::aws::or_chars;
use crate::config::aws::str_opt_is;
use crate::error::ConfigError;
use crate::error::StorageError;
use crate::strutil::eq_ignore_ascii_case;
use crate::strutil::is_upper_of;
use crate::strutil::lower_chars;
use crate::strutil::upper_chars;

verus! {

/// The recognized Google configuration keys.
#[derive(Clone, Copy, Debug, PartialEq, Eq, Structural)]
pub enum GoogleConfigKey {
    ServiceAccount,
}

/// Which key an option name stands for, up to ASCII case.
pub open spec fn google_key_of(raw: Seq<char>) -> Option<GoogleConfigKey> {
    let l = lower_chars(raw);
    if l == lower_chars("google_service_account"@) || l == lower_chars("service_account"@) {
        Some(GoogleConfigKey::ServiceAccount)
    } else {
        None
    }
}

/// The value the option map holds for a key: the last entry wins.
pub open spec fn google_opt_for(opts: Seq<(String, String)>, key: GoogleConfigKey) -> Option<
    Seq<char>,
>
    decreases opts.len(),
{
    if opts.len() == 0 {
        None
    } else if google_key_of(opts.last().0@) == Some(key) {
        Some(opts.last().1@)
    } else {
        google_opt_for(opts.drop_last(), key)
    }
}

/// The environment fallback for a key.
pub open spec fn google_env_for(env: Seq<(String, String)>, key: GoogleConfigKey) -> Option<
    Seq<char>,
> {
    or_chars(
        env_lookup(env, upper_chars("google_service_account"@)),
        env_lookup(env, upper_chars("service_account"@)),
    )
}

/// The fully resolved value for a key: the option map first, then the
/// environment.
pub open spec fn google_resolved(
    options: Seq<(String, String)>,
    env: Seq<(String, String)>,
    key: GoogleConfigKey,
) -> Option<Seq<char>> {
    or_chars(google_opt_for(options, key), google_env_for(env, key))
}

/// The Google configuration resolved from an option map, with the
/// environment snapshot it falls back to.
pub struct GoogleConfig {
    pub service_account: Option<String>,
    pub env: Vec<(String, String)>,
}

/// Scans the option map from the end for the last entry naming this key.
fn google_find_option(options: &Vec<(String, String)>, key: GoogleConfigKey) -> (r: Option<
    String,
>)
    ensures
        str_opt_is(r, google_opt_for(options@, key)),
{
    let mut j = options.len();
    proof {
        assert(options@.take(options@.len() as int) =~= options@);
    }
    while j > 0
        invariant
            j <= options@.len(),
            google_opt_for(options@, key) == google_opt_for(options@.take(j as int), key),
        decreases j,
    {
        j = j - 1;
        proof {
            assert(options@.take(j + 1).drop_last() =~= options@.take(j as int));
            assert(options@.take(j + 1).last() == options@[j as int]);
        }
        if eq_ignore_ascii_case(options[j].0.as_str(), "google_service_account")
            || eq_ignore_ascii_case(options[j].0.as_str(), "service_account") {
            return Some(options[j].1.clone());
        }
    }
    proof {
        assert(options@.take(0) =~= Seq::<(String, String)>::empty());
    }
    None
}

/// Scans the environment snapshot for the upper-case form of an alias.
fn google_env_get(env: &Vec<(String, String)>, alias: &str) -> (r: Option<String>)
    ensures
        str_opt_is(r, env_lookup(env@, upper_chars(alias@))),
{
    let n = env.len();
    proof {
        assert(env@.skip(0) =~= env@);
    }
    for i in 0..n
        invariant
            n == env@.len(),
            env_lookup(env@, upper_chars(alias@)) == env_lookup(
                env@.skip(i as int),
                upper_chars(alias@),
            ),
    {
        proof {
            assert(env@.skip(i as int).first() == env@[i as int]);
            assert(env@.skip(i as int).drop_first() =~= env@.skip(i + 1));
        }
        if is_upper_of(env[i].0.as_str(), alias) {
            return Some(env[i].1.clone());
        }
    }
    proof {
        assert(env@.skip(n as int) =~= Seq::<(String, String)>::empty());
    }
    None
}

/// A resolved Google client configuration: everything a real Google
/// client is built from.
pub struct GoogleBuilder {
    pub url: String,
    pub service_account_path: String,
}

impl GoogleConfig {
    /// Reads the option map once and keeps the environment snapshot for
    /// fallback.
    pub fn new(options: &Vec<(String, String)>, env: &Vec<(String, String)>) -> (r:
        GoogleConfig)
        ensures
            str_opt_is(
                r.service_account,
                google_opt_for(options@, GoogleConfigKey::ServiceAccount),
            ),
            r.env@ == env@,
    {
        GoogleConfig {
            service_account: google_find_option(options, GoogleConfigKey::ServiceAccount),
            env: clone_pairs(env),
        }
    }

    /// The value for one key: the stored field, then the environment.
    pub fn get_value(&self, key: GoogleConfigKey) -> (r: Option<String>)
        ensures
            str_opt_is(
                r,
                or_chars(opt_view(self.service_account), google_env_for(self.env@, key)),
            ),
    {
        match &self.service_account {
            Some(v) => Some(v.clone()),
            None => {
                match google_env_get(&self.env, "google_service_account") {
                    Some(v) => Some(v),
                    None => google_env_get(&self.env, "service_account"),
                }
            },
        }
    }

    /// Resolves a full Google client configuration: the service account
    /// is required.
    pub fn get_builder(
        url: String,
        options: &Vec<(String, String)>,
        env: &Vec<(String, String)>,
    ) -> (r: Result<GoogleBuilder, StorageError>)
        ensures
            r is Ok <==> google_resolved(options@, env@, GoogleConfigKey::ServiceAccount)
                is Some,
            r matches Err(e) ==> e matches StorageError::Configuration { .. },
            r matches Ok(b) ==> b.url@ == url@ && (google_resolved(
                options@,
                env@,
                GoogleConfigKey::ServiceAccount,
            ) matches Some(v) && b.service_account_path@ == v),
    {
        let config = GoogleConfig::new(options, env);
        match config.get_value(GoogleConfigKey::ServiceAccount) {
            Some(service_account_path) => Ok(GoogleBuilder { url, service_account_path }),
            None => Err(
                ConfigError::required(
                    String::from_str("google service account must be specified"),
                ).into_storage_error(),
            ),
        }
    }
}

} // verus!
