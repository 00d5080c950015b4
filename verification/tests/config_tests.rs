//! Backend selection from root URLs, and credential resolution from
//! option maps and environment snapshots.

use objstore::builder::ObjectStoreBuilder;
use objstore::builder::ObjectStoreKind;
use objstore::builder::ObjectStoreImpl;
use objstore::config::aws::S3Config;
use objstore::config::azure::split_sas;
use objstore::config::azure::AzureConfig;
use objstore::config::azure::AzureCredential;
use objstore::config::google::GoogleConfig;
use objstore::error::ConfigError;
use objstore::error::StorageError;
use objstore::path::StorePath;
use objstore::strutil::str_is_truthy;

fn pairs(kv: &[(&str, &str)]) -> Vec<(String, String)> {
    kv.iter()
        .map(|(k, v)| (k.to_string(), v.to_string()))
        .collect()
}

#[test]
fn scheme_dispatch_table() {
    let k = |s: &str| ObjectStoreKind::for_scheme(s, "");
    assert_eq!(k("file").unwrap(), ObjectStoreKind::Local);
    assert_eq!(k("memory").unwrap(), ObjectStoreKind::InMemory);
    for s in ["az", "abfs", "abfss", "azure", "wasb", "adl"] {
        assert_eq!(k(s).unwrap(), ObjectStoreKind::Azure);
    }
    assert_eq!(k("s3").unwrap(), ObjectStoreKind::S3);
    assert_eq!(k("s3a").unwrap(), ObjectStoreKind::S3);
    assert_eq!(k("gs").unwrap(), ObjectStoreKind::Google);
    assert!(matches!(
        k("ftp"),
        Err(StorageError::UnresolvableBackend)
    ));
}

#[test]
fn https_sniffs_the_host() {
    let k = |h: &str| ObjectStoreKind::for_scheme("https", h);
    assert_eq!(
        k("bucket.s3.us-east-1.amazonaws.com").unwrap(),
        ObjectStoreKind::S3
    );
    assert_eq!(
        k("account.dfs.core.windows.net").unwrap(),
        ObjectStoreKind::Azure
    );
    assert_eq!(
        k("account.blob.core.windows.net").unwrap(),
        ObjectStoreKind::Azure
    );
    assert!(matches!(
        k("example.com"),
        Err(StorageError::UnresolvableBackend)
    ));
}

#[test]
fn build_resolves_memory_url_with_path_prefix() {
    // exercises the URL parser: scheme and path must really be split out
    let cfg = ObjectStoreBuilder::new("memory://host/some/prefix")
        .with_path_as_prefix(true)
        .build()
        .unwrap();
    assert!(matches!(cfg.backend, ObjectStoreImpl::InMemory));
    assert_eq!(cfg.prefix.unwrap().to_string(), "some/prefix");
}

#[test]
fn build_records_the_parsed_url() {
    let cfg = ObjectStoreBuilder::new("s3://my-bucket/some/path")
        .with_options(pairs(&[("region", "r"), ("bucket", "my-bucket")]))
        .build()
        .unwrap();
    let url = cfg.url.unwrap();
    assert_eq!(url.raw_url, "s3://my-bucket/some/path");
    assert_eq!(url.scheme, "s3");
    assert_eq!(url.host, "my-bucket");
    assert_eq!(url.prefix.to_string(), "some/path");

    let bare = ObjectStoreBuilder::new("/just/a/path").build().unwrap();
    assert!(bare.url.is_none());
}

#[test]
fn build_keeps_an_explicit_prefix() {
    let cfg = ObjectStoreBuilder::new("memory://host/ignored")
        .with_path_as_prefix(true)
        .with_prefix(StorePath::parse("chosen").unwrap())
        .build()
        .unwrap();
    assert_eq!(cfg.prefix.unwrap().to_string(), "chosen");
}

#[test]
fn build_resolves_s3_with_options() {
    let cfg = ObjectStoreBuilder::new("s3://my-bucket/data")
        .with_options(pairs(&[("region", "us-east-2"), ("bucket", "my-bucket")]))
        .build()
        .unwrap();
    match cfg.backend {
        ObjectStoreImpl::S3(b) => {
            assert_eq!(b.region, "us-east-2");
            assert_eq!(b.bucket_name, "my-bucket");
        },
        _ => panic!("expected an S3 backend"),
    }
}

#[test]
fn build_falls_back_to_local_for_bare_paths() {
    let cfg = ObjectStoreBuilder::new("/tmp/somewhere").build().unwrap();
    match cfg.backend {
        ObjectStoreImpl::Local { root } => assert_eq!(root, "/tmp/somewhere"),
        _ => panic!("expected a local backend"),
    }
}

#[test]
fn build_rejects_unknown_scheme() {
    let r = ObjectStoreBuilder::new("ftp://host/x").build();
    assert!(matches!(r, Err(StorageError::UnresolvableBackend)));
}

#[test]
fn truthy_values() {
    for v in ["1", "true", "TRUE", "On", "yes", "Y"] {
        assert!(str_is_truthy(v), "{v} should be truthy");
    }
    for v in ["0", "false", "", "no", "2", "tru"] {
        assert!(!str_is_truthy(v), "{v} should not be truthy");
    }
}

#[test]
fn s3_options_resolve_case_insensitively_and_last_wins() {
    let options = pairs(&[
        ("AWS_REGION", "eu-west-1"),
        ("Region", "us-west-2"),
        ("bucket", "b1"),
        ("virtual_hosted_style_request", "TRUE"),
    ]);
    let b = S3Config::get_builder("s3://b1".to_string(), &options, &Vec::new()).unwrap();
    assert_eq!(b.region, "us-west-2");
    assert_eq!(b.bucket_name, "b1");
    assert_eq!(b.virtual_hosted_style_request, Some(true));
    assert_eq!(b.endpoint, None);
    assert_eq!(b.access_key_id, None);
}

#[test]
fn s3_falls_back_to_environment() {
    let env = pairs(&[("AWS_DEFAULT_REGION", "ap-south-1"), ("AWS_BUCKET", "b2")]);
    let b = S3Config::get_builder("s3://b2".to_string(), &Vec::new(), &env).unwrap();
    assert_eq!(b.region, "ap-south-1");
    assert_eq!(b.bucket_name, "b2");
}

#[test]
fn s3_requires_region_and_bucket() {
    let r = S3Config::get_builder(
        "s3://b".to_string(),
        &pairs(&[("bucket", "b")]),
        &Vec::new(),
    );
    assert!(matches!(r, Err(StorageError::Configuration { .. })));
    let r2 = S3Config::get_builder(
        "s3://b".to_string(),
        &pairs(&[("region", "us-east-1")]),
        &Vec::new(),
    );
    assert!(matches!(r2, Err(StorageError::Configuration { .. })));
}

#[test]
fn s3_credentials_only_in_pairs() {
    let options = pairs(&[
        ("region", "r"),
        ("bucket", "b"),
        ("access_key_id", "AK"),
    ]);
    let b = S3Config::get_builder("s3://b".to_string(), &options, &Vec::new()).unwrap();
    // one half alone is not a static credential
    assert_eq!(b.access_key_id, None);
    assert_eq!(b.secret_access_key, None);

    let both = pairs(&[
        ("region", "r"),
        ("bucket", "b"),
        ("access_key_id", "AK"),
        ("secret_access_key", "SK"),
    ]);
    let b2 = S3Config::get_builder("s3://b".to_string(), &both, &Vec::new()).unwrap();
    assert_eq!(b2.access_key_id.as_deref(), Some("AK"));
    assert_eq!(b2.secret_access_key.as_deref(), Some("SK"));
}

#[test]
fn azure_requires_an_account() {
    let r = AzureConfig::get_builder("az://c".to_string(), &Vec::new(), &Vec::new());
    assert!(matches!(r, Err(StorageError::Configuration { .. })));
}

#[test]
fn azure_prefers_an_account_key() {
    let options = pairs(&[
        ("account_name", "acct"),
        ("account_key", "KEY"),
        ("sas_token", "sv=1&sig=x"),
    ]);
    let b = AzureConfig::get_builder("az://c".to_string(), &options, &Vec::new()).unwrap();
    assert_eq!(b.account, "acct");
    match b.credential {
        AzureCredential::AccessKey(k) => assert_eq!(k, "KEY"),
        _ => panic!("expected the account key to win"),
    }
}

#[test]
fn azure_sas_token_is_split() {
    let options = pairs(&[
        ("account_name", "acct"),
        ("sas_token", "?sv=2021&sig=abc%2Bdef"),
    ]);
    let b = AzureConfig::get_builder("az://c".to_string(), &options, &Vec::new()).unwrap();
    match b.credential {
        AzureCredential::Sas(kv) => {
            assert_eq!(kv.len(), 2);
            assert_eq!(kv[0].0, "sv");
            assert_eq!(kv[0].1, "2021");
            assert_eq!(kv[1].0, "sig");
            // the percent escape really was decoded
            assert_eq!(kv[1].1, "abc+def");
        },
        _ => panic!("expected a SAS credential"),
    }
}

#[test]
fn azure_service_principal_from_options_or_environment() {
    let options = pairs(&[
        ("account_name", "acct"),
        ("client_id", "CID"),
        ("client_secret", "CS"),
        ("tenant_id", "TID"),
    ]);
    let b = AzureConfig::get_builder("az://c".to_string(), &options, &Vec::new()).unwrap();
    match b.credential {
        AzureCredential::ClientSecret {
            client_id,
            client_secret,
            tenant_id,
        } => {
            assert_eq!(client_id, "CID");
            assert_eq!(client_secret, "CS");
            assert_eq!(tenant_id, "TID");
        },
        _ => panic!("expected a service principal"),
    }

    let env = pairs(&[
        ("AZURE_CLIENT_ID", "EID"),
        ("AZURE_CLIENT_SECRET", "ES"),
        ("AZURE_TENANT_ID", "ET"),
    ]);
    let b2 = AzureConfig::get_builder(
        "az://c".to_string(),
        &pairs(&[("account_name", "acct")]),
        &env,
    )
    .unwrap();
    assert!(matches!(
        b2.credential,
        AzureCredential::ClientSecret { .. }
    ));
}

#[test]
fn azure_without_any_credential_fails() {
    let r = AzureConfig::get_builder(
        "az://c".to_string(),
        &pairs(&[("account_name", "acct")]),
        &Vec::new(),
    );
    assert!(matches!(r, Err(StorageError::Configuration { .. })));
}

#[test]
fn azure_use_emulator_is_truthy() {
    let options = pairs(&[
        ("account_name", "acct"),
        ("account_key", "K"),
        ("use_emulator", "yes"),
    ]);
    let b = AzureConfig::get_builder("az://c".to_string(), &options, &Vec::new()).unwrap();
    assert_eq!(b.use_emulator, Some(true));
}

#[test]
fn split_sas_splits_pairs() {
    let kv = split_sas("?a=1&b=two%20words& &c=x%3Dy").unwrap();
    assert_eq!(kv.len(), 3);
    assert_eq!(kv[0], ("a".to_string(), "1".to_string()));
    assert_eq!(kv[1], ("b".to_string(), "two words".to_string()));
    // the value keeps everything after the first separator
    assert_eq!(kv[2], ("c".to_string(), "x=y".to_string()));
}

#[test]
fn split_sas_drops_whitespace_pieces() {
    let kv = split_sas("a=1&\u{2003} \u{2003}&b=2").unwrap();
    assert_eq!(kv.len(), 2);
    assert_eq!(kv[0], ("a".to_string(), "1".to_string()));
    assert_eq!(kv[1], ("b".to_string(), "2".to_string()));
}

#[test]
fn split_sas_rejects_a_piece_without_separator() {
    let r = split_sas("a=1&credential");
    assert!(matches!(r, Err(ConfigError::MissingCredential)));
}

#[test]
fn split_sas_rejects_undecodable_input() {
    let r = split_sas("sig=%FF");
    assert!(matches!(r, Err(ConfigError::Decode { .. })));
}

#[test]
fn google_requires_a_service_account() {
    let r = GoogleConfig::get_builder("gs://b".to_string(), &Vec::new(), &Vec::new());
    assert!(matches!(r, Err(StorageError::Configuration { .. })));

    let b = GoogleConfig::get_builder(
        "gs://b".to_string(),
        &pairs(&[("service_account", "/keys/svc.json")]),
        &Vec::new(),
    )
    .unwrap();
    assert_eq!(b.service_account_path, "/keys/svc.json");

    let b2 = GoogleConfig::get_builder(
        "gs://b".to_string(),
        &Vec::new(),
        &pairs(&[("GOOGLE_SERVICE_ACCOUNT", "/env/svc.json")]),
    )
    .unwrap();
    assert_eq!(b2.service_account_path, "/env/svc.json");
}
