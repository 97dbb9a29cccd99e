use edit_s3_file::S3Config;

fn config(access_key: Option<&str>, secret_key: Option<&str>) -> S3Config {
    S3Config {
        endpoint: "http://127.0.0.1:9000".to_string(),
        bucket: "plots".to_string(),
        region: "us-east-1".to_string(),
        access_key: access_key.map(|key| key.to_string()),
        secret_key: secret_key.map(|key| key.to_string()),
    }
}

#[test]
fn credentials_need_both_keys() {
    assert_eq!(
        config(Some("id"), Some("secret")).static_credentials(),
        Some(("id".to_string(), "secret".to_string()))
    );
    assert_eq!(config(Some("id"), None).static_credentials(), None);
    assert_eq!(config(None, Some("secret")).static_credentials(), None);
    assert_eq!(config(None, None).static_credentials(), None);
}

#[test]
fn config_can_be_cloned() {
    let existing = config(Some("id"), Some("secret"));
    let copy = existing.clone();
    assert_eq!(copy.endpoint, existing.endpoint);
    assert_eq!(copy.bucket, existing.bucket);
    assert_eq!(copy.region, existing.region);
    assert_eq!(copy.access_key, existing.access_key);
    assert_eq!(copy.secret_key, existing.secret_key);
}
