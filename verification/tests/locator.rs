use batch_uploader::command_line::ConfigError;
use batch_uploader::locator::{
    bucket_and_key_from, is_object_storage, key_from_path, locate, split_bucket_and_key, Locator,
};

fn pair(bucket: &str, key: &str) -> (String, String) {
    (bucket.to_string(), key.to_string())
}

#[test]
fn bucket_and_key_of_a_locator() {
    assert_eq!(split_bucket_and_key("s3://bucket/key"), Ok(pair("bucket", "key")));
    assert_eq!(
        split_bucket_and_key("s3://my-bucket/some/dir/file.json"),
        Ok(pair("my-bucket", "some/dir/file.json"))
    );
}

#[test]
fn a_locator_without_a_key() {
    assert_eq!(split_bucket_and_key("s3://bucket"), Ok(pair("bucket", "")));
    assert_eq!(split_bucket_and_key("s3://bucket/"), Ok(pair("bucket", "")));
}

#[test]
fn a_locator_that_is_no_url_is_refused() {
    assert_eq!(split_bucket_and_key("not a locator"), Err(ConfigError::InvalidSourcePath));
    assert_eq!(split_bucket_and_key(""), Err(ConfigError::InvalidSourcePath));
    assert_eq!(split_bucket_and_key("/tmp/file.json"), Err(ConfigError::InvalidSourcePath));
}

#[test]
fn a_locator_without_a_host_is_refused() {
    assert_eq!(split_bucket_and_key("mailto:someone"), Err(ConfigError::InvalidSourcePath));
    assert_eq!(split_bucket_and_key("s3:///key"), Err(ConfigError::InvalidSourcePath));
}

#[test]
fn the_prefix_decides_between_local_and_remote() {
    assert!(is_object_storage("s3://bucket/key"));
    assert!(is_object_storage("s3://"));
    assert!(!is_object_storage("s3:/"));
    assert!(!is_object_storage("S3://bucket/key"));
    assert!(!is_object_storage("/s3://bucket/key"));
    assert!(!is_object_storage("records.json"));
    assert!(!is_object_storage(""));
    assert!(!is_object_storage("é3://bucket"));
}

#[test]
fn key_of_a_path() {
    assert_eq!(key_from_path("/a/b"), "a/b");
    assert_eq!(key_from_path("/"), "");
    assert_eq!(key_from_path(""), "");
    assert_eq!(key_from_path("a/b"), "");
    assert_eq!(key_from_path("//a"), "/a");
    assert_eq!(key_from_path("/é/€"), "é/€");
}

#[test]
fn bucket_and_key_from_host_and_path() {
    assert_eq!(bucket_and_key_from(Some("b".to_string()), "/k"), Ok(pair("b", "k")));
    assert_eq!(bucket_and_key_from(None, "/k"), Err(ConfigError::InvalidSourcePath));
}

#[test]
fn locate_resolves_local_paths_and_object_storage() {
    assert_eq!(locate("data/records.json"), Ok(Locator::Local("data/records.json".to_string())));
    assert_eq!(locate(""), Ok(Locator::Local(String::new())));
    assert_eq!(
        locate("s3://bucket/dir/records.csv"),
        Ok(Locator::ObjectStorage {
            bucket: "bucket".to_string(),
            key: "dir/records.csv".to_string()
        })
    );
    assert_eq!(locate("s3://"), Err(ConfigError::InvalidSourcePath));
}
