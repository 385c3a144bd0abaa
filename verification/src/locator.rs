//! Source locators: a local path, or a bucket and a key in object storage.

use crate::command_line::ConfigError;
use vstd::prelude::*;
use vstd::string::StrSliceExecFns;

verus! {

/// `url::ParseError`, of which nothing is read.
#[verifier::external_type_specification]
#[verifier::external_body]
pub struct ExUrlError(url::ParseError);

/// What `url::Url::parse` makes of a text: nothing where it reports an error,
/// else the host of the URL as `host_str` gives it, where it has one, and its
/// path as `path` gives it.
pub uninterp spec fn url_host_and_path(text: Seq<char>) -> Option<(Option<Seq<char>>, Seq<char>)>;

/// The characters of a host that may be missing.
pub open spec fn optional_host(host: Option<String>) -> Option<Seq<char>> {
    match host {
        Some(host) => Some(host@),
        None => None,
    }
}

/// Calls `url::Url::parse` and copies out what `host_str` and `path` return
/// for the URL. The result is a function of the text alone, named by
/// [`url_host_and_path`]; the error is returned where the text is no URL.
#[verifier::external_body]
fn parse_url(text: &str) -> (parts: Result<(Option<String>, String), url::ParseError>)
    ensures
        url_host_and_path(text@) == (match parts {
            Ok((host, path)) => Some((optional_host(host), path@)),
            Err(_) => None,
        }),
{
    let url = url::Url::parse(text)?;
    Ok((url.host_str().map(|host| host.to_owned()), url.path().to_owned()))
}

/// The prefix by which a source path names object storage.
pub open spec fn object_storage_prefix() -> Seq<char> {
    seq!['s', '3', ':', '/', '/']
}

/// Whether a source path names object storage: it starts with `s3://`.
pub open spec fn names_object_storage(source_path: Seq<char>) -> bool {
    source_path.len() >= 5 && source_path.take(5) == object_storage_prefix()
}

/// The key that a path stands for: the path without its leading separator,
/// and the empty key where it has none.
pub open spec fn key_of(path: Seq<char>) -> Seq<char> {
    if path.len() > 0 && path[0] == '/' {
        path.skip(1)
    } else {
        Seq::empty()
    }
}

/// The bucket and the key of a locator that was read as a URL: the host is
/// the bucket and the path gives the key. There are none where the text was
/// no URL or the URL has no host.
pub open spec fn bucket_and_key(parts: Option<(Option<Seq<char>>, Seq<char>)>) -> Option<
    (Seq<char>, Seq<char>),
> {
    match parts {
        Some((Some(host), path)) => Some((host, key_of(path))),
        _ => None,
    }
}

/// Where a source is found.
#[derive(Debug, PartialEq, Eq)]
pub enum Locator {
    /// A path in the local file system.
    Local(String),
    /// A bucket and a key in object storage.
    ObjectStorage { bucket: String, key: String },
}

/// The mathematical value of a locator.
pub enum LocatorView {
    Local(Seq<char>),
    ObjectStorage { bucket: Seq<char>, key: Seq<char> },
}

impl View for Locator {
    type V = LocatorView;

    open spec fn view(&self) -> LocatorView {
        match self {
            Locator::Local(path) => LocatorView::Local(path@),
            Locator::ObjectStorage { bucket, key } => LocatorView::ObjectStorage {
                bucket: bucket@,
                key: key@,
            },
        }
    }
}

/// The locator that a source path stands for: object storage where the path
/// starts with the prefix for it, else the local path itself. There is none
/// where a path for object storage has no bucket and key.
pub open spec fn locator_of(source_path: Seq<char>) -> Option<LocatorView> {
    if names_object_storage(source_path) {
        match bucket_and_key(url_host_and_path(source_path)) {
            Some((bucket, key)) => Some(LocatorView::ObjectStorage { bucket, key }),
            None => None,
        }
    } else {
        Some(LocatorView::Local(source_path))
    }
}

/// Whether a source path names object storage.
pub fn is_object_storage(source_path: &str) -> (remote: bool)
    ensures
        remote == names_object_storage(source_path@),
{
    if source_path.unicode_len() < 5 {
        return false;
    }
    let remote = source_path.get_char(0) == 's' && source_path.get_char(1) == '3'
        && source_path.get_char(2) == ':' && source_path.get_char(3) == '/'
        && source_path.get_char(4) == '/';
    assert(remote ==> source_path@.take(5) =~= object_storage_prefix());
    assert(!remote ==> source_path@.take(5) != object_storage_prefix()) by {
        if source_path@.take(5) == object_storage_prefix() {
            assert(source_path@.take(5)[0] == 's');
            assert(source_path@.take(5)[1] == '3');
            assert(source_path@.take(5)[2] == ':');
            assert(source_path@.take(5)[3] == '/');
            assert(source_path@.take(5)[4] == '/');
        }
    }
    remote
}

/// The key that a path stands for.
pub fn key_from_path(path: &str) -> (key: String)
    ensures
        key@ == key_of(path@),
{
    let length = path.unicode_len();
    if length > 0 && path.get_char(0) == '/' {
        let key = path.substring_char(1, length).to_owned();
        assert(key@ =~= path@.skip(1));
        key
    } else {
        String::new()
    }
}

/// The bucket and the key for the host and the path of a locator.
pub fn bucket_and_key_from(host: Option<String>, path: &str) -> (found: Result<
    (String, String),
    ConfigError,
>)
    ensures
        match found {
            Ok((bucket, key)) => bucket_and_key(Some((optional_host(host), path@))) == Some(
                (bucket@, key@),
            ),
            Err(error) => error == ConfigError::InvalidSourcePath && host is None,
        },
{
    match host {
        Some(bucket) => Ok((bucket, key_from_path(path))),
        None => Err(ConfigError::InvalidSourcePath),
    }
}

/// Reads a source path as a locator of object storage: the host is the
/// bucket, and the path without its leading separator is the key. A path that
/// is no URL, or a URL without a host, is refused.
pub fn split_bucket_and_key(source_path: &str) -> (found: Result<(String, String), ConfigError>)
    ensures
        match found {
            Ok((bucket, key)) => bucket_and_key(url_host_and_path(source_path@)) == Some(
                (bucket@, key@),
            ),
            Err(error) => error == ConfigError::InvalidSourcePath && bucket_and_key(
                url_host_and_path(source_path@),
            ) is None,
        },
{
    match parse_url(source_path) {
        Ok((host, path)) => bucket_and_key_from(host, path.as_str()),
        Err(_) => Err(ConfigError::InvalidSourcePath),
    }
}

/// Resolves a source path. Only the prefix of the path decides between the
/// local file system and object storage.
pub fn locate(source_path: &str) -> (found: Result<Locator, ConfigError>)
    ensures
        match found {
            Ok(locator) => locator_of(source_path@) == Some(locator@),
            Err(error) => error == ConfigError::InvalidSourcePath && locator_of(source_path@)
                is None,
        },
{
    if is_object_storage(source_path) {
        match split_bucket_and_key(source_path) {
            Ok((bucket, key)) => Ok(Locator::ObjectStorage { bucket, key }),
            Err(error) => Err(error),
        }
    } else {
        Ok(Locator::Local(source_path.to_owned()))
    }
}

} // verus!
