//! The settings of one run, and the selectors that they stand for.

use crate::field_name::{copy_names, FieldName, FieldNameView};
use crate::file_type::FileType;
use vstd::prelude::*;

verus! {

/// The settings of one run, as they were given when it was started.
#[derive(Debug)]
pub struct CommandLine {
    /// Source path
    pub source_path: String,
    /// Source file type
    pub source_file_type: FileType,
    /// Database connection String
    pub connection_string: String,
    /// Database collection
    pub database_collection: String,
    /// Field to be used as point id
    pub id_field_name: Option<String>,
    /// Names of the fields to be loaded as vectors
    pub vector_field_name: Vec<String>,
    /// If true, a non named vector is uploaded, which is possible only if
    /// just one vector field name is provided
    pub upload_non_named_vector: bool,
    /// Names of the fields to be loaded as payload
    pub payload_field: Option<Vec<String>>,
    /// If a single payload field is provided and it is an object, it is
    /// uploaded as the payload value
    pub upload_whole_field_as_payload: bool,
    /// The database write chunk size
    pub chunk_size: usize,
    /// How many records are read from the source at once
    pub batch_size: u32,
    /// The S3 endpoint to connect to
    pub s3_endpoint: Option<String>,
    /// S3 Access key
    pub s3_access_key: Option<String>,
    /// S3 Secret Access key
    pub s3_secret_access_key: Option<String>,
    /// S3 Region to connect
    pub s3_region: Option<String>,
}

/// A combination of settings that no run can start with.
#[derive(Clone, Copy, Debug, PartialEq, Eq)]
pub enum ConfigError {
    /// The whole-field payload mode was asked for with a number of payload
    /// fields other than one.
    WholeFieldPayloadNeedsOneField,
    /// The non-named vector mode was asked for with a number of vector
    /// fields other than one.
    NonNamedVectorNeedsOneField,
    /// The source path names object storage but cannot be read as a locator
    /// with a bucket.
    InvalidSourcePath,
}

impl ConfigError {
    /// The sentence that says what is wrong with the settings.
    pub open spec fn text(self) -> Seq<char> {
        match self {
            ConfigError::WholeFieldPayloadNeedsOneField =>
                "When using --upload-whole-field-as-payload=true, exactly one value must be provided for --payload-field"@,
            ConfigError::NonNamedVectorNeedsOneField =>
                "When using --upload-non-named-vector=true, exactly one value must be provided for --vector-field-name"@,
            ConfigError::InvalidSourcePath => "Invalid source-path"@,
        }
    }

    /// A sentence for the person who started the run.
    pub fn message(&self) -> (message: String)
        ensures
            message@ == self.text(),
    {
        let message = match self {
            ConfigError::WholeFieldPayloadNeedsOneField =>
                "When using --upload-whole-field-as-payload=true, exactly one value must be provided for --payload-field",
            ConfigError::NonNamedVectorNeedsOneField =>
                "When using --upload-non-named-vector=true, exactly one value must be provided for --vector-field-name",
            ConfigError::InvalidSourcePath => "Invalid source-path",
        };
        message.to_owned()
    }
}

/// The selector that a list of names stands for: in the single mode the one
/// name of the list, and nothing where the list does not hold exactly one; in
/// the other mode the whole list.
pub open spec fn selector(names: Seq<Seq<char>>, single: bool) -> Option<FieldNameView> {
    if single {
        if names.len() == 1 {
            Some(FieldNameView::Single(names[0]))
        } else {
            None
        }
    } else {
        Some(FieldNameView::Named(names))
    }
}

/// The selector for a list of names and a mode.
fn load_selector(names: &Vec<String>, single: bool) -> (loaded: Option<FieldName>)
    ensures
        loaded is Some <==> selector(names.deep_view(), single) is Some,
        loaded matches Some(field) ==> selector(names.deep_view(), single) == Some(field@),
{
    if single {
        if names.len() == 1 {
            Some(FieldName::Single(names[0].clone()))
        } else {
            None
        }
    } else {
        Some(FieldName::Named(copy_names(names)))
    }
}

impl CommandLine {
    /// The payload selector that the settings stand for, where they name
    /// payload fields at all.
    pub open spec fn payload_selector(self) -> Option<Option<FieldNameView>> {
        match self.payload_field {
            None => Some(None),
            Some(names) => match selector(names.deep_view(), self.upload_whole_field_as_payload) {
                Some(field) => Some(Some(field)),
                None => None,
            },
        }
    }

    /// The vector selector that the settings stand for.
    pub open spec fn vector_selector(self) -> Option<FieldNameView> {
        selector(self.vector_field_name.deep_view(), self.upload_non_named_vector)
    }

    /// The payload selector: none where no payload field was asked for, the
    /// one field in the whole-field mode, else the named fields. The
    /// whole-field mode with a number of fields other than one is refused.
    pub fn load_payload_field(&self) -> (loaded: Result<Option<FieldName>, ConfigError>)
        ensures
            loaded is Ok <==> self.payload_selector() is Some,
            loaded matches Ok(field) ==> self.payload_selector() == Some(
                match field {
                    Some(f) => Some(f@),
                    None => None,
                },
            ),
            loaded matches Err(error) ==> error == ConfigError::WholeFieldPayloadNeedsOneField,
    {
        match &self.payload_field {
            None => Ok(None),
            Some(names) => match load_selector(names, self.upload_whole_field_as_payload) {
                Some(field) => Ok(Some(field)),
                None => Err(ConfigError::WholeFieldPayloadNeedsOneField),
            },
        }
    }

    /// The vector selector: the one field in the non-named mode, else the
    /// named fields. The non-named mode with a number of fields other than one
    /// is refused.
    pub fn load_vector_field_name(&self) -> (loaded: Result<FieldName, ConfigError>)
        ensures
            loaded is Ok <==> self.vector_selector() is Some,
            loaded matches Ok(field) ==> self.vector_selector() == Some(field@),
            loaded matches Err(error) ==> error == ConfigError::NonNamedVectorNeedsOneField,
    {
        match load_selector(&self.vector_field_name, self.upload_non_named_vector) {
            Some(field) => Ok(field),
            None => Err(ConfigError::NonNamedVectorNeedsOneField),
        }
    }
}

} // verus!
