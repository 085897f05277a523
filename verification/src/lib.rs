//! A typed reader for OpenAPI documents written as JSON or YAML.
//!
//! A text is read in two steps. The decoder of its encoding (`serde_json` or
//! `serde_yaml`) reads it into a generic tree ([`tree::Node`]); the typed
//! model in [`open_api`] is then decoded from that tree, and can be encoded
//! back into it. The first step is taken on trust; the second is verified,
//! down to the laws in [`laws`] and in [`codec::Wire`].
//!
//! Which decoder reads a file goes by the extension of its path
//! ([`determine_file_type`]).

pub mod codec;
pub mod collection;
pub mod laws;
pub mod open_api;
pub mod path;
pub mod reader;
pub mod scalar;
pub mod tree;

use vstd::prelude::*;

use crate::codec::{Mismatch, Wire};
use crate::open_api::document::OpenApiSpec;
use crate::path::{
    extension, file_name, find_last, lemma_extension_is_suffix, lemma_trimmed_is_whole,
    ends_in, tail_is, trimmed, trimmed_chars_of,
};
use crate::reader::{json_document, parse_json_document, parse_yaml_document, yaml_document};
use crate::tree::Tree;

verus! {

/// `std::io::Error`, which a read failure carries as it is. Nothing is said
/// of what it holds.
#[verifier::external_type_specification]
#[verifier::external_body]
pub struct ExIoError(std::io::Error);

/// Why a text could not be decoded.
#[derive(Debug)]
pub enum DecodeFailure<E> {
    /// The decoder of the encoding refused the text: it is not valid for the
    /// encoding, or its top is no mapping. The decoder's own error says
    /// where.
    Decoder(E),
    /// The text was read, but a field of its tree does not have the shape
    /// that the model asks for. The mismatch names the keys that lead to the
    /// field.
    Shape(Mismatch),
}

/// Why a document could not be loaded.
#[derive(Debug)]
pub enum OpenApiError {
    /// The file could not be opened or read.
    ReadError(std::io::Error),
    /// The file was taken for JSON and could not be decoded.
    JsonParseError(DecodeFailure<serde_json::Error>),
    /// The file was taken for YAML and could not be decoded.
    YamlParseError(DecodeFailure<serde_yaml::Error>),
    /// The extension of the path is none of `json`, `yaml` and `yml`.
    UnsupportedFormat,
}

/// The encodings that a document can be written in.
#[derive(Clone, Copy, Debug, PartialEq, Eq, Structural)]
pub enum FileType {
    Json,
    Yaml,
}

/// The encoding that a path's extension stands for. Extensions are compared
/// as they are written: `JSON` is not `json`.
pub open spec fn file_type_of(path: Seq<char>) -> Option<FileType> {
    match extension(path) {
        Some(ext) => if ext == "json"@ {
            Some(FileType::Json)
        } else if ext == "yaml"@ || ext == "yml"@ {
            Some(FileType::Yaml)
        } else {
            None
        },
        None => None,
    }
}

/// A path is taken for JSON exactly where it ends in `.json`, and for YAML
/// exactly where it ends in `.yaml` or `.yml`, once the `/` and `/.` at its
/// end are left out.
pub proof fn lemma_file_type_by_suffix(path: Seq<char>)
    ensures
        file_type_of(path) == Some(FileType::Json) <==> ends_in(trimmed(path), ".json"@),
        file_type_of(path) == Some(FileType::Yaml) <==> ends_in(trimmed(path), ".yaml"@)
            || ends_in(trimmed(path), ".yml"@),
{
    reveal_strlit("json");
    reveal_strlit("yaml");
    reveal_strlit("yml");
    reveal_strlit(".json");
    reveal_strlit(".yaml");
    reveal_strlit(".yml");
    assert(".json"@ =~= seq!['.'] + "json"@);
    assert(".yaml"@ =~= seq!['.'] + "yaml"@);
    assert(".yml"@ =~= seq!['.'] + "yml"@);
    assert("json"@.len() == 4 && "yaml"@.len() == 4 && "yml"@.len() == 3);
    assert("json"@[0] == 'j' && "yaml"@[0] == 'y');
    lemma_extension_is_suffix(path, "json"@);
    lemma_extension_is_suffix(path, "yaml"@);
    lemma_extension_is_suffix(path, "yml"@);
}

/// A path that ends in `.json`, `.yaml` or `.yml` is taken for the encoding
/// that the ending names.
pub proof fn lemma_file_type_of_ending(path: Seq<char>)
    ensures
        ends_in(path, ".json"@) ==> file_type_of(path) == Some(FileType::Json),
        ends_in(path, ".yaml"@) ==> file_type_of(path) == Some(FileType::Yaml),
        ends_in(path, ".yml"@) ==> file_type_of(path) == Some(FileType::Yaml),
{
    reveal_strlit(".json");
    reveal_strlit(".yaml");
    reveal_strlit(".yml");
    assert(".json"@.len() == 5 && ".json"@[4] == 'n' && ".json"@[3] == 'o');
    assert(".yaml"@.len() == 5 && ".yaml"@[4] == 'l' && ".yaml"@[3] == 'm');
    assert(".yml"@.len() == 4 && ".yml"@[3] == 'l' && ".yml"@[2] == 'm');
    if ends_in(path, ".json"@) {
        assert(path.last() == ".json"@[4]);
        assert(path[path.len() - 2] == ".json"@[3]);
        lemma_trimmed_is_whole(path);
    }
    if ends_in(path, ".yaml"@) {
        assert(path.last() == ".yaml"@[4]);
        assert(path[path.len() - 2] == ".yaml"@[3]);
        lemma_trimmed_is_whole(path);
    }
    if ends_in(path, ".yml"@) {
        assert(path.last() == ".yml"@[3]);
        assert(path[path.len() - 2] == ".yml"@[2]);
        lemma_trimmed_is_whole(path);
    }
    lemma_file_type_by_suffix(path);
}

/// Determines the encoding of a file from the extension of its path.
pub fn determine_file_type(file_path: &str) -> (r: Result<FileType, OpenApiError>)
    ensures
        match r {
            Ok(t) => file_type_of(file_path@) == Some(t),
            Err(e) => e is UnsupportedFormat && file_type_of(file_path@) is None,
        },
{
    let chars = trimmed_chars_of(file_path);
    assert(chars@.subrange(0, chars@.len() as int) =~= chars@);
    let name_start: usize = match find_last(&chars, 0, '/') {
        Some(slash) => slash + 1,
        None => 0,
    };
    let ghost name = file_name(file_path@);
    match find_last(&chars, name_start, '.') {
        Some(dot) => {
            let ghost ext = name.subrange(dot - name_start + 1, name.len() as int);
            assert(ext =~= chars@.subrange(dot + 1, chars@.len() as int));
            if tail_is(&chars, dot + 1, "json") {
                Ok(FileType::Json)
            } else if tail_is(&chars, dot + 1, "yaml") || tail_is(&chars, dot + 1, "yml") {
                Ok(FileType::Yaml)
            } else {
                Err(OpenApiError::UnsupportedFormat)
            }
        },
        None => Err(OpenApiError::UnsupportedFormat),
    }
}

/// The tree that the decoder of an encoding reads from the text of a
/// document, or `None` where it rejects the text.
pub open spec fn text_tree(file_type: FileType, text: Seq<char>) -> Option<Tree> {
    match file_type {
        FileType::Json => json_document(text),
        FileType::Yaml => yaml_document(text),
    }
}

/// Decodes a document from a text in a given encoding.
///
/// The text is read into a tree by the decoder of the encoding, and the
/// document is decoded from the tree. A failure names the encoding, and says
/// whether the text or the shape of its tree was at fault.
pub fn parse_text(file_type: FileType, contents: &str) -> (r: Result<OpenApiSpec, OpenApiError>)
    ensures
        match r {
            Ok(doc) => {
                &&& text_tree(file_type, contents@) is Some
                &&& OpenApiSpec::decoded(text_tree(file_type, contents@)->0) == Some(doc.model())
                &&& OpenApiSpec::valid(doc.model())
            },
            Err(OpenApiError::JsonParseError(DecodeFailure::Decoder(_))) => {
                &&& file_type == FileType::Json
                &&& json_document(contents@) is None
            },
            Err(OpenApiError::JsonParseError(DecodeFailure::Shape(m))) => {
                &&& file_type == FileType::Json
                &&& json_document(contents@) is Some
                &&& OpenApiSpec::decoded(json_document(contents@)->0) is None
                &&& m.model() == OpenApiSpec::fault(json_document(contents@)->0)
            },
            Err(OpenApiError::YamlParseError(DecodeFailure::Decoder(_))) => {
                &&& file_type == FileType::Yaml
                &&& yaml_document(contents@) is None
            },
            Err(OpenApiError::YamlParseError(DecodeFailure::Shape(m))) => {
                &&& file_type == FileType::Yaml
                &&& yaml_document(contents@) is Some
                &&& OpenApiSpec::decoded(yaml_document(contents@)->0) is None
                &&& m.model() == OpenApiSpec::fault(yaml_document(contents@)->0)
            },
            Err(_) => false,
        },
{
    match file_type {
        FileType::Json => match parse_json_document(contents) {
            Ok(tree) => match OpenApiSpec::decode(&tree) {
                Ok(doc) => {
                    proof {
                        OpenApiSpec::lemma_decoded_valid(tree@);
                    }
                    Ok(doc)
                },
                Err(m) => Err(OpenApiError::JsonParseError(DecodeFailure::Shape(m))),
            },
            Err(e) => Err(OpenApiError::JsonParseError(DecodeFailure::Decoder(e))),
        },
        FileType::Yaml => match parse_yaml_document(contents) {
            Ok(tree) => match OpenApiSpec::decode(&tree) {
                Ok(doc) => {
                    proof {
                        OpenApiSpec::lemma_decoded_valid(tree@);
                    }
                    Ok(doc)
                },
                Err(m) => Err(OpenApiError::YamlParseError(DecodeFailure::Shape(m))),
            },
            Err(e) => Err(OpenApiError::YamlParseError(DecodeFailure::Decoder(e))),
        },
    }
}

/// Decodes the document that a file holds, from the file's path and its
/// contents.
///
/// The extension of the path decides the encoding; where it is none of
/// `json`, `yaml` and `yml` the result is `UnsupportedFormat`, whatever the
/// contents are.
pub fn parse_openapi_text(file_path: &str, contents: &str) -> (r: Result<
    OpenApiSpec,
    OpenApiError,
>)
    ensures
        match r {
            Ok(doc) => {
                &&& file_type_of(file_path@) is Some
                &&& text_tree(file_type_of(file_path@)->0, contents@) is Some
                &&& OpenApiSpec::decoded(text_tree(file_type_of(file_path@)->0, contents@)->0)
                    == Some(doc.model())
                &&& OpenApiSpec::valid(doc.model())
            },
            Err(OpenApiError::UnsupportedFormat) => file_type_of(file_path@) is None,
            Err(OpenApiError::JsonParseError(DecodeFailure::Decoder(_))) => {
                &&& file_type_of(file_path@) == Some(FileType::Json)
                &&& json_document(contents@) is None
            },
            Err(OpenApiError::JsonParseError(DecodeFailure::Shape(m))) => {
                &&& file_type_of(file_path@) == Some(FileType::Json)
                &&& json_document(contents@) is Some
                &&& OpenApiSpec::decoded(json_document(contents@)->0) is None
                &&& m.model() == OpenApiSpec::fault(json_document(contents@)->0)
            },
            Err(OpenApiError::YamlParseError(DecodeFailure::Decoder(_))) => {
                &&& file_type_of(file_path@) == Some(FileType::Yaml)
                &&& yaml_document(contents@) is None
            },
            Err(OpenApiError::YamlParseError(DecodeFailure::Shape(m))) => {
                &&& file_type_of(file_path@) == Some(FileType::Yaml)
                &&& yaml_document(contents@) is Some
                &&& OpenApiSpec::decoded(yaml_document(contents@)->0) is None
                &&& m.model() == OpenApiSpec::fault(yaml_document(contents@)->0)
            },
            Err(OpenApiError::ReadError(_)) => false,
        },
{
    match determine_file_type(file_path) {
        Ok(file_type) => parse_text(file_type, contents),
        Err(e) => Err(e),
    }
}

} // verus!
