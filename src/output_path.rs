//! Where an output goes: a path given by the caller, or a name made from the source's.
use vstd::prelude::*;
use crate::config::OutputType;

verus! {

/// Relies on std's `Path::file_stem`: the file name without its last
/// extension, `None` where the path has no file name. How a path splits into
/// components depends on the platform, so nothing more is stated.
#[verifier::external_body]
fn file_stem(path: &str) -> (r: Option<String>) {
    std::path::Path::new(path).file_stem().map(|s| s.to_string_lossy().into_owned())
}

/// Relies on std's `Path::extension`: the text after the last `.` of the file
/// name, if any (platform dependent, so not stated).
#[verifier::external_body]
fn file_extension(path: &str) -> (r: Option<String>) {
    std::path::Path::new(path).extension().map(|s| s.to_string_lossy().into_owned())
}

/// Relies on std's `Path::join`: `file_name` inside the directory `dir`
/// (platform dependent, so not stated).
#[verifier::external_body]
fn join_path(dir: &str, file_name: &str) -> (r: String) {
    std::path::Path::new(dir).join(file_name).to_string_lossy().into_owned()
}

/// Relies on std's `Path::with_file_name`: `path` with its file name replaced
/// (platform dependent, so not stated).
#[verifier::external_body]
fn replace_file_name(path: &str, file_name: &str) -> (r: String) {
    std::path::Path::new(path).with_file_name(file_name).to_string_lossy().into_owned()
}

/// The extension of the output: a palette image keeps the source's (`png`
/// where it has none), a record is `json`.
pub open spec fn output_extension(source_extension: Option<Seq<char>>, output_type: OutputType) -> Seq<char> {
    match output_type {
        OutputType::OriginalImage | OutputType::StandalonePalette => match source_extension {
            Some(e) => e,
            None => "png"@,
        },
        OutputType::Json | OutputType::JsonFile => "json"@,
    }
}

/// `<stem>_palette.<extension>`.
pub open spec fn palette_name(stem: Seq<char>, source_extension: Option<Seq<char>>, output_type: OutputType) -> Seq<char> {
    stem + "_palette."@ + output_extension(source_extension, output_type)
}

/// The output's file name for a source with this stem and extension.
pub fn palette_file_name(stem: &str, extension: Option<&str>, output_type: OutputType) -> (r: String)
    ensures
        r@ == palette_name(
            stem@,
            match extension {
                Some(e) => Some(e@),
                None => None,
            },
            output_type,
        ),
{
    let new_extension: &str = match output_type {
        OutputType::OriginalImage | OutputType::StandalonePalette => match extension {
            Some(e) => e,
            None => "png",
        },
        OutputType::Json | OutputType::JsonFile => "json",
    };
    let mut name = String::from_str(stem);
    name.append("_palette.");
    name.append(new_extension);
    name
}

/// The path of the output for `original_file`.
///
/// An output path that is not a directory is used as it stands. Otherwise the
/// name is `<stem>_palette.<extension>` (see `palette_file_name`), placed in
/// the output directory, or beside the source where no output was given.
/// `None` where the source path has no file name.
pub fn output_file_name(
    original_file: &str,
    output: Option<&str>,
    output_is_dir: bool,
    output_type: OutputType,
) -> (r: Option<String>)
    ensures
        output is Some && !output_is_dir ==> (r matches Some(s) && s@ == output->Some_0@),
{
    match output {
        Some(p) => {
            if !output_is_dir {
                return Some(String::from_str(p));
            }
        },
        None => {},
    }
    let stem = match file_stem(original_file) {
        Some(s) => s,
        None => return None,
    };
    let extension = file_extension(original_file);
    let extension_str: Option<&str> = match &extension {
        Some(e) => Some(e.as_str()),
        None => None,
    };
    let file_name = palette_file_name(stem.as_str(), extension_str, output_type);
    match output {
        Some(p) => Some(join_path(p, file_name.as_str())),
        None => Some(replace_file_name(original_file, file_name.as_str())),
    }
}

} // verus!
