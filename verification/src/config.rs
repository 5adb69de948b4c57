//! Where the notes are kept.

use crate::text::option_view;
use vstd::prelude::*;
use vstd::string::*;

verus! {

/// The name of the file, directly under the storage directory, that new notes are copied from.
pub const TEMPLATE_NAME: &'static str = ".template.md";

/// The name of the environment variable that overrides the storage directory.
pub const NOTES_STORAGE_DIRECTORY: &'static str = "NOTES_STORAGE_DIRECTORY";

/// `directory` followed by `name`, with one `/` between them unless
/// `directory` is empty or already ends with one.
pub open spec fn joined_path(directory: Seq<char>, name: Seq<char>) -> Seq<char> {
    if directory.len() == 0 || directory.last() == '/' {
        directory + name
    } else {
        directory.push('/') + name
    }
}

/// The path of `name` under `directory`.
pub fn join_path(directory: &str, name: &str) -> (path: String)
    ensures
        path@ == joined_path(directory@, name@),
{
    let chars = crate::text::to_chars(directory);
    let mut path = directory.to_string();
    if chars.len() > 0 && chars[chars.len() - 1] != '/' {
        crate::text::push_char(&mut path, '/');
    }
    path.append(name);
    path
}

/// The name of the storage directory under the home directory.
pub const DEFAULT_DIRECTORY: &'static str = ".notes";

/// What stands for the home directory where there is none.
pub const FALLBACK_HOME: &'static str = "/tmp";

/// Where the notes are kept: where the environment says, else in `.notes`
/// under the home directory, else in `/tmp/.notes`.
pub open spec fn storage_path_text(from_env: Option<Seq<char>>, home: Option<Seq<char>>) -> Seq<
    char,
> {
    match from_env {
        Some(path) => path,
        None => joined_path(
            match home {
                Some(directory) => directory,
                None => FALLBACK_HOME@,
            },
            DEFAULT_DIRECTORY@,
        ),
    }
}

/// Where the notes are kept, from the value of the environment variable and
/// the home directory, where there are such.
pub fn storage_path(from_env: Option<String>, home: Option<String>) -> (path: String)
    ensures
        path@ == storage_path_text(option_view(from_env), option_view(home)),
{
    match from_env {
        Some(path) => path,
        None => match home {
            Some(directory) => join_path(directory.as_str(), DEFAULT_DIRECTORY),
            None => join_path(FALLBACK_HOME, DEFAULT_DIRECTORY),
        },
    }
}

/// The storage directory and the template inside it.
pub struct Config {
    pub storage_directory: String,
    pub template_path: String,
}

impl Config {
    /// The configuration for the environment: the value of the environment
    /// variable and the home directory, where there are such.
    pub fn new(from_env: Option<String>, home: Option<String>) -> (config: Self)
        ensures
            config.storage_directory@ == storage_path_text(
                option_view(from_env),
                option_view(home),
            ),
            config.template_path@ == joined_path(config.storage_directory@, TEMPLATE_NAME@),
    {
        let path = storage_path(from_env, home);
        Config::from_path(&path)
    }

    /// The configuration for notes kept under `path`.
    pub fn from_path(path: &String) -> (config: Self)
        ensures
            config.storage_directory@ == path@,
            config.template_path@ == joined_path(path@, TEMPLATE_NAME@),
    {
        Config {
            storage_directory: path.clone(),
            template_path: join_path(path.as_str(), TEMPLATE_NAME),
        }
    }
}

} // verus!
