//! Locating and loading the configuration file: which of the candidate
//! paths is read, when the search ends, and what becomes of what was read.
//! The caller reads the files and brings the loader; the decisions are made
//! here.

use std::path::PathBuf;
use vstd::prelude::*;

verus! {

/// A path of the file system, as std holds it.
#[verifier::external_type_specification]
#[verifier::external_body]
pub struct ExPathBuf(PathBuf);

/// A payload with the path that it was read from.
#[derive(Debug)]
pub struct Meta<T> {
    /// The actual payload.
    pub payload: T,
    /// The path.
    pub path: PathBuf,
}

/// Error returned while reading configuration.
#[derive(Debug)]
pub enum ReadError<E> {
    /// No configuration file found in any of the provided paths.
    NotFound {
        /// The paths that were tried.
        paths: Vec<PathBuf>,
    },
    /// Failed to read the configuration file from disk.
    Read {
        /// Path to the configuration file.
        path: PathBuf,
        /// Underlying I/O error.
        source: E,
    },
}

/// How the attempt to read one candidate ended.
#[derive(Debug)]
pub enum Attempt<E> {
    /// The file was read; these are its contents.
    Contents(String),
    /// There is no such file.
    Missing,
    /// The file could not be read.
    Failed(E),
}

/// What follows the attempt to read one candidate.
#[derive(Debug)]
pub enum Search<E> {
    /// The search ends with this result.
    Ended(Result<Meta<String>, ReadError<E>>),
    /// The next candidate is tried.
    Continues,
}

/// Decide what follows the attempt to read the candidate at `path`: the
/// first file that exists ends the search with its contents, a file that
/// exists and cannot be read ends it with the error, and a missing file
/// leaves the search to the next candidate.
pub fn after_attempt<E>(path: PathBuf, attempt: Attempt<E>) -> (search: Search<E>)
    ensures
        search == (match attempt {
            Attempt::Contents(contents) => Search::Ended(Ok(Meta { payload: contents, path })),
            Attempt::Missing => Search::<E>::Continues,
            Attempt::Failed(source) => Search::Ended(Err(ReadError::Read { path, source })),
        }),
{
    match attempt {
        Attempt::Contents(contents) => Search::Ended(Ok(Meta { payload: contents, path })),
        Attempt::Missing => Search::Continues,
        Attempt::Failed(source) => Search::Ended(Err(ReadError::Read { path, source })),
    }
}

/// Error returned while loading configuration.
#[derive(Debug)]
pub enum LoadError<ReadFailure, LoaderError> {
    /// Failed to read the configuration file.
    Read(ReadError<ReadFailure>),
    /// Failed to parse the configuration contents.
    Load {
        /// Path to the configuration file.
        path: PathBuf,
        /// Underlying loader error.
        source: LoaderError,
    },
}

/// Load configuration from what the search found: where a file was read,
/// its contents are parsed with the provided loader, and what the loader
/// gives is returned with the path of the file, or the loader's error with
/// that path; where the search failed, its error is returned and the
/// loader is not called.
pub fn load<T, ReadFailure, LoaderError, Loader: FnOnce(String) -> Result<T, LoaderError>>(
    found: Result<Meta<String>, ReadError<ReadFailure>>,
    loader: Loader,
) -> (r: Result<Meta<T>, LoadError<ReadFailure, LoaderError>>)
    requires
        found matches Ok(meta) ==> call_requires(loader, (meta.payload,)),
    ensures
        match found {
            Ok(meta) => match r {
                Ok(loaded) => loaded.path == meta.path && call_ensures(
                    loader,
                    (meta.payload,),
                    Ok(loaded.payload),
                ),
                Err(LoadError::Load { path, source }) => path == meta.path && call_ensures(
                    loader,
                    (meta.payload,),
                    Err(source),
                ),
                Err(LoadError::Read(_)) => false,
            },
            Err(error) => r == Err::<Meta<T>, LoadError<ReadFailure, LoaderError>>(
                LoadError::Read(error),
            ),
        },
{
    match found {
        Err(error) => Err(LoadError::Read(error)),
        Ok(meta) => {
            let Meta { payload, path } = meta;
            match loader(payload) {
                Ok(payload) => Ok(Meta { payload, path }),
                Err(source) => Err(LoadError::Load { path, source }),
            }
        },
    }
}

} // verus!
