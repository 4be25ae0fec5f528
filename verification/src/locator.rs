//! Where the engine is installed: a path or a command name, or nothing yet.
//!
//! The location is an ordinary value. A program that wants one location for
//! the whole process keeps a single `TesseractPath` behind a lock of its own
//! and hands it to the functions here.

use vstd::prelude::*;
use vstd::string::StringExecFns;

verus! {

/// The kind of system the engine runs on, as far as the engine's file name depends on it.
#[derive(Clone, Copy, Debug, PartialEq, Eq, Structural)]
pub enum Platform {
    Windows,
    Other,
}

/// What asking for the current working directory gave.
#[derive(Debug)]
pub enum WorkingDirectory {
    /// The directory, as text.
    Known(String),
    /// There is a working directory, but its name is not valid Unicode.
    NotUnicode,
    /// The working directory could not be determined.
    Unavailable,
}

impl View for WorkingDirectory {
    type V = Option<Option<Seq<char>>>;

    /// `None` when the directory is unavailable, `Some(None)` when its name
    /// is not Unicode, `Some(Some(name))` otherwise.
    open spec fn view(&self) -> Option<Option<Seq<char>>> {
        match self {
            WorkingDirectory::Known(s) => Some(Some(s@)),
            WorkingDirectory::NotUnicode => Some(None),
            WorkingDirectory::Unavailable => None,
        }
    }
}

impl Clone for WorkingDirectory {
    fn clone(&self) -> (r: WorkingDirectory)
        ensures
            r@ == self@,
    {
        match self {
            WorkingDirectory::Known(dir) => WorkingDirectory::Known(dir.clone()),
            WorkingDirectory::NotUnicode => WorkingDirectory::NotUnicode,
            WorkingDirectory::Unavailable => WorkingDirectory::Unavailable,
        }
    }
}

/// The engine's location: a path or a command name, if one has been set.
#[derive(Debug)]
pub struct TesseractPath {
    pub path: Option<String>,
}

impl View for TesseractPath {
    type V = Option<Seq<char>>;

    open spec fn view(&self) -> Option<Seq<char>> {
        match self.path {
            Some(s) => Some(s@),
            None => None,
        }
    }
}

impl Clone for TesseractPath {
    fn clone(&self) -> (r: TesseractPath)
        ensures
            r@ == self@,
    {
        match &self.path {
            Some(s) => TesseractPath { path: Some(s.clone()) },
            None => TesseractPath { path: None },
        }
    }
}

/// The engine's bare command name, which the system looks up on its search path.
pub open spec fn default_command(platform: Platform) -> Seq<char> {
    match platform {
        Platform::Windows => "tesseract.exe"@,
        Platform::Other => "tesseract"@,
    }
}

/// Where the engine lies below a directory that holds a `tesseract` folder.
pub open spec fn bundled_suffix(platform: Platform) -> Seq<char> {
    match platform {
        Platform::Windows => "/tesseract/tesseract.exe"@,
        Platform::Other => "/tesseract/tesseract"@,
    }
}

/// The text that stands in for a working directory whose name is not Unicode.
pub open spec fn fallback_directory(platform: Platform) -> Seq<char> {
    match platform {
        Platform::Windows => "./tesseract/tesseract.exe"@,
        Platform::Other => "./tesseract/tesseract"@,
    }
}

/// The location derived from the working directory: the engine inside the
/// directory's `tesseract` folder, or nothing when the directory is unavailable.
pub open spec fn bundled_location(
    cwd: Option<Option<Seq<char>>>,
    platform: Platform,
) -> Option<Seq<char>> {
    match cwd {
        Some(Some(dir)) => Some(dir + bundled_suffix(platform)),
        Some(None) => Some(fallback_directory(platform) + bundled_suffix(platform)),
        None => None,
    }
}

/// The location after `s` has been written over `before`: always `s`,
/// whatever was there.
pub open spec fn written(before: Option<Seq<char>>, s: Seq<char>) -> Option<Seq<char>> {
    Some(s)
}

impl TesseractPath {
    /// No location yet.
    pub fn new() -> (r: TesseractPath)
        ensures
            r@ is None,
    {
        TesseractPath { path: None }
    }

    /// The engine bundled in the `tesseract` folder of the working directory.
    pub fn use_current_dir(cwd: WorkingDirectory, platform: Platform) -> (r: TesseractPath)
        ensures
            r@ == bundled_location(cwd@, platform),
    {
        let suffix: &str = match platform {
            Platform::Windows => "/tesseract/tesseract.exe",
            Platform::Other => "/tesseract/tesseract",
        };
        match cwd {
            WorkingDirectory::Known(dir) => TesseractPath { path: Some(dir.concat(suffix)) },
            WorkingDirectory::NotUnicode => {
                let base: &str = match platform {
                    Platform::Windows => "./tesseract/tesseract.exe",
                    Platform::Other => "./tesseract/tesseract",
                };
                TesseractPath { path: Some(String::from_str(base).concat(suffix)) }
            },
            WorkingDirectory::Unavailable => TesseractPath::new(),
        }
    }

    /// The engine at the path or under the command name `s`.
    pub fn use_certain_path(s: String) -> (r: TesseractPath)
        ensures
            r@ == Some(s@),
    {
        TesseractPath { path: Some(s) }
    }

    /// The engine under its bare command name.
    pub fn use_default(platform: Platform) -> (r: TesseractPath)
        ensures
            r@ == Some(default_command(platform)),
    {
        match platform {
            Platform::Windows => TesseractPath { path: Some(String::from_str("tesseract.exe")) },
            Platform::Other => TesseractPath { path: Some(String::from_str("tesseract")) },
        }
    }

    /// Overwrites the location with `s`.
    pub fn set_tesseract_path(&mut self, s: String)
        ensures
            final(self)@ == written(old(self)@, s@),
    {
        self.path = Some(s);
    }
}

/// The location that `locator` holds, if any.
pub fn get_tesseract_installed_path(locator: &TesseractPath) -> (r: Option<String>)
    ensures
        r.deep_view() == locator@,
{
    match &locator.path {
        Some(s) => Some(s.clone()),
        None => None,
    }
}

/// Overwrites the location that `locator` holds with `s`.
pub fn set_tesseract_installed_path(locator: &mut TesseractPath, s: String)
    ensures
        final(locator)@ == written(old(locator)@, s@),
{
    locator.set_tesseract_path(s);
}

/// Two writes leave the location at the value written last, whole, whatever
/// was there before and in whichever order the two are applied: the outcome
/// is always one of the two written values.
pub proof fn lemma_last_write_wins(before: Option<Seq<char>>, a: Seq<char>, b: Seq<char>)
    ensures
        written(written(before, a), b) == Some(b),
        written(written(before, b), a) == Some(a),
{
}

} // verus!
