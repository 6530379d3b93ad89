//! The typed configuration entity, the paths derived from the home
//! directory, and the fatal-error taxonomy of the bootstrap.

use vstd::prelude::*;

verus! {

/// The single persisted entity: where managed dotfiles live.
#[derive(Debug, Clone, PartialEq)]
pub struct Configuration {
    pub path: String,
}

/// The default managed-config location: `<home>/.config`.
pub open spec fn default_path_spec(home: Seq<char>) -> Seq<char> {
    home + "/.config"@
}

/// Where the configuration file itself lives: `<home>/.dotflow.toml`.
pub open spec fn config_file_spec(home: Seq<char>) -> Seq<char> {
    home + "/.dotflow.toml"@
}

/// Computes `<home>/.config`, the value used for `path` when the file
/// does not set one.
pub fn default_path(home: &str) -> (r: String)
    ensures
        r@ == default_path_spec(home@),
{
    let mut s = home.to_owned();
    s.append("/.config");
    s
}

/// Computes `<home>/.dotflow.toml`, the location of the configuration
/// file.
pub fn config_file_path(home: &str) -> (r: String)
    ensures
        r@ == config_file_spec(home@),
{
    let mut s = home.to_owned();
    s.append("/.dotflow.toml");
    s
}

/// Abstract form of a fatal bootstrap failure.
#[verifier::ext_equal]
pub enum AError {
    /// The home directory cannot be determined.
    NoHome,
    /// The configuration file cannot be read; holds the file's path.
    Unreadable(Seq<char>),
    /// The configuration file is not valid config text or lacks the
    /// required section; holds the file's path.
    Malformed(Seq<char>),
}

/// A fatal bootstrap failure.  The process entry point prints
/// [`BootstrapError::message`] to stderr and exits with
/// [`BootstrapError::exit_code`].
#[derive(Debug, Clone, PartialEq)]
pub enum BootstrapError {
    NoHome,
    Unreadable { file: String },
    Malformed { file: String },
}

impl View for BootstrapError {
    type V = AError;

    open spec fn view(&self) -> AError {
        match self {
            BootstrapError::NoHome => AError::NoHome,
            BootstrapError::Unreadable { file } => AError::Unreadable(file@),
            BootstrapError::Malformed { file } => AError::Malformed(file@),
        }
    }
}

/// The diagnostic text for each failure; the two file-level failures
/// name the configuration file's path.
pub open spec fn message_spec(e: AError) -> Seq<char> {
    match e {
        AError::NoHome => "Could not get home path"@,
        AError::Unreadable(file) => "Could not read file `"@ + file + "`"@,
        AError::Malformed(file) => "Unable to load data from `"@ + file + "`"@,
    }
}

/// Law: the diagnostics of the two file-level failures name the
/// configuration file: the file's path stands in the message right
/// after the opening backtick.
pub proof fn lemma_message_names_file(f: Seq<char>)
    ensures
        message_spec(AError::Unreadable(f)).subrange(21, 21 + f.len() as int) == f,
        message_spec(AError::Malformed(f)).subrange(26, 26 + f.len() as int) == f,
{
    reveal_strlit("Could not read file `");
    reveal_strlit("Unable to load data from `");
    reveal_strlit("`");
    assert(message_spec(AError::Unreadable(f)).subrange(21, 21 + f.len() as int) =~= f);
    assert(message_spec(AError::Malformed(f)).subrange(26, 26 + f.len() as int) =~= f);
}

impl BootstrapError {
    /// The diagnostic emitted on stderr for this failure.
    pub fn message(&self) -> (m: String)
        ensures
            m@ == message_spec(self@),
    {
        match self {
            BootstrapError::NoHome => "Could not get home path".to_owned(),
            BootstrapError::Unreadable { file } => {
                let mut s = "Could not read file `".to_owned();
                s.append(file.as_str());
                s.append("`");
                s
            },
            BootstrapError::Malformed { file } => {
                let mut s = "Unable to load data from `".to_owned();
                s.append(file.as_str());
                s.append("`");
                s
            },
        }
    }

    /// Every fatal bootstrap failure terminates the process with
    /// status 1.
    pub fn exit_code(&self) -> (c: i32)
        ensures
            c == 1,
    {
        1
    }
}

} // verus!
