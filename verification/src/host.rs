//! What the library has to know of the machine it runs on. The facts are gathered
//! once, when the host starts, and handed to every function that needs them.

use vstd::prelude::*;
use crate::text::pairs;

verus! {

/// The machine as the library sees it.
#[derive(Clone, Debug, PartialEq, Eq)]
pub struct Host {
    /// The variables of the environment, each with its value.
    pub variables: Vec<(String, String)>,
    /// The home directory of the user, if there is one.
    pub home: Option<String>,
    /// The directory under which programs keep their configuration, if there is one.
    pub config_dir: Option<String>,
    /// Whether references to variables are filled in inside paths.
    pub expands_variables: bool,
    /// The character that separates the parts of a path.
    pub separator: char,
    /// The identifier of the running process.
    pub process_id: u32,
}

/// The view of a `Host`.
pub struct HostView {
    pub variables: Seq<(Seq<char>, Seq<char>)>,
    pub home: Option<Seq<char>>,
    pub config_dir: Option<Seq<char>>,
    pub expands_variables: bool,
    pub separator: char,
    pub process_id: u32,
}

/// A text that may be missing, by its view.
pub open spec fn optional(text: Option<String>) -> Option<Seq<char>> {
    match text {
        Some(text) => Some(text@),
        None => None,
    }
}

impl View for Host {
    type V = HostView;

    open spec fn view(&self) -> HostView {
        HostView {
            variables: pairs(self.variables@),
            home: optional(self.home),
            config_dir: optional(self.config_dir),
            expands_variables: self.expands_variables,
            separator: self.separator,
            process_id: self.process_id,
        }
    }
}

/// `dirs::home_dir`, as text. The answer depends on the environment and on the
/// user database: nothing is claimed of it.
#[verifier::external_body]
fn home_dir() -> Option<String> {
    match dirs::home_dir() {
        Some(path) => path.into_os_string().into_string().ok(),
        None => None,
    }
}

/// `dirs::config_dir`, as text. The answer depends on the environment and on the
/// platform: nothing is claimed of it.
#[verifier::external_body]
fn config_dir() -> Option<String> {
    match dirs::config_dir() {
        Some(path) => path.into_os_string().into_string().ok(),
        None => None,
    }
}

impl Host {
    /// Completes what the caller knows of the machine with the two directories that
    /// are looked up here.
    pub fn detect(
        variables: Vec<(String, String)>,
        expands_variables: bool,
        separator: char,
        process_id: u32,
    ) -> (host: Host)
        ensures
            host.variables == variables,
            host.expands_variables == expands_variables,
            host.separator == separator,
            host.process_id == process_id,
    {
        Host {
            variables,
            home: home_dir(),
            config_dir: config_dir(),
            expands_variables,
            separator,
            process_id,
        }
    }
}

} // verus!
