//! The work that a proving session hands to its driver, one action at a
//! time, and the two scripts of actions: folding and per-step proving.

use vstd::prelude::*;
use vstd::string::*;
use crate::error::{ErrorKind, ErrorView, ProverError};

verus! {

/// The backend that a compiled program was built for, by its curve.
#[derive(Clone, Copy, Debug, PartialEq, Eq, Structural)]
pub enum Curve {
    /// The folding backend.
    Pallas,
    /// The per-step proof backend.
    Bn128,
}

/// One piece of work for the driver of a session. The driver performs it and
/// reports how it ended before it asks for the next.
#[derive(Clone, Debug, PartialEq, Eq)]
pub enum Action {
    /// Open the compiled program at `path`.
    OpenProgram { path: String },
    /// Decode the opened program, which came from `path`; it must be one for
    /// `curve`.
    DecodeProgram { path: String, curve: Curve },
    /// Open the parameter signature at `path`.
    OpenAbi { path: String },
    /// Decode the opened parameter signature, which came from `path`.
    DecodeAbi { path: String },
    /// Open the proving key at `path`.
    OpenProvingKey { path: String },
    /// Read the opened proving key, which came from `path`, to its end.
    ReadProvingKey { path: String },
    /// Generate the public parameters of the folding backend for the program.
    Setup,
    /// Fold the steps, in the order of `steps`, starting from the state
    /// `init`. Each value is JSON text. The output is the aggregate proof.
    Fold { init: String, steps: Vec<String> },
    /// Hold the JSON text `arguments` strictly against the program's
    /// parameters and flatten it into the program's inputs, for step `step`.
    ParseArguments { step: usize, arguments: String },
    /// Run the program on the inputs of step `step` to get its witness.
    Execute { step: usize },
    /// Generate the proof of step `step` from its witness, the proving key
    /// and randomness that no other proof has used. The output is the proof
    /// with its public inputs as one tagged text document.
    Prove { step: usize },
}

/// What an `Action` holds.
pub enum ActionView {
    OpenProgram { path: Seq<char> },
    DecodeProgram { path: Seq<char>, curve: Curve },
    OpenAbi { path: Seq<char> },
    DecodeAbi { path: Seq<char> },
    OpenProvingKey { path: Seq<char> },
    ReadProvingKey { path: Seq<char> },
    Setup,
    Fold { init: Seq<char>, steps: Seq<Seq<char>> },
    ParseArguments { step: usize, arguments: Seq<char> },
    Execute { step: usize },
    Prove { step: usize },
}

/// The text of each string of a list.
pub open spec fn texts(strings: Seq<String>) -> Seq<Seq<char>> {
    strings.map_values(|s: String| s@)
}

impl View for Action {
    type V = ActionView;

    open spec fn view(&self) -> ActionView {
        match *self {
            Action::OpenProgram { path } => ActionView::OpenProgram { path: path@ },
            Action::DecodeProgram { path, curve } => ActionView::DecodeProgram {
                path: path@,
                curve,
            },
            Action::OpenAbi { path } => ActionView::OpenAbi { path: path@ },
            Action::DecodeAbi { path } => ActionView::DecodeAbi { path: path@ },
            Action::OpenProvingKey { path } => ActionView::OpenProvingKey { path: path@ },
            Action::ReadProvingKey { path } => ActionView::ReadProvingKey { path: path@ },
            Action::Setup => ActionView::Setup,
            Action::Fold { init, steps } => ActionView::Fold { init: init@, steps: texts(steps@) },
            Action::ParseArguments { step, arguments } => ActionView::ParseArguments {
                step,
                arguments: arguments@,
            },
            Action::Execute { step } => ActionView::Execute { step },
            Action::Prove { step } => ActionView::Prove { step },
        }
    }
}

/// What each action of a list holds.
pub open spec fn actions_view(actions: Seq<Action>) -> Seq<ActionView> {
    actions.map_values(|a: Action| a@)
}

impl ActionView {
    /// Whether the output of the action is a proof document of the session.
    pub open spec fn yields_document(self) -> bool {
        self is Fold || self is Prove
    }

    /// The path of the artifact that the action works on, if it works on
    /// one.
    pub open spec fn artifact(self) -> Option<Seq<char>> {
        match self {
            ActionView::OpenProgram { path } => Some(path),
            ActionView::DecodeProgram { path, .. } => Some(path),
            ActionView::OpenAbi { path } => Some(path),
            ActionView::DecodeAbi { path } => Some(path),
            ActionView::OpenProvingKey { path } => Some(path),
            ActionView::ReadProvingKey { path } => Some(path),
            _ => None,
        }
    }

    /// The step that the action belongs to, if it belongs to one.
    pub open spec fn step(self) -> Option<usize> {
        match self {
            ActionView::ParseArguments { step, .. } => Some(step),
            ActionView::Execute { step } => Some(step),
            ActionView::Prove { step } => Some(step),
            _ => None,
        }
    }

    /// The kind of error that the action's failure is.
    pub open spec fn failure_kind(self) -> ErrorKind {
        match self {
            ActionView::OpenProgram { .. } => ErrorKind::Io,
            ActionView::DecodeProgram { .. } => ErrorKind::Format,
            ActionView::OpenAbi { .. } => ErrorKind::Io,
            ActionView::DecodeAbi { .. } => ErrorKind::Format,
            ActionView::OpenProvingKey { .. } => ErrorKind::Io,
            ActionView::ReadProvingKey { .. } => ErrorKind::Io,
            ActionView::Setup => ErrorKind::Setup,
            ActionView::Fold { .. } => ErrorKind::Proof,
            ActionView::ParseArguments { .. } => ErrorKind::AbiMismatch,
            ActionView::Execute { .. } => ErrorKind::ExecutionFailure,
            ActionView::Prove { .. } => ErrorKind::Proof,
        }
    }

    /// The message for the action's failure, where the driver gave `why` as
    /// the reason. The failure of an action on an artifact names the
    /// artifact's path.
    pub open spec fn failure_message(self, why: Seq<char>) -> Seq<char> {
        match self {
            ActionView::OpenProgram { path } => "Could not open "@ + path + ": "@ + why,
            ActionView::DecodeProgram { path, .. } => "Could not decode "@ + path + ": "@ + why,
            ActionView::OpenAbi { path } => "Could not open "@ + path + ": "@ + why,
            ActionView::DecodeAbi { path } => "Could not decode "@ + path + ": "@ + why,
            ActionView::OpenProvingKey { path } => "Could not open "@ + path + ": "@ + why,
            ActionView::ReadProvingKey { path } => "Could not read "@ + path + ": "@ + why,
            ActionView::Fold { .. } => "Error `"@ + why + "` during proving"@,
            ActionView::ParseArguments { .. } => "Could not parse argument: "@ + why,
            ActionView::Execute { .. } => "Execution failed: "@ + why,
            ActionView::Setup => why,
            ActionView::Prove { .. } => why,
        }
    }

    /// The error that the action's failure is.
    pub open spec fn failure(self, why: Seq<char>) -> ErrorView {
        ErrorView {
            kind: self.failure_kind(),
            artifact: self.artifact(),
            step: self.step(),
            message: self.failure_message(why),
        }
    }
}

/// `"Could not "`, `verb`, a space, `path`, `": "` and `why`.
fn could_not(verb: &str, path: &str, why: &str) -> (s: String)
    ensures
        s@ == "Could not "@ + verb@ + " "@ + path@ + ": "@ + why@,
{
    let mut s = String::from_str("Could not ");
    s.append(verb);
    s.append(" ");
    s.append(path);
    s.append(": ");
    s.append(why);
    s
}

/// `head` followed by `tail`.
fn concat(head: &str, tail: &str) -> (s: String)
    ensures
        s@ == head@ + tail@,
{
    let mut s = String::from_str(head);
    s.append(tail);
    s
}

impl Action {
    /// Whether the output of the action is a proof document of the session.
    pub fn yields_document(&self) -> (b: bool)
        ensures
            b == self@.yields_document(),
    {
        match self {
            Action::Fold { .. } => true,
            Action::Prove { .. } => true,
            _ => false,
        }
    }

    /// The path of the artifact that the action works on, if it works on
    /// one.
    pub fn artifact(&self) -> (a: Option<String>)
        ensures
            match a {
                Some(path) => self@.artifact() == Some(path@),
                None => self@.artifact() is None,
            },
    {
        match self {
            Action::OpenProgram { path } => Some(path.clone()),
            Action::DecodeProgram { path, .. } => Some(path.clone()),
            Action::OpenAbi { path } => Some(path.clone()),
            Action::DecodeAbi { path } => Some(path.clone()),
            Action::OpenProvingKey { path } => Some(path.clone()),
            Action::ReadProvingKey { path } => Some(path.clone()),
            _ => None,
        }
    }

    /// The step that the action belongs to, if it belongs to one.
    pub fn step(&self) -> (s: Option<usize>)
        ensures
            s == self@.step(),
    {
        match self {
            Action::ParseArguments { step, .. } => Some(*step),
            Action::Execute { step } => Some(*step),
            Action::Prove { step } => Some(*step),
            _ => None,
        }
    }

    /// The kind of error that the action's failure is.
    pub fn failure_kind(&self) -> (k: ErrorKind)
        ensures
            k == self@.failure_kind(),
    {
        match self {
            Action::OpenProgram { .. } => ErrorKind::Io,
            Action::DecodeProgram { .. } => ErrorKind::Format,
            Action::OpenAbi { .. } => ErrorKind::Io,
            Action::DecodeAbi { .. } => ErrorKind::Format,
            Action::OpenProvingKey { .. } => ErrorKind::Io,
            Action::ReadProvingKey { .. } => ErrorKind::Io,
            Action::Setup => ErrorKind::Setup,
            Action::Fold { .. } => ErrorKind::Proof,
            Action::ParseArguments { .. } => ErrorKind::AbiMismatch,
            Action::Execute { .. } => ErrorKind::ExecutionFailure,
            Action::Prove { .. } => ErrorKind::Proof,
        }
    }

    /// The error that the action's failure is, where the driver gave `why`
    /// as the reason.
    pub fn failure(&self, why: &str) -> (e: ProverError)
        ensures
            e@ == self@.failure(why@),
    {
        proof {
            reveal_strlit("Could not ");
            reveal_strlit("Could not open ");
            reveal_strlit("Could not read ");
            reveal_strlit("Could not decode ");
            reveal_strlit("open");
            reveal_strlit("read");
            reveal_strlit("decode");
            reveal_strlit(" ");
        }
        let message = match self {
            Action::OpenProgram { path } => could_not("open", path.as_str(), why),
            Action::DecodeProgram { path, .. } => could_not("decode", path.as_str(), why),
            Action::OpenAbi { path } => could_not("open", path.as_str(), why),
            Action::DecodeAbi { path } => could_not("decode", path.as_str(), why),
            Action::OpenProvingKey { path } => could_not("open", path.as_str(), why),
            Action::ReadProvingKey { path } => could_not("read", path.as_str(), why),
            Action::Fold { .. } => {
                let mut s = concat("Error `", why);
                s.append("` during proving");
                s
            },
            Action::ParseArguments { .. } => concat("Could not parse argument: ", why),
            Action::Execute { .. } => concat("Execution failed: ", why),
            Action::Setup => String::from_str(why),
            Action::Prove { .. } => String::from_str(why),
        };
        assert(message@ =~= self@.failure_message(why@));
        ProverError {
            kind: self.failure_kind(),
            artifact: self.artifact(),
            step: self.step(),
            message,
        }
    }
}

} // verus!
