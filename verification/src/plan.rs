//! The writes of a run, in their order.
//!
//! The library performs no write. It lists them, and whoever owns the output
//! directory carries them out one after the other. All paths are relative to
//! that directory.

use vstd::prelude::*;
use vstd::string::*;

verus! {

/// One write to the output directory.
#[derive(Debug, PartialEq, Eq)]
pub enum Action {
    /// Create the file, or empty it if it is there.
    Create { path: String },
    /// Put the text at the end of the file.
    Append { path: String, text: String },
}

/// What an [`Action`] stands for.
pub enum Step {
    Create { path: Seq<char> },
    Append { path: Seq<char>, text: Seq<char> },
}

impl View for Action {
    type V = Step;

    open spec fn view(&self) -> Step {
        match self {
            Action::Create { path } => Step::Create { path: path@ },
            Action::Append { path, text } => Step::Append { path: path@, text: text@ },
        }
    }
}

/// The steps that a list of actions stands for.
pub open spec fn steps_of(actions: Seq<Action>) -> Seq<Step> {
    actions.map_values(|a: Action| a@)
}

/// What is written for a fragment: the fragment, its line break, and an
/// empty line that parts it from the next.
pub open spec fn framed(content: Seq<char>) -> Seq<char> {
    content + "\n\n"@
}

/// The writes gathered so far.
pub struct Plan {
    pub actions: Vec<Action>,
}

impl View for Plan {
    type V = Seq<Step>;

    open spec fn view(&self) -> Seq<Step> {
        steps_of(self.actions@)
    }
}

impl Plan {
    /// A plan without writes.
    pub fn new() -> (plan: Plan)
        ensures
            plan@ == Seq::<Step>::empty(),
    {
        let plan = Plan { actions: Vec::new() };
        assert(plan@ =~= Seq::<Step>::empty());
        plan
    }

    /// Plans the creation of an empty file.
    pub fn create_file(&mut self, path: &str)
        ensures
            final(self)@ == old(self)@.push(Step::Create { path: path@ }),
    {
        self.actions.push(Action::Create { path: path.to_owned() });
        assert(self@ =~= old(self)@.push(Step::Create { path: path@ }));
    }

    /// Plans the writing of a fragment at the end of a file.
    pub fn write_output(&mut self, path: &str, content: &str)
        ensures
            final(self)@ == old(self)@.push(
                Step::Append { path: path@, text: framed(content@) },
            ),
    {
        let mut text = content.to_owned();
        text.append("\n\n");
        self.actions.push(Action::Append { path: path.to_owned(), text });
        assert(self@ =~= old(self)@.push(Step::Append { path: path@, text: framed(content@) }));
    }
}

} // verus!
