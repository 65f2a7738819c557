//! The arguments of a run.

use vstd::prelude::*;

verus! {

/// The runtime family that a project is generated for.
#[derive(Clone, Copy, Debug, PartialEq, Eq, Structural)]
pub enum Runtime {
    Nodejs,
    Csharp,
}

/// What a runtime name selects, if it names a runtime at all.
pub open spec fn runtime_of(name: Seq<char>) -> Option<Runtime> {
    if name == "nodejs"@ {
        Some(Runtime::Nodejs)
    } else if name == "csharp"@ {
        Some(Runtime::Csharp)
    } else {
        None
    }
}

/// Input arguments: the path of the Swagger document and the runtime name.
pub struct Params {
    pub input: String,
    pub runtime: String,
}

impl Params {
    /// Reads the arguments of the command line, the program's own name first.
    ///
    /// Fails when fewer than three arguments are given, and when the third
    /// names no runtime.
    pub fn new(args: &[String]) -> (r: Result<Params, &str>)
        ensures
            match r {
                Ok(p) => args@.len() >= 3 && runtime_of(args@[2]@) is Some && p.input@
                    == args@[1]@ && p.runtime@ == args@[2]@,
                Err(m) => if args@.len() < 3 {
                    m@ == "not enough arguments"@
                } else {
                    runtime_of(args@[2]@) is None && m@ == "runtime must be nodejs or csharp"@
                },
            },
    {
        if args.len() < 3 {
            return Err("not enough arguments");
        }
        let input = args[1].clone();
        let runtime = args[2].clone();
        if runtime_named(runtime.as_str()).is_none() {
            return Err("runtime must be nodejs or csharp");
        }
        Ok(Params { input, runtime })
    }

    /// The runtime that these arguments select.
    pub fn selector(&self) -> (r: Option<Runtime>)
        ensures
            r == runtime_of(self.runtime@),
    {
        runtime_named(self.runtime.as_str())
    }
}

/// Looks a runtime up by its name.
pub fn runtime_named(name: &str) -> (r: Option<Runtime>)
    ensures
        r == runtime_of(name@),
{
    let name = name.to_owned();
    if name == "nodejs".to_owned() {
        Some(Runtime::Nodejs)
    } else if name == "csharp".to_owned() {
        Some(Runtime::Csharp)
    } else {
        None
    }
}

} // verus!
