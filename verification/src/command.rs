//! The command descriptor a caller builds before a child is spawned: the
//! program, its arguments, the optional environment overrides and the
//! optional input payload, consumed by exactly one invocation.

use vstd::prelude::*;

verus! {

/// A fully specified invocation of an external program.
pub struct CommandSpec {
    /// The absolute path of the program to run.
    pub program: String,
    /// The arguments handed to it, without the program itself.
    pub args: Vec<String>,
    /// Environment overrides applied after the locale variables are
    /// stripped; nothing means the sanitized ambient environment alone.
    pub env: Option<Vec<(String, String)>>,
    /// Text fed to the child's standard input; nothing means a closed input.
    pub stdin: Option<String>,
}

/// The strings of `v`, cloned in order.
pub fn clone_strings(v: &Vec<String>) -> (r: Vec<String>)
    ensures
        r@ == v@,
{
    let mut out: Vec<String> = Vec::new();
    let mut i: usize = 0;
    while i < v.len()
        invariant
            i <= v.len(),
            out@ =~= v@.take(i as int),
        decreases v.len() - i,
    {
        out.push(v[i].clone());
        proof {
            assert(out@ =~= v@.take(i as int + 1));
        }
        i = i + 1;
    }
    proof {
        assert(v@.take(v@.len() as int) =~= v@);
    }
    out
}

/// The descriptor for an argument vector whose first element is the program,
/// with the given environment overrides and no input payload.
pub fn build_cmd(args: Vec<String>, env: Option<Vec<(String, String)>>) -> (c: CommandSpec)
    requires
        args@.len() >= 1,
    ensures
        c.program == args@[0],
        c.args@ == args@.skip(1),
        c.env == env,
        c.stdin is None,
{
    let ghost orig = args@;
    let mut rest = args;
    let program = rest.remove(0);
    proof {
        assert(orig.remove(0) =~= orig.skip(1));
    }
    CommandSpec { program, args: rest, env, stdin: None }
}

impl CommandSpec {
    /// The full argument vector of the invocation, program first, as it is
    /// quoted in diagnostics.
    pub fn full_args(&self) -> (r: Vec<String>)
        ensures
            r@ == seq![self.program] + self.args@,
    {
        let mut out: Vec<String> = Vec::new();
        out.push(self.program.clone());
        let mut tail = clone_strings(&self.args);
        out.append(&mut tail);
        proof {
            assert(out@ =~= seq![self.program] + self.args@);
        }
        out
    }
}

} // verus!
