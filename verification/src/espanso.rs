//! The snippet emitter: for every registered command except the emitter's
//! own trigger, render one text-expansion binding that invokes this
//! engine's executable with that command name.

use vstd::prelude::*;
use vstd::string::StringExecFns;
use crate::command::all_commands;
use crate::command::spec_all_commands;
use crate::command::Command;

verus! {

/// One rendered binding block: the trigger line for `name`, the expansion
/// variable capturing the executable's output, and the argument lines
/// holding the executable path and the command name.
pub open spec fn spec_block(path: Seq<char>, name: Seq<char>) -> Seq<char> {
    "\n  - trigger: \";"@ + name
        + "\"\n    replace: \"{{output}}\"\n    vars:\n      - name: output\n        type: script\n        params:\n          args:\n            - "@
        + path + "\n            - "@ + name + "\n"@
}

/// The names of the emitted commands: every registered command except the
/// emitter's own, in registry declaration order.
pub open spec fn spec_emitted_names() -> Seq<Seq<char>> {
    spec_all_commands().skip(1).map_values(|c: Command| c.spec_name())
}

/// The first `i` rendered blocks, joined by single newlines.
pub open spec fn spec_config_prefix(path: Seq<char>, i: int) -> Seq<char>
    decreases i,
{
    if i <= 0 {
        Seq::<char>::empty()
    } else if i == 1 {
        spec_block(path, spec_emitted_names()[0])
    } else {
        spec_config_prefix(path, i - 1) + "\n"@ + spec_block(path, spec_emitted_names()[i - 1])
    }
}

/// The full rendered configuration: exactly one block per registered
/// command other than the emitter's own trigger, in registry declaration
/// order, each referencing that command's exact name.
pub open spec fn spec_config(path: Seq<char>) -> Seq<char> {
    spec_config_prefix(path, spec_emitted_names().len() as int)
}

fn append_block(out: &mut String, path: &str, name: &str)
    ensures
        final(out)@ == old(out)@ + spec_block(path@, name@),
{
    out.append("\n  - trigger: \";");
    out.append(name);
    out.append(
        "\"\n    replace: \"{{output}}\"\n    vars:\n      - name: output\n        type: script\n        params:\n          args:\n            - ",
    );
    out.append(path);
    out.append("\n            - ");
    out.append(name);
    out.append("\n");
    assert(out@ =~= old(out)@ + spec_block(path@, name@));
}

/// Render one binding block per registered command other than the
/// emitter's own trigger, in registry declaration order, each invoking the
/// executable at `exec_path` with that command's name as sole argument.
pub fn config_espanso(exec_path: &str) -> (r: String)
    ensures
        r@ == spec_config(exec_path@),
{
    let cmds = all_commands();
    let n = cmds.len();
    let mut out = String::new();
    let mut i: usize = 1;
    while i < n
        invariant
            cmds@ == spec_all_commands(),
            n == cmds@.len(),
            n == 11,
            1 <= i <= n,
            out@ == spec_config_prefix(exec_path@, i - 1),
        decreases n - i,
    {
        if i > 1 {
            out.append("\n");
        }
        proof {
            assert(spec_emitted_names()[i - 1] == cmds@[i as int].spec_name());
        }
        append_block(&mut out, exec_path, cmds[i].name());
        proof {
            if i == 1 {
                assert(out@ =~= spec_config_prefix(exec_path@, 1));
            } else {
                assert(out@ =~= spec_config_prefix(exec_path@, i - 1) + "\n"@ + spec_block(
                    exec_path@,
                    spec_emitted_names()[i - 1],
                ));
            }
        }
        i += 1;
    }
    proof {
        assert(spec_emitted_names().len() == 10);
    }
    out
}

} // verus!
