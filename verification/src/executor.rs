//! Execution strategies: which descriptor slots carry the channel endpoint
//! across the spawn of the worker, and how the external launch command is
//! built for each privilege-escalation mode.

use vstd::prelude::*;

verus! {

/// The shape of an external process invocation: the program to run and its
/// argument list, as plain data.  Spawning the process is left to the
/// unverified caller.
pub struct CommandSpec {
    pub program: String,
    pub args: Vec<String>,
}

/// Mathematical shape of a [`CommandSpec`].
pub struct CommandShape {
    pub program: Seq<char>,
    pub args: Seq<Seq<char>>,
}

impl View for CommandSpec {
    type V = CommandShape;

    open spec fn view(&self) -> CommandShape {
        CommandShape { program: self.program@, args: self.args.deep_view() }
    }
}

/// View of an argument slice as a sequence of character sequences.
pub open spec fn args_view(args: Seq<&str>) -> Seq<Seq<char>> {
    args.map_values(|a: &str| a@)
}

/// A policy for launching the worker process: the descriptor slot the
/// not-yet-exec'd child inherits the listening endpoint at, the slot the
/// freshly exec'd worker recovers it from, and the shape of the external
/// launch command.
pub trait SocketExecutor: Sized {
    /// Slot at which the forked child must place the inherited endpoint.
    spec fn spec_child_fd(&self) -> i32;

    /// Slot from which the exec'd worker recovers the endpoint.
    spec fn spec_parent_fd(&self) -> i32;

    /// The command shape built from an executable and its arguments.
    spec fn spec_command(&self, executable: Seq<char>, args: Seq<Seq<char>>) -> CommandShape;

    fn child_fd(&self) -> (r: i32)
        ensures
            r == self.spec_child_fd(),
    ;

    fn parent_fd(&self) -> (r: i32)
        ensures
            r == self.spec_parent_fd(),
    ;

    fn command(&self, executable: &str, args: &[&str]) -> (r: CommandSpec)
        ensures
            r@ == self.spec_command(executable@, args_view(args@)),
    ;
}

/// Strategy that launches the worker through the `pkexec` elevation
/// front-end.  The front-end preserves only the standard descriptor range,
/// so the child inherits the endpoint at slot 2 and the worker later finds
/// it at slot 3 after initialization has moved it aside.
pub struct PkexecExecutor;

/// Strategy that launches the worker directly, without escalation.  The
/// endpoint travels at slot 3 on both sides.
pub struct DirectExecutor;

impl SocketExecutor for PkexecExecutor {
    open spec fn spec_child_fd(&self) -> i32 {
        2
    }

    open spec fn spec_parent_fd(&self) -> i32 {
        3
    }

    open spec fn spec_command(&self, executable: Seq<char>, args: Seq<Seq<char>>) -> CommandShape {
        CommandShape { program: "pkexec"@, args: seq![executable] + args }
    }

    fn child_fd(&self) -> (r: i32) {
        2
    }

    fn parent_fd(&self) -> (r: i32) {
        3
    }

    fn command(&self, executable: &str, args: &[&str]) -> (r: CommandSpec) {
        let mut collected: Vec<String> = Vec::new();
        collected.push(String::from_str(executable));
        push_all(&mut collected, args);
        proof {
            assert(collected.deep_view() =~= seq![executable@] + args_view(args@));
        }
        CommandSpec { program: String::from_str("pkexec"), args: collected }
    }
}

impl SocketExecutor for DirectExecutor {
    open spec fn spec_child_fd(&self) -> i32 {
        3
    }

    open spec fn spec_parent_fd(&self) -> i32 {
        3
    }

    open spec fn spec_command(&self, executable: Seq<char>, args: Seq<Seq<char>>) -> CommandShape {
        CommandShape { program: executable, args: args }
    }

    fn child_fd(&self) -> (r: i32) {
        3
    }

    fn parent_fd(&self) -> (r: i32) {
        3
    }

    fn command(&self, executable: &str, args: &[&str]) -> (r: CommandSpec) {
        let mut collected: Vec<String> = Vec::new();
        push_all(&mut collected, args);
        proof {
            assert(collected.deep_view() =~= args_view(args@));
        }
        CommandSpec { program: String::from_str(executable), args: collected }
    }
}

/// Appends owned copies of every argument to `collected`.
fn push_all(collected: &mut Vec<String>, args: &[&str])
    ensures
        final(collected).deep_view() == old(collected).deep_view() + args_view(args@),
{
    let ghost orig = collected.deep_view();
    let mut i: usize = 0;
    proof {
        assert(collected.deep_view() =~= orig + args_view(args@).subrange(0, 0));
    }
    while i < args.len()
        invariant
            i <= args@.len(),
            collected.deep_view() == orig + args_view(args@).subrange(0, i as int),
        decreases args@.len() - i,
    {
        let a: &str = args[i];
        let owned = String::from_str(a);
        proof {
            assert(a == args@[i as int]);
            assert(owned@ == args@[i as int]@);
            assert(collected.deep_view().len() == collected@.len());
            assert(args_view(args@).subrange(0, i as int).len() == i);
            assert(collected@.len() == orig.len() + i);
        }
        let ghost prev = collected@;
        let ghost prev_deep = collected.deep_view();
        collected.push(owned);
        proof {
            let av = args_view(args@);
            assert forall|j: int| 0 <= j < collected@.len() implies collected.deep_view()[j] == (
            orig + av.subrange(0, i as int + 1))[j] by {
                assert(collected@ == prev.push(owned));
                if j < prev.len() {
                    assert(collected@[j] == prev[j]);
                    assert(collected.deep_view()[j] == prev_deep[j]);
                    if j >= orig.len() {
                        assert(prev_deep[j] == av.subrange(0, i as int)[j - orig.len()]);
                        assert(av.subrange(0, i as int)[j - orig.len()] == av[j - orig.len()]);
                    }
                } else {
                    assert(collected@[j] == owned);
                    assert(av[i as int] == args@[i as int]@);
                }
            }
            assert(collected.deep_view() =~= orig + av.subrange(0, i as int + 1));
        }
        i = i + 1;
    }
    proof {
        assert(args_view(args@).subrange(0, args@.len() as int) =~= args_view(args@));
    }
}


impl Default for PkexecExecutor {
    fn default() -> (r: Self)
        ensures
            r == (PkexecExecutor {  }),
    {
        PkexecExecutor {  }
    }
}

impl Default for DirectExecutor {
    fn default() -> (r: Self)
        ensures
            r == (DirectExecutor {  }),
    {
        DirectExecutor {  }
    }
}

/// The command a strategy builds is a function of the strategy, the
/// executable and the arguments alone: two invocations on equal inputs
/// yield equal command shapes.
pub proof fn lemma_build_command_deterministic<T: SocketExecutor>(
    exec: &T,
    executable1: Seq<char>,
    args1: Seq<Seq<char>>,
    executable2: Seq<char>,
    args2: Seq<Seq<char>>,
)
    requires
        executable1 == executable2,
        args1 == args2,
    ensures
        exec.spec_command(executable1, args1) == exec.spec_command(executable2, args2),
{
}

} // verus!
