//! How an item is started: the program, its arguments and its working
//! directory. Starting the process is left to the caller.
use vstd::prelude::*;
use vstd::string::*;
use crate::item::{clone_strings, opt_view, strings_view, Item, ItemView};

verus! {

/// A process to start, detached, without waiting for it.
pub struct Invocation {
    pub program: String,
    pub args: Vec<String>,
    pub working_dir: Option<String>,
}

/// The mathematical value of an [`Invocation`].
pub struct InvocationView {
    pub program: Seq<char>,
    pub args: Seq<Seq<char>>,
    pub working_dir: Option<Seq<char>>,
}

impl View for Invocation {
    type V = InvocationView;

    open spec fn view(&self) -> InvocationView {
        InvocationView {
            program: self.program@,
            args: strings_view(self.args@),
            working_dir: opt_view(self.working_dir),
        }
    }
}

/// The terminal emulator that runs interactive commands.
pub open spec fn terminal_program() -> Seq<char> {
    "x-terminal-emulator"@
}

/// The terminal emulator's option that names the command to run.
pub open spec fn terminal_flag() -> Seq<char> {
    "-e"@
}

/// What follows a command run in the terminal, so that an interactive shell
/// stays open once it exits.
pub open spec fn shell_tail() -> Seq<char> {
    "; $SHELL"@
}

/// `program` followed by each argument, separated by single spaces.
pub open spec fn command_line(program: Seq<char>, args: Seq<Seq<char>>) -> Seq<char>
    decreases args.len(),
{
    if args.len() == 0 {
        program
    } else {
        command_line(program, args.drop_last()) + seq![' '] + args.last()
    }
}

/// The terminal emulator running `command`, then an interactive shell.
pub open spec fn in_terminal(command: Seq<char>, working_dir: Option<Seq<char>>) -> InvocationView {
    InvocationView {
        program: terminal_program(),
        args: seq![terminal_flag(), command + shell_tail()],
        working_dir,
    }
}

/// How `it` is started: a desktop item that asks for a terminal runs its
/// command line in the terminal emulator, one that does not runs its program
/// directly, each in its working directory where it has one; a path item
/// always runs by name in the terminal emulator.
pub open spec fn invocation_of(it: ItemView) -> InvocationView {
    match it {
        ItemView::Desktop { terminal, program, args, working_dir, .. } => {
            if terminal {
                in_terminal(command_line(program, args), working_dir)
            } else {
                InvocationView { program, args, working_dir }
            }
        },
        ItemView::Path { name, .. } => in_terminal(name, None),
    }
}

/// `program` and `args` joined by single spaces.
pub fn join_command(program: &str, args: &Vec<String>) -> (r: String)
    ensures
        r@ == command_line(program@, strings_view(args@)),
{
    let ghost av = strings_view(args@);
    let mut r = program.to_owned();
    let mut i: usize = 0;
    assert(av.take(0) =~= Seq::<Seq<char>>::empty());
    while i < args.len()
        invariant
            av == strings_view(args@),
            i <= args@.len(),
            r@ == command_line(program@, av.take(i as int)),
        decreases args@.len() - i,
    {
        let ghost before = r@;
        r.append(" ");
        proof {
            reveal_strlit(" ");
        }
        assert(" "@ =~= seq![' ']);
        r.append(args[i].as_str());
        assert(r@ =~= before + seq![' '] + args@[i as int]@);
        assert(av.take(i as int + 1).drop_last() =~= av.take(i as int));
        assert(av.take(i as int + 1).last() == args@[i as int]@);
        i = i + 1;
    }
    assert(av.take(i as int) =~= av);
    r
}

/// The terminal emulator running `command`, then an interactive shell.
fn terminal_invocation(command: &str, working_dir: Option<String>) -> (r: Invocation)
    ensures
        r@ == in_terminal(command@, opt_view(working_dir)),
{
    let mut line = command.to_owned();
    line.append("; $SHELL");
    let mut args: Vec<String> = Vec::new();
    args.push("-e".to_owned());
    args.push(line);
    let r = Invocation { program: "x-terminal-emulator".to_owned(), args, working_dir };
    assert(r@.args =~= seq![terminal_flag(), command@ + shell_tail()]);
    r
}

impl Item {
    /// The process that launching this item starts.
    pub fn invocation(&self) -> (r: Invocation)
        ensures
            r@ == invocation_of(self@),
    {
        match self {
            Item::Desktop { terminal, program, args, working_dir, .. } => {
                let wd = match working_dir {
                    Some(w) => Some(w.clone()),
                    None => None,
                };
                if *terminal {
                    let line = join_command(program.as_str(), args);
                    terminal_invocation(line.as_str(), wd)
                } else {
                    Invocation { program: program.clone(), args: clone_strings(args), working_dir: wd }
                }
            },
            Item::Path { name, .. } => terminal_invocation(name.as_str(), None),
        }
    }
}

} // verus!
