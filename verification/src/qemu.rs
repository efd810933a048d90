//! The QEMU command line, as the build tasks print it: the arguments they are asked with,
//! and the `program=`, `arg=` and `env=` lines they answer with.
use vstd::prelude::*;
use crate::text::{
    chars_of, decimal, lines, lines_of, push_decimal, push_str, split_once, split_once_in,
    string_of, strip_prefix, strip_prefix_in, trim, trimmed,
};

verus! {

/// The arguments the build tasks are asked for the QEMU command with: the display the
/// device advertises, which is also the guest's boot mode, and a GL display unless asked not
/// to.
pub open spec fn spec_qemu_args(width: u32, height: u32, gl: bool) -> Seq<Seq<char>> {
    seq![
        "vm"@,
        "--bridge"@,
        "--print-args"@,
        "--width="@ + decimal(width as nat),
        "--height="@ + decimal(height as nat),
    ] + if gl {
        seq!["--gl"@]
    } else {
        seq![]
    }
}

fn literal(s: &str) -> (r: String)
    ensures
        r@ == s@,
{
    String::from_str(s)
}

pub fn qemu_args(width: u32, height: u32, gl: bool) -> (r: Vec<String>)
    ensures
        r@.map_values(|s: String| s@) == spec_qemu_args(width, height, gl),
{
    let mut args: Vec<String> = Vec::new();
    args.push(literal("vm"));
    args.push(literal("--bridge"));
    args.push(literal("--print-args"));
    let mut w = literal("--width=");
    push_decimal(&mut w, width as u64);
    args.push(w);
    let mut h = literal("--height=");
    push_decimal(&mut h, height as u64);
    args.push(h);
    if gl {
        args.push(literal("--gl"));
    }
    assert(args@.map_values(|s: String| s@) =~= spec_qemu_args(width, height, gl));
    args
}

/// The command as far as it has been read: the program, the arguments and the environment.
pub type CommandModel = (Option<Seq<char>>, Seq<Seq<char>>, Seq<(Seq<char>, Seq<char>)>);

pub open spec fn program_prefix() -> Seq<char> {
    seq!['p', 'r', 'o', 'g', 'r', 'a', 'm', '=']
}

pub open spec fn arg_prefix() -> Seq<char> {
    seq!['a', 'r', 'g', '=']
}

pub open spec fn env_prefix() -> Seq<char> {
    seq!['e', 'n', 'v', '=']
}

/// What one line of the answer adds: `program=` names the program (trimmed, and the last
/// one wins), `arg=` adds an argument as it stands, `env=key=value` adds a variable; anything
/// else is not part of the command.
pub open spec fn scan_line(acc: CommandModel, line: Seq<char>) -> CommandModel {
    match strip_prefix(line, program_prefix()) {
        Some(value) => (Some(trim(value)), acc.1, acc.2),
        None => match strip_prefix(line, arg_prefix()) {
            Some(value) => (acc.0, acc.1.push(value), acc.2),
            None => match strip_prefix(line, env_prefix()) {
                Some(rest) => match split_once(rest, seq!['=']) {
                    Some(pair) => (acc.0, acc.1, acc.2.push(pair)),
                    None => acc,
                },
                None => acc,
            },
        },
    }
}

pub open spec fn scan_lines(acc: CommandModel, ls: Seq<Seq<char>>) -> CommandModel
    decreases ls.len(),
{
    if ls.len() == 0 {
        acc
    } else {
        scan_lines(scan_line(acc, ls[0]), ls.drop_first())
    }
}

/// The QEMU command the build tasks printed.
pub struct QemuCommand {
    pub program: Option<String>,
    pub argv: Vec<String>,
    pub env: Vec<(String, String)>,
}

impl QemuCommand {
    pub open spec fn model(&self) -> CommandModel {
        (
            match self.program {
                Some(p) => Some(p@),
                None => None,
            },
            self.argv@.map_values(|s: String| s@),
            self.env@.map_values(|p: (String, String)| (p.0@, p.1@)),
        )
    }
}

/// Reads the command out of what the build tasks printed, line by line.
pub fn parse_qemu_output(text: &str) -> (r: QemuCommand)
    ensures
        r.model() == scan_lines((None, seq![], seq![]), lines(text@)),
{
    let chars = chars_of(text);
    let ls = lines_of(chars.as_slice());
    let ghost all = lines(text@);
    let program_p = ['p', 'r', 'o', 'g', 'r', 'a', 'm', '='];
    let arg_p = ['a', 'r', 'g', '='];
    let env_p = ['e', 'n', 'v', '='];
    let equals = ['='];
    assert(program_p@ == program_prefix());
    assert(arg_p@ == arg_prefix());
    assert(env_p@ == env_prefix());
    assert(equals@ == seq!['=']);
    let mut command = QemuCommand { program: None, argv: Vec::new(), env: Vec::new() };
    assert(command.model().1 =~= Seq::<Seq<char>>::empty());
    assert(command.model().2 =~= Seq::<(Seq<char>, Seq<char>)>::empty());
    let ghost start = command.model();
    let mut i: usize = 0;
    assert(all.skip(0) == all);
    while i < ls.len()
        invariant
            i <= ls@.len(),
            ls@.len() == all.len(),
            forall|k: int| 0 <= k < ls@.len() ==> (#[trigger] ls@[k])@ == all[k],
            scan_lines(start, all) == scan_lines(command.model(), all.skip(i as int)),
            program_p@ == program_prefix(),
            arg_p@ == arg_prefix(),
            env_p@ == env_prefix(),
            equals@ == seq!['='],
        decreases ls@.len() - i,
    {
        let line = &ls[i];
        let ghost before = command.model();
        assert(all.skip(i as int)[0] == line@);
        assert(all.skip(i as int).drop_first() == all.skip(i + 1));
        match strip_prefix_in(line.as_slice(), &program_p) {
            Some(value) => {
                let v = trimmed(value.as_slice());
                command.program = Some(string_of(v.as_slice()));
            },
            None => match strip_prefix_in(line.as_slice(), &arg_p) {
                Some(value) => {
                    command.argv.push(string_of(value.as_slice()));
                    assert(command.model().1 =~= before.1.push(value@));
                },
                None => match strip_prefix_in(line.as_slice(), &env_p) {
                    Some(rest) => match split_once_in(rest.as_slice(), &equals) {
                        Some((key, value)) => {
                            command.env.push((string_of(key.as_slice()), string_of(value.as_slice())));
                            assert(command.model().2 =~= before.2.push((key@, value@)));
                        },
                        None => {},
                    },
                    None => {},
                },
            },
        }
        assert(command.model() == scan_line(before, line@));
        i = i + 1;
    }
    assert(all.skip(i as int).len() == 0);
    command
}

/// Why the command could not be read: what the build tasks wrote to stderr, trimmed, or to
/// stdout when stderr was empty.
pub open spec fn spec_failure_detail(stderr: Seq<char>, stdout: Seq<char>) -> Seq<char> {
    if trim(stderr).len() == 0 {
        trim(stdout)
    } else {
        trim(stderr)
    }
}

pub fn failure_detail(stderr: &str, stdout: &str) -> (r: String)
    ensures
        r@ == spec_failure_detail(stderr@, stdout@),
{
    let err = trimmed(chars_of(stderr).as_slice());
    if err.len() == 0 {
        string_of(trimmed(chars_of(stdout).as_slice()).as_slice())
    } else {
        string_of(err.as_slice())
    }
}

} // verus!
