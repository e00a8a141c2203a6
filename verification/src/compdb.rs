//! Compile DB and compile_commands.json related functionality.
use vstd::prelude::*;

use crate::env::{command_with_headers, header_flags, inserted_includes, trailed_flags, SystemHeaderPaths};
use crate::flags::{copy_strings, extend_strings, strs};
use crate::source::file_source_type;
use crate::outmap::{pairs_view, Duplicate, OutputMap};
use crate::hex::{hex_alphabet, hex_digit};
use crate::text::{push_str, to_chars};

verus! {

/// How one character is written inside a JSON string: quote, backslash and
/// the control characters are escaped (the short forms where JSON has one,
/// else `\u00XX`), every other character stands as it is.
pub open spec fn json_char(c: char) -> Seq<char> {
    if c == '"' {
        seq!['\\', '"']
    } else if c == '\\' {
        seq!['\\', '\\']
    } else if c == '\n' {
        seq!['\\', 'n']
    } else if c == '\r' {
        seq!['\\', 'r']
    } else if c == '\t' {
        seq!['\\', 't']
    } else if c == '\u{8}' {
        seq!['\\', 'b']
    } else if c == '\u{c}' {
        seq!['\\', 'f']
    } else if (c as u32) < 32 {
        seq!['\\', 'u', '0', '0', hex_alphabet()[(c as u32) as int / 16], hex_alphabet()[(c as u32) as int % 16]]
    } else {
        seq![c]
    }
}

/// `s` escaped for a JSON string, character by character.
pub open spec fn json_escaped(s: Seq<char>) -> Seq<char>
    decreases s.len(),
{
    if s.len() == 0 {
        seq![]
    } else {
        json_escaped(s.drop_last()) + json_char(s.last())
    }
}

/// A JSON-escaped string holds no control character, so it stays on one
/// line of a JSON string.
pub proof fn lemma_json_escaped_no_control(s: Seq<char>)
    ensures
        forall|i: int| 0 <= i < json_escaped(s).len() ==> (#[trigger] json_escaped(s)[i] as u32) >= 32,
    decreases s.len(),
{
    if s.len() > 0 {
        lemma_json_escaped_no_control(s.drop_last());
        let head = json_escaped(s.drop_last());
        let tail = json_char(s.last());
        assert(json_escaped(s) == head + tail);
        assert forall|i: int| 0 <= i < tail.len() implies (#[trigger] tail[i] as u32) >= 32 by {
            let c = s.last();
            if !(c == '"' || c == '\\' || c == '\n' || c == '\r' || c == '\t' || c == '\u{8}' || c == '\u{c}')
                && (c as u32) < 32 {
                let hi = (c as u32) as int / 16;
                let lo = (c as u32) as int % 16;
                assert(0 <= hi < 16 && 0 <= lo < 16);
                assert(hex_alphabet()[hi] as u32 >= 32);
                assert(hex_alphabet()[lo] as u32 >= 32);
            }
        }
        assert forall|i: int| 0 <= i < json_escaped(s).len() implies (#[trigger] json_escaped(s)[i] as u32) >= 32 by {
            if i < head.len() {
                assert(json_escaped(s)[i] == head[i]);
            } else {
                assert(json_escaped(s)[i] == tail[i - head.len()]);
            }
        }
    }
}

/// Append the JSON form of `c` to `out`.
fn push_json_char(out: &mut String, c: char)
    ensures
        final(out)@ == old(out)@ + json_char(c),
{
    let code: u32 = c as u32;
    if c == '"' {
        out.push('\\');
        out.push('"');
    } else if c == '\\' {
        out.push('\\');
        out.push('\\');
    } else if c == '\n' {
        out.push('\\');
        out.push('n');
    } else if c == '\r' {
        out.push('\\');
        out.push('r');
    } else if c == '\t' {
        out.push('\\');
        out.push('t');
    } else if c == '\u{8}' {
        out.push('\\');
        out.push('b');
    } else if c == '\u{c}' {
        out.push('\\');
        out.push('f');
    } else if code < 32 {
        out.push('\\');
        out.push('u');
        out.push('0');
        out.push('0');
        out.push(hex_digit((code / 16) as u64));
        out.push(hex_digit((code % 16) as u64));
    } else {
        out.push(c);
    }
    assert(final(out)@ =~= old(out)@ + json_char(c));
}

/// `s` escaped for a JSON string
pub fn escape_json(s: &str) -> (r: String)
    ensures
        r@ == json_escaped(s@),
{
    let v = to_chars(s);
    let mut out = String::new();
    let mut i: usize = 0;
    while i < v.len()
        invariant
            i <= v.len(),
            v@ == s@,
            out@ == json_escaped(v@.take(i as int)),
        decreases v.len() - i,
    {
        push_json_char(&mut out, v[i]);
        assert(v@.take(i + 1).drop_last() =~= v@.take(i as int));
        i += 1;
    }
    assert(v@.take(v.len() as int) =~= v@);
    out
}

/// One entry of the compile DB: the compiler command up to `-c -o OUTPUT FILE`
/// and the input file
#[derive(Debug)]
pub struct CompileDBEntry {
    /// Arguments up to the "-c -o OUTPUT FILE"
    pub args: Vec<String>,
    /// Input file
    pub file: String,
}

/// The content of a compile DB entry: arguments and input file.
pub type EntryView = (Seq<Seq<char>>, Seq<char>);

impl View for CompileDBEntry {
    type V = EntryView;

    open spec fn view(&self) -> EntryView {
        (strs(self.args), self.file@)
    }
}

/// The arguments of an entry joined as the command of compile_commands.json
/// writes them: each followed by a space.
pub open spec fn spaced_args(args: Seq<Seq<char>>) -> Seq<char>
    decreases args.len(),
{
    if args.len() == 0 {
        seq![]
    } else {
        spaced_args(args.drop_last()) + args.last() + " "@
    }
}

/// The command that compiles the file of an entry to `output`, with the system
/// header flags of the file injected (for clangd), as plain text.
pub open spec fn entry_command(e: EntryView, output: Seq<char>, headers: Seq<Seq<char>>) -> Seq<char> {
    spaced_args(e.0) + trailed_flags(headers) + "-c -o "@ + output + " "@ + e.1
}

/// The compile_commands.json object of an entry that produces `output`: every
/// field JSON-escaped.
pub open spec fn entry_json(e: EntryView, output: Seq<char>, headers: Seq<Seq<char>>) -> Seq<char> {
    "{\"directory\":\"/\",\n\"file\":\""@ + json_escaped(e.1) + "\",\n\"output\":\""@ + json_escaped(output)
        + "\",\n\"command\":\""@ + json_escaped(entry_command(e, output, headers)) + "\"}"@
}

/// The system header flags the file of an entry sees.
pub open spec fn entry_headers(sh: &SystemHeaderPaths, e: EntryView) -> Seq<Seq<char>> {
    header_flags(file_source_type(e.1), strs(sh.c), strs(sh.cxx))
}

impl CompileDBEntry {
    /// Create a new compdb entry
    pub fn new(compiler: &str, source_file: &str, dep_file: String, args: &Vec<String>) -> (r: Self)
        ensures
            r@ == (seq![compiler@, "-MMD"@, "-MP"@, "-MF"@, dep_file@] + strs(*args), source_file@),
    {
        let mut all: Vec<String> = Vec::new();
        all.push(compiler.to_owned());
        all.push("-MMD".to_owned());
        all.push("-MP".to_owned());
        all.push("-MF".to_owned());
        all.push(dep_file);
        let ghost head = strs(all);
        extend_strings(&mut all, args);
        assert(head =~= seq![compiler@, "-MMD"@, "-MP"@, "-MF"@, dep_file@]);
        CompileDBEntry { args: all, file: source_file.to_owned() }
    }

    /// The program and arguments of the command that compiles this file to `output`
    pub fn command_line(&self, output: &str) -> (r: (String, Vec<String>))
        requires
            self.args@.len() > 0,
        ensures
            r.0@ == self@.0[0],
            strs(r.1) == self@.0.skip(1) + seq!["-c"@, "-o"@, output@, self.file@],
    {
        let program = self.args[0].clone();
        let mut rest: Vec<String> = Vec::new();
        let mut i: usize = 1;
        while i < self.args.len()
            invariant
                1 <= i <= self.args.len(),
                rest@ == self.args@.subrange(1, i as int),
            decreases self.args.len() - i,
        {
            rest.push(self.args[i].clone());
            assert(rest@ =~= self.args@.subrange(1, i + 1));
            i += 1;
        }
        rest.push("-c".to_owned());
        rest.push("-o".to_owned());
        rest.push(output.to_owned());
        rest.push(self.file.clone());
        assert(self.args@.subrange(1, self.args@.len() as int) =~= self.args@.skip(1));
        assert(strs(rest) =~= self@.0.skip(1) + seq!["-c"@, "-o"@, output@, self.file@]);
        (program, rest)
    }

    /// The entry as a compile_commands.json entry (no trailing comma)
    pub fn write_as_compile_command(&self, sh: &SystemHeaderPaths, output: &str) -> (r: String)
        ensures
            r@ == entry_json(self@, output@, entry_headers(sh, self@)),
    {
        let mut command = String::new();
        let mut i: usize = 0;
        while i < self.args.len()
            invariant
                i <= self.args.len(),
                command@ == spaced_args(strs(self.args).take(i as int)),
            decreases self.args.len() - i,
        {
            push_str(&mut command, self.args[i].as_str());
            push_str(&mut command, " ");
            assert(strs(self.args).take(i + 1).drop_last() =~= strs(self.args).take(i as int));
            i += 1;
        }
        assert(strs(self.args).take(self.args.len() as int) =~= strs(self.args));
        let headers = sh.write(self.file.as_str(), false);
        push_str(&mut command, headers.as_str());
        push_str(&mut command, "-c -o ");
        push_str(&mut command, output);
        push_str(&mut command, " ");
        push_str(&mut command, self.file.as_str());
        assert(command@ =~= entry_command(self@, output@, entry_headers(sh, self@)));
        let mut out = "{\"directory\":\"/\",\n\"file\":\"".to_owned();
        push_str(&mut out, escape_json(self.file.as_str()).as_str());
        push_str(&mut out, "\",\n\"output\":\"");
        push_str(&mut out, escape_json(output).as_str());
        push_str(&mut out, "\",\n\"command\":\"");
        push_str(&mut out, escape_json(command.as_str()).as_str());
        push_str(&mut out, "\"}");
        assert(out@ =~= entry_json(self@, output@, entry_headers(sh, self@)));
        out
    }
}

impl Clone for CompileDBEntry {
    fn clone(&self) -> (r: Self)
        ensures
            r@ == self@,
    {
        CompileDBEntry { args: copy_strings(&self.args), file: self.file.clone() }
    }
}

/// The compile_commands.json text of entries in the given order: the first
/// entry's object, then the object of every entry, the first one included,
/// each after `,` and a newline (so the first entry stands twice).
pub open spec fn commands_json(sh: &SystemHeaderPaths, es: Seq<(Seq<char>, EntryView)>) -> Seq<char> {
    "["@ + (if es.len() > 0 {
        entry_json(es[0].1, es[0].0, entry_headers(sh, es[0].1)) + separated_json(sh, es)
    } else {
        seq![]
    }) + "]\n"@
}

/// Each entry's JSON text preceded by `,` and a newline.
pub open spec fn separated_json(sh: &SystemHeaderPaths, es: Seq<(Seq<char>, EntryView)>) -> Seq<char>
    decreases es.len(),
{
    if es.len() == 0 {
        seq![]
    } else {
        separated_json(sh, es.drop_last()) + ",\n"@ + entry_json(es.last().1, es.last().0, entry_headers(sh, es.last().1))
    }
}

/// Compile DB format used internally by build tool to track
/// if command changed and if objects needs to be rebuilt.
///
/// The arguments do not include system header include paths
/// (i.e. are what's actually passed to the compiler).
pub type CompileDB = OutputMap<CompileDBEntry>;

impl Duplicate for CompileDBEntry {
    fn duplicate(&self) -> (r: Self) {
        self.clone()
    }
}

impl OutputMap<CompileDBEntry> {
    /// Write the compile_commands.json file: the entries of the DB with the
    /// system header flags of each file injected, laid out as
    /// [`commands_json`] says (the first entry comes twice)
    pub fn write_as_compile_commands(&self, sh: &SystemHeaderPaths) -> (r: String)
        ensures
            r@ == commands_json(sh, self.ordered()),
    {
        let mut out = "[".to_owned();
        let ghost es = self.ordered();
        let entries = self.pairs();
        if entries.len() > 0 {
            let first = entries[0].1.write_as_compile_command(sh, entries[0].0.as_str());
            push_str(&mut out, first.as_str());
            let ghost head = out@;
            let mut i: usize = 0;
            assert(es.take(0) =~= seq![]);
            while i < entries.len()
                invariant
                    i <= entries@.len(),
                    es == pairs_view(entries@),
                    out@ == head + separated_json(sh, es.take(i as int)),
                decreases entries@.len() - i,
            {
                push_str(&mut out, ",\n");
                let e = entries[i].1.write_as_compile_command(sh, entries[i].0.as_str());
                push_str(&mut out, e.as_str());
                assert(es.take(i + 1).drop_last() =~= es.take(i as int));
                i += 1;
            }
            assert(es.take(entries@.len() as int) =~= es);
        }
        push_str(&mut out, "]\n");
        out
    }
}

/// One command in compile_commands.json
#[derive(Debug)]
pub struct CompileCommand {
    pub directory: String,
    pub arguments: Option<Vec<String>>,
    pub command: Option<String>,
    pub file: String,
    pub output: String,
}

/// The injected form of one command: the system header flags of its file added
/// to its command string and to its argument list, whichever it has.
pub open spec fn injected_command(sh: &SystemHeaderPaths, before: &CompileCommand, after: &CompileCommand) -> bool {
    let flags = header_flags(file_source_type(before.file@), strs(sh.c), strs(sh.cxx));
    &&& after.directory == before.directory
    &&& after.file == before.file
    &&& after.output == before.output
    &&& after.command is Some == before.command is Some
    &&& (before.command matches Some(c) ==> after.command->0@ == command_with_headers(c@, flags))
    &&& after.arguments is Some == before.arguments is Some
    &&& (before.arguments matches Some(a) ==> strs(after.arguments->0) == inserted_includes(strs(a), flags))
}

/// Inject system headers into commands read from compile_commands.json
///
/// This is for injecting system includes into ninja compdb output
pub fn inject_system_headers(sh: &SystemHeaderPaths, commands: &mut Vec<CompileCommand>)
    ensures
        final(commands)@.len() == old(commands)@.len(),
        forall|i: int| 0 <= i < old(commands)@.len() ==> injected_command(sh, #[trigger] &old(commands)@[i], &final(commands)@[i]),
{
    let ghost before = commands@;
    let mut done: Vec<CompileCommand> = Vec::new();
    let mut rest: Vec<CompileCommand> = Vec::new();
    std::mem::swap(&mut rest, commands);
    while rest.len() > 0
        invariant
            rest@ == before.skip(done@.len() as int),
            done@.len() + rest@.len() == before.len(),
            forall|i: int| 0 <= i < done@.len() ==> injected_command(sh, #[trigger] &before[i], &done@[i]),
        decreases rest@.len(),
    {
        let mut c = rest.remove(0);
        assert(c == before[done@.len() as int]);
        let file = c.file.clone();
        match c.command {
            Some(cmd) => {
                let mut cmd2 = cmd;
                sh.add_to_command_str(file.as_str(), &mut cmd2);
                c.command = Some(cmd2);
            },
            None => {},
        }
        match c.arguments {
            Some(args) => {
                let mut args2 = args;
                sh.add_to_command_vec(file.as_str(), &mut args2);
                c.arguments = Some(args2);
            },
            None => {},
        }
        done.push(c);
        assert(rest@ =~= before.skip(done@.len() as int));
    }
    *commands = done;
}

} // verus!
