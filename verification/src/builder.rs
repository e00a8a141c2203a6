//! Decisions of the build command: compiler and linker flags of a project,
//! the compile command of each source file, and whether sources, the ELF and
//! the NSO are up to date.
use vstd::prelude::*;

use crate::config::{entry_point_of, Build, BuildConfigError, Module};
use crate::env::ProjectEnv;
use crate::flags::{
    extend_strings, prefixed, resolved_as, resolved_c, resolved_cxx, resolved_ld, strs, Flags,
};
use crate::hex::{decimal, hex16, to_decimal, to_hex16};
use crate::outmap::{Duplicate, OutputMap};
use crate::path::{join_path, joined_path};
use crate::source::{SourceFile, SourceType};
use crate::text::{push_str, str_eq};

verus! {

/// A file modification time: seconds and nanoseconds since the Unix epoch
#[derive(Debug, Clone, Copy, PartialEq, Eq, Structural)]
pub struct MTime {
    pub seconds: i64,
    pub nanos: u32,
}

/// `a` is strictly earlier than `b`.
pub open spec fn mtime_lt(a: MTime, b: MTime) -> bool {
    a.seconds < b.seconds || (a.seconds == b.seconds && a.nanos < b.nanos)
}

/// The build edge in -> out is up-to-date: both files exist and the input is
/// strictly older than the output.
pub open spec fn is_up_to_date(in_mtime: Option<MTime>, out_mtime: Option<MTime>) -> bool {
    match (in_mtime, out_mtime) {
        (Some(i), Some(o)) => mtime_lt(i, o),
        _ => false,
    }
}

/// Return true if the build edge in -> out is up-to-date
pub fn up_to_date(in_mtime: Option<MTime>, out_mtime: Option<MTime>) -> (r: bool)
    ensures
        r == is_up_to_date(in_mtime, out_mtime),
{
    match (in_mtime, out_mtime) {
        (Some(i), Some(o)) => i.seconds < o.seconds || (i.seconds == o.seconds && i.nanos < o.nanos),
        _ => false,
    }
}

/// The defines libmegaton's runtime is compiled with for a module.
pub open spec fn module_defines(name: Seq<char>, name_len: nat, title_id: u64) -> Seq<Seq<char>> {
    seq![
        "MEGART_NX_MODULE_NAME=\""@ + name + "\""@,
        "MEGART_NX_MODULE_NAME_LEN="@ + decimal(name_len),
        "MEGART_TITLE_ID="@ + decimal(title_id as nat),
        "MEGART_TITLE_ID_HEX=\""@ + hex16(title_id) + "\""@,
    ]
}

/// `<home>/lib`
pub open spec fn lib_dir(home: Seq<char>) -> Seq<char> {
    joined_path(home, "lib"@)
}

/// `<home>/lib/build/bin/libmegaton.a`
pub open spec fn libmegaton_archive(home: Seq<char>) -> Seq<char> {
    joined_path(joined_path(joined_path(lib_dir(home), "build"@), "bin"@), "libmegaton.a"@)
}

/// Each of `parts` joined to `base`.
pub open spec fn joined_each(base: Seq<char>, parts: Seq<Seq<char>>) -> Seq<Seq<char>> {
    parts.map_values(|p: Seq<char>| joined_path(base, p))
}

/// Each of `parts` joined to `base`
pub fn join_each(base: &str, parts: &Vec<String>) -> (r: Vec<String>)
    ensures
        strs(r) == joined_each(base@, strs(*parts)),
{
    let mut r: Vec<String> = Vec::new();
    let mut i: usize = 0;
    while i < parts.len()
        invariant
            i <= parts.len(),
            r@.len() == i,
            forall|j: int| 0 <= j < i ==> #[trigger] r@[j]@ == joined_path(base@, parts@[j]@),
        decreases parts.len() - i,
    {
        r.push(join_path(base, parts[i].as_str()));
        i += 1;
    }
    assert(strs(r) =~= joined_each(base@, strs(*parts)));
    r
}

/// Prepares the build of a project: flags, source directories, and objects to link
pub struct Builder<'a> {
    /// The project environment
    pub env: &'a ProjectEnv,
    /// The flags passed to the compilers and the linker
    pub flags: Flags,
    /// Directories whose source files are compiled
    pub source_dirs: Vec<String>,
    /// Archives linked after the objects
    pub lib_objects: Vec<String>,
}

impl<'a> Builder<'a> {
    /// Prepare the build of `module` with the `build` profile, given the
    /// canonical paths of the configured include directories; `colored` selects
    /// the diagnostics color flag
    pub fn new(env: &'a ProjectEnv, module: &Module, build: &Build, colored: bool, includes: &Vec<String>) -> (r: Result<Self, BuildConfigError>)
        ensures
            (build.libmegaton && build.entry is Some) || (!build.libmegaton && build.entry is None) ==> r is Err,
            match r {
                Err(e) => (build.libmegaton && build.entry is Some && e == BuildConfigError::EntryWithLibmegaton)
                    || (!build.libmegaton && build.entry is None && e == BuildConfigError::MissingEntry),
                Ok(b) => {
                    let home = env.env.env.megaton_home@;
                    let lib_defs = if build.libmegaton {
                        seq!["-I"@ + joined_path(lib_dir(home), "include"@)] + prefixed(
                            "-D"@,
                            module_defines(module.name@, (vstd::utf8::encode_utf8(module.name@).len() as usize) as nat, module.title_id),
                        )
                    } else {
                        seq![]
                    };
                    let tail = lib_defs + seq!["-I"@ + env.env.libnx_include@] + prefixed("-I"@, strs(*includes));
                    &&& b.env == env
                    &&& strs(b.flags.cflags) == resolved_c(build.flags, colored) + tail
                    &&& strs(b.flags.cxxflags) == resolved_cxx(build.flags, colored) + tail
                    &&& strs(b.flags.sflags) == resolved_as(build.flags, colored)
                    &&& strs(b.flags.ldflags) == resolved_ld(build.flags)
                    &&& strs(b.source_dirs) == (if build.libmegaton {
                        seq![joined_path(lib_dir(home), "runtime"@)]
                    } else {
                        seq![]
                    }) + joined_each(env.root@, strs(build.sources))
                    &&& b.lib_objects@.len() == 0
                },
            },
    {
        if build.libmegaton {
            if build.entry.is_some() {
                return Err(BuildConfigError::EntryWithLibmegaton);
            }
        } else if build.entry.is_none() {
            return Err(BuildConfigError::MissingEntry);
        }
        let mut flags = Flags::from_config(&build.flags, colored);
        let mut source_dirs: Vec<String> = Vec::new();
        let ghost c0 = strs(flags.cflags);
        let ghost x0 = strs(flags.cxxflags);
        if build.libmegaton {
            let lib_path = join_path(env.env.env.megaton_home.as_str(), "lib");
            let mut inc = Vec::new();
            inc.push(join_path(lib_path.as_str(), "include"));
            flags.add_includes(&inc);
            source_dirs.push(join_path(lib_path.as_str(), "runtime"));
            let mut d1 = "MEGART_NX_MODULE_NAME=\"".to_owned();
            push_str(&mut d1, module.name.as_str());
            push_str(&mut d1, "\"");
            let mut d2 = "MEGART_NX_MODULE_NAME_LEN=".to_owned();
            let n = module.name.as_str().len();
            proof {
                assert(n == (vstd::utf8::encode_utf8(module.name@).len() as usize) as nat);
            }
            push_str(&mut d2, to_decimal(n as u64).as_str());
            let mut d3 = "MEGART_TITLE_ID=".to_owned();
            push_str(&mut d3, to_decimal(module.title_id).as_str());
            let mut d4 = "MEGART_TITLE_ID_HEX=\"".to_owned();
            push_str(&mut d4, to_hex16(module.title_id).as_str());
            push_str(&mut d4, "\"");
            let mut defines = Vec::new();
            defines.push(d1);
            defines.push(d2);
            defines.push(d3);
            defines.push(d4);
            assert(strs(defines) =~= module_defines(module.name@, (vstd::utf8::encode_utf8(module.name@).len() as usize) as nat, module.title_id));
            flags.add_defines(&defines);
            assert(strs(inc) =~= seq![joined_path(lib_dir(env.env.env.megaton_home@), "include"@)]);
        }
        let mut nx = Vec::new();
        nx.push(env.env.libnx_include.clone());
        flags.add_includes(&nx);
        assert(strs(nx) =~= seq![env.env.libnx_include@]);
        flags.add_includes(includes);
        let ghost s0 = strs(source_dirs);
        let dirs = join_each(env.root.as_str(), &build.sources);
        extend_strings(&mut source_dirs, &dirs);
        proof {
            let home = env.env.env.megaton_home@;
            let lib_defs = if build.libmegaton {
                seq!["-I"@ + joined_path(lib_dir(home), "include"@)] + prefixed(
                    "-D"@,
                    module_defines(module.name@, (vstd::utf8::encode_utf8(module.name@).len() as usize) as nat, module.title_id),
                )
            } else {
                seq![]
            };
            let tail = lib_defs + seq!["-I"@ + env.env.libnx_include@] + prefixed("-I"@, strs(*includes));
            assert(strs(flags.cflags) =~= c0 + tail);
            assert(strs(flags.cxxflags) =~= x0 + tail);
        }
        Ok(Builder { env, flags, source_dirs, lib_objects: Vec::new() })
    }
}

/// The compile command of one source file, as compile_commands.json records it
#[derive(Debug)]
pub struct CompileCommand {
    /// Always `/` (all paths are absolute)
    pub directory: String,
    /// The full command line, program first
    pub arguments: Vec<String>,
    /// The source file
    pub file: String,
    /// The object file
    pub output: String,
}

/// The content of a compile command: directory, arguments, file and output.
pub type CommandView = (Seq<char>, Seq<Seq<char>>, Seq<char>, Seq<char>);

impl View for CompileCommand {
    type V = CommandView;

    open spec fn view(&self) -> CommandView {
        (self.directory@, strs(self.arguments), self.file@, self.output@)
    }
}

impl Duplicate for CompileCommand {
    fn duplicate(&self) -> (r: Self) {
        CompileCommand {
            directory: self.directory.clone(),
            arguments: crate::flags::copy_strings(&self.arguments),
            file: self.file.clone(),
            output: self.output.clone(),
        }
    }
}

/// Two lists of strings hold the same strings.
pub fn same_strings(a: &Vec<String>, b: &Vec<String>) -> (r: bool)
    ensures
        r == (strs(*a) == strs(*b)),
{
    if a.len() != b.len() {
        assert(strs(*a).len() != strs(*b).len());
        return false;
    }
    let mut i: usize = 0;
    while i < a.len()
        invariant
            i <= a.len(),
            a.len() == b.len(),
            forall|j: int| 0 <= j < i ==> strs(*a)[j] == strs(*b)[j],
        decreases a.len() - i,
    {
        if !str_eq(a[i].as_str(), b[i].as_str()) {
            assert(strs(*a)[i as int] != strs(*b)[i as int]);
            return false;
        }
        i += 1;
    }
    assert(strs(*a) =~= strs(*b));
    true
}

impl CompileCommand {
    /// The same command (every field equal)
    pub fn same_as(&self, other: &CompileCommand) -> (r: bool)
        ensures
            r == (self@ == other@),
    {
        str_eq(self.directory.as_str(), other.directory.as_str()) && same_strings(&self.arguments, &other.arguments)
            && str_eq(self.file.as_str(), other.file.as_str()) && str_eq(self.output.as_str(), other.output.as_str())
    }

    /// The program and arguments of the child process that runs this command
    pub fn create_child(&self) -> (r: (String, Vec<String>))
        requires
            self.arguments@.len() > 0,
        ensures
            r.0@ == strs(self.arguments)[0],
            strs(r.1) == strs(self.arguments).skip(1),
    {
        let program = self.arguments[0].clone();
        let mut rest: Vec<String> = Vec::new();
        let mut i: usize = 1;
        while i < self.arguments.len()
            invariant
                1 <= i <= self.arguments.len(),
                rest@ == self.arguments@.subrange(1, i as int),
            decreases self.arguments.len() - i,
        {
            rest.push(self.arguments[i].clone());
            assert(rest@ =~= self.arguments@.subrange(1, i + 1));
            i += 1;
        }
        assert(self.arguments@.subrange(1, self.arguments@.len() as int) =~= self.arguments@.skip(1));
        assert(strs(rest) =~= strs(self.arguments).skip(1));
        (program, rest)
    }
}

/// Compile commands by output file
pub type CommandMap = OutputMap<CompileCommand>;

/// The compile command of a source file of type `t` at `path`, writing the
/// depfile `d` and the object `o`.
pub open spec fn command_for(
    t: SourceType,
    path: Seq<char>,
    d: Seq<char>,
    o: Seq<char>,
    cc: Seq<char>,
    cxx: Seq<char>,
    flags: Flags,
) -> CommandView {
    let args = match t {
        SourceType::C => seq![cc, "-MMD"@, "-MP"@, "-MF"@, d] + strs(flags.cflags),
        SourceType::Cpp => seq![cxx, "-MMD"@, "-MP"@, "-MF"@, d] + strs(flags.cxxflags),
        SourceType::S => seq![cxx, "-MMD"@, "-MP"@, "-MF"@, d, "-x"@, "assembler-with-cpp"@] + strs(flags.sflags),
    } + seq!["-c"@, "-o"@, o, path];
    ("/"@, args, path, o)
}

/// What to do with a file found in a source directory
pub enum SourceResult {
    /// Not a source file
    NotSource,
    /// Up to date; holds the object file
    UpToDate(String),
    /// Must be compiled with this command
    NeedCompile(CompileCommand),
}

/// The state of the object of a source file, as found on disk
#[derive(Debug, Clone, Copy, PartialEq, Eq, Structural)]
pub enum ObjectState {
    /// The object file does not exist
    Missing,
    /// The object exists but one of its dependencies is not strictly older, or
    /// is missing
    DepsOutdated,
    /// The object exists and all its dependencies are strictly older
    DepsCurrent,
}

impl<'a> Builder<'a> {
    /// The compile command of a source file
    pub fn create_command(&self, source_file: SourceFile, d_file: String, o_file: String) -> (r: CompileCommand)
        ensures
            r@ == command_for(
                source_file.typ,
                source_file.path@,
                d_file@,
                o_file@,
                self.env.env.cc@,
                self.env.env.cxx@,
                self.flags,
            ),
    {
        let mut args: Vec<String> = Vec::new();
        match source_file.typ {
            SourceType::C => {
                args.push(self.env.env.cc.clone());
                args.push("-MMD".to_owned());
                args.push("-MP".to_owned());
                args.push("-MF".to_owned());
                args.push(d_file);
                extend_strings(&mut args, &self.flags.cflags);
            },
            SourceType::Cpp => {
                args.push(self.env.env.cxx.clone());
                args.push("-MMD".to_owned());
                args.push("-MP".to_owned());
                args.push("-MF".to_owned());
                args.push(d_file);
                extend_strings(&mut args, &self.flags.cxxflags);
            },
            SourceType::S => {
                args.push(self.env.env.cxx.clone());
                args.push("-MMD".to_owned());
                args.push("-MP".to_owned());
                args.push("-MF".to_owned());
                args.push(d_file);
                args.push("-x".to_owned());
                args.push("assembler-with-cpp".to_owned());
                extend_strings(&mut args, &self.flags.sflags);
            },
        }
        args.push("-c".to_owned());
        args.push("-o".to_owned());
        args.push(o_file.clone());
        args.push(source_file.path.clone());
        let r = CompileCommand { directory: "/".to_owned(), arguments: args, file: source_file.path, output: o_file };
        assert(r@ =~= command_for(
            source_file.typ,
            source_file.path@,
            d_file@,
            o_file@,
            self.env.env.cc@,
            self.env.env.cxx@,
            self.flags,
        ));
        r
    }

    /// The object file and depfile of a source file: `<target_o>/<name_hash>.o`
    /// and `<target_o>/<name_hash>.d`
    pub fn object_paths(&self, source_file: &SourceFile) -> (r: (String, String))
        ensures
            r.0@ == joined_path(self.env.target_o@, source_file.name_hash@ + ".o"@),
            r.1@ == joined_path(self.env.target_o@, source_file.name_hash@ + ".d"@),
    {
        let mut o = source_file.name_hash.clone();
        push_str(&mut o, ".o");
        let mut d = source_file.name_hash.clone();
        push_str(&mut d, ".d");
        (join_path(self.env.target_o.as_str(), o.as_str()), join_path(self.env.target_o.as_str(), d.as_str()))
    }

    /// Decide what to do with a source file whose object is in `state` (see
    /// [`object_paths`](Self::object_paths)). When the compile command may have
    /// changed, the previous command of the object is taken out of
    /// `compile_commands` and compared with the new one
    pub fn process_source(
        &self,
        source_file: Option<SourceFile>,
        state: ObjectState,
        cc_possibly_changed: bool,
        compile_commands: &mut CommandMap,
    ) -> (r: SourceResult)
        requires
            old(compile_commands).wf(),
        ensures
            final(compile_commands).wf(),
            match source_file {
                None => r is NotSource && final(compile_commands)@ == old(compile_commands)@,
                Some(f) => {
                    let o = joined_path(self.env.target_o@, f.name_hash@ + ".o"@);
                    let d = joined_path(self.env.target_o@, f.name_hash@ + ".d"@);
                    let cmd = command_for(f.typ, f.path@, d, o, self.env.env.cc@, self.env.env.cxx@, self.flags);
                    if state != ObjectState::DepsCurrent {
                        r matches SourceResult::NeedCompile(c) && c@ == cmd && final(compile_commands)@ == old(compile_commands)@
                    } else if !cc_possibly_changed {
                        r matches SourceResult::UpToDate(out) && out@ == o && final(compile_commands)@ == old(compile_commands)@
                    } else {
                        &&& final(compile_commands)@ == old(compile_commands)@.remove(o)
                        &&& if old(compile_commands)@.contains_key(o) && old(compile_commands)@[o] == cmd {
                            r matches SourceResult::UpToDate(out) && out@ == o
                        } else {
                            r matches SourceResult::NeedCompile(c) && c@ == cmd
                        }
                    }
                },
            },
    {
        let f = match source_file {
            Some(f) => f,
            None => {
                return SourceResult::NotSource;
            },
        };
        let (o_file, d_file) = self.object_paths(&f);
        match state {
            ObjectState::Missing | ObjectState::DepsOutdated => {
                return SourceResult::NeedCompile(self.create_command(f, d_file, o_file));
            },
            ObjectState::DepsCurrent => {},
        }
        if !cc_possibly_changed {
            return SourceResult::UpToDate(o_file);
        }
        let cc = self.create_command(f, d_file, o_file);
        match compile_commands.remove(cc.output.as_str()) {
            Some(old_cc) => {
                if old_cc.same_as(&cc) {
                    SourceResult::UpToDate(cc.output)
                } else {
                    SourceResult::NeedCompile(cc)
                }
            },
            None => SourceResult::NeedCompile(cc),
        }
    }
}

/// Record the commands read from compile_commands.json by their output file
/// (a later command replaces an earlier one with the same output)
pub fn load_compile_commands(ccs: Vec<CompileCommand>, map: &mut CommandMap)
    requires
        old(map).wf(),
    ensures
        final(map).wf(),
        final(map)@ == old(map)@.union_prefer_right(
            crate::outmap::inserted_pairs(ccs@.map_values(|c: CompileCommand| (c.output@, c@))),
        ),
{
    let ghost m0 = map@;
    let ghost pv = ccs@.map_values(|c: CompileCommand| (c.output@, c@));
    let mut i: usize = 0;
    assert(m0 =~= m0.union_prefer_right(crate::outmap::inserted_pairs(pv.take(0))));
    while i < ccs.len()
        invariant
            i <= ccs@.len(),
            pv == ccs@.map_values(|c: CompileCommand| (c.output@, c@)),
            map.wf(),
            map@ == m0.union_prefer_right(crate::outmap::inserted_pairs(pv.take(i as int))),
        decreases ccs@.len() - i,
    {
        let key = ccs[i].output.clone();
        let c = ccs[i].duplicate();
        map.insert(key, c);
        assert(pv.take(i + 1).drop_last() =~= pv.take(i as int));
        assert(map@ =~= m0.union_prefer_right(crate::outmap::inserted_pairs(pv.take(i + 1))));
        i += 1;
    }
    assert(pv.take(ccs@.len() as int) =~= pv);
}

/// What looking up the modification time of a file gave
#[derive(Debug, Clone, Copy, PartialEq, Eq, Structural)]
pub enum MTimeProbe {
    /// The file does not exist
    NotFound,
    /// Reading its modification time failed
    Failed,
    /// Its modification time (`None` when it vanished meanwhile)
    Found(Option<MTime>),
}

/// A library probed as `p` forces relinking an ELF of modification time `elf`.
pub open spec fn lib_forces_link(p: MTimeProbe, elf: Option<MTime>) -> bool {
    match p {
        MTimeProbe::NotFound => false,
        MTimeProbe::Failed => true,
        MTimeProbe::Found(m) => !is_up_to_date(m, elf),
    }
}

/// The archives of `libs` looked for in each library path, library path first.
pub open spec fn lib_candidates(root: Seq<char>, libpaths: Seq<Seq<char>>, libs: Seq<Seq<char>>) -> Seq<Seq<char>>
    decreases libpaths.len(),
{
    if libpaths.len() == 0 {
        seq![]
    } else {
        lib_candidates(root, libpaths.drop_last(), libs) + libs.map_values(
            |l: Seq<char>| joined_path(joined_path(root, libpaths.last()), "lib"@ + l + ".a"@),
        )
    }
}

/// libmegaton is needed and has not been built
#[derive(Debug, Clone, Copy, PartialEq, Eq, Structural)]
pub enum DependencyError {
    /// libmegaton.a does not exist
    LibmegatonNotBuilt,
}

/// The linker flags added when linking a project (after the resolved ones).
pub open spec fn link_flags(env: &ProjectEnv, build: Build) -> Seq<Seq<char>> {
    seq!["-Wl,-init="@ + entry_point_of(build@), "-Wl,--version-script="@ + env.verfile@] + (if build.libmegaton {
        seq!["-Wl,-T"@ + joined_path(joined_path(lib_dir(env.env.env.megaton_home@), "runtime"@), "link.ld"@)]
    } else {
        seq![]
    }) + prefixed("-L"@, joined_each(env.root@, strs(build.libpaths))) + prefixed("-l"@, strs(build.libraries))
        + prefixed("-Wl,-T"@, joined_each(env.root@, strs(build.ldscripts)))
}

impl<'a> Builder<'a> {
    /// Path of the libmegaton archive
    pub fn libmegaton_path(&self) -> (r: String)
        ensures
            r@ == libmegaton_archive(self.env.env.env.megaton_home@),
    {
        let lib = join_path(self.env.env.env.megaton_home.as_str(), "lib");
        let b = join_path(lib.as_str(), "build");
        let bin = join_path(b.as_str(), "bin");
        join_path(bin.as_str(), "libmegaton.a")
    }

    /// The library archives whose changes force relinking, library path first
    pub fn library_candidates(&self, build: &Build) -> (r: Vec<String>)
        ensures
            strs(r) == lib_candidates(self.env.root@, strs(build.libpaths), strs(build.libraries)),
    {
        let mut r: Vec<String> = Vec::new();
        let mut i: usize = 0;
        let ghost lp = strs(build.libpaths);
        let ghost ls = strs(build.libraries);
        while i < build.libpaths.len()
            invariant
                i <= build.libpaths.len(),
                lp == strs(build.libpaths),
                ls == strs(build.libraries),
                strs(r) == lib_candidates(self.env.root@, lp.take(i as int), ls),
            decreases build.libpaths.len() - i,
        {
            let dir = join_path(self.env.root.as_str(), build.libpaths[i].as_str());
            let ghost before = strs(r);
            let ghost rb = r@;
            let mut j: usize = 0;
            while j < build.libraries.len()
                invariant
                    i < build.libpaths.len(),
                    lp == strs(build.libpaths),
                    j <= build.libraries.len(),
                    ls == strs(build.libraries),
                    dir@ == joined_path(self.env.root@, lp[i as int]),
                    r@.len() == rb.len() + j,
                    forall|k: int| 0 <= k < rb.len() ==> r@[k] == rb[k],
                    forall|k: int| 0 <= k < j ==> #[trigger] r@[rb.len() + k]@ == joined_path(dir@, "lib"@ + ls[k] + ".a"@),
                decreases build.libraries.len() - j,
            {
                let mut name = "lib".to_owned();
                push_str(&mut name, build.libraries[j].as_str());
                push_str(&mut name, ".a");
                r.push(join_path(dir.as_str(), name.as_str()));
                j += 1;
            }
            assert(strs(r) =~= before + ls.map_values(|l: Seq<char>| joined_path(dir@, "lib"@ + l + ".a"@))) by {
                assert forall|k: int| 0 <= k < rb.len() implies strs(r)[k] == before[k] by {
                    assert(r@[k] == rb[k]);
                }
                assert forall|k: int| rb.len() <= k < r@.len() implies strs(r)[k] == ls.map_values(|l: Seq<char>| joined_path(dir@, "lib"@ + l + ".a"@))[k - rb.len()] by {
                    assert(r@[rb.len() + (k - rb.len())]@ == joined_path(dir@, "lib"@ + ls[k - rb.len()] + ".a"@));
                }
            }
            assert(lp.take(i + 1).drop_last() =~= lp.take(i as int));
            assert(lp.take(i + 1).last() == lp[i as int]);
            i += 1;
        }
        assert(lp.take(build.libpaths.len() as int) =~= lp);
        r
    }

    /// Whether a library changed since the ELF was linked (so it must be relinked),
    /// given what looking up libmegaton and each of
    /// [`library_candidates`](Self::library_candidates) gave
    pub fn check_lib_changed(
        &self,
        build: &Build,
        elf_mtime: Option<MTime>,
        libmegaton: MTimeProbe,
        libs: &Vec<MTimeProbe>,
    ) -> (r: Result<bool, DependencyError>)
        ensures
            build.libmegaton && libmegaton == MTimeProbe::NotFound ==> r == Err::<bool, DependencyError>(
                DependencyError::LibmegatonNotBuilt,
            ),
            !(build.libmegaton && libmegaton == MTimeProbe::NotFound) ==> r == Ok::<bool, DependencyError>(
                (build.libmegaton && lib_forces_link(libmegaton, elf_mtime)) || exists|i: int|
                    0 <= i < libs@.len() && lib_forces_link(#[trigger] libs@[i], elf_mtime),
            ),
    {
        if build.libmegaton {
            match libmegaton {
                MTimeProbe::NotFound => {
                    return Err(DependencyError::LibmegatonNotBuilt);
                },
                MTimeProbe::Failed => {
                    return Ok(true);
                },
                MTimeProbe::Found(m) => {
                    if !up_to_date(m, elf_mtime) {
                        return Ok(true);
                    }
                },
            }
        }
        let mut i: usize = 0;
        while i < libs.len()
            invariant
                i <= libs@.len(),
                !(build.libmegaton && libmegaton == MTimeProbe::NotFound),
                !(build.libmegaton && lib_forces_link(libmegaton, elf_mtime)),
                forall|j: int| 0 <= j < i ==> !lib_forces_link(#[trigger] libs@[j], elf_mtime),
            decreases libs@.len() - i,
        {
            let changed = match libs[i] {
                MTimeProbe::NotFound => false,
                MTimeProbe::Failed => true,
                MTimeProbe::Found(m) => !up_to_date(m, elf_mtime),
            };
            if changed {
                assert(lib_forces_link(libs@[i as int], elf_mtime));
                return Ok(true);
            }
            i += 1;
        }
        Ok(false)
    }

    /// Configure the linker flags, given whether libmegaton has been built.
    /// Fails when libmegaton is used and not built, after the entry point and
    /// version script are set
    pub fn configure_linker(&mut self, build: &Build, libmegaton_exists: bool) -> (r: Result<(), DependencyError>)
        ensures
            final(self).env == old(self).env,
            final(self).flags.cflags == old(self).flags.cflags,
            final(self).flags.cxxflags == old(self).flags.cxxflags,
            final(self).flags.sflags == old(self).flags.sflags,
            final(self).source_dirs == old(self).source_dirs,
            r is Err <==> build.libmegaton && !libmegaton_exists,
            r is Err ==> strs(final(self).flags.ldflags) == strs(old(self).flags.ldflags) + link_flags(old(self).env, *build).take(2)
                && final(self).lib_objects == old(self).lib_objects,
            r is Ok ==> strs(final(self).flags.ldflags) == strs(old(self).flags.ldflags) + link_flags(old(self).env, *build)
                && strs(final(self).lib_objects) == strs(old(self).lib_objects) + (if build.libmegaton {
                    seq![libmegaton_archive(old(self).env.env.env.megaton_home@)]
                } else {
                    seq![]
                }),
    {
        let ghost l0 = strs(self.flags.ldflags);
        let entry = build.entry_point();
        self.flags.set_init(entry.as_str());
        let verfile = self.env.verfile.clone();
        self.flags.set_version_script(verfile.as_str());
        let ghost l1 = strs(self.flags.ldflags);
        assert(l1 =~= l0 + link_flags(self.env, *build).take(2));
        if build.libmegaton {
            let libmegaton = self.libmegaton_path();
            if !libmegaton_exists {
                return Err(DependencyError::LibmegatonNotBuilt);
            }
            self.lib_objects.push(libmegaton);
            let lib = join_path(self.env.env.env.megaton_home.as_str(), "lib");
            let runtime = join_path(lib.as_str(), "runtime");
            let mut scripts = Vec::new();
            scripts.push(join_path(runtime.as_str(), "link.ld"));
            self.flags.add_ldscripts(&scripts);
            assert(strs(scripts) =~= seq![joined_path(joined_path(lib_dir(self.env.env.env.megaton_home@), "runtime"@), "link.ld"@)]);
        }
        let ghost l2 = strs(self.flags.ldflags);
        let paths = join_each(self.env.root.as_str(), &build.libpaths);
        self.flags.add_libpaths(&paths);
        self.flags.add_libraries(&build.libraries);
        let scripts = join_each(self.env.root.as_str(), &build.ldscripts);
        self.flags.add_ldscripts(&scripts);
        assert(strs(self.flags.ldflags) =~= l0 + link_flags(self.env, *build));
        Ok(())
    }

    /// The program and arguments of the link command (the C++ compiler links)
    pub fn link_command(&self, objects: &Vec<String>) -> (r: (String, Vec<String>))
        ensures
            r.0@ == self.env.env.cxx@,
            strs(r.1) == strs(self.flags.ldflags) + strs(*objects) + strs(self.lib_objects) + seq!["-o"@, self.env.elf@],
    {
        let mut args: Vec<String> = Vec::new();
        extend_strings(&mut args, &self.flags.ldflags);
        extend_strings(&mut args, objects);
        extend_strings(&mut args, &self.lib_objects);
        args.push("-o".to_owned());
        args.push(self.env.elf.clone());
        assert(strs(args) =~= strs(self.flags.ldflags) + strs(*objects) + strs(self.lib_objects) + seq!["-o"@, self.env.elf@]);
        (self.env.env.cxx.clone(), args)
    }
}


/// A compile command passes exactly the flags resolved for the source's own
/// type: the compiler (the C compiler for C, the C++ compiler otherwise) with
/// the depfile switches, then the C flags for C, the C++ flags for C++, or
/// `-x assembler-with-cpp` and the assembler flags for assembly, then
/// `-c -o` with the object and the source. It runs in `/`, on the source,
/// writing the object.
pub proof fn lemma_command_uses_own_flags(
    t: SourceType,
    path: Seq<char>,
    d: Seq<char>,
    o: Seq<char>,
    cc: Seq<char>,
    cxx: Seq<char>,
    flags: Flags,
)
    ensures
        ({
            let c = command_for(t, path, d, o, cc, cxx, flags);
            let a = c.1;
            let tail = seq!["-c"@, "-o"@, o, path];
            &&& c.0 == "/"@ && c.2 == path && c.3 == o
            &&& t == SourceType::C ==> a == seq![cc, "-MMD"@, "-MP"@, "-MF"@, d] + strs(flags.cflags) + tail
            &&& t == SourceType::Cpp ==> a == seq![cxx, "-MMD"@, "-MP"@, "-MF"@, d] + strs(flags.cxxflags) + tail
            &&& t == SourceType::S ==> a == seq![cxx, "-MMD"@, "-MP"@, "-MF"@, d, "-x"@, "assembler-with-cpp"@]
                + strs(flags.sflags) + tail
            &&& t == SourceType::Cpp ==> a.subrange(5, a.len() - 4) == strs(flags.cxxflags)
            &&& t == SourceType::C ==> a.subrange(5, a.len() - 4) == strs(flags.cflags)
            &&& t == SourceType::S ==> a.subrange(7, a.len() - 4) == strs(flags.sflags)
        }),
{
    let c = command_for(t, path, d, o, cc, cxx, flags);
    let a = c.1;
    match t {
        SourceType::C => {
            assert(a.subrange(5, a.len() - 4) =~= strs(flags.cflags));
        },
        SourceType::Cpp => {
            assert(a.subrange(5, a.len() - 4) =~= strs(flags.cxxflags));
        },
        SourceType::S => {
            assert(a.subrange(7, a.len() - 4) =~= strs(flags.sflags));
        },
    }
}

/// Every library of a build is looked for in every library path: the
/// candidates are, path by path, the archive `lib<name>.a` of each library in
/// that path, so there are as many as paths times libraries.
pub proof fn lemma_lib_candidates_all(root: Seq<char>, libpaths: Seq<Seq<char>>, libs: Seq<Seq<char>>)
    ensures
        lib_candidates(root, libpaths, libs).len() == libpaths.len() * libs.len(),
        forall|i: int, j: int|
            0 <= i < libpaths.len() && 0 <= j < libs.len() ==> #[trigger] lib_candidates(root, libpaths, libs)[i
                * libs.len() + j] == joined_path(joined_path(root, libpaths[i]), "lib"@ + libs[j] + ".a"@),
    decreases libpaths.len(),
{
    let n = libs.len();
    if libpaths.len() > 0 {
        let m = libpaths.len() - 1;
        let front = libpaths.drop_last();
        lemma_lib_candidates_all(root, front, libs);
        let prev = lib_candidates(root, front, libs);
        let r = lib_candidates(root, libpaths, libs);
        assert(prev.len() == m * n);
        assert(r.len() == m * n + n);
        assert((m + 1) * n == m * n + n) by (nonlinear_arith);
        assert forall|i: int, j: int| 0 <= i < libpaths.len() && 0 <= j < n implies #[trigger] r[i * n + j]
            == joined_path(joined_path(root, libpaths[i]), "lib"@ + libs[j] + ".a"@) by {
            if i < m {
                assert(i * n + j < m * n) by (nonlinear_arith)
                    requires
                        0 <= i < m,
                        0 <= j < n,
                ;
                assert(0 <= i * n) by (nonlinear_arith)
                    requires
                        0 <= i,
                        0 <= n,
                ;
                assert(r[i * n + j] == prev[i * n + j]);
                assert(front[i] == libpaths[i]);
            } else {
                assert(i == m);
                assert(r[i * n + j] == libs.map_values(
                    |l: Seq<char>| joined_path(joined_path(root, libpaths.last()), "lib"@ + l + ".a"@),
                )[j]);
            }
        }
    } else {
        assert(libpaths.len() * n == 0) by (nonlinear_arith)
            requires
                libpaths.len() == 0,
        ;
    }
}

/// An input as old as its output is not up to date with it: it must be
/// strictly older.
pub proof fn lemma_same_time_not_up_to_date(t: Option<MTime>)
    ensures
        !is_up_to_date(t, t),
{
}

/// Up to date chains: an input up to date with an intermediate file that is
/// up to date with an output is up to date with the output.
pub proof fn lemma_up_to_date_transitive(a: Option<MTime>, b: Option<MTime>, c: Option<MTime>)
    requires
        is_up_to_date(a, b),
        is_up_to_date(b, c),
    ensures
        is_up_to_date(a, c),
{
}

/// Nothing is up to date with a missing output, and a missing input is never
/// up to date.
pub proof fn lemma_missing_never_up_to_date(t: Option<MTime>)
    ensures
        !is_up_to_date(t, None),
        !is_up_to_date(None, t),
{
}

} // verus!
