//! The decisions taken while building a project: which objects there are,
//! whether the module must be linked again, whether the NSO must be made
//! again, and what is reported.
use vstd::prelude::*;

use crate::builder::{
    is_up_to_date, up_to_date, CommandMap, CompileCommand, DependencyError, MTime, SourceResult,
};
use crate::flags::strs;
use crate::outmap::Duplicate;
use crate::hex::{decimal, to_decimal};
use crate::text::{join_strings, joined, push_str};

verus! {

/// The text of the objects cache: the number of objects, a newline, and the
/// objects one per line.
pub open spec fn objects_cache(objects: Seq<Seq<char>>) -> Seq<char> {
    decimal(objects.len()) + "\n"@ + joined(objects, "\n"@)
}

/// The text of the objects cache for `objects`.
pub fn objects_cache_text(objects: &Vec<String>) -> (r: String)
    requires
        objects@.len() <= u64::MAX,
    ensures
        r@ == objects_cache(strs(*objects)),
{
    let mut r = to_decimal(objects.len() as u64);
    push_str(&mut r, "\n");
    let list = join_strings(objects, "\n");
    push_str(&mut r, list.as_str());
    r
}

/// The objects found so far while going through the source directories, and
/// whether one of them has to be compiled
pub struct ObjectScan {
    /// Every object file, in the order found
    pub objects: Vec<String>,
    /// Whether an object has to be compiled
    pub objects_changed: bool,
}

impl ObjectScan {
    /// Nothing found yet.
    pub fn new() -> (r: Self)
        ensures
            r.objects@.len() == 0,
            !r.objects_changed,
    {
        ObjectScan { objects: Vec::new(), objects_changed: false }
    }

    /// Take in what was decided for one file found in a source directory. A
    /// command to compile is recorded in `compile_commands` under its object
    /// and handed back to be run.
    pub fn record(&mut self, result: SourceResult, compile_commands: &mut CommandMap) -> (r: Option<
        CompileCommand,
    >)
        requires
            old(compile_commands).wf(),
        ensures
            final(compile_commands).wf(),
            match result {
                SourceResult::NotSource => {
                    &&& r is None
                    &&& final(self).objects@ == old(self).objects@
                    &&& final(self).objects_changed == old(self).objects_changed
                    &&& final(compile_commands)@ == old(compile_commands)@
                },
                SourceResult::UpToDate(o) => {
                    &&& r is None
                    &&& strs(final(self).objects) == strs(old(self).objects).push(o@)
                    &&& final(self).objects_changed == old(self).objects_changed
                    &&& final(compile_commands)@ == old(compile_commands)@
                },
                SourceResult::NeedCompile(c) => {
                    &&& r is Some && r->0@ == c@
                    &&& strs(final(self).objects) == strs(old(self).objects).push(c.output@)
                    &&& final(self).objects_changed
                    &&& final(compile_commands)@ == old(compile_commands)@.insert(c.output@, c@)
                },
            },
    {
        let ghost before = strs(self.objects);
        match result {
            SourceResult::NotSource => None,
            SourceResult::UpToDate(o) => {
                self.objects.push(o);
                assert(strs(self.objects) =~= before.push(self.objects@.last()@));
                None
            },
            SourceResult::NeedCompile(c) => {
                let run = c.duplicate();
                self.objects.push(c.output.clone());
                assert(strs(self.objects) =~= before.push(c.output@));
                compile_commands.insert(c.output.clone(), c);
                self.objects_changed = true;
                Some(run)
            },
        }
    }
}

/// What looking up a modification time gave: `Err` when the lookup failed,
/// `Ok(None)` when the file does not exist.
pub type MTimeLookup = Result<Option<MTime>, ()>;

/// A file looked up as `p` is not known to be strictly older than a file of
/// modification time `out` (as old counts as changed); a failed lookup counts
/// as changed.
pub open spec fn is_stale(p: MTimeLookup, out: Option<MTime>) -> bool {
    match p {
        Err(_) => true,
        Ok(m) => !is_up_to_date(m, out),
    }
}

/// `i` is the first of `ps` that is stale against `out`.
pub open spec fn is_first_stale(ps: Seq<MTimeLookup>, out: Option<MTime>, i: int) -> bool {
    &&& 0 <= i < ps.len()
    &&& is_stale(ps[i], out)
    &&& forall|j: int| 0 <= j < i ==> !is_stale(#[trigger] ps[j], out)
}

/// The first of `ps` that is stale against `out`, if any.
pub open spec fn first_stale(ps: Seq<MTimeLookup>, out: Option<MTime>) -> Option<int> {
    if exists|i: int| is_first_stale(ps, out, i) {
        Some(choose|i: int| is_first_stale(ps, out, i))
    } else {
        None
    }
}

/// The first of `ps` that is stale against `out`.
pub fn find_stale(ps: &Vec<MTimeLookup>, out: Option<MTime>) -> (r: Option<usize>)
    ensures
        first_stale(ps@, out) == (match r { Some(i) => Some(i as int), None => None::<int> }),
{
    let mut i: usize = 0;
    while i < ps.len()
        invariant
            i <= ps@.len(),
            forall|j: int| 0 <= j < i ==> !is_stale(#[trigger] ps@[j], out),
        decreases ps@.len() - i,
    {
        let stale = match ps[i] {
            Err(_) => true,
            Ok(m) => !up_to_date(m, out),
        };
        if stale {
            assert(is_first_stale(ps@, out, i as int));
            assert forall|k: int| is_first_stale(ps@, out, k) implies k == i by {
                if k > i {
                    assert(is_stale(ps@[i as int], out));
                }
            }
            return Some(i);
        }
        i += 1;
    }
    assert(!exists|k: int| is_first_stale(ps@, out, k));
    None
}

/// Whether an object is up to date with what it was compiled from: `Ok(false)`
/// without a depfile; else, failing when the object's time cannot be read;
/// else the first dependency (in the depfile's order) that is not strictly
/// older than the object makes it `Ok(false)`, or a failure when its time
/// cannot be read.
pub open spec fn deps_verdict(depfile_exists: bool, o_mtime: MTimeLookup, dep_mtimes: Seq<MTimeLookup>) -> Result<
    bool,
    (),
> {
    if !depfile_exists {
        Ok(false)
    } else {
        match o_mtime {
            Err(_) => Err(()),
            Ok(o) => match first_stale(dep_mtimes, o) {
                Some(i) => if dep_mtimes[i] is Err {
                    Err(())
                } else {
                    Ok(false)
                },
                None => Ok(true),
            },
        }
    }
}

/// Whether an object is up to date with the dependencies its depfile lists
/// (see [`deps_verdict`]), given the modification time of the object and of
/// each dependency.
pub fn are_deps_up_to_date(depfile_exists: bool, o_mtime: MTimeLookup, dep_mtimes: &Vec<MTimeLookup>) -> (r: Result<
    bool,
    (),
>)
    ensures
        r == deps_verdict(depfile_exists, o_mtime, dep_mtimes@),
{
    if !depfile_exists {
        return Ok(false);
    }
    let o = match o_mtime {
        Err(_) => {
            return Err(());
        },
        Ok(o) => o,
    };
    match find_stale(dep_mtimes, o) {
        Some(i) => {
            if dep_mtimes[i].is_err() {
                Err(())
            } else {
                Ok(false)
            }
        },
        None => Ok(true),
    }
}

/// Why deciding whether to link failed
#[derive(Debug, Clone, Copy, PartialEq, Eq, Structural)]
pub enum LinkError {
    /// The modification time of a linker script could not be read
    Ldscript,
    /// A library the module needs is missing
    Dependency(DependencyError),
}

/// What is known when deciding whether the module must be linked again
pub struct LinkFacts {
    /// An object had to be compiled
    pub objects_changed: bool,
    /// The project configuration changed since the last build
    pub config_changed: bool,
    /// The ELF exists
    pub elf_exists: bool,
    /// The objects cache of the last build (empty when it could not be read)
    pub cached_objects: String,
    /// The objects cache of this build (see [`objects_cache_text`])
    pub objects_cache: String,
    /// The modification time of the ELF
    pub elf_mtime: MTimeLookup,
    /// The modification time of each linker script
    pub ldscript_mtimes: Vec<MTimeLookup>,
    /// The modification time of each object
    pub object_mtimes: Vec<MTimeLookup>,
    /// Whether a library changed since the ELF was linked
    pub libs_changed: Result<bool, DependencyError>,
}

/// Whether the module must be linked again: when an object was compiled, the
/// configuration changed, the ELF is missing, or the list of objects changed;
/// else, when the ELF's time cannot be read; else, when a linker script is
/// not strictly older than the ELF (failing on the first whose time cannot be
/// read), an object is not strictly older (or its time cannot be read), or a
/// library changed.
pub open spec fn link_needed(f: LinkFacts) -> Result<bool, LinkError> {
    if f.objects_changed || f.config_changed || !f.elf_exists {
        Ok(true)
    } else if f.cached_objects@ != f.objects_cache@ {
        Ok(true)
    } else {
        match f.elf_mtime {
            Err(_) => Ok(true),
            Ok(elf) => match first_stale(f.ldscript_mtimes@, elf) {
                Some(i) => if f.ldscript_mtimes@[i] is Err {
                    Err(LinkError::Ldscript)
                } else {
                    Ok(true)
                },
                None => if first_stale(f.object_mtimes@, elf) is Some {
                    Ok(true)
                } else {
                    match f.libs_changed {
                        Err(e) => Err(LinkError::Dependency(e)),
                        Ok(changed) => Ok(changed),
                    }
                },
            },
        }
    }
}

/// Decide whether the module must be linked again.
pub fn needs_linking(f: &LinkFacts) -> (r: Result<bool, LinkError>)
    ensures
        r == link_needed(*f),
{
    if f.objects_changed || f.config_changed || !f.elf_exists {
        return Ok(true);
    }
    if f.cached_objects != f.objects_cache {
        return Ok(true);
    }
    let elf = match f.elf_mtime {
        Err(_) => {
            return Ok(true);
        },
        Ok(elf) => elf,
    };
    match find_stale(&f.ldscript_mtimes, elf) {
        Some(i) => {
            if f.ldscript_mtimes[i].is_err() {
                return Err(LinkError::Ldscript);
            }
            return Ok(true);
        },
        None => {},
    }
    if find_stale(&f.object_mtimes, elf).is_some() {
        return Ok(true);
    }
    match f.libs_changed {
        Err(e) => Err(LinkError::Dependency(e)),
        Ok(changed) => Ok(changed),
    }
}

/// What is known when deciding whether the NSO must be made again
pub struct NsoFacts {
    /// The module is linked again
    pub needs_linking: bool,
    /// The NSO exists
    pub nso_exists: bool,
    /// The profile checks the module (it has a `check` section)
    pub checks: bool,
    /// The modification time of the NSO
    pub nso_mtime: MTimeLookup,
    /// The modification time of the ELF
    pub elf_mtime: MTimeLookup,
    /// The modification time of each symbol file the check reads
    pub symbol_mtimes: Vec<MTimeLookup>,
}

/// Whether the NSO must be made again: when the module is linked again or the
/// NSO is missing; else, when checked, when the NSO's time cannot be read or a
/// symbol file is not strictly older than the NSO (or its time cannot be
/// read); else when the ELF is not strictly older than the NSO, or either time
/// cannot be read.
pub open spec fn nso_needed(f: NsoFacts) -> bool {
    if f.needs_linking || !f.nso_exists {
        true
    } else if f.checks && match f.nso_mtime {
        Err(_) => true,
        Ok(nso) => first_stale(f.symbol_mtimes@, nso) is Some,
    } {
        true
    } else {
        match (f.elf_mtime, f.nso_mtime) {
            (Ok(elf), Ok(nso)) => !is_up_to_date(elf, nso),
            _ => true,
        }
    }
}

/// Decide whether the NSO must be made again.
pub fn needs_nso(f: &NsoFacts) -> (r: bool)
    ensures
        r == nso_needed(*f),
{
    if f.needs_linking || !f.nso_exists {
        return true;
    }
    if f.checks {
        match f.nso_mtime {
            Err(_) => {
                return true;
            },
            Ok(nso) => {
                if find_stale(&f.symbol_mtimes, nso).is_some() {
                    return true;
                }
            },
        }
    }
    match (f.elf_mtime, f.nso_mtime) {
        (Ok(elf), Ok(nso)) => !up_to_date(elf, nso),
        _ => true,
    }
}

/// How many entries of a list are shown in a report.
pub open spec fn shown_entries() -> nat {
    10
}

/// The report lines of a list: its first entries, indented, then how many
/// more there are when some are not shown.
pub open spec fn listing_report(items: Seq<Seq<char>>) -> Seq<Seq<char>> {
    let shown = if items.len() > shown_entries() { shown_entries() as int } else { items.len() as int };
    items.take(shown).map_values(|s: Seq<char>| "  "@ + s) + if items.len() > shown_entries() {
        seq!["  ... ("@ + decimal((items.len() - shown_entries()) as nat) + " more)"@]
    } else {
        seq![]
    }
}

/// The report lines of a list of missing symbols or disallowed instructions.
pub fn listing_lines(items: &Vec<String>) -> (r: Vec<String>)
    requires
        items@.len() <= u64::MAX,
    ensures
        strs(r) == listing_report(strs(*items)),
{
    let ghost its = strs(*items);
    let shown: usize = if items.len() > 10 { 10 } else { items.len() };
    let mut r: Vec<String> = Vec::new();
    let mut i: usize = 0;
    while i < shown
        invariant
            shown <= items@.len(),
            shown == (if items@.len() > 10 { 10 } else { items@.len() }),
            i <= shown,
            its == strs(*items),
            strs(r) == its.take(i as int).map_values(|s: Seq<char>| "  "@ + s),
        decreases shown - i,
    {
        let mut line = "  ".to_owned();
        push_str(&mut line, items[i].as_str());
        let ghost before = strs(r);
        r.push(line);
        assert(strs(r) =~= its.take(i + 1).map_values(|s: Seq<char>| "  "@ + s)) by {
            assert(strs(r) =~= before.push("  "@ + its[i as int]));
        }
        i += 1;
    }
    if items.len() > 10 {
        let mut line = "  ... (".to_owned();
        let n = to_decimal((items.len() - 10) as u64);
        push_str(&mut line, n.as_str());
        push_str(&mut line, " more)");
        let ghost before = strs(r);
        r.push(line);
        assert(strs(r) =~= before.push("  ... ("@ + decimal((items@.len() - 10) as nat) + " more)"@));
    }
    assert(strs(r) =~= listing_report(its));
    r
}

/// The title id written into `main.npdm.json`: `0x` and the hexadecimal id.
pub fn npdm_title_id(title_id_hex: &str) -> (r: String)
    ensures
        r@ == "0x"@ + title_id_hex@,
{
    let mut r = "0x".to_owned();
    push_str(&mut r, title_id_hex);
    r
}

/// The version script: the text before the entry point, the entry point, and
/// the text after it.
pub fn verfile_data(before: &str, entry: &str, after: &str) -> (r: String)
    ensures
        r@ == before@ + entry@ + after@,
{
    let mut r = before.to_owned();
    push_str(&mut r, entry);
    push_str(&mut r, after);
    r
}

/// What a build reports as built: the module and its profile.
pub fn built_artifact(module: &str, profile: &str) -> (r: String)
    ensures
        r@ == module@ + " (profile `"@ + profile@ + "`)"@,
{
    let mut r = module.to_owned();
    push_str(&mut r, " (profile `");
    push_str(&mut r, profile);
    push_str(&mut r, "`)");
    r
}

/// The steps of a build besides scanning the sources, as decided before the
/// scan
#[derive(Debug, Clone, Copy, PartialEq, Eq, Structural)]
pub struct BuildSteps {
    /// Make main.npdm from its template (Megaton.toml changed)
    pub make_npdm: bool,
    /// Compare each source's command with the compile database
    pub check_compdb: bool,
    /// Run the compilers on the sources that need it
    pub run_compilers: bool,
    /// Write the version script (Megaton.toml changed)
    pub write_verfile: bool,
    /// Go on to saving the compile database, linking and making the NSO;
    /// otherwise the build ends after writing compile_commands.json
    pub link_stage: bool,
}

/// The steps of a build, given whether Megaton.toml is newer than the last
/// build's npdm file and whether only the compile database is asked for.
pub open spec fn build_steps_spec(config_changed: bool, compdb_only: bool) -> BuildSteps {
    BuildSteps {
        make_npdm: config_changed && !compdb_only,
        check_compdb: config_changed || compdb_only,
        run_compilers: !compdb_only,
        write_verfile: config_changed && !compdb_only,
        link_stage: !compdb_only,
    }
}

/// The steps of a build (see [`build_steps_spec`]).
pub fn build_steps(config_changed: bool, compdb_only: bool) -> (r: BuildSteps)
    ensures
        r == build_steps_spec(config_changed, compdb_only),
{
    BuildSteps {
        make_npdm: config_changed && !compdb_only,
        check_compdb: config_changed || compdb_only,
        run_compilers: !compdb_only,
        write_verfile: config_changed && !compdb_only,
        link_stage: !compdb_only,
    }
}

/// What is done with the compile database after the scan: whether it is
/// saved (with compile_commands.json), and whether the old database is merged
/// in first, which is needed when the sources' commands were not all compared
/// with it.
pub fn compdb_after_scan(steps: BuildSteps, objects_changed: bool) -> (r: (bool, bool))
    ensures
        r.0 == (steps.link_stage && (objects_changed || steps.check_compdb)),
        r.1 == (r.0 && !steps.check_compdb),
{
    let save = steps.link_stage && (objects_changed || steps.check_compdb);
    (save, save && !steps.check_compdb)
}

/// A build of only the compile database compiles nothing, writes neither the
/// npdm file nor the version script, and stops before linking; it compares
/// every source's command with the database, so nothing old is merged in.
pub proof fn lemma_compdb_only_builds_nothing(config_changed: bool)
    ensures
        !build_steps_spec(config_changed, true).run_compilers,
        !build_steps_spec(config_changed, true).make_npdm,
        !build_steps_spec(config_changed, true).write_verfile,
        !build_steps_spec(config_changed, true).link_stage,
        build_steps_spec(config_changed, true).check_compdb,
{
}

/// What a compile database build reports as built.
pub fn built_compdb(profile: &str) -> (r: String)
    ensures
        r@ == "compdb for profile `"@ + profile@ + "`"@,
{
    let mut r = "compdb for profile `".to_owned();
    push_str(&mut r, profile);
    push_str(&mut r, "`");
    r
}

/// The file names of the module's artifacts: `<module>.elf` and `<module>.nso`.
pub fn artifact_names(module: &str) -> (r: (String, String))
    ensures
        r.0@ == module@ + ".elf"@,
        r.1@ == module@ + ".nso"@,
{
    let mut elf = module.to_owned();
    push_str(&mut elf, ".elf");
    let mut nso = module.to_owned();
    push_str(&mut nso, ".nso");
    (elf, nso)
}


/// Linking again always makes the NSO again.
pub proof fn lemma_link_makes_nso(f: NsoFacts)
    requires
        f.needs_linking,
    ensures
        nso_needed(f),
{
}

/// A missing NSO is always made.
pub proof fn lemma_missing_nso_made(f: NsoFacts)
    requires
        !f.nso_exists,
    ensures
        nso_needed(f),
{
}

/// Compiling an object, a change of configuration, or a missing ELF always
/// links again, whatever else is known.
pub proof fn lemma_change_links(f: LinkFacts)
    requires
        f.objects_changed || f.config_changed || !f.elf_exists,
    ensures
        link_needed(f) == Ok::<bool, LinkError>(true),
{
}

/// When the list of objects differs from the one of the last build, the module
/// is linked again.
pub proof fn lemma_object_list_change_links(f: LinkFacts)
    requires
        f.cached_objects@ != f.objects_cache@,
    ensures
        link_needed(f) == Ok::<bool, LinkError>(true),
{
}

/// The objects cache names the number of objects first, then every object.
pub proof fn lemma_objects_cache_prefix(objects: Seq<Seq<char>>)
    ensures
        objects_cache(objects).take(decimal(objects.len()).len() + 1int) == decimal(objects.len()) + "\n"@,
{
    reveal_strlit("\n");
    assert(objects_cache(objects).take(decimal(objects.len()).len() + 1int) =~= decimal(objects.len()) + "\n"@);
}

/// A report shows at most the first ten entries and one line about the rest,
/// which appears exactly when there are more than ten.
pub proof fn lemma_listing_report_size(items: Seq<Seq<char>>)
    ensures
        items.len() <= 10 ==> listing_report(items).len() == items.len(),
        items.len() > 10 ==> listing_report(items).len() == 11,
        forall|i: int| 0 <= i < listing_report(items).len() && i < 10 && i < items.len()
            ==> #[trigger] listing_report(items)[i] == "  "@ + items[i],
{
}

} // verus!
