//! The Makefile that megaton-hammer writes for a module.
use vstd::prelude::*;

use crate::clean::megaton_target;
use crate::config::Module;
use crate::flags::{prefixed, strs};
use crate::path::{join_path, joined_path};
use crate::text::{join_strings, joined, push_str, str_eq};

verus! {

/// Removes the outputs of the project at `root`: all of them for the profile
/// `none`, else those of the profile. Gives the directory to remove.
pub fn clean(root: &str, profile: &str) -> (r: String)
    ensures
        r@ == if profile@ == "none"@ { megaton_target(root@) } else { joined_path(megaton_target(root@), profile@) },
{
    let t = join_path(root, "target");
    let target = join_path(t.as_str(), "megaton");
    if str_eq(profile, "none") {
        target
    } else {
        join_path(target.as_str(), profile)
    }
}

/// The `make` section of the configuration, for the profile being built
#[derive(Debug, Clone)]
pub struct Make {
    /// The entry point of the module
    pub entry: Option<String>,
    /// Extra variables, as (name, value)
    pub extra: Vec<(String, String)>,
    /// Source directories, relative to the project root
    pub sources: Vec<String>,
    /// Include directories, relative to the project root
    pub includes: Vec<String>,
    /// Linker scripts, relative to the project root
    pub ld_scripts: Vec<String>,
    /// Preprocessor definitions
    pub defines: Vec<String>,
    /// Leave out the default flags and libraries
    pub no_default_flags: Option<bool>,
}

/// The configuration of a megaton-hammer project
#[derive(Debug)]
pub struct MegatonConfig {
    /// The module
    pub module: Module,
    /// The `make` section, for the profile being built
    pub make: Make,
}

/// The Makefile cannot be made
#[derive(Debug, Clone, Copy, PartialEq, Eq, Structural)]
pub enum MakeError {
    /// The configuration names no entry point
    NoEntryPoint,
}

/// The text of the Makefile, with each field put in its place.
pub open spec fn makefile_text(
    name: Seq<char>,
    entry: Seq<char>,
    title_id: Seq<char>,
    extra: Seq<char>,
    sources: Seq<char>,
    includes: Seq<char>,
    defines: Seq<char>,
    arch_flags: Seq<char>,
    cflags: Seq<char>,
    cxxflags: Seq<char>,
    asflags: Seq<char>,
    ld_scripts: Seq<char>,
    ldflags: Seq<char>,
    libs: Seq<char>,
) -> Seq<char> {
    r#"
# GENERATED BY MEGATON HAMMER
include $(DEVKITPRO)/libnx/switch_rules

MEGATON_MODULE_NAME := "#@
        + name
        + r#"
MEGATON_MODULE_ENTRY := "#@
        + entry
        + r#"
MEGATON_MODULE_TITLE_ID := 0x"#@
        + title_id
        + r#"
MEGATON_ROOT := ../../../../

TARGET := $(MEGATON_MODULE_NAME)

DEFAULT_ARCH_FLAGS := \
    -march=armv8-a+crc+crypto \
    -mtune=cortex-a57 \
    -mtp=soft \
    -fPIC \
    -fvisibility=hidden" \

DEFAULT_CFLAGS := \
    -g \
    -Wall \
    -Werror \
    -ffunction-sections \
    -fdata-sections \
    -O3 \

DEFAULT_CXXFLAGS := \
    -fno-rtti \
    -fomit-frame-pointer \
    -fno-exceptions \
    -fno-asynchronous-unwind-tables \
    -fno-unwind-tables \
    -enable-libstdcxx-allocator=new \
    -fpermissive \
    -std=c++20 \

DEFAULT_ASFLAGS := -g
DEFAULT_LDFLAGS := \
    -g \
    -Wl,-Map,$(TARGET).map \
    -nodefaultlibs \
    -nostartfiles \
    -Wl,--shared \
    -Wl,--export-dynamic \
    -Wl,-z,nodynamic-undefined-weak \
    -Wl,--gc-sections \
    -Wl,--build-id=sha1 \
    -Wl,--nx-module-name \
    -Wl,-init=$(MEGATON_MODULE_ENTRY) \
    -Wl,--exclude-libs=ALL \

DEFAULT_LIBS := -lgcc -lstdc++ -u malloc

"#@
        + extra
        + r#"

SOURCES          := $(SOURCES) "#@
        + sources
        + r#"
ALL_SOURCE_DIRS  := $(ALL_SOURCE_DIRS) $(foreach dir,$(SOURCES),$(shell find $(dir) -type d))
VPATH            := $(VPATH) $(foreach dir,$(ALL_SOURCES_DIRS),$(CURDIR)/$(dir))

INCLUDES         := $(INCLUDES) "#@
        + includes
        + r#"
LIBDIRS          := $(LIBDIRS) $(PORTLIBS) $(LIBNX)
INCLUDE_FLAGS    := $(foreach dir,$(INCLUDES),-I$(CURDIR)/$(dir)) $(foreach dir,$(LIBDIRS),-I$(dir)/include)

DEFINES          := $(DEFINES) "#@
        + defines
        + r#"

ARCH_FLAGS       := $(ARCH_FLAGS) "#@
        + arch_flags
        + r#"
CFLAGS           := $(CFLAGS) $(ARCH_FLAGS) $(DEFINES) $(INCLUDE) "#@
        + cflags
        + r#"
CXXFLAGS         := $(CFLAGS) $(CXXFLAGS) "#@
        + cxxflags
        + r#"
ASFLAGS          := $(ASFLAGS) $(ARCH_FLAGS) "#@
        + asflags
        + r#"

LD_SCRIPTS       := "#@
        + ld_scripts
        + r#"
LD_SCRIPTS_FLAGS := $(foreach ld,$(LD_SCRIPTS),-Wl,-T,$(CURDIR)/$(ld))
LD               := $(CXX)
LDFLAGS          := $(LDFLAGS) $(ARCH_FLAGS) $(LD_SCRIPTS_FLAGS) "#@
        + ldflags
        + r#"
LIBS             := $(LIBS) "#@
        + libs
        + r#"
LIBPATHS         := $(LIBPATHS) $(foreach dir,$(LIBDIRS),-L$(dir)/lib) 

DEPSDIR          ?= .
CFILES           := $(foreach dir,$(ALL_SOURCES_DIRS),$(notdir $(wildcard $(dir)/*.c)))
CPPFILES         := $(foreach dir,$(ALL_SOURCES_DIRS),$(notdir $(wildcard $(dir)/*.cpp)))
SFILES           := $(foreach dir,$(ALL_SOURCES_DIRS),$(notdir $(wildcard $(dir)/*.s)))
OFILES           := $(CPPFILES:.cpp=.o) $(CFILES:.c=.o) $(SFILES:.s=.o)
DFILES           := $(OFILES:.o=.d)

$(TARGET).nso: $(TARGET).elf
$(TARGET).elf: $(OFILES) $(LD_SCRIPTS)

-include $(DFILES)

"#@
}

/// Each path relative to the project root of the Makefile, space separated.
pub open spec fn rooted_list(xs: Seq<Seq<char>>) -> Seq<char> {
    joined(prefixed("$(MEGATON_ROOT)"@, xs), " "@)
}

/// The extra variables, one `name := value` per line.
pub open spec fn extra_section(extra: Seq<(String, String)>) -> Seq<char> {
    joined(extra.map_values(|p: (String, String)| p.0@ + " := "@ + p.1@), "\n"@)
}

/// A default, unless default flags are left out.
pub open spec fn default_or_empty(no_default_flags: Option<bool>, default: Seq<char>) -> Seq<char> {
    if no_default_flags == Some(true) {
        ""@
    } else {
        default
    }
}

/// The Makefile of a configuration whose entry point is `entry`.
pub open spec fn makefile_of(config: MegatonConfig, entry: Seq<char>) -> Seq<char> {
    let m = config.make;
    makefile_text(
        config.module.name@,
        entry,
        crate::hex::hex16(config.module.title_id),
        extra_section(m.extra@),
        rooted_list(strs(m.sources)),
        rooted_list(strs(m.includes)),
        joined(prefixed("-D"@, strs(m.defines)), " "@),
        default_or_empty(m.no_default_flags, "$(DEFAULT_ARCH_FLAGS)"@),
        default_or_empty(m.no_default_flags, "$(DEFAULT_CFLAGS)"@),
        default_or_empty(m.no_default_flags, "$(DEFAULT_CXXFLAGS)"@),
        default_or_empty(m.no_default_flags, "$(DEFAULT_ASFLAGS)"@),
        rooted_list(strs(m.ld_scripts)),
        default_or_empty(m.no_default_flags, "$(DEFAULT_LDFLAGS)"@),
        default_or_empty(m.no_default_flags, "$(DEFAULT_LIBS)"@),
    )
}

/// The strings of `xs`, each with `prefix` in front, space separated.
fn prefixed_list(prefix: &str, xs: &Vec<String>) -> (r: String)
    ensures
        r@ == joined(prefixed(prefix@, strs(*xs)), " "@),
{
    let p = crate::flags::prefix_all(prefix, xs);
    join_strings(&p, " ")
}

/// The extra variables, one `name := value` per line.
fn extra_lines(extra: &Vec<(String, String)>) -> (r: String)
    ensures
        r@ == extra_section(extra@),
{
    let mut lines: Vec<String> = Vec::new();
    let mut i: usize = 0;
    while i < extra.len()
        invariant
            i <= extra@.len(),
            lines@.len() == i,
            forall|k: int| 0 <= k < i ==> #[trigger] lines@[k]@ == extra@[k].0@ + " := "@ + extra@[k].1@,
        decreases extra@.len() - i,
    {
        let mut line = extra[i].0.clone();
        push_str(&mut line, " := ");
        push_str(&mut line, extra[i].1.as_str());
        lines.push(line);
        i += 1;
    }
    assert(strs(lines) =~= extra@.map_values(|p: (String, String)| p.0@ + " := "@ + p.1@));
    join_strings(&lines, "\n")
}

/// A default, unless default flags are left out.
fn default_unless(no_default_flags: Option<bool>, default: &str) -> (r: String)
    ensures
        r@ == default_or_empty(no_default_flags, default@),
{
    match no_default_flags {
        Some(true) => "".to_owned(),
        _ => default.to_owned(),
    }
}

impl MegatonConfig {
    /// Create the Makefile content from the config; fails when it names no
    /// entry point.
    pub fn create_makefile(&self) -> (r: Result<String, MakeError>)
        ensures
            match self.make.entry {
                None => r == Err::<String, MakeError>(MakeError::NoEntryPoint),
                Some(e) => r is Ok && r->Ok_0@ == makefile_of(*self, e@),
            },
    {
        let make = &self.make;
        let entry = match &make.entry {
            Some(e) => e,
            None => {
                return Err(MakeError::NoEntryPoint);
            },
        };
        let f = MakefileFields {
            name: self.module.name.clone(),
            entry: entry.clone(),
            title_id: self.module.title_id_hex(),
            extra: extra_lines(&make.extra),
            sources: prefixed_list("$(MEGATON_ROOT)", &make.sources),
            includes: prefixed_list("$(MEGATON_ROOT)", &make.includes),
            defines: prefixed_list("-D", &make.defines),
            arch_flags: default_unless(make.no_default_flags, "$(DEFAULT_ARCH_FLAGS)"),
            cflags: default_unless(make.no_default_flags, "$(DEFAULT_CFLAGS)"),
            cxxflags: default_unless(make.no_default_flags, "$(DEFAULT_CXXFLAGS)"),
            asflags: default_unless(make.no_default_flags, "$(DEFAULT_ASFLAGS)"),
            ld_scripts: prefixed_list("$(MEGATON_ROOT)", &make.ld_scripts),
            ldflags: default_unless(make.no_default_flags, "$(DEFAULT_LDFLAGS)"),
            libs: default_unless(make.no_default_flags, "$(DEFAULT_LIBS)"),
        };
        Ok(fill_makefile(&f))
    }
}

/// The text put in each place of the Makefile
struct MakefileFields {
    name: String,
    entry: String,
    title_id: String,
    extra: String,
    sources: String,
    includes: String,
    defines: String,
    arch_flags: String,
    cflags: String,
    cxxflags: String,
    asflags: String,
    ld_scripts: String,
    ldflags: String,
    libs: String,
}

/// The Makefile with the fields put in their places.
fn fill_makefile(f: &MakefileFields) -> (r: String)
    ensures
        r@ == makefile_text(
            f.name@,
            f.entry@,
            f.title_id@,
            f.extra@,
            f.sources@,
            f.includes@,
            f.defines@,
            f.arch_flags@,
            f.cflags@,
            f.cxxflags@,
            f.asflags@,
            f.ld_scripts@,
            f.ldflags@,
            f.libs@,
        ),
{
    let mut r = String::new();
    push_str(&mut r, r#"
# GENERATED BY MEGATON HAMMER
include $(DEVKITPRO)/libnx/switch_rules

MEGATON_MODULE_NAME := "#);
    push_str(&mut r, f.name.as_str());
    push_str(&mut r, r#"
MEGATON_MODULE_ENTRY := "#);
    push_str(&mut r, f.entry.as_str());
    push_str(&mut r, r#"
MEGATON_MODULE_TITLE_ID := 0x"#);
    push_str(&mut r, f.title_id.as_str());
    push_str(&mut r, r#"
MEGATON_ROOT := ../../../../

TARGET := $(MEGATON_MODULE_NAME)

DEFAULT_ARCH_FLAGS := \
    -march=armv8-a+crc+crypto \
    -mtune=cortex-a57 \
    -mtp=soft \
    -fPIC \
    -fvisibility=hidden" \

DEFAULT_CFLAGS := \
    -g \
    -Wall \
    -Werror \
    -ffunction-sections \
    -fdata-sections \
    -O3 \

DEFAULT_CXXFLAGS := \
    -fno-rtti \
    -fomit-frame-pointer \
    -fno-exceptions \
    -fno-asynchronous-unwind-tables \
    -fno-unwind-tables \
    -enable-libstdcxx-allocator=new \
    -fpermissive \
    -std=c++20 \

DEFAULT_ASFLAGS := -g
DEFAULT_LDFLAGS := \
    -g \
    -Wl,-Map,$(TARGET).map \
    -nodefaultlibs \
    -nostartfiles \
    -Wl,--shared \
    -Wl,--export-dynamic \
    -Wl,-z,nodynamic-undefined-weak \
    -Wl,--gc-sections \
    -Wl,--build-id=sha1 \
    -Wl,--nx-module-name \
    -Wl,-init=$(MEGATON_MODULE_ENTRY) \
    -Wl,--exclude-libs=ALL \

DEFAULT_LIBS := -lgcc -lstdc++ -u malloc

"#);
    push_str(&mut r, f.extra.as_str());
    push_str(&mut r, r#"

SOURCES          := $(SOURCES) "#);
    push_str(&mut r, f.sources.as_str());
    push_str(&mut r, r#"
ALL_SOURCE_DIRS  := $(ALL_SOURCE_DIRS) $(foreach dir,$(SOURCES),$(shell find $(dir) -type d))
VPATH            := $(VPATH) $(foreach dir,$(ALL_SOURCES_DIRS),$(CURDIR)/$(dir))

INCLUDES         := $(INCLUDES) "#);
    push_str(&mut r, f.includes.as_str());
    push_str(&mut r, r#"
LIBDIRS          := $(LIBDIRS) $(PORTLIBS) $(LIBNX)
INCLUDE_FLAGS    := $(foreach dir,$(INCLUDES),-I$(CURDIR)/$(dir)) $(foreach dir,$(LIBDIRS),-I$(dir)/include)

DEFINES          := $(DEFINES) "#);
    push_str(&mut r, f.defines.as_str());
    push_str(&mut r, r#"

ARCH_FLAGS       := $(ARCH_FLAGS) "#);
    push_str(&mut r, f.arch_flags.as_str());
    push_str(&mut r, r#"
CFLAGS           := $(CFLAGS) $(ARCH_FLAGS) $(DEFINES) $(INCLUDE) "#);
    push_str(&mut r, f.cflags.as_str());
    push_str(&mut r, r#"
CXXFLAGS         := $(CFLAGS) $(CXXFLAGS) "#);
    push_str(&mut r, f.cxxflags.as_str());
    push_str(&mut r, r#"
ASFLAGS          := $(ASFLAGS) $(ARCH_FLAGS) "#);
    push_str(&mut r, f.asflags.as_str());
    push_str(&mut r, r#"

LD_SCRIPTS       := "#);
    push_str(&mut r, f.ld_scripts.as_str());
    push_str(&mut r, r#"
LD_SCRIPTS_FLAGS := $(foreach ld,$(LD_SCRIPTS),-Wl,-T,$(CURDIR)/$(ld))
LD               := $(CXX)
LDFLAGS          := $(LDFLAGS) $(ARCH_FLAGS) $(LD_SCRIPTS_FLAGS) "#);
    push_str(&mut r, f.ldflags.as_str());
    push_str(&mut r, r#"
LIBS             := $(LIBS) "#);
    push_str(&mut r, f.libs.as_str());
    push_str(&mut r, r#"
LIBPATHS         := $(LIBPATHS) $(foreach dir,$(LIBDIRS),-L$(dir)/lib) 

DEPSDIR          ?= .
CFILES           := $(foreach dir,$(ALL_SOURCES_DIRS),$(notdir $(wildcard $(dir)/*.c)))
CPPFILES         := $(foreach dir,$(ALL_SOURCES_DIRS),$(notdir $(wildcard $(dir)/*.cpp)))
SFILES           := $(foreach dir,$(ALL_SOURCES_DIRS),$(notdir $(wildcard $(dir)/*.s)))
OFILES           := $(CPPFILES:.cpp=.o) $(CFILES:.c=.o) $(SFILES:.s=.o)
DFILES           := $(OFILES:.o=.d)

$(TARGET).nso: $(TARGET).elf
$(TARGET).elf: $(OFILES) $(LD_SCRIPTS)

-include $(DFILES)

"#);
    r
}

} // verus!
