//! Decisions of the printing system: color switches for other tools and the
//! shaping of progress lines streamed from a child process.
use vstd::prelude::*;

use crate::text::{from_chars, push_str, sub_string, to_chars};
use crate::utf8::{byte_prefix_chars, chars_before, is_char_boundary, utf8_len};

verus! {

/// The value of the `--color` switch handed to other tools.
pub open spec fn color_flag_spec(colored: bool) -> Seq<char> {
    if colored { "always"@ } else { "never"@ }
}

/// The value of git's `-c` switch that sets its color.
pub open spec fn git_color_flag_spec(colored: bool) -> Seq<char> {
    if colored { "color.ui=always"@ } else { "color.ui=never"@ }
}

/// Get the color switch value for the `--color` flag
/// for various tools, given whether colored printing is enabled
pub fn color_flag(colored: bool) -> (r: &'static str)
    ensures
        r@ == color_flag_spec(colored),
{
    if colored {
        "always"
    } else {
        "never"
    }
}

/// Get the git color switch value for the `-c` flag, given whether
/// colored printing is enabled
pub fn git_color_flag(colored: bool) -> (r: &'static str)
    ensures
        r@ == git_color_flag_spec(colored),
{
    if colored {
        "color.ui=always"
    } else {
        "color.ui=never"
    }
}

/// What printing is set to: verbose lines shown or not, colors on or off
#[derive(Debug, Clone, Copy, PartialEq, Eq, Structural)]
pub struct PrintSettings {
    /// Verbose lines are printed
    pub verbose: bool,
    /// Colored printing is enabled
    pub colored: bool,
}

/// A change of the print settings
#[derive(Debug, Clone, Copy, PartialEq, Eq, Structural)]
pub enum PrintChange {
    /// Enable verbose printing
    VerboseOn,
    /// Disable colored printing
    ColorOff,
    /// Keep colored printing only when stderr (whether it is a terminal is
    /// given) is a terminal
    AutoColor(bool),
}

/// The settings after one change.
pub open spec fn changed(s: PrintSettings, c: PrintChange) -> PrintSettings {
    match c {
        PrintChange::VerboseOn => PrintSettings { verbose: true, ..s },
        PrintChange::ColorOff => PrintSettings { colored: false, ..s },
        PrintChange::AutoColor(terminal) => if terminal {
            s
        } else {
            PrintSettings { colored: false, ..s }
        },
    }
}

/// The settings after the changes, in order.
pub open spec fn after_changes(s: PrintSettings, cs: Seq<PrintChange>) -> PrintSettings
    decreases cs.len(),
{
    if cs.len() == 0 {
        s
    } else {
        changed(after_changes(s, cs.drop_last()), cs.last())
    }
}

impl PrintSettings {
    /// The settings a program starts with: not verbose, colored.
    pub fn new() -> (r: Self)
        ensures
            !r.verbose,
            r.colored,
    {
        PrintSettings { verbose: false, colored: true }
    }

    /// Enable verbose printing
    pub fn verbose_on(&mut self)
        ensures
            *final(self) == changed(*old(self), PrintChange::VerboseOn),
    {
        self.verbose = true;
    }

    /// Disable colored printing
    pub fn color_off(&mut self)
        ensures
            *final(self) == changed(*old(self), PrintChange::ColorOff),
    {
        self.colored = false;
    }

    /// Keep colored printing only if stderr is a terminal
    pub fn auto_color(&mut self, stderr_is_terminal: bool)
        ensures
            *final(self) == changed(*old(self), PrintChange::AutoColor(stderr_is_terminal)),
    {
        if !stderr_is_terminal {
            self.color_off();
        }
    }

    /// Apply a change
    pub fn apply(&mut self, c: PrintChange)
        ensures
            *final(self) == changed(*old(self), c),
    {
        match c {
            PrintChange::VerboseOn => self.verbose_on(),
            PrintChange::ColorOff => self.color_off(),
            PrintChange::AutoColor(terminal) => self.auto_color(terminal),
        }
    }

    /// Check if colored printing is enabled
    pub fn is_colored(&self) -> (r: bool)
        ensures
            r == self.colored,
    {
        self.colored
    }

    /// Check if verbose printing is enabled
    pub fn is_verbose(&self) -> (r: bool)
        ensures
            r == self.verbose,
    {
        self.verbose
    }

    /// Get the color switch value for the `--color` flag for various tools
    pub fn color_flag(&self) -> (r: &'static str)
        ensures
            r@ == color_flag_spec(self.colored),
    {
        color_flag(self.colored)
    }

    /// Get the git color switch value for the `-c` flag
    pub fn git_color_flag(&self) -> (r: &'static str)
        ensures
            r@ == git_color_flag_spec(self.colored),
    {
        git_color_flag(self.colored)
    }
}

/// Once colored printing is off, it stays off whatever changes follow: every
/// later color switch is `never` (and `color.ui=never` for git).
pub proof fn lemma_color_off_stays_off(s: PrintSettings, later: Seq<PrintChange>)
    ensures
        !after_changes(changed(s, PrintChange::ColorOff), later).colored,
        color_flag_spec(after_changes(changed(s, PrintChange::ColorOff), later).colored) == "never"@,
        git_color_flag_spec(after_changes(changed(s, PrintChange::ColorOff), later).colored) == "color.ui=never"@,
    decreases later.len(),
{
    if later.len() > 0 {
        lemma_color_off_stays_off(s, later.drop_last());
    }
}

/// The width a tag takes in a status line.
pub open spec fn tag_width() -> nat {
    12
}

/// Writes the progress lines of a child process under a tag
pub struct ProgressWriter {
    /// The status shown in front of each line
    pub tag: String,
    /// The width of the terminal (0 when stderr is not a terminal)
    pub term_width: usize,
}

/// A progress message cut to `max` bytes: cut to `max - 3` bytes followed by
/// `...` when it is longer.
pub open spec fn progress_text(line: Seq<char>, max: nat) -> Seq<char> {
    if utf8_len(line) > max {
        line.take(chars_before(line, (max - 3) as nat)) + "..."@
    } else {
        line
    }
}

impl ProgressWriter {
    /// Progress lines are shown in place only when the terminal is wider than
    /// a tag, a space, a message of four bytes and a space.
    pub open spec fn shows_progress(&self) -> bool {
        self.term_width >= tag_width() + 1 + 4 + 1
    }

    /// Whether progress lines are shown in place (see
    /// [`shows_progress`](Self::shows_progress)).
    pub fn is_terminal(&self) -> (r: bool)
        ensures
            r == self.shows_progress(),
    {
        self.term_width >= 12 + 1 + 4 + 1
    }

    /// The longest message shown after the tag of a progress line.
    pub open spec fn max_message(&self) -> nat {
        (self.term_width - tag_width() - 2) as nat
    }

    /// The message of a progress line, cut to fit the terminal; `None` when
    /// progress lines are not shown.
    pub fn progress_message(&self, line: &str) -> (r: Option<String>)
        requires
            self.shows_progress() && utf8_len(line@) > self.max_message() ==> is_char_boundary(
                line@,
                (self.max_message() - 3) as nat,
            ),
        ensures
            !self.shows_progress() ==> r is None,
            self.shows_progress() ==> r is Some && r->0@ == progress_text(line@, self.max_message()),
    {
        if !self.is_terminal() {
            return None;
        }
        let max = self.term_width - 12 - 2;
        let v = to_chars(line);
        if utf8_len_exceeds(&v, max) {
            let k = match byte_prefix_chars(&v, max - 3) {
                Some(k) => k,
                None => {
                    return Some(line.to_owned());
                },
            };
            let mut r = sub_string(&v, 0, k);
            push_str(&mut r, "...");
            assert(v@.subrange(0, k as int) =~= v@.take(k as int));
            Some(r)
        } else {
            Some(line.to_owned())
        }
    }
}

/// `s` padded with spaces in front to `width` characters (what `{:>width}`
/// prints); as it is when it is that long already.
pub open spec fn right_aligned(s: Seq<char>, width: nat) -> Seq<char> {
    if s.len() < width {
        Seq::new((width - s.len()) as nat, |i: int| ' ') + s
    } else {
        s
    }
}

/// `s` right-aligned to `width` characters.
fn align_right(s: &str, width: usize) -> (r: String)
    ensures
        r@ == right_aligned(s@, width as nat),
{
    let n = s.unicode_len();
    let mut r = String::new();
    let mut k: usize = n;
    while k < width
        invariant
            n == s@.len(),
            n <= k,
            k <= width || n >= width,
            n >= width ==> k == n,
            r@ == Seq::new((k - n) as nat, |i: int| ' '),
        decreases width - k,
    {
        r.push(' ');
        assert(r@ =~= Seq::new((k + 1 - n) as nat, |i: int| ' '));
        k += 1;
    }
    let ghost pad = r@;
    push_str(&mut r, s);
    if n < width {
        assert(k == width);
        assert(pad =~= Seq::new((width - s@.len()) as nat, |i: int| ' '));
    } else {
        assert(pad =~= Seq::<char>::empty());
        assert(r@ =~= s@);
    }
    r
}

/// The escape sequence that clears the terminal line and returns to its start.
pub open spec fn clear_line() -> Seq<char> {
    "\x1b[1K\r"@
}

/// The tag of a progress line: right-aligned to 11 characters, in bold cyan
/// when colored, then `> `.
pub open spec fn progress_tag(tag: Seq<char>, colored: bool) -> Seq<char> {
    (if colored {
        "\x1b[1;36m"@ + right_aligned(tag, 11) + "\x1b[0m"@
    } else {
        right_aligned(tag, 11)
    }) + "> "@
}

/// The tag of a permanent line: right-aligned to 12 characters, in bold green
/// when colored, then a space.
pub open spec fn perm_tag(tag: Seq<char>, colored: bool) -> Seq<char> {
    (if colored {
        "\x1b[1;32m"@ + right_aligned(tag, 12) + "\x1b[0m"@
    } else {
        right_aligned(tag, 12)
    }) + " "@
}

impl ProgressWriter {
    /// The text written for a progress line: the line cleared, the tag, and
    /// the message cut to fit; `None` when progress lines are not shown.
    pub fn progress_line(&self, line: &str, colored: bool) -> (r: Option<String>)
        requires
            self.shows_progress() && utf8_len(line@) > self.max_message() ==> is_char_boundary(
                line@,
                (self.max_message() - 3) as nat,
            ),
        ensures
            !self.shows_progress() ==> r is None,
            self.shows_progress() ==> r is Some && r->0@ == clear_line() + progress_tag(self.tag@, colored)
                + progress_text(line@, self.max_message()),
    {
        let message = match self.progress_message(line) {
            Some(m) => m,
            None => {
                return None;
            },
        };
        let mut out = "\x1b[1K\r".to_owned();
        if colored {
            push_str(&mut out, "\x1b[1;36m");
            push_str(&mut out, align_right(self.tag.as_str(), 11).as_str());
            push_str(&mut out, "\x1b[0m");
        } else {
            push_str(&mut out, align_right(self.tag.as_str(), 11).as_str());
        }
        push_str(&mut out, "> ");
        push_str(&mut out, message.as_str());
        Some(out)
    }

    /// The text written for a permanent line: the line cleared first when
    /// progress lines are shown, then the tag, the line and a newline.
    pub fn perm_line(&self, line: &str, colored: bool) -> (r: String)
        ensures
            r@ == (if self.shows_progress() { clear_line() } else { seq![] }) + perm_tag(self.tag@, colored) + line@
                + "\n"@,
    {
        let mut out = String::new();
        if self.is_terminal() {
            push_str(&mut out, "\x1b[1K\r");
        }
        if colored {
            push_str(&mut out, "\x1b[1;32m");
            push_str(&mut out, align_right(self.tag.as_str(), 12).as_str());
            push_str(&mut out, "\x1b[0m");
        } else {
            push_str(&mut out, align_right(self.tag.as_str(), 12).as_str());
        }
        push_str(&mut out, " ");
        push_str(&mut out, line);
        push_str(&mut out, "\n");
        assert(out@ =~= (if self.shows_progress() { clear_line() } else { seq![] }) + perm_tag(self.tag@, colored) + line@
            + "\n"@);
        out
    }
}

/// Whether `v` takes more than `n` bytes in UTF-8.
fn utf8_len_exceeds(v: &Vec<char>, n: usize) -> (r: bool)
    requires
        n <= usize::MAX - 4,
    ensures
        r == (utf8_len(v@) > n),
{
    let mut k: usize = 0;
    let mut width: usize = 0;
    assert(v@.take(0) =~= seq![]);
    while k < v.len() && width <= n
        invariant
            n <= usize::MAX - 4,
            k <= v@.len(),
            width == utf8_len(v@.take(k as int)),
            width <= n + 4,
        decreases v@.len() - k,
    {
        proof {
            crate::utf8::lemma_utf8_len_take(v@, k as int);
        }
        width = width + crate::utf8::char_width(v[k]);
        k += 1;
    }
    proof {
        assert(v@.take(v@.len() as int) =~= v@);
        crate::utf8::lemma_utf8_len_mono(v@, k as int, v@.len() as int);
    }
    width > n
}

/// What to print after taking in a piece of a child's output
#[derive(Debug, Clone, PartialEq, Eq)]
pub enum ProgressOutput {
    /// Nothing yet
    Nothing,
    /// A progress line, to be shown in place
    Progress(String),
    /// A line to keep
    Perm(String),
}

/// The character a byte of a child's output is shown as: itself when it is
/// ASCII, else `?`.
pub open spec fn shown_char(b: u8) -> char {
    if b < 128 {
        b as char
    } else {
        '?'
    }
}

/// Turns the output of a child process, one grapheme at a time, into progress
/// lines and permanent lines
pub struct Progress {
    writer: ProgressWriter,
    buf: Vec<char>,
}

impl Progress {
    /// Where the lines go.
    pub closed spec fn lines_to(&self) -> ProgressWriter {
        self.writer
    }

    /// Where the lines go.
    pub fn writer(&self) -> (r: &ProgressWriter)
        ensures
            *r == self.lines_to(),
    {
        &self.writer
    }

    /// The text of the line not finished yet.
    pub closed spec fn pending(&self) -> Seq<char> {
        self.buf@
    }

    /// Nothing taken in yet.
    pub fn new(tag: &str, term_width: usize) -> (r: Self)
        ensures
            r.lines_to().tag@ == tag@,
            r.lines_to().term_width == term_width,
            r.pending() == Seq::<char>::empty(),
    {
        Progress { writer: ProgressWriter { tag: tag.to_owned(), term_width }, buf: Vec::new() }
    }

    /// Take in a grapheme of output, given its first byte (`None` for an empty
    /// one): a carriage return ends a progress line, a newline a permanent line
    /// (neither ends an empty line), and anything else adds a character.
    pub fn feed(&mut self, first_byte: Option<u8>) -> (r: ProgressOutput)
        ensures
            final(self).lines_to() == old(self).lines_to(),
            match first_byte {
                None => r == ProgressOutput::Nothing && final(self).pending() == old(self).pending(),
                Some(b) => if b == 13 || b == 10 {
                    if old(self).pending().len() == 0 {
                        r == ProgressOutput::Nothing && final(self).pending() == old(self).pending()
                    } else {
                        &&& final(self).pending() == Seq::<char>::empty()
                        &&& b == 13 ==> (r matches ProgressOutput::Progress(s) && s@ == old(self).pending())
                        &&& b == 10 ==> (r matches ProgressOutput::Perm(s) && s@ == old(self).pending())
                    }
                } else {
                    r == ProgressOutput::Nothing && final(self).pending() == old(self).pending().push(shown_char(b))
                },
            },
    {
        match first_byte {
            None => ProgressOutput::Nothing,
            Some(b) => {
                if b == 13 || b == 10 {
                    if self.buf.len() == 0 {
                        return ProgressOutput::Nothing;
                    }
                    let line = from_chars(self.buf.as_slice());
                    self.buf = Vec::new();
                    if b == 13 {
                        ProgressOutput::Progress(line)
                    } else {
                        ProgressOutput::Perm(line)
                    }
                } else {
                    let c: char = if b < 128 {
                        b as char
                    } else {
                        '?'
                    };
                    self.buf.push(c);
                    ProgressOutput::Nothing
                }
            },
        }
    }

    /// The line left when the output ends, if it is not empty.
    pub fn finish(&self) -> (r: Option<String>)
        ensures
            self.pending().len() == 0 ==> r is None,
            self.pending().len() > 0 ==> r is Some && r->0@ == self.pending(),
    {
        if self.buf.len() == 0 {
            None
        } else {
            Some(from_chars(self.buf.as_slice()))
        }
    }
}

} // verus!
