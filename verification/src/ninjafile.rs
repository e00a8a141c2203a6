//! Writing a build.ninja file with `ninja_writer`: what the file holds is
//! modelled as a list of statements, and the text comes from the crate.
use vstd::prelude::*;

verus! {

/// A statement of a ninja file, as plain values.
pub enum NinjaStmt {
    /// `# text`
    Comment(Seq<char>),
    /// `name = value`
    Variable(Seq<char>, Seq<char>),
    /// A rule with its name and its variables in order (`command` first)
    Rule(Seq<char>, Seq<(Seq<char>, Seq<char>)>),
    /// An edge: its rule, outputs, inputs and implicit inputs
    Build(Seq<char>, Seq<Seq<char>>, Seq<Seq<char>>, Seq<Seq<char>>),
    /// `default` with the targets built by default
    Default(Seq<Seq<char>>),
}

#[verifier::external_type_specification]
#[verifier::external_body]
pub struct ExRule(ninja_writer::Rule);

/// A rule of `ninja_writer` not yet added to a file: its name and its
/// variables in order.
pub uninterp spec fn rule_parts(r: ninja_writer::Rule) -> (Seq<char>, Seq<(Seq<char>, Seq<char>)>);

/// The statements of a ninja file, in order.
pub uninterp spec fn ninja_stmts(f: NinjaFile) -> Seq<NinjaStmt>;

/// The names of the rules added to a ninja file, in order: the rules its
/// edges can use.
pub uninterp spec fn ninja_rule_names(f: NinjaFile) -> Seq<Seq<char>>;

/// The text `ninja_writer` gives for a file of these statements.
pub uninterp spec fn ninja_text(stmts: Seq<NinjaStmt>) -> Seq<char>;

/// `ninja_writer::Rule::new`: a rule whose only variable is its command.
#[verifier::external_body]
pub(crate) fn new_rule(name: &str, command: &str) -> (r: ninja_writer::Rule)
    ensures
        rule_parts(r) == (name@, seq![("command"@, command@)]),
{
    ninja_writer::Rule::new(name, command)
}

/// `ninja_writer::Variables::variable` on a rule: the variable is added
/// after the rule's others.
#[verifier::external_body]
pub(crate) fn rule_variable(r: ninja_writer::Rule, name: &str, value: &str) -> (out: ninja_writer::Rule)
    ensures
        rule_parts(out) == (rule_parts(r).0, rule_parts(r).1.push((name@, value@))),
{
    ninja_writer::Variables::variable(r, name, value)
}

/// A ninja file being written: the `ninja_writer::Ninja` and the handles of
/// the rules added to it, in order, which its edges are built from.
#[verifier::external_body]
pub struct NinjaFile {
    ninja: ninja_writer::Ninja,
    rules: Vec<ninja_writer::RuleRef>,
}

impl NinjaFile {
    /// `ninja_writer::Ninja::new`: a file with no statements.
    #[verifier::external_body]
    pub(crate) fn new() -> (r: Self)
        ensures
            ninja_stmts(r) == Seq::<NinjaStmt>::empty(),
            ninja_rule_names(r) == Seq::<Seq<char>>::empty(),
    {
        NinjaFile { ninja: ninja_writer::Ninja::new(), rules: Vec::new() }
    }

    /// `ninja_writer::Ninja::comment`: a comment statement is added.
    #[verifier::external_body]
    pub(crate) fn comment(&mut self, text: &str)
        ensures
            ninja_stmts(*final(self)) == ninja_stmts(*old(self)).push(NinjaStmt::Comment(text@)),
            ninja_rule_names(*final(self)) == ninja_rule_names(*old(self)),
    {
        self.ninja.comment(text);
    }

    /// `ninja_writer::Ninja::variable`: a variable statement is added.
    #[verifier::external_body]
    pub(crate) fn variable(&mut self, name: &str, value: &str)
        ensures
            ninja_stmts(*final(self)) == ninja_stmts(*old(self)).push(NinjaStmt::Variable(name@, value@)),
            ninja_rule_names(*final(self)) == ninja_rule_names(*old(self)),
    {
        self.ninja.variable(name, value);
    }

    /// `ninja_writer::Rule::add_to`: the rule is added as a statement, and its
    /// handle kept for the edges.
    #[verifier::external_body]
    pub(crate) fn add_rule(&mut self, r: ninja_writer::Rule)
        ensures
            ninja_stmts(*final(self)) == ninja_stmts(*old(self)).push(NinjaStmt::Rule(rule_parts(r).0, rule_parts(r).1)),
            ninja_rule_names(*final(self)) == ninja_rule_names(*old(self)).push(rule_parts(r).0),
    {
        self.rules.push(r.add_to(&self.ninja));
    }

    /// `ninja_writer::RuleRef::build` on the rule added as the `rule`-th one,
    /// with `BuildVariables::with` and `with_implicit`: an edge statement is
    /// added.
    #[verifier::external_body]
    pub(crate) fn edge(&mut self, rule: usize, outputs: &Vec<String>, inputs: &Vec<String>, implicit: &Vec<String>)
        requires
            rule < ninja_rule_names(*old(self)).len(),
        ensures
            ninja_stmts(*final(self)) == ninja_stmts(*old(self)).push(
                NinjaStmt::Build(
                    ninja_rule_names(*old(self))[rule as int],
                    outputs@.map_values(|s: String| s@),
                    inputs@.map_values(|s: String| s@),
                    implicit@.map_values(|s: String| s@),
                ),
            ),
            ninja_rule_names(*final(self)) == ninja_rule_names(*old(self)),
    {
        let b = self.rules[rule].build(outputs);
        let b = ninja_writer::BuildVariables::with(b, inputs);
        ninja_writer::BuildVariables::with_implicit(b, implicit);
    }

    /// `ninja_writer::Ninja::defaults`: a default statement is added.
    #[verifier::external_body]
    pub(crate) fn defaults(&mut self, outputs: &Vec<String>)
        ensures
            ninja_stmts(*final(self)) == ninja_stmts(*old(self)).push(
                NinjaStmt::Default(outputs@.map_values(|s: String| s@)),
            ),
            ninja_rule_names(*final(self)) == ninja_rule_names(*old(self)),
    {
        self.ninja.defaults(outputs);
    }

    /// The text of the file (`Display` of `ninja_writer::Ninja`).
    #[verifier::external_body]
    pub(crate) fn render(&self) -> (r: String)
        ensures
            r@ == ninja_text(ninja_stmts(*self)),
    {
        self.ninja.to_string()
    }
}

} // verus!
