//! The in-memory ninja build graph and its text emission.

use vstd::prelude::*;
use vstd::string::*;

verus! {

/// A ninja build specification.
pub struct Spec {
    /// Variables to include in the ninja build spec.
    pub variables: Vec<Variable>,
    /// Rules to include in the ninja build spec.
    pub rules: Vec<RuleDefinition>,
    /// Statements to include in the ninja build spec.
    pub statements: Vec<BuildStatement>,
}

/// The fixed rule set of the generated build file.
pub enum Rules {
    /// Used for compiling kernel modules.
    ModCompile,
    /// Used for linking kernel modules.
    ModLink,
    /// Used for linking genunix.
    GenunixLink,
}

/// A ninja variable.
pub struct Variable {
    /// Name of the variable.
    pub name: String,
    /// Value of the variable.
    pub value: String,
}

/// A ninja rule definition.
pub struct RuleDefinition {
    /// Name of the rule.
    pub name: String,
    /// Command text.
    pub command: String,
}

/// A ninja build statement.
pub struct BuildStatement {
    /// Explicit inputs.
    pub input: String,
    /// What to produce.
    pub output: String,
    /// What build rule to use.
    pub rule: String,
    /// Optional variables for this specific build statement.
    pub variables: Vec<Variable>,
    /// Optional implicit dependencies.
    pub implicit_deps: Vec<String>,
}

/// Mathematical model of a [`Variable`].
#[verifier::ext_equal]
pub struct VariableV {
    pub name: Seq<char>,
    pub value: Seq<char>,
}

/// Mathematical model of a [`RuleDefinition`].
#[verifier::ext_equal]
pub struct RuleDefinitionV {
    pub name: Seq<char>,
    pub command: Seq<char>,
}

/// Mathematical model of a [`BuildStatement`].
#[verifier::ext_equal]
pub struct BuildStatementV {
    pub input: Seq<char>,
    pub output: Seq<char>,
    pub rule: Seq<char>,
    pub variables: Seq<VariableV>,
    pub implicit_deps: Seq<Seq<char>>,
}

/// Mathematical model of a [`Spec`].
#[verifier::ext_equal]
pub struct SpecV {
    pub variables: Seq<VariableV>,
    pub rules: Seq<RuleDefinitionV>,
    pub statements: Seq<BuildStatementV>,
}

impl View for Variable {
    type V = VariableV;

    open spec fn view(&self) -> VariableV {
        VariableV { name: self.name@, value: self.value@ }
    }
}

impl DeepView for Variable {
    type V = VariableV;

    open spec fn deep_view(&self) -> VariableV {
        self.view()
    }
}

impl View for RuleDefinition {
    type V = RuleDefinitionV;

    open spec fn view(&self) -> RuleDefinitionV {
        RuleDefinitionV { name: self.name@, command: self.command@ }
    }
}

impl DeepView for RuleDefinition {
    type V = RuleDefinitionV;

    open spec fn deep_view(&self) -> RuleDefinitionV {
        self.view()
    }
}

impl View for BuildStatement {
    type V = BuildStatementV;

    open spec fn view(&self) -> BuildStatementV {
        BuildStatementV {
            input: self.input@,
            output: self.output@,
            rule: self.rule@,
            variables: self.variables.deep_view(),
            implicit_deps: self.implicit_deps.deep_view(),
        }
    }
}

impl DeepView for BuildStatement {
    type V = BuildStatementV;

    open spec fn deep_view(&self) -> BuildStatementV {
        self.view()
    }
}

impl View for Spec {
    type V = SpecV;

    open spec fn view(&self) -> SpecV {
        SpecV {
            variables: self.variables.deep_view(),
            rules: self.rules.deep_view(),
            statements: self.statements.deep_view(),
        }
    }
}

/// The name of each fixed rule, as it appears in the build file.
pub open spec fn rule_name(r: Rules) -> Seq<char> {
    match r {
        Rules::ModCompile => "cc_kernel"@,
        Rules::ModLink => "ld_kmod"@,
        Rules::GenunixLink => "ld_genunix"@,
    }
}

/// Text of one variable assignment line: `name = value`.
pub open spec fn variable_text(v: VariableV) -> Seq<char> {
    v.name + " = "@ + v.value + "\n"@
}

/// Concatenated text of a sequence of variable assignment lines.
pub open spec fn variables_text(vs: Seq<VariableV>) -> Seq<char>
    decreases vs.len(),
{
    if vs.len() == 0 {
        Seq::<char>::empty()
    } else {
        variables_text(vs.drop_last()) + variable_text(vs.last())
    }
}

/// Text of one rule definition: a `rule` header line and an indented command.
pub open spec fn rule_text(r: RuleDefinitionV) -> Seq<char> {
    "rule "@ + r.name + "\n  command = "@ + r.command + "\n"@
}

/// Concatenated text of a sequence of rule definitions.
pub open spec fn rules_text(rs: Seq<RuleDefinitionV>) -> Seq<char>
    decreases rs.len(),
{
    if rs.len() == 0 {
        Seq::<char>::empty()
    } else {
        rules_text(rs.drop_last()) + rule_text(rs.last())
    }
}

/// Concatenated text of a build statement's variable lines, each indented.
pub open spec fn statement_variables_text(vs: Seq<VariableV>) -> Seq<char>
    decreases vs.len(),
{
    if vs.len() == 0 {
        Seq::<char>::empty()
    } else {
        statement_variables_text(vs.drop_last()) + "  "@ + variable_text(vs.last())
    }
}

/// Text of one build statement: the `build` line and its variable lines.
pub open spec fn statement_text(b: BuildStatementV) -> Seq<char> {
    "build "@ + b.output + ": "@ + b.rule + " "@ + b.input + "\n"@
        + statement_variables_text(b.variables)
}

/// Concatenated text of a sequence of build statements.
pub open spec fn statements_text(bs: Seq<BuildStatementV>) -> Seq<char>
    decreases bs.len(),
{
    if bs.len() == 0 {
        Seq::<char>::empty()
    } else {
        statements_text(bs.drop_last()) + statement_text(bs.last())
    }
}

/// Full text of a build specification: variables, then rules, then
/// statements, in that fixed section order.
pub open spec fn spec_text(s: SpecV) -> Seq<char> {
    variables_text(s.variables) + rules_text(s.rules) + statements_text(s.statements)
}

/// The process-constant compile-flag string for kernel objects.
pub open spec fn kernel_cflags_text() -> Seq<char> {
    "-std=gnu99 -O3 -g -gdwarf-2 -gstrict-dwarf -m64 -mcmodel=kernel -mindirect-branch-register -mindirect-branch=thunk-extern -mno-mmx -mno-red-zone -mno-sse -msave-args -D__sun -D__SVR4 -D_ASM_INLINES -D_DDI_STRICT -D_ELF64 -D_KERNEL -D_MACHDEP -D_SYSCALL32 -D_SYSCALL32_IMPL -Dlint -Dsun -U__i386 -Ui386 -Iusr/src/uts/intel -Iusr/src/uts/common -Iusr/src/common -Iusr/src/uts/i86pc -Iusr/src/uts/common/fs/zfs -ffreestanding -fno-inline-small-functions -fno-inline-functions-called-once -fno-ipa-cp -fno-ipa-icf -fno-clone-functions -fno-reorder-functions -fno-reorder-blocks-and-partition -fno-aggressive-loop-optimizations -fno-shrink-wrap -fno-asynchronous-unwind-tables -fstack-protector-strong -fdiagnostics-color=always --param=max-inline-insns-single=450"@
}

/// The process-constant link-flag string for kernel components.
pub open spec fn kernel_ldflags_text() -> Seq<char> {
    "-ztype=kmod"@
}

/// Command template of the module-compile rule: compile, post-process the
/// symbol-table metadata, strip.
pub open spec fn mod_compile_command() -> Seq<char> {
    "gcc-10 $kernel_cflags -c $in -o $out && ctfconvert -X -l '5.11' $out && strip $out"@
}

/// Command template of the module-link rule: link with dependency flags,
/// then merge symbol-table metadata against the core image.
pub open spec fn mod_link_command() -> Seq<char> {
    "ld $kernel_ldflags $mod_deps -o $out $in && ctfmerge -l '5.11' -d bld/genunix -o $out $in"@
}

/// Command template of the genunix-link rule: link, then merge
/// symbol-table metadata without a base image.
pub open spec fn genunix_link_command() -> Seq<char> {
    "ld $kernel_ldflags -o $out $in && ctfmerge -l '5.11' -o $out $in"@
}

/// The two base variables, in the order they are initialized.
pub open spec fn init_variables_v() -> Seq<VariableV> {
    seq![
        VariableV { name: "kernel_cflags"@, value: kernel_cflags_text() },
        VariableV { name: "kernel_ldflags"@, value: kernel_ldflags_text() },
    ]
}

/// The three base rules, in the order they are initialized.
pub open spec fn init_rules_v() -> Seq<RuleDefinitionV> {
    seq![
        RuleDefinitionV { name: rule_name(Rules::ModCompile), command: mod_compile_command() },
        RuleDefinitionV { name: rule_name(Rules::ModLink), command: mod_link_command() },
        RuleDefinitionV { name: rule_name(Rules::GenunixLink), command: genunix_link_command() },
    ]
}

/// A freshly initialized build specification: base variables and rules,
/// no statements.
pub open spec fn init_spec_v() -> SpecV {
    SpecV {
        variables: init_variables_v(),
        rules: init_rules_v(),
        statements: Seq::<BuildStatementV>::empty(),
    }
}

impl Rules {
    /// The rule's name in the build file.
    pub fn to_string(&self) -> (r: String)
        ensures
            r@ == rule_name(*self),
    {
        match self {
            Rules::ModCompile => "cc_kernel".to_owned(),
            Rules::ModLink => "ld_kmod".to_owned(),
            Rules::GenunixLink => "ld_genunix".to_owned(),
        }
    }
}

impl Variable {
    /// Emit this variable in text form.
    pub fn emit(&self) -> (r: String)
        ensures
            r@ == variable_text(self@),
    {
        let mut s = self.name.clone();
        s.append(" = ");
        s.append(self.value.as_str());
        s.append("\n");
        proof {
            assert(s@ =~= variable_text(self@));
        }
        s
    }
}

impl RuleDefinition {
    /// Emit this rule in text form.
    pub fn emit(&self) -> (r: String)
        ensures
            r@ == rule_text(self@),
    {
        let mut s = String::from_str("rule ");
        s.append(self.name.as_str());
        s.append("\n  command = ");
        s.append(self.command.as_str());
        s.append("\n");
        proof {
            assert(s@ =~= rule_text(self@));
        }
        s
    }
}

impl Default for Spec {
    /// An empty build specification.
    fn default() -> (r: Spec)
        ensures
            r@ == (SpecV {
                variables: Seq::<VariableV>::empty(),
                rules: Seq::<RuleDefinitionV>::empty(),
                statements: Seq::<BuildStatementV>::empty(),
            }),
    {
        let r = Spec { variables: Vec::new(), rules: Vec::new(), statements: Vec::new() };
        proof {
            assert(r.variables.deep_view() =~= Seq::<VariableV>::empty());
            assert(r.rules.deep_view() =~= Seq::<RuleDefinitionV>::empty());
            assert(r.statements.deep_view() =~= Seq::<BuildStatementV>::empty());
        }
        r
    }
}

impl Default for BuildStatement {
    /// A build statement with every field empty.
    fn default() -> (r: BuildStatement)
        ensures
            r@ == (BuildStatementV {
                input: Seq::<char>::empty(),
                output: Seq::<char>::empty(),
                rule: Seq::<char>::empty(),
                variables: Seq::<VariableV>::empty(),
                implicit_deps: Seq::<Seq<char>>::empty(),
            }),
    {
        let r = BuildStatement {
            input: String::new(),
            output: String::new(),
            rule: String::new(),
            variables: Vec::new(),
            implicit_deps: Vec::new(),
        };
        proof {
            assert(r.variables.deep_view() =~= Seq::<VariableV>::empty());
            assert(r.implicit_deps.deep_view() =~= Seq::<Seq<char>>::empty());
        }
        r
    }
}

impl Spec {
    /// Create and initialize a new ninja build spec. Initializes base rules
    /// and variables.
    pub fn new() -> (r: Spec)
        ensures
            r@ == init_spec_v(),
    {
        let mut s = Spec::default();
        s.init();
        proof {
            assert(s@.variables =~= init_variables_v());
            assert(s@.rules =~= init_rules_v());
        }
        s
    }

    /// Initialize base rules and variables.
    fn init(&mut self)
        ensures
            final(self)@.variables == old(self)@.variables + init_variables_v(),
            final(self)@.rules == old(self)@.rules + init_rules_v(),
            final(self)@.statements == old(self)@.statements,
    {
        self.init_rules();
        self.init_variables();
    }

    /// Compiler flags used when compiling kernel objects.
    fn kernel_cflags() -> (r: String)
        ensures
            r@ == kernel_cflags_text(),
    {
        "-std=gnu99 -O3 -g -gdwarf-2 -gstrict-dwarf -m64 -mcmodel=kernel -mindirect-branch-register -mindirect-branch=thunk-extern -mno-mmx -mno-red-zone -mno-sse -msave-args -D__sun -D__SVR4 -D_ASM_INLINES -D_DDI_STRICT -D_ELF64 -D_KERNEL -D_MACHDEP -D_SYSCALL32 -D_SYSCALL32_IMPL -Dlint -Dsun -U__i386 -Ui386 -Iusr/src/uts/intel -Iusr/src/uts/common -Iusr/src/common -Iusr/src/uts/i86pc -Iusr/src/uts/common/fs/zfs -ffreestanding -fno-inline-small-functions -fno-inline-functions-called-once -fno-ipa-cp -fno-ipa-icf -fno-clone-functions -fno-reorder-functions -fno-reorder-blocks-and-partition -fno-aggressive-loop-optimizations -fno-shrink-wrap -fno-asynchronous-unwind-tables -fstack-protector-strong -fdiagnostics-color=always --param=max-inline-insns-single=450".to_owned()
    }

    /// Flags to use when linking kernel components.
    fn kernel_ldflags() -> (r: String)
        ensures
            r@ == kernel_ldflags_text(),
    {
        "-ztype=kmod".to_owned()
    }

    fn init_variables(&mut self)
        ensures
            final(self)@.variables == old(self)@.variables + init_variables_v(),
            final(self)@.rules == old(self)@.rules,
            final(self)@.statements == old(self)@.statements,
    {
        self.variables.push(Variable {
            name: "kernel_cflags".to_owned(),
            value: Self::kernel_cflags(),
        });
        self.variables.push(Variable {
            name: "kernel_ldflags".to_owned(),
            value: Self::kernel_ldflags(),
        });
        proof {
            assert(self.variables.deep_view() =~= old(self).variables.deep_view()
                + init_variables_v());
        }
    }

    fn init_rules(&mut self)
        ensures
            final(self)@.rules == old(self)@.rules + init_rules_v(),
            final(self)@.variables == old(self)@.variables,
            final(self)@.statements == old(self)@.statements,
    {
        self.rules.push(RuleDefinition {
            name: Rules::ModCompile.to_string(),
            command: "gcc-10 $kernel_cflags -c $in -o $out && ctfconvert -X -l '5.11' $out && strip $out".to_owned(),
        });
        self.rules.push(RuleDefinition {
            name: Rules::ModLink.to_string(),
            command: "ld $kernel_ldflags $mod_deps -o $out $in && ctfmerge -l '5.11' -d bld/genunix -o $out $in".to_owned(),
        });
        self.rules.push(RuleDefinition {
            name: Rules::GenunixLink.to_string(),
            command: "ld $kernel_ldflags -o $out $in && ctfmerge -l '5.11' -o $out $in".to_owned(),
        });
        proof {
            assert(self.rules.deep_view() =~= old(self).rules.deep_view() + init_rules_v());
        }
    }

    /// Emit this ninja spec as a string.
    pub fn emit(&self) -> (r: String)
        ensures
            r@ == spec_text(self@),
    {
        let mut s = self.emit_variables();
        let rules = self.emit_rules();
        s.append(rules.as_str());
        let stmts = self.emit_statements();
        s.append(stmts.as_str());
        proof {
            assert(s@ =~= spec_text(self@));
        }
        s
    }

    /// Emit the variables in this spec in text form.
    pub fn emit_variables(&self) -> (r: String)
        ensures
            r@ == variables_text(self@.variables),
    {
        let mut s = String::new();
        let ghost dv = self.variables.deep_view();
        proof {
            assert(dv.take(0) =~= Seq::<VariableV>::empty());
            assert(s@ =~= variables_text(dv.take(0)));
        }
        let mut i: usize = 0;
        while i < self.variables.len()
            invariant
                i <= self.variables.len(),
                dv == self.variables.deep_view(),
                s@ == variables_text(dv.take(i as int)),
            decreases self.variables.len() - i,
        {
            let t = self.variables[i].emit();
            s.append(t.as_str());
            i = i + 1;
            proof {
                assert(dv.take(i as int).drop_last() =~= dv.take(i as int - 1));
                assert(dv.take(i as int).last() == dv[i as int - 1]);
            }
        }
        proof {
            assert(dv.take(i as int) =~= dv);
        }
        s
    }

    /// Emit the rules in this spec in text form.
    pub fn emit_rules(&self) -> (r: String)
        ensures
            r@ == rules_text(self@.rules),
    {
        let mut s = String::new();
        let ghost dv = self.rules.deep_view();
        proof {
            assert(dv.take(0) =~= Seq::<RuleDefinitionV>::empty());
            assert(s@ =~= rules_text(dv.take(0)));
        }
        let mut i: usize = 0;
        while i < self.rules.len()
            invariant
                i <= self.rules.len(),
                dv == self.rules.deep_view(),
                s@ == rules_text(dv.take(i as int)),
            decreases self.rules.len() - i,
        {
            let t = self.rules[i].emit();
            s.append(t.as_str());
            i = i + 1;
            proof {
                assert(dv.take(i as int).drop_last() =~= dv.take(i as int - 1));
                assert(dv.take(i as int).last() == dv[i as int - 1]);
            }
        }
        proof {
            assert(dv.take(i as int) =~= dv);
        }
        s
    }

    /// Emit the build statements in this spec in text form.
    pub fn emit_statements(&self) -> (r: String)
        ensures
            r@ == statements_text(self@.statements),
    {
        let mut s = String::new();
        let ghost dv = self.statements.deep_view();
        proof {
            assert(dv.take(0) =~= Seq::<BuildStatementV>::empty());
            assert(s@ =~= statements_text(dv.take(0)));
        }
        let mut i: usize = 0;
        while i < self.statements.len()
            invariant
                i <= self.statements.len(),
                dv == self.statements.deep_view(),
                s@ == statements_text(dv.take(i as int)),
            decreases self.statements.len() - i,
        {
            let t = self.statements[i].emit();
            s.append(t.as_str());
            i = i + 1;
            proof {
                assert(dv.take(i as int).drop_last() =~= dv.take(i as int - 1));
                assert(dv.take(i as int).last() == dv[i as int - 1]);
            }
        }
        proof {
            assert(dv.take(i as int) =~= dv);
        }
        s
    }
}

/// Emission is deterministic: two build specifications with the same
/// model emit byte-identical text, so re-running the engine over an
/// unchanged graph reproduces the artifact exactly.
pub proof fn lemma_emit_deterministic(a: &Spec, b: &Spec)
    requires
        a@ == b@,
    ensures
        spec_text(a@) == spec_text(b@),
{
}

impl BuildStatement {
    /// Emit this build statement in text form.
    pub fn emit(&self) -> (r: String)
        ensures
            r@ == statement_text(self@),
    {
        let mut s = String::from_str("build ");
        s.append(self.output.as_str());
        s.append(": ");
        s.append(self.rule.as_str());
        s.append(" ");
        s.append(self.input.as_str());
        s.append("\n");
        let ghost head = s@;
        let ghost dv = self.variables.deep_view();
        proof {
            assert(dv.take(0) =~= Seq::<VariableV>::empty());
            assert(s@ =~= head + statement_variables_text(dv.take(0)));
        }
        let mut i: usize = 0;
        while i < self.variables.len()
            invariant
                i <= self.variables.len(),
                dv == self.variables.deep_view(),
                head == "build "@ + self.output@ + ": "@ + self.rule@ + " "@ + self.input@
                    + "\n"@,
                s@ == head + statement_variables_text(dv.take(i as int)),
            decreases self.variables.len() - i,
        {
            s.append("  ");
            let t = self.variables[i].emit();
            s.append(t.as_str());
            i = i + 1;
            proof {
                assert(dv.take(i as int).drop_last() =~= dv.take(i as int - 1));
                assert(dv.take(i as int).last() == dv[i as int - 1]);
                assert(s@ =~= head + statement_variables_text(dv.take(i as int)));
            }
        }
        proof {
            assert(dv.take(i as int) =~= dv);
            assert(s@ =~= statement_text(self@));
        }
        s
    }
}

} // verus!
