//! Build descriptions: the two description variants and their translation
//! into build statements.

use vstd::prelude::*;
use vstd::string::*;
use crate::ninja;
use crate::ninja::{BuildStatement, BuildStatementV, Rules, Variable, VariableV};
use crate::util;
use crate::util::BuildError;

verus! {

/// Space-joined text of a sequence of path strings.
pub open spec fn space_join(xs: Seq<Seq<char>>) -> Seq<char>
    decreases xs.len(),
{
    if xs.len() == 0 {
        Seq::<char>::empty()
    } else if xs.len() == 1 {
        xs[0]
    } else {
        space_join(xs.drop_last()) + " "@ + xs.last()
    }
}

/// Flags encoding a module's declared dependencies: `-N<dep>` per
/// dependency, space-joined, in declaration order.
pub open spec fn dep_flags(deps: Seq<Seq<char>>) -> Seq<char>
    decreases deps.len(),
{
    if deps.len() == 0 {
        Seq::<char>::empty()
    } else if deps.len() == 1 {
        "-N"@ + deps[0]
    } else {
        dep_flags(deps.drop_last()) + " "@ + "-N"@ + deps.last()
    }
}

/// The object paths of a description's sources, in declaration order.
pub open spec fn obj_paths(base: Seq<char>, srcs: Seq<Seq<char>>) -> Seq<Seq<char>> {
    Seq::new(srcs.len(), |i: int| util::object_path(base, srcs[i]))
}

/// The per-unit compile statements of a description, in declaration order.
pub open spec fn compile_statements(
    base: Seq<char>,
    srcs: Seq<Seq<char>>,
    hdeps: Seq<Seq<Seq<char>>>,
) -> Seq<BuildStatementV> {
    Seq::new(
        srcs.len(),
        |i: int|
            util::compile_statement(
                util::source_path(base, srcs[i]),
                util::object_path(base, srcs[i]),
                hdeps[i],
            ),
    )
}

/// The link statement of a module: all object paths as inputs, the module
/// output under the module root, the declared dependencies as linker
/// flags when non-empty, and an implicit dependency on the core image.
pub open spec fn module_link_statement(
    name: Seq<char>,
    srcs: Seq<Seq<char>>,
    deps: Seq<Seq<char>>,
    base: Seq<char>,
) -> BuildStatementV {
    BuildStatementV {
        input: space_join(obj_paths(base, srcs)),
        output: "bld/modules/"@ + name,
        rule: ninja::rule_name(Rules::ModLink),
        variables: if deps.len() > 0 {
            seq![VariableV { name: "mod_deps"@, value: dep_flags(deps) }]
        } else {
            Seq::<VariableV>::empty()
        },
        implicit_deps: seq!["bld/genunix"@],
    }
}

/// The link statement of genunix: all object paths as inputs, the single
/// core-image output, no dependency-flag variable and no implicit
/// dependency on itself.
pub open spec fn genunix_link_statement(srcs: Seq<Seq<char>>, base: Seq<char>) -> BuildStatementV {
    BuildStatementV {
        input: space_join(obj_paths(base, srcs)),
        output: "bld/genunix"@,
        rule: ninja::rule_name(Rules::ModLink),
        variables: Seq::<VariableV>::empty(),
        implicit_deps: Seq::<Seq<char>>::empty(),
    }
}

/// Every statement a module description emits: its compile statements,
/// then its link statement.
pub open spec fn module_statements(
    name: Seq<char>,
    srcs: Seq<Seq<char>>,
    deps: Seq<Seq<char>>,
    base: Seq<char>,
    hdeps: Seq<Seq<Seq<char>>>,
) -> Seq<BuildStatementV> {
    compile_statements(base, srcs, hdeps).push(module_link_statement(name, srcs, deps, base))
}

/// Every statement a genunix description emits: its compile statements,
/// then its link statement.
pub open spec fn genunix_statements(
    srcs: Seq<Seq<char>>,
    base: Seq<char>,
    hdeps: Seq<Seq<Seq<char>>>,
) -> Seq<BuildStatementV> {
    compile_statements(base, srcs, hdeps).push(genunix_link_statement(srcs, base))
}

/// An Eos build specification.
pub enum Spec {
    /// A genunix build spec.
    Genunix(Genunix),
    /// A kernel module build spec.
    Module(Module),
}

/// A build specification for a kernel module.
pub struct Module {
    /// Name of the kernel module.
    pub name: String,
    /// Source c files.
    pub src: Vec<String>,
    /// Other kernel modules this module depends on.
    pub dependencies: Vec<String>,
}

/// A build specification for genunix.
pub struct Genunix {
    /// Source c files.
    pub src: Vec<String>,
}

impl Spec {
    /// The source declarations of either variant.
    pub open spec fn sources(&self) -> Seq<Seq<char>> {
        match self {
            Spec::Genunix(g) => g.src.deep_view(),
            Spec::Module(m) => m.src.deep_view(),
        }
    }

    /// The statements either variant emits.
    pub open spec fn statements_of(
        &self,
        base: Seq<char>,
        hdeps: Seq<Seq<Seq<char>>>,
    ) -> Seq<BuildStatementV> {
        match self {
            Spec::Genunix(g) => genunix_statements(g.src.deep_view(), base, hdeps),
            Spec::Module(m) => module_statements(
                m.name@,
                m.src.deep_view(),
                m.dependencies.deep_view(),
                base,
                hdeps,
            ),
        }
    }

    /// Produce the build statements for this spec, given the description
    /// file's path and the resolved header dependencies of each declared
    /// source, in declaration order.
    pub fn to_ninja(&self, path: &str, header_deps: &Vec<Vec<String>>) -> (r: Result<
        Vec<BuildStatement>,
        BuildError,
    >)
        requires
            header_deps@.len() == self.sources().len(),
        ensures
            match r {
                Ok(stmts) => {
                    &&& forall|i: int|
                        0 <= i < self.sources().len() ==> util::ends_in_c(
                            #[trigger] self.sources()[i],
                        )
                    &&& stmts.deep_view() == self.statements_of(path@, header_deps.deep_view())
                },
                Err(e) => exists|i: int|
                    {
                        &&& 0 <= i < self.sources().len()
                        &&& !util::ends_in_c(#[trigger] self.sources()[i])
                        &&& e.src@ == self.sources()[i]
                        &&& forall|j: int| 0 <= j < i ==> util::ends_in_c(#[trigger] self.sources()[j])
                    },
            },
    {
        match self {
            Spec::Genunix(x) => {
                let r = x.to_ninja(path, header_deps);
                proof {
                    assert(forall|i: int|
                        0 <= i < x.src@.len() ==> #[trigger] self.sources()[i] == x.src@[i]@);
                    if !(r is Ok) {
                        let e = r->Err_0;
                        let i = choose|i: int|
                            {
                                &&& 0 <= i < x.src@.len()
                                &&& !util::ends_in_c(#[trigger] x.src@[i]@)
                                &&& e.src@ == x.src@[i]@
                                &&& forall|j: int|
                                    0 <= j < i ==> util::ends_in_c(#[trigger] x.src@[j]@)
                            };
                        assert({
                            &&& 0 <= i < self.sources().len()
                            &&& !util::ends_in_c(self.sources()[i])
                            &&& e.src@ == self.sources()[i]
                            &&& forall|j: int|
                                0 <= j < i ==> util::ends_in_c(#[trigger] self.sources()[j])
                        });
                    }
                }
                r
            },
            Spec::Module(x) => {
                let r = x.to_ninja(path, header_deps);
                proof {
                    assert(forall|i: int|
                        0 <= i < x.src@.len() ==> #[trigger] self.sources()[i] == x.src@[i]@);
                    if !(r is Ok) {
                        let e = r->Err_0;
                        let i = choose|i: int|
                            {
                                &&& 0 <= i < x.src@.len()
                                &&& !util::ends_in_c(#[trigger] x.src@[i]@)
                                &&& e.src@ == x.src@[i]@
                                &&& forall|j: int|
                                    0 <= j < i ==> util::ends_in_c(#[trigger] x.src@[j]@)
                            };
                        assert({
                            &&& 0 <= i < self.sources().len()
                            &&& !util::ends_in_c(self.sources()[i])
                            &&& e.src@ == self.sources()[i]
                            &&& forall|j: int|
                                0 <= j < i ==> util::ends_in_c(#[trigger] self.sources()[j])
                        });
                    }
                }
                r
            },
        }
    }
}

/// Build the space-joined link-input string from a source-object map.
fn link_input(osm: &Vec<(String, String)>) -> (r: String)
    ensures
        r@ == space_join(Seq::new(osm@.len(), |i: int| osm@[i].1@)),
{
    let ghost ops = Seq::new(osm@.len(), |i: int| osm@[i].1@);
    let mut s = String::new();
    proof {
        assert(ops.take(0) =~= Seq::<Seq<char>>::empty());
        assert(s@ =~= space_join(ops.take(0)));
    }
    let mut i: usize = 0;
    while i < osm.len()
        invariant
            i <= osm.len(),
            ops == Seq::new(osm@.len(), |i: int| osm@[i].1@),
            s@ == space_join(ops.take(i as int)),
        decreases osm.len() - i,
    {
        if i > 0 {
            s.append(" ");
        }
        s.append(osm[i].1.as_str());
        i = i + 1;
        proof {
            assert(ops.take(i as int).drop_last() =~= ops.take(i as int - 1));
            assert(ops.take(i as int).last() == ops[i as int - 1]);
            if i == 1 {
                assert(s@ =~= space_join(ops.take(1)));
            } else {
                assert(s@ =~= space_join(ops.take(i as int)));
            }
        }
    }
    proof {
        assert(ops.take(i as int) =~= ops);
    }
    s
}

impl Module {
    /// Produce the build statements for this module: one compile statement
    /// per source, then the module link statement.
    pub fn to_ninja(&self, path: &str, header_deps: &Vec<Vec<String>>) -> (r: Result<
        Vec<BuildStatement>,
        BuildError,
    >)
        requires
            header_deps@.len() == self.src@.len(),
        ensures
            match r {
                Ok(stmts) => {
                    &&& forall|i: int|
                        0 <= i < self.src@.len() ==> util::ends_in_c(#[trigger] self.src@[i]@)
                    &&& stmts.deep_view() == module_statements(
                        self.name@,
                        self.src.deep_view(),
                        self.dependencies.deep_view(),
                        path@,
                        header_deps.deep_view(),
                    )
                },
                Err(e) => exists|i: int|
                    {
                        &&& 0 <= i < self.src@.len()
                        &&& !util::ends_in_c(#[trigger] self.src@[i]@)
                        &&& e.src@ == self.src@[i]@
                        &&& forall|j: int| 0 <= j < i ==> util::ends_in_c(#[trigger] self.src@[j]@)
                    },
            },
    {
        let osm = match util::object_source_map(path, &self.src) {
            Ok(o) => o,
            Err(e) => {
                return Err(e);
            },
        };
        let mut stmts = util::object_build_statements(&osm, header_deps);
        let mut vars: Vec<Variable> = Vec::new();
        let ghost dv = self.dependencies.deep_view();
        if self.dependencies.len() > 0 {
            let mut val = String::new();
            let mut i: usize = 0;
            while i < self.dependencies.len()
                invariant
                    i <= self.dependencies.len(),
                    dv == self.dependencies.deep_view(),
                    val@ == dep_flags(dv.take(i as int)),
                decreases self.dependencies.len() - i,
            {
                if i > 0 {
                    val.append(" ");
                }
                val.append("-N");
                val.append(self.dependencies[i].as_str());
                i = i + 1;
                proof {
                    assert(dv.take(i as int).drop_last() =~= dv.take(i as int - 1));
                    assert(dv.take(i as int).last() == dv[i as int - 1]);
                    if i == 1 {
                        assert(val@ =~= dep_flags(dv.take(1)));
                    } else {
                        assert(val@ =~= dep_flags(dv.take(i as int)));
                    }
                }
            }
            proof {
                assert(dv.take(i as int) =~= dv);
            }
            vars.push(Variable { name: "mod_deps".to_owned(), value: val });
            proof {
                assert(vars.deep_view() =~= seq![
                    VariableV { name: "mod_deps"@, value: dep_flags(dv) },
                ]);
            }
        } else {
            proof {
                assert(vars.deep_view() =~= Seq::<VariableV>::empty());
            }
        }
        let input = link_input(&osm);
        let mut output = String::from_str("bld/modules/");
        output.append(self.name.as_str());
        let link = BuildStatement {
            input,
            output,
            rule: Rules::ModLink.to_string(),
            variables: vars,
            implicit_deps: vec!["bld/genunix".to_owned()],
        };
        proof {
            assert(link.implicit_deps.deep_view() =~= seq!["bld/genunix"@]);
            assert(Seq::new(osm@.len(), |i: int| osm@[i].1@) =~= obj_paths(
                path@,
                self.src.deep_view(),
            ));
            assert(link@ =~= module_link_statement(
                self.name@,
                self.src.deep_view(),
                dv,
                path@,
            ));
        }
        stmts.push(link);
        proof {
            assert(stmts.deep_view() =~= module_statements(
                self.name@,
                self.src.deep_view(),
                dv,
                path@,
                header_deps.deep_view(),
            ));
        }
        Ok(stmts)
    }
}

impl Genunix {
    /// Produce the build statements for genunix: one compile statement per
    /// source, then the core-image link statement.
    pub fn to_ninja(&self, path: &str, header_deps: &Vec<Vec<String>>) -> (r: Result<
        Vec<BuildStatement>,
        BuildError,
    >)
        requires
            header_deps@.len() == self.src@.len(),
        ensures
            match r {
                Ok(stmts) => {
                    &&& forall|i: int|
                        0 <= i < self.src@.len() ==> util::ends_in_c(#[trigger] self.src@[i]@)
                    &&& stmts.deep_view() == genunix_statements(
                        self.src.deep_view(),
                        path@,
                        header_deps.deep_view(),
                    )
                },
                Err(e) => exists|i: int|
                    {
                        &&& 0 <= i < self.src@.len()
                        &&& !util::ends_in_c(#[trigger] self.src@[i]@)
                        &&& e.src@ == self.src@[i]@
                        &&& forall|j: int| 0 <= j < i ==> util::ends_in_c(#[trigger] self.src@[j]@)
                    },
            },
    {
        let osm = match util::object_source_map(path, &self.src) {
            Ok(o) => o,
            Err(e) => {
                return Err(e);
            },
        };
        let mut stmts = util::object_build_statements(&osm, header_deps);
        let input = link_input(&osm);
        let link = BuildStatement {
            input,
            output: "bld/genunix".to_owned(),
            rule: Rules::ModLink.to_string(),
            variables: Vec::new(),
            implicit_deps: Vec::new(),
        };
        proof {
            assert(link.variables.deep_view() =~= Seq::<VariableV>::empty());
            assert(link.implicit_deps.deep_view() =~= Seq::<Seq<char>>::empty());
            assert(Seq::new(osm@.len(), |i: int| osm@[i].1@) =~= obj_paths(
                path@,
                self.src.deep_view(),
            ));
            assert(link@ =~= genunix_link_statement(self.src.deep_view(), path@));
        }
        stmts.push(link);
        proof {
            assert(stmts.deep_view() =~= genunix_statements(
                self.src.deep_view(),
                path@,
                header_deps.deep_view(),
            ));
        }
        Ok(stmts)
    }
}

/// Every module's link statement carries an implicit dependency on the
/// core-image output, and on nothing else; the core-image link statement
/// carries none, and the module's implicit dependency is exactly the
/// core-image link statement's output.
pub proof fn lemma_module_depends_on_core(
    name: Seq<char>,
    srcs: Seq<Seq<char>>,
    deps: Seq<Seq<char>>,
    base: Seq<char>,
    hdeps: Seq<Seq<Seq<char>>>,
)
    ensures
        module_statements(name, srcs, deps, base, hdeps).last().implicit_deps == seq![
            "bld/genunix"@,
        ],
        genunix_statements(srcs, base, hdeps).last().implicit_deps == Seq::<Seq<char>>::empty(),
        module_statements(name, srcs, deps, base, hdeps).last().implicit_deps[0]
            == genunix_statements(srcs, base, hdeps).last().output,
{
}

/// Per-unit statements are collected back into declaration order, however
/// the header sets were resolved: the statement at a source's position is
/// exactly that source's compile statement, and depends only on that
/// source and its own header set.
pub proof fn lemma_statements_in_declaration_order(
    name: Seq<char>,
    srcs: Seq<Seq<char>>,
    deps: Seq<Seq<char>>,
    base: Seq<char>,
    hdeps: Seq<Seq<Seq<char>>>,
    i: int,
)
    requires
        0 <= i < srcs.len(),
    ensures
        module_statements(name, srcs, deps, base, hdeps)[i] == util::compile_statement(
            util::source_path(base, srcs[i]),
            util::object_path(base, srcs[i]),
            hdeps[i],
        ),
        genunix_statements(srcs, base, hdeps)[i] == util::compile_statement(
            util::source_path(base, srcs[i]),
            util::object_path(base, srcs[i]),
            hdeps[i],
        ),
{
}

/// A module declaring two dependencies produces a dependency-flag value of
/// exactly the two flags joined by a single space, in declaration order.
pub proof fn lemma_dep_flags_pair(a: Seq<char>, b: Seq<char>)
    ensures
        dep_flags(seq![a, b]) == "-N"@ + a + " "@ + "-N"@ + b,
{
    let s = seq![a, b];
    assert(s.drop_last() =~= seq![a]);
    assert(s.last() == b);
    assert(dep_flags(seq![a]) == "-N"@ + a);
    assert(dep_flags(s) == dep_flags(s.drop_last()) + " "@ + "-N"@ + s.last());
}

} // verus!
