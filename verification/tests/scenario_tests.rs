use eos_build::build_spec::{Genunix, Module, Spec};
use eos_build::ninja;
use eos_build::util::object_build_statements;

fn no_deps(n: usize) -> Vec<Vec<String>> {
    let mut v = Vec::new();
    for _ in 0..n {
        v.push(Vec::new());
    }
    v
}

#[test]
fn module_emits_compile_then_link() {
    let m = Module {
        name: "drv".to_string(),
        src: vec!["b.c".to_string()],
        dependencies: Vec::new(),
    };
    let stmts = m.to_ninja("usr/src/drv/build.toml", &no_deps(1)).ok().unwrap();
    assert_eq!(stmts.len(), 2);
    assert_eq!(stmts[0].input, "usr/src/drv/b.c");
    assert_eq!(stmts[0].output, "bld/usr/src/drv/b.o");
    assert_eq!(stmts[0].rule, "cc_kernel");
    assert!(stmts[0].variables.is_empty());
    assert_eq!(stmts[1].input, "bld/usr/src/drv/b.o");
    assert_eq!(stmts[1].output, "bld/modules/drv");
    assert_eq!(stmts[1].rule, "ld_kmod");
    assert!(stmts[1].variables.is_empty());
    assert_eq!(stmts[1].implicit_deps, vec!["bld/genunix".to_string()]);
}

#[test]
fn module_dependency_flags_joined_in_declaration_order() {
    let m = Module {
        name: "drv".to_string(),
        src: vec!["b.c".to_string()],
        dependencies: vec!["a".to_string(), "b".to_string()],
    };
    let stmts = m.to_ninja("usr/src/drv/build.toml", &no_deps(1)).ok().unwrap();
    let link = &stmts[1];
    assert_eq!(link.variables.len(), 1);
    assert_eq!(link.variables[0].name, "mod_deps");
    assert_eq!(link.variables[0].value, "-Na -Nb");
    assert_eq!(
        link.emit(),
        "build bld/modules/drv: ld_kmod bld/usr/src/drv/b.o\n  mod_deps = -Na -Nb\n"
    );
}

#[test]
fn genunix_link_has_no_implicit_deps() {
    let g = Genunix { src: vec!["a.c".to_string()] };
    let stmts = g.to_ninja("usr/src/core/build.toml", &no_deps(1)).ok().unwrap();
    assert_eq!(stmts.len(), 2);
    assert_eq!(stmts[1].output, "bld/genunix");
    assert_eq!(stmts[1].rule, "ld_kmod");
    assert!(stmts[1].variables.is_empty());
    assert!(stmts[1].implicit_deps.is_empty());
}

#[test]
fn module_with_bad_source_emits_nothing() {
    let m = Module {
        name: "drv".to_string(),
        src: vec!["b.rs".to_string()],
        dependencies: Vec::new(),
    };
    let err = m.to_ninja("usr/src/drv/build.toml", &no_deps(1)).err().unwrap();
    assert_eq!(err.message(), "b.rs: expected c source file");
}

#[test]
fn spec_dispatches_to_variant() {
    let s = Spec::Module(Module {
        name: "drv".to_string(),
        src: vec!["b.c".to_string()],
        dependencies: Vec::new(),
    });
    let stmts = s.to_ninja("usr/src/drv/build.toml", &no_deps(1)).ok().unwrap();
    assert_eq!(stmts.len(), 2);
    let g = Spec::Genunix(Genunix { src: vec!["a.c".to_string(), "c.c".to_string()] });
    let stmts = g.to_ninja("usr/src/core/build.toml", &no_deps(2)).ok().unwrap();
    assert_eq!(stmts.len(), 3);
    assert_eq!(stmts[2].input, "bld/usr/src/core/a.o bld/usr/src/core/c.o");
}

#[test]
fn resolved_headers_are_collected_in_input_order() {
    let map = vec![
        ("s1.c".to_string(), "o1.o".to_string()),
        ("s2.c".to_string(), "o2.o".to_string()),
    ];
    let deps = vec![vec!["h1".to_string()], vec!["h2a".to_string(), "h2b".to_string()]];
    let stmts = object_build_statements(&map, &deps);
    assert_eq!(stmts.len(), 2);
    assert_eq!(stmts[0].input, "s1.c");
    assert_eq!(stmts[0].implicit_deps, vec!["h1".to_string()]);
    assert_eq!(stmts[1].input, "s2.c");
    assert_eq!(stmts[1].implicit_deps, vec!["h2a".to_string(), "h2b".to_string()]);
}

fn whole_tree_artifact() -> String {
    let mut ninja_spec = ninja::Spec::new();
    let core = Spec::Genunix(Genunix { src: vec!["a.c".to_string()] });
    let module = Spec::Module(Module {
        name: "drv".to_string(),
        src: vec!["b.c".to_string()],
        dependencies: Vec::new(),
    });
    let mut stmts = core.to_ninja("usr/src/core/build.toml", &no_deps(1)).ok().unwrap();
    ninja_spec.statements.append(&mut stmts);
    let mut stmts = module.to_ninja("usr/src/drv/build.toml", &no_deps(1)).ok().unwrap();
    ninja_spec.statements.append(&mut stmts);
    ninja_spec.emit()
}

#[test]
fn end_to_end_core_and_one_module() {
    let text = whole_tree_artifact();
    let statements: Vec<&str> = text.lines().filter(|l| l.starts_with("build ")).collect();
    assert_eq!(
        statements,
        vec![
            "build bld/usr/src/core/a.o: cc_kernel usr/src/core/a.c",
            "build bld/genunix: ld_kmod bld/usr/src/core/a.o",
            "build bld/usr/src/drv/b.o: cc_kernel usr/src/drv/b.c",
            "build bld/modules/drv: ld_kmod bld/usr/src/drv/b.o",
        ]
    );
    assert!(!text.contains("mod_deps ="));
}

#[test]
fn rerun_produces_byte_identical_artifact() {
    assert_eq!(whole_tree_artifact(), whole_tree_artifact());
}
