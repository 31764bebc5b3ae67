use eos_build::ninja::{BuildStatement, RuleDefinition, Rules, Spec, Variable};

const CFLAGS: &str = "-std=gnu99 -O3 -g -gdwarf-2 -gstrict-dwarf -m64 -mcmodel=kernel -mindirect-branch-register -mindirect-branch=thunk-extern -mno-mmx -mno-red-zone -mno-sse -msave-args -D__sun -D__SVR4 -D_ASM_INLINES -D_DDI_STRICT -D_ELF64 -D_KERNEL -D_MACHDEP -D_SYSCALL32 -D_SYSCALL32_IMPL -Dlint -Dsun -U__i386 -Ui386 -Iusr/src/uts/intel -Iusr/src/uts/common -Iusr/src/common -Iusr/src/uts/i86pc -Iusr/src/uts/common/fs/zfs -ffreestanding -fno-inline-small-functions -fno-inline-functions-called-once -fno-ipa-cp -fno-ipa-icf -fno-clone-functions -fno-reorder-functions -fno-reorder-blocks-and-partition -fno-aggressive-loop-optimizations -fno-shrink-wrap -fno-asynchronous-unwind-tables -fstack-protector-strong -fdiagnostics-color=always --param=max-inline-insns-single=450";

#[test]
fn rule_names() {
    assert_eq!(Rules::ModCompile.to_string(), "cc_kernel");
    assert_eq!(Rules::ModLink.to_string(), "ld_kmod");
    assert_eq!(Rules::GenunixLink.to_string(), "ld_genunix");
}

#[test]
fn variable_line() {
    let v = Variable { name: "a".to_string(), value: "b c".to_string() };
    assert_eq!(v.emit(), "a = b c\n");
}

#[test]
fn rule_definition_lines() {
    let r = RuleDefinition { name: "r".to_string(), command: "cc $in".to_string() };
    assert_eq!(r.emit(), "rule r\n  command = cc $in\n");
}

#[test]
fn build_statement_line_with_variables() {
    let b = BuildStatement {
        input: "x.o y.o".to_string(),
        output: "out".to_string(),
        rule: "ld_kmod".to_string(),
        variables: vec![Variable { name: "mod_deps".to_string(), value: "-Na".to_string() }],
        implicit_deps: vec!["bld/genunix".to_string()],
    };
    assert_eq!(b.emit(), "build out: ld_kmod x.o y.o\n  mod_deps = -Na\n");
}

#[test]
fn build_statement_line_without_variables() {
    let b = BuildStatement {
        input: "a.c".to_string(),
        output: "a.o".to_string(),
        rule: "cc_kernel".to_string(),
        variables: Vec::new(),
        implicit_deps: Vec::new(),
    };
    assert_eq!(b.emit(), "build a.o: cc_kernel a.c\n");
}

#[test]
fn new_spec_emits_base_variables_and_rules() {
    let s = Spec::new();
    assert!(s.statements.is_empty());
    let expected = format!(
        "kernel_cflags = {}\nkernel_ldflags = -ztype=kmod\nrule cc_kernel\n  command = gcc-10 $kernel_cflags -c $in -o $out && ctfconvert -X -l '5.11' $out && strip $out\nrule ld_kmod\n  command = ld $kernel_ldflags $mod_deps -o $out $in && ctfmerge -l '5.11' -d bld/genunix -o $out $in\nrule ld_genunix\n  command = ld $kernel_ldflags -o $out $in && ctfmerge -l '5.11' -o $out $in\n",
        CFLAGS
    );
    assert_eq!(s.emit(), expected);
}

#[test]
fn emission_is_deterministic() {
    let s = Spec::new();
    assert_eq!(s.emit(), s.emit());
    let t = Spec::new();
    assert_eq!(s.emit(), t.emit());
}
