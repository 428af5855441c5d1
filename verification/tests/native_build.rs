use mquickjs_rs::native_build::{
    build_steps, core_sources, object_file_name, output_libs, parse_cli, variant, BuildInputs, CliError, CrossCc,
    RidlSources, Step,
};

fn strings(v: &[&str]) -> Vec<String> {
    v.iter().map(|s| s.to_string()).collect()
}

fn run_of(s: &Step) -> (String, Vec<String>, Option<String>) {
    match s {
        Step::Run(c) => (c.program.clone(), c.args.clone(), c.stdout_to.clone()),
        Step::Remove(f) => panic!("expected a command, found removal of {}", f),
    }
}

fn removed(s: &Step) -> String {
    match s {
        Step::Remove(f) => f.clone(),
        Step::Run(c) => panic!("expected a removal, found {}", c.program),
    }
}

fn inputs(ridl: bool, cross: bool) -> BuildInputs {
    BuildInputs {
        engine_dir: "/e".to_string(),
        include_dir: "/inc".to_string(),
        build_c: "/e/mquickjs_build.c".to_string(),
        template: "/t/tpl.c".to_string(),
        tool: "/b/mqjs_ridl_stdlib".to_string(),
        core_sources: strings(&["/e/mquickjs.c", "/e/dtoa.c", "/e/libm.c", "/e/cutils.c"]),
        stdlib_impl: "/s/impl.c".to_string(),
        ridl: if ridl {
            Some(RidlSources {
                register_c: "/inc/mquickjs_ridl_register.c".to_string(),
                require_c: "/s/require.c".to_string(),
                romclass_index: "/inc/mquickjs_romclass_index.json".to_string(),
            })
        } else {
            None
        },
        cross: if cross {
            Some(CrossCc { triple: "thumbv7em-none-eabihf".to_string(), stubs: "/stubs".to_string() })
        } else {
            None
        },
    }
}

#[test]
fn cli_reads_every_option() {
    let args = strings(&["build", "--mquickjs-dir", "/e", "--out", "/o", "--target", "t", "--ridl-register-h", "/r.h"]);
    let b = parse_cli(&args).unwrap();
    assert_eq!(b.mquickjs_dir, "/e");
    assert_eq!(b.out_dir, "/o");
    assert_eq!(b.target, Some("t".to_string()));
    assert_eq!(b.ridl_register_h, Some("/r.h".to_string()));
}

#[test]
fn cli_errors() {
    assert_eq!(parse_cli(&strings(&[])).err(), Some(CliError::Usage));
    assert_eq!(parse_cli(&strings(&["make"])).err(), Some(CliError::UnknownCommand("make".to_string())));
    assert_eq!(
        parse_cli(&strings(&["build", "--mquickjs-dir", "/e", "-x"])).err(),
        Some(CliError::UnknownArg("-x".to_string()))
    );
    assert_eq!(parse_cli(&strings(&["build", "--out", "/o"])).err(), Some(CliError::MissingMquickjsDir));
    assert_eq!(parse_cli(&strings(&["build", "--mquickjs-dir", "/e"])).err(), Some(CliError::MissingOut));
}

#[test]
fn cli_option_without_value_is_unset() {
    assert_eq!(
        parse_cli(&strings(&["build", "--out", "/o", "--mquickjs-dir", "/e", "--out"])).err(),
        Some(CliError::MissingOut)
    );
    // An option takes the next argument as its value, whatever it is.
    let b = parse_cli(&strings(&["build", "--mquickjs-dir", "--out", "--out", "/o"])).unwrap();
    assert_eq!(b.mquickjs_dir, "--out");
    assert_eq!(b.out_dir, "/o");
}

#[test]
fn object_names_drop_trailing_c() {
    assert_eq!(object_file_name("mquickjs.c"), "mquickjs.o");
    assert_eq!(object_file_name("a.c.c"), "a.o");
    assert_eq!(object_file_name("x.h"), "x.h.o");
    assert_eq!(object_file_name(""), ".o");
}

#[test]
fn variant_names_and_libs() {
    assert_eq!(variant(true), "ridl");
    assert_eq!(variant(false), "base");
    assert_eq!(output_libs(false), strings(&["mquickjs", "mquickjs_core", "mquickjs_stdlib_base"]));
    assert_eq!(output_libs(true), strings(&["mquickjs", "mquickjs_core", "mquickjs_stdlib_ridl"]));
    assert_eq!(core_sources(), strings(&["mquickjs.c", "dtoa.c", "libm.c", "cutils.c"]));
}

#[test]
fn base_host_build_steps() {
    let steps = build_steps(&inputs(false, false));
    assert_eq!(steps.len(), 16);
    assert_eq!(
        run_of(&steps[0]),
        (
            "gcc".to_string(),
            strings(&["-c", "/e/mquickjs_build.c", "-o", "mquickjs_build.host.o", "-D__HOST__", "-include", "stddef.h"]),
            None
        )
    );
    assert_eq!(
        run_of(&steps[1]),
        (
            "gcc".to_string(),
            strings(&[
                "-D__HOST__", "/t/tpl.c", "mquickjs_build.host.o", "-o", "mqjs_ridl_stdlib", "-I", "/inc", "-I", "/e",
                "-include", "stddef.h"
            ]),
            None
        )
    );
    assert_eq!(
        run_of(&steps[2]),
        ("/b/mqjs_ridl_stdlib".to_string(), strings(&["-a"]), Some("mquickjs_atom.h".to_string()))
    );
    assert_eq!(
        run_of(&steps[3]),
        ("/b/mqjs_ridl_stdlib".to_string(), Vec::new(), Some("mqjs_ridl_stdlib.h".to_string()))
    );
    assert_eq!(
        run_of(&steps[5]),
        (
            "gcc".to_string(),
            strings(&["-c", "/e/dtoa.c", "-o", "dtoa.o", "-I", "/inc", "-I", "/e", "-include", "stddef.h"]),
            None
        )
    );
    assert_eq!(
        run_of(&steps[8]).1,
        strings(&[
            "-c", "/s/impl.c", "-o", "mqjs_stdlib_impl.o", "-I", "/inc", "-I", "/e", "-include", "stddef.h",
            "-DJS_STDLIB_LINKAGE=__attribute__((weak))"
        ])
    );
    assert_eq!(removed(&steps[9]), "../lib/libmquickjs_stdlib.a");
    assert_eq!(removed(&steps[10]), "../lib/libmquickjs.a");
    assert_eq!(
        run_of(&steps[11]),
        (
            "ar".to_string(),
            strings(&["rcs", "../lib/libmquickjs.a", "mquickjs.o", "dtoa.o", "libm.o", "cutils.o", "mqjs_stdlib_impl.o"]),
            None
        )
    );
    assert_eq!(
        run_of(&steps[13]).1,
        strings(&["rcs", "../lib/libmquickjs_core.a", "mquickjs.o", "dtoa.o", "libm.o", "cutils.o"])
    );
    assert_eq!(removed(&steps[14]), "../lib/libmquickjs_stdlib_base.a");
    assert_eq!(run_of(&steps[15]).1, strings(&["rcs", "../lib/libmquickjs_stdlib_base.a", "mqjs_stdlib_impl.o"]));
}

#[test]
fn ridl_cross_build_steps() {
    let steps = build_steps(&inputs(true, true));
    assert_eq!(steps.len(), 19);
    assert_eq!(run_of(&steps[0]).1.last().unwrap(), "-DMQUICKJS_ENABLE_RIDL_EXTENSIONS");
    assert_eq!(run_of(&steps[0]).0, "gcc");
    assert_eq!(
        run_of(&steps[4]),
        ("/b/mqjs_ridl_stdlib".to_string(), strings(&["-M", "/inc/mquickjs_romclass_index.json"]), None)
    );
    assert_eq!(
        run_of(&steps[5]),
        (
            "clang".to_string(),
            strings(&[
                "--target=thumbv7em-none-eabihf", "-ffreestanding", "-I", "/stubs", "-c", "/e/mquickjs.c", "-o",
                "mquickjs.o", "-I", "/inc", "-I", "/e", "-include", "stddef.h"
            ]),
            None
        )
    );
    let stdlib = run_of(&steps[9]).1;
    assert_eq!(
        stdlib[stdlib.len() - 3..].to_vec(),
        strings(&["-include", "mquickjs_ridl_api.h", "-DMQUICKJS_ENABLE_RIDL_EXTENSIONS"])
    );
    assert_eq!(
        run_of(&steps[10]).1[4..8].to_vec(),
        strings(&["-c", "/inc/mquickjs_ridl_register.c", "-o", "mquickjs_ridl_register.o"])
    );
    assert_eq!(run_of(&steps[11]).1[5], "/s/require.c");
    assert_eq!(
        run_of(&steps[18]).1,
        strings(&[
            "rcs", "../lib/libmquickjs_stdlib_ridl.a", "mqjs_stdlib_impl.o", "mquickjs_ridl_register.o", "mqjs_require.o"
        ])
    );
}
