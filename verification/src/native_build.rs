//! The native build of the engine: the command line of the build tool, and
//! the steps that compile the generator tool, generate the ROM headers,
//! compile the engine objects and pack them into archives. The paths that
//! the steps name are given already resolved; running the steps is left to
//! the caller.

use crate::ridl::text::{push_str, push_string};
use crate::ridl_glue::{opt_view, string_from_chars, string_is};
use vstd::prelude::*;

verus! {

/// The options of a `build` command.
pub struct BuildArgs {
    /// The engine's source directory (`--mquickjs-dir`).
    pub mquickjs_dir: String,
    /// The RIDL register header, for the variant with RIDL extensions
    /// (`--ridl-register-h`).
    pub ridl_register_h: Option<String>,
    /// The target triple to cross-compile the engine for (`--target`).
    pub target: Option<String>,
    /// The output directory (`--out`).
    pub out_dir: String,
}

/// Why a command line is refused.
#[derive(Debug, Clone, PartialEq, Eq)]
pub enum CliError {
    /// No command was given.
    Usage,
    /// The command is not `build`.
    UnknownCommand(String),
    /// An option is not one of the four known.
    UnknownArg(String),
    /// `--mquickjs-dir` is missing or has no value.
    MissingMquickjsDir,
    /// `--out` is missing or has no value.
    MissingOut,
}

/// The options seen so far.
pub struct ArgsV {
    pub mquickjs_dir: Option<Seq<char>>,
    pub ridl_register_h: Option<Seq<char>>,
    pub target: Option<Seq<char>>,
    pub out_dir: Option<Seq<char>>,
}

pub open spec fn no_args() -> ArgsV {
    ArgsV { mquickjs_dir: None, ridl_register_h: None, target: None, out_dir: None }
}

/// The argument after position `i`, if there is one.
pub open spec fn value_after(args: Seq<String>, i: int) -> Option<Seq<char>> {
    if 0 <= i + 1 < args.len() {
        Some(args[i + 1]@)
    } else {
        None
    }
}

/// The options from position `i` on, after `st`: each known option takes the
/// next argument as its value (none at the end, which unsets it); an unknown
/// one stops the scan.
pub open spec fn scan_args(args: Seq<String>, i: int, st: ArgsV) -> Result<ArgsV, Seq<char>>
    decreases args.len() + 1 - i,
{
    if i < 0 || i >= args.len() {
        Ok(st)
    } else {
        let a = args[i]@;
        let v = value_after(args, i);
        if a == "--mquickjs-dir"@ {
            scan_args(args, i + 2, ArgsV { mquickjs_dir: v, ..st })
        } else if a == "--ridl-register-h"@ {
            scan_args(args, i + 2, ArgsV { ridl_register_h: v, ..st })
        } else if a == "--out"@ {
            scan_args(args, i + 2, ArgsV { out_dir: v, ..st })
        } else if a == "--target"@ {
            scan_args(args, i + 2, ArgsV { target: v, ..st })
        } else {
            Err(a)
        }
    }
}

/// The view of the options of a `build` command.
pub struct BuildArgsV {
    pub mquickjs_dir: Seq<char>,
    pub ridl_register_h: Option<Seq<char>>,
    pub target: Option<Seq<char>>,
    pub out_dir: Seq<char>,
}

pub open spec fn build_args_view(b: BuildArgs) -> BuildArgsV {
    BuildArgsV {
        mquickjs_dir: b.mquickjs_dir@,
        ridl_register_h: opt_view(b.ridl_register_h),
        target: opt_view(b.target),
        out_dir: b.out_dir@,
    }
}

/// The view of a refusal.
pub enum CliErrorV {
    Usage,
    UnknownCommand(Seq<char>),
    UnknownArg(Seq<char>),
    MissingMquickjsDir,
    MissingOut,
}

pub open spec fn cli_error_view(e: CliError) -> CliErrorV {
    match e {
        CliError::Usage => CliErrorV::Usage,
        CliError::UnknownCommand(c) => CliErrorV::UnknownCommand(c@),
        CliError::UnknownArg(a) => CliErrorV::UnknownArg(a@),
        CliError::MissingMquickjsDir => CliErrorV::MissingMquickjsDir,
        CliError::MissingOut => CliErrorV::MissingOut,
    }
}

/// What a command line (without the program name) asks for.
pub open spec fn spec_parse_cli(args: Seq<String>) -> Result<BuildArgsV, CliErrorV> {
    if args.len() == 0 {
        Err(CliErrorV::Usage)
    } else if args[0]@ != "build"@ {
        Err(CliErrorV::UnknownCommand(args[0]@))
    } else {
        match scan_args(args, 1, no_args()) {
            Err(a) => Err(CliErrorV::UnknownArg(a)),
            Ok(st) => match st.mquickjs_dir {
                None => Err(CliErrorV::MissingMquickjsDir),
                Some(d) => match st.out_dir {
                    None => Err(CliErrorV::MissingOut),
                    Some(o) => Ok(
                        BuildArgsV {
                            mquickjs_dir: d,
                            ridl_register_h: st.ridl_register_h,
                            target: st.target,
                            out_dir: o,
                        },
                    ),
                },
            },
        }
    }
}

/// Reads the command line of the build tool (without the program name).
pub fn parse_cli(args: &Vec<String>) -> (r: Result<BuildArgs, CliError>)
    ensures
        match r {
            Ok(b) => spec_parse_cli(args@) == Ok::<BuildArgsV, CliErrorV>(build_args_view(b)),
            Err(e) => spec_parse_cli(args@) == Err::<BuildArgsV, CliErrorV>(cli_error_view(e)),
        },
{
    let n = args.len();
    if n == 0 {
        return Err(CliError::Usage);
    }
    if !string_is(&args[0], "build") {
        return Err(CliError::UnknownCommand(args[0].clone()));
    }
    let mut mquickjs_dir: Option<String> = None;
    let mut ridl_register_h: Option<String> = None;
    let mut target: Option<String> = None;
    let mut out_dir: Option<String> = None;
    let mut i: usize = 1;
    while i < n
        invariant
            n == args@.len(),
            n > 0,
            args@[0]@ == "build"@,
            1 <= i <= n,
            scan_args(args@, 1, no_args()) == scan_args(
                args@,
                i as int,
                ArgsV {
                    mquickjs_dir: opt_view(mquickjs_dir),
                    ridl_register_h: opt_view(ridl_register_h),
                    target: opt_view(target),
                    out_dir: opt_view(out_dir),
                },
            ),
        decreases n - i,
    {
        let a = &args[i];
        let v = if i + 1 < n {
            Some(args[i + 1].clone())
        } else {
            None
        };
        if string_is(a, "--mquickjs-dir") {
            mquickjs_dir = v;
        } else if string_is(a, "--ridl-register-h") {
            ridl_register_h = v;
        } else if string_is(a, "--out") {
            out_dir = v;
        } else if string_is(a, "--target") {
            target = v;
        } else {
            return Err(CliError::UnknownArg(a.clone()));
        }
        let next = if i + 1 < n {
            i + 2
        } else {
            n
        };
        proof {
            let st = ArgsV {
                mquickjs_dir: opt_view(mquickjs_dir),
                ridl_register_h: opt_view(ridl_register_h),
                target: opt_view(target),
                out_dir: opt_view(out_dir),
            };
            if i + 1 >= n {
                assert(scan_args(args@, i + 2, st) == Ok::<ArgsV, Seq<char>>(st));
                assert(scan_args(args@, n as int, st) == Ok::<ArgsV, Seq<char>>(st));
            }
        }
        i = next;
    }
    match mquickjs_dir {
        None => Err(CliError::MissingMquickjsDir),
        Some(d) => match out_dir {
            None => Err(CliError::MissingOut),
            Some(o) => Ok(BuildArgs { mquickjs_dir: d, ridl_register_h, target, out_dir: o }),
        },
    }
}

/// A command to run in the build directory.
pub struct Command {
    /// The program.
    pub program: String,
    /// Its arguments.
    pub args: Vec<String>,
    /// The file of the include directory that receives its standard output,
    /// if it is kept.
    pub stdout_to: Option<String>,
}

/// A step of the native build.
pub enum Step {
    /// Runs a command; a failure stops the build.
    Run(Command),
    /// Removes a file of the build directory, if it is there.
    Remove(String),
}

pub struct CommandV {
    pub program: Seq<char>,
    pub args: Seq<Seq<char>>,
    pub stdout_to: Option<Seq<char>>,
}

pub enum StepV {
    Run(CommandV),
    Remove(Seq<char>),
}

pub open spec fn strings_view(v: Seq<String>) -> Seq<Seq<char>> {
    v.map_values(|s: String| s@)
}

pub open spec fn command_view(c: Command) -> CommandV {
    CommandV { program: c.program@, args: strings_view(c.args@), stdout_to: opt_view(c.stdout_to) }
}

pub open spec fn step_view(s: Step) -> StepV {
    match s {
        Step::Run(c) => StepV::Run(command_view(c)),
        Step::Remove(f) => StepV::Remove(f@),
    }
}

pub open spec fn steps_view(s: Seq<Step>) -> Seq<StepV> {
    s.map_values(|x: Step| step_view(x))
}

/// The compiler for a cross target, and the stub headers it uses.
pub struct CrossCc {
    /// The target triple.
    pub triple: String,
    /// The directory of the freestanding libc stub headers.
    pub stubs: String,
}

/// The sources of the variant with RIDL extensions.
pub struct RidlSources {
    /// The generated RIDL runtime glue (`mquickjs_ridl_register.c` in the include directory).
    pub register_c: String,
    /// The `require()` support (`require.c`).
    pub require_c: String,
    /// Where the generator tool dumps the ROM class index.
    pub romclass_index: String,
}

/// The resolved paths that the build steps name.
pub struct BuildInputs {
    /// The engine's source directory.
    pub engine_dir: String,
    /// The include directory of the output.
    pub include_dir: String,
    /// The engine's `mquickjs_build.c`.
    pub build_c: String,
    /// The stdlib template that becomes the generator tool.
    pub template: String,
    /// The generator tool, once linked in the build directory.
    pub tool: String,
    /// The engine's core sources, in the order of `core_source_names`.
    pub core_sources: Vec<String>,
    /// The stdlib implementation.
    pub stdlib_impl: String,
    /// The RIDL sources, for the variant with RIDL extensions.
    pub ridl: Option<RidlSources>,
    /// The cross compiler, when a target is given.
    pub cross: Option<CrossCc>,
}

/// The core sources of the engine, compiled alike in both variants.
pub open spec fn core_source_names() -> Seq<Seq<char>> {
    seq!["mquickjs.c"@, "dtoa.c"@, "libm.c"@, "cutils.c"@]
}

/// A file name less every trailing `.c`.
pub open spec fn trim_c(name: Seq<char>) -> Seq<char>
    decreases name.len(),
{
    if name.len() >= 2 && name[name.len() - 2] == '.' && name[name.len() - 1] == 'c' {
        trim_c(name.subrange(0, name.len() - 2))
    } else {
        name
    }
}

/// The object file of a source: its name less `.c`, then `.o`.
pub open spec fn object_name(src: Seq<char>) -> Seq<char> {
    trim_c(src) + seq!['.', 'o']
}

pub open spec fn ridl_define() -> Seq<char> {
    "-DMQUICKJS_ENABLE_RIDL_EXTENSIONS"@
}

/// The define of the RIDL variant, if it is built.
pub open spec fn ridl_flags(inp: BuildInputs) -> Seq<Seq<char>> {
    if inp.ridl is Some {
        seq![ridl_define()]
    } else {
        seq![]
    }
}

/// The include options every compilation of the engine takes.
pub open spec fn includes(inp: BuildInputs) -> Seq<Seq<char>> {
    seq!["-I"@, inp.include_dir@, "-I"@, inp.engine_dir@, "-include"@, "stddef.h"@]
}

/// The compiler of the engine objects: `clang` for a cross target, `gcc` for the host.
pub open spec fn cc_program(inp: BuildInputs) -> Seq<char> {
    if inp.cross is Some {
        "clang"@
    } else {
        "gcc"@
    }
}

/// The options a cross compilation starts with.
pub open spec fn cc_prefix(inp: BuildInputs) -> Seq<Seq<char>> {
    match inp.cross {
        Some(x) => seq!["--target="@ + x.triple@, "-ffreestanding"@, "-I"@, x.stubs@],
        None => seq![],
    }
}

pub open spec fn run_step(program: Seq<char>, args: Seq<Seq<char>>, stdout_to: Option<Seq<char>>) -> StepV {
    StepV::Run(CommandV { program, args, stdout_to })
}

/// Compiling the generator tool's host object.
pub open spec fn host_object_step(inp: BuildInputs) -> StepV {
    run_step(
        "gcc"@,
        seq!["-c"@, inp.build_c@, "-o"@, "mquickjs_build.host.o"@, "-D__HOST__"@, "-include"@, "stddef.h"@]
            + ridl_flags(inp),
        None,
    )
}

/// Linking the generator tool from the stdlib template.
pub open spec fn tool_link_step(inp: BuildInputs) -> StepV {
    run_step(
        "gcc"@,
        seq!["-D__HOST__"@, inp.template@, "mquickjs_build.host.o"@, "-o"@, "mqjs_ridl_stdlib"@] + includes(inp)
            + ridl_flags(inp),
        None,
    )
}

/// Running the generator tool: the atoms header, the stdlib header, and for
/// the RIDL variant the ROM class index.
pub open spec fn generate_steps(inp: BuildInputs) -> Seq<StepV> {
    seq![
        run_step(inp.tool@, seq!["-a"@], Some("mquickjs_atom.h"@)),
        run_step(inp.tool@, seq![], Some("mqjs_ridl_stdlib.h"@)),
    ] + match inp.ridl {
        Some(r) => seq![run_step(inp.tool@, seq!["-M"@, r.romclass_index@], None)],
        None => seq![],
    }
}

/// Compiling one engine object with the target compiler.
pub open spec fn target_compile(inp: BuildInputs, src: Seq<char>, obj: Seq<char>, extra: Seq<Seq<char>>) -> StepV {
    run_step(cc_program(inp), cc_prefix(inp) + seq!["-c"@, src, "-o"@, obj] + includes(inp) + extra, None)
}

/// Compiling the first `n` core sources.
pub open spec fn core_steps(inp: BuildInputs, n: nat) -> Seq<StepV>
    decreases n,
{
    if n == 0 {
        seq![]
    } else {
        core_steps(inp, (n - 1) as nat).push(
            target_compile(inp, inp.core_sources@[n - 1]@, object_name(core_source_names()[n - 1]), seq![]),
        )
    }
}

/// Compiling the stdlib implementation: with the RIDL API for the RIDL
/// variant, with weak exported symbols for the base variant.
pub open spec fn stdlib_step(inp: BuildInputs) -> StepV {
    target_compile(
        inp,
        inp.stdlib_impl@,
        "mqjs_stdlib_impl.o"@,
        if inp.ridl is Some {
            seq!["-include"@, "mquickjs_ridl_api.h"@, ridl_define()]
        } else {
            seq!["-DJS_STDLIB_LINKAGE=__attribute__((weak))"@]
        },
    )
}

/// Compiling the RIDL runtime glue and `require()` support, for the RIDL variant.
pub open spec fn ridl_steps(inp: BuildInputs) -> Seq<StepV> {
    match inp.ridl {
        Some(r) => seq![
            target_compile(
                inp,
                r.register_c@,
                "mquickjs_ridl_register.o"@,
                seq!["-include"@, "mquickjs_ridl_api.h"@, "-include"@, "mquickjs_ridl_register.h"@, ridl_define()],
            ),
            target_compile(
                inp,
                r.require_c@,
                "mqjs_require.o"@,
                seq!["-include"@, "mquickjs_ridl_api.h"@, ridl_define()],
            ),
        ],
        None => seq![],
    }
}

/// The core objects, the same in both variants.
pub open spec fn core_objects() -> Seq<Seq<char>> {
    core_source_names().map_values(|n: Seq<char>| object_name(n))
}

/// The objects of the variant's stdlib.
pub open spec fn stdlib_objects(inp: BuildInputs) -> Seq<Seq<char>> {
    seq!["mqjs_stdlib_impl.o"@] + if inp.ridl is Some {
        seq!["mquickjs_ridl_register.o"@, "mqjs_require.o"@]
    } else {
        seq![]
    }
}

/// The variant's name: `ridl` with RIDL extensions, `base` without.
pub open spec fn variant_name(ridl: bool) -> Seq<char> {
    if ridl {
        "ridl"@
    } else {
        "base"@
    }
}

/// Packing an archive afresh: the old one is removed first.
pub open spec fn pack_steps(name: Seq<char>, objects: Seq<Seq<char>>) -> Seq<StepV> {
    seq![StepV::Remove(name), run_step("ar"@, seq!["rcs"@, name] + objects, None)]
}

/// The archives: every object, the core objects, and the variant's stdlib,
/// after the archive of the old, variant-less name is removed.
pub open spec fn archive_steps(inp: BuildInputs) -> Seq<StepV> {
    seq![StepV::Remove("../lib/libmquickjs_stdlib.a"@)] + pack_steps(
        "../lib/libmquickjs.a"@,
        core_objects() + stdlib_objects(inp),
    ) + pack_steps("../lib/libmquickjs_core.a"@, core_objects()) + pack_steps(
        "../lib/libmquickjs_stdlib_"@ + variant_name(inp.ridl is Some) + ".a"@,
        stdlib_objects(inp),
    )
}

/// Every step of the native build, in order.
pub open spec fn spec_build_steps(inp: BuildInputs) -> Seq<StepV> {
    seq![host_object_step(inp), tool_link_step(inp)] + generate_steps(inp) + core_steps(inp, 4) + seq![
        stdlib_step(inp),
    ] + ridl_steps(inp) + archive_steps(inp)
}

/// A string of the given text.
fn owned(text: &str) -> (r: String)
    ensures
        r@ == text@,
{
    let mut v: Vec<char> = Vec::new();
    push_str(&mut v, text);
    string_from_chars(v)
}

/// Appends a string to a list of arguments.
fn push_arg(args: &mut Vec<String>, a: String)
    ensures
        strings_view(final(args)@) == strings_view(old(args)@).push(a@),
{
    let ghost before = args@;
    args.push(a);
    assert(strings_view(args@) =~= strings_view(before).push(a@));
}

/// Appends a copy of each string of a list.
fn add_all(args: &mut Vec<String>, more: &Vec<String>)
    ensures
        strings_view(final(args)@) == strings_view(old(args)@) + strings_view(more@),
{
    let ghost start = strings_view(args@);
    for k in 0..more.len()
        invariant
            strings_view(args@) == start + strings_view(more@.take(k as int)),
    {
        push_arg(args, more[k].clone());
        assert(more@.take(k + 1) =~= more@.take(k as int).push(more@[k as int]));
        assert(strings_view(more@.take(k + 1)) =~= strings_view(more@.take(k as int)).push(more@[k as int]@));
    }
    assert(more@.take(more@.len() as int) =~= more@);
}

fn push_step(steps: &mut Vec<Step>, s: Step)
    ensures
        steps_view(final(steps)@) == steps_view(old(steps)@).push(step_view(s)),
{
    let ghost before = steps@;
    let ghost sv = step_view(s);
    steps.push(s);
    assert(steps_view(steps@) =~= steps_view(before).push(sv));
}

fn run(program: String, args: Vec<String>, stdout_to: Option<String>) -> (r: Step)
    ensures
        step_view(r) == run_step(program@, strings_view(args@), opt_view(stdout_to)),
{
    Step::Run(Command { program, args, stdout_to })
}

fn add_ridl_flags(args: &mut Vec<String>, inp: &BuildInputs)
    ensures
        strings_view(final(args)@) == strings_view(old(args)@) + ridl_flags(*inp),
{
    let ghost start = strings_view(args@);
    if inp.ridl.is_some() {
        push_arg(args, owned("-DMQUICKJS_ENABLE_RIDL_EXTENSIONS"));
    }
    assert(strings_view(args@) =~= start + ridl_flags(*inp));
}

fn add_includes(args: &mut Vec<String>, inp: &BuildInputs)
    ensures
        strings_view(final(args)@) == strings_view(old(args)@) + includes(*inp),
{
    let ghost start = strings_view(args@);
    push_arg(args, owned("-I"));
    push_arg(args, inp.include_dir.clone());
    push_arg(args, owned("-I"));
    push_arg(args, inp.engine_dir.clone());
    push_arg(args, owned("-include"));
    push_arg(args, owned("stddef.h"));
    assert(strings_view(args@) =~= start + includes(*inp));
}

fn host_object(inp: &BuildInputs) -> (r: Step)
    ensures
        step_view(r) == host_object_step(*inp),
{
    let mut a: Vec<String> = Vec::new();
    push_arg(&mut a, owned("-c"));
    push_arg(&mut a, inp.build_c.clone());
    push_arg(&mut a, owned("-o"));
    push_arg(&mut a, owned("mquickjs_build.host.o"));
    push_arg(&mut a, owned("-D__HOST__"));
    push_arg(&mut a, owned("-include"));
    push_arg(&mut a, owned("stddef.h"));
    add_ridl_flags(&mut a, inp);
    assert(strings_view(a@) =~= seq![
        "-c"@,
        inp.build_c@,
        "-o"@,
        "mquickjs_build.host.o"@,
        "-D__HOST__"@,
        "-include"@,
        "stddef.h"@,
    ] + ridl_flags(*inp));
    run(owned("gcc"), a, None)
}

fn tool_link(inp: &BuildInputs) -> (r: Step)
    ensures
        step_view(r) == tool_link_step(*inp),
{
    let mut a: Vec<String> = Vec::new();
    push_arg(&mut a, owned("-D__HOST__"));
    push_arg(&mut a, inp.template.clone());
    push_arg(&mut a, owned("mquickjs_build.host.o"));
    push_arg(&mut a, owned("-o"));
    push_arg(&mut a, owned("mqjs_ridl_stdlib"));
    add_includes(&mut a, inp);
    add_ridl_flags(&mut a, inp);
    assert(strings_view(a@) =~= seq![
        "-D__HOST__"@,
        inp.template@,
        "mquickjs_build.host.o"@,
        "-o"@,
        "mqjs_ridl_stdlib"@,
    ] + includes(*inp) + ridl_flags(*inp));
    run(owned("gcc"), a, None)
}

fn cc_compile(inp: &BuildInputs, src: String, obj: String, extra: Vec<String>) -> (r: Step)
    ensures
        step_view(r) == target_compile(*inp, src@, obj@, strings_view(extra@)),
{
    let mut a: Vec<String> = Vec::new();
    let program = match &inp.cross {
        Some(x) => {
            let mut t: Vec<char> = Vec::new();
            push_str(&mut t, "--target=");
            push_string(&mut t, &x.triple);
            push_arg(&mut a, string_from_chars(t));
            push_arg(&mut a, owned("-ffreestanding"));
            push_arg(&mut a, owned("-I"));
            push_arg(&mut a, x.stubs.clone());
            owned("clang")
        },
        None => owned("gcc"),
    };
    assert(strings_view(a@) =~= cc_prefix(*inp));
    push_arg(&mut a, owned("-c"));
    push_arg(&mut a, src);
    push_arg(&mut a, owned("-o"));
    push_arg(&mut a, obj);
    add_includes(&mut a, inp);
    add_all(&mut a, &extra);
    assert(strings_view(a@) =~= cc_prefix(*inp) + seq!["-c"@, src@, "-o"@, obj@] + includes(*inp)
        + strings_view(extra@));
    run(program, a, None)
}

/// The object file of a source: its name less every trailing `.c`, then `.o`.
pub fn object_file_name(src: &str) -> (r: String)
    ensures
        r@ == object_name(src@),
{
    let mut chars: Vec<char> = Vec::new();
    push_str(&mut chars, src);
    let ghost whole = chars@;
    let mut n = chars.len();
    assert(chars@.subrange(0, n as int) =~= whole);
    while n >= 2 && chars[n - 2] == '.' && chars[n - 1] == 'c'
        invariant
            n <= chars@.len(),
            chars@ == whole,
            trim_c(whole) == trim_c(chars@.subrange(0, n as int)),
        decreases n,
    {
        assert(chars@.subrange(0, n as int).subrange(0, n - 2) =~= chars@.subrange(0, n - 2));
        n = n - 2;
    }
    let mut out: Vec<char> = Vec::new();
    let mut k: usize = 0;
    while k < n
        invariant
            n <= chars@.len(),
            k <= n,
            out@ == chars@.subrange(0, k as int),
        decreases n - k,
    {
        out.push(chars[k]);
        assert(out@ =~= chars@.subrange(0, k + 1));
        k = k + 1;
    }
    out.push('.');
    out.push('o');
    assert(trim_c(chars@.subrange(0, n as int)) == chars@.subrange(0, n as int));
    assert(out@ =~= object_name(src@));
    string_from_chars(out)
}

/// The core sources of the engine.
pub fn core_sources() -> (r: Vec<String>)
    ensures
        strings_view(r@) == core_source_names(),
{
    let mut v: Vec<String> = Vec::new();
    push_arg(&mut v, owned("mquickjs.c"));
    push_arg(&mut v, owned("dtoa.c"));
    push_arg(&mut v, owned("libm.c"));
    push_arg(&mut v, owned("cutils.c"));
    assert(strings_view(v@) =~= core_source_names());
    v
}

fn stdlib_objects_exec(inp: &BuildInputs) -> (r: Vec<String>)
    ensures
        strings_view(r@) == stdlib_objects(*inp),
{
    let mut v: Vec<String> = Vec::new();
    push_arg(&mut v, owned("mqjs_stdlib_impl.o"));
    if inp.ridl.is_some() {
        push_arg(&mut v, owned("mquickjs_ridl_register.o"));
        push_arg(&mut v, owned("mqjs_require.o"));
    }
    assert(strings_view(v@) =~= stdlib_objects(*inp));
    v
}

fn pack(steps: &mut Vec<Step>, name: &str, objects: &Vec<String>)
    ensures
        steps_view(final(steps)@) == steps_view(old(steps)@) + pack_steps(name@, strings_view(objects@)),
{
    let ghost start = steps_view(steps@);
    push_step(steps, Step::Remove(owned(name)));
    let mut a: Vec<String> = Vec::new();
    push_arg(&mut a, owned("rcs"));
    push_arg(&mut a, owned(name));
    add_all(&mut a, objects);
    assert(strings_view(a@) =~= seq!["rcs"@, name@] + strings_view(objects@));
    push_step(steps, run(owned("ar"), a, None));
    assert(steps_view(steps@) =~= start + pack_steps(name@, strings_view(objects@)));
}

/// The name of the variant: `ridl` with RIDL extensions, `base` without.
pub fn variant(ridl: bool) -> (r: &'static str)
    ensures
        r@ == variant_name(ridl),
{
    if ridl {
        "ridl"
    } else {
        "base"
    }
}

/// The steps of the native build, in order: compile and link the generator
/// tool on the host, run it to generate the ROM headers, compile the core
/// sources, the stdlib and (for the RIDL variant) the RIDL runtime glue and
/// `require()` with the target compiler, and pack the archives.
pub fn build_steps(inp: &BuildInputs) -> (r: Vec<Step>)
    requires
        inp.core_sources@.len() == 4,
    ensures
        steps_view(r@) == spec_build_steps(*inp),
{
    let mut steps: Vec<Step> = Vec::new();
    push_step(&mut steps, host_object(inp));
    push_step(&mut steps, tool_link(inp));
    let mut a1: Vec<String> = Vec::new();
    push_arg(&mut a1, owned("-a"));
    assert(strings_view(a1@) =~= seq!["-a"@]);
    push_step(&mut steps, run(inp.tool.clone(), a1, Some(owned("mquickjs_atom.h"))));
    let a2: Vec<String> = Vec::new();
    assert(strings_view(a2@) =~= Seq::<Seq<char>>::empty());
    push_step(&mut steps, run(inp.tool.clone(), a2, Some(owned("mqjs_ridl_stdlib.h"))));
    match &inp.ridl {
        Some(r) => {
            let mut a3: Vec<String> = Vec::new();
            push_arg(&mut a3, owned("-M"));
            push_arg(&mut a3, r.romclass_index.clone());
            assert(strings_view(a3@) =~= seq!["-M"@, r.romclass_index@]);
            push_step(&mut steps, run(inp.tool.clone(), a3, None));
        },
        None => {},
    }
    let ghost after_generate = steps_view(steps@);
    assert(after_generate =~= seq![host_object_step(*inp), tool_link_step(*inp)] + generate_steps(*inp));
    let names = core_sources();
    assert(names@.len() == strings_view(names@).len());
    for k in 0..4usize
        invariant
            strings_view(names@) == core_source_names(),
            names@.len() == 4,
            inp.core_sources@.len() == 4,
            steps_view(steps@) == after_generate + core_steps(*inp, k as nat),
    {
        let obj = object_file_name(names[k].as_str());
        let extra: Vec<String> = Vec::new();
        assert(strings_view(extra@) =~= Seq::<Seq<char>>::empty());
        push_step(&mut steps, cc_compile(inp, inp.core_sources[k].clone(), obj, extra));
        assert(strings_view(names@)[k as int] == names@[k as int]@);
        assert(names@[k as int]@ == core_source_names()[k as int]);
        assert(target_compile(*inp, inp.core_sources@[k as int]@, object_name(core_source_names()[k as int]), seq![])
            == target_compile(*inp, inp.core_sources@[k as int]@, object_name(names@[k as int]@), Seq::<Seq<char>>::empty()));
        assert(steps_view(steps@) =~= after_generate + core_steps(*inp, (k + 1) as nat));
    }
    let mut extra: Vec<String> = Vec::new();
    if inp.ridl.is_some() {
        push_arg(&mut extra, owned("-include"));
        push_arg(&mut extra, owned("mquickjs_ridl_api.h"));
        push_arg(&mut extra, owned("-DMQUICKJS_ENABLE_RIDL_EXTENSIONS"));
        assert(strings_view(extra@) =~= seq!["-include"@, "mquickjs_ridl_api.h"@, ridl_define()]);
    } else {
        push_arg(&mut extra, owned("-DJS_STDLIB_LINKAGE=__attribute__((weak))"));
        assert(strings_view(extra@) =~= seq!["-DJS_STDLIB_LINKAGE=__attribute__((weak))"@]);
    }
    push_step(&mut steps, cc_compile(inp, inp.stdlib_impl.clone(), owned("mqjs_stdlib_impl.o"), extra));
    let ghost after_stdlib = steps_view(steps@);
    match &inp.ridl {
        Some(r) => {
            let mut e1: Vec<String> = Vec::new();
            push_arg(&mut e1, owned("-include"));
            push_arg(&mut e1, owned("mquickjs_ridl_api.h"));
            push_arg(&mut e1, owned("-include"));
            push_arg(&mut e1, owned("mquickjs_ridl_register.h"));
            push_arg(&mut e1, owned("-DMQUICKJS_ENABLE_RIDL_EXTENSIONS"));
            assert(strings_view(e1@) =~= seq![
                "-include"@,
                "mquickjs_ridl_api.h"@,
                "-include"@,
                "mquickjs_ridl_register.h"@,
                ridl_define(),
            ]);
            push_step(&mut steps, cc_compile(inp, r.register_c.clone(), owned("mquickjs_ridl_register.o"), e1));
            let mut e2: Vec<String> = Vec::new();
            push_arg(&mut e2, owned("-include"));
            push_arg(&mut e2, owned("mquickjs_ridl_api.h"));
            push_arg(&mut e2, owned("-DMQUICKJS_ENABLE_RIDL_EXTENSIONS"));
            assert(strings_view(e2@) =~= seq!["-include"@, "mquickjs_ridl_api.h"@, ridl_define()]);
            push_step(&mut steps, cc_compile(inp, r.require_c.clone(), owned("mqjs_require.o"), e2));
        },
        None => {},
    }
    assert(steps_view(steps@) =~= after_stdlib + ridl_steps(*inp));
    let ghost after_ridl = steps_view(steps@);
    push_step(&mut steps, Step::Remove(owned("../lib/libmquickjs_stdlib.a")));
    let mut core_objs: Vec<String> = Vec::new();
    for k in 0..4usize
        invariant
            strings_view(names@) == core_source_names(),
            names@.len() == 4,
            strings_view(core_objs@) == core_objects().take(k as int),
    {
        assert(strings_view(names@)[k as int] == names@[k as int]@);
        push_arg(&mut core_objs, object_file_name(names[k].as_str()));
        assert(core_objects().take(k + 1) =~= core_objects().take(k as int).push(object_name(names@[k as int]@)));
    }
    assert(core_objects().take(4) =~= core_objects());
    let stdlib_objs = stdlib_objects_exec(inp);
    let mut all_objs: Vec<String> = Vec::new();
    add_all(&mut all_objs, &core_objs);
    add_all(&mut all_objs, &stdlib_objs);
    pack(&mut steps, "../lib/libmquickjs.a", &all_objs);
    pack(&mut steps, "../lib/libmquickjs_core.a", &core_objs);
    let mut name: Vec<char> = Vec::new();
    push_str(&mut name, "../lib/libmquickjs_stdlib_");
    push_str(&mut name, variant(inp.ridl.is_some()));
    push_str(&mut name, ".a");
    let name = string_from_chars(name);
    pack(&mut steps, name.as_str(), &stdlib_objs);
    assert(steps_view(steps@) =~= after_ridl + archive_steps(*inp));
    assert(steps_view(steps@) =~= spec_build_steps(*inp));
    steps
}

/// The libraries a build produces, by name: the whole engine, its core, and
/// the variant's stdlib.
pub fn output_libs(ridl: bool) -> (r: Vec<String>)
    ensures
        strings_view(r@) == seq!["mquickjs"@, "mquickjs_core"@, "mquickjs_stdlib_"@ + variant_name(ridl)],
{
    let mut v: Vec<String> = Vec::new();
    push_arg(&mut v, owned("mquickjs"));
    push_arg(&mut v, owned("mquickjs_core"));
    let mut name: Vec<char> = Vec::new();
    push_str(&mut name, "mquickjs_stdlib_");
    push_str(&mut name, variant(ridl));
    push_arg(&mut v, string_from_chars(name));
    assert(strings_view(v@) =~= seq!["mquickjs"@, "mquickjs_core"@, "mquickjs_stdlib_"@ + variant_name(ridl)]);
    v
}


proof fn lemma_core_steps_len(inp: BuildInputs, n: nat)
    ensures
        core_steps(inp, n).len() == n,
    decreases n,
{
    if n > 0 {
        lemma_core_steps_len(inp, (n - 1) as nat);
    }
}

/// The RIDL variant's define reaches every compilation that must see the
/// RIDL injection, the generator tool included: with RIDL sources, the
/// tool's host object and its link end with
/// `-DMQUICKJS_ENABLE_RIDL_EXTENSIONS`, as the stdlib, the runtime glue and
/// `require()` compilations carry it; without them, both tool steps end
/// with the `stddef.h` include and are one argument shorter.
pub proof fn law_ridl_define_reaches_generator_tool(inp: BuildInputs)
    ensures
        ({
            let s = spec_build_steps(inp);
            let d = "-DMQUICKJS_ENABLE_RIDL_EXTENSIONS"@;
            &&& s[0] matches StepV::Run(c) && c.program == "gcc"@ && c.args.contains(
                "mquickjs_build.host.o"@,
            ) && (inp.ridl is Some ==> c.args.len() == 8 && c.args.last() == d) && (inp.ridl is None
                ==> c.args.len() == 7 && c.args.last() == "stddef.h"@)
            &&& s[1] matches StepV::Run(c) && c.program == "gcc"@ && c.args.contains("mqjs_ridl_stdlib"@) && (
            inp.ridl is Some ==> c.args.len() == 12 && c.args.last() == d) && (inp.ridl is None
                ==> c.args.len() == 11 && c.args.last() == "stddef.h"@)
            &&& inp.ridl is Some ==> forall|k: int|
                9 <= k <= 11 ==> ((#[trigger] s[k]) matches StepV::Run(c) && c.args.contains(d))
        }),
{
    let s = spec_build_steps(inp);
    let d = "-DMQUICKJS_ENABLE_RIDL_EXTENSIONS"@;
    lemma_core_steps_len(inp, 4);
    let head = seq![host_object_step(inp), tool_link_step(inp)];
    assert(s[0] == host_object_step(inp));
    assert(s[1] == tool_link_step(inp));
    if let StepV::Run(c) = host_object_step(inp) {
        assert(c.args[3] == "mquickjs_build.host.o"@);
    }
    if let StepV::Run(c) = tool_link_step(inp) {
        assert(c.args[4] == "mqjs_ridl_stdlib"@);
    }
    if inp.ridl is Some {
        let g = generate_steps(inp);
        assert(g.len() == 3);
        let pre = head + g + core_steps(inp, 4);
        assert(pre.len() == 9);
        assert(s[9] == stdlib_step(inp));
        assert(s[10] == ridl_steps(inp)[0]);
        assert(s[11] == ridl_steps(inp)[1]);
        if let StepV::Run(c) = stdlib_step(inp) {
            assert(c.args.last() == d);
        }
        if let StepV::Run(c) = ridl_steps(inp)[0] {
            assert(c.args.last() == d);
        }
        if let StepV::Run(c) = ridl_steps(inp)[1] {
            assert(c.args.last() == d);
        }
    }
}

} // verus!
