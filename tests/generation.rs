use sdk_bindings::header::{append_hex8, generate_bindings_header};
use sdk_bindings::number::parse_u16;
use sdk_bindings::opts::{forward_slash_text, replace_text, resolve_sdk_text};
use sdk_bindings::plan::{
    assemble_plan, compiler_flags, plan_bindings, symbols_path, toolchain_subpath, HostFamily,
    SdkOpts, SetupError,
};
use sdk_bindings::symbols::ApiSymbols;
use sdk_bindings::text::same_text;

fn symbols(version: u32, headers: &[&str], functions: &[&str], variables: &[&str]) -> ApiSymbols {
    let own = |v: &[&str]| v.iter().map(|s| s.to_string()).collect::<Vec<String>>();
    ApiSymbols {
        api_version: version,
        headers: own(headers),
        functions: own(functions),
        variables: own(variables),
    }
}

fn opts(cc_args: &str) -> SdkOpts {
    SdkOpts {
        sdk_symbols: "SDK_ROOT_DIR\\api_symbols.csv".to_string(),
        cc_args: cc_args.to_string(),
        cpp_args: String::new(),
        linker_args: String::new(),
        linker_script: String::new(),
    }
}

#[test]
fn header_lists_version_then_includes() {
    let h = generate_bindings_header(&symbols(0x0001_0002, &["a.h", "b.h"], &[], &[]));
    assert_eq!(h, "#define API_VERSION 0x00010002\n#include \"a.h\"\n#include \"b.h\"");
    assert_eq!(h.lines().next(), Some("#define API_VERSION 0x00010002"));
}

#[test]
fn header_without_includes_is_one_line() {
    let h = generate_bindings_header(&symbols(0xDEAD_BEEF, &[], &[], &[]));
    assert_eq!(h, "#define API_VERSION 0xDEADBEEF");
}

#[test]
fn header_keeps_repeated_includes() {
    let h = generate_bindings_header(&symbols(0, &["x.h", "x.h"], &[], &[]));
    assert_eq!(h, "#define API_VERSION 0x00000000\n#include \"x.h\"\n#include \"x.h\"");
}

#[test]
fn hex_is_eight_upper_case_digits() {
    let mut s = String::from("0x");
    append_hex8(&mut s, 0x00AB_C0F1);
    assert_eq!(s, "0x00ABC0F1");
    let mut t = String::new();
    append_hex8(&mut t, u32::MAX);
    assert_eq!(t, "FFFFFFFF");
}

#[test]
fn u16_reading_follows_decimal_rules() {
    assert_eq!(parse_u16("x65535y", 1, 6), Some(65535));
    assert_eq!(parse_u16("+7", 0, 2), Some(7));
    assert_eq!(parse_u16("+", 0, 1), None);
    assert_eq!(parse_u16("", 0, 0), None);
    assert_eq!(parse_u16("65536", 0, 5), None);
    assert_eq!(parse_u16("0007", 0, 4), Some(7));
    assert_eq!(parse_u16("99999999999", 0, 11), None);
}

#[test]
fn quoted_flags_stay_one_word() {
    let flags = compiler_flags(&opts("-DFOO=\"bar baz\" -Iinclude"), "/sdk").unwrap();
    assert_eq!(flags, vec!["-DFOO=bar baz", "-Iinclude"]);
}

#[test]
fn flags_get_the_sdk_root() {
    let flags = compiler_flags(&opts("-ISDK_ROOT_DIR\\lib -DX"), "C:\\work\\sdk").unwrap();
    assert_eq!(flags, vec!["-IC:/work/sdk/lib", "-DX"]);
}

#[test]
fn unclosed_quote_is_refused() {
    let r = compiler_flags(&opts("-DFOO=\"bar"), "/sdk");
    assert_eq!(r.unwrap_err(), SetupError::MalformedCompilerFlags);
}

#[test]
fn manifest_path_is_resolved() {
    assert_eq!(symbols_path(&opts(""), "/home/u/sdk"), "/home/u/sdk/api_symbols.csv");
}

#[test]
fn placeholder_and_separators_are_resolved() {
    assert_eq!(
        resolve_sdk_text("SDK_ROOT_DIR\\a;SDK_ROOT_DIR/b", "D:\\x"),
        "D:/x/a;D:/x/b"
    );
    assert_eq!(resolve_sdk_text("no placeholder", "/r"), "no placeholder");
}

#[test]
fn replacement_is_left_to_right_without_overlap() {
    assert_eq!(replace_text("aaaa", "aa", "b"), "bb");
    assert_eq!(replace_text("aaa", "aa", "b"), "ba");
    assert_eq!(replace_text("xay", "a", ""), "xy");
    assert_eq!(replace_text("", "a", "b"), "");
    assert_eq!(replace_text("SDK_ROOT_DI", "SDK_ROOT_DIR", "r"), "SDK_ROOT_DI");
}

#[test]
fn backslashes_become_slashes() {
    assert_eq!(forward_slash_text("a\\b\\\\c/d"), "a/b//c/d");
}

#[test]
fn text_comparison_is_exact() {
    assert!(same_text("+", "+"));
    assert!(!same_text("+", "+ "));
    assert!(!same_text("Version", "version"));
    assert!(same_text("", ""));
}

#[test]
fn toolchain_paths_per_host() {
    assert_eq!(
        toolchain_subpath(HostFamily::Linux),
        "../../../toolchain/x86_64-linux/arm-none-eabi/include"
    );
    assert_eq!(
        toolchain_subpath(HostFamily::Windows),
        "../../../toolchain/i686-windows/arm-none-eabi/include"
    );
}

#[test]
fn plan_holds_arguments_and_allow_list() {
    let s = symbols(0x0001_0002, &["a.h"], &["f1", "f2"], &["v1"]);
    let p = plan_bindings("/sdk", "/sdk/tc", true, &opts("-DFOO=\"bar baz\" -Iinclude"), &s).unwrap();
    assert_eq!(p.header, "#define API_VERSION 0x00010002\n#include \"a.h\"");
    assert_eq!(
        p.clang_args,
        vec![
            "-working-directory",
            "/sdk",
            "--system-header-prefix=f7_sdk/",
            "-isystem",
            "/sdk/tc",
            "-DFOO=bar baz",
            "-Iinclude",
            "-Wno-error",
            "-fshort-enums",
        ]
    );
    assert_eq!(p.functions, vec!["f1", "f2"]);
    assert_eq!(p.variables, vec!["API_VERSION", "v1"]);
}

#[test]
fn missing_toolchain_refuses_the_plan() {
    let s = symbols(1, &["a.h"], &["f"], &[]);
    let r = plan_bindings("/sdk", "/sdk/tc", false, &opts("-Iinclude"), &s);
    assert_eq!(r.err(), Some(SetupError::ToolchainMissing));
    let r = plan_bindings("/sdk", "/sdk/tc", false, &opts("\"open"), &s);
    assert_eq!(r.err(), Some(SetupError::ToolchainMissing));
}

#[test]
fn same_inputs_give_the_same_plan() {
    let s = symbols(0x0003_0004, &["a.h", "b.h"], &["f"], &["v"]);
    let o = opts("-DA=1 'x y'");
    let a = plan_bindings("/sdk", "/tc", true, &o, &s).unwrap();
    let b = plan_bindings("/sdk", "/tc", true, &o, &s).unwrap();
    assert_eq!(a.header, b.header);
    assert_eq!(a.clang_args, b.clang_args);
    assert_eq!(a.functions, b.functions);
    assert_eq!(a.variables, b.variables);
}

#[test]
fn assembled_plan_appends_flags_verbatim() {
    let s = symbols(0, &[], &[], &[]);
    let flags = vec!["-x".to_string(), "a b".to_string()];
    let p = assemble_plan("r", "t", &flags, &s);
    assert_eq!(p.clang_args[5..7].to_vec(), vec!["-x", "a b"]);
    assert_eq!(p.clang_args.len(), 9);
    assert!(p.functions.is_empty());
    assert_eq!(p.variables, vec!["API_VERSION"]);
}
