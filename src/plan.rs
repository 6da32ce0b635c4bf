use vstd::prelude::*;
use vstd::string::*;
use crate::header::{bindings_header, generate_bindings_header};
use crate::opts::{resolve_sdk_text, resolved};
use crate::symbols::{texts_of, ApiSymbols, SymbolsModel};

verus! {

/// The SDK's compiler-options file: the manifest's path and the tool
/// argument strings, which may hold the SDK root placeholder.
#[derive(Debug)]
pub struct SdkOpts {
    pub sdk_symbols: String,
    pub cc_args: String,
    pub cpp_args: String,
    pub linker_args: String,
    pub linker_script: String,
}

/// The host families for which the SDK ships a toolchain.
#[derive(Debug, Clone, Copy, PartialEq, Eq, Structural)]
pub enum HostFamily {
    Windows,
    Linux,
}

/// Why the backend cannot be invoked.
#[derive(Debug, Clone, Copy, PartialEq, Eq, Structural)]
pub enum SetupError {
    /// The toolchain's include directory is not under the SDK root.
    ToolchainMissing,
    /// The compiler arguments do not split as shell words.
    MalformedCompilerFlags,
}

/// The macro that the generated bindings always keep.
pub const API_VERSION_NAME: &'static str = "API_VERSION";

/// Where the toolchain's C headers lie, relative to the SDK root.
pub open spec fn toolchain_subpath_of(host: HostFamily) -> Seq<char> {
    match host {
        HostFamily::Windows => "../../../toolchain/i686-windows/arm-none-eabi/include"@,
        HostFamily::Linux => "../../../toolchain/x86_64-linux/arm-none-eabi/include"@,
    }
}

/// Where the toolchain's C headers lie, relative to the SDK root.
pub fn toolchain_subpath(host: HostFamily) -> (r: &'static str)
    ensures
        r@ == toolchain_subpath_of(host),
{
    match host {
        HostFamily::Windows => "../../../toolchain/i686-windows/arm-none-eabi/include",
        HostFamily::Linux => "../../../toolchain/x86_64-linux/arm-none-eabi/include",
    }
}

/// What shlex makes of a string split by POSIX shell rules: its words, or
/// nothing where a quote or escape is left open.
pub uninterp spec fn shell_words(s: Seq<char>) -> Option<Seq<Seq<char>>>;

/// Relies on `shlex::split`: the words of `s` by POSIX shell quoting rules,
/// or `None` where `s` cannot be split.
#[verifier::external_body]
fn split_words(s: &str) -> (r: Option<Vec<String>>)
    ensures
        match r {
            Some(v) => shell_words(s@) == Some(texts_of(v)),
            None => shell_words(s@) is None,
        },
{
    shlex::split(s)
}

/// The manifest's path, with the SDK root put in for its placeholder.
pub fn symbols_path(opts: &SdkOpts, sdk_root: &str) -> (r: String)
    ensures
        r@ == resolved(opts.sdk_symbols@, sdk_root@),
{
    resolve_sdk_text(opts.sdk_symbols.as_str(), sdk_root)
}

/// The C compiler arguments, resolved and split into shell words.
pub fn compiler_flags(opts: &SdkOpts, sdk_root: &str) -> (r: Result<Vec<String>, SetupError>)
    ensures
        match shell_words(resolved(opts.cc_args@, sdk_root@)) {
            Some(words) => r matches Ok(v) && texts_of(v) == words,
            None => r == Err::<Vec<String>, SetupError>(SetupError::MalformedCompilerFlags),
        },
{
    let args = resolve_sdk_text(opts.cc_args.as_str(), sdk_root);
    match split_words(args.as_str()) {
        Some(v) => Ok(v),
        None => Err(SetupError::MalformedCompilerFlags),
    }
}

/// Everything handed to the binding backend.
pub struct BackendPlan {
    /// The synthetic root header.
    pub header: String,
    /// Arguments for the header parser, in order.
    pub clang_args: Vec<String>,
    /// The functions kept in the bindings.
    pub functions: Vec<String>,
    /// The variables and macros kept in the bindings.
    pub variables: Vec<String>,
}

pub struct PlanModel {
    pub header: Seq<char>,
    pub clang_args: Seq<Seq<char>>,
    pub functions: Seq<Seq<char>>,
    pub variables: Seq<Seq<char>>,
}

impl View for BackendPlan {
    type V = PlanModel;

    open spec fn view(&self) -> PlanModel {
        PlanModel {
            header: self.header@,
            clang_args: texts_of(self.clang_args),
            functions: texts_of(self.functions),
            variables: texts_of(self.variables),
        }
    }
}

/// The parser arguments: the SDK root as working directory, SDK headers
/// treated as system headers, the toolchain's headers, the SDK's own flags,
/// warnings not fatal, and enums packed as the target packs them.
pub open spec fn clang_args_of(
    sdk_root: Seq<char>,
    toolchain: Seq<char>,
    cc_flags: Seq<Seq<char>>,
) -> Seq<Seq<char>> {
    seq!["-working-directory"@, sdk_root, "--system-header-prefix=f7_sdk/"@, "-isystem"@, toolchain]
        + cc_flags + seq!["-Wno-error"@, "-fshort-enums"@]
}

/// The backend call for an SDK: its header, its arguments, and an
/// allow-list of exactly `API_VERSION` and the manifest's functions and
/// variables.
pub open spec fn plan_of(
    sdk_root: Seq<char>,
    toolchain: Seq<char>,
    cc_flags: Seq<Seq<char>>,
    symbols: SymbolsModel,
) -> PlanModel {
    PlanModel {
        header: bindings_header(symbols.api_version, symbols.headers),
        clang_args: clang_args_of(sdk_root, toolchain, cc_flags),
        functions: symbols.functions,
        variables: seq![API_VERSION_NAME@] + symbols.variables,
    }
}

fn push_text(v: &mut Vec<String>, t: &str)
    ensures
        texts_of(*final(v)) == texts_of(*old(v)).push(t@),
{
    v.push(t.to_owned());
    assert(texts_of(*v) =~= texts_of(*old(v)).push(t@));
}

fn push_all(v: &mut Vec<String>, ts: &Vec<String>)
    ensures
        texts_of(*final(v)) == texts_of(*old(v)) + texts_of(*ts),
{
    let ghost start = texts_of(*v);
    let mut i: usize = 0;
    assert(texts_of(*ts).take(0) =~= Seq::<Seq<char>>::empty());
    assert(start + Seq::<Seq<char>>::empty() =~= start);
    while i < ts.len()
        invariant
            i <= ts.len(),
            texts_of(*v) == start + texts_of(*ts).take(i as int),
        decreases ts.len() - i,
    {
        push_text(v, ts[i].as_str());
        assert(texts_of(*ts).take(i + 1) =~= texts_of(*ts).take(i as int).push(ts[i as int]@));
        assert(start + texts_of(*ts).take(i + 1) =~= (start + texts_of(*ts).take(i as int)).push(
            ts[i as int]@,
        ));
        i = i + 1;
    }
    assert(texts_of(*ts).take(i as int) =~= texts_of(*ts));
}

/// Assembles the backend call from already split compiler flags.
pub fn assemble_plan(
    sdk_root: &str,
    toolchain: &str,
    cc_flags: &Vec<String>,
    symbols: &ApiSymbols,
) -> (r: BackendPlan)
    ensures
        r@ == plan_of(sdk_root@, toolchain@, texts_of(*cc_flags), symbols@),
{
    let mut clang_args: Vec<String> = Vec::new();
    push_text(&mut clang_args, "-working-directory");
    push_text(&mut clang_args, sdk_root);
    push_text(&mut clang_args, "--system-header-prefix=f7_sdk/");
    push_text(&mut clang_args, "-isystem");
    push_text(&mut clang_args, toolchain);
    push_all(&mut clang_args, cc_flags);
    push_text(&mut clang_args, "-Wno-error");
    push_text(&mut clang_args, "-fshort-enums");
    let mut functions: Vec<String> = Vec::new();
    push_all(&mut functions, &symbols.functions);
    let mut variables: Vec<String> = Vec::new();
    push_text(&mut variables, API_VERSION_NAME);
    push_all(&mut variables, &symbols.variables);
    let r = BackendPlan { header: generate_bindings_header(symbols), clang_args, functions, variables };
    assert(r@.clang_args =~= clang_args_of(sdk_root@, toolchain@, texts_of(*cc_flags)));
    assert(r@.functions =~= symbols@.functions);
    assert(r@.variables =~= seq![API_VERSION_NAME@] + symbols@.variables);
    r
}

/// Decides the backend call for an SDK rooted at `sdk_root`: refused when
/// the toolchain is missing or the compiler flags do not split, and
/// otherwise assembled from the options and the manifest's symbols.
pub fn plan_bindings(
    sdk_root: &str,
    toolchain: &str,
    toolchain_present: bool,
    opts: &SdkOpts,
    symbols: &ApiSymbols,
) -> (r: Result<BackendPlan, SetupError>)
    ensures
        !toolchain_present ==> r == Err::<BackendPlan, SetupError>(SetupError::ToolchainMissing),
        toolchain_present ==> match shell_words(resolved(opts.cc_args@, sdk_root@)) {
            Some(words) => r matches Ok(p) && p@ == plan_of(sdk_root@, toolchain@, words, symbols@),
            None => r == Err::<BackendPlan, SetupError>(SetupError::MalformedCompilerFlags),
        },
{
    if !toolchain_present {
        return Err(SetupError::ToolchainMissing);
    }
    match compiler_flags(opts, sdk_root) {
        Ok(flags) => Ok(assemble_plan(sdk_root, toolchain, &flags, symbols)),
        Err(e) => Err(e),
    }
}

} // verus!
