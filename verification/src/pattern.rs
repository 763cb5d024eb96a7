//! Trusted boundary to the pattern-rule engine (the yara crate).
//!
//! Rules are compiled once at engine construction and evaluated against byte
//! buffers. A compiled rule set is opaque to the verifier, so nothing is
//! claimed about which rules match; the verified tier logic takes the match
//! list as an argument and is exact about what it does with it.

use vstd::prelude::*;
use crate::errors::AvError;

verus! {

#[verifier::external_type_specification]
#[verifier::external_body]
pub struct ExCompiler(yara::Compiler);

#[verifier::external_type_specification]
#[verifier::external_body]
pub struct ExRules(yara::Rules);

/// Relies on yara::Compiler::new: prepares an empty rule compiler.
#[verifier::external_body]
pub(crate) fn compiler_new() -> (r: Result<yara::Compiler, AvError>)
    ensures
        r matches Err(e) ==> e is Yara,
{
    yara::Compiler::new().map_err(|e| AvError::Yara(e.to_string()))
}

/// Relies on yara::Compiler::add_rules_str: adds rule source text to the
/// compiler; a syntax error is reported as an error. The call turns the text
/// into a C string, which panics on an interior NUL character, so such text
/// is excluded here and rejected by the verified caller.
#[verifier::external_body]
pub(crate) fn compiler_add_rules_str(
    compiler: yara::Compiler,
    source: &str,
) -> (r: Result<yara::Compiler, AvError>)
    requires
        forall|j: int| 0 <= j < source@.len() ==> source@[j] != '\0',
    ensures
        r matches Err(e) ==> e is Yara,
{
    compiler.add_rules_str(source).map_err(|e| AvError::Yara(e.to_string()))
}

/// Relies on yara::Compiler::compile_rules: turns the added sources into a
/// compiled rule set.
#[verifier::external_body]
pub(crate) fn compiler_compile(compiler: yara::Compiler) -> (r: Result<yara::Rules, AvError>)
    ensures
        r matches Err(e) ==> e is Yara,
{
    compiler.compile_rules().map_err(|e| AvError::Yara(e.to_string()))
}

/// Relies on yara::Rules::scan_mem: evaluates every compiled rule against the
/// buffer within `timeout` seconds and reports the matching rules'
/// identifiers in evaluation order; hitting the timeout is an error, never an
/// empty match list.
#[verifier::external_body]
pub(crate) fn rules_scan_mem(
    rules: &yara::Rules,
    mem: &[u8],
    timeout: i32,
) -> (r: Result<Vec<String>, AvError>)
    ensures
        r matches Err(e) ==> e is Timeout || e is Yara,
{
    match rules.scan_mem(mem, timeout) {
        Ok(matched) => Ok(matched.into_iter().map(|r| r.identifier.to_string()).collect()),
        Err(e) => {
            if e.kind == yara::YaraErrorKind::ScanTimeout {
                Err(AvError::Timeout(e.to_string()))
            } else {
                Err(AvError::Yara(e.to_string()))
            }
        },
    }
}

/// Compiles a pattern-rule source text into a rule set; a compile failure is
/// fatal to the caller's construction. Text holding a NUL character cannot
/// be handed to the rule engine and is rejected as a compile failure.
pub fn compile_rules(source: &str) -> (r: Result<yara::Rules, AvError>)
    ensures
        r matches Err(e) ==> e is Yara,
{
    match crate::text::find_char(source, '\0', 0) {
        Some(_) => {
            return Err(AvError::Yara("rule source holds a NUL character".to_owned()));
        },
        None => {},
    }
    let compiler = compiler_new()?;
    let compiler = compiler_add_rules_str(compiler, source)?;
    compiler_compile(compiler)
}

} // verus!
