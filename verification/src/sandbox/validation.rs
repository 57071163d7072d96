//! The checks on a guest module's interface.
//!
//! A module is acceptable when it exports a memory named `memory` and the
//! three functions `bedrock_init(i32, i32) -> i32`,
//! `bedrock_execute_block(i32, i32, i32, i32) -> i32` and
//! `bedrock_free(i32, i32)`, and when every import is a function of the
//! module `bedrock_host`.

use vstd::prelude::*;
use vstd::utf8::{encode_utf8, encode_utf8_decode_utf8};
use crate::primitives::types::bytes_eq;
use crate::sandbox::error::{SandboxError, SandboxErrorView};

verus! {

/// The type of a parameter or result, as far as the interface cares.
#[derive(Debug, Clone, Copy, PartialEq, Eq, Structural)]
pub enum ValKind {
    /// A 32-bit integer.
    I32,
    /// Anything else.
    Other,
}

/// What an export or import is.
#[derive(Debug, Clone, PartialEq, Eq)]
pub enum ExternKind {
    /// A function with these parameter and result types.
    Func { params: Vec<ValKind>, results: Vec<ValKind> },
    /// A linear memory.
    Memory,
    /// A table, a global or a tag.
    Other,
}

/// An export of a module.
#[derive(Debug, Clone, PartialEq, Eq)]
pub struct ExportDesc {
    pub name: String,
    pub kind: ExternKind,
}

/// An import of a module.
#[derive(Debug, Clone, PartialEq, Eq)]
pub struct ImportDesc {
    pub module: String,
    pub name: String,
    pub kind: ExternKind,
}

/// The exports and imports of a module, in the module's order.
#[derive(Debug, Clone, PartialEq, Eq)]
pub struct ModuleInterface {
    pub exports: Vec<ExportDesc>,
    pub imports: Vec<ImportDesc>,
}

/// Every type of the list is `i32`.
pub open spec fn all_i32(kinds: Seq<ValKind>) -> bool {
    forall|i: int| 0 <= i < kinds.len() ==> kinds[i] == ValKind::I32
}

/// Some export is a memory named `memory`.
pub open spec fn exports_memory(exports: Seq<ExportDesc>) -> bool {
    exists|i: int|
        0 <= i < exports.len() && (#[trigger] exports[i]).name@ == "memory"@ && exports[i].kind
            is Memory
}

/// The kind has the signature of `n_params` `i32` parameters and
/// `n_results` `i32` results.
pub open spec fn is_i32_function(kind: ExternKind, n_params: nat, n_results: nat) -> bool {
    kind matches ExternKind::Func { params, results } && params@.len() == n_params && all_i32(
        params@,
    ) && results@.len() == n_results && all_i32(results@)
}

/// The first export named `name` is a function of `n_params` `i32`
/// parameters and `n_results` `i32` results.
pub open spec fn exports_function(
    exports: Seq<ExportDesc>,
    name: Seq<char>,
    n_params: nat,
    n_results: nat,
) -> bool {
    exists|i: int|
        0 <= i < exports.len() && (#[trigger] exports[i]).name@ == name && (forall|j: int|
            0 <= j < i ==> (#[trigger] exports[j]).name@ != name) && is_i32_function(
            exports[i].kind,
            n_params,
            n_results,
        )
}

/// The exports are acceptable.
pub open spec fn exports_valid(exports: Seq<ExportDesc>) -> bool {
    &&& exports_memory(exports)
    &&& exports_function(exports, "bedrock_init"@, 2, 1)
    &&& exports_function(exports, "bedrock_execute_block"@, 4, 1)
    &&& exports_function(exports, "bedrock_free"@, 2, 0)
}

/// The import is a function of the module `bedrock_host`.
pub open spec fn import_valid(import: ImportDesc) -> bool {
    import.module@ == "bedrock_host"@ && import.kind is Func
}

/// The imports are acceptable.
pub open spec fn imports_valid(imports: Seq<ImportDesc>) -> bool {
    forall|i: int| 0 <= i < imports.len() ==> import_valid(#[trigger] imports[i])
}

/// The module's interface is acceptable.
pub open spec fn module_valid(module: ModuleInterface) -> bool {
    exports_valid(module.exports@) && imports_valid(module.imports@)
}

/// Whether two texts are the same.
pub fn text_eq(a: &str, b: &str) -> (r: bool)
    ensures
        r == (a@ == b@),
{
    proof {
        encode_utf8_decode_utf8(a@);
        encode_utf8_decode_utf8(b@);
    }
    bytes_eq(a.as_bytes(), b.as_bytes())
}

/// Whether the bytes of `text` begin with the bytes of `prefix`.
pub fn text_starts_with(text: &str, prefix: &str) -> (r: bool)
    ensures
        r == (encode_utf8(prefix@).len() <= encode_utf8(text@).len() && encode_utf8(
            text@,
        ).subrange(0, encode_utf8(prefix@).len() as int) == encode_utf8(prefix@)),
{
    let t = text.as_bytes();
    let p = prefix.as_bytes();
    if p.len() > t.len() {
        return false;
    }
    let mut i: usize = 0;
    while i < p.len()
        invariant
            i <= p@.len(),
            p@.len() <= t@.len(),
            t@ == encode_utf8(text@),
            p@ == encode_utf8(prefix@),
            forall|j: int| 0 <= j < i ==> t@[j] == p@[j],
        decreases p@.len() - i,
    {
        if t[i] != p[i] {
            return false;
        }
        i += 1;
    }
    assert(t@.subrange(0, p@.len() as int) =~= p@);
    true
}

fn kinds_all_i32(kinds: &Vec<ValKind>) -> (r: bool)
    ensures
        r == all_i32(kinds@),
{
    let mut i: usize = 0;
    while i < kinds.len()
        invariant
            i <= kinds@.len(),
            forall|j: int| 0 <= j < i ==> kinds@[j] == ValKind::I32,
        decreases kinds@.len() - i,
    {
        match kinds[i] {
            ValKind::I32 => {},
            ValKind::Other => {
                return false;
            },
        }
        i += 1;
    }
    true
}

fn has_memory_export(exports: &Vec<ExportDesc>) -> (r: bool)
    ensures
        r == exports_memory(exports@),
{
    let mut i: usize = 0;
    while i < exports.len()
        invariant
            i <= exports@.len(),
            forall|j: int|
                0 <= j < i ==> !((#[trigger] exports@[j]).name@ == "memory"@ && exports@[j].kind
                    is Memory),
        decreases exports@.len() - i,
    {
        let is_memory = match exports[i].kind {
            ExternKind::Memory => true,
            _ => false,
        };
        if is_memory && text_eq(exports[i].name.as_str(), "memory") {
            return true;
        }
        i += 1;
    }
    false
}

/// Checks that the first export named `name` is a function with the given
/// numbers of `i32` parameters and results.
fn check_function_export(
    exports: &Vec<ExportDesc>,
    name: &str,
    n_params: usize,
    n_results: usize,
) -> (r: Result<(), SandboxError>)
    ensures
        r is Ok <==> exports_function(exports@, name@, n_params as nat, n_results as nat),
        r matches Err(e) ==> e@ == SandboxErrorView::ValidationError,
{
    let mut i: usize = 0;
    while i < exports.len()
        invariant
            i <= exports@.len(),
            forall|j: int| 0 <= j < i ==> (#[trigger] exports@[j]).name@ != name@,
        decreases exports@.len() - i,
    {
        if text_eq(exports[i].name.as_str(), name) {
            match &exports[i].kind {
                ExternKind::Func { params, results } => {
                    if params.len() != n_params || !kinds_all_i32(params) {
                        return Err(
                            SandboxError::validation_of(
                                "export has wrong param signature: ",
                                name,
                            ),
                        );
                    }
                    if results.len() != n_results || !kinds_all_i32(results) {
                        return Err(
                            SandboxError::validation_of(
                                "export has wrong result signature: ",
                                name,
                            ),
                        );
                    }
                    return Ok(());
                },
                _ => {
                    return Err(SandboxError::validation_of("export must be a function: ", name));
                },
            }
        }
        i += 1;
    }
    Err(SandboxError::validation_of("missing required export: ", name))
}

/// Checks the exports: the memory, then the three functions.
pub fn validate_exports(module: &ModuleInterface) -> (r: Result<(), SandboxError>)
    ensures
        r is Ok <==> exports_valid(module.exports@),
        r matches Err(e) ==> e@ == SandboxErrorView::ValidationError,
{
    if !has_memory_export(&module.exports) {
        return Err(SandboxError::validation("module must export 'memory'"));
    }
    match check_function_export(&module.exports, "bedrock_init", 2, 1) {
        Ok(_) => {},
        Err(e) => {
            return Err(e);
        },
    }
    match check_function_export(&module.exports, "bedrock_execute_block", 4, 1) {
        Ok(_) => {},
        Err(e) => {
            return Err(e);
        },
    }
    match check_function_export(&module.exports, "bedrock_free", 2, 0) {
        Ok(_) => {},
        Err(e) => {
            return Err(e);
        },
    }
    Ok(())
}

/// Checks the imports: each comes from `bedrock_host` and is a function.
pub fn validate_imports(module: &ModuleInterface) -> (r: Result<(), SandboxError>)
    ensures
        r is Ok <==> imports_valid(module.imports@),
        r matches Err(e) ==> e@ == SandboxErrorView::ValidationError,
{
    let mut i: usize = 0;
    while i < module.imports.len()
        invariant
            i <= module.imports@.len(),
            forall|j: int| 0 <= j < i ==> import_valid(#[trigger] module.imports@[j]),
        decreases module.imports@.len() - i,
    {
        let import = &module.imports[i];
        if text_starts_with(import.module.as_str(), "wasi") {
            proof {
                // a name that begins with `wasi` is not `bedrock_host`
                reveal_strlit("wasi");
                reveal_strlit("bedrock_host");
                vstd::utf8::is_ascii_chars_encode_utf8("wasi"@);
                vstd::utf8::is_ascii_chars_encode_utf8("bedrock_host"@);
            }
            return Err(
                SandboxError::validation_of("WASI import not allowed: ", import.module.as_str()),
            );
        }
        if !text_eq(import.module.as_str(), "bedrock_host") {
            return Err(
                SandboxError::validation_of(
                    "import from unknown module (only 'bedrock_host' allowed): ",
                    import.module.as_str(),
                ),
            );
        }
        let is_func = match import.kind {
            ExternKind::Func { .. } => true,
            _ => false,
        };
        if !is_func {
            return Err(
                SandboxError::validation_of(
                    "non-function import not allowed: ",
                    import.name.as_str(),
                ),
            );
        }
        i += 1;
    }
    Ok(())
}

/// Checks a module's interface: the exports, then the imports.
pub fn validate_module(module: &ModuleInterface) -> (r: Result<(), SandboxError>)
    ensures
        r is Ok <==> module_valid(*module),
        r matches Err(e) ==> e@ == SandboxErrorView::ValidationError,
{
    match validate_exports(module) {
        Ok(_) => {},
        Err(e) => {
            return Err(e);
        },
    }
    match validate_imports(module) {
        Ok(_) => {},
        Err(e) => {
            return Err(e);
        },
    }
    Ok(())
}

} // verus!
