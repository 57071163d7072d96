use bedrock::sandbox::error::SandboxError;
use bedrock::sandbox::validation::{
    text_eq, text_starts_with, validate_exports, validate_imports, validate_module, ExportDesc,
    ExternKind, ImportDesc, ModuleInterface, ValKind,
};

fn func(params: usize, results: usize) -> ExternKind {
    ExternKind::Func { params: vec![ValKind::I32; params], results: vec![ValKind::I32; results] }
}

fn export(name: &str, kind: ExternKind) -> ExportDesc {
    ExportDesc { name: name.to_string(), kind }
}

fn import(module: &str, name: &str, kind: ExternKind) -> ImportDesc {
    ImportDesc { module: module.to_string(), name: name.to_string(), kind }
}

fn minimal_module() -> ModuleInterface {
    ModuleInterface {
        exports: vec![
            export("memory", ExternKind::Memory),
            export("bedrock_init", func(2, 1)),
            export("bedrock_execute_block", func(4, 1)),
            export("bedrock_free", func(2, 0)),
        ],
        imports: vec![],
    }
}

#[test]
fn test_validate_minimal_valid_module() {
    validate_module(&minimal_module()).unwrap();
}

#[test]
fn test_reject_missing_export() {
    let module = ModuleInterface {
        exports: vec![export("memory", ExternKind::Memory), export("bedrock_init", func(2, 1))],
        imports: vec![],
    };
    let err = validate_module(&module).unwrap_err();
    assert!(matches!(err, SandboxError::ValidationError(_)));
}

#[test]
fn test_reject_wrong_signature() {
    let mut module = minimal_module();
    module.exports[1] = export("bedrock_init", func(1, 1));
    let err = validate_module(&module).unwrap_err();
    assert!(matches!(err, SandboxError::ValidationError(_)));
}

#[test]
fn test_reject_missing_memory() {
    let mut module = minimal_module();
    module.exports.remove(0);
    let err = validate_module(&module).unwrap_err();
    assert!(matches!(err, SandboxError::ValidationError(_)));
}

#[test]
fn test_reject_wasi_import() {
    let mut module = minimal_module();
    module.imports.push(import("wasi_snapshot_preview1", "fd_write", func(4, 1)));
    let err = validate_module(&module).unwrap_err();
    assert!(matches!(err, SandboxError::ValidationError(_)));
}

#[test]
fn test_accept_bedrock_host_import() {
    let mut module = minimal_module();
    module.imports.push(import("bedrock_host", "state_get", func(4, 1)));
    validate_module(&module).unwrap();
}

#[test]
fn test_reject_unknown_module_import() {
    let mut module = minimal_module();
    module.imports.push(import("env", "some_func", func(0, 1)));
    let err = validate_module(&module).unwrap_err();
    assert!(matches!(err, SandboxError::ValidationError(_)));
}

#[test]
fn signatures_must_be_all_i32() {
    let mut module = minimal_module();
    module.exports[2] = export(
        "bedrock_execute_block",
        ExternKind::Func {
            params: vec![ValKind::I32, ValKind::I32, ValKind::Other, ValKind::I32],
            results: vec![ValKind::I32],
        },
    );
    assert!(validate_exports(&module).is_err());

    let mut module = minimal_module();
    module.exports[3] = export(
        "bedrock_free",
        ExternKind::Func { params: vec![ValKind::I32; 2], results: vec![ValKind::I32] },
    );
    assert!(validate_exports(&module).is_err());

    let mut module = minimal_module();
    module.exports[1] = export(
        "bedrock_init",
        ExternKind::Func { params: vec![ValKind::I32; 2], results: vec![ValKind::Other] },
    );
    assert!(validate_exports(&module).is_err());
}

#[test]
fn exports_must_have_their_kinds() {
    // a function named memory is no memory
    let mut module = minimal_module();
    module.exports[0] = export("memory", func(0, 0));
    assert!(validate_exports(&module).is_err());
    // a memory under another name is not enough
    let mut module = minimal_module();
    module.exports[0] = export("mem", ExternKind::Memory);
    assert!(validate_exports(&module).is_err());
    // a required function exported as something else
    let mut module = minimal_module();
    module.exports[3] = export("bedrock_free", ExternKind::Other);
    assert!(validate_exports(&module).is_err());
    // the first export of a name decides
    let mut module = minimal_module();
    module.exports.insert(1, export("bedrock_init", func(1, 1)));
    assert!(validate_exports(&module).is_err());
    let mut module = minimal_module();
    module.exports.push(export("bedrock_init", func(1, 1)));
    assert!(validate_exports(&module).is_ok());
    // extra exports and any order are fine
    let mut module = minimal_module();
    module.exports.reverse();
    module.exports.push(export("extra", ExternKind::Other));
    assert!(validate_exports(&module).is_ok());
}

#[test]
fn imports_must_be_functions_of_the_host_module() {
    let mut module = minimal_module();
    module.imports.push(import("bedrock_host", "mem", ExternKind::Memory));
    assert!(validate_imports(&module).is_err());
    assert!(validate_exports(&module).is_ok());
    assert!(validate_module(&module).is_err());

    let mut module = minimal_module();
    module.imports.push(import("bedrock_host", "a", func(1, 0)));
    module.imports.push(import("bedrock_host", "b", func(0, 0)));
    assert!(validate_imports(&module).is_ok());
    module.imports.push(import("bedrock_hostx", "c", func(0, 0)));
    assert!(validate_imports(&module).is_err());

    let mut module = minimal_module();
    module.imports.push(import("wasi", "x", func(0, 0)));
    assert!(validate_imports(&module).is_err());
    let mut module = minimal_module();
    module.imports.push(import("", "x", func(0, 0)));
    assert!(validate_imports(&module).is_err());
}

#[test]
fn text_helpers() {
    assert!(text_eq("memory", "memory"));
    assert!(!text_eq("memory", "memor"));
    assert!(!text_eq("memory", "Memory"));
    assert!(text_eq("", ""));
    assert!(text_starts_with("wasi_snapshot_preview1", "wasi"));
    assert!(text_starts_with("wasi", "wasi"));
    assert!(!text_starts_with("was", "wasi"));
    assert!(!text_starts_with("bedrock_host", "wasi"));
    assert!(text_starts_with("anything", ""));
}

#[test]
fn test_abi_missing_export() {
    let module = ModuleInterface {
        exports: vec![
            export("memory", ExternKind::Memory),
            export("bedrock_init", func(2, 1)),
            export("bedrock_free", func(2, 0)),
        ],
        imports: vec![],
    };
    match validate_module(&module) {
        Err(SandboxError::ValidationError(msg)) => {
            assert!(
                msg.contains("bedrock_execute_block"),
                "error should mention missing export: {}",
                msg
            );
        }
        Err(e) => panic!("expected ValidationError, got: {:?}", e),
        Ok(_) => panic!("should reject module missing bedrock_execute_block"),
    }
}

#[test]
fn test_abi_wasi_rejected() {
    let mut module = minimal_module();
    module.imports.push(import("wasi_snapshot_preview1", "fd_write", func(4, 1)));
    match validate_module(&module) {
        Err(SandboxError::ValidationError(msg)) => {
            assert!(
                msg.contains("WASI") || msg.contains("wasi"),
                "error should mention WASI rejection: {}",
                msg
            );
        }
        Err(e) => panic!("expected ValidationError about WASI, got: {:?}", e),
        Ok(_) => panic!("should reject module with WASI imports"),
    }
}

#[test]
fn test_sandbox_accepts_minimal_valid_module() {
    assert!(validate_module(&minimal_module()).is_ok());
}

#[test]
fn test_sandbox_rejects_missing_export() {
    let module = ModuleInterface {
        exports: vec![export("memory", ExternKind::Memory), export("bedrock_init", func(2, 1))],
        imports: vec![],
    };
    assert!(validate_module(&module).is_err());
}

#[test]
fn validation_messages_name_their_subject() {
    let mut module = minimal_module();
    module.exports[3] = export("bedrock_free", ExternKind::Other);
    match validate_module(&module) {
        Err(SandboxError::ValidationError(msg)) => {
            assert_eq!(msg, "export must be a function: bedrock_free")
        }
        other => panic!("unexpected {:?}", other),
    }
    let mut module = minimal_module();
    module.imports.push(import("env", "f", func(0, 0)));
    match validate_module(&module) {
        Err(SandboxError::ValidationError(msg)) => assert!(msg.ends_with(": env")),
        other => panic!("unexpected {:?}", other),
    }
}

#[test]
fn a_missing_memory_is_named_in_the_message() {
    let mut module = minimal_module();
    module.exports.remove(0);
    match validate_module(&module) {
        Err(SandboxError::ValidationError(msg)) => assert_eq!(msg, "module must export 'memory'"),
        other => panic!("unexpected {:?}", other),
    }
    match SandboxError::validation("no start function") {
        SandboxError::ValidationError(msg) => assert_eq!(msg, "no start function"),
        other => panic!("unexpected {:?}", other),
    }
}
