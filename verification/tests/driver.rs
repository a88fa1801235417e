use sandbench::config::configs;
use sandbench::driver::{run, run_validate};
use sandbench::workload::{convert_native, validate_native};
use sandbench::GuestFault;

#[test]
fn minimal_module_identical_across_matrix() {
    // the minimal textual module converts on every configuration and yields
    // the same minimal binary header bytes as the native parse
    let input = b"(module)".to_vec();
    let native = convert_native(&input).unwrap();
    assert_eq!(native, b"\0asm\x01\0\0\0".to_vec());
    for c in configs() {
        let sandboxed = run(&c, &input).unwrap();
        assert_eq!(sandboxed, native);
    }
}

#[test]
fn larger_module_identical_across_matrix() {
    let input = b"(module (func (export \"answer\") (result i32) i32.const 42))".to_vec();
    let native = convert_native(&input).unwrap();
    assert!(native.starts_with(b"\0asm\x01\0\0\0"));
    assert!(native.len() > 8);
    for c in configs() {
        let sandboxed = run(&c, &input).unwrap();
        assert_eq!(sandboxed, native);
    }
}

#[test]
fn unterminated_token_fails_everywhere() {
    // an unterminated string token must fail on the native path and on every
    // sandboxed path alike, never succeed on one and diverge on another
    let input = b"(module \"unterminated".to_vec();
    assert_eq!(convert_native(&input).unwrap_err(), GuestFault::Malformed);
    for c in configs() {
        assert_eq!(run(&c, &input).unwrap_err(), GuestFault::Malformed);
    }
}

#[test]
fn converted_output_is_a_valid_module() {
    let input = b"(module)".to_vec();
    let cs = configs();
    let module = run(&cs[0], &input).unwrap();
    assert!(validate_native(&module).is_ok());
    assert!(run_validate(&cs[0], &module).is_ok());
}

#[test]
fn validate_rejects_junk_everywhere() {
    let junk = b"not a module".to_vec();
    assert_eq!(validate_native(&junk).unwrap_err(), GuestFault::Invalid);
    for c in configs() {
        assert_eq!(run_validate(&c, &junk).unwrap_err(), GuestFault::Invalid);
    }
}

#[test]
fn binary_input_passes_through_unchanged() {
    // input already in binary form is returned as-is by the conversion
    let binary = convert_native(&b"(module (memory 1))".to_vec()).unwrap();
    let cs = configs();
    assert_eq!(run(&cs[0], &binary).unwrap(), binary);
    assert_eq!(convert_native(&binary).unwrap(), binary);
}
