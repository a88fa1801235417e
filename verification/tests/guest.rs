use sandbench::guest::Guest;
use sandbench::GuestFault;

#[test]
fn alloc_write_read_free() {
    let mut g = Guest::new();
    let p = g.malloc(4);
    g.write(p, &[1u8, 2, 3, 4]);
    assert_eq!(g.read(p, 4), vec![1, 2, 3, 4]);
    g.free(p, 4);
}

#[test]
fn alloc_release_alloc_usable() {
    // allocate, release, allocate again: both buffers must be usable and the
    // second allocation must not be corrupted by the earlier release
    let mut g = Guest::new();
    let p1 = g.malloc(16);
    g.write(p1, &[0xAAu8; 16]);
    assert_eq!(g.read(p1, 16), vec![0xAA; 16]);
    g.free(p1, 16);
    let p2 = g.malloc(16);
    assert_eq!(g.read(p2, 16), vec![0x00; 16]);
    g.write(p2, &[0xBBu8; 16]);
    assert_eq!(g.read(p2, 16), vec![0xBB; 16]);
    g.free(p2, 16);
}

#[test]
fn malloc_returns_aligned_zeroed_buffers() {
    let mut g = Guest::new();
    let p1 = g.malloc(3);
    let p2 = g.malloc(9);
    assert_eq!(p1 % 8, 0);
    assert_eq!(p2 % 8, 0);
    assert_ne!(p1, p2);
    assert_eq!(g.read(p1, 3), vec![0, 0, 0]);
    assert_eq!(g.read(p2, 9), vec![0; 9]);
    g.free(p1, 3);
    g.free(p2, 9);
}

#[test]
fn write_does_not_touch_other_buffers() {
    let mut g = Guest::new();
    let p1 = g.malloc(4);
    let p2 = g.malloc(4);
    g.write(p1, &[1u8, 2, 3, 4]);
    g.write(p2, &[5u8, 6, 7, 8]);
    assert_eq!(g.read(p1, 4), vec![1, 2, 3, 4]);
    assert_eq!(g.read(p2, 4), vec![5, 6, 7, 8]);
    g.free(p1, 4);
    g.free(p2, 4);
}

#[test]
fn result_accessors_stable() {
    // pointer/length of an unreleased result are the same on every query
    let mut g = Guest::new();
    let text = b"(module)";
    let p = g.malloc(text.len());
    g.write(p, text);
    let h = g.wat2wasm(p, text.len()).unwrap();
    let rp1 = g.wasm_ptr(h);
    let rl1 = g.wasm_len(h);
    let rp2 = g.wasm_ptr(h);
    let rl2 = g.wasm_len(h);
    assert_eq!(rp1, rp2);
    assert_eq!(rl1, rl2);
    assert_eq!(g.read(rp1, rl1), b"\0asm\x01\0\0\0".to_vec());
    g.wasm_free(h);
    g.free(p, text.len());
}

#[test]
fn malformed_input_faults_conversion() {
    let mut g = Guest::new();
    let text = b"(module \"unterminated";
    let p = g.malloc(text.len());
    g.write(p, text);
    assert_eq!(g.wat2wasm(p, text.len()), Err(GuestFault::Malformed));
    g.free(p, text.len());
}

#[test]
fn guest_validate_checks_binary_modules() {
    let mut g = Guest::new();
    let bin = b"\0asm\x01\0\0\0";
    let p = g.malloc(bin.len());
    g.write(p, bin);
    assert!(g.validate(p, bin.len()).is_ok());
    g.free(p, bin.len());

    let text = b"(module)";
    let q = g.malloc(text.len());
    g.write(q, text);
    assert_eq!(g.validate(q, text.len()), Err(GuestFault::Invalid));
    g.free(q, text.len());
}

#[test]
fn results_are_independent() {
    let mut g = Guest::new();
    let a = b"(module)";
    let b = b"(module (memory 1))";
    let pa = g.malloc(a.len());
    g.write(pa, a);
    let ha = g.wat2wasm(pa, a.len()).unwrap();
    let pb = g.malloc(b.len());
    g.write(pb, b);
    let hb = g.wat2wasm(pb, b.len()).unwrap();
    assert_ne!(ha, hb);
    let out_a = g.read(g.wasm_ptr(ha), g.wasm_len(ha));
    let out_b = g.read(g.wasm_ptr(hb), g.wasm_len(hb));
    assert_ne!(out_a, out_b);
    // releasing one result leaves the other readable and unchanged
    g.wasm_free(ha);
    assert_eq!(g.read(g.wasm_ptr(hb), g.wasm_len(hb)), out_b);
    g.wasm_free(hb);
    g.free(pa, a.len());
    g.free(pb, b.len());
}
