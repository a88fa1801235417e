use sandbench::config::{configs, BoundsStrategy, PointerWidth};

#[test]
fn matrix_is_exhaustive() {
    let cs = configs();
    assert_eq!(cs.len(), 8);
    // four 32-bit rows, then the same four for 64-bit
    for i in 0..4 {
        assert_eq!(cs[i].width, PointerWidth::W32);
        assert_eq!(cs[i + 4].width, PointerWidth::W64);
        assert_eq!(cs[i].bounds, cs[i + 4].bounds);
        assert_eq!(cs[i].spectre_mitigation, cs[i + 4].spectre_mitigation);
    }
    // every configuration appears exactly once
    for i in 0..8 {
        for j in (i + 1)..8 {
            assert_ne!(cs[i], cs[j]);
        }
    }
}

#[test]
fn labels_follow_strategy_and_mitigation() {
    let cs = configs();
    assert_eq!(cs[0].label(), "static");
    assert_eq!(cs[1].label(), "dynamic");
    assert_eq!(cs[2].label(), "static-spectre");
    assert_eq!(cs[3].label(), "dynamic-spectre");
    assert_eq!(cs[4].label(), "static");
}

#[test]
fn static_reservation_size() {
    let cs = configs();
    // the static strategy reserves 2 GiB; zero means dynamic bounds checks
    assert_eq!(cs[0].static_memory_maximum_size(), 2 << 30);
    assert_eq!(cs[1].static_memory_maximum_size(), 0);
    assert_eq!(cs[2].static_memory_maximum_size(), 2 << 30);
    assert_eq!(cs[3].static_memory_maximum_size(), 0);
}
