use glittr_core::math::mul_div;

#[test]
fn mul_div_keeps_the_high_bits() {
    assert_eq!(mul_div(1000, 100, 1100), 90);
    assert_eq!(mul_div(u128::MAX, u128::MAX, u128::MAX), u128::MAX);
    assert_eq!(mul_div(u128::MAX, 2, 4), u128::MAX / 2);
    assert_eq!(mul_div(u128::MAX, 3, 2), u128::MAX);
    assert_eq!(mul_div(0, 5, 7), 0);
    assert_eq!(mul_div(7, 0, 7), 0);
}

#[test]
fn geometric_mean_is_the_integer_square_root_of_the_product() {
    use_geometric_mean(0, 0, 0);
    use_geometric_mean(1000, 1000, 1000);
    use_geometric_mean(2, 8, 4);
    use_geometric_mean(2, 7, 3);
    use_geometric_mean(1, 15, 3);
    use_geometric_mean(1, 16, 4);
    use_geometric_mean(u128::MAX, u128::MAX, u128::MAX);
    use_geometric_mean(u128::MAX, 1, (1u128 << 64) - 1);
    use_geometric_mean(u128::MAX, 0, 0);
}

fn use_geometric_mean(x: u128, y: u128, root: u128) {
    assert_eq!(glittr_core::math::geometric_mean(x, y), root);
}
