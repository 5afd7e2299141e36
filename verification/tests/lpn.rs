use mpz::lpn::agb_degree;

#[test]
fn agb_degree_cases() {
    assert_eq!(agb_degree(16, 1, 4, 0, 0), 2);
    assert_eq!(agb_degree(16, 1, 1, 0, 0), 3);
    assert_eq!(agb_degree(16, 1, 4, 1, 0), 4);
    assert_eq!(agb_degree(32, 4, 8, 4, 1), 0);
    assert_eq!(agb_degree(64, 32, 8, 4, 1), 3);
    assert_eq!(agb_degree(1024, 652, 57, 3, 0), 0);
}
