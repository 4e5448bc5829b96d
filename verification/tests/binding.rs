use jsrs_common::types::binding::UniqueBinding;

#[test]
fn test_display() {
    let bnd = UniqueBinding::anon();
    println!("{}", bnd.to_string());
}
