#[test]
fn it_works() {
    let result = 1 + 1;
    assert_eq!(result, 2)
}
