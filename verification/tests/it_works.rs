use bank_network::framing::HEADER_LEN;

#[test]
fn main_it_works() {
    assert_eq!(2 + 2, 4);
}

#[test]
fn lib_it_works() {
    assert_eq!(2 + 2, 4);
    assert_eq!(HEADER_LEN, 2);
}
