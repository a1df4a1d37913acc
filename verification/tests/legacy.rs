use bank_network::legacy::{classify_legacy, LegacyRequest};

#[test]
fn legacy_login_and_list() {
    assert!(matches!(classify_legacy("LOGIN://alice"), LegacyRequest::Login));
    assert!(matches!(classify_legacy("LIST_ACCOUNTS://"), LegacyRequest::ListAccounts));
}

#[test]
fn legacy_account_takes_second_piece() {
    match classify_legacy("ACCOUNT://12345://extra") {
        LegacyRequest::Account(a) => assert_eq!(a, "12345"),
        other => panic!("unexpected {:?}", other),
    }
    match classify_legacy("ACCOUNT://77") {
        LegacyRequest::Account(a) => assert_eq!(a, "77"),
        other => panic!("unexpected {:?}", other),
    }
}

#[test]
fn legacy_invalid_and_other() {
    assert!(matches!(classify_legacy("LOGIN alice"), LegacyRequest::Invalid));
    assert!(matches!(classify_legacy(""), LegacyRequest::Invalid));
    assert!(matches!(classify_legacy("TRANSFER://1"), LegacyRequest::Other));
    assert!(matches!(classify_legacy("login://x"), LegacyRequest::Other));
}
