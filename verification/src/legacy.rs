//! The data back end's reading of the old text requests, `KIND://argument`.

use vstd::prelude::*;
use vstd::string::*;

verus! {

/// What an old text request asks for.
#[derive(Debug)]
pub enum LegacyRequest {
    /// The text holds no `://`.
    Invalid,
    Login,
    ListAccounts,
    /// Information on the account named by the argument.
    Account(String),
    /// A request of another kind.
    Other,
}

/// Whether the separator `://` starts at position `i` of `s`.
pub open spec fn separator_at(s: Seq<char>, i: int) -> bool {
    &&& 0 <= i
    &&& i + 3 <= s.len()
    &&& s[i] == ':'
    &&& s[i + 1] == '/'
    &&& s[i + 2] == '/'
}

/// The first position at or after `from` where the separator starts, or -1.
pub open spec fn first_separator_from(s: Seq<char>, from: int) -> int
    decreases s.len() - from,
{
    if from < 0 || from + 3 > s.len() {
        -1
    } else if separator_at(s, from) {
        from
    } else {
        first_separator_from(s, from + 1)
    }
}

/// The first two pieces of `s` split at `://`, where it holds a separator.
pub open spec fn split_pieces(s: Seq<char>) -> Option<(Seq<char>, Seq<char>)> {
    let i = first_separator_from(s, 0);
    if i < 0 {
        None
    } else {
        let j = first_separator_from(s, i + 3);
        let second = if j < 0 {
            s.subrange(i + 3, s.len() as int)
        } else {
            s.subrange(i + 3, j)
        };
        Some((s.subrange(0, i), second))
    }
}

/// Whether `r` is what the text `s` asks for.
pub open spec fn legacy_request_of(s: Seq<char>, r: LegacyRequest) -> bool {
    match split_pieces(s) {
        None => r is Invalid,
        Some((kind, arg)) => if kind == "LOGIN"@ {
            r is Login
        } else if kind == "LIST_ACCOUNTS"@ {
            r is ListAccounts
        } else if kind == "ACCOUNT"@ {
            r matches LegacyRequest::Account(a) && a@ == arg
        } else {
            r is Other
        },
    }
}

proof fn lemma_first_separator_bounds(s: Seq<char>, from: int)
    requires
        0 <= from,
    ensures
        ({
            let i = first_separator_from(s, from);
            i == -1 || (from <= i && separator_at(s, i) && forall|k: int|
                from <= k < i ==> !#[trigger] separator_at(s, k))
        }),
        first_separator_from(s, from) == -1 ==> forall|k: int|
            from <= k ==> !#[trigger] separator_at(s, k),
    decreases s.len() - from,
{
    if from + 3 > s.len() {
    } else if separator_at(s, from) {
    } else {
        lemma_first_separator_bounds(s, from + 1);
    }
}

/// The first position at or after `from` where `://` starts in `s`, if any.
fn find_separator(s: &str, from: usize) -> (res: Option<usize>)
    requires
        from <= s@.len(),
    ensures
        match res {
            Some(i) => first_separator_from(s@, from as int) == i as int,
            None => first_separator_from(s@, from as int) == -1,
        },
{
    let n = s.unicode_len();
    let mut i = from;
    while n >= 3 && i <= n - 3
        invariant
            n == s@.len(),
            from <= i,
            first_separator_from(s@, from as int) == first_separator_from(s@, i as int),
        decreases n - i,
    {
        if s.get_char(i) == ':' && s.get_char(i + 1) == '/' && s.get_char(i + 2) == '/' {
            return Some(i);
        }
        i = i + 1;
    }
    None
}

/// Reads what an old text request asks for: the text before the first
/// `://` names the kind, and the text up to the next `://` is the argument.
pub fn classify_legacy(data: &str) -> (res: LegacyRequest)
    ensures
        legacy_request_of(data@, res),
{
    let n = data.unicode_len();
    let i = match find_separator(data, 0) {
        Some(i) => i,
        None => {
            return LegacyRequest::Invalid;
        },
    };
    proof {
        lemma_first_separator_bounds(data@, 0);
    }
    let kind = String::from_str(data.substring_char(0, i));
    let second = match find_separator(data, i + 3) {
        Some(j) => {
            proof {
                lemma_first_separator_bounds(data@, i + 3);
            }
            data.substring_char(i + 3, j)
        },
        None => data.substring_char(i + 3, n),
    };
    if kind == String::from_str("LOGIN") {
        LegacyRequest::Login
    } else if kind == String::from_str("LIST_ACCOUNTS") {
        LegacyRequest::ListAccounts
    } else if kind == String::from_str("ACCOUNT") {
        LegacyRequest::Account(String::from_str(second))
    } else {
        LegacyRequest::Other
    }
}

/// The separator between the kind of an old text request and its argument.
pub open spec fn separator() -> Seq<char> {
    seq![':', '/', '/']
}

proof fn lemma_first_separator_after_kind(k: Seq<char>, rest: Seq<char>, j: int)
    requires
        forall|i: int| !#[trigger] separator_at(k, i),
        0 <= j <= k.len(),
    ensures
        first_separator_from(k + separator() + rest, j) == k.len(),
    decreases k.len() - j,
{
    let s = k + separator() + rest;
    assert(s[k.len() as int] == ':' && s[k.len() + 1int] == '/' && s[k.len() + 2int] == '/');
    if j < k.len() {
        if separator_at(s, j) {
            if j + 3 <= k.len() {
                assert(s[j] == k[j] && s[j + 1] == k[j + 1] && s[j + 2] == k[j + 2]);
                assert(separator_at(k, j));
            } else {
                assert(s[k.len() as int] == ':');
            }
        }
        lemma_first_separator_after_kind(k, rest, j + 1);
    }
}

/// The kind of an old text request is the text before its first `://`,
/// whatever the argument after it: a kind without `://` in it, followed by
/// `://` and any text, is read as that kind.
pub proof fn lemma_kind_is_text_before_separator(k: Seq<char>, rest: Seq<char>)
    requires
        forall|i: int| !#[trigger] separator_at(k, i),
    ensures
        split_pieces(k + separator() + rest) matches Some((kind, _)) && kind == k,
{
    lemma_first_separator_after_kind(k, rest, 0);
    let s = k + separator() + rest;
    assert(s.subrange(0, k.len() as int) =~= k);
}

/// Which request an old text asks for depends only on its kind: for every
/// argument text `a`, `LOGIN://a` is a login, `LIST_ACCOUNTS://a` asks for
/// the list of accounts, and `ACCOUNT://a` asks for an account (named by
/// `a` up to its own first `://`).
pub proof fn lemma_kind_decides_request(a: Seq<char>, r: LegacyRequest)
    ensures
        legacy_request_of("LOGIN"@ + separator() + a, r) <==> r is Login,
        legacy_request_of("LIST_ACCOUNTS"@ + separator() + a, r) <==> r is ListAccounts,
        legacy_request_of("ACCOUNT"@ + separator() + a, r) ==> r is Account,
{
    reveal_strlit("LOGIN");
    reveal_strlit("LIST_ACCOUNTS");
    reveal_strlit("ACCOUNT");
    assert forall|i: int| !#[trigger] separator_at("LOGIN"@, i) by {
        if 0 <= i && i + 3 <= "LOGIN"@.len() {
            assert("LOGIN"@[i] != ':');
        }
    }
    assert forall|i: int| !#[trigger] separator_at("LIST_ACCOUNTS"@, i) by {
        if 0 <= i && i + 3 <= "LIST_ACCOUNTS"@.len() {
            assert("LIST_ACCOUNTS"@[i] != ':');
        }
    }
    assert forall|i: int| !#[trigger] separator_at("ACCOUNT"@, i) by {
        if 0 <= i && i + 3 <= "ACCOUNT"@.len() {
            assert("ACCOUNT"@[i] != ':');
        }
    }
    lemma_kind_is_text_before_separator("LOGIN"@, a);
    lemma_kind_is_text_before_separator("LIST_ACCOUNTS"@, a);
    lemma_kind_is_text_before_separator("ACCOUNT"@, a);
    assert("LOGIN"@ != "LIST_ACCOUNTS"@ && "LOGIN"@ != "ACCOUNT"@ && "LIST_ACCOUNTS"@
        != "ACCOUNT"@) by {
        assert("LOGIN"@.len() != "LIST_ACCOUNTS"@.len());
        assert("LOGIN"@.len() != "ACCOUNT"@.len());
        assert("LIST_ACCOUNTS"@.len() != "ACCOUNT"@.len());
    }
}

/// A kind other than the three known ones, followed by `://` and any
/// text, asks for something the back end does not handle.
pub proof fn lemma_unknown_kind_is_other(k: Seq<char>, a: Seq<char>, r: LegacyRequest)
    requires
        forall|i: int| !#[trigger] separator_at(k, i),
        k != "LOGIN"@,
        k != "LIST_ACCOUNTS"@,
        k != "ACCOUNT"@,
    ensures
        legacy_request_of(k + separator() + a, r) <==> r is Other,
{
    lemma_kind_is_text_before_separator(k, a);
}

proof fn lemma_no_separator_from(s: Seq<char>, from: int)
    requires
        0 <= from,
        forall|i: int| !#[trigger] separator_at(s, i),
    ensures
        first_separator_from(s, from) == -1,
    decreases s.len() - from,
{
    if from + 3 <= s.len() {
        lemma_no_separator_from(s, from + 1);
    }
}

/// A text without `://` is no request at all.
pub proof fn lemma_no_separator_is_invalid(s: Seq<char>, r: LegacyRequest)
    requires
        forall|i: int| !#[trigger] separator_at(s, i),
    ensures
        legacy_request_of(s, r) <==> r is Invalid,
{
    lemma_no_separator_from(s, 0);
}

/// The argument of an old text request: the text after the kind's `://`,
/// up to its own first `://`.
pub open spec fn argument_piece(a: Seq<char>) -> Seq<char> {
    let j = first_separator_from(a, 0);
    if j < 0 {
        a
    } else {
        a.subrange(0, j)
    }
}

proof fn lemma_separator_search_shifts(p: Seq<char>, a: Seq<char>, j: int)
    requires
        0 <= j,
    ensures
        first_separator_from(p + a, p.len() + j) == (if first_separator_from(a, j) < 0 {
            -1
        } else {
            first_separator_from(a, j) + p.len()
        }),
    decreases a.len() - j,
{
    let s = p + a;
    if j + 3 <= a.len() {
        assert(s[p.len() + j] == a[j] && s[p.len() + j + 1] == a[j + 1] && s[p.len() + j + 2]
            == a[j + 2]);
        lemma_separator_search_shifts(p, a, j + 1);
    }
}

/// `ACCOUNT://a` asks for the account named by `a` up to its own first
/// `://`, whatever follows.
pub proof fn lemma_account_argument(a: Seq<char>, r: LegacyRequest)
    ensures
        legacy_request_of("ACCOUNT"@ + separator() + a, r) <==> (r matches LegacyRequest::Account(
            x,
        ) && x@ == argument_piece(a)),
{
    reveal_strlit("ACCOUNT");
    reveal_strlit("LOGIN");
    reveal_strlit("LIST_ACCOUNTS");
    let k = "ACCOUNT"@;
    assert forall|i: int| !#[trigger] separator_at(k, i) by {
        if 0 <= i && i + 3 <= k.len() {
            assert(k[i] != ':');
        }
    }
    lemma_first_separator_after_kind(k, a, 0);
    let p = k + separator();
    let s = p + a;
    assert(k + separator() + a == s);
    lemma_separator_search_shifts(p, a, 0);
    assert(k.len() + 3 == p.len());
    assert(s.subrange(0, k.len() as int) =~= k);
    if first_separator_from(a, 0) < 0 {
        assert(s.subrange(p.len() as int, s.len() as int) =~= a);
    } else {
        lemma_first_separator_bounds(a, 0);
        assert(s.subrange(p.len() as int, first_separator_from(a, 0) + p.len()) =~= a.subrange(
            0,
            first_separator_from(a, 0),
        ));
    }
    assert(k != "LOGIN"@ && k != "LIST_ACCOUNTS"@) by {
        assert(k.len() != "LOGIN"@.len());
        assert(k.len() != "LIST_ACCOUNTS"@.len());
    }
}

} // verus!
