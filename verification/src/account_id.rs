//! Account identifiers.

use vstd::prelude::*;
use vstd::std_specs::cmp::PartialEqSpecImpl;
use vstd::string::*;
use vstd::utf8::is_ascii_chars;

verus! {

broadcast use vstd::string::is_ascii_spec_bytes;

/// The shortest account identifier, in bytes.
pub const MIN_ACCOUNT_ID_LEN: usize = 2;

/// The longest account identifier, in bytes.
pub const MAX_ACCOUNT_ID_LEN: usize = 64;

/// `-`, `_` and `.` separate the parts of an account identifier.
pub open spec fn is_separator(b: u8) -> bool {
    b == 0x2d || b == 0x5f || b == 0x2e
}

/// The parts of an account identifier are made of `a` to `z` and `0` to `9`.
pub open spec fn is_lowercase_alphanumeric(b: u8) -> bool {
    (0x61 <= b <= 0x7a) || (0x30 <= b <= 0x39)
}

/// The rule for account identifiers: between 2 and 64 bytes, each a lowercase
/// letter, a digit or a separator, with no separator first, last, or next to
/// another.
pub open spec fn is_valid_account_id(id: Seq<u8>) -> bool {
    &&& MIN_ACCOUNT_ID_LEN <= id.len() <= MAX_ACCOUNT_ID_LEN
    &&& forall|i: int|
        0 <= i < id.len() ==> is_lowercase_alphanumeric(#[trigger] id[i]) || is_separator(id[i])
    &&& !is_separator(id[0])
    &&& !is_separator(id[id.len() - 1])
    &&& forall|i: int|
        0 < i < id.len() ==> !(is_separator(id[i - 1]) && is_separator(#[trigger] id[i]))
}

/// The bytes of a text made of ASCII characters.
pub open spec fn ascii_bytes(name: Seq<char>) -> Seq<u8> {
    Seq::new(name.len(), |i: int| name[i] as u8)
}

/// A text is a valid account name if it is ASCII and its bytes are a valid
/// account identifier.
pub open spec fn valid_account_name(name: Seq<char>) -> bool {
    is_ascii_chars(name) && is_valid_account_id(ascii_bytes(name))
}

/// Asks `near_sdk::env::is_valid_account_id` whether the UTF-8 bytes of `id`
/// are a valid account identifier.
///
/// This is trusted, not proved: the result is taken to be the rule that
/// [`is_valid_account_id`] states, which is what that function checks byte
/// by byte.
#[verifier::external_body]
fn check_account_id(id: &str) -> (valid: bool)
    ensures
        valid == is_valid_account_id(id.spec_bytes()),
{
    near_sdk::env::is_valid_account_id(id.as_bytes())
}

/// The name of an account. Every value of this type is a valid account name.
#[derive(Debug)]
pub struct AccountId {
    name: String,
}

impl View for AccountId {
    type V = Seq<char>;

    closed spec fn view(&self) -> Seq<char> {
        self.name@
    }
}

impl AccountId {
    #[verifier::type_invariant]
    pub open spec fn well_formed(self) -> bool {
        valid_account_name(self@)
    }

    /// The account of the given name, if the name is valid.
    pub fn parse(name: &str) -> (r: Option<AccountId>)
        ensures
            r is Some <==> valid_account_name(name@),
            r is Some ==> r->0@ == name@,
    {
        if !name.is_ascii() {
            return None;
        }
        if check_account_id(name) {
            Some(AccountId { name: name.to_owned() })
        } else {
            None
        }
    }

    /// The name as text.
    pub fn as_str(&self) -> (s: &str)
        ensures
            s@ == self@,
            valid_account_name(s@),
    {
        proof {
            use_type_invariant(self);
        }
        self.name.as_str()
    }
}

impl Clone for AccountId {
    fn clone(&self) -> (r: Self)
        ensures
            r@ == self@,
    {
        proof {
            use_type_invariant(self);
        }
        AccountId { name: self.name.clone() }
    }
}

impl PartialEq for AccountId {
    fn eq(&self, other: &AccountId) -> (r: bool) {
        self.name == other.name
    }
}

impl PartialEqSpecImpl for AccountId {
    open spec fn obeys_eq_spec() -> bool {
        true
    }

    open spec fn eq_spec(&self, other: &AccountId) -> bool {
        self@ == other@
    }
}

impl Eq for AccountId {

}

} // verus!
