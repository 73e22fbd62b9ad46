use vstd::prelude::*;
use vstd::std_specs::cmp::PartialEqSpecImpl;

verus! {

/// The name of an account. Two identifiers are the same account when their
/// characters are the same; that text is the view.
#[derive(Debug)]
pub struct AccountId {
    name: String,
}

impl View for AccountId {
    type V = Seq<char>;

    closed spec fn view(&self) -> Seq<char> {
        self.name@
    }
}

impl AccountId {
    /// The bytes of the name, as they are hashed and stored: its UTF-8 text.
    pub open spec fn bytes(&self) -> Seq<u8> {
        vstd::utf8::encode_utf8(self@)
    }

    /// The account that `name` names.
    pub fn new(name: String) -> (account: Self)
        ensures
            account@ == name@,
    {
        AccountId { name }
    }

    /// The account that `name` names.
    pub fn from_str(name: &str) -> (account: Self)
        ensures
            account@ == name@,
    {
        AccountId { name: name.to_owned() }
    }

    /// The name as text.
    pub fn as_str(&self) -> (name: &str)
        ensures
            name@ == self@,
    {
        self.name.as_str()
    }

    /// The name as bytes.
    pub fn as_bytes(&self) -> (bytes: &[u8])
        ensures
            bytes@ == self.bytes(),
    {
        self.name.as_str().as_bytes()
    }
}

impl Clone for AccountId {
    fn clone(&self) -> (copy: Self)
        ensures
            copy == *self,
            copy@ == self@,
    {
        AccountId { name: self.name.clone() }
    }
}

impl PartialEq for AccountId {
    fn eq(&self, other: &Self) -> (same: bool) {
        self.name == other.name
    }
}

impl PartialEqSpecImpl for AccountId {
    open spec fn obeys_eq_spec() -> bool {
        true
    }

    open spec fn eq_spec(&self, other: &Self) -> bool {
        self@ == other@
    }
}

impl Eq for AccountId {

}

/// What the host tells a write operation: who asks, and when.
pub struct Context {
    signer: AccountId,
    timestamp: u64,
}

impl Context {
    /// The account on whose behalf the operation runs.
    pub closed spec fn signer(&self) -> Seq<char> {
        self.signer@
    }

    /// The time of the operation, in nanoseconds.
    pub closed spec fn timestamp(&self) -> u64 {
        self.timestamp
    }

    /// A context for an operation of `signer` at `timestamp`.
    pub fn new(signer: AccountId, timestamp: u64) -> (context: Self)
        ensures
            context.signer() == signer@,
            context.timestamp() == timestamp,
    {
        Context { signer, timestamp }
    }

    /// The account on whose behalf the operation runs.
    pub fn current_account(&self) -> (account: &AccountId)
        ensures
            account@ == self.signer(),
    {
        &self.signer
    }

    /// The time of the operation, in nanoseconds.
    pub fn now(&self) -> (time: u64)
        ensures
            time == self.timestamp(),
    {
        self.timestamp
    }
}

} // verus!
