//! Authorisation of protected operations. The caller hands each protected
//! operation the addresses that have authorised the invocation; the operation
//! asks before it changes anything.

use vstd::prelude::*;
use vstd::string::*;
use crate::text::same_text;

verus! {

/// Why a protected operation refused to run.
#[derive(Clone, Copy, Debug, PartialEq, Eq, Structural)]
pub enum AuthorizationError {
    /// The address that had to authorise the invocation has not done so.
    Unauthorized,
}

/// The addresses that have authorised the current invocation.
#[derive(Clone, Debug)]
pub struct Authorizer {
    signers: Vec<String>,
}

impl View for Authorizer {
    type V = Set<Seq<char>>;

    closed spec fn view(&self) -> Set<Seq<char>> {
        Set::new(
            |address: Seq<char>|
                exists|i: int| 0 <= i < self.signers@.len() && self.signers@[i]@ == address,
        )
    }
}

impl Authorizer {
    /// An invocation that nobody has authorised.
    pub fn none() -> (authorizer: Self)
        ensures
            authorizer@ == Set::<Seq<char>>::empty(),
    {
        let authorizer = Authorizer { signers: Vec::new() };
        authorizer
    }

    /// An invocation that `address` alone has authorised.
    pub fn of(address: &str) -> (authorizer: Self)
        ensures
            authorizer@ == Set::<Seq<char>>::empty().insert(address@),
    {
        let mut authorizer = Self::none();
        authorizer.add(address);
        authorizer
    }

    /// Notes that `address` too has authorised the invocation.
    pub fn add(&mut self, address: &str)
        ensures
            final(self)@ == old(self)@.insert(address@),
    {
        let owned = address.to_owned();
        self.signers.push(owned);
        proof {
            assert forall|a: Seq<char>|
                old(self)@.insert(address@).contains(a) implies self@.contains(a) by {
                if a == address@ {
                    assert(self.signers@[self.signers@.len() - 1]@ == a);
                } else {
                    let i = choose|i: int|
                        0 <= i < old(self).signers@.len() && old(self).signers@[i]@ == a;
                    assert(self.signers@[i]@ == a);
                }
            }
        }
    }

    /// Whether `address` has authorised the invocation.
    pub fn authorizes(&self, address: &str) -> (granted: bool)
        ensures
            granted == self@.contains(address@),
    {
        let n: usize = self.signers.len();
        let mut i: usize = 0;
        while i < n
            invariant
                n == self.signers@.len(),
                i <= n,
                forall|j: int| 0 <= j < i ==> self.signers@[j]@ != address@,
            decreases n - i,
        {
            if same_text(self.signers[i].as_str(), address) {
                return true;
            }
            i += 1;
        }
        false
    }
}

} // verus!
