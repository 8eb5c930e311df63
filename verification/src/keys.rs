//! Keypair generation and address derivation over the Solana SDK: one
//! fresh random keypair per call, each with its derived base58 address.

use vstd::prelude::*;
use solana_sdk::signer::Signer;
use solana_sdk::signer::keypair::Keypair;

verus! {

#[verifier::external_type_specification]
#[verifier::external_body]
pub struct ExKeypair(Keypair);

/// The address a keypair derives: the base58 text of its public key, a
/// function of the key material alone.
pub uninterp spec fn address_of(kp: Keypair) -> Seq<char>;

/// Relies on the Solana SDK's `Keypair::new`: a fresh keypair drawn from
/// the system's entropy source. Nothing is promised of which one comes
/// back, and two calls need not agree.
#[verifier::external_body]
fn generate_keypair() -> Keypair {
    Keypair::new()
}

/// Relies on the Solana SDK's `Signer::pubkey` and the base58 display of
/// the public key: the derived address is a function of the keypair alone.
#[verifier::external_body]
fn derive_address(kp: &Keypair) -> (s: String)
    ensures
        s@ == address_of(*kp),
{
    kp.pubkey().to_string()
}

/// A generated keypair together with the address it derives.
pub struct Candidate {
    pub keypair: Keypair,
    pub address: String,
}

impl Candidate {
    /// The stored address is the one the keypair derives.
    pub open spec fn wf(&self) -> bool {
        self.address@ == address_of(self.keypair)
    }

    /// One fresh random candidate, with its address derived once.
    pub fn generate() -> (c: Candidate)
        ensures
            c.wf(),
    {
        let kp = generate_keypair();
        let address = derive_address(&kp);
        Candidate { keypair: kp, address }
    }
}

} // verus!
