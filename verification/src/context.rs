//! The per-build secret store.  A context exists for the duration of one
//! build attempt and holds the aggregate blinding secrets returned by the
//! negotiation document, the selected inputs and derived outputs of both
//! assets, and the build's amount, fee and flags.  It is a pure value holder:
//! it performs no storage or network work, and it must never reach durable
//! storage in the clear.

use vstd::prelude::*;
use crate::selection::Spendable;
use crate::types::Identifier;

verus! {

/// One registered input or output: the derived identifier, its optional
/// merkle index, and its value.
#[derive(Clone, Copy, Debug, PartialEq, Eq)]
pub struct Entry {
    pub key_id: Identifier,
    pub mmr_index: Option<u64>,
    pub value: u64,
}

impl Spendable for Entry {
    open spec fn spec_value(self) -> u64 {
        self.value
    }

    fn value(&self) -> u64 {
        self.value
    }
}

/// The all-zero secret key, standing in for an absent aggregate secret.
pub open spec fn spec_zero_key() -> Seq<u8> {
    Seq::new(32, |i: int| 0u8)
}

pub fn zero_key() -> (r: [u8; 32])
    ensures
        r@ == spec_zero_key(),
{
    let r = [0u8; 32];
    proof {
        assert(r@ =~= spec_zero_key());
    }
    r
}

/// The ephemeral secret store of one build attempt.
pub struct Context {
    pub parent_key_id: Identifier,
    pub sec_key: [u8; 32],
    pub token_sec_key: [u8; 32],
    pub sec_nonce: [u8; 32],
    pub input: Vec<Entry>,
    pub output: Vec<Entry>,
    pub token_input: Vec<Entry>,
    pub token_output: Vec<Entry>,
    pub amount: u64,
    pub fee: u64,
    pub is_invoice: bool,
    pub payment_proof_derivation_index: Option<u64>,
}

/// The scalar fields of the two contexts agree; only the entry lists may
/// differ.
pub open spec fn same_scalars(a: Context, b: Context) -> bool {
    &&& b.parent_key_id == a.parent_key_id
    &&& b.sec_key == a.sec_key
    &&& b.token_sec_key == a.token_sec_key
    &&& b.sec_nonce == a.sec_nonce
    &&& b.amount == a.amount
    &&& b.fee == a.fee
    &&& b.is_invoice == a.is_invoice
    &&& b.payment_proof_derivation_index == a.payment_proof_derivation_index
}

impl Context {
    /// A fresh context around the aggregate secrets of one build, with no
    /// entries registered, zero amount and fee, and no payment-proof index.
    pub fn new(
        sec_key: [u8; 32],
        token_sec_key: [u8; 32],
        parent_key_id: &Identifier,
        sec_nonce: [u8; 32],
        is_invoice: bool,
    ) -> (r: Context)
        ensures
            r.parent_key_id == *parent_key_id,
            r.sec_key == sec_key,
            r.token_sec_key == token_sec_key,
            r.sec_nonce == sec_nonce,
            r.input@ == Seq::<Entry>::empty(),
            r.output@ == Seq::<Entry>::empty(),
            r.token_input@ == Seq::<Entry>::empty(),
            r.token_output@ == Seq::<Entry>::empty(),
            r.amount == 0,
            r.fee == 0,
            r.is_invoice == is_invoice,
            r.payment_proof_derivation_index is None,
    {
        let r = Context {
            parent_key_id: *parent_key_id,
            sec_key,
            token_sec_key,
            sec_nonce,
            input: Vec::new(),
            output: Vec::new(),
            token_input: Vec::new(),
            token_output: Vec::new(),
            amount: 0,
            fee: 0,
            is_invoice,
            payment_proof_derivation_index: None,
        };
        proof {
            assert(r.input@ =~= Seq::<Entry>::empty());
            assert(r.output@ =~= Seq::<Entry>::empty());
            assert(r.token_input@ =~= Seq::<Entry>::empty());
            assert(r.token_output@ =~= Seq::<Entry>::empty());
        }
        r
    }

    /// Register a selected primary-asset input.
    pub fn add_input(&mut self, key_id: &Identifier, mmr_index: &Option<u64>, value: u64)
        ensures
            same_scalars(*old(self), *final(self)),
            final(self).input@ == old(self).input@.push(
                (Entry { key_id: *key_id, mmr_index: *mmr_index, value }),
            ),
            final(self).output == old(self).output,
            final(self).token_input == old(self).token_input,
            final(self).token_output == old(self).token_output,
    {
        self.input.push(Entry { key_id: *key_id, mmr_index: *mmr_index, value });
    }

    /// Register a derived primary-asset output.
    pub fn add_output(&mut self, key_id: &Identifier, mmr_index: &Option<u64>, value: u64)
        ensures
            same_scalars(*old(self), *final(self)),
            final(self).output@ == old(self).output@.push(
                (Entry { key_id: *key_id, mmr_index: *mmr_index, value }),
            ),
            final(self).input == old(self).input,
            final(self).token_input == old(self).token_input,
            final(self).token_output == old(self).token_output,
    {
        self.output.push(Entry { key_id: *key_id, mmr_index: *mmr_index, value });
    }

    /// Register a selected secondary-asset input.
    pub fn add_token_input(&mut self, key_id: &Identifier, mmr_index: &Option<u64>, value: u64)
        ensures
            same_scalars(*old(self), *final(self)),
            final(self).token_input@ == old(self).token_input@.push(
                (Entry { key_id: *key_id, mmr_index: *mmr_index, value }),
            ),
            final(self).input == old(self).input,
            final(self).output == old(self).output,
            final(self).token_output == old(self).token_output,
    {
        self.token_input.push(Entry { key_id: *key_id, mmr_index: *mmr_index, value });
    }

    /// Register a derived secondary-asset output.
    pub fn add_token_output(&mut self, key_id: &Identifier, mmr_index: &Option<u64>, value: u64)
        ensures
            same_scalars(*old(self), *final(self)),
            final(self).token_output@ == old(self).token_output@.push(
                (Entry { key_id: *key_id, mmr_index: *mmr_index, value }),
            ),
            final(self).input == old(self).input,
            final(self).output == old(self).output,
            final(self).token_input == old(self).token_input,
    {
        self.token_output.push(Entry { key_id: *key_id, mmr_index: *mmr_index, value });
    }

    /// The registered primary-asset inputs.
    pub fn get_inputs(&self) -> (r: &Vec<Entry>)
        ensures
            r@ == self.input@,
    {
        &self.input
    }

    /// The registered primary-asset outputs.
    pub fn get_outputs(&self) -> (r: &Vec<Entry>)
        ensures
            r@ == self.output@,
    {
        &self.output
    }

    /// The registered secondary-asset inputs.
    pub fn get_token_inputs(&self) -> (r: &Vec<Entry>)
        ensures
            r@ == self.token_input@,
    {
        &self.token_input
    }

    /// The registered secondary-asset outputs.
    pub fn get_token_outputs(&self) -> (r: &Vec<Entry>)
        ensures
            r@ == self.token_output@,
    {
        &self.token_output
    }
}

} // verus!
