//! One vendor's entry in the registry: a hardware-address prefix and its
//! metadata.

use vstd::prelude::*;
use crate::prefix::{ValidationError, derive_random_address, is_derived_from, valid_prefix,
    verify_prefix};

verus! {

/// The mathematical model of a record: its four fields as plain values.
pub struct RecordModel {
    pub prefix: Seq<char>,
    pub vendor_name: Seq<char>,
    pub is_private: bool,
    pub block_type: Seq<char>,
}

/// One vendor's prefix and metadata.  A record can only be constructed with
/// a well-formed prefix: exactly six hexadecimal characters once colon
/// separators are stripped.
pub struct VendorRecord {
    prefix: String,
    vendor_name: String,
    is_private: bool,
    block_type: String,
}

impl View for VendorRecord {
    type V = RecordModel;

    closed spec fn view(&self) -> RecordModel {
        RecordModel {
            prefix: self.prefix@,
            vendor_name: self.vendor_name@,
            is_private: self.is_private,
            block_type: self.block_type@,
        }
    }
}

/// A model with a well-formed prefix.
pub open spec fn record_wf(m: RecordModel) -> bool {
    valid_prefix(m.prefix)
}

impl VendorRecord {
    /// Every record that exists has a well-formed prefix: construction
    /// refuses anything else.
    #[verifier::type_invariant]
    pub open spec fn type_inv(self) -> bool {
        record_wf(self@)
    }

    /// Builds a record, rejecting a prefix that is not six hexadecimal
    /// characters once colon separators are stripped.
    pub fn new(prefix: String, vendor_name: String, is_private: bool, block_type: String) -> (r:
        Result<VendorRecord, ValidationError>)
        ensures
            r is Ok <==> valid_prefix(prefix@),
            r matches Ok(rec) ==> rec@ == (RecordModel {
                prefix: prefix@,
                vendor_name: vendor_name@,
                is_private: is_private,
                block_type: block_type@,
            }) && record_wf(rec@),
    {
        match verify_prefix(&prefix) {
            Ok(()) => Ok(VendorRecord { prefix, vendor_name, is_private, block_type }),
            Err(e) => Err(e),
        }
    }

    /// The vendor-assigned prefix.
    pub fn prefix(&self) -> (r: String)
        ensures
            r@ == self@.prefix,
    {
        self.prefix.clone()
    }

    /// The free-text vendor label.
    pub fn vendor(&self) -> (r: String)
        ensures
            r@ == self@.vendor_name,
    {
        self.vendor_name.clone()
    }

    /// Whether the prefix is a locally-administered block.
    pub fn is_private(&self) -> (r: bool)
        ensures
            r == self@.is_private,
    {
        self.is_private
    }

    /// The registry classification label, opaque to the core logic.
    pub fn block_type(&self) -> (r: String)
        ensures
            r@ == self@.block_type,
    {
        self.block_type.clone()
    }

    /// A randomized address under this record's prefix: the prefix followed
    /// by three independently drawn octets.
    pub fn random_from_prefix(&self) -> (r: String)
        ensures
            is_derived_from(r@, self@.prefix),
    {
        derive_random_address(self.prefix.as_str())
    }
}

/// The models of a sequence of records, in order.
pub open spec fn models_of(rs: Seq<VendorRecord>) -> Seq<RecordModel> {
    rs.map_values(|r: VendorRecord| r@)
}

} // verus!
