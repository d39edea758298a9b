//! The vendor registry: an ordered sequence of records with first-match
//! lookups by address prefix and by vendor-name substring.

use vstd::prelude::*;
use crate::json::{parse_records, records_json};
use crate::record::{RecordModel, VendorRecord, models_of};
use crate::text::{chars_contain, chars_is_prefix, has_substring, lower_seq, to_lower_chars};

verus! {

/// The record's prefix is a literal, case-insensitive prefix of `addr`.
pub open spec fn prefix_matches(m: RecordModel, addr: Seq<char>) -> bool {
    lower_seq(m.prefix).is_prefix_of(lower_seq(addr))
}

/// The query occurs, case-insensitively, inside the record's vendor label.
pub open spec fn vendor_matches(m: RecordModel, query: Seq<char>) -> bool {
    has_substring(lower_seq(m.vendor_name), lower_seq(query))
}

/// An ordered collection of vendor records.  Insertion order is preserved
/// and decides ties: every lookup returns the first match in registry order.
pub struct VendorRegistry {
    storage_path: String,
    records: Vec<VendorRecord>,
}

impl VendorRegistry {
    /// The models of the held records, in registry order.
    pub closed spec fn models(&self) -> Seq<RecordModel> {
        models_of(self.records@)
    }

    /// Where the persisted snapshot of this registry lives.
    pub closed spec fn spec_storage_path(&self) -> Seq<char> {
        self.storage_path@
    }

    /// Builds a registry owning the given records, in their given order.
    pub fn new(storage_path: String, records: Vec<VendorRecord>) -> (r: VendorRegistry)
        ensures
            r.models() == models_of(records@),
            r.spec_storage_path() == storage_path@,
    {
        VendorRegistry { storage_path, records }
    }

    /// The location of the persisted snapshot.
    pub fn storage_path(&self) -> (r: String)
        ensures
            r@ == self.spec_storage_path(),
    {
        self.storage_path.clone()
    }

    /// How many records the registry holds.
    pub fn len(&self) -> (r: usize)
        ensures
            r == self.models().len(),
    {
        self.records.len()
    }

    /// The record at a position, in registry order.
    pub fn record_at(&self, i: usize) -> (r: &VendorRecord)
        requires
            i < self.models().len(),
        ensures
            r@ == self.models()[i as int],
    {
        &self.records[i]
    }

    /// The snapshot of the whole record sequence, exactly as `records_json`
    /// spells it.  Writing it to the storage path is the surrounding
    /// program's step; parsing the snapshot back gives the same record
    /// sequence, so a reload reproduces this registry's records in order.
    pub fn to_json(&self) -> (r: String)
        ensures
            r@ == records_json(self.models()),
            parse_records(r@) == Some(self.models()),
    {
        crate::json::records_to_json(&self.records)
    }

    /// Rebuilds a registry from a persisted snapshot.  Succeeds exactly
    /// where the snapshot grammar does, with the parsed records in snapshot
    /// order.
    pub fn from_json(storage_path: String, data: &str) -> (r: Option<VendorRegistry>)
        ensures
            match r {
                Some(reg) => parse_records(data@) == Some(reg.models())
                    && reg.spec_storage_path() == storage_path@,
                None => parse_records(data@) is None,
            },
    {
        match crate::json::parse_records_json(data) {
            Some(records) => Some(VendorRegistry { storage_path, records }),
            None => None,
        }
    }

    /// The first record, in registry order, whose prefix is a literal,
    /// case-insensitive prefix of `address`; none if no record matches.
    pub fn lookup_by_prefix(&self, address: &str) -> (r: Option<&VendorRecord>)
        ensures
            match r {
                Some(rec) => exists|i: int|
                    0 <= i < self.models().len() && #[trigger] prefix_matches(
                        self.models()[i],
                        address@,
                    ) && rec@ == self.models()[i] && (forall|j: int|
                        0 <= j < i ==> !prefix_matches(#[trigger] self.models()[j], address@)),
                None => forall|i: int|
                    0 <= i < self.models().len() ==> !prefix_matches(
                        #[trigger] self.models()[i],
                        address@,
                    ),
            },
    {
        let addr_low = to_lower_chars(address);
        let n: usize = self.records.len();
        let mut i: usize = 0;
        while i < n
            invariant
                n == self.models().len(),
                addr_low@ == lower_seq(address@),
                0 <= i <= n,
                forall|j: int|
                    0 <= j < i ==> !prefix_matches(#[trigger] self.models()[j], address@),
            decreases n - i,
        {
            let rec = &self.records[i];
            let pre = rec.prefix();
            let pre_low = to_lower_chars(pre.as_str());
            proof {
                assert(self.models()[i as int] == rec@);
            }
            if chars_is_prefix(&pre_low, &addr_low) {
                proof {
                    assert(prefix_matches(self.models()[i as int], address@));
                }
                return Some(rec);
            }
            i = i + 1;
        }
        None
    }

    /// The first record, in registry order, whose vendor label contains the
    /// query as a case-insensitive substring; none if no record matches.
    pub fn lookup_by_vendor(&self, name: &str) -> (r: Option<&VendorRecord>)
        ensures
            match r {
                Some(rec) => exists|i: int|
                    0 <= i < self.models().len() && #[trigger] vendor_matches(
                        self.models()[i],
                        name@,
                    ) && rec@ == self.models()[i] && (forall|j: int|
                        0 <= j < i ==> !vendor_matches(#[trigger] self.models()[j], name@)),
                None => forall|i: int|
                    0 <= i < self.models().len() ==> !vendor_matches(
                        #[trigger] self.models()[i],
                        name@,
                    ),
            },
    {
        let query_low = to_lower_chars(name);
        let n: usize = self.records.len();
        let mut i: usize = 0;
        while i < n
            invariant
                n == self.models().len(),
                query_low@ == lower_seq(name@),
                0 <= i <= n,
                forall|j: int|
                    0 <= j < i ==> !vendor_matches(#[trigger] self.models()[j], name@),
            decreases n - i,
        {
            let rec = &self.records[i];
            let label = rec.vendor();
            let label_low = to_lower_chars(label.as_str());
            proof {
                assert(self.models()[i as int] == rec@);
            }
            if chars_contain(&label_low, &query_low) {
                proof {
                    assert(vendor_matches(self.models()[i as int], name@));
                }
                return Some(rec);
            }
            i = i + 1;
        }
        None
    }
}

} // verus!
