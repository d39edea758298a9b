//! Where vendor data comes from: the datasource description (a fetch URL and
//! the name of the adapter for its payload format) and the adapter dispatch
//! that converts a provider payload into vendor records.

use vstd::prelude::*;
use crate::json::{config_json, parse_config, parse_records, parse_records_json};
use crate::record::{VendorRecord, models_of};
use crate::text::{chars_eq_str, lower_seq, to_lower_chars};

verus! {

/// Why a payload conversion failed.
#[derive(Clone, Copy, Debug, PartialEq, Eq, Structural)]
pub enum ConvertError {
    /// No adapter is registered under the given source name; nothing was
    /// parsed.
    UnknownSource,
    /// The payload does not parse as the named adapter's format, or a record
    /// in it carries a malformed prefix; no partial batch is kept.
    Conversion,
}

/// The model of a datasource: its two fields as plain values.
pub struct DataSourceModel {
    pub url: Seq<char>,
    pub name: Seq<char>,
}

/// Where and how to fetch raw vendor data: a fetch endpoint and the
/// case-insensitive name of the adapter for its payload.
pub struct DataSource {
    url: String,
    name: String,
}

impl View for DataSource {
    type V = DataSourceModel;

    closed spec fn view(&self) -> DataSourceModel {
        DataSourceModel { url: self.url@, name: self.name@ }
    }
}

/// The name of the one adapter this build knows, matched case-insensitively.
pub open spec fn known_source_name() -> Seq<char> {
    "maclookupapp"@
}

impl DataSource {
    /// Builds a datasource from its two fields.
    pub fn new(url: String, name: String) -> (r: DataSource)
        ensures
            r@.url == url@,
            r@.name == name@,
    {
        DataSource { url, name }
    }

    /// The fetch endpoint.
    pub fn url(&self) -> (r: String)
        ensures
            r@ == self@.url,
    {
        self.url.clone()
    }

    /// The adapter-selector identifier.
    pub fn name(&self) -> (r: String)
        ensures
            r@ == self@.name,
    {
        self.name.clone()
    }

    /// The hard-coded default: the reference public vendor database and its
    /// adapter.
    pub fn default_source() -> (r: DataSource)
        ensures
            r@.url == "https://maclookup.app/downloads/json-database/get-db"@,
            r@.name == known_source_name(),
    {
        DataSource {
            url: String::from_str("https://maclookup.app/downloads/json-database/get-db"),
            name: String::from_str("maclookupapp"),
        }
    }

    /// The config-file form of this datasource, exactly as `config_json`
    /// spells it; reading the config back gives the same url and name.
    pub fn to_json(&self) -> (r: String)
        ensures
            r@ == config_json(self@.url, self@.name),
            parse_config(r@) == Some((self@.url, self@.name)),
    {
        crate::json::config_to_json(self.url.as_str(), self.name.as_str())
    }

    /// Reads a datasource back from its config-file form.  Succeeds exactly
    /// where the config grammar does.
    pub fn from_json(data: &str) -> (r: Option<DataSource>)
        ensures
            match r {
                Some(ds) => parse_config(data@) == Some((ds@.url, ds@.name)),
                None => parse_config(data@) is None,
            },
    {
        match crate::json::parse_config_json(data) {
            Some((url, name)) => Some(DataSource { url, name }),
            None => None,
        }
    }
}

/// Converts a provider payload into vendor records with the adapter named by
/// `source_name`.  An unrecognized name fails with `UnknownSource` before
/// any parse work; a payload the adapter cannot parse fails with
/// `Conversion` and yields no partial batch.
pub fn convert(source_name: String, data: String) -> (r: Result<Vec<VendorRecord>, ConvertError>)
    ensures
        r == Err::<Vec<VendorRecord>, ConvertError>(ConvertError::UnknownSource) <==> lower_seq(
            source_name@,
        ) != known_source_name(),
        r matches Ok(rs) ==> parse_records(data@) == Some(models_of(rs@)),
        lower_seq(source_name@) == known_source_name() && parse_records(data@) is None <==> r
            == Err::<Vec<VendorRecord>, ConvertError>(ConvertError::Conversion),
        lower_seq(source_name@) == known_source_name() && parse_records(data@) is Some ==> r is Ok,
{
    let low = to_lower_chars(source_name.as_str());
    if !chars_eq_str(&low, "maclookupapp") {
        return Err(ConvertError::UnknownSource);
    }
    match parse_records_json(data.as_str()) {
        Some(records) => Ok(records),
        None => Err(ConvertError::Conversion),
    }
}

} // verus!
