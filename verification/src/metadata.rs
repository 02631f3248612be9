use vstd::prelude::*;

use crate::addresses::{copy_bytes, find_metadata_address, metadata_address_of};
use crate::errors::CustodyError;

verus! {

/// The registry's fixed limit on a name, in bytes.
pub const MAX_NAME_LEN: usize = 32;

/// The registry's fixed limit on a symbol, in bytes.
pub const MAX_SYMBOL_LEN: usize = 10;

/// The registry's fixed limit on a URI, in bytes.
pub const MAX_URI_LEN: usize = 200;

/// The descriptive triple bound to the asset, with the flags the registry
/// stores beside it and the derived address of the record itself.
pub struct MetadataRecord {
    pub name: Vec<u8>,
    pub symbol: Vec<u8>,
    pub uri: Vec<u8>,
    pub is_mutable: bool,
    pub update_authority: [u8; 32],
    pub record_address: [u8; 32],
    pub record_disambiguator: u8,
}

/// Whether a descriptive triple fits the registry's fixed limits.
pub open spec fn fields_within_limits(name: Seq<u8>, symbol: Seq<u8>, uri: Seq<u8>) -> bool {
    name.len() <= MAX_NAME_LEN && symbol.len() <= MAX_SYMBOL_LEN && uri.len() <= MAX_URI_LEN
}

/// The one-shot binding of a metadata record to the asset: empty until the
/// attach step runs, then set once and never replaced.
pub struct MetadataRegistry {
    pub record: Option<MetadataRecord>,
}

impl MetadataRegistry {
    /// A registry with nothing attached.
    pub fn new() -> (reg: MetadataRegistry)
        ensures
            reg.record is None,
    {
        MetadataRegistry { record: None }
    }

    /// Binds the descriptive triple to the asset, once. Fails with
    /// `AlreadyAttached` when a record already exists — leaving the first
    /// record's fields unchanged — and with `FieldTooLong` when a field
    /// exceeds the registry's fixed limits. On success the record holds
    /// exactly the given fields, is marked mutable, and carries the given
    /// update authority and the derived address of the record for `mint`.
    pub fn attach(
        &mut self,
        mint: &[u8; 32],
        update_authority: &[u8; 32],
        name: &Vec<u8>,
        symbol: &Vec<u8>,
        uri: &Vec<u8>,
    ) -> (r: Result<(), CustodyError>)
        ensures
            (r is Err ==> *final(self) == *old(self)),
            (r == Err::<(), CustodyError>(CustodyError::AlreadyAttached) <==> old(
                self,
            ).record is Some),
            (r == Err::<(), CustodyError>(CustodyError::FieldTooLong) <==> old(self).record is None
                && !fields_within_limits(name@, symbol@, uri@)),
            (r is Ok <==> old(self).record is None && fields_within_limits(name@, symbol@, uri@)),
            (r is Ok ==> (final(self).record matches Some(m) && m.name@ == name@ && m.symbol@
                == symbol@ && m.uri@ == uri@ && m.is_mutable && m.update_authority@
                == update_authority@ && (m.record_address@, m.record_disambiguator)
                == metadata_address_of(mint@))),
    {
        if self.record.is_some() {
            return Err(CustodyError::AlreadyAttached);
        }
        if name.len() > MAX_NAME_LEN || symbol.len() > MAX_SYMBOL_LEN || uri.len() > MAX_URI_LEN {
            return Err(CustodyError::FieldTooLong);
        }
        let p = find_metadata_address(mint);
        self.record = Some(
            MetadataRecord {
                name: copy_bytes(name),
                symbol: copy_bytes(symbol),
                uri: copy_bytes(uri),
                is_mutable: true,
                update_authority: *update_authority,
                record_address: p.0,
                record_disambiguator: p.1,
            },
        );
        Ok(())
    }
}

} // verus!
