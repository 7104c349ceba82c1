//! What a cache was written with.

use crate::text::{byte_len, byte_length};
use crate::values::Value;
use vstd::prelude::*;

verus! {

/// The version of the layout of caches.
pub const CACHE_SCHEMA_VERSION: u32 = 1;

/// What a cache was written with.
#[derive(Debug, PartialEq, Eq)]
pub struct CacheSchema {
    pub schema_version: u32,
    pub tool_version: String,
    pub parser_compatibility_version: String,
}

/// What a [`CacheSchema`] holds.
pub struct CacheSchemaModel {
    pub schema_version: u32,
    pub tool_version: Seq<char>,
    pub parser_compatibility_version: Seq<char>,
}

impl DeepView for CacheSchema {
    type V = CacheSchemaModel;

    open spec fn deep_view(&self) -> CacheSchemaModel {
        CacheSchemaModel {
            schema_version: self.schema_version.deep_view(),
            tool_version: self.tool_version.deep_view(),
            parser_compatibility_version: self.parser_compatibility_version.deep_view(),
        }
    }
}

impl Value for CacheSchema {
    fn replicate(&self) -> (r: Self) {
        CacheSchema {
            schema_version: self.schema_version.replicate(),
            tool_version: self.tool_version.replicate(),
            parser_compatibility_version: self.parser_compatibility_version.replicate(),
        }
    }

    fn same_value(&self, other: &Self) -> (r: bool) {
        self.schema_version.same_value(&other.schema_version)
            && self.tool_version.same_value(&other.tool_version)
            && self.parser_compatibility_version.same_value(&other.parser_compatibility_version)
    }
}

/// Why a schema cannot be used, if it cannot.
pub open spec fn schema_fault(schema: CacheSchemaModel) -> Option<Seq<char>> {
    let tool = byte_length(schema.tool_version);
    let parser = byte_length(schema.parser_compatibility_version);
    if schema.schema_version != CACHE_SCHEMA_VERSION {
        Some("cache schema version is incompatible"@)
    } else if tool == 0 || tool > 128 {
        Some("tool version must contain between 1 and 128 bytes"@)
    } else if parser == 0 || parser > 128 {
        Some("parser compatibility version must contain between 1 and 128 bytes"@)
    } else {
        None
    }
}

impl CacheSchema {
    /// The schema that caches are written with.
    #[must_use]
    pub fn current(tool_version: &str, parser_compatibility_version: &str) -> (r: CacheSchema)
        ensures
            r.deep_view() == (CacheSchemaModel {
                schema_version: CACHE_SCHEMA_VERSION,
                tool_version: tool_version@,
                parser_compatibility_version: parser_compatibility_version@,
            }),
    {
        CacheSchema {
            schema_version: CACHE_SCHEMA_VERSION,
            tool_version: tool_version.to_string(),
            parser_compatibility_version: parser_compatibility_version.to_string(),
        }
    }

    /// Whether the schema can be used, or why it cannot.
    pub fn validate(&self) -> (r: Result<(), &'static str>)
        ensures
            match r {
                Ok(_) => schema_fault(self.deep_view()) is None,
                Err(reason) => schema_fault(self.deep_view()) == Some(reason@),
            },
    {
        if self.schema_version != CACHE_SCHEMA_VERSION {
            return Err("cache schema version is incompatible");
        }
        let tool: usize = byte_len(&self.tool_version);
        if tool == 0 || tool > 128 {
            return Err("tool version must contain between 1 and 128 bytes");
        }
        let parser: usize = byte_len(&self.parser_compatibility_version);
        if parser == 0 || parser > 128 {
            return Err("parser compatibility version must contain between 1 and 128 bytes");
        }
        Ok(())
    }
}

} // verus!
