//! The catalog model and the two setup stages: resolving the credential and
//! turning a parsed listing into a catalog.

use vstd::prelude::*;

use crate::errors::FatalError;

verus! {

/// One catalog entry: a name and a target, where the target is either an
/// image URL or an alias reference marked by the reserved prefix.
pub struct Entry {
    pub name: String,
    pub target: String,
}

/// The full emoji catalog: the entries of the listing, in the order the
/// shell handed them over. The source guarantees that names are unique.
pub struct Catalog {
    pub entries: Vec<Entry>,
}

/// Whether the entries' names are pairwise distinct, as the listing source
/// guarantees by construction.
pub open spec fn names_unique(s: Seq<Entry>) -> bool {
    forall|i: int, j: int| 0 <= i < j < s.len() ==> s[i].name@ != s[j].name@
}

/// A parsed listing response: the reported success flag and the entries of
/// its name-to-target mapping.
pub struct Listing {
    pub ok: bool,
    pub entries: Vec<Entry>,
}

/// Resolve the bearer credential from the raw environment value: `Ok` with
/// the token exactly when the variable was set and non-empty, otherwise a
/// fatal configuration error.
pub fn resolve_credential(raw: Option<String>) -> (r: Result<String, FatalError>)
    ensures
        match raw {
            Some(tok) => if tok@.len() > 0 {
                r matches Ok(t) && t@ == tok@
            } else {
                r matches Err(e) && (e matches FatalError::Configuration { cause }
                    && cause@ == "missing required credential"@)
            },
            None => r matches Err(e) && (e matches FatalError::Configuration { cause }
                && cause@ == "missing required credential"@),
        },
{
    match raw {
        Some(tok) => {
            if tok.as_str().unicode_len() > 0 {
                Ok(tok)
            } else {
                Err(FatalError::Configuration {
                    cause: String::from_str("missing required credential"),
                })
            }
        },
        None => Err(FatalError::Configuration {
            cause: String::from_str("missing required credential"),
        }),
    }
}

/// The authorization header value for the listing request: `Bearer <token>`.
pub fn bearer_header_value(token: &str) -> (r: String)
    ensures
        r@ == "Bearer "@ + token@,
{
    let mut r = String::from_str("Bearer ");
    r.append(token);
    r
}

/// Accept a parsed listing as the catalog exactly when it reported success;
/// a listing with `ok` false is a fatal catalog-fetch error.
pub fn catalog_from_listing(l: Listing) -> (r: Result<Catalog, FatalError>)
    ensures
        l.ok ==> (r matches Ok(c) && c.entries@ == l.entries@),
        !l.ok ==> (r matches Err(e) && (e matches FatalError::CatalogFetch { cause }
            && cause@ == "listing reported failure"@)),
{
    if l.ok {
        Ok(Catalog { entries: l.entries })
    } else {
        Err(FatalError::CatalogFetch {
            cause: String::from_str("listing reported failure"),
        })
    }
}

impl Catalog {
    /// The number of entries, aliases included: the size the progress
    /// indicator is initialised to.
    pub fn len(&self) -> (n: usize)
        ensures
            n == self.entries@.len(),
    {
        self.entries.len()
    }
}

} // verus!
