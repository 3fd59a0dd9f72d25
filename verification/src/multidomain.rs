//! Mirror-domain fallback for one logical fetch.
//!
//! A list of mirror domains is tried in its fixed order; the first
//! non-empty body wins. An empty body counts as a failure of that
//! mirror, recorded under its own message, so that when every domain
//! fails the aggregated error tells mirrors that were unreachable apart
//! from mirrors that returned nothing. The caller performs each fetch
//! and feeds the outcome back in.

use vstd::prelude::*;
use vstd::string::*;

use crate::errors::{joined_messages, spec_joined, AniRustError};

verus! {

/// Walks a list of mirror domains in order, collecting one error per
/// failed domain.
pub struct MultiDomainResolver {
    pub domains: Vec<String>,
    pub next_index: usize,
    pub errors: Vec<Option<AniRustError>>,
}

impl MultiDomainResolver {
    /// A fresh walk over the given domains.
    pub fn new(domains: Vec<String>) -> (r: Self)
        ensures
            r.domains == domains,
            r.next_index == 0,
            r.errors@ == Seq::<Option<AniRustError>>::empty(),
    {
        MultiDomainResolver { domains, next_index: 0, errors: Vec::new() }
    }

    /// The URL to try next: the current domain with `path` appended, or
    /// none when every domain has been tried.
    pub fn current_url(&self, path: &str) -> (r: Option<String>)
        ensures
            (r is Some) == (self.next_index < self.domains@.len()),
            r matches Some(u) ==> u@ == self.domains@[self.next_index as int]@ + path@,
    {
        if self.next_index < self.domains.len() {
            Some(self.domains[self.next_index].clone().concat(path))
        } else {
            None
        }
    }

    /// Records that the current domain's fetch failed with `e` and moves
    /// on to the next domain.
    pub fn record_failure(&mut self, e: AniRustError)
        requires
            old(self).next_index < old(self).domains@.len(),
        ensures
            final(self).domains == old(self).domains,
            final(self).next_index == old(self).next_index + 1,
            final(self).errors@ == old(self).errors@.push(Some(e)),
    {
        self.errors.push(Some(e));
        let n = self.domains.len();
        assert(self.next_index < n);
        self.next_index = self.next_index + 1;
    }

    /// Feeds the body the current domain returned. A non-empty body ends
    /// the walk and is handed back; an empty body counts as this
    /// domain's failure and the walk moves on.
    pub fn record_body(&mut self, body: String) -> (r: Option<String>)
        requires
            old(self).next_index < old(self).domains@.len(),
        ensures
            final(self).domains == old(self).domains,
            body@.len() > 0 ==> r == Some(body) && *final(self) == *old(self),
            body@.len() == 0 ==> r is None && final(self).next_index == old(self).next_index + 1
                && final(self).errors@.len() == old(self).errors@.len() + 1
                && final(self).errors@.subrange(0, old(self).errors@.len() as int)
                == old(self).errors@
                && (final(self).errors@.last() matches Some(e)
                && e matches AniRustError::UnknownError(m) && m@ == "empty body"@),
    {
        if body.as_str().unicode_len() > 0 {
            Some(body)
        } else {
            self.errors.push(Some(AniRustError::UnknownError(String::from_str("empty body"))));
            let n = self.domains.len();
            assert(self.next_index < n);
            self.next_index = self.next_index + 1;
            assert(self.errors@.subrange(0, old(self).errors@.len() as int) =~= old(self).errors@);
            None
        }
    }

    /// Whether every domain has been tried without a non-empty body.
    pub fn exhausted(&self) -> (r: bool)
        ensures
            r == (self.next_index >= self.domains@.len()),
    {
        self.next_index >= self.domains.len()
    }

    /// The aggregated error of a walk where every domain failed: all the
    /// collected messages, comma-joined in domain order.
    pub fn failure(&self) -> (r: AniRustError)
        ensures
            r matches AniRustError::UnknownError(m) && m@ == spec_joined(self.errors@),
    {
        AniRustError::UnknownError(joined_messages(&self.errors))
    }
}

} // verus!
