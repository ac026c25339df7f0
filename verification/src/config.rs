//! The config resolver: a guild's command prefix, read from an image of
//! the backing store's prefix table, falling back to the process-wide
//! default.  The real store is queried by the caller; the decision over a
//! query's outcome, and the whole read path over a store image, live here.

use vstd::prelude::*;
use vstd::string::StringExecFns;
use crate::errors::DiagError;

verus! {

/// One stored row: the guild key as the store's signed 64-bit integer, and
/// a nullable prefix column.
pub struct PrefixRow {
    pub guild_id: i64,
    pub prefix: Option<String>,
}

/// An image of the prefix table, with a count of the queries issued
/// against it.
pub struct PrefixStore {
    pub rows: Vec<PrefixRow>,
    pub queries: u64,
}

/// The prefix column of the first row for `gid`: nothing when the store
/// holds no row for it.
pub open spec fn spec_row_lookup(rows: Seq<PrefixRow>, gid: i64) -> Option<Option<Seq<char>>>
    decreases rows.len(),
{
    if rows.len() == 0 {
        None
    } else if rows[0].guild_id == gid {
        Some(
            match rows[0].prefix {
                Some(p) => Some(p@),
                None => None,
            },
        )
    } else {
        spec_row_lookup(rows.drop_first(), gid)
    }
}

/// What resolving yields: the default without a guild context, the default
/// when the store holds no row for the guild or the row's prefix is null,
/// and the stored text verbatim otherwise — an explicit empty string
/// included.
pub open spec fn spec_resolve(
    rows: Seq<PrefixRow>,
    default_prefix: Seq<char>,
    guild_id: Option<u64>,
) -> Seq<char> {
    match guild_id {
        None => default_prefix,
        Some(g) => match spec_row_lookup(rows, g as i64) {
            None => default_prefix,
            Some(None) => default_prefix,
            Some(Some(p)) => p,
        },
    }
}

impl PrefixStore {
    /// Fetches the row for `gid`, counting exactly one query.
    pub fn fetch_prefix_row(&mut self, gid: i64) -> (r: Option<Option<String>>)
        requires
            old(self).queries < u64::MAX,
        ensures
            final(self).rows == old(self).rows,
            final(self).queries == old(self).queries + 1,
            match r {
                None => spec_row_lookup(old(self).rows@, gid) is None,
                Some(None) => spec_row_lookup(old(self).rows@, gid) == Some(
                    None::<Seq<char>>,
                ),
                Some(Some(p)) => spec_row_lookup(old(self).rows@, gid) == Some(Some(p@)),
            },
    {
        self.queries = self.queries + 1;
        self.row_lookup(gid)
    }

    fn row_lookup(&self, gid: i64) -> (r: Option<Option<String>>)
        ensures
            match r {
                None => spec_row_lookup(self.rows@, gid) is None,
                Some(None) => spec_row_lookup(self.rows@, gid) == Some(None::<Seq<char>>),
                Some(Some(p)) => spec_row_lookup(self.rows@, gid) == Some(Some(p@)),
            },
    {
        proof {
            assert(self.rows@.skip(0) =~= self.rows@);
        }
        let mut i: usize = 0;
        while i < self.rows.len()
            invariant
                i <= self.rows@.len(),
                spec_row_lookup(self.rows@, gid) == spec_row_lookup(
                    self.rows@.skip(i as int),
                    gid,
                ),
            decreases self.rows@.len() - i,
        {
            proof {
                assert(self.rows@.skip(i as int)[0] == self.rows@[i as int]);
                assert(self.rows@.skip(i as int).drop_first() =~= self.rows@.skip(i as int + 1));
            }
            let row = &self.rows[i];
            if row.guild_id == gid {
                match &row.prefix {
                    Some(p) => {
                        return Some(Some(p.clone()));
                    },
                    None => {
                        return Some(None);
                    },
                }
            }
            i += 1;
        }
        proof {
            assert(self.rows@.skip(i as int).len() == 0);
        }
        None
    }
}

/// Resolves the command prefix for a request.  Without a guild context the
/// default comes back at once and the store is left alone; with one,
/// exactly one query is issued and the stored prefix, the default, or —
/// for an explicit empty prefix — the empty string comes back.
pub fn resolve_prefix(store: &mut PrefixStore, default_prefix: &str, guild_id: Option<u64>) -> (r:
    String)
    requires
        old(store).queries < u64::MAX,
    ensures
        r@ == spec_resolve(old(store).rows@, default_prefix@, guild_id),
        final(store).rows == old(store).rows,
        guild_id is None ==> final(store).queries == old(store).queries,
        guild_id is Some ==> final(store).queries == old(store).queries + 1,
{
    match guild_id {
        None => String::from_str(default_prefix),
        Some(g) => {
            let gid = g as i64;
            match store.fetch_prefix_row(gid) {
                None => String::from_str(default_prefix),
                Some(None) => String::from_str(default_prefix),
                Some(Some(p)) => p,
            }
        },
    }
}

/// How one outcome of the real store's query is read: a failed call is a
/// store failure; no row, and a row whose prefix is null, fall back to the
/// default; a stored text — the empty string included — comes back
/// verbatim.
pub enum PrefixQueryOutcome {
    QueryFailed,
    NoRow,
    Row(Option<String>),
}

/// Decides the prefix from one query outcome of the real backing store.
pub fn prefix_from_outcome(default_prefix: &str, outcome: PrefixQueryOutcome) -> (r: Result<
    String,
    DiagError,
>)
    ensures
        match outcome {
            PrefixQueryOutcome::QueryFailed => r == Err::<String, DiagError>(
                DiagError::StoreQueryFailure,
            ),
            PrefixQueryOutcome::NoRow => r is Ok && r->Ok_0@ == default_prefix@,
            PrefixQueryOutcome::Row(None) => r is Ok && r->Ok_0@ == default_prefix@,
            PrefixQueryOutcome::Row(Some(p)) => r is Ok && r->Ok_0@ == p@,
        },
{
    match outcome {
        PrefixQueryOutcome::QueryFailed => Err(DiagError::StoreQueryFailure),
        PrefixQueryOutcome::NoRow => Ok(String::from_str(default_prefix)),
        PrefixQueryOutcome::Row(None) => Ok(String::from_str(default_prefix)),
        PrefixQueryOutcome::Row(Some(p)) => Ok(p),
    }
}

} // verus!
