//! The connection manager: a registry of pooled connections keyed by opaque
//! identifiers, the query-result record, and the aggregate report of a
//! close-all sweep.
//!
//! The registry itself is generic in the pool handle `P`: the manager owns
//! the bookkeeping while the surrounding application opens, checks out, and
//! tears down the actual pools.

use vstd::prelude::*;
use crate::descriptor::ConnectionConfig;
use crate::error::DbError;
use crate::parser::{resolve_descriptor, resolve_ok, resolves_to};
use crate::text::{append_dec_u64, dec_digits, str_eq};
use crate::value::GenericValue;

verus! {

/// The outcome of one statement: column names in result-set order, one
/// name-to-value mapping per returned row, and the count of changed rows.
#[derive(Debug)]
pub struct QueryResult {
    /// Column names, in result-set order; empty for a write statement.
    pub columns: Vec<String>,
    /// One mapping per returned row, in result order, from column name to
    /// the encoded generic value; empty for a write statement.
    pub rows: Vec<Vec<(String, GenericValue)>>,
    /// Rows changed by a write statement; zero for a read statement.
    pub affected_rows: u64,
}

/// The registry of live pooled connections, keyed by identifier.
pub struct ConnectionManager<P> {
    connections: Vec<(String, P)>,
}

impl<P> View for ConnectionManager<P> {
    type V = Map<Seq<char>, P>;

    /// The registry as a map from identifier characters to the pool.
    closed spec fn view(&self) -> Map<Seq<char>, P> {
        Map::new(
            |k: Seq<char>|
                exists|i: int|
                    0 <= i < self.connections@.len() && self.connections@[i].0@ == k,
            |k: Seq<char>|
                (self.connections@[choose|i: int|
                    0 <= i < self.connections@.len() && self.connections@[i].0@ == k].1),
        )
    }
}

impl<P> ConnectionManager<P> {
    /// No two registry entries share an identifier.
    pub closed spec fn wf(&self) -> bool {
        forall|i: int, j: int|
            0 <= i < j < self.connections@.len() ==> self.connections@[i].0@
                != self.connections@[j].0@
    }
}

/// A registry entry is in the view, under its own identifier.
proof fn lemma_view_at<P>(m: &ConnectionManager<P>, i: int)
    requires
        m.wf(),
        0 <= i < m.connections@.len(),
    ensures
        m@.contains_key(m.connections@[i].0@),
        m@[m.connections@[i].0@] == m.connections@[i].1,
{
    let k = m.connections@[i].0@;
    assert(m@.dom().contains(k));
    let j = choose|j: int| 0 <= j < m.connections@.len() && m.connections@[j].0@ == k;
    if j != i {
        if j < i {
            assert(m.connections@[j].0@ != m.connections@[i].0@);
        } else {
            assert(m.connections@[i].0@ != m.connections@[j].0@);
        }
    }
}

/// An identifier held by no entry is not in the view.
proof fn lemma_view_absent<P>(m: &ConnectionManager<P>, k: Seq<char>)
    requires
        forall|i: int| 0 <= i < m.connections@.len() ==> m.connections@[i].0@ != k,
    ensures
        !m@.contains_key(k),
{
}

impl<P> ConnectionManager<P> {
    /// A fresh manager with an empty registry.
    pub fn new() -> (r: Self)
        ensures
            r.wf(),
            r@ == Map::<Seq<char>, P>::empty(),
    {
        let r = ConnectionManager { connections: Vec::new() };
        proof {
            assert(r@ =~= Map::<Seq<char>, P>::empty());
        }
        r
    }

    /// The position of `id` in the registry, if it is registered.
    fn index_of(&self, id: &str) -> (r: Option<usize>)
        ensures
            match r {
                Some(i) => i < self.connections@.len() && self.connections@[i as int].0@ == id@,
                None => forall|i: int|
                    0 <= i < self.connections@.len() ==> self.connections@[i].0@ != id@,
            },
    {
        let n = self.connections.len();
        let mut i: usize = 0;
        while i < n
            invariant
                n == self.connections@.len(),
                i <= n,
                forall|j: int| 0 <= j < i ==> self.connections@[j].0@ != id@,
            decreases n - i,
        {
            let entry = &self.connections[i];
            if str_eq(entry.0.as_str(), id) {
                return Some(i);
            }
            i = i + 1;
        }
        None
    }

    /// Register `pool` under `id`, silently replacing any prior pool for the
    /// same identifier (last writer wins).
    fn insert_pool(&mut self, id: String, pool: P)
        requires
            old(self).wf(),
        ensures
            final(self).wf(),
            final(self)@ == old(self)@.insert(id@, pool),
    {
        let ghost oe = self.connections@;
        let removed = self.index_of(id.as_str());
        match removed {
            Some(i) => {
                self.connections.remove(i);
            },
            None => {},
        }
        let ghost me = self.connections@;
        self.connections.push((id, pool));
        proof {
            let ne = self.connections@;
            match removed {
                Some(i) => {
                    assert(me == oe.remove(i as int));
                    assert forall|a: int| 0 <= a < me.len() implies me[a] == (if a < i {
                        oe[a]
                    } else {
                        oe[a + 1]
                    }) by {}
                },
                None => {
                    assert(me == oe);
                },
            }
            assert(ne == me.push((id, pool)));
            // every surviving entry keeps a key different from id@
            assert forall|a: int| 0 <= a < me.len() implies me[a].0@ != id@ by {
                match removed {
                    Some(i) => {
                        let a2: int = if a < i {
                            a as int
                        } else {
                            a + 1
                        };
                        assert(me[a] == oe[a2]);
                        if a2 < i {
                            assert(oe[a2].0@ != oe[i as int].0@);
                        } else {
                            assert(oe[i as int].0@ != oe[a2].0@);
                        }
                    },
                    None => {},
                }
            }
            // uniqueness is preserved
            assert forall|a: int, b: int| 0 <= a < b < ne.len() implies ne[a].0@ != ne[b].0@ by {
                if b == ne.len() - 1 {
                    assert(ne[a] == me[a]);
                } else {
                    match removed {
                        Some(i) => {
                            let a2: int = if a < i {
                                a as int
                            } else {
                                a + 1
                            };
                            let b2: int = if b < i {
                                b as int
                            } else {
                                b + 1
                            };
                            assert(ne[a] == oe[a2]);
                            assert(ne[b] == oe[b2]);
                        },
                        None => {},
                    }
                }
            }
            assert(self.wf());
            // the view equals the old view with id@ mapped to pool
            let target = old(self)@.insert(id@, pool);
            assert forall|k: Seq<char>| self@.contains_key(k) implies target.contains_key(k)
                && self@[k] == target[k] by {
                let a = choose|a: int| 0 <= a < ne.len() && ne[a].0@ == k;
                lemma_view_at(self, a);
                if a == ne.len() - 1 {
                    assert(k == id@);
                } else {
                    assert(ne[a] == me[a]);
                    assert(k != id@);
                    match removed {
                        Some(i) => {
                            let a2: int = if a < i {
                                a as int
                            } else {
                                a + 1
                            };
                            assert(me[a] == oe[a2]);
                            lemma_view_at(old(self), a2);
                        },
                        None => {
                            lemma_view_at(old(self), a);
                        },
                    }
                }
            }
            assert forall|k: Seq<char>| target.contains_key(k) implies self@.contains_key(k) by {
                if k == id@ {
                    lemma_view_at(self, ne.len() - 1);
                } else {
                    assert(old(self)@.contains_key(k));
                    let a = choose|a: int| 0 <= a < oe.len() && oe[a].0@ == k;
                    match removed {
                        Some(i) => {
                            assert(a != i);
                            let a2: int = if a < i {
                                a as int
                            } else {
                                a - 1
                            };
                            assert(me[a2] == oe[a]);
                            assert(ne[a2] == me[a2]);
                        },
                        None => {
                            assert(ne[a] == oe[a]);
                        },
                    }
                }
            }
            assert(self@ =~= target);
        }
    }

    /// Resolve the descriptor (parsing any connection string it carries),
    /// register the pool under its identifier — replacing any prior pool for
    /// that identifier — and hand back the resolved descriptor with the
    /// connection string cleared. A descriptor whose connection string the
    /// parser rejects is refused, and the registry is left as it was.
    pub fn create_connection(&mut self, config: ConnectionConfig, pool: P) -> (r: Result<
        ConnectionConfig,
        DbError,
    >)
        requires
            old(self).wf(),
        ensures
            final(self).wf(),
            r is Ok <==> resolve_ok(config),
            r matches Ok(res) ==> resolves_to(config, res) && final(self)@ == old(self)@.insert(
                config.id@,
                pool,
            ),
            r matches Err(e) ==> final(self)@ == old(self)@ && e matches DbError::ConnectionError(
                _,
            ),
    {
        match resolve_descriptor(config) {
            Ok(res) => {
                let key = res.id.clone();
                self.insert_pool(key, pool);
                Ok(res)
            },
            Err(e) => Err(e),
        }
    }

    /// Look up the pool registered under `id`; an unknown identifier is a
    /// `NoConnection` error naming it. (Checking one connection out of the
    /// pool is the caller's step.)
    pub fn get_connection(&self, id: &str) -> (r: Result<&P, DbError>)
        requires
            self.wf(),
        ensures
            match r {
                Ok(p) => self@.contains_key(id@) && *p == self@[id@],
                Err(e) => !self@.contains_key(id@) && (e matches DbError::NoConnection(m) && m@
                    == id@),
            },
    {
        match self.index_of(id) {
            Some(i) => {
                proof {
                    lemma_view_at(self, i as int);
                }
                let entry = &self.connections[i];
                Ok(&entry.1)
            },
            None => {
                proof {
                    lemma_view_absent(self, id@);
                }
                Err(DbError::NoConnection(String::from_str(id)))
            },
        }
    }

    /// Remove and drop the pool for `id`. A second close of the same
    /// identifier fails with `NoConnection`: callers treat that as "already
    /// closed".
    pub fn close_connection(&mut self, id: &str) -> (r: Result<(), DbError>)
        requires
            old(self).wf(),
        ensures
            final(self).wf(),
            final(self)@ == old(self)@.remove(id@),
            r is Ok <==> old(self)@.contains_key(id@),
            r matches Err(e) ==> e matches DbError::NoConnection(m) && m@ == id@,
    {
        let ghost oe = self.connections@;
        match self.index_of(id) {
            Some(i) => {
                proof {
                    lemma_view_at(self, i as int);
                }
                self.connections.remove(i);
                proof {
                    let ne = self.connections@;
                    assert(ne == oe.remove(i as int));
                    assert forall|a: int| 0 <= a < ne.len() implies ne[a] == (if a < i {
                        oe[a]
                    } else {
                        oe[a + 1]
                    }) by {}
                    assert forall|a: int, b: int| 0 <= a < b < ne.len() implies ne[a].0@
                        != ne[b].0@ by {
                        let a2: int = if a < i {
                            a as int
                        } else {
                            a + 1
                        };
                        let b2: int = if b < i {
                            b as int
                        } else {
                            b + 1
                        };
                        assert(ne[a] == oe[a2]);
                        assert(ne[b] == oe[b2]);
                    }
                    assert(self.wf());
                    let target = old(self)@.remove(id@);
                    assert forall|k: Seq<char>| self@.contains_key(k) implies target.contains_key(
                        k,
                    ) && self@[k] == target[k] by {
                        let a = choose|a: int| 0 <= a < ne.len() && ne[a].0@ == k;
                        lemma_view_at(self, a);
                        let a2: int = if a < i {
                            a as int
                        } else {
                            a + 1
                        };
                        assert(ne[a] == oe[a2]);
                        assert(a2 != i);
                        if a2 < i {
                            assert(oe[a2].0@ != oe[i as int].0@);
                        } else {
                            assert(oe[i as int].0@ != oe[a2].0@);
                        }
                        lemma_view_at(old(self), a2);
                    }
                    assert forall|k: Seq<char>| target.contains_key(k) implies self@.contains_key(
                        k,
                    ) by {
                        let a = choose|a: int| 0 <= a < oe.len() && oe[a].0@ == k;
                        assert(a != i);
                        let a2: int = if a < i {
                            a as int
                        } else {
                            a - 1
                        };
                        assert(ne[a2] == oe[a]);
                    }
                    assert(self@ =~= target);
                }
                Ok(())
            },
            None => {
                proof {
                    lemma_view_absent(self, id@);
                    assert(self@ =~= old(self)@.remove(id@));
                }
                Err(DbError::NoConnection(String::from_str(id)))
            },
        }
    }

    /// Empty the registry, handing back every identifier and pool so the
    /// caller can tear each pool down independently; pair with
    /// `close_all_report` to build the aggregate outcome of the sweep.
    pub fn close_all_connections(&mut self) -> (r: Vec<(String, P)>)
        requires
            old(self).wf(),
        ensures
            final(self).wf(),
            final(self)@ == Map::<Seq<char>, P>::empty(),
            forall|j: int|
                0 <= j < r@.len() ==> old(self)@.contains_key(#[trigger] r@[j].0@) && old(
                    self,
                )@[r@[j].0@] == r@[j].1,
            forall|k: Seq<char>|
                old(self)@.contains_key(k) ==> exists|j: int| 0 <= j < r@.len() && r@[j].0@ == k,
            forall|a: int, b: int| 0 <= a < b < r@.len() ==> r@[a].0@ != r@[b].0@,
    {
        let mut taken: Vec<(String, P)> = Vec::new();
        std::mem::swap(&mut self.connections, &mut taken);
        proof {
            assert(self@ =~= Map::<Seq<char>, P>::empty());
            assert forall|j: int|
                0 <= j < taken@.len() implies old(self)@.contains_key(#[trigger] taken@[j].0@)
                && old(self)@[taken@[j].0@] == taken@[j].1 by {
                lemma_view_at(old(self), j);
            }
        }
        taken
    }
}

/// Build the aggregate outcome of a close-all sweep: success when every pool
/// closed, else a `ConnectionError` naming how many failed. Individual
/// successes are not rolled back: the sweep is best-effort.
pub fn close_all_report(failed: usize) -> (r: Result<(), DbError>)
    ensures
        r is Ok <==> failed == 0,
        failed > 0 ==> (r matches Err(e) && e matches DbError::ConnectionError(m) && m@
            == "Failed to close "@ + dec_digits(failed as nat) + " connections"@),
{
    if failed == 0 {
        Ok(())
    } else {
        let mut m = String::from_str("Failed to close ");
        append_dec_u64(&mut m, failed as u64);
        m.append(" connections");
        Err(DbError::ConnectionError(m))
    }
}

/// Law: registering a pool under an identifier and then closing that
/// identifier always succeeds for both steps, and a second close of the same
/// identifier finds nothing. In the contracts' terms: after the insert the
/// key is present (so `close_connection` returns `Ok` and removes it), and
/// after the removal it is absent (so a second close returns
/// `NoConnection`).
pub proof fn lemma_create_then_close<P>(registry: Map<Seq<char>, P>, id: Seq<char>, pool: P)
    ensures
        registry.insert(id, pool).contains_key(id),
        !registry.insert(id, pool).remove(id).contains_key(id),
{
}

} // verus!
