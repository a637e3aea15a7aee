//! The state machine of one counting run. The surrounding binary owns the
//! network and console; the session decides everything else: which request
//! comes next, what a received count does to the tables, and what is owed to
//! the report. One version is processed at a time; after its last modloader
//! the version's table is committed to the aggregate, even when empty.

use vstd::prelude::*;
use crate::modloader::catalog_name;
use crate::modloader::display_name;
use crate::numeric::digits_value;
use crate::numeric::numeric_body;
use crate::numeric::parse_usize;
use crate::numeric::parse_usize_ok;
use crate::table::Aggregate;
use crate::table::CountMap;
use crate::table::insert_entry;

verus! {

/// The aggregate owed for a run whose modloader list is empty: every version
/// committed with an empty table, in order.
pub open spec fn filled_with_empty(vs: Seq<Seq<char>>) -> Seq<
    (Seq<char>, Seq<(Seq<char>, i64)>),
>
    decreases vs.len(),
{
    if vs.len() == 0 {
        Seq::<(Seq<char>, Seq<(Seq<char>, i64)>)>::empty()
    } else {
        insert_entry(
            filled_with_empty(vs.drop_last()),
            vs.last(),
            Seq::<(Seq<char>, i64)>::empty(),
        )
    }
}

/// What recording one count owed the report: a line with the catalog name,
/// or the diagnostic for a token that is not a number.
pub enum RecordOutcome {
    Recorded { name: String, count: i64 },
    NotNumeric,
}

pub struct Session {
    versions: Vec<String>,
    modloaders: Vec<String>,
    vi: usize,
    mi: usize,
    current: CountMap,
    result: Aggregate,
}

impl Session {
    pub closed spec fn versions_spec(&self) -> Seq<Seq<char>> {
        self.versions.deep_view()
    }

    pub closed spec fn modloaders_spec(&self) -> Seq<Seq<char>> {
        self.modloaders.deep_view()
    }

    /// Index of the version being processed.
    pub closed spec fn version_index(&self) -> int {
        self.vi as int
    }

    /// Index of the modloader whose request is pending.
    pub closed spec fn modloader_index(&self) -> int {
        self.mi as int
    }

    /// The table of the version being processed, so far.
    pub closed spec fn current_spec(&self) -> Seq<(Seq<char>, i64)> {
        self.current@
    }

    /// The aggregate of the versions committed so far.
    pub closed spec fn result_spec(&self) -> Seq<(Seq<char>, Seq<(Seq<char>, i64)>)> {
        self.result@
    }

    pub closed spec fn wf(&self) -> bool {
        &&& self.version_index() <= self.versions_spec().len()
        &&& (self.version_index() < self.versions_spec().len() ==> self.modloader_index()
            < self.modloaders_spec().len())
        &&& self.current.wf()
        &&& self.result.wf()
    }

    pub fn new(versions: Vec<String>, modloaders: Vec<String>) -> (s: Session)
        ensures
            s.wf(),
            s.versions_spec() == versions.deep_view(),
            s.modloaders_spec() == modloaders.deep_view(),
            s.current_spec() == Seq::<(Seq<char>, i64)>::empty(),
            modloaders@.len() > 0 ==> s.version_index() == 0 && s.modloader_index() == 0
                && s.result_spec() == Seq::<(Seq<char>, Seq<(Seq<char>, i64)>)>::empty(),
            modloaders@.len() == 0 ==> s.version_index() == versions@.len() && s.result_spec()
                == filled_with_empty(versions.deep_view()),
    {
        let mut result: Aggregate = Aggregate::new();
        let mut vi: usize = 0;
        if modloaders.len() == 0 {
            let n: usize = versions.len();
            proof {
                assert(versions.deep_view().subrange(0, 0) =~= Seq::<Seq<char>>::empty());
            }
            while vi < n
                invariant
                    vi <= n,
                    n == versions@.len(),
                    result.wf(),
                    result@ == filled_with_empty(versions.deep_view().subrange(0, vi as int)),
                decreases n - vi,
            {
                let key: String = versions[vi].clone();
                let empty: CountMap = CountMap::new();
                result.insert(key, empty);
                proof {
                    let dv = versions.deep_view();
                    assert(dv.subrange(0, vi + 1).drop_last() =~= dv.subrange(0, vi as int));
                    assert(dv.subrange(0, vi + 1).last() == dv[vi as int]);
                    assert(dv[vi as int] == versions@[vi as int]@);
                }
                vi = vi + 1;
            }
            proof {
                assert(versions.deep_view().subrange(0, n as int) =~= versions.deep_view());
            }
        }
        Session { versions, modloaders, vi, mi: 0, current: CountMap::new(), result }
    }

    /// The request owed next, or nothing when every version is committed.
    pub fn pending_request(&self) -> (r: Option<(String, String)>)
        requires
            self.wf(),
        ensures
            match r {
                Some(p) => self.version_index() < self.versions_spec().len() && p.0@
                    == self.versions_spec()[self.version_index()] && p.1@
                    == self.modloaders_spec()[self.modloader_index()],
                None => self.version_index() == self.versions_spec().len(),
            },
    {
        if self.vi < self.versions.len() {
            let v: String = self.versions[self.vi].clone();
            let m: String = self.modloaders[self.mi].clone();
            proof {
                assert(self.versions.deep_view()[self.vi as int] == self.versions@[self.vi as int]@);
                assert(self.modloaders.deep_view()[self.mi as int]
                    == self.modloaders@[self.mi as int]@);
            }
            Some((v, m))
        } else {
            None
        }
    }

    /// Records the count fetched for the pending request. A numeric token is
    /// inserted with its count and reported under its catalog name; any other
    /// token is dropped with a diagnostic. After the last modloader of a
    /// version, the version is committed to the aggregate.
    pub fn record_count(&mut self, count: i64) -> (r: RecordOutcome)
        requires
            old(self).wf(),
            old(self).version_index() < old(self).versions_spec().len(),
        ensures
            final(self).wf(),
            final(self).versions_spec() == old(self).versions_spec(),
            final(self).modloaders_spec() == old(self).modloaders_spec(),
            ({
                let tok = old(self).modloaders_spec()[old(self).modloader_index()];
                let cur1 = if parse_usize_ok(tok) {
                    insert_entry(old(self).current_spec(), tok, count)
                } else {
                    old(self).current_spec()
                };
                &&& (parse_usize_ok(tok) ==> (r matches RecordOutcome::Recorded { name, count: c }
                    && name@ == catalog_name(digits_value(numeric_body(tok))) && c == count))
                &&& (!parse_usize_ok(tok) ==> r == RecordOutcome::NotNumeric)
                &&& if old(self).modloader_index() + 1 < old(self).modloaders_spec().len() {
                    &&& final(self).version_index() == old(self).version_index()
                    &&& final(self).modloader_index() == old(self).modloader_index() + 1
                    &&& final(self).current_spec() == cur1
                    &&& final(self).result_spec() == old(self).result_spec()
                } else {
                    &&& final(self).version_index() == old(self).version_index() + 1
                    &&& final(self).modloader_index() == 0
                    &&& final(self).current_spec() == Seq::<(Seq<char>, i64)>::empty()
                    &&& final(self).result_spec() == insert_entry(
                        old(self).result_spec(),
                        old(self).versions_spec()[old(self).version_index()],
                        cur1,
                    )
                }
            }),
    {
        let token: String = self.modloaders[self.mi].clone();
        proof {
            assert(self.modloaders.deep_view()[self.mi as int] == self.modloaders@[self.mi as int]@);
        }
        let r: RecordOutcome = match parse_usize(token.as_str()) {
            Some(idx) => {
                let name: String = display_name(idx);
                self.current.insert(token, count);
                RecordOutcome::Recorded { name, count }
            },
            None => RecordOutcome::NotNumeric,
        };
        proof {
            assert(old(self).modloaders.deep_view().len() == old(self).modloaders@.len());
            assert(old(self).versions.deep_view().len() == old(self).versions@.len());
            assert(self.mi < self.modloaders@.len());
            assert(self.vi < self.versions@.len());
        }
        let mlen: usize = self.modloaders.len();
        let vlen: usize = self.versions.len();
        self.mi = self.mi + 1;
        if self.mi == mlen {
            let version: String = self.versions[self.vi].clone();
            proof {
                assert(self.versions.deep_view()[self.vi as int] == self.versions@[self.vi as int]@);
            }
            let finished: CountMap = self.current.take();
            self.result.insert(version, finished);
            self.vi = self.vi + 1;
            self.mi = 0;
        }
        r
    }

    /// Hands the aggregate out once the run is over.
    pub fn into_result(self) -> (r: Aggregate)
        ensures
            r@ == self.result_spec(),
            self.wf() ==> r.wf(),
    {
        self.result
    }
}

} // verus!

