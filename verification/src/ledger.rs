//! The ledger of completed runs.

use crate::schema::SpellResult;
use vstd::hash_map::StringHashMap;
use vstd::prelude::*;

verus! {

/// What is kept of a completed run.
#[derive(Debug, Clone)]
pub struct RunRecord {
    pub run_id: String,
    pub verdict: String,
    pub risk_score: u32,
    pub exit_code: i32,
}

/// A copy of a record.
pub fn copy_record(rec: &RunRecord) -> (r: RunRecord)
    ensures
        r == *rec,
{
    RunRecord {
        run_id: rec.run_id.clone(),
        verdict: rec.verdict.clone(),
        risk_score: rec.risk_score,
        exit_code: rec.exit_code,
    }
}

/// What is kept of a result: its run, its verdict, its risk and its exit
/// code.
pub fn record_of(result: &SpellResult) -> (r: RunRecord)
    ensures
        r.run_id == result.run_id,
        r.verdict == result.verdict,
        r.risk_score == result.risk_score,
        r.exit_code == result.exit_code,
{
    RunRecord {
        run_id: result.run_id.clone(),
        verdict: result.verdict.clone(),
        risk_score: result.risk_score,
        exit_code: result.exit_code,
    }
}

/// A store of run records, one for each run identifier.
pub trait Ledger {
    /// The records held, by run identifier.
    spec fn records(&self) -> Map<Seq<char>, RunRecord>;

    /// Stores a record under its run identifier, in place of any record
    /// that was there.
    fn put(&mut self, rec: RunRecord)
        ensures
            final(self).records() == old(self).records().insert(rec.run_id@, rec),
    ;

    /// The record of a run, if there is one.
    fn get(&self, run_id: &str) -> (r: Option<RunRecord>)
        ensures
            r == (if self.records().contains_key(run_id@) {
                Some(self.records()[run_id@])
            } else {
                None
            }),
    ;
}

/// A ledger in memory, which lives as long as the process.
pub struct InMemoryLedger {
    inner: StringHashMap<RunRecord>,
}

impl InMemoryLedger {
    /// A ledger without records.
    pub fn new() -> (l: Self)
        ensures
            l.records() == Map::<Seq<char>, RunRecord>::empty(),
    {
        InMemoryLedger { inner: StringHashMap::new() }
    }
}

impl Ledger for InMemoryLedger {
    closed spec fn records(&self) -> Map<Seq<char>, RunRecord> {
        self.inner@
    }

    fn put(&mut self, rec: RunRecord) {
        let key = rec.run_id.clone();
        self.inner.insert(key, rec);
    }

    fn get(&self, run_id: &str) -> (r: Option<RunRecord>) {
        match self.inner.get(run_id) {
            Some(rec) => Some(copy_record(rec)),
            None => None,
        }
    }
}

/// A record that was put is the one that comes back, and the records of
/// other runs stay as they were.
pub proof fn lemma_put_then_get(records: Map<Seq<char>, RunRecord>, rec: RunRecord, other: Seq<
    char,
>)
    ensures
        records.insert(rec.run_id@, rec).contains_key(rec.run_id@),
        records.insert(rec.run_id@, rec)[rec.run_id@] == rec,
        other != rec.run_id@ ==> records.insert(rec.run_id@, rec).contains_key(other)
            == records.contains_key(other),
        other != rec.run_id@ && records.contains_key(other) ==> records.insert(
            rec.run_id@,
            rec,
        )[other] == records[other],
{
}

} // verus!
