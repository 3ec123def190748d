//! The download driver as a state machine. The shell around the library
//! performs one outside action per catalog entry (nothing, or one HTTP GET
//! plus one file write) and reports the outcome back; every decision — skip
//! an alias, derive the destination filename, account for the outcome — is
//! made and verified here.

use vstd::prelude::*;

use crate::catalog::{names_unique, Catalog, Entry};
use crate::errors::ItemFailure;
use crate::text::{filename_for, filename_spec, is_alias, is_alias_spec};

verus! {

/// What the shell should do for the current catalog entry: nothing for an
/// alias, or one download to the given destination filename.
pub enum Action {
    Skip,
    Download { name: String, url: String, filename: String },
}

/// The number of alias entries in a catalog prefix.
pub open spec fn count_alias(s: Seq<Entry>) -> nat
    decreases s.len(),
{
    if s.len() == 0 {
        0
    } else {
        count_alias(s.drop_last()) + if is_alias_spec(s.last().target@) {
            1nat
        } else {
            0nat
        }
    }
}

/// The number of non-alias (downloadable) entries in a catalog prefix.
pub open spec fn count_non_alias(s: Seq<Entry>) -> nat
    decreases s.len(),
{
    if s.len() == 0 {
        0
    } else {
        count_non_alias(s.drop_last()) + if is_alias_spec(s.last().target@) {
            0nat
        } else {
            1nat
        }
    }
}

/// Every entry is either an alias or downloadable, so the two counts
/// partition the catalog.
pub proof fn lemma_count_partition(s: Seq<Entry>)
    ensures
        count_alias(s) + count_non_alias(s) == s.len(),
    decreases s.len(),
{
    if s.len() > 0 {
        lemma_count_partition(s.drop_last());
    }
}

proof fn lemma_count_push(s: Seq<Entry>, e: Entry)
    ensures
        count_alias(s.push(e)) == count_alias(s) + if is_alias_spec(e.target@) {
            1nat
        } else {
            0nat
        },
        count_non_alias(s.push(e)) == count_non_alias(s) + if is_alias_spec(e.target@) {
            0nat
        } else {
            1nat
        },
{
    assert(s.push(e).drop_last() =~= s);
    assert(s.push(e).last() == e);
}

/// Whether a recorded failure belongs to some non-alias entry among the
/// first `upto` entries of the catalog.
pub open spec fn failure_from(entries: Seq<Entry>, upto: int, f: ItemFailure) -> bool {
    exists|j: int|
        0 <= j < upto && !is_alias_spec(entries[j].target@) && f.name@ == entries[j].name@
}

proof fn lemma_failure_from_mono(entries: Seq<Entry>, upto1: int, upto2: int, f: ItemFailure)
    requires
        upto1 <= upto2,
        failure_from(entries, upto1, f),
    ensures
        failure_from(entries, upto2, f),
{
    let j = choose|j: int|
        0 <= j < upto1 && !is_alias_spec(entries[j].target@) && f.name@ == entries[j].name@;
    assert(0 <= j < upto2 && !is_alias_spec(entries[j].target@) && f.name@ == entries[j].name@);
}

/// One run of the download driver over a catalog. The shell drives it entry
/// by entry: ask for the action of the current entry, perform it outside,
/// and record the outcome, which advances progress by exactly one.
pub struct Run {
    catalog: Catalog,
    processed: usize,
    skipped: usize,
    succeeded: usize,
    failures: Vec<ItemFailure>,
}

impl Run {
    /// The catalog entries this run iterates over.
    pub closed spec fn entries(self) -> Seq<Entry> {
        self.catalog.entries@
    }

    /// How many entries have been processed: the progress position, advanced
    /// exactly once per entry.
    pub closed spec fn processed_spec(self) -> int {
        self.processed as int
    }

    /// How many entries were skipped as aliases.
    pub closed spec fn skipped_spec(self) -> int {
        self.skipped as int
    }

    /// How many entries were downloaded and written successfully.
    pub closed spec fn succeeded_spec(self) -> int {
        self.succeeded as int
    }

    /// The recorded per-item failures, in the order they happened.
    pub closed spec fn failures_spec(self) -> Seq<ItemFailure> {
        self.failures@
    }

    /// The prefix of the catalog processed so far.
    pub open spec fn done(self) -> Seq<Entry> {
        self.entries().take(self.processed_spec())
    }

    /// The run's invariant: progress never passes the catalog's end, the
    /// skipped count is the aliases among the processed prefix, successes and
    /// failures together account for the non-aliases of that prefix, and
    /// every recorded failure belongs to a processed non-alias entry.
    pub open spec fn wf(self) -> bool {
        &&& 0 <= self.processed_spec() <= self.entries().len()
        &&& self.skipped_spec() == count_alias(self.done())
        &&& self.succeeded_spec() + self.failures_spec().len() == count_non_alias(self.done())
        &&& forall|k: int|
            0 <= k < self.failures_spec().len() ==> failure_from(
                self.entries(),
                self.processed_spec(),
                #[trigger] self.failures_spec()[k],
            )
    }

    /// Whether every catalog entry has been processed.
    pub open spec fn complete(self) -> bool {
        self.processed_spec() == self.entries().len()
    }

    /// Start a run over the catalog: nothing processed, nothing recorded.
    pub fn new(catalog: Catalog) -> (r: Run)
        ensures
            r.wf(),
            r.entries() == catalog.entries@,
            r.processed_spec() == 0,
            r.skipped_spec() == 0,
            r.succeeded_spec() == 0,
            r.failures_spec() == Seq::<ItemFailure>::empty(),
    {
        let r = Run { catalog, processed: 0, skipped: 0, succeeded: 0, failures: Vec::new() };
        proof {
            assert(r.done() =~= Seq::<Entry>::empty());
        }
        r
    }

    /// Whether the run has processed the whole catalog.
    pub fn is_complete(&self) -> (r: bool)
        ensures
            r == self.complete(),
    {
        self.processed == self.catalog.entries.len()
    }

    /// The action for the current entry: skip exactly when its target is an
    /// alias; otherwise download its URL to `<name>.<extension>`.
    pub fn plan_current(&self) -> (a: Action)
        requires
            self.wf(),
            !self.complete(),
        ensures
            is_alias_spec(self.entries()[self.processed_spec()].target@) ==> a == Action::Skip,
            !is_alias_spec(self.entries()[self.processed_spec()].target@) ==> (a matches
                Action::Download { name, url, filename }
                && name@ == self.entries()[self.processed_spec()].name@
                && url@ == self.entries()[self.processed_spec()].target@
                && filename@ == filename_spec(
                    self.entries()[self.processed_spec()].name@,
                    self.entries()[self.processed_spec()].target@,
                )),
    {
        let e = &self.catalog.entries[self.processed];
        if is_alias(e.target.as_str()) {
            Action::Skip
        } else {
            let filename = filename_for(e.name.as_str(), e.target.as_str());
            Action::Download { name: e.name.clone(), url: e.target.clone(), filename }
        }
    }

    /// Record that the current entry is an alias and was skipped: progress
    /// advances by one, no file was written, no failure is recorded.
    pub fn note_skipped(&mut self)
        requires
            old(self).wf(),
            !old(self).complete(),
            is_alias_spec(old(self).entries()[old(self).processed_spec()].target@),
        ensures
            final(self).wf(),
            final(self).entries() == old(self).entries(),
            final(self).processed_spec() == old(self).processed_spec() + 1,
            final(self).skipped_spec() == old(self).skipped_spec() + 1,
            final(self).succeeded_spec() == old(self).succeeded_spec(),
            final(self).failures_spec() == old(self).failures_spec(),
    {
        // reading the length as a usize bounds the counters below usize::MAX
        let total: usize = self.catalog.entries.len();
        proof {
            self.lemma_step_counts();
        }
        self.skipped = self.skipped + 1;
        self.processed = self.processed + 1;
        proof {
            self.lemma_step_failures(*old(self));
        }
    }

    /// Record that the current entry's download succeeded and its file was
    /// written: progress advances by one.
    pub fn note_downloaded(&mut self)
        requires
            old(self).wf(),
            !old(self).complete(),
            !is_alias_spec(old(self).entries()[old(self).processed_spec()].target@),
        ensures
            final(self).wf(),
            final(self).entries() == old(self).entries(),
            final(self).processed_spec() == old(self).processed_spec() + 1,
            final(self).skipped_spec() == old(self).skipped_spec(),
            final(self).succeeded_spec() == old(self).succeeded_spec() + 1,
            final(self).failures_spec() == old(self).failures_spec(),
    {
        // reading the length as a usize bounds the counters below usize::MAX
        let total: usize = self.catalog.entries.len();
        proof {
            self.lemma_step_counts();
        }
        self.succeeded = self.succeeded + 1;
        self.processed = self.processed + 1;
        proof {
            self.lemma_step_failures(*old(self));
        }
    }

    /// Record that the current entry's download failed with the given cause:
    /// progress advances by one, the failure is recorded under the entry's
    /// name, and the run continues.
    pub fn note_failed(&mut self, cause: String)
        requires
            old(self).wf(),
            !old(self).complete(),
            !is_alias_spec(old(self).entries()[old(self).processed_spec()].target@),
        ensures
            final(self).wf(),
            final(self).entries() == old(self).entries(),
            final(self).processed_spec() == old(self).processed_spec() + 1,
            final(self).skipped_spec() == old(self).skipped_spec(),
            final(self).succeeded_spec() == old(self).succeeded_spec(),
            final(self).failures_spec() == old(self).failures_spec().push(
                (ItemFailure {
                    name: old(self).entries()[old(self).processed_spec()].name,
                    cause,
                }),
            ),
    {
        // reading the length as a usize bounds the counters below usize::MAX
        let total: usize = self.catalog.entries.len();
        proof {
            self.lemma_step_counts();
        }
        let name = self.catalog.entries[self.processed].name.clone();
        self.failures.push(ItemFailure { name, cause });
        self.processed = self.processed + 1;
        proof {
            self.lemma_step_failures(*old(self));
            let cur = old(self).processed_spec();
            assert(failure_from(
                self.entries(),
                self.processed as int,
                self.failures@[self.failures@.len() - 1],
            )) by {
                assert(0 <= cur < self.processed as int
                    && !is_alias_spec(self.entries()[cur].target@)
                    && self.failures@[self.failures@.len() - 1].name@
                        == self.entries()[cur].name@);
            }
        }
    }

    proof fn lemma_step_counts(self)
        requires
            self.wf(),
            !self.complete(),
        ensures
            self.entries().take(self.processed as int + 1) == self.done().push(
                self.entries()[self.processed as int],
            ),
            count_alias(self.entries().take(self.processed as int + 1)) == count_alias(self.done())
                + if is_alias_spec(self.entries()[self.processed as int].target@) {
                1nat
            } else {
                0nat
            },
            count_non_alias(self.entries().take(self.processed as int + 1)) == count_non_alias(
                self.done(),
            ) + if is_alias_spec(self.entries()[self.processed as int].target@) {
                0nat
            } else {
                1nat
            },
            count_alias(self.done()) + count_non_alias(self.done()) == self.processed as int,
    {
        assert(self.entries().take(self.processed as int + 1) =~= self.done().push(
            self.entries()[self.processed as int],
        ));
        lemma_count_push(self.done(), self.entries()[self.processed as int]);
        lemma_count_partition(self.done());
    }

    proof fn lemma_step_failures(self, prev: Run)
        requires
            self.entries() == prev.entries(),
            self.processed as int == prev.processed as int + 1,
            forall|k: int|
                0 <= k < prev.failures@.len() ==> failure_from(
                    prev.entries(),
                    prev.processed as int,
                    #[trigger] prev.failures@[k],
                ),
        ensures
            forall|k: int|
                0 <= k < prev.failures@.len() ==> failure_from(
                    self.entries(),
                    self.processed as int,
                    #[trigger] prev.failures@[k],
                ),
    {
        assert forall|k: int| 0 <= k < prev.failures@.len() implies failure_from(
            self.entries(),
            self.processed as int,
            #[trigger] prev.failures@[k],
        ) by {
            lemma_failure_from_mono(
                prev.entries(),
                prev.processed as int,
                self.processed as int,
                prev.failures@[k],
            );
        }
    }

    /// Finish the run and hand back its report.
    pub fn into_report(self) -> (r: RunReport)
        ensures
            r.total == self.entries().len(),
            r.skipped as int == self.skipped_spec(),
            r.succeeded as int == self.succeeded_spec(),
            r.failures@ == self.failures_spec(),
    {
        RunReport {
            total: self.catalog.entries.len(),
            skipped: self.skipped,
            succeeded: self.succeeded,
            failures: self.failures,
        }
    }
}

/// The summary of one run: catalog size, alias skips, successful downloads,
/// and the recorded per-item failures.
pub struct RunReport {
    pub total: usize,
    pub skipped: usize,
    pub succeeded: usize,
    pub failures: Vec<ItemFailure>,
}

/// Law: a completed run writes one file per non-alias entry except those
/// whose download failed, so the number of files written is exactly the
/// number of non-alias entries minus the number of recorded failures.
pub proof fn lemma_files_written(r: Run)
    requires
        r.wf(),
        r.complete(),
    ensures
        r.succeeded_spec() + r.failures_spec().len() == count_non_alias(r.entries()),
        r.succeeded_spec() == count_non_alias(r.entries()) - r.failures_spec().len(),
{
    assert(r.done() =~= r.entries());
}

/// Law: progress advances exactly once per catalog entry, whatever the mix
/// of aliases and failures: a completed run has processed exactly the
/// catalog's size, its skips are exactly the alias entries, and skips,
/// successes and failures together account for every entry.
pub proof fn lemma_progress_covers_catalog(r: Run)
    requires
        r.wf(),
        r.complete(),
    ensures
        r.processed_spec() == r.entries().len(),
        r.skipped_spec() == count_alias(r.entries()),
        r.skipped_spec() + r.succeeded_spec() + r.failures_spec().len() == r.entries().len(),
{
    assert(r.done() =~= r.entries());
    lemma_count_partition(r.entries());
}

/// Law: an alias entry never yields a recorded failure (and, since the only
/// way to record a success requires a non-alias entry, never a file either):
/// with the catalog's names unique, no failure carries an alias entry's name.
pub proof fn lemma_alias_entries_never_fail(r: Run, i: int)
    requires
        r.wf(),
        names_unique(r.entries()),
        0 <= i < r.entries().len(),
        is_alias_spec(r.entries()[i].target@),
    ensures
        forall|k: int|
            0 <= k < r.failures_spec().len() ==> (#[trigger] r.failures_spec()[k]).name@
                != r.entries()[i].name@,
{
    assert forall|k: int| 0 <= k < r.failures_spec().len() implies (#[trigger] r.failures_spec()[
        k
    ]).name@ != r.entries()[i].name@ by {
        let f = r.failures_spec()[k];
        assert(failure_from(r.entries(), r.processed_spec(), f));
        let j = choose|j: int|
            0 <= j < r.processed_spec() && !is_alias_spec(r.entries()[j].target@) && f.name@
                == r.entries()[j].name@;
        if f.name@ == r.entries()[i].name@ {
            assert(i != j);
            if i < j {
                assert(r.entries()[i].name@ != r.entries()[j].name@);
            } else {
                assert(r.entries()[j].name@ != r.entries()[i].name@);
            }
            assert(false);
        }
    }
}

} // verus!
