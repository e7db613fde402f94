//! Working through the files of a directory, one relocation after another.
//!
//! An [`Organizer`] is made from the listing of a directory. It asks its
//! caller for one file-system operation at a time and is told how each
//! went. A file that cannot be moved is recorded with the reason, and the
//! next file is taken up.

use crate::category::{folder_name, get_folder_name, FileType};
use crate::classify::{file_type_of, get_file_type};
use crate::listing::names_of;
use crate::relocate::{next_step, operations_left, run, step_after, Operation, Outcome, Step};
use vstd::hash_map::StringHashMap;
use vstd::prelude::*;

verus! {

/// The name of the folder, directly below the directory that is being
/// organized, in which the category folders stand.
pub fn organized_folder() -> (name: &'static str)
    ensures
        name@ == "organized"@,
{
    "organized"
}

/// How far a batch of `count` files has come once the caller has reported
/// on each operation it was asked for: the outcomes of the files that are
/// done, and the operation asked for next. The files are taken in order,
/// each from the first operation of a relocation to its outcome, whatever
/// that is. Reports that come after the last file is done change nothing.
pub open spec fn batch(count: nat, reports: Seq<bool>) -> (Seq<Outcome>, Operation)
    decreases reports.len(),
{
    if reports.len() == 0 {
        (Seq::empty(), Operation::FolderExists)
    } else {
        let (done, pending) = batch(count, reports.drop_last());
        if done.len() >= count {
            (done, pending)
        } else {
            match step_after(pending, reports.last()) {
                Step::Perform(operation) => (done, operation),
                Step::Finished(outcome) => (done.push(outcome), Operation::FolderExists),
            }
        }
    }
}

/// What the organizer asks of its caller: one operation on one file.
#[derive(Debug, Clone, Copy)]
pub struct Request<'a> {
    /// The place of the file in the listing, counted from 0.
    pub index: usize,
    /// The name of the file in the directory.
    pub file_name: &'a str,
    /// Its category.
    pub file_type: FileType,
    /// The name of the category's folder below the organized folder.
    pub folder: &'static str,
    /// What to do.
    pub operation: Operation,
}

/// What became of one file.
#[derive(Debug, Clone)]
pub struct FileOutcome {
    pub file_name: String,
    pub file_type: FileType,
    pub outcome: Outcome,
}

/// The state of one run over the files of a directory.
pub struct Organizer {
    files: Vec<String>,
    types: Vec<FileType>,
    outcomes: Vec<Outcome>,
    pending: Operation,
    reports: Ghost<Seq<bool>>,
}

impl Organizer {
    /// The names of the files of the run, in the order of the listing.
    pub closed spec fn files(&self) -> Seq<Seq<char>> {
        names_of(self.files@)
    }

    /// The category of each file.
    pub closed spec fn types(&self) -> Seq<FileType> {
        self.types@
    }

    /// What the caller has reported so far.
    pub closed spec fn reports(&self) -> Seq<bool> {
        self.reports@
    }

    /// The outcomes of the files that are done.
    pub open spec fn done(&self) -> Seq<Outcome> {
        batch(self.files().len(), self.reports()).0
    }

    /// The operation that is asked for next, while files are left.
    pub open spec fn pending(&self) -> Operation {
        batch(self.files().len(), self.reports()).1
    }

    #[verifier::type_invariant]
    spec fn inv(&self) -> bool {
        &&& self.types@.len() == self.files@.len()
        &&& self.outcomes@.len() <= self.files@.len()
        &&& (self.outcomes@, self.pending) == batch(self.files@.len() as nat, self.reports@)
    }

    /// Begins a run over the listed files, each classified by its name.
    pub fn new(files: Vec<String>, mapping: &StringHashMap<FileType>) -> (organizer: Organizer)
        ensures
            organizer.files() == names_of(files@),
            organizer.types() == Seq::new(
                files.len() as nat,
                |i: int| file_type_of(files[i]@, mapping@),
            ),
            organizer.reports() == Seq::<bool>::empty(),
    {
        let mut types: Vec<FileType> = Vec::new();
        let mut i: usize = 0;
        while i < files.len()
            invariant
                i <= files.len(),
                types@ == Seq::new(i as nat, |j: int| file_type_of(files[j]@, mapping@)),
            decreases files.len() - i,
        {
            let file_type = get_file_type(files[i].as_str(), mapping);
            types.push(file_type);
            i += 1;
        }
        Organizer {
            files,
            types,
            outcomes: Vec::new(),
            pending: Operation::FolderExists,
            reports: Ghost(Seq::empty()),
        }
    }

    /// What is to be done next: an operation on the first file that is
    /// not done yet, or nothing once every file is done.
    pub fn request(&self) -> (request: Option<Request<'_>>)
        ensures
            self.types().len() == self.files().len(),
            self.done().len() <= self.files().len(),
            match request {
                Some(r) => {
                    let current = self.done().len() as int;
                    &&& current < self.files().len()
                    &&& r.index == current
                    &&& r.file_name@ == self.files()[current]
                    &&& r.file_type == self.types()[current]
                    &&& r.folder@ == folder_name(self.types()[current])
                    &&& r.operation == self.pending()
                },
                None => self.done().len() == self.files().len(),
            },
    {
        proof {
            use_type_invariant(self);
        }
        let current = self.outcomes.len();
        if current < self.files.len() {
            let file_type = self.types[current];
            Some(
                Request {
                    index: current,
                    file_name: self.files[current].as_str(),
                    file_type,
                    folder: get_folder_name(&file_type),
                    operation: self.pending,
                },
            )
        } else {
            None
        }
    }

    /// Takes the caller's report on the operation that was asked for. A
    /// report that comes when every file is done changes nothing.
    pub fn report(self, succeeded: bool) -> (next: Organizer)
        ensures
            next.files() == self.files(),
            next.types() == self.types(),
            next.reports() == self.reports().push(succeeded),
    {
        proof {
            use_type_invariant(&self);
            assert(self.reports@.push(succeeded).drop_last() =~= self.reports@);
        }
        let Organizer { files, types, mut outcomes, mut pending, reports } = self;
        if outcomes.len() < files.len() {
            match next_step(pending, succeeded) {
                Step::Perform(operation) => {
                    pending = operation;
                },
                Step::Finished(outcome) => {
                    outcomes.push(outcome);
                    pending = Operation::FolderExists;
                },
            }
        }
        Organizer { files, types, outcomes, pending, reports: Ghost(reports@.push(succeeded)) }
    }

    /// The outcome of every file that is done, in the order of the listing.
    pub fn outcomes(&self) -> (list: Vec<FileOutcome>)
        ensures
            list.len() == self.done().len(),
            forall|i: int|
                0 <= i < list.len() ==> {
                    &&& (#[trigger] list[i]).file_name@ == self.files()[i]
                    &&& list[i].file_type == self.types()[i]
                    &&& list[i].outcome == self.done()[i]
                },
    {
        proof {
            use_type_invariant(self);
        }
        let mut list: Vec<FileOutcome> = Vec::new();
        let mut i: usize = 0;
        while i < self.outcomes.len()
            invariant
                i <= self.outcomes.len(),
                self.outcomes.len() <= self.files.len(),
                self.types.len() == self.files.len(),
                list.len() == i,
                forall|j: int|
                    0 <= j < i ==> {
                        &&& (#[trigger] list[j]).file_name@ == self.files[j]@
                        &&& list[j].file_type == self.types[j]
                        &&& list[j].outcome == self.outcomes[j]
                    },
            decreases self.outcomes.len() - i,
        {
            list.push(
                FileOutcome {
                    file_name: self.files[i].clone(),
                    file_type: self.types[i],
                    outcome: self.outcomes[i],
                },
            );
            i += 1;
        }
        list
    }
}

/// A batch never has more outcomes than files.
pub proof fn lemma_batch_bounded(count: nat, reports: Seq<bool>)
    ensures
        batch(count, reports).0.len() <= count,
        batch(count, reports).0.len() <= reports.len(),
    decreases reports.len(),
{
    if reports.len() > 0 {
        lemma_batch_bounded(count, reports.drop_last());
    }
}

/// A directory without files asks for nothing and reports nothing.
pub proof fn lemma_nothing_to_do(reports: Seq<bool>)
    ensures
        batch(0, reports) == (Seq::<Outcome>::empty(), Operation::FolderExists),
    decreases reports.len(),
{
    if reports.len() > 0 {
        lemma_nothing_to_do(reports.drop_last());
    }
}

/// Isolation: a file's outcome is that of its own relocation, whatever
/// became of the files before it. Where a file's turn begins after the
/// reports `before`, and `own` are the reports of one relocation from its
/// first operation to its outcome, the batch records that outcome for the
/// file and takes up the next.
pub proof fn lemma_outcome_is_own(
    count: nat,
    before: Seq<bool>,
    own: Seq<bool>,
    outcome: Outcome,
)
    requires
        batch(count, before).0.len() < count,
        batch(count, before).1 == Operation::FolderExists,
        own.len() > 0,
        run(own.drop_last()) is Perform,
        run(own) == Step::Finished(outcome),
    ensures
        batch(count, before + own) == (
            batch(count, before).0.push(outcome),
            Operation::FolderExists,
        ),
{
    lemma_within_own(count, before, own);
}

/// A batch follows the relocation of the file whose turn it is.
proof fn lemma_within_own(count: nat, before: Seq<bool>, own: Seq<bool>)
    requires
        batch(count, before).0.len() < count,
        batch(count, before).1 == Operation::FolderExists,
        own.len() > 0 ==> run(own.drop_last()) is Perform,
    ensures
        batch(count, before + own) == match run(own) {
            Step::Perform(operation) => (batch(count, before).0, operation),
            Step::Finished(outcome) => (
                batch(count, before).0.push(outcome),
                Operation::FolderExists,
            ),
        },
    decreases own.len(),
{
    if own.len() > 0 {
        let earlier = own.drop_last();
        assert((before + own).drop_last() =~= before + earlier);
        lemma_within_own(count, before, earlier);
    }
}

/// How many more reports a batch can take before every file is done.
pub open spec fn reports_left(count: nat, done: Seq<Outcome>, pending: Operation) -> nat {
    if done.len() >= count {
        0
    } else {
        (6 * (count - done.len() - 1) + operations_left(Step::Perform(pending))) as nat
    }
}

/// Every file is dealt with: no failure holds the batch up, and six
/// reports for each file are enough to have an outcome for every one.
pub proof fn lemma_batch_completes(count: nat, reports: Seq<bool>)
    ensures
        reports_left(count, batch(count, reports).0, batch(count, reports).1) + reports.len() <= 6
            * count || batch(count, reports).0.len() == count,
        reports.len() >= 6 * count ==> batch(count, reports).0.len() == count,
    decreases reports.len(),
{
    lemma_batch_bounded(count, reports);
    if reports.len() > 0 {
        lemma_batch_completes(count, reports.drop_last());
        lemma_batch_bounded(count, reports.drop_last());
    }
}

} // verus!
