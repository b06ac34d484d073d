//! The jobs that the proxy has announced.

use vstd::hash_map::StringHashMap;
use vstd::prelude::*;

use crate::proxy::job::{Job, JobModel};

verus! {

/// The jobs announced so far, under their identifiers, and the latest of them.
pub struct JobBook {
    pub current: Option<Job>,
    pub recent: StringHashMap<Job>,
}

/// What a [`JobBook`] holds.
#[verifier::ext_equal]
pub struct BookModel {
    pub current: Option<JobModel>,
    pub recent: Map<Seq<char>, JobModel>,
}

/// What an optional job holds.
pub open spec fn job_view(job: Option<Job>) -> Option<JobModel> {
    match job {
        Some(j) => Some(j@),
        None => None,
    }
}

impl View for JobBook {
    type V = BookModel;

    open spec fn view(&self) -> BookModel {
        BookModel {
            current: job_view(self.current),
            recent: self.recent@.map_values(|j: Job| j@),
        }
    }
}

/// The book after a job was announced.
pub open spec fn announced(book: BookModel, job: JobModel) -> BookModel {
    BookModel { current: Some(job), recent: book.recent.insert(job.proxy_job_id, job) }
}

/// The job under an identifier.
pub open spec fn lookup(book: BookModel, id: Seq<char>) -> Option<JobModel> {
    if book.recent.contains_key(id) {
        Some(book.recent[id])
    } else {
        None
    }
}

impl JobBook {
    /// A book without jobs.
    pub fn new() -> (r: Self)
        ensures
            r@ == (BookModel { current: None, recent: Map::empty() }),
    {
        let book = JobBook { current: None, recent: StringHashMap::new() };
        assert(book@ =~= BookModel { current: None, recent: Map::empty() });
        book
    }

    /// Enters a job, which becomes the current one.
    pub fn announce(&mut self, job: Job)
        ensures
            final(self)@ == announced(old(self)@, job@),
    {
        self.current = Some(job.clone());
        let id = job.proxy_job_id.clone();
        self.recent.insert(id, job);
        assert(self@ =~= announced(old(self)@, job@));
    }

    /// Finds a job by its identifier.
    pub fn find(&self, id: &str) -> (r: Option<&Job>)
        ensures
            match r {
                Some(job) => lookup(self@, id@) == Some(job@),
                None => lookup(self@, id@) is None,
            },
    {
        self.recent.get(id)
    }
}

/// A job that was announced is found under its identifier, and every other
/// identifier leads where it did.
pub proof fn law_announced_job_is_found(book: BookModel, job: JobModel, id: Seq<char>)
    ensures
        lookup(announced(book, job), job.proxy_job_id) == Some(job),
        announced(book, job).current == Some(job),
        id != job.proxy_job_id ==> lookup(announced(book, job), id) == lookup(book, id),
{
}

}
