//! The storage service of a worker in the first deployment.
use vstd::prelude::*;

verus! {

/// The storage service of a worker, named by its id.
#[derive(Clone)]
pub struct WorkerService {
    pub worker_id: String,
}

} // verus!
