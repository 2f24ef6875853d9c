//! The services a worker of the ring deployment offers.
use vstd::prelude::*;
use vstd::string::*;

verus! {

/// The storage service of a ring worker, named by its id.
#[derive(Clone)]
pub struct WorkerService {
    pub worker_id: String,
}

/// The upload service of a ring worker.
pub struct FileUploadData;

impl WorkerService {
    /// The service of the worker whose instance id is `uuid`: its id is
    /// `worker-<uuid>`.
    pub fn new(uuid: &str) -> (s: WorkerService)
        ensures
            s.worker_id@ == seq!['w', 'o', 'r', 'k', 'e', 'r', '-'] + uuid@,
    {
        proof {
            reveal_strlit("worker-");
        }
        let mut worker_id = String::new();
        worker_id.append("worker-");
        worker_id.append(uuid);
        proof {
            assert(worker_id@ =~= seq!['w', 'o', 'r', 'k', 'e', 'r', '-'] + uuid@);
        }
        WorkerService { worker_id }
    }
}

} // verus!
