//! Moving a file off the master: the registered servers are tried in turn,
//! starting from a position the caller draws at random for each file and
//! wrapping round, and the file goes to the first one whose storage is below
//! the limit, has more free space than the file needs, and accepts the upload.
//! Every registered server with room can thus receive a file.
use vstd::prelude::*;
use crate::utils::host::{get_host, host_url};

verus! {

/// What the caller does next for the file being moved.
#[derive(Debug)]
pub enum MasterStep {
    /// Ask the worker at `host` for its storage.
    Probe { host: String },
    /// Send the file to `host`, the URL of the registered server `server`.
    Upload { host: String, server: String },
    /// The file is stored on `server`: record it and remove the local copy.
    Placed { server: String },
    /// No registered server took the file.
    Exhausted,
}

/// Where the placement of a file stands.
#[derive(Clone, Copy, PartialEq, Eq, Structural, Debug)]
pub enum Phase {
    Probing,
    Uploading,
    Placed,
}

/// Why a server before the chosen one did not keep the file.
pub enum Attempt {
    /// Its storage report did not leave room for the file.
    Refused { below_limit: bool, available_space: u64 },
    /// It had room but the upload failed.
    UploadFailed,
}

/// A worker whose usage is below the limit and whose free space exceeds the
/// file's size can take the file.
pub open spec fn has_room_for(file_size: nat, below_limit: bool, available_space: nat) -> bool {
    below_limit && file_size < available_space
}

/// A worker has room for a file exactly when its usage is below the limit and
/// the file's full size is strictly smaller than its free bytes.
pub proof fn lemma_has_room_for(file_size: u64, below_limit: bool, available_space: u64)
    ensures
        has_room_for(file_size as nat, below_limit, available_space as nat) <==> (below_limit
            && file_size < available_space),
{
}

/// The placement of one file over the registered servers.
pub struct ServerPlacement {
    servers: Vec<String>,
    file_size: u64,
    position: usize,
    phase: Phase,
    attempts: Ghost<Seq<Attempt>>,
    chosen_report: Ghost<(bool, u64)>,
}

impl ServerPlacement {
    pub closed spec fn servers(&self) -> Seq<String> {
        self.servers@
    }

    pub closed spec fn file_size(&self) -> nat {
        self.file_size as nat
    }

    /// The index of the server being tried.
    pub closed spec fn position(&self) -> nat {
        self.position as nat
    }

    pub closed spec fn phase(&self) -> Phase {
        self.phase
    }

    /// Why each server before the current one did not keep the file.
    pub closed spec fn attempts(&self) -> Seq<Attempt> {
        self.attempts@
    }

    /// The storage report of the server the file is being sent to or is on:
    /// whether its usage was below the limit, and its free bytes.
    pub closed spec fn chosen_report(&self) -> (bool, u64) {
        self.chosen_report@
    }

    /// One attempt per server passed over, each a refusal for lack of room or
    /// a failed upload; the server being sent to reported room for the file.
    pub closed spec fn wf(&self) -> bool {
        &&& self.phase != Phase::Probing ==> has_room_for(
            self.file_size as nat,
            self.chosen_report@.0,
            self.chosen_report@.1 as nat,
        )
        &&& self.position <= self.servers.len()
        &&& self.phase != Phase::Probing ==> self.position < self.servers.len()
        &&& self.attempts@.len() == self.position
        &&& forall|j: int|
            0 <= j < self.position ==> match #[trigger] self.attempts@[j] {
                Attempt::Refused { below_limit, available_space } => !has_room_for(
                    self.file_size as nat,
                    below_limit,
                    available_space as nat,
                ),
                Attempt::UploadFailed => true,
            }
    }

    /// Starts placing a file of `file_size` bytes on `servers`, tried from
    /// position `start` on and then wrapping round, so that any registered
    /// server can be the first one tried.
    pub fn new(servers: Vec<String>, file_size: u64, start: usize) -> (p: ServerPlacement)
        requires
            start == 0 || start < servers.len(),
        ensures
            p.wf(),
            p.servers() == servers@.subrange(start as int, servers@.len() as int) + servers@.subrange(
                0,
                start as int,
            ),
            p.file_size() == file_size,
            p.position() == 0,
            p.phase() == Phase::Probing,
    {
        let n = servers.len();
        let mut order: Vec<String> = Vec::new();
        let mut i: usize = start;
        while i < n
            invariant
                n == servers.len(),
                start <= i <= n,
                order@ == servers@.subrange(start as int, i as int),
            decreases n - i,
        {
            order.push(servers[i].clone());
            i = i + 1;
        }
        let mut j: usize = 0;
        while j < start
            invariant
                n == servers.len(),
                start <= n,
                j <= start,
                order@ == servers@.subrange(start as int, n as int) + servers@.subrange(0, j as int),
            decreases start - j,
        {
            order.push(servers[j].clone());
            j = j + 1;
        }
        ServerPlacement {
            servers: order,
            file_size,
            position: 0,
            phase: Phase::Probing,
            attempts: Ghost(Seq::empty()),
            chosen_report: Ghost((false, 0)),
        }
    }

    /// What to do next.
    pub fn next_step(&self) -> (step: MasterStep)
        requires
            self.wf(),
        ensures
            match step {
                MasterStep::Probe { host } => {
                    &&& self.phase() == Phase::Probing
                    &&& self.position() < self.servers().len()
                    &&& host@ == host_url(self.servers()[self.position() as int]@)
                },
                MasterStep::Upload { host, server } => {
                    &&& self.phase() == Phase::Uploading
                    &&& server == self.servers()[self.position() as int]
                    &&& host@ == host_url(server@)
                    &&& has_room_for(self.file_size(), self.chosen_report().0, self.chosen_report().1 as nat)
                    &&& self.chosen_report().0 && self.file_size() < self.chosen_report().1
                },
                MasterStep::Placed { server } => {
                    &&& self.phase() == Phase::Placed
                    &&& server == self.servers()[self.position() as int]
                    &&& has_room_for(self.file_size(), self.chosen_report().0, self.chosen_report().1 as nat)
                    &&& self.attempts().len() == self.position()
                },
                MasterStep::Exhausted => {
                    &&& self.phase() == Phase::Probing
                    &&& self.position() == self.servers().len()
                    &&& self.attempts().len() == self.servers().len()
                },
            },
    {
        if self.position >= self.servers.len() {
            return MasterStep::Exhausted;
        }
        let server = self.servers[self.position].clone();
        match self.phase {
            Phase::Probing => MasterStep::Probe { host: get_host(&server) },
            Phase::Uploading => {
                let host = get_host(&server);
                MasterStep::Upload { host, server }
            },
            Phase::Placed => MasterStep::Placed { server },
        }
    }

    /// Records the storage report of the current server: whether its usage is
    /// below the limit and how many bytes it has free.
    pub fn record_storage(&mut self, below_limit: bool, available_space: u64) -> (accepted: bool)
        requires
            old(self).wf(),
            old(self).phase() == Phase::Probing,
            old(self).position() < old(self).servers().len(),
        ensures
            final(self).wf(),
            final(self).servers() == old(self).servers(),
            final(self).file_size() == old(self).file_size(),
            accepted == has_room_for(old(self).file_size(), below_limit, available_space as nat),
            accepted == (below_limit && old(self).file_size() < available_space),
            has_room_for(old(self).file_size(), below_limit, available_space as nat) ==> {
                &&& final(self).phase() == Phase::Uploading
                &&& final(self).position() == old(self).position()
                &&& final(self).attempts() == old(self).attempts()
                &&& final(self).chosen_report() == (below_limit, available_space)
            },
            !has_room_for(old(self).file_size(), below_limit, available_space as nat) ==> {
                &&& final(self).phase() == Phase::Probing
                &&& final(self).position() == old(self).position() + 1
                &&& final(self).attempts() == old(self).attempts().push(
                    Attempt::Refused { below_limit, available_space },
                )
            },
    {
        if below_limit && self.file_size < available_space {
            self.chosen_report = Ghost((below_limit, available_space));
            self.phase = Phase::Uploading;
            true
        } else {
            let ghost prev = self.attempts@;
            self.attempts = Ghost(prev.push(Attempt::Refused { below_limit, available_space }));
            self.position = self.position + 1;
            proof {
                assert(forall|j: int| 0 <= j < prev.len() ==> self.attempts@[j] == prev[j]);
            }
            false
        }
    }

    /// Records whether the upload to the current server succeeded.
    pub fn record_upload(&mut self, succeeded: bool)
        requires
            old(self).wf(),
            old(self).phase() == Phase::Uploading,
        ensures
            final(self).wf(),
            final(self).servers() == old(self).servers(),
            final(self).file_size() == old(self).file_size(),
            succeeded ==> {
                &&& final(self).phase() == Phase::Placed
                &&& final(self).position() == old(self).position()
                &&& final(self).attempts() == old(self).attempts()
                &&& final(self).chosen_report() == old(self).chosen_report()
            },
            !succeeded ==> {
                &&& final(self).phase() == Phase::Probing
                &&& final(self).position() == old(self).position() + 1
                &&& final(self).attempts() == old(self).attempts().push(Attempt::UploadFailed)
            },
    {
        if succeeded {
            self.phase = Phase::Placed;
        } else {
            let ghost prev = self.attempts@;
            self.attempts = Ghost(prev.push(Attempt::UploadFailed));
            self.position = self.position + 1;
            self.phase = Phase::Probing;
            proof {
                assert(forall|j: int| 0 <= j < prev.len() ==> self.attempts@[j] == prev[j]);
            }
        }
    }
}

} // verus!
