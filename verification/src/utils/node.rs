//! The state of each registered server, as the node list shows it.
use vstd::prelude::*;
use vstd::string::*;
use crate::servers::worker::StorageUsage;
use crate::utils::size::{bytes_to_gb_string, gib_text};

verus! {

/// Whether a server answered its storage query.
#[derive(Debug, Clone, Copy, PartialEq, Eq, Structural)]
pub enum Status {
    Online,
    Offline,
}

/// One line of the node list.
pub struct ServerInfo {
    pub address: String,
    pub total_space: String,
    pub used_space: String,
    pub available_space: String,
    pub usage_percent: String,
    pub status: Status,
}

/// The name under which a status is shown.
pub open spec fn status_name(s: Status) -> Seq<char> {
    match s {
        Status::Online => seq!['O', 'n', 'l', 'i', 'n', 'e'],
        Status::Offline => seq!['O', 'f', 'f', 'l', 'i', 'n', 'e'],
    }
}

/// `[<status>] [<address>] used_space: <used>, available: <available>`
pub open spec fn server_summary(status: Status, address: Seq<char>, used: Seq<char>, available: Seq<char>) -> Seq<char> {
    seq!['['] + status_name(status) + seq![']', ' ', '['] + address + "] used_space: "@ + used + ", available: "@
        + available
}

impl ServerInfo {
    /// The entry of the server at `address`: online with its storage figures in
    /// gibibytes when it answered, offline with zero sizes when it did not.
    /// `usage_percent` is the usage text to show.
    pub fn from_report(address: String, report: Option<StorageUsage>, usage_percent: String) -> (info: ServerInfo)
        ensures
            info.address == address,
            info.usage_percent == usage_percent,
            match report {
                Some(u) => {
                    &&& info.status == Status::Online
                    &&& info.total_space@ == gib_text(u.total_space as nat)
                    &&& info.used_space@ == gib_text(u.used_space as nat)
                    &&& info.available_space@ == gib_text(u.available_space as nat)
                },
                None => {
                    &&& info.status == Status::Offline
                    &&& info.total_space@ == gib_text(0)
                    &&& info.used_space@ == gib_text(0)
                    &&& info.available_space@ == gib_text(0)
                },
            },
    {
        match report {
            Some(u) => ServerInfo {
                address,
                total_space: bytes_to_gb_string(u.total_space),
                used_space: bytes_to_gb_string(u.used_space),
                available_space: bytes_to_gb_string(u.available_space),
                usage_percent,
                status: Status::Online,
            },
            None => ServerInfo {
                address,
                total_space: bytes_to_gb_string(0),
                used_space: bytes_to_gb_string(0),
                available_space: bytes_to_gb_string(0),
                usage_percent,
                status: Status::Offline,
            },
        }
    }

    /// The line printed for this server.
    pub fn summary_line(&self) -> (line: String)
        ensures
            line@ == server_summary(self.status, self.address@, self.used_space@, self.available_space@),
    {
        proof {
            reveal_strlit("[");
            reveal_strlit("Online");
            reveal_strlit("Offline");
            reveal_strlit("] [");
        }
        let mut line = String::new();
        line.append("[");
        match self.status {
            Status::Online => line.append("Online"),
            Status::Offline => line.append("Offline"),
        }
        line.append("] [");
        line.append(self.address.as_str());
        line.append("] used_space: ");
        line.append(self.used_space.as_str());
        line.append(", available: ");
        line.append(self.available_space.as_str());
        proof {
            assert(line@ =~= server_summary(self.status, self.address@, self.used_space@, self.available_space@));
        }
        line
    }
}

} // verus!
