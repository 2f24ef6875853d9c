//! Running the program in the background.
use vstd::prelude::*;
use vstd::string::*;

verus! {

/// A background process identified by `name`.
pub struct Daemon {
    pub name: String,
}

/// `/tmp/<name>.<extension>`
pub open spec fn daemon_file(name: Seq<char>, extension: Seq<char>) -> Seq<char> {
    seq!['/', 't', 'm', 'p', '/'] + name + seq!['.'] + extension
}

impl Daemon {
    pub fn new(name: &str) -> (d: Daemon)
        ensures
            d.name@ == name@,
    {
        Daemon { name: String::from_str(name) }
    }

    /// The file of this daemon with the given extension (`pid`, `out` or
    /// `err`): `/tmp/<name>.<extension>`.
    pub fn file_path(&self, extension: &str) -> (p: String)
        ensures
            p@ == daemon_file(self.name@, extension@),
            p@ == seq!['/', 't', 'm', 'p', '/'] + self.name@ + seq!['.'] + extension@,
    {
        proof {
            reveal_strlit("/tmp/");
            reveal_strlit(".");
        }
        let mut p = String::new();
        p.append("/tmp/");
        p.append(self.name.as_str());
        p.append(".");
        p.append(extension);
        proof {
            assert(p@ =~= daemon_file(self.name@, extension@));
        }
        p
    }

    /// The directory the daemon works in.
    pub fn working_directory() -> (p: String)
        ensures
            p@ == seq!['/', 't', 'm', 'p'],
    {
        proof {
            reveal_strlit("/tmp");
        }
        String::from_str("/tmp")
    }
}

} // verus!
