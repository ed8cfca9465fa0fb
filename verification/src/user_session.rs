//! What the server remembers of one connected user.
use vstd::prelude::*;

verus! {

/// The state of one user's session. Paths are kept as text: `current_dir`
/// is the directory the user sees, from a root of its own; `starting_dir`
/// is where that root lies on the server; `pending_file` is the server path
/// named by the last successful RNFR (empty when there was none).
pub struct UserSession {
    pub usr: String,
    pub pwd: String,
    pub current_dir: String,
    pub starting_dir: String,
    pub pending_file: String,
    pub s_id: i32,
}

/// A session with its texts as character sequences.
pub struct SessionView {
    pub usr: Seq<char>,
    pub pwd: Seq<char>,
    pub current_dir: Seq<char>,
    pub starting_dir: Seq<char>,
    pub pending_file: Seq<char>,
    pub s_id: i32,
}

impl View for UserSession {
    type V = SessionView;

    open spec fn view(&self) -> SessionView {
        SessionView {
            usr: self.usr@,
            pwd: self.pwd@,
            current_dir: self.current_dir@,
            starting_dir: self.starting_dir@,
            pending_file: self.pending_file@,
            s_id: self.s_id,
        }
    }
}

impl UserSession {
    /// A fresh session with the given id, rooted at the server directory
    /// `dir`: no user or password yet, at the root, nothing to rename.
    pub fn init_id_dir(s_id: i32, dir: String) -> (r: UserSession)
        ensures
            r@ == (SessionView {
                usr: seq![],
                pwd: seq![],
                current_dir: seq!['/'],
                starting_dir: dir@,
                pending_file: seq![],
                s_id,
            }),
    {
        let mut root = String::new();
        root.push('/');
        UserSession {
            usr: String::new(),
            pwd: String::new(),
            current_dir: root,
            starting_dir: dir,
            s_id: s_id,
            pending_file: String::new(),
        }
    }
}

} // verus!
