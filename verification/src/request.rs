//! The command model: one variant per protocol verb, its wire line, and
//! whether its reply is multi-line.

use vstd::prelude::*;

use crate::digits::{dec_chars, u64_to_dec};
use vstd::string::StringExecFns;

verus! {

/// A protocol command, carrying only the parameters its verb needs.
///
/// `Auth`, `Capa` and `Greet` round the set out for completeness: `Greet`
/// and `Auth` are pseudo-commands that serialize to nothing (the greeting is
/// read, never requested), and no session operation sends them.
#[derive(Debug, PartialEq, Eq)]
pub enum Command<'a> {
    Apop { id: &'a str, token: &'a str },
    Auth,
    Noop,
    Uidl { id: Option<u64> },
    Top { id: u64, lines: u64 },
    Dele { id: u64 },
    Retr { id: u64 },
    Rset,
    List { id: Option<u64> },
    Stat,
    User { data: &'a str },
    Pass { data: &'a str },
    Quit,
    Capa,
    Greet,
}

impl<'a> Command<'a> {
    /// Whether the verb's reply is multi-line: retrieving a message, its top
    /// lines, and the open-ended listings (a list or unique-id listing with
    /// no identifier given). Everything else replies in one line.
    pub open spec fn spec_is_multiline(self) -> bool {
        match self {
            Command::Top { .. } => true,
            Command::Retr { .. } => true,
            Command::List { id } => id is None,
            Command::Uidl { id } => id is None,
            _ => false,
        }
    }

    /// See [`Command::spec_is_multiline`].
    pub fn is_response_multiline(&self) -> (r: bool)
        ensures
            r == self.spec_is_multiline(),
    {
        match self {
            Command::Top { .. } => true,
            Command::Retr { .. } => true,
            Command::List { id } => id.is_none(),
            Command::Uidl { id } => id.is_none(),
            _ => false,
        }
    }

    /// The exact wire line for the command: the verb and its parameters
    /// separated by single spaces, CR LF at the end, text parameters
    /// inserted verbatim (the protocol has no escaping for these fields),
    /// numeric parameters in decimal. The pseudo-commands serialize to
    /// nothing.
    pub open spec fn spec_request(self) -> Seq<char> {
        match self {
            Command::Apop { id, token } => "APOP "@ + id@ + " "@ + token@ + "\r\n"@,
            Command::Auth => Seq::empty(),
            Command::Noop => "NOOP\r\n"@,
            Command::Uidl { id } => match id {
                Some(v) => "UIDL "@ + dec_chars(v as nat) + "\r\n"@,
                None => "UIDL\r\n"@,
            },
            Command::Top { id, lines } => "TOP "@ + dec_chars(id as nat) + " "@ + dec_chars(
                lines as nat,
            ) + "\r\n"@,
            Command::Dele { id } => "DELE "@ + dec_chars(id as nat) + "\r\n"@,
            Command::Retr { id } => "RETR "@ + dec_chars(id as nat) + "\r\n"@,
            Command::Rset => "RSET\r\n"@,
            Command::List { id } => match id {
                Some(v) => "LIST "@ + dec_chars(v as nat) + "\r\n"@,
                None => "LIST\r\n"@,
            },
            Command::Stat => "STAT\r\n"@,
            Command::User { data } => "USER "@ + data@ + "\r\n"@,
            Command::Pass { data } => "PASS "@ + data@ + "\r\n"@,
            Command::Quit => "QUIT\r\n"@,
            Command::Capa => "CAPA\r\n"@,
            Command::Greet => Seq::empty(),
        }
    }

    /// Serialize the command to its wire line. Pure: the result is a
    /// function of the command value alone, so encoding twice is
    /// byte-identical (see [`lemma_request_deterministic`]).
    pub fn to_request(&self) -> (r: String)
        ensures
            r@ == self.spec_request(),
    {
        match self {
            Command::Apop { id, token } => {
                let mut s = String::new();
                s.append("APOP ");
                s.append(id);
                s.append(" ");
                s.append(token);
                s.append("\r\n");
                proof {
                    assert(s@ =~= self.spec_request());
                }
                s
            },
            Command::Auth => {
                let s = String::new();
                proof {
                    assert(s@ =~= self.spec_request());
                }
                s
            },
            Command::Noop => "NOOP\r\n".to_owned(),
            Command::Uidl { id } => match id {
                Some(v) => {
                    let mut s = String::new();
                    s.append("UIDL ");
                    s.append(u64_to_dec(*v).as_str());
                    s.append("\r\n");
                    proof {
                        assert(s@ =~= self.spec_request());
                    }
                    s
                },
                None => "UIDL\r\n".to_owned(),
            },
            Command::Top { id, lines } => {
                let mut s = String::new();
                s.append("TOP ");
                s.append(u64_to_dec(*id).as_str());
                s.append(" ");
                s.append(u64_to_dec(*lines).as_str());
                s.append("\r\n");
                proof {
                    assert(s@ =~= self.spec_request());
                }
                s
            },
            Command::Dele { id } => {
                let mut s = String::new();
                s.append("DELE ");
                s.append(u64_to_dec(*id).as_str());
                s.append("\r\n");
                proof {
                    assert(s@ =~= self.spec_request());
                }
                s
            },
            Command::Retr { id } => {
                let mut s = String::new();
                s.append("RETR ");
                s.append(u64_to_dec(*id).as_str());
                s.append("\r\n");
                proof {
                    assert(s@ =~= self.spec_request());
                }
                s
            },
            Command::Rset => "RSET\r\n".to_owned(),
            Command::List { id } => match id {
                Some(v) => {
                    let mut s = String::new();
                    s.append("LIST ");
                    s.append(u64_to_dec(*v).as_str());
                    s.append("\r\n");
                    proof {
                        assert(s@ =~= self.spec_request());
                    }
                    s
                },
                None => "LIST\r\n".to_owned(),
            },
            Command::Stat => "STAT\r\n".to_owned(),
            Command::User { data } => {
                let mut s = String::new();
                s.append("USER ");
                s.append(data);
                s.append("\r\n");
                proof {
                    assert(s@ =~= self.spec_request());
                }
                s
            },
            Command::Pass { data } => {
                let mut s = String::new();
                s.append("PASS ");
                s.append(data);
                s.append("\r\n");
                proof {
                    assert(s@ =~= self.spec_request());
                }
                s
            },
            Command::Quit => "QUIT\r\n".to_owned(),
            Command::Capa => "CAPA\r\n".to_owned(),
            Command::Greet => {
                let s = String::new();
                proof {
                    assert(s@ =~= self.spec_request());
                }
                s
            },
        }
    }
}

/// Command serialization is deterministic and idempotent: any two encodings
/// of the same command value are identical, character for character.
pub proof fn lemma_request_deterministic<'a>(cmd: Command<'a>, r1: Seq<char>, r2: Seq<char>)
    requires
        r1 == cmd.spec_request(),
        r2 == cmd.spec_request(),
    ensures
        r1 == r2,
{
}

} // verus!
