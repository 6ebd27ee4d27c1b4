//! Result records: one per material state transition of a replica,
//! plus the closing record of a run. A record renders to one line of
//! the result stream, `<time_ms>;<node_id_or_-1>;<op_id>;<phase>`.

use vstd::prelude::*;

use crate::time::Time;

verus! {

/// The protocol phase a result record reports.
#[derive(Debug, PartialEq, Eq, Structural, Clone, Copy)]
pub enum Phase {
    Request,
    PrePrepared,
    Prepared,
    CommittedLocal,
    SpeculativeCommit,
    CommitCertificate,
    Completed,
    TimedOut,
}

/// What a result record says: progress of one operation through a
/// phase, or the end of the whole run.
#[derive(Debug, PartialEq, Eq, Structural, Clone, Copy)]
pub enum RecordBody {
    Progress { operation: u32, phase: Phase },
    Finished,
}

/// One line of the result stream, as structured data. `node_id` is
/// `None` for records the scheduler itself emits (rendered as `-1`).
#[derive(Debug, PartialEq, Eq, Structural, Clone, Copy)]
pub struct Record {
    pub time: Time,
    pub node_id: Option<u32>,
    pub body: RecordBody,
}

/// The decimal digit for a value below ten.
pub open spec fn digit_char(d: nat) -> char {
    if d == 0 {
        '0'
    } else if d == 1 {
        '1'
    } else if d == 2 {
        '2'
    } else if d == 3 {
        '3'
    } else if d == 4 {
        '4'
    } else if d == 5 {
        '5'
    } else if d == 6 {
        '6'
    } else if d == 7 {
        '7'
    } else if d == 8 {
        '8'
    } else {
        '9'
    }
}

/// The decimal rendering of a number, most significant digit first,
/// without leading zeros (a single `0` for zero itself).
pub open spec fn decimal_digits(n: nat) -> Seq<char>
    decreases n,
{
    if n < 10 {
        seq![digit_char(n)]
    } else {
        decimal_digits(n / 10).push(digit_char(n % 10))
    }
}

/// The rendering of the phase names used in the result stream.
pub open spec fn phase_chars(p: Phase) -> Seq<char> {
    match p {
        Phase::Request => "request"@,
        Phase::PrePrepared => "pre-prepared"@,
        Phase::Prepared => "prepared"@,
        Phase::CommittedLocal => "committed_local"@,
        Phase::SpeculativeCommit => "speculative_commit"@,
        Phase::CommitCertificate => "commit_certificate"@,
        Phase::Completed => "completed"@,
        Phase::TimedOut => "timed-out"@,
    }
}

/// The `<node_id_or_-1>` column: the node's id, or `-1` for the
/// scheduler's own records.
pub open spec fn node_chars(node_id: Option<u32>) -> Seq<char> {
    match node_id {
        Some(id) => decimal_digits(id as nat),
        None => "-1"@,
    }
}

/// The full line a record renders to.
pub open spec fn record_chars(r: Record) -> Seq<char> {
    decimal_digits(r.time@ as nat) + ";"@ + node_chars(r.node_id) + ";"@ + body_chars(r.body)
}

/// The message column(s) of a record: `<op_id>;<phase>`, or the
/// closing message.
pub open spec fn body_chars(b: RecordBody) -> Seq<char> {
    match b {
        RecordBody::Progress { operation, phase } => decimal_digits(operation as nat) + ";"@
            + phase_chars(phase),
        RecordBody::Finished => "Simulation finished"@,
    }
}

/// One decimal digit as a string slice.
fn digit_str(d: u64) -> (s: &'static str)
    requires
        d < 10,
    ensures
        s@ == seq![digit_char(d as nat)],
{
    proof {
        reveal_strlit("0");
        reveal_strlit("1");
        reveal_strlit("2");
        reveal_strlit("3");
        reveal_strlit("4");
        reveal_strlit("5");
        reveal_strlit("6");
        reveal_strlit("7");
        reveal_strlit("8");
        reveal_strlit("9");
    }
    let s: &'static str = if d == 0 {
        "0"
    } else if d == 1 {
        "1"
    } else if d == 2 {
        "2"
    } else if d == 3 {
        "3"
    } else if d == 4 {
        "4"
    } else if d == 5 {
        "5"
    } else if d == 6 {
        "6"
    } else if d == 7 {
        "7"
    } else if d == 8 {
        "8"
    } else {
        "9"
    };
    proof {
        assert(s@ =~= seq![digit_char(d as nat)]);
    }
    s
}

/// Renders a number in decimal.
pub fn u64_to_decimal(n: u64) -> (s: String)
    ensures
        s@ == decimal_digits(n as nat),
    decreases n,
{
    if n < 10 {
        let s = String::from_str(digit_str(n));
        proof {
            assert(s@ =~= decimal_digits(n as nat));
        }
        s
    } else {
        let mut s = u64_to_decimal(n / 10);
        s.append(digit_str(n % 10));
        proof {
            assert(s@ =~= decimal_digits(n as nat));
        }
        s
    }
}

/// Renders a 32-bit number in decimal.
pub fn u32_to_decimal(n: u32) -> (s: String)
    ensures
        s@ == decimal_digits(n as nat),
{
    let s = u64_to_decimal(n as u64);
    proof {
        assert(s@ =~= decimal_digits(n as nat));
    }
    s
}

impl Phase {
    /// The phase's name in the result stream.
    pub fn as_str(&self) -> (s: &'static str)
        ensures
            s@ == phase_chars(*self),
    {
        match self {
            Phase::Request => "request",
            Phase::PrePrepared => "pre-prepared",
            Phase::Prepared => "prepared",
            Phase::CommittedLocal => "committed_local",
            Phase::SpeculativeCommit => "speculative_commit",
            Phase::CommitCertificate => "commit_certificate",
            Phase::Completed => "completed",
            Phase::TimedOut => "timed-out",
        }
    }
}

impl Record {
    /// Renders the record as one line of the result stream.
    pub fn render(&self) -> (s: String)
        ensures
            s@ == record_chars(*self),
    {
        let mut s = u64_to_decimal(self.time.milli());
        s.append(";");
        match self.node_id {
            Some(id) => {
                let t = u32_to_decimal(id);
                s.append(t.as_str());
            },
            None => {
                s.append("-1");
            },
        }
        s.append(";");
        match &self.body {
            RecordBody::Progress { operation, phase } => {
                let t = u32_to_decimal(*operation);
                s.append(t.as_str());
                s.append(";");
                s.append(phase.as_str());
            },
            RecordBody::Finished => {
                s.append("Simulation finished");
            },
        }
        proof {
            assert(s@ =~= record_chars(*self));
        }
        s
    }
}

} // verus!
