//! Scheduling policies and the way they are written as text.
use vstd::prelude::*;
use vstd::string::*;
use crate::text::{decimal_text, render_decimal};

verus! {

/// The scheduling policy of a process.  The real-time policies carry their
/// priority.
#[derive(Clone, Copy, Debug, PartialEq, Eq, Structural)]
pub enum SchedPolicy {
    Other,
    Batch,
    Idle,
    Fifo(u32),
    Rr(u32),
    Deadline,
}

pub open spec fn word_other() -> Seq<u8> {
    "SCHED_OTHER".spec_bytes()
}

pub open spec fn word_batch() -> Seq<u8> {
    "SCHED_BATCH".spec_bytes()
}

pub open spec fn word_idle() -> Seq<u8> {
    "SCHED_IDLE".spec_bytes()
}

pub open spec fn word_deadline() -> Seq<u8> {
    "SCHED_DEADLINE".spec_bytes()
}

pub open spec fn word_fifo() -> Seq<u8> {
    "SCHED_FIFO(".spec_bytes()
}

pub open spec fn word_rr() -> Seq<u8> {
    "SCHED_RR(".spec_bytes()
}

pub open spec fn word_close() -> Seq<u8> {
    ")".spec_bytes()
}

/// The bytes of the words above, one by one.
pub proof fn lemma_words()
    ensures
        word_other() == seq![0x53u8, 0x43, 0x48, 0x45, 0x44, 0x5F, 0x4F, 0x54, 0x48, 0x45, 0x52],
        word_batch() == seq![0x53u8, 0x43, 0x48, 0x45, 0x44, 0x5F, 0x42, 0x41, 0x54, 0x43, 0x48],
        word_idle() == seq![0x53u8, 0x43, 0x48, 0x45, 0x44, 0x5F, 0x49, 0x44, 0x4C, 0x45],
        word_deadline() == seq![
            0x53u8,
            0x43,
            0x48,
            0x45,
            0x44,
            0x5F,
            0x44,
            0x45,
            0x41,
            0x44,
            0x4C,
            0x49,
            0x4E,
            0x45,
        ],
        word_fifo() == seq![0x53u8, 0x43, 0x48, 0x45, 0x44, 0x5F, 0x46, 0x49, 0x46, 0x4F, 0x28],
        word_rr() == seq![0x53u8, 0x43, 0x48, 0x45, 0x44, 0x5F, 0x52, 0x52, 0x28],
        word_close() == seq![0x29u8],
{
    broadcast use vstd::string::group_string_axioms;

    reveal_strlit("SCHED_OTHER");
    reveal_strlit("SCHED_BATCH");
    reveal_strlit("SCHED_IDLE");
    reveal_strlit("SCHED_DEADLINE");
    reveal_strlit("SCHED_FIFO(");
    reveal_strlit("SCHED_RR(");
    reveal_strlit(")");
    assert("SCHED_OTHER".is_ascii());
    assert("SCHED_BATCH".is_ascii());
    assert("SCHED_IDLE".is_ascii());
    assert("SCHED_DEADLINE".is_ascii());
    assert("SCHED_FIFO(".is_ascii());
    assert("SCHED_RR(".is_ascii());
    assert(")".is_ascii());
    assert(word_other() =~= seq![
        0x53u8,
        0x43,
        0x48,
        0x45,
        0x44,
        0x5F,
        0x4F,
        0x54,
        0x48,
        0x45,
        0x52,
    ]);
    assert(word_batch() =~= seq![
        0x53u8,
        0x43,
        0x48,
        0x45,
        0x44,
        0x5F,
        0x42,
        0x41,
        0x54,
        0x43,
        0x48,
    ]);
    assert(word_idle() =~= seq![0x53u8, 0x43, 0x48, 0x45, 0x44, 0x5F, 0x49, 0x44, 0x4C, 0x45]);
    assert(word_deadline() =~= seq![
        0x53u8,
        0x43,
        0x48,
        0x45,
        0x44,
        0x5F,
        0x44,
        0x45,
        0x41,
        0x44,
        0x4C,
        0x49,
        0x4E,
        0x45,
    ]);
    assert(word_fifo() =~= seq![
        0x53u8,
        0x43,
        0x48,
        0x45,
        0x44,
        0x5F,
        0x46,
        0x49,
        0x46,
        0x4F,
        0x28,
    ]);
    assert(word_rr() =~= seq![0x53u8, 0x43, 0x48, 0x45, 0x44, 0x5F, 0x52, 0x52, 0x28]);
    assert(word_close() =~= seq![0x29u8]);
}

impl SchedPolicy {
    pub fn other() -> (policy: SchedPolicy)
        ensures
            policy == SchedPolicy::Other,
    {
        SchedPolicy::Other
    }

    pub fn is_other(&self) -> (b: bool)
        ensures
            b == (*self == SchedPolicy::Other),
    {
        match self {
            SchedPolicy::Other => true,
            _ => false,
        }
    }

    /// The policy in the form in which it is written to a policy file; a
    /// policy file shows this form followed by a line feed.
    pub open spec fn word(self) -> Seq<u8> {
        match self {
            SchedPolicy::Other => word_other(),
            SchedPolicy::Batch => word_batch(),
            SchedPolicy::Idle => word_idle(),
            SchedPolicy::Deadline => word_deadline(),
            SchedPolicy::Fifo(priority) => word_fifo() + decimal_text(priority as nat)
                + word_close(),
            SchedPolicy::Rr(priority) => word_rr() + decimal_text(priority as nat) + word_close(),
        }
    }

    /// What a policy file shows for the policy: its word and a line feed.
    pub open spec fn line(self) -> Seq<u8> {
        self.word().push(0x0A)
    }

    /// The line of text that a policy file shows.
    pub fn render(&self) -> (line: Vec<u8>)
        ensures
            line@ == self.line(),
    {
        let mut out: Vec<u8> = Vec::new();
        match self {
            SchedPolicy::Other => {
                append(&mut out, "SCHED_OTHER".as_bytes());
            },
            SchedPolicy::Batch => {
                append(&mut out, "SCHED_BATCH".as_bytes());
            },
            SchedPolicy::Idle => {
                append(&mut out, "SCHED_IDLE".as_bytes());
            },
            SchedPolicy::Deadline => {
                append(&mut out, "SCHED_DEADLINE".as_bytes());
            },
            SchedPolicy::Fifo(priority) => {
                append(&mut out, "SCHED_FIFO(".as_bytes());
                let digits = render_decimal(*priority as u64);
                append(&mut out, digits.as_slice());
                append(&mut out, ")".as_bytes());
            },
            SchedPolicy::Rr(priority) => {
                append(&mut out, "SCHED_RR(".as_bytes());
                let digits = render_decimal(*priority as u64);
                append(&mut out, digits.as_slice());
                append(&mut out, ")".as_bytes());
            },
        }
        out.push(0x0A);
        out
    }
}

/// Adds the bytes of `tail` to the end of `out`.
pub fn append(out: &mut Vec<u8>, tail: &[u8])
    ensures
        final(out)@ == old(out)@ + tail@,
{
    let mut i: usize = 0;
    while i < tail.len()
        invariant
            i <= tail@.len(),
            out@ == old(out)@ + tail@.take(i as int),
        decreases tail@.len() - i,
    {
        out.push(tail[i]);
        assert(tail@.take(i + 1) =~= tail@.take(i as int).push(tail@[i as int]));
        i += 1;
    }
    assert(tail@.take(tail@.len() as int) =~= tail@);
}

} // verus!
