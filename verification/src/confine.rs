//! The caps of a launched process tree, and whether it was contained.
use crate::text::{cat, cat3, cat4, cat5, decimal, decimal_text};
use vstd::prelude::*;

verus! {

/// A governor that enforces nothing.
#[derive(Debug)]
pub struct NoopGovernor {}

impl NoopGovernor {
    /// A governor that enforces nothing.
    pub fn new() -> (r: NoopGovernor)
        ensures
            !r.contains(),
    {
        NoopGovernor {  }
    }

    /// Whether what it was given is contained: never.
    pub open spec fn contains(&self) -> bool {
        false
    }

    /// Whether what it was given is contained: never.
    pub fn governed(&self) -> (r: bool)
        ensures
            r == self.contains(),
    {
        false
    }
}

/// A job that a process tree is put into: its caps, and what became of the attempts
/// to put a process into it.
#[derive(Debug)]
pub struct JobGovernor {
    pub max_memory_bytes: u64,
    pub cpu_rate_percent: Option<u32>,
    /// Whether a process was read back as being in the job.
    pub verified: bool,
    /// Whether a process could not be put into it; this is never taken back.
    pub refused: bool,
}

/// Why a job with these caps cannot be made, if it cannot.
pub open spec fn caps_fault(max_memory_bytes: u64, cpu_rate_percent: Option<u32>) -> Option<
    Seq<char>,
> {
    if max_memory_bytes == 0 {
        Some("a memory cap of 0 bytes is not a cap: every allocation would be refused"@)
    } else if max_memory_bytes > usize::MAX {
        Some("the memory cap does not fit this platform's address space"@)
    } else {
        match cpu_rate_percent {
            Some(pct) => if 1 <= pct <= 100 {
                None
            } else {
                Some(
                    "a CPU rate of "@ + decimal(pct as nat)
                        + " % is outside 1..=100 % of the machine's total capacity"@,
                )
            },
            None => None,
        }
    }
}

/// The job after one attempt to put a process into it.
pub open spec fn tried(job: JobGovernor, inside: bool) -> JobGovernor {
    JobGovernor {
        verified: job.verified || inside,
        refused: job.refused || !inside,
        ..job
    }
}

impl JobGovernor {
    /// Whether every process it was given is contained, and there was one.
    pub open spec fn contains(&self) -> bool {
        self.verified && !self.refused
    }

    /// A job with these caps and no process in it.
    pub fn new(max_memory_bytes: u64, cpu_rate_percent: Option<u32>) -> (r: Result<
        JobGovernor,
        String,
    >)
        ensures
            r is Ok <==> caps_fault(max_memory_bytes, cpu_rate_percent) is None,
            r matches Err(why) ==> Some(why@) == caps_fault(max_memory_bytes, cpu_rate_percent),
            r matches Ok(job) ==> job == (JobGovernor {
                max_memory_bytes,
                cpu_rate_percent,
                verified: false,
                refused: false,
            }),
    {
        if max_memory_bytes == 0 {
            return Err(
                "a memory cap of 0 bytes is not a cap: every allocation would be refused".to_owned(),
            );
        }
        if max_memory_bytes > usize::MAX as u64 {
            return Err("the memory cap does not fit this platform's address space".to_owned());
        }
        if let Some(pct) = cpu_rate_percent {
            if pct < 1 || pct > 100 {
                let n = decimal_text(pct as u64);
                return Err(
                    cat3(
                        "a CPU rate of ",
                        n.as_str(),
                        " % is outside 1..=100 % of the machine's total capacity",
                    ),
                );
            }
        }
        Ok(JobGovernor { max_memory_bytes, cpu_rate_percent, verified: false, refused: false })
    }

    /// The CPU cap in hundredths of a percent, as the system takes it.
    pub fn cpu_rate(&self) -> (r: Option<u32>)
        requires
            self.cpu_rate_percent matches Some(pct) ==> pct <= 100,
        ensures
            match self.cpu_rate_percent {
                Some(pct) => r == Some((pct * 100) as u32),
                None => r is None,
            },
    {
        match self.cpu_rate_percent {
            Some(pct) => Some(pct * 100),
            None => None,
        }
    }

    /// Take in what became of putting a process into the job: it was read back as
    /// being there, or it was refused.
    pub fn contained(&mut self, inside: bool)
        ensures
            *final(self) == tried(*old(self), inside),
    {
        if inside {
            self.verified = true;
        } else {
            self.refused = true;
        }
    }

    /// Put a process into the job, of which this came. It is contained only once the
    /// system has read back that it is in; one that is in already is left there.
    pub fn contain(&mut self, pid: u32, a: &Attempt) -> (r: Result<(), String>)
        ensures
            r is Ok <==> refusal_of(pid, *a) is None,
            r matches Err(why) ==> Some(why@) == refusal_of(pid, *a),
            *final(self) == tried(*old(self), r is Ok),
    {
        let verdict = assigned(pid, a);
        self.contained(verdict.is_ok());
        verdict
    }

    /// Whether every process it was given is contained, and there was one.
    pub fn governed(&self) -> (r: bool)
        ensures
            r == self.contains(),
    {
        self.verified && !self.refused
    }

    /// The cap on committed memory.
    pub fn max_memory_bytes(&self) -> (r: u64)
        ensures
            r == self.max_memory_bytes,
    {
        self.max_memory_bytes
    }

    /// The CPU cap in percent of the machine, if there is one.
    pub fn cpu_rate_percent(&self) -> (r: Option<u32>)
        ensures
            r == self.cpu_rate_percent,
    {
        self.cpu_rate_percent
    }
}

/// What the system said of a process that would not go into a job. A question that
/// was not answered has the reason in place of the answer.
#[derive(Debug)]
pub struct RefusalFacts {
    /// The code the process ended with, if it has ended.
    pub exited: Result<Option<u32>, String>,
    /// Whether the process is in any job.
    pub in_job: Result<bool, String>,
    /// Whether this process is in a job of its own.
    pub own_job: Result<bool, String>,
    /// Whether that job lets a process break away.
    pub breakaway: Result<bool, String>,
}

/// Whether a launch that breaks away would have been allowed.
pub open spec fn breakaway_text(own_job: Result<bool, Seq<char>>, breakaway: Result<bool, Seq<char>>) -> Seq<
    char,
> {
    match own_job {
        Err(e) => "unknown (IsProcessInJob on this process: "@ + e + ")"@,
        Ok(false) => "moot: this process is in no job of its own, so the child's job was set by something else"@,
        Ok(true) => match breakaway {
            Err(e) => "unknown (QueryInformationJobObject on this process's own job: "@ + e + ")"@,
            Ok(true) => "permitted"@,
            Ok(false) => "not permitted"@,
        },
    }
}

/// An answer, or the reason there is none.
pub open spec fn answer<T>(r: Result<T, String>) -> Result<T, Seq<char>> {
    match r {
        Ok(t) => Ok(t),
        Err(e) => Err(e@),
    }
}

/// Why a process would not go into a job: it had ended, it is in none and its handle
/// lacks a right, or its own job would not nest this one. A question that was not
/// answered is said to be so, never guessed.
pub open spec fn cause_of(f: RefusalFacts) -> Seq<char> {
    match answer(f.exited) {
        Err(e) => "whether the process is still running could not be determined (GetExitCodeProcess: "@
            + e + ")"@,
        Ok(Some(code)) => "the process had already exited with code "@ + decimal(code as nat),
        Ok(None) => match answer(f.in_job) {
            Err(e) => "whether the process is in a job object could not be determined (IsProcessInJob: "@
                + e + ")"@,
            Ok(false) => "the process is running and in no job object; the process handle may lack PROCESS_SET_QUOTA | PROCESS_TERMINATE"@,
            Ok(true) => "the process is already in a job object that refused to nest this one; breakaway from this process's own job is "@
                + breakaway_text(answer(f.own_job), answer(f.breakaway))
                + " (JOB_OBJECT_LIMIT_BREAKAWAY_OK)"@,
        },
    }
}

/// Why a process would not go into a job.
pub fn refusal_cause(f: &RefusalFacts) -> (r: String)
    ensures
        r@ == cause_of(*f),
{
    match &f.exited {
        Err(e) => cat3(
            "whether the process is still running could not be determined (GetExitCodeProcess: ",
            e.as_str(),
            ")",
        ),
        Ok(Some(code)) => {
            let n = decimal_text(*code as u64);
            cat("the process had already exited with code ", n.as_str())
        },
        Ok(None) => match &f.in_job {
            Err(e) => cat3(
                "whether the process is in a job object could not be determined (IsProcessInJob: ",
                e.as_str(),
                ")",
            ),
            Ok(false) => {
                "the process is running and in no job object; the process handle may lack PROCESS_SET_QUOTA | PROCESS_TERMINATE".to_owned()
            },
            Ok(true) => {
                let how = match &f.own_job {
                    Err(e) => cat3(
                        "unknown (IsProcessInJob on this process: ",
                        e.as_str(),
                        ")",
                    ),
                    Ok(false) => {
                        "moot: this process is in no job of its own, so the child's job was set by something else".to_owned()
                    },
                    Ok(true) => match &f.breakaway {
                        Err(e) => cat3(
                            "unknown (QueryInformationJobObject on this process's own job: ",
                            e.as_str(),
                            ")",
                        ),
                        Ok(true) => "permitted".to_owned(),
                        Ok(false) => "not permitted".to_owned(),
                    },
                };
                cat3(
                    "the process is already in a job object that refused to nest this one; breakaway from this process's own job is ",
                    how.as_str(),
                    " (JOB_OBJECT_LIMIT_BREAKAWAY_OK)",
                )
            },
        },
    }
}

/// What the system said of an attempt to put a process into a job. A question that was
/// not answered has the reason in place of the answer.
#[derive(Debug)]
pub struct Attempt {
    /// Whether the process was in the job before.
    pub before: Result<bool, String>,
    /// Whether it was put there, and if not, why and what is known of it.
    pub assigned: Result<(), (String, RefusalFacts)>,
    /// Whether it is in the job after that.
    pub after: Result<bool, String>,
}

/// Why an attempt did not contain a process, if it did not.
pub open spec fn refusal_of(pid: u32, a: Attempt) -> Option<Seq<char>> {
    let n = decimal(pid as nat);
    match answer(a.before) {
        Err(e) => Some("IsProcessInJob on process "@ + n + ": "@ + e),
        Ok(true) => None,
        Ok(false) => match a.assigned {
            Err((e, facts)) => Some(
                "process "@ + n + " could not be contained in the job object: "@ + cause_of(facts)
                    + ": "@ + e@,
            ),
            Ok(()) => match answer(a.after) {
                Err(e) => Some(
                    "IsProcessInJob on process "@ + n + " after assignment"@ + ": "@ + e,
                ),
                Ok(true) => None,
                Ok(false) => Some(
                    "process "@ + n + " was assigned to the job object but is not in it"@,
                ),
            },
        },
    }
}

fn assigned(pid: u32, a: &Attempt) -> (r: Result<(), String>)
    ensures
        r is Ok <==> refusal_of(pid, *a) is None,
        r matches Err(why) ==> Some(why@) == refusal_of(pid, *a),
{
    let n = decimal_text(pid as u64);
    match &a.before {
        Err(e) => Err(cat4("IsProcessInJob on process ", n.as_str(), ": ", e.as_str())),
        Ok(true) => Ok(()),
        Ok(false) => match &a.assigned {
            Err((e, facts)) => {
                let cause = refusal_cause(facts);
                let head = cat4(
                    "process ",
                    n.as_str(),
                    " could not be contained in the job object: ",
                    cause.as_str(),
                );
                Err(cat3(head.as_str(), ": ", e.as_str()))
            },
            Ok(()) => match &a.after {
                Err(e) => Err(
                    cat5(
                        "IsProcessInJob on process ",
                        n.as_str(),
                        " after assignment",
                        ": ",
                        e.as_str(),
                    ),
                ),
                Ok(true) => Ok(()),
                Ok(false) => Err(
                    cat3("process ", n.as_str(), " was assigned to the job object but is not in it"),
                ),
            },
        },
    }
}

/// The job after these attempts, one after the other.
pub open spec fn after_attempts(job: JobGovernor, insides: Seq<bool>) -> JobGovernor
    decreases insides.len(),
{
    if insides.len() == 0 {
        job
    } else {
        tried(after_attempts(job, insides.drop_last()), insides.last())
    }
}

/// Whatever attempts are made, a job is governed exactly when a process was read back as
/// being in it and none was ever refused: a refusal is for good. The caps stay.
pub proof fn refusal_is_for_good(job: JobGovernor, insides: Seq<bool>)
    ensures
        ({
            let after = after_attempts(job, insides);
            &&& after.contains() <==> {
                &&& !job.refused
                &&& !insides.contains(false)
                &&& job.verified || insides.len() > 0
            }
            &&& after.refused <==> job.refused || insides.contains(false)
            &&& after.verified <==> job.verified || insides.contains(true)
            &&& after.max_memory_bytes == job.max_memory_bytes
            &&& after.cpu_rate_percent == job.cpu_rate_percent
        }),
    decreases insides.len(),
{
    if insides.len() > 0 {
        let rest = insides.drop_last();
        refusal_is_for_good(job, rest);
        assert(insides =~= rest.push(insides.last()));
        assert forall|b: bool| insides.contains(b) <==> rest.contains(b) || b == insides.last() by {
            if rest.contains(b) {
                let j = rest.index_of(b);
                assert(insides[j] == b);
            }
            assert(insides[insides.len() - 1] == insides.last());
            if insides.contains(b) && b != insides.last() {
                let j = insides.index_of(b);
                assert(rest[j] == b);
            }
        }
        assert(rest.len() > 0 ==> rest.contains(rest[0]));
        if rest.len() > 0 && !rest.contains(false) {
            assert(rest[0]);
        }
    } else {
        assert(!insides.contains(false) && !insides.contains(true));
    }
}

} // verus!
