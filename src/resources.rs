//! Resource requests for the Slurm scheduler and their normalised submission record.
use vstd::prelude::*;
use crate::text::{decimal, fmt_decimal, fmt_two_digits, two_digits};
use crate::layout::{join_path, prefixed_path};

verus! {

/// A marker type used when an experiment has no configuration.
#[derive(Debug, Copy, Clone, Default)]
pub struct NoConfig;

/// Experiment profile. Different profiles allow experiments to be debugged and tested more easily.
#[derive(Copy, Clone, Debug, Eq, PartialEq, Hash, Structural)]
pub enum Profile {
    Default,
    Test,
    Trace,
}

impl Default for Profile {
    fn default() -> (r: Profile)
        ensures
            r == Profile::Default,
    {
        Profile::Default
    }
}

/// An amount of memory for Slurm, held in megabytes.
pub struct MemoryAmount(pub usize);

impl MemoryAmount {
    /// The amount in megabytes.
    pub open spec fn megabytes(&self) -> nat {
        self.0 as nat
    }

    pub fn from_mb(amount: usize) -> (r: MemoryAmount)
        ensures
            r.megabytes() == amount,
    {
        MemoryAmount(amount)
    }

    /// One gigabyte counts as 1000 megabytes.
    pub fn from_gb(amount: usize) -> (r: MemoryAmount)
        requires
            amount * 1000 <= usize::MAX,
        ensures
            r.megabytes() == amount * 1000,
    {
        MemoryAmount(amount * 1000)
    }

    pub fn as_mb(&self) -> (r: usize)
        ensures
            r == self.megabytes(),
    {
        self.0
    }
}

/// Slurm email notification events, as accepted by `sbatch --mail-type`.
#[derive(Debug, Copy, Clone, Eq, PartialEq, Structural)]
pub enum MailType {
    NoMail,
    Begin,
    End,
    Fail,
    Requeue,
    All,
    InvalidDepend,
    StageOut,
    TimeLimit,
    TimeLimit90,
    TimeLimit80,
    TimeLimit50,
    ArrayTasks,
}

/// The scheduler's token for a notification event.
pub open spec fn mail_token(m: MailType) -> Seq<char> {
    match m {
        MailType::NoMail => "NONE"@,
        MailType::Begin => "BEGIN"@,
        MailType::End => "END"@,
        MailType::Fail => "FAIL"@,
        MailType::Requeue => "REQUEUE"@,
        MailType::All => "ALL"@,
        MailType::InvalidDepend => "INVALID_DEPEND"@,
        MailType::StageOut => "STAGE_OUT"@,
        MailType::TimeLimit => "TIME_LIMIT"@,
        MailType::TimeLimit90 => "TIME_LIMIT_90"@,
        MailType::TimeLimit80 => "TIME_LIMIT_80"@,
        MailType::TimeLimit50 => "TIME_LIMIT_50"@,
        MailType::ArrayTasks => "ARRAY_TASKS"@,
    }
}

impl MailType {
    /// The scheduler's token for this event.
    pub fn to_string(&self) -> (r: String)
        ensures
            r@ == mail_token(*self),
    {
        let s = match self {
            MailType::NoMail => "NONE",
            MailType::Begin => "BEGIN",
            MailType::End => "END",
            MailType::Fail => "FAIL",
            MailType::Requeue => "REQUEUE",
            MailType::All => "ALL",
            MailType::InvalidDepend => "INVALID_DEPEND",
            MailType::StageOut => "STAGE_OUT",
            MailType::TimeLimit => "TIME_LIMIT",
            MailType::TimeLimit90 => "TIME_LIMIT_90",
            MailType::TimeLimit80 => "TIME_LIMIT_80",
            MailType::TimeLimit50 => "TIME_LIMIT_50",
            MailType::ArrayTasks => "ARRAY_TASKS",
        };
        String::from_str(s)
    }
}

/// The tokens of `events`, in the order given, separated by commas.
pub open spec fn mail_type_list(events: Seq<MailType>) -> Seq<char>
    decreases events.len(),
{
    if events.len() == 0 {
        Seq::empty()
    } else if events.len() == 1 {
        mail_token(events[0])
    } else {
        mail_type_list(events.drop_last()) + ","@ + mail_token(events.last())
    }
}

/// The Slurm rendering `D-H:MM:SS` of a duration of `secs` seconds.
pub open spec fn slurm_time(secs: nat) -> Seq<char> {
    decimal(secs / 86400) + "-"@ + decimal((secs / 3600) % 24) + ":"@ + two_digits(
        (secs / 60) % 60,
    ) + ":"@ + two_digits(secs % 60)
}

/// Renders a duration in whole seconds as Slurm's `D-H:MM:SS`.
pub fn fmt_as_slurm_time(secs: u64) -> (r: String)
    ensures
        r@ == slurm_time(secs as nat),
{
    let days = secs / 86400;
    let hrs = (secs / 3600) % 24;
    let minutes = (secs / 60) % 60;
    let s = secs % 60;
    let mut out = fmt_decimal(days);
    out.append("-");
    out.append(fmt_decimal(hrs).as_str());
    out.append(":");
    out.append(fmt_two_digits(minutes).as_str());
    out.append(":");
    out.append(fmt_two_digits(s).as_str());
    out
}

/// Renders an amount of memory as `"{N}MB"`.
pub fn fmt_memory(mem: &MemoryAmount) -> (r: String)
    ensures
        r@ == decimal(mem.megabytes()) + "MB"@,
{
    let mut out = fmt_decimal(mem.as_mb() as u64);
    out.append("MB");
    out
}

/// Renders the notification events as the comma-separated list of their tokens.
pub fn fmt_mail_types(events: &Vec<MailType>) -> (r: String)
    ensures
        r@ == mail_type_list(events@),
{
    let mut out = String::new();
    let mut i: usize = 0;
    while i < events.len()
        invariant
            i <= events@.len(),
            out@ == mail_type_list(events@.subrange(0, i as int)),
        decreases events@.len() - i,
    {
        let tok = events[i].to_string();
        proof {
            let pre = events@.subrange(0, i as int);
            let next = events@.subrange(0, i + 1);
            assert(next.drop_last() =~= pre);
        }
        if i > 0 {
            out.append(",");
        }
        out.append(tok.as_str());
        i = i + 1;
    }
    proof {
        assert(events@.subrange(0, events@.len() as int) =~= events@);
    }
    out
}

/// The view of an optional `String`.
pub open spec fn opt_str(o: Option<String>) -> Option<Seq<char>> {
    match o {
        Some(s) => Some(s@),
        None => None,
    }
}

fn clone_opt(o: &Option<String>) -> (r: Option<String>)
    ensures
        opt_str(r) == opt_str(*o),
{
    match o {
        Some(s) => Some(s.clone()),
        None => None,
    }
}

/// What an experiment asks of the scheduler. An absent job name or log path means the
/// default: the parameter identity, and `<input identity>.err` / `.out` in the parameter
/// directory.
pub struct PolicySettings {
    /// The Slurm script, as text.
    pub script: String,
    /// Wall-clock time limit, in whole seconds.
    pub time_secs: u64,
    pub memory: MemoryAmount,
    pub cpus: usize,
    pub nodes: usize,
    pub job_name: Option<String>,
    pub mail_user: Option<String>,
    /// Notification events, in the order they are to be listed.
    pub mail_type: Vec<MailType>,
    pub constraint: Option<String>,
    pub exclude: Option<String>,
    pub nodelist: Option<String>,
    pub log_err: Option<String>,
    pub log_out: Option<String>,
}

/// The normalised submission record for the Slurm scheduler.
#[derive(Debug, Clone, PartialEq, Eq)]
pub struct SlurmResources {
    pub script: String,
    pub log_err: String,
    pub log_out: String,
    pub job_name: Option<String>,
    pub cpus: usize,
    pub nodes: usize,
    pub time: String,
    pub memory: String,
    pub mail_user: Option<String>,
    pub mail_type: Option<String>,
    pub constraint: Option<String>,
    pub exclude: Option<String>,
    pub nodelist: Option<String>,
}

/// The mail-type field for the events `events`: absent when there are none.
pub open spec fn mail_type_field(events: Seq<MailType>) -> Option<Seq<char>> {
    if events.len() == 0 {
        None
    } else {
        Some(mail_type_list(events))
    }
}

/// A log path: the one given, or `dir/<input identity><suffix>`.
pub open spec fn log_path_or_default(
    given: Option<String>,
    dir: Seq<char>,
    input_id: Seq<char>,
    suffix: Seq<char>,
) -> Seq<char> {
    match given {
        Some(p) => p@,
        None => join_path(dir, input_id + suffix),
    }
}

/// `r` is the normalisation of `p` for an experiment with parameter identity `param_id`,
/// input identity `input_id` and canonical parameter directory `dir`.
pub open spec fn normalises(
    r: SlurmResources,
    p: PolicySettings,
    param_id: Seq<char>,
    input_id: Seq<char>,
    dir: Seq<char>,
) -> bool {
    &&& r.script@ == p.script@
    &&& r.time@ == slurm_time(p.time_secs as nat)
    &&& r.memory@ == decimal(p.memory.megabytes()) + "MB"@
    &&& r.cpus == p.cpus
    &&& r.nodes == p.nodes
    &&& opt_str(r.job_name) == Some(
        match p.job_name {
            Some(n) => n@,
            None => param_id,
        },
    )
    &&& opt_str(r.mail_user) == opt_str(p.mail_user)
    &&& opt_str(r.mail_type) == mail_type_field(p.mail_type@)
    &&& opt_str(r.constraint) == opt_str(p.constraint)
    &&& opt_str(r.exclude) == opt_str(p.exclude)
    &&& opt_str(r.nodelist) == opt_str(p.nodelist)
    &&& r.log_err@ == log_path_or_default(p.log_err, dir, input_id, ".err"@)
    &&& r.log_out@ == log_path_or_default(p.log_out, dir, input_id, ".out"@)
}

fn log_path(given: &Option<String>, dir: &str, input_id: &str, suffix: &str) -> (r: String)
    ensures
        r@ == match *given {
            Some(p) => p@,
            None => join_path(dir@, input_id@ + suffix@),
        },
{
    match given {
        Some(p) => p.clone(),
        None => prefixed_path(dir, input_id, suffix),
    }
}

impl SlurmResources {
    /// Normalises a policy into the scheduler's submission record: the time as `D-H:MM:SS`,
    /// the memory as `"{N}MB"`, the events joined by commas (absent when there are none), the
    /// job name defaulting to the parameter identity and the log paths to
    /// `dir/<input identity>.err` and `.out`, where `dir` is the canonical parameter directory.
    pub fn new(policy: &PolicySettings, param_id: &str, input_id: &str, dir: &str) -> (r:
        SlurmResources)
        ensures
            normalises(r, *policy, param_id@, input_id@, dir@),
    {
        let mail_type = if policy.mail_type.len() == 0 {
            None
        } else {
            Some(fmt_mail_types(&policy.mail_type))
        };
        let job_name = match &policy.job_name {
            Some(n) => n.clone(),
            None => String::from_str(param_id),
        };
        proof {
            reveal_strlit(".err");
            reveal_strlit(".out");
        }
        SlurmResources {
            script: policy.script.clone(),
            log_err: log_path(&policy.log_err, dir, input_id, ".err"),
            log_out: log_path(&policy.log_out, dir, input_id, ".out"),
            job_name: Some(job_name),
            cpus: policy.cpus,
            nodes: policy.nodes,
            time: fmt_as_slurm_time(policy.time_secs),
            memory: fmt_memory(&policy.memory),
            mail_user: clone_opt(&policy.mail_user),
            mail_type,
            constraint: clone_opt(&policy.constraint),
            exclude: clone_opt(&policy.exclude),
            nodelist: clone_opt(&policy.nodelist),
        }
    }
}

} // verus!
