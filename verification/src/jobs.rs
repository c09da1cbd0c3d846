use vstd::prelude::*;
use crate::schedule::{
    add_duration, max_timestamp_secs, min_timestamp_secs, add_span, cron_accepts, cron_after, cron_after_time, duration_fits, duration_in_range,
    duration_value, format_rfc3339, next_run_from, now, parse_duration_str, parse_rfc3339,
    parse_schedule, rfc3339_text, rfc3339_time, schedule_fits, schedule_form, schedule_in_range,
    timestamp_le, ts_le, Duration, ScheduleError, ScheduleForm, ScheduleKind, Timestamp,
};
use crate::strmap::{order_chars, seq_lt, KeyOrder, StrMap};
use crate::text::{lit, starts_with, owned, str_eq, to_chars, views};

verus! {

broadcast use vstd::string::group_string_axioms;

/// A scheduled job as the database stores it.
#[derive(Debug, Clone)]
pub struct JobRecord {
    pub id: String,
    pub name: String,
    pub description: Option<String>,
    pub schedule_kind: String,
    pub schedule_expr: String,
    pub action_kind: String,
    pub action_json: String,
    pub target_chat_id: Option<String>,
    pub enabled: bool,
    pub created_at: String,
    pub updated_at: String,
    pub next_run_at: Option<String>,
}

/// What a job does when it fires.
#[derive(Debug, Clone)]
pub enum JobAction {
    AgentPrompt { prompt: String, agent_id: Option<String> },
    MessageSend { content: String, generate: bool },
    UseChat { chat_id: String, content: String },
    AskAgent { chat_id: String, content: String, agent_id: String },
}

/// A fired job, sent to the runtime.
#[derive(Debug, Clone)]
pub struct JobTrigger {
    pub job_id: String,
    pub job_name: String,
    pub actions: Vec<JobAction>,
    pub target_chat_id: Option<String>,
}

/// The actions of a fired job: the stored list, else a single stored action,
/// else a message saying that the stored format is invalid.
pub fn fallback_actions(list: Option<Vec<JobAction>>, single: Option<JobAction>) -> (r: Vec<JobAction>)
    ensures
        list matches Some(l) ==> r == l,
        list is None ==> (single matches Some(a) ==> r@ == seq![a]),
        list is None && single is None ==> r@.len() == 1,
        list is None && single is None ==> (r@[0] matches JobAction::MessageSend { content, generate }
            && content@ == "Job triggered (invalid action format)"@ && !generate),
{
    match list {
        Some(l) => l,
        None => match single {
            Some(a) => {
                let mut v = Vec::new();
                v.push(a);
                v
            },
            None => {
                let mut v = Vec::new();
                v.push(
                    JobAction::MessageSend {
                        content: lit("Job triggered (invalid action format)"),
                        generate: false,
                    },
                );
                v
            },
        },
    }
}

/// The trigger sent for a fired job.
pub fn job_trigger(job: &JobRecord, actions: Vec<JobAction>) -> (r: JobTrigger)
    ensures
        r.job_id@ == job.id@,
        r.job_name@ == job.name@,
        r.actions == actions,
        r.target_chat_id == job.target_chat_id,
{
    JobTrigger {
        job_id: job.id.clone(),
        job_name: job.name.clone(),
        actions,
        target_chat_id: match &job.target_chat_id {
            Some(t) => Some(t.clone()),
            None => None,
        },
    }
}

/// The kind label and expression stored for a schedule: `once_at` with the
/// whole schedule text, or `delay`, `cron`, `interval` with the text after the
/// prefix.
pub fn schedule_labels(kind: &ScheduleKind, schedule_str: &str, expr: &str) -> (r: (String, String))
    ensures
        *kind is OnceAt ==> r.0@ == "once_at"@ && r.1@ == schedule_str@,
        *kind is Delay ==> r.0@ == "delay"@ && r.1@ == expr@,
        *kind is Cron ==> r.0@ == "cron"@ && r.1@ == expr@,
        *kind is Interval ==> r.0@ == "interval"@ && r.1@ == expr@,
{
    match kind {
        ScheduleKind::OnceAt(_) => (lit("once_at"), owned(schedule_str)),
        ScheduleKind::Delay(_) => (lit("delay"), owned(expr)),
        ScheduleKind::Cron(_) => (lit("cron"), owned(expr)),
        ScheduleKind::Interval(_) => (lit("interval"), owned(expr)),
    }
}

/// A job is due when it is enabled and its next run, read as RFC 3339, is not
/// later than `now`.
pub open spec fn is_due(job: JobRecord, now: Timestamp) -> bool {
    &&& job.enabled
    &&& job.next_run_at matches Some(s)
    &&& rfc3339_time(s@) matches Some((secs, nanos))
    &&& ts_le(Timestamp { secs, nanos }, now)
}

/// Whether a job is due at `now`.
pub fn job_is_due(job: &JobRecord, now: Timestamp) -> (r: bool)
    ensures
        r == is_due(*job, now),
{
    if !job.enabled {
        return false;
    }
    match &job.next_run_at {
        None => false,
        Some(s) => match parse_rfc3339(s.as_str()) {
            None => false,
            Some(t) => timestamp_le(t, now),
        },
    }
}

/// Whether the job runs once.
pub open spec fn runs_once(kind: Seq<char>) -> bool {
    kind == "delay"@ || kind == "once_at"@
}

/// After a job fired at `now`: whether it stays enabled and when it next runs.
/// One-shot jobs are disabled; cron jobs run at the next time the expression
/// fires; interval jobs run the interval after `now`; others keep no next run.
pub open spec fn after_run(job: JobRecord, now: Timestamp, cron_next: Option<Timestamp>) -> (bool, Option<Timestamp>) {
    let kind = job.schedule_kind@;
    let expr = job.schedule_expr@;
    if runs_once(kind) {
        (false, None)
    } else if kind == "cron"@ {
        (job.enabled, if cron_accepts(expr) {
            cron_next
        } else {
            None
        })
    } else if kind == "interval"@ {
        (job.enabled, match duration_value(expr) {
            Some(v) => if v <= u64::MAX {
                add_span(now, Duration { secs: v as u64 })
            } else {
                None
            },
            None => None,
        })
    } else {
        (job.enabled, None)
    }
}

/// When a fired job runs next, given the next time its cron expression fires.
pub fn reschedule(job: &JobRecord, now: Timestamp, cron_next: Option<Timestamp>) -> (r: (bool, Option<Timestamp>))
    ensures
        r == after_run(*job, now, cron_next),
{
    let k = job.schedule_kind.as_str();
    if str_eq(k, "delay") || str_eq(k, "once_at") {
        (false, None)
    } else if str_eq(k, "cron") {
        if crate::schedule::cron_is_valid(job.schedule_expr.as_str()) {
            (job.enabled, cron_next)
        } else {
            (job.enabled, None)
        }
    } else if str_eq(k, "interval") {
        let e = job.schedule_expr.as_str();
        if !duration_fits(e) {
            return (job.enabled, None);
        }
        match parse_duration_str(e) {
            Ok(d) => (job.enabled, add_duration(now, d)),
            Err(_) => (job.enabled, None),
        }
    } else {
        (job.enabled, None)
    }
}

/// A time chrono can represent.
pub open spec fn representable(t: Timestamp) -> bool {
    t.nanos < 1_000_000_000 && min_timestamp_secs() <= t.secs <= max_timestamp_secs()
}

/// What a tick did to one fired job: the trigger to send and the state to
/// store.
#[derive(Debug)]
pub struct TickAction {
    pub trigger_job_id: String,
    pub job_name: String,
    pub action_json: String,
    pub target_chat_id: Option<String>,
    pub enabled: bool,
    pub next_run_at: Option<String>,
}

/// The jobs held in memory, by id.
pub struct JobTable {
    jobs: StrMap<JobRecord>,
}

impl View for JobTable {
    type V = Map<Seq<char>, JobRecord>;

    closed spec fn view(&self) -> Map<Seq<char>, JobRecord> {
        self.jobs@
    }
}

impl JobTable {
    /// The table's internal consistency: each job is stored under its id.
    pub closed spec fn wf(&self) -> bool {
        &&& self.jobs.wf()
        &&& forall|k: Seq<char>| #[trigger] self.jobs@.contains_key(k) ==> self.jobs@[k].id@ == k
    }

    /// Each job is stored under its id.
    pub proof fn lemma_ids(&self)
        requires
            self.wf(),
        ensures
            forall|k: Seq<char>| #[trigger] self@.contains_key(k) ==> self@[k].id@ == k,
    {
    }

    /// The ids in increasing order.
    pub closed spec fn sorted_ids(&self) -> Seq<Seq<char>> {
        self.jobs.sorted_keys()
    }

    /// The ids in order are the table's ids, each once, increasing.
    pub proof fn lemma_sorted_ids(&self)
        requires
            self.wf(),
        ensures
            forall|k: Seq<char>| self@.contains_key(k) <==> self.sorted_ids().contains(k),
            forall|i: int, j: int|
                0 <= i < j < self.sorted_ids().len() ==> seq_lt(
                    #[trigger] self.sorted_ids()[i],
                    #[trigger] self.sorted_ids()[j],
                ),
    {
        self.jobs.lemma_view();
    }

    /// An empty table.
    pub fn new() -> (r: Self)
        ensures
            r.wf(),
            r@ == Map::<Seq<char>, JobRecord>::empty(),
    {
        JobTable { jobs: StrMap::new() }
    }

    /// Adds (or replaces) a job under its id.
    pub fn insert(&mut self, job: JobRecord)
        requires
            old(self).wf(),
        ensures
            final(self).wf(),
            final(self)@ == old(self)@.insert(job.id@, job),
    {
        let id = job.id.clone();
        self.jobs.insert(id, job);
    }

    /// Adds the jobs of a list, later ones replacing earlier ones with the same
    /// id.
    pub fn load(&mut self, jobs: Vec<JobRecord>)
        requires
            old(self).wf(),
        ensures
            final(self).wf(),
            forall|k: Seq<char>|
                #[trigger] final(self)@.contains_key(k) <==> (old(self)@.contains_key(k) || exists|i: int|
                    0 <= i < jobs@.len() && jobs@[i].id@ == k),
    {
        let ghost orig = jobs@;
        let mut rest = jobs;
        let ghost mut i: int = 0;
        while rest.len() > 0
            invariant
                0 <= i <= orig.len(),
                rest@ == orig.skip(i),
                self.wf(),
                forall|k: Seq<char>|
                    #[trigger] self@.contains_key(k) <==> (old(self)@.contains_key(k) || exists|j: int|
                        0 <= j < i && orig[j].id@ == k),
            decreases rest@.len(),
        {
            let job = rest.remove(0);
            assert(job == orig[i]);
            self.insert(job);
            proof {
                i = i + 1;
                assert forall|k: Seq<char>|
                    #[trigger] self@.contains_key(k) <==> (old(self)@.contains_key(k) || exists|j: int|
                        0 <= j < i && orig[j].id@ == k) by {
                    if self@.contains_key(k) && k != orig[i - 1].id@ {
                    }
                    if exists|j: int| 0 <= j < i && orig[j].id@ == k {
                        let j = choose|j: int| 0 <= j < i && orig[j].id@ == k;
                        if j < i - 1 {
                        }
                    }
                }
            }
            assert(rest@ == orig.skip(i));
        }
        assert(orig.skip(i) =~= seq![]);
    }

    /// The job with `id`.
    pub fn get(&self, id: &str) -> (r: Option<&JobRecord>)
        requires
            self.wf(),
        ensures
            r matches Some(j) ==> self@.contains_key(id@) && *j == self@[id@],
            r is None ==> !self@.contains_key(id@),
    {
        self.jobs.get(id)
    }

    /// Disables the job with `id`, stamping it with `now_text`; false when there
    /// is none.
    pub fn cancel(&mut self, id: &str, now_text: String) -> (r: bool)
        requires
            old(self).wf(),
        ensures
            final(self).wf(),
            r == old(self)@.contains_key(id@),
            r ==> final(self)@ == old(self)@.insert(
                id@,
                JobRecord { enabled: false, updated_at: now_text, ..old(self)@[id@] },
            ),
            !r ==> final(self)@ == old(self)@,
    {
        match self.jobs.remove(id) {
            None => false,
            Some(job) => {
                let updated = JobRecord { enabled: false, updated_at: now_text, ..job };
                let ghost mid = self.jobs@;
                self.jobs.insert(owned(id), updated);
                assert(self@ =~= old(self)@.insert(id@, updated));
                true
            },
        }
    }

    /// Changes the name, schedule, actions and next run of the job with `id`;
    /// nothing happens when there is none.
    pub fn update(
        &mut self,
        id: &str,
        name: String,
        schedule_kind: String,
        schedule_expr: String,
        action_kind: String,
        action_json: String,
        next_run_at: Option<String>,
        now_text: String,
    )
        requires
            old(self).wf(),
        ensures
            final(self).wf(),
            old(self)@.contains_key(id@) ==> final(self)@ == old(self)@.insert(
                id@,
                JobRecord {
                    name,
                    schedule_kind,
                    schedule_expr,
                    action_kind,
                    action_json,
                    next_run_at,
                    updated_at: now_text,
                    ..old(self)@[id@]
                },
            ),
            !old(self)@.contains_key(id@) ==> final(self)@ == old(self)@,
    {
        match self.jobs.remove(id) {
            None => {},
            Some(job) => {
                let updated = JobRecord {
                    name,
                    schedule_kind,
                    schedule_expr,
                    action_kind,
                    action_json,
                    next_run_at,
                    updated_at: now_text,
                    ..job
                };
                self.jobs.insert(owned(id), updated);
                assert(self@ =~= old(self)@.insert(id@, updated));
            },
        }
    }

    /// The jobs, ordered by creation time (the text `created_at`).
    pub fn list_ids_by_creation(&self) -> (r: Vec<String>)
        requires
            self.wf(),
        ensures
            r@.len() == self.sorted_ids().len(),
            forall|k: Seq<char>| views(r@).contains(k) <==> self@.contains_key(k),
            forall|i: int, j: int|
                0 <= i < j < r@.len() ==> !seq_lt(
                    self@[#[trigger] r@[j]@].created_at@,
                    self@[#[trigger] r@[i]@].created_at@,
                ),
    {
        proof {
            self.jobs.lemma_view();
        }
        let ids = self.jobs.keys();
        let ghost ks = views(ids@);
        let mut out: Vec<String> = Vec::new();
        let mut i: usize = 0;
        while i < ids.len()
            invariant
                self.wf(),
                ks == views(ids@),
                ks == self.sorted_ids(),
                forall|k: Seq<char>| self@.contains_key(k) <==> ks.contains(k),
                i <= ids@.len(),
                out@.len() == i,
                forall|k: Seq<char>| views(out@).contains(k) <==> ks.take(i as int).contains(k),
                forall|a: int| 0 <= a < out@.len() ==> self@.contains_key(#[trigger] out@[a]@),
                forall|a: int, b: int|
                    0 <= a < b < out@.len() ==> !seq_lt(
                        self@[#[trigger] out@[b]@].created_at@,
                        self@[#[trigger] out@[a]@].created_at@,
                    ),
            decreases ids@.len() - i,
        {
            let id = ids[i].clone();
            assert(ks[i as int] == id@);
            assert(self@.contains_key(id@)) by {
                assert(ks.contains(id@));
            }
            let job = match self.jobs.get(id.as_str()) {
                Some(j) => j,
                None => {
                    proof {
                        assert(false);
                    }
                    return Vec::new();
                },
            };
            let c = to_chars(job.created_at.as_str());
            let mut pos: usize = out.len();
            let ghost out0 = out@;
            while pos > 0
                invariant
                    out@ == out0,
                    self.wf(),
                    pos <= out@.len(),
                    c@ == self@[id@].created_at@,
                    forall|a: int| 0 <= a < out@.len() ==> self@.contains_key(#[trigger] out@[a]@),
                    forall|a: int| pos <= a < out@.len() ==> seq_lt(c@, self@[#[trigger] out@[a]@].created_at@),
                ensures
                    out@ == out0,
                    pos <= out@.len(),
                    forall|a: int| pos <= a < out@.len() ==> seq_lt(c@, self@[#[trigger] out@[a]@].created_at@),
                    pos > 0 ==> !seq_lt(c@, self@[out@[pos - 1]@].created_at@),
                decreases pos,
            {
                let prev = match self.jobs.get(out[pos - 1].as_str()) {
                    Some(j) => j,
                    None => {
                        proof {
                            assert(self@.contains_key(out@[pos - 1]@));
                            assert(false);
                        }
                        return Vec::new();
                    },
                };
                let pc = to_chars(prev.created_at.as_str());
                match order_chars(c.as_slice(), pc.as_slice()) {
                    KeyOrder::Less => {
                        pos = pos - 1;
                    },
                    _ => {
                        break;
                    },
                }
            }
            proof {
                assert(pos > 0 ==> !seq_lt(c@, self@[out@[pos - 1]@].created_at@));
            }
            let ghost before = out@;
            assert(forall|k: Seq<char>| views(before).contains(k) <==> ks.take(i as int).contains(k));
            out.insert(pos, id);
            assert(views(out@) =~= views(before).insert(pos as int, id@));
            proof {
                assert(ks.take(i + 1) == ks.take(i as int).push(ks[i as int]));
                assert forall|k: Seq<char>| views(out@).contains(k) <==> ks.take(i + 1).contains(k) by {
                    if views(out@).contains(k) {
                        let a = choose|a: int| 0 <= a < out@.len() && views(out@)[a] == k;
                        assert(views(out@)[a] == out@[a]@);
                        if a < pos {
                            assert(out@[a] == before[a]);
                            assert(views(before)[a] == before[a]@);
                            assert(views(before).contains(k));
                        } else if a > pos {
                            assert(out@[a] == before[a - 1]);
                            assert(views(before)[a - 1] == before[a - 1]@);
                            assert(views(before).contains(k));
                        } else {
                            assert(ks.take(i + 1)[i as int] == k);
                        }
                        if a != pos {
                            assert(ks.take(i as int).contains(k));
                            let t = choose|t: int| 0 <= t < i && #[trigger] ks.take(i as int)[t] == k;
                            assert(ks.take(i + 1)[t] == k);
                        }
                    }
                    if ks.take(i + 1).contains(k) {
                        if k == ks[i as int] {
                            assert(views(out@)[pos as int] == k);
                        } else {
                            assert(ks.take(i as int).contains(k)) by {
                                let a = choose|a: int| 0 <= a < i + 1 && #[trigger] ks.take(i + 1)[a] == k;
                                assert(ks.take(i as int)[a] == k);
                            }
                            assert(views(before).contains(k));
                            let a = choose|a: int| 0 <= a < before.len() && views(before)[a] == k;
                            assert(views(before)[a] == before[a]@);
                            if a < pos {
                                assert(out@[a] == before[a]);
                                assert(views(out@)[a] == out@[a]@);
                            } else {
                                assert(out@[a + 1] == before[a]);
                                assert(views(out@)[a + 1] == out@[a + 1]@);
                            }
                        }
                    }
                }
                assert forall|a: int, b: int|
                    0 <= a < b < out@.len() implies !seq_lt(
                        self@[#[trigger] out@[b]@].created_at@,
                        self@[#[trigger] out@[a]@].created_at@,
                    ) by {
                    if b < pos {
                        assert(out@[a] == before[a] && out@[b] == before[b]);
                    } else if b == pos {
                        assert(out@[a] == before[a]);
                        if a < pos - 1 {
                            assert(!seq_lt(
                                self@[before[pos - 1]@].created_at@,
                                self@[before[a]@].created_at@,
                            ));
                            if seq_lt(c@, self@[before[a]@].created_at@) {
                                crate::strmap::lemma_seq_lt_total(c@, self@[before[pos - 1]@].created_at@);
                                if seq_lt(self@[before[pos - 1]@].created_at@, c@) {
                                    crate::strmap::lemma_seq_lt_transitive(
                                        self@[before[pos - 1]@].created_at@,
                                        c@,
                                        self@[before[a]@].created_at@,
                                    );
                                }
                            }
                        }
                    } else if a == pos {
                        assert(out@[b] == before[b - 1]);
                        assert(seq_lt(c@, self@[before[b - 1]@].created_at@));
                        crate::strmap::lemma_seq_lt_irreflexive(c@);
                        if seq_lt(self@[before[b - 1]@].created_at@, c@) {
                            crate::strmap::lemma_seq_lt_transitive(
                                c@,
                                self@[before[b - 1]@].created_at@,
                                c@,
                            );
                        }
                    } else if a < pos {
                        assert(out@[a] == before[a] && out@[b] == before[b - 1]);
                    } else {
                        assert(out@[a] == before[a - 1] && out@[b] == before[b - 1]);
                    }
                }
            }
            i = i + 1;
        }
        assert(ks.take(ids@.len() as int) == ks);
        out
    }

    /// The ids of the jobs due at `now`, in increasing order.
    pub fn due_ids(&self, now: Timestamp) -> (r: Vec<String>)
        requires
            self.wf(),
        ensures
            views(r@) == self.sorted_ids().filter(|k: Seq<char>| is_due(self@[k], now)),
    {
        proof {
            self.jobs.lemma_view();
        }
        let ids = self.jobs.keys();
        let ghost ks = views(ids@);
        let ghost pred = |k: Seq<char>| is_due(self@[k], now);
        let mut out: Vec<String> = Vec::new();
        let mut i: usize = 0;
        while i < ids.len()
            invariant
                self.wf(),
                ks == views(ids@),
                ks == self.sorted_ids(),
                forall|k: Seq<char>| self@.contains_key(k) <==> ks.contains(k),
                pred == (|k: Seq<char>| is_due(self@[k], now)),
                i <= ids@.len(),
                views(out@) == ks.take(i as int).filter(pred),
            decreases ids@.len() - i,
        {
            assert(ks[i as int] == ids@[i as int]@);
            assert(ks.contains(ks[i as int]));
            assert(ks.take(i + 1).drop_last() == ks.take(i as int));
            reveal_with_fuel(Seq::<_>::filter, 1);
            match self.jobs.get(ids[i].as_str()) {
                Some(job) => {
                    if job_is_due(job, now) {
                        let ghost before = out@;
                        out.push(ids[i].clone());
                        assert(views(out@) == views(before).push(ids@[i as int]@));
                    }
                },
                None => {
                    proof {
                        assert(false);
                    }
                },
            }
            i = i + 1;
        }
        assert(ks.take(ids@.len() as int) == ks);
        out
    }

    /// Records that the job with `id`, due at `now`, fired: it is re-scheduled
    /// and stamped with `now_text`, and what to send and store is returned.
    pub fn fire(&mut self, id: &str, now: Timestamp, now_text: String) -> (r: TickAction)
        requires
            old(self).wf(),
            old(self)@.contains_key(id@),
            representable(now),
        ensures
            final(self).wf(),
            final(self)@ == old(self)@.insert(id@, final(self)@[id@]),
            fired(old(self)@[id@], now, now_text@, final(self)@[id@]),
            action_of(final(self)@[id@], r),
            r.trigger_job_id@ == id@,
    {
        let job = match self.jobs.remove(id) {
            Some(j) => j,
            None => {
                proof {
                    assert(false);
                }
                return TickAction {
                    trigger_job_id: String::new(),
                    job_name: String::new(),
                    action_json: String::new(),
                    target_chat_id: None,
                    enabled: false,
                    next_run_at: None,
                };
            },
        };
        proof {
            reveal_strlit("cron");
        }
        let cron_next = if str_eq(job.schedule_kind.as_str(), "cron") && now.secs < 8_210_266_876_799i64 {
            cron_after(job.schedule_expr.as_str(), now)
        } else {
            None
        };
        assert(cron_next == cron_next_of(job, now));
        let (enabled, next) = reschedule(&job, now, cron_next);
        let next_text = match next {
            Some(t) => Some(format_rfc3339(t)),
            None => None,
        };
        let action = TickAction {
            trigger_job_id: job.id.clone(),
            job_name: job.name.clone(),
            action_json: job.action_json.clone(),
            target_chat_id: match &job.target_chat_id {
                Some(t) => Some(t.clone()),
                None => None,
            },
            enabled,
            next_run_at: match &next_text {
                Some(t) => Some(t.clone()),
                None => None,
            },
        };
        let updated = JobRecord { enabled, next_run_at: next_text, updated_at: now_text, ..job };
        proof {
            assert(after_run(job, now, cron_next) == (enabled, next));
            assert(fired_with(job, now, updated.updated_at@, updated, cron_next));
        }
        self.jobs.insert(owned(id), updated);
        assert(self@ =~= old(self)@.insert(id@, self@[id@]));
        action
    }

    /// Fires every job due at `now`, in increasing id order, and returns what
    /// to send and store for each.
    pub fn tick(&mut self, now: Timestamp, now_text: &str) -> (r: Vec<TickAction>)
        requires
            old(self).wf(),
            representable(now),
        ensures
            final(self).wf(),
            final(self)@.dom() == old(self)@.dom(),
            r@.len() == old(self).sorted_ids().filter(|k: Seq<char>| is_due(old(self)@[k], now)).len(),
            forall|i: int| 0 <= i < r@.len() ==> (#[trigger] r@[i]).trigger_job_id@ == old(self).sorted_ids().filter(
                |k: Seq<char>| is_due(old(self)@[k], now),
            )[i],
            forall|k: Seq<char>|
                #[trigger] old(self)@.contains_key(k) && !is_due(old(self)@[k], now) ==> final(self)@[k]
                    == old(self)@[k],
            forall|k: Seq<char>|
                #[trigger] old(self)@.contains_key(k) && is_due(old(self)@[k], now) ==> fired(
                    old(self)@[k],
                    now,
                    now_text@,
                    final(self)@[k],
                ),
            forall|i: int| 0 <= i < r@.len() ==> action_of(final(self)@[(#[trigger] r@[i]).trigger_job_id@], r@[i]),
    {
        let due = self.due_ids(now);
        let ghost d = views(due@);
        let ghost start = self@;
        proof {
            self.jobs.lemma_view();
            let pred = |k: Seq<char>| is_due(start[k], now);
            assert(d == self.sorted_ids().filter(pred));
            assert forall|k: Seq<char>| d.contains(k) <==> (start.contains_key(k) && is_due(start[k], now)) by {
                if d.contains(k) {
                    self.sorted_ids().lemma_filter_contains_rev(pred, k);
                    let t = choose|t: int| 0 <= t < d.len() && d[t] == k;
                    self.sorted_ids().lemma_filter_pred(pred, t);
                }
                if start.contains_key(k) && is_due(start[k], now) {
                    assert(self.sorted_ids().contains(k));
                    let u = choose|u: int| 0 <= u < self.sorted_ids().len() && self.sorted_ids()[u] == k;
                    self.sorted_ids().lemma_filter_contains(pred, u);
                }
            }
            assert(d.no_duplicates()) by {
                lemma_filter_sorted_unique(self.sorted_ids(), |k: Seq<char>| is_due(start[k], now));
            }
        }
        let mut out: Vec<TickAction> = Vec::new();
        let mut i: usize = 0;
        while i < due.len()
            invariant
                self.wf(),
                d == views(due@),
                d.no_duplicates(),
                forall|k: Seq<char>| d.contains(k) <==> (start.contains_key(k) && is_due(start[k], now)),
                representable(now),
                i <= due@.len(),
                out@.len() == i,
                self@.dom() == start.dom(),
                forall|j: int| 0 <= j < i ==> (#[trigger] out@[j]).trigger_job_id@ == d[j],
                forall|j: int| 0 <= j < i ==> action_of(self@[(#[trigger] out@[j]).trigger_job_id@], out@[j]),
                forall|k: Seq<char>|
                    #[trigger] start.contains_key(k) && !d.take(i as int).contains(k) ==> self@[k] == start[k],
                forall|k: Seq<char>|
                    #[trigger] start.contains_key(k) && d.take(i as int).contains(k) ==> fired(
                        start[k],
                        now,
                        now_text@,
                        self@[k],
                    ),
            decreases due@.len() - i,
        {
            let id = due[i].as_str();
            assert(d[i as int] == id@);
            assert(d.contains(id@));
            let ghost pre = self@;
            let a = self.fire(id, now, owned(now_text));
            proof {
                assert(d.take(i + 1) == d.take(i as int).push(d[i as int]));
                assert(!d.take(i as int).contains(id@)) by {
                    if d.take(i as int).contains(id@) {
                        let t = choose|t: int| 0 <= t < i && #[trigger] d.take(i as int)[t] == id@;
                        assert(d[t] == d[i as int]);
                    }
                }
                assert forall|k: Seq<char>| #[trigger] start.contains_key(k) && !d.take(i + 1).contains(k) implies self@[k] == start[k] by {
                    if k == id@ {
                        assert(d.take(i + 1)[i as int] == k);
                    } else {
                        if d.take(i as int).contains(k) {
                            let t = choose|t: int| 0 <= t < i && #[trigger] d.take(i as int)[t] == k;
                            assert(d.take(i + 1)[t] == k);
                        }
                    }
                }
                assert forall|k: Seq<char>| #[trigger] start.contains_key(k) && d.take(i + 1).contains(k) implies fired(
                    start[k],
                    now,
                    now_text@,
                    self@[k],
                ) by {
                    if k != id@ {
                        let t = choose|t: int| 0 <= t < i + 1 && #[trigger] d.take(i + 1)[t] == k;
                        if t == i {
                        } else {
                            assert(d.take(i as int)[t] == k);
                        }
                    }
                }
                assert forall|j: int| 0 <= j < i implies action_of(self@[(#[trigger] out@[j]).trigger_job_id@], out@[j]) by {
                    assert(out@[j].trigger_job_id@ == d[j]);
                    if d[j] == id@ {
                        assert(d[j] == d[i as int]);
                    }
                }
            }
            let ghost prev_out = out@;
            out.push(a);
            proof {
                assert forall|j: int| 0 <= j < i + 1 implies (#[trigger] out@[j]).trigger_job_id@ == d[j] by {
                    if j < i {
                        assert(out@[j] == prev_out[j]);
                    }
                }
                assert forall|j: int| 0 <= j < i + 1 implies action_of(self@[(#[trigger] out@[j]).trigger_job_id@], out@[j]) by {
                    if j < i {
                        assert(out@[j] == prev_out[j]);
                    }
                }
            }
            i = i + 1;
        }
        proof {
            assert(d.take(due@.len() as int) == d);
        }
        out
    }
}

/// The updated record is the job after firing at `now` with the next cron
/// time `cron_next`, stamped with `now_text`.
pub open spec fn fired_with(job: JobRecord, now: Timestamp, now_text: Seq<char>, updated: JobRecord, cron_next: Option<Timestamp>) -> bool {
    let (en, next) = after_run(job, now, cron_next);
    &&& updated.enabled == en
    &&& updated.updated_at@ == now_text
    &&& match next {
        Some(t) => updated.next_run_at matches Some(s) && s@ == rfc3339_text(t.secs, t.nanos),
        None => updated.next_run_at is None,
    }
    &&& updated.id == job.id
    &&& updated.name == job.name
    &&& updated.description == job.description
    &&& updated.schedule_kind == job.schedule_kind
    &&& updated.schedule_expr == job.schedule_expr
    &&& updated.action_kind == job.action_kind
    &&& updated.action_json == job.action_json
    &&& updated.target_chat_id == job.target_chat_id
    &&& updated.created_at == job.created_at
}

/// The next time a cron job fires after `now`, as the cron crate computes it;
/// none for other jobs, and none at chrono's last second, after which no time
/// can be represented.
pub open spec fn cron_next_of(job: JobRecord, now: Timestamp) -> Option<Timestamp> {
    if job.schedule_kind@ == "cron"@ && now.secs < max_timestamp_secs() {
        cron_after_time(job.schedule_expr@, now)
    } else {
        None
    }
}

/// The updated record is the job after firing at `now`, with the next time
/// its cron expression fires after `now`.
pub open spec fn fired(job: JobRecord, now: Timestamp, now_text: Seq<char>, updated: JobRecord) -> bool {
    fired_with(job, now, now_text, updated, cron_next_of(job, now))
}

/// The action reports the fired job and its new state.
pub open spec fn action_of(job: JobRecord, a: TickAction) -> bool {
    &&& a.trigger_job_id@ == job.id@
    &&& a.job_name@ == job.name@
    &&& a.action_json@ == job.action_json@
    &&& a.target_chat_id == job.target_chat_id
    &&& a.enabled == job.enabled
    &&& match job.next_run_at {
        Some(s) => a.next_run_at matches Some(t) && t@ == s@,
        None => a.next_run_at is None,
    }
}

/// A filter of a strictly increasing sequence has no repeats.
pub proof fn lemma_filter_sorted_unique(s: Seq<Seq<char>>, pred: spec_fn(Seq<char>) -> bool)
    requires
        forall|i: int, j: int| 0 <= i < j < s.len() ==> seq_lt(#[trigger] s[i], #[trigger] s[j]),
    ensures
        s.filter(pred).no_duplicates(),
    decreases s.len(),
{
    reveal_with_fuel(Seq::<_>::filter, 1);
    if s.len() > 0 {
        lemma_filter_sorted_unique(s.drop_last(), pred);
        let f = s.drop_last().filter(pred);
        if pred(s.last()) {
            assert forall|t: int| 0 <= t < f.len() implies f[t] != s.last() by {
                assert(f.contains(f[t]));
                s.drop_last().lemma_filter_contains_rev(pred, f[t]);
                let u = choose|u: int| 0 <= u < s.drop_last().len() && s.drop_last()[u] == f[t];
                assert(seq_lt(s[u], s[s.len() - 1]));
                crate::strmap::lemma_seq_lt_irreflexive(s.last());
            }
            assert(s.filter(pred) == f.push(s.last()));
        } else {
            assert(s.filter(pred) == f);
        }
    }
}


/// How a job with the schedule text `s` is stored, created at `now` when the
/// cron expression (if any) next fires at `cron_next`: the kind label, the
/// expression after the prefix, and the first run; `None` when the schedule is
/// refused.
pub open spec fn job_plan(s: Seq<char>, now: Timestamp, cron_next: Option<Timestamp>) -> Option<(Seq<char>, Seq<char>, Option<Timestamp>)> {
    match schedule_form(s) {
        ScheduleForm::Delay(rest) => match duration_value(rest) {
            Some(v) => match add_span(now, Duration { secs: v as u64 }) {
                Some(t) => Some(("delay"@, rest, Some(t))),
                None => None,
            },
            None => None,
        },
        ScheduleForm::Cron(rest) => if cron_accepts(rest) {
            Some(("cron"@, rest, cron_next))
        } else {
            None
        },
        ScheduleForm::Interval(rest) => match duration_value(rest) {
            Some(v) => match add_span(now, Duration { secs: v as u64 }) {
                Some(t) => Some(("interval"@, rest, Some(t))),
                None => None,
            },
            None => None,
        },
        ScheduleForm::Unknown => None,
    }
}

/// The kind label, expression and first run of a job with schedule `s`,
/// created at `now`.
pub fn plan_job(s: &str, now: Timestamp, cron_next: Option<Timestamp>) -> (r: Result<(String, String, Option<Timestamp>), ScheduleError>)
    requires
        schedule_in_range(s@),
    ensures
        match job_plan(s@, now, cron_next) {
            Some((k, e, t)) => r matches Ok((kind, expr, first)) && kind@ == k && expr@ == e && first == t,
            None => r is Err,
        },
{
    let (kind, expr) = match parse_schedule(s) {
        Ok(p) => p,
        Err(e) => {
            return Err(e);
        },
    };
    let first = match next_run_from(&kind, now, cron_next) {
        Ok(t) => t,
        Err(e) => {
            return Err(e);
        },
    };
    let (label, stored) = schedule_labels(&kind, s, expr.as_str());
    Ok((label, stored, first))
}

/// The next time the cron expression of a `cron:` schedule fires after `t`;
/// none for other schedules and at chrono's last second.
pub open spec fn cron_first(s: Seq<char>, t: Timestamp) -> Option<Timestamp> {
    if starts_with(s, "cron:"@) && t.secs < max_timestamp_secs() {
        cron_after_time(s.skip(5), t)
    } else {
        None
    }
}

/// The kind label, expression and first run of a job with schedule `s`,
/// created now; `None` when a duration in `s` is too long to compute with.
pub fn plan_job_now(s: &str) -> (r: Option<Result<(String, String, Option<Timestamp>), ScheduleError>>)
    ensures
        r is None <==> !schedule_in_range(s@),
        r matches Some(res) ==> exists|t: Timestamp|
            #[trigger] representable(t) && match job_plan(s@, t, cron_first(s@, t)) {
                Some((k, e, f)) => res matches Ok((kind, expr, first)) && kind@ == k && expr@ == e
                    && first == f,
                None => res is Err,
            },
{
    if !schedule_fits(s) {
        return None;
    }
    let t = now();
    let cs = to_chars(s);
    let cron = to_chars("cron:");
    proof {
        reveal_strlit("cron:");
    }
    let c = if crate::text::starts_with_chars(cs.as_slice(), cron.as_slice()) && t.secs < 8_210_266_876_799i64 {
        let rest = crate::text::from_chars(crate::text::slice(cs.as_slice(), 5, cs.len()).as_slice());
        assert(rest@ == s@.skip(5));
        cron_after(rest.as_str(), t)
    } else {
        None
    };
    assert(c == cron_first(s@, t));
    let res = plan_job(s, t, c);
    assert(representable(t));
    Some(res)
}

/// The record of a job created now: enabled, without description, its
/// actions stored as one JSON list (`multi_action`).
pub fn new_job(
    id: String,
    name: &str,
    schedule_kind: String,
    schedule_expr: String,
    action_json: String,
    target_chat_id: Option<String>,
    next_run_at: Option<String>,
    now_text: &str,
) -> (r: JobRecord)
    ensures
        r.id == id,
        r.name@ == name@,
        r.description is None,
        r.schedule_kind == schedule_kind,
        r.schedule_expr == schedule_expr,
        r.action_kind@ == "multi_action"@,
        r.action_json == action_json,
        r.target_chat_id == target_chat_id,
        r.enabled,
        r.created_at@ == now_text@,
        r.updated_at@ == now_text@,
        r.next_run_at == next_run_at,
{
    JobRecord {
        id,
        name: owned(name),
        description: None,
        schedule_kind,
        schedule_expr,
        action_kind: lit("multi_action"),
        action_json,
        target_chat_id,
        enabled: true,
        created_at: owned(now_text),
        updated_at: owned(now_text),
        next_run_at,
    }
}

/// The actions of a job made by `create_job`: one message.
pub fn message_actions(content: String, generate: bool) -> (r: Vec<JobAction>)
    ensures
        r@.len() == 1,
        r@[0] == (JobAction::MessageSend { content, generate }),
{
    let mut v = Vec::new();
    v.push(JobAction::MessageSend { content, generate });
    v
}


/// When a job next runs, if it is enabled and its next run reads as RFC 3339.
pub open spec fn pending_run(job: JobRecord) -> Option<Timestamp> {
    if job.enabled {
        match job.next_run_at {
            Some(s) => match rfc3339_time(s@) {
                Some((secs, nanos)) => Some(Timestamp { secs, nanos }),
                None => None,
            },
            None => None,
        }
    } else {
        None
    }
}

/// The earlier of two optional times.
pub open spec fn earlier(a: Option<Timestamp>, b: Option<Timestamp>) -> Option<Timestamp> {
    match (a, b) {
        (Some(x), Some(y)) => if ts_le(x, y) {
            Some(x)
        } else {
            Some(y)
        },
        (Some(x), None) => Some(x),
        (None, _) => b,
    }
}

/// The earliest pending run among jobs in order.
pub open spec fn earliest_run(jobs: Seq<JobRecord>) -> Option<Timestamp>
    decreases jobs.len(),
{
    if jobs.len() == 0 {
        None
    } else {
        earlier(earliest_run(jobs.drop_last()), pending_run(jobs.last()))
    }
}

/// How long the scheduler sleeps before its next tick, as whole seconds and
/// nanoseconds.
pub struct SleepSpan {
    pub secs: u64,
    pub nanos: u32,
}

/// How long to sleep from `now` until `next`: nothing when it is due, the
/// time left when it is later, and an hour when no job waits.
pub open spec fn sleep_span(next: Option<Timestamp>, now: Timestamp) -> (int, int) {
    match next {
        None => (3600, 0),
        Some(t) => if ts_le(t, now) {
            (0, 0)
        } else {
            let total = (t.secs - now.secs) * 1_000_000_000 + t.nanos - now.nanos;
            (total / 1_000_000_000, total % 1_000_000_000)
        },
    }
}

impl JobTable {
    /// The jobs in increasing order of id.
    pub closed spec fn jobs_in_order(&self) -> Seq<JobRecord> {
        self.jobs.entry_seq().map_values(|e: (Seq<char>, JobRecord)| e.1)
    }

    /// The earliest pending run of the table's jobs.
    pub fn next_wakeup(&self) -> (r: Option<Timestamp>)
        requires
            self.wf(),
        ensures
            r == earliest_run(self.jobs_in_order()),
    {
        let ghost js = self.jobs.entry_seq().map_values(|e: (Seq<char>, JobRecord)| e.1);
        let n = self.jobs.count();
        let mut best: Option<Timestamp> = None;
        let mut i: usize = 0;
        while i < n
            invariant
                self.jobs.wf(),
                n == self.jobs.entry_seq().len(),
                js == self.jobs.entry_seq().map_values(|e: (Seq<char>, JobRecord)| e.1),
                i <= n,
                best == earliest_run(js.take(i as int)),
            decreases n - i,
        {
            let (_, job) = self.jobs.entry_at(i);
            assert(js.take(i + 1).drop_last() =~= js.take(i as int));
            assert(js.take(i + 1).last() == *job);
            let here: Option<Timestamp> = if job.enabled {
                match &job.next_run_at {
                    Some(s) => parse_rfc3339(s.as_str()),
                    None => None,
                }
            } else {
                None
            };
            best = match (best, here) {
                (Some(x), Some(y)) => if timestamp_le(x, y) {
                    Some(x)
                } else {
                    Some(y)
                },
                (Some(x), None) => Some(x),
                (None, h) => h,
            };
            i = i + 1;
        }
        assert(js.take(n as int) =~= js);
        best
    }
}

/// How long the scheduler sleeps from `now` until `next`.
pub fn sleep_until(next: Option<Timestamp>, now: Timestamp) -> (r: SleepSpan)
    requires
        now.nanos < 1_000_000_000,
        next matches Some(t) ==> t.nanos < 1_000_000_000,
        next matches Some(t) ==> t.secs - now.secs < 0x1_0000_0000_0000_0000,
    ensures
        (r.secs as int, r.nanos as int) == sleep_span(next, now),
{
    match next {
        None => SleepSpan { secs: 3600, nanos: 0 },
        Some(t) => {
            if timestamp_le(t, now) {
                SleepSpan { secs: 0, nanos: 0 }
            } else {
                let ds: i128 = t.secs as i128 - now.secs as i128;
                let dn: i128 = t.nanos as i128 - now.nanos as i128;
                let total: i128 = ds * 1_000_000_000 + dn;
                assert(total > 0) by {
                    assert(!ts_le(t, now));
                }
                let secs = total / 1_000_000_000;
                let nanos = total % 1_000_000_000;
                assert(0 <= secs < 0x1_0000_0000_0000_0000) by (nonlinear_arith)
                    requires
                        total == ds * 1_000_000_000 + dn,
                        0 <= ds < 0x1_0000_0000_0000_0000,
                        -1_000_000_000 < dn < 1_000_000_000,
                        total > 0,
                        secs == total / 1_000_000_000,
                ;
                SleepSpan { secs: secs as u64, nanos: nanos as u32 }
            }
        },
    }
}

} // verus!
