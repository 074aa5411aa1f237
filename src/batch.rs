//! The batch resource query: one request (a JSON list of argument vectors) in, one response
//! (a JSON list of submission records, in request order) out, and nothing out at all when
//! any element fails.
use vstd::prelude::*;
use crate::resources::SlurmResources;
use crate::wire::{encode_response, response_text, strs_view};

verus! {

#[verifier::external_type_specification]
#[verifier::external_body]
pub struct ExJsonError(serde_json::Error);

/// The list of lists of strings that JSON text `data` holds, if it holds one.
pub uninterp spec fn json_string_lists(data: Seq<u8>) -> Option<Seq<Seq<Seq<char>>>>;

/// The views of a list of argument vectors.
pub open spec fn commands_view(v: Seq<Vec<String>>) -> Seq<Seq<Seq<char>>> {
    v.map_values(|a: Vec<String>| strs_view(a@))
}

/// Relies on serde_json::from_slice: the list of lists of strings held by the JSON text
/// `data`, or an error when the text is not JSON of that shape.
#[verifier::external_body]
fn parse_string_lists(data: &[u8]) -> (r: Result<Vec<Vec<String>>, serde_json::Error>)
    ensures
        r is Ok <==> json_string_lists(data@) is Some,
        r is Ok ==> commands_view(r->Ok_0@) == json_string_lists(data@)->0,
{
    serde_json::from_slice(data)
}

/// Why a batch request could not be served.
#[derive(Debug, Clone, Copy, PartialEq, Eq, Structural)]
pub enum BatchError {
    /// The request is not a JSON list of lists of strings.
    MalformedRequest,
}

/// What the server has to do next.
#[derive(Debug)]
pub enum BatchAction {
    /// Build the experiment of this argument vector and report its record, or its failure.
    Build(Vec<String>),
    /// Write this payload to the output channel, and finish.
    Respond(String),
    /// Finish without writing anything: an element failed.
    Stop,
}

/// The abstract state of an exchange: the argument vectors requested, the records built so
/// far (the i-th from the i-th vector), and whether an element failed.
pub struct ExchangeState {
    pub commands: Seq<Seq<Seq<char>>>,
    pub records: Seq<SlurmResources>,
    pub aborted: bool,
}

/// The abstract form of a [`BatchAction`].
pub enum ActionSpec {
    Build(Seq<Seq<char>>),
    Respond(Seq<char>),
    Stop,
}

/// The abstract form of an action.
pub open spec fn action_view(a: BatchAction) -> ActionSpec {
    match a {
        BatchAction::Build(v) => ActionSpec::Build(strs_view(v@)),
        BatchAction::Respond(s) => ActionSpec::Respond(s@),
        BatchAction::Stop => ActionSpec::Stop,
    }
}

/// The state of a fresh exchange over `commands`.
pub open spec fn start_state(commands: Seq<Seq<Seq<char>>>) -> ExchangeState {
    ExchangeState { commands, records: Seq::empty(), aborted: false }
}

/// The action that follows from a state: build the next element in request order, or
/// respond with all records once every element is built, or stop after a failure.
pub open spec fn next_action(st: ExchangeState) -> ActionSpec {
    if st.aborted {
        ActionSpec::Stop
    } else if st.records.len() < st.commands.len() {
        ActionSpec::Build(st.commands[st.records.len() as int])
    } else {
        ActionSpec::Respond(response_text(st.records))
    }
}

/// The state after the element being built is reported: its record is appended, or the
/// exchange is aborted. A report when nothing is being built changes nothing.
pub open spec fn after_report(st: ExchangeState, built: Option<SlurmResources>) -> ExchangeState {
    if st.aborted || st.records.len() >= st.commands.len() {
        st
    } else {
        match built {
            Some(r) => ExchangeState {
                commands: st.commands,
                records: st.records.push(r),
                aborted: false,
            },
            None => ExchangeState { commands: st.commands, records: st.records, aborted: true },
        }
    }
}

/// The state after reporting `outcomes`, in order, from `st`.
pub open spec fn drive(st: ExchangeState, outcomes: Seq<Option<SlurmResources>>) -> ExchangeState
    decreases outcomes.len(),
{
    if outcomes.len() == 0 {
        st
    } else {
        after_report(drive(st, outcomes.drop_last()), outcomes.last())
    }
}

/// A batch exchange in progress.
pub struct BatchExchange {
    commands: Vec<Vec<String>>,
    records: Vec<SlurmResources>,
    aborted: bool,
}

impl View for BatchExchange {
    type V = ExchangeState;

    closed spec fn view(&self) -> ExchangeState {
        ExchangeState {
            commands: commands_view(self.commands@),
            records: self.records@,
            aborted: self.aborted,
        }
    }
}

fn clone_strings(v: &Vec<String>) -> (r: Vec<String>)
    ensures
        strs_view(r@) == strs_view(v@),
{
    let mut out: Vec<String> = Vec::new();
    let mut i: usize = 0;
    while i < v.len()
        invariant
            i <= v@.len(),
            strs_view(out@) =~= strs_view(v@.subrange(0, i as int)),
        decreases v@.len() - i,
    {
        let ghost prev = out@;
        let c = String::from_str(v[i].as_str());
        out.push(c);
        proof {
            assert(strs_view(out@) =~= strs_view(prev).push(c@));
            assert(strs_view(v@.subrange(0, i + 1)) =~= strs_view(v@.subrange(0, i as int)).push(
                v@[i as int]@,
            ));
        }
        i = i + 1;
    }
    proof {
        assert(v@.subrange(0, v@.len() as int) =~= v@);
    }
    out
}

impl BatchExchange {
    /// Decodes a request: a JSON list of argument vectors, without program names.
    pub fn from_request(data: &[u8]) -> (r: Result<BatchExchange, BatchError>)
        ensures
            r is Ok <==> json_string_lists(data@) is Some,
            r is Ok ==> r->Ok_0@ == start_state(json_string_lists(data@)->0),
            r is Err ==> r == Err::<BatchExchange, BatchError>(BatchError::MalformedRequest),
    {
        match parse_string_lists(data) {
            Ok(commands) => {
                let ex = BatchExchange { commands, records: Vec::new(), aborted: false };
                proof {
                    assert(ex@.records =~= Seq::<SlurmResources>::empty());
                }
                Ok(ex)
            },
            Err(_) => Err(BatchError::MalformedRequest),
        }
    }

    /// The next action: build the next element, respond, or stop.
    pub fn next_action(&self) -> (r: BatchAction)
        ensures
            action_view(r) == next_action(self@),
    {
        if self.aborted {
            BatchAction::Stop
        } else if self.records.len() < self.commands.len() {
            let v = clone_strings(&self.commands[self.records.len()]);
            BatchAction::Build(v)
        } else {
            BatchAction::Respond(encode_response(&self.records))
        }
    }

    /// Reports the outcome of building the pending element: its record, or `None` when it
    /// failed to parse or construct.
    pub fn report(&mut self, built: Option<SlurmResources>)
        ensures
            final(self)@ == after_report(old(self)@, built),
    {
        if self.aborted || self.records.len() >= self.commands.len() {
            return;
        }
        match built {
            Some(r) => {
                self.records.push(r);
            },
            None => {
                self.aborted = true;
            },
        }
    }
}

/// Each outcome a success.
pub open spec fn all_built(records: Seq<SlurmResources>) -> Seq<Option<SlurmResources>> {
    records.map_values(|r: SlurmResources| Some(r))
}

proof fn lemma_drive_built(commands: Seq<Seq<Seq<char>>>, records: Seq<SlurmResources>)
    requires
        records.len() <= commands.len(),
    ensures
        drive(start_state(commands), all_built(records)) == (ExchangeState {
            commands,
            records,
            aborted: false,
        }),
    decreases records.len(),
{
    if records.len() == 0 {
        assert(all_built(records) =~= Seq::<Option<SlurmResources>>::empty());
        assert(records =~= Seq::<SlurmResources>::empty());
    } else {
        let prev = records.drop_last();
        lemma_drive_built(commands, prev);
        assert(all_built(records).drop_last() =~= all_built(prev));
        assert(prev.push(records.last()) =~= records);
    }
}

/// Batch ordering: when every element of a request of N argument vectors builds, the server
/// asks for the elements in request order, the i-th action building the i-th vector, and then
/// responds with exactly the N records, the i-th built from the i-th vector.
pub proof fn lemma_batch_ordering(commands: Seq<Seq<Seq<char>>>, records: Seq<SlurmResources>)
    requires
        records.len() == commands.len(),
    ensures
        forall|i: int|
            0 <= i < commands.len() ==> next_action(
                drive(start_state(commands), #[trigger] all_built(records.take(i))),
            ) == ActionSpec::Build(commands[i]),
        next_action(drive(start_state(commands), all_built(records))) == ActionSpec::Respond(
            response_text(records),
        ),
{
    assert forall|i: int| 0 <= i < commands.len() implies next_action(
        drive(start_state(commands), #[trigger] all_built(records.take(i))),
    ) == ActionSpec::Build(commands[i]) by {
        lemma_drive_built(commands, records.take(i));
    }
    lemma_drive_built(commands, records);
}

proof fn lemma_drive_prefix_ok(commands: Seq<Seq<Seq<char>>>, outcomes: Seq<Option<SlurmResources>>, j: int)
    requires
        0 <= j <= outcomes.len(),
        j <= commands.len(),
        forall|i: int| 0 <= i < j ==> (#[trigger] outcomes[i]) is Some,
    ensures
        !drive(start_state(commands), outcomes.take(j)).aborted,
        drive(start_state(commands), outcomes.take(j)).records.len() == j,
        drive(start_state(commands), outcomes.take(j)).commands == commands,
    decreases j,
{
    if j > 0 {
        lemma_drive_prefix_ok(commands, outcomes, j - 1);
        let st = start_state(commands);
        assert(outcomes.take(j).drop_last() =~= outcomes.take(j - 1));
        assert(outcomes.take(j).last() == outcomes[j - 1]);
        assert(outcomes[j - 1] is Some);
        assert(drive(st, outcomes.take(j)) == after_report(
            drive(st, outcomes.take(j - 1)),
            outcomes[j - 1],
        ));
    } else {
        assert(outcomes.take(0) =~= Seq::<Option<SlurmResources>>::empty());
    }
}

proof fn lemma_drive_stays_aborted(
    commands: Seq<Seq<Seq<char>>>,
    outcomes: Seq<Option<SlurmResources>>,
    k: int,
    j: int,
)
    requires
        0 <= k < j <= outcomes.len(),
        drive(start_state(commands), outcomes.take(k + 1)).aborted,
    ensures
        drive(start_state(commands), outcomes.take(j)).aborted,
    decreases j - k,
{
    if j > k + 1 {
        lemma_drive_stays_aborted(commands, outcomes, k, j - 1);
        assert(outcomes.take(j).drop_last() =~= outcomes.take(j - 1));
    }
}

/// Batch atomicity: when element k of a request fails to build, the server never responds,
/// whatever is reported afterwards: the output channel receives no bytes at all.
pub proof fn lemma_batch_atomic(
    commands: Seq<Seq<Seq<char>>>,
    outcomes: Seq<Option<SlurmResources>>,
    k: int,
)
    requires
        0 <= k < commands.len(),
        k < outcomes.len(),
        outcomes[k] is None,
        forall|i: int| 0 <= i < k ==> (#[trigger] outcomes[i]) is Some,
    ensures
        forall|j: int|
            k < j <= outcomes.len() ==> next_action(
                drive(start_state(commands), #[trigger] outcomes.take(j)),
            ) == ActionSpec::Stop,
{
    lemma_drive_prefix_ok(commands, outcomes, k);
    assert(outcomes.take(k + 1).drop_last() =~= outcomes.take(k));
    assert(outcomes.take(k + 1).last() == outcomes[k]);
    assert(drive(start_state(commands), outcomes.take(k + 1)) == after_report(
        drive(start_state(commands), outcomes.take(k)),
        outcomes[k],
    ));
    assert(drive(start_state(commands), outcomes.take(k + 1)).aborted);
    assert forall|j: int| k < j <= outcomes.len() implies next_action(
        drive(start_state(commands), #[trigger] outcomes.take(j)),
    ) == ActionSpec::Stop by {
        lemma_drive_stays_aborted(commands, outcomes, k, j);
    }
}

} // verus!
