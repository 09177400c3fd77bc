//! The coordinator side of the hint execution bridge.
//!
//! A worker runs the code of a hint and holds nothing of the machine. For
//! every access it sends an [`Operation`] and waits for the one
//! [`OperationResult`] that answers it; `End` closes the session and has no
//! answer. The coordinator owns machine and scopes and serves one operation
//! at a time, so the two never touch the same state at once.

use crate::errors::{HintError, MemoryError};
use crate::exec_scope::{enter, exit, ExecutionScopes, ScopeFrame, ScopeValueView};
use crate::hint_processor::{
    compute_addr_from_reference, resolve_identifier, HintProcessorData, HintReference, IdsData,
};
use crate::memory::{Memory, MemoryView};
use crate::relocatable::{MaybeRelocatable, Relocatable, Value};
use crate::vm_core::{MachineView, VirtualMachine};
use vstd::prelude::*;

verus! {

/// What an [`Operation`] asks for, apart from how its payload is stored.
pub enum OperationView {
    AddSegment,
    WriteMemory(Relocatable, Value),
    ReadMemory(Relocatable),
    ReadIds(Seq<char>),
    WriteIds(Seq<char>, Value),
    WriteVecArg(Relocatable, Seq<Value>),
    End,
    EnterScope(Map<Seq<char>, ScopeValueView>),
    ExitScope,
}

/// A request of the worker. It owns its payload: nothing in it points into
/// the machine.
#[derive(Debug, PartialEq, Eq)]
pub enum Operation {
    /// Allocate a new memory segment.
    AddSegment,
    /// Write the value to the cell at the address.
    WriteMemory(Relocatable, MaybeRelocatable),
    /// Read the cell at the address.
    ReadMemory(Relocatable),
    /// Read the cell of the identifier.
    ReadIds(String),
    /// Write the value to the cell of the identifier.
    WriteIds(String, MaybeRelocatable),
    /// Write the values to the cells from the address on.
    WriteVecArg(Relocatable, Vec<MaybeRelocatable>),
    /// The hint has run; no further request follows.
    End,
    /// Enter a new scope with the given variables once the hint has run.
    EnterScope(ScopeFrame),
    /// Leave the current scope once the hint has run.
    ExitScope,
}

/// The values of a list, each apart from how it is stored.
pub open spec fn values_view(values: Seq<MaybeRelocatable>) -> Seq<Value> {
    Seq::new(values.len(), |i: int| values[i]@)
}

impl View for Operation {
    type V = OperationView;

    open spec fn view(&self) -> OperationView {
        match self {
            Operation::AddSegment => OperationView::AddSegment,
            Operation::WriteMemory(address, value) => OperationView::WriteMemory(*address, value@),
            Operation::ReadMemory(address) => OperationView::ReadMemory(*address),
            Operation::ReadIds(name) => OperationView::ReadIds(name@),
            Operation::WriteIds(name, value) => OperationView::WriteIds(name@, value@),
            Operation::WriteVecArg(address, values) => OperationView::WriteVecArg(
                *address,
                values_view(values@),
            ),
            Operation::End => OperationView::End,
            Operation::EnterScope(frame) => OperationView::EnterScope(frame@),
            Operation::ExitScope => OperationView::ExitScope,
        }
    }
}

/// What an [`OperationResult`] says, apart from how its payload is stored.
pub enum OperationResultView {
    ReadValue(Option<Value>),
    Segment(Relocatable),
    Success,
}

/// The answer of the coordinator to one request.
#[derive(Debug, PartialEq, Eq)]
pub enum OperationResult {
    /// What the cell that was read holds; nothing where it was never
    /// written.
    ReadValue(Option<MaybeRelocatable>),
    /// The first address of the new segment.
    Segment(Relocatable),
    /// The request was carried out.
    Success,
}

impl View for OperationResult {
    type V = OperationResultView;

    open spec fn view(&self) -> OperationResultView {
        match self {
            OperationResult::ReadValue(Some(value)) => OperationResultView::ReadValue(
                Some(value@),
            ),
            OperationResult::ReadValue(None) => OperationResultView::ReadValue(None),
            OperationResult::Segment(address) => OperationResultView::Segment(*address),
            OperationResult::Success => OperationResultView::Success,
        }
    }
}

impl OperationResult {
    /// Whether the request was carried out, for a worker that waits for the
    /// answer to a write.
    pub fn is_success(&self) -> (yes: bool)
        ensures
            yes == (self@ is Success),
    {
        match self {
            OperationResult::Success => true,
            _ => false,
        }
    }

    /// The address of the new segment, for a worker that waits for the
    /// answer to `AddSegment`.
    pub fn segment(&self) -> (base: Option<Relocatable>)
        ensures
            base == match self@ {
                OperationResultView::Segment(address) => Some(address),
                _ => None,
            },
    {
        match self {
            OperationResult::Segment(address) => Some(*address),
            _ => None,
        }
    }

    /// What was read, for a worker that waits for the answer to a read:
    /// the value or its absence, and nothing at all for another answer.
    pub fn read_value(&self) -> (read: Option<Option<&MaybeRelocatable>>)
        ensures
            match read {
                Some(Some(value)) => self@ == OperationResultView::ReadValue(Some(value@)),
                Some(None) => self@ == OperationResultView::ReadValue(None),
                None => !(self@ is ReadValue),
            },
    {
        match self {
            OperationResult::ReadValue(Some(value)) => Some(Some(value)),
            OperationResult::ReadValue(None) => Some(None),
            _ => None,
        }
    }
}

/// What [`ScopeSignals`] hold, apart from how the frame is stored.
pub struct ScopeSignalsView {
    pub new_scope: Option<Map<Seq<char>, ScopeValueView>>,
    pub exit_scope: bool,
}

/// The scope changes that a hint asked for. They are recorded while the
/// worker runs and carried out once it has ended.
#[derive(Debug, PartialEq, Eq)]
pub struct ScopeSignals {
    /// The frame of the last `EnterScope`.
    pub new_scope: Option<ScopeFrame>,
    /// Whether there was an `ExitScope`.
    pub exit_scope: bool,
}

impl View for ScopeSignals {
    type V = ScopeSignalsView;

    open spec fn view(&self) -> ScopeSignalsView {
        ScopeSignalsView {
            new_scope: match self.new_scope {
                Some(frame) => Some(frame@),
                None => None,
            },
            exit_scope: self.exit_scope,
        }
    }
}

impl ScopeSignals {
    /// No scope change asked for.
    pub fn new() -> (signals: ScopeSignals)
        ensures
            signals@ == (ScopeSignalsView { new_scope: None, exit_scope: false }),
    {
        ScopeSignals { new_scope: None, exit_scope: false }
    }
}

/// What the coordinator holds during one hint.
pub struct SessionView {
    pub machine: MachineView,
    pub signals: ScopeSignalsView,
}

/// The memory after `values[i..]` were written to the cells from
/// `ptr + i` on, and how the writes ended: the first failure stops them.
pub open spec fn write_values(memory: MemoryView, ptr: Relocatable, values: Seq<Value>, i: int) -> (
    MemoryView,
    Result<(), MemoryError>,
)
    decreases values.len() - i,
{
    if i < 0 || i >= values.len() {
        (memory, Ok(()))
    } else if ptr.offset + i > usize::MAX {
        (memory, Err(MemoryError::AddressNotRelocatable))
    } else {
        let (written, result) = memory.insert(ptr.spec_add(i), values[i]);
        if result is Err {
            (written, result)
        } else {
            write_values(written, ptr, values, i + 1)
        }
    }
}

/// What a write makes of the session, and the answer to it.
pub open spec fn after_write(session: SessionView, outcome: (MemoryView, Result<(), MemoryError>)) -> (
    SessionView,
    Result<Option<OperationResultView>, HintError>,
) {
    (
        SessionView { machine: MachineView { memory: outcome.0, ..session.machine }, ..session },
        match outcome.1 {
            Ok(()) => Ok(Some(OperationResultView::Success)),
            Err(e) => Err(HintError::Memory(e)),
        },
    )
}

/// What one request makes of the session, and what the coordinator answers:
/// a result, nothing after `End`, or the failure of the hint.
///
/// Scope changes are only recorded here. A later `EnterScope` replaces an
/// earlier one. A segment past the largest index an address can name is not
/// handed out.
pub open spec fn step(
    session: SessionView,
    ids: Map<Seq<char>, HintReference>,
    operation: OperationView,
) -> (SessionView, Result<Option<OperationResultView>, HintError>) {
    let machine = session.machine;
    match operation {
        OperationView::End => (session, Ok(None)),
        OperationView::AddSegment => if machine.num_segments >= isize::MAX {
            (session, Err(HintError::Memory(MemoryError::AddressNotRelocatable)))
        } else {
            (
                SessionView {
                    machine: MachineView {
                        memory: MemoryView {
                            num_segments: machine.memory.num_segments + 1,
                            ..machine.memory
                        },
                        num_segments: (machine.num_segments + 1) as usize,
                        ..machine
                    },
                    ..session
                },
                Ok(
                    Some(
                        OperationResultView::Segment(
                            Relocatable {
                                segment_index: machine.num_segments as isize,
                                offset: 0,
                            },
                        ),
                    ),
                ),
            )
        },
        OperationView::ReadMemory(address) => (
            session,
            Ok(
                Some(
                    OperationResultView::ReadValue(
                        if machine.memory.cells.contains_key(address) {
                            Some(machine.memory.cells[address])
                        } else {
                            None
                        },
                    ),
                ),
            ),
        ),
        OperationView::WriteMemory(address, value) => after_write(
            session,
            machine.memory.insert(address, value),
        ),
        OperationView::ReadIds(name) => (
            session,
            match resolve_identifier(ids, machine.run_context, name) {
                Some(address) if machine.memory.cells.contains_key(address) => Ok(
                    Some(OperationResultView::ReadValue(Some(machine.memory.cells[address]))),
                ),
                _ => Err(HintError::MissingIdentifier),
            },
        ),
        OperationView::WriteIds(name, value) => match resolve_identifier(
            ids,
            machine.run_context,
            name,
        ) {
            Some(address) => after_write(session, machine.memory.insert(address, value)),
            None => (session, Err(HintError::MissingIdentifier)),
        },
        OperationView::WriteVecArg(ptr, values) => after_write(
            session,
            write_values(machine.memory, ptr, values, 0),
        ),
        OperationView::EnterScope(frame) => (
            SessionView {
                signals: ScopeSignalsView { new_scope: Some(frame), ..session.signals },
                ..session
            },
            Ok(Some(OperationResultView::Success)),
        ),
        OperationView::ExitScope => (
            SessionView {
                signals: ScopeSignalsView { exit_scope: true, ..session.signals },
                ..session
            },
            Ok(Some(OperationResultView::Success)),
        ),
    }
}

/// An answer of the coordinator, apart from how its payload is stored.
pub open spec fn reply_view(reply: Result<Option<OperationResult>, HintError>) -> Result<
    Option<OperationResultView>,
    HintError,
> {
    match reply {
        Ok(Some(result)) => Ok(Some(result@)),
        Ok(None) => Ok(None),
        Err(e) => Err(e),
    }
}

/// Whether `result` is the kind of answer that `operation` calls for.
pub open spec fn answers(operation: OperationView, result: OperationResultView) -> bool {
    match operation {
        OperationView::AddSegment => result is Segment,
        OperationView::ReadMemory(_) | OperationView::ReadIds(_) => result is ReadValue,
        OperationView::WriteMemory(_, _)
        | OperationView::WriteIds(_, _)
        | OperationView::WriteVecArg(_, _)
        | OperationView::EnterScope(_)
        | OperationView::ExitScope => result is Success,
        OperationView::End => false,
    }
}

/// Writes `values` to the cells from `ptr` on, one after another, and stops
/// at the first write that fails.
pub fn write_vec_args(memory: &mut Memory, ptr: &Relocatable, values: &Vec<MaybeRelocatable>) -> (done:
    Result<(), MemoryError>)
    ensures
        (final(memory)@, done) == write_values(old(memory)@, *ptr, values_view(values@), 0),
{
    let ghost start = memory@;
    let ghost all = values_view(values@);
    let mut i: usize = 0;
    while i < values.len()
        invariant
            i <= values.len(),
            start == old(memory)@,
            all == values_view(values@),
            write_values(start, *ptr, all, 0) == write_values(memory@, *ptr, all, i as int),
        decreases values.len() - i,
    {
        let address = match ptr.add_usize(i) {
            Some(address) => address,
            None => return Err(MemoryError::AddressNotRelocatable),
        };
        match memory.insert(&address, &values[i]) {
            Ok(()) => {},
            Err(e) => return Err(e),
        }
        i += 1;
    }
    Ok(())
}

/// Serves one request of the worker: carries it out on the machine, records
/// a scope change, and returns the answer to send back; after `End` there is
/// none. A failure fails the hint.
pub fn handle_operation(
    ids_data: &IdsData,
    vm: &mut VirtualMachine,
    signals: &mut ScopeSignals,
    operation: &Operation,
) -> (reply: Result<Option<OperationResult>, HintError>)
    ensures
        (SessionView { machine: final(vm)@, signals: final(signals)@ }, reply_view(reply)) == step(
            SessionView { machine: old(vm)@, signals: old(signals)@ },
            ids_data@,
            operation@,
        ),
        reply matches Ok(Some(result)) ==> answers(operation@, result@),
        reply matches Ok(None) ==> operation@ is End,
{
    match operation {
        Operation::End => Ok(None),
        Operation::ReadMemory(address) => {
            let value = match vm.memory.get(address) {
                Some(value) => Some(value.clone()),
                None => None,
            };
            Ok(Some(OperationResult::ReadValue(value)))
        },
        Operation::WriteMemory(key, value) => match vm.memory.insert(key, value) {
            Ok(()) => Ok(Some(OperationResult::Success)),
            Err(e) => Err(HintError::Memory(e)),
        },
        Operation::AddSegment => {
            if vm.segments.num_segments >= isize::MAX as usize {
                return Err(HintError::Memory(MemoryError::AddressNotRelocatable));
            }
            let base = vm.segments.add(&mut vm.memory);
            Ok(Some(OperationResult::Segment(base)))
        },
        Operation::ReadIds(name) => {
            let address = match ids_data.get(name) {
                Some(reference) => compute_addr_from_reference(&reference, &vm.run_context),
                None => None,
            };
            match address {
                Some(address) => match vm.memory.get(&address) {
                    Some(value) => Ok(Some(OperationResult::ReadValue(Some(value.clone())))),
                    None => Err(HintError::MissingIdentifier),
                },
                None => Err(HintError::MissingIdentifier),
            }
        },
        Operation::WriteIds(name, value) => {
            let address = match ids_data.get(name) {
                Some(reference) => compute_addr_from_reference(&reference, &vm.run_context),
                None => None,
            };
            match address {
                Some(address) => match vm.memory.insert(&address, value) {
                    Ok(()) => Ok(Some(OperationResult::Success)),
                    Err(e) => Err(HintError::Memory(e)),
                },
                None => Err(HintError::MissingIdentifier),
            }
        },
        Operation::WriteVecArg(ptr, arg) => match write_vec_args(&mut vm.memory, ptr, arg) {
            Ok(()) => Ok(Some(OperationResult::Success)),
            Err(e) => Err(HintError::Memory(e)),
        },
        Operation::ExitScope => {
            signals.exit_scope = true;
            Ok(Some(OperationResult::Success))
        },
        Operation::EnterScope(scope) => {
            signals.new_scope = Some(scope.clone());
            Ok(Some(OperationResult::Success))
        },
    }
}

/// The requests of a list, each apart from how it is stored.
pub open spec fn operations_view(operations: Seq<Operation>) -> Seq<OperationView> {
    Seq::new(operations.len(), |i: int| operations[i]@)
}

/// The answers of a list, each apart from how it is stored.
pub open spec fn results_view(results: Seq<OperationResult>) -> Seq<OperationResultView> {
    Seq::new(results.len(), |i: int| results[i]@)
}

/// How a session went: what it left of machine and signals, the answers in
/// the order they were given, and whether it came to its `End`.
pub struct SessionRun {
    pub session: SessionView,
    pub replies: Seq<OperationResultView>,
    pub ended: Result<(), HintError>,
}

/// The session in which the worker sends `operations[i..]` in order.
///
/// Each request is answered before the next is looked at. `End` closes the
/// session and what follows it is never read. A request that fails closes it
/// too, with the failure. A worker that stops sending without `End` has
/// broken the channel.
pub open spec fn run_operations(
    session: SessionView,
    ids: Map<Seq<char>, HintReference>,
    operations: Seq<OperationView>,
    i: int,
) -> SessionRun
    decreases operations.len() - i,
{
    if i < 0 || i >= operations.len() {
        SessionRun { session, replies: Seq::empty(), ended: Err(HintError::ChannelError) }
    } else {
        let (next, reply) = step(session, ids, operations[i]);
        match reply {
            Ok(None) => SessionRun { session: next, replies: Seq::empty(), ended: Ok(()) },
            Ok(Some(result)) => {
                let rest = run_operations(next, ids, operations, i + 1);
                SessionRun { replies: seq![result] + rest.replies, ..rest }
            },
            Err(e) => SessionRun { session: next, replies: Seq::empty(), ended: Err(e) },
        }
    }
}

/// Serves the requests of a whole session, as the worker sent them, until
/// `End` or the first failure. Returns every answer given, in order, and the
/// recorded scope changes or the failure.
pub fn handle_messages(
    ids_data: &IdsData,
    operations: &Vec<Operation>,
    vm: &mut VirtualMachine,
) -> (served: (Vec<OperationResult>, Result<ScopeSignals, HintError>))
    ensures
        ({
            let run = run_operations(
                SessionView {
                    machine: old(vm)@,
                    signals: ScopeSignalsView { new_scope: None, exit_scope: false },
                },
                ids_data@,
                operations_view(operations@),
                0,
            );
            &&& final(vm)@ == run.session.machine
            &&& results_view(served.0@) == run.replies
            &&& match served.1 {
                Ok(signals) => run.ended is Ok && signals@ == run.session.signals,
                Err(e) => run.ended == Err::<(), HintError>(e),
            }
        }),
{
    let ghost all = operations_view(operations@);
    let ghost whole = run_operations(
        SessionView {
            machine: vm@,
            signals: ScopeSignalsView { new_scope: None, exit_scope: false },
        },
        ids_data@,
        all,
        0,
    );
    let mut signals = ScopeSignals::new();
    let mut replies: Vec<OperationResult> = Vec::new();
    let mut i: usize = 0;
    assert(results_view(replies@) + whole.replies =~= whole.replies);
    while i < operations.len()
        invariant
            i <= operations.len(),
            all == operations_view(operations@),
            ({
                let rest = run_operations(
                    SessionView { machine: vm@, signals: signals@ },
                    ids_data@,
                    all,
                    i as int,
                );
                whole == (SessionRun { replies: results_view(replies@) + rest.replies, ..rest })
            }),
            whole == run_operations(
                SessionView {
                    machine: old(vm)@,
                    signals: ScopeSignalsView { new_scope: None, exit_scope: false },
                },
                ids_data@,
                all,
                0,
            ),
        decreases operations.len() - i,
    {
        let ghost before = results_view(replies@);
        match handle_operation(ids_data, vm, &mut signals, &operations[i]) {
            Ok(Some(result)) => {
                replies.push(result);
                proof {
                    let rest = run_operations(
                        SessionView { machine: vm@, signals: signals@ },
                        ids_data@,
                        all,
                        i as int + 1,
                    );
                    assert(results_view(replies@) + rest.replies =~= before + (seq![result@]
                        + rest.replies));
                }
            },
            Ok(None) => {
                assert(before + Seq::<OperationResultView>::empty() =~= before);
                return (replies, Ok(signals));
            },
            Err(e) => {
                assert(before + Seq::<OperationResultView>::empty() =~= before);
                return (replies, Err(e));
            },
        }
        i += 1;
    }
    assert(results_view(replies@) + Seq::<OperationResultView>::empty() =~= results_view(
        replies@,
    ));
    (replies, Err(HintError::ChannelError))
}

/// What is seen to cross the bridge: a request of the worker or an answer of
/// the coordinator.
pub enum Event {
    Request(OperationView),
    Response(OperationResultView),
}

/// The record of a session in which the worker sent `operations` and the
/// coordinator gave `replies`: request and answer in turn, and at the end
/// the request that got no answer, if there was one.
pub open spec fn session_trace(
    operations: Seq<OperationView>,
    replies: Seq<OperationResultView>,
) -> Seq<Event> {
    Seq::new(
        2 * replies.len() + if replies.len() < operations.len() {
            1nat
        } else {
            0nat
        },
        |k: int|
            if k % 2 == 0 {
                Event::Request(operations[k / 2])
            } else {
                Event::Response(replies[k / 2])
            },
    )
}

/// Every answer in `trace` comes right after a request and is the kind of
/// answer that this request calls for, and no request is followed by
/// another request: at most one is ever open.
pub open spec fn respects_happens_before(trace: Seq<Event>) -> bool {
    &&& forall|k: int|
        0 <= k < trace.len() && #[trigger] trace[k] is Response ==> k > 0 && match trace[k - 1] {
            Event::Request(operation) => answers(operation, trace[k]->Response_0),
            Event::Response(_) => false,
        }
    &&& forall|k: int|
        0 <= k < trace.len() - 1 && #[trigger] trace[k] is Request ==> trace[k + 1] is Response
}

/// The answers of a session match its requests one by one, and there is
/// never an answer more than there are requests.
pub proof fn lemma_replies_answer_requests(
    session: SessionView,
    ids: Map<Seq<char>, HintReference>,
    operations: Seq<OperationView>,
    i: int,
)
    requires
        0 <= i <= operations.len(),
    ensures
        ({
            let run = run_operations(session, ids, operations, i);
            &&& run.replies.len() <= operations.len() - i
            &&& forall|k: int|
                0 <= k < run.replies.len() ==> answers(
                    #[trigger] operations[i + k],
                    run.replies[k],
                )
            &&& run.ended is Ok ==> run.replies.len() < operations.len() - i && operations[i
                + run.replies.len()] is End
        }),
    decreases operations.len() - i,
{
    if i < operations.len() {
        let (next, reply) = step(session, ids, operations[i]);
        match reply {
            Ok(Some(result)) => {
                lemma_replies_answer_requests(next, ids, operations, i + 1);
                let run = run_operations(session, ids, operations, i);
                let rest = run_operations(next, ids, operations, i + 1);
                assert(run.replies =~= seq![result] + rest.replies);
                assert forall|k: int| 0 <= k < run.replies.len() implies answers(
                    #[trigger] operations[i + k],
                    run.replies[k],
                ) by {
                    if k > 0 {
                        assert(run.replies[k] == rest.replies[k - 1]);
                        assert(operations[i + k] == operations[(i + 1) + (k - 1)]);
                    }
                }
            },
            _ => {},
        }
    }
}

/// The record of every session respects happens-before.
///
/// Whatever the machine, the identifiers and the requests: each answer of
/// the session corresponds to the request right before it, and no answer is
/// seen without its request.
pub proof fn lemma_trace_respects_happens_before(
    session: SessionView,
    ids: Map<Seq<char>, HintReference>,
    operations: Seq<OperationView>,
)
    ensures
        respects_happens_before(
            session_trace(operations, run_operations(session, ids, operations, 0).replies),
        ),
{
    lemma_replies_answer_requests(session, ids, operations, 0);
    let replies = run_operations(session, ids, operations, 0).replies;
    let trace = session_trace(operations, replies);
    assert forall|k: int| 0 <= k < trace.len() && #[trigger] trace[k] is Response implies k > 0
        && match trace[k - 1] {
        Event::Request(operation) => answers(operation, trace[k]->Response_0),
        Event::Response(_) => false,
    } by {
        assert(k % 2 == 1);
        assert((k - 1) / 2 == k / 2);
        assert(answers(operations[0 + k / 2], replies[k / 2]));
    }
}

/// What was written is what is read.
///
/// Whatever the machine: where the write of `value` to `address` succeeds,
/// a read of `address` right after it is answered with `value`.
pub proof fn lemma_write_then_read(
    session: SessionView,
    ids: Map<Seq<char>, HintReference>,
    address: Relocatable,
    value: Value,
)
    ensures
        ({
            let (wrote, write_reply) = step(
                session,
                ids,
                OperationView::WriteMemory(address, value),
            );
            let (read, read_reply) = step(
                wrote,
                ids,
                OperationView::ReadMemory(address),
            );
            write_reply is Ok ==> {
                &&& write_reply == Ok::<Option<OperationResultView>, HintError>(
                    Some(OperationResultView::Success),
                )
                &&& read_reply == Ok::<Option<OperationResultView>, HintError>(
                    Some(OperationResultView::ReadValue(Some(value))),
                )
                &&& read == wrote
            }
        }),
{
}

/// The scopes after a hint has run: the variables that the worker left are
/// merged into the top frame by name, then the recorded scope changes are
/// carried out, an enter before an exit. An exit that fails leaves the
/// scopes as they were before it.
pub open spec fn apply_scope_changes(
    stack: Seq<Map<Seq<char>, ScopeValueView>>,
    new_vars: Map<Seq<char>, ScopeValueView>,
    signals: ScopeSignalsView,
) -> (Seq<Map<Seq<char>, ScopeValueView>>, Result<(), HintError>) {
    let merged = stack.update(stack.len() - 1, stack.last().union_prefer_right(new_vars));
    let entered = match signals.new_scope {
        Some(frame) => enter(merged, frame),
        None => merged,
    };
    if signals.exit_scope {
        match exit(entered) {
            Ok(left) => (left, Ok(())),
            Err(e) => (entered, Err(e)),
        }
    } else {
        (entered, Ok(()))
    }
}

/// A scope entered by one hint and left by a later one is gone without a
/// trace.
///
/// Whatever the stack and the variables: if a hint asks to enter a scope and
/// the next hint asks to leave it, both succeed, and the scopes are then as
/// the first hint would have left them without entering. What the second
/// hint left in the inner scope is dropped with it.
pub proof fn lemma_enter_then_exit_across_hints(
    stack: Seq<Map<Seq<char>, ScopeValueView>>,
    first_vars: Map<Seq<char>, ScopeValueView>,
    frame: Map<Seq<char>, ScopeValueView>,
    second_vars: Map<Seq<char>, ScopeValueView>,
)
    requires
        stack.len() >= 1,
    ensures
        ({
            let entered = apply_scope_changes(
                stack,
                first_vars,
                ScopeSignalsView { new_scope: Some(frame), exit_scope: false },
            );
            let left = apply_scope_changes(
                entered.0,
                second_vars,
                ScopeSignalsView { new_scope: None, exit_scope: true },
            );
            let plain = apply_scope_changes(
                stack,
                first_vars,
                ScopeSignalsView { new_scope: None, exit_scope: false },
            );
            &&& entered.1 == Ok::<(), HintError>(())
            &&& left.1 == Ok::<(), HintError>(())
            &&& plain.1 == Ok::<(), HintError>(())
            &&& left.0 == plain.0
        }),
{
    let merged = stack.update(stack.len() - 1, stack.last().union_prefer_right(first_vars));
    let entered = merged.push(frame);
    let again = entered.update(entered.len() - 1, entered.last().union_prefer_right(second_vars));
    assert(again.drop_last() =~= merged);
}

/// What a hint left behind: the machine, the answers given in order, the
/// scopes, and whether the hint succeeded.
pub struct HintOutcome {
    pub machine: MachineView,
    pub replies: Seq<OperationResultView>,
    pub scopes: Seq<Map<Seq<char>, ScopeValueView>>,
    pub result: Result<(), HintError>,
}

/// What a hint does whose worker sends `operations` and leaves the variables
/// `new_vars`: the requests are served in order until `End`, then the
/// variables are merged into the top frame and the recorded scope changes
/// carried out. A session that fails leaves the scopes untouched.
pub open spec fn hint(
    machine: MachineView,
    ids: Map<Seq<char>, HintReference>,
    operations: Seq<OperationView>,
    new_vars: Map<Seq<char>, ScopeValueView>,
    scopes: Seq<Map<Seq<char>, ScopeValueView>>,
) -> HintOutcome {
    let run = run_operations(
        SessionView { machine, signals: ScopeSignalsView { new_scope: None, exit_scope: false } },
        ids,
        operations,
        0,
    );
    match run.ended {
        Ok(()) => {
            let applied = apply_scope_changes(scopes, new_vars, run.session.signals);
            HintOutcome {
                machine: run.session.machine,
                replies: run.replies,
                scopes: applied.0,
                result: applied.1,
            }
        },
        Err(e) => HintOutcome {
            machine: run.session.machine,
            replies: run.replies,
            scopes,
            result: Err(e),
        },
    }
}

/// The scopes with `new_vars` merged into the top frame, by name.
pub open spec fn merged(
    scopes: Seq<Map<Seq<char>, ScopeValueView>>,
    new_vars: Map<Seq<char>, ScopeValueView>,
) -> Seq<Map<Seq<char>, ScopeValueView>> {
    scopes.update(scopes.len() - 1, scopes.last().union_prefer_right(new_vars))
}

/// A hint that writes a cell and reads it back reads what it wrote.
///
/// Whatever the machine: a worker that writes `value` to `address`, reads
/// `address` and ends is answered with `Success` and then with `value`,
/// provided the write is one that memory accepts. The hint succeeds, the
/// cell holds the value, no other cell changes, and the scopes keep their
/// depth. Where memory refuses the write, the hint fails with that refusal,
/// no answer is given, and machine and scopes are as before.
pub proof fn lemma_write_then_read_hint(
    machine: MachineView,
    ids: Map<Seq<char>, HintReference>,
    address: Relocatable,
    value: Value,
    new_vars: Map<Seq<char>, ScopeValueView>,
    scopes: Seq<Map<Seq<char>, ScopeValueView>>,
)
    ensures
        ({
            let operations = seq![
                OperationView::WriteMemory(address, value),
                OperationView::ReadMemory(address),
                OperationView::End,
            ];
            let outcome = hint(machine, ids, operations, new_vars, scopes);
            match machine.memory.insert(address, value).1 {
                Ok(()) => outcome == (HintOutcome {
                    machine: MachineView { memory: machine.memory.store(address, value), ..machine },
                    replies: seq![
                        OperationResultView::Success,
                        OperationResultView::ReadValue(Some(value)),
                    ],
                    scopes: merged(scopes, new_vars),
                    result: Ok(()),
                }),
                Err(e) => outcome == (HintOutcome {
                    machine,
                    replies: Seq::empty(),
                    scopes,
                    result: Err(HintError::Memory(e)),
                }),
            }
        }),
{
    let operations = seq![
        OperationView::WriteMemory(address, value),
        OperationView::ReadMemory(address),
        OperationView::End,
    ];
    let start = SessionView {
        machine,
        signals: ScopeSignalsView { new_scope: None, exit_scope: false },
    };
    reveal_with_fuel(run_operations, 4);
    let run = run_operations(start, ids, operations, 0);
    if machine.memory.insert(address, value).1 is Ok {
        let wrote = step(start, ids, operations[0]).0;
        assert(wrote.machine == (MachineView {
            memory: machine.memory.store(address, value),
            ..machine
        }));
        assert(run.replies =~= seq![
            OperationResultView::Success,
            OperationResultView::ReadValue(Some(value)),
        ]);
    }
}

/// The requests of a worker that only asks to enter a scope.
pub open spec fn enter_session(frame: Map<Seq<char>, ScopeValueView>) -> Seq<OperationView> {
    seq![OperationView::EnterScope(frame), OperationView::End]
}

/// The requests of a worker that only asks to leave the scope.
pub open spec fn exit_session() -> Seq<OperationView> {
    seq![OperationView::ExitScope, OperationView::End]
}

/// A hint that asks to enter a scope.
///
/// Whatever the machine and the scopes: the hint succeeds and the machine is
/// untouched. The new top frame holds exactly the requested variables, the
/// frame below is the old top frame with the worker's variables merged in,
/// and the frames under it are unchanged.
pub proof fn lemma_enter_hint(
    machine: MachineView,
    ids: Map<Seq<char>, HintReference>,
    frame: Map<Seq<char>, ScopeValueView>,
    new_vars: Map<Seq<char>, ScopeValueView>,
    scopes: Seq<Map<Seq<char>, ScopeValueView>>,
)
    ensures
        hint(machine, ids, enter_session(frame), new_vars, scopes) == (HintOutcome {
            machine,
            replies: seq![OperationResultView::Success],
            scopes: enter(merged(scopes, new_vars), frame),
            result: Ok(()),
        }),
{
    let start = SessionView {
        machine,
        signals: ScopeSignalsView { new_scope: None, exit_scope: false },
    };
    reveal_with_fuel(run_operations, 3);
    let run = run_operations(start, ids, enter_session(frame), 0);
    assert(run.replies =~= seq![OperationResultView::Success]);
}

/// A hint that asks to leave the scope.
///
/// Whatever the machine and the scopes: the machine is untouched and the
/// request is acknowledged. With a frame above the main one, the hint
/// succeeds and the top frame is gone, along with the variables the worker
/// left in it. With the main frame only, the hint fails with a scope
/// underflow and the main frame stays, with the worker's variables merged
/// in.
pub proof fn lemma_exit_hint(
    machine: MachineView,
    ids: Map<Seq<char>, HintReference>,
    new_vars: Map<Seq<char>, ScopeValueView>,
    scopes: Seq<Map<Seq<char>, ScopeValueView>>,
)
    ensures
        hint(machine, ids, exit_session(), new_vars, scopes) == (HintOutcome {
            machine,
            replies: seq![OperationResultView::Success],
            scopes: match exit(merged(scopes, new_vars)) {
                Ok(left) => left,
                Err(_) => merged(scopes, new_vars),
            },
            result: match exit(merged(scopes, new_vars)) {
                Ok(_) => Ok(()),
                Err(e) => Err(e),
            },
        }),
        scopes.len() >= 2 ==> exit(merged(scopes, new_vars)) == Ok::<
            Seq<Map<Seq<char>, ScopeValueView>>,
            HintError,
        >(scopes.drop_last()),
{
    let start = SessionView {
        machine,
        signals: ScopeSignalsView { new_scope: None, exit_scope: false },
    };
    reveal_with_fuel(run_operations, 3);
    let run = run_operations(start, ids, exit_session(), 0);
    assert(run.replies =~= seq![OperationResultView::Success]);
    if scopes.len() >= 2 {
        assert(merged(scopes, new_vars).drop_last() =~= scopes.drop_last());
    }
}

/// The scopes after one hint for each frame of `frames` asked to enter a
/// scope with that frame, the worker leaving no variables.
pub open spec fn scopes_after_enter_hints(
    machine: MachineView,
    ids: Map<Seq<char>, HintReference>,
    scopes: Seq<Map<Seq<char>, ScopeValueView>>,
    frames: Seq<Map<Seq<char>, ScopeValueView>>,
) -> Seq<Map<Seq<char>, ScopeValueView>>
    decreases frames.len(),
{
    if frames.len() == 0 {
        scopes
    } else {
        hint(
            machine,
            ids,
            enter_session(frames.last()),
            Map::empty(),
            scopes_after_enter_hints(machine, ids, scopes, frames.drop_last()),
        ).scopes
    }
}

/// The scopes after `n` hints in a row asked to leave the scope, the worker
/// leaving no variables, and how the last of them ended; the first hint that
/// fails is the last.
pub open spec fn scopes_after_exit_hints(
    machine: MachineView,
    ids: Map<Seq<char>, HintReference>,
    scopes: Seq<Map<Seq<char>, ScopeValueView>>,
    n: nat,
) -> (Seq<Map<Seq<char>, ScopeValueView>>, Result<(), HintError>)
    decreases n,
{
    if n == 0 {
        (scopes, Ok(()))
    } else {
        let outcome = hint(machine, ids, exit_session(), Map::empty(), scopes);
        if outcome.result is Err {
            (outcome.scopes, outcome.result)
        } else {
            scopes_after_exit_hints(machine, ids, outcome.scopes, (n - 1) as nat)
        }
    }
}

/// Hints that enter scopes stack them up in order.
pub proof fn lemma_enter_hints_stack_up(
    machine: MachineView,
    ids: Map<Seq<char>, HintReference>,
    scopes: Seq<Map<Seq<char>, ScopeValueView>>,
    frames: Seq<Map<Seq<char>, ScopeValueView>>,
)
    requires
        scopes.len() >= 1,
    ensures
        scopes_after_enter_hints(machine, ids, scopes, frames) == scopes + frames,
    decreases frames.len(),
{
    if frames.len() == 0 {
        assert(scopes + frames =~= scopes);
    } else {
        lemma_enter_hints_stack_up(machine, ids, scopes, frames.drop_last());
        let inner = scopes + frames.drop_last();
        lemma_enter_hint(machine, ids, frames.last(), Map::empty(), inner);
        assert(inner.last().union_prefer_right(Map::<Seq<char>, ScopeValueView>::empty()) =~= inner.last());
        assert(merged(inner, Map::empty()) =~= inner);
        assert(inner.push(frames.last()) =~= scopes + frames);
    }
}

/// Scopes nest through hints, to any depth.
///
/// Whatever the machine, the scopes and the depth: after one hint for each
/// frame of `frames` entered a scope, as many hints that each leave one all
/// succeed, and the scopes are then exactly as before the nesting: the same
/// depth, the same frames, the same variables.
pub proof fn lemma_hints_nest_and_restore(
    machine: MachineView,
    ids: Map<Seq<char>, HintReference>,
    scopes: Seq<Map<Seq<char>, ScopeValueView>>,
    frames: Seq<Map<Seq<char>, ScopeValueView>>,
)
    requires
        scopes.len() >= 1,
    ensures
        scopes_after_exit_hints(
            machine,
            ids,
            scopes_after_enter_hints(machine, ids, scopes, frames),
            frames.len(),
        ) == (scopes, Ok::<(), HintError>(())),
    decreases frames.len(),
{
    lemma_enter_hints_stack_up(machine, ids, scopes, frames);
    if frames.len() > 0 {
        let nested = scopes + frames;
        let inner = scopes + frames.drop_last();
        lemma_enter_hints_stack_up(machine, ids, scopes, frames.drop_last());
        lemma_hints_nest_and_restore(machine, ids, scopes, frames.drop_last());
        lemma_exit_hint(machine, ids, Map::empty(), nested);
        assert(nested.drop_last() =~= inner);
    }
}

/// One exit too many, asked for by a hint, fails.
///
/// With the main frame only before the nesting: after one hint for each
/// frame of `frames` entered a scope and as many hints each left one, a
/// further hint that asks to leave fails with a scope underflow, and the
/// main frame stays as it was.
pub proof fn lemma_hints_underflow_after_nesting(
    machine: MachineView,
    ids: Map<Seq<char>, HintReference>,
    scopes: Seq<Map<Seq<char>, ScopeValueView>>,
    frames: Seq<Map<Seq<char>, ScopeValueView>>,
)
    requires
        scopes.len() == 1,
    ensures
        scopes_after_exit_hints(
            machine,
            ids,
            scopes_after_enter_hints(machine, ids, scopes, frames),
            frames.len() + 1,
        ) == (scopes, Err::<(), HintError>(HintError::ScopeUnderflow)),
    decreases frames.len(),
{
    lemma_enter_hints_stack_up(machine, ids, scopes, frames);
    if frames.len() == 0 {
        assert(scopes + frames =~= scopes);
        lemma_exit_hint(machine, ids, Map::empty(), scopes);
        assert(scopes.last().union_prefer_right(Map::<Seq<char>, ScopeValueView>::empty())
            =~= scopes.last());
        assert(merged(scopes, Map::empty()) =~= scopes);
    } else {
        let nested = scopes + frames;
        let inner = scopes + frames.drop_last();
        lemma_enter_hints_stack_up(machine, ids, scopes, frames.drop_last());
        lemma_hints_underflow_after_nesting(machine, ids, scopes, frames.drop_last());
        lemma_exit_hint(machine, ids, Map::empty(), nested);
        assert(nested.drop_last() =~= inner);
    }
}

/// The variables that a hint starts with: a copy of the top frame.
pub fn get_py_scope(exec_scopes: &ExecutionScopes) -> (py_scope: ScopeFrame)
    ensures
        py_scope@ == exec_scopes@.last(),
{
    exec_scopes.get_local_variables().clone()
}

/// Merges the variables that the worker left into the top frame, by name.
pub fn update_scope(exec_scopes: &mut ExecutionScopes, new_scope_variables: &ScopeFrame)
    ensures
        final(exec_scopes)@ == old(exec_scopes)@.update(
            old(exec_scopes)@.len() - 1,
            old(exec_scopes)@.last().union_prefer_right(new_scope_variables@),
        ),
{
    exec_scopes.merge_variables(new_scope_variables);
}

/// Enters a scope with a copy of the variables of `new_scope`.
pub fn enter_scope(exec_scopes: &mut ExecutionScopes, new_scope: &ScopeFrame)
    ensures
        final(exec_scopes)@ == enter(old(exec_scopes)@, new_scope@),
{
    exec_scopes.enter_scope(new_scope.clone());
}

/// The coordinator of hint executions.
#[derive(Debug, PartialEq, Eq)]
pub struct PythonExecutor {}

impl PythonExecutor {
    /// Ends a hint whose worker has finished: merges the variables it left
    /// into the top frame, then carries out the recorded scope changes.
    pub fn apply_scope_changes(
        exec_scopes: &mut ExecutionScopes,
        new_vars: &ScopeFrame,
        signals: &ScopeSignals,
    ) -> (applied: Result<(), HintError>)
        ensures
            (final(exec_scopes)@, applied) == apply_scope_changes(
                old(exec_scopes)@,
                new_vars@,
                signals@,
            ),
            old(exec_scopes)@.len() >= 1,
            final(exec_scopes)@.len() >= 1,
    {
        proof {
            exec_scopes.lemma_never_empty();
        }
        update_scope(exec_scopes, new_vars);
        let ghost merged = exec_scopes@;
        match &signals.new_scope {
            Some(scope) => {
                enter_scope(exec_scopes, scope);
            },
            None => {},
        }
        assert(exec_scopes@ == match signals@.new_scope {
            Some(frame) => enter(merged, frame),
            None => merged,
        });
        if signals.exit_scope {
            match exec_scopes.exit_scope() {
                Ok(()) => Ok(()),
                Err(e) => Err(e),
            }
        } else {
            Ok(())
        }
    }

    /// Executes a hint of which the worker's side is known: the requests it
    /// sent, in order, and the variables it left.
    ///
    /// The requests are served on `vm` until `End`. Then the variables are
    /// merged into the top frame and the recorded scope changes carried out.
    /// A session that fails leaves the scopes untouched. Every answer given
    /// is returned, in order.
    pub fn execute_hint(
        vm: &mut VirtualMachine,
        hint_data: &HintProcessorData,
        operations: &Vec<Operation>,
        new_vars: &ScopeFrame,
        exec_scopes: &mut ExecutionScopes,
    ) -> (executed: (Vec<OperationResult>, Result<(), HintError>))
        ensures
            hint(
                old(vm)@,
                hint_data.ids_data@,
                operations_view(operations@),
                new_vars@,
                old(exec_scopes)@,
            ) == (HintOutcome {
                machine: final(vm)@,
                replies: results_view(executed.0@),
                scopes: final(exec_scopes)@,
                result: executed.1,
            }),
            old(exec_scopes)@.len() >= 1,
            final(exec_scopes)@.len() >= 1,
    {
        proof {
            exec_scopes.lemma_never_empty();
        }
        let (replies, served) = handle_messages(&hint_data.ids_data, operations, vm);
        match served {
            Ok(signals) => {
                let applied = PythonExecutor::apply_scope_changes(exec_scopes, new_vars, &signals);
                (replies, applied)
            },
            Err(e) => (replies, Err(e)),
        }
    }
}

} // verus!
