use crate::error::{ContractError, ContractErrorView, StdError};
use crate::msg::{
    action_views, call_views, duplicate_calls, duplicate_text, replacer_views, text_of, Call,
    CallAction, CallActionView, CallView, ReplaceInfo, ReplaceInfoView,
};
use crate::order::{
    canonical, insertion_point, lemma_canonical_same_actions, lemma_insertion_point_bounds,
    sort_actions,
};
use crate::storage::{Storage, StorageView};
use vstd::prelude::*;

verus! {

/// The batch: the calls that are left to run, the cursor that marks the next
/// one, and where funds go that a failure leaves behind.
#[derive(Debug, PartialEq, Eq)]
pub struct MulticallState {
    pub(crate) current: u64,
    pub calls: Vec<Call>,
    pub fallback_address: Option<String>,
}

pub struct MulticallStateView {
    pub current: nat,
    pub calls: Seq<CallView>,
    pub fallback_address: Option<Seq<char>>,
}

impl View for MulticallState {
    type V = MulticallStateView;

    closed spec fn view(&self) -> MulticallStateView {
        MulticallStateView {
            current: self.current as nat,
            calls: call_views(self.calls@),
            fallback_address: text_of(self.fallback_address),
        }
    }
}

impl MulticallStateView {
    /// Whether the batch is as a batch must be: it holds a call, its cursor
    /// lies within its calls or just past them, and it is valid.
    pub open spec fn well_formed(self) -> bool {
        &&& self.calls.len() > 0
        &&& self.current <= self.calls.len()
        &&& batch_error(self.calls, self.fallback_address) is None
    }
}

/// Whether a pointer is well formed: not empty, and starting with `/`.
pub open spec fn valid_replacer(pointer: Seq<char>) -> bool {
    pointer.len() > 0 && pointer[0] == '/'
}

/// How many of the actions register a transfer for tracking.
pub open spec fn tracking_count(actions: Seq<CallActionView>) -> nat
    decreases actions.len(),
{
    if actions.len() == 0 {
        0
    } else {
        tracking_count(actions.drop_last()) + if actions.last() is IbcTracking {
            1nat
        } else {
            0nat
        }
    }
}

/// Whether any action of any call registers a transfer for tracking.
pub open spec fn has_tracking(calls: Seq<CallView>) -> bool {
    exists|i: int, j: int|
        0 <= i < calls.len() && 0 <= j < calls[i].actions.len()
            && #[trigger] calls[i].actions[j] is IbcTracking
}

/// Whether every pointer of the replacements is well formed.
pub open spec fn valid_replacers(replacers: Seq<ReplaceInfoView>) -> bool {
    forall|i: int|
        0 <= i < replacers.len() ==> valid_replacer((#[trigger] replacers[i]).response_pointer)
            && valid_replacer(replacers[i].replacer)
}

/// What is wrong with one action, if anything.
pub open spec fn action_error(action: CallActionView) -> Option<ContractErrorView> {
    match action {
        CallActionView::NativeBalanceFetch { replacer, .. } => if valid_replacer(replacer) {
            None
        } else {
            Some(ContractErrorView::InvalidReplacer)
        },
        CallActionView::Cw20BalanceFetch { replacer, .. } => if valid_replacer(replacer) {
            None
        } else {
            Some(ContractErrorView::InvalidReplacer)
        },
        CallActionView::CustomReplaceQuery { replacers, .. } => if valid_replacers(replacers) {
            None
        } else {
            Some(ContractErrorView::InvalidReplacer)
        },
        CallActionView::IbcTracking { amount, amount_pointer, .. } => if amount is None
            && amount_pointer is None {
            Some(ContractErrorView::EitherAmountOfPointerMustBeSet)
        } else if amount_pointer matches Some(pointer) && !valid_replacer(pointer) {
            Some(ContractErrorView::InvalidReplacer)
        } else {
            None
        },
        CallActionView::FieldToBinary { replacer } => if valid_replacer(replacer) {
            None
        } else {
            Some(ContractErrorView::InvalidReplacer)
        },
        CallActionView::FieldToProtoBinary { replacer, .. } => if valid_replacer(replacer) {
            None
        } else {
            Some(ContractErrorView::InvalidReplacer)
        },
    }
}

/// What is wrong with the first faulty action at or after `from`, if any is.
pub open spec fn actions_error(actions: Seq<CallActionView>, from: int) -> Option<ContractErrorView>
    decreases actions.len() - from,
{
    if from < 0 || from >= actions.len() {
        None
    } else if action_error(actions[from]) is Some {
        action_error(actions[from])
    } else {
        actions_error(actions, from + 1)
    }
}

/// The message with which a call with several tracking actions is refused.
pub open spec fn too_many_trackings() -> Seq<char> {
    "Only one or none IbcTracking call action entries allowed per call"@
}

/// What is wrong with one call, if anything: more than one tracking action,
/// or else its first faulty action.
pub open spec fn call_error(call: CallView) -> Option<ContractErrorView> {
    if tracking_count(call.actions) > 1 {
        Some(ContractErrorView::InvalidCallActionArgument { msg: too_many_trackings() })
    } else {
        actions_error(call.actions, 0)
    }
}

/// What is wrong with the first faulty call at or after `from`, if any is.
pub open spec fn calls_error(calls: Seq<CallView>, from: int) -> Option<ContractErrorView>
    decreases calls.len() - from,
{
    if from < 0 || from >= calls.len() {
        None
    } else if call_error(calls[from]) is Some {
        call_error(calls[from])
    } else {
        calls_error(calls, from + 1)
    }
}

/// What is wrong with a batch, if anything. A batch must hold a call; it must
/// come with a fallback address if any action asks for transfer tracking; and
/// each of its calls must be in order.
pub open spec fn batch_error(calls: Seq<CallView>, fallback_address: Option<Seq<char>>) -> Option<
    ContractErrorView,
> {
    if calls.len() == 0 {
        Some(ContractErrorView::EmptyCallsList)
    } else if has_tracking(calls) && fallback_address is None {
        Some(ContractErrorView::FallbackAddressMustBeSetForIbcTracking)
    } else {
        calls_error(calls, 0)
    }
}

/// The calls, each with its actions in canonical order.
pub open spec fn canonical_calls(calls: Seq<CallView>) -> Seq<CallView> {
    Seq::new(
        calls.len(),
        |i: int| CallView { msg: calls[i].msg, actions: canonical(calls[i].actions) },
    )
}

fn check_replacer(replacer: &String) -> (ok: bool)
    ensures
        ok == valid_replacer(replacer@),
{
    let s = replacer.as_str();
    s.unicode_len() > 0 && s.get_char(0) == '/'
}

fn check_replacers(replacers: &Vec<ReplaceInfo>) -> (ok: bool)
    ensures
        ok == valid_replacers(replacer_views(replacers@)),
{
    let mut i: usize = 0;
    while i < replacers.len()
        invariant
            i <= replacers.len(),
            forall|j: int|
                0 <= j < i ==> valid_replacer(
                    (#[trigger] replacer_views(replacers@)[j]).response_pointer,
                ) && valid_replacer(replacer_views(replacers@)[j].replacer),
        decreases replacers.len() - i,
    {
        assert(replacer_views(replacers@)[i as int] == replacers[i as int]@);
        if !check_replacer(&replacers[i].response_pointer) || !check_replacer(
            &replacers[i].replacer,
        ) {
            return false;
        }
        i += 1;
    }
    true
}

fn check_action(action: &CallAction) -> (r: Result<(), ContractError>)
    ensures
        match r {
            Ok(_) => action_error(action@) is None,
            Err(e) => action_error(action@) == Some(e@),
        },
{
    match action {
        CallAction::NativeBalanceFetch { replacer, .. } => {
            if !check_replacer(replacer) {
                return Err(ContractError::InvalidReplacer {  });
            }
        },
        CallAction::Cw20BalanceFetch { replacer, .. } => {
            if !check_replacer(replacer) {
                return Err(ContractError::InvalidReplacer {  });
            }
        },
        CallAction::CustomReplaceQuery { replacers, .. } => {
            if !check_replacers(replacers) {
                return Err(ContractError::InvalidReplacer {  });
            }
        },
        CallAction::IbcTracking { amount, amount_pointer, .. } => {
            if amount.is_none() && amount_pointer.is_none() {
                return Err(ContractError::EitherAmountOfPointerMustBeSet {  });
            }
            if let Some(pointer) = amount_pointer {
                if !check_replacer(pointer) {
                    return Err(ContractError::InvalidReplacer {  });
                }
            }
        },
        CallAction::FieldToBinary { replacer } => {
            if !check_replacer(replacer) {
                return Err(ContractError::InvalidReplacer {  });
            }
        },
        CallAction::FieldToProtoBinary { replacer, .. } => {
            if !check_replacer(replacer) {
                return Err(ContractError::InvalidReplacer {  });
            }
        },
    }
    Ok(())
}

fn count_trackings(actions: &Vec<CallAction>) -> (count: usize)
    ensures
        count == tracking_count(action_views(actions@)),
{
    let ghost all = action_views(actions@);
    let mut count: usize = 0;
    let mut i: usize = 0;
    assert(all.take(0) =~= Seq::<CallActionView>::empty());
    while i < actions.len()
        invariant
            all == action_views(actions@),
            i <= actions.len(),
            count <= i,
            count == tracking_count(all.take(i as int)),
        decreases actions.len() - i,
    {
        assert(all.take(i + 1).drop_last() =~= all.take(i as int));
        assert(all.take(i + 1).last() == actions[i as int]@);
        if let CallAction::IbcTracking { .. } = &actions[i] {
            count += 1;
        }
        i += 1;
    }
    assert(all.take(actions.len() as int) =~= all);
    count
}

fn check_call(call: &Call) -> (r: Result<(), ContractError>)
    ensures
        match r {
            Ok(_) => call_error(call@) is None,
            Err(e) => call_error(call@) == Some(e@),
        },
{
    if count_trackings(&call.actions) > 1 {
        return Err(
            ContractError::InvalidCallActionArgument {
                msg: "Only one or none IbcTracking call action entries allowed per call".to_owned(),
            },
        );
    }
    let ghost all = action_views(call.actions@);
    let mut i: usize = 0;
    while i < call.actions.len()
        invariant
            all == action_views(call.actions@),
            all == call@.actions,
            tracking_count(all) <= 1,
            i <= call.actions.len(),
            actions_error(all, 0) == actions_error(all, i as int),
        decreases call.actions.len() - i,
    {
        assert(all[i as int] == call.actions[i as int]@);
        match check_action(&call.actions[i]) {
            Err(e) => {
                return Err(e);
            },
            Ok(_) => {},
        }
        i += 1;
    }
    Ok(())
}

fn any_tracking(calls: &Vec<Call>) -> (found: bool)
    ensures
        found == has_tracking(call_views(calls@)),
{
    let ghost all = call_views(calls@);
    let mut i: usize = 0;
    while i < calls.len()
        invariant
            all == call_views(calls@),
            i <= calls.len(),
            forall|k: int, j: int|
                0 <= k < i && 0 <= j < all[k].actions.len() ==> !(#[trigger] all[k].actions[j]
                    is IbcTracking),
        decreases calls.len() - i,
    {
        let actions = &calls[i].actions;
        assert(all[i as int].actions == action_views(actions@));
        let mut j: usize = 0;
        while j < actions.len()
            invariant
                all == call_views(calls@),
                i < calls.len(),
                all[i as int].actions == action_views(actions@),
                j <= actions.len(),
                forall|l: int| 0 <= l < j ==> !(#[trigger] all[i as int].actions[l] is IbcTracking),
            decreases actions.len() - j,
        {
            assert(all[i as int].actions[j as int] == actions[j as int]@);
            if let CallAction::IbcTracking { .. } = &actions[j] {
                return true;
            }
            j += 1;
        }
        i += 1;
    }
    false
}

impl MulticallState {
    /// A state's view is its cursor, its calls and its fallback address.
    pub(crate) proof fn lemma_view(&self)
        ensures
            self@.current == self.current,
            self@.calls == call_views(self.calls@),
            self@.fallback_address == text_of(self.fallback_address),
    {
    }

    /// Creates the state of a new batch: each call's actions are put into
    /// canonical order, and the batch is validated.
    pub fn new(calls: Vec<Call>, fallback_address: Option<String>) -> (r: Result<
        MulticallState,
        ContractError,
    >)
        ensures
            match r {
                Ok(state) => {
                    &&& batch_error(
                        canonical_calls(call_views(calls@)),
                        text_of(fallback_address),
                    ) is None
                    &&& state@ == (MulticallStateView {
                        current: 0,
                        calls: canonical_calls(call_views(calls@)),
                        fallback_address: text_of(fallback_address),
                    })
                    &&& state@.well_formed()
                },
                Err(e) => batch_error(
                    canonical_calls(call_views(calls@)),
                    text_of(fallback_address),
                ) == Some(e@),
            },
    {
        let ghost all = call_views(calls@);
        let mut rest = calls;
        let mut sorted: Vec<Call> = Vec::new();
        let ghost mut done: int = 0;
        assert(all.skip(0) =~= all);
        while rest.len() > 0
            invariant
                0 <= done <= all.len(),
                call_views(rest@) == all.skip(done),
                sorted.len() == done,
                forall|i: int|
                    0 <= i < done ==> (#[trigger] sorted[i])@ == (CallView {
                        msg: all[i].msg,
                        actions: canonical(all[i].actions),
                    }),
            decreases rest.len(),
        {
            let ghost pending = rest@;
            assert(call_views(pending).len() == all.skip(done).len());
            assert(call_views(pending)[0] == all.skip(done)[0]);
            let call = rest.remove(0);
            assert(rest@ =~= pending.skip(1));
            let Call { msg, actions } = call;
            let actions = sort_actions(actions);
            sorted.push(Call { msg, actions });
            proof {
                assert forall|i: int| 0 <= i < rest@.len() implies call_views(rest@)[i] == all.skip(
                    done + 1,
                )[i] by {
                    assert(call_views(pending)[i + 1] == all.skip(done)[i + 1]);
                }
                assert(call_views(rest@) =~= all.skip(done + 1));
                done = done + 1;
            }
        }
        assert(call_views(sorted@) =~= canonical_calls(all));
        let state = MulticallState { current: 0, calls: sorted, fallback_address };
        match state.validate() {
            Err(e) => Err(e),
            Ok(_) => Ok(state),
        }
    }

    /// Hands out the call at the cursor and moves the cursor past it; `None`,
    /// and no change, once every call was handed out.
    pub fn next_call(&mut self) -> (next: Option<&Call>)
        ensures
            final(self)@.calls == old(self)@.calls,
            final(self)@.fallback_address == old(self)@.fallback_address,
            old(self)@.well_formed() ==> final(self)@.well_formed(),
            match next {
                Some(call) => {
                    &&& old(self)@.current < old(self)@.calls.len()
                    &&& call@ == old(self)@.calls[old(self)@.current as int]
                    &&& final(self)@.current == old(self)@.current + 1
                },
                None => {
                    &&& old(self)@.current >= old(self)@.calls.len()
                    &&& final(self)@.current == old(self)@.current
                },
            },
    {
        if self.current < self.calls.len() as u64 {
            let at = self.current as usize;
            self.current = self.current + 1;
            assert(call_views(self.calls@)[at as int] == self.calls[at as int]@);
            Some(&self.calls[at])
        } else {
            None
        }
    }

    /// Validates the batch.
    fn validate(&self) -> (r: Result<(), ContractError>)
        ensures
            match r {
                Ok(_) => batch_error(self@.calls, self@.fallback_address) is None,
                Err(e) => batch_error(self@.calls, self@.fallback_address) == Some(e@),
            },
    {
        if self.calls.len() == 0 {
            return Err(ContractError::EmptyCallsList {  });
        }
        if any_tracking(&self.calls) && self.fallback_address.is_none() {
            return Err(ContractError::FallbackAddressMustBeSetForIbcTracking {  });
        }
        let ghost all = call_views(self.calls@);
        let mut i: usize = 0;
        while i < self.calls.len()
            invariant
                all == call_views(self.calls@),
                all == self@.calls,
                all.len() > 0,
                !(has_tracking(all) && self@.fallback_address is None),
                i <= self.calls.len(),
                calls_error(all, 0) == calls_error(all, i as int),
            decreases self.calls.len() - i,
        {
            assert(all[i as int] == self.calls[i as int]@);
            match check_call(&self.calls[i]) {
                Err(e) => {
                    return Err(e);
                },
                Ok(_) => {},
            }
            i += 1;
        }
        Ok(())
    }

    /// The cursor: the index of the call that is handed out next.
    pub fn current(&self) -> (current: u64)
        ensures
            current == self@.current,
    {
        self.current
    }

    /// A batch as it was stored, with its cursor where it was.
    pub fn restore(current: u64, calls: Vec<Call>, fallback_address: Option<String>) -> (state:
        MulticallState)
        ensures
            state@ == (MulticallStateView {
                current: current as nat,
                calls: call_views(calls@),
                fallback_address: text_of(fallback_address),
            }),
    {
        MulticallState { current, calls, fallback_address }
    }

    /// A copy with the same view.
    pub fn duplicate(&self) -> (copy: MulticallState)
        ensures
            copy@ == self@,
    {
        MulticallState {
            current: self.current,
            calls: duplicate_calls(&self.calls),
            fallback_address: duplicate_text(&self.fallback_address),
        }
    }
}

/// The kind under which a missing batch is reported.
pub open spec fn batch_kind() -> Seq<char> {
    "MulticallState"@
}

/// Whether a batch is stored: whether the contract is locked.
pub fn multicall_state_exists(storage: &Storage) -> (exists: bool)
    ensures
        exists == storage@.multicall_state is Some,
{
    storage.multicall_state.is_some()
}

/// Stores the batch, in place of any that was stored.
pub fn store_multicall_state(storage: &mut Storage, data: &MulticallState)
    ensures
        final(storage)@ == (StorageView { multicall_state: Some(data@), ..old(storage)@ }),
{
    storage.multicall_state = Some(data.duplicate());
}

/// The batch that is stored; an error where none is.
pub fn load_multicall_state(storage: &Storage) -> (r: Result<MulticallState, StdError>)
    ensures
        match r {
            Ok(state) => storage@.multicall_state == Some(state@),
            Err(e) => storage@.multicall_state is None && e@ == (crate::error::StdErrorView::NotFound {
                kind: batch_kind(),
            }),
        },
{
    match &storage.multicall_state {
        Some(state) => Ok(state.duplicate()),
        None => Err(StdError::NotFound { kind: "MulticallState".to_owned() }),
    }
}

/// Removes the batch, if one is stored: releases the lock.
pub fn remove_multicall_state(storage: &mut Storage)
    ensures
        final(storage)@ == (StorageView { multicall_state: None, ..old(storage)@ }),
{
    storage.multicall_state = None;
}

/// One more action, wherever it is put, adds itself to the count of tracking
/// actions.
pub proof fn lemma_tracking_count_insert(actions: Seq<CallActionView>, at: int, x: CallActionView)
    requires
        0 <= at <= actions.len(),
    ensures
        tracking_count(actions.insert(at, x)) == tracking_count(actions) + if x is IbcTracking {
            1nat
        } else {
            0nat
        },
    decreases actions.len(),
{
    let all = actions.insert(at, x);
    if at == actions.len() {
        assert(all.drop_last() =~= actions);
    } else {
        assert(all.drop_last() =~= actions.drop_last().insert(at, x));
        assert(all.last() == actions.last());
        lemma_tracking_count_insert(actions.drop_last(), at, x);
    }
}

/// The canonical order keeps the count of tracking actions.
pub proof fn lemma_tracking_count_canonical(actions: Seq<CallActionView>)
    ensures
        tracking_count(canonical(actions)) == tracking_count(actions),
    decreases actions.len(),
{
    if actions.len() > 0 {
        let sorted = canonical(actions.drop_last());
        lemma_tracking_count_canonical(actions.drop_last());
        lemma_insertion_point_bounds(sorted, actions.last(), 0);
        lemma_tracking_count_insert(sorted, insertion_point(sorted, actions.last(), 0), actions.last());
    }
}

/// The canonical order of each call's actions neither brings a tracking
/// action into a batch nor takes one out.
pub proof fn lemma_has_tracking_canonical(calls: Seq<CallView>)
    ensures
        has_tracking(canonical_calls(calls)) == has_tracking(calls),
{
    let sorted = canonical_calls(calls);
    if has_tracking(calls) {
        let (i, j) = choose|i: int, j: int|
            0 <= i < calls.len() && 0 <= j < calls[i].actions.len()
                && #[trigger] calls[i].actions[j] is IbcTracking;
        let x = calls[i].actions[j];
        lemma_canonical_same_actions(calls[i].actions);
        assert(calls[i].actions.contains(x));
        assert(sorted[i].actions.contains(x));
        let k = choose|k: int| 0 <= k < sorted[i].actions.len() && sorted[i].actions[k] == x;
        assert(sorted[i].actions[k] is IbcTracking);
    }
    if has_tracking(sorted) {
        let (i, j) = choose|i: int, j: int|
            0 <= i < sorted.len() && 0 <= j < sorted[i].actions.len()
                && #[trigger] sorted[i].actions[j] is IbcTracking;
        let x = sorted[i].actions[j];
        lemma_canonical_same_actions(calls[i].actions);
        assert(sorted[i].actions.contains(x));
        assert(calls[i].actions.contains(x));
        let k = choose|k: int| 0 <= k < calls[i].actions.len() && calls[i].actions[k] == x;
        assert(calls[i].actions[k] is IbcTracking);
    }
}

/// A batch in which any action asks for transfer tracking is refused where no
/// fallback address comes with it.
pub proof fn lemma_tracking_needs_fallback(calls: Seq<CallView>)
    requires
        has_tracking(calls),
    ensures
        batch_error(canonical_calls(calls), None) == Some(
            ContractErrorView::FallbackAddressMustBeSetForIbcTracking,
        ),
{
    lemma_has_tracking_canonical(calls);
}

/// No fault of a single action is reported as a fault of the call's
/// arguments.
pub proof fn lemma_actions_error_kind(actions: Seq<CallActionView>, from: int)
    ensures
        !(actions_error(actions, from) matches Some(
            ContractErrorView::InvalidCallActionArgument { .. },
        )),
    decreases actions.len() - from,
{
    if 0 <= from < actions.len() {
        lemma_actions_error_kind(actions, from + 1);
    }
}

/// A call with two or more tracking actions is refused for that reason,
/// whatever the order in which its actions were given; a call with at most
/// one is never refused for that reason.
pub proof fn lemma_one_tracking_per_call(call: CallView)
    ensures
        tracking_count(call.actions) > 1 ==> call_error(
            CallView { msg: call.msg, actions: canonical(call.actions) },
        ) == Some(ContractErrorView::InvalidCallActionArgument { msg: too_many_trackings() }),
        tracking_count(call.actions) <= 1 ==> !(call_error(
            CallView { msg: call.msg, actions: canonical(call.actions) },
        ) matches Some(ContractErrorView::InvalidCallActionArgument { .. })),
{
    lemma_tracking_count_canonical(call.actions);
    lemma_actions_error_kind(canonical(call.actions), 0);
}

/// Where one call is refused, the batch is.
pub proof fn lemma_calls_error_found(calls: Seq<CallView>, from: int, at: int)
    requires
        0 <= from <= at < calls.len(),
        call_error(calls[at]) is Some,
    ensures
        calls_error(calls, from) is Some,
    decreases at - from,
{
    if from < at && call_error(calls[from]) is None {
        lemma_calls_error_found(calls, from + 1, at);
    }
}

/// A batch that holds a call with two or more tracking actions is refused.
pub proof fn lemma_two_trackings_refused(
    calls: Seq<CallView>,
    fallback_address: Option<Seq<char>>,
    at: int,
)
    requires
        0 <= at < calls.len(),
        tracking_count(calls[at].actions) > 1,
    ensures
        batch_error(canonical_calls(calls), fallback_address) is Some,
{
    lemma_one_tracking_per_call(calls[at]);
    lemma_calls_error_found(canonical_calls(calls), 0, at);
}

} // verus!
