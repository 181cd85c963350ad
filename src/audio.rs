use vstd::prelude::*;

verus! {

/// The lifecycle of a connection to the audio server, as the server
/// reports it.
#[derive(Clone, Copy, Debug, PartialEq, Eq, Structural)]
pub enum ConnectionState {
    Connecting,
    Authorizing,
    SettingName,
    Ready,
    Failed,
    Terminated,
}

/// What happened to a sink, in a change notification.
#[derive(Clone, Copy, Debug, PartialEq, Eq, Structural)]
pub enum SinkOperation {
    New,
    Changed,
    Removed,
}

/// The part of the server that a change notification is about.
#[derive(Clone, Copy, Debug, PartialEq, Eq, Structural)]
pub enum Facility {
    Sink,
    Server,
    Other,
}

/// A full snapshot of one audio output device. Volumes are the server's raw
/// per-channel values.
#[derive(Clone, Debug, PartialEq, Eq)]
pub struct SinkInfo {
    pub name: Option<String>,
    pub index: u32,
    pub volume: Vec<u32>,
    pub base_volume: u32,
    pub mute: bool,
}

/// What the hub tells its subscribers.
#[derive(Clone, Debug, PartialEq, Eq)]
pub enum PulseaudioEvent {
    StateChange(ConnectionState),
    SinkUpdate { op: SinkOperation, sink_info: SinkInfo },
    DefaultSinkChanged(SinkInfo),
}

/// What reaches the hub: the callbacks of a connection, each tagged with
/// the generation of the connection that registered it, and the end of the
/// delay before a reconnect.
#[derive(Clone, Debug)]
#[allow(inconsistent_fields)]
pub enum HubInput {
    /// The connection's state callback fired; `None` when the connection
    /// was busy and its state could not be read.
    StateChanged { generation: u64, state: Option<ConnectionState> },
    /// The server acknowledged the subscription to sink and server changes.
    SubscribeDone { generation: u64 },
    /// A change notification.
    Notification { generation: u64, facility: Facility, op: Option<SinkOperation>, index: u32 },
    /// The answer to a server-info query.
    ServerInfo { generation: u64, default_sink_name: Option<String> },
    /// The answer to a query for the default sink by name; `None` when the
    /// sink was not found.
    DefaultSinkInfo { generation: u64, sink: Option<SinkInfo> },
    /// The answer to a query for a sink by index; `None` when it is gone.
    SinkInfoResult { generation: u64, op: SinkOperation, sink: Option<SinkInfo> },
    /// The delay before a reconnect has passed.
    ReconnectDue,
}

/// What the hub asks its driver to do.
#[derive(Clone, Debug, PartialEq, Eq)]
pub enum HubAction {
    /// Create a fresh connection object, register its callbacks under this
    /// generation, and connect it.
    Connect { generation: u64 },
    /// Publish to the hub's channel.
    Publish(PulseaudioEvent),
    /// Subscribe to sink and server change notifications.
    Subscribe { generation: u64 },
    /// Ask the server for its info, to learn the default sink's name.
    QueryServerInfo { generation: u64 },
    /// Ask for the full info of the sink with this name.
    QuerySinkByName { generation: u64, name: String },
    /// Ask for the full info of the sink with this index.
    QuerySinkByIndex { generation: u64, index: u32, op: SinkOperation },
    /// Wait the fixed reconnect delay, then hand in `ReconnectDue`.
    ScheduleReconnect,
}

/// The hub's state.
pub struct HubView {
    /// Which connection object is current; callbacks of older ones are stale.
    pub generation: u64,
    /// The last state the current connection reported.
    pub state: ConnectionState,
    /// The current connection has been ready.
    pub ready: bool,
    /// The current connection's change notifications are registered.
    pub subscribed: bool,
    /// The current connection is down and a reconnect is scheduled.
    pub reconnect_pending: bool,
    /// The default sink of the current connection is being resolved for the
    /// first time: sink changes wait until it is published.
    pub resolving: bool,
    /// The sink changes that came in while resolving, oldest first.
    pub held: Seq<(SinkOperation, u32)>,
}

/// The state a connection is taken to be in: a state that could not be read
/// counts as `Connecting`.
pub open spec fn observed_state(s: Option<ConnectionState>) -> ConnectionState {
    match s {
        Some(s) => s,
        None => ConnectionState::Connecting,
    }
}

pub open spec fn is_down(s: ConnectionState) -> bool {
    s == ConnectionState::Failed || s == ConnectionState::Terminated
}

/// The generation after `g`.
pub open spec fn next_generation(g: u64) -> u64 {
    if g == u64::MAX {
        0
    } else {
        (g + 1) as u64
    }
}

/// A hub whose connection `generation` has just been started.
pub open spec fn fresh_hub(generation: u64) -> HubView {
    HubView {
        generation,
        state: ConnectionState::Connecting,
        ready: false,
        subscribed: false,
        reconnect_pending: false,
        resolving: false,
        held: Seq::empty(),
    }
}

pub open spec fn no_actions() -> Seq<HubAction> {
    Seq::empty()
}

/// The queries for held sink changes, in the order they came in.
pub open spec fn held_queries(g: u64, held: Seq<(SinkOperation, u32)>) -> Seq<HubAction> {
    held.map_values(
        |c: (SinkOperation, u32)| HubAction::QuerySinkByIndex { generation: g, index: c.1, op: c.0 },
    )
}

/// The first resolution of the default sink is over: the held sink changes
/// are queried after `first`.
pub open spec fn end_resolving(h: HubView, first: Seq<HubAction>) -> (HubView, Seq<HubAction>) {
    if h.resolving {
        (
            HubView { resolving: false, held: Seq::empty(), ..h },
            first + held_queries(h.generation, h.held),
        )
    } else {
        (h, first)
    }
}

/// A state callback of the current connection.
pub open spec fn on_state(h: HubView, s: ConnectionState) -> (HubView, Seq<HubAction>) {
    let g = h.generation;
    let publish = HubAction::Publish(PulseaudioEvent::StateChange(s));
    if s == ConnectionState::Ready && !h.ready {
        (
            HubView { state: s, ready: true, resolving: true, held: Seq::empty(), ..h },
            seq![publish, HubAction::Subscribe { generation: g }, HubAction::QueryServerInfo { generation: g }],
        )
    } else if is_down(s) && !h.reconnect_pending {
        (HubView { state: s, reconnect_pending: true, ..h }, seq![publish, HubAction::ScheduleReconnect])
    } else {
        (HubView { state: s, ..h }, seq![publish])
    }
}

/// A change notification of the current connection, once registered. A
/// sink change that comes while the default sink is first resolved is held.
pub open spec fn on_notification(
    h: HubView,
    facility: Facility,
    op: Option<SinkOperation>,
    index: u32,
) -> (HubView, Seq<HubAction>) {
    let g = h.generation;
    match (facility, op) {
        (Facility::Server, Some(SinkOperation::Changed)) => (
            h,
            seq![HubAction::QueryServerInfo { generation: g }],
        ),
        (Facility::Sink, Some(op)) => if h.resolving {
            (HubView { held: h.held.push((op, index)), ..h }, no_actions())
        } else {
            (h, seq![HubAction::QuerySinkByIndex { generation: g, index, op }])
        },
        _ => (h, no_actions()),
    }
}

/// One step of the hub: its next state and the actions it asks for, in order.
pub open spec fn hub_step(h: HubView, input: HubInput) -> (HubView, Seq<HubAction>) {
    let g = h.generation;
    match input {
        HubInput::StateChanged { generation, state } => if generation == g {
            on_state(h, observed_state(state))
        } else {
            (h, no_actions())
        },
        HubInput::SubscribeDone { generation } => if generation == g {
            (HubView { subscribed: true, ..h }, no_actions())
        } else {
            (h, no_actions())
        },
        HubInput::Notification { generation, facility, op, index } => if generation == g
            && h.subscribed {
            on_notification(h, facility, op, index)
        } else {
            (h, no_actions())
        },
        HubInput::ServerInfo { generation, default_sink_name } => if generation == g {
            match default_sink_name {
                Some(name) => (h, seq![HubAction::QuerySinkByName { generation: g, name }]),
                None => end_resolving(h, no_actions()),
            }
        } else {
            (h, no_actions())
        },
        HubInput::DefaultSinkInfo { generation, sink } => if generation == g {
            match sink {
                Some(s) => end_resolving(
                    h,
                    seq![HubAction::Publish(PulseaudioEvent::DefaultSinkChanged(s))],
                ),
                None => end_resolving(h, no_actions()),
            }
        } else {
            (h, no_actions())
        },
        HubInput::SinkInfoResult { generation, op, sink } => match sink {
            Some(s) if generation == g && h.ready && !h.resolving => (
                h,
                seq![HubAction::Publish(PulseaudioEvent::SinkUpdate { op, sink_info: s })],
            ),
            _ => (h, no_actions()),
        },
        HubInput::ReconnectDue => if h.reconnect_pending {
            let n = next_generation(g);
            (fresh_hub(n), seq![HubAction::Connect { generation: n }])
        } else {
            (h, no_actions())
        },
    }
}

/// The hub after a run of inputs, and every action it asked for on the way.
pub open spec fn hub_run(h: HubView, inputs: Seq<HubInput>) -> (HubView, Seq<HubAction>)
    decreases inputs.len(),
{
    if inputs.len() == 0 {
        (h, no_actions())
    } else {
        let (h1, a1) = hub_run(h, inputs.drop_last());
        let (h2, a2) = hub_step(h1, inputs.last());
        (h2, a1 + a2)
    }
}

proof fn lemma_hub_run_push(h: HubView, inputs: Seq<HubInput>, i: HubInput)
    ensures
        hub_run(h, inputs.push(i)) == ({
            let (h1, a1) = hub_run(h, inputs);
            let (h2, a2) = hub_step(h1, i);
            (h2, a1 + a2)
        }),
{
    assert(inputs.push(i).drop_last() =~= inputs);
}

pub open spec fn state_input(generation: u64, s: ConnectionState) -> HubInput {
    HubInput::StateChanged { generation, state: Some(s) }
}

pub open spec fn state_published(s: ConnectionState) -> HubAction {
    HubAction::Publish(PulseaudioEvent::StateChange(s))
}

/// A connection that goes `Connecting`, `Ready`, `Failed` is replaced
/// exactly once: one reconnect is scheduled, and when its delay is over one
/// fresh connection is started, under the next generation.
pub proof fn one_reconnect_per_failure(g: u64)
    ensures
        hub_run(
            fresh_hub(g),
            seq![
                state_input(g, ConnectionState::Connecting),
                state_input(g, ConnectionState::Ready),
                state_input(g, ConnectionState::Failed),
                HubInput::ReconnectDue,
            ],
        ) == (
            fresh_hub(next_generation(g)),
            seq![
                state_published(ConnectionState::Connecting),
                state_published(ConnectionState::Ready),
                HubAction::Subscribe { generation: g },
                HubAction::QueryServerInfo { generation: g },
                state_published(ConnectionState::Failed),
                HubAction::ScheduleReconnect,
                HubAction::Connect { generation: next_generation(g) },
            ],
        ),
{
    let i0 = state_input(g, ConnectionState::Connecting);
    let i1 = state_input(g, ConnectionState::Ready);
    let i2 = state_input(g, ConnectionState::Failed);
    let i3 = HubInput::ReconnectDue;
    let e = Seq::<HubInput>::empty();
    lemma_hub_run_push(fresh_hub(g), e, i0);
    lemma_hub_run_push(fresh_hub(g), e.push(i0), i1);
    lemma_hub_run_push(fresh_hub(g), e.push(i0).push(i1), i2);
    lemma_hub_run_push(fresh_hub(g), e.push(i0).push(i1).push(i2), i3);
    assert(e.push(i0).push(i1).push(i2).push(i3) =~= seq![i0, i1, i2, i3]);
    let r = hub_run(fresh_hub(g), seq![i0, i1, i2, i3]);
    assert(r.1 =~= seq![
        state_published(ConnectionState::Connecting),
        state_published(ConnectionState::Ready),
        HubAction::Subscribe { generation: g },
        HubAction::QueryServerInfo { generation: g },
        state_published(ConnectionState::Failed),
        HubAction::ScheduleReconnect,
        HubAction::Connect { generation: next_generation(g) },
    ]);
}

/// Once a reconnect is scheduled, no further callback asks for another, and
/// only the one scheduled reconnect starts a connection: a second
/// `ReconnectDue` starts none.
pub proof fn no_reconnect_while_pending(h: HubView, input: HubInput)
    requires
        h.reconnect_pending,
        !(input is ReconnectDue),
    ensures
        hub_step(h, input).0.reconnect_pending,
        hub_step(h, input).0.generation == h.generation,
        forall|k: int|
            0 <= k < hub_step(h, input).1.len() ==> !(#[trigger] hub_step(h, input).1[k] is Connect)
                && !(hub_step(h, input).1[k] is ScheduleReconnect),
        hub_step(hub_step(h, HubInput::ReconnectDue).0, HubInput::ReconnectDue).1 == no_actions(),
{
}

/// On first becoming ready, a connection registers for change
/// notifications and starts one default-sink resolution: server info, then
/// the sink by name, then `DefaultSinkChanged`. A notification that comes
/// before the registration is acknowledged starts no query, a repeated
/// `Ready` starts no second resolution, and a sink change that comes while
/// the resolution runs is queried only after `DefaultSinkChanged`.
pub proof fn default_sink_resolved_on_ready(
    g: u64,
    facility: Facility,
    op: Option<SinkOperation>,
    index: u32,
    sink_op: SinkOperation,
    sink_index: u32,
    name: String,
    sink: SinkInfo,
)
    ensures
        hub_run(
            fresh_hub(g),
            seq![
                HubInput::Notification { generation: g, facility, op, index },
                state_input(g, ConnectionState::Ready),
                state_input(g, ConnectionState::Ready),
                HubInput::SubscribeDone { generation: g },
                HubInput::Notification {
                    generation: g,
                    facility: Facility::Sink,
                    op: Some(sink_op),
                    index: sink_index,
                },
                HubInput::ServerInfo { generation: g, default_sink_name: Some(name) },
                HubInput::DefaultSinkInfo { generation: g, sink: Some(sink) },
            ],
        ).1 == seq![
            state_published(ConnectionState::Ready),
            HubAction::Subscribe { generation: g },
            HubAction::QueryServerInfo { generation: g },
            state_published(ConnectionState::Ready),
            HubAction::QuerySinkByName { generation: g, name },
            HubAction::Publish(PulseaudioEvent::DefaultSinkChanged(sink)),
            HubAction::QuerySinkByIndex { generation: g, index: sink_index, op: sink_op },
        ],
{
    let i0 = HubInput::Notification { generation: g, facility, op, index };
    let i1 = state_input(g, ConnectionState::Ready);
    let i2 = HubInput::SubscribeDone { generation: g };
    let i3 = HubInput::Notification {
        generation: g,
        facility: Facility::Sink,
        op: Some(sink_op),
        index: sink_index,
    };
    let i4 = HubInput::ServerInfo { generation: g, default_sink_name: Some(name) };
    let i5 = HubInput::DefaultSinkInfo { generation: g, sink: Some(sink) };
    let e = Seq::<HubInput>::empty();
    let h = fresh_hub(g);
    let s1 = e.push(i0);
    let s2 = s1.push(i1);
    let s3 = s2.push(i1);
    let s4 = s3.push(i2);
    let s5 = s4.push(i3);
    let s6 = s5.push(i4);
    let s7 = s6.push(i5);
    lemma_hub_run_push(h, e, i0);
    lemma_hub_run_push(h, s1, i1);
    lemma_hub_run_push(h, s2, i1);
    lemma_hub_run_push(h, s3, i2);
    lemma_hub_run_push(h, s4, i3);
    lemma_hub_run_push(h, s5, i4);
    lemma_hub_run_push(h, s6, i5);
    let h5 = hub_run(h, s5).0;
    assert(h5.resolving);
    assert(h5.held =~= seq![(sink_op, sink_index)]);
    assert(held_queries(g, h5.held) =~= seq![
        HubAction::QuerySinkByIndex { generation: g, index: sink_index, op: sink_op },
    ]);
    assert(s7 =~= seq![i0, i1, i1, i2, i3, i4, i5]);
    let r = hub_run(h, s7);
    assert(r.1 =~= seq![
        state_published(ConnectionState::Ready),
        HubAction::Subscribe { generation: g },
        HubAction::QueryServerInfo { generation: g },
        state_published(ConnectionState::Ready),
        HubAction::QuerySinkByName { generation: g, name },
        HubAction::Publish(PulseaudioEvent::DefaultSinkChanged(sink)),
        HubAction::QuerySinkByIndex { generation: g, index: sink_index, op: sink_op },
    ]);
}

pub open spec fn is_sink_update(a: HubAction) -> bool {
    a matches HubAction::Publish(PulseaudioEvent::SinkUpdate { .. })
}

pub open spec fn is_default_sink_publish(a: HubAction) -> bool {
    a matches HubAction::Publish(PulseaudioEvent::DefaultSinkChanged(_))
}

/// Every sink update published comes after some default-sink publish.
pub open spec fn default_sink_first(acts: Seq<HubAction>) -> bool {
    forall|i: int|
        0 <= i < acts.len() && #[trigger] is_sink_update(acts[i]) ==> exists|j: int|
            0 <= j < i && is_default_sink_publish(acts[j])
}

/// An input that neither replaces the connection nor reports that the
/// server has no default sink.
pub open spec fn keeps_default_sink(input: HubInput) -> bool {
    &&& !(input is ReconnectDue)
    &&& !(input matches HubInput::ServerInfo { default_sink_name: None, .. })
    &&& !(input matches HubInput::DefaultSinkInfo { sink: None, .. })
}

/// Until a connection has been ready and its default sink resolved, no step
/// publishes a sink update: sink changes that come meanwhile are held.
pub proof fn no_sink_update_while_resolving(h: HubView, input: HubInput)
    requires
        !h.ready || h.resolving,
    ensures
        forall|k: int|
            0 <= k < hub_step(h, input).1.len() ==> !#[trigger] is_sink_update(
                hub_step(h, input).1[k],
            ),
{
    let acts = hub_step(h, input).1;
    assert forall|k: int| 0 <= k < acts.len() implies !#[trigger] is_sink_update(acts[k]) by {
        let g = h.generation;
        let q = held_queries(g, h.held);
        if h.resolving {
            match input {
                HubInput::ServerInfo { generation, default_sink_name: None } => {
                    if generation == g {
                        assert(acts =~= no_actions() + q);
                        assert(acts[k] == q[k]);
                    }
                },
                HubInput::DefaultSinkInfo { generation, sink } => {
                    if generation == g {
                        match sink {
                            Some(s) => {
                                let first = seq![HubAction::Publish(PulseaudioEvent::DefaultSinkChanged(s))];
                                if k >= 1 {
                                    assert(acts[k] == q[k - 1]);
                                }
                            },
                            None => {
                                assert(acts[k] == q[k]);
                            },
                        }
                    }
                },
                _ => {},
            }
        }
    }
}

proof fn lemma_default_sink_first_run(g: u64, inputs: Seq<HubInput>)
    requires
        forall|k: int| 0 <= k < inputs.len() ==> keeps_default_sink(#[trigger] inputs[k]),
    ensures
        hub_run(fresh_hub(g), inputs).0.generation == g,
        default_sink_first(hub_run(fresh_hub(g), inputs).1),
        !hub_run(fresh_hub(g), inputs).0.ready || hub_run(fresh_hub(g), inputs).0.resolving
            ==> forall|k: int|
            0 <= k < hub_run(fresh_hub(g), inputs).1.len() ==> !#[trigger] is_sink_update(
                hub_run(fresh_hub(g), inputs).1[k],
            ),
        hub_run(fresh_hub(g), inputs).0.ready && !hub_run(fresh_hub(g), inputs).0.resolving
            ==> exists|j: int|
            0 <= j < hub_run(fresh_hub(g), inputs).1.len() && is_default_sink_publish(
                hub_run(fresh_hub(g), inputs).1[j],
            ),
    decreases inputs.len(),
{
    if inputs.len() > 0 {
        let prefix = inputs.drop_last();
        let i = inputs.last();
        assert(keeps_default_sink(inputs[inputs.len() - 1]));
        lemma_default_sink_first_run(g, prefix);
        let (h1, a1) = hub_run(fresh_hub(g), prefix);
        let (h2, a2) = hub_step(h1, i);
        let acts = a1 + a2;
        assert(hub_run(fresh_hub(g), inputs) == (h2, acts));
        if !h1.ready || h1.resolving {
            no_sink_update_while_resolving(h1, i);
            assert forall|k: int| 0 <= k < acts.len() implies !#[trigger] is_sink_update(acts[k]) by {
                if k >= a1.len() {
                    assert(acts[k] == a2[k - a1.len()]);
                }
            }
            if h2.ready && !h2.resolving {
                assert(i is DefaultSinkInfo);
                match i {
                    HubInput::DefaultSinkInfo { generation, sink: Some(s) } => {
                        assert(a2[0] == HubAction::Publish(PulseaudioEvent::DefaultSinkChanged(s)));
                        assert(a2.len() >= 1);
                        assert(acts[a1.len() as int] == a2[0]);
                        assert(is_default_sink_publish(acts[a1.len() as int]));
                        assert(is_default_sink_publish(
                            hub_run(fresh_hub(g), inputs).1[a1.len() as int],
                        ));
                    },
                    HubInput::StateChanged { generation, state } => {
                        assert(h2.resolving || !h2.ready);
                    },
                    _ => {},
                }
            }
        } else {
            let j = choose|j: int| 0 <= j < a1.len() && is_default_sink_publish(a1[j]);
            assert(acts[j] == a1[j]);
            assert(is_default_sink_publish(acts[j]));
            assert(h2.ready && !h2.resolving);
            assert(is_default_sink_publish(hub_run(fresh_hub(g), inputs).1[j]));
            assert forall|k: int|
                0 <= k < acts.len() && #[trigger] is_sink_update(acts[k]) implies exists|j: int|
                0 <= j < k && is_default_sink_publish(acts[j]) by {
                if k < a1.len() {
                    assert(acts[k] == a1[k]);
                    assert(is_sink_update(a1[k]));
                    let j2 = choose|j2: int| 0 <= j2 < k && is_default_sink_publish(a1[j2]);
                    assert(acts[j2] == a1[j2]);
                } else {
                    assert(is_default_sink_publish(acts[j]));
                }
            }
        }
    }
}

/// Within one connection, once it is ready, no sink update is published
/// before the default sink is: sink changes that come while the default
/// sink is first resolved are queried only after `DefaultSinkChanged`.
/// Excluded are the runs where the server reports no default sink, which
/// leave nothing to publish first.
pub proof fn default_sink_before_sink_updates(g: u64, inputs: Seq<HubInput>)
    requires
        forall|k: int| 0 <= k < inputs.len() ==> keeps_default_sink(#[trigger] inputs[k]),
    ensures
        default_sink_first(hub_run(fresh_hub(g), inputs).1),
{
    lemma_default_sink_first_run(g, inputs);
}

/// How many actions of `acts` satisfy `p`.
pub open spec fn count_actions(acts: Seq<HubAction>, p: spec_fn(HubAction) -> bool) -> nat
    decreases acts.len(),
{
    if acts.len() == 0 {
        0
    } else {
        count_actions(acts.drop_last(), p) + if p(acts.last()) {
            1nat
        } else {
            0nat
        }
    }
}

pub open spec fn is_connect(a: HubAction) -> bool {
    a is Connect
}

pub open spec fn is_schedule_reconnect(a: HubAction) -> bool {
    a is ScheduleReconnect
}

/// 1 while a reconnect is scheduled and not yet started, else 0.
pub open spec fn pending_count(h: HubView) -> nat {
    if h.reconnect_pending {
        1
    } else {
        0
    }
}

proof fn lemma_count_concat(a: Seq<HubAction>, b: Seq<HubAction>, p: spec_fn(HubAction) -> bool)
    ensures
        count_actions(a + b, p) == count_actions(a, p) + count_actions(b, p),
    decreases b.len(),
{
    if b.len() > 0 {
        lemma_count_concat(a, b.drop_last(), p);
        assert((a + b).drop_last() =~= a + b.drop_last());
        assert((a + b).last() == b.last());
    } else {
        assert(a + b =~= a);
    }
}

proof fn lemma_count_none(a: Seq<HubAction>, p: spec_fn(HubAction) -> bool)
    requires
        forall|k: int| 0 <= k < a.len() ==> !p(#[trigger] a[k]),
    ensures
        count_actions(a, p) == 0,
    decreases a.len(),
{
    if a.len() > 0 {
        lemma_count_none(a.drop_last(), p);
    }
}

/// Neither a connect nor a scheduled reconnect.
pub open spec fn quiet(a: Seq<HubAction>) -> bool {
    forall|k: int|
        0 <= k < a.len() ==> !is_connect(#[trigger] a[k]) && !is_schedule_reconnect(a[k])
}

proof fn lemma_quiet_counts(a: Seq<HubAction>)
    requires
        quiet(a),
    ensures
        count_actions(a, |x: HubAction| is_connect(x)) == 0,
        count_actions(a, |x: HubAction| is_schedule_reconnect(x)) == 0,
{
    lemma_count_none(a, |x: HubAction| is_connect(x));
    lemma_count_none(a, |x: HubAction| is_schedule_reconnect(x));
}

proof fn lemma_step_reconnect_balance(h: HubView, input: HubInput)
    ensures
        count_actions(hub_step(h, input).1, |x: HubAction| is_connect(x)) + pending_count(
            hub_step(h, input).0,
        ) == count_actions(hub_step(h, input).1, |x: HubAction| is_schedule_reconnect(x))
            + pending_count(h),
{
    let (h2, a2) = hub_step(h, input);
    let g = h.generation;
    let q = held_queries(g, h.held);
    assert(quiet(q));
    match input {
        HubInput::StateChanged { generation, state } => {
            let st = observed_state(state);
            if generation == g && !(st == ConnectionState::Ready && !h.ready) && is_down(st)
                && !h.reconnect_pending {
                let p = HubAction::Publish(PulseaudioEvent::StateChange(st));
                assert(a2 == seq![p].push(HubAction::ScheduleReconnect));
                lemma_quiet_counts(seq![p]);
                assert(a2.drop_last() =~= seq![p]);
                assert(count_actions(a2, |x: HubAction| is_connect(x)) == 0);
                assert(count_actions(a2, |x: HubAction| is_schedule_reconnect(x)) == 1);
            } else {
                assert(quiet(a2));
                lemma_quiet_counts(a2);
            }
        },
        HubInput::ReconnectDue => {
            if h.reconnect_pending {
                let n = next_generation(g);
                assert(a2 == Seq::<HubAction>::empty().push(HubAction::Connect { generation: n }));
                assert(a2.drop_last() =~= Seq::<HubAction>::empty());
                lemma_quiet_counts(a2.drop_last());
                assert(count_actions(a2, |x: HubAction| is_connect(x)) == 1);
                assert(count_actions(a2, |x: HubAction| is_schedule_reconnect(x)) == 0);
                assert(pending_count(h2) == 0);
            } else {
                lemma_quiet_counts(a2);
            }
        },
        HubInput::ServerInfo { generation, default_sink_name } => {
            if generation == g && default_sink_name is None && h.resolving {
                assert(a2 =~= no_actions() + q);
            }
            assert(quiet(a2));
            lemma_quiet_counts(a2);
        },
        HubInput::DefaultSinkInfo { generation, sink } => {
            if generation == g && h.resolving {
                match sink {
                    Some(s) => {
                        let first = seq![HubAction::Publish(PulseaudioEvent::DefaultSinkChanged(s))];
                        assert(a2 == first + q);
                        assert forall|k: int| 0 <= k < a2.len() implies !is_connect(
                            #[trigger] a2[k],
                        ) && !is_schedule_reconnect(a2[k]) by {
                            if k >= 1 {
                                assert(a2[k] == q[k - 1]);
                            }
                        }
                    },
                    None => {
                        assert(a2 =~= no_actions() + q);
                    },
                }
            }
            assert(quiet(a2));
            lemma_quiet_counts(a2);
        },
        _ => {
            assert(quiet(a2));
            lemma_quiet_counts(a2);
        },
    }
}

/// Over any run of inputs, every reconnect the hub schedules starts exactly
/// one fresh connection once its delay is over, and nothing else starts
/// one: the connections started, plus the one reconnect still waiting if
/// any, number the reconnects scheduled (plus the one that was already
/// waiting at the start). Each connection schedules at most one reconnect,
/// however many down states it reports.
pub proof fn reconnects_match_failures(h: HubView, inputs: Seq<HubInput>)
    ensures
        count_actions(hub_run(h, inputs).1, |x: HubAction| is_connect(x)) + pending_count(
            hub_run(h, inputs).0,
        ) == count_actions(hub_run(h, inputs).1, |x: HubAction| is_schedule_reconnect(x))
            + pending_count(h),
    decreases inputs.len(),
{
    let c = |x: HubAction| is_connect(x);
    let r = |x: HubAction| is_schedule_reconnect(x);
    if inputs.len() == 0 {
        assert(count_actions(no_actions(), c) == 0);
        assert(count_actions(no_actions(), r) == 0);
    } else {
        reconnects_match_failures(h, inputs.drop_last());
        let (h1, a1) = hub_run(h, inputs.drop_last());
        lemma_step_reconnect_balance(h1, inputs.last());
        let (h2, a2) = hub_step(h1, inputs.last());
        lemma_count_concat(a1, a2, c);
        lemma_count_concat(a1, a2, r);
    }
}

/// The decisions of the audio-server bridge: which queries to chain on
/// which callback, what to publish, and when to replace the connection.
/// Its driver performs the actions it returns and hands back what came of
/// them.
pub struct AudioHub {
    generation: u64,
    state: ConnectionState,
    ready: bool,
    subscribed: bool,
    reconnect_pending: bool,
    resolving: bool,
    held: Vec<(SinkOperation, u32)>,
}

impl AudioHub {
    pub closed spec fn view(&self) -> HubView {
        HubView {
            generation: self.generation,
            state: self.state,
            ready: self.ready,
            subscribed: self.subscribed,
            reconnect_pending: self.reconnect_pending,
            resolving: self.resolving,
            held: self.held@,
        }
    }

    /// A hub about to start its first connection, and the action that starts it.
    pub fn start() -> (r: (AudioHub, HubAction))
        ensures
            r.0.view() == fresh_hub(0),
            r.1 == (HubAction::Connect { generation: 0 }),
    {
        let hub = AudioHub {
            generation: 0,
            state: ConnectionState::Connecting,
            ready: false,
            subscribed: false,
            reconnect_pending: false,
            resolving: false,
            held: Vec::new(),
        };
        assert(hub.view().held =~= Seq::<(SinkOperation, u32)>::empty());
        (hub, HubAction::Connect { generation: 0 })
    }

    /// The generation of the current connection.
    pub fn generation(&self) -> (r: u64)
        ensures
            r == self.view().generation,
    {
        self.generation
    }

    /// The last state the current connection reported.
    pub fn state(&self) -> (r: ConnectionState)
        ensures
            r == self.view().state,
    {
        self.state
    }

    fn on_state(&mut self, s: ConnectionState) -> (r: Vec<HubAction>)
        ensures
            final(self).view() == on_state(old(self).view(), s).0,
            r@ == on_state(old(self).view(), s).1,
    {
        let g = self.generation;
        let mut r = Vec::new();
        r.push(HubAction::Publish(PulseaudioEvent::StateChange(s)));
        let down = s == ConnectionState::Failed || s == ConnectionState::Terminated;
        if s == ConnectionState::Ready && !self.ready {
            self.ready = true;
            self.resolving = true;
            self.held = Vec::new();
            r.push(HubAction::Subscribe { generation: g });
            r.push(HubAction::QueryServerInfo { generation: g });
        } else if down && !self.reconnect_pending {
            self.reconnect_pending = true;
            r.push(HubAction::ScheduleReconnect);
        }
        self.state = s;
        proof {
            if s == ConnectionState::Ready && !old(self).ready {
                assert(self.view() =~= on_state(old(self).view(), s).0);
            }
        }
        r
    }

    /// Ends the first resolution of the default sink, if it is on: appends
    /// the queries for the held sink changes to `r`.
    fn end_resolving(&mut self, r: &mut Vec<HubAction>)
        ensures
            (final(self).view(), final(r)@) == end_resolving(old(self).view(), old(r)@),
    {
        if self.resolving {
            let g = self.generation;
            let ghost first = r@;
            let ghost held = self.held@;
            let mut i: usize = 0;
            while i < self.held.len()
                invariant
                    self.held@ == held,
                    self.generation == g,
                    i <= held.len(),
                    r@ == first + held_queries(g, held.subrange(0, i as int)),
                decreases held.len() - i,
            {
                let (op, index) = self.held[i];
                r.push(HubAction::QuerySinkByIndex { generation: g, index, op });
                assert(held_queries(g, held.subrange(0, i + 1)) =~= held_queries(
                    g,
                    held.subrange(0, i as int),
                ).push(HubAction::QuerySinkByIndex { generation: g, index, op }));
                i = i + 1;
            }
            assert(held.subrange(0, held.len() as int) =~= held);
            self.resolving = false;
            self.held = Vec::new();
            assert(self.view() =~= end_resolving(old(self).view(), old(r)@).0);
        }
    }

    /// Takes one input and returns the actions to perform, in order.
    pub fn step(&mut self, input: HubInput) -> (r: Vec<HubAction>)
        ensures
            final(self).view() == hub_step(old(self).view(), input).0,
            r@ == hub_step(old(self).view(), input).1,
    {
        let g = self.generation;
        let mut r: Vec<HubAction> = Vec::new();
        match input {
            HubInput::StateChanged { generation, state } => {
                if generation == g {
                    let s = match state {
                        Some(s) => s,
                        None => ConnectionState::Connecting,
                    };
                    r = self.on_state(s);
                }
            },
            HubInput::SubscribeDone { generation } => {
                if generation == g {
                    self.subscribed = true;
                }
            },
            HubInput::Notification { generation, facility, op, index } => {
                if generation == g && self.subscribed {
                    match (facility, op) {
                        (Facility::Server, Some(SinkOperation::Changed)) => {
                            r.push(HubAction::QueryServerInfo { generation: g });
                        },
                        (Facility::Sink, Some(op)) => {
                            if self.resolving {
                                self.held.push((op, index));
                            } else {
                                r.push(HubAction::QuerySinkByIndex { generation: g, index, op });
                            }
                        },
                        _ => {},
                    }
                }
            },
            HubInput::ServerInfo { generation, default_sink_name } => {
                if generation == g {
                    match default_sink_name {
                        Some(name) => r.push(HubAction::QuerySinkByName { generation: g, name }),
                        None => self.end_resolving(&mut r),
                    }
                }
            },
            HubInput::DefaultSinkInfo { generation, sink } => {
                if generation == g {
                    if let Some(s) = sink {
                        r.push(HubAction::Publish(PulseaudioEvent::DefaultSinkChanged(s)));
                    }
                    self.end_resolving(&mut r);
                }
            },
            HubInput::SinkInfoResult { generation, op, sink } => {
                if let Some(s) = sink {
                    if generation == g && self.ready && !self.resolving {
                        r.push(HubAction::Publish(PulseaudioEvent::SinkUpdate { op, sink_info: s }));
                    }
                }
            },
            HubInput::ReconnectDue => {
                if self.reconnect_pending {
                    let n = if g == u64::MAX {
                        0
                    } else {
                        g + 1
                    };
                    self.generation = n;
                    self.state = ConnectionState::Connecting;
                    self.ready = false;
                    self.subscribed = false;
                    self.reconnect_pending = false;
                    self.resolving = false;
                    self.held = Vec::new();
                    r.push(HubAction::Connect { generation: n });
                }
            },
        }
        assert(r@ =~= hub_step(old(self).view(), input).1);
        assert(self.view() =~= hub_step(old(self).view(), input).0);
        r
    }
}

} // verus!
