use crabbar::audio::{
    AudioHub, ConnectionState, Facility, HubAction, HubInput, PulseaudioEvent, SinkInfo,
    SinkOperation,
};

fn sink(index: u32, name: &str) -> SinkInfo {
    SinkInfo {
        name: Some(name.to_string()),
        index,
        volume: vec![65536, 65536],
        base_volume: 65536,
        mute: false,
    }
}

fn state(generation: u64, s: ConnectionState) -> HubInput {
    HubInput::StateChanged { generation, state: Some(s) }
}

fn published(s: ConnectionState) -> HubAction {
    HubAction::Publish(PulseaudioEvent::StateChange(s))
}

#[test]
fn hub_starts_with_generation_zero() {
    let (hub, first) = AudioHub::start();
    assert_eq!(first, HubAction::Connect { generation: 0 });
    assert_eq!(hub.generation(), 0);
    assert_eq!(hub.state(), ConnectionState::Connecting);
}

#[test]
fn failure_triggers_exactly_one_reconnect() {
    let (mut hub, _) = AudioHub::start();
    assert_eq!(hub.step(state(0, ConnectionState::Connecting)), vec![published(ConnectionState::Connecting)]);
    assert_eq!(
        hub.step(state(0, ConnectionState::Ready)),
        vec![
            published(ConnectionState::Ready),
            HubAction::Subscribe { generation: 0 },
            HubAction::QueryServerInfo { generation: 0 },
        ]
    );
    assert_eq!(
        hub.step(state(0, ConnectionState::Failed)),
        vec![published(ConnectionState::Failed), HubAction::ScheduleReconnect]
    );
    assert_eq!(
        hub.step(state(0, ConnectionState::Terminated)),
        vec![published(ConnectionState::Terminated)]
    );
    assert_eq!(hub.step(HubInput::ReconnectDue), vec![HubAction::Connect { generation: 1 }]);
    assert_eq!(hub.step(HubInput::ReconnectDue), vec![]);
    assert_eq!(hub.generation(), 1);
    assert_eq!(hub.state(), ConnectionState::Connecting);
}

#[test]
fn stale_callbacks_are_ignored() {
    let (mut hub, _) = AudioHub::start();
    hub.step(state(0, ConnectionState::Terminated));
    hub.step(HubInput::ReconnectDue);
    assert_eq!(hub.step(state(0, ConnectionState::Ready)), vec![]);
    assert_eq!(
        hub.step(HubInput::DefaultSinkInfo { generation: 0, sink: Some(sink(1, "a")) }),
        vec![]
    );
    assert_eq!(
        hub.step(HubInput::StateChanged { generation: 1, state: None }),
        vec![published(ConnectionState::Connecting)]
    );
}

#[test]
fn ready_resolves_default_sink_before_notifications() {
    let (mut hub, _) = AudioHub::start();
    let early = HubInput::Notification {
        generation: 0,
        facility: Facility::Sink,
        op: Some(SinkOperation::Changed),
        index: 3,
    };
    assert_eq!(hub.step(early.clone()), vec![]);
    let actions = hub.step(state(0, ConnectionState::Ready));
    assert_eq!(
        actions,
        vec![
            published(ConnectionState::Ready),
            HubAction::Subscribe { generation: 0 },
            HubAction::QueryServerInfo { generation: 0 },
        ]
    );
    assert_eq!(hub.step(state(0, ConnectionState::Ready)), vec![published(ConnectionState::Ready)]);
    assert_eq!(
        hub.step(HubInput::ServerInfo { generation: 0, default_sink_name: Some("out".to_string()) }),
        vec![HubAction::QuerySinkByName { generation: 0, name: "out".to_string() }]
    );
    assert_eq!(
        hub.step(HubInput::DefaultSinkInfo { generation: 0, sink: Some(sink(3, "out")) }),
        vec![HubAction::Publish(PulseaudioEvent::DefaultSinkChanged(sink(3, "out")))]
    );
    assert_eq!(hub.step(HubInput::SubscribeDone { generation: 0 }), vec![]);
    assert_eq!(
        hub.step(early),
        vec![HubAction::QuerySinkByIndex { generation: 0, index: 3, op: SinkOperation::Changed }]
    );
}

#[test]
fn notifications_choose_their_query() {
    let (mut hub, _) = AudioHub::start();
    hub.step(state(0, ConnectionState::Ready));
    hub.step(HubInput::SubscribeDone { generation: 0 });
    let server = |op| HubInput::Notification { generation: 0, facility: Facility::Server, op, index: 0 };
    assert_eq!(
        hub.step(server(Some(SinkOperation::Changed))),
        vec![HubAction::QueryServerInfo { generation: 0 }]
    );
    assert_eq!(hub.step(server(Some(SinkOperation::New))), vec![]);
    assert_eq!(
        hub.step(HubInput::Notification { generation: 0, facility: Facility::Sink, op: None, index: 1 }),
        vec![]
    );
    assert_eq!(
        hub.step(HubInput::Notification {
            generation: 0,
            facility: Facility::Other,
            op: Some(SinkOperation::Changed),
            index: 1
        }),
        vec![]
    );
}

#[test]
fn vanished_sink_publishes_nothing() {
    let (mut hub, _) = AudioHub::start();
    hub.step(state(0, ConnectionState::Ready));
    hub.step(HubInput::DefaultSinkInfo { generation: 0, sink: Some(sink(1, "a")) });
    assert_eq!(
        hub.step(HubInput::SinkInfoResult { generation: 0, op: SinkOperation::Removed, sink: None }),
        vec![]
    );
    assert_eq!(
        hub.step(HubInput::SinkInfoResult {
            generation: 0,
            op: SinkOperation::New,
            sink: Some(sink(5, "b"))
        }),
        vec![HubAction::Publish(PulseaudioEvent::SinkUpdate {
            op: SinkOperation::New,
            sink_info: sink(5, "b")
        })]
    );
    assert_eq!(hub.step(HubInput::ServerInfo { generation: 0, default_sink_name: None }), vec![]);
}

#[test]
fn sink_changes_wait_for_the_default_sink() {
    let (mut hub, _) = AudioHub::start();
    hub.step(state(0, ConnectionState::Ready));
    hub.step(HubInput::SubscribeDone { generation: 0 });
    let change = |index| HubInput::Notification {
        generation: 0,
        facility: Facility::Sink,
        op: Some(SinkOperation::Changed),
        index,
    };
    assert_eq!(hub.step(change(7)), vec![]);
    assert_eq!(hub.step(change(8)), vec![]);
    assert_eq!(
        hub.step(HubInput::SinkInfoResult {
            generation: 0,
            op: SinkOperation::Changed,
            sink: Some(sink(7, "x"))
        }),
        vec![]
    );
    assert_eq!(
        hub.step(HubInput::ServerInfo { generation: 0, default_sink_name: Some("out".to_string()) }),
        vec![HubAction::QuerySinkByName { generation: 0, name: "out".to_string() }]
    );
    assert_eq!(
        hub.step(HubInput::DefaultSinkInfo { generation: 0, sink: Some(sink(3, "out")) }),
        vec![
            HubAction::Publish(PulseaudioEvent::DefaultSinkChanged(sink(3, "out"))),
            HubAction::QuerySinkByIndex { generation: 0, index: 7, op: SinkOperation::Changed },
            HubAction::QuerySinkByIndex { generation: 0, index: 8, op: SinkOperation::Changed },
        ]
    );
    assert_eq!(hub.step(HubInput::DefaultSinkInfo { generation: 0, sink: None }), vec![]);
    assert_eq!(
        hub.step(change(9)),
        vec![HubAction::QuerySinkByIndex { generation: 0, index: 9, op: SinkOperation::Changed }]
    );
    assert_eq!(
        hub.step(HubInput::SinkInfoResult {
            generation: 0,
            op: SinkOperation::Changed,
            sink: Some(sink(9, "y"))
        }),
        vec![HubAction::Publish(PulseaudioEvent::SinkUpdate {
            op: SinkOperation::Changed,
            sink_info: sink(9, "y")
        })]
    );
}

#[test]
fn no_default_sink_releases_held_changes() {
    let (mut hub, _) = AudioHub::start();
    hub.step(state(0, ConnectionState::Ready));
    hub.step(HubInput::SubscribeDone { generation: 0 });
    let removed = HubInput::Notification {
        generation: 0,
        facility: Facility::Sink,
        op: Some(SinkOperation::Removed),
        index: 2,
    };
    assert_eq!(hub.step(removed), vec![]);
    assert_eq!(
        hub.step(HubInput::ServerInfo { generation: 0, default_sink_name: None }),
        vec![HubAction::QuerySinkByIndex { generation: 0, index: 2, op: SinkOperation::Removed }]
    );
}

#[test]
fn each_failed_connection_is_replaced_once() {
    let (mut hub, _) = AudioHub::start();
    let mut connects = 0;
    let mut scheduled = 0;
    let inputs = vec![
        state(0, ConnectionState::Failed),
        state(0, ConnectionState::Terminated),
        HubInput::ReconnectDue,
        state(1, ConnectionState::Ready),
        state(1, ConnectionState::Terminated),
        state(0, ConnectionState::Failed),
        HubInput::ReconnectDue,
        HubInput::ReconnectDue,
    ];
    for input in inputs {
        for action in hub.step(input) {
            match action {
                HubAction::Connect { .. } => connects += 1,
                HubAction::ScheduleReconnect => scheduled += 1,
                _ => {}
            }
        }
    }
    assert_eq!(scheduled, 2);
    assert_eq!(connects, 2);
    assert_eq!(hub.generation(), 2);
}
