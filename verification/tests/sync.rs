use matrix_nio::sync::{JoinedRoom, SyncAction, SyncRun};
use matrix_nio::sync_loop::{LoopAction, LoopEvent, SyncLoop};
use matrix_nio::{AsyncClient, ClientError, Session, SyncSettings};
use ruma_events::collections::all::RoomEvent;
use ruma_events::collections::only::StateEvent;
use ruma_events::EventResult;

fn client(callbacks: usize) -> AsyncClient<usize> {
    let session = Session {
        access_token: "secret".to_string(),
        user_id: "@me:example.org".to_string(),
        device_id: "DEVICE".to_string(),
    };
    let mut client = AsyncClient::new("https://example.org", Some(session)).unwrap();
    for callback in 0..callbacks {
        client.add_event_callback(callback);
    }
    client
}

fn room(room_id: &str, state: Vec<bool>, timeline: usize) -> JoinedRoom {
    JoinedRoom { room_id: room_id.to_string(), state, timeline }
}

fn steps(client: &mut AsyncClient<usize>, run: &mut SyncRun) -> Vec<SyncAction> {
    let mut actions = vec![];
    loop {
        assert!(client.sync_ready(run));
        match client.sync_step(run) {
            Some(action) => actions.push(action),
            None => return actions,
        }
    }
}

fn state(room: usize, event: usize) -> SyncAction {
    SyncAction::ReceiveStateEvent { room, event }
}

fn enter(room: usize) -> SyncAction {
    SyncAction::EnterRoom { room }
}

fn timeline(room: usize, event: usize) -> SyncAction {
    SyncAction::ReceiveTimelineEvent { room, event }
}

fn call(room: usize, event: usize, callback: usize) -> SyncAction {
    SyncAction::CallBack { room, event, callback }
}

fn wait(callback: usize) -> SyncAction {
    SyncAction::Await { callback }
}

const TOKEN: SyncAction = SyncAction::ReceiveSyncResponse;

const STATE_EVENT: &str = "{\"type\": \"m.room.name\", \"content\": {\"name\": \"Room\"}, \
    \"event_id\": \"$name:example.org\", \"origin_server_ts\": 1, \
    \"sender\": \"@me:example.org\", \"state_key\": \"\"}";

const BROKEN_EVENT: &str = "{\"type\": \"m.room.name\", \"content\": {\"name\": 17}, \
    \"event_id\": \"$name:example.org\", \"origin_server_ts\": 1, \
    \"sender\": \"@me:example.org\", \"state_key\": \"\"}";

const MESSAGE: &str = "{\"type\": \"m.room.message\", \
    \"content\": {\"msgtype\": \"m.text\", \"body\": \"hi\"}, \
    \"event_id\": \"$hi:example.org\", \"origin_server_ts\": 2, \
    \"sender\": \"@me:example.org\"}";

fn joined(room_id: &str, state: Vec<&str>, timeline: Vec<&str>) -> String {
    format!(
        "\"{}\": {{\"unread_notifications\": {{}}, \
        \"timeline\": {{\"limited\": false, \"prev_batch\": \"p\", \"events\": [{}]}}, \
        \"state\": {{\"events\": [{}]}}, \"account_data\": {{\"events\": []}}, \
        \"ephemeral\": {{\"events\": []}}}}",
        room_id,
        timeline.join(", "),
        state.join(", "),
    )
}

fn reply(next_batch: &str, rooms: Vec<String>) -> Vec<u8> {
    let json = format!(
        "{{\"next_batch\": \"{}\", \"rooms\": {{\"leave\": {{}}, \"join\": {{{}}}, \
        \"invite\": {{}}}}, \"presence\": {{\"events\": []}}}}",
        next_batch,
        rooms.join(", "),
    );
    json.into_bytes()
}

#[test]
fn rooms_are_walked_in_order() {
    let mut client = client(2);
    let rooms = vec![
        room("!a:example.org", vec![true, false, true], 2),
        room("!b:example.org", vec![true], 0),
    ];
    let mut run = SyncRun::new("batch".to_string(), rooms);
    assert_eq!(
        steps(&mut client, &mut run),
        vec![
            state(0, 0),
            state(0, 2),
            enter(0),
            timeline(0, 0),
            call(0, 0, 0),
            call(0, 0, 1),
            wait(0),
            wait(1),
            timeline(0, 1),
            call(0, 1, 0),
            call(0, 1, 1),
            wait(0),
            wait(1),
            TOKEN,
            state(1, 0),
            enter(1),
            TOKEN,
        ],
    );
    assert_eq!(client.sync_token(), Some("batch".to_string()));
    assert!(client.base_client().knows_room(&"!a:example.org".to_string()));
    assert!(client.base_client().knows_room(&"!b:example.org".to_string()));
    assert_eq!(client.base_client().room_count(), 2);
    assert_eq!(client.sync_step(&mut run), None);
}

#[test]
fn without_callbacks_rooms_still_get_their_events() {
    let mut client = client(0);
    let mut run = SyncRun::new("b".to_string(), vec![room("!a:x", vec![true], 2)]);
    let expected = vec![state(0, 0), enter(0), timeline(0, 0), timeline(0, 1), TOKEN];
    assert_eq!(steps(&mut client, &mut run), expected);
}

#[test]
fn a_reply_without_joined_rooms_brings_its_token() {
    let mut client = client(1);
    let mut run = SyncRun::new("batch".to_string(), vec![]);
    assert_eq!(run.peek(1), Some(TOKEN));
    assert_eq!(steps(&mut client, &mut run), vec![TOKEN]);
    assert_eq!(run.peek(1), None);
    assert_eq!(client.sync_token(), Some("batch".to_string()));
    assert_eq!(client.base_client().room_count(), 0);
    let (_, mut run) = SyncRun::receive(200, reply("next", vec![])).unwrap();
    assert_eq!(steps(&mut client, &mut run), vec![TOKEN]);
    assert_eq!(client.sync_token(), Some("next".to_string()));
}

#[test]
fn the_token_comes_with_the_first_room() {
    let mut client = client(0);
    let rooms = vec![room("!a:x", vec![true], 1), room("!b:x", vec![true], 0)];
    let mut run = SyncRun::new("batch".to_string(), rooms);
    for expected in vec![state(0, 0), enter(0), timeline(0, 0)] {
        assert_eq!(client.sync_token(), None);
        assert_eq!(client.sync_step(&mut run), Some(expected));
    }
    assert_eq!(client.sync_token(), None);
    assert_eq!(client.sync_step(&mut run), Some(TOKEN));
    assert_eq!(client.sync_token(), Some("batch".to_string()));
}

#[test]
fn a_known_room_needs_no_state() {
    let mut client = client(0);
    let first = vec![room("!a:x", vec![true, true], 0)];
    steps(&mut client, &mut SyncRun::new("1".to_string(), first));
    let second = vec![room("!a:x", vec![false], 1)];
    let mut run = SyncRun::new("2".to_string(), second);
    assert_eq!(steps(&mut client, &mut run), vec![enter(0), timeline(0, 0), TOKEN]);
    assert_eq!(client.sync_token(), Some("2".to_string()));
    assert_eq!(client.base_client().room_count(), 1);
    assert!(client.base_client().knows_room(&"!a:x".to_string()));
    assert!(!client.base_client().knows_room(&"!b:x".to_string()));
}

#[test]
fn an_unknown_room_without_state_cannot_be_entered() {
    let mut client = client(0);
    let rooms = vec![room("!a:x", vec![true], 0), room("!b:x", vec![false, false], 1)];
    let mut run = SyncRun::new("batch".to_string(), rooms);
    for expected in vec![state(0, 0), enter(0), TOKEN] {
        assert!(client.sync_ready(&run));
        assert_eq!(client.sync_step(&mut run), Some(expected));
    }
    assert_eq!(run.peek(0), Some(enter(1)));
    assert!(!client.sync_ready(&run));
}

#[test]
fn callbacks_can_be_added_between_events() {
    let mut client = client(1);
    let mut run = SyncRun::new("b".to_string(), vec![room("!a:x", vec![true], 2)]);
    for expected in vec![state(0, 0), enter(0), timeline(0, 0), call(0, 0, 0)] {
        assert_eq!(client.sync_step(&mut run), Some(expected));
    }
    client.add_event_callback(9);
    let expected = vec![wait(0), timeline(0, 1), call(0, 1, 0), call(0, 1, 1), wait(0), wait(1), TOKEN];
    assert_eq!(steps(&mut client, &mut run), expected);
}

#[test]
fn every_event_reaches_every_callback_once() {
    let mut client = client(3);
    let rooms = vec![room("!a:x", vec![true], 4), room("!b:x", vec![true], 2)];
    let mut run = SyncRun::new("b".to_string(), rooms);
    let actions = steps(&mut client, &mut run);
    let count = |wanted: SyncAction| actions.iter().filter(|action| **action == wanted).count();
    for (room, events) in vec![(0, 4), (1, 2)] {
        for event in 0..events {
            assert_eq!(count(timeline(room, event)), 1);
            for callback in 0..3 {
                assert_eq!(count(call(room, event, callback)), 1);
            }
        }
    }
    for callback in 0..3 {
        assert_eq!(count(wait(callback)), 6);
    }
    assert_eq!(count(TOKEN), 2);
}

#[test]
fn a_reply_is_read() {
    let body = reply(
        "s1",
        vec![joined("!a:example.org", vec![BROKEN_EVENT, STATE_EVENT], vec![MESSAGE, BROKEN_EVENT])],
    );
    let (response, mut run) = SyncRun::receive(200, body).unwrap();
    assert_eq!(response.next_batch, "s1");
    let room = response.rooms.join.values().next().unwrap();
    assert!(matches!(room.state.events[0], EventResult::Err(_)));
    assert!(matches!(room.state.events[1], EventResult::Ok(StateEvent::RoomName(_))));
    assert!(matches!(room.timeline.events[0], EventResult::Ok(RoomEvent::RoomMessage(_))));
    assert_eq!(run.batch(), "s1");
    assert_eq!(run.room(0).room_id, "!a:example.org");
    assert_eq!(run.room(0).state, vec![false, true]);
    assert_eq!(run.room(0).timeline, 2);
    let mut client = client(1);
    let expected = vec![
        state(0, 1),
        enter(0),
        timeline(0, 0),
        call(0, 0, 0),
        wait(0),
        timeline(0, 1),
        call(0, 1, 0),
        wait(0),
        TOKEN,
    ];
    assert_eq!(steps(&mut client, &mut run), expected);
    assert_eq!(client.sync_token(), Some("s1".to_string()));
}

#[test]
fn all_rooms_of_a_reply_are_read() {
    let rooms = vec![
        joined("!a:example.org", vec![STATE_EVENT], vec![]),
        joined("!b:example.org", vec![], vec![MESSAGE]),
        joined("!c:example.org", vec![BROKEN_EVENT], vec![MESSAGE, MESSAGE]),
    ];
    let (response, run) = SyncRun::receive(200, reply("s1", rooms)).unwrap();
    assert_eq!(response.rooms.join.len(), 3);
    let mut ids: Vec<String> = (0..3).map(|i| run.room(i).room_id.clone()).collect();
    ids.sort();
    assert_eq!(ids, vec!["!a:example.org", "!b:example.org", "!c:example.org"]);
    for i in 0..3 {
        let read = run.room(i);
        let (state, timeline) = match read.room_id.as_str() {
            "!a:example.org" => (vec![true], 0),
            "!b:example.org" => (vec![], 1),
            _ => (vec![false], 2),
        };
        assert_eq!(read.state, state);
        assert_eq!(read.timeline, timeline);
    }
}

#[test]
fn a_reply_that_cannot_be_read() {
    for (status, body) in vec![
        (500, reply("s1", vec![])),
        (302, reply("s1", vec![])),
        (200, b"{\"next_batch\": \"s1\"}".to_vec()),
        (200, vec![]),
    ] {
        assert!(matches!(SyncRun::receive(status, body), Err(ClientError::RumaApi(_))));
    }
    assert!(SyncRun::receive(204, reply("s1", vec![])).is_ok());
}

fn synced_settings(action: LoopAction) -> SyncSettings {
    match action {
        LoopAction::Sync(settings) => settings,
        other => panic!("{:?}", other),
    }
}

fn sync_with_room(client: &mut AsyncClient<usize>, next_batch: &str) {
    let rooms = vec![room("!a:x", vec![true], 0)];
    steps(client, &mut SyncRun::new(next_batch.to_string(), rooms));
}

fn url(client: &AsyncClient<usize>, settings: SyncSettings) -> String {
    let url = client.sync(settings).unwrap().url;
    url.replace("https://example.org/_matrix/client/r0/sync", "")
}

#[test]
fn syncing_forever_goes_on_from_the_token() {
    let mut client = client(0);
    let settings = SyncSettings::new().token("s0".to_string()).full_state(true).timeout(5).unwrap();
    let (state, action) = client.sync_forever(SyncLoop::Ready(settings), LoopEvent::Started);
    assert_eq!(url(&client, synced_settings(action)), "?since=s0&full_state=true&timeout=5");
    sync_with_room(&mut client, "s1");
    let (state, action) = client.sync_forever(state, LoopEvent::SyncSucceeded);
    assert!(matches!(action, LoopAction::CallBack));
    let (state, action) = client.sync_forever(state, LoopEvent::CalledBack);
    assert_eq!(url(&client, synced_settings(action)), "?since=s1&timeout=30000");
    sync_with_room(&mut client, "s 2");
    let (state, _) = client.sync_forever(state, LoopEvent::SyncSucceeded);
    let (_, action) = client.sync_forever(state, LoopEvent::CalledBack);
    assert_eq!(url(&client, synced_settings(action)), "?since=s+2&timeout=30000");
}

#[test]
fn the_first_settings_are_not_used_after_a_failure() {
    let mut client = client(0);
    let settings = SyncSettings::new().token("old".to_string()).full_state(true);
    let (state, action) = client.sync_forever(SyncLoop::Ready(settings), LoopEvent::Started);
    assert_eq!(url(&client, synced_settings(action)), "?since=old&full_state=true");
    let (state, action) = client.sync_forever(state, LoopEvent::SyncFailed);
    assert!(matches!(action, LoopAction::Sleep { seconds: 1 }));
    let (state, action) = client.sync_forever(state, LoopEvent::Slept);
    assert_eq!(url(&client, synced_settings(action)), "?timeout=30000");
    sync_with_room(&mut client, "new");
    let (state, _) = client.sync_forever(state, LoopEvent::SyncSucceeded);
    let (state, _) = client.sync_forever(state, LoopEvent::CalledBack);
    let (state, action) = client.sync_forever(state, LoopEvent::SyncFailed);
    assert!(matches!(action, LoopAction::Sleep { seconds: 1 }));
    let (_, action) = client.sync_forever(state, LoopEvent::Slept);
    assert_eq!(url(&client, synced_settings(action)), "?since=new&timeout=30000");
}

#[test]
fn a_failed_first_sync_goes_on_from_the_token_of_the_client() {
    let mut client = client(0);
    sync_with_room(&mut client, "held");
    let settings = SyncSettings::new().token("given".to_string());
    let (state, _) = client.sync_forever(SyncLoop::Ready(settings), LoopEvent::Started);
    let (state, _) = client.sync_forever(state, LoopEvent::SyncFailed);
    let (_, action) = client.sync_forever(state, LoopEvent::Slept);
    assert_eq!(url(&client, synced_settings(action)), "?since=held&timeout=30000");
}

#[test]
fn syncing_forever_goes_on_from_a_reply_without_rooms() {
    let mut client = client(0);
    assert_eq!(client.sync_token(), None);
    let (state, _) = client.sync_forever(SyncLoop::Ready(SyncSettings::new()), LoopEvent::Started);
    steps(&mut client, &mut SyncRun::new("s1".to_string(), vec![]));
    let (state, action) = client.sync_forever(state, LoopEvent::SyncSucceeded);
    assert!(matches!(action, LoopAction::CallBack));
    let (_, action) = client.sync_forever(state, LoopEvent::CalledBack);
    assert_eq!(url(&client, synced_settings(action)), "?since=s1&timeout=30000");
}

#[test]
fn events_come_where_they_were_asked_for() {
    let settings = SyncSettings::new;
    let events = vec![
        LoopEvent::Started,
        LoopEvent::SyncFailed,
        LoopEvent::Slept,
        LoopEvent::SyncSucceeded,
        LoopEvent::CalledBack,
    ];
    for (state, accepted) in vec![
        (SyncLoop::Ready(settings()), vec![true, false, false, false, false]),
        (SyncLoop::FirstSync, vec![false, true, false, true, false]),
        (SyncLoop::Syncing(settings()), vec![false, true, false, true, false]),
        (SyncLoop::Sleeping(settings()), vec![false, false, true, false, false]),
        (SyncLoop::CallingBack, vec![false, false, false, false, true]),
    ] {
        let found: Vec<bool> = events.iter().map(|event| state.accepts(*event)).collect();
        assert_eq!(found, accepted);
    }
}
