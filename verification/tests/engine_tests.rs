use magic_wormhole::engine::api::{
    APIAction, APIEvent, IOAction, IOEvent, InputHelperError, Mood, TimerHandle, WSHandle,
};
use magic_wormhole::engine::boss::BossState;
use magic_wormhole::engine::events::{AppID, Code, Key, Nameplate};
use magic_wormhole::engine::WormholeCore;
use magic_wormhole::io::blocking::{run, ToCore};
use magic_wormhole::io::WormholeIO;
use magic_wormhole::json::Json;
use magic_wormhole::wordlist::{even_words, odd_words};
use sha2::{Digest, Sha256};

const APPID: &str = "lothar.com/wormhole/text-or-file-xfer";
const RELAY: &str = "ws://relay.magic-wormhole.io:4000/v1";

/// One client of the test server: its engine, what it was told, and the
/// frames it sent.
struct Client {
    core: WormholeCore,
    told: Vec<APIAction>,
    sent: Vec<serde_json::Value>,
    socket: Option<WSHandle>,
    opened_sockets: Vec<WSHandle>,
    timers: Vec<(TimerHandle, u64)>,
    side: Option<String>,
    in_mailbox: bool,
}

/// A rendezvous server that keeps one nameplate and one mailbox.
struct Server {
    messages: Vec<(String, String, String)>,
    welcome: String,
    drop_on_claim: bool,
}

fn client() -> Client {
    Client {
        core: WormholeCore::new(AppID(APPID.to_string()), RELAY, WormholeIO::new()),
        told: Vec::new(),
        sent: Vec::new(),
        socket: None,
        opened_sockets: Vec::new(),
        timers: Vec::new(),
        side: None,
        in_mailbox: false,
    }
}

fn server() -> Server {
    Server { messages: Vec::new(), welcome: r#"{"motd":"hello"}"#.to_string(), drop_on_claim: false }
}

fn api(client: &mut Client, event: APIEvent) {
    let actions = client.core.do_api(event);
    client.told.extend(actions);
}

fn io(client: &mut Client, event: IOEvent) {
    let actions = client.core.do_io(event);
    client.told.extend(actions);
}

fn frame(client: &mut Client, text: String) {
    if let Some(socket) = client.socket {
        io(client, IOEvent::WebSocketMessageReceived(socket, text));
    }
}

fn text_of(value: &serde_json::Value, key: &str) -> String {
    value.get(key).and_then(|v| v.as_str()).unwrap_or_else(|| panic!("no {} in {}", key, value)).to_string()
}

fn message_frame(message: &(String, String, String)) -> String {
    format!(
        r#"{{"type":"message","side":"{}","phase":"{}","body":"{}","id":"x"}}"#,
        message.0, message.1, message.2
    )
}

/// Carries out what the engines ask of the transport until they ask for
/// nothing more.
fn pump(clients: &mut Vec<Client>, server: &mut Server) {
    loop {
        let mut busy = false;
        for index in 0..clients.len() {
            let actions = clients[index].core.io.take_actions();
            for action in actions {
                busy = true;
                match action {
                    IOAction::WebSocketOpen(socket, url) => {
                        assert_eq!(url, RELAY);
                        let c = &mut clients[index];
                        c.socket = Some(socket);
                        c.opened_sockets.push(socket);
                        io(c, IOEvent::WebSocketConnectionMade(socket));
                        let welcome = format!(r#"{{"type":"welcome","welcome":{}}}"#, server.welcome);
                        frame(c, welcome);
                    }
                    IOAction::WebSocketSendMessage(socket, text) => {
                        assert_eq!(Some(socket), clients[index].socket);
                        let value: serde_json::Value = serde_json::from_str(&text).unwrap();
                        clients[index].sent.push(value.clone());
                        serve(clients, index, server, &value);
                    }
                    IOAction::WebSocketClose(socket) => {
                        let c = &mut clients[index];
                        c.socket = None;
                        c.in_mailbox = false;
                        io(c, IOEvent::WebSocketConnectionLost(socket));
                    }
                    IOAction::StartTimer(timer, seconds) => {
                        clients[index].timers.push((timer, seconds));
                    }
                    IOAction::CancelTimer(timer) => {
                        clients[index].timers.retain(|t| t.0 != timer);
                    }
                }
            }
        }
        if !busy {
            break;
        }
    }
}

fn serve(clients: &mut Vec<Client>, index: usize, server: &mut Server, value: &serde_json::Value) {
    let kind = text_of(value, "type");
    let id = text_of(value, "id");
    frame(&mut clients[index], format!(r#"{{"type":"ack","id":"{}"}}"#, id));
    match kind.as_str() {
        "bind" => {
            assert_eq!(text_of(value, "appid"), APPID);
            clients[index].side = Some(text_of(value, "side"));
        }
        "allocate" => frame(&mut clients[index], r#"{"type":"allocated","nameplate":"4"}"#.to_string()),
        "list" => frame(
            &mut clients[index],
            r#"{"type":"nameplates","nameplates":[{"id":"4"},{"id":"42"},{"id":"7"}]}"#.to_string(),
        ),
        "claim" => {
            assert_eq!(text_of(value, "nameplate"), "4");
            if server.drop_on_claim {
                server.drop_on_claim = false;
                let c = &mut clients[index];
                let socket = c.socket.take().unwrap();
                c.in_mailbox = false;
                io(c, IOEvent::WebSocketConnectionLost(socket));
            } else {
                frame(&mut clients[index], r#"{"type":"claimed","mailbox":"mb1"}"#.to_string());
            }
        }
        "release" => frame(&mut clients[index], r#"{"type":"released"}"#.to_string()),
        "open" => {
            assert_eq!(text_of(value, "mailbox"), "mb1");
            clients[index].in_mailbox = true;
            for message in server.messages.clone() {
                frame(&mut clients[index], message_frame(&message));
            }
        }
        "add" => {
            let side = clients[index].side.clone().unwrap();
            let message = (side, text_of(value, "phase"), text_of(value, "body"));
            server.messages.push(message.clone());
            for c in clients.iter_mut() {
                if c.in_mailbox {
                    frame(c, message_frame(&message));
                }
            }
        }
        "close" => {
            assert_eq!(text_of(value, "mailbox"), "mb1");
            clients[index].in_mailbox = false;
            frame(&mut clients[index], r#"{"type":"closed"}"#.to_string());
        }
        other => panic!("unexpected frame {}", other),
    }
}

fn codes(told: &[APIAction]) -> Vec<Code> {
    told.iter().filter_map(|a| if let APIAction::GotCode(c) = a { Some(c.copy()) } else { None }).collect()
}

fn keys(told: &[APIAction]) -> Vec<Key> {
    told.iter()
        .filter_map(|a| if let APIAction::GotUnverifiedKey(k) = a { Some(k.copy()) } else { None })
        .collect()
}

fn verifiers(told: &[APIAction]) -> Vec<Vec<u8>> {
    told.iter()
        .filter_map(|a| if let APIAction::GotVerifier(v) = a { Some(v.clone()) } else { None })
        .collect()
}

fn messages(told: &[APIAction]) -> Vec<Vec<u8>> {
    told.iter()
        .filter_map(|a| if let APIAction::GotMessage(m) = a { Some(m.clone()) } else { None })
        .collect()
}

fn moods(told: &[APIAction]) -> Vec<Mood> {
    told.iter().filter_map(|a| if let APIAction::GotClosed(m) = a { Some(*m) } else { None }).collect()
}

fn position(told: &[APIAction], wanted: fn(&APIAction) -> bool) -> Option<usize> {
    told.iter().position(wanted)
}

fn phases_sent(client: &Client) -> Vec<String> {
    client
        .sent
        .iter()
        .filter(|v| text_of(v, "type") == "add")
        .map(|v| text_of(v, "phase"))
        .collect()
}

fn assert_in_order(told: &[APIAction]) {
    assert!(codes(told).len() <= 1);
    assert!(verifiers(told).len() <= 1);
    assert!(moods(told).len() <= 1);
    let verifier = position(told, |a| matches!(a, APIAction::GotVerifier(_)));
    let versions = position(told, |a| matches!(a, APIAction::GotVersions(_)));
    let message = position(told, |a| matches!(a, APIAction::GotMessage(_)));
    let closed = position(told, |a| matches!(a, APIAction::GotClosed(_)));
    if let Some(versions) = versions {
        assert!(verifier.unwrap() < versions);
    }
    if let Some(message) = message {
        assert!(versions.unwrap() < message);
    }
    if let Some(closed) = closed {
        assert_eq!(closed, told.len() - 1);
    }
}

/// Two clients that have started and share the code `code`.
fn pair_with_codes(a_code: &str, b_code: &str) -> (Vec<Client>, Server) {
    let mut clients = vec![client(), client()];
    let mut server = server();
    for c in clients.iter_mut() {
        assert_eq!(c.core.start(), vec![]);
    }
    api(&mut clients[0], APIEvent::SetCode(Code(a_code.to_string())));
    api(&mut clients[1], APIEvent::SetCode(Code(b_code.to_string())));
    pump(&mut clients, &mut server);
    (clients, server)
}

#[test]
fn a_new_engine_has_told_nothing() {
    let c = client();
    assert_eq!(c.core.boss.state, BossState::Unstarted);
    assert_eq!(c.core.rendezvous.side.len(), 16);
    assert_eq!(hex::decode(&c.core.rendezvous.side).unwrap().len(), 8);
    assert_eq!(c.core.rendezvous.appid, APPID);
    assert_eq!(c.core.rendezvous.relay_url, RELAY);
    assert_eq!(c.core.mailbox.side, c.core.rendezvous.side);
    assert_eq!(c.core.key.side, c.core.rendezvous.side);
    assert_eq!(c.core.send.side, c.core.rendezvous.side);
    assert_ne!(client().core.rendezvous.side, c.core.rendezvous.side);
    assert_eq!(c.core.input_helper_committed_nameplate(), None);
}

#[test]
fn start_opens_the_websocket_and_binds() {
    let mut clients = vec![client()];
    let mut server = server();
    assert_eq!(clients[0].core.start(), vec![]);
    assert_eq!(
        clients[0].core.io.pending,
        vec![IOAction::WebSocketOpen(WSHandle { id: 1 }, RELAY.to_string())]
    );
    assert!(clients[0].core.io.socket_is_open(WSHandle { id: 1 }));
    pump(&mut clients, &mut server);
    let side = clients[0].core.rendezvous.side.clone();
    assert_eq!(clients[0].sent.len(), 1);
    assert_eq!(
        clients[0].sent[0].to_string(),
        format!(r#"{{"appid":"{}","id":"0","side":"{}","type":"bind"}}"#, APPID, side)
    );
    assert_eq!(
        clients[0].told,
        vec![APIAction::GotWelcome(Json::Object(vec![("motd".to_string(), Json::text("hello"))]))]
    );
}

#[test]
fn code_allocation_then_text() {
    let mut clients = vec![client(), client()];
    let mut server = server();
    for c in clients.iter_mut() {
        assert_eq!(c.core.start(), vec![]);
    }
    api(&mut clients[0], APIEvent::AllocateCode(2));
    pump(&mut clients, &mut server);
    let code = codes(&clients[0].told);
    assert_eq!(code.len(), 1);
    let parts: Vec<&str> = code[0].0.split('-').collect();
    assert_eq!(parts.len(), 3);
    assert_eq!(parts[0], "4");
    assert!(odd_words().contains(&parts[1].to_string()));
    assert!(even_words().contains(&parts[2].to_string()));

    api(&mut clients[1], APIEvent::SetCode(code[0].copy()));
    pump(&mut clients, &mut server);
    assert_eq!(codes(&clients[1].told), code);
    let key_a = keys(&clients[0].told);
    let key_b = keys(&clients[1].told);
    assert_eq!(key_a.len(), 1);
    assert_eq!(key_a, key_b);
    assert_eq!(key_a[0].0.len(), 32);
    let verifier_a = verifiers(&clients[0].told);
    assert_eq!(verifier_a, verifiers(&clients[1].told));
    assert_eq!(verifier_a, vec![Sha256::digest(&key_a[0].0).to_vec()]);
    for c in clients.iter() {
        assert!(c.told.contains(&APIAction::GotVersions(Json::Object(vec![]))));
        assert_eq!(c.core.boss.state, BossState::Happy);
    }

    api(&mut clients[0], APIEvent::Send(b"hello".to_vec()));
    pump(&mut clients, &mut server);
    assert_eq!(messages(&clients[1].told), vec![b"hello".to_vec()]);
    assert_eq!(messages(&clients[0].told), Vec::<Vec<u8>>::new());

    for index in 0..2 {
        api(&mut clients[index], APIEvent::Close);
        pump(&mut clients, &mut server);
        assert_eq!(moods(&clients[index].told), vec![Mood::Happy]);
        assert_eq!(clients[index].core.boss.state, BossState::Closed);
        assert_in_order(&clients[index].told);
    }
    for c in clients.iter() {
        let kinds: Vec<String> = c.sent.iter().map(|v| text_of(v, "type")).collect();
        assert!(kinds.contains(&"release".to_string()));
        assert_eq!(kinds.last(), Some(&"close".to_string()));
        let close = c.sent.last().unwrap();
        assert_eq!(text_of(close, "mood"), "happy");
    }
}

#[test]
fn both_sides_set_the_same_code() {
    let (mut clients, mut server) = pair_with_codes("4-purple-sausages", "4-purple-sausages");
    for c in clients.iter() {
        assert_eq!(codes(&c.told), vec![Code("4-purple-sausages".to_string())]);
        assert_eq!(keys(&c.told).len(), 1);
        assert_in_order(&c.told);
    }
    assert_eq!(verifiers(&clients[0].told), verifiers(&clients[1].told));
    api(&mut clients[1], APIEvent::Send(b"from b".to_vec()));
    api(&mut clients[0], APIEvent::Send(b"from a".to_vec()));
    pump(&mut clients, &mut server);
    assert_eq!(messages(&clients[0].told), vec![b"from b".to_vec()]);
    assert_eq!(messages(&clients[1].told), vec![b"from a".to_vec()]);
}

#[test]
fn a_wrong_code_scares_both_sides() {
    let (clients, _) = pair_with_codes("4-purple-sausages", "4-purple-potato");
    for c in clients.iter() {
        assert_eq!(moods(&c.told), vec![Mood::Scared]);
        assert_eq!(messages(&c.told), Vec::<Vec<u8>>::new());
        assert!(!c.told.iter().any(|a| matches!(a, APIAction::GotVersions(_))));
        assert_eq!(c.core.boss.state, BossState::Closed);
        assert_eq!(text_of(c.sent.last().unwrap(), "mood"), "scared");
        assert_in_order(&c.told);
    }
    assert_ne!(keys(&clients[0].told), keys(&clients[1].told));
}

#[test]
fn messages_sent_before_the_key_wait_for_it() {
    let mut clients = vec![client(), client()];
    let mut server = server();
    for c in clients.iter_mut() {
        assert_eq!(c.core.start(), vec![]);
    }
    api(&mut clients[0], APIEvent::SetCode(Code("4-a-b".to_string())));
    api(&mut clients[0], APIEvent::Send(b"one".to_vec()));
    api(&mut clients[0], APIEvent::Send(b"two".to_vec()));
    pump(&mut clients, &mut server);
    assert_eq!(phases_sent(&clients[0]), vec!["pake"]);
    api(&mut clients[1], APIEvent::SetCode(Code("4-a-b".to_string())));
    pump(&mut clients, &mut server);
    assert_eq!(messages(&clients[1].told), vec![b"one".to_vec(), b"two".to_vec()]);
    assert_eq!(phases_sent(&clients[0]), vec!["pake", "version", "0", "1"]);
    assert_in_order(&clients[1].told);
}

#[test]
fn outbound_phases_are_numbered_without_repeats() {
    let (mut clients, mut server) = pair_with_codes("4-x-y", "4-x-y");
    for text in ["a", "b", "c", "d"] {
        api(&mut clients[0], APIEvent::Send(text.as_bytes().to_vec()));
    }
    pump(&mut clients, &mut server);
    assert_eq!(phases_sent(&clients[0]), vec!["pake", "version", "0", "1", "2", "3"]);
    assert_eq!(phases_sent(&clients[1]), vec!["pake", "version"]);
    assert_eq!(
        messages(&clients[1].told),
        vec![b"a".to_vec(), b"b".to_vec(), b"c".to_vec(), b"d".to_vec()]
    );
    assert_eq!(clients[0].core.boss.next_phase, 4);
    let ids: Vec<String> = clients[0].sent.iter().map(|v| text_of(v, "id")).collect();
    let mut unique = ids.clone();
    unique.sort();
    unique.dedup();
    assert_eq!(unique.len(), ids.len());
}

#[test]
fn reconnect_after_the_connection_is_lost() {
    let mut clients = vec![client(), client()];
    let mut server = server();
    server.drop_on_claim = true;
    assert_eq!(clients[0].core.start(), vec![]);
    api(&mut clients[0], APIEvent::SetCode(Code("4-purple-sausages".to_string())));
    pump(&mut clients, &mut server);
    let kinds: Vec<String> = clients[0].sent.iter().map(|v| text_of(v, "type")).collect();
    assert_eq!(kinds, vec!["bind", "claim"]);
    assert_eq!(clients[0].timers, vec![(TimerHandle { id: 1 }, 5)]);
    assert!(clients[0].core.io.timer_is_live(TimerHandle { id: 1 }));
    assert_eq!(clients[0].opened_sockets, vec![WSHandle { id: 1 }]);

    // A timer that was never started is not heard.
    let before = clients[0].sent.len();
    assert_eq!(run(&mut clients[0].core, ToCore::TimerExpired(TimerHandle { id: 9 })), vec![]);
    pump(&mut clients, &mut server);
    assert_eq!(clients[0].sent.len(), before);
    assert_eq!(clients[0].opened_sockets, vec![WSHandle { id: 1 }]);

    assert_eq!(run(&mut clients[0].core, ToCore::TimerExpired(TimerHandle { id: 1 })), vec![]);
    pump(&mut clients, &mut server);
    assert_eq!(clients[0].opened_sockets, vec![WSHandle { id: 1 }, WSHandle { id: 2 }]);
    let kinds: Vec<String> = clients[0].sent.iter().map(|v| text_of(v, "type")).collect();
    assert_eq!(kinds, vec!["bind", "claim", "bind", "claim", "open", "add"]);

    assert_eq!(clients[1].core.start(), vec![]);
    api(&mut clients[1], APIEvent::SetCode(Code("4-purple-sausages".to_string())));
    pump(&mut clients, &mut server);
    api(&mut clients[1], APIEvent::Send(b"after all".to_vec()));
    pump(&mut clients, &mut server);
    assert_eq!(messages(&clients[0].told), vec![b"after all".to_vec()]);
    api(&mut clients[0], APIEvent::Close);
    pump(&mut clients, &mut server);
    assert_eq!(moods(&clients[0].told), vec![Mood::Happy]);
}

#[test]
fn closing_while_the_connection_keeps_failing_is_errory() {
    let mut c = client();
    assert_eq!(c.core.start(), vec![]);
    for attempt in 1..=3u32 {
        let actions = c.core.io.take_actions();
        assert_eq!(actions.len(), if attempt == 1 { 1 } else { 1 });
        assert_eq!(actions[0], IOAction::WebSocketOpen(WSHandle { id: attempt }, RELAY.to_string()));
        io(&mut c, IOEvent::WebSocketConnectionLost(WSHandle { id: attempt }));
        let actions = c.core.io.take_actions();
        assert_eq!(actions, vec![IOAction::StartTimer(TimerHandle { id: attempt }, 5)]);
        io(&mut c, IOEvent::TimerExpired(TimerHandle { id: attempt }));
    }
    api(&mut c, APIEvent::Close);
    let actions = c.core.io.take_actions();
    assert_eq!(actions.last(), Some(&IOAction::WebSocketClose(WSHandle { id: 4 })));
    io(&mut c, IOEvent::WebSocketConnectionLost(WSHandle { id: 4 }));
    assert_eq!(c.told, vec![APIAction::GotClosed(Mood::Errory)]);
}

#[test]
fn pending_messages_are_posted_again_after_a_reconnect() {
    let mut clients = vec![client()];
    let mut server = server();
    assert_eq!(clients[0].core.start(), vec![]);
    api(&mut clients[0], APIEvent::SetCode(Code("4-a-b".to_string())));
    pump(&mut clients, &mut server);
    assert_eq!(phases_sent(&clients[0]), vec!["pake"]);
    // The echo has taken the pake message out of what is pending.
    assert_eq!(clients[0].core.mailbox.pending.len(), 0);
    let socket = clients[0].socket.take().unwrap();
    clients[0].in_mailbox = false;
    io(&mut clients[0], IOEvent::WebSocketConnectionLost(socket));
    api(&mut clients[0], APIEvent::Send(b"queued".to_vec()));
    pump(&mut clients, &mut server);
    assert_eq!(clients[0].timers.len(), 1);
    let timer = clients[0].timers[0].0;
    io(&mut clients[0], IOEvent::TimerExpired(timer));
    pump(&mut clients, &mut server);
    let kinds: Vec<String> = clients[0].sent.iter().map(|v| text_of(v, "type")).collect();
    assert_eq!(kinds, vec!["bind", "claim", "open", "add", "bind", "open"]);
}

#[test]
fn an_unwelcome_client_is_closed() {
    let mut clients = vec![client()];
    let mut server = server();
    server.welcome = r#"{"error":"please upgrade"}"#.to_string();
    assert_eq!(clients[0].core.start(), vec![]);
    pump(&mut clients, &mut server);
    assert_eq!(clients[0].told, vec![APIAction::GotClosed(Mood::Unwelcome)]);
    assert_eq!(clients[0].core.boss.state, BossState::Closed);
}

#[test]
fn sending_before_a_code_is_chosen_is_fatal() {
    let mut clients = vec![client()];
    let mut server = server();
    assert_eq!(clients[0].core.start(), vec![]);
    pump(&mut clients, &mut server);
    api(&mut clients[0], APIEvent::Send(b"too early".to_vec()));
    pump(&mut clients, &mut server);
    assert_eq!(moods(&clients[0].told), vec![Mood::Errory]);
    assert_eq!(phases_sent(&clients[0]), Vec::<String>::new());
}

#[test]
fn requests_out_of_turn_are_fatal() {
    for event in [
        APIEvent::AllocateCode(2),
        APIEvent::SetCode(Code("4-a-b".to_string())),
        APIEvent::InputCode,
        APIEvent::InputHelperRefreshNameplates,
        APIEvent::InputHelperChooseNameplate("4".to_string()),
        APIEvent::InputHelperChooseWords("a-b".to_string()),
        APIEvent::Send(vec![1]),
    ] {
        let mut clients = vec![client()];
        let mut server = server();
        api(&mut clients[0], event);
        pump(&mut clients, &mut server);
        assert_eq!(clients[0].told, vec![APIAction::GotClosed(Mood::Errory)]);
    }
    let mut clients = vec![client()];
    let mut server = server();
    assert_eq!(clients[0].core.start(), vec![]);
    assert_eq!(clients[0].core.start(), vec![]);
    pump(&mut clients, &mut server);
    assert_eq!(moods(&clients[0].told), vec![Mood::Errory]);
}

#[test]
fn closing_alone_is_lonely() {
    let mut clients = vec![client()];
    let mut server = server();
    assert_eq!(clients[0].core.start(), vec![]);
    api(&mut clients[0], APIEvent::SetCode(Code("4-a-b".to_string())));
    pump(&mut clients, &mut server);
    api(&mut clients[0], APIEvent::Close);
    pump(&mut clients, &mut server);
    assert_eq!(moods(&clients[0].told), vec![Mood::Lonely]);
    let kinds: Vec<String> = clients[0].sent.iter().map(|v| text_of(v, "type")).collect();
    assert_eq!(kinds, vec!["bind", "claim", "open", "add", "release", "close"]);
    assert_eq!(text_of(&clients[0].sent[4], "nameplate"), "4");
    assert_eq!(text_of(&clients[0].sent[5], "mood"), "lonely");
    assert_in_order(&clients[0].told);
}

#[test]
fn closing_before_the_start_needs_no_server() {
    let mut c = client();
    api(&mut c, APIEvent::Close);
    assert_eq!(c.told, vec![APIAction::GotClosed(Mood::Lonely)]);
    assert_eq!(c.core.io.pending, vec![]);
}

#[test]
fn closing_twice_is_an_error() {
    let (mut clients, mut server) = pair_with_codes("4-a-b", "4-a-b");
    assert_eq!(clients[0].core.do_api(APIEvent::Close), vec![]);
    assert_eq!(clients[0].core.do_api(APIEvent::Close), vec![]);
    pump(&mut clients, &mut server);
    assert_eq!(moods(&clients[0].told), vec![Mood::Errory]);
}

#[test]
fn a_closed_engine_takes_no_more_events() {
    let (mut clients, mut server) = pair_with_codes("4-a-b", "4-a-b");
    api(&mut clients[0], APIEvent::Close);
    pump(&mut clients, &mut server);
    assert_eq!(moods(&clients[0].told), vec![Mood::Happy]);
    let sent = clients[0].sent.len();
    assert_eq!(clients[0].core.do_api(APIEvent::Send(vec![1])), vec![]);
    assert_eq!(clients[0].core.do_api(APIEvent::Close), vec![]);
    assert_eq!(clients[0].core.start(), vec![]);
    assert_eq!(
        clients[0].core.do_io(IOEvent::WebSocketConnectionMade(WSHandle { id: 1 })),
        vec![]
    );
    assert_eq!(run(&mut clients[0].core, ToCore::API(APIEvent::Close)), vec![]);
    pump(&mut clients, &mut server);
    assert_eq!(clients[0].sent.len(), sent);
    assert_eq!(clients[0].core.boss.state, BossState::Closed);
}

#[test]
fn a_server_error_closes_the_session() {
    let mut clients = vec![client()];
    let mut server = server();
    assert_eq!(clients[0].core.start(), vec![]);
    pump(&mut clients, &mut server);
    frame(&mut clients[0], r#"{"type":"error","error":"bad","orig":{}}"#.to_string());
    pump(&mut clients, &mut server);
    assert_eq!(moods(&clients[0].told), vec![Mood::Errory]);
}

#[test]
fn a_frame_that_is_no_json_closes_the_session() {
    let mut clients = vec![client()];
    let mut server = server();
    assert_eq!(clients[0].core.start(), vec![]);
    pump(&mut clients, &mut server);
    frame(&mut clients[0], "garbage".to_string());
    pump(&mut clients, &mut server);
    assert_eq!(moods(&clients[0].told), vec![Mood::Errory]);
}

#[test]
fn frames_that_ask_nothing_are_passed_over() {
    let mut clients = vec![client()];
    let mut server = server();
    assert_eq!(clients[0].core.start(), vec![]);
    pump(&mut clients, &mut server);
    let told = clients[0].told.len();
    for text in [
        r#"{"type":"pong","pong":1}"#,
        r#"{"type":"ack","id":"5"}"#,
        r#"{"type":"something-new"}"#,
        r#"{"type":"nameplates","nameplates":[]}"#,
    ] {
        frame(&mut clients[0], text.to_string());
    }
    // A frame from a socket that is not the current one is ignored too.
    io(&mut clients[0], IOEvent::WebSocketMessageReceived(WSHandle { id: 77 }, "garbage".to_string()));
    pump(&mut clients, &mut server);
    assert_eq!(clients[0].told.len(), told);
    assert_eq!(clients[0].core.boss.state, BossState::Empty);
}

#[test]
fn a_word_of_the_server_that_was_not_asked_for_closes_the_session() {
    for text in [
        r#"{"type":"released"}"#,
        r#"{"type":"closed"}"#,
        r#"{"type":"claimed","mailbox":"mb"}"#,
        r#"{"type":"allocated","nameplate":"4"}"#,
        r#"{"type":"message","side":"s","phase":"pake","body":"00"}"#,
    ] {
        let mut clients = vec![client()];
        let mut server = server();
        assert_eq!(clients[0].core.start(), vec![]);
        pump(&mut clients, &mut server);
        frame(&mut clients[0], text.to_string());
        pump(&mut clients, &mut server);
        assert_eq!(moods(&clients[0].told), vec![Mood::Errory], "{}", text);
    }
}

#[test]
fn interactive_input_completes_nameplates_and_words() {
    let mut clients = vec![client(), client()];
    let mut server = server();
    for c in clients.iter_mut() {
        assert_eq!(c.core.start(), vec![]);
    }
    api(&mut clients[0], APIEvent::SetCode(Code("4-crossover-clockwork".to_string())));
    pump(&mut clients, &mut server);

    let b = &mut clients[1];
    assert_eq!(
        b.core.input_helper_get_nameplate_completions(""),
        Err(InputHelperError::Inactive)
    );
    assert_eq!(b.core.input_helper_get_word_completions(""), Err(InputHelperError::Inactive));
    api(b, APIEvent::InputCode);
    pump(&mut clients, &mut server);
    let b = &mut clients[1];
    assert_eq!(
        b.core.input_helper_get_nameplate_completions(""),
        Ok(vec!["4-".to_string(), "42-".to_string(), "7-".to_string()])
    );
    assert_eq!(
        b.core.input_helper_get_nameplate_completions("4"),
        Ok(vec!["4-".to_string(), "42-".to_string()])
    );
    assert_eq!(b.core.input_helper_get_nameplate_completions("5"), Ok(vec![]));
    assert_eq!(
        b.core.input_helper_get_word_completions("cro"),
        Err(InputHelperError::MustChooseNameplateFirst)
    );
    assert_eq!(b.core.input_helper_committed_nameplate(), None);
    api(b, APIEvent::InputHelperRefreshNameplates);
    api(b, APIEvent::InputHelperChooseNameplate("4".to_string()));
    assert_eq!(b.core.input_helper_committed_nameplate(), Some(Nameplate("4".to_string())));
    // The nameplate is not claimed yet, so there are no words to offer.
    assert_eq!(b.core.input_helper_get_word_completions("cro"), Ok(vec![]));
    pump(&mut clients, &mut server);
    let b = &mut clients[1];
    assert_eq!(
        b.core.input_helper_get_nameplate_completions("4"),
        Err(InputHelperError::AlreadyChoseNameplate)
    );
    assert_eq!(
        b.core.input_helper_get_word_completions("cro"),
        Ok(vec!["crossover-".to_string()])
    );
    assert_eq!(
        b.core.input_helper_get_word_completions("crossover-clock"),
        Ok(vec!["crossover-clockwork".to_string()])
    );
    api(b, APIEvent::InputHelperChooseWords("crossover-clockwork".to_string()));
    assert_eq!(
        b.core.input_helper_get_word_completions(""),
        Err(InputHelperError::AlreadyChoseWords)
    );
    assert_eq!(
        b.core.input_helper_get_nameplate_completions(""),
        Err(InputHelperError::AlreadyChoseWords)
    );
    assert_eq!(b.core.input_helper_committed_nameplate(), None);
    pump(&mut clients, &mut server);
    assert_eq!(codes(&clients[1].told), vec![Code("4-crossover-clockwork".to_string())]);
    assert_eq!(keys(&clients[0].told), keys(&clients[1].told));
    assert_eq!(clients[1].core.boss.state, BossState::Happy);
}

#[test]
fn derive_key_needs_the_verified_key() {
    let mut clients = vec![client(), client()];
    let mut server = server();
    assert_eq!(clients[0].core.derive_key("purpose", 32), None);
    for c in clients.iter_mut() {
        assert_eq!(c.core.start(), vec![]);
    }
    api(&mut clients[0], APIEvent::SetCode(Code("4-a-b".to_string())));
    pump(&mut clients, &mut server);
    assert_eq!(clients[0].core.derive_key("purpose", 32), None);
    api(&mut clients[1], APIEvent::SetCode(Code("4-a-b".to_string())));
    pump(&mut clients, &mut server);
    let key = keys(&clients[0].told)[0].0.clone();
    let mut expected = vec![0u8; 40];
    hkdf::Hkdf::<Sha256>::new(None, &key).expand(b"purpose", &mut expected).unwrap();
    assert_eq!(clients[0].core.derive_key("purpose", 40), Some(expected.clone()));
    assert_eq!(clients[1].core.derive_key("purpose", 40), Some(expected));
    assert_eq!(clients[0].core.derive_key("purpose", 0), Some(vec![]));
    assert_eq!(clients[0].core.derive_key("other", 255).unwrap().len(), 255);
}

#[test]
fn mailbox_messages_are_sealed_for_their_phase() {
    let (mut clients, mut server) = pair_with_codes("4-a-b", "4-a-b");
    api(&mut clients[0], APIEvent::Send(b"secret".to_vec()));
    pump(&mut clients, &mut server);
    let add = clients[0].sent.last().unwrap().clone();
    assert_eq!(text_of(&add, "phase"), "0");
    let body = hex::decode(text_of(&add, "body")).unwrap();
    assert_eq!(body.len(), 24 + 6 + 16);
    let key = keys(&clients[0].told)[0].0.clone();
    let side = clients[0].core.rendezvous.side.clone();
    let mut phase_key = [0u8; 32];
    hkdf::Hkdf::<Sha256>::new(None, &key)
        .expand(format!("{}:phase:0", side).as_bytes(), &mut phase_key)
        .unwrap();
    let nonce = sodiumoxide::crypto::secretbox::Nonce::from_slice(&body[..24]).unwrap();
    let sodium_key = sodiumoxide::crypto::secretbox::Key::from_slice(&phase_key).unwrap();
    assert_eq!(
        sodiumoxide::crypto::secretbox::open(&body[24..], &nonce, &sodium_key),
        Ok(b"secret".to_vec())
    );
}

#[test]
fn run_hands_inputs_to_the_engine() {
    let mut c = client();
    assert_eq!(run(&mut c.core, ToCore::API(APIEvent::Start)), vec![]);
    assert_eq!(
        c.core.io.take_actions(),
        vec![IOAction::WebSocketOpen(WSHandle { id: 1 }, RELAY.to_string())]
    );
    assert_eq!(run(&mut c.core, ToCore::WebSocketConnectionMade(WSHandle { id: 1 })), vec![]);
    let welcome = run(
        &mut c.core,
        ToCore::WebSocketMessageReceived(
            WSHandle { id: 1 },
            r#"{"type":"welcome","welcome":{}}"#.to_string(),
        ),
    );
    assert_eq!(welcome, vec![APIAction::GotWelcome(Json::Object(vec![]))]);
    assert_eq!(run(&mut c.core, ToCore::WebSocketConnectionLost(WSHandle { id: 1 })), vec![]);
    let actions = c.core.io.take_actions();
    assert_eq!(actions.len(), 2);
    assert_eq!(actions[1], IOAction::StartTimer(TimerHandle { id: 1 }, 5));
    assert_eq!(run(&mut c.core, ToCore::IO(IOEvent::TimerExpired(TimerHandle { id: 1 }))), vec![]);
    assert_eq!(
        c.core.io.take_actions(),
        vec![IOAction::WebSocketOpen(WSHandle { id: 2 }, RELAY.to_string())]
    );
}

#[test]
fn the_end_is_told_only_when_all_is_done() {
    let mut core = WormholeCore::new(AppID(APPID.to_string()), RELAY, WormholeIO::new());
    assert_eq!(core.start(), vec![]);
    let socket = match core.io.take_actions().as_slice() {
        [IOAction::WebSocketOpen(socket, _)] => *socket,
        other => panic!("unexpected actions: {:?}", other),
    };
    assert_eq!(core.do_io(IOEvent::WebSocketConnectionMade(socket)), vec![]);
    assert_eq!(core.do_api(APIEvent::SetCode(Code("4-a-b".to_string()))), vec![
        APIAction::GotCode(Code("4-a-b".to_string()))
    ]);
    let claimed = r#"{"type":"claimed","mailbox":"mb1"}"#.to_string();
    assert_eq!(core.do_io(IOEvent::WebSocketMessageReceived(socket, claimed)), vec![]);
    core.io.take_actions();

    assert_eq!(core.do_api(APIEvent::Close), vec![]);
    assert!(core.terminator.closing && !core.terminator.stopping);
    let released = r#"{"type":"released"}"#.to_string();
    assert_eq!(core.do_io(IOEvent::WebSocketMessageReceived(socket, released)), vec![]);
    assert!(!core.terminator.nameplate_active && core.terminator.mailbox_active);
    let closed = r#"{"type":"closed"}"#.to_string();
    assert_eq!(core.do_io(IOEvent::WebSocketMessageReceived(socket, closed)), vec![]);
    assert!(core.terminator.stopping && !core.terminator.stopped);
    assert_eq!(core.io.take_actions().last(), Some(&IOAction::WebSocketClose(socket)));
    assert_eq!(
        core.do_io(IOEvent::WebSocketConnectionLost(socket)),
        vec![APIAction::GotClosed(Mood::Lonely)]
    );
    assert!(core.terminator.stopped);
    assert_eq!(core.do_io(IOEvent::WebSocketConnectionLost(socket)), vec![]);
}

#[test]
fn a_closing_session_tells_nothing_but_the_end() {
    let (mut clients, mut server) = pair_with_codes("4-a-b", "4-a-b");
    let before = clients[0].told.len();
    assert_eq!(clients[0].core.do_api(APIEvent::Close), vec![]);
    api(&mut clients[1], APIEvent::Send(b"late".to_vec()));
    pump(&mut clients, &mut server);
    assert_eq!(&clients[0].told[before..], &[APIAction::GotClosed(Mood::Happy)][..]);
}
