//! Stress of the two-channel handshake with real channels and a real
//! second thread: the worker sends every result before raising its
//! topic, so the consuming side, woken by a topic, must always find the
//! result already queued.

use crossbeam_channel::unbounded;
use crossbeam_utils::thread;
use pbgui_messaging::event_handler::{route, DialogUpdate};
use pbgui_messaging::worker::{respond, Query, QueryOutcome, Response, Worker};
use pbgui_messaging::{Event, IMsg, OMsg, OVpinDialog};

const COMMANDS: usize = 300;

fn fake_db(query: &Query) -> QueryOutcome {
    match query {
        Query::AllRoles => QueryOutcome::Rows(vec!["model".to_string(), "rig".to_string()]),
        Query::AllSites => QueryOutcome::Rows(vec!["playa".to_string()]),
        Query::AllLevels { show } => QueryOutcome::Rows(vec![
            show.clone(),
            format!("{}.rd", show),
            format!("{}.rd.0001", show),
        ]),
        Query::AllDistributions { package } => {
            QueryOutcome::Rows(vec![format!("{}-1.0.0", package)])
        }
    }
}

fn command(k: usize) -> OMsg {
    match k % 3 {
        0 => OMsg::VpinDialog(OVpinDialog::GetRoles),
        1 => OMsg::VpinDialog(OVpinDialog::GetSites),
        _ => OMsg::VpinDialog(OVpinDialog::GetLevels("dev01".to_string())),
    }
}

#[test]
fn topics_never_arrive_before_their_results() {
    let (result_tx, result_rx) = unbounded::<IMsg>();
    let (topic_tx, topic_rx) = unbounded::<String>();
    let (cmd_tx, cmd_rx) = unbounded::<OMsg>();

    for k in 0..COMMANDS {
        cmd_tx.send(command(k)).unwrap();
    }
    cmd_tx.send(OMsg::Quit).unwrap();
    // Commands queued behind Quit must never be consumed.
    cmd_tx.send(OMsg::VpinDialog(OVpinDialog::GetRoles)).unwrap();
    cmd_tx.send(OMsg::VpinDialog(OVpinDialog::GetSites)).unwrap();

    thread::scope(|s| {
        s.spawn(move |_| {
            let mut worker = Worker::new();
            while worker.accepts_commands() {
                let cmd = cmd_rx.recv().unwrap();
                if let Some(query) = worker.handle_command(&cmd) {
                    match respond(&query, fake_db(&query)) {
                        Response::Deliver(d) => {
                            result_tx.send(d.msg).unwrap();
                            topic_tx.send(d.topic.to_text()).unwrap();
                        }
                        Response::Fatal(text) => panic!("{}", text),
                    }
                }
            }
            // The worker stopped on Quit: both commands behind it remain.
            assert_eq!(cmd_rx.len(), 2);
        });

        let mut violations = 0;
        for _ in 0..COMMANDS {
            let text = topic_rx.recv().unwrap();
            let topic = Event::from_text(&text).expect("unknown topic text");
            match result_rx.try_recv() {
                Ok(msg) => match route(topic, msg) {
                    DialogUpdate::Mismatch => panic!("result did not match its topic"),
                    _ => {}
                },
                Err(_) => violations += 1,
            }
        }
        assert_eq!(violations, 0);
    })
    .unwrap();
}
