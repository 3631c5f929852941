use forum_search::hits::Doc2Index;
use forum_search::index::init_in_ram;
use forum_search::owner::{
    handle_action, HandleOutcome, PendingReplies, TanAction, TanReply, TicketCounter,
};

const ID_A: &str = "00000000-0000-0000-0000-0000000000a1";

fn doc(id: &str, time: i64, title: &str, content: &str) -> Doc2Index {
    Doc2Index {
        article_id: id.to_string(),
        created_time: time,
        title: title.to_string(),
        content: content.to_string(),
    }
}

fn expect_reply(outcome: HandleOutcome) -> TanReply {
    match outcome {
        HandleOutcome::Reply(reply) => reply,
        other => panic!("expected a reply, got {:?}", other),
    }
}

#[test]
fn mutations_yield_no_reply() {
    let mut index = init_in_ram().expect("index");
    let r = handle_action(
        &mut index,
        TanAction::Add(doc(ID_A, 100, "apple pie", "apple pie recipe")),
    );
    assert!(matches!(r, HandleOutcome::Done));
    let r = handle_action(
        &mut index,
        TanAction::Update(doc(ID_A, 150, "apple pie", "apple crumble recipe")),
    );
    assert!(matches!(r, HandleOutcome::Done));
    let r = handle_action(&mut index, TanAction::Delete(ID_A.to_string()));
    assert!(matches!(r, HandleOutcome::Done));
}

#[test]
fn query_reply_bears_its_ticket() {
    let mut index = init_in_ram().expect("index");
    handle_action(
        &mut index,
        TanAction::Add(doc(ID_A, 100, "apple pie", "apple pie recipe")),
    );
    let reply = expect_reply(handle_action(
        &mut index,
        TanAction::Query(7, "apple".to_string()),
    ));
    assert_eq!(reply.ticket, 7);
    let hits = reply.outcome.expect("query succeeds");
    assert_eq!(hits.len(), 1);
    assert_eq!(hits[0].article_id, ID_A);
}

#[test]
fn empty_query_replies_empty() {
    let mut index = init_in_ram().expect("index");
    let reply = expect_reply(handle_action(&mut index, TanAction::Query(3, String::new())));
    assert_eq!(reply.ticket, 3);
    assert_eq!(reply.outcome.expect("empty query succeeds").len(), 0);
}

#[test]
fn tickets_are_distinct() {
    let mut counter = TicketCounter::new();
    let t1 = counter.fresh().expect("ticket");
    let t2 = counter.fresh().expect("ticket");
    let t3 = counter.fresh().expect("ticket");
    assert_ne!(t1, t2);
    assert_ne!(t2, t3);
    assert_ne!(t1, t3);
}

fn reply(ticket: u64) -> TanReply {
    TanReply {
        ticket,
        outcome: Ok(Vec::new()),
    }
}

#[test]
fn each_caller_collects_only_its_own_reply() {
    let mut pending = PendingReplies::new();
    pending.deposit(reply(1));
    pending.deposit(reply(2));

    let second = pending.collect(2).expect("reply for ticket 2");
    assert_eq!(second.ticket, 2);

    assert!(pending.collect(2).is_none());

    let first = pending.collect(1).expect("reply for ticket 1");
    assert_eq!(first.ticket, 1);

    assert!(pending.collect(1).is_none());
}

#[test]
fn collect_without_reply_waits() {
    let mut pending = PendingReplies::new();
    pending.deposit(reply(5));
    assert!(pending.collect(6).is_none());
    assert_eq!(pending.collect(5).expect("own reply").ticket, 5);
}
