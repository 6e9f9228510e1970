use minerva::session::{MessageType, Session};

#[test]
fn sessions_are_numbered_in_order() {
    let mut last = 0usize;
    let a = Session::new(&mut last);
    let b = Session::new(&mut last);
    assert_eq!(a.id(), 1);
    assert_eq!(b.id(), 2);
    assert_eq!(last, 2);
    assert_eq!(a.len(), 0);
}

#[test]
fn history_records_prompts_and_replies() {
    let mut last = 5usize;
    let mut s = Session::new(&mut last);
    s.add_userinput("hello".to_string());
    s.assign_agentoutput_block();
    s.push_agentoutput_chunk("Hi".to_string());
    s.push_agentoutput_chunk(" there".to_string());
    assert_eq!(s.len(), 2);
    assert_eq!(s.entry(0), (MessageType::UserInput, "hello".to_string()));
    assert_eq!(s.entry(1), (MessageType::AgentOutput, "Hi there".to_string()));
    assert_eq!(s.id(), 6);
}

#[test]
fn chunk_extends_latest_entry_even_a_prompt() {
    let mut last = 0usize;
    let mut s = Session::new(&mut last);
    s.add_userinput("a".to_string());
    s.push_agentoutput_chunk("b".to_string());
    assert_eq!(s.len(), 1);
    assert_eq!(s.entry(0), (MessageType::UserInput, "ab".to_string()));
}
