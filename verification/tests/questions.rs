use match_lighthouse::intake::IncomingMessage;
use match_lighthouse::questions::{check_api_key, facts, message_facts, questions};

#[test]
fn the_model_is_asked_three_questions() {
    let asked = questions();
    let names: Vec<&str> = (0..3).map(|i| asked.as_object().unwrap().key(i)).collect();
    assert_eq!(names, vec!["job_opportunity", "role_type", "seniority"]);
    assert_eq!(asked.text_at2("role_type", "type"), Some("choice"));
    assert_eq!(
        asked.text_at3("seniority", "criteria", "unknown"),
        Some("Seniority is not established")
    );
    assert_eq!(
        asked.text_at3("job_opportunity", "criteria", "uncertain"),
        Some("Potentially relevant, but insufficient context")
    );
    assert_eq!(asked.at2("role_type", "criteria").unwrap().as_object().unwrap().len(), 8);
    assert!(asked
        .text_at2("job_opportunity", "instructions")
        .unwrap()
        .ends_with("Do not invent facts."));
}

#[test]
fn the_model_is_told_the_message() {
    assert_eq!(
        facts("c", "r", "m").to_text(),
        "{\"company\":\"c\",\"role\":\"r\",\"message\":\"m\"}"
    );
    let input = |contact: &str| IncomingMessage {
        message: "m".to_owned(),
        contact: contact.to_owned(),
        company: "c".to_owned(),
        role: "r".to_owned(),
        human_check_token: contact.to_owned(),
        human_check_answer: contact.to_owned(),
    };
    assert_eq!(message_facts(&input("a")).to_text(), facts("c", "r", "m").to_text());
    assert_eq!(message_facts(&input("a")), message_facts(&input("b")));
    assert_eq!(
        message_facts(&input("a")).to_text(),
        "{\"company\":\"c\",\"role\":\"r\",\"message\":\"m\"}"
    );
}

#[test]
fn the_key_has_to_be_there() {
    assert_eq!(check_api_key(Some(" key ".to_owned())), Ok(" key ".to_owned()));
    assert_eq!(check_api_key(Some(" \n".to_owned())), Err("JEV_API_KEY is empty".to_owned()));
    assert_eq!(check_api_key(None), Err("JEV_API_KEY is not configured".to_owned()));
}
