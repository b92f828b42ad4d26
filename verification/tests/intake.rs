use match_lighthouse::assessment::Assessment;
use match_lighthouse::intake::{
    accept_form, assessed, chat_text, finish, hand_lead, inbox_entry, inbox_takes, lead_request,
    message_id, next_step, pass_check, receipt, reply, IncomingMessage, NextStep, ProcessingResult,
    Saved, CARD_CONFIDENCE, MAX_PENDING,
};

fn form() -> IncomingMessage {
    IncomingMessage {
        message: " Senior backend role in Berlin\n".to_owned(),
        contact: "\trecruiter@example.com ".to_owned(),
        company: String::new(),
        role: String::new(),
        human_check_token: " token ".to_owned(),
        human_check_answer: " 4 ".to_owned(),
    }
}

fn assessment(choice: &str, confidence: f64) -> Assessment {
    Assessment {
        choice: choice.to_owned(),
        confidence: confidence.to_bits(),
        probabilities: vec![],
        role_type: None,
        seniority: None,
        model: "model".to_owned(),
    }
}

fn result(choice: &str, confidence: f64) -> ProcessingResult {
    assessed(assessment(choice, confidence))
}

#[test]
fn compact_form_does_not_require_company_or_role() {
    let input = accept_form(&IncomingMessage {
        message: "Senior backend role in Berlin".to_owned(),
        contact: "recruiter@example.com".to_owned(),
        company: String::new(),
        role: String::new(),
        human_check_token: "token".to_owned(),
        human_check_answer: "4".to_owned(),
    })
    .ok()
    .unwrap();

    assert!(input.company.is_empty());
    assert!(input.role.is_empty());
}

#[test]
fn forms_are_tidied() {
    let tidy = accept_form(&form()).ok().unwrap();
    assert_eq!(tidy.message, "Senior backend role in Berlin");
    assert_eq!(tidy.contact, "recruiter@example.com");
    assert_eq!(tidy.human_check_token, " token ");
    assert_eq!(tidy.human_check_answer, "4");
    let again = accept_form(&tidy).ok().unwrap();
    assert_eq!(again.message, tidy.message);
    assert_eq!(again.contact, tidy.contact);
}

#[test]
fn forms_that_are_not_filled_in_are_refused() {
    for wrong in [
        IncomingMessage { message: "  ".to_owned(), ..form() },
        IncomingMessage { message: "é".repeat(4_001), ..form() },
        IncomingMessage { contact: String::new(), ..form() },
        IncomingMessage { contact: "x".repeat(501), ..form() },
        IncomingMessage { company: "x".repeat(257), ..form() },
        IncomingMessage { role: "x".repeat(257), ..form() },
    ] {
        let refusal = accept_form(&wrong).err().unwrap();
        assert_eq!(refusal.status, 400);
        assert_eq!(refusal.message, "Check the form fields");
    }
    let most = IncomingMessage {
        message: "é".repeat(4_000),
        contact: "x".repeat(500),
        company: "x".repeat(256),
        role: "x".repeat(256),
        ..form()
    };
    assert!(accept_form(&most).is_ok());
}

#[test]
fn the_human_check_is_not_stored() {
    let stored = pass_check(form(), Ok(())).ok().unwrap();
    assert_eq!(stored.human_check_token, "");
    assert_eq!(stored.human_check_answer, "");
    assert_eq!(stored.message, form().message);
    let refusal = pass_check(form(), Err("Invalid human check".to_owned())).err().unwrap();
    assert_eq!(refusal.status, 403);
    assert_eq!(refusal.message, "Human check expired or incorrect");
}

#[test]
fn a_message_is_named_by_its_digest() {
    assert_eq!(
        message_id(b"abc"),
        "ba7816bf8f01cfea414140de5dae2223b00361a396177a9cb410ff61f20015ad"
    );
}

#[test]
fn the_inbox_is_bounded() {
    assert_eq!(inbox_takes(true, MAX_PENDING), Ok(false));
    assert_eq!(inbox_takes(false, MAX_PENDING - 1), Ok(true));
    assert_eq!(inbox_takes(false, MAX_PENDING), Err("Inbox is full".to_owned()));
}

#[test]
fn a_visitor_gets_a_receipt() {
    assert_eq!(
        receipt("id", Saved::Done).ok().unwrap().to_text(),
        "{\"id\":\"id\",\"status\":\"pending\",\"message\":\"Thanks. Your message was received.\"}"
    );
    let failed = receipt("id", Saved::Failed).err().unwrap();
    assert_eq!((failed.status, failed.message.as_str()), (503, "Inbox unavailable"));
    let lost = receipt("id", Saved::Lost).err().unwrap();
    assert_eq!((lost.status, lost.message.as_str()), (500, "Inbox unavailable"));
}

#[test]
fn an_assessed_message_waits_until_it_is_posted() {
    let waiting = assessed(assessment("yes", 1.0));
    assert_eq!(waiting.status, "awaiting_mesh");
    assert_eq!(waiting.card_id, None);
    assert_eq!(next_step(&waiting, false), NextStep::Wait);
    assert_eq!(next_step(&waiting, true), NextStep::Post);
    let card = finish(waiting, Some("item-1".to_owned()));
    assert_eq!(card.status, "card_created");
    assert_eq!(card.card_id, Some("item-1".to_owned()));
    assert_eq!(next_step(&card, true), NextStep::Nothing);
    let posted = finish(card, None);
    assert_eq!(posted.status, "chat_posted");
    assert_eq!(posted.card_id, None);
    assert_eq!(next_step(&posted, true), NextStep::Nothing);
}

#[test]
fn a_request_carries_the_message() {
    let id = message_id(b"abc");
    let input = accept_form(&form()).ok().unwrap();
    let request = lead_request(&id, &input, &result("yes", 1.0), "verdict");
    assert_eq!(request.lead_id, "item-ba7816bf8f01cfea414140de5dae2223");
    assert_eq!(request.company, "Inbound lead");
    assert_eq!(request.role, "Job opportunity");
    assert_eq!(request.job_url, format!("intake:{id}"));
    assert_eq!(
        request.body,
        format!("Senior backend role in Berlin\n\nContact: recruiter@example.com\nIntake: {id}")
    );
    assert!(request.create_card);
    assert_eq!(
        chat_text(&request),
        format!("New lead\n\n{}\n\nverdict", request.body)
    );
    let named = IncomingMessage {
        company: "Acme".to_owned(),
        role: "Engineer".to_owned(),
        ..accept_form(&form()).ok().unwrap()
    };
    let request = lead_request(&id, &named, &result("uncertain", 1.0), "");
    assert_eq!(request.company, "Acme");
    assert_eq!(request.role, "Engineer");
    assert!(!request.create_card);
}

#[test]
fn the_writer_replies_with_the_card() {
    let ok = || Ok("id".to_owned());
    let err = |text: &str| Err(text.to_owned());
    assert_eq!(reply(ok(), true, Ok("card".to_owned())), Ok(Some("card".to_owned())));
    assert_eq!(reply(ok(), true, err("no card")), Err("no card".to_owned()));
    assert_eq!(reply(ok(), false, err("not asked for")), Ok(None));
    assert_eq!(reply(err("not posted"), true, ok()), Err("not posted".to_owned()));
}

#[test]
fn only_a_sure_job_opportunity_becomes_a_card() {
    assert_eq!(CARD_CONFIDENCE, 0.75f64.to_bits());
    let id = message_id(b"abc");
    let asks = |choice: &str, confidence: f64| {
        lead_request(&id, &form(), &result(choice, confidence), "").create_card
    };
    assert!(asks("yes", 1.0));
    assert!(asks("yes", 0.75));
    assert!(!asks("yes", 0.7499999));
    assert!(!asks("yes", 0.0));
    assert!(!asks("yes", -0.0));
    assert!(!asks("yes", 1.5));
    assert!(!asks("yes", f64::NAN));
    assert!(!asks("no", 1.0));
}

#[test]
fn a_message_is_stored_once() {
    let stored = |input: &IncomingMessage| {
        inbox_entry(&pass_check(accept_form(input).ok().unwrap(), Ok(())).ok().unwrap())
    };
    let first = stored(&form());
    assert_eq!(
        first.text,
        "{\"message\":\"Senior backend role in Berlin\",\"contact\":\"recruiter@example.com\",\
         \"company\":\"\",\"role\":\"\",\"humanCheckToken\":\"\",\"humanCheckAnswer\":\"\"}"
    );
    assert_eq!(first.id, message_id(first.text.as_bytes()));
    let again = IncomingMessage {
        contact: "recruiter@example.com\n".to_owned(),
        human_check_token: "another".to_owned(),
        ..form()
    };
    assert_eq!(stored(&again).id, first.id);
    let other = IncomingMessage { company: "Acme".to_owned(), ..form() };
    assert_ne!(stored(&other).id, first.id);
}

#[test]
fn a_lead_by_hand_goes_by_its_company_and_role() {
    let lead = hand_lead("Acme", "Engineer");
    let digest = message_id(b"Acme\nEngineer");
    assert_eq!(lead.id, format!("item-{}", &digest[..32]));
    assert_eq!(lead.job_url, format!("intake:{digest}"));
    assert_eq!(lead.body, "");
    assert_eq!(hand_lead("Acme", "Engineer").id, lead.id);
    assert_ne!(hand_lead("Acme", "Manager").id, lead.id);
}
