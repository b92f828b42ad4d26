//! The intake: messages that visitors leave, from the form to the board.

use vstd::prelude::*;
use vstd::utf8::{encode_utf8, is_ascii_chars, is_ascii_chars_encode_utf8};

use crate::assessment::{
    in_unit_range, is_probability, place, place_of, Assessment, AssessmentView,
};
use crate::codec::{is_digest, is_hex_digit, sha256_hex, sha256_text};
use crate::json::{empty_object, json_text, written_member, Json, JsonTree};
use crate::text::{
    byte_len, byte_prefix, has_byte_prefix, is_byte_prefix, is_white_space, joined,
    lemma_utf8_of_two, same, told, trim, trimmed,
};

verus! {

/// The most messages that wait in the inbox.
pub const MAX_PENDING: usize = 1_000;

/// The least confidence, by the bits of its double, with which a job opportunity
/// becomes a card: three quarters.
pub const CARD_CONFIDENCE: u64 = 0x3fe8_0000_0000_0000;

/// A message as a visitor sends it.
pub struct IncomingMessage {
    pub message: String,
    pub contact: String,
    pub company: String,
    pub role: String,
    pub human_check_token: String,
    pub human_check_answer: String,
}

/// What a message is.
#[verifier::ext_equal]
pub struct MessageView {
    pub message: Seq<char>,
    pub contact: Seq<char>,
    pub company: Seq<char>,
    pub role: Seq<char>,
    pub human_check_token: Seq<char>,
    pub human_check_answer: Seq<char>,
}

impl View for IncomingMessage {
    type V = MessageView;

    open spec fn view(&self) -> MessageView {
        MessageView {
            message: self.message@,
            contact: self.contact@,
            company: self.company@,
            role: self.role@,
            human_check_token: self.human_check_token@,
            human_check_answer: self.human_check_answer@,
        }
    }
}

/// An answer that turns a visitor away: the HTTP status, and what is said.
pub struct Refusal {
    pub status: u16,
    pub message: String,
}

/// What a refusal is.
#[verifier::ext_equal]
pub struct RefusalView {
    pub status: u16,
    pub message: Seq<char>,
}

impl View for Refusal {
    type V = RefusalView;

    open spec fn view(&self) -> RefusalView {
        RefusalView { status: self.status, message: self.message@ }
    }
}

/// What a decision on a visitor says.
pub open spec fn decided<T: View>(result: Result<T, Refusal>) -> Result<T::V, RefusalView> {
    match result {
        Ok(value) => Ok(value@),
        Err(refusal) => Err(refusal@),
    }
}

/// The refusal with this status and message.
pub open spec fn refused(status: u16, message: Seq<char>) -> RefusalView {
    RefusalView { status, message }
}

fn refuse(status: u16, message: &str) -> (result: Refusal)
    ensures
        result@ == refused(status, message@),
{
    Refusal { status, message: message.to_owned() }
}

/// A message without the white space around what the visitor wrote; the token
/// stays as it is.
pub open spec fn tidied(input: MessageView) -> MessageView {
    MessageView {
        message: trimmed(input.message),
        contact: trimmed(input.contact),
        company: trimmed(input.company),
        role: trimmed(input.role),
        human_check_token: input.human_check_token,
        human_check_answer: trimmed(input.human_check_answer),
    }
}

/// Whether a form has a message and a contact, and every field fits.
pub open spec fn is_filled(input: MessageView) -> bool {
    &&& 0 < encode_utf8(input.message).len() <= 8_000
    &&& 0 < encode_utf8(input.contact).len() <= 500
    &&& encode_utf8(input.company).len() <= 256
    &&& encode_utf8(input.role).len() <= 256
}

/// What is taken in of a form.
pub open spec fn accepted_form(input: MessageView) -> Result<MessageView, RefusalView> {
    if is_filled(tidied(input)) {
        Ok(tidied(input))
    } else {
        Err(refused(400, "Check the form fields"@))
    }
}

/// Takes a form in: tidied, where it is filled in.
pub fn accept_form(input: &IncomingMessage) -> (result: Result<IncomingMessage, Refusal>)
    ensures
        decided(result) == accepted_form(input@),
{
    let form = IncomingMessage {
        message: trim(input.message.as_str()).to_owned(),
        contact: trim(input.contact.as_str()).to_owned(),
        company: trim(input.company.as_str()).to_owned(),
        role: trim(input.role.as_str()).to_owned(),
        human_check_token: input.human_check_token.clone(),
        human_check_answer: trim(input.human_check_answer.as_str()).to_owned(),
    };
    let message_length = byte_len(form.message.as_str());
    let contact_length = byte_len(form.contact.as_str());
    if message_length == 0 || message_length > 8_000 || contact_length == 0 || contact_length > 500
        || byte_len(form.company.as_str()) > 256 || byte_len(form.role.as_str()) > 256 {
        return Err(refuse(400, "Check the form fields"));
    }
    Ok(form)
}

/// A message as it is stored, without its human check.
pub open spec fn unchecked(input: MessageView) -> MessageView {
    MessageView { human_check_token: Seq::empty(), human_check_answer: Seq::empty(), ..input }
}

/// The message to store of a form, by whether its human check was passed.
pub open spec fn passed_form(form: MessageView, is_passed: bool) -> Result<
    MessageView,
    RefusalView,
> {
    if is_passed {
        Ok(unchecked(form))
    } else {
        Err(refused(403, "Human check expired or incorrect"@))
    }
}

/// The message to store of a form whose human check was decided.
pub fn pass_check(form: IncomingMessage, check: Result<(), String>) -> (result: Result<
    IncomingMessage,
    Refusal,
>)
    ensures
        decided(result) == passed_form(form@, check is Ok),
{
    match check {
        Ok(_) => Ok(
            IncomingMessage {
                message: form.message,
                contact: form.contact,
                company: form.company,
                role: form.role,
                human_check_token: String::new(),
                human_check_answer: String::new(),
            },
        ),
        Err(_) => Err(refuse(403, "Human check expired or incorrect")),
    }
}

/// The id of a message: the digest of the bytes it is stored as.
pub fn message_id(bytes: &[u8]) -> (result: String)
    ensures
        result@ == sha256_text(bytes@),
        is_digest(result@),
{
    sha256_hex(bytes)
}

/// A message as the inbox has it: its id, and the JSON text of it.
pub struct InboxEntry {
    pub id: String,
    pub text: String,
}

/// A message as the inbox writes it.
pub open spec fn message_json(input: MessageView) -> JsonTree {
    empty_object().with("message"@, JsonTree::Text(input.message)).with(
        "contact"@,
        JsonTree::Text(input.contact),
    ).with("company"@, JsonTree::Text(input.company)).with(
        "role"@,
        JsonTree::Text(input.role),
    ).with("humanCheckToken"@, JsonTree::Text(input.human_check_token)).with(
        "humanCheckAnswer"@,
        JsonTree::Text(input.human_check_answer),
    )
}

/// The JSON text that a message is stored as.
pub open spec fn stored_text(input: MessageView) -> Seq<char> {
    json_text(message_json(input))
}

/// The id that a message is stored under.
pub open spec fn stored_id(input: MessageView) -> Seq<char> {
    sha256_text(encode_utf8(stored_text(input)))
}

/// A message as it is put into the inbox.
pub fn inbox_entry(input: &IncomingMessage) -> (result: InboxEntry)
    ensures
        result.text@ == stored_text(input@),
        result.id@ == stored_id(input@),
        is_digest(result.id@),
{
    let text = Json::empty().with("message", Json::text(input.message.as_str())).with(
        "contact",
        Json::text(input.contact.as_str()),
    ).with("company", Json::text(input.company.as_str())).with(
        "role",
        Json::text(input.role.as_str()),
    ).with("humanCheckToken", Json::text(input.human_check_token.as_str())).with(
        "humanCheckAnswer",
        Json::text(input.human_check_answer.as_str()),
    ).to_text();
    let id = message_id(text.as_str().as_bytes());
    InboxEntry { id, text }
}

/// Whether a message has to be written to the inbox: not where it is there
/// already; and a full inbox takes no new one.
pub open spec fn inbox_step(is_there: bool, pending: nat) -> Result<bool, Seq<char>> {
    if is_there {
        Ok(false)
    } else if pending >= MAX_PENDING {
        Err("Inbox is full"@)
    } else {
        Ok(true)
    }
}

/// The inbox, each message under its id, once a message was put into it.
pub open spec fn filed(inbox: Map<Seq<char>, Seq<char>>, input: MessageView) -> Result<
    Map<Seq<char>, Seq<char>>,
    Seq<char>,
> {
    match inbox_step(inbox.contains_key(stored_id(input)), inbox.dom().len()) {
        Err(error) => Err(error),
        Ok(write) => if write {
            Ok(inbox.insert(stored_id(input), stored_text(input)))
        } else {
            Ok(inbox)
        },
    }
}

/// Whether a message has to be written to the inbox.
pub fn inbox_takes(is_there: bool, pending: usize) -> (result: Result<bool, String>)
    ensures
        told(result) == inbox_step(is_there, pending as nat),
{
    if is_there {
        Ok(false)
    } else if pending >= MAX_PENDING {
        Err("Inbox is full".to_owned())
    } else {
        Ok(true)
    }
}

/// How the attempt to store a message ended.
#[derive(Clone, Copy, Debug, PartialEq, Eq, Structural)]
pub enum Saved {
    Done,
    Failed,
    Lost,
}

/// The receipt for a message.
pub open spec fn receipt_of(id: Seq<char>) -> JsonTree {
    empty_object().with("id"@, JsonTree::Text(id)).with("status"@, JsonTree::Text("pending"@)).with(
        "message"@,
        JsonTree::Text("Thanks. Your message was received."@),
    )
}

/// The answer to a visitor, by how the attempt to store the message ended.
pub open spec fn receipt_after(id: Seq<char>, saved: Saved) -> Result<JsonTree, RefusalView> {
    match saved {
        Saved::Done => Ok(receipt_of(id)),
        Saved::Failed => Err(refused(503, "Inbox unavailable"@)),
        Saved::Lost => Err(refused(500, "Inbox unavailable"@)),
    }
}

/// The answer to a visitor once the message was stored: its receipt.
pub fn receipt(id: &str, saved: Saved) -> (result: Result<Json, Refusal>)
    ensures
        decided(result) == receipt_after(id@, saved),
{
    match saved {
        Saved::Done => Ok(
            Json::empty().with("id", Json::text(id)).with("status", Json::text("pending")).with(
                "message",
                Json::text("Thanks. Your message was received."),
            ),
        ),
        Saved::Failed => Err(refuse(503, "Inbox unavailable")),
        Saved::Lost => Err(refuse(500, "Inbox unavailable")),
    }
}

/// How far a message has come.
pub struct ProcessingResult {
    pub assessment: Assessment,
    pub status: String,
    pub card_id: Option<String>,
}

/// What is known of how far a message has come.
#[verifier::ext_equal]
pub struct ResultView {
    pub assessment: AssessmentView,
    pub status: Seq<char>,
    pub card_id: Option<Seq<char>>,
}

/// The characters of an optional string.
pub open spec fn id_at(id: Option<String>) -> Option<Seq<char>> {
    match id {
        Some(id) => Some(id@),
        None => None,
    }
}

impl View for ProcessingResult {
    type V = ResultView;

    open spec fn view(&self) -> ResultView {
        ResultView {
            assessment: self.assessment@,
            status: self.status@,
            card_id: id_at(self.card_id),
        }
    }
}

/// A message that was assessed, and waits for the mesh.
pub open spec fn waiting(assessment: AssessmentView) -> ResultView {
    ResultView { assessment, status: "awaiting_mesh"@, card_id: None }
}

/// How far a message has come once it was assessed.
pub fn assessed(assessment: Assessment) -> (result: ProcessingResult)
    ensures
        result@ == waiting(assessment@),
{
    ProcessingResult { assessment, status: "awaiting_mesh".to_owned(), card_id: None }
}

/// Whether a message has come all the way.
pub open spec fn is_posted(result: ResultView) -> bool {
    result.status == "chat_posted"@ || result.status == "card_created"@
}

/// What is to be done with an assessed message.
#[derive(Clone, Copy, Debug, PartialEq, Eq, Structural)]
pub enum NextStep {
    Nothing,
    Wait,
    Post,
}

/// What is to be done with a message that came as far as `result` says.
pub open spec fn step_after(result: ResultView, has_writer: bool) -> NextStep {
    if is_posted(result) {
        NextStep::Nothing
    } else if has_writer {
        NextStep::Post
    } else {
        NextStep::Wait
    }
}

/// What is to be done with an assessed message: nothing once it was posted; else
/// it is posted, where the lighthouse has a writer to the workspace.
pub fn next_step(result: &ProcessingResult, has_writer: bool) -> (step: NextStep)
    ensures
        step == step_after(result@, has_writer),
{
    if same(result.status.as_str(), "chat_posted") || same(result.status.as_str(), "card_created") {
        NextStep::Nothing
    } else if has_writer {
        NextStep::Post
    } else {
        NextStep::Wait
    }
}

/// What the writer to the workspace is asked to post.
pub struct LeadRequest {
    pub lead_id: String,
    pub company: String,
    pub role: String,
    pub job_url: String,
    pub body: String,
    pub verdict: String,
    pub create_card: bool,
}

/// Whether a message becomes a card: where it was assessed, with a confidence that
/// is high enough, to be a job opportunity.
pub open spec fn becomes_card(assessment: AssessmentView) -> bool {
    &&& assessment.opportunity.choice == "yes"@
    &&& is_probability(assessment.opportunity.confidence)
    &&& place(assessment.opportunity.confidence) >= place(CARD_CONFIDENCE)
}

/// The address that a lead has of what was taken in under `id`.
pub open spec fn intake_url(id: Seq<char>) -> Seq<char> {
    "intake:"@ + id
}

/// Whether `lead_id` is the id of the lead that is made of what was taken in under
/// `id`: it goes by the first 32 bytes of it.
pub open spec fn names_lead(lead_id: Seq<char>, id: Seq<char>) -> bool {
    exists|part: Seq<char>|
        #[trigger] is_byte_prefix(part, id, 32) && lead_id == "item-"@ + part
}

fn lead_name(id: &str) -> (result: String)
    requires
        has_byte_prefix(id@, 32),
    ensures
        names_lead(result@, id@),
{
    let part = match byte_prefix(id, 32) {
        Some(part) => part,
        None => "",
    };
    assert(is_byte_prefix(part@, id@, 32));
    joined("item-", part)
}

/// A lead that is written by hand: its id, its address and its text.
pub struct HandLead {
    pub id: String,
    pub job_url: String,
    pub body: String,
}

/// The digest that a lead written by hand goes by: that of its company and its
/// role.
pub open spec fn hand_digest(company: Seq<char>, role: Seq<char>) -> Seq<char> {
    sha256_text(encode_utf8(company + "\n"@ + role))
}

/// The lead that is written by hand of a company and a role; the same company and
/// role make the same lead.
pub fn hand_lead(company: &str, role: &str) -> (result: HandLead)
    ensures
        names_lead(result.id@, hand_digest(company@, role@)),
        result.job_url@ == intake_url(hand_digest(company@, role@)),
        result.body@.len() == 0,
{
    let text = joined(joined(company, "\n").as_str(), role);
    let digest = message_id(text.as_str().as_bytes());
    proof {
        law_digest_names_a_lead(digest@);
    }
    HandLead {
        id: lead_name(digest.as_str()),
        job_url: joined("intake:", digest.as_str()),
        body: String::new(),
    }
}

/// What stands for a field that a visitor left empty.
pub open spec fn or_default(text: Seq<char>, default_text: Seq<char>) -> Seq<char> {
    if text.len() == 0 {
        default_text
    } else {
        text
    }
}

fn fill_in(text: &str, default_text: &str) -> (result: String)
    ensures
        result@ == or_default(text@, default_text@),
{
    if text.is_empty() {
        default_text.to_owned()
    } else {
        text.to_owned()
    }
}

/// What is written of a message: its text, whom to contact, and its id.
pub open spec fn body_of(input: MessageView, id: Seq<char>) -> Seq<char> {
    input.message + "\n\nContact: "@ + input.contact + "\nIntake: "@ + id
}

/// Whether `request` is what is posted of a message: it becomes a card only where
/// it was assessed, with high confidence, to be a job opportunity.
pub open spec fn is_request(
    request: LeadRequest,
    id: Seq<char>,
    input: MessageView,
    result: ResultView,
    verdict: Seq<char>,
) -> bool {
    &&& names_lead(request.lead_id@, id)
    &&& request.company@ == or_default(input.company, "Inbound lead"@)
    &&& request.role@ == or_default(input.role, "Job opportunity"@)
    &&& request.job_url@ == intake_url(id)
    &&& request.body@ == body_of(input, id)
    &&& request.verdict@ == verdict
    &&& request.create_card <==> becomes_card(result.assessment)
}

/// What is posted of a message. The id has to have a beginning of 32 bytes, as
/// every digest has.
pub fn lead_request(
    id: &str,
    input: &IncomingMessage,
    result: &ProcessingResult,
    verdict: &str,
) -> (request: LeadRequest)
    requires
        has_byte_prefix(id@, 32),
    ensures
        is_request(request, id@, input@, result@, verdict@),
{
    let mut body = joined(input.message.as_str(), "\n\nContact: ");
    body.append(input.contact.as_str());
    body.append("\nIntake: ");
    body.append(id);
    let is_sure = in_unit_range(result.assessment.confidence) && place_of(
        result.assessment.confidence,
    ) >= place_of(CARD_CONFIDENCE);
    LeadRequest {
        lead_id: lead_name(id),
        company: fill_in(input.company.as_str(), "Inbound lead"),
        role: fill_in(input.role.as_str(), "Job opportunity"),
        job_url: joined("intake:", id),
        body,
        verdict: verdict.to_owned(),
        create_card: same(result.assessment.choice.as_str(), "yes") && is_sure,
    }
}

/// The chat message that a request is posted as.
pub open spec fn chat_text_of(body: Seq<char>, verdict: Seq<char>) -> Seq<char> {
    "New lead\n\n"@ + body + "\n\n"@ + verdict
}

/// The chat message that a request is posted as.
pub fn chat_text(request: &LeadRequest) -> (result: String)
    ensures
        result@ == chat_text_of(request.body@, request.verdict@),
{
    let head = joined(joined("New lead\n\n", request.body.as_str()).as_str(), "\n\n");
    joined(head.as_str(), request.verdict.as_str())
}

/// The writer's reply to a request: the failure to post the message, or the card
/// where one was asked for, or the failure to make it.
pub open spec fn reply_of(
    posted: Result<String, String>,
    create_card: bool,
    card: Result<String, String>,
) -> Result<Option<Seq<char>>, Seq<char>> {
    match posted {
        Err(error) => Err(error@),
        Ok(_) => if create_card {
            match card {
                Ok(id) => Ok(Some(id@)),
                Err(error) => Err(error@),
            }
        } else {
            Ok(None)
        },
    }
}

/// The writer's reply to a request; what `card` holds counts only where the
/// message was posted and a card asked for.
pub fn reply(posted: Result<String, String>, create_card: bool, card: Result<String, String>) -> (
    result: Result<Option<String>, String>)
    ensures
        match result {
            Ok(id) => reply_of(posted, create_card, card) == Ok::<Option<Seq<char>>, Seq<char>>(
                id_at(id),
            ),
            Err(error) => reply_of(posted, create_card, card) == Err::<
                Option<Seq<char>>,
                Seq<char>,
            >(error@),
        },
{
    match posted {
        Ok(_) => if create_card {
            match card {
                Ok(id) => Ok(Some(id)),
                Err(error) => Err(error),
            }
        } else {
            Ok(None)
        },
        Err(error) => Err(error),
    }
}

/// A message that was posted, and became the card `card_id` if it did.
pub open spec fn posted(result: ResultView, card_id: Option<Seq<char>>) -> ResultView {
    ResultView {
        assessment: result.assessment,
        status: if card_id is Some {
            "card_created"@
        } else {
            "chat_posted"@
        },
        card_id,
    }
}

/// How far a message has come once it was posted.
pub fn finish(result: ProcessingResult, card_id: Option<String>) -> (finished: ProcessingResult)
    ensures
        finished@ == posted(result@, id_at(card_id)),
{
    let status = if card_id.is_some() {
        "card_created".to_owned()
    } else {
        "chat_posted".to_owned()
    };
    ProcessingResult { assessment: result.assessment, status, card_id }
}

/// A message that was posted has come all the way: it is not posted again.
pub proof fn law_posted_message_is_done(result: ResultView, card_id: Option<Seq<char>>)
    ensures
        is_posted(posted(result, card_id)),
{
}

/// A message that was assessed has still to be posted.
pub proof fn law_assessed_message_waits(assessment: AssessmentView)
    ensures
        !is_posted(waiting(assessment)),
{
    reveal_strlit("awaiting_mesh");
    reveal_strlit("chat_posted");
    reveal_strlit("card_created");
    assert("awaiting_mesh"@.len() == 13);
    assert("chat_posted"@.len() == 11);
    assert("card_created"@.len() == 12);
}

/// What is taken in fits again: tidying a form that was taken in changes nothing.
pub proof fn law_accepted_form_is_tidy(input: MessageView, form: MessageView)
    requires
        accepted_form(input) == Ok::<MessageView, RefusalView>(form),
    ensures
        accepted_form(form) == Ok::<MessageView, RefusalView>(form),
{
    lemma_trimmed_again(input.message);
    lemma_trimmed_again(input.contact);
    lemma_trimmed_again(input.company);
    lemma_trimmed_again(input.role);
    lemma_trimmed_again(input.human_check_answer);
}

proof fn lemma_trimmed_again(text: Seq<char>)
    ensures
        trimmed(trimmed(text)) == trimmed(text),
    decreases text.len(),
{
    if text.len() > 0 {
        if is_white_space(text[0]) {
            lemma_trimmed_again(text.drop_first());
        } else if is_white_space(text.last()) {
            lemma_trimmed_again(text.drop_last());
        }
    }
}

/// A message whose id is a digest can always be posted: its id names a lead.
pub proof fn law_digest_names_a_lead(id: Seq<char>)
    requires
        is_digest(id),
    ensures
        has_byte_prefix(id, 32),
{
    let part = id.take(32);
    assert forall|i: int| 0 <= i < part.len() implies is_hex_digit(#[trigger] part[i]) by {
        assert(part[i] == id[i]);
    }
    assert(is_ascii_chars(part));
    is_ascii_chars_encode_utf8(part);
    assert(is_byte_prefix(part, id, 32));
}

/// The id of every lead that is asked for, or written by hand, is one that leads
/// may have.
pub proof fn law_requested_id_is_a_lead_id(lead_id: Seq<char>, id: Seq<char>)
    requires
        names_lead(lead_id, id),
    ensures
        "item-"@.is_prefix_of(lead_id),
        encode_utf8(lead_id).len() <= 80,
{
    let part = choose|part: Seq<char>|
        #[trigger] is_byte_prefix(part, id, 32) && lead_id == "item-"@ + part;
    reveal_strlit("item-");
    assert("item-"@.len() == 5);
    assert(is_ascii_chars("item-"@));
    is_ascii_chars_encode_utf8("item-"@);
    lemma_utf8_of_two("item-"@, part);
    assert(("item-"@ + part).take(5) =~= "item-"@);
}

/// One id names one lead: a message that is posted again asks for the same lead.
pub proof fn law_one_id_names_one_lead(first: Seq<char>, second: Seq<char>, id: Seq<char>)
    requires
        names_lead(first, id),
        names_lead(second, id),
    ensures
        first == second,
{
    let a = choose|part: Seq<char>|
        #[trigger] is_byte_prefix(part, id, 32) && first == "item-"@ + part;
    let b = choose|part: Seq<char>|
        #[trigger] is_byte_prefix(part, id, 32) && second == "item-"@ + part;
    if a.len() < b.len() {
        lemma_longer_beginning(a, b, id);
    } else if b.len() < a.len() {
        lemma_longer_beginning(b, a, id);
    } else {
        assert(a =~= b);
    }
}

proof fn lemma_longer_beginning(a: Seq<char>, b: Seq<char>, text: Seq<char>)
    requires
        a.is_prefix_of(text),
        b.is_prefix_of(text),
        a.len() < b.len(),
    ensures
        encode_utf8(a).len() < encode_utf8(b).len(),
{
    let rest = b.skip(a.len() as int);
    assert(b =~= a + rest);
    lemma_utf8_of_two(a, rest);
    assert(rest.len() > 0);
    assert(encode_utf8(rest).len() > 0);
}

/// A message that is sent again, with other white space around it or another human
/// check, is stored once: it has the id of the first, and the inbox stays as it is.
pub proof fn law_message_is_stored_once(
    inbox: Map<Seq<char>, Seq<char>>,
    first: MessageView,
    second: MessageView,
)
    requires
        trimmed(first.message) == trimmed(second.message),
        trimmed(first.contact) == trimmed(second.contact),
        trimmed(first.company) == trimmed(second.company),
        trimmed(first.role) == trimmed(second.role),
        filed(inbox, unchecked(tidied(first))) is Ok,
    ensures
        stored_id(unchecked(tidied(second))) == stored_id(unchecked(tidied(first))),
        filed(inbox, unchecked(tidied(first))) matches Ok(once) && filed(
            once,
            unchecked(tidied(second)),
        ) == Ok::<Map<Seq<char>, Seq<char>>, Seq<char>>(once),
{
    assert(unchecked(tidied(first)) =~= unchecked(tidied(second)));
}

/// Messages that differ in what the visitor wrote are stored as different JSON.
pub proof fn law_other_message_is_stored_apart(first: MessageView, second: MessageView)
    requires
        message_json(unchecked(first)) == message_json(unchecked(second)),
    ensures
        first.message == second.message,
        first.contact == second.contact,
        first.company == second.company,
        first.role == second.role,
{
    broadcast use written_member;

    lemma_message_names();
    let a = message_json(unchecked(first));
    let b = message_json(unchecked(second));
    assert(a.get("message"@) == Some(JsonTree::Text(first.message)));
    assert(b.get("message"@) == Some(JsonTree::Text(second.message)));
    assert(a.get("contact"@) == Some(JsonTree::Text(first.contact)));
    assert(b.get("contact"@) == Some(JsonTree::Text(second.contact)));
    assert(a.get("company"@) == Some(JsonTree::Text(first.company)));
    assert(b.get("company"@) == Some(JsonTree::Text(second.company)));
    assert(a.get("role"@) == Some(JsonTree::Text(first.role)));
    assert(b.get("role"@) == Some(JsonTree::Text(second.role)));
}

proof fn lemma_message_names()
    ensures
        "message"@ != "contact"@,
        "message"@ != "company"@,
        "contact"@ != "company"@,
        "message"@ != "role"@,
        "contact"@ != "role"@,
        "company"@ != "role"@,
        "humanCheckToken"@ != "message"@,
        "humanCheckToken"@ != "contact"@,
        "humanCheckToken"@ != "company"@,
        "humanCheckToken"@ != "role"@,
        "humanCheckAnswer"@ != "message"@,
        "humanCheckAnswer"@ != "contact"@,
        "humanCheckAnswer"@ != "company"@,
        "humanCheckAnswer"@ != "role"@,
{
    reveal_strlit("message");
    reveal_strlit("contact");
    reveal_strlit("company");
    reveal_strlit("role");
    reveal_strlit("humanCheckToken");
    reveal_strlit("humanCheckAnswer");
    assert("message"@[0] == 'm');
    assert("contact"@[0] == 'c');
    assert("company"@[0] == 'c');
    assert("contact"@[2] == 'n');
    assert("company"@[2] == 'm');
    assert("message"@.len() == 7);
    assert("contact"@.len() == 7);
    assert("company"@.len() == 7);
    assert("role"@.len() == 4);
    assert("humanCheckToken"@.len() == 15);
    assert("humanCheckAnswer"@.len() == 16);
}

/// A message that is assessed with a confidence under the bound, or to be anything
/// but a job opportunity, never becomes a card.
pub proof fn law_unsure_message_is_no_card(
    request: LeadRequest,
    id: Seq<char>,
    input: MessageView,
    result: ResultView,
    verdict: Seq<char>,
)
    requires
        is_request(request, id, input, result, verdict),
        result.assessment.opportunity.choice != "yes"@ || place(
            result.assessment.opportunity.confidence,
        ) < place(CARD_CONFIDENCE),
    ensures
        !request.create_card,
{
}

proof fn lemma_receipt_names()
    ensures
        "id"@.len() == 2,
        "status"@.len() == 6,
        "message"@.len() == 7,
{
    reveal_strlit("id");
    reveal_strlit("status");
    reveal_strlit("message");
}

/// A message becomes a card exactly where it was assessed "yes" with a confidence from
/// three quarters to one, by the bits of the double, whatever its role type, its
/// seniority, its probabilities and the model are.
pub proof fn law_sure_opportunity_is_a_card(
    request: LeadRequest,
    id: Seq<char>,
    input: MessageView,
    result: ResultView,
    verdict: Seq<char>,
)
    requires
        is_request(request, id, input, result, verdict),
    ensures
        request.create_card <==> result.assessment.opportunity.choice == "yes"@
            && 0x3fe8_0000_0000_0000 <= result.assessment.opportunity.confidence
            <= 0x3ff0_0000_0000_0000,
{
}

/// Two messages that were assessed alike in choice and confidence ask for a card
/// alike, whatever else is known of them.
pub proof fn law_card_goes_by_choice_and_confidence(
    first: LeadRequest,
    second: LeadRequest,
    id: Seq<char>,
    other_id: Seq<char>,
    input: MessageView,
    other_input: MessageView,
    result: ResultView,
    other_result: ResultView,
    verdict: Seq<char>,
    other_verdict: Seq<char>,
)
    requires
        is_request(first, id, input, result, verdict),
        is_request(second, other_id, other_input, other_result, other_verdict),
        result.assessment.opportunity.choice == other_result.assessment.opportunity.choice,
        result.assessment.opportunity.confidence == other_result.assessment.opportunity.confidence,
    ensures
        first.create_card == second.create_card,
{
}

/// What is posted of a message says what the visitor wrote: its text first, whom to
/// contact, and at last the id; the company and the role, or what stands for one that
/// was left empty; and the verdict as it is. The lead's address and its name go by the
/// id.
pub proof fn law_request_says_what_was_written(
    request: LeadRequest,
    id: Seq<char>,
    input: MessageView,
    result: ResultView,
    verdict: Seq<char>,
)
    requires
        is_request(request, id, input, result, verdict),
    ensures
        request.body@ == input.message + "\n\nContact: "@ + input.contact + "\nIntake: "@ + id,
        request.company@ == if input.company.len() > 0 {
            input.company
        } else {
            "Inbound lead"@
        },
        request.role@ == if input.role.len() > 0 {
            input.role
        } else {
            "Job opportunity"@
        },
        request.job_url@ == "intake:"@ + id,
        request.verdict@ == verdict,
        is_digest(id) ==> request.lead_id@ == "item-"@ + id.take(32),
{
    let part = choose|part: Seq<char>|
        #[trigger] is_byte_prefix(part, id, 32) && request.lead_id@ == "item-"@ + part;
    if is_digest(id) {
        lemma_digest_prefix(id, part);
    }
}

/// A beginning of a digest with 32 bytes has its first 32 characters.
proof fn lemma_digest_prefix(id: Seq<char>, part: Seq<char>)
    requires
        is_digest(id),
        is_byte_prefix(part, id, 32),
    ensures
        part == id.take(32),
{
    assert forall|i: int| 0 <= i < part.len() implies is_hex_digit(#[trigger] part[i]) by {
        assert(part[i] == id[i]);
    }
    assert(is_ascii_chars(part));
    is_ascii_chars_encode_utf8(part);
    assert(part =~= id.take(32));
}

/// The chat message of a request is a heading, its body and its verdict, with an empty
/// line between them.
pub proof fn law_chat_text_is_body_and_verdict(body: Seq<char>, verdict: Seq<char>)
    ensures
        chat_text_of(body, verdict) == "New lead\n\n"@ + body + "\n\n"@ + verdict,
{
}

/// A lead that is written by hand goes by the digest of its company and its role, a
/// line each: the name has the digest's first 32 digits, and the address all of them.
pub proof fn law_hand_lead_goes_by_its_digest(
    company: Seq<char>,
    role: Seq<char>,
    lead_id: Seq<char>,
)
    requires
        names_lead(lead_id, hand_digest(company, role)),
        is_digest(hand_digest(company, role)),
    ensures
        lead_id == "item-"@ + sha256_text(encode_utf8(company + "\n"@ + role)).take(32),
        intake_url(hand_digest(company, role)) == "intake:"@ + sha256_text(
            encode_utf8(company + "\n"@ + role),
        ),
{
    let id = hand_digest(company, role);
    let part = choose|part: Seq<char>|
        #[trigger] is_byte_prefix(part, id, 32) && lead_id == "item-"@ + part;
    lemma_digest_prefix(id, part);
}

/// A form is taken in exactly where, apart from white space, its message has 1 to 8,000
/// bytes, its contact 1 to 500, and its company and its role at most 256 each. What is
/// taken in has each field without the white space around it, and the token as it is.
/// Any other form is turned away with status 400.
pub proof fn law_forms_are_taken_in_by_their_size(input: MessageView)
    ensures
        accepted_form(input) is Ok <==> {
            &&& 1 <= encode_utf8(trimmed(input.message)).len() <= 8_000
            &&& 1 <= encode_utf8(trimmed(input.contact)).len() <= 500
            &&& encode_utf8(trimmed(input.company)).len() <= 256
            &&& encode_utf8(trimmed(input.role)).len() <= 256
        },
        accepted_form(input) matches Ok(form) ==> {
            &&& form.message == trimmed(input.message)
            &&& form.contact == trimmed(input.contact)
            &&& form.company == trimmed(input.company)
            &&& form.role == trimmed(input.role)
            &&& form.human_check_token == input.human_check_token
            &&& form.human_check_answer == trimmed(input.human_check_answer)
        },
        accepted_form(input) matches Err(refusal) ==> refusal.status == 400 && refusal.message
            == "Check the form fields"@,
{
}

/// What is stored of a form has neither its token nor its answer, and the rest as it
/// is.
pub proof fn law_stored_message_has_no_human_check(input: MessageView)
    ensures
        unchecked(input).human_check_token.len() == 0,
        unchecked(input).human_check_answer.len() == 0,
        unchecked(input).message == input.message,
        unchecked(input).contact == input.contact,
        unchecked(input).company == input.company,
        unchecked(input).role == input.role,
{
}

/// A message reads back from the JSON that it is stored as, field by field, and is
/// stored under the digest of that JSON's text.
pub proof fn law_stored_message_reads_back(input: MessageView, key: Seq<char>)
    ensures
        message_json(input).get(key) == if key == "message"@ {
            Some(JsonTree::Text(input.message))
        } else if key == "contact"@ {
            Some(JsonTree::Text(input.contact))
        } else if key == "company"@ {
            Some(JsonTree::Text(input.company))
        } else if key == "role"@ {
            Some(JsonTree::Text(input.role))
        } else if key == "humanCheckToken"@ {
            Some(JsonTree::Text(input.human_check_token))
        } else if key == "humanCheckAnswer"@ {
            Some(JsonTree::Text(input.human_check_answer))
        } else {
            None
        },
        stored_text(input) == json_text(message_json(input)),
        stored_id(input) == sha256_text(encode_utf8(json_text(message_json(input)))),
{
    broadcast use written_member;

    lemma_message_names();
    reveal_strlit("humanCheckToken");
    reveal_strlit("humanCheckAnswer");
    assert("humanCheckToken"@.len() == 15);
    assert("humanCheckAnswer"@.len() == 16);
}

/// The inbox takes every new message while fewer than a thousand wait, and keeps all
/// that are there; a full one refuses it. A message that is there already is taken
/// without a change, even into a full inbox.
pub proof fn law_inbox_takes_a_thousand(
    inbox: Map<Seq<char>, Seq<char>>,
    input: MessageView,
    other: Seq<char>,
)
    ensures
        inbox.contains_key(stored_id(input)) ==> filed(inbox, input) == Ok::<
            Map<Seq<char>, Seq<char>>,
            Seq<char>,
        >(inbox),
        !inbox.contains_key(stored_id(input)) && inbox.dom().len() >= 1_000 ==> filed(inbox, input)
            == Err::<Map<Seq<char>, Seq<char>>, Seq<char>>("Inbox is full"@),
        !inbox.contains_key(stored_id(input)) && inbox.dom().len() < 1_000 ==> (filed(
            inbox,
            input,
        ) matches Ok(after) && after.contains_key(stored_id(input)) && after[stored_id(input)]
            == stored_text(input) && (inbox.contains_key(other) ==> after.contains_key(other)
            && after[other] == inbox[other]) && (after.contains_key(other) && other != stored_id(
            input,
        ) ==> inbox.contains_key(other))),
{
}

/// Whether a message is written to the inbox goes by whether it is there, and by how
/// many wait.
pub proof fn law_inbox_writes_new_messages(is_there: bool, pending: nat)
    ensures
        inbox_step(is_there, pending) == if is_there {
            Ok::<bool, Seq<char>>(false)
        } else if pending < 1_000 {
            Ok(true)
        } else {
            Err("Inbox is full"@)
        },
{
}

/// A receipt names the message, and says that it was received and waits.
pub proof fn law_receipt_names_the_message(id: Seq<char>, key: Seq<char>)
    ensures
        receipt_of(id).get(key) == if key == "id"@ {
            Some(JsonTree::Text(id))
        } else if key == "status"@ {
            Some(JsonTree::Text("pending"@))
        } else if key == "message"@ {
            Some(JsonTree::Text("Thanks. Your message was received."@))
        } else {
            None
        },
{
    broadcast use written_member;

    lemma_receipt_names();
}

/// How far a message has come: once it was assessed it awaits the mesh, without a
/// card; once it was posted it has its card, or was posted to the chat alone. Its
/// assessment stays the same all the way.
pub proof fn law_status_tells_how_far_a_message_came(
    assessment: AssessmentView,
    result: ResultView,
    card_id: Option<Seq<char>>,
)
    ensures
        waiting(assessment).assessment == assessment,
        waiting(assessment).status == "awaiting_mesh"@,
        waiting(assessment).card_id is None,
        posted(result, card_id).assessment == result.assessment,
        posted(result, card_id).card_id == card_id,
        card_id is Some ==> posted(result, card_id).status == "card_created"@,
        card_id is None ==> posted(result, card_id).status == "chat_posted"@,
        is_posted(result) <==> result.status == "card_created"@ || result.status
            == "chat_posted"@,
{
}

/// The writer's reply has a card exactly where the message was posted, a card was asked
/// for, and it was made; a failure on the way is told, and what became of the card does
/// not count where none was asked for.
pub proof fn law_reply_has_the_card_that_was_asked_for(
    posted: Result<String, String>,
    create_card: bool,
    card: Result<String, String>,
)
    ensures
        posted matches Err(error) ==> reply_of(posted, create_card, card) == Err::<
            Option<Seq<char>>,
            Seq<char>,
        >(error@),
        posted is Ok && !create_card ==> reply_of(posted, create_card, card) == Ok::<
            Option<Seq<char>>,
            Seq<char>,
        >(None),
        posted is Ok && create_card ==> (card matches Ok(id) ==> reply_of(posted, create_card, card)
            == Ok::<Option<Seq<char>>, Seq<char>>(Some(id@))),
        posted is Ok && create_card ==> (card matches Err(error) ==> reply_of(
            posted,
            create_card,
            card,
        ) == Err::<Option<Seq<char>>, Seq<char>>(error@)),
{
}

/// A form is stored only where its human check was passed, and then as the visitor wrote
/// it; otherwise it is turned away with status 403.
pub proof fn law_unchecked_form_is_turned_away(form: MessageView)
    ensures
        passed_form(form, true) matches Ok(stored) && stored.message == form.message
            && stored.contact == form.contact && stored.company == form.company && stored.role
            == form.role && stored.human_check_token.len() == 0 && stored.human_check_answer.len()
            == 0,
        passed_form(form, false) matches Err(refusal) && refusal.status == 403 && refusal.message
            == "Human check expired or incorrect"@,
{
}

/// A visitor gets a receipt exactly where the message was stored; otherwise the inbox is
/// told to be unavailable, with status 503 where it failed and 500 where its answer was
/// lost.
pub proof fn law_receipt_is_for_stored_messages(id: Seq<char>, saved: Saved)
    ensures
        receipt_after(id, saved) is Ok <==> saved == Saved::Done,
        saved == Saved::Done ==> receipt_after(id, saved)->Ok_0.text_at("id"@) == Some(id)
            && receipt_after(id, saved)->Ok_0.text_at("status"@) == Some("pending"@),
        saved == Saved::Failed ==> (receipt_after(id, saved) matches Err(refusal) && refusal.status
            == 503 && refusal.message == "Inbox unavailable"@),
        saved == Saved::Lost ==> (receipt_after(id, saved) matches Err(refusal) && refusal.status
            == 500 && refusal.message == "Inbox unavailable"@),
{
    law_receipt_names_the_message(id, "id"@);
    law_receipt_names_the_message(id, "status"@);
    lemma_receipt_names();
}

/// A message is posted exactly where it was not yet and there is a writer; it waits where
/// there is none; and once it was posted, with or without a card, nothing is left to do.
pub proof fn law_message_is_posted_where_there_is_a_writer(
    result: ResultView,
    card_id: Option<Seq<char>>,
    assessment: AssessmentView,
    has_writer: bool,
)
    ensures
        step_after(posted(result, card_id), has_writer) == NextStep::Nothing,
        step_after(waiting(assessment), true) == NextStep::Post,
        step_after(waiting(assessment), false) == NextStep::Wait,
        result.status != "chat_posted"@ && result.status != "card_created"@ ==> step_after(
            result,
            has_writer,
        ) == if has_writer {
            NextStep::Post
        } else {
            NextStep::Wait
        },
        result.status == "chat_posted"@ || result.status == "card_created"@ ==> step_after(
            result,
            has_writer,
        ) == NextStep::Nothing,
{
    law_assessed_message_waits(assessment);
    law_posted_message_is_done(result, card_id);
}

/// A message, a refusal and what became of a message are known by their parts.
pub proof fn law_messages_are_known_by_their_parts(
    message: IncomingMessage,
    refusal: Refusal,
    result: ProcessingResult,
)
    ensures
        message@.message == message.message@,
        message@.contact == message.contact@,
        message@.company == message.company@,
        message@.role == message.role@,
        message@.human_check_token == message.human_check_token@,
        message@.human_check_answer == message.human_check_answer@,
        refusal@.status == refusal.status,
        refusal@.message == refusal.message@,
        decided(Ok::<IncomingMessage, Refusal>(message)) == Ok::<MessageView, RefusalView>(message@),
        decided(Err::<IncomingMessage, Refusal>(refusal)) == Err::<MessageView, RefusalView>(
            refusal@,
        ),
        result@.assessment == result.assessment@,
        result@.status == result.status@,
        result.card_id matches Some(id) ==> result@.card_id == Some(id@),
        result.card_id is None ==> result@.card_id is None,
{
}

} // verus!
