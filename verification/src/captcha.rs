//! The human check: a sum to answer, under a signed token that holds for a short
//! time and counts once.

use vstd::prelude::*;
use vstd::utf8::encode_utf8;

use rand::Rng;
use std::time::SystemTime;

use crate::clock::{elapsed_at, seconds_of, unix_seconds};
use crate::codec::{
    base64_bytes, base64_decode, base64_encode, base64_text, hmac_of, hmac_sign, hmac_verify,
    is_digest, sha256_hex, sha256_text,
};
use crate::text::{
    decimal, decimal_text, joined, lemma_parted, parse_decimal, parsed, parted, shown, split_once,
    told,
};

verus! {

/// How many seconds a human check holds.
pub const CAPTCHA_TTL_SECONDS: u64 = 300;

/// What a human check asks, and until when.
#[derive(Clone, Copy, Debug, PartialEq, Eq, Structural)]
pub struct CaptchaPayload {
    pub left: u8,
    pub right: u8,
    pub expires_at: u64,
    pub nonce: u64,
}

/// `Rng::next_u32` of the thread's generator: any number.
#[verifier::external_body]
fn random_u32() -> u32 {
    rand::rng().next_u32()
}

/// `Rng::next_u64` of the thread's generator: any number.
#[verifier::external_body]
fn random_u64() -> u64 {
    rand::rng().next_u64()
}

/// `Rng::fill_bytes` of the thread's generator: any bytes.
#[verifier::external_body]
fn random_bytes() -> [u8; 32] {
    let mut bytes = [0u8; 32];
    rand::rng().fill_bytes(&mut bytes);
    bytes
}

/// The human check that comes of two random numbers, at `now` seconds: two
/// numbers from 2 to 9, for the next five minutes.
pub open spec fn check_of(first: u32, second: u32, now: u64, nonce: u64) -> CaptchaPayload {
    CaptchaPayload {
        left: (2 + first % 8) as u8,
        right: (2 + second % 8) as u8,
        expires_at: if now + CAPTCHA_TTL_SECONDS > u64::MAX {
            u64::MAX
        } else {
            (now + CAPTCHA_TTL_SECONDS) as u64
        },
        nonce,
    }
}

/// Makes a human check of two random numbers, at `now` seconds.
pub fn make_check(first: u32, second: u32, now: u64, nonce: u64) -> (result: CaptchaPayload)
    ensures
        result == check_of(first, second, now, nonce),
        2 <= result.left <= 9,
        2 <= result.right <= 9,
{
    CaptchaPayload {
        left: (2 + first % 8) as u8,
        right: (2 + second % 8) as u8,
        expires_at: now.saturating_add(CAPTCHA_TTL_SECONDS),
        nonce,
    }
}

/// A new human check, which holds for five minutes from the moment that the clock
/// shows.
pub fn draw_check() -> (result: CaptchaPayload)
    ensures
        2 <= result.left <= 9,
        2 <= result.right <= 9,
        exists|now: SystemTime|
            result.expires_at == check_of(
                0,
                0,
                seconds_of(#[trigger] elapsed_at(now)) as u64,
                0,
            ).expires_at,
{
    let first = random_u32();
    let second = random_u32();
    let now = unix_seconds();
    make_check(first, second, now, random_u64())
}

/// A new secret to sign human checks with.
pub fn new_secret() -> [u8; 32] {
    random_bytes()
}

/// How a human check is put to the visitor.
pub open spec fn prompt_of(check: CaptchaPayload) -> Seq<char> {
    decimal(check.left as nat) + " + "@ + decimal(check.right as nat) + " ="@
}

/// How a human check is put to the visitor.
pub fn prompt(check: &CaptchaPayload) -> (result: String)
    ensures
        result@ == prompt_of(*check),
{
    let left = joined(decimal_text(check.left as u128).as_str(), " + ");
    joined(joined(left.as_str(), decimal_text(check.right as u128).as_str()).as_str(), " =")
}

/// Signs what a human check holds.
pub fn sign_captcha(secret: &[u8], payload: &[u8]) -> (result: Result<Vec<u8>, String>)
    ensures
        shown(result) == Ok::<Seq<u8>, Seq<char>>(hmac_of(secret@, payload@)),
{
    match hmac_sign(secret, payload) {
        Ok(code) => Ok(code),
        Err(_) => Err("Cannot sign human check".to_owned()),
    }
}

/// The token of a payload: its bytes and their signature, both in base64.
pub open spec fn sealed(secret: Seq<u8>, payload: Seq<u8>) -> Seq<char> {
    base64_text(payload) + "."@ + base64_text(hmac_of(secret, payload))
}

/// The payload of a token whose signature holds.
pub open spec fn unsealed(secret: Seq<u8>, token: Seq<char>) -> Result<Seq<u8>, Seq<char>> {
    match parted(token, '.') {
        None => Err("Invalid human check"@),
        Some((payload, code)) => match (base64_bytes(payload), base64_bytes(code)) {
            (Ok(payload), Ok(code)) => if code == hmac_of(secret, payload) {
                Ok(payload)
            } else {
                Err("Invalid human check"@)
            },
            _ => Err("Invalid human check"@),
        },
    }
}

/// Makes the token of a payload. It gives the payload back to whoever opens it
/// with the same secret.
pub fn seal_token(secret: &[u8], payload: &[u8]) -> (result: Result<String, String>)
    ensures
        shown(result) == Ok::<Seq<char>, Seq<char>>(sealed(secret@, payload@)),
        unsealed(secret@, sealed(secret@, payload@)) == Ok::<Seq<u8>, Seq<char>>(payload@),
{
    let code = sign_captcha(secret, payload)?;
    let left = base64_encode(payload);
    let right = base64_encode(code.as_slice());
    let token = joined(joined(left.as_str(), ".").as_str(), right.as_str());
    proof {
        reveal_strlit(".");
        assert("."@ =~= seq!['.']);
        lemma_parted(left@, '.', right@);
    }
    Ok(token)
}

/// Opens a token: the payload that was signed.
pub fn open_token(secret: &[u8], token: &str) -> (result: Result<Vec<u8>, String>)
    ensures
        shown(result) == unsealed(secret@, token@),
{
    let (payload, code) = match split_once(token, '.') {
        Some(parts) => parts,
        None => return Err("Invalid human check".to_owned()),
    };
    let payload = match base64_decode(payload) {
        Ok(bytes) => bytes,
        Err(_) => return Err("Invalid human check".to_owned()),
    };
    let code = match base64_decode(code) {
        Ok(bytes) => bytes,
        Err(_) => return Err("Invalid human check".to_owned()),
    };
    match hmac_verify(secret, payload.as_slice(), code.as_slice()) {
        Ok(holds) => if holds {
            Ok(payload)
        } else {
            Err("Invalid human check".to_owned())
        },
        Err(_) => Err("Invalid human check".to_owned()),
    }
}

/// Whether `answer` is the sum that a check asks for, given while it holds.
pub open spec fn is_answered(check: CaptchaPayload, answer: Seq<char>, now: u64) -> bool {
    now <= check.expires_at && parsed(encode_utf8(answer), u16::MAX as nat) == Some(
        (check.left + check.right) as nat,
    )
}

/// Whether `answer` is the sum that a check asks for, given while it holds.
pub fn is_right_answer(check: &CaptchaPayload, answer: &str, now: u64) -> (result: bool)
    requires
        now <= check.expires_at ==> check.left + check.right <= u8::MAX,
    ensures
        result == is_answered(*check, answer@, now),
{
    if now > check.expires_at {
        return false;
    }
    let sum: u8 = check.left + check.right;
    match parse_decimal(answer.as_bytes(), u16::MAX as u64) {
        Some(value) => value == sum as u64,
        None => false,
    }
}

/// The mark that a token leaves when it is used.
pub open spec fn mark_of(token: Seq<char>) -> Seq<char> {
    sha256_text(encode_utf8(token))
}

/// Decides on a human check by its token, the check that its payload was read
/// as, the answer and the moment: the mark to leave.
pub open spec fn answered_mark(
    secret: Seq<u8>,
    token: Seq<char>,
    check: Option<CaptchaPayload>,
    answer: Seq<char>,
    now: u64,
) -> Result<Seq<char>, Seq<char>> {
    match unsealed(secret, token) {
        Err(error) => Err(error),
        Ok(_) => match check {
            None => Err("Invalid human check"@),
            Some(check) => if is_answered(check, answer, now) {
                Ok(mark_of(token))
            } else {
                Err("Invalid human check"@)
            },
        },
    }
}

/// Decides on a human check: its token has to open, and its answer to be right
/// and in time. `check` is what the token's payload was read as, nothing where it
/// is no check. Gives the mark that the token has to leave.
pub fn verify_captcha(
    secret: &[u8],
    token: &str,
    check: Option<CaptchaPayload>,
    answer: &str,
    now: u64,
) -> (result: Result<String, String>)
    requires
        check matches Some(check) ==> (now <= check.expires_at ==> check.left + check.right
            <= u8::MAX),
    ensures
        shown(result) == answered_mark(secret@, token@, check, answer@, now),
        result matches Ok(mark) ==> is_digest(mark@),
{
    match open_token(secret, token) {
        Ok(_) => {},
        Err(error) => return Err(error),
    }
    let check = match check {
        Some(check) => check,
        None => return Err("Invalid human check".to_owned()),
    };
    if is_right_answer(&check, answer, now) {
        Ok(sha256_hex(token.as_bytes()))
    } else {
        Err("Invalid human check".to_owned())
    }
}

/// The decision on a human check by whether its token could leave its mark.
pub open spec fn mark_outcome(left_mark: bool) -> Result<(), Seq<char>> {
    if left_mark {
        Ok(())
    } else {
        Err("Human check already used"@)
    }
}

/// A human check counts where its token left its mark, which it can do once: leaving the
/// mark is what the decision over all marks comes to.
pub proof fn law_mark_decides(
    secret: Seq<u8>,
    token: Seq<char>,
    check: Option<CaptchaPayload>,
    answer: Seq<char>,
    now: u64,
    used: Set<Seq<char>>,
)
    requires
        answered_mark(secret, token, check, answer, now) is Ok,
    ensures
        ({
            let mark = answered_mark(secret, token, check, answer, now)->Ok_0;
            &&& mark_outcome(!used.contains(mark)) is Ok <==> human_check(
                secret,
                token,
                check,
                answer,
                now,
                used,
            ) is Ok
            &&& used.contains(mark) ==> mark_outcome(!used.contains(mark)) == Err::<(), Seq<char>>(
                "Human check already used"@,
            )
        }),
{
}

/// Decides on a human check by whether its token could leave its mark, as a token
/// can that has not left it yet.
pub fn use_check(left_mark: bool) -> (result: Result<(), String>)
    ensures
        told(result) == mark_outcome(left_mark),
{
    if left_mark {
        Ok(())
    } else {
        Err("Human check already used".to_owned())
    }
}

/// The decision on a human check where the marks `used` were left before.
pub open spec fn human_check(
    secret: Seq<u8>,
    token: Seq<char>,
    check: Option<CaptchaPayload>,
    answer: Seq<char>,
    now: u64,
    used: Set<Seq<char>>,
) -> Result<Set<Seq<char>>, Seq<char>> {
    match answered_mark(secret, token, check, answer, now) {
        Err(error) => Err(error),
        Ok(mark) => if used.contains(mark) {
            Err("Human check already used"@)
        } else {
            Ok(used.insert(mark))
        },
    }
}

/// A token that opens carries the signature of its payload: whatever else is
/// changed in it, it is refused.
pub proof fn law_opened_token_is_signed(secret: Seq<u8>, token: Seq<char>)
    ensures
        unsealed(secret, token) matches Ok(payload) ==> (parted(token, '.') matches Some(parts)
            && base64_bytes(parts.0) == Ok::<Seq<u8>, Seq<char>>(payload) && base64_bytes(parts.1)
            == Ok::<Seq<u8>, Seq<char>>(hmac_of(secret, payload))),
        !(unsealed(secret, token) is Ok) ==> unsealed(secret, token) == Err::<Seq<u8>, Seq<char>>(
            "Invalid human check"@,
        ),
{
}

/// A human check counts once: after it was passed, its token is refused,
/// whatever is answered and whenever.
pub proof fn law_check_counts_once(
    secret: Seq<u8>,
    token: Seq<char>,
    check: Option<CaptchaPayload>,
    answer: Seq<char>,
    now: u64,
    used: Set<Seq<char>>,
    check_again: Option<CaptchaPayload>,
    answer_again: Seq<char>,
    later: u64,
)
    requires
        human_check(secret, token, check, answer, now, used) is Ok,
    ensures
        human_check(
            secret,
            token,
            check_again,
            answer_again,
            later,
            human_check(secret, token, check, answer, now, used)->Ok_0,
        ) is Err,
{
}

/// A human check that was made at `now` holds for five minutes and no longer.
pub proof fn law_check_holds_five_minutes(
    first: u32,
    second: u32,
    now: u64,
    nonce: u64,
    later: u64,
    answer: Seq<char>,
)
    requires
        now + CAPTCHA_TTL_SECONDS <= u64::MAX,
        parsed(encode_utf8(answer), u16::MAX as nat) == Some(
            (check_of(first, second, now, nonce).left + check_of(
                first,
                second,
                now,
                nonce,
            ).right) as nat,
        ),
    ensures
        is_answered(check_of(first, second, now, nonce), answer, later) <==> later <= now
            + CAPTCHA_TTL_SECONDS,
{
}

/// A human check asks for the sum of two numbers from 2 to 9, which two random numbers
/// choose, and holds until three hundred seconds after it was made, or to the end of
/// time.
pub proof fn law_check_is_made_of_two_small_numbers(
    first: u32,
    second: u32,
    now: u64,
    nonce: u64,
)
    ensures
        check_of(first, second, now, nonce).left == 2 + first % 8,
        check_of(first, second, now, nonce).right == 2 + second % 8,
        now + 300 <= u64::MAX ==> check_of(first, second, now, nonce).expires_at == now + 300,
        now + 300 > u64::MAX ==> check_of(first, second, now, nonce).expires_at == u64::MAX,
        check_of(first, second, now, nonce).nonce == nonce,
{
}

/// A human check is passed by its sum in decimal, up to and at its last second, and by
/// no other number and no later: the answer is read as a number, which has to be the
/// sum.
pub proof fn law_check_is_passed_by_its_sum(check: CaptchaPayload, answer: Seq<char>, now: u64)
    ensures
        is_answered(check, answer, now) ==> now <= check.expires_at && parsed(
            encode_utf8(answer),
            65_535,
        ) == Some((check.left + check.right) as nat),
        now <= check.expires_at && parsed(encode_utf8(answer), 65_535) == Some(
            (check.left + check.right) as nat,
        ) ==> is_answered(check, answer, now),
{
}

/// A human check is passed exactly where its token opens with the secret, holds a check,
/// and was answered by its sum in time; the mark that it leaves is the digest of the
/// token. A token that has left its mark is refused, and so is anything else, which is
/// told to be invalid.
pub proof fn law_human_check_needs_token_answer_and_time(
    secret: Seq<u8>,
    token: Seq<char>,
    check: Option<CaptchaPayload>,
    answer: Seq<char>,
    now: u64,
    used: Set<Seq<char>>,
)
    ensures
        ({
            let mark = sha256_text(encode_utf8(token));
            let result = human_check(secret, token, check, answer, now, used);
            if unsealed(secret, token) is Ok && check is Some && now <= check->0.expires_at
                && parsed(encode_utf8(answer), 65_535) == Some(
                (check->0.left + check->0.right) as nat,
            ) {
                if used.contains(mark) {
                    result == Err::<Set<Seq<char>>, Seq<char>>("Human check already used"@)
                } else {
                    result == Ok::<Set<Seq<char>>, Seq<char>>(used.insert(mark))
                }
            } else {
                result == Err::<Set<Seq<char>>, Seq<char>>("Invalid human check"@)
            }
        }),
{
}

/// A token is the payload and its code, both in base64, with a full stop between them;
/// it opens with a secret exactly where the code is the payload's under that secret, and
/// then gives the payload.
pub proof fn law_token_opens_by_its_code(secret: Seq<u8>, payload: Seq<u8>, token: Seq<char>)
    ensures
        sealed(secret, payload) == base64_text(payload) + "."@ + base64_text(
            hmac_of(secret, payload),
        ),
        unsealed(secret, token) == Ok::<Seq<u8>, Seq<char>>(payload) <==> (parted(
            token,
            '.',
        ) matches Some(parts) && base64_bytes(parts.0) == Ok::<Seq<u8>, Seq<char>>(payload)
            && base64_bytes(parts.1) == Ok::<Seq<u8>, Seq<char>>(hmac_of(secret, payload))),
{
}

/// The visitor is asked for the sum of the two numbers of the check.
pub proof fn law_prompt_asks_for_the_sum(check: CaptchaPayload)
    ensures
        prompt_of(check) == decimal(check.left as nat) + " + "@ + decimal(check.right as nat)
            + " ="@,
{
}

} // verus!
