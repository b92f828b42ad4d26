//! The running node: its arguments, its routes to the peers, and the route that
//! it advertises itself.

use std::str::FromStr;

use vstd::prelude::*;
use vstd::utf8::{encode_utf8, is_ascii_chars, is_ascii_chars_encode_utf8};

use crate::clock::{formatted_utc, max_millis, timestamp, utc_text_of};
use crate::json::{count, written_member, Json, JsonTree};
use crate::state::Member;
use crate::text::{
    all_digits, before, decimal, decimal_text, digit, digits_value, lemma_text_order_is_total,
    lemma_text_order_is_transitive, parse_decimal, parsed, same, shown, text_before, texts, told,
    without_plus,
};

verus! {

/// What the program is asked to do.
pub enum Command {
    Join { invite: String, directory: String },
    ServeHttp { directory: String, address: String },
    CreateLead { config: String, company: String, role: String },
    Run { config: String },
}

/// What a command is.
#[verifier::ext_equal]
pub enum CommandView {
    Join { invite: Seq<char>, directory: Seq<char> },
    ServeHttp { directory: Seq<char>, address: Seq<char> },
    CreateLead { config: Seq<char>, company: Seq<char>, role: Seq<char> },
    Run { config: Seq<char> },
}

impl View for Command {
    type V = CommandView;

    open spec fn view(&self) -> CommandView {
        match self {
            Command::Join { invite, directory } => CommandView::Join {
                invite: invite@,
                directory: directory@,
            },
            Command::ServeHttp { directory, address } => CommandView::ServeHttp {
                directory: directory@,
                address: address@,
            },
            Command::CreateLead { config, company, role } => CommandView::CreateLead {
                config: config@,
                company: company@,
                role: role@,
            },
            Command::Run { config } => CommandView::Run { config: config@ },
        }
    }
}

/// What the arguments ask for; or what is wrong with them. `address` is what came of
/// reading the address to serve at.
pub open spec fn command_of(arguments: Seq<Seq<char>>, address: Result<(), String>) -> Result<
    CommandView,
    Seq<char>,
> {
    if arguments.len() == 0 {
        Err(
            "Usage: match-lighthouse CONFIG.json | match-lighthouse join INVITE_URL STATE_DIR"@,
        )
    } else if arguments[0] == "join"@ {
        if arguments.len() < 2 {
            Err("Missing Match workspace invitation URL"@)
        } else if arguments.len() < 3 {
            Err("Missing lighthouse state directory"@)
        } else if arguments.len() > 3 {
            Err("Too many join arguments"@)
        } else {
            Ok(CommandView::Join { invite: arguments[1], directory: arguments[2] })
        }
    } else if arguments[0] == "serve-http"@ {
        if arguments.len() < 2 {
            Err("Missing lighthouse state directory"@)
        } else if address is Err {
            Err(address->Err_0@)
        } else if arguments.len() > 3 {
            Err("Too many serve-http arguments"@)
        } else {
            Ok(
                CommandView::ServeHttp {
                    directory: arguments[1],
                    address: if arguments.len() == 3 {
                        arguments[2]
                    } else {
                        "0.0.0.0:8080"@
                    },
                },
            )
        }
    } else if arguments[0] == "create-lead"@ {
        if arguments.len() < 2 {
            Err("Missing lighthouse configuration"@)
        } else if arguments.len() < 4 {
            Err("Missing lead company or role"@)
        } else if arguments.len() > 4 {
            Err("Too many create-lead arguments"@)
        } else {
            Ok(
                CommandView::CreateLead {
                    config: arguments[1],
                    company: arguments[2],
                    role: arguments[3],
                },
            )
        }
    } else if arguments.len() > 1 {
        Err("Too many arguments"@)
    } else {
        Ok(CommandView::Run { config: arguments[0] })
    }
}

/// Where to serve, as the arguments have it.
pub open spec fn address_of(arguments: Seq<Seq<char>>) -> Seq<char> {
    if arguments.len() >= 3 {
        arguments[2]
    } else {
        "0.0.0.0:8080"@
    }
}

/// What is served is served at the address of the arguments: where there is a command to
/// serve, its address is the third argument, or every address of the machine.
pub proof fn law_served_at_the_address_of_the_arguments(
    arguments: Seq<Seq<char>>,
    address: Result<(), String>,
)
    ensures
        arguments.len() >= 3 ==> address_of(arguments) == arguments[2],
        arguments.len() < 3 ==> address_of(arguments) == "0.0.0.0:8080"@,
        command_of(arguments, address) matches Ok(CommandView::ServeHttp {
            directory,
            address: found,
        }) ==> directory == arguments[1] && found == address_of(arguments),
{
}

/// Where to serve, as the arguments have it: by the third of them, or else at every
/// address of the machine.
pub fn serve_address(arguments: &Vec<String>) -> (result: String)
    ensures
        result@ == address_of(texts(arguments@)),
{
    if arguments.len() >= 3 {
        arguments[2].clone()
    } else {
        "0.0.0.0:8080".to_owned()
    }
}

/// Reads the arguments of the program, without its name. `address` is what came of
/// reading the address to serve at, which counts where something is to be served.
pub fn read_arguments(arguments: &Vec<String>, address: Result<(), String>) -> (result: Result<
    Command,
    String,
>)
    ensures
        shown(result) == command_of(texts(arguments@), address),
{
    let ghost all = texts(arguments@);
    if arguments.len() == 0 {
        return Err(
            "Usage: match-lighthouse CONFIG.json | match-lighthouse join INVITE_URL STATE_DIR".to_owned(),
        );
    }
    assert(all[0] == arguments@[0]@);
    if same(arguments[0].as_str(), "join") {
        if arguments.len() < 2 {
            Err("Missing Match workspace invitation URL".to_owned())
        } else if arguments.len() < 3 {
            Err("Missing lighthouse state directory".to_owned())
        } else if arguments.len() > 3 {
            Err("Too many join arguments".to_owned())
        } else {
            Ok(Command::Join { invite: arguments[1].clone(), directory: arguments[2].clone() })
        }
    } else if same(arguments[0].as_str(), "serve-http") {
        if arguments.len() < 2 {
            return Err("Missing lighthouse state directory".to_owned());
        }
        match address {
            Ok(_) => {},
            Err(error) => return Err(error),
        }
        if arguments.len() > 3 {
            Err("Too many serve-http arguments".to_owned())
        } else {
            let address = serve_address(arguments);
            Ok(Command::ServeHttp { directory: arguments[1].clone(), address })
        }
    } else if same(arguments[0].as_str(), "create-lead") {
        if arguments.len() < 2 {
            Err("Missing lighthouse configuration".to_owned())
        } else if arguments.len() < 4 {
            Err("Missing lead company or role".to_owned())
        } else if arguments.len() > 4 {
            Err("Too many create-lead arguments".to_owned())
        } else {
            Ok(
                Command::CreateLead {
                    config: arguments[1].clone(),
                    company: arguments[2].clone(),
                    role: arguments[3].clone(),
                },
            )
        }
    } else if arguments.len() > 1 {
        Err("Too many arguments".to_owned())
    } else {
        Ok(Command::Run { config: arguments[0].clone() })
    }
}

/// What is wrong with secrets of these lengths, if anything is.
pub open spec fn checked_secrets(device_seed: nat, iroh_secret: nat) -> Result<(), Seq<char>> {
    if device_seed != 32 {
        Err("Lighthouse device seed must contain 32 bytes"@)
    } else if iroh_secret != 32 {
        Err("Lighthouse Iroh secret must contain 32 bytes"@)
    } else {
        Ok(())
    }
}

/// A lighthouse runs with secrets of 32 bytes each and with no other.
pub proof fn law_secrets_have_thirty_two_bytes(device_seed: nat, iroh_secret: nat)
    ensures
        checked_secrets(device_seed, iroh_secret) is Ok <==> device_seed == 32 && iroh_secret == 32,
        device_seed != 32 ==> checked_secrets(device_seed, iroh_secret) == Err::<(), Seq<char>>(
            "Lighthouse device seed must contain 32 bytes"@,
        ),
        device_seed == 32 && iroh_secret != 32 ==> checked_secrets(device_seed, iroh_secret)
            == Err::<(), Seq<char>>("Lighthouse Iroh secret must contain 32 bytes"@),
{
}

/// Checks that the secrets of a configuration have 32 bytes each.
pub fn check_secrets(device_seed: &[u8], iroh_secret: &[u8]) -> (result: Result<(), String>)
    ensures
        told(result) == checked_secrets(device_seed@.len(), iroh_secret@.len()),
{
    if device_seed.len() != 32 {
        Err("Lighthouse device seed must contain 32 bytes".to_owned())
    } else if iroh_secret.len() != 32 {
        Err("Lighthouse Iroh secret must contain 32 bytes".to_owned())
    } else {
        Ok(())
    }
}

/// What is wrong with a handshake, if anything is.
pub open spec fn checked_handshake(
    handshake_workspace_id: Seq<char>,
    workspace_id: Seq<char>,
) -> Result<(), Seq<char>> {
    if handshake_workspace_id == workspace_id {
        Ok(())
    } else {
        Err("Lighthouse handshake targets another workspace"@)
    }
}

/// A handshake is for its own workspace alone: no two workspaces have one in common.
pub proof fn law_handshake_is_for_one_workspace(
    handshake: Seq<char>,
    first: Seq<char>,
    second: Seq<char>,
)
    ensures
        checked_handshake(first, first) is Ok,
        checked_handshake(handshake, first) is Ok && checked_handshake(handshake, second) is Ok
            ==> first == second,
        checked_handshake(handshake, first) matches Err(error) ==> error
            == "Lighthouse handshake targets another workspace"@,
{
}

/// Checks that a handshake is for the workspace.
pub fn check_handshake(handshake_workspace_id: &str, workspace_id: &str) -> (result: Result<
    (),
    String,
>)
    ensures
        told(result) == checked_handshake(handshake_workspace_id@, workspace_id@),
{
    if same(handshake_workspace_id, workspace_id) {
        Ok(())
    } else {
        Err("Lighthouse handshake targets another workspace".to_owned())
    }
}

/// What is wrong with an advertised device and endpoint beside the lighthouse's own, if
/// anything is.
pub open spec fn checked_advertisement(
    advertised: (Seq<char>, Seq<char>),
    own: (Seq<char>, Seq<char>),
) -> Result<(), Seq<char>> {
    if advertised.0 == own.0 && advertised.1 == own.1 {
        Ok(())
    } else {
        Err("Lighthouse advertisement does not match Iroh endpoint"@)
    }
}

/// A lighthouse advertises its own device at its own endpoint, and neither another device
/// nor another endpoint.
pub proof fn law_advertisement_is_of_the_own_device(
    advertised: (Seq<char>, Seq<char>),
    own: (Seq<char>, Seq<char>),
)
    ensures
        checked_advertisement(own, own) is Ok,
        advertised.0 != own.0 || advertised.1 != own.1 ==> checked_advertisement(advertised, own)
            == Err::<(), Seq<char>>("Lighthouse advertisement does not match Iroh endpoint"@),
{
}

/// Checks that the lighthouse advertises its own device, at its own endpoint.
pub fn check_advertisement(member: &Member, device_id: &str, endpoint: &str) -> (result: Result<
    (),
    String,
>)
    ensures
        told(result) == checked_advertisement(
            (member.device_id@, member.endpoint@),
            (device_id@, endpoint@),
        ),
{
    if same(member.device_id.as_str(), device_id) && same(member.endpoint.as_str(), endpoint) {
        Ok(())
    } else {
        Err("Lighthouse advertisement does not match Iroh endpoint".to_owned())
    }
}

/// Whether a text is the id of an endpoint.
pub uninterp spec fn is_endpoint_id(text: Seq<char>) -> bool;

/// `EndpointId::from_str`: whether it reads the text.
#[verifier::external_body]
fn reads_as_endpoint(text: &str) -> (result: bool)
    ensures
        result == is_endpoint_id(text@),
{
    iroh::EndpointId::from_str(text).is_ok()
}

/// Whether a route is one to a peer: the id of an endpoint that is neither the
/// owner's nor the lighthouse's own.
pub open spec fn is_peer_route(route: Seq<char>, owner: Seq<char>, own: Seq<char>) -> bool {
    route != owner && route != own && is_endpoint_id(route)
}

/// Whether texts are in order, none twice.
pub open spec fn in_text_order(list: Seq<Seq<char>>) -> bool {
    forall|i: int, j: int|
        0 <= i < j < list.len() ==> text_before(#[trigger] list[i], #[trigger] list[j])
}

/// Whether `routes` are the routes to keep: those of `signed` that lead to a
/// peer, in order and none twice, and then the owner's.
pub open spec fn are_routes(
    routes: Seq<Seq<char>>,
    signed: Seq<Seq<char>>,
    owner: Seq<char>,
    own: Seq<char>,
) -> bool {
    &&& routes.len() > 0
    &&& routes.last() == owner
    &&& in_text_order(routes.drop_last())
    &&& forall|route: Seq<char>|
        #[trigger] routes.drop_last().contains(route) <==> signed.contains(route) && is_peer_route(
            route,
            owner,
            own,
        )
}

/// Puts a text among texts that are in order, unless it is there.
fn put_in_order(list: &mut Vec<String>, text: &str)
    requires
        in_text_order(texts(old(list)@)),
    ensures
        in_text_order(texts(final(list)@)),
        forall|t: Seq<char>|
            #[trigger] texts(final(list)@).contains(t) <==> texts(old(list)@).contains(t) || t
                == text@,
{
    let ghost start = texts(list@);
    let mut index: usize = 0;
    while index < list.len() && before(list[index].as_str(), text)
        invariant
            index <= list@.len(),
            start == texts(list@),
            start == texts(old(list)@),
            forall|i: int| 0 <= i < index ==> text_before(#[trigger] start[i], text@),
        decreases list@.len() - index,
    {
        index = index + 1;
    }
    if index < list.len() && same(list[index].as_str(), text) {
        assert(start[index as int] == text@);
        return;
    }
    list.insert(index, text.to_owned());
    proof {
        let after = texts(list@);
        assert(after =~= start.insert(index as int, text@));
        assert forall|i: int, j: int| 0 <= i < j < after.len() implies text_before(
            #[trigger] after[i],
            #[trigger] after[j],
        ) by {
            if i < index && j < index {
                assert(after[i] == start[i] && after[j] == start[j]);
            } else if i < index && j == index {
                assert(after[i] == start[i]);
            } else if i == index {
                assert(after[j] == start[j - 1]);
                lemma_text_order_is_total(start[index as int], text@);
                if j - 1 > index {
                    assert(text_before(start[index as int], start[j - 1]));
                    lemma_text_order_is_transitive(text@, start[index as int], start[j - 1]);
                }
            } else {
                assert(after[j] == start[j - 1]);
                if i > index {
                    assert(after[i] == start[i - 1]);
                } else {
                    assert(after[i] == start[i]);
                }
            }
        }
        assert forall|t: Seq<char>| #[trigger] after.contains(t) <==> start.contains(t) || t
            == text@ by {
            if after.contains(t) {
                let i = choose|i: int| 0 <= i < after.len() && after[i] == t;
                if i < index {
                    assert(start[i] == t);
                } else if i > index {
                    assert(start[i - 1] == t);
                }
            }
            if start.contains(t) {
                let i = choose|i: int| 0 <= i < start.len() && start[i] == t;
                if i < index {
                    assert(after[i] == t);
                } else {
                    assert(after[i + 1] == t);
                }
            }
            if t == text@ {
                assert(after[index as int] == t);
            }
        }
    }
}

/// Whether `route` is one of `signed` beside which it is said that it reads as the
/// id of an endpoint, and neither the owner's nor the lighthouse's own.
pub open spec fn is_kept(
    route: Seq<char>,
    signed: Seq<Seq<char>>,
    reads: Seq<bool>,
    owner: Seq<char>,
    own: Seq<char>,
) -> bool {
    &&& route != owner
    &&& route != own
    &&& exists|i: int| 0 <= i < signed.len() && #[trigger] signed[i] == route && reads[i]
}

/// The routes to keep, by whether each signed one reads as the id of an endpoint:
/// in order and none twice, and then the owner's.
pub fn keep_routes(signed: &Vec<String>, reads: &Vec<bool>, owner: &str, own: &str) -> (result: Vec<
    String,
>)
    requires
        signed@.len() == reads@.len(),
    ensures
        result@.len() > 0,
        texts(result@).last() == owner@,
        in_text_order(texts(result@).drop_last()),
        forall|route: Seq<char>| #[trigger]
            texts(result@).drop_last().contains(route) <==> is_kept(
                route,
                texts(signed@),
                reads@,
                owner@,
                own@,
            ),
{
    let ghost all = texts(signed@);
    let mut routes: Vec<String> = Vec::new();
    let mut index: usize = 0;
    while index < signed.len()
        invariant
            index <= signed@.len(),
            signed@.len() == reads@.len(),
            all == texts(signed@),
            in_text_order(texts(routes@)),
            forall|route: Seq<char>| #[trigger]
                texts(routes@).contains(route) <==> is_kept(
                    route,
                    all.take(index as int),
                    reads@,
                    owner@,
                    own@,
                ),
        decreases signed@.len() - index,
    {
        let route = signed[index].as_str();
        let ghost kept = texts(routes@);
        assert(all[index as int] == route@);
        if !same(route, owner) && !same(route, own) && reads[index] {
            put_in_order(&mut routes, route);
        }
        proof {
            let shorter = all.take(index as int);
            let longer = all.take(index + 1);
            assert forall|r: Seq<char>| #[trigger] texts(routes@).contains(r) <==> is_kept(
                r,
                longer,
                reads@,
                owner@,
                own@,
            ) by {
                assert(kept.contains(r) <==> is_kept(r, shorter, reads@, owner@, own@));
                if is_kept(r, longer, reads@, owner@, own@) {
                    let i = choose|i: int|
                        0 <= i < longer.len() && #[trigger] longer[i] == r && reads@[i];
                    if i < index {
                        assert(shorter[i] == r);
                    }
                }
                if is_kept(r, shorter, reads@, owner@, own@) {
                    let i = choose|i: int|
                        0 <= i < shorter.len() && #[trigger] shorter[i] == r && reads@[i];
                    assert(longer[i] == r);
                }
                if r == route@ {
                    assert(longer[index as int] == r);
                }
            }
        }
        index = index + 1;
    }
    assert(all.take(index as int) =~= all);
    let ghost kept = texts(routes@);
    routes.push(owner.to_owned());
    assert(texts(routes@) =~= kept.push(owner@));
    assert(texts(routes@).drop_last() =~= kept);
    routes
}

/// The routes to keep: to the peers whose endpoints are signed, and to the owner.
pub fn next_routes(signed: &Vec<String>, owner: &str, own: &str) -> (result: Vec<String>)
    ensures
        are_routes(texts(result@), texts(signed@), owner@, own@),
{
    let ghost all = texts(signed@);
    let mut reads: Vec<bool> = Vec::new();
    let mut index: usize = 0;
    while index < signed.len()
        invariant
            index <= signed@.len(),
            all == texts(signed@),
            reads@.len() == index,
            forall|i: int| 0 <= i < index ==> #[trigger] reads@[i] == is_endpoint_id(all[i]),
        decreases signed@.len() - index,
    {
        reads.push(reads_as_endpoint(signed[index].as_str()));
        index = index + 1;
    }
    let routes = keep_routes(signed, &reads, owner, own);
    proof {
        let kept = texts(routes@).drop_last();
        assert forall|r: Seq<char>| #[trigger] kept.contains(r) <==> all.contains(r)
            && is_peer_route(r, owner@, own@) by {
            if is_kept(r, all, reads@, owner@, own@) {
                let i = choose|i: int| 0 <= i < all.len() && #[trigger] all[i] == r && reads@[i];
                assert(reads@[i] == is_endpoint_id(all[i]));
            }
            if all.contains(r) && is_peer_route(r, owner@, own@) {
                let i = choose|i: int| 0 <= i < all.len() && all[i] == r;
                assert(reads@[i] == is_endpoint_id(all[i]));
            }
        }
    }
    routes
}

/// Which routes are opened and which are closed.
pub struct RouteChanges {
    pub opened: Vec<String>,
    pub closed: Vec<String>,
}

/// Whether a text is not among `others`.
pub open spec fn missing_from(others: Seq<Seq<char>>) -> spec_fn(Seq<char>) -> bool {
    |text: Seq<char>| !others.contains(text)
}

fn is_among(list: &Vec<String>, text: &str) -> (result: bool)
    ensures
        result == texts(list@).contains(text@),
{
    let ghost all = texts(list@);
    let mut index: usize = 0;
    while index < list.len()
        invariant
            index <= list@.len(),
            all == texts(list@),
            forall|i: int| 0 <= i < index ==> #[trigger] all[i] != text@,
        decreases list@.len() - index,
    {
        if same(list[index].as_str(), text) {
            assert(all[index as int] == text@);
            return true;
        }
        index = index + 1;
    }
    false
}

fn without(list: &Vec<String>, others: &Vec<String>) -> (result: Vec<String>)
    ensures
        texts(result@) == texts(list@).filter(missing_from(texts(others@))),
{
    let ghost all = texts(list@);
    let ghost wanted = missing_from(texts(others@));
    let mut kept: Vec<String> = Vec::new();
    assert(texts(kept@) =~= all.take(0).filter(wanted)) by {
        reveal(Seq::filter);
        assert(all.take(0) =~= Seq::empty());
    }
    let mut index: usize = 0;
    while index < list.len()
        invariant
            index <= list@.len(),
            all == texts(list@),
            wanted == missing_from(texts(others@)),
            texts(kept@) == all.take(index as int).filter(wanted),
        decreases list@.len() - index,
    {
        let ghost so_far = texts(kept@);
        assert(all[index as int] == list@[index as int]@);
        if !is_among(others, list[index].as_str()) {
            kept.push(list[index].clone());
            assert(texts(kept@) =~= so_far.push(all[index as int]));
        }
        proof {
            reveal(Seq::filter);
            assert(all.take(index + 1).drop_last() =~= all.take(index as int));
            assert(all.take(index + 1).last() == all[index as int]);
        }
        index = index + 1;
    }
    assert(all.take(index as int) =~= all);
    kept
}

/// The routes that are opened, when `next` follow on `authorized`.
pub open spec fn opened_routes(authorized: Seq<Seq<char>>, next: Seq<Seq<char>>) -> Seq<Seq<char>> {
    next.filter(missing_from(authorized))
}

/// The routes that are closed, when `next` follow on `authorized`.
pub open spec fn closed_routes(authorized: Seq<Seq<char>>, next: Seq<Seq<char>>) -> Seq<Seq<char>> {
    authorized.filter(missing_from(next))
}

/// Which routes are opened and which are closed, when `next` follow on
/// `authorized`.
pub fn route_changes(authorized: &Vec<String>, next: &Vec<String>) -> (result: RouteChanges)
    ensures
        texts(result.opened@) == opened_routes(texts(authorized@), texts(next@)),
        texts(result.closed@) == closed_routes(texts(authorized@), texts(next@)),
{
    RouteChanges { opened: without(next, authorized), closed: without(authorized, next) }
}

/// After the changes exactly the next routes are open: a route is one of the
/// next where it was open and is not closed, or is opened.
pub proof fn law_changes_lead_to_the_next_routes(
    authorized: Seq<Seq<char>>,
    next: Seq<Seq<char>>,
    route: Seq<char>,
)
    ensures
        next.contains(route) <==> {
            ||| authorized.contains(route) && !authorized.filter(missing_from(next)).contains(route)
            ||| next.filter(missing_from(authorized)).contains(route)
        },
{
    let closed = authorized.filter(missing_from(next));
    let opened = next.filter(missing_from(authorized));
    if closed.contains(route) {
        let i = choose|i: int| 0 <= i < closed.len() && closed[i] == route;
        authorized.lemma_filter_pred(missing_from(next), i);
    }
    if opened.contains(route) {
        next.lemma_filter_contains_rev(missing_from(authorized), route);
    }
    if authorized.contains(route) && !next.contains(route) {
        let i = choose|i: int| 0 <= i < authorized.len() && authorized[i] == route;
        authorized.lemma_filter_contains(missing_from(next), i);
    }
    if next.contains(route) && !authorized.contains(route) {
        let i = choose|i: int| 0 <= i < next.len() && next[i] == route;
        next.lemma_filter_contains(missing_from(authorized), i);
    }
}

/// The least time between two attempts to connect, in milliseconds.
pub const RECONNECT_MIN_MS: u64 = 10_000;

/// The most time between two attempts to connect, in milliseconds.
pub const RECONNECT_MAX_MS: u64 = 60_000;

/// Whether a peer may be connected to at `now`.
pub open spec fn may_retry(retry_at: Option<u64>, now: u64) -> bool {
    match retry_at {
        Some(moment) => moment <= now,
        None => true,
    }
}

/// Whether a peer may be connected to at `now`: not before the moment that the
/// last failure set.
pub fn may_connect(retry_at: Option<u64>, now: u64) -> (result: bool)
    ensures
        result == may_retry(retry_at, now),
{
    match retry_at {
        Some(moment) => moment <= now,
        None => true,
    }
}

/// What becomes of a connection after the workspace was published to it.
#[derive(Clone, Copy, Debug, PartialEq, Eq, Structural)]
pub enum AfterPublish {
    Good,
    Keep,
    Drop,
}

/// What becomes of a connection after the workspace was published to it.
pub open spec fn publish_outcome(published: Result<(), String>) -> AfterPublish {
    match published {
        Ok(_) => AfterPublish::Good,
        Err(error) => if error@ == "Unauthenticated mesh peer"@ {
            AfterPublish::Keep
        } else {
            AfterPublish::Drop
        },
    }
}

/// What becomes of a connection after the workspace was published to it: a peer
/// that is not authenticated yet is kept, any other failure ends the connection.
pub fn after_publish(published: &Result<(), String>) -> (result: AfterPublish)
    ensures
        result == publish_outcome(*published),
{
    match published {
        Ok(_) => AfterPublish::Good,
        Err(error) => if same(error.as_str(), "Unauthenticated mesh peer") {
            AfterPublish::Keep
        } else {
            AfterPublish::Drop
        },
    }
}

/// The number of the route after the stored one: one more, and at least the
/// moment `now`.
pub open spec fn following(previous: nat, now: u64) -> nat {
    let one_more: nat = if previous < u64::MAX {
        previous + 1
    } else {
        previous
    };
    if one_more >= now {
        one_more
    } else {
        now as nat
    }
}

/// The number of the next route; where none is stored, the last one was 0.
pub open spec fn sequence_of(stored: Option<Seq<u8>>, now: u64) -> Result<nat, Seq<char>> {
    match stored {
        None => Ok(following(0, now)),
        Some(bytes) => match parsed(bytes, u64::MAX as nat) {
            Some(previous) => Ok(following(previous, now)),
            None => Err("Invalid lighthouse route sequence"@),
        },
    }
}

/// The number of the next route, by the stored one, in decimal, and the moment.
pub fn next_route_sequence(stored: Option<&[u8]>, now: u64) -> (result: Result<u64, String>)
    ensures
        match result {
            Ok(sequence) => sequence_of(
                match stored {
                    Some(bytes) => Some(bytes@),
                    None => None,
                },
                now,
            ) == Ok::<nat, Seq<char>>(sequence as nat),
            Err(error) => sequence_of(
                match stored {
                    Some(bytes) => Some(bytes@),
                    None => None,
                },
                now,
            ) == Err::<nat, Seq<char>>(error@),
        },
{
    let previous: u64 = match stored {
        Some(bytes) => match parse_decimal(bytes, u64::MAX) {
            Some(previous) => previous,
            None => return Err("Invalid lighthouse route sequence".to_owned()),
        },
        None => 0,
    };
    let one_more: u64 = previous.saturating_add(1);
    if one_more >= now {
        Ok(one_more)
    } else {
        Ok(now)
    }
}

/// The number of a route, as it is stored.
pub fn sequence_text(sequence: u64) -> (result: String)
    ensures
        result@ == decimal(sequence as nat),
{
    decimal_text(sequence as u128)
}

proof fn lemma_decimal_digits(n: nat)
    ensures
        decimal(n).len() > 0,
        forall|i: int| 0 <= i < decimal(n).len() ==> '0' <= #[trigger] decimal(n)[i] <= '9',
    decreases n,
{
    if n >= 10 {
        lemma_decimal_digits(n / 10);
    }
}

proof fn lemma_decimal_value(n: nat, bytes: Seq<u8>)
    requires
        bytes.len() == decimal(n).len(),
        forall|i: int| 0 <= i < bytes.len() ==> #[trigger] bytes[i] == decimal(n)[i] as u8,
    ensures
        all_digits(bytes),
        digits_value(bytes) == n,
    decreases n,
{
    lemma_decimal_digits(n);
    assert forall|i: int| 0 <= i < bytes.len() implies 0x30 <= #[trigger] bytes[i] <= 0x39 by {
        let c = decimal(n)[i];
        assert('0' <= c <= '9');
        assert(bytes[i] == c as u8);
    }
    let shorter = bytes.drop_last();
    if n < 10 {
        assert(shorter.len() == 0);
        assert(bytes[0] == digit(n) as u8);
        assert(digits_value(shorter) == 0);
    } else {
        let higher = decimal(n / 10);
        assert(decimal(n).drop_last() =~= higher);
        assert forall|i: int| 0 <= i < shorter.len() implies #[trigger] shorter[i] == higher[i]
            as u8 by {
            assert(shorter[i] == bytes[i]);
            assert(higher[i] == decimal(n)[i]);
        }
        lemma_decimal_value(n / 10, shorter);
        assert(bytes.last() == digit(n % 10) as u8);
    }
}

/// Routes follow each other across restarts: what was stored of a route is read
/// back, and the next route has a larger number, up to the largest there is.
pub proof fn law_routes_follow_each_other(sequence: u64, now: u64)
    ensures
        sequence_of(Some(encode_utf8(decimal(sequence as nat))), now) == Ok::<nat, Seq<char>>(
            following(sequence as nat, now),
        ),
        sequence < u64::MAX ==> following(sequence as nat, now) > sequence,
        following(sequence as nat, now) >= now,
        following(sequence as nat, now) <= u64::MAX,
{
    let text = decimal(sequence as nat);
    let bytes = encode_utf8(text);
    lemma_decimal_digits(sequence as nat);
    assert(is_ascii_chars(text));
    is_ascii_chars_encode_utf8(text);
    assert forall|i: int| 0 <= i < bytes.len() implies #[trigger] bytes[i] == text[i] as u8 by {
        assert(text[i] as u8 == encode_utf8(text)[i]);
    }
    lemma_decimal_value(sequence as nat, bytes);
    assert(bytes[0] != 0x2b);
    assert(without_plus(bytes) == bytes);
}

/// What the lighthouse advertises of its route, before it is signed: what it
/// advertised before, at another moment, under another number.
pub open spec fn renewed(
    payload: JsonTree,
    issued_at: Seq<char>,
    sequence: nat,
    user_agent: Seq<char>,
) -> JsonTree {
    payload.with("issuedAt"@, JsonTree::Text(issued_at)).with("routeSequence"@, count(sequence)).with(
        "deviceName"@,
        JsonTree::Text("Lighthouse"@),
    ).with("userAgent"@, JsonTree::Text(user_agent))
}

/// A route to sign, and the device that signs it.
pub struct RouteDraft {
    pub payload: Json,
    pub device_id: String,
}

/// The route to sign and the device, issued at the moment that `issued_at` says.
pub open spec fn issued_route(
    peer: JsonTree,
    issued_at: Seq<char>,
    sequence: nat,
    user_agent: Seq<char>,
) -> Result<(JsonTree, Seq<char>), Seq<char>> {
    match peer.at2("advertisement"@, "payload"@) {
        None => Err("Missing lighthouse route advertisement"@),
        Some(payload) => match peer.text_at3("advertisement"@, "payload"@, "deviceId"@) {
            None => Err("Missing lighthouse device id"@),
            Some(device_id) => Ok((renewed(payload, issued_at, sequence, user_agent), device_id)),
        },
    }
}

/// What a draft of a route says.
pub open spec fn drafted(result: Result<RouteDraft, String>) -> Result<
    (JsonTree, Seq<char>),
    Seq<char>,
> {
    match result {
        Ok(draft) => Ok((draft.payload@, draft.device_id@)),
        Err(error) => Err(error@),
    }
}

/// The route to sign and the device, of a peer that advertised a route; or what
/// is missing.
pub open spec fn route_of(
    peer: JsonTree,
    now: Result<i128, String>,
    sequence: nat,
    user_agent: Seq<char>,
) -> Result<(JsonTree, Seq<char>), Seq<char>> {
    match peer.at2("advertisement"@, "payload"@) {
        None => Err("Missing lighthouse route advertisement"@),
        Some(payload) => match now {
            Err(error) => Err(error@),
            Ok(moment) => match utc_text_of(moment * 1_000_000) {
                Err(error) => Err(error),
                Ok(issued_at) => issued_route(peer, issued_at, sequence, user_agent),
            },
        },
    }
}

/// Draws up a new route for the lighthouse's own peer bundle, to be signed.
pub fn draft_route(peer: &Json, now: Result<i128, String>, sequence: u64, user_agent: &str) -> (
    result: Result<RouteDraft, String>)
    requires
        peer@.at2("advertisement"@, "payload"@) matches Some(payload) ==> payload is Object
            || payload is Null,
        now matches Ok(moment) ==> 0 <= moment <= max_millis(),
    ensures
        drafted(result) == route_of(peer@, now, sequence as nat, user_agent@),
{
    if peer.at2("advertisement", "payload").is_none() {
        return Err("Missing lighthouse route advertisement".to_owned());
    }
    let moment = match now {
        Ok(moment) => moment,
        Err(error) => return Err(error),
    };
    let issued_at = match timestamp(moment) {
        Ok(text) => text,
        Err(error) => return Err(error),
    };
    issue_route(peer, issued_at.as_str(), sequence, user_agent)
}

/// Draws up a new route that is issued at the moment that `issued_at` says.
pub fn issue_route(peer: &Json, issued_at: &str, sequence: u64, user_agent: &str) -> (result: Result<
    RouteDraft,
    String,
>)
    requires
        peer@.at2("advertisement"@, "payload"@) matches Some(payload) ==> payload is Object
            || payload is Null,
    ensures
        drafted(result) == issued_route(peer@, issued_at@, sequence as nat, user_agent@),
{
    let payload = match peer.at2("advertisement", "payload") {
        Some(payload) => payload.clone(),
        None => return Err("Missing lighthouse route advertisement".to_owned()),
    };
    let payload = payload.with("issuedAt", Json::text(issued_at)).with(
        "routeSequence",
        Json::count(sequence),
    ).with("deviceName", Json::text("Lighthouse")).with("userAgent", Json::text(user_agent));
    match peer.text_at3("advertisement", "payload", "deviceId") {
        Some(device_id) => Ok(RouteDraft { payload, device_id: device_id.to_owned() }),
        None => Err("Missing lighthouse device id".to_owned()),
    }
}

/// The member under `key`, or null where there is none.
pub open spec fn or_null(tree: JsonTree, key: Seq<char>) -> JsonTree {
    match tree.get(key) {
        Some(value) => value,
        None => JsonTree::Null,
    }
}

fn member_or_null(tree: &Json, key: &str) -> (result: Json)
    ensures
        result@ == or_null(tree@, key@),
{
    broadcast use crate::json::json_view;

    match tree.get(key) {
        Some(value) => value.clone(),
        None => Json::Null,
    }
}

/// The peer bundle with a signed route in the place of the one before.
pub open spec fn rerouted(peer: JsonTree, payload: JsonTree, signed: JsonTree) -> Result<
    JsonTree,
    Seq<char>,
> {
    if peer is Object {
        Ok(
            peer.with("advertisement"@, signed).with("signed"@, signed).with(
                "payload"@,
                payload,
            ).with("signature"@, or_null(signed, "signature"@)).with(
                "signerKeyId"@,
                or_null(signed, "signerKeyId"@),
            ),
        )
    } else {
        Err("Invalid lighthouse peer bundle"@)
    }
}

/// Puts a signed route into the lighthouse's own peer bundle.
pub fn refresh_route(peer: Json, payload: Json, signed: Result<Json, String>) -> (result: Result<
    Json,
    String,
>)
    ensures
        shown(result) == match signed {
            Err(error) => Err(error@),
            Ok(signed) => rerouted(peer@, payload@, signed@),
        },
{
    let signed = match signed {
        Ok(signed) => signed,
        Err(error) => return Err(error),
    };
    if peer.as_object().is_none() {
        return Err("Invalid lighthouse peer bundle".to_owned());
    }
    let signature = member_or_null(&signed, "signature");
    let signer = member_or_null(&signed, "signerKeyId");
    Ok(
        peer.with("advertisement", signed.clone()).with("signed", signed).with(
            "payload",
            payload,
        ).with("signature", signature).with("signerKeyId", signer),
    )
}

proof fn lemma_bundle_names()
    ensures
        "advertisement"@ != "signed"@,
        "advertisement"@ != "payload"@,
        "advertisement"@ != "signature"@,
        "advertisement"@ != "signerKeyId"@,
        "signed"@ != "payload"@,
        "signed"@ != "signature"@,
        "signed"@ != "signerKeyId"@,
        "payload"@ != "signature"@,
        "payload"@ != "signerKeyId"@,
{
    reveal_strlit("advertisement");
    reveal_strlit("signed");
    reveal_strlit("payload");
    reveal_strlit("signature");
    reveal_strlit("signerKeyId");
    assert("advertisement"@.len() == 13);
    assert("signed"@.len() == 6);
    assert("payload"@.len() == 7);
    assert("signature"@.len() == 9);
    assert("signerKeyId"@.len() == 11);
}

/// A bundle with a new route shows it everywhere: its advertisement and what is
/// signed are the signed route, and its payload is what was signed. The rest of
/// the bundle is left as it was.
pub proof fn law_refreshed_bundle_shows_the_route(
    peer: JsonTree,
    payload: JsonTree,
    signed: JsonTree,
    other: Seq<char>,
)
    requires
        peer is Object,
    ensures
        rerouted(peer, payload, signed) matches Ok(bundle) && bundle.get("advertisement"@) == Some(
            signed,
        ) && bundle.get("signed"@) == Some(signed) && bundle.get("payload"@) == Some(payload) && (
        other != "advertisement"@ && other != "signed"@ && other != "payload"@ && other
            != "signature"@ && other != "signerKeyId"@ ==> bundle.get(other) == peer.get(other)),
{
    broadcast use written_member;

    lemma_bundle_names();
}

proof fn lemma_renewed_names()
    ensures
        "issuedAt"@.len() == 8,
        "routeSequence"@.len() == 13,
        "deviceName"@.len() == 10,
        "userAgent"@.len() == 9,
        "deviceId"@.len() == 8,
        "issuedAt"@[0] == 'i',
        "deviceId"@[0] == 'd',
{
    reveal_strlit("issuedAt");
    reveal_strlit("routeSequence");
    reveal_strlit("deviceName");
    reveal_strlit("userAgent");
    reveal_strlit("deviceId");
}

proof fn lemma_commands_differ()
    ensures
        "join"@ != "serve-http"@,
        "join"@ != "create-lead"@,
        "serve-http"@ != "create-lead"@,
{
    reveal_strlit("join");
    reveal_strlit("serve-http");
    reveal_strlit("create-lead");
    assert("join"@.len() == 4);
    assert("serve-http"@.len() == 10);
    assert("create-lead"@.len() == 11);
}

/// The program is told what to do by its first argument, and takes exactly the arguments
/// that it needs for that: an invitation and a directory to join; a directory, and an
/// address if one is given, to serve; a configuration, a company and a role to create a
/// lead; and a configuration alone to run.
pub proof fn law_arguments_say_what_to_do(
    first: Seq<char>,
    second: Seq<char>,
    third: Seq<char>,
    fourth: Seq<char>,
)
    ensures
        command_of(seq!["join"@, first, second], Ok(())) == Ok::<CommandView, Seq<char>>(
            CommandView::Join { invite: first, directory: second },
        ),
        command_of(seq!["serve-http"@, first, second], Ok(())) == Ok::<CommandView, Seq<char>>(
            CommandView::ServeHttp { directory: first, address: second },
        ),
        command_of(seq!["serve-http"@, first], Ok(())) == Ok::<CommandView, Seq<char>>(
            CommandView::ServeHttp { directory: first, address: "0.0.0.0:8080"@ },
        ),
        command_of(seq!["create-lead"@, first, second, third], Ok(())) == Ok::<
            CommandView,
            Seq<char>,
        >(CommandView::CreateLead { config: first, company: second, role: third }),
        first != "join"@ && first != "serve-http"@ && first != "create-lead"@ ==> command_of(
            seq![first],
            Ok(()),
        ) == Ok::<CommandView, Seq<char>>(CommandView::Run { config: first }),
{
    lemma_commands_differ();
}

/// Arguments that are missing or too many are told, by what was asked for. An address
/// that could not be read is told before further arguments are looked at.
pub proof fn law_wrong_arguments_are_told(arguments: Seq<Seq<char>>, address: Result<(), String>)
    ensures
        ({
            let result = command_of(arguments, address);
            if arguments.len() == 0 {
                result == Err::<CommandView, Seq<char>>(
                    "Usage: match-lighthouse CONFIG.json | match-lighthouse join INVITE_URL STATE_DIR"@,
                )
            } else if arguments[0] == "join"@ {
                &&& arguments.len() == 1 ==> result == Err::<CommandView, Seq<char>>(
                    "Missing Match workspace invitation URL"@,
                )
                &&& arguments.len() == 2 ==> result == Err::<CommandView, Seq<char>>(
                    "Missing lighthouse state directory"@,
                )
                &&& arguments.len() > 3 ==> result == Err::<CommandView, Seq<char>>(
                    "Too many join arguments"@,
                )
            } else if arguments[0] == "serve-http"@ {
                &&& arguments.len() == 1 ==> result == Err::<CommandView, Seq<char>>(
                    "Missing lighthouse state directory"@,
                )
                &&& arguments.len() > 1 && address is Err ==> result == Err::<
                    CommandView,
                    Seq<char>,
                >(address->Err_0@)
                &&& arguments.len() > 3 && address is Ok ==> result == Err::<
                    CommandView,
                    Seq<char>,
                >("Too many serve-http arguments"@)
            } else if arguments[0] == "create-lead"@ {
                &&& arguments.len() == 1 ==> result == Err::<CommandView, Seq<char>>(
                    "Missing lighthouse configuration"@,
                )
                &&& 1 < arguments.len() < 4 ==> result == Err::<CommandView, Seq<char>>(
                    "Missing lead company or role"@,
                )
                &&& arguments.len() > 4 ==> result == Err::<CommandView, Seq<char>>(
                    "Too many create-lead arguments"@,
                )
            } else {
                arguments.len() > 1 ==> result == Err::<CommandView, Seq<char>>(
                    "Too many arguments"@,
                )
            }
        }),
{
    lemma_commands_differ();
}

/// The routes to keep lead to the owner, last, and to every peer with a signed endpoint,
/// once each in the order of their texts: a route before the owner's is signed, is the id
/// of an endpoint, and is neither the owner's nor the lighthouse's own; and every signed
/// route of which this holds is there.
pub proof fn law_routes_lead_to_owner_and_peers(
    routes: Seq<Seq<char>>,
    signed: Seq<Seq<char>>,
    owner: Seq<char>,
    own: Seq<char>,
    route: Seq<char>,
    i: int,
    j: int,
)
    requires
        are_routes(routes, signed, owner, own),
    ensures
        routes.len() > 0 && routes.last() == owner,
        routes.contains(route) <==> route == owner || (signed.contains(route) && is_endpoint_id(
            route,
        ) && route != own),
        0 <= i < routes.len() - 1 ==> routes[i] != owner && routes[i] != own && signed.contains(
            routes[i],
        ) && is_endpoint_id(routes[i]),
        0 <= i < j < routes.len() - 1 ==> text_before(routes[i], routes[j]),
        0 <= i < j < routes.len() ==> routes[i] != routes[j],
{
    let kept = routes.drop_last();
    if 0 <= i < routes.len() - 1 {
        assert(kept[i] == routes[i]);
        assert(kept.contains(routes[i]));
    }
    if 0 <= i < j < routes.len() - 1 {
        assert(kept[i] == routes[i] && kept[j] == routes[j]);
        assert(text_before(kept[i], kept[j]));
        lemma_text_order_is_total(kept[i], kept[j]);
    }
    if routes.contains(route) {
        let n = choose|n: int| 0 <= n < routes.len() && routes[n] == route;
        if n < routes.len() - 1 {
            assert(kept[n] == route);
            assert(kept.contains(route));
        }
    }
    if route == owner {
        assert(routes[routes.len() - 1] == owner);
    }
    if kept.contains(route) {
        let n = choose|n: int| 0 <= n < kept.len() && kept[n] == route;
        assert(routes[n] == route);
    }
    if signed.contains(route) && is_endpoint_id(route) && route != own && route != owner {
        assert(is_peer_route(route, owner, own));
        assert(kept.contains(route));
    }
}

/// The number of the next route is one more than the stored one, or the moment where
/// that is later; the largest number follows on itself, and where nothing is stored it
/// is one, or the moment. What is stored and is no number is told.
pub proof fn law_route_numbers_grow(previous: nat, now: u64, stored: Option<Seq<u8>>)
    ensures
        previous < u64::MAX ==> following(previous, now) == if previous + 1 >= now {
            previous + 1
        } else {
            now as nat
        },
        previous == u64::MAX ==> following(previous, now) == u64::MAX,
        stored is None ==> sequence_of(stored, now) == Ok::<nat, Seq<char>>(
            if now <= 1 {
                1
            } else {
                now as nat
            },
        ),
        stored matches Some(bytes) ==> (parsed(bytes, 0xffff_ffff_ffff_ffff) matches Some(number)
            ==> sequence_of(stored, now) == Ok::<nat, Seq<char>>(following(number, now))),
        stored matches Some(bytes) ==> (parsed(bytes, 0xffff_ffff_ffff_ffff) is None
            ==> sequence_of(stored, now) == Err::<nat, Seq<char>>(
            "Invalid lighthouse route sequence"@,
        )),
{
}

/// A route that is issued anew says what it said before, but for the moment, the number,
/// the name of the device and the user agent.
pub proof fn law_renewed_route_keeps_the_rest(
    payload: JsonTree,
    issued_at: Seq<char>,
    sequence: nat,
    user_agent: Seq<char>,
    key: Seq<char>,
)
    requires
        payload is Object,
    ensures
        renewed(payload, issued_at, sequence, user_agent).get(key) == if key == "issuedAt"@ {
            Some(JsonTree::Text(issued_at))
        } else if key == "routeSequence"@ {
            Some(JsonTree::Number(decimal(sequence)))
        } else if key == "deviceName"@ {
            Some(JsonTree::Text("Lighthouse"@))
        } else if key == "userAgent"@ {
            Some(JsonTree::Text(user_agent))
        } else {
            payload.get(key)
        },
{
    broadcast use written_member;

    lemma_renewed_names();
}

/// A route is issued anew for the device that advertised it, at the moment that the
/// clock shows; without an advertisement, a device or a moment it is not, and it is told
/// why.
pub proof fn law_route_is_issued_for_its_device(
    peer: JsonTree,
    now: Result<i128, String>,
    sequence: nat,
    user_agent: Seq<char>,
)
    ensures
        ({
            let result = route_of(peer, now, sequence, user_agent);
            if peer.at2("advertisement"@, "payload"@) is None {
                result == Err::<(JsonTree, Seq<char>), Seq<char>>(
                    "Missing lighthouse route advertisement"@,
                )
            } else if now is Err {
                result == Err::<(JsonTree, Seq<char>), Seq<char>>(now->Err_0@)
            } else {
                let moment = formatted_utc(
                    now->Ok_0 * 1_000_000,
                    "[year]-[month]-[day]T[hour]:[minute]:[second].[subsecond digits:3]Z"@,
                );
                if moment is Err {
                    result == Err::<(JsonTree, Seq<char>), Seq<char>>(moment->Err_0)
                } else if peer.text_at3("advertisement"@, "payload"@, "deviceId"@) is None {
                    result == Err::<(JsonTree, Seq<char>), Seq<char>>(
                        "Missing lighthouse device id"@,
                    )
                } else {
                    result matches Ok(route) && Some(route.1) == peer.text_at3(
                        "advertisement"@,
                        "payload"@,
                        "deviceId"@,
                    ) && route.0 == renewed(
                        peer.at2("advertisement"@, "payload"@)->0,
                        moment->Ok_0,
                        sequence,
                        user_agent,
                    )
                }
            }
        }),
{
}

/// A refreshed bundle has the signature and the signer of the signed route, or null where
/// the route has none; a bundle that is no object is not refreshed.
pub proof fn law_refreshed_bundle_is_signed_anew(peer: JsonTree, payload: JsonTree, signed: JsonTree)
    ensures
        !(peer is Object) ==> rerouted(peer, payload, signed) == Err::<JsonTree, Seq<char>>(
            "Invalid lighthouse peer bundle"@,
        ),
        peer is Object ==> (rerouted(peer, payload, signed) matches Ok(bundle) && bundle.get(
            "signature"@,
        ) == Some(
            match signed.get("signature"@) {
                Some(signature) => signature,
                None => JsonTree::Null,
            },
        ) && bundle.get("signerKeyId"@) == Some(
            match signed.get("signerKeyId"@) {
                Some(signer) => signer,
                None => JsonTree::Null,
            },
        )),
{
    broadcast use written_member;

    lemma_bundle_names();
    reveal_strlit("signature");
    reveal_strlit("signerKeyId");
    assert("signature"@.len() == 9);
    assert("signerKeyId"@.len() == 11);
}

/// The routes that are opened are the next ones that were not open, and those that are
/// closed were open and are not among the next.
pub proof fn law_routes_are_opened_and_closed(
    authorized: Seq<Seq<char>>,
    next: Seq<Seq<char>>,
    route: Seq<char>,
)
    ensures
        opened_routes(authorized, next).contains(route) <==> next.contains(route)
            && !authorized.contains(route),
        closed_routes(authorized, next).contains(route) <==> authorized.contains(route)
            && !next.contains(route),
{
    law_changes_lead_to_the_next_routes(authorized, next, route);
    lemma_filtered(next, authorized, route);
    lemma_filtered(authorized, next, route);
}

proof fn lemma_filtered(list: Seq<Seq<char>>, others: Seq<Seq<char>>, text: Seq<char>)
    ensures
        list.filter(missing_from(others)).contains(text) <==> list.contains(text)
            && !others.contains(text),
{
    let kept = list.filter(missing_from(others));
    if kept.contains(text) {
        let i = choose|i: int| 0 <= i < kept.len() && kept[i] == text;
        list.lemma_filter_pred(missing_from(others), i);
        list.lemma_filter_contains_rev(missing_from(others), text);
    }
    if list.contains(text) && !others.contains(text) {
        let i = choose|i: int| 0 <= i < list.len() && list[i] == text;
        list.lemma_filter_contains(missing_from(others), i);
    }
}

/// A peer may be connected to from the moment on that the last failure set, and not
/// before; one without a failure at any moment. Once it may, it may later.
pub proof fn law_peer_waits_for_its_moment(retry_at: Option<u64>, now: u64, later: u64)
    ensures
        retry_at is None ==> may_retry(retry_at, now),
        retry_at matches Some(moment) ==> (may_retry(retry_at, now) <==> now >= moment),
        may_retry(retry_at, now) && now <= later ==> may_retry(retry_at, later),
{
}

/// A connection that the workspace was published to is good; one that is not
/// authenticated yet is kept; and one with any other failure is dropped.
pub proof fn law_unauthenticated_peer_is_kept(published: Result<(), String>)
    ensures
        publish_outcome(published) is Good <==> published is Ok,
        published matches Err(error) ==> (publish_outcome(published) is Keep <==> error@
            == "Unauthenticated mesh peer"@) && (publish_outcome(published) is Drop <==> error@
            != "Unauthenticated mesh peer"@),
{
}

/// The routes that are kept are those of the signed ones that read as the id of an
/// endpoint and lead to another: every such route is kept, no other one is, and neither
/// the owner's nor the lighthouse's own. In the order of their texts no route comes twice.
pub proof fn law_kept_routes_lead_to_others(
    route: Seq<char>,
    signed: Seq<Seq<char>>,
    reads: Seq<bool>,
    owner: Seq<char>,
    own: Seq<char>,
    list: Seq<Seq<char>>,
    i: int,
    j: int,
)
    ensures
        0 <= i < signed.len() && reads[i] && signed[i] != owner && signed[i] != own ==> is_kept(
            signed[i],
            signed,
            reads,
            owner,
            own,
        ),
        is_kept(route, signed, reads, owner, own) ==> signed.contains(route) && route != owner
            && route != own,
        (forall|n: int| 0 <= n < signed.len() && #[trigger] signed[n] == route ==> !reads[n])
            ==> !is_kept(route, signed, reads, owner, own),
        in_text_order(list) && 0 <= i < j < list.len() ==> list[i] != list[j] && text_before(
            list[i],
            list[j],
        ),
{
    if in_text_order(list) && 0 <= i < j < list.len() {
        lemma_text_order_is_total(list[i], list[j]);
    }
}

/// A drafted route is the one to sign, for the device that it names, and a failure is
/// told by its text.
pub proof fn law_drafted_route_is_shown_whole(result: Result<RouteDraft, String>)
    ensures
        result matches Ok(draft) ==> (drafted(result) matches Ok(route) && route.0 == draft.payload@
            && route.1 == draft.device_id@),
        result matches Err(error) ==> drafted(result) == Err::<(JsonTree, Seq<char>), Seq<char>>(
            error@,
        ),
{
}

/// A command is known by what it asks for and by each of its arguments.
pub proof fn law_commands_are_known_by_their_parts(command: Command)
    ensures
        command matches Command::Join { invite, directory } ==> (command@ matches CommandView::Join {
            invite: code,
            directory: place,
        } && code == invite@ && place == directory@),
        command matches Command::ServeHttp { directory, address } ==> (
        command@ matches CommandView::ServeHttp { directory: place, address: served } && place
            == directory@ && served == address@),
        command matches Command::CreateLead { config, company, role } ==> (
        command@ matches CommandView::CreateLead { config: path, company: firm, role: post } && path
            == config@ && firm == company@ && post == role@),
        command matches Command::Run { config } ==> (command@ matches CommandView::Run {
            config: path,
        } && path == config@),
{
}

} // verus!
