//! The answers to HTTP-01 challenges.

use vstd::hash_map::StringHashMap;
use vstd::prelude::*;

use crate::http::request::Method;
use crate::text::{chars_of, contains_char, starts_with, text_between};
use crate::time::{seconds, Duration};

verus! {

pub const CHALLENGE_PREFIX: &'static str = "/.well-known/acme-challenge/";

pub const CONNECTION_TIMEOUT_SECONDS: u64 = 10;

/// How long a connection of the certificate authority may last.
pub fn connection_timeout() -> (r: Duration)
    ensures
        r@ == seconds(CONNECTION_TIMEOUT_SECONDS as nat),
{
    Duration::from_secs(CONNECTION_TIMEOUT_SECONDS)
}

/// An answer to the certificate authority.
pub struct ChallengeReply {
    pub status: u16,
    pub content_type: &'static str,
    pub body: String,
}

pub struct ChallengeReplyModel {
    pub status: u16,
    pub content_type: Seq<char>,
    pub body: Seq<char>,
}

impl View for ChallengeReply {
    type V = ChallengeReplyModel;

    open spec fn view(&self) -> ChallengeReplyModel {
        ChallengeReplyModel {
            status: self.status,
            content_type: self.content_type@,
            body: self.body@,
        }
    }
}

/// The challenges that are being answered: key authorizations by token.
pub struct Challenges {
    by_token: StringHashMap<String>,
}

impl View for Challenges {
    type V = Map<Seq<char>, Seq<char>>;

    closed spec fn view(&self) -> Map<Seq<char>, Seq<char>> {
        self.by_token@.map_values(|answer: String| answer@)
    }
}

/// The token that a path asks for: one segment below the prefix.
pub open spec fn token_of(path: Seq<char>) -> Option<Seq<char>> {
    let token = path.skip(CHALLENGE_PREFIX@.len() as int);
    if !CHALLENGE_PREFIX@.is_prefix_of(path) || token.len() == 0 || token.contains('/') {
        None
    } else {
        Some(token)
    }
}

/// An answer; its type is the same whatever it says.
pub open spec fn answer(status: u16, body: Seq<char>) -> ChallengeReplyModel {
    ChallengeReplyModel { status, content_type: "application/octet-stream"@, body }
}

pub open spec fn not_found() -> ChallengeReplyModel {
    answer(404, "not found\n"@)
}

/// The answer to a request.
pub open spec fn challenge_reply(
    challenges: Map<Seq<char>, Seq<char>>,
    method: Method,
    path: Seq<char>,
) -> ChallengeReplyModel {
    if method != Method::Get {
        answer(405, "method not allowed\n"@)
    } else {
        match token_of(path) {
            Some(token) => if challenges.contains_key(token) {
                answer(200, challenges[token])
            } else {
                not_found()
            },
            None => not_found(),
        }
    }
}

fn text_response(status: u16, body: &str) -> (r: ChallengeReply)
    ensures
        r@ == answer(status, body@),
{
    ChallengeReply { status, content_type: "application/octet-stream", body: body.to_owned() }
}

fn requested_token(path: &str) -> (r: Option<String>)
    ensures
        crate::text::opt_text(r) == token_of(path@),
{
    if !starts_with(path, CHALLENGE_PREFIX) {
        return None;
    }
    let v = chars_of(path);
    let token = text_between(&v, chars_of(CHALLENGE_PREFIX).len(), v.len());
    assert(token@ =~= path@.skip(CHALLENGE_PREFIX@.len() as int));
    if token.as_str().is_empty() || contains_char(&token, '/') {
        return None;
    }
    Some(token)
}

impl Challenges {
    pub fn new() -> (r: Challenges)
        ensures
            r@ == Map::<Seq<char>, Seq<char>>::empty(),
    {
        let challenges = Challenges { by_token: StringHashMap::new() };
        assert(challenges@ =~= Map::<Seq<char>, Seq<char>>::empty());
        challenges
    }

    pub fn publish(&mut self, token: String, key_authorization: String)
        ensures
            final(self)@ == old(self)@.insert(token@, key_authorization@),
    {
        let ghost before = self@;
        let ghost t = token@;
        let ghost k = key_authorization@;
        self.by_token.insert(token, key_authorization);
        assert(self@ =~= before.insert(t, k));
    }

    pub fn remove(&mut self, token: &str)
        ensures
            final(self)@ == old(self)@.remove(token@),
    {
        let ghost before = self@;
        self.by_token.remove(token);
        assert(self@ =~= before.remove(token@));
    }

    pub fn handle_request(&self, method: Method, path: &str) -> (r: ChallengeReply)
        ensures
            r@ == challenge_reply(self@, method, path@),
            r@.content_type == "application/octet-stream"@,
    {
        if method != Method::Get {
            return text_response(405, "method not allowed\n");
        }
        match requested_token(path) {
            Some(token) => match self.by_token.get(&token) {
                Some(key_authorization) => text_response(200, key_authorization),
                None => text_response(404, "not found\n"),
            },
            None => text_response(404, "not found\n"),
        }
    }
}

/// A published token is answered with exactly its key authorization, and a token that was removed
/// is not found. Other tokens are answered as before.
pub proof fn law_published_tokens_are_answered(
    challenges: Map<Seq<char>, Seq<char>>,
    token: Seq<char>,
    key_authorization: Seq<char>,
    path: Seq<char>,
)
    ensures
        token_of(path) == Some(token) ==> challenge_reply(
            challenges.insert(token, key_authorization),
            Method::Get,
            path,
        ) == answer(200, key_authorization),
        token_of(path) == Some(token) ==> challenge_reply(
            challenges.remove(token),
            Method::Get,
            path,
        ) == not_found(),
        token_of(path) != Some(token) ==> challenge_reply(
            challenges.insert(token, key_authorization),
            Method::Get,
            path,
        ) == challenge_reply(challenges, Method::Get, path),
{
}

/// A token of one segment is asked for by the path below the prefix.
pub proof fn law_token_path(token: Seq<char>)
    requires
        token.len() > 0,
        !token.contains('/'),
    ensures
        token_of(CHALLENGE_PREFIX@ + token) == Some(token),
{
    let path = CHALLENGE_PREFIX@ + token;
    assert(path.subrange(0, CHALLENGE_PREFIX@.len() as int) =~= CHALLENGE_PREFIX@);
    assert(path.skip(CHALLENGE_PREFIX@.len() as int) =~= token);
}

/// A path asks for a token exactly where it is the prefix followed by the token, which is not empty
/// and holds no slash.
pub proof fn law_tokens_stand_below_the_prefix(path: Seq<char>, token: Seq<char>)
    ensures
        token_of(path) == Some(token) <==> path == "/.well-known/acme-challenge/"@ + token
            && token.len() > 0 && !token.contains('/'),
{
    let prefix = "/.well-known/acme-challenge/"@;
    if path == prefix + token {
        assert(path.subrange(0, prefix.len() as int) =~= prefix);
        assert(path.skip(prefix.len() as int) =~= token);
    }
    if token_of(path) == Some(token) {
        assert(path =~= prefix + token);
    }
}

/// What is answered: any method but GET with 405, a published token with 200 and its own key
/// authorization, and anything else with 404.
pub proof fn law_only_published_tokens_are_found(
    challenges: Map<Seq<char>, Seq<char>>,
    method: Method,
    path: Seq<char>,
)
    ensures
        ({
            let reply = challenge_reply(challenges, method, path);
            let asked = token_of(path);
            let found = asked is Some && challenges.contains_key(asked->0);
            &&& reply.status == 405 <==> method != Method::Get
            &&& reply.status == 200 <==> method == Method::Get && found
            &&& reply.status == 404 <==> method == Method::Get && !found
            &&& reply.status == 200 ==> reply.body == challenges[asked->0]
            &&& reply.status == 404 ==> reply.body == "not found\n"@
            &&& reply.status == 405 ==> reply.body == "method not allowed\n"@
            &&& reply.content_type == "application/octet-stream"@
        }),
{
}

} // verus!
