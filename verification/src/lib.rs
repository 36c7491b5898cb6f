//! Client-side engine for a UDP-based, line-oriented text query protocol:
//! command encoding with per-type escaping, declarative response decoding,
//! error-code mapping, and the throttled session lifecycle. The surrounding
//! I/O layer builds commands and applies responses through this crate; the
//! crate itself never touches the network.

pub mod command_builder;
pub mod responses;
pub mod schema;
pub mod text;

use vstd::prelude::*;
use vstd::string::*;
use crate::command_builder::{cmd_arg_first, cmd_arg_next, cmd_done, cmd_start, CommandBuilder};
use crate::responses::{
    anime_matches, anime_steps, episode_matches, episode_steps, error_decode, file_matches,
    file_steps, group_matches, group_steps, logged_out_steps, login_accepted_new_version_steps,
    login_accepted_steps, Anime, Episode, File, Group, LoggedOut, LoginAccepted,
    LoginAcceptedNewVersion,
};
use crate::schema::{decode_spec, text_of};
use crate::text::{dec_int, escaped_text};

verus! {

/// Every way a client operation can fail: transport trouble (reported as a
/// message by the surrounding I/O layer), a non-UTF-8 reply, a
/// server-reported protocol error, or a session-scoped call made without a
/// session key.
#[derive(Debug, PartialEq)]
pub enum Error {
    Io(String),
    Encoding,
    AniDb(responses::Error),
    NoSession,
}

impl From<responses::Error> for Error {
    fn from(e: responses::Error) -> (r: Error) {
        Error::AniDb(e)
    }
}

impl vstd::std_specs::convert::FromSpecImpl<responses::Error> for Error {
    open spec fn obeys_from_spec() -> bool {
        true
    }

    open spec fn from_spec(e: responses::Error) -> Error {
        Error::AniDb(e)
    }
}

/// The fixed minimum spacing between consecutive outbound sends, in
/// milliseconds.
pub const THROTTLE_MS: u64 = 2000;

/// The client facade: identity, session key, and the throttle slot. The
/// surrounding I/O layer owns the socket; this state decides what to send
/// and when, and absorbs what came back.
pub struct AniDb {
    api_endpoint: String,
    client: String,
    clientver: i32,
    session_key: Option<String>,
    next_call_ms: u64,
}

impl AniDb {
    pub closed spec fn spec_endpoint(&self) -> Seq<char> {
        self.api_endpoint@
    }

    pub closed spec fn spec_client(&self) -> Seq<char> {
        self.client@
    }

    pub closed spec fn spec_client_version(&self) -> i32 {
        self.clientver
    }

    pub closed spec fn spec_session_key(&self) -> Option<Seq<char>> {
        match self.session_key {
            Some(k) => Some(k@),
            None => None,
        }
    }

    /// The earliest moment the next outbound send is permitted.
    pub closed spec fn spec_next_call_ms(&self) -> u64 {
        self.next_call_ms
    }

    /// Everything but the session key and the throttle slot is the same in
    /// both states.
    pub open spec fn same_identity(&self, other: &AniDb) -> bool {
        &&& self.spec_endpoint() == other.spec_endpoint()
        &&& self.spec_client() == other.spec_client()
        &&& self.spec_client_version() == other.spec_client_version()
    }

    /// A fresh, unauthenticated client; the first send is permitted at once.
    pub fn new(client: &str, clientver: i32) -> (r: Self)
        ensures
            r.spec_endpoint() == "api.anidb.net:9000"@,
            r.spec_client() == client@,
            r.spec_client_version() == clientver,
            r.spec_session_key() is None,
            r.spec_next_call_ms() == 0,
    {
        AniDb {
            api_endpoint: String::from_str("api.anidb.net:9000"),
            client: String::from_str(client),
            clientver,
            session_key: None,
            next_call_ms: 0,
        }
    }

    /// A client resuming an existing session key.
    pub fn resume_session(client: &str, clientver: i32, session_key: String) -> (r: Self)
        ensures
            r.spec_endpoint() == "api.anidb.net:9000"@,
            r.spec_client() == client@,
            r.spec_client_version() == clientver,
            r.spec_session_key() == Some(session_key@),
            r.spec_next_call_ms() == 0,
    {
        AniDb { session_key: Some(session_key), ..Self::new(client, clientver) }
    }

    pub fn client(&self) -> (r: &str)
        ensures
            r@ == self.spec_client(),
    {
        self.client.as_str()
    }

    pub fn client_version(&self) -> (r: i32)
        ensures
            r == self.spec_client_version(),
    {
        self.clientver
    }

    /// The remote endpoint this client talks to.
    pub fn api_endpoint(&self) -> (r: &str)
        ensures
            r@ == self.spec_endpoint(),
    {
        self.api_endpoint.as_str()
    }

    pub fn session_key(&self) -> (r: Option<&str>)
        ensures
            match r {
                Some(k) => self.spec_session_key() == Some(k@),
                None => self.spec_session_key() is None,
            },
    {
        match &self.session_key {
            Some(k) => Some(k.as_str()),
            None => None,
        }
    }

    /// The session key, or the client-state failure when none is present;
    /// session-scoped operations fail this way before any network activity.
    pub fn session_key_or_err(&self) -> (r: Result<&str, Error>)
        ensures
            match r {
                Ok(k) => self.spec_session_key() == Some(k@),
                Err(e) => self.spec_session_key() is None && e == Error::NoSession,
            },
    {
        match &self.session_key {
            Some(k) => Ok(k.as_str()),
            None => Err(Error::NoSession),
        }
    }

    /// When the next send may go out: now, unless the throttle slot is still
    /// in the future.
    pub fn next_send_slot(&self, now_ms: u64) -> (t: u64)
        ensures
            t == (if now_ms >= self.spec_next_call_ms() {
                now_ms
            } else {
                self.spec_next_call_ms()
            }),
    {
        if now_ms >= self.next_call_ms {
            now_ms
        } else {
            self.next_call_ms
        }
    }

    /// Record an outbound send at `send_ms`: the next send is only permitted
    /// a full throttle interval later, measured from this send's slot, not
    /// from any response arrival.
    pub fn record_send(&mut self, send_ms: u64)
        requires
            send_ms + THROTTLE_MS <= u64::MAX,
        ensures
            final(self).spec_next_call_ms() == send_ms + THROTTLE_MS,
            final(self).same_identity(old(self)),
            final(self).spec_session_key() == old(self).spec_session_key(),
    {
        self.next_call_ms = send_ms + THROTTLE_MS;
    }
}

/// Throttle spacing law: once a send at `t1` is recorded, any later send
/// honouring the slot happens at least the full throttle interval after
/// `t1`.
pub proof fn lemma_throttle_spacing(after_first: AniDb, t1: u64, t2: u64)
    requires
        after_first.spec_next_call_ms() == t1 + THROTTLE_MS,
        t2 >= after_first.spec_next_call_ms(),
    ensures
        t2 >= t1 + THROTTLE_MS,
{
}

// Authing commands
impl AniDb {
    /// The AUTH command line for these credentials; the password travels in
    /// plaintext, a constraint of the protocol itself.
    pub fn auth_cmd(&self, username: &str, password: &str) -> (r: String)
        ensures
            r@ == cmd_done(
                cmd_arg_next(
                    cmd_arg_next(
                        cmd_arg_next(
                            cmd_arg_next(
                                cmd_arg_next(
                                    cmd_arg_first(
                                        cmd_start("AUTH"@),
                                        "user"@,
                                        escaped_text(username@),
                                    ),
                                    "pass"@,
                                    escaped_text(password@),
                                ),
                                "client"@,
                                escaped_text(self.spec_client()),
                            ),
                            "clientver"@,
                            dec_int(self.spec_client_version() as int),
                        ),
                        "protover"@,
                        dec_int(3),
                    ),
                    "enc"@,
                    escaped_text("UTF8"@),
                ),
            ),
    {
        let r = CommandBuilder::new("AUTH")
            .arg("user", username)
            .arg("pass", password)
            .arg("client", self.client.as_str())
            .arg("clientver", self.clientver)
            .arg("protover", 3)
            .arg("enc", "UTF8")
            .build();
        proof {
            lemma_first_arg_glue();
        }
        r
    }

    /// Absorb the reply to AUTH: the first login-accepted shape that fully
    /// matches stores its session key; otherwise the decoded status line is
    /// the failure, and the client is unchanged.
    pub fn apply_auth_response(&mut self, response: &str) -> (r: Result<(), Error>)
        ensures
            final(self).same_identity(old(self)),
            final(self).spec_next_call_ms() == old(self).spec_next_call_ms(),
            ({
                let la = decode_spec(response@, login_accepted_steps());
                let lnv = decode_spec(response@, login_accepted_new_version_steps());
                match r {
                    Ok(_) => {
                        &&& (la is Some || lnv is Some)
                        &&& (la matches Some(vs) ==> final(self).spec_session_key() == Some(
                            text_of(vs[0]),
                        ))
                        &&& (la is None ==> (lnv matches Some(vs)
                            ==> final(self).spec_session_key() == Some(text_of(vs[0]))))
                    },
                    Err(e) => {
                        &&& la is None && lnv is None
                        &&& e matches Error::AniDb(inner) && error_decode(response@, inner)
                        &&& final(self).spec_session_key() == old(self).spec_session_key()
                    },
                }
            }),
    {
        if let Some(rec) = LoginAccepted::parse_from(response) {
            self.session_key = Some(rec.session_key);
            Ok(())
        } else if let Some(rec) = LoginAcceptedNewVersion::parse_from(response) {
            self.session_key = Some(rec.session_key);
            Ok(())
        } else {
            Err(Error::AniDb(responses::Error::parse_from(response)))
        }
    }

    /// The LOGOUT command line, or the client-state failure when no session
    /// key is present; nothing is sent in that case.
    pub fn logout_cmd(&self) -> (r: Result<String, Error>)
        ensures
            match self.spec_session_key() {
                Some(k) => r matches Ok(cmd) && cmd@ == cmd_done(
                    cmd_arg_first(cmd_start("LOGOUT"@), "s"@, escaped_text(k)),
                ),
                None => r == Err::<String, Error>(Error::NoSession),
            },
    {
        let key = match self.session_key_or_err() {
            Ok(k) => k,
            Err(e) => {
                return Err(e);
            },
        };
        let r = CommandBuilder::new("LOGOUT").arg("s", key).build();
        proof {
            lemma_first_arg_glue();
        }
        Ok(r)
    }
}

/// Absorb the reply to LOGOUT: the logged-out shape must fully match,
/// otherwise the decoded status line is the failure. The session key is kept
/// either way, as the protocol leaves the old key merely expired.
pub fn logout_response(response: &str) -> (r: Result<(), Error>)
    ensures
        match r {
            Ok(_) => decode_spec(response@, logged_out_steps()) is Some,
            Err(e) => {
                &&& decode_spec(response@, logged_out_steps()) is None
                &&& e matches Error::AniDb(inner) && error_decode(response@, inner)
            },
        },
{
    match LoggedOut::parse_from(response) {
        Some(_) => Ok(()),
        None => Err(Error::AniDb(responses::Error::parse_from(response))),
    }
}

// Data commands
impl AniDb {
    /// The ANIME lookup command line for one anime identifier, or the
    /// client-state failure when no session key is present.
    pub fn anime_cmd(&self, id: u32) -> (r: Result<String, Error>)
        ensures
            match self.spec_session_key() {
                Some(k) => r matches Ok(cmd) && cmd@ == cmd_done(
                    cmd_arg_next(
                        cmd_arg_next(
                            cmd_arg_first(cmd_start("ANIME"@), "s"@, escaped_text(k)),
                            "aid"@,
                            dec_int(id as int),
                        ),
                        "amask"@,
                        escaped_text("fce8ba010080f8"@),
                    ),
                ),
                None => r == Err::<String, Error>(Error::NoSession),
            },
    {
        let key = match self.session_key_or_err() {
            Ok(k) => k,
            Err(e) => {
                return Err(e);
            },
        };
        let r = CommandBuilder::new("ANIME")
            .arg("s", key)
            .arg("aid", id)
            .arg("amask", "fce8ba010080f8")
            .build();
        proof {
            lemma_first_arg_glue();
        }
        Ok(r)
    }

    /// The EPISODE lookup command line for one episode identifier, or the
    /// client-state failure when no session key is present.
    pub fn episode_cmd(&self, id: u32) -> (r: Result<String, Error>)
        ensures
            match self.spec_session_key() {
                Some(k) => r matches Ok(cmd) && cmd@ == cmd_done(
                    cmd_arg_next(
                        cmd_arg_first(cmd_start("EPISODE"@), "s"@, escaped_text(k)),
                        "eid"@,
                        dec_int(id as int),
                    ),
                ),
                None => r == Err::<String, Error>(Error::NoSession),
            },
    {
        let key = match self.session_key_or_err() {
            Ok(k) => k,
            Err(e) => {
                return Err(e);
            },
        };
        let r = CommandBuilder::new("EPISODE").arg("s", key).arg("eid", id).build();
        proof {
            lemma_first_arg_glue();
        }
        Ok(r)
    }

    /// The FILE lookup command line for one size and content hash, or the
    /// client-state failure when no session key is present.
    pub fn file_cmd(&self, size: u64, hash: &str) -> (r: Result<String, Error>)
        ensures
            match self.spec_session_key() {
                Some(k) => r matches Ok(cmd) && cmd@ == cmd_done(
                    cmd_arg_next(
                        cmd_arg_next(
                            cmd_arg_next(
                                cmd_arg_next(
                                    cmd_arg_first(cmd_start("FILE"@), "s"@, escaped_text(k)),
                                    "size"@,
                                    dec_int(size as int),
                                ),
                                "ed2k"@,
                                escaped_text(hash@),
                            ),
                            "fmask"@,
                            escaped_text("71c2fef800"@),
                        ),
                        "amask"@,
                        escaped_text("00000000"@),
                    ),
                ),
                None => r == Err::<String, Error>(Error::NoSession),
            },
    {
        let key = match self.session_key_or_err() {
            Ok(k) => k,
            Err(e) => {
                return Err(e);
            },
        };
        let r = CommandBuilder::new("FILE")
            .arg("s", key)
            .arg("size", size)
            .arg("ed2k", hash)
            .arg("fmask", "71c2fef800")
            .arg("amask", "00000000")
            .build();
        proof {
            lemma_first_arg_glue();
        }
        Ok(r)
    }

    /// The GROUP lookup command line for one group identifier, or the
    /// client-state failure when no session key is present.
    pub fn group_cmd(&self, id: u32) -> (r: Result<String, Error>)
        ensures
            match self.spec_session_key() {
                Some(k) => r matches Ok(cmd) && cmd@ == cmd_done(
                    cmd_arg_next(
                        cmd_arg_first(cmd_start("GROUP"@), "s"@, escaped_text(k)),
                        "gid"@,
                        dec_int(id as int),
                    ),
                ),
                None => r == Err::<String, Error>(Error::NoSession),
            },
    {
        let key = match self.session_key_or_err() {
            Ok(k) => k,
            Err(e) => {
                return Err(e);
            },
        };
        let r = CommandBuilder::new("GROUP").arg("s", key).arg("gid", id).build();
        proof {
            lemma_first_arg_glue();
        }
        Ok(r)
    }
}

/// An empty sequence in front of the first argument changes nothing; this is
/// the only gap between the builder's step contracts and the command-text
/// spec functions.
proof fn lemma_first_arg_glue()
    ensures
        forall|a: Seq<char>| #[trigger] (a + Seq::<char>::empty()) == a,
{
    assert forall|a: Seq<char>| #[trigger] (a + Seq::<char>::empty()) == a by {
        assert(a + Seq::<char>::empty() =~= a);
    }
}

/// The typed record of an ANIME reply, or the decoded status line when the
/// anime schema does not fully match.
pub fn anime_response(response: &str) -> (r: Result<Anime, Error>)
    ensures
        match r {
            Ok(rec) => decode_spec(response@, anime_steps()) matches Some(vs) && anime_matches(
                rec,
                vs,
            ),
            Err(e) => {
                &&& decode_spec(response@, anime_steps()) is None
                &&& e matches Error::AniDb(inner) && error_decode(response@, inner)
            },
        },
{
    match Anime::parse_from(response) {
        Some(rec) => Ok(rec),
        None => Err(Error::AniDb(responses::Error::parse_from(response))),
    }
}

/// The typed record of an EPISODE reply, or the decoded status line when the
/// episode schema does not fully match.
pub fn episode_response(response: &str) -> (r: Result<Episode, Error>)
    ensures
        match r {
            Ok(rec) => decode_spec(response@, episode_steps()) matches Some(vs)
                && episode_matches(rec, vs),
            Err(e) => {
                &&& decode_spec(response@, episode_steps()) is None
                &&& e matches Error::AniDb(inner) && error_decode(response@, inner)
            },
        },
{
    match Episode::parse_from(response) {
        Some(rec) => Ok(rec),
        None => Err(Error::AniDb(responses::Error::parse_from(response))),
    }
}

/// The typed record of a FILE reply, or the decoded status line when the
/// file schema does not fully match.
pub fn file_response(response: &str) -> (r: Result<File, Error>)
    ensures
        match r {
            Ok(rec) => decode_spec(response@, file_steps()) matches Some(vs) && file_matches(
                rec,
                vs,
            ),
            Err(e) => {
                &&& decode_spec(response@, file_steps()) is None
                &&& e matches Error::AniDb(inner) && error_decode(response@, inner)
            },
        },
{
    match File::parse_from(response) {
        Some(rec) => Ok(rec),
        None => Err(Error::AniDb(responses::Error::parse_from(response))),
    }
}

/// The typed record of a GROUP reply, or the decoded status line when the
/// group schema does not fully match.
pub fn group_response(response: &str) -> (r: Result<Group, Error>)
    ensures
        match r {
            Ok(rec) => decode_spec(response@, group_steps()) matches Some(vs) && group_matches(
                rec,
                vs,
            ),
            Err(e) => {
                &&& decode_spec(response@, group_steps()) is None
                &&& e matches Error::AniDb(inner) && error_decode(response@, inner)
            },
        },
{
    match Group::parse_from(response) {
        Some(rec) => Ok(rec),
        None => Err(Error::AniDb(responses::Error::parse_from(response))),
    }
}

} // verus!
