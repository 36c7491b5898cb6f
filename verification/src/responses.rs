//! Typed response records decoded by schemas, and the generic status-line
//! error decoder used as the last-resort fallback.

use vstd::prelude::*;
use vstd::string::*;
use crate::text::{chars_vec, digit_val, is_dec_digit};
use crate::schema::{
    decode, decode_spec, field_kinds, vals_view, get_bool, get_i16, get_i32, get_i64, get_text, get_u32,
    lemma_run_steps_kinds, steps_view, text_of, bool_of, i16_of, i32_of, i64_of, u32_of,
    Kind, Step, StepV, ValueV,
};

verus! {

/// The position of the first newline at or after `pos`, or the end of `s`.
pub open spec fn line_end(s: Seq<char>, pos: int) -> int
    decreases s.len() - pos,
{
    if pos < 0 || pos >= s.len() {
        pos
    } else if s[pos] == '\n' {
        pos
    } else {
        line_end(s, pos + 1)
    }
}

/// The generic status line: exactly three ASCII digits, one space, then at
/// least one character of message text, read up to (not including) the next
/// newline or the end of the input.
pub open spec fn status_line(s: Seq<char>) -> Option<(int, Seq<char>)> {
    if s.len() >= 5 && is_dec_digit(s[0]) && is_dec_digit(s[1]) && is_dec_digit(s[2]) && s[3]
        == ' ' && s[4] != '\n' {
        Some(
            (
                digit_val(s[0]) * 100 + digit_val(s[1]) * 10 + digit_val(s[2]),
                s.subrange(4, line_end(s, 4)),
            ),
        )
    } else {
        None
    }
}

/// A server-reported failure, mapped from the status line; `Unknown` carries
/// the raw text when even the status-line grammar does not match.
#[derive(Debug, PartialEq)]
pub enum Error {
    LoginFailed,
    ClientVersionOutdated,
    Other(u16, String),
    Unknown(String),
}

/// Whether `e` is what decoding `s` as a status line yields: code 500 is a
/// failed login, 503 an outdated client version, any other code `Other`, and
/// text with no status line at all `Unknown` with that text.
pub open spec fn error_decode(s: Seq<char>, e: Error) -> bool {
    match status_line(s) {
        Some((code, msg)) => {
            if code == 500 {
                e is LoginFailed
            } else if code == 503 {
                e is ClientVersionOutdated
            } else {
                e matches Error::Other(c, m) && c as int == code && m@ == msg
            }
        },
        None => e matches Error::Unknown(t) && t@ == s,
    }
}

impl Error {
    /// Decode a status line into the error taxonomy; this never fails, by
    /// design, since it is the fallback for every unmatched response.
    #[verifier::loop_isolation(false)]
    pub fn parse_from(s: &str) -> (r: Self)
        ensures
            error_decode(s@, r),
    {
        let v = chars_vec(s);
        if v.len() >= 5 {
            let c0 = v[0];
            let c1 = v[1];
            let c2 = v[2];
            if ('0' <= c0 && c0 <= '9') && ('0' <= c1 && c1 <= '9') && ('0' <= c2 && c2 <= '9')
                && v[3] == ' ' && v[4] != '\n' {
                let d0 = (c0 as u32 - 48) as u16;
                let d1 = (c1 as u32 - 48) as u16;
                let d2 = (c2 as u32 - 48) as u16;
                let code: u16 = d0 * 100 + d1 * 10 + d2;
                let mut k: usize = 4;
                while k < v.len() && v[k] != '\n'
                    invariant
                        4 <= k <= v@.len(),
                        line_end(v@, 4) == line_end(v@, k as int),
                    decreases v@.len() - k,
                {
                    k += 1;
                }
                if code == 500 {
                    Error::LoginFailed
                } else if code == 503 {
                    Error::ClientVersionOutdated
                } else {
                    let msg = s.substring_char(4, k).to_owned();
                    Error::Other(code, msg)
                }
            } else {
                Error::Unknown(s.to_owned())
            }
        } else {
            Error::Unknown(s.to_owned())
        }
    }
}

/// A successful authentication reply carrying the new session key.
#[derive(Debug, PartialEq)]
pub struct LoginAccepted {
    pub session_key: String,
}

pub open spec fn login_accepted_steps() -> Seq<StepV> {
    seq![StepV::Lit("200 "@), StepV::TextField(" LOGIN ACCEPTED\n"@)]
}

/// The schema of a login-accepted reply.
pub fn login_accepted_schema() -> (r: Vec<Step>)
    ensures
        steps_view(r@) == login_accepted_steps(),
{
    let mut v: Vec<Step> = Vec::new();
    v.push(Step::Lit("200 ".to_owned()));
    v.push(Step::TextField(" LOGIN ACCEPTED\n".to_owned()));
    proof {
        assert(steps_view(v@) =~= login_accepted_steps());
    }
    v
}

pub open spec fn login_accepted_matches(rec: LoginAccepted, vs: Seq<ValueV>) -> bool {
    vs.len() == 1 && rec.session_key@ == text_of(vs[0])
}

impl LoginAccepted {
    /// Decode a response against the login-accepted schema.
    pub fn parse_from(s: &str) -> (r: Option<Self>)
        ensures
            match r {
                Some(rec) => decode_spec(s@, login_accepted_steps()) matches Some(vs)
                    && login_accepted_matches(rec, vs),
                None => decode_spec(s@, login_accepted_steps()) is None,
            },
    {
        let schema = login_accepted_schema();
        match decode(s, &schema) {
            Some(vals) => {
                proof {
                    lemma_run_steps_kinds(s@, 0, login_accepted_steps());
                    reveal_with_fuel(field_kinds, 4);
                    assert(field_kinds(login_accepted_steps()) =~= seq![Kind::Text]);
                    assert(vals_view(vals@).len() == 1);
                    assert(vals@[0]@ == vals_view(vals@)[0]);
                }
                let session_key = get_text(&vals, 0);
                Some(LoginAccepted { session_key })
            },
            None => None,
        }
    }
}

/// A successful authentication reply that also signals a newer client
/// version is available.
#[derive(Debug, PartialEq)]
pub struct LoginAcceptedNewVersion {
    pub session_key: String,
}

pub open spec fn login_accepted_new_version_steps() -> Seq<StepV> {
    seq![
        StepV::Lit("201 "@),
        StepV::TextField(" LOGIN ACCEPTED - NEW VERSION AVAILABLE\n"@),
    ]
}

/// The schema of a login-accepted reply from a server with a newer client.
pub fn login_accepted_new_version_schema() -> (r: Vec<Step>)
    ensures
        steps_view(r@) == login_accepted_new_version_steps(),
{
    let mut v: Vec<Step> = Vec::new();
    v.push(Step::Lit("201 ".to_owned()));
    v.push(Step::TextField(" LOGIN ACCEPTED - NEW VERSION AVAILABLE\n".to_owned()));
    proof {
        assert(steps_view(v@) =~= login_accepted_new_version_steps());
    }
    v
}

pub open spec fn login_accepted_new_version_matches(
    rec: LoginAcceptedNewVersion,
    vs: Seq<ValueV>,
) -> bool {
    vs.len() == 1 && rec.session_key@ == text_of(vs[0])
}

impl LoginAcceptedNewVersion {
    /// Decode a response against the new-version login-accepted schema.
    pub fn parse_from(s: &str) -> (r: Option<Self>)
        ensures
            match r {
                Some(rec) => decode_spec(s@, login_accepted_new_version_steps()) matches Some(vs)
                    && login_accepted_new_version_matches(rec, vs),
                None => decode_spec(s@, login_accepted_new_version_steps()) is None,
            },
    {
        let schema = login_accepted_new_version_schema();
        match decode(s, &schema) {
            Some(vals) => {
                proof {
                    lemma_run_steps_kinds(s@, 0, login_accepted_new_version_steps());
                    reveal_with_fuel(field_kinds, 4);
                    assert(field_kinds(login_accepted_new_version_steps()) =~= seq![Kind::Text]);
                    assert(vals_view(vals@).len() == 1);
                    assert(vals@[0]@ == vals_view(vals@)[0]);
                }
                let session_key = get_text(&vals, 0);
                Some(LoginAcceptedNewVersion { session_key })
            },
            None => None,
        }
    }
}

/// A confirmed logout reply.
#[derive(Debug, PartialEq)]
pub struct LoggedOut {}

pub open spec fn logged_out_steps() -> Seq<StepV> {
    seq![StepV::Lit("203 LOGGED OUT\n"@)]
}

/// The schema of a logged-out reply.
pub fn logged_out_schema() -> (r: Vec<Step>)
    ensures
        steps_view(r@) == logged_out_steps(),
{
    let mut v: Vec<Step> = Vec::new();
    v.push(Step::Lit("203 LOGGED OUT\n".to_owned()));
    proof {
        assert(steps_view(v@) =~= logged_out_steps());
    }
    v
}

impl LoggedOut {
    /// Decode a response against the logged-out schema.
    pub fn parse_from(s: &str) -> (r: Option<Self>)
        ensures
            r is Some <==> decode_spec(s@, logged_out_steps()) is Some,
    {
        let schema = logged_out_schema();
        match decode(s, &schema) {
            Some(_vals) => Some(LoggedOut {}),
            None => None,
        }
    }
}

/// An anime record reply.
#[derive(Debug, PartialEq)]
pub struct Anime {
    pub aid: u32,
    pub dateflags: i32,
    pub year: String,
    pub atype: String,
    pub related_aid_list: String,
    pub related_aid_type: String,
    pub romaji_name: String,
    pub kanji_name: String,
    pub english_name: String,
    pub short_name_list: String,
    pub episodes: i32,
    pub special_ep_count: i32,
    pub air_date: i32,
    pub end_date: i32,
    pub picname: String,
    pub nsfw: bool,
    pub characterid_list: String,
    pub specials_count: i32,
    pub credits_count: i32,
    pub other_count: i32,
    pub trailer_count: i32,
    pub parody_count: i32,
}

pub open spec fn anime_steps() -> Seq<StepV> {
    seq![
        StepV::Lit("230 ANIME\n"@),
        StepV::U32Field,
        StepV::Lit("|"@),
        StepV::I32Field,
        StepV::Lit("|"@),
        StepV::TextField("|"@),
        StepV::TextField("|"@),
        StepV::TextField("|"@),
        StepV::TextField("|"@),
        StepV::TextField("|"@),
        StepV::TextField("|"@),
        StepV::TextField("|"@),
        StepV::TextField("|"@),
        StepV::I32Field,
        StepV::Lit("|"@),
        StepV::I32Field,
        StepV::Lit("|"@),
        StepV::I32Field,
        StepV::Lit("|"@),
        StepV::I32Field,
        StepV::Lit("|"@),
        StepV::TextField("|"@),
        StepV::BoolField,
        StepV::Lit("|"@),
        StepV::TextField("|"@),
        StepV::I32Field,
        StepV::Lit("|"@),
        StepV::I32Field,
        StepV::Lit("|"@),
        StepV::I32Field,
        StepV::Lit("|"@),
        StepV::I32Field,
        StepV::Lit("|"@),
        StepV::I32Field,
        StepV::Lit("\n"@),
    ]
}

/// The schema of an anime reply.
pub fn anime_schema() -> (r: Vec<Step>)
    ensures
        steps_view(r@) == anime_steps(),
{
    let mut v: Vec<Step> = Vec::new();
    v.push(Step::Lit("230 ANIME\n".to_owned()));
    v.push(Step::U32Field);
    v.push(Step::Lit("|".to_owned()));
    v.push(Step::I32Field);
    v.push(Step::Lit("|".to_owned()));
    v.push(Step::TextField("|".to_owned()));
    v.push(Step::TextField("|".to_owned()));
    v.push(Step::TextField("|".to_owned()));
    v.push(Step::TextField("|".to_owned()));
    v.push(Step::TextField("|".to_owned()));
    v.push(Step::TextField("|".to_owned()));
    v.push(Step::TextField("|".to_owned()));
    v.push(Step::TextField("|".to_owned()));
    v.push(Step::I32Field);
    v.push(Step::Lit("|".to_owned()));
    v.push(Step::I32Field);
    v.push(Step::Lit("|".to_owned()));
    v.push(Step::I32Field);
    v.push(Step::Lit("|".to_owned()));
    v.push(Step::I32Field);
    v.push(Step::Lit("|".to_owned()));
    v.push(Step::TextField("|".to_owned()));
    v.push(Step::BoolField);
    v.push(Step::Lit("|".to_owned()));
    v.push(Step::TextField("|".to_owned()));
    v.push(Step::I32Field);
    v.push(Step::Lit("|".to_owned()));
    v.push(Step::I32Field);
    v.push(Step::Lit("|".to_owned()));
    v.push(Step::I32Field);
    v.push(Step::Lit("|".to_owned()));
    v.push(Step::I32Field);
    v.push(Step::Lit("|".to_owned()));
    v.push(Step::I32Field);
    v.push(Step::Lit("\n".to_owned()));
    proof {
        assert(steps_view(v@) =~= anime_steps());
    }
    v
}

pub open spec fn anime_matches(rec: Anime, vs: Seq<ValueV>) -> bool {
    &&& vs.len() == 22
    &&& rec.aid == u32_of(vs[0])
    &&& rec.dateflags == i32_of(vs[1])
    &&& rec.year@ == text_of(vs[2])
    &&& rec.atype@ == text_of(vs[3])
    &&& rec.related_aid_list@ == text_of(vs[4])
    &&& rec.related_aid_type@ == text_of(vs[5])
    &&& rec.romaji_name@ == text_of(vs[6])
    &&& rec.kanji_name@ == text_of(vs[7])
    &&& rec.english_name@ == text_of(vs[8])
    &&& rec.short_name_list@ == text_of(vs[9])
    &&& rec.episodes == i32_of(vs[10])
    &&& rec.special_ep_count == i32_of(vs[11])
    &&& rec.air_date == i32_of(vs[12])
    &&& rec.end_date == i32_of(vs[13])
    &&& rec.picname@ == text_of(vs[14])
    &&& rec.nsfw == bool_of(vs[15])
    &&& rec.characterid_list@ == text_of(vs[16])
    &&& rec.specials_count == i32_of(vs[17])
    &&& rec.credits_count == i32_of(vs[18])
    &&& rec.other_count == i32_of(vs[19])
    &&& rec.trailer_count == i32_of(vs[20])
    &&& rec.parody_count == i32_of(vs[21])
}

impl Anime {
    /// Decode a response against the anime schema.
    #[verifier::rlimit(100)]
    pub fn parse_from(s: &str) -> (r: Option<Self>)
        ensures
            match r {
                Some(rec) => decode_spec(s@, anime_steps()) matches Some(vs)
                    && anime_matches(rec, vs),
                None => decode_spec(s@, anime_steps()) is None,
            },
    {
        let schema = anime_schema();
        match decode(s, &schema) {
            Some(vals) => {
                proof {
                    lemma_run_steps_kinds(s@, 0, anime_steps());
                    reveal_with_fuel(field_kinds, 37);
                    assert(field_kinds(anime_steps()) =~= seq![Kind::U32, Kind::I32, Kind::Text, Kind::Text, Kind::Text, Kind::Text, Kind::Text, Kind::Text, Kind::Text, Kind::Text, Kind::I32, Kind::I32, Kind::I32, Kind::I32, Kind::Text, Kind::Boolean, Kind::Text, Kind::I32, Kind::I32, Kind::I32, Kind::I32, Kind::I32]);
                    assert(vals_view(vals@).len() == 22);
                    assert(vals@[0]@ == vals_view(vals@)[0]);
                    assert(vals@[1]@ == vals_view(vals@)[1]);
                    assert(vals@[2]@ == vals_view(vals@)[2]);
                    assert(vals@[3]@ == vals_view(vals@)[3]);
                    assert(vals@[4]@ == vals_view(vals@)[4]);
                    assert(vals@[5]@ == vals_view(vals@)[5]);
                    assert(vals@[6]@ == vals_view(vals@)[6]);
                    assert(vals@[7]@ == vals_view(vals@)[7]);
                    assert(vals@[8]@ == vals_view(vals@)[8]);
                    assert(vals@[9]@ == vals_view(vals@)[9]);
                    assert(vals@[10]@ == vals_view(vals@)[10]);
                    assert(vals@[11]@ == vals_view(vals@)[11]);
                    assert(vals@[12]@ == vals_view(vals@)[12]);
                    assert(vals@[13]@ == vals_view(vals@)[13]);
                    assert(vals@[14]@ == vals_view(vals@)[14]);
                    assert(vals@[15]@ == vals_view(vals@)[15]);
                    assert(vals@[16]@ == vals_view(vals@)[16]);
                    assert(vals@[17]@ == vals_view(vals@)[17]);
                    assert(vals@[18]@ == vals_view(vals@)[18]);
                    assert(vals@[19]@ == vals_view(vals@)[19]);
                    assert(vals@[20]@ == vals_view(vals@)[20]);
                    assert(vals@[21]@ == vals_view(vals@)[21]);
                }
                Some(Anime {
                    aid: get_u32(&vals, 0),
                    dateflags: get_i32(&vals, 1),
                    year: get_text(&vals, 2),
                    atype: get_text(&vals, 3),
                    related_aid_list: get_text(&vals, 4),
                    related_aid_type: get_text(&vals, 5),
                    romaji_name: get_text(&vals, 6),
                    kanji_name: get_text(&vals, 7),
                    english_name: get_text(&vals, 8),
                    short_name_list: get_text(&vals, 9),
                    episodes: get_i32(&vals, 10),
                    special_ep_count: get_i32(&vals, 11),
                    air_date: get_i32(&vals, 12),
                    end_date: get_i32(&vals, 13),
                    picname: get_text(&vals, 14),
                    nsfw: get_bool(&vals, 15),
                    characterid_list: get_text(&vals, 16),
                    specials_count: get_i32(&vals, 17),
                    credits_count: get_i32(&vals, 18),
                    other_count: get_i32(&vals, 19),
                    trailer_count: get_i32(&vals, 20),
                    parody_count: get_i32(&vals, 21),
                })
            },
            None => None,
        }
    }
}

/// An episode record reply.
#[derive(Debug, PartialEq)]
pub struct Episode {
    pub eid: u32,
    pub aid: u32,
    pub length: i32,
    pub rating: i32,
    pub votes: i32,
    pub epno: String,
    pub eng: String,
    pub romaji: String,
    pub kanji: String,
    pub aired: i32,
    pub etype: i32,
}

pub open spec fn episode_steps() -> Seq<StepV> {
    seq![
        StepV::Lit("240 EPISODE\n"@),
        StepV::U32Field,
        StepV::Lit("|"@),
        StepV::U32Field,
        StepV::Lit("|"@),
        StepV::I32Field,
        StepV::Lit("|"@),
        StepV::I32Field,
        StepV::Lit("|"@),
        StepV::I32Field,
        StepV::Lit("|"@),
        StepV::TextField("|"@),
        StepV::TextField("|"@),
        StepV::TextField("|"@),
        StepV::TextField("|"@),
        StepV::I32Field,
        StepV::Lit("|"@),
        StepV::I32Field,
        StepV::Lit("\n"@),
    ]
}

/// The schema of an episode reply.
pub fn episode_schema() -> (r: Vec<Step>)
    ensures
        steps_view(r@) == episode_steps(),
{
    let mut v: Vec<Step> = Vec::new();
    v.push(Step::Lit("240 EPISODE\n".to_owned()));
    v.push(Step::U32Field);
    v.push(Step::Lit("|".to_owned()));
    v.push(Step::U32Field);
    v.push(Step::Lit("|".to_owned()));
    v.push(Step::I32Field);
    v.push(Step::Lit("|".to_owned()));
    v.push(Step::I32Field);
    v.push(Step::Lit("|".to_owned()));
    v.push(Step::I32Field);
    v.push(Step::Lit("|".to_owned()));
    v.push(Step::TextField("|".to_owned()));
    v.push(Step::TextField("|".to_owned()));
    v.push(Step::TextField("|".to_owned()));
    v.push(Step::TextField("|".to_owned()));
    v.push(Step::I32Field);
    v.push(Step::Lit("|".to_owned()));
    v.push(Step::I32Field);
    v.push(Step::Lit("\n".to_owned()));
    proof {
        assert(steps_view(v@) =~= episode_steps());
    }
    v
}

pub open spec fn episode_matches(rec: Episode, vs: Seq<ValueV>) -> bool {
    &&& vs.len() == 11
    &&& rec.eid == u32_of(vs[0])
    &&& rec.aid == u32_of(vs[1])
    &&& rec.length == i32_of(vs[2])
    &&& rec.rating == i32_of(vs[3])
    &&& rec.votes == i32_of(vs[4])
    &&& rec.epno@ == text_of(vs[5])
    &&& rec.eng@ == text_of(vs[6])
    &&& rec.romaji@ == text_of(vs[7])
    &&& rec.kanji@ == text_of(vs[8])
    &&& rec.aired == i32_of(vs[9])
    &&& rec.etype == i32_of(vs[10])
}

impl Episode {
    /// Decode a response against the episode schema.
    #[verifier::rlimit(100)]
    pub fn parse_from(s: &str) -> (r: Option<Self>)
        ensures
            match r {
                Some(rec) => decode_spec(s@, episode_steps()) matches Some(vs)
                    && episode_matches(rec, vs),
                None => decode_spec(s@, episode_steps()) is None,
            },
    {
        let schema = episode_schema();
        match decode(s, &schema) {
            Some(vals) => {
                proof {
                    lemma_run_steps_kinds(s@, 0, episode_steps());
                    reveal_with_fuel(field_kinds, 21);
                    assert(field_kinds(episode_steps()) =~= seq![Kind::U32, Kind::U32, Kind::I32, Kind::I32, Kind::I32, Kind::Text, Kind::Text, Kind::Text, Kind::Text, Kind::I32, Kind::I32]);
                    assert(vals_view(vals@).len() == 11);
                    assert(vals@[0]@ == vals_view(vals@)[0]);
                    assert(vals@[1]@ == vals_view(vals@)[1]);
                    assert(vals@[2]@ == vals_view(vals@)[2]);
                    assert(vals@[3]@ == vals_view(vals@)[3]);
                    assert(vals@[4]@ == vals_view(vals@)[4]);
                    assert(vals@[5]@ == vals_view(vals@)[5]);
                    assert(vals@[6]@ == vals_view(vals@)[6]);
                    assert(vals@[7]@ == vals_view(vals@)[7]);
                    assert(vals@[8]@ == vals_view(vals@)[8]);
                    assert(vals@[9]@ == vals_view(vals@)[9]);
                    assert(vals@[10]@ == vals_view(vals@)[10]);
                }
                Some(Episode {
                    eid: get_u32(&vals, 0),
                    aid: get_u32(&vals, 1),
                    length: get_i32(&vals, 2),
                    rating: get_i32(&vals, 3),
                    votes: get_i32(&vals, 4),
                    epno: get_text(&vals, 5),
                    eng: get_text(&vals, 6),
                    romaji: get_text(&vals, 7),
                    kanji: get_text(&vals, 8),
                    aired: get_i32(&vals, 9),
                    etype: get_i32(&vals, 10),
                })
            },
            None => None,
        }
    }
}

/// A file record reply.
#[derive(Debug, PartialEq)]
pub struct File {
    pub fid: u32,
    pub aid: u32,
    pub eid: u32,
    pub gid: u32,
    pub state: i16,
    pub size: i64,
    pub ed2k: String,
    pub colour_depth: String,
    pub quality: String,
    pub source: String,
    pub audio_codec_list: String,
    pub audio_bitrate_list: i32,
    pub video_codec: String,
    pub video_bitrate: i32,
    pub video_resolution: String,
    pub dub_language: String,
    pub sub_language: String,
    pub length_in_seconds: i32,
    pub description: String,
    pub aired_date: i32,
}

pub open spec fn file_steps() -> Seq<StepV> {
    seq![
        StepV::Lit("220 FILE\n"@),
        StepV::U32Field,
        StepV::Lit("|"@),
        StepV::U32Field,
        StepV::Lit("|"@),
        StepV::U32Field,
        StepV::Lit("|"@),
        StepV::U32Field,
        StepV::Lit("|"@),
        StepV::I16Field,
        StepV::Lit("|"@),
        StepV::I64Field,
        StepV::Lit("|"@),
        StepV::TextField("|"@),
        StepV::TextField("|"@),
        StepV::TextField("|"@),
        StepV::TextField("|"@),
        StepV::TextField("|"@),
        StepV::I32Field,
        StepV::Lit("|"@),
        StepV::TextField("|"@),
        StepV::I32Field,
        StepV::Lit("|"@),
        StepV::TextField("|"@),
        StepV::TextField("|"@),
        StepV::TextField("|"@),
        StepV::I32Field,
        StepV::Lit("|"@),
        StepV::TextField("|"@),
        StepV::I32Field,
        StepV::Lit("\n"@),
    ]
}

/// The schema of a file reply.
pub fn file_schema() -> (r: Vec<Step>)
    ensures
        steps_view(r@) == file_steps(),
{
    let mut v: Vec<Step> = Vec::new();
    v.push(Step::Lit("220 FILE\n".to_owned()));
    v.push(Step::U32Field);
    v.push(Step::Lit("|".to_owned()));
    v.push(Step::U32Field);
    v.push(Step::Lit("|".to_owned()));
    v.push(Step::U32Field);
    v.push(Step::Lit("|".to_owned()));
    v.push(Step::U32Field);
    v.push(Step::Lit("|".to_owned()));
    v.push(Step::I16Field);
    v.push(Step::Lit("|".to_owned()));
    v.push(Step::I64Field);
    v.push(Step::Lit("|".to_owned()));
    v.push(Step::TextField("|".to_owned()));
    v.push(Step::TextField("|".to_owned()));
    v.push(Step::TextField("|".to_owned()));
    v.push(Step::TextField("|".to_owned()));
    v.push(Step::TextField("|".to_owned()));
    v.push(Step::I32Field);
    v.push(Step::Lit("|".to_owned()));
    v.push(Step::TextField("|".to_owned()));
    v.push(Step::I32Field);
    v.push(Step::Lit("|".to_owned()));
    v.push(Step::TextField("|".to_owned()));
    v.push(Step::TextField("|".to_owned()));
    v.push(Step::TextField("|".to_owned()));
    v.push(Step::I32Field);
    v.push(Step::Lit("|".to_owned()));
    v.push(Step::TextField("|".to_owned()));
    v.push(Step::I32Field);
    v.push(Step::Lit("\n".to_owned()));
    proof {
        assert(steps_view(v@) =~= file_steps());
    }
    v
}

pub open spec fn file_matches(rec: File, vs: Seq<ValueV>) -> bool {
    &&& vs.len() == 20
    &&& rec.fid == u32_of(vs[0])
    &&& rec.aid == u32_of(vs[1])
    &&& rec.eid == u32_of(vs[2])
    &&& rec.gid == u32_of(vs[3])
    &&& rec.state == i16_of(vs[4])
    &&& rec.size == i64_of(vs[5])
    &&& rec.ed2k@ == text_of(vs[6])
    &&& rec.colour_depth@ == text_of(vs[7])
    &&& rec.quality@ == text_of(vs[8])
    &&& rec.source@ == text_of(vs[9])
    &&& rec.audio_codec_list@ == text_of(vs[10])
    &&& rec.audio_bitrate_list == i32_of(vs[11])
    &&& rec.video_codec@ == text_of(vs[12])
    &&& rec.video_bitrate == i32_of(vs[13])
    &&& rec.video_resolution@ == text_of(vs[14])
    &&& rec.dub_language@ == text_of(vs[15])
    &&& rec.sub_language@ == text_of(vs[16])
    &&& rec.length_in_seconds == i32_of(vs[17])
    &&& rec.description@ == text_of(vs[18])
    &&& rec.aired_date == i32_of(vs[19])
}

impl File {
    /// Decode a response against the file schema.
    #[verifier::rlimit(100)]
    pub fn parse_from(s: &str) -> (r: Option<Self>)
        ensures
            match r {
                Some(rec) => decode_spec(s@, file_steps()) matches Some(vs)
                    && file_matches(rec, vs),
                None => decode_spec(s@, file_steps()) is None,
            },
    {
        let schema = file_schema();
        match decode(s, &schema) {
            Some(vals) => {
                proof {
                    lemma_run_steps_kinds(s@, 0, file_steps());
                    reveal_with_fuel(field_kinds, 33);
                    assert(field_kinds(file_steps()) =~= seq![Kind::U32, Kind::U32, Kind::U32, Kind::U32, Kind::I16, Kind::I64, Kind::Text, Kind::Text, Kind::Text, Kind::Text, Kind::Text, Kind::I32, Kind::Text, Kind::I32, Kind::Text, Kind::Text, Kind::Text, Kind::I32, Kind::Text, Kind::I32]);
                    assert(vals_view(vals@).len() == 20);
                    assert(vals@[0]@ == vals_view(vals@)[0]);
                    assert(vals@[1]@ == vals_view(vals@)[1]);
                    assert(vals@[2]@ == vals_view(vals@)[2]);
                    assert(vals@[3]@ == vals_view(vals@)[3]);
                    assert(vals@[4]@ == vals_view(vals@)[4]);
                    assert(vals@[5]@ == vals_view(vals@)[5]);
                    assert(vals@[6]@ == vals_view(vals@)[6]);
                    assert(vals@[7]@ == vals_view(vals@)[7]);
                    assert(vals@[8]@ == vals_view(vals@)[8]);
                    assert(vals@[9]@ == vals_view(vals@)[9]);
                    assert(vals@[10]@ == vals_view(vals@)[10]);
                    assert(vals@[11]@ == vals_view(vals@)[11]);
                    assert(vals@[12]@ == vals_view(vals@)[12]);
                    assert(vals@[13]@ == vals_view(vals@)[13]);
                    assert(vals@[14]@ == vals_view(vals@)[14]);
                    assert(vals@[15]@ == vals_view(vals@)[15]);
                    assert(vals@[16]@ == vals_view(vals@)[16]);
                    assert(vals@[17]@ == vals_view(vals@)[17]);
                    assert(vals@[18]@ == vals_view(vals@)[18]);
                    assert(vals@[19]@ == vals_view(vals@)[19]);
                }
                Some(File {
                    fid: get_u32(&vals, 0),
                    aid: get_u32(&vals, 1),
                    eid: get_u32(&vals, 2),
                    gid: get_u32(&vals, 3),
                    state: get_i16(&vals, 4),
                    size: get_i64(&vals, 5),
                    ed2k: get_text(&vals, 6),
                    colour_depth: get_text(&vals, 7),
                    quality: get_text(&vals, 8),
                    source: get_text(&vals, 9),
                    audio_codec_list: get_text(&vals, 10),
                    audio_bitrate_list: get_i32(&vals, 11),
                    video_codec: get_text(&vals, 12),
                    video_bitrate: get_i32(&vals, 13),
                    video_resolution: get_text(&vals, 14),
                    dub_language: get_text(&vals, 15),
                    sub_language: get_text(&vals, 16),
                    length_in_seconds: get_i32(&vals, 17),
                    description: get_text(&vals, 18),
                    aired_date: get_i32(&vals, 19),
                })
            },
            None => None,
        }
    }
}

/// A group record reply.
#[derive(Debug, PartialEq)]
pub struct Group {
    pub gid: u32,
    pub rating: i32,
    pub votes: i32,
    pub acount: i32,
    pub fcount: i32,
    pub name: String,
    pub short: String,
    pub irc_channel: String,
    pub irc_server: String,
    pub url: String,
    pub picname: String,
    pub foundeddate: i32,
    pub disbandeddate: i32,
    pub dateflags: i16,
    pub lastreleasedate: i32,
    pub lastactivitydate: i32,
    pub grouprelations: String,
}

pub open spec fn group_steps() -> Seq<StepV> {
    seq![
        StepV::Lit("250 GROUP\n"@),
        StepV::U32Field,
        StepV::Lit("|"@),
        StepV::I32Field,
        StepV::Lit("|"@),
        StepV::I32Field,
        StepV::Lit("|"@),
        StepV::I32Field,
        StepV::Lit("|"@),
        StepV::I32Field,
        StepV::Lit("|"@),
        StepV::TextField("|"@),
        StepV::TextField("|"@),
        StepV::TextField("|"@),
        StepV::TextField("|"@),
        StepV::TextField("|"@),
        StepV::TextField("|"@),
        StepV::I32Field,
        StepV::Lit("|"@),
        StepV::I32Field,
        StepV::Lit("|"@),
        StepV::I16Field,
        StepV::Lit("|"@),
        StepV::I32Field,
        StepV::Lit("|"@),
        StepV::I32Field,
        StepV::Lit("|"@),
        StepV::TextField("\n"@),
    ]
}

/// The schema of a group reply.
pub fn group_schema() -> (r: Vec<Step>)
    ensures
        steps_view(r@) == group_steps(),
{
    let mut v: Vec<Step> = Vec::new();
    v.push(Step::Lit("250 GROUP\n".to_owned()));
    v.push(Step::U32Field);
    v.push(Step::Lit("|".to_owned()));
    v.push(Step::I32Field);
    v.push(Step::Lit("|".to_owned()));
    v.push(Step::I32Field);
    v.push(Step::Lit("|".to_owned()));
    v.push(Step::I32Field);
    v.push(Step::Lit("|".to_owned()));
    v.push(Step::I32Field);
    v.push(Step::Lit("|".to_owned()));
    v.push(Step::TextField("|".to_owned()));
    v.push(Step::TextField("|".to_owned()));
    v.push(Step::TextField("|".to_owned()));
    v.push(Step::TextField("|".to_owned()));
    v.push(Step::TextField("|".to_owned()));
    v.push(Step::TextField("|".to_owned()));
    v.push(Step::I32Field);
    v.push(Step::Lit("|".to_owned()));
    v.push(Step::I32Field);
    v.push(Step::Lit("|".to_owned()));
    v.push(Step::I16Field);
    v.push(Step::Lit("|".to_owned()));
    v.push(Step::I32Field);
    v.push(Step::Lit("|".to_owned()));
    v.push(Step::I32Field);
    v.push(Step::Lit("|".to_owned()));
    v.push(Step::TextField("\n".to_owned()));
    proof {
        assert(steps_view(v@) =~= group_steps());
    }
    v
}

pub open spec fn group_matches(rec: Group, vs: Seq<ValueV>) -> bool {
    &&& vs.len() == 17
    &&& rec.gid == u32_of(vs[0])
    &&& rec.rating == i32_of(vs[1])
    &&& rec.votes == i32_of(vs[2])
    &&& rec.acount == i32_of(vs[3])
    &&& rec.fcount == i32_of(vs[4])
    &&& rec.name@ == text_of(vs[5])
    &&& rec.short@ == text_of(vs[6])
    &&& rec.irc_channel@ == text_of(vs[7])
    &&& rec.irc_server@ == text_of(vs[8])
    &&& rec.url@ == text_of(vs[9])
    &&& rec.picname@ == text_of(vs[10])
    &&& rec.foundeddate == i32_of(vs[11])
    &&& rec.disbandeddate == i32_of(vs[12])
    &&& rec.dateflags == i16_of(vs[13])
    &&& rec.lastreleasedate == i32_of(vs[14])
    &&& rec.lastactivitydate == i32_of(vs[15])
    &&& rec.grouprelations@ == text_of(vs[16])
}

impl Group {
    /// Decode a response against the group schema.
    #[verifier::rlimit(100)]
    pub fn parse_from(s: &str) -> (r: Option<Self>)
        ensures
            match r {
                Some(rec) => decode_spec(s@, group_steps()) matches Some(vs)
                    && group_matches(rec, vs),
                None => decode_spec(s@, group_steps()) is None,
            },
    {
        let schema = group_schema();
        match decode(s, &schema) {
            Some(vals) => {
                proof {
                    lemma_run_steps_kinds(s@, 0, group_steps());
                    reveal_with_fuel(field_kinds, 30);
                    assert(field_kinds(group_steps()) =~= seq![Kind::U32, Kind::I32, Kind::I32, Kind::I32, Kind::I32, Kind::Text, Kind::Text, Kind::Text, Kind::Text, Kind::Text, Kind::Text, Kind::I32, Kind::I32, Kind::I16, Kind::I32, Kind::I32, Kind::Text]);
                    assert(vals_view(vals@).len() == 17);
                    assert(vals@[0]@ == vals_view(vals@)[0]);
                    assert(vals@[1]@ == vals_view(vals@)[1]);
                    assert(vals@[2]@ == vals_view(vals@)[2]);
                    assert(vals@[3]@ == vals_view(vals@)[3]);
                    assert(vals@[4]@ == vals_view(vals@)[4]);
                    assert(vals@[5]@ == vals_view(vals@)[5]);
                    assert(vals@[6]@ == vals_view(vals@)[6]);
                    assert(vals@[7]@ == vals_view(vals@)[7]);
                    assert(vals@[8]@ == vals_view(vals@)[8]);
                    assert(vals@[9]@ == vals_view(vals@)[9]);
                    assert(vals@[10]@ == vals_view(vals@)[10]);
                    assert(vals@[11]@ == vals_view(vals@)[11]);
                    assert(vals@[12]@ == vals_view(vals@)[12]);
                    assert(vals@[13]@ == vals_view(vals@)[13]);
                    assert(vals@[14]@ == vals_view(vals@)[14]);
                    assert(vals@[15]@ == vals_view(vals@)[15]);
                    assert(vals@[16]@ == vals_view(vals@)[16]);
                }
                Some(Group {
                    gid: get_u32(&vals, 0),
                    rating: get_i32(&vals, 1),
                    votes: get_i32(&vals, 2),
                    acount: get_i32(&vals, 3),
                    fcount: get_i32(&vals, 4),
                    name: get_text(&vals, 5),
                    short: get_text(&vals, 6),
                    irc_channel: get_text(&vals, 7),
                    irc_server: get_text(&vals, 8),
                    url: get_text(&vals, 9),
                    picname: get_text(&vals, 10),
                    foundeddate: get_i32(&vals, 11),
                    disbandeddate: get_i32(&vals, 12),
                    dateflags: get_i16(&vals, 13),
                    lastreleasedate: get_i32(&vals, 14),
                    lastactivitydate: get_i32(&vals, 15),
                    grouprelations: get_text(&vals, 16),
                })
            },
            None => None,
        }
    }
}

} // verus!
