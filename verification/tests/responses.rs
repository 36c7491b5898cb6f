use anidb_client::responses::{
    Anime, Episode, Error, Group, LoggedOut, LoginAccepted, LoginAcceptedNewVersion,
};
use anidb_client::schema::{decode, match_first, Step, Value};

#[test]
fn some_errors() {
    assert_eq!(
        Error::parse_from("500 LOGIN FAILED"),
        Error::LoginFailed,
    );
    assert_eq!(
        Error::parse_from("503 CLIENT VERSION OUTDATED"),
        Error::ClientVersionOutdated,
    );
}

#[test]
fn other_and_unknown_errors() {
    assert_eq!(
        Error::parse_from("305 NO SUCH THING"),
        Error::Other(305, "NO SUCH THING".to_string()),
    );
    assert_eq!(
        Error::parse_from("305 FIRST LINE\nSECOND LINE"),
        Error::Other(305, "FIRST LINE".to_string()),
    );
    assert_eq!(Error::parse_from(""), Error::Unknown(String::new()));
    assert_eq!(
        Error::parse_from("no status here"),
        Error::Unknown("no status here".to_string()),
    );
    assert_eq!(Error::parse_from("12x rest"), Error::Unknown("12x rest".to_string()));
}

#[test]
fn login_accepted_decodes() {
    let rec = LoginAccepted::parse_from("200 abc123 LOGIN ACCEPTED\n").unwrap();
    assert_eq!(rec.session_key, "abc123");
    assert!(LoginAccepted::parse_from("201 abc123 LOGIN ACCEPTED\n").is_none());
    let rec2 =
        LoginAcceptedNewVersion::parse_from("201 k LOGIN ACCEPTED - NEW VERSION AVAILABLE\n")
            .unwrap();
    assert_eq!(rec2.session_key, "k");
}

#[test]
fn logged_out_decodes_totally() {
    assert!(LoggedOut::parse_from("203 LOGGED OUT\n").is_some());
    // trailing unconsumed characters invalidate the whole parse
    assert!(LoggedOut::parse_from("203 LOGGED OUT\nextra").is_none());
    assert!(LoggedOut::parse_from("203 LOGGED OUT").is_none());
}

#[test]
fn i32_none_sentinel() {
    // a bare i32 field consuming the whole input
    let schema = vec![Step::I32Field];
    assert_eq!(decode("none", &schema), Some(vec![Value::I32(0)]));
    assert_eq!(decode("0", &schema), Some(vec![Value::I32(0)]));
    // "none" consumes exactly the literal: what follows must be the next step
    let schema2 = vec![Step::I32Field, Step::Lit("|".to_string())];
    assert_eq!(decode("none|", &schema2), Some(vec![Value::I32(0)]));
    assert_eq!(decode("0|", &schema2), Some(vec![Value::I32(0)]));
    assert!(decode("none12|", &schema2).is_none());
}

#[test]
fn numeric_field_limits() {
    let schema = vec![Step::I16Field];
    assert_eq!(decode("32767", &schema), Some(vec![Value::I16(32767)]));
    assert_eq!(decode("-32768", &schema), Some(vec![Value::I16(-32768)]));
    assert!(decode("32768", &schema).is_none());
    assert!(decode("1-2", &schema).is_none());
    assert!(decode("-", &schema).is_none());
    let u = vec![Step::U32Field];
    assert_eq!(decode("4294967295", &u), Some(vec![Value::U32(4294967295)]));
    assert!(decode("4294967296", &u).is_none());
    assert!(decode("-1", &u).is_none());
}

#[test]
fn episode_record_decodes() {
    let text = "240 EPISODE\n3|7|24|-850|23|05|An Episode|Romaji|Kanji|1|1\n";
    let rec = Episode::parse_from(text).unwrap();
    assert_eq!(rec.eid, 3);
    assert_eq!(rec.aid, 7);
    assert_eq!(rec.length, 24);
    assert_eq!(rec.rating, -850);
    assert_eq!(rec.votes, 23);
    assert_eq!(rec.epno, "05");
    assert_eq!(rec.eng, "An Episode");
    assert_eq!(rec.romaji, "Romaji");
    assert_eq!(rec.kanji, "Kanji");
    assert_eq!(rec.aired, 1);
    assert_eq!(rec.etype, 1);
    // trailing characters invalidate the parse
    assert!(Episode::parse_from("240 EPISODE\n3|7|24|-850|23|05|a|b|c|1|1\nx").is_none());
}

#[test]
fn anime_record_decodes() {
    let text = "230 ANIME\n1|0|1999|TV Series|||Seikai|kanji|Crest|sn|13|0|none|none||0||0|0|0|0|0\n";
    let rec = Anime::parse_from(text).unwrap();
    assert_eq!(rec.aid, 1);
    assert_eq!(rec.dateflags, 0);
    assert_eq!(rec.year, "1999");
    assert_eq!(rec.atype, "TV Series");
    assert_eq!(rec.related_aid_list, "");
    assert_eq!(rec.romaji_name, "Seikai");
    assert_eq!(rec.english_name, "Crest");
    assert_eq!(rec.episodes, 13);
    assert_eq!(rec.air_date, 0);
    assert_eq!(rec.end_date, 0);
    assert_eq!(rec.picname, "");
    assert!(!rec.nsfw);
    assert_eq!(rec.parody_count, 0);
}

#[test]
fn group_record_decodes() {
    let text = "250 GROUP\n5|900|3|10|20|A Group|AG|#chan|irc.net|http://g|pic|0|none|0|0|0|rel\n";
    let rec = Group::parse_from(text).unwrap();
    assert_eq!(rec.gid, 5);
    assert_eq!(rec.rating, 900);
    assert_eq!(rec.name, "A Group");
    assert_eq!(rec.short, "AG");
    assert_eq!(rec.disbandeddate, 0);
    assert_eq!(rec.dateflags, 0);
    assert_eq!(rec.grouprelations, "rel");
}

#[test]
fn matcher_takes_first_match() {
    // both schemas structurally match the same text; the first must win
    let a = vec![Step::TextField("\n".to_string())];
    let b = vec![Step::TextField("\n".to_string())];
    let schemas = vec![a, b];
    let (idx, vals) = match_first("hello\n", &schemas).unwrap();
    assert_eq!(idx, 0);
    assert_eq!(vals, vec![Value::Text("hello".to_string())]);
}

#[test]
fn matcher_falls_through_in_order() {
    let a = vec![Step::Lit("AAA\n".to_string())];
    let b = vec![Step::TextField("\n".to_string())];
    let schemas = vec![a, b];
    let (idx, _) = match_first("BBB\n", &schemas).unwrap();
    assert_eq!(idx, 1);
    assert!(match_first("no newline", &schemas).is_none());
}
