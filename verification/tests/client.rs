use anidb_client::{
    anime_response, episode_response, file_response, group_response, logout_response, AniDb,
    Error, THROTTLE_MS,
};
use anidb_client::responses;

#[test]
fn session_gating_fails_before_any_network_use() {
    let client = AniDb::new("libtest", 1);
    assert_eq!(client.session_key(), None);
    assert!(matches!(client.session_key_or_err(), Err(Error::NoSession)));
    assert_eq!(client.logout_cmd(), Err(Error::NoSession));
    assert_eq!(client.anime_cmd(1), Err(Error::NoSession));
    assert_eq!(client.episode_cmd(1), Err(Error::NoSession));
    assert_eq!(client.file_cmd(1, "aa"), Err(Error::NoSession));
    assert_eq!(client.group_cmd(1), Err(Error::NoSession));
}

#[test]
fn resumed_session_builds_commands() {
    let client = AniDb::resume_session("libtest", 3, "sess".to_string());
    assert_eq!(client.client(), "libtest");
    assert_eq!(client.client_version(), 3);
    assert_eq!(client.api_endpoint(), "api.anidb.net:9000");
    assert_eq!(client.session_key(), Some("sess"));
    assert_eq!(client.logout_cmd().unwrap(), "LOGOUT s=sess\n");
    assert_eq!(
        client.anime_cmd(7).unwrap(),
        "ANIME s=sess&aid=7&amask=fce8ba010080f8\n"
    );
    assert_eq!(client.episode_cmd(23).unwrap(), "EPISODE s=sess&eid=23\n");
    assert_eq!(
        client.file_cmd(312498816, "ed2khash").unwrap(),
        "FILE s=sess&size=312498816&ed2k=ed2khash&fmask=71c2fef800&amask=00000000\n"
    );
    assert_eq!(client.group_cmd(41).unwrap(), "GROUP s=sess&gid=41\n");
}

#[test]
fn auth_command_text() {
    let client = AniDb::new("libtest", 2);
    assert_eq!(
        client.auth_cmd("name", "w&rd"),
        "AUTH user=name&pass=w&amp;rd&client=libtest&clientver=2&protover=3&enc=UTF8\n"
    );
}

#[test]
fn auth_response_stores_session_key() {
    let mut client = AniDb::new("libtest", 1);
    assert!(client.apply_auth_response("200 k3y LOGIN ACCEPTED\n").is_ok());
    assert_eq!(client.session_key(), Some("k3y"));

    let mut client2 = AniDb::new("libtest", 1);
    assert!(client2
        .apply_auth_response("201 n3w LOGIN ACCEPTED - NEW VERSION AVAILABLE\n")
        .is_ok());
    assert_eq!(client2.session_key(), Some("n3w"));
}

#[test]
fn auth_response_failure_leaves_client_unchanged() {
    let mut client = AniDb::new("libtest", 1);
    let r = client.apply_auth_response("500 LOGIN FAILED");
    assert_eq!(r, Err(Error::AniDb(responses::Error::LoginFailed)));
    assert_eq!(client.session_key(), None);

    let r2 = client.apply_auth_response("garbage");
    assert_eq!(
        r2,
        Err(Error::AniDb(responses::Error::Unknown("garbage".to_string())))
    );
}

#[test]
fn throttle_spacing() {
    let mut client = AniDb::new("libtest", 1);
    // the very first send is permitted at once
    let first_slot = client.next_send_slot(100);
    assert_eq!(first_slot, 100);
    client.record_send(first_slot);
    // issued back-to-back, the second send's slot is a full interval later
    let second_slot = client.next_send_slot(101);
    assert_eq!(second_slot, first_slot + THROTTLE_MS);
    assert!(second_slot - first_slot >= THROTTLE_MS);
    client.record_send(second_slot);
    // once the interval has passed, sending is immediate again
    let third_slot = client.next_send_slot(second_slot + THROTTLE_MS + 5);
    assert_eq!(third_slot, second_slot + THROTTLE_MS + 5);
}

#[test]
fn response_handlers_fall_back_to_error_decoding() {
    assert!(logout_response("203 LOGGED OUT\n").is_ok());
    assert_eq!(
        logout_response("500 LOGIN FAILED"),
        Err(Error::AniDb(responses::Error::LoginFailed))
    );
    let anime = anime_response(
        "230 ANIME\n1|0|1999|TV Series|||Seikai|kanji|Crest|sn|13|0|none|none||0||0|0|0|0|0\n",
    )
    .unwrap();
    assert_eq!(anime.aid, 1);
    assert_eq!(
        anime_response("330 NO SUCH ANIME"),
        Err(Error::AniDb(responses::Error::Other(
            330,
            "NO SUCH ANIME".to_string()
        )))
    );
    let episode = episode_response("240 EPISODE\n3|7|24|850|23|05|a|b|c|1|1\n").unwrap();
    assert_eq!(episode.votes, 23);
    assert!(matches!(
        episode_response("340 NO SUCH EPISODE"),
        Err(Error::AniDb(responses::Error::Other(340, _)))
    ));
    let file = file_response(
        "220 FILE\n12|1|3|5|0|312498816|hash|256|high|DTV|AAC|128|H264|800|1920x1080|ja|en|1420||0\n",
    )
    .unwrap();
    assert_eq!(file.fid, 12);
    assert_eq!(file.size, 312498816);
    assert_eq!(file.ed2k, "hash");
    assert_eq!(file.description, "");
    assert!(matches!(
        file_response("320 NO SUCH FILE"),
        Err(Error::AniDb(responses::Error::Other(320, _)))
    ));
    let group =
        group_response("250 GROUP\n5|900|3|10|20|A Group|AG|#chan|irc.net|http://g|pic|0|none|0|0|0|rel\n")
            .unwrap();
    assert_eq!(group.gid, 5);
    assert!(matches!(
        group_response("350 NO SUCH GROUP"),
        Err(Error::AniDb(responses::Error::Other(350, _)))
    ));
}
