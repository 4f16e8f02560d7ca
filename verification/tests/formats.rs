use focusretro::parser::{
    clean_html, extract_character_from_title, parse_game_event, parse_group_invite, parse_pm,
    parse_trade, parse_turn_notification, toast_segments, toast_texts, GameEvent,
};

fn segs(v: &[&str]) -> Vec<String> {
    v.iter().map(|s| s.to_string()).collect()
}

#[test]
fn turn_phrases_read_back_name() {
    for name in ["Craette", "Kura-noire", "A b", "Élodie"] {
        let fr = format!("C'est à {} de jouer", name);
        let en = format!("{} 's turn to play", name);
        let es = format!("le toca jugar a {}", name);
        assert_eq!(parse_turn_notification(&fr).unwrap().character_name, name);
        assert_eq!(parse_turn_notification(&en).unwrap().character_name, name);
        assert_eq!(parse_turn_notification(&es).unwrap().character_name, name);
    }
}

#[test]
fn spanish_turn_that_also_reads_english() {
    // The English form is tried before the Spanish one.
    let t = parse_turn_notification("le toca jugar a Bob 's turn to play").unwrap();
    assert_eq!(t.character_name, "le toca jugar a Bob");
}

#[test]
fn turn_phrase_case_and_whitespace() {
    assert_eq!(parse_turn_notification("  C'EST À Bob DE JOUER \n").unwrap().character_name, "Bob");
    assert!(parse_turn_notification("C'est à  de jouer").is_none());
    assert!(parse_turn_notification("C'est à A\nB de jouer").is_none());
}

#[test]
fn invite_and_trade_phrases_read_back_name() {
    assert_eq!(parse_group_invite("Bob t'invite à rejoindre son groupe.").as_deref(), Some("Bob"));
    assert_eq!(parse_group_invite("Bob te invita a unirte a su grupo").as_deref(), Some("Bob"));
    assert_eq!(parse_group_invite("You are invited to join Bob's group.").as_deref(), Some("Bob"));
    assert_eq!(parse_group_invite("Bob says hi"), None);
    assert_eq!(parse_trade("Bob te propose de faire un échange.").as_deref(), Some("Bob"));
    assert_eq!(parse_trade("Bob offers a trade").as_deref(), Some("Bob"));
    assert_eq!(parse_trade("Bob te propone realizar un intercambio").as_deref(), Some("Bob"));
    assert_eq!(parse_trade("offers a trade"), None);
}

#[test]
fn pm_phrases_read_back_sender_and_message() {
    for prefix in ["de", "from", "desde"] {
        let text = format!("{} Bob : hi there", prefix);
        assert_eq!(parse_pm(&text), Some(("Bob".to_string(), "hi there".to_string())));
    }
    assert_eq!(parse_pm("de Bob : "), None);
    assert_eq!(parse_pm("de Bob hi"), None);
}

#[test]
fn titles_read_back_name() {
    assert_eq!(extract_character_from_title("Bob - Dofus Retro v1.47.20").as_deref(), Some("Bob"));
    assert_eq!(extract_character_from_title("Bob - Dofus Retro v").as_deref(), None);
    assert_eq!(extract_character_from_title("Bob - Dofus Retro v1.4b").as_deref(), None);
}

#[test]
fn clean_html_plain_text_is_trimmed() {
    assert_eq!(clean_html("  plain text  "), "plain text");
}

#[test]
fn clean_html_link_keeps_item() {
    assert_eq!(clean_html("see <a href=\"x\">Sword</a> now"), "see Sword now");
    assert_eq!(clean_html("<b>bold</b>"), "bold");
    assert_eq!(clean_html("a <> b"), "a <> b");
}

#[test]
fn turn_ranks_before_invite() {
    let s = segs(&[
        "Kura-noire - Dofus Retro v1.47.20",
        "Testy t'invite à rejoindre son groupe.",
        "C'est à Craette de jouer",
    ]);
    assert!(matches!(parse_game_event(&s), Some(GameEvent::Turn(t)) if t.character_name == "Craette"));
}

#[test]
fn invite_ranks_before_trade_and_pm() {
    let s = segs(&[
        "de Alice : hi",
        "Bob te propose de faire un échange.",
        "Testy t'invite à rejoindre son groupe.",
        "Kura-noire - Dofus Retro v1.47.20",
    ]);
    match parse_game_event(&s) {
        Some(GameEvent::GroupInvite(g)) => {
            assert_eq!(g.receiver_name, "Kura-noire");
            assert_eq!(g.inviter_name, "Testy");
        }
        other => panic!("expected GroupInvite, got {:?}", other),
    }
}

#[test]
fn trade_ranks_before_pm() {
    let s = segs(&["Kura-noire - Dofus Retro v1.47.20", "de Alice : hi", "Bob offers a trade"]);
    assert!(matches!(parse_game_event(&s), Some(GameEvent::Trade(t)) if t.requester_name == "Bob"));
}

#[test]
fn no_title_falls_back_to_joined_turn() {
    let s = segs(&["C'est à", "Bob de jouer"]);
    assert!(matches!(parse_game_event(&s), Some(GameEvent::Turn(t)) if t.character_name == "Bob"));
    let s = segs(&["Bob t'invite à rejoindre son groupe."]);
    assert!(parse_game_event(&s).is_none());
}

#[test]
fn toast_payload_to_segments() {
    let payload = "<toast><visual><binding template=\"ToastGeneric\"><text id=\"1\">Kura-noire - Dofus Retro v1.47.20</text><text id=\"2\"> C'est à Kura-noire de jouer </text><text></text></binding></visual></toast>";
    let texts = toast_texts(payload);
    assert_eq!(texts, vec!["Kura-noire - Dofus Retro v1.47.20", "C'est à Kura-noire de jouer"]);
    let segments = toast_segments(&texts).unwrap();
    assert_eq!(segments[0], "Dofus Retro");
    assert_eq!(segments[1], "Kura-noire - Dofus Retro v1.47.20 C'est à Kura-noire de jouer");
    assert_eq!(segments[2], "Kura-noire - Dofus Retro v1.47.20");
    assert_eq!(segments[3], "C'est à Kura-noire de jouer");
    assert!(toast_segments(&[]).is_none());
    let only_title = toast_segments(&["T".to_string()]).unwrap();
    assert_eq!(only_title, vec!["Dofus Retro", "T", "T", ""]);
    assert!(matches!(parse_game_event(&segments), Some(GameEvent::Turn(t)) if t.character_name == "Kura-noire"));
}

#[test]
fn clean_html_twice_is_clean_html_once() {
    for text in [
        "  <b>[<a href=\"item\">Gelano</a>]</b> vendu ",
        "<<b>> a < b > c",
        "x <> y <a",
        "<a href=\"1\"><a href=\"2\">z</a></a>",
    ] {
        let once = clean_html(text);
        assert_eq!(clean_html(&once), once);
    }
    assert_eq!(clean_html("<<b>> a < b > c"), "> a  c");
}
