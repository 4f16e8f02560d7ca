use focusretro::parser::{clean_html, parse_game_event, parse_turn_notification, GameEvent};

#[test]
fn test_parse_cest_a_jouer() {
    let result = parse_turn_notification("C'est à Craette de jouer");
    assert!(result.is_some());
    assert_eq!(result.unwrap().character_name, "Craette");
}

#[test]
fn test_parse_cest_a_jouer_complex_name() {
    let result = parse_turn_notification("C'est à My-Char_123 de jouer");
    assert!(result.is_some());
    assert_eq!(result.unwrap().character_name, "My-Char_123");
}

#[test]
fn test_parse_cest_a_jouer_case_insensitive() {
    let result = parse_turn_notification("c'est à TestChar de jouer");
    assert!(result.is_some());
    assert_eq!(result.unwrap().character_name, "TestChar");
}

#[test]
fn test_parse_turn_segments() {
    let segments = vec![
        "Notification Center".to_string(),
        "Dofus Retro, Craette - Dofus Retro v1.47.20, C'est à Craette de jouer".to_string(),
        "Craette - Dofus Retro v1.47.20".to_string(),
        "C'est à Craette de jouer".to_string(),
    ];
    let result = parse_game_event(&segments);
    assert!(matches!(result, Some(GameEvent::Turn(_))));
    if let Some(GameEvent::Turn(t)) = result {
        assert_eq!(t.character_name, "Craette");
    }
}

#[test]
fn test_parse_group_invite_segments() {
    let segments = vec![
        "Notification Center".to_string(),
        "Dofus Retro, Kura-noire - Dofus Retro v1.47.20, Testy t'invite à rejoindre son groupe.\nAcceptes-tu ?".to_string(),
        "Kura-noire - Dofus Retro v1.47.20".to_string(),
        "Testy t'invite à rejoindre son groupe.\nAcceptes-tu ?".to_string(),
    ];
    let result = parse_game_event(&segments);
    assert!(matches!(result, Some(GameEvent::GroupInvite(_))));
    if let Some(GameEvent::GroupInvite(g)) = result {
        assert_eq!(g.receiver_name, "Kura-noire");
        assert_eq!(g.inviter_name, "Testy");
    }
}

#[test]
fn test_parse_trade_segments() {
    let segments = vec![
        "Notification Center".to_string(),
        "Dofus Retro, Kura-noire - Dofus Retro v1.47.20, Testy te propose de faire un échange.\nAcceptes-tu ?".to_string(),
        "Kura-noire - Dofus Retro v1.47.20".to_string(),
        "Testy te propose de faire un échange.\nAcceptes-tu ?".to_string(),
    ];
    let result = parse_game_event(&segments);
    assert!(matches!(result, Some(GameEvent::Trade(_))));
    if let Some(GameEvent::Trade(t)) = result {
        assert_eq!(t.receiver_name, "Kura-noire");
        assert_eq!(t.requester_name, "Testy");
    }
}

#[test]
fn test_parse_pm_with_html() {
    let segments = vec![
        "Notification Center".to_string(),
        "Dofus Retro, Kura-noire - Dofus Retro v1.47.20, de Testy : [<a href=\"asfunction:onHref,ShowItemViewer,1\">Clef du Donjon d'Incarnam</a>]".to_string(),
        "Kura-noire - Dofus Retro v1.47.20".to_string(),
        "de Testy : [<a href=\"asfunction:onHref,ShowItemViewer,1\">Clef du Donjon d'Incarnam</a>]".to_string(),
    ];
    let result = parse_game_event(&segments);
    assert!(matches!(result, Some(GameEvent::PrivateMessage(_))));
    if let Some(GameEvent::PrivateMessage(pm)) = result {
        assert_eq!(pm.receiver_name, "Kura-noire");
        assert_eq!(pm.sender_name, "Testy");
        assert_eq!(pm.message, "[Clef du Donjon d'Incarnam]");
    }
}

#[test]
fn test_parse_pm_plain_text() {
    let segments = vec![
        "Notification Center".to_string(),
        "Dofus Retro, Kura-noire - Dofus Retro v1.47.20, de Testy : salut ca va ?".to_string(),
        "Kura-noire - Dofus Retro v1.47.20".to_string(),
        "de Testy : salut ca va ?".to_string(),
    ];
    let result = parse_game_event(&segments);
    assert!(matches!(result, Some(GameEvent::PrivateMessage(_))));
    if let Some(GameEvent::PrivateMessage(pm)) = result {
        assert_eq!(pm.receiver_name, "Kura-noire");
        assert_eq!(pm.sender_name, "Testy");
        assert_eq!(pm.message, "salut ca va ?");
    }
}

#[test]
fn test_clean_html_link() {
    assert_eq!(
        clean_html(
            "[<a href=\"asfunction:onHref,ShowItemViewer,1\">Clef du Donjon d'Incarnam</a>]"
        ),
        "[Clef du Donjon d'Incarnam]"
    );
}

#[test]
fn test_clean_html_plain() {
    assert_eq!(clean_html("hello world"), "hello world");
}

#[test]
fn test_parse_english_turn_segments() {
    // Regression: combined segment ends with " 's turn to play" too — must not extract the whole combined string as character name
    let segments = vec![
        "Notification Center".to_string(),
        "Dofus Retro, Rave-ll - Dofus Retro v1.47.21, Rave-ll 's turn to play".to_string(),
        "Rave-ll - Dofus Retro v1.47.21".to_string(),
        "Rave-ll 's turn to play".to_string(),
    ];
    let result = parse_game_event(&segments);
    assert!(matches!(result, Some(GameEvent::Turn(_))));
    if let Some(GameEvent::Turn(t)) = result {
        assert_eq!(t.character_name, "Rave-ll");
    }
}

#[test]
fn test_parse_english_turn_new() {
    let result = parse_turn_notification("Craette 's turn to play");
    assert!(result.is_some());
    assert_eq!(result.unwrap().character_name, "Craette");
}

#[test]
fn test_parse_spanish_turn() {
    let result = parse_turn_notification("le toca jugar a Craette");
    assert!(result.is_some());
    assert_eq!(result.unwrap().character_name, "Craette");
}

#[test]
fn test_parse_english_group_invite() {
    let segments = vec![
        "Notification Center".to_string(),
        "Dofus Retro, Kura-noire - Dofus Retro v1.47.20, You are invited to join Testy's group. Do you accept?".to_string(),
        "Kura-noire - Dofus Retro v1.47.20".to_string(),
        "You are invited to join Testy's group. Do you accept?".to_string(),
    ];
    let result = parse_game_event(&segments);
    assert!(matches!(result, Some(GameEvent::GroupInvite(_))));
    if let Some(GameEvent::GroupInvite(g)) = result {
        assert_eq!(g.receiver_name, "Kura-noire");
        assert_eq!(g.inviter_name, "Testy");
    }
}

#[test]
fn test_parse_spanish_group_invite() {
    let segments = vec![
        "Notification Center".to_string(),
        "Dofus Retro, Kura-noire - Dofus Retro v1.47.20, Testy te invita a unirte a su grupo. ¿Deseas aceptar?".to_string(),
        "Kura-noire - Dofus Retro v1.47.20".to_string(),
        "Testy te invita a unirte a su grupo. ¿Deseas aceptar?".to_string(),
    ];
    let result = parse_game_event(&segments);
    assert!(matches!(result, Some(GameEvent::GroupInvite(_))));
    if let Some(GameEvent::GroupInvite(g)) = result {
        assert_eq!(g.receiver_name, "Kura-noire");
        assert_eq!(g.inviter_name, "Testy");
    }
}

#[test]
fn test_parse_english_trade() {
    let segments = vec![
        "Notification Center".to_string(),
        "Dofus Retro, Kura-noire - Dofus Retro v1.47.20, Testy offers a trade. Do you accept?"
            .to_string(),
        "Kura-noire - Dofus Retro v1.47.20".to_string(),
        "Testy offers a trade. Do you accept?".to_string(),
    ];
    let result = parse_game_event(&segments);
    assert!(matches!(result, Some(GameEvent::Trade(_))));
    if let Some(GameEvent::Trade(t)) = result {
        assert_eq!(t.receiver_name, "Kura-noire");
        assert_eq!(t.requester_name, "Testy");
    }
}

#[test]
fn test_parse_spanish_trade() {
    let segments = vec![
        "Notification Center".to_string(),
        "Dofus Retro, Kura-noire - Dofus Retro v1.47.20, Testy te propone realizar un intercambio. ¿Deseas aceptar?".to_string(),
        "Kura-noire - Dofus Retro v1.47.20".to_string(),
        "Testy te propone realizar un intercambio. ¿Deseas aceptar?".to_string(),
    ];
    let result = parse_game_event(&segments);
    assert!(matches!(result, Some(GameEvent::Trade(_))));
    if let Some(GameEvent::Trade(t)) = result {
        assert_eq!(t.receiver_name, "Kura-noire");
        assert_eq!(t.requester_name, "Testy");
    }
}

#[test]
fn test_parse_spanish_pm() {
    let segments = vec![
        "Notification Center".to_string(),
        "Dofus Retro, Kura-noire - Dofus Retro v1.47.20, desde Testy : hola".to_string(),
        "Kura-noire - Dofus Retro v1.47.20".to_string(),
        "desde Testy : hola".to_string(),
    ];
    let result = parse_game_event(&segments);
    assert!(matches!(result, Some(GameEvent::PrivateMessage(_))));
    if let Some(GameEvent::PrivateMessage(pm)) = result {
        assert_eq!(pm.receiver_name, "Kura-noire");
        assert_eq!(pm.sender_name, "Testy");
        assert_eq!(pm.message, "hola");
    }
}

#[test]
fn test_parse_english_pm() {
    let segments = vec![
        "Notification Center".to_string(),
        "Dofus Retro, Kura-noire - Dofus Retro v1.47.20, from Testy : hello there".to_string(),
        "Kura-noire - Dofus Retro v1.47.20".to_string(),
        "from Testy : hello there".to_string(),
    ];
    let result = parse_game_event(&segments);
    assert!(matches!(result, Some(GameEvent::PrivateMessage(_))));
    if let Some(GameEvent::PrivateMessage(pm)) = result {
        assert_eq!(pm.receiver_name, "Kura-noire");
        assert_eq!(pm.sender_name, "Testy");
        assert_eq!(pm.message, "hello there");
    }
}

#[test]
fn test_parse_unrelated() {
    assert!(parse_turn_notification("Some random notification").is_none());
}

#[test]
fn test_parse_empty() {
    assert!(parse_turn_notification("").is_none());
}
