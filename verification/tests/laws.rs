use anonbot::actions::{Action, Config, Core, Incoming, Sender, Texts};
use anonbot::bot::handle_update;
use anonbot::replies::{anon_text_message, extract_target_from_reply, resolve_target_to_uid, MediaKinds};
use anonbot::storage::BlockMgr;

fn cfg() -> Config {
    let t = |s: &str| s.to_string();
    Config {
        owner: 1,
        token: t("TOK"),
        texts: Texts {
            banned: t("BANNED"),
            sent_anon: t("SENT"),
            sent_norm: t("NORM"),
            noone_empty: t("EMPTY"),
            not_found: t("NF"),
            from_author: t("FA"),
            you_blocked: t("YB"),
            you_unblocked: t("YU"),
            block_ok: t("BO"),
            unblock_ok: t("UO"),
            interesting: t("I"),
        },
    }
}

fn text_from(uid: i64, name: Option<&str>, text: &str) -> Incoming {
    Incoming {
        chat: uid,
        from: Some(Sender { id: uid, username: name.map(|n| n.to_string()) }),
        text: Some(text.to_string()),
        caption: None,
        media: MediaKinds {
            animation: false,
            audio: false,
            document: false,
            photo: false,
            sticker: false,
            video: false,
            video_note: false,
            voice: false,
        },
        reply_to: None,
        payment: None,
    }
}

#[test]
fn law_reply_to_an_anonymous_copy_reaches_its_sender() {
    let mut b = BlockMgr::new();
    b.reg_anon("4321", 77);
    let copy = anon_text_message(4321, "any text, even Анонима #0000");
    let target = extract_target_from_reply(&copy).unwrap();
    assert_eq!(target, "anon4321");
    let bc = anonbot::broadcast::BroadcastManager::new();
    assert_eq!(resolve_target_to_uid(&target, &b, &bc), Some(77));
}

#[test]
fn law_block_then_unblock_restores_the_lists() {
    let mut b = BlockMgr::new();
    b.block_user("@old");
    let before = b.blocked_list();
    assert!(b.block_anon("1234"));
    assert!(b.block_user("@new"));
    assert!(b.unblock_anon("1234"));
    assert!(b.unblock_user("@new"));
    assert_eq!(b.blocked_list(), before);
}

#[test]
fn law_a_blocked_sender_is_only_told() {
    let mut core = Core::new();
    let c = cfg();
    let mut out = Vec::new();
    handle_update(&mut out, &mut core, &c, &text_from(1, None, "/block @eve"));
    let mut out = Vec::new();
    handle_update(&mut out, &mut core, &c, &text_from(5, Some("eve"), "/noone hi"));
    assert_eq!(out.len(), 1);
    match &out[0] {
        Action::Send { chat, text } => {
            assert_eq!(*chat, 5);
            assert_eq!(text, "BANNED");
        }
        _ => panic!("expected the ban notice"),
    }
    assert_eq!(core.anon.get_anonymous_code(5), None);
    assert!(core.bcast.get_broadcast_list().is_empty());
}

#[test]
fn law_a_blocked_code_is_refused() {
    let mut core = Core::new();
    let c = cfg();
    let mut out = Vec::new();
    handle_update(&mut out, &mut core, &c, &text_from(5, None, "/noone hi"));
    let code = core.anon.get_anonymous_code(5).unwrap();
    let mut out = Vec::new();
    handle_update(&mut out, &mut core, &c, &text_from(1, None, &format!("/block anon{:04}", code)));
    let mut out = Vec::new();
    handle_update(&mut out, &mut core, &c, &text_from(5, None, "/noone again"));
    assert!(matches!(out.last(), Some(Action::Send { text, .. }) if text == "BANNED"));
    assert!(!out.iter().any(|a| matches!(a, Action::Fast(_))));
}

#[test]
fn law_each_broadcast_target_receives_one_copy() {
    let mut core = Core::new();
    let c = cfg();
    for uid in [5, 6, 7] {
        let mut out = Vec::new();
        handle_update(&mut out, &mut core, &c, &text_from(uid, None, "hello"));
    }
    let mut out = Vec::new();
    handle_update(&mut out, &mut core, &c, &text_from(1, None, "/bcast news"));
    let mut chats: Vec<String> = out
        .iter()
        .filter_map(|a| match a {
            Action::Fast(f) => Some(f.chat_id.clone()),
            _ => None,
        })
        .collect();
    chats.sort();
    assert_eq!(chats, vec!["5", "6", "7"]);
    let pauses = out.iter().filter(|a| matches!(a, Action::Pause)).count();
    assert_eq!(pauses, 3);
}

#[test]
fn law_a_user_keeps_its_code_across_messages() {
    let mut core = Core::new();
    let c = cfg();
    let mut out = Vec::new();
    handle_update(&mut out, &mut core, &c, &text_from(5, None, "/noone_frvr"));
    let code = core.anon.get_anonymous_code(5).unwrap();
    for text in ["a", "b", "/noone c"] {
        let mut out = Vec::new();
        handle_update(&mut out, &mut core, &c, &text_from(5, None, text));
        assert!(out.iter().all(|a| !matches!(a, Action::SaveAnon)));
    }
    assert_eq!(core.anon.get_anonymous_code(5), Some(code));
}
