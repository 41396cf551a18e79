use anonbot::actions::{Action, Config, Core, Incoming, Replied, Sender, Texts};
use anonbot::anonymous::{AnonymousManager, AnonymousStorage};
use anonbot::bot::{handle_update, handle_update_checked, message_takes_code};
use anonbot::owner::{
    ID_TARGET, NAME_TARGET, NO_USERS, OWNER_HELP, PM_FORMAT, REPLY_HINT, STATUS_TARGET,
    USAGE_BLOCK_ID, USAGE_PM, USAGE_UNBLOCK_ID,
};
use anonbot::replies::MediaKinds;
use anonbot::user::{DONATE_TEXT, FRVR_OFF, HELP_TEXT, NO_CODE, START_HEAD};

const OWNER: i64 = 1;
const BOB: i64 = 10;
const AMY: i64 = 20;

fn texts() -> Texts {
    Texts {
        banned: "BANNED".to_string(),
        sent_anon: "SENT_ANON".to_string(),
        sent_norm: "SENT_NORM".to_string(),
        noone_empty: "NOONE_EMPTY".to_string(),
        not_found: "NOT_FOUND".to_string(),
        from_author: "FROM_AUTHOR".to_string(),
        you_blocked: "YOU_BLOCKED".to_string(),
        you_unblocked: "YOU_UNBLOCKED".to_string(),
        block_ok: "BLOCK_OK".to_string(),
        unblock_ok: "UNBLOCK_OK".to_string(),
        interesting: "INTERESTING".to_string(),
    }
}

fn cfg() -> Config {
    Config { owner: OWNER, token: "TOK".to_string(), texts: texts() }
}

fn no_media() -> MediaKinds {
    MediaKinds {
        animation: false,
        audio: false,
        document: false,
        photo: false,
        sticker: false,
        video: false,
        video_note: false,
        voice: false,
    }
}

fn photo() -> MediaKinds {
    MediaKinds { photo: true, ..no_media() }
}

fn user_text(uid: i64, name: Option<&str>, text: &str) -> Incoming {
    Incoming {
        chat: uid,
        from: Some(Sender { id: uid, username: name.map(|n| n.to_string()) }),
        text: Some(text.to_string()),
        caption: None,
        media: no_media(),
        reply_to: None,
        payment: None,
    }
}

fn user_media(uid: i64, name: Option<&str>, caption: Option<&str>) -> Incoming {
    Incoming {
        text: None,
        caption: caption.map(|c| c.to_string()),
        media: photo(),
        ..user_text(uid, name, "")
    }
}

fn owner_text(text: &str) -> Incoming {
    user_text(OWNER, Some("boss"), text)
}

fn owner_reply(replied: Option<&str>, text: &str) -> Incoming {
    Incoming {
        reply_to: Some(Replied { text: replied.map(|r| r.to_string()), caption: None }),
        ..owner_text(text)
    }
}

fn describe(a: &Action) -> String {
    match a {
        Action::Send { chat, text } => format!("send {} {}", chat, text),
        Action::Fast(f) => format!("fast {} {}", f.chat_id, f.message),
        Action::Media { chat, caption } => format!("media {} {}", chat, caption),
        Action::Invoice { chat, stars } => format!("invoice {} {}", chat, stars),
        Action::Pause => "pause".to_string(),
        Action::SaveAnon => "save-anon".to_string(),
        Action::SaveBlocks => "save-blocks".to_string(),
        Action::SaveBroadcast => "save-broadcast".to_string(),
    }
}

fn run(core: &mut Core, msg: &Incoming) -> Vec<String> {
    let mut out = Vec::new();
    handle_update(&mut out, core, &cfg(), msg);
    out.iter().map(describe).collect()
}

fn code_of(core: &Core, uid: i64) -> String {
    format!("{:04}", core.anon.get_anonymous_code(uid).unwrap())
}

#[test]
fn owner_start_shows_the_panel() {
    let mut core = Core::new();
    assert_eq!(run(&mut core, &owner_text("/start")), vec![format!("send 1 {}", OWNER_HELP)]);
    assert!(OWNER_HELP.starts_with("👑 Админ-панель:\n\n/status @user или anonXXXX"));
}

#[test]
fn owner_usage_hints() {
    let mut core = Core::new();
    assert_eq!(run(&mut core, &owner_text("/pm")), vec![format!("send 1 {}", USAGE_PM)]);
    assert_eq!(run(&mut core, &owner_text("/hello")), Vec::<String>::new());
}

#[test]
fn named_text_goes_to_the_owner() {
    let mut core = Core::new();
    assert_eq!(
        run(&mut core, &user_text(BOB, Some("bob"), "hi there")),
        vec![
            "save-broadcast".to_string(),
            "fast 1 💡 Сообщение от пользователя:\nhi there\n\n👤 @bob".to_string(),
            "send 10 SENT_NORM".to_string(),
        ]
    );
    assert_eq!(
        run(&mut core, &user_text(AMY, None, "x")),
        vec![
            "save-broadcast".to_string(),
            "fast 1 💡 Сообщение от пользователя:\nx\n\n👤 Неизвестный".to_string(),
            "send 20 SENT_NORM".to_string(),
        ]
    );
    assert_eq!(run(&mut core, &user_text(AMY, None, "again"))[0], "fast 1 💡 Сообщение от пользователя:\nagain\n\n👤 Неизвестный");
}

#[test]
fn anonymous_text_goes_with_a_code() {
    let mut core = Core::new();
    let acts = run(&mut core, &user_text(BOB, Some("bob"), "/noone  hello "));
    let code = code_of(&core, BOB);
    assert_eq!(
        acts,
        vec![
            "save-broadcast".to_string(),
            "save-anon".to_string(),
            "save-blocks".to_string(),
            format!("fast 1 💡 Анонимное сообщение от Анонима #{}:\nhello", code),
            format!("send 10 SENT_ANON! Код: #{}", code),
        ]
    );
    let again = run(&mut core, &user_text(BOB, Some("bob"), "/noone again"));
    assert_eq!(again[1], "save-blocks");
    assert_eq!(again[2], format!("fast 1 💡 Анонимное сообщение от Анонима #{}:\nagain", code));
    assert_eq!(code_of(&core, BOB), code);
}

#[test]
fn empty_anonymous_message_is_refused() {
    let mut core = Core::new();
    assert_eq!(
        run(&mut core, &user_text(BOB, None, "/noone   ")),
        vec!["save-broadcast".to_string(), "send 10 NOONE_EMPTY".to_string()]
    );
    assert_eq!(core.anon.get_anonymous_code(BOB), None);
}

#[test]
fn user_info_commands() {
    let mut core = Core::new();
    let start = run(&mut core, &user_text(BOB, None, "/start"));
    assert_eq!(start[1], format!("send 10 {}INTERESTING", START_HEAD));
    assert_eq!(run(&mut core, &user_text(BOB, None, "/help"))[0], format!("send 10 {}", HELP_TEXT));
    assert_eq!(run(&mut core, &user_text(BOB, None, "/donate"))[0], format!("send 10 {}", DONATE_TEXT));
    assert_eq!(run(&mut core, &user_text(BOB, None, "/code"))[0], format!("send 10 {}", NO_CODE));
    assert_eq!(run(&mut core, &user_text(BOB, None, "/whatever")), Vec::<String>::new());
    run(&mut core, &user_text(BOB, None, "/noone x"));
    let code = code_of(&core, BOB);
    assert_eq!(run(&mut core, &user_text(BOB, None, "/code"))[0], format!("send 10 🔑 Твой код: #{}", code));
}

#[test]
fn always_anonymous_mode() {
    let mut core = Core::new();
    let on = run(&mut core, &user_text(BOB, Some("bob"), "/noone_frvr"));
    let code = code_of(&core, BOB);
    assert_eq!(on[1], "save-anon");
    assert_eq!(on[2], "save-blocks");
    assert_eq!(
        on[3],
        format!(
            "send 10 🔁 Режим \"всегда анонимно\" ВКЛЮЧЕН!\n\nВсе твои сообщения теперь будут отправляться анонимно.\nТвой код: #{}\n\nЧтобы выключить, напиши /noone_frvr снова.",
            code
        )
    );
    assert!(core.forever.is_enabled(BOB));
    let msg = run(&mut core, &user_text(BOB, Some("bob"), "secret"));
    assert_eq!(msg[2], format!("fast 1 💡 Анонимное сообщение от Анонима #{}:\nsecret", code));
    let off = run(&mut core, &user_text(BOB, Some("bob"), "/noone_frvr"));
    assert_eq!(off[1], format!("send 10 {}", FRVR_OFF));
    assert!(!core.forever.is_enabled(BOB));
    let named = run(&mut core, &user_text(BOB, Some("bob"), "open"));
    assert_eq!(named[1], "fast 1 💡 Сообщение от пользователя:\nopen\n\n👤 @bob");
}

#[test]
fn owner_reply_reaches_the_anonymous_sender() {
    let mut core = Core::new();
    let acts = run(&mut core, &user_text(BOB, Some("bob"), "/noone question"));
    let code = code_of(&core, BOB);
    let copy = acts[3].strip_prefix("fast 1 ").unwrap().to_string();
    assert_eq!(
        run(&mut core, &owner_reply(Some(&copy), "answer")),
        vec![
            "fast 10 💬 FROM_AUTHOR:\nanswer".to_string(),
            format!("send 1 ✅ anon{} отправлено!", code),
        ]
    );
}

#[test]
fn owner_reply_reaches_the_named_sender() {
    let mut core = Core::new();
    let acts = run(&mut core, &user_text(BOB, Some("bob_1"), "question"));
    let copy = acts[1].strip_prefix("fast 1 ").unwrap().to_string();
    assert_eq!(
        run(&mut core, &owner_reply(Some(&copy), "answer")),
        vec!["fast 10 💬 FROM_AUTHOR:\nanswer".to_string(), "send 1 ✅ @bob_1 отправлено!".to_string()]
    );
}

#[test]
fn owner_reply_without_a_target() {
    let mut core = Core::new();
    assert_eq!(run(&mut core, &owner_reply(Some("hello"), "x")), vec![format!("send 1 {}", REPLY_HINT)]);
    assert_eq!(run(&mut core, &owner_reply(None, "x")), vec![format!("send 1 {}", REPLY_HINT)]);
    assert_eq!(
        run(&mut core, &owner_reply(Some("от Анонима #9999:\nx"), "x")),
        vec!["send 1 NOT_FOUND".to_string()]
    );
}

#[test]
fn owner_media_reply_goes_as_media() {
    let mut core = Core::new();
    run(&mut core, &user_text(BOB, Some("bob"), "q"));
    let mut msg = owner_reply(Some("💡 Сообщение от пользователя:\nq\n\n👤 @bob"), "");
    msg.text = None;
    msg.media = photo();
    msg.caption = Some("look".to_string());
    assert_eq!(
        run(&mut core, &msg),
        vec!["media 10 💬 FROM_AUTHOR:\nlook".to_string(), "send 1 ✅ @bob (медиа) отправлено!".to_string()]
    );
}

#[test]
fn blocked_code_is_refused() {
    let mut core = Core::new();
    run(&mut core, &user_text(BOB, Some("bob"), "/noone hi"));
    let code = code_of(&core, BOB);
    assert_eq!(
        run(&mut core, &owner_text(&format!("/block anon{}", code))),
        vec![
            "save-blocks".to_string(),
            "fast 10 YOU_BLOCKED".to_string(),
            format!("send 1 BLOCK_OK Аноним #{}", code),
        ]
    );
    assert_eq!(
        run(&mut core, &owner_text(&format!("/block anon{}", code))),
        vec!["send 1 NOT_FOUND".to_string()]
    );
    let refused = run(&mut core, &user_text(BOB, Some("bob"), "/noone again"));
    assert_eq!(refused.last().unwrap(), "send 10 BANNED");
    assert_eq!(
        run(&mut core, &owner_text(&format!("/unblock anon{}", code))),
        vec![
            "save-blocks".to_string(),
            "fast 10 YOU_UNBLOCKED".to_string(),
            format!("send 1 UNBLOCK_OK Аноним #{}", code),
        ]
    );
    let passed = run(&mut core, &user_text(BOB, Some("bob"), "/noone again"));
    assert_eq!(passed.last().unwrap(), &format!("send 10 SENT_ANON! Код: #{}", code));
}

#[test]
fn blocked_username_is_refused() {
    let mut core = Core::new();
    assert_eq!(
        run(&mut core, &owner_text("/block @bob")),
        vec!["save-blocks".to_string(), "send 1 BLOCK_OK @bob".to_string()]
    );
    assert_eq!(run(&mut core, &user_text(BOB, Some("bob"), "hi")), vec!["send 10 BANNED".to_string()]);
    assert_eq!(run(&mut core, &user_text(BOB, None, "hi"))[0], "save-broadcast");
    assert_eq!(
        run(&mut core, &owner_text("/unblock @bob")),
        vec!["save-blocks".to_string(), "send 1 UNBLOCK_OK @bob".to_string()]
    );
    assert_eq!(run(&mut core, &owner_text("/unblock @bob")), vec!["send 1 NOT_FOUND".to_string()]);
    assert_eq!(run(&mut core, &owner_text("/block bob")), vec![format!("send 1 {}", NAME_TARGET)]);
}

#[test]
fn private_messages_from_the_owner() {
    let mut core = Core::new();
    run(&mut core, &user_text(BOB, Some("bob"), "/noone hi"));
    let code = code_of(&core, BOB);
    assert_eq!(
        run(&mut core, &owner_text("/pm @bob hello  you")),
        vec!["fast 10 💬 FROM_AUTHOR:\nhello  you".to_string(), "send 1 ✅ @bob отправлено!".to_string()]
    );
    assert_eq!(
        run(&mut core, &owner_text(&format!("/pm anon{} psst", code))),
        vec!["fast 10 💬 FROM_AUTHOR:\npsst".to_string(), format!("send 1 ✅ Анониму #{} отправлено!", code)]
    );
    assert_eq!(run(&mut core, &owner_text("/pm @nobody hi")), vec!["send 1 NOT_FOUND".to_string()]);
    assert_eq!(run(&mut core, &owner_text("/pm @bob")), vec![format!("send 1 {}", PM_FORMAT)]);
    assert_eq!(run(&mut core, &owner_text("/pm bob hi")), vec![format!("send 1 {}", NAME_TARGET)]);
}

#[test]
fn status_of_targets() {
    let mut core = Core::new();
    run(&mut core, &user_text(BOB, Some("bob"), "/noone hi"));
    let code = code_of(&core, BOB);
    assert_eq!(
        run(&mut core, &owner_text(&format!("/status anon{}", code))),
        vec![format!("send 1 📊 Аноним #{}\n\n🚫 Заблокирован: Нет", code)]
    );
    assert_eq!(
        run(&mut core, &owner_text("/status @bob")),
        vec!["send 1 📊 Юзер @bob\n\n🚫 Заблокирован: Нет\n📢 В рассылке: Да".to_string()]
    );
    run(&mut core, &owner_text("/blockall"));
    assert_eq!(
        run(&mut core, &owner_text("/status 10")),
        vec!["send 1 📊 ID: 10\n🚫 Заблокирован: Да\n📢 В рассылке: Да".to_string()]
    );
    assert_eq!(
        run(&mut core, &owner_text("/status 77")),
        vec!["send 1 📊 ID: 77\n🚫 Заблокирован: Нет\n📢 В рассылке: Нет".to_string()]
    );
    assert_eq!(run(&mut core, &owner_text("/status anon0000")), vec!["send 1 NOT_FOUND".to_string()]);
    assert_eq!(run(&mut core, &owner_text("/status @amy")), vec!["send 1 NOT_FOUND".to_string()]);
    assert_eq!(run(&mut core, &owner_text("/status amy")), vec![format!("send 1 {}", STATUS_TARGET)]);
}

#[test]
fn mass_mailing() {
    let mut core = Core::new();
    assert_eq!(run(&mut core, &owner_text("/bcast hi")), vec![format!("send 1 {}", NO_USERS)]);
    run(&mut core, &user_text(BOB, None, "x"));
    assert_eq!(
        run(&mut core, &owner_text("/bcast  news ")),
        vec![
            "send 1 📢 Рассылка для 1 юзеров...".to_string(),
            "fast 10 📢 Рассылка от владельца:\n\nnews".to_string(),
            "pause".to_string(),
            "send 1 ✅ Отправлено: 1".to_string(),
        ]
    );
    run(&mut core, &user_text(AMY, None, "y"));
    let acts = run(&mut core, &owner_text("/bcast two"));
    assert_eq!(acts.len(), 6);
    let mut sent: Vec<String> = acts.iter().filter(|a| a.starts_with("fast")).cloned().collect();
    sent.sort();
    assert_eq!(
        sent,
        vec![
            "fast 10 📢 Рассылка от владельца:\n\ntwo".to_string(),
            "fast 20 📢 Рассылка от владельца:\n\ntwo".to_string(),
        ]
    );
}

#[test]
fn blocking_everyone() {
    let mut core = Core::new();
    run(&mut core, &user_text(BOB, None, "x"));
    run(&mut core, &user_text(AMY, None, "y"));
    run(&mut core, &owner_text("/block @nobody"));
    let acts = run(&mut core, &owner_text("/blockall"));
    assert_eq!(acts.len(), 7);
    assert_eq!(acts[6], "send 1 🚫 Заблокировано 2 юзеров");
    assert!(core.block.is_id_blocked(BOB) && core.block.is_id_blocked(AMY));
    assert_eq!(run(&mut core, &owner_text("/blockall")), vec!["send 1 🚫 Заблокировано 0 юзеров".to_string()]);
    assert_eq!(run(&mut core, &user_text(AMY, None, "z")), vec!["send 20 BANNED".to_string()]);
}

#[test]
fn named_media_goes_with_its_caption() {
    let mut core = Core::new();
    assert_eq!(
        run(&mut core, &user_media(BOB, Some("bob"), None)),
        vec![
            "save-broadcast".to_string(),
            "save-broadcast".to_string(),
            "media 1 📷 Фото от пользователя:\n(без подписи)\n\n👤 @bob".to_string(),
            "send 10 SENT_NORM".to_string(),
        ]
    );
    assert_eq!(
        run(&mut core, &user_media(AMY, None, Some("cat"))),
        vec![
            "save-broadcast".to_string(),
            "media 1 📷 Фото от пользователя:\ncat\n\n👤 Неизвестный".to_string(),
            "send 20 SENT_NORM".to_string(),
        ]
    );
}

#[test]
fn anonymous_media() {
    let mut core = Core::new();
    let acts = run(&mut core, &user_media(BOB, None, Some("noone  secret pic")));
    let code = code_of(&core, BOB);
    assert_eq!(
        acts,
        vec![
            "save-broadcast".to_string(),
            "save-anon".to_string(),
            "save-blocks".to_string(),
            format!("media 1 📷 Фото от Анонима #{}\n💡 Подпись: secret pic", code),
            format!("send 10 SENT_ANON! Код: #{}", code),
        ]
    );
    assert_eq!(
        run(&mut core, &user_media(AMY, None, Some("noone"))),
        vec!["save-broadcast".to_string(), "send 20 NOONE_EMPTY".to_string()]
    );
    run(&mut core, &user_text(AMY, None, "/noone_frvr"));
    let code_amy = code_of(&core, AMY);
    assert_eq!(
        run(&mut core, &user_media(AMY, None, None))[1],
        format!("media 1 📷 Фото от Анонима #{}\n💡 Подпись: (без подписи)", code_amy)
    );
}

#[test]
fn owner_media_commands() {
    let mut core = Core::new();
    run(&mut core, &user_text(BOB, Some("bob"), "x"));
    let mut pm = owner_text("");
    pm.text = None;
    pm.media = photo();
    pm.caption = Some("/pm @bob  see ".to_string());
    assert_eq!(
        run(&mut core, &pm),
        vec!["media 10 💬 FROM_AUTHOR:\n see".to_string(), "send 1 ✅ @bob (медиа) отправлено!".to_string()]
    );
    pm.caption = Some("/pm @bob".to_string());
    assert_eq!(run(&mut core, &pm)[0], "media 10 💬 FROM_AUTHOR");
    pm.caption = Some("/pm @amy hi".to_string());
    assert_eq!(run(&mut core, &pm), vec!["send 1 NOT_FOUND".to_string()]);
    pm.caption = Some("/bcast ".to_string());
    assert_eq!(
        run(&mut core, &pm),
        vec![
            "send 1 📢 Рассылка (медиа) для 1 юзеров...".to_string(),
            "media 10 📢 Рассылка от владельца".to_string(),
            "pause".to_string(),
            "send 1 ✅ Отправлено (медиа): 1".to_string(),
        ]
    );
    pm.caption = Some("/bcast wow".to_string());
    assert_eq!(run(&mut core, &pm)[1], "media 10 📢 Рассылка от владельца:\n\nwow");
    pm.caption = None;
    assert_eq!(run(&mut core, &pm), Vec::<String>::new());
}

#[test]
fn payments_are_acknowledged() {
    let mut core = Core::new();
    let mut msg = user_text(BOB, None, "");
    msg.text = None;
    msg.payment = Some(1550);
    assert_eq!(run(&mut core, &msg), vec!["send 10 ✅ Платеж на 15 звезд получен!".to_string()]);
    assert_eq!(core.bcast.get_broadcast_list(), Vec::<i64>::new());
}

#[test]
fn messages_without_a_sender_are_ignored() {
    let mut core = Core::new();
    let mut msg = user_text(BOB, None, "hi");
    msg.from = None;
    assert_eq!(run(&mut core, &msg), Vec::<String>::new());
    let mut empty = user_text(BOB, None, "");
    empty.text = None;
    assert_eq!(run(&mut core, &empty), vec!["save-broadcast".to_string()]);
}

#[test]
fn exhausted_codes_stop_only_new_anonymous_users() {
    let pairs: Vec<(i64, u16)> = (1000u16..=9999).map(|c| (c as i64 + 100_000, c)).collect();
    let anon = AnonymousManager::from_storage(AnonymousStorage::from_assignments(pairs).unwrap());
    let mut core = Core { anon, ..Core::new() };
    let c = cfg();
    let msg = user_text(BOB, None, "/noone hi");
    assert!(message_takes_code(&core, &c, &msg));
    let mut out = Vec::new();
    assert!(!handle_update_checked(&mut out, &mut core, &c, &msg));
    assert!(out.is_empty());
    let help = user_text(BOB, None, "/help");
    assert!(!message_takes_code(&core, &c, &help));
    assert!(handle_update_checked(&mut out, &mut core, &c, &help));
    assert_eq!(out.len(), 2);
    let known = user_text(101_000, None, "/noone hi");
    let mut out2 = Vec::new();
    assert!(handle_update_checked(&mut out2, &mut core, &c, &known));
    assert_eq!(describe(&out2[2]), "fast 1 💡 Анонимное сообщение от Анонима #1000:\nhi");
}

#[test]
fn blocking_and_unblocking_by_id() {
    let mut core = Core::new();
    assert_eq!(
        run(&mut core, &owner_text("/blockid 123")),
        vec![
            "save-blocks".to_string(),
            "fast 123 YOU_BLOCKED".to_string(),
            "send 1 BLOCK_OK ID: 123".to_string(),
        ]
    );
    assert!(core.block.is_id_blocked(123));
    assert_eq!(run(&mut core, &owner_text("/blockid 123")), vec!["send 1 NOT_FOUND".to_string()]);
    assert_eq!(run(&mut core, &user_text(123, None, "hi")), vec!["send 123 BANNED".to_string()]);
    assert_eq!(
        run(&mut core, &owner_text("/unblockid  123 ")),
        vec![
            "save-blocks".to_string(),
            "fast 123 YOU_UNBLOCKED".to_string(),
            "send 1 UNBLOCK_OK ID: 123".to_string(),
        ]
    );
    assert!(!core.block.is_id_blocked(123));
    assert_eq!(run(&mut core, &owner_text("/unblockid 123")), vec!["send 1 NOT_FOUND".to_string()]);
    assert_eq!(run(&mut core, &owner_text("/blockid bob")), vec![format!("send 1 {}", ID_TARGET)]);
    assert_eq!(run(&mut core, &owner_text("/blockid")), vec![format!("send 1 {}", USAGE_BLOCK_ID)]);
    assert_eq!(run(&mut core, &owner_text("/unblockid")), vec![format!("send 1 {}", USAGE_UNBLOCK_ID)]);
}

#[test]
fn a_number_starts_a_donation() {
    let mut core = Core::new();
    assert_eq!(
        run(&mut core, &user_text(BOB, Some("bob"), "100")),
        vec!["save-broadcast".to_string(), "invoice 10 100".to_string()]
    );
    assert_eq!(run(&mut core, &user_text(BOB, None, " 1 ")), vec!["invoice 10 1".to_string()]);
    assert_eq!(run(&mut core, &user_text(BOB, None, "10000")), vec!["invoice 10 10000".to_string()]);
    assert_eq!(run(&mut core, &user_text(BOB, None, "10001"))[0], "fast 1 💡 Сообщение от пользователя:\n10001\n\n👤 Неизвестный");
    assert_eq!(run(&mut core, &user_text(BOB, None, "0"))[0], "fast 1 💡 Сообщение от пользователя:\n0\n\n👤 Неизвестный");
    run(&mut core, &user_text(BOB, None, "/noone_frvr"));
    assert_eq!(run(&mut core, &user_text(BOB, None, "50")), vec!["invoice 10 50".to_string()]);
}

#[test]
fn reply_to_forwarded_media_reaches_its_sender() {
    let mut core = Core::new();
    let acts = run(&mut core, &user_media(BOB, None, Some("noone pic")));
    let code = code_of(&core, BOB);
    let caption = acts[3].strip_prefix("media 1 ").unwrap().to_string();
    let msg = Incoming {
        reply_to: Some(Replied { text: None, caption: Some(caption) }),
        ..owner_text("answer")
    };
    assert_eq!(
        run(&mut core, &msg),
        vec!["fast 10 💬 FROM_AUTHOR:\nanswer".to_string(), format!("send 1 ✅ anon{} отправлено!", code)]
    );
    run(&mut core, &user_media(AMY, Some("amy"), None));
    let named = Incoming {
        reply_to: Some(Replied {
            text: None,
            caption: Some("📷 Фото от пользователя:\n(без подписи)\n\n👤 @amy".to_string()),
        }),
        ..owner_text("hey")
    };
    assert_eq!(run(&mut core, &named)[0], "fast 20 💬 FROM_AUTHOR:\nhey");
}
