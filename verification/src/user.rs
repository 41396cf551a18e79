use vstd::prelude::*;
use vstd::string::{StrSliceExecFns, StringExecFns};
use crate::actions::{
    Action, Config, Effect, effects, emit, emit_fast, emit_media, emit_send, fast_effect,
};
use crate::anonymous::{AnonymousManager, CODE_COUNT, is_code};
use crate::commands::{
    UserCmd, UserCommand, is_noone_caption, noone_caption_text, parse_user_command,
    spec_is_noone_caption, spec_noone_caption_text, spec_user_command,
};
use crate::broadcast::BroadcastManager;
use crate::scan::{parse_i64, spec_parse_i64, spec_starts_with, spec_trim, starts_with, trim};
use crate::forever::{AnonForeverTracker, mode_on};
use crate::storage::{BlockMgr, anon_key};
use crate::replies::{
    MediaKinds, NO_CAPTION, anon_media_caption, media_type, normal_media_caption,
    spec_anon_media_caption, spec_media_type, spec_normal_media_caption, code_reply,
    anon_text_message, normal_text_message, sent_anon_reply, spec_anon_text, spec_display_name,
    spec_normal_text, spec_sent_anon_reply,
};
use crate::text::{cat2, cat3, dec_pad4, fmt_pad4};

verus! {

/// The greeting, before its closing line.
pub const START_HEAD: &'static str = "👋 Привет! Пиши сюда свои сообщения владельцу бота.\n\n💡 Команды:\n/help - помощь\n/noone текст - анонимное сообщение\n/noone_frvr - режим \"всегда анонимно\"\n/code - узнать свой анон-код\n/donate - поддержать автора\n\n✨ ";

/// The help text for users.
pub const HELP_TEXT: &'static str = "📖 Помощь:\n\n📝 Просто напиши текст - он придет владельцу\n🔒 /noone текст - отправить анонимно\n🎨 Медиа с подписью 'noone текст' - анонимное медиа\n🔁 /noone_frvr - включить/выключить режим \"всегда анонимно\"\n🔑 /code - узнать свой анон-код\n💰 /donate - поддержать проект\n\nПросто пиши цифру (1-10000) чтобы задонатить!";

/// What a user is told when "always anonymous" mode goes on, before its code.
pub const FRVR_ON_HEAD: &'static str = "🔁 Режим \"всегда анонимно\" ВКЛЮЧЕН!\n\nВсе твои сообщения теперь будут отправляться анонимно.\nТвой код: #";

/// What a user is told when "always anonymous" mode goes on, after its code.
pub const FRVR_ON_TAIL: &'static str = "\n\nЧтобы выключить, напиши /noone_frvr снова.";

/// What a user is told when "always anonymous" mode goes off.
pub const FRVR_OFF: &'static str = "✅ Режим \"всегда анонимно\" ВЫКЛЮЧЕН!\n\nТеперь твои сообщения будут отправляться с твоим именем.";

/// How to support the project.
pub const DONATE_TEXT: &'static str = "⭐️ Поддержать проект:\n\nПросто напиши число от 1 до 10000 - это количество звезд Telegram.\n\nСпасибо за поддержку! 🙏";

/// The answer to `/code` from a user without a code.
pub const NO_CODE: &'static str = "❌ Сначала отправь хотя бы одно анонимное сообщение через /noone";

/// The username of a sender, as an optional character sequence.
pub open spec fn name_view(username: Option<&str>) -> Option<Seq<char>> {
    match username {
        Some(n) => Some(n@),
        None => None,
    }
}

/// A user is blocked by id, or by "@" and its username.
pub open spec fn spec_user_blocked(block: BlockMgr, uid: i64, username: Option<Seq<char>>) -> bool {
    ||| block.ids().contains(uid)
    ||| (username matches Some(n) && block.users().contains("@"@ + n))
}

/// Whether the sender `uid` with `username` is blocked.
pub fn is_user_blocked(block: &BlockMgr, uid: i64, username: Option<&str>) -> (b: bool)
    requires
        block.wf(),
    ensures
        b == spec_user_blocked(*block, uid, name_view(username)),
{
    if block.is_id_blocked(uid) {
        return true;
    }
    if let Some(name) = username {
        let key = cat2("@", name);
        if block.is_user_blocked(key.as_str()) {
            return true;
        }
    }
    false
}

/// A user with a code, or a free code left to give.
pub open spec fn can_have_code(anon: AnonymousManager, uid: i64) -> bool {
    anon.codes().contains_key(uid) || anon.codes_in_use().len() < CODE_COUNT
}

/// How the code store changes when `uid` asks for its code: a user with a
/// code keeps it and the store is unchanged; a user without one is given a
/// code nobody has.
pub open spec fn code_step(a0: AnonymousManager, a1: AnonymousManager, uid: i64) -> bool {
    let c = a1.codes()[uid];
    &&& a1.wf()
    &&& a1.codes().contains_key(uid)
    &&& is_code(c)
    &&& a0.codes().contains_key(uid) ==> a1.storage() == a0.storage()
    &&& !a0.codes().contains_key(uid) ==> {
        &&& !a0.codes_in_use().contains(c)
        &&& a1.codes() == a0.codes().insert(uid, c)
        &&& a1.codes_in_use() == a0.codes_in_use().insert(c)
        &&& a1.storage().owners() == a0.storage().owners().insert(c, uid)
        &&& a1.storage().used() == a0.storage().used().push(c)
    }
}

/// The stores written out when a user's code is looked up and registered:
/// the code store when the code is new, then the block lists.
pub open spec fn code_saves(codes: Map<i64, u16>, uid: i64) -> Seq<Effect> {
    if codes.contains_key(uid) {
        seq![Effect::SaveBlocks]
    } else {
        seq![Effect::SaveAnon, Effect::SaveBlocks]
    }
}

/// The key under which a code is registered and blocked.
pub open spec fn code_key(code: u16) -> Seq<char> {
    anon_key(dec_pad4(code as nat))
}

/// Gives `uid` its code (a new one if it has none), registers `uid` behind
/// it, and tells whether that code is blocked.
pub fn take_code(
    out: &mut Vec<Action>,
    anon: &mut AnonymousManager,
    block: &mut BlockMgr,
    uid: i64,
) -> (r: (u16, bool))
    requires
        old(anon).wf(),
        old(block).wf(),
        can_have_code(*old(anon), uid),
    ensures
        code_step(*old(anon), *final(anon), uid),
        r.0 == final(anon).codes()[uid],
        r.1 == old(block).anons().contains(code_key(r.0)),
        final(block).wf(),
        final(block).owners() == old(block).owners().insert(code_key(r.0), uid),
        final(block).anons() == old(block).anons(),
        final(block).users() == old(block).users(),
        final(block).ids() == old(block).ids(),
        effects(final(out)@) == effects(old(out)@) + code_saves(old(anon).codes(), uid),
{
    let had = anon.get_anonymous_code(uid).is_some();
    let code = anon.get_or_create_anonymous_code(uid);
    if !had {
        emit(out, Action::SaveAnon);
    }
    let c = fmt_pad4(code);
    block.reg_anon(c.as_str(), uid);
    emit(out, Action::SaveBlocks);
    let banned = block.is_anon_blocked(c.as_str());
    (code, banned)
}

/// What follows the registration of an anonymous message's code: a banned
/// sender is told so; otherwise the message goes to the owner and the
/// sender is told its code.
pub open spec fn anon_delivery(
    anons: Set<Seq<char>>,
    cfg: Config,
    chat: i64,
    code: u16,
    payload: Effect,
) -> Seq<Effect> {
    if anons.contains(code_key(code)) {
        seq![Effect::Send(chat, cfg.texts.banned@)]
    } else {
        seq![payload, Effect::Send(chat, spec_sent_anon_reply(cfg.texts.sent_anon@, code))]
    }
}

/// An anonymous text message of `uid`, given the code it ends up with.
pub open spec fn spec_anon_text_msg(
    anon: AnonymousManager,
    block: BlockMgr,
    cfg: Config,
    chat: i64,
    uid: i64,
    text: Seq<char>,
    code: u16,
) -> Seq<Effect> {
    code_saves(anon.codes(), uid) + anon_delivery(
        block.anons(),
        cfg,
        chat,
        code,
        fast_effect(cfg.token@, cfg.owner, spec_anon_text(code, text)),
    )
}

/// Sends `text` of `uid` to the owner anonymously.
pub fn send_anon_text(
    out: &mut Vec<Action>,
    anon: &mut AnonymousManager,
    block: &mut BlockMgr,
    cfg: &Config,
    chat: i64,
    uid: i64,
    text: &str,
)
    requires
        old(anon).wf(),
        old(block).wf(),
        can_have_code(*old(anon), uid),
    ensures
        code_step(*old(anon), *final(anon), uid),
        final(block).wf(),
        final(block).owners() == old(block).owners().insert(
            code_key(final(anon).codes()[uid]),
            uid,
        ),
        final(block).anons() == old(block).anons(),
        final(block).users() == old(block).users(),
        final(block).ids() == old(block).ids(),
        effects(final(out)@) == effects(old(out)@) + spec_anon_text_msg(
            *old(anon),
            *old(block),
            *cfg,
            chat,
            uid,
            text@,
            final(anon).codes()[uid],
        ),
{
    let (code, banned) = take_code(out, anon, block, uid);
    if banned {
        emit_send(out, chat, cfg.texts.banned.clone());
    } else {
        let full = anon_text_message(code, text);
        emit_fast(out, cfg.token.as_str(), cfg.owner, full.as_str());
        emit_send(out, chat, sent_anon_reply(cfg.texts.sent_anon.as_str(), code));
    }
}

/// A named text message: it goes to the owner with the sender's name, and
/// the sender is told.
pub open spec fn spec_named_text(
    cfg: Config,
    chat: i64,
    text: Seq<char>,
    username: Option<Seq<char>>,
) -> Seq<Effect> {
    seq![
        fast_effect(cfg.token@, cfg.owner, spec_normal_text(text, spec_display_name(username))),
        Effect::Send(chat, cfg.texts.sent_norm@),
    ]
}

/// Sends `text` to the owner with the sender's name.
pub fn send_normal_text(
    out: &mut Vec<Action>,
    cfg: &Config,
    chat: i64,
    text: &str,
    username: Option<&str>,
)
    ensures
        effects(final(out)@) == effects(old(out)@) + spec_named_text(
            *cfg,
            chat,
            text@,
            name_view(username),
        ),
{
    let full = normal_text_message(text, username);
    emit_fast(out, cfg.token.as_str(), cfg.owner, full.as_str());
    emit_send(out, chat, cfg.texts.sent_norm.clone());
}

/// Whether a user's command looks up or makes its code: an anonymous
/// message, or "always anonymous" mode going on.
pub open spec fn cmd_takes_code(cmd: UserCmd, was_on: bool) -> bool {
    cmd is Noone || (cmd is NooneFrvr && !was_on)
}

/// The "always anonymous" modes after a user's command: `/noone_frvr`
/// switches the mode of `uid` on, or off by forgetting it.
pub open spec fn modes_after(modes: Map<i64, bool>, uid: i64, cmd: UserCmd) -> Map<i64, bool> {
    if cmd is NooneFrvr {
        if mode_on(modes, uid) {
            modes.remove(uid)
        } else {
            modes.insert(uid, true)
        }
    } else {
        modes
    }
}

/// What a user's command does, given the code the user ends up with.
pub open spec fn spec_user_cmd(
    anon: AnonymousManager,
    block: BlockMgr,
    modes: Map<i64, bool>,
    cfg: Config,
    chat: i64,
    uid: i64,
    cmd: UserCmd,
    code: u16,
) -> Seq<Effect> {
    match cmd {
        UserCmd::Start => seq![Effect::Send(chat, START_HEAD@ + cfg.texts.interesting@)],
        UserCmd::Help => seq![Effect::Send(chat, HELP_TEXT@)],
        UserCmd::NooneEmpty => seq![Effect::Send(chat, cfg.texts.noone_empty@)],
        UserCmd::Noone(t) => spec_anon_text_msg(anon, block, cfg, chat, uid, t, code),
        UserCmd::NooneFrvr => if mode_on(modes, uid) {
            seq![Effect::Send(chat, FRVR_OFF@)]
        } else {
            code_saves(anon.codes(), uid) + seq![
                Effect::Send(chat, FRVR_ON_HEAD@ + dec_pad4(code as nat) + FRVR_ON_TAIL@),
            ]
        },
        UserCmd::Donate => seq![Effect::Send(chat, DONATE_TEXT@)],
        UserCmd::Code => if anon.codes().contains_key(uid) {
            seq![Effect::Send(chat, "🔑 Твой код: #"@ + dec_pad4(anon.codes()[uid] as nat))]
        } else {
            seq![Effect::Send(chat, NO_CODE@)]
        },
        UserCmd::Unknown => Seq::<Effect>::empty(),
    }
}

/// How the code store and the registrations change for a step that takes
/// the code of `uid` when `takes` holds, and leaves them alone otherwise.
pub open spec fn code_change(
    a0: AnonymousManager,
    a1: AnonymousManager,
    b0: BlockMgr,
    b1: BlockMgr,
    uid: i64,
    takes: bool,
) -> bool {
    &&& b1.wf()
    &&& b1.anons() == b0.anons()
    &&& b1.users() == b0.users()
    &&& b1.ids() == b0.ids()
    &&& if takes {
        &&& code_step(a0, a1, uid)
        &&& b1.owners() == b0.owners().insert(code_key(a1.codes()[uid]), uid)
    } else {
        &&& a1 == a0
        &&& b1.owners() == b0.owners()
    }
}

/// Carries out the command `text` of the user `uid`.
pub fn user_cmd(
    out: &mut Vec<Action>,
    anon: &mut AnonymousManager,
    block: &mut BlockMgr,
    forever: &mut AnonForeverTracker,
    cfg: &Config,
    chat: i64,
    uid: i64,
    text: &str,
)
    requires
        old(anon).wf(),
        old(block).wf(),
        cmd_takes_code(spec_user_command(text@), old(forever).enabled(uid)) ==> can_have_code(
            *old(anon),
            uid,
        ),
    ensures
        code_change(
            *old(anon),
            *final(anon),
            *old(block),
            *final(block),
            uid,
            cmd_takes_code(spec_user_command(text@), old(forever).enabled(uid)),
        ),
        final(forever).modes() == modes_after(old(forever).modes(), uid, spec_user_command(text@)),
        effects(final(out)@) == effects(old(out)@) + spec_user_cmd(
            *old(anon),
            *old(block),
            old(forever).modes(),
            *cfg,
            chat,
            uid,
            spec_user_command(text@),
            final(anon).codes()[uid],
        ),
{
    let cmd = parse_user_command(text);
    match cmd {
        UserCommand::Start => {
            emit_send(out, chat, cat2(START_HEAD, cfg.texts.interesting.as_str()));
        },
        UserCommand::Help => {
            emit_send(out, chat, String::from_str(HELP_TEXT));
        },
        UserCommand::NooneEmpty => {
            emit_send(out, chat, cfg.texts.noone_empty.clone());
        },
        UserCommand::Noone(t) => {
            send_anon_text(out, anon, block, cfg, chat, uid, t.as_str());
        },
        UserCommand::NooneFrvr => {
            let ghost modes0 = forever.modes();
            let enabled = forever.toggle(uid);
            if enabled {
                let (code, _) = take_code(out, anon, block, uid);
                let c = fmt_pad4(code);
                emit_send(out, chat, cat3(FRVR_ON_HEAD, c.as_str(), FRVR_ON_TAIL));
            } else {
                forever.disable(uid);
                emit_send(out, chat, String::from_str(FRVR_OFF));
                assert(forever.modes() =~= modes0.remove(uid));
            }
        },
        UserCommand::Donate => {
            emit_send(out, chat, String::from_str(DONATE_TEXT));
        },
        UserCommand::Code => {
            match anon.get_anonymous_code(uid) {
                Some(c) => emit_send(out, chat, code_reply(c)),
                None => emit_send(out, chat, String::from_str(NO_CODE)),
            }
        },
        UserCommand::Unknown => {
            assert(effects(out@) =~= effects(old(out)@) + Seq::<Effect>::empty());
        },
    }
}

/// The smallest donation, in Telegram Stars.
pub const DONATION_MIN: i64 = 1;

/// The largest donation, in Telegram Stars.
pub const DONATION_MAX: i64 = 10000;

/// The donation a user's text asks for: a number from 1 to 10000, white
/// space around it allowed.
pub open spec fn spec_donation(text: Seq<char>) -> Option<u32> {
    match spec_parse_i64(spec_trim(text)) {
        Some(n) => if DONATION_MIN <= n <= DONATION_MAX {
            Some(n as u32)
        } else {
            None
        },
        None => None,
    }
}

/// The donation a user's text asks for, if it is a number from 1 to 10000.
pub fn donation_amount(text: &str) -> (r: Option<u32>)
    ensures
        r == spec_donation(text@),
{
    match parse_i64(trim(text)) {
        Some(n) => if DONATION_MIN <= n && n <= DONATION_MAX {
            Some(n as u32)
        } else {
            None
        },
        None => None,
    }
}

/// What a user's text does: a command when it starts with '/'; a number
/// from 1 to 10000 is answered with an invoice for that many Telegram Stars;
/// otherwise a message to the owner, anonymous in "always anonymous" mode.
pub open spec fn spec_user_text(
    anon: AnonymousManager,
    block: BlockMgr,
    modes: Map<i64, bool>,
    cfg: Config,
    chat: i64,
    uid: i64,
    username: Option<Seq<char>>,
    text: Seq<char>,
    code: u16,
) -> Seq<Effect> {
    if spec_starts_with(text, "/"@) {
        spec_user_cmd(anon, block, modes, cfg, chat, uid, spec_user_command(text), code)
    } else if spec_donation(text) is Some {
        seq![Effect::Invoice(chat, spec_donation(text)->0)]
    } else if mode_on(modes, uid) {
        spec_anon_text_msg(anon, block, cfg, chat, uid, text, code)
    } else {
        spec_named_text(cfg, chat, text, username)
    }
}

/// Whether a user's text looks up or makes its code.
pub open spec fn text_takes_code(modes: Map<i64, bool>, uid: i64, text: Seq<char>) -> bool {
    if spec_starts_with(text, "/"@) {
        cmd_takes_code(spec_user_command(text), mode_on(modes, uid))
    } else {
        spec_donation(text) is None && mode_on(modes, uid)
    }
}

/// The "always anonymous" modes after a user's text.
pub open spec fn text_modes_after(modes: Map<i64, bool>, uid: i64, text: Seq<char>) -> Map<
    i64,
    bool,
> {
    if spec_starts_with(text, "/"@) {
        modes_after(modes, uid, spec_user_command(text))
    } else {
        modes
    }
}

/// Handles the text of a user who is not blocked.
pub fn handle_text_message(
    out: &mut Vec<Action>,
    anon: &mut AnonymousManager,
    block: &mut BlockMgr,
    forever: &mut AnonForeverTracker,
    cfg: &Config,
    chat: i64,
    uid: i64,
    username: Option<&str>,
    text: &str,
)
    requires
        old(anon).wf(),
        old(block).wf(),
        text_takes_code(old(forever).modes(), uid, text@) ==> can_have_code(*old(anon), uid),
    ensures
        code_change(
            *old(anon),
            *final(anon),
            *old(block),
            *final(block),
            uid,
            text_takes_code(old(forever).modes(), uid, text@),
        ),
        final(forever).modes() == text_modes_after(old(forever).modes(), uid, text@),
        effects(final(out)@) == effects(old(out)@) + spec_user_text(
            *old(anon),
            *old(block),
            old(forever).modes(),
            *cfg,
            chat,
            uid,
            name_view(username),
            text@,
            final(anon).codes()[uid],
        ),
{
    if starts_with(text, "/") {
        user_cmd(out, anon, block, forever, cfg, chat, uid, text);
    } else if let Some(stars) = donation_amount(text) {
        emit(out, Action::Invoice { chat, stars });
    } else if forever.is_enabled(uid) {
        send_anon_text(out, anon, block, cfg, chat, uid, text);
    } else {
        send_normal_text(out, cfg, chat, text, username);
    }
}

/// The caption a media message shows: its own, or "(без подписи)".
pub open spec fn caption_or_default(caption: Option<Seq<char>>) -> Seq<char> {
    match caption {
        Some(c) => c,
        None => NO_CAPTION@,
    }
}

/// Whether the media of a user not in "always anonymous" mode is anonymous:
/// its caption, trimmed, starts with "noone".
pub open spec fn noone_media(caption: Option<Seq<char>>) -> bool {
    caption matches Some(c) && spec_is_noone_caption(c)
}

/// Whether a user's media looks up or makes its code.
pub open spec fn media_takes_code(modes: Map<i64, bool>, uid: i64, caption: Option<Seq<char>>) -> bool {
    ||| mode_on(modes, uid)
    ||| (noone_media(caption) && spec_noone_caption_text(caption->0) is Some)
}

/// What a user's media does: in "always anonymous" mode it goes to the
/// owner anonymously with its caption; with a caption "noone text" it goes
/// anonymously with the text (a caption without a text is refused);
/// otherwise it goes with the sender's name, which is recorded again.
pub open spec fn spec_user_media(
    anon: AnonymousManager,
    block: BlockMgr,
    modes: Map<i64, bool>,
    cfg: Config,
    chat: i64,
    uid: i64,
    username: Option<Seq<char>>,
    caption: Option<Seq<char>>,
    media: MediaKinds,
    code: u16,
) -> Seq<Effect> {
    let label = spec_media_type(media);
    if mode_on(modes, uid) {
        code_saves(anon.codes(), uid) + anon_delivery(
            block.anons(),
            cfg,
            chat,
            code,
            Effect::Media(cfg.owner, spec_anon_media_caption(label, code, caption_or_default(caption))),
        )
    } else if noone_media(caption) {
        match spec_noone_caption_text(caption->0) {
            None => seq![Effect::Send(chat, cfg.texts.noone_empty@)],
            Some(t) => code_saves(anon.codes(), uid) + anon_delivery(
                block.anons(),
                cfg,
                chat,
                code,
                Effect::Media(cfg.owner, spec_anon_media_caption(label, code, t)),
            ),
        }
    } else {
        (if username is Some {
            seq![Effect::SaveBroadcast]
        } else {
            Seq::<Effect>::empty()
        }) + seq![
            Effect::Media(
                cfg.owner,
                spec_normal_media_caption(label, caption_or_default(caption), spec_display_name(username)),
            ),
            Effect::Send(chat, cfg.texts.sent_norm@),
        ]
    }
}

/// Sends the media of `uid` to the owner anonymously, with `caption`.
fn anon_media_to_owner(
    out: &mut Vec<Action>,
    anon: &mut AnonymousManager,
    block: &mut BlockMgr,
    cfg: &Config,
    chat: i64,
    uid: i64,
    media: MediaKinds,
    caption: &str,
)
    requires
        old(anon).wf(),
        old(block).wf(),
        can_have_code(*old(anon), uid),
    ensures
        code_step(*old(anon), *final(anon), uid),
        final(block).wf(),
        final(block).owners() == old(block).owners().insert(
            code_key(final(anon).codes()[uid]),
            uid,
        ),
        final(block).anons() == old(block).anons(),
        final(block).users() == old(block).users(),
        final(block).ids() == old(block).ids(),
        effects(final(out)@) == effects(old(out)@) + code_saves(old(anon).codes(), uid)
            + anon_delivery(
            old(block).anons(),
            *cfg,
            chat,
            final(anon).codes()[uid],
            Effect::Media(
                cfg.owner,
                spec_anon_media_caption(spec_media_type(media), final(anon).codes()[uid], caption@),
            ),
        ),
{
    let (code, banned) = take_code(out, anon, block, uid);
    if banned {
        emit_send(out, chat, cfg.texts.banned.clone());
    } else {
        let full = anon_media_caption(media_type(media), code, caption);
        emit_media(out, cfg.owner, full);
        emit_send(out, chat, sent_anon_reply(cfg.texts.sent_anon.as_str(), code));
    }
}

/// Handles the media of a user who is not blocked and whose name was
/// recorded.
pub fn handle_media_message(
    out: &mut Vec<Action>,
    anon: &mut AnonymousManager,
    block: &mut BlockMgr,
    bcast: &mut BroadcastManager,
    forever: &AnonForeverTracker,
    cfg: &Config,
    chat: i64,
    uid: i64,
    username: Option<&str>,
    caption: Option<&str>,
    media: MediaKinds,
)
    requires
        old(anon).wf(),
        old(block).wf(),
        old(bcast).wf(),
        old(bcast).all_users().contains(uid),
        media_takes_code(forever.modes(), uid, name_view(caption)) ==> can_have_code(
            *old(anon),
            uid,
        ),
    ensures
        code_change(
            *old(anon),
            *final(anon),
            *old(block),
            *final(block),
            uid,
            media_takes_code(forever.modes(), uid, name_view(caption)),
        ),
        final(bcast).wf(),
        final(bcast).all_users() == old(bcast).all_users(),
        final(bcast).unsubscribed() == old(bcast).unsubscribed(),
        final(bcast).usernames() == match username {
            Some(n) if !mode_on(forever.modes(), uid) && !noone_media(name_view(caption)) =>
                old(bcast).usernames().insert(n@, uid),
            _ => old(bcast).usernames(),
        },
        effects(final(out)@) == effects(old(out)@) + spec_user_media(
            *old(anon),
            *old(block),
            forever.modes(),
            *cfg,
            chat,
            uid,
            name_view(username),
            name_view(caption),
            media,
            final(anon).codes()[uid],
        ),
{
    proof {
        reveal_strlit("(без подписи)");
    }
    if forever.is_enabled(uid) {
        let cap = match caption {
            Some(c) => c,
            None => NO_CAPTION,
        };
        anon_media_to_owner(out, anon, block, cfg, chat, uid, media, cap);
        return ;
    }
    if let Some(c) = caption {
        if is_noone_caption(c) {
            match noone_caption_text(c) {
                None => {
                    emit_send(out, chat, cfg.texts.noone_empty.clone());
                },
                Some(t) => {
                    anon_media_to_owner(out, anon, block, cfg, chat, uid, media, t.as_str());
                },
            }
            return ;
        }
    }
    let name = match username {
        Some(n) => Some(String::from_str(n)),
        None => None,
    };
    let changed = bcast.add_user_with_username(uid, name);
    if changed {
        emit(out, Action::SaveBroadcast);
    } else {
        assert(effects(out@) =~= effects(old(out)@) + Seq::<Effect>::empty());
    }
    let ghost mid = effects(out@);
    let cap = match caption {
        Some(c) => c,
        None => NO_CAPTION,
    };
    let full = normal_media_caption(media_type(media), cap, username);
    emit_media(out, cfg.owner, full);
    emit_send(out, chat, cfg.texts.sent_norm.clone());
    proof {
        assert(bcast.all_users() =~= old(bcast).all_users());
    }
}

} // verus!
