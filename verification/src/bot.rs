use vstd::prelude::*;
use crate::actions::{
    Action, Config, Core, Effect, Incoming, Sender, carries_media, effects, emit, emit_send,
    opt_view,
};
use crate::anonymous::CODE_COUNT;
use crate::commands::{UserCommand, is_noone_caption, noone_caption_text, parse_user_command};
use crate::forever::AnonForeverTracker;
use crate::owner::{
    cmd_anons, cmd_ids, cmd_users, is_target_list, owner_cmd_of, owner_handler, owner_uses_list,
    spec_owner_handler,
};
use crate::replies::has_media;
use crate::scan::starts_with;
use crate::text::{cat3, dec_nat, fmt_u64};
use crate::user::{
    can_have_code, code_change, donation_amount, handle_media_message, handle_text_message, is_user_blocked,
    media_takes_code, name_view, spec_user_blocked, spec_user_media, spec_user_text,
    text_modes_after, text_takes_code,
};

verus! {

/// What a message of the owner does to the state and the actions: see
/// `owner_handler`; the code store, the broadcast store and the modes stay
/// as they were.
pub open spec fn owner_step(
    c0: Core,
    c1: Core,
    cfg: Config,
    msg: Incoming,
    e0: Seq<Effect>,
    e1: Seq<Effect>,
) -> bool {
    &&& exists|l: Seq<i64>|
        (owner_uses_list(msg) ==> is_target_list(c0.bcast, l)) && e1 == e0
            + #[trigger] spec_owner_handler(c0.block, c0.bcast, cfg, msg, l)
    &&& c1.block.anons() == cmd_anons(c0.block.anons(), owner_cmd_of(msg))
    &&& c1.block.users() == cmd_users(c0.block.users(), owner_cmd_of(msg))
    &&& c1.block.ids() == cmd_ids(c0.block.ids(), c0.bcast, owner_cmd_of(msg))
    &&& c1.block.owners() == c0.block.owners()
    &&& c1.anon == c0.anon
    &&& c1.bcast == c0.bcast
    &&& c1.forever == c0.forever
}

/// Whether handling a message of a user looks up or makes the sender's
/// code.
pub open spec fn user_takes_code(c: Core, s: Sender, msg: Incoming) -> bool {
    &&& !spec_user_blocked(c.block, s.id, opt_view(s.username))
    &&& match opt_view(msg.text) {
        Some(t) => text_takes_code(c.forever.modes(), s.id, t),
        None => carries_media(msg.media) && media_takes_code(
            c.forever.modes(),
            s.id,
            opt_view(msg.caption),
        ),
    }
}

/// What a message of the user `s` does, given the code the user ends up
/// with: a blocked user is told so; otherwise the user is recorded for
/// broadcasts (the store written out when it changes) and its text or
/// media is handled.
pub open spec fn spec_user_message(c: Core, cfg: Config, s: Sender, msg: Incoming, code: u16) -> Seq<
    Effect,
> {
    let uid = s.id;
    let name = opt_view(s.username);
    if spec_user_blocked(c.block, uid, name) {
        seq![Effect::Send(msg.chat, cfg.texts.banned@)]
    } else {
        (if !c.bcast.all_users().contains(uid) || name is Some {
            seq![Effect::SaveBroadcast]
        } else {
            Seq::<Effect>::empty()
        }) + match opt_view(msg.text) {
            Some(t) => spec_user_text(
                c.anon,
                c.block,
                c.forever.modes(),
                cfg,
                msg.chat,
                uid,
                name,
                t,
                code,
            ),
            None => if carries_media(msg.media) {
                spec_user_media(
                    c.anon,
                    c.block,
                    c.forever.modes(),
                    cfg,
                    msg.chat,
                    uid,
                    name,
                    opt_view(msg.caption),
                    msg.media,
                    code,
                )
            } else {
                Seq::<Effect>::empty()
            },
        }
    }
}

/// What a message of the user `s` does to the state and the actions.
pub open spec fn user_step(
    c0: Core,
    c1: Core,
    cfg: Config,
    s: Sender,
    msg: Incoming,
    e0: Seq<Effect>,
    e1: Seq<Effect>,
) -> bool {
    let uid = s.id;
    let blocked = spec_user_blocked(c0.block, uid, opt_view(s.username));
    &&& code_change(c0.anon, c1.anon, c0.block, c1.block, uid, user_takes_code(c0, s, msg))
    &&& e1 == e0 + spec_user_message(c0, cfg, s, msg, c1.anon.codes()[uid])
    &&& c1.forever.modes() == match (blocked, opt_view(msg.text)) {
        (false, Some(t)) => text_modes_after(c0.forever.modes(), uid, t),
        _ => c0.forever.modes(),
    }
    &&& c1.bcast.wf()
    &&& c1.bcast.unsubscribed() == c0.bcast.unsubscribed()
    &&& c1.bcast.all_users() == if blocked {
        c0.bcast.all_users()
    } else {
        c0.bcast.all_users().insert(uid)
    }
    &&& c1.bcast.usernames() == match opt_view(s.username) {
        Some(n) if !blocked => c0.bcast.usernames().insert(n, uid),
        _ => c0.bcast.usernames(),
    }
}

/// Whether handling a message looks up or makes a code: a message of a
/// user, not the owner, that is no payment.
pub open spec fn takes_code(c: Core, cfg: Config, msg: Incoming) -> bool {
    &&& msg.payment is None
    &&& msg.chat != cfg.owner
    &&& msg.from matches Some(s) && user_takes_code(c, s, msg)
}

/// What a message that reports no payment does: a message from the
/// owner's chat as `owner_step` says, a message of a user as `user_step`
/// says; a message without a sender does nothing.
pub open spec fn msg_step(
    c0: Core,
    c1: Core,
    cfg: Config,
    msg: Incoming,
    e0: Seq<Effect>,
    e1: Seq<Effect>,
) -> bool {
    if msg.chat == cfg.owner {
        owner_step(c0, c1, cfg, msg, e0, e1)
    } else {
        match msg.from {
            None => c1 == c0 && e1 == e0,
            Some(s) => user_step(c0, c1, cfg, s, msg, e0, e1),
        }
    }
}

/// Handles a message that reports no payment: the owner's chat gives
/// commands; a user's message is checked against the block lists, recorded,
/// and passed on.
pub fn handle_msg(out: &mut Vec<Action>, core: &mut Core, cfg: &Config, msg: &Incoming)
    requires
        old(core).wf(),
        msg.chat != cfg.owner ==> match msg.from {
            Some(s) => user_takes_code(*old(core), s, *msg) ==> can_have_code(old(core).anon, s.id),
            None => true,
        },
    ensures
        final(core).wf(),
        msg_step(*old(core), *final(core), *cfg, *msg, effects(old(out)@), effects(final(out)@)),
{
    if msg.chat == cfg.owner {
        owner_handler(out, &mut core.block, &core.bcast, cfg, msg);
        return ;
    }
    let s = match &msg.from {
        Some(s) => s,
        None => {
            return ;
        },
    };
    let uid = s.id;
    let username = match &s.username {
        Some(n) => Some(n.as_str()),
        None => None,
    };
    assert(name_view(username) == opt_view(s.username));
    if is_user_blocked(&core.block, uid, username) {
        emit_send(out, msg.chat, cfg.texts.banned.clone());
        proof {
            let c0 = *old(core);
            let c1 = *core;
            assert(code_change(
                c0.anon,
                c1.anon,
                c0.block,
                c1.block,
                uid,
                user_takes_code(c0, *s, *msg),
            ));
            assert(effects(out@) == effects(old(out)@) + spec_user_message(
                c0,
                *cfg,
                *s,
                *msg,
                c1.anon.codes()[uid],
            ));
            assert(c1.bcast.usernames() == c0.bcast.usernames());
        }
        return ;
    }
    let name = match &s.username {
        Some(n) => Some(n.clone()),
        None => None,
    };
    let changed = core.bcast.add_user_with_username(uid, name);
    let ghost save = if !old(core).bcast.all_users().contains(uid) || s.username is Some {
        seq![Effect::SaveBroadcast]
    } else {
        Seq::<Effect>::empty()
    };
    if changed {
        emit(out, Action::SaveBroadcast);
    }
    assert(effects(out@) =~= effects(old(out)@) + save);
    let ghost mid = effects(out@);
    match &msg.text {
        Some(t) => {
            handle_text_message(
                out,
                &mut core.anon,
                &mut core.block,
                &mut core.forever,
                cfg,
                msg.chat,
                uid,
                username,
                t.as_str(),
            );
            proof {
                let c0 = *old(core);
                let c1 = *core;
                assert(effects(out@) =~= effects(old(out)@) + spec_user_message(
                    c0,
                    *cfg,
                    *s,
                    *msg,
                    c1.anon.codes()[uid],
                ));
            }
        },
        None => {
            if has_media(msg.media) {
                let caption = match &msg.caption {
                    Some(c) => Some(c.as_str()),
                    None => None,
                };
                assert(name_view(caption) == opt_view(msg.caption));
                handle_media_message(
                    out,
                    &mut core.anon,
                    &mut core.block,
                    &mut core.bcast,
                    &core.forever,
                    cfg,
                    msg.chat,
                    uid,
                    username,
                    caption,
                    msg.media,
                );
                proof {
                    let c0 = *old(core);
                    let c1 = *core;
                    assert(effects(out@) =~= effects(old(out)@) + spec_user_message(
                        c0,
                        *cfg,
                        *s,
                        *msg,
                        c1.anon.codes()[uid],
                    ));
                }
            } else {
                assert(effects(out@) =~= effects(old(out)@) + save + Seq::<Effect>::empty());
            }
        },
    }
    proof {
        let c0 = *old(core);
        let c1 = *core;
        let blocked = spec_user_blocked(c0.block, uid, opt_view(s.username));
        assert(!blocked);
        assert(code_change(
            c0.anon,
            c1.anon,
            c0.block,
            c1.block,
            uid,
            user_takes_code(c0, *s, *msg),
        ));
        assert(c1.forever.modes() == match (blocked, opt_view(msg.text)) {
            (false, Some(t)) => text_modes_after(c0.forever.modes(), uid, t),
            _ => c0.forever.modes(),
        });
        assert(c1.bcast.wf());
        assert(c1.bcast.unsubscribed() == c0.bcast.unsubscribed());
        assert(c1.bcast.all_users() == c0.bcast.all_users().insert(uid));
        assert(c1.bcast.usernames() == match opt_view(s.username) {
            Some(n) if !blocked => c0.bcast.usernames().insert(n, uid),
            _ => c0.bcast.usernames(),
        });
    }
}

/// The answer to a successful payment of `amount` (in hundredths of a
/// star).
pub open spec fn payment_text(amount: u32) -> Seq<char> {
    "✅ Платеж на "@ + dec_nat((amount / 100) as nat) + " звезд получен!"@
}

/// What an update does: a payment is acknowledged; any other message is
/// handled as `msg_step` says.
pub open spec fn update_step(
    c0: Core,
    c1: Core,
    cfg: Config,
    msg: Incoming,
    e0: Seq<Effect>,
    e1: Seq<Effect>,
) -> bool {
    match msg.payment {
        Some(a) => c1 == c0 && e1 == e0.push(Effect::Send(msg.chat, payment_text(a))),
        None => msg_step(c0, c1, cfg, msg, e0, e1),
    }
}

/// Handles a message the bot received.
pub fn handle_update(out: &mut Vec<Action>, core: &mut Core, cfg: &Config, msg: &Incoming)
    requires
        old(core).wf(),
        takes_code(*old(core), *cfg, *msg) ==> can_have_code(old(core).anon, msg.from->0.id),
    ensures
        final(core).wf(),
        update_step(*old(core), *final(core), *cfg, *msg, effects(old(out)@), effects(final(out)@)),
{
    match msg.payment {
        Some(a) => {
            let stars = fmt_u64((a / 100) as u64);
            emit_send(out, msg.chat, cat3("✅ Платеж на ", stars.as_str(), " звезд получен!"));
        },
        None => {
            handle_msg(out, core, cfg, msg);
        },
    }
}

/// Whether a user's text would look up or make its code.
fn text_needs_code(forever: &AnonForeverTracker, uid: i64, text: &str) -> (b: bool)
    ensures
        b == text_takes_code(forever.modes(), uid, text@),
{
    if starts_with(text, "/") {
        match parse_user_command(text) {
            UserCommand::Noone(_) => true,
            UserCommand::NooneFrvr => !forever.is_enabled(uid),
            _ => false,
        }
    } else if donation_amount(text).is_some() {
        false
    } else {
        forever.is_enabled(uid)
    }
}

/// Whether a user's media would look up or make its code.
fn media_needs_code(forever: &AnonForeverTracker, uid: i64, caption: Option<&str>) -> (b: bool)
    ensures
        b == media_takes_code(forever.modes(), uid, name_view(caption)),
{
    if forever.is_enabled(uid) {
        true
    } else {
        match caption {
            Some(c) => is_noone_caption(c) && noone_caption_text(c).is_some(),
            None => false,
        }
    }
}

/// Whether handling the message would look up or make a code.
pub fn message_takes_code(core: &Core, cfg: &Config, msg: &Incoming) -> (b: bool)
    requires
        core.wf(),
    ensures
        b == takes_code(*core, *cfg, *msg),
{
    if msg.payment.is_some() || msg.chat == cfg.owner {
        return false;
    }
    let s = match &msg.from {
        Some(s) => s,
        None => {
            return false;
        },
    };
    let username = match &s.username {
        Some(n) => Some(n.as_str()),
        None => None,
    };
    assert(name_view(username) == opt_view(s.username));
    if is_user_blocked(&core.block, s.id, username) {
        return false;
    }
    match &msg.text {
        Some(t) => text_needs_code(&core.forever, s.id, t.as_str()),
        None => {
            let caption = match &msg.caption {
                Some(c) => Some(c.as_str()),
                None => None,
            };
            assert(name_view(caption) == opt_view(msg.caption));
            has_media(msg.media) && media_needs_code(&core.forever, s.id, caption)
        },
    }
}

/// Handles a message the bot received, unless it would need a new code
/// when all of them are taken: the search for a free code could then never
/// end, so nothing is done and false is returned.
pub fn handle_update_checked(out: &mut Vec<Action>, core: &mut Core, cfg: &Config, msg: &Incoming) -> (done:
    bool)
    requires
        old(core).wf(),
    ensures
        final(core).wf(),
        done == !(takes_code(*old(core), *cfg, *msg) && !can_have_code(
            old(core).anon,
            msg.from->0.id,
        )),
        done ==> update_step(
            *old(core),
            *final(core),
            *cfg,
            *msg,
            effects(old(out)@),
            effects(final(out)@),
        ),
        !done ==> *final(core) == *old(core) && effects(final(out)@) == effects(old(out)@),
{
    if message_takes_code(core, cfg, msg) {
        let uid = match &msg.from {
            Some(s) => s.id,
            None => 0,
        };
        let known = core.anon.get_anonymous_code(uid).is_some();
        if !known && core.anon.code_count() >= CODE_COUNT {
            return false;
        }
    }
    handle_update(out, core, cfg, msg);
    true
}

} // verus!
