use vstd::prelude::*;
use crate::actions::{Config, Core, Effect, Incoming, Sender, fast_effect, opt_view};
use crate::anonymous::{AnonymousManager, is_code};
use crate::bot::{owner_step, user_step};
use crate::broadcast::BroadcastManager;
use crate::commands::{
    OwnerCmd, OwnerMediaCmd, TargetV, UserCmd, spec_owner_media_command, spec_pm_parts,
    spec_status_target, spec_target,
};
use crate::forever::mode_on;
use crate::owner::{
    anons_after, block_all_sends, cmd_anons, cmd_users, fast_each,
    media_each, owner_cmd_of, spec_block, spec_block_all, spec_block_id, spec_owner_media, spec_pm,
    spec_reply,
    spec_status, spec_unblock, users_after,
};
use crate::replies::{
    ANON_MARK, MediaKinds, NO_CAPTION, lemma_byte_prefix_narrow, lemma_reply_to_anon_text,
    spec_anon_text, spec_extract_target, spec_media_type, spec_resolve_target,
};
use crate::scan::{byte_prefix, spec_parse_i64, spec_starts_with};
use crate::storage::{BlockMgr, anon_key};
use crate::text::{dec_int, dec_nat, dec_pad4, lemma_dec_four_digits, lemma_dec_nat_digits};
use crate::user::{
    anon_delivery, code_key, code_saves, code_step, spec_anon_text_msg, spec_donation,
    spec_user_blocked, spec_user_cmd, spec_user_media, spec_user_text,
};

verus! {

/// The code of an anonymous sender, written after "anon", is read back as
/// that code.
proof fn lemma_anon_code_target(code: u16)
    requires
        is_code(code),
    ensures
        spec_target("anon"@ + dec_pad4(code as nat)) == TargetV::Anon(dec_pad4(code as nat)),
        byte_prefix(dec_pad4(code as nat), 4) == Some(dec_pad4(code as nat)),
{
    reveal_strlit("anon");
    let d = dec_pad4(code as nat);
    lemma_dec_four_digits(code as nat);
    lemma_dec_nat_digits(code as nat);
    assert forall|i: int| 0 <= i < d.len() implies (#[trigger] d[i] as u32) < 0x80 by {
        assert('0' <= d[i] <= '9');
    }
    lemma_byte_prefix_narrow(d, Seq::<char>::empty());
    assert(d + Seq::<char>::empty() =~= d);
    let t = "anon"@ + d;
    assert(t.subrange(4, t.len() as int) =~= d);
    assert(t.subrange(0, 4) =~= "anon"@);
}

/// The owner's answer to the copy of an anonymous text message reaches the
/// user registered behind the sender's code.
pub proof fn lemma_reply_reaches_anonymous_sender(
    code: u16,
    text: Seq<char>,
    owners: Map<Seq<char>, i64>,
    usernames: Map<Seq<char>, i64>,
    uid: i64,
)
    requires
        is_code(code),
        owners.contains_key(code_key(code)),
        owners[code_key(code)] == uid,
    ensures
        spec_extract_target(spec_anon_text(code, text)) == Some(code_key(code)),
        spec_resolve_target(code_key(code), owners, usernames) == Some(uid),
{
    reveal_strlit("anon");
    lemma_reply_to_anon_text(code, text);
    lemma_anon_code_target(code);
    let t = code_key(code);
    let d = dec_pad4(code as nat);
    assert(t.subrange(4, t.len() as int) =~= d);
    assert(t.subrange(0, 4) =~= "anon"@);
    assert(spec_starts_with(t, "anon"@));
}

/// A user keeps its code: asking again gives the code it already has.
pub proof fn lemma_code_kept(a0: AnonymousManager, a1: AnonymousManager, uid: i64)
    requires
        code_step(a0, a1, uid),
        a0.codes().contains_key(uid),
    ensures
        a1.codes()[uid] == a0.codes()[uid],
        a1.codes() == a0.codes(),
{
}

/// Blocking a target that was not blocked and then unblocking it gives back
/// the block lists as they were.
pub proof fn lemma_block_then_unblock(anons: Set<Seq<char>>, users: Set<Seq<char>>, t: Seq<char>)
    requires
        spec_target(t) matches TargetV::Anon(c) ==> !anons.contains(anon_key(c)),
        spec_target(t) matches TargetV::User(u) ==> !users.contains(u),
    ensures
        cmd_anons(cmd_anons(anons, OwnerCmd::Block(t)), OwnerCmd::Unblock(t)) == anons,
        cmd_users(cmd_users(users, OwnerCmd::Block(t)), OwnerCmd::Unblock(t)) == users,
{
    assert(anons_after(anons_after(anons, t, true), t, false) =~= anons);
    assert(users_after(users_after(users, t, true), t, false) =~= users);
}

/// A blocked user's message is answered with the ban notice and changes
/// nothing: no code, no registration, no record for broadcasts, no mode.
pub proof fn lemma_blocked_sender_only_told(
    c0: Core,
    c1: Core,
    cfg: Config,
    s: Sender,
    msg: Incoming,
    e0: Seq<Effect>,
    e1: Seq<Effect>,
)
    requires
        user_step(c0, c1, cfg, s, msg, e0, e1),
        spec_user_blocked(c0.block, s.id, opt_view(s.username)),
    ensures
        e1 == e0.push(Effect::Send(msg.chat, cfg.texts.banned@)),
        c1.anon == c0.anon,
        c1.block.owners() == c0.block.owners(),
        c1.block.anons() == c0.block.anons(),
        c1.block.users() == c0.block.users(),
        c1.block.ids() == c0.block.ids(),
        c1.bcast.all_users() == c0.bcast.all_users(),
        c1.bcast.usernames() == c0.bcast.usernames(),
        c1.forever.modes() == c0.forever.modes(),
{
    assert(e1 =~= e0.push(Effect::Send(msg.chat, cfg.texts.banned@)));
}

/// After the owner's "/block @name", every message of a user named `name`
/// is refused.
pub proof fn lemma_blocked_username_refused(
    c0: Core,
    c1: Core,
    cfg: Config,
    msg: Incoming,
    e0: Seq<Effect>,
    e1: Seq<Effect>,
    name: Seq<char>,
    uid: i64,
)
    requires
        owner_step(c0, c1, cfg, msg, e0, e1),
        owner_cmd_of(msg) == OwnerCmd::Block("@"@ + name),
    ensures
        spec_user_blocked(c1.block, uid, Some(name)),
{
    reveal_strlit("@");
    reveal_strlit("anon");
    let t = "@"@ + name;
    assert(t.subrange(0, 1) =~= "@"@);
    assert(t[0] == '@');
    assert(!spec_starts_with(t, "anon"@)) by {
        if spec_starts_with(t, "anon"@) {
            assert(t.subrange(0, 4)[0] == 'a');
        }
    }
    assert(spec_target(t) == TargetV::User(t));
    assert(c1.block.users().contains(t));
}

/// After the owner's "/block anon" with a code, the next anonymous message
/// of the holder of that code is refused with the ban notice.
pub proof fn lemma_blocked_code_refused(
    c0: Core,
    c1: Core,
    cfg: Config,
    msg: Incoming,
    e0: Seq<Effect>,
    e1: Seq<Effect>,
    code: u16,
    chat: i64,
    payload: Effect,
)
    requires
        owner_step(c0, c1, cfg, msg, e0, e1),
        owner_cmd_of(msg) == OwnerCmd::Block("anon"@ + dec_pad4(code as nat)),
        is_code(code),
    ensures
        c1.block.anons().contains(code_key(code)),
        anon_delivery(c1.block.anons(), cfg, chat, code, payload) == seq![
            Effect::Send(chat, cfg.texts.banned@),
        ],
{
    lemma_anon_code_target(code);
}

/// A mass mailing over a list makes, for the user at each position, one
/// request followed by a pause, in the list's order and nothing else; over
/// a list without repeats each user receives exactly one.
pub proof fn lemma_broadcast_each_once(token: Seq<char>, l: Seq<i64>, msg: Seq<char>)
    ensures
        fast_each(token, l, msg).len() == 2 * l.len(),
        forall|i: int|
            0 <= i < l.len() ==> fast_each(token, l, msg)[2 * i] == fast_effect(
                token,
                #[trigger] l[i],
                msg,
            ) && fast_each(token, l, msg)[2 * i + 1] == Effect::Pause,
    decreases l.len(),
{
    if l.len() > 0 {
        let p = l.drop_last();
        lemma_broadcast_each_once(token, p, msg);
        assert forall|i: int| 0 <= i < l.len() implies fast_each(token, l, msg)[2 * i]
            == fast_effect(token, #[trigger] l[i], msg) && fast_each(token, l, msg)[2 * i + 1]
            == Effect::Pause by {
            if i < p.len() {
                assert(p[i] == l[i]);
            }
        }
    }
}

/// After the owner's "/blockid" with an id, every message of that user is
/// refused, whatever its username.
pub proof fn lemma_blocked_id_refused(
    c0: Core,
    c1: Core,
    cfg: Config,
    msg: Incoming,
    e0: Seq<Effect>,
    e1: Seq<Effect>,
    arg: Seq<char>,
    uid: i64,
    name: Option<Seq<char>>,
)
    requires
        owner_step(c0, c1, cfg, msg, e0, e1),
        owner_cmd_of(msg) == OwnerCmd::BlockId(arg),
        spec_parse_i64(arg) == Some(uid),
    ensures
        spec_user_blocked(c1.block, uid, name),
{
}

/// `/status` with a registered anonymous code answers whether that code
/// itself is blocked: "Да" exactly when its key is among the blocked
/// anonymous keys.
pub proof fn lemma_status_of_code_is_its_block(
    block: BlockMgr,
    bcast: BroadcastManager,
    cfg: Config,
    cid: i64,
    code: u16,
)
    requires
        is_code(code),
        block.owners().contains_key(code_key(code)),
    ensures
        spec_status(block, bcast, cfg, cid, "anon"@ + dec_pad4(code as nat)) == seq![
            Effect::Send(
                cid,
                "📊 Аноним #"@ + dec_pad4(code as nat) + "\n\n🚫 Заблокирован: "@ + if block.anons().contains(
                    code_key(code),
                ) {
                    "Да"@
                } else {
                    "Нет"@
                },
            ),
        ],
{
    lemma_anon_code_target(code);
}

/// After the owner's "/block anon" with a registered code, `/status` of that
/// code answers that it is blocked.
pub proof fn lemma_status_after_block(
    c0: Core,
    c1: Core,
    cfg: Config,
    msg: Incoming,
    e0: Seq<Effect>,
    e1: Seq<Effect>,
    code: u16,
    cid: i64,
)
    requires
        owner_step(c0, c1, cfg, msg, e0, e1),
        owner_cmd_of(msg) == OwnerCmd::Block("anon"@ + dec_pad4(code as nat)),
        is_code(code),
        c0.block.owners().contains_key(code_key(code)),
    ensures
        spec_status(c1.block, c1.bcast, cfg, cid, "anon"@ + dec_pad4(code as nat)) == seq![
            Effect::Send(cid, "📊 Аноним #"@ + dec_pad4(code as nat) + "\n\n🚫 Заблокирован: Да"@),
        ],
{
    lemma_anon_code_target(code);
    lemma_status_of_code_is_its_block(c1.block, c1.bcast, cfg, cid, code);
    reveal_strlit("\n\n🚫 Заблокирован: ");
    reveal_strlit("Да");
    reveal_strlit("\n\n🚫 Заблокирован: Да");
    assert("\n\n🚫 Заблокирован: "@ + "Да"@ =~= "\n\n🚫 Заблокирован: Да"@);
    let d = dec_pad4(code as nat);
    assert("📊 Аноним #"@ + d + "\n\n🚫 Заблокирован: "@ + "Да"@ =~= "📊 Аноним #"@ + d
        + "\n\n🚫 Заблокирован: Да"@);
}

/// In "always anonymous" mode, media from a user whose code is not blocked
/// goes to the owner with the user's own caption after "💡 Подпись: ", and
/// with "(без подписи)" only when it has none; the user is told its code.
pub proof fn lemma_anonymous_media_keeps_caption(
    anon: AnonymousManager,
    block: BlockMgr,
    modes: Map<i64, bool>,
    cfg: Config,
    chat: i64,
    uid: i64,
    username: Option<Seq<char>>,
    caption: Option<Seq<char>>,
    media: MediaKinds,
    code: u16,
)
    requires
        mode_on(modes, uid),
        !block.anons().contains(code_key(code)),
    ensures
        spec_user_media(anon, block, modes, cfg, chat, uid, username, caption, media, code)
            == code_saves(anon.codes(), uid) + seq![
            Effect::Media(
                cfg.owner,
                spec_media_type(media) + " от "@ + ANON_MARK@ + dec_pad4(code as nat)
                    + "\n💡 Подпись: "@ + match caption {
                    Some(c) => c,
                    None => NO_CAPTION@,
                },
            ),
            Effect::Send(chat, cfg.texts.sent_anon@ + "! Код: #"@ + dec_pad4(code as nat)),
        ],
{
}

/// A media "/pm" to "anon" and a registered code goes to the user
/// registered behind that code, the same registration that text messages
/// and replies use, and the owner is told.
pub proof fn lemma_media_pm_reaches_code_owner(
    block: BlockMgr,
    bcast: BroadcastManager,
    cfg: Config,
    cid: i64,
    cap: Seq<char>,
    l: Seq<i64>,
    code: u16,
    text: Seq<char>,
)
    requires
        is_code(code),
        spec_owner_media_command(cap) == OwnerMediaCmd::Pm("anon"@ + dec_pad4(code as nat), text),
        block.owners().contains_key(code_key(code)),
    ensures
        spec_owner_media(block, bcast, cfg, cid, cap, l) == seq![
            Effect::Media(
                block.owners()[code_key(code)],
                if text.len() == 0 {
                    "💬 "@ + cfg.texts.from_author@
                } else {
                    "💬 "@ + cfg.texts.from_author@ + ":\n"@ + text
                },
            ),
            Effect::Send(
                cid,
                "✅ "@ + ("anon"@ + dec_pad4(code as nat)) + " (медиа) отправлено!"@,
            ),
        ],
{
    lemma_anon_code_target(code);
}

/// A media mailing over a list sends, for the user at each position, one
/// copy followed by a pause, in the list's order and nothing else; over a
/// list without repeats each user receives exactly one copy.
pub proof fn lemma_media_mailing_each_once(l: Seq<i64>, caption: Seq<char>)
    ensures
        media_each(l, caption).len() == 2 * l.len(),
        forall|i: int|
            0 <= i < l.len() ==> media_each(l, caption)[2 * i] == Effect::Media(
                #[trigger] l[i],
                caption,
            ) && media_each(l, caption)[2 * i + 1] == Effect::Pause,
    decreases l.len(),
{
    if l.len() > 0 {
        let p = l.drop_last();
        lemma_media_mailing_each_once(p, caption);
        assert forall|i: int| 0 <= i < l.len() implies media_each(l, caption)[2 * i]
            == Effect::Media(#[trigger] l[i], caption) && media_each(l, caption)[2 * i + 1]
            == Effect::Pause by {
            if i < p.len() {
                assert(p[i] == l[i]);
            }
        }
    }
}

/// The engine requests of the requests of `/blockall` over a list each go
/// to a user of the list not blocked before, with `msg`; and every such
/// user gets one.
proof fn lemma_block_all_sends_shape(ids: Set<i64>, l: Seq<i64>, token: Seq<char>, msg: Seq<char>)
    ensures
        forall|i: int|
            0 <= i < block_all_sends(ids, l, token, msg).len() && (#[trigger] block_all_sends(
                ids,
                l,
                token,
                msg,
            )[i]) is Fast ==> exists|u: i64|
                l.contains(u) && !ids.contains(u) && block_all_sends(ids, l, token, msg)[i]
                    == fast_effect(token, u, msg),
        forall|u: i64|
            l.contains(u) && !ids.contains(u) ==> #[trigger] block_all_sends(
                ids,
                l,
                token,
                msg,
            ).contains(fast_effect(token, u, msg)),
    decreases l.len(),
{
    let e = block_all_sends(ids, l, token, msg);
    if l.len() > 0 {
        let p = l.drop_last();
        let ep = block_all_sends(ids, p, token, msg);
        lemma_block_all_sends_shape(ids, p, token, msg);
        assert forall|u: i64| #[trigger] p.contains(u) implies l.contains(u) by {
            let k = choose|k: int| 0 <= k < p.len() && p[k] == u;
            assert(l[k] == u);
        }
        assert forall|i: int| 0 <= i < e.len() && (#[trigger] e[i]) is Fast implies exists|u: i64|
            l.contains(u) && !ids.contains(u) && e[i] == fast_effect(token, u, msg) by {
            if i < ep.len() {
                assert(e[i] == ep[i]);
                let u = choose|u: i64|
                    p.contains(u) && !ids.contains(u) && ep[i] == fast_effect(token, u, msg);
                assert(l.contains(u));
            } else {
                assert(e[i] == fast_effect(token, l.last(), msg));
                assert(l.contains(l[l.len() - 1]));
            }
        }
        assert forall|u: i64| l.contains(u) && !ids.contains(u) implies #[trigger] e.contains(
            fast_effect(token, u, msg),
        ) by {
            let k = choose|k: int| 0 <= k < l.len() && l[k] == u;
            if k < p.len() {
                assert(p[k] == u);
                assert(p.contains(u));
                assert(ep.contains(fast_effect(token, u, msg)));
                let j = choose|j: int| 0 <= j < ep.len() && ep[j] == fast_effect(token, u, msg);
                assert(e[j] == ep[j]);
                assert(0 <= j < e.len() && e[j] == fast_effect(token, u, msg));
            } else {
                assert(e[ep.len() as int + 1] == fast_effect(token, u, msg));
            }
        }
    }
}

/// Every engine request of `/blockall` carries the "you are blocked"
/// notice to a user of the list that the command newly blocks, and every
/// user it newly blocks gets that notice.
pub proof fn lemma_block_all_notifies_blocked(ids: Set<i64>, cfg: Config, cid: i64, l: Seq<i64>)
    ensures
        forall|i: int|
            0 <= i < spec_block_all(ids, cfg, cid, l).len() && (#[trigger] spec_block_all(
                ids,
                cfg,
                cid,
                l,
            )[i]) is Fast ==> exists|u: i64|
                l.contains(u) && !ids.contains(u) && spec_block_all(ids, cfg, cid, l)[i]
                    == fast_effect(cfg.token@, u, cfg.texts.you_blocked@),
        forall|u: i64|
            l.contains(u) && !ids.contains(u) ==> #[trigger] spec_block_all(
                ids,
                cfg,
                cid,
                l,
            ).contains(fast_effect(cfg.token@, u, cfg.texts.you_blocked@)),
{
    let token = cfg.token@;
    let msg = cfg.texts.you_blocked@;
    let sends = block_all_sends(ids, l, token, msg);
    let e = spec_block_all(ids, cfg, cid, l);
    lemma_block_all_sends_shape(ids, l, token, msg);
    assert forall|i: int| 0 <= i < e.len() && (#[trigger] e[i]) is Fast implies exists|u: i64|
        l.contains(u) && !ids.contains(u) && e[i] == fast_effect(token, u, msg) by {
        assert(i < sends.len());
        assert(e[i] == sends[i]);
    }
    assert forall|u: i64| l.contains(u) && !ids.contains(u) implies #[trigger] e.contains(
        fast_effect(token, u, msg),
    ) by {
        assert(sends.contains(fast_effect(token, u, msg)));
        let j = choose|j: int| 0 <= j < sends.len() && sends[j] == fast_effect(token, u, msg);
        assert(e[j] == sends[j]);
        assert(0 <= j < e.len() && e[j] == fast_effect(token, u, msg));
    }
}

/// "Да" for true, "Нет" for false: the answer a status line gives.
pub open spec fn answer(b: bool) -> Seq<char> {
    if b {
        "Да"@
    } else {
        "Нет"@
    }
}

/// `/status @name` of a known username answers whether the user behind it
/// is blocked by id and whether it receives broadcasts.
pub proof fn lemma_status_of_user(
    block: BlockMgr,
    bcast: BroadcastManager,
    cfg: Config,
    cid: i64,
    name: Seq<char>,
)
    requires
        bcast.usernames().contains_key(name),
    ensures
        ({
            let uid = bcast.usernames()[name];
            spec_status(block, bcast, cfg, cid, "@"@ + name) == seq![
                Effect::Send(
                    cid,
                    "📊 Юзер "@ + ("@"@ + name) + "\n\n🚫 Заблокирован: "@ + answer(
                        block.ids().contains(uid),
                    ) + "\n📢 В рассылке: "@ + answer(
                        bcast.all_users().contains(uid) && !bcast.unsubscribed().contains(uid),
                    ),
                ),
            ]
        }),
{
    reveal_strlit("@");
    reveal_strlit("anon");
    let t = "@"@ + name;
    assert(t[0] == '@');
    assert(t.subrange(0, 1) =~= "@"@);
    assert(t.subrange(1, t.len() as int) =~= name);
    assert(!spec_starts_with(t, "anon"@)) by {
        if spec_starts_with(t, "anon"@) {
            assert(t.subrange(0, 4)[0] == 'a');
        }
    }
}

/// `/status ID` answers whether the id is blocked and whether it receives
/// broadcasts.
pub proof fn lemma_status_of_id(
    block: BlockMgr,
    bcast: BroadcastManager,
    cfg: Config,
    cid: i64,
    t: Seq<char>,
    id: i64,
)
    requires
        spec_status_target(t) == TargetV::Id(id),
    ensures
        spec_status(block, bcast, cfg, cid, t) == seq![
            Effect::Send(
                cid,
                "📊 ID: "@ + dec_int(id as int) + "\n🚫 Заблокирован: "@ + answer(
                    block.ids().contains(id),
                ) + "\n📢 В рассылке: "@ + answer(
                    bcast.all_users().contains(id) && !bcast.unsubscribed().contains(id),
                ),
            ),
        ],
{
}

/// `/block` of a registered code not blocked yet blocks it, writes the
/// store out, tells the user behind it it is blocked, and tells the owner;
/// `/unblock` of a blocked registered code does the same with the
/// "unblocked" texts.
pub proof fn lemma_block_code_notifies(block: BlockMgr, cfg: Config, cid: i64, code: u16)
    requires
        is_code(code),
        block.owners().contains_key(code_key(code)),
    ensures
        !block.anons().contains(code_key(code)) ==> spec_block(
            block,
            cfg,
            cid,
            "anon"@ + dec_pad4(code as nat),
        ) == seq![
            Effect::SaveBlocks,
            fast_effect(cfg.token@, block.owners()[code_key(code)], cfg.texts.you_blocked@),
            Effect::Send(cid, cfg.texts.block_ok@ + " Аноним #"@ + dec_pad4(code as nat)),
        ],
        block.anons().contains(code_key(code)) ==> spec_unblock(
            block,
            cfg,
            cid,
            "anon"@ + dec_pad4(code as nat),
        ) == seq![
            Effect::SaveBlocks,
            fast_effect(cfg.token@, block.owners()[code_key(code)], cfg.texts.you_unblocked@),
            Effect::Send(cid, cfg.texts.unblock_ok@ + " Аноним #"@ + dec_pad4(code as nat)),
        ],
{
    lemma_anon_code_target(code);
}

/// `/blockid` of an id not blocked yet writes the store out, tells that
/// user it is blocked, and tells the owner; `/unblockid` of a blocked id
/// does the same with the "unblocked" texts.
pub proof fn lemma_block_id_notifies(block: BlockMgr, cfg: Config, cid: i64, arg: Seq<char>, id: i64)
    requires
        spec_parse_i64(arg) == Some(id),
    ensures
        !block.ids().contains(id) ==> spec_block_id(block, cfg, cid, arg, true) == seq![
            Effect::SaveBlocks,
            fast_effect(cfg.token@, id, cfg.texts.you_blocked@),
            Effect::Send(cid, cfg.texts.block_ok@ + " ID: "@ + dec_int(id as int)),
        ],
        block.ids().contains(id) ==> spec_block_id(block, cfg, cid, arg, false) == seq![
            Effect::SaveBlocks,
            fast_effect(cfg.token@, id, cfg.texts.you_unblocked@),
            Effect::Send(cid, cfg.texts.unblock_ok@ + " ID: "@ + dec_int(id as int)),
        ],
{
}

/// `/pm` to "anon" and a registered code sends the text, from the owner,
/// to the user registered behind the code.
pub proof fn lemma_pm_reaches_code_owner(
    block: BlockMgr,
    bcast: BroadcastManager,
    cfg: Config,
    cid: i64,
    args: Seq<char>,
    code: u16,
    text: Seq<char>,
)
    requires
        is_code(code),
        spec_pm_parts(args) == Some(("anon"@ + dec_pad4(code as nat), text)),
        block.owners().contains_key(code_key(code)),
    ensures
        spec_pm(block, bcast, cfg, cid, args) == seq![
            fast_effect(
                cfg.token@,
                block.owners()[code_key(code)],
                "💬 "@ + cfg.texts.from_author@ + ":\n"@ + text,
            ),
            Effect::Send(cid, "✅ Анониму #"@ + dec_pad4(code as nat) + " отправлено!"@),
        ],
{
    lemma_anon_code_target(code);
}

/// `/pm @name` with a known username sends the text, from the owner, to the
/// user last seen under it.
pub proof fn lemma_pm_reaches_user(
    block: BlockMgr,
    bcast: BroadcastManager,
    cfg: Config,
    cid: i64,
    args: Seq<char>,
    name: Seq<char>,
    text: Seq<char>,
)
    requires
        spec_pm_parts(args) == Some(("@"@ + name, text)),
        bcast.usernames().contains_key(name),
    ensures
        spec_pm(block, bcast, cfg, cid, args) == seq![
            fast_effect(
                cfg.token@,
                bcast.usernames()[name],
                "💬 "@ + cfg.texts.from_author@ + ":\n"@ + text,
            ),
            Effect::Send(cid, "✅ @"@ + name + " отправлено!"@),
        ],
{
    reveal_strlit("@");
    reveal_strlit("anon");
    let t = "@"@ + name;
    assert(t[0] == '@');
    assert(t.subrange(0, 1) =~= "@"@);
    assert(t.subrange(1, t.len() as int) =~= name);
    assert(!spec_starts_with(t, "anon"@)) by {
        if spec_starts_with(t, "anon"@) {
            assert(t.subrange(0, 4)[0] == 'a');
        }
    }
}

/// The owner's text reply to the copy of an anonymous message goes, from
/// the owner, to the user registered behind the sender's code, and the
/// owner is told.
pub proof fn lemma_text_reply_to_anonymous_copy(
    block: BlockMgr,
    bcast: BroadcastManager,
    cfg: Config,
    cid: i64,
    code: u16,
    text: Seq<char>,
    msg: Incoming,
    answer_text: Seq<char>,
)
    requires
        is_code(code),
        block.owners().contains_key(code_key(code)),
        opt_view(msg.text) == Some(answer_text),
    ensures
        spec_reply(block, bcast, cfg, cid, spec_anon_text(code, text), msg) == seq![
            fast_effect(
                cfg.token@,
                block.owners()[code_key(code)],
                "💬 "@ + cfg.texts.from_author@ + ":\n"@ + answer_text,
            ),
            Effect::Send(cid, "✅ "@ + code_key(code) + " отправлено!"@),
        ],
{
    lemma_reply_reaches_anonymous_sender(
        code,
        text,
        block.owners(),
        bcast.usernames(),
        block.owners()[code_key(code)],
    );
}

/// An anonymous text of a user whose code is not blocked goes to the owner
/// under that code, and the user is told its code; a user whose code is
/// blocked is only told so (after its code is registered).
pub proof fn lemma_anonymous_text_delivery(
    anon: AnonymousManager,
    block: BlockMgr,
    cfg: Config,
    chat: i64,
    uid: i64,
    text: Seq<char>,
    code: u16,
)
    ensures
        !block.anons().contains(code_key(code)) ==> spec_anon_text_msg(
            anon,
            block,
            cfg,
            chat,
            uid,
            text,
            code,
        ) == code_saves(anon.codes(), uid) + seq![
            fast_effect(
                cfg.token@,
                cfg.owner,
                "💡 Анонимное сообщение от "@ + ANON_MARK@ + dec_pad4(code as nat) + ":\n"@ + text,
            ),
            Effect::Send(chat, cfg.texts.sent_anon@ + "! Код: #"@ + dec_pad4(code as nat)),
        ],
        block.anons().contains(code_key(code)) ==> spec_anon_text_msg(
            anon,
            block,
            cfg,
            chat,
            uid,
            text,
            code,
        ) == code_saves(anon.codes(), uid) + seq![Effect::Send(chat, cfg.texts.banned@)],
{
}

/// A user's plain text that is no command and no donation goes, outside
/// "always anonymous" mode, to the owner with the text and the sender's
/// name; the user is told.
pub proof fn lemma_named_text_delivery(
    anon: AnonymousManager,
    block: BlockMgr,
    modes: Map<i64, bool>,
    cfg: Config,
    chat: i64,
    uid: i64,
    username: Option<Seq<char>>,
    text: Seq<char>,
    code: u16,
)
    requires
        !spec_starts_with(text, "/"@),
        spec_donation(text) is None,
        !mode_on(modes, uid),
    ensures
        spec_user_text(anon, block, modes, cfg, chat, uid, username, text, code) == seq![
            fast_effect(
                cfg.token@,
                cfg.owner,
                "💡 Сообщение от пользователя:\n"@ + text + "\n\n👤 "@ + match username {
                    Some(n) => "@"@ + n,
                    None => "Неизвестный"@,
                },
            ),
            Effect::Send(chat, cfg.texts.sent_norm@),
        ],
{
}

/// A number from 1 to 10000, written as a user's plain text, is answered
/// with an invoice for that many stars and goes nowhere else.
pub proof fn lemma_number_is_donation(
    anon: AnonymousManager,
    block: BlockMgr,
    modes: Map<i64, bool>,
    cfg: Config,
    chat: i64,
    uid: i64,
    username: Option<Seq<char>>,
    text: Seq<char>,
    code: u16,
    stars: u32,
)
    requires
        !spec_starts_with(text, "/"@),
        spec_donation(text) == Some(stars),
    ensures
        1 <= stars <= 10000,
        spec_user_text(anon, block, modes, cfg, chat, uid, username, text, code) == seq![
            Effect::Invoice(chat, stars),
        ],
{
}

/// `/code` tells a user with a code that code, and a user without one that
/// it has none yet.
pub proof fn lemma_code_command_tells_code(
    anon: AnonymousManager,
    block: BlockMgr,
    modes: Map<i64, bool>,
    cfg: Config,
    chat: i64,
    uid: i64,
    code: u16,
)
    ensures
        anon.codes().contains_key(uid) ==> spec_user_cmd(
            anon,
            block,
            modes,
            cfg,
            chat,
            uid,
            UserCmd::Code,
            code,
        ) == seq![Effect::Send(chat, "🔑 Твой код: #"@ + dec_pad4(anon.codes()[uid] as nat))],
        !anon.codes().contains_key(uid) ==> spec_user_cmd(
            anon,
            block,
            modes,
            cfg,
            chat,
            uid,
            UserCmd::Code,
            code,
        ) == seq![
            Effect::Send(chat, "❌ Сначала отправь хотя бы одно анонимное сообщение через /noone"@),
        ],
{
}

/// A media mailing with a text sends every target the media with the
/// owner's heading and the text (the heading alone without a text),
/// between the owner's two notices of how many it goes to.
pub proof fn lemma_media_mailing_caption(
    block: BlockMgr,
    bcast: BroadcastManager,
    cfg: Config,
    cid: i64,
    cap: Seq<char>,
    l: Seq<i64>,
    text: Seq<char>,
)
    requires
        spec_owner_media_command(cap) == OwnerMediaCmd::Bcast(text),
        l.len() > 0,
    ensures
        spec_owner_media(block, bcast, cfg, cid, cap, l) == seq![
            Effect::Send(cid, "📢 Рассылка (медиа) для "@ + dec_nat(l.len()) + " юзеров..."@),
        ] + media_each(
            l,
            if text.len() == 0 {
                "📢 Рассылка от владельца"@
            } else {
                "📢 Рассылка от владельца:\n\n"@ + text
            },
        ) + seq![Effect::Send(cid, "✅ Отправлено (медиа): "@ + dec_nat(l.len()))],
{
}

} // verus!
