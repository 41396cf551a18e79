use vstd::prelude::*;
use vstd::string::{StrSliceExecFns, StringExecFns};
use crate::actions::{
    Action, Config, Effect, Incoming, carries_media, effects, emit, emit_fast, emit_media,
    emit_send, fast_effect, opt_view, or_empty, replied_text,
};
use crate::broadcast::{BroadcastManager, broadcast_targets};
use crate::commands::{
    OwnerCmd, OwnerCommand, OwnerMediaCmd, OwnerMediaCommand, Target, TargetV, UsageOf,
    classify_status_target, classify_target, parse_owner_command, parse_owner_media_caption,
    pm_parts, spec_owner_command, spec_owner_media_command, spec_pm_parts, spec_status_target,
    spec_target,
};
use crate::replies::{
    author_message, extract_target_from_reply, has_media, lemma_extracted_sliceable,
    resolve_target_to_uid, spec_author_message, spec_extract_target, spec_resolve_target,
};
use crate::scan::{parse_i64, spec_parse_i64};
use crate::storage::{BlockMgr, anon_key};
use crate::text::{cat2, cat3, cat4, cat6, dec_int, dec_nat, fmt_i64, fmt_u64};

verus! {

/// The owner's help text.
pub const OWNER_HELP: &'static str = "👑 Админ-панель:\n\n/status @user или anonXXXX - инфо о юзере\n/pm @user текст - личное сообщение\n/bcast текст - рассылка всем\n/block @user или anonXXXX - заблокировать\n/unblock @user или anonXXXX - разблокировать\n/blockid ID - блок по ID\n/unblockid ID - разблок по ID\n/blockall - заблокировать всех\n\nОтветь на сообщение чтобы ответить юзеру\nОтправь медиа с /pm или /bcast в подписи";

/// The hint for `/status` without a target.
pub const USAGE_STATUS: &'static str = "❌ /status @user или /status anonXXXX или /status ID";

/// The hint for `/bcast` without a text.
pub const USAGE_BCAST: &'static str = "❌ /bcast текст (или отправь с медиа)";

/// The hint for `/pm` without arguments.
pub const USAGE_PM: &'static str = "❌ /pm @user текст или /pm anonXXXX текст (или с медиа)";

/// The hint for `/block` without a target.
pub const USAGE_BLOCK: &'static str = "❌ /block @user или /block anonXXXX";

/// The hint for `/unblock` without a target.
pub const USAGE_UNBLOCK: &'static str = "❌ /unblock @user или /unblock anonXXXX";

/// The hint for `/blockid` without an id.
pub const USAGE_BLOCK_ID: &'static str = "❌ /blockid ID";

/// The hint for `/unblockid` without an id.
pub const USAGE_UNBLOCK_ID: &'static str = "❌ /unblockid ID";

/// The answer to `/blockid` or `/unblockid` with something that is no id.
pub const ID_TARGET: &'static str = "❌ Укажи ID";

/// The hint for `/pm` with a target and no text.
pub const PM_FORMAT: &'static str = "❌ /pm @user текст или /pm anonXXXX текст";

/// The answer to a target that is neither a code nor a username.
pub const NAME_TARGET: &'static str = "❌ Укажи @user или anonXXXX";

/// The answer to a `/status` target that is no code, username or id.
pub const STATUS_TARGET: &'static str = "❌ Укажи @user, anonXXXX или ID";

/// The answer to a mass mailing with nobody to send to.
pub const NO_USERS: &'static str = "📭 Нет юзеров";

/// The head of a mass mailing's text.
pub const BCAST_HEAD: &'static str = "📢 Рассылка от владельца:\n\n";

/// The hint for a usage mistake.
pub open spec fn usage_text(u: UsageOf) -> Seq<char> {
    match u {
        UsageOf::Status => USAGE_STATUS@,
        UsageOf::Bcast => USAGE_BCAST@,
        UsageOf::Pm => USAGE_PM@,
        UsageOf::Block => USAGE_BLOCK@,
        UsageOf::Unblock => USAGE_UNBLOCK@,
        UsageOf::BlockId => USAGE_BLOCK_ID@,
        UsageOf::UnblockId => USAGE_UNBLOCK_ID@,
    }
}

/// "Да" or "Нет".
pub open spec fn spec_yes_no(b: bool) -> Seq<char> {
    if b {
        "Да"@
    } else {
        "Нет"@
    }
}

/// "Да" or "Нет".
pub fn yes_no(b: bool) -> (s: &'static str)
    ensures
        s@ == spec_yes_no(b),
{
    if b {
        "Да"
    } else {
        "Нет"
    }
}

/// Whether `x` is in the list.
pub fn list_has(list: &Vec<i64>, x: i64) -> (b: bool)
    ensures
        b == list@.contains(x),
{
    let mut i: usize = 0;
    while i < list.len()
        invariant
            i <= list@.len(),
            forall|j: int| 0 <= j < i ==> list@[j] != x,
        decreases list@.len() - i,
    {
        if list[i] == x {
            return true;
        }
        i = i + 1;
    }
    false
}

/// A list of every broadcast target, each once: what `get_broadcast_list`
/// gives, in some order.
pub open spec fn is_target_list(bcast: BroadcastManager, l: Seq<i64>) -> bool {
    &&& l.to_set() == broadcast_targets(bcast.all_users(), bcast.unsubscribed())
    &&& l.no_duplicates()
}

/// Whether `uid` receives broadcasts.
pub open spec fn in_broadcast(bcast: BroadcastManager, uid: i64) -> bool {
    broadcast_targets(bcast.all_users(), bcast.unsubscribed()).contains(uid)
}

/// `/status anonXXXX`: whether the code is blocked, if it is registered.
pub open spec fn spec_anon_status(block: BlockMgr, cfg: Config, cid: i64, code: Seq<char>) -> Seq<
    Effect,
> {
    if block.owners().contains_key(anon_key(code)) {
        seq![
            Effect::Send(
                cid,
                "📊 Аноним #"@ + code + "\n\n🚫 Заблокирован: "@ + spec_yes_no(
                    block.anons().contains(anon_key(code)),
                ),
            ),
        ]
    } else {
        seq![Effect::Send(cid, cfg.texts.not_found@)]
    }
}

/// `/status @user`: whether the user is blocked by id and receives
/// broadcasts, if the username is known.
pub open spec fn spec_user_status(
    block: BlockMgr,
    bcast: BroadcastManager,
    cfg: Config,
    cid: i64,
    t: Seq<char>,
) -> Seq<Effect> {
    let name = t.subrange(1, t.len() as int);
    if bcast.usernames().contains_key(name) {
        let uid = bcast.usernames()[name];
        seq![
            Effect::Send(
                cid,
                "📊 Юзер "@ + t + "\n\n🚫 Заблокирован: "@ + spec_yes_no(block.ids().contains(uid))
                    + "\n📢 В рассылке: "@ + spec_yes_no(in_broadcast(bcast, uid)),
            ),
        ]
    } else {
        seq![Effect::Send(cid, cfg.texts.not_found@)]
    }
}

/// `/status ID`: whether the id is blocked and receives broadcasts.
pub open spec fn spec_id_status(block: BlockMgr, bcast: BroadcastManager, cid: i64, uid: i64) -> Seq<
    Effect,
> {
    seq![
        Effect::Send(
            cid,
            "📊 ID: "@ + dec_int(uid as int) + "\n🚫 Заблокирован: "@ + spec_yes_no(
                block.ids().contains(uid),
            ) + "\n📢 В рассылке: "@ + spec_yes_no(in_broadcast(bcast, uid)),
        ),
    ]
}

/// `/status` with a target.
pub open spec fn spec_status(
    block: BlockMgr,
    bcast: BroadcastManager,
    cfg: Config,
    cid: i64,
    t: Seq<char>,
) -> Seq<Effect> {
    match spec_status_target(t) {
        TargetV::Anon(code) => spec_anon_status(block, cfg, cid, code),
        TargetV::User(u) => spec_user_status(block, bcast, cfg, cid, u),
        TargetV::Id(uid) => spec_id_status(block, bcast, cid, uid),
        TargetV::Invalid => seq![Effect::Send(cid, STATUS_TARGET@)],
    }
}

/// Answers `/status anonXXXX`.
pub fn show_anon_status(out: &mut Vec<Action>, block: &BlockMgr, cfg: &Config, cid: i64, code: &str)
    requires
        block.wf(),
    ensures
        effects(final(out)@) == effects(old(out)@) + spec_anon_status(*block, *cfg, cid, code@),
{
    match block.get_by_anon(code) {
        Some(_) => {
            let blocked = block.is_anon_blocked(code);
            let msg = cat4("📊 Аноним #", code, "\n\n🚫 Заблокирован: ", yes_no(blocked));
            emit_send(out, cid, msg);
        },
        None => {
            emit_send(out, cid, cfg.texts.not_found.clone());
        },
    }
}

/// Answers `/status @user`.
pub fn show_user_status(
    out: &mut Vec<Action>,
    block: &BlockMgr,
    bcast: &BroadcastManager,
    cfg: &Config,
    cid: i64,
    target: &str,
)
    requires
        block.wf(),
        bcast.wf(),
        target@.len() >= 1,
    ensures
        effects(final(out)@) == effects(old(out)@) + spec_user_status(
            *block,
            *bcast,
            *cfg,
            cid,
            target@,
        ),
{
    let n = target.unicode_len();
    let name = target.substring_char(1, n);
    match bcast.get_user_by_username(name) {
        Some(uid) => {
            let blocked = block.is_id_blocked(uid);
            let list = bcast.get_broadcast_list();
            let in_list = list_has(&list, uid);
            proof {
                assert(list@.contains(uid) <==> list@.to_set().contains(uid));
            }
            let msg = cat6(
                "📊 Юзер ",
                target,
                "\n\n🚫 Заблокирован: ",
                yes_no(blocked),
                "\n📢 В рассылке: ",
                yes_no(in_list),
            );
            emit_send(out, cid, msg);
        },
        None => {
            emit_send(out, cid, cfg.texts.not_found.clone());
        },
    }
}

/// Answers `/status ID`.
pub fn show_id_status(
    out: &mut Vec<Action>,
    block: &BlockMgr,
    bcast: &BroadcastManager,
    cid: i64,
    uid: i64,
)
    ensures
        effects(final(out)@) == effects(old(out)@) + spec_id_status(*block, *bcast, cid, uid),
{
    let blocked = block.is_id_blocked(uid);
    let list = bcast.get_broadcast_list();
    let in_list = list_has(&list, uid);
    proof {
        assert(list@.contains(uid) <==> list@.to_set().contains(uid));
    }
    let id = fmt_i64(uid);
    let msg = cat6(
        "📊 ID: ",
        id.as_str(),
        "\n🚫 Заблокирован: ",
        yes_no(blocked),
        "\n📢 В рассылке: ",
        yes_no(in_list),
    );
    emit_send(out, cid, msg);
}

/// Answers `/status` with a target.
pub fn status_cmd(
    out: &mut Vec<Action>,
    block: &BlockMgr,
    bcast: &BroadcastManager,
    cfg: &Config,
    cid: i64,
    target: &str,
)
    requires
        block.wf(),
        bcast.wf(),
    ensures
        effects(final(out)@) == effects(old(out)@) + spec_status(*block, *bcast, *cfg, cid, target@),
{
    match classify_status_target(target) {
        Target::Anon(code) => show_anon_status(out, block, cfg, cid, code.as_str()),
        Target::User(u) => {
            proof {
                reveal_strlit("@");
            }
            show_user_status(out, block, bcast, cfg, cid, u.as_str())
        },
        Target::Id(uid) => show_id_status(out, block, bcast, cid, uid),
        Target::Invalid => emit_send(out, cid, String::from_str(STATUS_TARGET)),
    }
}

/// `/pm target text`: the owner's text goes to the registered anonymous
/// sender or the known user, and the owner is told.
pub open spec fn spec_pm(
    block: BlockMgr,
    bcast: BroadcastManager,
    cfg: Config,
    cid: i64,
    args: Seq<char>,
) -> Seq<Effect> {
    match spec_pm_parts(args) {
        None => seq![Effect::Send(cid, PM_FORMAT@)],
        Some((target, text)) => {
            let msg = spec_author_message(cfg.texts.from_author@, text);
            match spec_target(target) {
                TargetV::Anon(code) => {
                    let k = anon_key(code);
                    if block.owners().contains_key(k) {
                        seq![
                            fast_effect(cfg.token@, block.owners()[k], msg),
                            Effect::Send(cid, "✅ Анониму #"@ + code + " отправлено!"@),
                        ]
                    } else {
                        seq![Effect::Send(cid, cfg.texts.not_found@)]
                    }
                },
                TargetV::User(u) => {
                    let name = u.subrange(1, u.len() as int);
                    if bcast.usernames().contains_key(name) {
                        seq![
                            fast_effect(cfg.token@, bcast.usernames()[name], msg),
                            Effect::Send(cid, "✅ @"@ + name + " отправлено!"@),
                        ]
                    } else {
                        seq![Effect::Send(cid, cfg.texts.not_found@)]
                    }
                },
                _ => seq![Effect::Send(cid, NAME_TARGET@)],
            }
        },
    }
}

/// Answers `/pm` with arguments.
pub fn pm_cmd(
    out: &mut Vec<Action>,
    block: &BlockMgr,
    bcast: &BroadcastManager,
    cfg: &Config,
    cid: i64,
    args: &str,
)
    requires
        block.wf(),
        bcast.wf(),
    ensures
        effects(final(out)@) == effects(old(out)@) + spec_pm(*block, *bcast, *cfg, cid, args@),
{
    proof {
        reveal_strlit("@");
    }
    match pm_parts(args) {
        None => emit_send(out, cid, String::from_str(PM_FORMAT)),
        Some((target, text)) => {
            let msg = author_message(cfg.texts.from_author.as_str(), text);
            match classify_target(target) {
                Target::Anon(code) => match block.get_by_anon(code.as_str()) {
                    Some(uid) => {
                        emit_fast(out, cfg.token.as_str(), uid, msg.as_str());
                        emit_send(out, cid, cat3("✅ Анониму #", code.as_str(), " отправлено!"));
                    },
                    None => emit_send(out, cid, cfg.texts.not_found.clone()),
                },
                Target::User(u) => {
                    let n = u.as_str().unicode_len();
                    let name = u.as_str().substring_char(1, n);
                    match bcast.get_user_by_username(name) {
                        Some(uid) => {
                            emit_fast(out, cfg.token.as_str(), uid, msg.as_str());
                            emit_send(out, cid, cat3("✅ @", name, " отправлено!"));
                        },
                        None => emit_send(out, cid, cfg.texts.not_found.clone()),
                    }
                },
                _ => emit_send(out, cid, String::from_str(NAME_TARGET)),
            }
        },
    }
}

/// `/block target`: a code or username not yet blocked is blocked (and the
/// store written out); a blocked anonymous sender is told. A target blocked
/// already is answered as not found.
pub open spec fn spec_block(block: BlockMgr, cfg: Config, cid: i64, t: Seq<char>) -> Seq<Effect> {
    match spec_target(t) {
        TargetV::Anon(code) => {
            let k = anon_key(code);
            if !block.anons().contains(k) {
                seq![Effect::SaveBlocks] + (if block.owners().contains_key(k) {
                    seq![fast_effect(cfg.token@, block.owners()[k], cfg.texts.you_blocked@)]
                } else {
                    Seq::<Effect>::empty()
                }) + seq![Effect::Send(cid, cfg.texts.block_ok@ + " Аноним #"@ + code)]
            } else {
                seq![Effect::Send(cid, cfg.texts.not_found@)]
            }
        },
        TargetV::User(u) => if !block.users().contains(u) {
            seq![Effect::SaveBlocks, Effect::Send(cid, cfg.texts.block_ok@ + " "@ + u)]
        } else {
            seq![Effect::Send(cid, cfg.texts.not_found@)]
        },
        _ => seq![Effect::Send(cid, NAME_TARGET@)],
    }
}

/// `/unblock target`: a blocked code or username is unblocked (and the
/// store written out); an unblocked anonymous sender is told. A target not
/// blocked is answered as not found.
pub open spec fn spec_unblock(block: BlockMgr, cfg: Config, cid: i64, t: Seq<char>) -> Seq<Effect> {
    match spec_target(t) {
        TargetV::Anon(code) => {
            let k = anon_key(code);
            if block.anons().contains(k) {
                seq![Effect::SaveBlocks] + (if block.owners().contains_key(k) {
                    seq![fast_effect(cfg.token@, block.owners()[k], cfg.texts.you_unblocked@)]
                } else {
                    Seq::<Effect>::empty()
                }) + seq![Effect::Send(cid, cfg.texts.unblock_ok@ + " Аноним #"@ + code)]
            } else {
                seq![Effect::Send(cid, cfg.texts.not_found@)]
            }
        },
        TargetV::User(u) => if block.users().contains(u) {
            seq![Effect::SaveBlocks, Effect::Send(cid, cfg.texts.unblock_ok@ + " "@ + u)]
        } else {
            seq![Effect::Send(cid, cfg.texts.not_found@)]
        },
        _ => seq![Effect::Send(cid, NAME_TARGET@)],
    }
}

/// The blocked anonymous codes after `/block` or `/unblock` with a target.
pub open spec fn anons_after(anons: Set<Seq<char>>, t: Seq<char>, blocking: bool) -> Set<Seq<char>> {
    match spec_target(t) {
        TargetV::Anon(code) => if blocking {
            anons.insert(anon_key(code))
        } else {
            anons.remove(anon_key(code))
        },
        _ => anons,
    }
}

/// The blocked usernames after `/block` or `/unblock` with a target.
pub open spec fn users_after(users: Set<Seq<char>>, t: Seq<char>, blocking: bool) -> Set<Seq<char>> {
    match spec_target(t) {
        TargetV::User(u) => if blocking {
            users.insert(u)
        } else {
            users.remove(u)
        },
        _ => users,
    }
}

/// Answers `/block` or `/unblock` with a target.
pub fn block_cmd(
    out: &mut Vec<Action>,
    block: &mut BlockMgr,
    cfg: &Config,
    cid: i64,
    target: &str,
    blocking: bool,
)
    requires
        old(block).wf(),
    ensures
        final(block).wf(),
        effects(final(out)@) == effects(old(out)@) + if blocking {
            spec_block(*old(block), *cfg, cid, target@)
        } else {
            spec_unblock(*old(block), *cfg, cid, target@)
        },
        final(block).anons() == anons_after(old(block).anons(), target@, blocking),
        final(block).users() == users_after(old(block).users(), target@, blocking),
        final(block).ids() == old(block).ids(),
        final(block).owners() == old(block).owners(),
{
    match classify_target(target) {
        Target::Anon(code) => {
            let changed = if blocking {
                block.block_anon(code.as_str())
            } else {
                block.unblock_anon(code.as_str())
            };
            if changed {
                emit(out, Action::SaveBlocks);
                let ghost mid = effects(out@);
                match block.get_by_anon(code.as_str()) {
                    Some(uid) => {
                        let note = if blocking {
                            cfg.texts.you_blocked.as_str()
                        } else {
                            cfg.texts.you_unblocked.as_str()
                        };
                        emit_fast(out, cfg.token.as_str(), uid, note);
                    },
                    None => {
                        assert(effects(out@) =~= mid + Seq::<Effect>::empty());
                    },
                }
                let ok = if blocking {
                    cfg.texts.block_ok.as_str()
                } else {
                    cfg.texts.unblock_ok.as_str()
                };
                emit_send(out, cid, cat3(ok, " Аноним #", code.as_str()));
            } else {
                emit_send(out, cid, cfg.texts.not_found.clone());
            }
        },
        Target::User(u) => {
            let changed = if blocking {
                block.block_user(u.as_str())
            } else {
                block.unblock_user(u.as_str())
            };
            if changed {
                emit(out, Action::SaveBlocks);
                let ok = if blocking {
                    cfg.texts.block_ok.as_str()
                } else {
                    cfg.texts.unblock_ok.as_str()
                };
                emit_send(out, cid, cat3(ok, " ", u.as_str()));
            } else {
                emit_send(out, cid, cfg.texts.not_found.clone());
            }
        },
        _ => emit_send(out, cid, String::from_str(NAME_TARGET)),
    }
}

/// `/blockid ID` or `/unblockid ID`: an id not yet blocked is blocked (or a
/// blocked id unblocked), the store written out, the user told, and the
/// owner told; an id already in that state is answered as not found, and an
/// argument that is no id with a hint.
pub open spec fn spec_block_id(
    block: BlockMgr,
    cfg: Config,
    cid: i64,
    arg: Seq<char>,
    blocking: bool,
) -> Seq<Effect> {
    match spec_parse_i64(arg) {
        None => seq![Effect::Send(cid, ID_TARGET@)],
        Some(id) => if blocking != block.ids().contains(id) {
            seq![
                Effect::SaveBlocks,
                fast_effect(
                    cfg.token@,
                    id,
                    if blocking {
                        cfg.texts.you_blocked@
                    } else {
                        cfg.texts.you_unblocked@
                    },
                ),
                Effect::Send(
                    cid,
                    (if blocking {
                        cfg.texts.block_ok@
                    } else {
                        cfg.texts.unblock_ok@
                    }) + " ID: "@ + dec_int(id as int),
                ),
            ]
        } else {
            seq![Effect::Send(cid, cfg.texts.not_found@)]
        },
    }
}

/// The blocked ids after `/blockid` or `/unblockid` with an argument.
pub open spec fn ids_after(ids: Set<i64>, arg: Seq<char>, blocking: bool) -> Set<i64> {
    match spec_parse_i64(arg) {
        Some(id) => if blocking {
            ids.insert(id)
        } else {
            ids.remove(id)
        },
        None => ids,
    }
}

/// Answers `/blockid` or `/unblockid` with an argument.
pub fn block_id_cmd(
    out: &mut Vec<Action>,
    block: &mut BlockMgr,
    cfg: &Config,
    cid: i64,
    arg: &str,
    blocking: bool,
)
    requires
        old(block).wf(),
    ensures
        final(block).wf(),
        effects(final(out)@) == effects(old(out)@) + spec_block_id(
            *old(block),
            *cfg,
            cid,
            arg@,
            blocking,
        ),
        final(block).ids() == ids_after(old(block).ids(), arg@, blocking),
        final(block).anons() == old(block).anons(),
        final(block).users() == old(block).users(),
        final(block).owners() == old(block).owners(),
{
    match parse_i64(arg) {
        None => emit_send(out, cid, String::from_str(ID_TARGET)),
        Some(id) => {
            let changed = if blocking {
                block.block_id(id)
            } else {
                block.unblock_id(id)
            };
            if changed {
                emit(out, Action::SaveBlocks);
                let note = if blocking {
                    cfg.texts.you_blocked.as_str()
                } else {
                    cfg.texts.you_unblocked.as_str()
                };
                emit_fast(out, cfg.token.as_str(), id, note);
                let ok = if blocking {
                    cfg.texts.block_ok.as_str()
                } else {
                    cfg.texts.unblock_ok.as_str()
                };
                let shown = fmt_i64(id);
                emit_send(out, cid, cat3(ok, " ID: ", shown.as_str()));
            } else {
                emit_send(out, cid, cfg.texts.not_found.clone());
            }
        },
    }
}

/// One engine request with `msg` to each user of the list, in order, each
/// followed by a pause.
pub open spec fn fast_each(token: Seq<char>, l: Seq<i64>, msg: Seq<char>) -> Seq<Effect>
    decreases l.len(),
{
    if l.len() == 0 {
        Seq::<Effect>::empty()
    } else {
        fast_each(token, l.drop_last(), msg) + seq![fast_effect(token, l.last(), msg), Effect::Pause]
    }
}

/// `/bcast text` over the list `l` of broadcast targets: the owner is told
/// how many will receive it, each receives it, and the owner is told how
/// many it was sent to.
pub open spec fn spec_bcast(cfg: Config, cid: i64, text: Seq<char>, l: Seq<i64>) -> Seq<Effect> {
    if l.len() == 0 {
        seq![Effect::Send(cid, NO_USERS@)]
    } else {
        seq![Effect::Send(cid, "📢 Рассылка для "@ + dec_nat(l.len()) + " юзеров..."@)] + fast_each(
            cfg.token@,
            l,
            BCAST_HEAD@ + text,
        ) + seq![Effect::Send(cid, "✅ Отправлено: "@ + dec_nat(l.len()))]
    }
}

/// Sends the text to each user of the list.
fn fast_to_each(out: &mut Vec<Action>, token: &str, list: &Vec<i64>, msg: &str)
    ensures
        effects(final(out)@) == effects(old(out)@) + fast_each(token@, list@, msg@),
{
    let mut i: usize = 0;
    while i < list.len()
        invariant
            i <= list@.len(),
            effects(out@) == effects(old(out)@) + fast_each(
                token@,
                list@.subrange(0, i as int),
                msg@,
            ),
        decreases list@.len() - i,
    {
        proof {
            let next = list@.subrange(0, i + 1);
            assert(next.drop_last() =~= list@.subrange(0, i as int));
            assert(next.last() == list@[i as int]);
        }
        emit_fast(out, token, list[i], msg);
        emit(out, Action::Pause);
        i = i + 1;
    }
    assert(list@.subrange(0, list@.len() as int) =~= list@);
}

/// Answers `/bcast` with a text.
pub fn bcast_cmd(
    out: &mut Vec<Action>,
    bcast: &BroadcastManager,
    cfg: &Config,
    cid: i64,
    text: &str,
)
    ensures
        exists|l: Seq<i64>|
            is_target_list(*bcast, l) && effects(final(out)@) == effects(old(out)@) + spec_bcast(
                *cfg,
                cid,
                text@,
                l,
            ),
{
    let msg = cat2(BCAST_HEAD, text);
    let list = bcast.get_broadcast_list();
    let n = list.len();
    if n == 0 {
        emit_send(out, cid, String::from_str(NO_USERS));
    } else {
        let count = fmt_u64(n as u64);
        emit_send(out, cid, cat3("📢 Рассылка для ", count.as_str(), " юзеров..."));
        fast_to_each(out, cfg.token.as_str(), &list, msg.as_str());
        emit_send(out, cid, cat2("✅ Отправлено: ", count.as_str()));
    }
    assert(is_target_list(*bcast, list@));
}

/// The requests of `/blockall` over the list `l`: each user of the list not
/// blocked by id before is blocked (the store written out), told, and
/// followed by a pause.
pub open spec fn block_all_sends(ids: Set<i64>, l: Seq<i64>, token: Seq<char>, msg: Seq<char>) -> Seq<
    Effect,
>
    decreases l.len(),
{
    if l.len() == 0 {
        Seq::<Effect>::empty()
    } else if ids.contains(l.last()) {
        block_all_sends(ids, l.drop_last(), token, msg)
    } else {
        block_all_sends(ids, l.drop_last(), token, msg) + seq![
            Effect::SaveBlocks,
            fast_effect(token, l.last(), msg),
            Effect::Pause,
        ]
    }
}

/// How many users of the list were not blocked by id.
pub open spec fn count_new(ids: Set<i64>, l: Seq<i64>) -> nat
    decreases l.len(),
{
    if l.len() == 0 {
        0
    } else if ids.contains(l.last()) {
        count_new(ids, l.drop_last())
    } else {
        count_new(ids, l.drop_last()) + 1
    }
}

/// `/blockall` over the list `l` of broadcast targets: the newly blocked
/// are told, then the owner is told how many they were.
pub open spec fn spec_block_all(ids: Set<i64>, cfg: Config, cid: i64, l: Seq<i64>) -> Seq<Effect> {
    block_all_sends(ids, l, cfg.token@, cfg.texts.you_blocked@) + seq![
        Effect::Send(cid, "🚫 Заблокировано "@ + dec_nat(count_new(ids, l)) + " юзеров"@),
    ]
}

proof fn lemma_count_new_bound(ids: Set<i64>, l: Seq<i64>)
    ensures
        count_new(ids, l) <= l.len(),
    decreases l.len(),
{
    if l.len() > 0 {
        lemma_count_new_bound(ids, l.drop_last());
    }
}

/// Answers `/blockall`: blocks by id every user who receives broadcasts.
pub fn block_all_cmd(
    out: &mut Vec<Action>,
    block: &mut BlockMgr,
    bcast: &BroadcastManager,
    cfg: &Config,
    cid: i64,
)
    requires
        old(block).wf(),
    ensures
        final(block).wf(),
        exists|l: Seq<i64>|
            is_target_list(*bcast, l) && effects(final(out)@) == effects(old(out)@)
                + spec_block_all(old(block).ids(), *cfg, cid, l),
        final(block).ids() == old(block).ids().union(
            broadcast_targets(bcast.all_users(), bcast.unsubscribed()),
        ),
        final(block).anons() == old(block).anons(),
        final(block).users() == old(block).users(),
        final(block).owners() == old(block).owners(),
{
    let list = bcast.get_broadcast_list();
    let ghost ids0 = block.ids();
    let ghost l = list@;
    let mut cnt: usize = 0;
    let mut i: usize = 0;
    while i < list.len()
        invariant
            i <= l.len(),
            l == list@,
            l.no_duplicates(),
            block.wf(),
            block.ids() == ids0.union(l.subrange(0, i as int).to_set()),
            block.anons() == old(block).anons(),
            block.users() == old(block).users(),
            block.owners() == old(block).owners(),
            cnt == count_new(ids0, l.subrange(0, i as int)),
            effects(out@) == effects(old(out)@) + block_all_sends(
                ids0,
                l.subrange(0, i as int),
                cfg.token@,
                cfg.texts.you_blocked@,
            ),
        decreases l.len() - i,
    {
        let uid = list[i];
        let ghost prefix = l.subrange(0, i as int);
        let ghost next = l.subrange(0, i + 1);
        proof {
            assert(next.drop_last() =~= prefix);
            assert(next.last() == uid);
            assert(!prefix.contains(uid)) by {
                if prefix.contains(uid) {
                    let j = choose|j: int| 0 <= j < prefix.len() && prefix[j] == uid;
                    assert(l[j] == l[i as int]);
                }
            }
            assert(prefix.to_set().contains(uid) == prefix.contains(uid));
            lemma_count_new_bound(ids0, prefix);
            assert(next.to_set() =~= prefix.to_set().insert(uid));
        }
        if block.block_id(uid) {
            emit(out, Action::SaveBlocks);
            cnt = cnt + 1;
            emit_fast(out, cfg.token.as_str(), uid, cfg.texts.you_blocked.as_str());
            emit(out, Action::Pause);
        }
        proof {
            assert(block.ids() =~= ids0.union(next.to_set()));
        }
        i = i + 1;
    }
    proof {
        assert(l.subrange(0, l.len() as int) =~= l);
    }
    let count = fmt_u64(cnt as u64);
    emit_send(out, cid, cat3("🚫 Заблокировано ", count.as_str(), " юзеров"));
    assert(is_target_list(*bcast, list@));
}

/// Whether a command sends to the broadcast list.
pub open spec fn uses_list(cmd: OwnerCmd) -> bool {
    cmd is Bcast || cmd is BlockAll
}

/// What an owner's text command does, given the broadcast list `l` where
/// it sends to everyone.
pub open spec fn spec_owner_text(
    block: BlockMgr,
    bcast: BroadcastManager,
    cfg: Config,
    cid: i64,
    cmd: OwnerCmd,
    l: Seq<i64>,
) -> Seq<Effect> {
    match cmd {
        OwnerCmd::Start => seq![Effect::Send(cid, OWNER_HELP@)],
        OwnerCmd::Status(t) => spec_status(block, bcast, cfg, cid, t),
        OwnerCmd::Bcast(t) => spec_bcast(cfg, cid, t, l),
        OwnerCmd::Pm(a) => spec_pm(block, bcast, cfg, cid, a),
        OwnerCmd::Block(t) => spec_block(block, cfg, cid, t),
        OwnerCmd::Unblock(t) => spec_unblock(block, cfg, cid, t),
        OwnerCmd::BlockId(a) => spec_block_id(block, cfg, cid, a, true),
        OwnerCmd::UnblockId(a) => spec_block_id(block, cfg, cid, a, false),
        OwnerCmd::BlockAll => spec_block_all(block.ids(), cfg, cid, l),
        OwnerCmd::Usage(u) => seq![Effect::Send(cid, usage_text(u))],
        OwnerCmd::Ignored => Seq::<Effect>::empty(),
    }
}

/// The blocked anonymous codes after an owner's text command.
pub open spec fn cmd_anons(anons: Set<Seq<char>>, cmd: OwnerCmd) -> Set<Seq<char>> {
    match cmd {
        OwnerCmd::Block(t) => anons_after(anons, t, true),
        OwnerCmd::Unblock(t) => anons_after(anons, t, false),
        _ => anons,
    }
}

/// The blocked usernames after an owner's text command.
pub open spec fn cmd_users(users: Set<Seq<char>>, cmd: OwnerCmd) -> Set<Seq<char>> {
    match cmd {
        OwnerCmd::Block(t) => users_after(users, t, true),
        OwnerCmd::Unblock(t) => users_after(users, t, false),
        _ => users,
    }
}

/// The blocked ids after an owner's text command.
pub open spec fn cmd_ids(ids: Set<i64>, bcast: BroadcastManager, cmd: OwnerCmd) -> Set<i64> {
    match cmd {
        OwnerCmd::BlockId(a) => ids_after(ids, a, true),
        OwnerCmd::UnblockId(a) => ids_after(ids, a, false),
        OwnerCmd::BlockAll => ids.union(broadcast_targets(bcast.all_users(), bcast.unsubscribed())),
        _ => ids,
    }
}

/// Carries out a text command of the owner.
pub fn owner_text_cmd(
    out: &mut Vec<Action>,
    block: &mut BlockMgr,
    bcast: &BroadcastManager,
    cfg: &Config,
    cid: i64,
    text: &str,
)
    requires
        old(block).wf(),
        bcast.wf(),
    ensures
        final(block).wf(),
        exists|l: Seq<i64>|
            (uses_list(spec_owner_command(text@)) ==> is_target_list(*bcast, l)) && effects(
                final(out)@,
            ) == effects(old(out)@) + #[trigger] spec_owner_text(
                *old(block),
                *bcast,
                *cfg,
                cid,
                spec_owner_command(text@),
                l,
            ),
        final(block).anons() == cmd_anons(old(block).anons(), spec_owner_command(text@)),
        final(block).users() == cmd_users(old(block).users(), spec_owner_command(text@)),
        final(block).ids() == cmd_ids(old(block).ids(), *bcast, spec_owner_command(text@)),
        final(block).owners() == old(block).owners(),
{
    let cmd = parse_owner_command(text);
    let ghost mut wit = Seq::<i64>::empty();
    match cmd {
        OwnerCommand::Start => {
            emit_send(out, cid, String::from_str(OWNER_HELP));
            assert(effects(out@) == effects(old(out)@) + spec_owner_text(
                *old(block), *bcast, *cfg, cid, cmd@, wit));
        },
        OwnerCommand::Status(t) => {
            status_cmd(out, block, bcast, cfg, cid, t.as_str());
            assert(effects(out@) == effects(old(out)@) + spec_owner_text(
                *old(block), *bcast, *cfg, cid, cmd@, wit));
        },
        OwnerCommand::Bcast(t) => {
            bcast_cmd(out, bcast, cfg, cid, t.as_str());
            proof {
                let l = choose|l: Seq<i64>|
                    is_target_list(*bcast, l) && effects(out@) == effects(old(out)@) + spec_bcast(
                        *cfg,
                        cid,
                        t@,
                        l,
                    );
                wit = l;
            }
        },
        OwnerCommand::Pm(a) => {
            pm_cmd(out, block, bcast, cfg, cid, a.as_str());
            assert(effects(out@) == effects(old(out)@) + spec_owner_text(
                *old(block), *bcast, *cfg, cid, cmd@, wit));
        },
        OwnerCommand::Block(t) => {
            block_cmd(out, block, cfg, cid, t.as_str(), true);
            assert(effects(out@) == effects(old(out)@) + spec_owner_text(
                *old(block), *bcast, *cfg, cid, cmd@, wit));
        },
        OwnerCommand::Unblock(t) => {
            block_cmd(out, block, cfg, cid, t.as_str(), false);
            assert(effects(out@) == effects(old(out)@) + spec_owner_text(
                *old(block), *bcast, *cfg, cid, cmd@, wit));
        },
        OwnerCommand::BlockId(a) => {
            block_id_cmd(out, block, cfg, cid, a.as_str(), true);
            assert(effects(out@) == effects(old(out)@) + spec_owner_text(
                *old(block), *bcast, *cfg, cid, cmd@, wit));
        },
        OwnerCommand::UnblockId(a) => {
            block_id_cmd(out, block, cfg, cid, a.as_str(), false);
            assert(effects(out@) == effects(old(out)@) + spec_owner_text(
                *old(block), *bcast, *cfg, cid, cmd@, wit));
        },
        OwnerCommand::BlockAll => {
            block_all_cmd(out, block, bcast, cfg, cid);
            proof {
                let l = choose|l: Seq<i64>|
                    is_target_list(*bcast, l) && effects(out@) == effects(old(out)@)
                        + spec_block_all(old(block).ids(), *cfg, cid, l);
                wit = l;
            }
        },
        OwnerCommand::Usage(u) => {
            let hint = match u {
                UsageOf::Status => USAGE_STATUS,
                UsageOf::Bcast => USAGE_BCAST,
                UsageOf::Pm => USAGE_PM,
                UsageOf::Block => USAGE_BLOCK,
                UsageOf::Unblock => USAGE_UNBLOCK,
                UsageOf::BlockId => USAGE_BLOCK_ID,
                UsageOf::UnblockId => USAGE_UNBLOCK_ID,
            };
            emit_send(out, cid, String::from_str(hint));
            assert(effects(out@) == effects(old(out)@) + spec_owner_text(
                *old(block), *bcast, *cfg, cid, cmd@, wit));
        },
        OwnerCommand::Ignored => {
            assert(effects(out@) =~= effects(old(out)@) + spec_owner_text(
                *old(block), *bcast, *cfg, cid, cmd@, wit));
        },
    }
    assert((uses_list(cmd@) ==> is_target_list(*bcast, wit)) && effects(out@) == effects(
        old(out)@,
    ) + spec_owner_text(*old(block), *bcast, *cfg, cid, cmd@, wit));
}
/// The answer to a reply that names nobody.
pub const REPLY_HINT: &'static str = "ℹ️ Ответь на сообщение анонима или юзера";

/// The text of a mass mailing of media without a text.
pub const BCAST_TITLE: &'static str = "📢 Рассылка от владельца";

/// The owner's reply to a message that names its sender: a text goes back
/// through the engine, media through the bot, and the owner is told.
pub open spec fn spec_reply(
    block: BlockMgr,
    bcast: BroadcastManager,
    cfg: Config,
    cid: i64,
    replied: Seq<char>,
    msg: Incoming,
) -> Seq<Effect> {
    match spec_extract_target(replied) {
        None => seq![Effect::Send(cid, REPLY_HINT@)],
        Some(t) => match spec_resolve_target(t, block.owners(), bcast.usernames()) {
            None => seq![Effect::Send(cid, cfg.texts.not_found@)],
            Some(uid) => match opt_view(msg.text) {
                Some(x) => seq![
                    fast_effect(cfg.token@, uid, spec_author_message(cfg.texts.from_author@, x)),
                    Effect::Send(cid, "✅ "@ + t + " отправлено!"@),
                ],
                None => if carries_media(msg.media) {
                    seq![
                        Effect::Media(
                            uid,
                            spec_author_message(cfg.texts.from_author@, or_empty(msg.caption)),
                        ),
                        Effect::Send(cid, "✅ "@ + t + " (медиа) отправлено!"@),
                    ]
                } else {
                    Seq::<Effect>::empty()
                },
            },
        },
    }
}

/// Answers the owner's reply to the message whose text, or caption when
/// it has no text, is `replied`.
pub fn reply_dialogue(
    out: &mut Vec<Action>,
    block: &BlockMgr,
    bcast: &BroadcastManager,
    cfg: &Config,
    cid: i64,
    replied: &str,
    msg: &Incoming,
)
    requires
        block.wf(),
        bcast.wf(),
    ensures
        effects(final(out)@) == effects(old(out)@) + spec_reply(
            *block,
            *bcast,
            *cfg,
            cid,
            replied@,
            *msg,
        ),
{
    proof {
        lemma_extracted_sliceable(replied@);
    }
    let target = match extract_target_from_reply(replied) {
        Some(t) => t,
        None => {
            emit_send(out, cid, String::from_str(REPLY_HINT));
            return ;
        },
    };
    match resolve_target_to_uid(target.as_str(), block, bcast) {
        None => emit_send(out, cid, cfg.texts.not_found.clone()),
        Some(uid) => match &msg.text {
            Some(x) => {
                let m = author_message(cfg.texts.from_author.as_str(), x.as_str());
                emit_fast(out, cfg.token.as_str(), uid, m.as_str());
                emit_send(out, cid, cat3("✅ ", target.as_str(), " отправлено!"));
            },
            None => {
                if has_media(msg.media) {
                    let cap = match &msg.caption {
                        Some(c) => c.as_str(),
                        None => "",
                    };
                    proof {
                        reveal_strlit("");
                    }
                    emit_media(out, uid, author_message(cfg.texts.from_author.as_str(), cap));
                    emit_send(out, cid, cat3("✅ ", target.as_str(), " (медиа) отправлено!"));
                } else {
                    assert(effects(out@) =~= effects(old(out)@) + Seq::<Effect>::empty());
                }
            },
        },
    }
}

/// The user a target of the owner's media names: a registered code, or a
/// known username.
pub open spec fn target_uid(block: BlockMgr, bcast: BroadcastManager, t: Seq<char>) -> Option<i64> {
    match spec_target(t) {
        TargetV::Anon(code) => if block.owners().contains_key(anon_key(code)) {
            Some(block.owners()[anon_key(code)])
        } else {
            None
        },
        TargetV::User(u) => {
            let name = u.subrange(1, u.len() as int);
            if bcast.usernames().contains_key(name) {
                Some(bcast.usernames()[name])
            } else {
                None
            }
        },
        _ => None,
    }
}

/// The caption of media the owner sends to one user.
pub open spec fn spec_pm_caption(from_author: Seq<char>, text: Seq<char>) -> Seq<char> {
    if text.len() == 0 {
        "💬 "@ + from_author
    } else {
        spec_author_message(from_author, text)
    }
}

/// One copy of the media with `caption` to each user of the list, in
/// order, each followed by a pause.
pub open spec fn media_each(l: Seq<i64>, caption: Seq<char>) -> Seq<Effect>
    decreases l.len(),
{
    if l.len() == 0 {
        Seq::<Effect>::empty()
    } else {
        media_each(l.drop_last(), caption) + seq![Effect::Media(l.last(), caption), Effect::Pause]
    }
}

/// The caption of a mass mailing of media.
pub open spec fn spec_bcast_caption(text: Seq<char>) -> Seq<char> {
    if text.len() == 0 {
        BCAST_TITLE@
    } else {
        BCAST_HEAD@ + text
    }
}

/// A media message of the owner, over the broadcast list `l`: "/pm" sends
/// it to one user, "/bcast" to everyone.
pub open spec fn spec_owner_media(
    block: BlockMgr,
    bcast: BroadcastManager,
    cfg: Config,
    cid: i64,
    cap: Seq<char>,
    l: Seq<i64>,
) -> Seq<Effect> {
    match spec_owner_media_command(cap) {
        OwnerMediaCmd::Pm(t, text) => match target_uid(block, bcast, t) {
            Some(uid) => seq![
                Effect::Media(uid, spec_pm_caption(cfg.texts.from_author@, text)),
                Effect::Send(cid, "✅ "@ + t + " (медиа) отправлено!"@),
            ],
            None => seq![Effect::Send(cid, cfg.texts.not_found@)],
        },
        OwnerMediaCmd::Bcast(text) => if l.len() == 0 {
            seq![Effect::Send(cid, NO_USERS@)]
        } else {
            seq![Effect::Send(cid, "📢 Рассылка (медиа) для "@ + dec_nat(l.len()) + " юзеров..."@)]
                + media_each(l, spec_bcast_caption(text)) + seq![
                Effect::Send(cid, "✅ Отправлено (медиа): "@ + dec_nat(l.len())),
            ]
        },
        OwnerMediaCmd::Ignored => Seq::<Effect>::empty(),
    }
}

/// Sends the media to each user of the list.
fn media_to_each(out: &mut Vec<Action>, list: &Vec<i64>, caption: &str)
    ensures
        effects(final(out)@) == effects(old(out)@) + media_each(list@, caption@),
{
    let mut i: usize = 0;
    while i < list.len()
        invariant
            i <= list@.len(),
            effects(out@) == effects(old(out)@) + media_each(list@.subrange(0, i as int), caption@),
        decreases list@.len() - i,
    {
        proof {
            let next = list@.subrange(0, i + 1);
            assert(next.drop_last() =~= list@.subrange(0, i as int));
            assert(next.last() == list@[i as int]);
        }
        emit_media(out, list[i], String::from_str(caption));
        emit(out, Action::Pause);
        i = i + 1;
    }
    assert(list@.subrange(0, list@.len() as int) =~= list@);
}

/// Carries out a media message of the owner with caption `cap`.
pub fn owner_media_cmd(
    out: &mut Vec<Action>,
    block: &BlockMgr,
    bcast: &BroadcastManager,
    cfg: &Config,
    cid: i64,
    cap: &str,
)
    requires
        block.wf(),
        bcast.wf(),
    ensures
        exists|l: Seq<i64>|
            (spec_owner_media_command(cap@) is Bcast ==> is_target_list(*bcast, l)) && effects(
                final(out)@,
            ) == effects(old(out)@) + #[trigger] spec_owner_media(
                *block,
                *bcast,
                *cfg,
                cid,
                cap@,
                l,
            ),
{
    let ghost mut wit = Seq::<i64>::empty();
    let cmd = parse_owner_media_caption(cap);
    match cmd {
        OwnerMediaCommand::Pm(target, text) => {
            proof {
                reveal_strlit("@");
            }
            let uid = match classify_target(target.as_str()) {
                Target::Anon(code) => block.get_by_anon(code.as_str()),
                Target::User(u) => {
                    let n = u.as_str().unicode_len();
                    bcast.get_user_by_username(u.as_str().substring_char(1, n))
                },
                _ => None,
            };
            match uid {
                Some(uid) => {
                    let caption = if text.as_str().is_empty() {
                        cat2("💬 ", cfg.texts.from_author.as_str())
                    } else {
                        author_message(cfg.texts.from_author.as_str(), text.as_str())
                    };
                    emit_media(out, uid, caption);
                    emit_send(out, cid, cat3("✅ ", target.as_str(), " (медиа) отправлено!"));
                },
                None => emit_send(out, cid, cfg.texts.not_found.clone()),
            }
        },
        OwnerMediaCommand::Bcast(text) => {
            let list = bcast.get_broadcast_list();
            proof {
                wit = list@;
            }
            let n = list.len();
            if n == 0 {
                emit_send(out, cid, String::from_str(NO_USERS));
            } else {
                let count = fmt_u64(n as u64);
                emit_send(out, cid, cat3("📢 Рассылка (медиа) для ", count.as_str(), " юзеров..."));
                let caption = if text.as_str().is_empty() {
                    String::from_str(BCAST_TITLE)
                } else {
                    cat2(BCAST_HEAD, text.as_str())
                };
                media_to_each(out, &list, caption.as_str());
                emit_send(out, cid, cat2("✅ Отправлено (медиа): ", count.as_str()));
            }
        },
        OwnerMediaCommand::Ignored => {
            assert(effects(out@) =~= effects(old(out)@) + Seq::<Effect>::empty());
        },
    }
    assert((spec_owner_media_command(cap@) is Bcast ==> is_target_list(*bcast, wit)) && effects(
        out@,
    ) == effects(old(out)@) + spec_owner_media(*block, *bcast, *cfg, cid, cap@, wit));
}

/// The text command an owner's message gives: none for a reply or a
/// message without text.
pub open spec fn owner_cmd_of(msg: Incoming) -> OwnerCmd {
    match (msg.reply_to, opt_view(msg.text)) {
        (None, Some(t)) => spec_owner_command(t),
        _ => OwnerCmd::Ignored,
    }
}

/// Whether an owner's message sends to the broadcast list.
pub open spec fn owner_uses_list(msg: Incoming) -> bool {
    &&& msg.reply_to is None
    &&& match opt_view(msg.text) {
        Some(t) => uses_list(spec_owner_command(t)),
        None => carries_media(msg.media) && spec_owner_media_command(or_empty(msg.caption)) is Bcast,
    }
}

/// What a message of the owner does, over the broadcast list `l`: a reply
/// answers the sender that the replied message's text (or, for media, its
/// caption) names, a text is a command, media with a caption
/// is sent on.
pub open spec fn spec_owner_handler(
    block: BlockMgr,
    bcast: BroadcastManager,
    cfg: Config,
    msg: Incoming,
    l: Seq<i64>,
) -> Seq<Effect> {
    match msg.reply_to {
        Some(r) => spec_reply(block, bcast, cfg, msg.chat, replied_text(r), msg),
        None => match opt_view(msg.text) {
            Some(t) => spec_owner_text(block, bcast, cfg, msg.chat, spec_owner_command(t), l),
            None => if carries_media(msg.media) {
                spec_owner_media(block, bcast, cfg, msg.chat, or_empty(msg.caption), l)
            } else {
                Seq::<Effect>::empty()
            },
        },
    }
}

/// Handles a message from the owner's chat.
pub fn owner_handler(
    out: &mut Vec<Action>,
    block: &mut BlockMgr,
    bcast: &BroadcastManager,
    cfg: &Config,
    msg: &Incoming,
)
    requires
        old(block).wf(),
        bcast.wf(),
    ensures
        final(block).wf(),
        exists|l: Seq<i64>|
            (owner_uses_list(*msg) ==> is_target_list(*bcast, l)) && effects(final(out)@) == effects(
                old(out)@,
            ) + #[trigger] spec_owner_handler(*old(block), *bcast, *cfg, *msg, l),
        final(block).anons() == cmd_anons(old(block).anons(), owner_cmd_of(*msg)),
        final(block).users() == cmd_users(old(block).users(), owner_cmd_of(*msg)),
        final(block).ids() == cmd_ids(old(block).ids(), *bcast, owner_cmd_of(*msg)),
        final(block).owners() == old(block).owners(),
{
    let ghost mut wit = Seq::<i64>::empty();
    let cid = msg.chat;
    proof {
        reveal_strlit("");
    }
    match &msg.reply_to {
        Some(r) => {
            let replied = match &r.text {
                Some(t) => t.as_str(),
                None => match &r.caption {
                    Some(c) => c.as_str(),
                    None => "",
                },
            };
            reply_dialogue(out, block, bcast, cfg, cid, replied, msg);
            assert(replied@ == replied_text(*r));
            assert(effects(out@) == effects(old(out)@) + spec_owner_handler(
                *old(block), *bcast, *cfg, *msg, wit));
        },
        None => match &msg.text {
            Some(t) => {
                owner_text_cmd(out, block, bcast, cfg, cid, t.as_str());
                proof {
                    wit = choose|l: Seq<i64>|
                        (uses_list(spec_owner_command(t@)) ==> is_target_list(*bcast, l)) && effects(
                            out@,
                        ) == effects(old(out)@) + #[trigger] spec_owner_text(
                            *old(block),
                            *bcast,
                            *cfg,
                            cid,
                            spec_owner_command(t@),
                            l,
                        );
                    assert(opt_view(msg.text) == Some(t@));
                    assert(effects(out@) == effects(old(out)@) + spec_owner_handler(
                        *old(block), *bcast, *cfg, *msg, wit));
                    assert(owner_uses_list(*msg) ==> is_target_list(*bcast, wit));
                }
            },
            None => {
                if has_media(msg.media) {
                    let cap = match &msg.caption {
                        Some(c) => c.as_str(),
                        None => "",
                    };
                    owner_media_cmd(out, block, bcast, cfg, cid, cap);
                    proof {
                        wit = choose|l: Seq<i64>|
                            (spec_owner_media_command(cap@) is Bcast ==> is_target_list(*bcast, l))
                                && effects(out@) == effects(old(out)@) + #[trigger] spec_owner_media(
                                *block,
                                *bcast,
                                *cfg,
                                cid,
                                cap@,
                                l,
                            );
                        assert(cap@ == or_empty(msg.caption));
                        assert(effects(out@) == effects(old(out)@) + spec_owner_handler(
                            *old(block), *bcast, *cfg, *msg, wit));
                        assert(owner_uses_list(*msg) ==> is_target_list(*bcast, wit));
                    }
                } else {
                    assert(effects(out@) =~= effects(old(out)@) + Seq::<Effect>::empty());
                }
            },
        },
    }
    assert((owner_uses_list(*msg) ==> is_target_list(*bcast, wit)) && effects(out@) == effects(
        old(out)@,
    ) + spec_owner_handler(*old(block), *bcast, *cfg, *msg, wit));
}

} // verus!
