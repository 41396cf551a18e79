use vstd::prelude::*;
use crate::anonymous::AnonymousManager;
use crate::broadcast::BroadcastManager;
use crate::forever::AnonForeverTracker;
use crate::replies::MediaKinds;
use crate::storage::BlockMgr;
use crate::text::{dec_int, fmt_i64};
use crate::turbo::{FastSend, c_string_arg, send_fast};

verus! {

/// Something the bot does outside: a message sent, a pause, a store
/// written out. Handling an update yields a list of these, done in order.
pub enum Action {
    /// Send `text` to `chat` through the bot API.
    Send { chat: i64, text: String },
    /// Hand a request to the native fast-send engine.
    Fast(FastSend),
    /// Send the media of the message being handled to `chat`, with
    /// `caption` where its kind takes one.
    Media { chat: i64, caption: String },
    /// Send `chat` an invoice for a donation of `stars` Telegram Stars.
    Invoice { chat: i64, stars: u32 },
    /// Wait a moment between two sends of a mass mailing.
    Pause,
    /// Write the anonymous-code store out.
    SaveAnon,
    /// Write the block lists out.
    SaveBlocks,
    /// Write the broadcast store out.
    SaveBroadcast,
}

/// An action as a value: its strings as character sequences.
pub enum Effect {
    Send(i64, Seq<char>),
    /// The engine's token, chat id, message, proxy and reply target.
    Fast(Seq<char>, Seq<char>, Seq<char>, Seq<char>, i32),
    Media(i64, Seq<char>),
    Invoice(i64, u32),
    Pause,
    SaveAnon,
    SaveBlocks,
    SaveBroadcast,
}

impl View for Action {
    type V = Effect;

    open spec fn view(&self) -> Effect {
        match self {
            Action::Send { chat, text } => Effect::Send(*chat, text@),
            Action::Fast(f) => Effect::Fast(f.token@, f.chat_id@, f.message@, f.proxy@, f.reply_to),
            Action::Media { chat, caption } => Effect::Media(*chat, caption@),
            Action::Invoice { chat, stars } => Effect::Invoice(*chat, *stars),
            Action::Pause => Effect::Pause,
            Action::SaveAnon => Effect::SaveAnon,
            Action::SaveBlocks => Effect::SaveBlocks,
            Action::SaveBroadcast => Effect::SaveBroadcast,
        }
    }
}

/// The actions of a list, as values.
pub open spec fn effects(acts: Seq<Action>) -> Seq<Effect> {
    acts.map_values(|a: Action| a@)
}

/// The engine request that sends `msg` to the chat `chat` with the bot's
/// `token`, no proxy and no reply target.
pub open spec fn fast_effect(token: Seq<char>, chat: i64, msg: Seq<char>) -> Effect {
    Effect::Fast(
        c_string_arg(token),
        c_string_arg(dec_int(chat as int)),
        c_string_arg(msg),
        Seq::<char>::empty(),
        0,
    )
}

/// The texts the bot answers with that its operator chooses.
pub struct Texts {
    /// To a blocked user.
    pub banned: String,
    /// To a user whose anonymous message went out (the code follows).
    pub sent_anon: String,
    /// To a user whose named message went out.
    pub sent_norm: String,
    /// To a user who asked for an anonymous message without a text.
    pub noone_empty: String,
    /// To the owner, when a target is unknown.
    pub not_found: String,
    /// Who the owner's answers are from, as their recipients read it.
    pub from_author: String,
    /// To a user who was blocked.
    pub you_blocked: String,
    /// To a user who was unblocked.
    pub you_unblocked: String,
    /// To the owner, after a block.
    pub block_ok: String,
    /// To the owner, after an unblock.
    pub unblock_ok: String,
    /// The closing line of the greeting.
    pub interesting: String,
}

/// What the bot is configured with.
pub struct Config {
    /// The owner's chat.
    pub owner: i64,
    /// The bot's token, which the fast-send engine needs.
    pub token: String,
    pub texts: Texts,
}

/// Everything the bot keeps between updates.
pub struct Core {
    pub anon: AnonymousManager,
    pub block: BlockMgr,
    pub bcast: BroadcastManager,
    pub forever: AnonForeverTracker,
}

impl Core {
    /// The three stores are well formed.
    pub open spec fn wf(&self) -> bool {
        &&& self.anon.wf()
        &&& self.block.wf()
        &&& self.bcast.wf()
    }

    /// Nothing recorded yet.
    pub fn new() -> (c: Self)
        ensures
            c.wf(),
            c.anon.codes() == Map::<i64, u16>::empty(),
            c.anon.codes_in_use() == Set::<u16>::empty(),
            c.block.anons() == Set::<Seq<char>>::empty(),
            c.block.users() == Set::<Seq<char>>::empty(),
            c.block.ids() == Set::<i64>::empty(),
            c.block.owners() == Map::<Seq<char>, i64>::empty(),
            c.bcast.all_users() == Set::<i64>::empty(),
            c.bcast.unsubscribed() == Set::<i64>::empty(),
            c.bcast.usernames() == Map::<Seq<char>, i64>::empty(),
            c.forever.modes() == Map::<i64, bool>::empty(),
    {
        Core {
            anon: AnonymousManager::new(),
            block: BlockMgr::new(),
            bcast: BroadcastManager::new(),
            forever: AnonForeverTracker::new(),
        }
    }
}

/// Who sent a message.
pub struct Sender {
    pub id: i64,
    pub username: Option<String>,
}

/// The message a reply answers, as far as its handling reads it.
pub struct Replied {
    pub text: Option<String>,
    pub caption: Option<String>,
}

/// What a reply reads its target from: the replied message's text, or its
/// caption when it has no text (media), or nothing.
pub open spec fn replied_text(r: Replied) -> Seq<char> {
    match r.text {
        Some(t) => t@,
        None => or_empty(r.caption),
    }
}

/// A message the bot received, as far as its handling reads it.
pub struct Incoming {
    /// The chat it came from.
    pub chat: i64,
    pub from: Option<Sender>,
    pub text: Option<String>,
    pub caption: Option<String>,
    pub media: MediaKinds,
    /// Present when the message replies to another: what that message
    /// holds.
    pub reply_to: Option<Replied>,
    /// The total amount of the successful payment it reports, if any.
    pub payment: Option<u32>,
}

/// An optional string as an optional character sequence.
pub open spec fn opt_view(o: Option<String>) -> Option<Seq<char>> {
    match o {
        Some(s) => Some(s@),
        None => None,
    }
}

/// An optional string, or the empty string.
pub open spec fn or_empty(o: Option<String>) -> Seq<char> {
    match o {
        Some(s) => s@,
        None => Seq::<char>::empty(),
    }
}

/// Whether the message carries any media.
pub open spec fn carries_media(k: MediaKinds) -> bool {
    k.animation || k.audio || k.document || k.photo || k.sticker || k.video || k.video_note
        || k.voice
}

/// Appends `a` to the actions.
pub fn emit(out: &mut Vec<Action>, a: Action)
    ensures
        effects(final(out)@) == effects(old(out)@).push(a@),
{
    out.push(a);
    assert(effects(out@) =~= effects(old(out)@).push(a@));
}

/// Appends a message to `chat`.
pub fn emit_send(out: &mut Vec<Action>, chat: i64, text: String)
    ensures
        effects(final(out)@) == effects(old(out)@).push(Effect::Send(chat, text@)),
{
    emit(out, Action::Send { chat, text });
}

/// Appends the engine request that sends `msg` to `chat`.
pub fn emit_fast(out: &mut Vec<Action>, token: &str, chat: i64, msg: &str)
    ensures
        effects(final(out)@) == effects(old(out)@).push(fast_effect(token@, chat, msg@)),
{
    let id = fmt_i64(chat);
    let (_, req) = send_fast(token, id.as_str(), msg);
    assert(c_string_arg(Seq::<char>::empty()) =~= Seq::<char>::empty());
    emit(out, Action::Fast(req));
}

/// Appends the media of the message at hand, for `chat`.
pub fn emit_media(out: &mut Vec<Action>, chat: i64, caption: String)
    ensures
        effects(final(out)@) == effects(old(out)@).push(Effect::Media(chat, caption@)),
{
    emit(out, Action::Media { chat, caption });
}

} // verus!
