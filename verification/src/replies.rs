use vstd::prelude::*;
use vstd::string::{StrSliceExecFns, StringExecFns};
use crate::broadcast::BroadcastManager;
use crate::scan::{
    byte_prefix, byte_prefix_from, find, is_name_char, lemma_find_from, lemma_no_occurrence,
    lemma_no_occurrence_in_join, lemma_occurrence_in_join, lemma_take_whole_name, occurs_at,
    spec_find, spec_starts_with, spec_take_name, starts_with, take_name_from,
};
use crate::storage::{BlockMgr, anon_key};
use crate::text::{cat2, cat3, cat4, cat5, dec_pad4, fmt_pad4};

verus! {

/// What precedes an anonymous sender's code in the owner's copy of a
/// message.
pub const ANON_MARK: &'static str = "Анонима #";

/// What precedes a named sender's username in the owner's copy of a
/// message.
pub const USER_MARK: &'static str = "👤 @";

/// The start of an anonymous text message, before the mark.
pub const ANON_TEXT_HEAD: &'static str = "💡 Анонимное сообщение от ";

/// The start of a named text message.
pub const NORMAL_TEXT_HEAD: &'static str = "💡 Сообщение от пользователя:\n";

/// What stands between a named message's text and its sender.
pub const SENDER_SEP: &'static str = "\n\n👤 ";

/// The name shown for a sender without a username.
pub const UNKNOWN_NAME: &'static str = "Неизвестный";

/// The caption shown for media sent without one.
pub const NO_CAPTION: &'static str = "(без подписи)";

/// How a sender is named to the owner: "@" and the username, or
/// "Неизвестный".
pub open spec fn spec_display_name(username: Option<Seq<char>>) -> Seq<char> {
    match username {
        Some(n) => "@"@ + n,
        None => UNKNOWN_NAME@,
    }
}

/// How a sender is named to the owner.
pub fn display_name(username: Option<&str>) -> (s: String)
    ensures
        s@ == spec_display_name(
            match username {
                Some(n) => Some(n@),
                None => None,
            },
        ),
{
    match username {
        Some(n) => cat2("@", n),
        None => String::from_str(UNKNOWN_NAME),
    }
}

/// The owner's copy of an anonymous text message.
pub open spec fn spec_anon_text(code: u16, text: Seq<char>) -> Seq<char> {
    ANON_TEXT_HEAD@ + ANON_MARK@ + dec_pad4(code as nat) + ":\n"@ + text
}

/// The owner's copy of an anonymous text message: the sender's code, then
/// the text.
pub fn anon_text_message(code: u16, text: &str) -> (s: String)
    ensures
        s@ == spec_anon_text(code, text@),
{
    let c = fmt_pad4(code);
    cat5(ANON_TEXT_HEAD, ANON_MARK, c.as_str(), ":\n", text)
}

/// The owner's copy of a named text message.
pub open spec fn spec_normal_text(text: Seq<char>, name: Seq<char>) -> Seq<char> {
    NORMAL_TEXT_HEAD@ + text + SENDER_SEP@ + name
}

/// The owner's copy of a named text message: the text, then the sender.
pub fn normal_text_message(text: &str, username: Option<&str>) -> (s: String)
    ensures
        s@ == spec_normal_text(
            text@,
            spec_display_name(
                match username {
                    Some(n) => Some(n@),
                    None => None,
                },
            ),
        ),
{
    let name = display_name(username);
    cat4(NORMAL_TEXT_HEAD, text, SENDER_SEP, name.as_str())
}

/// Which kinds of media a message carries.
#[derive(Clone, Copy, Debug, PartialEq, Eq, Structural)]
pub struct MediaKinds {
    pub animation: bool,
    pub audio: bool,
    pub document: bool,
    pub photo: bool,
    pub sticker: bool,
    pub video: bool,
    pub video_note: bool,
    pub voice: bool,
}

/// Whether the message carries any media.
pub fn has_media(k: MediaKinds) -> (b: bool)
    ensures
        b == (k.animation || k.audio || k.document || k.photo || k.sticker || k.video
            || k.video_note || k.voice),
{
    k.animation || k.audio || k.document || k.photo || k.sticker || k.video || k.video_note
        || k.voice
}

/// The label of a message's media, by the first kind it carries in the
/// order video note, voice, video, photo, document, audio, animation.
pub open spec fn spec_media_type(k: MediaKinds) -> Seq<char> {
    if k.video_note {
        "📹 Кружок"@
    } else if k.voice {
        "🎤 Голосовое"@
    } else if k.video {
        "🎥 Видео"@
    } else if k.photo {
        "📷 Фото"@
    } else if k.document {
        "📄 Файл"@
    } else if k.audio {
        "🎵 Аудио"@
    } else if k.animation {
        "🔄 GIF"@
    } else {
        "📎 Медиа"@
    }
}

/// The label of a message's media.
pub fn media_type(k: MediaKinds) -> (s: &'static str)
    ensures
        s@ == spec_media_type(k),
{
    if k.video_note {
        "📹 Кружок"
    } else if k.voice {
        "🎤 Голосовое"
    } else if k.video {
        "🎥 Видео"
    } else if k.photo {
        "📷 Фото"
    } else if k.document {
        "📄 Файл"
    } else if k.audio {
        "🎵 Аудио"
    } else if k.animation {
        "🔄 GIF"
    } else {
        "📎 Медиа"
    }
}

/// How media is sent on: by the first kind it carries in the order photo,
/// video, document, audio, animation, voice, video note, sticker.
#[derive(Clone, Copy, Debug, PartialEq, Eq, Structural)]
pub enum MediaSend {
    Photo,
    Video,
    Document,
    Audio,
    Animation,
    Voice,
    VideoNote,
    Sticker,
}

/// How the media of a message is sent on, if it carries any.
pub open spec fn spec_media_send(k: MediaKinds) -> Option<MediaSend> {
    if k.photo {
        Some(MediaSend::Photo)
    } else if k.video {
        Some(MediaSend::Video)
    } else if k.document {
        Some(MediaSend::Document)
    } else if k.audio {
        Some(MediaSend::Audio)
    } else if k.animation {
        Some(MediaSend::Animation)
    } else if k.voice {
        Some(MediaSend::Voice)
    } else if k.video_note {
        Some(MediaSend::VideoNote)
    } else if k.sticker {
        Some(MediaSend::Sticker)
    } else {
        None
    }
}

/// How the media of a message is sent on, if it carries any. Video notes
/// and stickers go without a caption.
pub fn media_send(k: MediaKinds) -> (r: Option<MediaSend>)
    ensures
        r == spec_media_send(k),
        r is Some <==> (k.animation || k.audio || k.document || k.photo || k.sticker || k.video
            || k.video_note || k.voice),
{
    if k.photo {
        Some(MediaSend::Photo)
    } else if k.video {
        Some(MediaSend::Video)
    } else if k.document {
        Some(MediaSend::Document)
    } else if k.audio {
        Some(MediaSend::Audio)
    } else if k.animation {
        Some(MediaSend::Animation)
    } else if k.voice {
        Some(MediaSend::Voice)
    } else if k.video_note {
        Some(MediaSend::VideoNote)
    } else if k.sticker {
        Some(MediaSend::Sticker)
    } else {
        None
    }
}

/// The caption of the owner's copy of anonymous media.
pub open spec fn spec_anon_media_caption(label: Seq<char>, code: u16, caption: Seq<char>) -> Seq<
    char,
> {
    label + " от "@ + ANON_MARK@ + dec_pad4(code as nat) + "\n💡 Подпись: "@ + caption
}

/// The caption of the owner's copy of anonymous media: its label, the
/// sender's code, then the sender's caption.
pub fn anon_media_caption(label: &str, code: u16, caption: &str) -> (s: String)
    ensures
        s@ == spec_anon_media_caption(label@, code, caption@),
{
    let c = fmt_pad4(code);
    let head = cat4(label, " от ", ANON_MARK, c.as_str());
    cat3(head.as_str(), "\n💡 Подпись: ", caption)
}

/// The caption of the owner's copy of named media.
pub open spec fn spec_normal_media_caption(label: Seq<char>, caption: Seq<char>, name: Seq<char>) -> Seq<
    char,
> {
    label + " от пользователя:\n"@ + caption + SENDER_SEP@ + name
}

/// The caption of the owner's copy of named media: its label, the sender's
/// caption, then the sender.
pub fn normal_media_caption(label: &str, caption: &str, username: Option<&str>) -> (s: String)
    ensures
        s@ == spec_normal_media_caption(
            label@,
            caption@,
            spec_display_name(
                match username {
                    Some(n) => Some(n@),
                    None => None,
                },
            ),
        ),
{
    let name = display_name(username);
    cat5(label, " от пользователя:\n", caption, SENDER_SEP, name.as_str())
}

/// What the sender is told after an anonymous message went out.
pub open spec fn spec_sent_anon_reply(sent: Seq<char>, code: u16) -> Seq<char> {
    sent + "! Код: #"@ + dec_pad4(code as nat)
}

/// What the sender is told after an anonymous message went out: the
/// acknowledgement, then the sender's code.
pub fn sent_anon_reply(sent: &str, code: u16) -> (s: String)
    ensures
        s@ == spec_sent_anon_reply(sent@, code),
{
    let c = fmt_pad4(code);
    cat3(sent, "! Код: #", c.as_str())
}

/// What a user is told when asking for its code.
pub fn code_reply(code: u16) -> (s: String)
    ensures
        s@ == "🔑 Твой код: #"@ + dec_pad4(code as nat),
{
    let c = fmt_pad4(code);
    cat2("🔑 Твой код: #", c.as_str())
}

/// The owner's answer as its recipient sees it.
pub open spec fn spec_author_message(from_author: Seq<char>, text: Seq<char>) -> Seq<char> {
    "💬 "@ + from_author + ":\n"@ + text
}

/// The owner's answer as its recipient sees it: who it is from, then the
/// text.
pub fn author_message(from_author: &str, text: &str) -> (s: String)
    ensures
        s@ == spec_author_message(from_author@, text@),
{
    cat4("💬 ", from_author, ":\n", text)
}

/// The sender a reply is meant for, read from the message replied to: after
/// the first "Анонима #" the next four bytes give the key "anon" and the
/// code; failing a mark, after the first "👤 @" the name characters give
/// "@" and the username.
pub open spec fn spec_extract_target(text: Seq<char>) -> Option<Seq<char>> {
    match spec_find(text, ANON_MARK@) {
        Some(p) => match byte_prefix(text.subrange(p + ANON_MARK@.len(), text.len() as int), 4) {
            Some(code) => Some("anon"@ + code),
            None => None,
        },
        None => match spec_find(text, USER_MARK@) {
            Some(p) => Some(
                "@"@ + spec_take_name(text.subrange(p + USER_MARK@.len(), text.len() as int)),
            ),
            None => None,
        },
    }
}

/// The sender a reply is meant for, read from the message replied to.
pub fn extract_target_from_reply(text: &str) -> (r: Option<String>)
    ensures
        match spec_extract_target(text@) {
            Some(t) => r matches Some(s) && s@ == t,
            None => r is None,
        },
{
    let n = text.unicode_len();
    match find(text, ANON_MARK) {
        Some(p) => {
            proof {
                lemma_find_from(text@, ANON_MARK@, 0);
            }
            let start = p + ANON_MARK.unicode_len();
            match byte_prefix_from(text, start, 4) {
                Some(code) => Some(cat2("anon", code)),
                None => None,
            }
        },
        None => match find(text, USER_MARK) {
            Some(p) => {
                proof {
                    lemma_find_from(text@, USER_MARK@, 0);
                }
                let start = p + USER_MARK.unicode_len();
                let name = take_name_from(text, start);
                Some(cat2("@", name))
            },
            None => None,
        },
    }
}

/// A target that begins with "anon" has four bytes after it, as the slice
/// that takes its code needs.
pub open spec fn anon_code_sliceable(target: Seq<char>) -> bool {
    spec_starts_with(target, "anon"@) ==> byte_prefix(
        target.subrange(4, target.len() as int),
        4,
    ) is Some
}

/// The user a target names: a registered anonymous code, or a username
/// seen by the broadcast list.
pub open spec fn spec_resolve_target(
    target: Seq<char>,
    owners: Map<Seq<char>, i64>,
    usernames: Map<Seq<char>, i64>,
) -> Option<i64> {
    if spec_starts_with(target, "anon"@) {
        let key = anon_key(byte_prefix(target.subrange(4, target.len() as int), 4)->0);
        if owners.contains_key(key) {
            Some(owners[key])
        } else {
            None
        }
    } else if spec_starts_with(target, "@"@) {
        let name = target.subrange(1, target.len() as int);
        if usernames.contains_key(name) {
            Some(usernames[name])
        } else {
            None
        }
    } else {
        None
    }
}

/// A target read from a message can be resolved: where it begins with
/// "anon", four bytes follow.
pub proof fn lemma_extracted_sliceable(text: Seq<char>)
    ensures
        spec_extract_target(text) matches Some(t) ==> anon_code_sliceable(t),
{
    reveal_strlit("anon");
    reveal_strlit("@");
    match spec_find(text, ANON_MARK@) {
        Some(p) => {
            let rest = text.subrange(p + ANON_MARK@.len(), text.len() as int);
            crate::scan::lemma_byte_prefix_exact(rest, 4);
            if let Some(code) = byte_prefix(rest, 4) {
                let t = "anon"@ + code;
                assert(t.subrange(4, t.len() as int) =~= code);
            }
        },
        None => {
            if let Some(t) = spec_extract_target(text) {
                assert(t[0] == '@');
                assert(!spec_starts_with(t, "anon"@)) by {
                    if spec_starts_with(t, "anon"@) {
                        assert(t.subrange(0, 4)[0] == 'a');
                    }
                }
            }
        },
    }
}

/// The user a reply target names.
pub fn resolve_target_to_uid(target: &str, block: &BlockMgr, bcast: &BroadcastManager) -> (r:
    Option<i64>)
    requires
        block.wf(),
        bcast.wf(),
        anon_code_sliceable(target@),
    ensures
        r == spec_resolve_target(target@, block.owners(), bcast.usernames()),
{
    proof {
        reveal_strlit("anon");
        reveal_strlit("@");
    }
    if starts_with(target, "anon") {
        let code = match byte_prefix_from(target, 4, 4) {
            Some(c) => c,
            None => {
                assert(false);
                ""
            },
        };
        block.get_by_anon(code)
    } else if starts_with(target, "@") {
        let n = target.unicode_len();
        let name = target.substring_char(1, n);
        bcast.get_user_by_username(name)
    } else {
        None
    }
}

/// Characters that each take one UTF-8 byte, before any others.
pub proof fn lemma_byte_prefix_narrow(a: Seq<char>, b: Seq<char>)
    requires
        forall|i: int| 0 <= i < a.len() ==> (#[trigger] a[i] as u32) < 0x80,
    ensures
        byte_prefix(a + b, a.len() as int) == Some(a),
    decreases a.len(),
{
    if a.len() > 0 {
        let t = a.drop_first();
        assert forall|i: int| 0 <= i < t.len() implies (#[trigger] t[i] as u32) < 0x80 by {
            assert(t[i] == a[i + 1]);
        }
        lemma_byte_prefix_narrow(t, b);
        assert((a + b).drop_first() =~= t + b);
        assert((a + b)[0] == a[0]);
        assert(seq![a[0]] + t =~= a);
    } else {
        assert(a =~= Seq::<char>::empty());
    }
}

/// Where `pat` stands at `k` and nowhere before, the search finds `k`.
proof fn lemma_find_first(s: Seq<char>, pat: Seq<char>, k: int)
    requires
        occurs_at(s, pat, k),
        forall|j: int| 0 <= j < k ==> !occurs_at(s, pat, j),
    ensures
        spec_find(s, pat) == Some(k),
{
    lemma_find_from(s, pat, 0);
}

/// The mark does not stand anywhere in the head of an anonymous message.
proof fn lemma_no_mark_in_head(msg: Seq<char>)
    requires
        spec_starts_with(msg, ANON_TEXT_HEAD@ + ANON_MARK@),
    ensures
        forall|j: int| 0 <= j < ANON_TEXT_HEAD@.len() ==> !occurs_at(msg, ANON_MARK@, j),
{
    reveal_strlit("💡 Анонимное сообщение от ");
    reveal_strlit("Анонима #");
    let h = ANON_TEXT_HEAD@;
    let m = ANON_MARK@;
    assert forall|j: int| 0 <= j < h.len() implies !occurs_at(msg, m, j) by {
        assert(msg[j] == (h + m)[j]);
        if occurs_at(msg, m, j) {
            assert(msg.subrange(j, j + m.len())[0] == m[0]);
            if j == 2 {
                assert(msg[j + 6] == (h + m)[j + 6]);
                assert(msg.subrange(j, j + m.len())[6] == m[6]);
            }
        }
    }
}

/// The owner's copy of an anonymous text message, replied to, names the
/// sender's code: the reply goes back to the anonymous sender.
pub proof fn lemma_reply_to_anon_text(code: u16, text: Seq<char>)
    requires
        1000 <= code <= 9999,
    ensures
        spec_extract_target(spec_anon_text(code, text)) == Some(anon_key(dec_pad4(code as nat))),
{
    reveal_strlit("Анонима #");
    let msg = spec_anon_text(code, text);
    let h = ANON_TEXT_HEAD@;
    let m = ANON_MARK@;
    let d = dec_pad4(code as nat);
    crate::text::lemma_dec_four_digits(code as nat);
    crate::text::lemma_dec_nat_digits(code as nat);
    assert(msg =~= (h + m) + (d + ":\n"@ + text));
    assert(msg.subrange(0, (h + m).len() as int) =~= h + m);
    lemma_no_mark_in_head(msg);
    assert(msg.subrange(h.len() as int, (h.len() + m.len()) as int) =~= m);
    lemma_find_first(msg, m, h.len() as int);
    let rest = msg.subrange((h.len() + m.len()) as int, msg.len() as int);
    assert(rest =~= d + (":\n"@ + text));
    assert forall|i: int| 0 <= i < d.len() implies (#[trigger] d[i] as u32) < 0x80 by {
        assert('0' <= d[i] <= '9');
    }
    lemma_byte_prefix_narrow(d, ":\n"@ + text);
}

/// A character of a Telegram username: an ASCII letter, a digit or '_'.
pub open spec fn is_username_char(c: char) -> bool {
    ||| 'a' <= c <= 'z'
    ||| 'A' <= c <= 'Z'
    ||| '0' <= c <= '9'
    ||| c == '_'
}

/// The owner's copy of a named text message, replied to, names its sender
/// by username, and the reply goes back to the user last seen under that
/// username. This holds where the text itself holds neither of the two
/// marks a reply is read by, and the username is made of username
/// characters that all count as name characters.
pub proof fn lemma_reply_reaches_named_sender(
    text: Seq<char>,
    name: Seq<char>,
    owners: Map<Seq<char>, i64>,
    usernames: Map<Seq<char>, i64>,
    uid: i64,
)
    requires
        forall|j: int| !occurs_at(text, ANON_MARK@, j),
        forall|j: int| !occurs_at(text, USER_MARK@, j),
        forall|i: int|
            0 <= i < name.len() ==> is_username_char(#[trigger] name[i]) && is_name_char(name[i]),
        usernames.contains_key(name),
        usernames[name] == uid,
    ensures
        spec_extract_target(spec_normal_text(text, spec_display_name(Some(name)))) == Some(
            "@"@ + name,
        ),
        spec_resolve_target("@"@ + name, owners, usernames) == Some(uid),
{
    reveal_strlit("💡 Сообщение от пользователя:\n");
    reveal_strlit("\n\n👤 ");
    reveal_strlit("\n\n👤 @");
    reveal_strlit("Анонима #");
    reveal_strlit("👤 @");
    reveal_strlit("@");
    reveal_strlit("anon");
    let h = NORMAL_TEXT_HEAD@;
    let am = ANON_MARK@;
    let um = USER_MARK@;
    let tail = SENDER_SEP@ + ("@"@ + name);
    let a = h + text;
    let msg = spec_normal_text(text, spec_display_name(Some(name)));
    assert(msg =~= a + tail);
    assert(tail =~= "\n\n👤 @"@ + name);
    // The anonymous mark stands nowhere.
    lemma_no_occurrence(h, am);
    lemma_no_occurrence_in_join(h, text, am);
    assert forall|i: int| 0 <= i < tail.len() implies tail[i] != am[0] by {
        if i >= 5 {
            assert(tail[i] == name[i - 5]);
        }
    }
    lemma_no_occurrence(tail, am);
    lemma_occurrence_in_join(a, tail, am);
    assert forall|j: int| !occurs_at(msg, am, j) by {
        if j >= a.len() {
            assert(occurs_at(a + tail, am, j) == occurs_at(tail, am, j - a.len()));
        }
    }
    lemma_find_from(msg, am, 0);
    assert(spec_find(msg, am) is None);
    // The user mark stands first where the sender's name is given.
    lemma_no_occurrence(h, um);
    lemma_no_occurrence_in_join(h, text, um);
    lemma_occurrence_in_join(a, tail, um);
    let k = a.len() as int + 2;
    assert(tail.subrange(2, 5) =~= um);
    assert(occurs_at(tail, um, 2));
    assert(occurs_at(msg, um, k));
    assert forall|j: int| 0 <= j < k implies !occurs_at(msg, um, j) by {
        if j >= a.len() {
            assert(occurs_at(a + tail, um, j) == occurs_at(tail, um, j - a.len()));
            assert(tail.subrange(j - a.len(), j - a.len() + 3)[0] == tail[j - a.len()]);
        }
    }
    lemma_find_first(msg, um, k);
    let rest = msg.subrange(k + um.len(), msg.len() as int);
    assert(rest =~= name);
    lemma_take_whole_name(name, 0);
    assert(spec_take_name(name) =~= name);
    // The target is resolved through the usernames.
    let t = "@"@ + name;
    assert(t[0] == '@');
    assert(t.subrange(0, 1) =~= "@"@);
    assert(t.subrange(1, t.len() as int) =~= name);
    assert(!spec_starts_with(t, "anon"@)) by {
        if spec_starts_with(t, "anon"@) {
            assert(t.subrange(0, 4)[0] == 'a');
        }
    }
}

} // verus!
