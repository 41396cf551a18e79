use vstd::prelude::*;
use vstd::string::{StrSliceExecFns, StringExecFns};
use crate::scan::{
    parse_i64, spec_parse_i64, spec_split_space, spec_starts_with, spec_strip_leading, spec_trim,
    split_space, starts_with, strip_leading, trim, byte_prefix, byte_prefix_from,
    lemma_byte_prefix_is_prefix,
};
use vstd::string::StringSliceAdditionalSpecFns;

verus! {

/// The command word of a message: its first space-separated word without
/// the slashes it starts with.
pub open spec fn spec_command_word(text: Seq<char>) -> Seq<char> {
    spec_strip_leading(spec_split_space(text).0, '/')
}

/// What follows the command word, trimmed; empty when nothing does.
pub open spec fn spec_command_args(text: Seq<char>) -> Seq<char> {
    match spec_split_space(text).1 {
        Some(rest) => spec_trim(rest),
        None => Seq::<char>::empty(),
    }
}

/// The command word of a message and what follows it, trimmed.
pub fn command_parts(text: &str) -> (r: (&str, &str))
    ensures
        r.0@ == spec_command_word(text@),
        r.1@ == spec_command_args(text@),
{
    let (first, rest) = split_space(text);
    let word = strip_leading(first, '/');
    let args = match rest {
        Some(r) => trim(r),
        None => {
            proof {
                reveal_strlit("");
            }
            ""
        },
    };
    (word, args)
}

/// A command from a user who is not the owner.
#[derive(Debug, PartialEq, Eq)]
pub enum UserCommand {
    Start,
    Help,
    /// An anonymous message with its text.
    Noone(String),
    /// `/noone` without a text.
    NooneEmpty,
    NooneFrvr,
    Donate,
    Code,
    /// Any other word: nothing is done.
    Unknown,
}

/// A user's command as a value.
pub enum UserCmd {
    Start,
    Help,
    Noone(Seq<char>),
    NooneEmpty,
    NooneFrvr,
    Donate,
    Code,
    Unknown,
}

impl View for UserCommand {
    type V = UserCmd;

    open spec fn view(&self) -> UserCmd {
        match self {
            UserCommand::Start => UserCmd::Start,
            UserCommand::Help => UserCmd::Help,
            UserCommand::Noone(t) => UserCmd::Noone(t@),
            UserCommand::NooneEmpty => UserCmd::NooneEmpty,
            UserCommand::NooneFrvr => UserCmd::NooneFrvr,
            UserCommand::Donate => UserCmd::Donate,
            UserCommand::Code => UserCmd::Code,
            UserCommand::Unknown => UserCmd::Unknown,
        }
    }
}

/// The command a user's message gives: by its command word; `/noone` with
/// the trimmed rest as its text.
pub open spec fn spec_user_command(text: Seq<char>) -> UserCmd {
    let w = spec_command_word(text);
    let a = spec_command_args(text);
    if w == "start"@ {
        UserCmd::Start
    } else if w == "help"@ {
        UserCmd::Help
    } else if w == "noone"@ {
        if a.len() == 0 {
            UserCmd::NooneEmpty
        } else {
            UserCmd::Noone(a)
        }
    } else if w == "noone_frvr"@ {
        UserCmd::NooneFrvr
    } else if w == "donate"@ {
        UserCmd::Donate
    } else if w == "code"@ {
        UserCmd::Code
    } else {
        UserCmd::Unknown
    }
}

/// Reads a user's command.
pub fn parse_user_command(text: &str) -> (c: UserCommand)
    ensures
        c@ == spec_user_command(text@),
{
    let (word, args) = command_parts(text);
    let w = String::from_str(word);
    if w == String::from_str("start") {
        UserCommand::Start
    } else if w == String::from_str("help") {
        UserCommand::Help
    } else if w == String::from_str("noone") {
        if args.is_empty() {
            UserCommand::NooneEmpty
        } else {
            UserCommand::Noone(String::from_str(args))
        }
    } else if w == String::from_str("noone_frvr") {
        UserCommand::NooneFrvr
    } else if w == String::from_str("donate") {
        UserCommand::Donate
    } else if w == String::from_str("code") {
        UserCommand::Code
    } else {
        UserCommand::Unknown
    }
}

/// Which owner command lacked the argument it needs.
#[derive(Debug, Clone, Copy, PartialEq, Eq, Structural)]
pub enum UsageOf {
    Status,
    Bcast,
    Pm,
    Block,
    Unblock,
    BlockId,
    UnblockId,
}

/// A text command from the owner.
#[derive(Debug, PartialEq, Eq)]
pub enum OwnerCommand {
    Start,
    Status(String),
    Bcast(String),
    Pm(String),
    Block(String),
    Unblock(String),
    /// `/blockid` with its argument, an id.
    BlockId(String),
    /// `/unblockid` with its argument, an id.
    UnblockId(String),
    BlockAll,
    /// A command that needs an argument came without one.
    Usage(UsageOf),
    /// Any other word: nothing is done.
    Ignored,
}

/// An owner's text command as a value.
pub enum OwnerCmd {
    Start,
    Status(Seq<char>),
    Bcast(Seq<char>),
    Pm(Seq<char>),
    Block(Seq<char>),
    Unblock(Seq<char>),
    BlockId(Seq<char>),
    UnblockId(Seq<char>),
    BlockAll,
    Usage(UsageOf),
    Ignored,
}

impl View for OwnerCommand {
    type V = OwnerCmd;

    open spec fn view(&self) -> OwnerCmd {
        match self {
            OwnerCommand::Start => OwnerCmd::Start,
            OwnerCommand::Status(t) => OwnerCmd::Status(t@),
            OwnerCommand::Bcast(t) => OwnerCmd::Bcast(t@),
            OwnerCommand::Pm(t) => OwnerCmd::Pm(t@),
            OwnerCommand::Block(t) => OwnerCmd::Block(t@),
            OwnerCommand::Unblock(t) => OwnerCmd::Unblock(t@),
            OwnerCommand::BlockId(t) => OwnerCmd::BlockId(t@),
            OwnerCommand::UnblockId(t) => OwnerCmd::UnblockId(t@),
            OwnerCommand::BlockAll => OwnerCmd::BlockAll,
            OwnerCommand::Usage(u) => OwnerCmd::Usage(*u),
            OwnerCommand::Ignored => OwnerCmd::Ignored,
        }
    }
}

/// A command with an argument: the argument, or the usage hint when it is
/// empty.
pub open spec fn with_arg(a: Seq<char>, u: UsageOf, f: spec_fn(Seq<char>) -> OwnerCmd) -> OwnerCmd {
    if a.len() == 0 {
        OwnerCmd::Usage(u)
    } else {
        f(a)
    }
}

/// The command an owner's text gives: by its command word, with the
/// trimmed rest as its argument.
pub open spec fn spec_owner_command(text: Seq<char>) -> OwnerCmd {
    let w = spec_command_word(text);
    let a = spec_command_args(text);
    if w == "start"@ {
        OwnerCmd::Start
    } else if w == "status"@ {
        with_arg(a, UsageOf::Status, |x: Seq<char>| OwnerCmd::Status(x))
    } else if w == "bcast"@ {
        with_arg(a, UsageOf::Bcast, |x: Seq<char>| OwnerCmd::Bcast(x))
    } else if w == "pm"@ {
        with_arg(a, UsageOf::Pm, |x: Seq<char>| OwnerCmd::Pm(x))
    } else if w == "block"@ {
        with_arg(a, UsageOf::Block, |x: Seq<char>| OwnerCmd::Block(x))
    } else if w == "unblock"@ {
        with_arg(a, UsageOf::Unblock, |x: Seq<char>| OwnerCmd::Unblock(x))
    } else if w == "blockid"@ {
        with_arg(a, UsageOf::BlockId, |x: Seq<char>| OwnerCmd::BlockId(x))
    } else if w == "unblockid"@ {
        with_arg(a, UsageOf::UnblockId, |x: Seq<char>| OwnerCmd::UnblockId(x))
    } else if w == "blockall"@ {
        OwnerCmd::BlockAll
    } else {
        OwnerCmd::Ignored
    }
}

/// Reads a text command of the owner; the argument is the trimmed rest of
/// the message.
pub fn parse_owner_command(text: &str) -> (c: OwnerCommand)
    ensures
        c@ == spec_owner_command(text@),
{
    let (word, args) = command_parts(text);
    let w = String::from_str(word);
    let empty = args.is_empty();
    if w == String::from_str("start") {
        OwnerCommand::Start
    } else if w == String::from_str("status") {
        if empty {
            OwnerCommand::Usage(UsageOf::Status)
        } else {
            OwnerCommand::Status(String::from_str(args))
        }
    } else if w == String::from_str("bcast") {
        if empty {
            OwnerCommand::Usage(UsageOf::Bcast)
        } else {
            OwnerCommand::Bcast(String::from_str(args))
        }
    } else if w == String::from_str("pm") {
        if empty {
            OwnerCommand::Usage(UsageOf::Pm)
        } else {
            OwnerCommand::Pm(String::from_str(args))
        }
    } else if w == String::from_str("block") {
        if empty {
            OwnerCommand::Usage(UsageOf::Block)
        } else {
            OwnerCommand::Block(String::from_str(args))
        }
    } else if w == String::from_str("unblock") {
        if empty {
            OwnerCommand::Usage(UsageOf::Unblock)
        } else {
            OwnerCommand::Unblock(String::from_str(args))
        }
    } else if w == String::from_str("blockid") {
        if empty {
            OwnerCommand::Usage(UsageOf::BlockId)
        } else {
            OwnerCommand::BlockId(String::from_str(args))
        }
    } else if w == String::from_str("unblockid") {
        if empty {
            OwnerCommand::Usage(UsageOf::UnblockId)
        } else {
            OwnerCommand::UnblockId(String::from_str(args))
        }
    } else if w == String::from_str("blockall") {
        OwnerCommand::BlockAll
    } else {
        OwnerCommand::Ignored
    }
}

/// Whom an owner command is aimed at.
#[derive(Debug, PartialEq, Eq)]
pub enum Target {
    /// An anonymous sender, by its code (what follows "anon").
    Anon(String),
    /// A user, by its username with the '@'.
    User(String),
    /// A user, by its id (only for `/status`).
    Id(i64),
    /// None of these.
    Invalid,
}

/// A target of the form "anon" and a code: it begins with "anon" and is
/// eight bytes long, so that exactly four bytes follow "anon".
pub open spec fn is_anon_target(t: Seq<char>) -> bool {
    spec_starts_with(t, "anon"@) && byte_prefix(t.subrange(4, t.len() as int), 4) == Some(
        t.subrange(4, t.len() as int),
    )
}

/// A target as a value.
pub enum TargetV {
    Anon(Seq<char>),
    User(Seq<char>),
    Id(i64),
    Invalid,
}

impl View for Target {
    type V = TargetV;

    open spec fn view(&self) -> TargetV {
        match self {
            Target::Anon(c) => TargetV::Anon(c@),
            Target::User(u) => TargetV::User(u@),
            Target::Id(i) => TargetV::Id(*i),
            Target::Invalid => TargetV::Invalid,
        }
    }
}

/// The target of `/pm`, `/block` and `/unblock`: "anon" and a code, or a
/// username with its '@'.
pub open spec fn spec_target(t: Seq<char>) -> TargetV {
    if is_anon_target(t) {
        TargetV::Anon(t.subrange(4, t.len() as int))
    } else if spec_starts_with(t, "@"@) {
        TargetV::User(t)
    } else {
        TargetV::Invalid
    }
}

/// The target of `/status`: as for the other commands, or else an id.
pub open spec fn spec_status_target(t: Seq<char>) -> TargetV {
    match spec_target(t) {
        TargetV::Invalid => match spec_parse_i64(t) {
            Some(id) => TargetV::Id(id),
            None => TargetV::Invalid,
        },
        other => other,
    }
}

/// Reads the target of `/status`: an anonymous code, a username, or an id.
pub fn classify_status_target(t: &str) -> (r: Target)
    ensures
        r@ == spec_status_target(t@),
{
    match classify_target(t) {
        Target::Invalid => match parse_i64(t) {
            Some(id) => Target::Id(id),
            None => Target::Invalid,
        },
        other => other,
    }
}

/// Reads the target of `/pm`, `/block` or `/unblock`: an anonymous code or
/// a username.
pub fn classify_target(t: &str) -> (r: Target)
    ensures
        r@ == spec_target(t@),
{
    proof {
        reveal_strlit("anon");
        reveal_strlit("@");
    }
    let code = if starts_with(t, "anon") {
        let n = t.unicode_len();
        let ghost rest = t@.subrange(4, t@.len() as int);
        proof {
            lemma_byte_prefix_is_prefix(rest, 4);
        }
        match byte_prefix_from(t, 4, 4) {
            Some(c) => {
                if c.unicode_len() == n - 4 {
                    assert(c@ =~= rest);
                    Some(c)
                } else {
                    None
                }
            },
            None => None,
        }
    } else {
        None
    };
    if let Some(c) = code {
        Target::Anon(String::from_str(c))
    } else if starts_with(t, "@") {
        Target::User(String::from_str(t))
    } else {
        Target::Invalid
    }
}

/// The target and text of `/pm`: its arguments split at the first space;
/// none when there is no space.
pub open spec fn spec_pm_parts(args: Seq<char>) -> Option<(Seq<char>, Seq<char>)> {
    match spec_split_space(args).1 {
        Some(text) => Some((spec_split_space(args).0, text)),
        None => None,
    }
}

/// The target and text of `/pm`.
pub fn pm_parts(args: &str) -> (r: Option<(&str, &str)>)
    ensures
        match spec_pm_parts(args@) {
            Some(p) => r matches Some(q) && q.0@ == p.0 && q.1@ == p.1,
            None => r is None,
        },
{
    let (target, rest) = split_space(args);
    match rest {
        Some(text) => Some((target, text)),
        None => None,
    }
}

/// What a media message of the owner asks for, read from its caption.
#[derive(Debug, PartialEq, Eq)]
pub enum OwnerMediaCommand {
    /// "/pm target text": the media goes to one user, with the text.
    Pm(String, String),
    /// "/bcast text": the media goes to everyone, with the text.
    Bcast(String),
    /// Anything else: nothing is done.
    Ignored,
}

/// An owner's media command as a value.
pub enum OwnerMediaCmd {
    Pm(Seq<char>, Seq<char>),
    Bcast(Seq<char>),
    Ignored,
}

impl View for OwnerMediaCommand {
    type V = OwnerMediaCmd;

    open spec fn view(&self) -> OwnerMediaCmd {
        match self {
            OwnerMediaCommand::Pm(t, x) => OwnerMediaCmd::Pm(t@, x@),
            OwnerMediaCommand::Bcast(x) => OwnerMediaCmd::Bcast(x@),
            OwnerMediaCommand::Ignored => OwnerMediaCmd::Ignored,
        }
    }
}

/// The command a caption of the owner's media gives. After "/pm " the
/// trimmed rest is split at its first space into target and text (the text
/// empty when there is no space); after "/bcast " the trimmed rest is the
/// text.
pub open spec fn spec_owner_media_command(cap: Seq<char>) -> OwnerMediaCmd {
    if spec_starts_with(cap, "/pm "@) {
        let args = spec_trim(cap.subrange(4, cap.len() as int));
        OwnerMediaCmd::Pm(
            spec_split_space(args).0,
            match spec_split_space(args).1 {
                Some(rest) => rest,
                None => Seq::<char>::empty(),
            },
        )
    } else if spec_starts_with(cap, "/bcast "@) {
        OwnerMediaCmd::Bcast(spec_trim(cap.subrange(7, cap.len() as int)))
    } else {
        OwnerMediaCmd::Ignored
    }
}

/// Reads the caption of a media message of the owner.
pub fn parse_owner_media_caption(cap: &str) -> (r: OwnerMediaCommand)
    ensures
        r@ == spec_owner_media_command(cap@),
{
    proof {
        reveal_strlit("/pm ");
        reveal_strlit("/bcast ");
        reveal_strlit("");
    }
    let n = cap.unicode_len();
    if starts_with(cap, "/pm ") {
        let args = trim(cap.substring_char(4, n));
        let (target, rest) = split_space(args);
        let text = match rest {
            Some(t) => t,
            None => "",
        };
        let r = OwnerMediaCommand::Pm(String::from_str(target), String::from_str(text));
        assert(text@ =~= match spec_split_space(args@).1 {
            Some(x) => x,
            None => Seq::<char>::empty(),
        });
        r
    } else if starts_with(cap, "/bcast ") {
        OwnerMediaCommand::Bcast(String::from_str(trim(cap.substring_char(7, n))))
    } else {
        OwnerMediaCommand::Ignored
    }
}

/// The text of an anonymous media caption "noone text": what follows the
/// first space, trimmed; none when it is missing or blank.
pub open spec fn spec_noone_caption_text(cap: Seq<char>) -> Option<Seq<char>> {
    match spec_split_space(cap).1 {
        Some(rest) => if spec_trim(rest).len() == 0 {
            None
        } else {
            Some(spec_trim(rest))
        },
        None => None,
    }
}

/// Whether a media caption asks for anonymity: it starts with "noone" once
/// trimmed.
pub open spec fn spec_is_noone_caption(cap: Seq<char>) -> bool {
    spec_starts_with(spec_trim(cap), "noone"@)
}

/// Whether a media caption asks for anonymity.
pub fn is_noone_caption(cap: &str) -> (b: bool)
    ensures
        b == spec_is_noone_caption(cap@),
{
    starts_with(trim(cap), "noone")
}

/// The text of an anonymous media caption.
pub fn noone_caption_text(cap: &str) -> (r: Option<String>)
    ensures
        match spec_noone_caption_text(cap@) {
            Some(t) => r matches Some(s) && s@ == t,
            None => r is None,
        },
{
    let (_first, rest) = split_space(cap);
    match rest {
        Some(r) => {
            let t = trim(r);
            if t.is_empty() {
                None
            } else {
                Some(String::from_str(t))
            }
        },
        None => None,
    }
}

} // verus!
