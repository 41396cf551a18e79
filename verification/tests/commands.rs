use anonbot::commands::{
    classify_status_target, classify_target, command_parts, is_noone_caption, noone_caption_text,
    parse_owner_command, parse_owner_media_caption, parse_user_command, pm_parts, OwnerCommand,
    OwnerMediaCommand, Target, UsageOf, UserCommand,
};

#[test]
fn command_word_and_arguments() {
    assert_eq!(command_parts("/noone   hello there  "), ("noone", "hello there"));
    assert_eq!(command_parts("//start"), ("start", ""));
    assert_eq!(command_parts("/pm"), ("pm", ""));
}

#[test]
fn user_commands() {
    assert_eq!(parse_user_command("/start"), UserCommand::Start);
    assert_eq!(parse_user_command("/help please"), UserCommand::Help);
    assert_eq!(parse_user_command("/noone  hi  "), UserCommand::Noone("hi".to_string()));
    assert_eq!(parse_user_command("/noone"), UserCommand::NooneEmpty);
    assert_eq!(parse_user_command("/noone    "), UserCommand::NooneEmpty);
    assert_eq!(parse_user_command("/noone_frvr"), UserCommand::NooneFrvr);
    assert_eq!(parse_user_command("/donate"), UserCommand::Donate);
    assert_eq!(parse_user_command("/code"), UserCommand::Code);
    assert_eq!(parse_user_command("/status x"), UserCommand::Unknown);
    assert_eq!(parse_user_command("/Start"), UserCommand::Unknown);
}

#[test]
fn owner_commands() {
    assert_eq!(parse_owner_command("/start"), OwnerCommand::Start);
    assert_eq!(
        parse_owner_command("/status  @bob "),
        OwnerCommand::Status("@bob".to_string())
    );
    assert_eq!(parse_owner_command("/status"), OwnerCommand::Usage(UsageOf::Status));
    assert_eq!(parse_owner_command("/bcast hello all"), OwnerCommand::Bcast("hello all".to_string()));
    assert_eq!(parse_owner_command("/bcast "), OwnerCommand::Usage(UsageOf::Bcast));
    assert_eq!(parse_owner_command("/pm @bob hi"), OwnerCommand::Pm("@bob hi".to_string()));
    assert_eq!(parse_owner_command("/pm"), OwnerCommand::Usage(UsageOf::Pm));
    assert_eq!(parse_owner_command("/block anon1234"), OwnerCommand::Block("anon1234".to_string()));
    assert_eq!(parse_owner_command("/block"), OwnerCommand::Usage(UsageOf::Block));
    assert_eq!(parse_owner_command("/unblock @x"), OwnerCommand::Unblock("@x".to_string()));
    assert_eq!(parse_owner_command("/unblock"), OwnerCommand::Usage(UsageOf::Unblock));
    assert_eq!(parse_owner_command("/blockall"), OwnerCommand::BlockAll);
    assert_eq!(parse_owner_command("/blockid 5"), OwnerCommand::BlockId("5".to_string()));
    assert_eq!(parse_owner_command("/unblockid -5 "), OwnerCommand::UnblockId("-5".to_string()));
    assert_eq!(parse_owner_command("/blockid"), OwnerCommand::Usage(UsageOf::BlockId));
    assert_eq!(parse_owner_command("/unblockid"), OwnerCommand::Usage(UsageOf::UnblockId));
    assert_eq!(parse_owner_command("/unblockall"), OwnerCommand::Ignored);
    assert_eq!(parse_owner_command("hello"), OwnerCommand::Ignored);
}

#[test]
fn targets() {
    assert_eq!(classify_target("anon1234"), Target::Anon("1234".to_string()));
    assert_eq!(classify_target("anonжж"), Target::Anon("жж".to_string()));
    assert_eq!(classify_target("anon12"), Target::Invalid);
    assert_eq!(classify_target("anon12345"), Target::Invalid);
    assert_eq!(classify_target("@bob"), Target::User("@bob".to_string()));
    assert_eq!(classify_target("bob"), Target::Invalid);
    assert_eq!(classify_target("123"), Target::Invalid);
}

#[test]
fn status_targets() {
    assert_eq!(classify_status_target("anon0042"), Target::Anon("0042".to_string()));
    assert_eq!(classify_status_target("@bob"), Target::User("@bob".to_string()));
    assert_eq!(classify_status_target("-100500"), Target::Id(-100500));
    assert_eq!(classify_status_target("anon12"), Target::Invalid);
    assert_eq!(classify_status_target("bob"), Target::Invalid);
}

#[test]
fn pm_arguments() {
    assert_eq!(pm_parts("@bob hello  there"), Some(("@bob", "hello  there")));
    assert_eq!(pm_parts("@bob"), None);
}

#[test]
fn owner_media_captions() {
    assert_eq!(
        parse_owner_media_caption("/pm  @bob look at this "),
        OwnerMediaCommand::Pm("@bob".to_string(), "look at this".to_string())
    );
    assert_eq!(
        parse_owner_media_caption("/pm anon1234"),
        OwnerMediaCommand::Pm("anon1234".to_string(), String::new())
    );
    assert_eq!(
        parse_owner_media_caption("/bcast  news "),
        OwnerMediaCommand::Bcast("news".to_string())
    );
    assert_eq!(parse_owner_media_caption("/bcast"), OwnerMediaCommand::Ignored);
    assert_eq!(parse_owner_media_caption("hello"), OwnerMediaCommand::Ignored);
}

#[test]
fn anonymous_media_captions() {
    assert!(is_noone_caption("  noone secret"));
    assert!(is_noone_caption("noonex"));
    assert!(!is_noone_caption("hello noone"));
    assert_eq!(noone_caption_text("noone  my text "), Some("my text".to_string()));
    assert_eq!(noone_caption_text("noone"), None);
    assert_eq!(noone_caption_text("noone    "), None);
}
