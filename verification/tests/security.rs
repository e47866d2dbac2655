use rencfs_winfsp::security::{decode_sid, default_security_descriptor, token_words, UserSid};
use rencfs_winfsp::status::FsError;
use rencfs_winfsp::system::{SystemReply, SystemRequest, SystemStep};

type SidStep = SystemStep<(), (), UserSid, Result<String, FsError>>;

fn units(text: &str) -> Vec<u16> {
    text.encode_utf16().collect()
}

#[test]
fn descriptor_names_the_user_three_times() {
    let made = default_security_descriptor("S-1-5-21-7").unwrap();
    let text = "O:S-1-5-21-7G:S-1-5-21-7D:P(A;;FA;;;SY)(A;;FA;;;BA)(A;;FA;;;S-1-5-21-7)\0";
    assert_eq!(made, units(text));
}

#[test]
fn descriptor_holds_no_nul() {
    assert!(matches!(
        default_security_descriptor("S-1\0-5"),
        Err(FsError::Other("invalid Windows security descriptor"))
    ));
}

#[test]
fn words_hold_the_bytes() {
    let word = std::mem::size_of::<usize>() as u32;
    assert_eq!(token_words(1), 1);
    assert_eq!(token_words(word), 1);
    assert_eq!(token_words(word + 1), 2);
    assert_eq!(token_words(0), 0);
    assert_eq!(token_words(u32::MAX), u32::MAX.div_ceil(word) as usize);
}

#[test]
fn identifiers_are_decoded_strictly() {
    assert_eq!(decode_sid(&units("S-1-5")).unwrap(), "S-1-5");
    assert_eq!(decode_sid(&[0xD83D, 0xDE00]).unwrap(), "\u{1F600}");
    assert!(matches!(
        decode_sid(&[0x53, 0xD800]),
        Err(FsError::Other("Windows user SID is not valid UTF-16"))
    ));
}

fn after(replies: Vec<SystemReply<Vec<u16>>>) -> SidStep {
    let mut step: SidStep = UserSid::current_user_sid();
    for reply in replies {
        step = match step {
            SystemStep::Ask { next, .. } => next.resume(reply),
            _ => panic!("nothing was asked"),
        };
    }
    step
}

#[test]
fn user_is_asked_for_step_by_step() {
    assert!(matches!(
        after(vec![]),
        SystemStep::Ask { request: SystemRequest::OpenToken, .. }
    ));
    let opened = || SystemReply::Worked(true);
    assert!(matches!(
        after(vec![opened()]),
        SystemStep::Ask { request: SystemRequest::TokenSize, .. }
    ));
    match after(vec![opened(), SystemReply::Size(44)]) {
        SystemStep::Ask { request: SystemRequest::ReadToken { bytes, words }, .. } => {
            assert_eq!((bytes, words), (44, token_words(44)));
        }
        _ => panic!("the token is read next"),
    }
    assert!(matches!(
        after(vec![opened(), SystemReply::Size(44), opened()]),
        SystemStep::Ask { request: SystemRequest::SidUnits, .. }
    ));
    let sid = || SystemReply::Sid(Some(units("S-1-5-21")));
    assert!(matches!(
        after(vec![opened(), SystemReply::Size(44), opened(), sid()]),
        SystemStep::Ask { request: SystemRequest::FreeSid, .. }
    ));
    let freed = SystemReply::Released;
    assert!(matches!(
        after(vec![opened(), SystemReply::Size(44), opened(), sid(), freed]),
        SystemStep::Ask { request: SystemRequest::CloseToken, .. }
    ));
    let (asked, result) = ask(vec![opened(), SystemReply::Size(44), opened(), sid()]);
    assert_eq!(result.unwrap(), "S-1-5-21");
    assert_eq!(
        asked,
        ["OpenToken", "TokenSize", "ReadToken", "SidUnits", "FreeSid", "CloseToken"]
    );
}

/// Gives the replies, and gives back whatever is to be given back.
fn ask(replies: Vec<SystemReply<Vec<u16>>>) -> (Vec<String>, Result<String, FsError>) {
    let mut replies = replies.into_iter();
    let mut asked = Vec::new();
    let mut step: SidStep = UserSid::current_user_sid();
    loop {
        step = match step {
            SystemStep::Ask { request, next } => {
                let text = format!("{request:?}");
                asked.push(text.split([' ', '{']).next().unwrap().to_string());
                match request {
                    SystemRequest::FreeSid | SystemRequest::CloseToken => {
                        next.resume(SystemReply::Released)
                    }
                    _ => next.resume(replies.next().unwrap()),
                }
            }
            SystemStep::Done(result) => return (asked, result),
            SystemStep::Overflow => unreachable!(),
        };
    }
}

#[test]
fn every_failure_of_the_token_is_reported() {
    let opened = || SystemReply::Worked(true);
    let (asked, result) = ask(vec![SystemReply::Worked(false)]);
    assert!(matches!(result, Err(FsError::Io)));
    assert_eq!(asked, ["OpenToken"]);
    let (asked, result) = ask(vec![opened(), SystemReply::Size(0)]);
    assert!(matches!(
        result,
        Err(FsError::Other("cannot determine Windows token user size"))
    ));
    assert_eq!(asked, ["OpenToken", "TokenSize", "CloseToken"]);
    let failed = SystemReply::Worked(false);
    let (asked, result) = ask(vec![opened(), SystemReply::Size(44), failed]);
    assert!(matches!(result, Err(FsError::Io)));
    assert_eq!(asked, ["OpenToken", "TokenSize", "ReadToken", "CloseToken"]);
    let missing = SystemReply::Sid(None);
    let (asked, result) = ask(vec![opened(), SystemReply::Size(44), opened(), missing]);
    assert!(matches!(result, Err(FsError::Io)));
    assert_eq!(asked, ["OpenToken", "TokenSize", "ReadToken", "SidUnits", "CloseToken"]);
    let broken = SystemReply::Sid(Some(vec![0xDC00]));
    let (asked, result) = ask(vec![opened(), SystemReply::Size(44), opened(), broken]);
    assert!(matches!(
        result,
        Err(FsError::Other("Windows user SID is not valid UTF-16"))
    ));
    assert_eq!(asked[4..], ["FreeSid", "CloseToken"]);
}
