//! Who may use the volume: the user who mounts it, the system, and its administrators.

use crate::plan::Plan;
use crate::status::FsError;
use crate::system::{replies, SystemPlan, SystemReply, SystemRequest, SystemStep};
use crate::utf16::{
    from_utf16, has_early_nul, is_high_surrogate, is_low_surrogate, lossy_text, terminated,
    text_units, to_wide, well_formed,
};
use vstd::pervasive::unreached;
use vstd::prelude::*;

verus! {

/// The text of a security descriptor that makes a user the owner and gives full access to
/// the system, to the administrators and to the user.
pub open spec fn descriptor_text(user_sid: Seq<char>) -> Seq<char> {
    "O:"@ + user_sid + "G:"@ + user_sid + "D:P(A;;FA;;;SY)(A;;FA;;;BA)(A;;FA;;;"@ + user_sid + ")"@
}

/// The text of a security descriptor in UTF-16, ended by a NUL, which may not occur in it.
pub open spec fn descriptor_units(user_sid: Seq<char>) -> Result<Seq<u16>, FsError> {
    if has_early_nul(descriptor_text(user_sid)) {
        Err(FsError::Other("invalid Windows security descriptor"))
    } else {
        Ok(terminated(text_units(descriptor_text(user_sid))))
    }
}

/// Units, or an error.
pub open spec fn units_result(result: Result<Vec<u16>, FsError>) -> Result<Seq<u16>, FsError> {
    match result {
        Ok(units) => Ok(units@),
        Err(error) => Err(error),
    }
}

/// The text of the security descriptor of the volume, in UTF-16.
pub fn default_security_descriptor(user_sid: &str) -> (units: Result<Vec<u16>, FsError>)
    ensures
        units_result(units) == descriptor_units(user_sid@),
{
    let mut text = String::new();
    text.append("O:");
    text.append(user_sid);
    text.append("G:");
    text.append(user_sid);
    text.append("D:P(A;;FA;;;SY)(A;;FA;;;BA)(A;;FA;;;");
    text.append(user_sid);
    text.append(")");
    assert(text@ == descriptor_text(user_sid@));
    match to_wide(text.as_str()) {
        Ok(units) => Ok(units),
        Err(_) => Err(FsError::Other("invalid Windows security descriptor")),
    }
}

/// Every security identifier without a NUL makes a security descriptor.
pub proof fn lemma_descriptor_is_made(user_sid: Seq<char>)
    requires
        !user_sid.contains('\0'),
    ensures
        descriptor_units(user_sid) == Ok::<Seq<u16>, FsError>(
            text_units(descriptor_text(user_sid)).push(0),
        ),
{
    reveal_strlit("O:");
    reveal_strlit("G:");
    reveal_strlit("D:P(A;;FA;;;SY)(A;;FA;;;BA)(A;;FA;;;");
    reveal_strlit(")");
    let text = descriptor_text(user_sid);
    assert forall|i: int| 0 <= i < text.len() implies text[i] != '\0' by {
        if text[i] == '\0' {
            assert(exists|j: int| 0 <= j < user_sid.len() && user_sid[j] == text[i]);
        }
    }
    assert(text.last() == ')');
    assert(text_units(text).last() == ')' as u16);
}

/// How many machine words hold a number of bytes; a word has four bytes or eight.
pub open spec fn words_for(bytes: u32) -> int {
    if usize::BITS == 32 {
        (bytes + 3) / 4
    } else {
        (bytes + 7) / 8
    }
}

/// How many machine words hold a number of bytes.
pub fn token_words(bytes: u32) -> (words: usize)
    ensures
        words == words_for(bytes),
{
    let words: u64 = if usize::BITS == 32 {
        (bytes as u64 + 3) / 4
    } else {
        (bytes as u64 + 7) / 8
    };
    words as usize
}

pub type SidPlan<Provider, Cipher> = SystemPlan<Provider, Cipher, Result<Seq<char>, FsError>>;

/// Asking who the user of this process is.
pub open spec fn user_sid_plan<Provider, Cipher>() -> SidPlan<Provider, Cipher> {
    Plan::Ask(
        SystemRequest::OpenToken,
        |reply: SystemReply<Seq<u16>>|
            if reply->Worked_0 {
                sizing_token()
            } else {
                Plan::Done(Err(FsError::Io))
            },
    )
}

pub open spec fn sizing_token<Provider, Cipher>() -> SidPlan<Provider, Cipher> {
    Plan::Ask(
        SystemRequest::TokenSize,
        |reply: SystemReply<Seq<u16>>|
            if reply->Size_0 == 0 {
                closing_token(Err(FsError::Other("cannot determine Windows token user size")))
            } else {
                reading_token(reply->Size_0)
            },
    )
}

pub open spec fn reading_token<Provider, Cipher>(bytes: u32) -> SidPlan<Provider, Cipher> {
    Plan::Ask(
        SystemRequest::ReadToken { bytes, words: words_for(bytes) as usize },
        |reply: SystemReply<Seq<u16>>|
            if reply->Worked_0 {
                writing_sid()
            } else {
                closing_token(Err(FsError::Io))
            },
    )
}

pub open spec fn writing_sid<Provider, Cipher>() -> SidPlan<Provider, Cipher> {
    Plan::Ask(
        SystemRequest::SidUnits,
        |reply: SystemReply<Seq<u16>>|
            match reply->Sid_0 {
                Some(units) => freeing_sid(sid_text(units)),
                None => closing_token(Err(FsError::Io)),
            },
    )
}

pub open spec fn freeing_sid<Provider, Cipher>(result: Result<Seq<char>, FsError>) -> SidPlan<
    Provider,
    Cipher,
> {
    Plan::Ask(
        SystemRequest::FreeSid,
        |reply: SystemReply<Seq<u16>>| closing_token(result),
    )
}

/// Closing the token, which was opened, and then telling what came of it.
pub open spec fn closing_token<Provider, Cipher>(result: Result<Seq<char>, FsError>) -> SidPlan<
    Provider,
    Cipher,
> {
    Plan::Ask(
        SystemRequest::CloseToken,
        |reply: SystemReply<Seq<u16>>| Plan::Done(result),
    )
}

/// The text of a security identifier.
pub open spec fn sid_text(units: Seq<u16>) -> Result<Seq<char>, FsError> {
    if well_formed(units) {
        Ok(lossy_text(units))
    } else {
        Err(FsError::Other("Windows user SID is not valid UTF-16"))
    }
}

/// The text of units without a NUL has none.
proof fn lemma_text_without_nul(units: Seq<u16>)
    requires
        !units.contains(0),
    ensures
        !lossy_text(units).contains('\0'),
    decreases units.len(),
{
    if units.len() > 0 {
        let skipped: int = if is_high_surrogate(units[0]) && units.len() > 1 && is_low_surrogate(
            units[1],
        ) {
            2
        } else {
            1
        };
        let rest = units.skip(skipped);
        assert forall|i: int| 0 <= i < rest.len() implies rest[i] != 0 by {
            assert(units.contains(units[i + skipped]));
        }
        lemma_text_without_nul(rest);
        assert(units.contains(units[0]));
        assert forall|i: int| 0 <= i < lossy_text(units).len() implies lossy_text(units)[i]
            != '\0' by {
            if i > 0 {
                assert(lossy_text(rest).contains(lossy_text(rest)[i - 1]));
            }
        }
    }
}

/// A security identifier that is read up to its NUL always makes a security descriptor.
pub proof fn lemma_sid_makes_a_descriptor(units: Seq<u16>)
    requires
        !units.contains(0),
    ensures
        sid_text(units) matches Ok(user_sid) ==> descriptor_units(user_sid) is Ok,
{
    lemma_text_without_nul(units);
    lemma_descriptor_is_made(lossy_text(units));
}

/// A text, or an error.
pub open spec fn text_result(result: Result<String, FsError>) -> Result<Seq<char>, FsError> {
    match result {
        Ok(text) => Ok(text@),
        Err(error) => Err(error),
    }
}

/// Reads the text of a security identifier.
pub fn decode_sid(units: &[u16]) -> (sid: Result<String, FsError>)
    ensures
        text_result(sid) == sid_text(units@),
{
    match from_utf16(units) {
        Some(text) => Ok(text),
        None => Err(FsError::Other("Windows user SID is not valid UTF-16")),
    }
}

/// The asking who the user is, under way.
pub enum UserSid {
    Opening,
    Sizing,
    Reading { bytes: u32 },
    Writing,
    Freeing { result: Result<String, FsError> },
    Closing { result: Result<String, FsError> },
}

impl UserSid {
    pub open spec fn plan<Provider, Cipher>(&self) -> SidPlan<Provider, Cipher> {
        match *self {
            UserSid::Opening => user_sid_plan(),
            UserSid::Sizing => sizing_token(),
            UserSid::Reading { bytes } => reading_token(bytes),
            UserSid::Writing => writing_sid(),
            UserSid::Freeing { result } => freeing_sid(text_result(result)),
            UserSid::Closing { result } => closing_token(text_result(result)),
        }
    }

    /// Begins to ask who the user of this process is.
    pub fn current_user_sid<Provider, Cipher>() -> (step: SystemStep<
        Provider,
        Cipher,
        UserSid,
        Result<String, FsError>,
    >)
        ensures
            step matches SystemStep::Ask { request, next } && next.plan::<Provider, Cipher>()
                == user_sid_plan::<Provider, Cipher>() && request@
                == user_sid_plan::<Provider, Cipher>()->Ask_0,
    {
        SystemStep::Ask { request: SystemRequest::OpenToken, next: UserSid::Opening }
    }

    /// Goes on with the reply, exactly as the plan says.
    pub fn resume<Provider, Cipher>(self, reply: SystemReply<Vec<u16>>) -> (step: SystemStep<
        Provider,
        Cipher,
        UserSid,
        Result<String, FsError>,
    >)
        requires
            replies(self.plan::<Provider, Cipher>()->Ask_0, reply@),
        ensures
            match step {
                SystemStep::Ask { request, next } => {
                    &&& next.plan::<Provider, Cipher>() == (self.plan::<
                        Provider,
                        Cipher,
                    >()->Ask_1)(reply@)
                    &&& request@ == next.plan::<Provider, Cipher>()->Ask_0
                },
                SystemStep::Done(output) => (self.plan::<Provider, Cipher>()->Ask_1)(reply@)
                    == SidPlan::<Provider, Cipher>::Done(text_result(output)),
                SystemStep::Overflow => false,
            },
    {
        let result = match (self, reply) {
            (UserSid::Opening, SystemReply::Worked(worked)) => {
                if !worked {
                    return SystemStep::Done(Err(FsError::Io));
                }
                return SystemStep::Ask {
                    request: SystemRequest::TokenSize,
                    next: UserSid::Sizing,
                };
            },
            (UserSid::Sizing, SystemReply::Size(bytes)) => {
                if bytes != 0 {
                    return SystemStep::Ask {
                        request: SystemRequest::ReadToken { bytes, words: token_words(bytes) },
                        next: UserSid::Reading { bytes },
                    };
                }
                Err(FsError::Other("cannot determine Windows token user size"))
            },
            (UserSid::Reading { .. }, SystemReply::Worked(worked)) => {
                if worked {
                    return SystemStep::Ask {
                        request: SystemRequest::SidUnits,
                        next: UserSid::Writing,
                    };
                }
                Err(FsError::Io)
            },
            (UserSid::Writing, SystemReply::Sid(Some(units))) => {
                let result = decode_sid(units.as_slice());
                return SystemStep::Ask {
                    request: SystemRequest::FreeSid,
                    next: UserSid::Freeing { result },
                };
            },
            (UserSid::Writing, SystemReply::Sid(None)) => Err(FsError::Io),
            (UserSid::Freeing { result }, SystemReply::Released) => result,
            (UserSid::Closing { result }, SystemReply::Released) => {
                return SystemStep::Done(result);
            },
            _ => unreached(),
        };
        SystemStep::Ask {
            request: SystemRequest::CloseToken,
            next: UserSid::Closing { result },
        }
    }
}

/// What is asked while the user is asked for, where the system replies in a given way.
pub open spec fn sid_requests<Provider, Cipher>(
    world: spec_fn(SystemRequest<Provider, Cipher, Seq<u16>>) -> SystemReply<Seq<u16>>,
) -> Seq<SystemRequest<Provider, Cipher, Seq<u16>>> {
    user_sid_plan::<Provider, Cipher>().trace(world)
}

/// Whether the text of the security identifier is written, where the system replies in a given
/// way.
pub open spec fn sid_is_written<Provider, Cipher>(
    world: spec_fn(SystemRequest<Provider, Cipher, Seq<u16>>) -> SystemReply<Seq<u16>>,
) -> bool {
    let bytes = world(SystemRequest::TokenSize)->Size_0;
    &&& world(SystemRequest::OpenToken)->Worked_0
    &&& bytes != 0
    &&& world(
        SystemRequest::ReadToken { bytes, words: words_for(bytes) as usize },
    )->Worked_0
    &&& world(SystemRequest::SidUnits)->Sid_0 is Some
}

/// A token that was opened is closed exactly once, as the last thing, and none is closed that
/// was not opened. The text of the security identifier is freed exactly once, just before,
/// if it was written, and not otherwise. This holds on every path, failures included.
pub proof fn lemma_token_and_sid_are_given_back_once<Provider, Cipher>(
    world: spec_fn(SystemRequest<Provider, Cipher, Seq<u16>>) -> SystemReply<Seq<u16>>,
)
    ensures
        sid_requests(world).len() > 0,
        forall|i: int|
            0 <= i < sid_requests(world).len() ==> ((#[trigger] sid_requests(
                world,
            )[i]) is CloseToken <==> world(SystemRequest::OpenToken)->Worked_0 && i
                == sid_requests(world).len() - 1),
        forall|i: int|
            0 <= i < sid_requests(world).len() ==> ((#[trigger] sid_requests(world)[i]) is FreeSid
                <==> sid_is_written(world) && i == sid_requests(world).len() - 2),
        sid_is_written(world) ==> sid_requests(world).len() >= 2,
{
    reveal_with_fuel(Plan::trace, 7);
    let bytes = world(SystemRequest::TokenSize)->Size_0;
    let open = SystemRequest::<Provider, Cipher, Seq<u16>>::OpenToken;
    let size = SystemRequest::<Provider, Cipher, Seq<u16>>::TokenSize;
    let read = SystemRequest::<Provider, Cipher, Seq<u16>>::ReadToken {
        bytes,
        words: words_for(bytes) as usize,
    };
    let write = SystemRequest::<Provider, Cipher, Seq<u16>>::SidUnits;
    let free = SystemRequest::<Provider, Cipher, Seq<u16>>::FreeSid;
    let close = SystemRequest::<Provider, Cipher, Seq<u16>>::CloseToken;
    let requests = sid_requests(world);
    if !world(open)->Worked_0 {
        assert(requests =~= seq![open]);
    } else if bytes == 0 {
        assert(requests =~= seq![open, size, close]);
    } else if !world(read)->Worked_0 {
        assert(requests =~= seq![open, size, read, close]);
    } else if world(write)->Sid_0 is None {
        assert(requests =~= seq![open, size, read, write, close]);
    } else {
        assert(requests =~= seq![open, size, read, write, free, close]);
    }
}

/// A buffer of machine words holds the bytes that it is made for, and no word less would.
pub proof fn lemma_words_hold_the_bytes(bytes: u32)
    ensures
        usize::BITS == 32 || usize::BITS == 64,
        words_for(bytes) * (if usize::BITS == 32 {
            4int
        } else {
            8int
        }) >= bytes,
        bytes > 0 ==> (words_for(bytes) - 1) * (if usize::BITS == 32 {
            4int
        } else {
            8int
        }) < bytes,
        bytes == 0 ==> words_for(bytes) == 0,
{
}

/// The descriptor makes the user its owner and its group, protects itself from what it would
/// take over, and gives full access to the system, to the administrators and to the user, and
/// to nobody else.
pub proof fn lemma_descriptor_names_the_user(user_sid: Seq<char>)
    ensures
        ({
            let text = descriptor_text(user_sid);
            let n = user_sid.len() as int;
            &&& text.len() == 3 * n + 41
            &&& text.subrange(0, 2) == "O:"@
            &&& text.subrange(2, n + 2) == user_sid
            &&& text.subrange(n + 2, n + 4) == "G:"@
            &&& text.subrange(n + 4, 2 * n + 4) == user_sid
            &&& text.subrange(2 * n + 4, 2 * n + 40) == "D:P(A;;FA;;;SY)(A;;FA;;;BA)(A;;FA;;;"@
            &&& text.subrange(2 * n + 40, 3 * n + 40) == user_sid
            &&& text.last() == ')'
        }),
{
    reveal_strlit("O:");
    reveal_strlit("G:");
    reveal_strlit("D:P(A;;FA;;;SY)(A;;FA;;;BA)(A;;FA;;;");
    reveal_strlit(")");
    let text = descriptor_text(user_sid);
    let n = user_sid.len() as int;
    assert(text.subrange(0, 2) =~= "O:"@);
    assert(text.subrange(2, n + 2) =~= user_sid);
    assert(text.subrange(n + 2, n + 4) =~= "G:"@);
    assert(text.subrange(n + 4, 2 * n + 4) =~= user_sid);
    assert(text.subrange(2 * n + 4, 2 * n + 40) =~= "D:P(A;;FA;;;SY)(A;;FA;;;BA)(A;;FA;;;"@);
    assert(text.subrange(2 * n + 40, 3 * n + 40) =~= user_sid);
}

/// The user is asked for by opening the token, asking for the size of its user, reading that
/// many bytes, and writing the identifier, which is taken as it is written. Every failure is
/// told as what it is.
pub proof fn lemma_user_sid_conversation<Provider, Cipher>(bytes: u32, units: Seq<u16>)
    requires
        bytes != 0,
    ensures
        ({
            let plan = user_sid_plan::<Provider, Cipher>();
            let worked = SystemReply::<Seq<u16>>::Worked(true);
            let failed = SystemReply::<Seq<u16>>::Worked(false);
            let released = SystemReply::<Seq<u16>>::Released;
            let open = SystemRequest::<Provider, Cipher, Seq<u16>>::OpenToken;
            let size = SystemRequest::<Provider, Cipher, Seq<u16>>::TokenSize;
            let read = SystemRequest::<Provider, Cipher, Seq<u16>>::ReadToken {
                bytes,
                words: words_for(bytes) as usize,
            };
            let write = SystemRequest::<Provider, Cipher, Seq<u16>>::SidUnits;
            let free = (SystemRequest::<Provider, Cipher, Seq<u16>>::FreeSid, released);
            let close = (SystemRequest::<Provider, Cipher, Seq<u16>>::CloseToken, released);
            &&& plan.converses(
                seq![
                    (open, worked),
                    (size, SystemReply::Size(bytes)),
                    (read, worked),
                    (write, SystemReply::Sid(Some(units))),
                    free,
                    close,
                ],
                Plan::Done(
                    if well_formed(units) {
                        Ok(lossy_text(units))
                    } else {
                        Err(FsError::Other("Windows user SID is not valid UTF-16"))
                    },
                ),
            )
            &&& plan.converses(
                seq![
                    (open, worked),
                    (size, SystemReply::Size(bytes)),
                    (read, worked),
                    (write, SystemReply::Sid(None)),
                    close,
                ],
                Plan::Done(Err(FsError::Io)),
            )
            &&& plan.converses(
                seq![(open, worked), (size, SystemReply::Size(bytes)), (read, failed), close],
                Plan::Done(Err(FsError::Io)),
            )
            &&& plan.converses(
                seq![(open, worked), (size, SystemReply::Size(0)), close],
                Plan::Done(Err(FsError::Other("cannot determine Windows token user size"))),
            )
            &&& plan.converses(seq![(open, failed)], Plan::Done(Err(FsError::Io)))
        }),
{
    reveal_with_fuel(Plan::converses_from, 7);
}

/// Units and texts are seen as they are, and so are the errors in their place.
pub proof fn lemma_units_and_texts_are_seen_as_they_are(
    units: Vec<u16>,
    text: String,
    error: FsError,
)
    ensures
        units_result(Ok(units)) == Ok::<Seq<u16>, FsError>(units@),
        units_result(Err(error)) == Err::<Seq<u16>, FsError>(error),
        text_result(Ok(text)) == Ok::<Seq<char>, FsError>(text@),
        text_result(Err(error)) == Err::<Seq<char>, FsError>(error),
{
}

} // verus!
