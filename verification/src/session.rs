//! The receiving side of a session: what each incoming message means in the current
//! state, and how an offer is answered.
use vstd::prelude::*;
use vstd::utf8::{decode_utf8, encode_utf8, valid_utf8};

use crate::protocol::{CLIPBOARD, FILE_OFFER, FILE_UPLOAD, OFFER_ACCEPT, OFFER_REJECT, RESUME_MIN_BYTES, RESUME_REWIND_BYTES};
use crate::state::TransferAction;
use crate::text::string_from_utf8;
use crate::transfer::{
    offer_accept_payload, spec_bytes_to_receive, lemma_file_header_roundtrip, spec_file_header, parse_file_header, spec_accept_payload,
    spec_parse_file_header, TransferError,
};

verus! {

/// What the receiver waits for.
#[derive(PartialEq, Eq)]
pub enum IncomingState {
    /// No offer is accepted.
    Idle,
    /// An offer was accepted; its upload may start.
    AwaitingUpload {
        expected_size: u64,
        expected_name: String,
        resume: bool,
        /// The byte offset the sender was told to resume at.
        resume_offset: u64,
    },
}

/// What an incoming message asks of the receiver.
pub enum SessionEvent {
    /// The peer offers a file.
    Offer { file_size: u64, file_name: String },
    /// The peer starts the upload of the accepted offer.
    Upload { expected_size: u64, expected_name: String, resume: bool, resume_offset: u64 },
    /// The peer pushed clipboard text (`None` when it was not UTF-8).
    Clipboard { text: Option<String> },
}

/// Why a session ended on an incoming message.
#[derive(Debug, Clone, Copy, PartialEq, Eq, Structural)]
pub enum SessionError {
    /// The offer's name length disagrees with its payload.
    InvalidPayload,
    /// The offer's name is not UTF-8.
    InvalidUtf8,
    /// An upload started with no accepted offer.
    UnexpectedUpload,
    /// The message is not expected here.
    ProtocolError,
}

/// The view of an event.
pub enum EventView {
    Offer { file_size: u64, file_name: Seq<char> },
    Upload { expected_size: u64, expected_name: Seq<char>, resume: bool, resume_offset: u64 },
    Clipboard { text: Option<Seq<char>> },
}

/// The view of a classified message.
pub open spec fn event_view(r: Result<SessionEvent, SessionError>) -> Result<EventView, SessionError> {
    match r {
        Ok(SessionEvent::Offer { file_size, file_name }) => Ok(
            EventView::Offer { file_size, file_name: file_name@ },
        ),
        Ok(SessionEvent::Upload { expected_size, expected_name, resume, resume_offset }) => Ok(
            EventView::Upload { expected_size, expected_name: expected_name@, resume, resume_offset },
        ),
        Ok(SessionEvent::Clipboard { text }) => Ok(
            EventView::Clipboard {
                text: match text {
                    Some(t) => Some(t@),
                    None => None,
                },
            },
        ),
        Err(e) => Err(e),
    }
}

/// What a message of type `msg_type` with `payload` means in `state`: an offer while
/// idle, an upload of the accepted offer, clipboard text; anything else ends the
/// session.
pub open spec fn spec_classify(state: IncomingState, msg_type: u8, payload: Seq<u8>) -> Result<
    EventView,
    SessionError,
> {
    if msg_type == FILE_OFFER && payload.len() >= 10 && state is Idle {
        match spec_parse_file_header(payload) {
            Ok((size, name)) => Ok(EventView::Offer { file_size: size, file_name: name }),
            Err(TransferError::InvalidUtf8) => Err(SessionError::InvalidUtf8),
            Err(_) => Err(SessionError::InvalidPayload),
        }
    } else if msg_type == FILE_UPLOAD {
        match state {
            IncomingState::AwaitingUpload { expected_size, expected_name, resume, resume_offset } => Ok(
                EventView::Upload {
                    expected_size,
                    expected_name: expected_name@,
                    resume,
                    resume_offset,
                },
            ),
            IncomingState::Idle => Err(SessionError::UnexpectedUpload),
        }
    } else if msg_type == CLIPBOARD {
        Ok(
            EventView::Clipboard {
                text: if valid_utf8(payload) {
                    Some(decode_utf8(payload))
                } else {
                    None
                },
            },
        )
    } else {
        Err(SessionError::ProtocolError)
    }
}

/// Works out what an incoming message means in `state`.
pub fn classify_message(state: &IncomingState, msg_type: u8, payload: Vec<u8>) -> (res: Result<
    SessionEvent,
    SessionError,
>)
    ensures
        event_view(res) == spec_classify(*state, msg_type, payload@),
{
    let is_idle = match state {
        IncomingState::Idle => true,
        IncomingState::AwaitingUpload { .. } => false,
    };
    if msg_type == FILE_OFFER && payload.len() >= 10 && is_idle {
        match parse_file_header(payload.as_slice()) {
            Ok((file_size, file_name)) => Ok(SessionEvent::Offer { file_size, file_name }),
            Err(TransferError::InvalidUtf8) => Err(SessionError::InvalidUtf8),
            Err(_) => Err(SessionError::InvalidPayload),
        }
    } else if msg_type == FILE_UPLOAD {
        match state {
            IncomingState::AwaitingUpload { expected_size, expected_name, resume, resume_offset } => {
                Ok(
                    SessionEvent::Upload {
                        expected_size: *expected_size,
                        expected_name: expected_name.clone(),
                        resume: *resume,
                        resume_offset: *resume_offset,
                    },
                )
            },
            IncomingState::Idle => Err(SessionError::UnexpectedUpload),
        }
    } else if msg_type == CLIPBOARD {
        Ok(SessionEvent::Clipboard { text: string_from_utf8(payload) })
    } else {
        Err(SessionError::ProtocolError)
    }
}

/// How the receiver answers an offer once the user decided.
pub struct OfferResponse {
    /// What the receiver waits for next.
    pub next_state: IncomingState,
    /// The type of the reply message.
    pub reply_type: u8,
    /// The payload of the reply message.
    pub reply_payload: Vec<u8>,
    /// Whether the peer is to be trusted from now on.
    pub trust_peer: bool,
}

/// Answers an offer of `file_size` bytes named `file_name`: an acceptance tells the
/// sender `resume_offset` and awaits the upload; a rejection returns to idle.
pub fn respond_to_offer(
    action: TransferAction,
    file_size: u64,
    file_name: String,
    resume: bool,
    resume_offset: u64,
) -> (r: OfferResponse)
    ensures
        action == TransferAction::Reject ==> r.next_state == IncomingState::Idle && r.reply_type
            == OFFER_REJECT && r.reply_payload@.len() == 0 && !r.trust_peer,
        action != TransferAction::Reject ==> r.next_state == (IncomingState::AwaitingUpload {
            expected_size: file_size,
            expected_name: file_name,
            resume,
            resume_offset,
        }) && r.reply_type == OFFER_ACCEPT && r.reply_payload@ == spec_accept_payload(resume_offset)
            && r.trust_peer == (action == TransferAction::TrustAndAccept),
{
    match action {
        TransferAction::Reject => OfferResponse {
            next_state: IncomingState::Idle,
            reply_type: OFFER_REJECT,
            reply_payload: Vec::new(),
            trust_peer: false,
        },
        TransferAction::Accept => OfferResponse {
            next_state: IncomingState::AwaitingUpload {
                expected_size: file_size,
                expected_name: file_name,
                resume,
                resume_offset,
            },
            reply_type: OFFER_ACCEPT,
            reply_payload: offer_accept_payload(resume_offset),
            trust_peer: false,
        },
        TransferAction::TrustAndAccept => OfferResponse {
            next_state: IncomingState::AwaitingUpload {
                expected_size: file_size,
                expected_name: file_name,
                resume,
                resume_offset,
            },
            reply_type: OFFER_ACCEPT,
            reply_payload: offer_accept_payload(resume_offset),
            trust_peer: true,
        },
    }
}

/// What to do with a partial file of an accepted offer.
#[derive(Debug, Clone, Copy, PartialEq, Eq, Structural)]
pub enum ResumePlan {
    /// There is no partial file: start from the beginning.
    StartFresh,
    /// The partial file is unusable or too small: delete it and start from the beginning.
    Discard,
    /// Truncate the partial file to this length and resume there.
    ResumeAt(u64),
}

/// Decides how to resume, given the length of the partial file (`None` when there is
/// none) and the size of the offered file. A resumed transfer rewinds a little so a
/// torn write at the end is received again.
pub fn resume_plan(existing: Option<u64>, expected_size: u64) -> (plan: ResumePlan)
    ensures
        plan == spec_resume_plan(existing, expected_size),
        plan matches ResumePlan::ResumeAt(o) ==> 0 < o < expected_size,
{
    match existing {
        None => ResumePlan::StartFresh,
        Some(len) => {
            if len == 0 || len >= expected_size || len < RESUME_MIN_BYTES {
                ResumePlan::Discard
            } else {
                ResumePlan::ResumeAt(len.saturating_sub(RESUME_REWIND_BYTES))
            }
        },
    }
}

/// What is done once the resume plan has been carried out on the partial file.
#[derive(Debug, Clone, Copy, PartialEq, Eq, Structural)]
pub struct ResumeStep {
    /// The partial file is deleted.
    pub delete_partial: bool,
    /// The offset the sender is told to resume at.
    pub offset: u64,
}

/// The step that follows the plan: a partial that is to be discarded, or that could
/// not be opened and cut to the resume offset, is deleted and the file is sent from
/// its start; a partial cut to the offset is resumed there.
pub open spec fn spec_resume_step(plan: ResumePlan, cut_succeeded: bool) -> ResumeStep {
    match plan {
        ResumePlan::StartFresh => ResumeStep { delete_partial: false, offset: 0 },
        ResumePlan::Discard => ResumeStep { delete_partial: true, offset: 0 },
        ResumePlan::ResumeAt(o) => if cut_succeeded {
            ResumeStep { delete_partial: false, offset: o }
        } else {
            ResumeStep { delete_partial: true, offset: 0 }
        },
    }
}

/// Decides what follows the resume plan, given whether the partial file could be
/// opened and cut to the plan's offset (only asked of `ResumeAt`).
pub fn resume_step(plan: ResumePlan, cut_succeeded: bool) -> (step: ResumeStep)
    ensures
        step == spec_resume_step(plan, cut_succeeded),
{
    match plan {
        ResumePlan::StartFresh => ResumeStep { delete_partial: false, offset: 0 },
        ResumePlan::Discard => ResumeStep { delete_partial: true, offset: 0 },
        ResumePlan::ResumeAt(o) => if cut_succeeded {
            ResumeStep { delete_partial: false, offset: o }
        } else {
            ResumeStep { delete_partial: true, offset: 0 }
        },
    }
}

/// The length of the partial file (`None`: there is none) once the plan and its step
/// are carried out on a partial of length `existing`.
pub open spec fn partial_after(existing: Option<u64>, plan: ResumePlan, cut_succeeded: bool) -> Option<u64> {
    if spec_resume_step(plan, cut_succeeded).delete_partial {
        None
    } else {
        match plan {
            ResumePlan::ResumeAt(o) => Some(o),
            _ => existing,
        }
    }
}

/// Preparing a resume leaves the partial file absent or exactly as long as the offset
/// the sender is told, and that offset is zero or below the file's size.
pub proof fn lemma_resume_leaves_partial_at_offset(
    existing: Option<u64>,
    expected_size: u64,
    cut_succeeded: bool,
)
    ensures
        ({
            let plan = spec_resume_plan(existing, expected_size);
            let step = spec_resume_step(plan, cut_succeeded);
            &&& (partial_after(existing, plan, cut_succeeded) is None || partial_after(
                existing,
                plan,
                cut_succeeded,
            ) == Some(step.offset))
            &&& (step.offset == 0 || step.offset < expected_size)
        }),
{
}

/// The decision on an offer that needs no user: offers from trusted devices are
/// accepted at once; `None` means the user is asked.
pub fn automatic_decision(is_trusted: bool) -> (decision: Option<TransferAction>)
    ensures
        is_trusted ==> decision == Some(TransferAction::Accept),
        !is_trusted ==> decision is None,
{
    if is_trusted {
        Some(TransferAction::Accept)
    } else {
        None
    }
}

/// The decision `resume_plan` makes.
pub open spec fn spec_resume_plan(existing: Option<u64>, expected_size: u64) -> ResumePlan {
    match existing {
        None => ResumePlan::StartFresh,
        Some(len) => if len == 0 || len >= expected_size || len < RESUME_MIN_BYTES {
            ResumePlan::Discard
        } else {
            ResumePlan::ResumeAt(
                (if len >= RESUME_REWIND_BYTES {
                    len - RESUME_REWIND_BYTES
                } else {
                    0
                }) as u64,
            )
        },
    }
}

/// A resumed transfer stays in lock-step: the partial file is cut to the offset the
/// sender is told, the sender streams from there, and the receiver expects exactly
/// the rest, so the file ends at its announced size.
pub proof fn lemma_resume_lockstep(existing: Option<u64>, expected_size: u64)
    ensures
        spec_resume_plan(existing, expected_size) matches ResumePlan::ResumeAt(o) ==> o
            + spec_bytes_to_receive(expected_size, o) == expected_size && o < expected_size,
{
}

/// An idle receiver reads the offer a sender makes as an offer of that file.
pub proof fn lemma_offer_reaches_receiver(file_size: u64, name: Seq<char>)
    requires
        encode_utf8(name).len() <= u16::MAX,
    ensures
        spec_classify(IncomingState::Idle, FILE_OFFER, spec_file_header(file_size, encode_utf8(name)))
            == Ok::<EventView, SessionError>(EventView::Offer { file_size, file_name: name }),
{
    lemma_file_header_roundtrip(file_size, name);
}

/// How a partial download is resumed, for every partial length and offer size: with
/// no partial the file starts fresh; a partial that is empty, not shorter than the
/// offered file, or shorter than `RESUME_MIN_BYTES` is discarded; any other partial is
/// resumed `RESUME_REWIND_BYTES` before its end (at zero if it is shorter than that).
pub proof fn lemma_resume_plan_cases(existing: Option<u64>, expected_size: u64)
    ensures
        existing is None ==> spec_resume_plan(existing, expected_size) == ResumePlan::StartFresh,
        existing matches Some(len) ==> (len == 0 || len >= expected_size || len < RESUME_MIN_BYTES)
            ==> spec_resume_plan(existing, expected_size) == ResumePlan::Discard,
        existing matches Some(len) ==> (RESUME_MIN_BYTES <= len < expected_size) ==> spec_resume_plan(
            existing,
            expected_size,
        ) == ResumePlan::ResumeAt(
            (if len >= RESUME_REWIND_BYTES {
                len - RESUME_REWIND_BYTES
            } else {
                0int
            }) as u64,
        ),
{
}

/// Clipboard text is taken in every receiver state, whatever is awaited: the message
/// gives the text when it is UTF-8 and no text otherwise, and two states never
/// classify the same clipboard message differently.
pub proof fn lemma_clipboard_in_any_state(state: IncomingState, other: IncomingState, payload: Seq<u8>)
    ensures
        spec_classify(state, CLIPBOARD, payload) == Ok::<EventView, SessionError>(
            EventView::Clipboard {
                text: if valid_utf8(payload) {
                    Some(decode_utf8(payload))
                } else {
                    None
                },
            },
        ),
        spec_classify(state, CLIPBOARD, payload) == spec_classify(other, CLIPBOARD, payload),
{
}

/// What each kind of message means: an upload is the upload of the accepted offer
/// (with that offer's size, name and resume offset) and is refused when nothing was
/// accepted; an offer while an upload is awaited, and any message of another type,
/// ends the session.
pub proof fn lemma_classify_by_type(state: IncomingState, msg_type: u8, payload: Seq<u8>)
    ensures
        msg_type == FILE_UPLOAD ==> match state {
            IncomingState::Idle => spec_classify(state, msg_type, payload) == Err::<
                EventView,
                SessionError,
            >(SessionError::UnexpectedUpload),
            IncomingState::AwaitingUpload { expected_size, expected_name, resume, resume_offset } =>
                spec_classify(state, msg_type, payload) == Ok::<EventView, SessionError>(
                EventView::Upload {
                    expected_size,
                    expected_name: expected_name@,
                    resume,
                    resume_offset,
                },
            ),
        },
        msg_type == FILE_OFFER && state is AwaitingUpload ==> spec_classify(state, msg_type, payload)
            == Err::<EventView, SessionError>(SessionError::ProtocolError),
        msg_type == FILE_OFFER && payload.len() < 10 ==> spec_classify(state, msg_type, payload)
            == Err::<EventView, SessionError>(SessionError::ProtocolError),
        msg_type != FILE_OFFER && msg_type != FILE_UPLOAD && msg_type != CLIPBOARD ==> spec_classify(
            state,
            msg_type,
            payload,
        ) == Err::<EventView, SessionError>(SessionError::ProtocolError),
{
}

} // verus!
