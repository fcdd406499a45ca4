//! What holds of a command over all its tries.

use super::model::{begun, next, GpsModel};
use super::{EventModel, Goal, ReplyModel, Stage, Step, NUM_SET_NMEA_OUTPUT};
use crate::transact::{ack_of, Retries};
use crate::{Error, DELAY_BEFORE_RETRY_US, MAX_CMD_TRIES};
use vstd::prelude::*;

verus! {

/// An operation is over exactly when the session is idle again: the step
/// that ends it is the only one that leaves no action out.
pub proof fn lemma_done_is_idle<TxError>(model: GpsModel, event: EventModel<TxError>)
    ensures
        next(model, event).1 is Done <==> next(model, event).0.stage == Stage::Idle,
{
}

/// Whether the receiver is known to keep quiet changes in two places only.
/// It is known once the command that disables the periodic output has been
/// acknowledged, and it is no longer known once a try to restart the
/// receiver begins after a pause. (The first try of a restart begins with
/// the operation.)
pub proof fn lemma_output_flag<TxError>(model: GpsModel, event: EventModel<TxError>)
    ensures
        next(model, event).0.disabled_nmea_output == if model.stage == Stage::DisableReceive
            && event is Frame && ack_of::<TxError>(event->Frame_0, NUM_SET_NMEA_OUTPUT@).is_ok() {
            true
        } else if model.stage == Stage::RebootPause && event is Ready {
            false
        } else {
            model.disabled_nmea_output
        },
{
}

/// How the line answers one try of a command.
#[verifier::ext_equal]
pub enum Answer<TxError> {
    /// The command could not be written: the transport blocked for too long,
    /// or failed.
    NotSent(Error<TxError>),
    /// The command was written, and no frame could be read.
    NotAnswered(Error<TxError>),
    /// The command was written, and this frame came back.
    Frame(Seq<u8>),
}

/// How a try of the command with the number `for_num` ends that is answered
/// with `answer`, where the command awaits its acknowledgement.
pub open spec fn try_result<TxError>(answer: Answer<TxError>, for_num: Seq<u8>) -> Result<
    (),
    Error<TxError>,
> {
    match answer {
        Answer::NotSent(err) => Err(err),
        Answer::NotAnswered(err) => Err(err),
        Answer::Frame(frame) => ack_of::<TxError>(frame, for_num),
    }
}

/// The session and its step after one try has been answered with `answer`.
/// `model` is the session while the try is being sent.
pub open spec fn after_answer<TxError>(model: GpsModel, answer: Answer<TxError>) -> (
    GpsModel,
    Step<TxError>,
) {
    match answer {
        Answer::NotSent(err) => next::<TxError>(model, EventModel::Failed(err)),
        Answer::NotAnswered(err) => next::<TxError>(
            next::<TxError>(model, EventModel::Ready).0,
            EventModel::Failed(err),
        ),
        Answer::Frame(frame) => next::<TxError>(
            next::<TxError>(model, EventModel::Ready).0,
            EventModel::Frame(frame),
        ),
    }
}

/// The session and its step after the tries of a command have been answered
/// with `answers`, one after another, and how often the pause between two
/// tries was slept. `model` is the session while a try is being sent. Where
/// an answer calls for the pause, it is slept and the command is sent again.
/// Answers that are left when the operation is over are not used.
pub open spec fn after_answers<TxError>(model: GpsModel, answers: Seq<Answer<TxError>>) -> (
    GpsModel,
    Step<TxError>,
    nat,
)
    decreases answers.len(),
{
    if answers.len() == 0 {
        (model, Step::Send(model.frame), 0)
    } else {
        let (answered, step) = after_answer(model, answers[0]);
        if step == Step::<TxError>::Delay(DELAY_BEFORE_RETRY_US) {
            let (last, end, pauses) = after_answers(
                next::<TxError>(answered, EventModel::Ready).0,
                answers.skip(1),
            );
            (last, end, pauses + 1)
        } else {
            (answered, step, 0)
        }
    }
}

/// Whether a try that is answered with `answer` fails in a way that trying
/// again may mend: by a timeout, by a frame that cannot be read, or by a
/// frame that is not the acknowledgement awaited.
pub open spec fn fails_for_now<TxError>(answer: Answer<TxError>, for_num: Seq<u8>) -> bool {
    match try_result(answer, for_num) {
        Ok(()) => false,
        Err(err) => err.retryable(),
    }
}

/// Whether `model` is a session in which a try of a command that awaits its
/// acknowledgement is being sent.
pub open spec fn sending_for_ack(model: GpsModel) -> bool {
    &&& model.stage == Stage::CommandSend
    &&& model.goal == Goal::Ack
    &&& model.tries.max_tries == MAX_CMD_TRIES
    &&& 1 <= model.tries.tries <= MAX_CMD_TRIES + 1
}

/// One try that fails for now is followed by the pause and by another try,
/// as long as no more tries have begun than may fail; else the command is
/// given up with the error of the try.
proof fn lemma_failed_try<TxError>(model: GpsModel, answer: Answer<TxError>)
    requires
        sending_for_ack(model),
        fails_for_now(answer, model.ack_for),
    ensures
        model.tries.tries <= MAX_CMD_TRIES ==> {
            &&& after_answer(model, answer).1 == Step::<TxError>::Delay(DELAY_BEFORE_RETRY_US)
            &&& sending_for_ack(
                next::<TxError>(after_answer(model, answer).0, EventModel::Ready).0,
            )
            &&& next::<TxError>(after_answer(model, answer).0, EventModel::Ready).0.tries.tries
                == model.tries.tries + 1
            &&& next::<TxError>(after_answer(model, answer).0, EventModel::Ready).0.ack_for
                == model.ack_for
        },
        model.tries.tries > MAX_CMD_TRIES ==> {
            &&& after_answer(model, answer).1 == Step::<TxError>::Done(
                Err(try_result(answer, model.ack_for).unwrap_err()),
            )
            &&& after_answer(model, answer).0.tries == model.tries
            &&& after_answer(model, answer).0.stage == Stage::Idle
        },
{
    let sent = next::<TxError>(model, EventModel::Ready).0;
    assert(sent.stage == Stage::CommandReceive);
    assert(sent.tries == model.tries && sent.goal == model.goal && sent.ack_for == model.ack_for);
    let err = try_result(answer, model.ack_for).unwrap_err();
    assert(err.retryable());
}

/// One try that is acknowledged ends the command in success.
proof fn lemma_acknowledged_try<TxError>(model: GpsModel, answer: Answer<TxError>)
    requires
        sending_for_ack(model),
        try_result(answer, model.ack_for).is_ok(),
    ensures
        after_answer(model, answer).1 == Step::<TxError>::Done(Ok(ReplyModel::Complete)),
        after_answer(model, answer).0.tries == model.tries,
        after_answer(model, answer).0.stage == Stage::Idle,
{
    let sent = next::<TxError>(model, EventModel::Ready).0;
    assert(sent.stage == Stage::CommandReceive);
    assert(sent.tries == model.tries && sent.goal == model.goal && sent.ack_for == model.ack_for);
    assert(answer is Frame);
}

proof fn lemma_succeeds_at_last<TxError>(model: GpsModel, answers: Seq<Answer<TxError>>)
    requires
        sending_for_ack(model),
        answers.len() >= 1,
        model.tries.tries + answers.len() - 1 <= MAX_CMD_TRIES + 1,
        forall|k: int|
            0 <= k < answers.len() - 1 ==> fails_for_now(#[trigger] answers[k], model.ack_for),
        try_result(answers.last(), model.ack_for).is_ok(),
    ensures
        after_answers(model, answers).1 == Step::<TxError>::Done(Ok(ReplyModel::Complete)),
        after_answers(model, answers).0.stage == Stage::Idle,
        after_answers(model, answers).0.tries.tries == model.tries.tries + answers.len() - 1,
        after_answers(model, answers).2 == answers.len() - 1,
    decreases answers.len(),
{
    if answers.len() == 1 {
        assert(answers.last() == answers[0]);
        lemma_acknowledged_try(model, answers[0]);
    } else {
        assert(fails_for_now(answers[0], model.ack_for));
        lemma_failed_try(model, answers[0]);
        let again = next::<TxError>(after_answer(model, answers[0]).0, EventModel::Ready).0;
        let rest = answers.skip(1);
        assert(rest.last() == answers.last());
        assert forall|k: int| 0 <= k < rest.len() - 1 implies fails_for_now(
            #[trigger] rest[k],
            again.ack_for,
        ) by {
            assert(rest[k] == answers[k + 1]);
        }
        lemma_succeeds_at_last(again, rest);
    }
}

proof fn lemma_given_up<TxError>(model: GpsModel, answers: Seq<Answer<TxError>>)
    requires
        sending_for_ack(model),
        answers.len() >= MAX_CMD_TRIES + 2 - model.tries.tries,
        forall|k: int|
            0 <= k < MAX_CMD_TRIES + 2 - model.tries.tries ==> fails_for_now(
                #[trigger] answers[k],
                model.ack_for,
            ),
    ensures
        after_answers(model, answers).1 == Step::<TxError>::Done(
            Err(
                try_result(
                    answers[MAX_CMD_TRIES + 1 - model.tries.tries],
                    model.ack_for,
                ).unwrap_err(),
            ),
        ),
        after_answers(model, answers).0.stage == Stage::Idle,
        after_answers(model, answers).0.tries.tries == MAX_CMD_TRIES + 1,
        after_answers(model, answers).2 == MAX_CMD_TRIES + 1 - model.tries.tries,
    decreases answers.len(),
{
    assert(fails_for_now(answers[0], model.ack_for));
    lemma_failed_try(model, answers[0]);
    if model.tries.tries <= MAX_CMD_TRIES {
        let again = next::<TxError>(after_answer(model, answers[0]).0, EventModel::Ready).0;
        let rest = answers.skip(1);
        assert forall|k: int| 0 <= k < MAX_CMD_TRIES + 2 - again.tries.tries implies fails_for_now(
            #[trigger] rest[k],
            again.ack_for,
        ) by {
            assert(rest[k] == answers[k + 1]);
        }
        lemma_given_up(again, rest);
        assert(rest[MAX_CMD_TRIES + 1 - again.tries.tries] == answers[MAX_CMD_TRIES + 1
            - model.tries.tries]);
    }
}

/// Retry bound, where the command succeeds: a command that awaits its
/// acknowledgement and has just been sent for the first time, whose try
/// number `n` is acknowledged after all tries before it have failed in a way
/// that trying again may mend, succeeds if `n` is at most one more than
/// `MAX_CMD_TRIES`. Exactly `n` tries are made then, and the pause is slept
/// exactly once between each two of them.
pub proof fn lemma_command_succeeds<TxError>(model: GpsModel, answers: Seq<Answer<TxError>>)
    requires
        model.stage == Stage::CommandSend,
        model.goal == Goal::Ack,
        model.tries == Retries::fresh(MAX_CMD_TRIES).begun(),
        1 <= answers.len() <= MAX_CMD_TRIES + 1,
        forall|k: int|
            0 <= k < answers.len() - 1 ==> fails_for_now(#[trigger] answers[k], model.ack_for),
        try_result(answers.last(), model.ack_for).is_ok(),
    ensures
        after_answers(model, answers).1 == Step::<TxError>::Done(Ok(ReplyModel::Complete)),
        after_answers(model, answers).0.stage == Stage::Idle,
        after_answers(model, answers).0.tries.tries == answers.len(),
        after_answers(model, answers).2 == answers.len() - 1,
{
    lemma_succeeds_at_last(model, answers);
}

/// Retry bound, where the command is given up: a command that awaits its
/// acknowledgement and has just been sent for the first time, whose tries
/// all fail in a way that trying again may mend, fails after exactly one try
/// more than `MAX_CMD_TRIES`, with the error of that try. The pause is slept
/// `MAX_CMD_TRIES` times, and what the line would answer to further tries
/// makes no difference.
pub proof fn lemma_command_given_up<TxError>(model: GpsModel, answers: Seq<Answer<TxError>>)
    requires
        model.stage == Stage::CommandSend,
        model.goal == Goal::Ack,
        model.tries == Retries::fresh(MAX_CMD_TRIES).begun(),
        answers.len() >= MAX_CMD_TRIES + 1,
        forall|k: int|
            0 <= k <= MAX_CMD_TRIES ==> fails_for_now(#[trigger] answers[k], model.ack_for),
    ensures
        after_answers(model, answers).1 == Step::<TxError>::Done(
            Err(try_result(answers[MAX_CMD_TRIES as int], model.ack_for).unwrap_err()),
        ),
        after_answers(model, answers).0.stage == Stage::Idle,
        after_answers(model, answers).0.tries.tries == MAX_CMD_TRIES + 1,
        after_answers(model, answers).2 == MAX_CMD_TRIES,
{
    lemma_given_up(model, answers);
}

/// A command that the receiver rejects, or that the transport fails on, is
/// not tried again: the operation ends with that error at once.
pub proof fn lemma_rejected_try_ends<TxError>(model: GpsModel, answer: Answer<TxError>)
    requires
        sending_for_ack(model),
        try_result(answer, model.ack_for).is_err(),
        !try_result(answer, model.ack_for).unwrap_err().retryable(),
    ensures
        after_answer(model, answer).1 == Step::<TxError>::Done(
            Err(try_result(answer, model.ack_for).unwrap_err()),
        ),
        after_answer(model, answer).0.stage == Stage::Idle,
{
    let sent = next::<TxError>(model, EventModel::Ready).0;
    assert(sent.stage == Stage::CommandReceive);
    assert(sent.tries == model.tries && sent.goal == model.goal && sent.ack_for == model.ack_for);
}

/// With the periodic output disabled already, to begin a command that awaits
/// its acknowledgement is to send it for the first time: the retry bounds
/// above hold of the session that begins.
pub proof fn lemma_command_begins<TxError>(before: GpsModel, frame: Seq<u8>, num: Seq<u8>)
    requires
        before.disabled_nmea_output,
    ensures
        ({
            let (model, step) = begun::<TxError>(
                GpsModel { goal: Goal::Ack, frame, ack_for: num, ..before },
            );
            &&& step == Step::<TxError>::Send(frame)
            &&& model.stage == Stage::CommandSend
            &&& model.goal == Goal::Ack
            &&& model.tries == Retries::fresh(MAX_CMD_TRIES).begun()
            &&& model.ack_for == num
            &&& model.frame == frame
        }),
{
}

} // verus!
