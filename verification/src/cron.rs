//! The end of an epoch.

use crate::error::{ApplyError, ErrorView};
use crate::execution::{
    executed_view, implicit_request, implicit_request_view, implicit_result, implicit_result_view,
    ApplyKind, ExecutionRequest, RequestView,
};
use crate::identifiers::Cid;
use crate::message::{
    cron_message, cron_message_view, message_encoding, ChainMessage, ChainMessageView, MessageView,
    UnsignedMessage,
};
use crate::receipt::{ApplyRet, ExecutorRet, RetView};
use vstd::prelude::*;

verus! {

/// What a callback is called with: a message that was applied, its identifier and its result.
#[derive(Debug)]
pub struct Notification {
    pub cid: Cid,
    pub message: ChainMessage,
    pub ret: ApplyRet,
}

/// The contents of a `Notification`.
#[verifier::ext_equal]
pub struct NotificationView {
    pub cid: Seq<u8>,
    pub message: ChainMessageView,
    pub ret: RetView,
}

impl View for Notification {
    type V = NotificationView;

    open spec fn view(&self) -> NotificationView {
        NotificationView { cid: self.cid@, message: self.message@, ret: self.ret@ }
    }
}

/// What a callback answered: nothing, or the text of its error.
pub open spec fn notified_view(answer: Result<(), String>) -> Result<(), Seq<char>> {
    match answer {
        Ok(_) => Ok(()),
        Err(error) => Err(error@),
    }
}

/// What an attempt came to: nothing, or an error.
pub open spec fn attempt_view(result: Result<(), ApplyError>) -> Result<(), ErrorView> {
    match result {
        Ok(_) => Ok(()),
        Err(error) => Err(error@),
    }
}

/// An epoch whose last message is being executed.
#[derive(Debug)]
pub struct CronExecuting {
    message: UnsignedMessage,
    with_callback: bool,
}

/// The contents of a `CronExecuting`.
#[verifier::ext_equal]
pub struct CronView {
    pub message: MessageView,
    pub with_callback: bool,
}

impl View for CronExecuting {
    type V = CronView;

    closed spec fn view(&self) -> CronView {
        CronView { message: self.message@, with_callback: self.with_callback }
    }
}

/// An epoch whose last message was executed, with a callback outstanding.
#[derive(Debug)]
pub struct CronNotifying {}

/// How the end of an epoch goes on once its message has been executed.
#[derive(Debug)]
pub enum CronStep {
    /// Call the callback, and hand over what it answers.
    Notify(Notification, CronNotifying),
    /// The epoch has ended, or could not be ended.
    Finish(Result<(), ApplyError>),
}

/// The contents of a `CronStep`.
#[verifier::ext_equal]
pub enum CronStepView {
    Notify(NotificationView),
    Finish(Result<(), ErrorView>),
}

impl View for CronStep {
    type V = CronStepView;

    open spec fn view(&self) -> CronStepView {
        match self {
            CronStep::Notify(notification, _) => CronStepView::Notify(notification@),
            CronStep::Finish(result) => CronStepView::Finish(attempt_view(*result)),
        }
    }
}

/// The end of `epoch`.
pub open spec fn cron_view(epoch: i64, with_callback: bool) -> CronView {
    CronView { message: cron_message_view(epoch), with_callback }
}

impl CronView {
    /// The request to execute the message that ends the epoch.
    pub open spec fn request(self) -> RequestView {
        implicit_request_view(self.message)
    }

    /// How the end of the epoch goes on once the executor has answered. The message is not
    /// charged for. An error of the executor or of the actor ends the attempt.
    pub open spec fn executed(self, answer: Result<RetView, Seq<char>>) -> CronStepView {
        match implicit_result_view(answer) {
            Err(error) => CronStepView::Finish(Err(ErrorView::Message(error))),
            Ok(ret) => match ret.error {
                Some(error) => CronStepView::Finish(Err(ErrorView::Cron(error))),
                None => if self.with_callback {
                    let message = ChainMessageView::Unsigned(self.message);
                    CronStepView::Notify(
                        NotificationView { cid: message.cid()->Ok_0, message, ret },
                    )
                } else {
                    CronStepView::Finish(Ok(()))
                },
            },
        }
    }
}

/// What the end of an epoch comes to once the callback has answered.
pub open spec fn cron_notified(answer: Result<(), Seq<char>>) -> Result<(), ErrorView> {
    match answer {
        Ok(_) => Ok(()),
        Err(error) => Err(ErrorView::Callback(error)),
    }
}

/// Begins to end `epoch`: the request is for the executor.
pub fn start_cron(epoch: i64, with_callback: bool) -> (start: (ExecutionRequest, CronExecuting))
    ensures
        start.0@ == cron_view(epoch, with_callback).request(),
        start.1@ == cron_view(epoch, with_callback),
        start.0.message@ == start.1@.message,
        start.0.kind == ApplyKind::Implicit,
        start.0.raw_length == message_encoding(start.1@.message)->Ok_0.len(),
        start.1@.with_callback == with_callback,
{
    let message = cron_message(epoch);
    let request = implicit_request(&message);
    (request, CronExecuting { message, with_callback })
}

impl CronExecuting {
    /// The message has an encoding.
    #[verifier::type_invariant]
    spec fn wf(self) -> bool {
        self.message@.encodable()
    }

    /// Goes on once the executor has answered.
    pub fn executed(self, answer: Result<ExecutorRet, String>) -> (step: CronStep)
        ensures
            step@ == self@.executed(executed_view(answer)),
            match answer {
                Err(error) => step@ == CronStepView::Finish(Err(ErrorView::Message(error@))),
                Ok(ret) => {
                    &&& ret@.error matches Some(error) ==> step@ == CronStepView::Finish(
                        Err(ErrorView::Cron(error)),
                    )
                    &&& ret@.error is None && !self@.with_callback ==> step@
                        == CronStepView::Finish(Ok(()))
                    &&& ret@.error is None && self@.with_callback ==> step is Notify
                },
            },
    {
        proof {
            use_type_invariant(&self);
        }
        let ret = match implicit_result(answer) {
            Ok(ret) => ret,
            Err(error) => return CronStep::Finish(Err(ApplyError::Message(error))),
        };
        if let Some(error) = ret.act_error {
            return CronStep::Finish(Err(ApplyError::Cron(error.text)));
        }
        if self.with_callback {
            let message = ChainMessage::Unsigned(self.message);
            let cid = message.cid().expect("encoding error");
            CronStep::Notify(Notification { cid, message, ret }, CronNotifying {  })
        } else {
            CronStep::Finish(Ok(()))
        }
    }
}

impl CronNotifying {
    /// Goes on once the callback has answered.
    pub fn notified(self, answer: Result<(), String>) -> (result: Result<(), ApplyError>)
        ensures
            attempt_view(result) == cron_notified(notified_view(answer)),
            match answer {
                Ok(_) => result is Ok,
                Err(error) => result matches Err(e) && e@ == ErrorView::Callback(error@),
            },
    {
        match answer {
            Ok(_) => Ok(()),
            Err(error) => Err(ApplyError::Callback(error)),
        }
    }
}

} // verus!
