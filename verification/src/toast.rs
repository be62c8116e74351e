//! Toast notifications: short messages shown newest first, each dropped
//! when its timer runs out, and never more than a fixed number at once.
use std::collections::VecDeque;
use vstd::prelude::*;

verus! {

/// How serious a toast message is; it only decides the border colour.
#[derive(Debug, Clone, Copy, PartialEq, Eq, Structural)]
pub enum ToastLevel {
    Info,
    Warning,
    Error,
    Success,
}

impl Default for ToastLevel {
    /// `Info`.
    fn default() -> (res: Self)
        ensures
            res == ToastLevel::Info,
    {
        ToastLevel::Info
    }
}

/// A single toast message.
#[derive(Debug, PartialEq)]
pub struct ToastMessage {
    pub level: ToastLevel,
    pub msg: String,
}

impl Default for ToastMessage {
    /// An empty message at `Info` level.
    fn default() -> (res: Self)
        ensures
            res.level == ToastLevel::Info,
            res.msg@ == Seq::<char>::empty(),
    {
        ToastMessage { level: ToastLevel::default(), msg: String::new() }
    }
}

impl ToastMessage {
    /// A message at `Info` level.
    pub fn info(msg: String) -> (res: Self)
        ensures
            res.level == ToastLevel::Info,
            res.msg == msg,
    {
        ToastMessage::default().level(ToastLevel::Info).msg(msg)
    }

    /// A message at `Warning` level.
    pub fn warning(msg: String) -> (res: Self)
        ensures
            res.level == ToastLevel::Warning,
            res.msg == msg,
    {
        ToastMessage::default().level(ToastLevel::Warning).msg(msg)
    }

    /// A message at `Error` level.
    pub fn error(msg: String) -> (res: Self)
        ensures
            res.level == ToastLevel::Error,
            res.msg == msg,
    {
        ToastMessage::default().level(ToastLevel::Error).msg(msg)
    }

    /// A message at `Success` level.
    pub fn success(msg: String) -> (res: Self)
        ensures
            res.level == ToastLevel::Success,
            res.msg == msg,
    {
        ToastMessage::default().level(ToastLevel::Success).msg(msg)
    }

    /// The message with its level set to `level`.
    pub fn level(self, level: ToastLevel) -> (res: Self)
        ensures
            res.level == level,
            res.msg == self.msg,
    {
        ToastMessage { level, ..self }
    }

    /// The message with its text set to `msg`.
    pub fn msg(self, msg: String) -> (res: Self)
        ensures
            res.level == self.level,
            res.msg == msg,
    {
        ToastMessage { msg, ..self }
    }
}

/// What happens to the toasts: a message is pushed, or the oldest one's
/// timer ran out.
#[derive(Debug)]
pub enum ToastAction {
    Push(ToastMessage),
    Pop,
}

/// How many toasts are kept at most; past it the oldest is dropped.
pub const MAX_TOASTS: usize = 20;

/// The toasts shown, newest first, each with the handle of the timer that
/// will pop it.
pub struct Toast<H> {
    pub messages: VecDeque<(ToastMessage, H)>,
}

/// The toasts after `entry` is pushed in front of `messages`: the oldest
/// is dropped when that makes more than `MAX_TOASTS`.
pub open spec fn pushed<H>(messages: Seq<(ToastMessage, H)>, entry: (ToastMessage, H)) -> Seq<
    (ToastMessage, H),
> {
    let all = seq![entry] + messages;
    if all.len() > MAX_TOASTS {
        all.drop_last()
    } else {
        all
    }
}

/// The toasts after the oldest one's timer ran out.
pub open spec fn popped<H>(messages: Seq<(ToastMessage, H)>) -> Seq<(ToastMessage, H)> {
    if messages.len() > 0 {
        messages.drop_last()
    } else {
        messages
    }
}

impl<H> Toast<H> {
    /// No toasts.
    pub fn new() -> (res: Self)
        ensures
            res.messages@ == Seq::<(ToastMessage, H)>::empty(),
    {
        Toast { messages: VecDeque::new() }
    }

    /// Applies `action`. A pushed message goes in front, with the timer
    /// that `start_timer` starts for it; when that makes more than
    /// `MAX_TOASTS`, the oldest toast is dropped and the handle of its
    /// timer returned, to be stopped. `Pop` drops the oldest toast.
    pub fn handle_action<F: FnOnce() -> H>(&mut self, action: ToastAction, start_timer: F) -> (dropped:
        Option<H>)
        requires
            action is Push ==> call_requires(start_timer, ()),
        ensures
            match action {
                ToastAction::Push(msg) => exists|timer: H|
                    {
                        &&& #[trigger] call_ensures(start_timer, (), timer)
                        &&& final(self).messages@ == pushed(old(self).messages@, (msg, timer))
                        &&& dropped == if old(self).messages@.len() + 1 > MAX_TOASTS {
                            Some((seq![(msg, timer)] + old(self).messages@).last().1)
                        } else {
                            None
                        }
                    },
                ToastAction::Pop => {
                    &&& final(self).messages@ == popped(old(self).messages@)
                    &&& dropped is None
                },
            },
    {
        match action {
            ToastAction::Push(msg) => {
                let timer = start_timer();
                self.messages.push_front((msg, timer));
                if self.messages.len() > MAX_TOASTS {
                    match self.messages.pop_back() {
                        Some((_, handle)) => Some(handle),
                        None => None,
                    }
                } else {
                    None
                }
            },
            ToastAction::Pop => {
                self.messages.pop_back();
                None
            },
        }
    }
}

/// The toasts never grow past `MAX_TOASTS`: a push onto at most that many
/// leaves at most that many, and the pushed message comes first.
pub proof fn law_push_keeps_cap<H>(messages: Seq<(ToastMessage, H)>, entry: (ToastMessage, H))
    requires
        messages.len() <= MAX_TOASTS,
    ensures
        pushed(messages, entry).len() <= MAX_TOASTS,
        pushed(messages, entry)[0] == entry,
        pushed(messages, entry).len() == if messages.len() < MAX_TOASTS {
            messages.len() + 1int
        } else {
            messages.len() as int
        },
{
}

/// A push and then a timeout, below the cap, leave the other toasts as
/// they were, with the newest in front: the oldest one is the one popped.
pub proof fn law_pop_drops_oldest<H>(messages: Seq<(ToastMessage, H)>, entry: (ToastMessage, H))
    requires
        0 < messages.len() < MAX_TOASTS,
    ensures
        popped(pushed(messages, entry)) == seq![entry] + messages.drop_last(),
{
    assert(popped(pushed(messages, entry)) =~= seq![entry] + messages.drop_last());
}

} // verus!
