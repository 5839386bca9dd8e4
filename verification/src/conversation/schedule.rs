//! What is done next while conversations are open: what came in, in order of its rank, and then what
//! is due.
use vstd::prelude::*;

verus! {

/// The seconds between two looks at the queue, and at the payloads that wait for keys.
pub const RETRY_SECONDS: u64 = 1;

/// The seconds before the first look at the mailboxes.
pub const FIRST_MAILBOX_SECONDS: u64 = 5;

/// The seconds between two looks at the mailboxes, and between two rounds of signs of life.
pub const ROUND_SECONDS: u64 = 60;

/// The milliseconds within which a member gives a sign of life.
pub const PING_MILLIS: u64 = 15;

/// What a task has to do.
#[derive(Clone, Copy, PartialEq, Eq, Structural, Debug)]
pub enum TaskWork {
    Command,
    Attachment,
    PingExpired,
    Request,
    Event,
    Message,
    Queue,
    PendingPayload,
    Mailbox,
    Ping,
}

/// What the store has to do.
#[derive(Clone, Copy, PartialEq, Eq, Structural, Debug)]
pub enum StoreWork {
    Receiver,
    Attachment,
    Identity,
    Notice,
    Topic,
    MailboxResult,
    Queue,
    PendingPayload,
    Mailbox,
}

/// What has come in for a task.
#[derive(Clone, Copy, PartialEq, Eq, Structural, Debug)]
pub struct TaskInput {
    pub command: bool,
    pub attachment: bool,
    pub ping_expired: bool,
    pub request: bool,
    pub event: bool,
    pub message: bool,
}

/// What has come in for the store.
#[derive(Clone, Copy, PartialEq, Eq, Structural, Debug)]
pub struct StoreInput {
    pub receiver: bool,
    pub attachment: bool,
    pub identity: bool,
    pub notice: bool,
    pub topic: bool,
    pub mailbox_result: bool,
}

/// The times, in seconds, at which recurring work is due.
#[derive(Clone, Copy, PartialEq, Eq, Structural, Debug)]
pub struct Timers {
    pub queue: u64,
    pub pending: u64,
    pub mailbox: u64,
    pub ping: u64,
}

impl TaskWork {
    /// The order in which work is taken up.
    pub open spec fn rank(self) -> int {
        match self {
            TaskWork::Command => 0,
            TaskWork::Attachment => 1,
            TaskWork::PingExpired => 2,
            TaskWork::Request => 3,
            TaskWork::Event => 4,
            TaskWork::Message => 5,
            TaskWork::Queue => 6,
            TaskWork::PendingPayload => 7,
            TaskWork::Mailbox => 8,
            TaskWork::Ping => 9,
        }
    }

    /// Whether there is such work at a time.
    pub open spec fn is_there(self, input: TaskInput, timers: Timers, now: u64) -> bool {
        match self {
            TaskWork::Command => input.command,
            TaskWork::Attachment => input.attachment,
            TaskWork::PingExpired => input.ping_expired,
            TaskWork::Request => input.request,
            TaskWork::Event => input.event,
            TaskWork::Message => input.message,
            TaskWork::Queue => timers.queue <= now,
            TaskWork::PendingPayload => timers.pending <= now,
            TaskWork::Mailbox => timers.mailbox <= now,
            TaskWork::Ping => timers.ping <= now,
        }
    }
}

impl StoreWork {
    /// The order in which work is taken up.
    pub open spec fn rank(self) -> int {
        match self {
            StoreWork::Receiver => 0,
            StoreWork::Attachment => 1,
            StoreWork::Identity => 2,
            StoreWork::Notice => 3,
            StoreWork::Topic => 4,
            StoreWork::MailboxResult => 5,
            StoreWork::Queue => 6,
            StoreWork::PendingPayload => 7,
            StoreWork::Mailbox => 8,
        }
    }

    /// Whether there is such work at a time.
    pub open spec fn is_there(self, input: StoreInput, timers: Timers, now: u64) -> bool {
        match self {
            StoreWork::Receiver => input.receiver,
            StoreWork::Attachment => input.attachment,
            StoreWork::Identity => input.identity,
            StoreWork::Notice => input.notice,
            StoreWork::Topic => input.topic,
            StoreWork::MailboxResult => input.mailbox_result,
            StoreWork::Queue => timers.queue <= now,
            StoreWork::PendingPayload => timers.pending <= now,
            StoreWork::Mailbox => timers.mailbox <= now,
        }
    }
}

/// A time that lies some seconds after another.
pub open spec fn later(now: u64, seconds: u64) -> u64 {
    if now + seconds > u64::MAX {
        u64::MAX
    } else {
        (now + seconds) as u64
    }
}

/// The timers after a task did some work: recurring work is due again after its time.
pub open spec fn after_task_work(timers: Timers, work: TaskWork, now: u64) -> Timers {
    match work {
        TaskWork::Queue => Timers { queue: later(now, RETRY_SECONDS), ..timers },
        TaskWork::PendingPayload => Timers { pending: later(now, RETRY_SECONDS), ..timers },
        TaskWork::Mailbox => Timers { mailbox: later(now, ROUND_SECONDS), ..timers },
        TaskWork::Ping => Timers { ping: later(now, ROUND_SECONDS), ..timers },
        _ => timers,
    }
}

/// The timers after the store did some work: recurring work is due again after its time.
pub open spec fn after_store_work(timers: Timers, work: StoreWork, now: u64) -> Timers {
    match work {
        StoreWork::Queue => Timers { queue: later(now, RETRY_SECONDS), ..timers },
        StoreWork::PendingPayload => Timers { pending: later(now, RETRY_SECONDS), ..timers },
        StoreWork::Mailbox => Timers { mailbox: later(now, ROUND_SECONDS), ..timers },
        _ => timers,
    }
}

impl TaskWork {
    /// How long recurring work rests after it was done.
    pub open spec fn rest(self) -> Option<u64> {
        match self {
            TaskWork::Queue | TaskWork::PendingPayload => Some(RETRY_SECONDS),
            TaskWork::Mailbox | TaskWork::Ping => Some(ROUND_SECONDS),
            _ => None,
        }
    }
}

/// Recurring work that a task has done is not there again before its time, and is there from then
/// on. Other work is there as it was.
pub proof fn done_work_rests(
    timers: Timers,
    work: TaskWork,
    other: TaskWork,
    input: TaskInput,
    now: u64,
    time: u64,
)
    requires
        work.rest() is Some,
        now + work.rest()->Some_0 <= u64::MAX,
        other != work,
    ensures
        work.is_there(input, after_task_work(timers, work, now), time) == (time >= now
            + work.rest()->Some_0),
        other.is_there(input, after_task_work(timers, work, now), time) == other.is_there(
            input,
            timers,
            time,
        ),
{
}

impl Timers {
    /// The timers at the start of a loop.
    pub fn start(now: u64) -> (r: Timers)
        ensures
            r == (Timers {
                queue: later(now, RETRY_SECONDS),
                pending: later(now, RETRY_SECONDS),
                mailbox: later(now, FIRST_MAILBOX_SECONDS),
                ping: later(now, RETRY_SECONDS),
            }),
    {
        Timers {
            queue: now.saturating_add(RETRY_SECONDS),
            pending: now.saturating_add(RETRY_SECONDS),
            mailbox: now.saturating_add(FIRST_MAILBOX_SECONDS),
            ping: now.saturating_add(RETRY_SECONDS),
        }
    }

    /// What a task does next: of the work that is there, that of the lowest rank.
    pub fn next_for_task(&self, input: TaskInput, now: u64) -> (r: Option<TaskWork>)
        ensures
            match r {
                Some(work) => {
                    &&& work.is_there(input, *self, now)
                    &&& forall|other: TaskWork| #[trigger]
                        other.is_there(input, *self, now) ==> work.rank() <= other.rank()
                },
                None => forall|other: TaskWork| !#[trigger] other.is_there(input, *self, now),
            },
    {
        if input.command {
            Some(TaskWork::Command)
        } else if input.attachment {
            Some(TaskWork::Attachment)
        } else if input.ping_expired {
            Some(TaskWork::PingExpired)
        } else if input.request {
            Some(TaskWork::Request)
        } else if input.event {
            Some(TaskWork::Event)
        } else if input.message {
            Some(TaskWork::Message)
        } else if self.queue <= now {
            Some(TaskWork::Queue)
        } else if self.pending <= now {
            Some(TaskWork::PendingPayload)
        } else if self.mailbox <= now {
            Some(TaskWork::Mailbox)
        } else if self.ping <= now {
            Some(TaskWork::Ping)
        } else {
            None
        }
    }

    /// What the store does next: of the work that is there, that of the lowest rank.
    pub fn next_for_store(&self, input: StoreInput, now: u64) -> (r: Option<StoreWork>)
        ensures
            match r {
                Some(work) => {
                    &&& work.is_there(input, *self, now)
                    &&& forall|other: StoreWork| #[trigger]
                        other.is_there(input, *self, now) ==> work.rank() <= other.rank()
                },
                None => forall|other: StoreWork| !#[trigger] other.is_there(input, *self, now),
            },
    {
        if input.receiver {
            Some(StoreWork::Receiver)
        } else if input.attachment {
            Some(StoreWork::Attachment)
        } else if input.identity {
            Some(StoreWork::Identity)
        } else if input.notice {
            Some(StoreWork::Notice)
        } else if input.topic {
            Some(StoreWork::Topic)
        } else if input.mailbox_result {
            Some(StoreWork::MailboxResult)
        } else if self.queue <= now {
            Some(StoreWork::Queue)
        } else if self.pending <= now {
            Some(StoreWork::PendingPayload)
        } else if self.mailbox <= now {
            Some(StoreWork::Mailbox)
        } else {
            None
        }
    }

    /// Sets the timer of the work that a task has done.
    pub fn task_done(&mut self, work: TaskWork, now: u64)
        ensures
            *final(self) == after_task_work(*old(self), work, now),
    {
        match work {
            TaskWork::Queue => {
                self.queue = now.saturating_add(RETRY_SECONDS);
            },
            TaskWork::PendingPayload => {
                self.pending = now.saturating_add(RETRY_SECONDS);
            },
            TaskWork::Mailbox => {
                self.mailbox = now.saturating_add(ROUND_SECONDS);
            },
            TaskWork::Ping => {
                self.ping = now.saturating_add(ROUND_SECONDS);
            },
            _ => {},
        }
    }

    /// Sets the timer of the work that the store has done.
    pub fn store_done(&mut self, work: StoreWork, now: u64)
        ensures
            *final(self) == after_store_work(*old(self), work, now),
    {
        match work {
            StoreWork::Queue => {
                self.queue = now.saturating_add(RETRY_SECONDS);
            },
            StoreWork::PendingPayload => {
                self.pending = now.saturating_add(RETRY_SECONDS);
            },
            StoreWork::Mailbox => {
                self.mailbox = now.saturating_add(ROUND_SECONDS);
            },
            _ => {},
        }
    }
}

/// What came in is taken up before what is due. Of what came in for a task, commands go first, then
/// attachments, signs of life that did not come, requests, events and messages; of what is due, the
/// queue, payloads that wait for keys, the mailboxes and signs of life.
pub proof fn task_work_has_an_order()
    ensures
        TaskWork::Command.rank() < TaskWork::Attachment.rank() < TaskWork::PingExpired.rank()
            < TaskWork::Request.rank() < TaskWork::Event.rank() < TaskWork::Message.rank()
            < TaskWork::Queue.rank() < TaskWork::PendingPayload.rank() < TaskWork::Mailbox.rank()
            < TaskWork::Ping.rank(),
        TaskWork::Queue.rest() == Some(1u64),
        TaskWork::PendingPayload.rest() == Some(1u64),
        TaskWork::Mailbox.rest() == Some(60u64),
        TaskWork::Ping.rest() == Some(60u64),
{
}

/// What came in for the store is taken up before what is due, each in a fixed order.
pub proof fn store_work_has_an_order()
    ensures
        StoreWork::Receiver.rank() < StoreWork::Attachment.rank() < StoreWork::Identity.rank()
            < StoreWork::Notice.rank() < StoreWork::Topic.rank() < StoreWork::MailboxResult.rank()
            < StoreWork::Queue.rank() < StoreWork::PendingPayload.rank()
            < StoreWork::Mailbox.rank(),
{
}

/// Work of a task is there where it came in or its time has come, and for no other reason.
pub proof fn work_is_there_when_it_comes(input: TaskInput, timers: Timers, now: u64)
    ensures
        TaskWork::Command.is_there(input, timers, now) == input.command,
        TaskWork::Attachment.is_there(input, timers, now) == input.attachment,
        TaskWork::PingExpired.is_there(input, timers, now) == input.ping_expired,
        TaskWork::Request.is_there(input, timers, now) == input.request,
        TaskWork::Event.is_there(input, timers, now) == input.event,
        TaskWork::Message.is_there(input, timers, now) == input.message,
        TaskWork::Queue.is_there(input, timers, now) == (now >= timers.queue),
        TaskWork::PendingPayload.is_there(input, timers, now) == (now >= timers.pending),
        TaskWork::Mailbox.is_there(input, timers, now) == (now >= timers.mailbox),
        TaskWork::Ping.is_there(input, timers, now) == (now >= timers.ping),
{
}

/// Recurring work that the store has done is not there again before its time, and is there from then
/// on: after a second for the queue and the payloads that wait for keys, after a minute for the
/// mailboxes. Other work is there as it was.
pub proof fn done_store_work_rests(
    timers: Timers,
    work: StoreWork,
    other: StoreWork,
    input: StoreInput,
    now: u64,
    time: u64,
)
    requires
        work is Queue || work is PendingPayload || work is Mailbox,
        now + 60 <= u64::MAX,
        other != work,
    ensures
        work.is_there(input, after_store_work(timers, work, now), time) == (time >= now + (
        if work is Mailbox {
            60int
        } else {
            1int
        })),
        other.is_there(input, after_store_work(timers, work, now), time) == other.is_there(
            input,
            timers,
            time,
        ),
{
}

} // verus!
