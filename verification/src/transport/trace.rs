//! Endpoint lifecycle tracing.
//!
//! Records the transitions an endpoint goes through and, on failure, the facts that
//! the kind of an error throws away: Windows named pipes report several distinct
//! conditions under one kind, which only the raw error number tells apart.

use vstd::prelude::*;
use vstd::string::*;

use crate::text::{
    debug_text, decimal, decimal_i64, decimal_u64, quoted_text, same_words, signed_decimal,
    words_stay,
};

verus! {

/// Environment variable that turns on stderr tracing.
pub const TRACE_ENV: &'static str = "MEHOY_TRACE_ENDPOINT";

/// A point in an endpoint instance's life.
#[derive(Debug, Clone, Copy, PartialEq, Eq, Structural)]
pub enum Stage {
    /// A listening instance was created.
    InstanceCreated,
    /// The endpoint began waiting for a client on an instance.
    ConnectWaitStarted,
    /// A client connected.
    ConnectCompleted,
    /// Creation of the replacement instance began.
    ReplacementCreateStarted,
    /// The replacement instance exists, so the endpoint is listening again.
    ReplacementCreated,
    /// The connected instance was handed to a connection task.
    ConnectionHandedOff,
    /// The listening endpoint was torn down.
    EndpointClosed,
    /// An accept attempt failed.
    AcceptFailed,
}

pub open spec fn stage_text(stage: Stage) -> Seq<char> {
    match stage {
        Stage::InstanceCreated => "instance_created"@,
        Stage::ConnectWaitStarted => "connect_wait_started"@,
        Stage::ConnectCompleted => "connect_completed"@,
        Stage::ReplacementCreateStarted => "replacement_create_started"@,
        Stage::ReplacementCreated => "replacement_created"@,
        Stage::ConnectionHandedOff => "connection_handed_off"@,
        Stage::EndpointClosed => "endpoint_closed"@,
        Stage::AcceptFailed => "accept_failed"@,
    }
}

impl Stage {
    pub fn as_str(self) -> (text: &'static str)
        ensures
            text@ == stage_text(self),
            self is InstanceCreated ==> text@ == "instance_created"@,
            self is ConnectWaitStarted ==> text@ == "connect_wait_started"@,
            self is ConnectCompleted ==> text@ == "connect_completed"@,
            self is ReplacementCreateStarted ==> text@ == "replacement_create_started"@,
            self is ReplacementCreated ==> text@ == "replacement_created"@,
            self is ConnectionHandedOff ==> text@ == "connection_handed_off"@,
            self is EndpointClosed ==> text@ == "endpoint_closed"@,
            self is AcceptFailed ==> text@ == "accept_failed"@,
    {
        match self {
            Stage::InstanceCreated => "instance_created",
            Stage::ConnectWaitStarted => "connect_wait_started",
            Stage::ConnectCompleted => "connect_completed",
            Stage::ReplacementCreateStarted => "replacement_create_started",
            Stage::ReplacementCreated => "replacement_created",
            Stage::ConnectionHandedOff => "connection_handed_off",
            Stage::EndpointClosed => "endpoint_closed",
            Stage::AcceptFailed => "accept_failed",
        }
    }
}

/// Failure detail that the kind of an error alone does not preserve.
#[derive(Debug, Clone, PartialEq, Eq)]
pub struct ErrorFacts {
    /// The name of the error's kind.
    pub kind: String,
    /// The operating system's own error number.
    pub raw_os_error: Option<i32>,
    pub message: String,
}

/// What an [`ErrorFacts`] says.
pub struct Facts {
    pub kind: Seq<char>,
    pub raw_os_error: Option<i32>,
    pub message: Seq<char>,
}

impl ErrorFacts {
    pub open spec fn view(&self) -> Facts {
        Facts { kind: self.kind@, raw_os_error: self.raw_os_error, message: self.message@ }
    }

    /// The facts of an operating system error.
    pub fn from_io(kind: String, raw_os_error: Option<i32>, message: String) -> (facts: Self)
        ensures
            facts@ == (Facts { kind: kind@, raw_os_error, message: message@ }),
    {
        ErrorFacts { kind, raw_os_error, message }
    }
}

/// One recorded transition, with when it was recorded in nanoseconds of the
/// recorder's clock.
#[derive(Debug, Clone, PartialEq, Eq)]
pub struct EndpointEvent {
    pub stage: Stage,
    /// Which endpoint this concerns.
    pub address: String,
    /// Which listening instance this concerns, counted from the endpoint's first.
    pub generation: u64,
    /// Whether a listening instance existed when this was recorded.
    pub listener_present: bool,
    pub error: Option<ErrorFacts>,
    pub at: u64,
}

/// What an [`EndpointEvent`] says.
pub struct Transition {
    pub stage: Stage,
    pub address: Seq<char>,
    pub generation: u64,
    pub listener_present: bool,
    pub error: Option<Facts>,
    pub at: u64,
}

/// A failure in words.
pub open spec fn facts_text(facts: Facts) -> Seq<char> {
    " kind="@ + facts.kind + " raw_os_error="@ + (match facts.raw_os_error {
        Some(code) => signed_decimal(code as int),
        None => "none"@,
    }) + " message="@ + quoted_text(facts.message)
}

/// A transition in words.
pub open spec fn transition_text(t: Transition) -> Seq<char> {
    stage_text(t.stage) + " address="@ + t.address + " generation="@ + decimal(
        t.generation as nat,
    ) + " listener_present="@ + (if t.listener_present {
        "true"@
    } else {
        "false"@
    }) + (match t.error {
        Some(facts) => facts_text(facts),
        None => Seq::empty(),
    })
}

impl EndpointEvent {
    pub open spec fn view(&self) -> Transition {
        Transition {
            stage: self.stage,
            address: self.address@,
            generation: self.generation,
            listener_present: self.listener_present,
            error: match self.error {
                Some(facts) => Some(facts@),
                None => None,
            },
            at: self.at,
        }
    }

    /// A transition without a failure.
    pub fn new(stage: Stage, address: &str, generation: u64, listener_present: bool, at: u64)
        -> (event: Self)
        ensures
            event@ == (Transition {
                stage,
                address: address@,
                generation,
                listener_present,
                error: None,
                at,
            }),
    {
        EndpointEvent {
            stage,
            address: address.to_owned(),
            generation,
            listener_present,
            error: None,
            at,
        }
    }

    /// The same transition with a failure.
    pub fn with_error(self, facts: ErrorFacts) -> (event: Self)
        ensures
            event@ == (Transition { error: Some(facts@), ..self@ }),
    {
        EndpointEvent {
            stage: self.stage,
            address: self.address,
            generation: self.generation,
            listener_present: self.listener_present,
            error: Some(facts),
            at: self.at,
        }
    }

    pub fn to_string(&self) -> (text: String)
        ensures
            text@ == transition_text(self@),
    {
        let mut text = self.stage.as_str().to_owned();
        text.append(" address=");
        text.append(self.address.as_str());
        text.append(" generation=");
        text.append(decimal_u64(self.generation).as_str());
        text.append(" listener_present=");
        text.append(
            if self.listener_present {
                "true"
            } else {
                "false"
            },
        );
        let ghost head = text@;
        match &self.error {
            Some(facts) => {
                text.append(" kind=");
                text.append(facts.kind.as_str());
                text.append(" raw_os_error=");
                match facts.raw_os_error {
                    Some(code) => text.append(decimal_i64(code as i64).as_str()),
                    None => text.append("none"),
                }
                text.append(" message=");
                text.append(debug_text(facts.message.as_str()).as_str());
                assert(text@ =~= head + facts_text(facts@));
            },
            None => {
                assert(head + Seq::<char>::empty() =~= head);
            },
        }
        text
    }
}

/// Whether the value of [`TRACE_ENV`] turns stderr tracing on: any that is not empty.
pub fn stderr_tracing_enabled(value: Option<&str>) -> (enabled: bool)
    ensures
        enabled == (value matches Some(v) && v@.len() > 0),
{
    match value {
        Some(v) => !v.is_empty(),
        None => false,
    }
}

/// A transition tells of its endpoint, of the number of its instance and of its failure,
/// each whole and in words that do not depend on it, and says nothing of when it was
/// recorded.
pub proof fn a_transition_tells_what_happened(
    t: Transition,
    address: Seq<char>,
    generation: u64,
    at: u64,
    facts: Facts,
)
    ensures
        transition_text(Transition { at, ..t }) == transition_text(t),
        same_words(
            transition_text(t),
            t.address,
            transition_text(Transition { address, ..t }),
            address,
        ),
        same_words(
            transition_text(t),
            decimal(t.generation as nat),
            transition_text(Transition { generation, ..t }),
            decimal(generation as nat),
        ),
        transition_text(Transition { error: Some(facts), ..t }) == transition_text(
            Transition { error: None, ..t },
        ) + facts_text(facts),
        same_words(
            transition_text(Transition { listener_present: true, ..t }),
            "true"@,
            transition_text(Transition { listener_present: false, ..t }),
            "false"@,
        ),
{
    let a = stage_text(t.stage) + " address="@;
    let b = " generation="@;
    let g = decimal(t.generation as nat);
    let c = " listener_present="@;
    let present = if t.listener_present {
        "true"@
    } else {
        "false"@
    };
    let rest = match t.error {
        Some(f) => facts_text(f),
        None => Seq::empty(),
    };
    let text = transition_text(t);
    let behind = b + g + c + present + rest;
    assert(text =~= a + t.address + behind);
    let other = transition_text(Transition { address, ..t });
    assert(other =~= a + address + behind);
    words_stay(a, t.address, address, behind, text, other);
    let before = a + t.address + b;
    let behind = c + present + rest;
    assert(text =~= before + g + behind);
    let other = transition_text(Transition { generation, ..t });
    assert(other =~= before + decimal(generation as nat) + behind);
    words_stay(before, g, decimal(generation as nat), behind, text, other);
    let before = a + t.address + b + g + c;
    let on = transition_text(Transition { listener_present: true, ..t });
    let off = transition_text(Transition { listener_present: false, ..t });
    assert(on =~= before + "true"@ + rest);
    assert(off =~= before + "false"@ + rest);
    words_stay(before, "true"@, "false"@, rest, on, off);
    assert(transition_text(Transition { error: Some(facts), ..t }) =~= transition_text(
        Transition { error: None, ..t },
    ) + facts_text(facts));
}

/// A failure tells its kind, its number and its message, each whole and in words that do
/// not depend on it.
pub proof fn a_failure_tells_its_facts(
    facts: Facts,
    kind: Seq<char>,
    code: i32,
    other: i32,
    message: Seq<char>,
)
    ensures
        same_words(facts_text(facts), facts.kind, facts_text(Facts { kind, ..facts }), kind),
        same_words(
            facts_text(Facts { raw_os_error: Some(code), ..facts }),
            signed_decimal(code as int),
            facts_text(Facts { raw_os_error: Some(other), ..facts }),
            signed_decimal(other as int),
        ),
        same_words(
            facts_text(facts),
            quoted_text(facts.message),
            facts_text(Facts { message, ..facts }),
            quoted_text(message),
        ),
        exists|before: Seq<char>|
            facts_text(facts) == #[trigger] (before + quoted_text(facts.message)),
{
    let a = " kind="@;
    let b = " raw_os_error="@;
    let c = " message="@;
    let number = match facts.raw_os_error {
        Some(n) => signed_decimal(n as int),
        None => "none"@,
    };
    let q = quoted_text(facts.message);
    let text = facts_text(facts);
    let behind = b + number + c + q;
    assert(text =~= a + facts.kind + behind);
    let next = facts_text(Facts { kind, ..facts });
    assert(next =~= a + kind + behind);
    words_stay(a, facts.kind, kind, behind, text, next);
    let before = a + facts.kind + b;
    let behind = c + q;
    let first = facts_text(Facts { raw_os_error: Some(code), ..facts });
    let second = facts_text(Facts { raw_os_error: Some(other), ..facts });
    assert(first =~= before + signed_decimal(code as int) + behind);
    assert(second =~= before + signed_decimal(other as int) + behind);
    words_stay(
        before,
        signed_decimal(code as int),
        signed_decimal(other as int),
        behind,
        first,
        second,
    );
    let before = a + facts.kind + b + number + c;
    assert(text =~= before + q);
    assert(text =~= before + q + Seq::empty());
    let next = facts_text(Facts { message, ..facts });
    assert(next =~= before + quoted_text(message) + Seq::empty());
    words_stay(before, q, quoted_text(message), Seq::empty(), text, next);
}

} // verus!
