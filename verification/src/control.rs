//! Control messages and structured service faults.
use vstd::prelude::*;
use vstd::string::StringExecFns;

verus! {

/// Control messages issued by the runtime host to services.
#[derive(Debug, Clone, Copy, PartialEq, Eq, Structural)]
pub enum ControlMsg {
    Start,
    Pause,
    Resume,
    Stop,
    Shutdown,
}

/// Severity classification for a reported service fault.
#[derive(Debug, Clone, Copy, PartialEq, Eq, Structural)]
pub enum FaultSeverity {
    Recoverable,
    Fatal,
}

impl FaultSeverity {
    /// The variant's name, as `{:?}` prints it.
    pub open spec fn spec_name(self) -> Seq<char> {
        match self {
            FaultSeverity::Recoverable => "Recoverable"@,
            FaultSeverity::Fatal => "Fatal"@,
        }
    }

    /// The variant's name, as `{:?}` prints it.
    pub fn name(&self) -> (s: &'static str)
        ensures
            s@ == self.spec_name(),
    {
        match self {
            FaultSeverity::Recoverable => "Recoverable",
            FaultSeverity::Fatal => "Fatal",
        }
    }
}

/// Structured fault information emitted by runtime services.
#[derive(Debug, Clone, PartialEq, Eq)]
pub struct ServiceFault {
    pub service: &'static str,
    pub severity: FaultSeverity,
    pub message: String,
}

impl ServiceFault {
    /// Construct a recoverable fault.
    pub fn recoverable(service: &'static str, message: &str) -> (f: Self)
        ensures
            f.service == service,
            f.severity == FaultSeverity::Recoverable,
            f.message@ == message@,
    {
        Self { service, severity: FaultSeverity::Recoverable, message: String::from_str(message) }
    }

    /// Construct a fatal fault.
    pub fn fatal(service: &'static str, message: &str) -> (f: Self)
        ensures
            f.service == service,
            f.severity == FaultSeverity::Fatal,
            f.message@ == message@,
    {
        Self { service, severity: FaultSeverity::Fatal, message: String::from_str(message) }
    }

    /// The text a fault prints: `"{service} fault ({severity:?}): {message}"`.
    pub open spec fn spec_describe(&self) -> Seq<char> {
        self.service@ + " fault ("@ + self.severity.spec_name() + "): "@ + self.message@
    }

    /// Renders the fault as `"{service} fault ({severity:?}): {message}"`.
    pub fn describe(&self) -> (s: String)
        ensures
            s@ == self.spec_describe(),
    {
        let mut s = String::from_str(self.service);
        s.append(" fault (");
        s.append(self.severity.name());
        s.append("): ");
        s.append(self.message.as_str());
        s
    }
}

/// Runtime host error.
#[derive(Debug)]
pub enum RuntimeError {
    ThreadSpawn { service: &'static str, message: String },
    ControlSend { service: &'static str, message: String },
    ServiceFault(ServiceFault),
    ThreadPanic { service: &'static str },
}

impl RuntimeError {
    /// The text an error prints.
    pub open spec fn spec_describe(&self) -> Seq<char> {
        match self {
            RuntimeError::ThreadSpawn { service, message } => "failed to spawn service '"@
                + service@ + "': "@ + message@,
            RuntimeError::ControlSend { service, message } =>
                "failed to send control message to '"@ + service@ + "': "@ + message@,
            RuntimeError::ServiceFault(fault) => fault.spec_describe(),
            RuntimeError::ThreadPanic { service } => "service thread '"@ + service@
                + "' panicked"@,
        }
    }

    /// Renders the error as a human-readable message.
    pub fn describe(&self) -> (s: String)
        ensures
            s@ == self.spec_describe(),
    {
        match self {
            RuntimeError::ThreadSpawn { service, message } => {
                let mut s = String::from_str("failed to spawn service '");
                s.append(service);
                s.append("': ");
                s.append(message.as_str());
                s
            },
            RuntimeError::ControlSend { service, message } => {
                let mut s = String::from_str("failed to send control message to '");
                s.append(service);
                s.append("': ");
                s.append(message.as_str());
                s
            },
            RuntimeError::ServiceFault(fault) => fault.describe(),
            RuntimeError::ThreadPanic { service } => {
                let mut s = String::from_str("service thread '");
                s.append(service);
                s.append("' panicked");
                s
            },
        }
    }
}

/// How one service thread ended, as joining it reports.
#[derive(Debug)]
pub enum ServiceExit {
    /// The service returned normally.
    Finished,
    /// The service returned a fault.
    Faulted(ServiceFault),
    /// The service's thread panicked.
    Panicked { service: &'static str },
}

/// The error a thread's ending reports, if any.
pub open spec fn exit_error(exit: ServiceExit) -> Option<RuntimeError> {
    match exit {
        ServiceExit::Finished => None,
        ServiceExit::Faulted(fault) => Some(RuntimeError::ServiceFault(fault)),
        ServiceExit::Panicked { service } => Some(RuntimeError::ThreadPanic { service }),
    }
}

/// The first error among the endings, in join order.
pub open spec fn first_exit_error(exits: Seq<ServiceExit>) -> Option<RuntimeError>
    decreases exits.len(),
{
    if exits.len() == 0 {
        None
    } else {
        match exit_error(exits[0]) {
            Some(e) => Some(e),
            None => first_exit_error(exits.drop_first()),
        }
    }
}

/// The outcome of joining every service: the first error observed, in join order,
/// or success when every service finished normally.
pub fn join_outcome(exits: Vec<ServiceExit>) -> (r: Result<(), RuntimeError>)
    ensures
        match first_exit_error(exits@) {
            Some(e) => r == Err::<(), RuntimeError>(e),
            None => r == Ok::<(), RuntimeError>(()),
        },
{
    let ghost all = exits@;
    let mut exits = exits;
    let mut first: Option<RuntimeError> = None;
    while exits.len() > 0
        invariant
            exits@.len() <= all.len(),
            exits@ == all.subrange(0, exits@.len() as int),
            first == first_exit_error(all.subrange(exits@.len() as int, all.len() as int)),
        decreases exits@.len(),
    {
        let ghost k = exits@.len() - 1;
        let exit = exits.pop().unwrap();
        proof {
            let sub = all.subrange(k, all.len() as int);
            assert(sub.drop_first() =~= all.subrange(k + 1, all.len() as int));
            assert(sub[0] == all[k]);
            assert(exit == all[k]);
        }
        match exit {
            ServiceExit::Finished => {},
            ServiceExit::Faulted(fault) => {
                first = Some(RuntimeError::ServiceFault(fault));
            },
            ServiceExit::Panicked { service } => {
                first = Some(RuntimeError::ThreadPanic { service });
            },
        }
    }
    assert(all.subrange(0, all.len() as int) =~= all);
    match first {
        Some(err) => Err(err),
        None => Ok(()),
    }
}

/// Joining reports the first failure in join order: when every service finished
/// there is no error; otherwise the error is that of the first service that did not
/// finish, its fault when it returned one and a panic report naming it when its
/// thread panicked.
pub proof fn first_exit_error_law(exits: Seq<ServiceExit>, i: int)
    ensures
        (forall|j: int| 0 <= j < exits.len() ==> #[trigger] exits[j] is Finished)
            ==> first_exit_error(exits) is None,
        (0 <= i < exits.len() && !(exits[i] is Finished) && forall|j: int|
            0 <= j < i ==> #[trigger] exits[j] is Finished) ==> first_exit_error(exits) == match exits[i] {
            ServiceExit::Faulted(fault) => Some(RuntimeError::ServiceFault(fault)),
            ServiceExit::Panicked { service } => Some(RuntimeError::ThreadPanic { service }),
            ServiceExit::Finished => None,
        },
    decreases exits.len(),
{
    if exits.len() > 0 {
        let rest = exits.drop_first();
        if exits[0] is Finished {
            assert forall|j: int| 0 <= j < rest.len() implies (#[trigger] rest[j] == exits[j + 1]) by {}
            first_exit_error_law(rest, i - 1);
            if 0 <= i < exits.len() && !(exits[i] is Finished) && forall|j: int|
                0 <= j < i ==> #[trigger] exits[j] is Finished {
                assert(i > 0);
                assert forall|j: int| 0 <= j < i - 1 implies #[trigger] rest[j] is Finished by {
                    assert(exits[j + 1] is Finished);
                }
                assert(rest[i - 1] == exits[i]);
            }
            if forall|j: int| 0 <= j < exits.len() ==> #[trigger] exits[j] is Finished {
                assert forall|j: int| 0 <= j < rest.len() implies #[trigger] rest[j] is Finished by {
                    assert(exits[j + 1] is Finished);
                }
            }
        } else {
            if 0 <= i < exits.len() && !(exits[i] is Finished) && forall|j: int|
                0 <= j < i ==> #[trigger] exits[j] is Finished {
                assert(i == 0);
            }
        }
    }
}

} // verus!
