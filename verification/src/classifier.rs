use vstd::prelude::*;

verus! {

/// The kind of a low-level I/O fault, as far as the relay cares: a broken
/// pipe means the peer closed the connection uncleanly, which is benign;
/// every other kind is worth propagating.
#[derive(Clone, Copy, PartialEq, Eq, Structural, Debug)]
pub enum IoErrorKind {
    BrokenPipe,
    Other,
}

/// A failure surfaced while reading an inbound stream, modelled as the chain
/// of causes the transport layer wraps around it. Each link either is a
/// low-level I/O fault, wraps a deeper cause, or ends the chain; the
/// multiplexing layer below the transport is special because it may carry an
/// I/O fault that it does not expose as its cause.
pub enum TransportError {
    /// A low-level I/O fault sits at this link.
    Io(IoErrorKind),
    /// A stream-multiplexing failure: it may hold an I/O fault of its own
    /// (not reachable through the cause chain), and it may wrap a deeper
    /// cause.
    Multiplex(Option<IoErrorKind>, Option<Box<TransportError>>),
    /// An ordinary wrapper around a deeper cause.
    Wrapped(Box<TransportError>),
    /// A failure with no I/O fault and no deeper cause.
    Opaque,
}

/// How the relay treats a read failure: close the connection quietly, or
/// forward the failure to the peer as the final outbound item.
#[derive(Clone, Copy, PartialEq, Eq, Structural, Debug)]
pub enum Classification {
    BenignDisconnect,
    Propagate,
}

/// The first I/O fault found on the cause chain, if any: a fault at the
/// current link wins, a multiplexing link is asked for its hidden fault
/// before its chain is followed, and the walk stops at a chain's end.
pub open spec fn spec_io_fault(err: TransportError) -> Option<IoErrorKind>
    decreases err,
{
    match err {
        TransportError::Io(kind) => Some(kind),
        TransportError::Multiplex(hidden, source) => match hidden {
            Some(kind) => Some(kind),
            None => match source {
                Some(deeper) => spec_io_fault(*deeper),
                None => None,
            },
        },
        TransportError::Wrapped(deeper) => spec_io_fault(*deeper),
        TransportError::Opaque => None,
    }
}

/// A read failure is a benign disconnect exactly when its cause chain holds
/// an I/O fault whose kind says the peer broke the pipe.
pub open spec fn spec_classify(err: TransportError) -> Classification {
    if spec_io_fault(err) == Some(IoErrorKind::BrokenPipe) {
        Classification::BenignDisconnect
    } else {
        Classification::Propagate
    }
}

/// Walks the cause chain of a read failure looking for a low-level I/O
/// fault, unwrapping the multiplexing layer's hidden fault along the way.
pub fn match_for_io_error(err: &TransportError) -> (found: Option<IoErrorKind>)
    ensures
        found == spec_io_fault(*err),
    decreases *err,
{
    match err {
        TransportError::Io(kind) => Some(*kind),
        TransportError::Multiplex(hidden, source) => match hidden {
            Some(kind) => Some(*kind),
            None => match source {
                Some(deeper) => match_for_io_error(deeper),
                None => None,
            },
        },
        TransportError::Wrapped(deeper) => match_for_io_error(deeper),
        TransportError::Opaque => None,
    }
}

/// Decides whether a read failure is a benign peer disconnect (a broken-pipe
/// I/O fault somewhere on its cause chain) or must be propagated.
pub fn classify(err: &TransportError) -> (class: Classification)
    ensures
        class == spec_classify(*err),
{
    match match_for_io_error(err) {
        Some(kind) => {
            if kind == IoErrorKind::BrokenPipe {
                Classification::BenignDisconnect
            } else {
                Classification::Propagate
            }
        },
        None => Classification::Propagate,
    }
}

impl TransportError {
    /// An exact copy of the whole cause chain, for forwarding a failure as
    /// the final outbound item while the relay keeps ownership of the event
    /// it read.
    pub fn duplicate(&self) -> (copy: TransportError)
        ensures
            copy == *self,
        decreases *self,
    {
        match self {
            TransportError::Io(kind) => TransportError::Io(*kind),
            TransportError::Multiplex(hidden, source) => TransportError::Multiplex(
                match hidden {
                    Some(kind) => Some(*kind),
                    None => None,
                },
                match source {
                    Some(deeper) => Some(Box::new(deeper.duplicate())),
                    None => None,
                },
            ),
            TransportError::Wrapped(deeper) => TransportError::Wrapped(
                Box::new(deeper.duplicate()),
            ),
            TransportError::Opaque => TransportError::Opaque,
        }
    }
}

} // verus!
