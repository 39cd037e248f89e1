//! Error taxonomy of the bridge.
//!
//! Synchronous setup failures are returned directly to the host; failures of
//! asynchronous work travel through the callback's error channel only.

use vstd::prelude::*;

use crate::txn::TxState;

verus! {

/// One step of the path from the root of a host value to the place where
/// conversion failed: a map key, or a position inside a list.
#[derive(Clone, PartialEq, Eq, Debug)]
pub enum PathSeg {
    Key(String),
    Index(usize),
}

/// Spec-level mirror of `PathSeg`.
pub enum VPathSeg {
    Key(Seq<char>),
    Index(int),
}

impl View for PathSeg {
    type V = VPathSeg;

    open spec fn view(&self) -> VPathSeg {
        match self {
            PathSeg::Key(k) => VPathSeg::Key(k@),
            PathSeg::Index(i) => VPathSeg::Index(*i as int),
        }
    }
}

impl DeepView for PathSeg {
    type V = VPathSeg;

    open spec fn deep_view(&self) -> VPathSeg {
        self.view()
    }
}

/// What went wrong during value conversion. The carried string names the
/// host-side type that could not be converted.
#[derive(Clone, PartialEq, Eq, Debug)]
pub enum ConversionFault {
    UnsupportedValue(String),
    UnsupportedKey(String),
    DepthExceeded,
}

/// Spec-level mirror of `ConversionFault`.
pub enum VConversionFault {
    UnsupportedValue(Seq<char>),
    UnsupportedKey(Seq<char>),
    DepthExceeded,
}

impl View for ConversionFault {
    type V = VConversionFault;

    open spec fn view(&self) -> VConversionFault {
        match self {
            ConversionFault::UnsupportedValue(t) => VConversionFault::UnsupportedValue(t@),
            ConversionFault::UnsupportedKey(t) => VConversionFault::UnsupportedKey(t@),
            ConversionFault::DepthExceeded => VConversionFault::DepthExceeded,
        }
    }
}

/// A conversion failure: which fault, and where in the host structure it sits.
/// The operation never reaches the engine when one of these is produced.
#[derive(Clone, PartialEq, Eq, Debug)]
pub struct ConversionError {
    pub path: Vec<PathSeg>,
    pub fault: ConversionFault,
}

/// Spec-level mirror of `ConversionError`.
pub struct VConversionError {
    pub path: Seq<VPathSeg>,
    pub fault: VConversionFault,
}

impl View for ConversionError {
    type V = VConversionError;

    open spec fn view(&self) -> VConversionError {
        VConversionError { path: self.path.deep_view(), fault: self.fault@ }
    }
}

/// An operation was attempted on a transaction that is no longer active;
/// `found` is the state the transaction was in. The state is left unchanged.
#[derive(Clone, Copy, PartialEq, Eq, Structural, Debug)]
pub struct StateError {
    pub found: TxState,
}

/// Every failure the bridge reports to the host.
///
/// `Connection` and `Execution` carry the engine's failure already rendered
/// as a descriptive message: engine-internal error values never cross into
/// host value space.
#[derive(Clone, PartialEq, Eq, Debug)]
pub enum BridgeError {
    Configuration(String),
    Connection(String),
    Conversion(ConversionError),
    Execution(String),
    State(StateError),
    ShutdownTimeout,
}

/// Spec-level mirror of `BridgeError`.
pub enum VBridgeError {
    Configuration(Seq<char>),
    Connection(Seq<char>),
    Conversion(VConversionError),
    Execution(Seq<char>),
    State(StateError),
    ShutdownTimeout,
}

impl View for BridgeError {
    type V = VBridgeError;

    open spec fn view(&self) -> VBridgeError {
        match self {
            BridgeError::Configuration(m) => VBridgeError::Configuration(m@),
            BridgeError::Connection(m) => VBridgeError::Connection(m@),
            BridgeError::Conversion(e) => VBridgeError::Conversion(e@),
            BridgeError::Execution(m) => VBridgeError::Execution(m@),
            BridgeError::State(s) => VBridgeError::State(*s),
            BridgeError::ShutdownTimeout => VBridgeError::ShutdownTimeout,
        }
    }
}

} // verus!
