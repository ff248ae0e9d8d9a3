//! Live-capture backends: a two-state machine that can be started and
//! stopped.
use vstd::prelude::*;

verus! {

#[derive(Debug, Clone, Copy, PartialEq, Eq, Structural)]
pub enum CaptureState {
    Idle,
    Running,
}

/// An error that a capture reports, with its message.
#[derive(Debug)]
pub struct CaptureError {
    message: String,
}

impl CaptureError {
    pub fn new(message: String) -> (r: Self)
        ensures
            r.message_spec() == message@,
    {
        CaptureError { message }
    }

    pub closed spec fn message_spec(&self) -> Seq<char> {
        self.message@
    }

    /// The text of the error.
    pub fn message(&self) -> (r: &str)
        ensures
            r@ == self.message_spec(),
    {
        self.message.as_str()
    }
}

/// What a capture backend offers: starting, stopping and its state.
pub trait CaptureBackend {
    fn start(&mut self) -> Result<(), CaptureError>;

    fn stop(&mut self) -> Result<(), CaptureError>;

    fn state(&self) -> CaptureState;
}

/// A backend that captures nothing and only keeps its state.
pub struct NoopCaptureBackend {
    state: CaptureState,
}

impl NoopCaptureBackend {
    pub fn new() -> (r: Self)
        ensures
            r.current() == CaptureState::Idle,
    {
        NoopCaptureBackend { state: CaptureState::Idle }
    }

    /// The state the backend is in.
    pub closed spec fn current(&self) -> CaptureState {
        self.state
    }
}

impl Default for NoopCaptureBackend {
    fn default() -> (r: Self)
        ensures
            r.current() == CaptureState::Idle,
    {
        Self::new()
    }
}

impl CaptureBackend for NoopCaptureBackend {
    /// Starting an idle backend makes it run; starting a running one is an
    /// error and changes nothing.
    fn start(&mut self) -> (r: Result<(), CaptureError>)
        ensures
            old(self).current() == CaptureState::Running ==> r is Err && r->Err_0.message_spec()
                == "capture is already running"@ && final(self).current() == CaptureState::Running,
            old(self).current() == CaptureState::Idle ==> r is Ok && final(self).current()
                == CaptureState::Running,
    {
        if self.state == CaptureState::Running {
            return Err(CaptureError::new(String::from_str("capture is already running")));
        }
        self.state = CaptureState::Running;
        Ok(())
    }

    /// Stopping a running backend makes it idle; stopping an idle one is an
    /// error and changes nothing.
    fn stop(&mut self) -> (r: Result<(), CaptureError>)
        ensures
            old(self).current() == CaptureState::Idle ==> r is Err && r->Err_0.message_spec()
                == "capture is already stopped"@ && final(self).current() == CaptureState::Idle,
            old(self).current() == CaptureState::Running ==> r is Ok && final(self).current()
                == CaptureState::Idle,
    {
        if self.state == CaptureState::Idle {
            return Err(CaptureError::new(String::from_str("capture is already stopped")));
        }
        self.state = CaptureState::Idle;
        Ok(())
    }

    fn state(&self) -> (r: CaptureState)
        ensures
            r == self.current(),
    {
        self.state
    }
}

} // verus!
