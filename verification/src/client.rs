//! The handle on neovim and the stage its start-up has reached.
use neovim_lib::Neovim;
use vstd::prelude::*;

verus! {

/// neovim_lib's API handle on a running session, carried opaquely.
#[verifier::external_type_specification]
#[verifier::external_body]
pub struct ExNeovim(Neovim);

/// The stage the start-up of neovim has reached; once it is up, the handle.
pub enum NeovimClientState {
    Uninitialized,
    InitInProgress,
    Initialized(Neovim),
    Error,
}

impl NeovimClientState {
    pub fn is_initializing(&self) -> (r: bool)
        ensures
            r == (*self is InitInProgress),
    {
        match *self {
            NeovimClientState::InitInProgress => true,
            _ => false,
        }
    }

    pub fn is_uninitialized(&self) -> (r: bool)
        ensures
            r == (*self is Uninitialized),
    {
        match *self {
            NeovimClientState::Uninitialized => true,
            _ => false,
        }
    }

    pub fn is_initialized(&self) -> (r: bool)
        ensures
            r == (*self is Initialized),
    {
        match *self {
            NeovimClientState::Initialized(_) => true,
            _ => false,
        }
    }

    /// The handle; only once start-up has succeeded.
    pub fn nvim(&self) -> (n: &Neovim)
        requires
            *self is Initialized,
        ensures
            *n == self->Initialized_0,
    {
        match self {
            NeovimClientState::Initialized(nvim) => nvim,
            _ => unreached(),
        }
    }

    /// The handle, to act on; only once start-up has succeeded.
    pub fn nvim_mut(&mut self) -> (n: &mut Neovim)
        requires
            *old(self) is Initialized,
        ensures
            *n == old(self)->Initialized_0,
            *final(self) == NeovimClientState::Initialized(*final(n)),
    {
        match self {
            NeovimClientState::Initialized(nvim) => nvim,
            _ => unreached(),
        }
    }
}

/// The front end's handle on neovim, through the stages of start-up.
pub struct NeovimClient {
    state: NeovimClientState,
}

impl NeovimClient {
    /// The stage start-up has reached.
    pub closed spec fn stage(&self) -> NeovimClientState {
        self.state
    }

    pub fn new() -> (c: Self)
        ensures
            c.stage() is Uninitialized,
    {
        NeovimClient { state: NeovimClientState::Uninitialized }
    }

    pub fn set_initialized(&mut self, nvim: Neovim)
        ensures
            final(self).stage() == NeovimClientState::Initialized(nvim),
    {
        self.state = NeovimClientState::Initialized(nvim);
    }

    pub fn set_error(&mut self)
        ensures
            final(self).stage() is Error,
    {
        self.state = NeovimClientState::Error;
    }

    pub fn set_in_progress(&mut self)
        ensures
            final(self).stage() is InitInProgress,
    {
        self.state = NeovimClientState::InitInProgress;
    }

    pub fn is_initialized(&self) -> (r: bool)
        ensures
            r == (self.stage() is Initialized),
    {
        self.state.is_initialized()
    }

    pub fn is_uninitialized(&self) -> (r: bool)
        ensures
            r == (self.stage() is Uninitialized),
    {
        self.state.is_uninitialized()
    }

    pub fn is_initializing(&self) -> (r: bool)
        ensures
            r == (self.stage() is InitInProgress),
    {
        self.state.is_initializing()
    }

    /// The handle; only once start-up has succeeded.
    pub fn nvim(&self) -> (n: &Neovim)
        requires
            self.stage() is Initialized,
        ensures
            *n == self.stage()->Initialized_0,
    {
        self.state.nvim()
    }

    /// The handle, to act on; only once start-up has succeeded.
    pub fn nvim_mut(&mut self) -> (n: &mut Neovim)
        requires
            old(self).stage() is Initialized,
        ensures
            *n == old(self).stage()->Initialized_0,
            final(self).stage() == NeovimClientState::Initialized(*final(n)),
    {
        self.state.nvim_mut()
    }
}

} // verus!
