//! Where a device's registers are found.
use vstd::prelude::*;

verus! {

/// A place in port space or in memory.
#[derive(Clone, Copy, Debug, PartialEq, Eq, Structural)]
pub enum IOType {
    Port(usize),
    Mem(usize),
}

impl IOType {
    /// The address, whichever space it is in.
    pub fn loc(&self) -> (r: usize)
        ensures
            r == match *self {
                IOType::Port(location) => location,
                IOType::Mem(location) => location,
            },
    {
        match self {
            IOType::Port(location) => *location,
            IOType::Mem(location) => *location,
        }
    }
}

/// The way to a device's registers.
#[derive(Clone, Copy, Debug, PartialEq, Eq, Structural)]
pub struct IOTransit {
    pub location: IOType,
}

impl IOTransit {
    pub fn new(location: IOType) -> (r: Self)
        ensures
            r.location == location,
    {
        Self { location }
    }

    pub fn iotype(&self) -> (r: IOType)
        ensures
            r == self.location,
    {
        self.location
    }

    /// Moves to the address `loc` in the same space.
    pub fn set_loc(&mut self, loc: usize)
        ensures
            final(self).location == match old(self).location {
                IOType::Mem(_) => IOType::Mem(loc),
                IOType::Port(_) => IOType::Port(loc),
            },
    {
        match self.location {
            IOType::Mem(_) => {
                self.location = IOType::Mem(loc);
            },
            IOType::Port(_) => {
                self.location = IOType::Port(loc);
            },
        }
    }

    /// The address of the register at `offset`, if there is such an
    /// address.
    pub fn register(&self, offset: usize) -> (r: Option<usize>)
        ensures
            r == if self.location.loc_spec() + offset <= usize::MAX {
                Some((self.location.loc_spec() + offset) as usize)
            } else {
                None
            },
    {
        self.location.loc().checked_add(offset)
    }
}

impl IOType {
    /// The address, whichever space it is in.
    pub open spec fn loc_spec(self) -> usize {
        match self {
            IOType::Port(location) => location,
            IOType::Mem(location) => location,
        }
    }
}

/// The processor that an interrupt between processors goes to.
#[derive(Clone, Copy, Debug, PartialEq, Eq, Structural)]
pub struct IpiTarg(pub usize);

/// What an interrupt between processors is about.
#[derive(Clone, Copy, Debug, PartialEq, Eq, Structural)]
pub enum IpiMsg {
    Kernel,
    Driver,
}

} // verus!
