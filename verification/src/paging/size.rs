//! Paging modes and page sizes.
use vstd::prelude::*;

verus! {

/// The paging mode that the translation register selects.
#[derive(Clone, Copy, Debug, PartialEq, Eq, Structural)]
pub enum Mode {
    Bare,
    Sv39,
    Sv48,
    Sv57,
    Sv64,
}

impl Mode {
    /// Whether the mode is one that the architecture defines.
    pub open spec fn defined(self) -> bool {
        self != Mode::Sv64
    }

    /// Number of table levels that a walk in this mode starts with.
    pub open spec fn spec_level(self) -> nat {
        match self {
            Mode::Bare => 0,
            Mode::Sv39 => 3,
            Mode::Sv48 => 4,
            Mode::Sv57 => 5,
            Mode::Sv64 => 0,
        }
    }

    /// The largest page that may be mapped in this mode.
    pub open spec fn spec_max_size(self) -> PageSize {
        match self {
            Mode::Bare => PageSize::NoPage,
            Mode::Sv39 => PageSize::Kilopage,
            Mode::Sv48 => PageSize::Terapage,
            Mode::Sv57 => PageSize::Petapage,
            Mode::Sv64 => PageSize::NoPage,
        }
    }

    /// The value of the mode field that selects this mode.
    pub open spec fn spec_code(self) -> u64 {
        match self {
            Mode::Bare => 0,
            Mode::Sv39 => 8,
            Mode::Sv48 => 9,
            Mode::Sv57 => 10,
            Mode::Sv64 => 11,
        }
    }

    pub fn to_level(&self) -> (r: usize)
        requires
            self.defined(),
        ensures
            r == self.spec_level(),
    {
        match self {
            Mode::Bare => 0,
            Mode::Sv39 => 3,
            Mode::Sv48 => 4,
            Mode::Sv57 => 5,
            Mode::Sv64 => 0,
        }
    }

    pub fn max_size(&self) -> (r: PageSize)
        requires
            self.defined(),
        ensures
            r == self.spec_max_size(),
    {
        match self {
            Mode::Bare => PageSize::NoPage,
            Mode::Sv39 => PageSize::Kilopage,
            Mode::Sv48 => PageSize::Terapage,
            Mode::Sv57 => PageSize::Petapage,
            Mode::Sv64 => PageSize::NoPage,
        }
    }

    /// Lowest address of the upper half of the address space.
    pub fn higher_half(&self) -> (r: u64)
        requires
            self.defined(),
        ensures
            r == match *self {
                Mode::Bare => 0u64,
                Mode::Sv39 => 0xffff_ffc0_0000_0000u64,
                Mode::Sv48 => 0xffff_8000_0000_0000u64,
                Mode::Sv57 => 0xff00_0000_0000_0000u64,
                Mode::Sv64 => 0u64,
            },
    {
        match self {
            Mode::Bare => 0,
            Mode::Sv39 => 0xffff_ffc0_0000_0000,
            Mode::Sv48 => 0xffff_8000_0000_0000,
            Mode::Sv57 => 0xff00_0000_0000_0000,
            Mode::Sv64 => 0,
        }
    }

    /// The value of the mode field that selects this mode.
    pub fn code(&self) -> (r: u64)
        ensures
            r == self.spec_code(),
    {
        match self {
            Mode::Bare => 0,
            Mode::Sv39 => 8,
            Mode::Sv48 => 9,
            Mode::Sv57 => 10,
            Mode::Sv64 => 11,
        }
    }
}

/// The sizes a mapping can have, ordered by the number of bytes.
#[derive(Clone, Copy, Debug, PartialEq, Eq, Structural)]
pub enum PageSize {
    Petapage,
    Terapage,
    Gigapage,
    Megapage,
    Kilopage,
    NoPage,
}

impl PageSize {
    /// The table level whose entries map pages of this size; 0 for no page.
    pub open spec fn spec_level(self) -> nat {
        match self {
            PageSize::NoPage => 0,
            PageSize::Kilopage => 1,
            PageSize::Megapage => 2,
            PageSize::Gigapage => 3,
            PageSize::Terapage => 4,
            PageSize::Petapage => 5,
        }
    }

    /// Number of bytes in a page of this size.
    pub open spec fn spec_bytes(self) -> nat {
        match self {
            PageSize::NoPage => 0,
            PageSize::Kilopage => 0x1000,
            PageSize::Megapage => 0x20_0000,
            PageSize::Gigapage => 0x4000_0000,
            PageSize::Terapage => 0x80_0000_0000,
            PageSize::Petapage => 0x1000_0000_0000,
        }
    }

    /// The size that table level `level` maps.
    pub open spec fn spec_from_level(level: nat) -> PageSize {
        if level == 0 {
            PageSize::NoPage
        } else if level == 1 {
            PageSize::Kilopage
        } else if level == 2 {
            PageSize::Megapage
        } else if level == 3 {
            PageSize::Gigapage
        } else if level == 4 {
            PageSize::Terapage
        } else {
            PageSize::Petapage
        }
    }

    /// The smallest size that holds `size` bytes.
    pub open spec fn spec_ceil(size: nat) -> PageSize {
        if size == 0 {
            PageSize::NoPage
        } else if size <= 0x1000 {
            PageSize::Kilopage
        } else if size <= 0x20_0000 {
            PageSize::Megapage
        } else if size <= 0x4000_0000 {
            PageSize::Gigapage
        } else if size <= 0x80_0000_0000 {
            PageSize::Terapage
        } else {
            PageSize::Petapage
        }
    }

    pub fn from_level(level: usize) -> (r: Self)
        requires
            level <= 5,
        ensures
            r == Self::spec_from_level(level as nat),
            r.spec_level() == level,
    {
        match level {
            0 => Self::NoPage,
            1 => Self::Kilopage,
            2 => Self::Megapage,
            3 => Self::Gigapage,
            4 => Self::Terapage,
            _ => Self::Petapage,
        }
    }

    pub fn to_level(&self) -> (r: usize)
        ensures
            r == self.spec_level(),
            r <= 5,
    {
        match self {
            PageSize::Kilopage => 1,
            PageSize::Megapage => 2,
            PageSize::Gigapage => 3,
            PageSize::Terapage => 4,
            PageSize::Petapage => 5,
            PageSize::NoPage => 0,
        }
    }

    /// Number of bytes in a page of this size.
    pub fn bytes(&self) -> (r: u64)
        ensures
            r == self.spec_bytes(),
    {
        match self {
            PageSize::NoPage => 0,
            PageSize::Kilopage => 0x1000,
            PageSize::Megapage => 0x20_0000,
            PageSize::Gigapage => 0x4000_0000,
            PageSize::Terapage => 0x80_0000_0000,
            PageSize::Petapage => 0x1000_0000_0000,
        }
    }

    /// The size of exactly `size` bytes.
    pub fn from_size(size: u64) -> (r: Self)
        requires
            size == 0 || size == 0x1000 || size == 0x20_0000 || size == 0x4000_0000 || size
                == 0x80_0000_0000 || size == 0x1000_0000_0000,
        ensures
            r.spec_bytes() == size,
    {
        if size == 0 {
            Self::NoPage
        } else if size == 0x1000 {
            Self::Kilopage
        } else if size == 0x20_0000 {
            Self::Megapage
        } else if size == 0x4000_0000 {
            Self::Gigapage
        } else if size == 0x80_0000_0000 {
            Self::Terapage
        } else {
            Self::Petapage
        }
    }

    /// The smallest size that holds `size` bytes.
    pub fn from_size_ceil(size: u64) -> (r: Self)
        requires
            size <= 0x1000_0000_0000,
        ensures
            r == Self::spec_ceil(size as nat),
            r.spec_bytes() >= size,
            forall|s: PageSize| s.spec_bytes() >= size ==> s.spec_bytes() >= r.spec_bytes(),
    {
        if size == 0 {
            Self::NoPage
        } else if size <= 0x1000 {
            Self::Kilopage
        } else if size <= 0x20_0000 {
            Self::Megapage
        } else if size <= 0x4000_0000 {
            Self::Gigapage
        } else if size <= 0x80_0000_0000 {
            Self::Terapage
        } else {
            Self::Petapage
        }
    }

    /// Whether `self` is a larger size than `other`.
    pub fn exceeds(&self, other: &PageSize) -> (r: bool)
        ensures
            r == (self.spec_bytes() > other.spec_bytes()),
            r == (self.spec_level() > other.spec_level()),
    {
        self.to_level() > other.to_level()
    }
}

/// Larger pages sit at higher levels: the order by bytes and the order by
/// level are the same order, and it is total.
pub proof fn law_sizes_are_ordered(a: PageSize, b: PageSize)
    ensures
        (a.spec_bytes() < b.spec_bytes()) == (a.spec_level() < b.spec_level()),
        (a.spec_bytes() == b.spec_bytes()) == (a == b),
        a.spec_bytes() < b.spec_bytes() || a == b || b.spec_bytes() < a.spec_bytes(),
        PageSize::spec_from_level(a.spec_level()) == a,
{
}

} // verus!
