use vstd::prelude::*;

verus! {

/// The permission set a page (or a whole region) is mapped with.
///
/// This is the architecture-independent face of the page-table entry flags:
/// the memory core only ever decides whether a range may be read, written,
/// executed, or reached from user mode.
#[derive(Clone, Copy, Debug, PartialEq, Eq, Structural)]
pub struct PageFlags {
    pub readable: bool,
    pub writable: bool,
    pub executable: bool,
    pub user_accessible: bool,
}

impl PageFlags {
    /// Read-only data visible to the kernel alone.
    pub fn read_only() -> (r: PageFlags)
        ensures
            r == (PageFlags {
                readable: true,
                writable: false,
                executable: false,
                user_accessible: false,
            }),
    {
        PageFlags { readable: true, writable: false, executable: false, user_accessible: false }
    }

    /// Read-write data visible to the kernel alone.
    pub fn read_write() -> (r: PageFlags)
        ensures
            r == (PageFlags {
                readable: true,
                writable: true,
                executable: false,
                user_accessible: false,
            }),
    {
        PageFlags { readable: true, writable: true, executable: false, user_accessible: false }
    }
}

} // verus!
