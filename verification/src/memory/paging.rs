//! Page table entry flags.

use vstd::prelude::*;

verus! {

/// Page table entry flags.
pub struct PageFlags {
    pub present: bool,
    pub writable: bool,
    pub user: bool,
    pub write_through: bool,
    pub cache_disable: bool,
    pub execute_disable: bool,
}

impl PageFlags {
    /// Writable pages are never executable (W^X).
    pub open spec fn is_w_xor_x(self) -> bool {
        self.writable ==> self.execute_disable
    }

    /// Kernel code: present, read-only, executable, kernel only.
    pub fn kernel_code() -> (f: Self)
        ensures
            f == (PageFlags {
                present: true,
                writable: false,
                user: false,
                write_through: false,
                cache_disable: false,
                execute_disable: false,
            }),
            f.is_w_xor_x(),
    {
        PageFlags {
            present: true,
            writable: false,
            user: false,
            write_through: false,
            cache_disable: false,
            execute_disable: false,
        }
    }

    /// Kernel data: present, writable, no-execute, kernel only.
    pub fn kernel_data() -> (f: Self)
        ensures
            f == (PageFlags {
                present: true,
                writable: true,
                user: false,
                write_through: false,
                cache_disable: false,
                execute_disable: true,
            }),
            f.is_w_xor_x(),
    {
        PageFlags {
            present: true,
            writable: true,
            user: false,
            write_through: false,
            cache_disable: false,
            execute_disable: true,
        }
    }

    /// User code: present, read-only, executable, user-accessible.
    pub fn user_code() -> (f: Self)
        ensures
            f == (PageFlags {
                present: true,
                writable: false,
                user: true,
                write_through: false,
                cache_disable: false,
                execute_disable: false,
            }),
            f.is_w_xor_x(),
    {
        PageFlags {
            present: true,
            writable: false,
            user: true,
            write_through: false,
            cache_disable: false,
            execute_disable: false,
        }
    }

    /// User data: present, writable, no-execute, user-accessible.
    pub fn user_data() -> (f: Self)
        ensures
            f == (PageFlags {
                present: true,
                writable: true,
                user: true,
                write_through: false,
                cache_disable: false,
                execute_disable: true,
            }),
            f.is_w_xor_x(),
    {
        PageFlags {
            present: true,
            writable: true,
            user: true,
            write_through: false,
            cache_disable: false,
            execute_disable: true,
        }
    }
}

} // verus!
