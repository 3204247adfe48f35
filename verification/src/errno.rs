//! POSIX error numbers, as the Windows C runtime numbers them, and the `Errno` value type.
use vstd::prelude::*;

verus! {

pub const EPERM: i32 = 1;
pub const ENOENT: i32 = 2;
pub const ESRCH: i32 = 3;
pub const EINTR: i32 = 4;
pub const EIO: i32 = 5;
pub const ENXIO: i32 = 6;
pub const E2BIG: i32 = 7;
pub const ENOEXEC: i32 = 8;
pub const EBADF: i32 = 9;
pub const ECHILD: i32 = 10;
pub const EAGAIN: i32 = 11;
pub const ENOMEM: i32 = 12;
pub const EACCES: i32 = 13;
pub const EFAULT: i32 = 14;
pub const ENOTBLK: i32 = 15;
pub const EBUSY: i32 = 16;
pub const EEXIST: i32 = 17;
pub const EXDEV: i32 = 18;
pub const ENODEV: i32 = 19;
pub const ENOTDIR: i32 = 20;
pub const EISDIR: i32 = 21;
pub const EINVAL: i32 = 22;
pub const ENFILE: i32 = 23;
pub const EMFILE: i32 = 24;
pub const ENOTTY: i32 = 25;
pub const ETXTBSY: i32 = 139;
pub const EFBIG: i32 = 27;
pub const ENOSPC: i32 = 28;
pub const ESPIPE: i32 = 29;
pub const EROFS: i32 = 30;
pub const EMLINK: i32 = 31;
pub const EPIPE: i32 = 32;
pub const EDOM: i32 = 33;
pub const ERANGE: i32 = 34;
pub const EDEADLK: i32 = 36;
pub const ENAMETOOLONG: i32 = 38;
pub const ENOLCK: i32 = 39;
pub const ENOSYS: i32 = 40;
pub const ENOTEMPTY: i32 = 41;
pub const ELOOP: i32 = 114;
pub const EWOULDBLOCK: i32 = 140;
pub const ENOMSG: i32 = 122;
pub const EIDRM: i32 = 111;
pub const EREMOTE: i32 = 66;
pub const ENOLINK: i32 = 121;
pub const EPROTO: i32 = 134;
pub const EMULTIHOP: i32 = 72;
pub const EBADMSG: i32 = 104;
pub const EOVERFLOW: i32 = 132;
pub const EILSEQ: i32 = 42;
pub const EUSERS: i32 = 87;
pub const ENOTSOCK: i32 = 128;
pub const EDESTADDRREQ: i32 = 109;
pub const EMSGSIZE: i32 = 115;
pub const EPROTOTYPE: i32 = 136;
pub const ENOPROTOOPT: i32 = 123;
pub const EPROTONOSUPPORT: i32 = 135;
pub const ESOCKTNOSUPPORT: i32 = 94;
pub const EOPNOTSUPP: i32 = 130;
pub const EPFNOSUPPORT: i32 = 96;
pub const EAFNOSUPPORT: i32 = 102;
pub const EADDRINUSE: i32 = 100;
pub const EADDRNOTAVAIL: i32 = 101;
pub const ENETDOWN: i32 = 116;
pub const ENETUNREACH: i32 = 118;
pub const ENETRESET: i32 = 117;
pub const ECONNABORTED: i32 = 106;
pub const ECONNRESET: i32 = 108;
pub const ENOBUFS: i32 = 119;
pub const EISCONN: i32 = 113;
pub const ENOTCONN: i32 = 126;
pub const ESHUTDOWN: i32 = 108;
pub const ETOOMANYREFS: i32 = 109;
pub const ETIMEDOUT: i32 = 138;
pub const ECONNREFUSED: i32 = 107;
pub const EHOSTDOWN: i32 = 112;
pub const EHOSTUNREACH: i32 = 110;
pub const EALREADY: i32 = 103;
pub const EINPROGRESS: i32 = 112;
pub const ESTALE: i32 = 116;
pub const EDQUOT: i32 = 122;
pub const ECANCELED: i32 = 105;
pub const EOWNERDEAD: i32 = 133;
pub const ENOTRECOVERABLE: i32 = 127;
pub const ENOTSUP: i32 = 129;
pub const EFTYPE: i32 = 79;
pub const ENODATA: i32 = 120;
/// The error a filesystem reports for a missing extended attribute.
pub const NO_XATTR: i32 = 120;

/// A non-zero POSIX error number.
#[derive(Clone, Copy, Debug)]
pub struct Errno {
    code: i32,
}

impl Errno {
    #[verifier::type_invariant]
    spec fn nonzero(self) -> bool {
        self.code != 0
    }

    /// The error number held by this value.
    pub closed spec fn spec_code(self) -> i32 {
        self.code
    }

    /// An `Errno` for a raw, non-zero error number.
    pub fn from_raw_os_error(error: i32) -> (r: Errno)
        requires
            error != 0,
        ensures
            r.spec_code() == error,
    {
        Errno { code: error }
    }

    /// An `Errno` for a positive error number; `EIO` for zero or a negative number.
    pub fn from_i32(error: i32) -> (r: Errno)
        ensures
            r.spec_code() == if error > 0 { error } else { EIO },
    {
        if error > 0 {
            Errno { code: error }
        } else {
            Errno { code: EIO }
        }
    }

    /// The error number.
    pub fn code(self) -> (r: i32)
        ensures
            r == self.spec_code(),
            r != 0,
    {
        proof {
            use_type_invariant(&self);
        }
        self.code
    }

    /// The error number, as `std::io::Error::raw_os_error` would give it.
    pub fn raw_os_error(self) -> (r: i32)
        ensures
            r == self.spec_code(),
            r != 0,
    {
        self.code()
    }
}

} // verus!
