use vstd::prelude::*;
use crate::framer::Sample;

verus! {

/// Status that the radio driver returns from each call.
#[allow(non_camel_case_types)]
#[derive(Clone, Copy, PartialEq, Eq, Debug, Structural)]
pub enum Return {
    SUCCESS,
    TRUE,
    ERROR_INVALID_PARAM,
    ERROR_NOT_FOUND,
    ERROR_BUSY,
    ERROR_NO_MEM,
    ERROR_LIBUSB,
    ERROR_THREAD,
    ERROR_STREAMING_THREAD_ERR,
    ERROR_STREAMING_STOPPED,
    ERROR_STREAMING_EXIT_CALLED,
    ERROR_OTHER,
}

/// The driver's integer code of each status.
pub open spec fn return_code(r: Return) -> int {
    match r {
        Return::SUCCESS => 0,
        Return::TRUE => 1,
        Return::ERROR_INVALID_PARAM => -2,
        Return::ERROR_NOT_FOUND => -5,
        Return::ERROR_BUSY => -6,
        Return::ERROR_NO_MEM => -11,
        Return::ERROR_LIBUSB => -1000,
        Return::ERROR_THREAD => -1001,
        Return::ERROR_STREAMING_THREAD_ERR => -1002,
        Return::ERROR_STREAMING_STOPPED => -1003,
        Return::ERROR_STREAMING_EXIT_CALLED => -1004,
        Return::ERROR_OTHER => -9999,
    }
}

impl Return {
    /// The driver's integer code of this status.
    pub fn code(&self) -> (r: i32)
        ensures
            r == return_code(*self),
    {
        match self {
            Return::SUCCESS => 0,
            Return::TRUE => 1,
            Return::ERROR_INVALID_PARAM => -2,
            Return::ERROR_NOT_FOUND => -5,
            Return::ERROR_BUSY => -6,
            Return::ERROR_NO_MEM => -11,
            Return::ERROR_LIBUSB => -1000,
            Return::ERROR_THREAD => -1001,
            Return::ERROR_STREAMING_THREAD_ERR => -1002,
            Return::ERROR_STREAMING_STOPPED => -1003,
            Return::ERROR_STREAMING_EXIT_CALLED => -1004,
            Return::ERROR_OTHER => -9999,
        }
    }

    /// The status with driver code `code`, if there is one.
    pub fn from_code(code: i32) -> (r: Option<Return>)
        ensures
            r matches Some(s) ==> return_code(s) == code,
            r is None ==> forall|s: Return| return_code(s) != code,
    {
        if code == 0 {
            Some(Return::SUCCESS)
        } else if code == 1 {
            Some(Return::TRUE)
        } else if code == -2 {
            Some(Return::ERROR_INVALID_PARAM)
        } else if code == -5 {
            Some(Return::ERROR_NOT_FOUND)
        } else if code == -6 {
            Some(Return::ERROR_BUSY)
        } else if code == -11 {
            Some(Return::ERROR_NO_MEM)
        } else if code == -1000 {
            Some(Return::ERROR_LIBUSB)
        } else if code == -1001 {
            Some(Return::ERROR_THREAD)
        } else if code == -1002 {
            Some(Return::ERROR_STREAMING_THREAD_ERR)
        } else if code == -1003 {
            Some(Return::ERROR_STREAMING_STOPPED)
        } else if code == -1004 {
            Some(Return::ERROR_STREAMING_EXIT_CALLED)
        } else if code == -9999 {
            Some(Return::ERROR_OTHER)
        } else {
            None
        }
    }

    /// Whether a call returning driver code `code` succeeded.
    pub fn is_success_code(code: i32) -> (r: bool)
        ensures
            r == (code == return_code(Return::SUCCESS)),
    {
        code == 0
    }
}

/// The samples in a receive buffer: interleaved signed bytes, in-phase first.
pub open spec fn samples_of(bytes: Seq<u8>) -> Seq<Sample> {
    Seq::new(
        bytes.len() / 2,
        |k: int| Sample { re: bytes[2 * k] as i8, im: bytes[2 * k + 1] as i8 },
    )
}

/// Reads the samples of a receive buffer, which holds whole pairs of bytes.
pub fn samples_from_bytes(bytes: &Vec<u8>) -> (r: Vec<Sample>)
    requires
        bytes@.len() % 2 == 0,
    ensures
        r@ == samples_of(bytes@),
{
    let len = bytes.len();
    let n = len / 2;
    let mut r: Vec<Sample> = Vec::with_capacity(n);
    let mut k: usize = 0;
    while k < n
        invariant
            k <= n,
            2 * n == len,
            len == bytes@.len(),
            r@ =~= samples_of(bytes@).take(k as int),
        decreases n - k,
    {
        r.push(Sample { re: bytes[2 * k] as i8, im: bytes[2 * k + 1] as i8 });
        k = k + 1;
    }
    r
}

} // verus!
