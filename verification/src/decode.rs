use vstd::prelude::*;

use crate::bytes::le_to_u32;
use crate::bytes::le_u32;
use crate::cell::SharedCell;
use crate::error::RuntimeError;
use crate::memory::LinearMemory;

verus! {

/// The closed set of recognized return shapes.  The caller selects one per
/// call; the guest is not consulted, so honoring the guest function's
/// actual convention is a caller obligation.
#[derive(Clone, Copy, Debug, PartialEq, Eq, Structural)]
pub enum ReturnSpec {
    /// The guest's return value is ignored; the call always yields a unit
    /// result.
    Ignore,
    /// The guest's raw 32-bit return value, unsigned; a missing or
    /// non-integer return value yields "no result", not an error.
    ScalarOnly,
    /// A fixed-size buffer is read back from the address in the reserved
    /// pointer cell, and the raw scalar is returned with it.
    ScalarPlusBuffer,
    /// The same buffer read-back, with no scalar required or returned.
    VoidPlusBuffer,
    /// The guest's return value is itself an address; the reserved pointer
    /// holds a 4-byte little-endian length prefix for the payload found
    /// there.  Address zero is a reserved "empty" sentinel and is read-free.
    BufferViaLengthPrefix,
}

/// Whether a return shape reads the reserved output pointer, so that
/// encoding must have written one.
pub open spec fn needs_ptr(rspec: ReturnSpec) -> bool {
    rspec is ScalarPlusBuffer || rspec is VoidPlusBuffer || rspec is BufferViaLengthPrefix
}

/// Exec mirror of `needs_ptr`.
pub fn uses_ptr(rspec: &ReturnSpec) -> (b: bool)
    ensures
        b == needs_ptr(*rspec),
{
    match rspec {
        ReturnSpec::ScalarPlusBuffer => true,
        ReturnSpec::VoidPlusBuffer => true,
        ReturnSpec::BufferViaLengthPrefix => true,
        _ => false,
    }
}

/// A decoded host-side result: unit, the guest's raw scalar, or a buffer
/// read out of guest memory.
#[derive(Debug, PartialEq, Eq)]
pub enum Decoded {
    Unit,
    Scalar(u32),
    Buffer(Vec<u8>),
}

/// Ignores the guest's return value; always succeeds with a unit result.
pub fn return_none() -> (r: Result<Option<()>, RuntimeError>)
    ensures
        r is Ok,
        r->Ok_0 is Some,
{
    Result::Ok(Option::Some(()))
}

/// Returns the guest's raw 32-bit return value unsigned; a missing or
/// non-integer value yields "no result" — explicitly not an error.
pub fn return_value_no_buffer(ret: Option<i32>) -> (r: Result<Option<u32>, RuntimeError>)
    ensures
        r is Ok,
        ret is Some ==> r->Ok_0 == Option::Some((ret->0) as u32),
        ret is None ==> r->Ok_0 is None,
{
    match ret {
        Option::Some(v) => Result::Ok(Option::Some(v as u32)),
        Option::None => Result::Ok(Option::None),
    }
}

/// Overwrites `output` with exactly `output.len()` bytes of guest memory at
/// the address held in the reserved pointer cell; the guest's return value
/// is not consulted.  An out-of-bounds read fails with a runtime error and
/// leaves `output` untouched.
pub fn return_none_write_buffer(
    mem: &LinearMemory,
    output: &mut Vec<u8>,
    ptr: SharedCell<u32>,
) -> (r: Result<Option<()>, RuntimeError>)
    requires
        ptr.is_written(),
        old(output)@.len() <= u32::MAX,
    ensures
        ptr.value() as int + old(output)@.len() <= mem.mem().len() ==> r is Ok && r->Ok_0 is Some
            && final(output)@ == mem.mem().subrange(
            ptr.value() as int,
            ptr.value() as int + old(output)@.len(),
        ),
        ptr.value() as int + old(output)@.len() > mem.mem().len() ==> r is Err && r->Err_0
            == RuntimeError::Runtime && final(output)@ == old(output)@,
{
    let len = output.len();
    let addr = ptr.take();
    match mem.read(addr, len as u32) {
        Result::Ok(bytes) => {
            *output = bytes;
            Result::Ok(Option::Some(()))
        },
        Result::Err(e) => Result::Err(e),
    }
}

/// Overwrites `output` as `return_none_write_buffer` does and also returns
/// the guest's raw scalar; with no 32-bit return value the buffer is left
/// untouched and the call yields "no result".
pub fn return_value_write_buffer(
    ret: Option<i32>,
    mem: &LinearMemory,
    output: &mut Vec<u8>,
    ptr: SharedCell<u32>,
) -> (r: Result<Option<u32>, RuntimeError>)
    requires
        ret is Some ==> ptr.is_written(),
        old(output)@.len() <= u32::MAX,
    ensures
        ret is None ==> r is Ok && r->Ok_0 is None && final(output)@ == old(output)@,
        ret is Some ==> {
            &&& (ptr.value() as int + old(output)@.len() <= mem.mem().len() ==> r is Ok
                && r->Ok_0 == Option::Some((ret->0) as u32) && final(output)@
                == mem.mem().subrange(ptr.value() as int, ptr.value() as int + old(output)@.len()))
            &&& (ptr.value() as int + old(output)@.len() > mem.mem().len() ==> r is Err && r->Err_0
                == RuntimeError::Runtime && final(output)@ == old(output)@)
        },
{
    match ret {
        Option::None => Result::Ok(Option::None),
        Option::Some(v) => {
            let len = output.len();
            let addr = ptr.take();
            match mem.read(addr, len as u32) {
                Result::Ok(bytes) => {
                    *output = bytes;
                    Result::Ok(Option::Some(v as u32))
                },
                Result::Err(e) => Result::Err(e),
            }
        },
    }
}

/// Decodes a buffer returned by address.  The guest's return value is the
/// payload address, with zero as the read-free "empty" sentinel; otherwise
/// the 4 little-endian bytes at the address held in the reserved pointer
/// cell give the payload length, which is stored into `result_len` for
/// caller inspection, and that many bytes at the payload address are the
/// result.  Any out-of-bounds access fails with a runtime error.
pub fn return_buffer(
    ret: Option<i32>,
    mem: &LinearMemory,
    result_len: &mut SharedCell<u32>,
    ptr: SharedCell<u32>,
) -> (r: Result<Option<Vec<u8>>, RuntimeError>)
    requires
        (ret is Some && (ret->0) as u32 != 0) ==> ptr.is_written() && old(
            result_len,
        ).is_unwritten(),
    ensures
        ret is None ==> r is Ok && r->Ok_0 is None && *final(result_len) == *old(result_len),
        (ret is Some && (ret->0) as u32 == 0) ==> r is Ok && (r->Ok_0 matches Some(buf) && buf@
            == Seq::<u8>::empty()) && *final(result_len) == *old(result_len),
        (ret is Some && (ret->0) as u32 != 0) ==> {
            let p = ptr.value() as int;
            let a = (ret->0) as u32 as int;
            &&& (p + 4 > mem.mem().len() ==> r is Err && r->Err_0 == RuntimeError::Runtime
                && *final(result_len) == *old(result_len))
            &&& (p + 4 <= mem.mem().len() ==> {
                let n = le_u32(mem.mem().subrange(p, p + 4));
                &&& final(result_len).is_written()
                &&& final(result_len).value() == n
                &&& (a + n <= mem.mem().len() ==> r is Ok && (r->Ok_0 matches Some(buf) && buf@
                    == mem.mem().subrange(a, a + n)))
                &&& (a + n > mem.mem().len() ==> r is Err && r->Err_0 == RuntimeError::Runtime)
            })
        },
{
    match ret {
        Option::None => Result::Ok(Option::None),
        Option::Some(v) => {
            let payload_addr = v as u32;
            if payload_addr == 0 {
                return Result::Ok(Option::Some(Vec::new()));
            }
            let prefix_addr = ptr.take();
            match mem.read(prefix_addr, 4) {
                Result::Err(e) => Result::Err(e),
                Result::Ok(prefix) => {
                    let n = le_to_u32(&prefix);
                    result_len.write(n);
                    match mem.read(payload_addr, n) {
                        Result::Err(e) => Result::Err(e),
                        Result::Ok(buf) => Result::Ok(Option::Some(buf)),
                    }
                },
            }
        },
    }
}

/// Decodes one guest call's outcome according to the selected return
/// shape, dispatching to the decoder of that shape: `ret` is the guest's
/// raw return value (`None` where it returned nothing or not a 32-bit
/// integer), `mem` its linear memory after the run, `ptr` the reserved
/// output pointer cell written during encoding, `result_len` the length
/// cell of the length-prefix shape, and `output` the caller-sized buffer of
/// the buffer-write shapes.
pub fn decode(
    rspec: &ReturnSpec,
    ret: Option<i32>,
    mem: &LinearMemory,
    ptr: SharedCell<u32>,
    result_len: &mut SharedCell<u32>,
    output: &mut Vec<u8>,
) -> (r: Result<Option<Decoded>, RuntimeError>)
    requires
        old(output)@.len() <= u32::MAX,
        rspec is ScalarPlusBuffer && ret is Some ==> ptr.is_written(),
        rspec is VoidPlusBuffer ==> ptr.is_written(),
        rspec is BufferViaLengthPrefix && ret is Some && (ret->0) as u32 != 0 ==> ptr.is_written()
            && old(result_len).is_unwritten(),
    ensures
        rspec is Ignore ==> r is Ok && (r->Ok_0 matches Some(d) && d is Unit) && final(output)@
            == old(output)@ && *final(result_len) == *old(result_len),
        rspec is ScalarOnly ==> r is Ok && (ret is Some ==> r->Ok_0 == Option::Some(
            Decoded::Scalar((ret->0) as u32),
        )) && (ret is None ==> r->Ok_0 is None) && final(output)@ == old(output)@
            && *final(result_len) == *old(result_len),
        rspec is ScalarPlusBuffer ==> *final(result_len) == *old(result_len) && {
            &&& (ret is None ==> r is Ok && r->Ok_0 is None && final(output)@ == old(output)@)
            &&& (ret is Some ==> {
                &&& (ptr.value() as int + old(output)@.len() <= mem.mem().len() ==> r is Ok
                    && r->Ok_0 == Option::Some(Decoded::Scalar((ret->0) as u32)) && final(output)@
                    == mem.mem().subrange(
                    ptr.value() as int,
                    ptr.value() as int + old(output)@.len(),
                ))
                &&& (ptr.value() as int + old(output)@.len() > mem.mem().len() ==> r is Err
                    && r->Err_0 == RuntimeError::Runtime && final(output)@ == old(output)@)
            })
        },
        rspec is VoidPlusBuffer ==> *final(result_len) == *old(result_len) && {
            &&& (ptr.value() as int + old(output)@.len() <= mem.mem().len() ==> r is Ok && (r->Ok_0
                matches Some(d) && d is Unit) && final(output)@ == mem.mem().subrange(
                ptr.value() as int,
                ptr.value() as int + old(output)@.len(),
            ))
            &&& (ptr.value() as int + old(output)@.len() > mem.mem().len() ==> r is Err && r->Err_0
                == RuntimeError::Runtime && final(output)@ == old(output)@)
        },
        rspec is BufferViaLengthPrefix ==> final(output)@ == old(output)@ && {
            &&& (ret is None ==> r is Ok && r->Ok_0 is None && *final(result_len) == *old(
                result_len,
            ))
            &&& (ret is Some && (ret->0) as u32 == 0 ==> r is Ok && (r->Ok_0 matches Some(d) && d
                matches Decoded::Buffer(buf) && buf@ == Seq::<u8>::empty()) && *final(result_len)
                == *old(result_len))
            &&& (ret is Some && (ret->0) as u32 != 0 ==> {
                let p = ptr.value() as int;
                let a = (ret->0) as u32 as int;
                &&& (p + 4 > mem.mem().len() ==> r is Err && r->Err_0 == RuntimeError::Runtime
                    && *final(result_len) == *old(result_len))
                &&& (p + 4 <= mem.mem().len() ==> {
                    let n = le_u32(mem.mem().subrange(p, p + 4));
                    &&& final(result_len).is_written()
                    &&& final(result_len).value() == n
                    &&& (a + n <= mem.mem().len() ==> r is Ok && (r->Ok_0 matches Some(d) && d
                        matches Decoded::Buffer(buf) && buf@ == mem.mem().subrange(a, a + n)))
                    &&& (a + n > mem.mem().len() ==> r is Err && r->Err_0
                        == RuntimeError::Runtime)
                })
            })
        },
{
    match rspec {
        ReturnSpec::Ignore => {
            match return_none() {
                Result::Ok(opt) => match opt {
                    Option::Some(_) => Result::Ok(Option::Some(Decoded::Unit)),
                    Option::None => Result::Ok(Option::None),
                },
                Result::Err(e) => Result::Err(e),
            }
        },
        ReturnSpec::ScalarOnly => {
            match return_value_no_buffer(ret) {
                Result::Ok(opt) => match opt {
                    Option::Some(v) => Result::Ok(Option::Some(Decoded::Scalar(v))),
                    Option::None => Result::Ok(Option::None),
                },
                Result::Err(e) => Result::Err(e),
            }
        },
        ReturnSpec::ScalarPlusBuffer => {
            match return_value_write_buffer(ret, mem, output, ptr) {
                Result::Ok(opt) => match opt {
                    Option::Some(v) => Result::Ok(Option::Some(Decoded::Scalar(v))),
                    Option::None => Result::Ok(Option::None),
                },
                Result::Err(e) => Result::Err(e),
            }
        },
        ReturnSpec::VoidPlusBuffer => {
            match return_none_write_buffer(mem, output, ptr) {
                Result::Ok(opt) => match opt {
                    Option::Some(_) => Result::Ok(Option::Some(Decoded::Unit)),
                    Option::None => Result::Ok(Option::None),
                },
                Result::Err(e) => Result::Err(e),
            }
        },
        ReturnSpec::BufferViaLengthPrefix => {
            match return_buffer(ret, mem, result_len, ptr) {
                Result::Ok(opt) => match opt {
                    Option::Some(buf) => Result::Ok(Option::Some(Decoded::Buffer(buf))),
                    Option::None => Result::Ok(Option::None),
                },
                Result::Err(e) => Result::Err(e),
            }
        },
    }
}

} // verus!
