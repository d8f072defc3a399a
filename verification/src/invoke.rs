use vstd::prelude::*;

use crate::cell::SharedCell;
use crate::decode::decode;
use crate::decode::needs_ptr;
use crate::decode::uses_ptr;
use crate::decode::Decoded;
use crate::decode::ReturnSpec;
use crate::encode::gen_params;
use crate::error::RuntimeError;
use crate::memory::Allocator;
use crate::memory::LinearMemory;

verus! {

/// The external executor that resolves and runs one guest function.  It
/// exposes the guest's allocator (which drives parameter encoding), runs
/// the function on the encoded ABI values, and exposes the guest's linear
/// memory for return decoding.  Nothing is promised of the guest itself:
/// `call` states what holds of every outcome, and the decoders pin the
/// result down for each raw return value and memory state.
pub trait VmExecutor: Allocator {
    /// Runs the guest function on the encoded argument list and hands back
    /// its raw return value: `None` where the guest returned nothing, or
    /// not a 32-bit integer.  A guest trap surfaces as the error.
    fn run(&mut self, abi: &Vec<u32>) -> (r: Result<Option<i32>, RuntimeError>);

    /// The guest's linear memory, as the last run left it.
    fn memory(&self) -> (m: &LinearMemory);
}

/// Performs exactly one blocking guest call: encodes `data` through the
/// executor's allocator — reserving the last buffer's offset as the output
/// pointer where the selected return shape reads one — runs the function on
/// the encoded ABI values, and decodes the raw return value against the
/// executor's memory.  The error of whichever phase fails is returned to
/// the caller untouched.
///
/// A return shape that reads the output pointer obliges the caller to
/// supply at least one buffer, the last one standing for the output.
pub fn call<V: VmExecutor>(
    vm: &mut V,
    data: &Vec<Vec<u8>>,
    len_index: &Vec<usize>,
    rspec: &ReturnSpec,
    result_len: &mut SharedCell<u32>,
    output: &mut Vec<u8>,
) -> (r: Result<Option<Decoded>, RuntimeError>)
    requires
        forall|i: int| 0 <= i < data@.len() ==> (#[trigger] data@[i])@.len() <= u32::MAX,
        old(output)@.len() <= u32::MAX,
        needs_ptr(*rspec) ==> data@.len() > 0,
        rspec is BufferViaLengthPrefix ==> old(result_len).is_unwritten(),
    ensures
        rspec is Ignore && r is Ok ==> (r->Ok_0 matches Some(d) && d is Unit),
        rspec is ScalarOnly && r is Ok ==> r->Ok_0 is None || (r->Ok_0 matches Some(d) && d
            is Scalar),
        rspec is ScalarPlusBuffer && r is Ok ==> r->Ok_0 is None || (r->Ok_0 matches Some(d) && d
            is Scalar),
        rspec is VoidPlusBuffer && r is Ok ==> (r->Ok_0 matches Some(d) && d is Unit),
        rspec is BufferViaLengthPrefix && r is Ok ==> r->Ok_0 is None || (r->Ok_0 matches Some(d)
            && d is Buffer),
        rspec is ScalarPlusBuffer || rspec is VoidPlusBuffer ==> final(output)@.len() == old(
            output,
        )@.len(),
        !(rspec is ScalarPlusBuffer || rspec is VoidPlusBuffer) ==> final(output)@ == old(output)@,
        !(rspec is BufferViaLengthPrefix) ==> *final(result_len) == *old(result_len),
{
    let mut ptr_opt: Option<SharedCell<u32>> = if uses_ptr(rspec) {
        Option::Some(SharedCell::new())
    } else {
        Option::None
    };
    let abi = match gen_params(vm, data, len_index, &mut ptr_opt) {
        Result::Ok(a) => a,
        Result::Err(e) => {
            return Result::Err(e);
        },
    };
    let ret = match vm.run(&abi) {
        Result::Ok(o) => o,
        Result::Err(e) => {
            return Result::Err(e);
        },
    };
    let ptr_cell = match ptr_opt {
        Option::Some(c) => c,
        Option::None => SharedCell::new(),
    };
    decode(rspec, ret, vm.memory(), ptr_cell, result_len, output)
}

} // verus!
