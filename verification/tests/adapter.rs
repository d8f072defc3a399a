use guest_call::cell::{copy_slice, copy_u32, wrap, SharedCell};
use guest_call::bytes::{le, le_to_u32};
use guest_call::decode::{
    decode, return_buffer, return_none, return_none_write_buffer, return_value_no_buffer,
    return_value_write_buffer, Decoded, ReturnSpec,
};
use guest_call::encode::{abi_values, gen_params};
use guest_call::error::RuntimeError;
use guest_call::invoke::{call, VmExecutor};
use guest_call::memory::{Allocator, LinearMemory};

#[test]
fn cell_write_then_take() {
    let mut c: SharedCell<u32> = SharedCell::new();
    assert!(!c.has_value());
    c.write(11);
    assert!(c.has_value());
    assert_eq!(*c.peek(), 11);
    assert_eq!(c.take(), 11);
}

#[test]
fn wrap_and_copy_u32() {
    let c = wrap(0xdead_beefu32);
    let mut n: u32 = 0;
    copy_u32(&c, &mut n);
    assert_eq!(n, 0xdead_beef);
}

#[test]
fn wrap_and_copy_slice() {
    let c = wrap(vec![1u8, 2, 3]);
    let mut out = vec![0u8; 3];
    copy_slice(&c, &mut out);
    assert_eq!(out, vec![1, 2, 3]);
}

#[test]
fn le_bytes_of_u32() {
    let mut n: u32 = 0x0102_0304;
    assert_eq!(le(&mut n), [4, 3, 2, 1]);
    assert_eq!(n, 0x0102_0304);
    let mut z: u32 = 0;
    assert_eq!(le(&mut z), [0, 0, 0, 0]);
}

#[test]
fn le_round_trip() {
    assert_eq!(le_to_u32(&vec![4, 3, 2, 1]), 0x0102_0304);
    let mut n: u32 = 0xfffe_fdfc;
    assert_eq!(le_to_u32(&le(&mut n).to_vec()), 0xfffe_fdfc);
}

#[test]
fn memory_read_write_bounds() {
    let mut mem = LinearMemory::new(8);
    assert_eq!(mem.write(2, &vec![9, 8, 7]), Ok(()));
    assert_eq!(mem.read(2, 3), Ok(vec![9, 8, 7]));
    assert_eq!(mem.read(0, 2), Ok(vec![0, 0]));
    assert_eq!(mem.read(6, 3), Err(RuntimeError::Runtime));
    assert_eq!(mem.write(7, &vec![1, 2]), Err(RuntimeError::Runtime));
}

#[test]
fn allocator_places_buffers_in_order() {
    let mut mem = LinearMemory::new(8);
    assert_eq!(mem.allocate(&vec![1, 2, 3]), Ok(0));
    assert_eq!(mem.allocate(&vec![4, 5]), Ok(3));
    assert_eq!(mem.read(0, 5), Ok(vec![1, 2, 3, 4, 5]));
    assert_eq!(mem.allocate(&vec![0; 4]), Err(RuntimeError::Runtime));
}

#[test]
fn abi_values_layout() {
    let data = vec![b"ab".to_vec(), b"cde".to_vec(), b"f".to_vec()];
    let offsets = vec![100, 102, 105];
    let abi = abi_values(&data, &vec![0, 2], &offsets);
    assert_eq!(abi, vec![100, 2, 102, 105, 1]);
}

#[test]
fn gen_params_single_buffer_with_len() {
    let mut mem = LinearMemory::new(64);
    let data = vec![b"abc".to_vec()];
    let mut ptr: Option<SharedCell<u32>> = None;
    let abi = gen_params(&mut mem, &data, &vec![0], &mut ptr).unwrap();
    assert_eq!(abi, vec![0, 3]);
    assert_eq!(mem.read(0, 3), Ok(b"abc".to_vec()));
}

#[test]
fn gen_params_two_buffers_sets_output_pointer() {
    let mut mem = LinearMemory::new(64);
    let data = vec![b"abc".to_vec(), b"defg".to_vec()];
    let mut ptr = Some(SharedCell::new());
    let abi = gen_params(&mut mem, &data, &vec![], &mut ptr).unwrap();
    assert_eq!(abi, vec![0, 3]);
    assert_eq!(mem.read(0, 3), Ok(b"abc".to_vec()));
    assert_eq!(mem.read(3, 4), Ok(b"defg".to_vec()));
    let cell = ptr.unwrap();
    assert!(cell.has_value());
    let mut off: u32 = 1;
    copy_u32(&cell, &mut off);
    assert_eq!(off, 3);
}

#[test]
fn gen_params_alloc_failure_aborts_whole_encode() {
    let mut mem = LinearMemory::new(4);
    let data = vec![b"ab".to_vec(), b"cdef".to_vec(), b"gh".to_vec()];
    let mut ptr = Some(SharedCell::new());
    let r = gen_params(&mut mem, &data, &vec![0, 1, 2], &mut ptr);
    assert_eq!(r, Err(RuntimeError::Runtime));
    assert!(!ptr.unwrap().has_value());
}

#[test]
fn return_none_always_unit() {
    assert_eq!(return_none(), Ok(Some(())));
}

#[test]
fn scalar_only_unsigned_and_no_result() {
    assert_eq!(return_value_no_buffer(Some(-1)), Ok(Some(4_294_967_295)));
    assert_eq!(return_value_no_buffer(Some(7)), Ok(Some(7)));
    assert_eq!(return_value_no_buffer(None), Ok(None));
}

#[test]
fn scalar_plus_buffer_copies_and_returns_scalar() {
    let mut mem = LinearMemory::new(32);
    mem.write(8, &b"xyz".to_vec()).unwrap();
    let mut out = vec![0u8; 3];
    let r = return_value_write_buffer(Some(7), &mem, &mut out, wrap(8));
    assert_eq!(r, Ok(Some(7)));
    assert_eq!(out, b"xyz".to_vec());
}

#[test]
fn scalar_plus_buffer_no_result_leaves_output() {
    let mem = LinearMemory::new(32);
    let mut out = vec![5u8; 3];
    let r = return_value_write_buffer(None, &mem, &mut out, wrap(8));
    assert_eq!(r, Ok(None));
    assert_eq!(out, vec![5, 5, 5]);
}

#[test]
fn scalar_plus_buffer_out_of_bounds_is_runtime_error() {
    let mem = LinearMemory::new(8);
    let mut out = vec![0u8; 4];
    let r = return_value_write_buffer(Some(1), &mem, &mut out, wrap(6));
    assert_eq!(r, Err(RuntimeError::Runtime));
    assert_eq!(out, vec![0, 0, 0, 0]);
}

#[test]
fn void_plus_buffer_copies() {
    let mut mem = LinearMemory::new(16);
    mem.write(4, &vec![1, 2, 3, 4]).unwrap();
    let mut out = vec![0u8; 4];
    let r = return_none_write_buffer(&mem, &mut out, wrap(4));
    assert_eq!(r, Ok(Some(())));
    assert_eq!(out, vec![1, 2, 3, 4]);
}

#[test]
fn void_plus_buffer_out_of_bounds_is_runtime_error() {
    let mem = LinearMemory::new(4);
    let mut out = vec![0u8; 8];
    let r = return_none_write_buffer(&mem, &mut out, wrap(0));
    assert_eq!(r, Err(RuntimeError::Runtime));
    assert_eq!(out, vec![0u8; 8]);
}

#[test]
fn buffer_via_length_prefix_zero_is_empty_sentinel() {
    let mut mem = LinearMemory::new(16);
    mem.write(0, &vec![0xde, 0xad, 0xbe, 0xef]).unwrap();
    let mut len_cell = SharedCell::new();
    let r = return_buffer(Some(0), &mem, &mut len_cell, wrap(0));
    assert_eq!(r, Ok(Some(vec![])));
    assert!(!len_cell.has_value());
}

#[test]
fn buffer_via_length_prefix_reads_payload() {
    let mut mem = LinearMemory::new(64);
    mem.write(10, &vec![5, 0, 0, 0]).unwrap();
    mem.write(20, &b"hello".to_vec()).unwrap();
    let mut len_cell = SharedCell::new();
    let r = return_buffer(Some(20), &mem, &mut len_cell, wrap(10));
    assert_eq!(r, Ok(Some(b"hello".to_vec())));
    let mut n: u32 = 0;
    copy_u32(&len_cell, &mut n);
    assert_eq!(n, 5);
}

#[test]
fn buffer_via_length_prefix_no_result() {
    let mem = LinearMemory::new(16);
    let mut len_cell = SharedCell::new();
    let r = return_buffer(None, &mem, &mut len_cell, wrap(0));
    assert_eq!(r, Ok(None));
    assert!(!len_cell.has_value());
}

#[test]
fn buffer_via_length_prefix_payload_out_of_bounds() {
    let mut mem = LinearMemory::new(16);
    mem.write(0, &vec![100, 0, 0, 0]).unwrap();
    let mut len_cell = SharedCell::new();
    let r = return_buffer(Some(4), &mem, &mut len_cell, wrap(0));
    assert_eq!(r, Err(RuntimeError::Runtime));
}

#[test]
fn buffer_via_length_prefix_prefix_out_of_bounds() {
    let mem = LinearMemory::new(8);
    let mut len_cell = SharedCell::new();
    let r = return_buffer(Some(2), &mem, &mut len_cell, wrap(6));
    assert_eq!(r, Err(RuntimeError::Runtime));
    assert!(!len_cell.has_value());
}

#[test]
fn decode_dispatches_by_shape() {
    let mut mem = LinearMemory::new(32);
    mem.write(8, &b"ok".to_vec()).unwrap();
    let mut len_cell = SharedCell::new();
    let mut out: Vec<u8> = Vec::new();
    let r = decode(&ReturnSpec::Ignore, None, &mem, SharedCell::new(), &mut len_cell, &mut out);
    assert_eq!(r, Ok(Some(Decoded::Unit)));
    let r = decode(&ReturnSpec::ScalarOnly, Some(-2), &mem, SharedCell::new(), &mut len_cell,
        &mut out);
    assert_eq!(r, Ok(Some(Decoded::Scalar(4_294_967_294))));
    let mut out2 = vec![0u8; 2];
    let r = decode(&ReturnSpec::ScalarPlusBuffer, Some(9), &mem, wrap(8), &mut len_cell, &mut out2);
    assert_eq!(r, Ok(Some(Decoded::Scalar(9))));
    assert_eq!(out2, b"ok".to_vec());
    let mut out3 = vec![0u8; 2];
    let r = decode(&ReturnSpec::VoidPlusBuffer, None, &mem, wrap(8), &mut len_cell, &mut out3);
    assert_eq!(r, Ok(Some(Decoded::Unit)));
    assert_eq!(out3, b"ok".to_vec());
    mem.write(0, &vec![2, 0, 0, 0]).unwrap();
    let r = decode(&ReturnSpec::BufferViaLengthPrefix, Some(8), &mem, wrap(0), &mut len_cell,
        &mut out);
    assert_eq!(r, Ok(Some(Decoded::Buffer(b"ok".to_vec()))));
    assert_eq!(len_cell.take(), 2);
}

struct EchoVm {
    mem: LinearMemory,
}

impl Allocator for EchoVm {
    fn allocate(&mut self, data: &Vec<u8>) -> Result<u32, RuntimeError> {
        self.mem.allocate(data)
    }
}

impl VmExecutor for EchoVm {
    fn run(&mut self, abi: &Vec<u32>) -> Result<Option<i32>, RuntimeError> {
        if abi.len() != 3 {
            return Err(RuntimeError::Runtime);
        }
        let input = self.mem.read(abi[0], abi[1])?;
        self.mem.write(abi[2], &input)?;
        Ok(Some(abi[1] as i32))
    }

    fn memory(&self) -> &LinearMemory {
        &self.mem
    }
}

#[test]
fn echo_guest_end_to_end() {
    let mut vm = EchoVm { mem: LinearMemory::new(256) };
    let input = b"echo me".to_vec();
    let data = vec![input.clone(), vec![0u8; input.len()]];
    let mut len_cell = SharedCell::new();
    let mut out = vec![0u8; input.len()];
    let r = call(&mut vm, &data, &vec![0], &ReturnSpec::ScalarPlusBuffer, &mut len_cell, &mut out);
    assert_eq!(r, Ok(Some(Decoded::Scalar(input.len() as u32))));
    assert_eq!(out, input);
}

#[test]
fn call_propagates_allocation_failure() {
    let mut vm = EchoVm { mem: LinearMemory::new(4) };
    let data = vec![vec![1u8; 8]];
    let mut len_cell = SharedCell::new();
    let mut out: Vec<u8> = Vec::new();
    let r = call(&mut vm, &data, &vec![], &ReturnSpec::ScalarOnly, &mut len_cell, &mut out);
    assert_eq!(r, Err(RuntimeError::Runtime));
}
