use std::collections::HashMap;
use vstd::prelude::*;

use crate::error::VMLogicError;
use crate::memory::{fits, splice, MemoryLike};

verus! {

broadcast use vstd::std_specs::hash::group_hash_axioms;

/// What one guest call produced for the host.
#[derive(Debug, PartialEq, Clone)]
pub enum ReturnData {
    /// The method returned some value or data.
    Value(Vec<u8>),
    /// The return value is to be taken from the method identified by this receipt index.
    ReceiptIndex(u64),
    /// The method has returned no data.
    Nothing,
}

/// Length reported for a register that holds no data.
pub const ABSENT_REGISTER_LEN: u64 = 0xffff_ffff_ffff_ffff;

/// Host functions offered to one guest call: its memory, its registers and what it returns.
pub struct VMLogic<M: MemoryLike> {
    memory: M,
    return_data: ReturnData,
    registers: HashMap<u64, Vec<u8>>,
}

impl<M: MemoryLike> VMLogic<M> {
    /// The bytes of the guest memory.
    pub closed spec fn memory_view(&self) -> Seq<u8> {
        self.memory.contents()
    }

    /// The registers that hold data, by id.
    pub closed spec fn register_map(&self) -> Map<u64, Seq<u8>> {
        self.registers@.map_values(|v: Vec<u8>| v@)
    }

    /// What the call has produced so far.
    pub closed spec fn return_data(&self) -> ReturnData {
        self.return_data
    }

    /// A bridge over `memory`, with no register written and nothing returned.
    pub fn new(memory: M) -> (r: Self)
        ensures
            r.memory_view() == memory.contents(),
            r.register_map() == Map::<u64, Seq<u8>>::empty(),
            r.return_data() == ReturnData::Nothing,
    {
        let r = VMLogic { memory, return_data: ReturnData::Nothing, registers: HashMap::new() };
        assert(r.register_map() =~= Map::<u64, Seq<u8>>::empty());
        r
    }

    /// The guest memory.
    pub fn memory(&self) -> (r: &M)
        ensures
            r.contents() == self.memory_view(),
    {
        &self.memory
    }

    fn try_fit_mem(&mut self, offset: u64, len: u64) -> (r: Result<(), VMLogicError>)
        ensures
            *final(self) == *old(self),
            r is Ok <==> fits(old(self).memory_view().len(), offset as int, len as int),
            r is Err ==> r == Err::<(), VMLogicError>(VMLogicError::HostError),
    {
        if self.memory.fits_memory(offset, len) {
            Ok(())
        } else {
            Err(VMLogicError::HostError)
        }
    }

    /// Reads `len` bytes of guest memory from `offset` on; fails, changing nothing, where
    /// they do not lie inside the memory.
    pub fn memory_get_vec(&mut self, offset: u64, len: u64) -> (r: Result<Vec<u8>, VMLogicError>)
        ensures
            *final(self) == *old(self),
            fits(old(self).memory_view().len(), offset as int, len as int) ==> r is Ok
                && r->Ok_0@ == old(self).memory_view().subrange(offset as int, offset + len),
            !fits(old(self).memory_view().len(), offset as int, len as int) ==> r == Err::<
                Vec<u8>,
                VMLogicError,
            >(VMLogicError::HostError),
    {
        match self.try_fit_mem(offset, len) {
            Ok(()) => {},
            Err(e) => {
                return Err(e);
            },
        }
        proof {
            self.memory.lemma_size_addressable();
        }
        let mut buf = vec![0u8; len as usize];
        self.memory.read_memory(offset, buf.as_mut_slice());
        Ok(buf)
    }

    /// Writes `buf` into guest memory from `offset` on; fails, changing nothing, where it
    /// does not fit inside the memory.
    pub fn memory_set_slice(&mut self, offset: u64, buf: &[u8]) -> (r: Result<(), VMLogicError>)
        ensures
            fits(old(self).memory_view().len(), offset as int, buf@.len() as int) ==> {
                &&& r is Ok
                &&& final(self).memory_view() == splice(
                    old(self).memory_view(),
                    offset as int,
                    buf@,
                )
                &&& final(self).register_map() == old(self).register_map()
                &&& final(self).return_data() == old(self).return_data()
            },
            !fits(old(self).memory_view().len(), offset as int, buf@.len() as int) ==> {
                &&& r == Err::<(), VMLogicError>(VMLogicError::HostError)
                &&& *final(self) == *old(self)
            },
    {
        match self.try_fit_mem(offset, buf.len() as u64) {
            Ok(()) => {},
            Err(e) => {
                return Err(e);
            },
        }
        self.memory.write_memory(offset, buf);
        Ok(())
    }

    fn internal_read_register(&mut self, register_id: u64) -> (r: Result<Vec<u8>, VMLogicError>)
        ensures
            *final(self) == *old(self),
            old(self).register_map().contains_key(register_id) ==> r is Ok && r->Ok_0@ == old(
                self,
            ).register_map()[register_id],
            !old(self).register_map().contains_key(register_id) ==> r == Err::<
                Vec<u8>,
                VMLogicError,
            >(VMLogicError::HostError),
    {
        match self.registers.get(&register_id) {
            Some(data) => {
                let copy = data.clone();
                assert(copy@ =~= data@);
                Ok(copy)
            },
            None => Err(VMLogicError::HostError),
        }
    }

    /// Stores `data` in register `register_id`, replacing what it held.
    pub fn write_register(&mut self, register_id: u64, data: &[u8])
        ensures
            final(self).register_map() == old(self).register_map().insert(register_id, data@),
            final(self).memory_view() == old(self).memory_view(),
            final(self).return_data() == old(self).return_data(),
    {
        let v = vstd::slice::slice_to_vec(data);
        self.registers.insert(register_id, v);
        assert(self.register_map() =~= old(self).register_map().insert(register_id, data@));
    }

    /// Copies register `register_id` into guest memory at `ptr`. Fails, changing nothing,
    /// where the register was never written or its data does not fit in memory there.
    pub fn read_register(&mut self, register_id: u64, ptr: u64) -> (r: Result<(), VMLogicError>)
        ensures
            !old(self).register_map().contains_key(register_id) ==> {
                &&& r == Err::<(), VMLogicError>(VMLogicError::HostError)
                &&& *final(self) == *old(self)
            },
            old(self).register_map().contains_key(register_id) ==> {
                let data = old(self).register_map()[register_id];
                if fits(old(self).memory_view().len(), ptr as int, data.len() as int) {
                    &&& r is Ok
                    &&& final(self).memory_view() == splice(
                        old(self).memory_view(),
                        ptr as int,
                        data,
                    )
                    &&& final(self).register_map() == old(self).register_map()
                    &&& final(self).return_data() == old(self).return_data()
                } else {
                    &&& r == Err::<(), VMLogicError>(VMLogicError::HostError)
                    &&& *final(self) == *old(self)
                }
            },
    {
        let data = match self.internal_read_register(register_id) {
            Ok(d) => d,
            Err(e) => {
                return Err(e);
            },
        };
        self.memory_set_slice(ptr, data.as_slice())
    }

    /// The length of register `register_id`, or `ABSENT_REGISTER_LEN` where it was never
    /// written.
    pub fn register_len(&mut self, register_id: u64) -> (r: Result<u64, VMLogicError>)
        ensures
            *final(self) == *old(self),
            r == Ok::<u64, VMLogicError>(
                if old(self).register_map().contains_key(register_id) {
                    old(self).register_map()[register_id].len() as u64
                } else {
                    ABSENT_REGISTER_LEN
                },
            ),
    {
        match self.registers.get(&register_id) {
            Some(data) => Ok(data.len() as u64),
            None => Ok(ABSENT_REGISTER_LEN),
        }
    }

    /// Makes the `value_len` bytes at `value_ptr` the call's returned value. Fails,
    /// changing nothing, where they do not lie inside the memory.
    pub fn value_return(&mut self, value_len: u64, value_ptr: u64) -> (r: Result<
        (),
        VMLogicError,
    >)
        ensures
            fits(old(self).memory_view().len(), value_ptr as int, value_len as int) ==> {
                &&& r is Ok
                &&& final(self).return_data() matches ReturnData::Value(v) && v@ == old(
                    self,
                ).memory_view().subrange(value_ptr as int, value_ptr + value_len)
                &&& final(self).memory_view() == old(self).memory_view()
                &&& final(self).register_map() == old(self).register_map()
            },
            !fits(old(self).memory_view().len(), value_ptr as int, value_len as int) ==> {
                &&& r == Err::<(), VMLogicError>(VMLogicError::HostError)
                &&& *final(self) == *old(self)
            },
    {
        let value = match self.memory_get_vec(value_ptr, value_len) {
            Ok(v) => v,
            Err(e) => {
                return Err(e);
            },
        };
        self.return_data = ReturnData::Value(value);
        Ok(())
    }

    /// Ends the call and hands back what it returned.
    pub fn outcome(self) -> (r: ReturnData)
        ensures
            r == self.return_data(),
    {
        self.return_data
    }
}

} // verus!
