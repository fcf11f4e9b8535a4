use vstd::prelude::*;

use crate::artifact::{append_decimal, decimal};
use crate::error::VMError;
use crate::logic::ReturnData;
use crate::runtime::{Error, ExecutionError};

verus! {

/// The number whose little-endian bytes are `b`.
pub open spec fn le_value(b: Seq<u8>) -> nat
    decreases b.len(),
{
    if b.len() == 0 {
        0
    } else {
        b[0] as nat + 256 * le_value(b.drop_first())
    }
}

/// 256 to the power `n`.
pub open spec fn pow256(n: nat) -> nat
    decreases n,
{
    if n == 0 {
        1
    } else {
        256 * pow256((n - 1) as nat)
    }
}

proof fn lemma_pow256_monotonic(m: nat, n: nat)
    requires
        m <= n,
    ensures
        pow256(m) <= pow256(n),
    decreases n,
{
    if m < n {
        lemma_pow256_monotonic(m, (n - 1) as nat);
    }
}

/// Description of a payload that is not an encoded `u64`.
pub open spec fn payload_error_text() -> Seq<char> {
    "Payload is not an 8-byte little-endian u64 value"@
}

/// Decodes a payload of exactly eight bytes as a little-endian `u64`.
pub fn decode_u64(payload: &[u8]) -> (r: Option<u64>)
    ensures
        payload@.len() == 8 ==> r == Some(le_value(payload@) as u64) && le_value(payload@)
            <= u64::MAX,
        payload@.len() != 8 ==> r is None,
{
    if payload.len() != 8 {
        return None;
    }
    let mut acc: u64 = 0;
    let mut i: usize = 8;
    proof {
        assert(payload@.subrange(8, 8) =~= Seq::<u8>::empty());
        reveal_with_fuel(pow256, 9);
    }
    while i > 0
        invariant
            payload@.len() == 8,
            i <= 8,
            acc == le_value(payload@.subrange(i as int, 8)),
            acc < pow256((8 - i) as nat),
            pow256(8) == 0x1_0000_0000_0000_0000,
        decreases i,
    {
        proof {
            lemma_pow256_monotonic((9 - i) as nat, 8);
            assert(payload@.subrange(i - 1, 8).drop_first() =~= payload@.subrange(i as int, 8));
            assert(pow256((9 - i) as nat) == 256 * pow256((8 - i) as nat));
            assert(acc * 256 + 255 < 256 * pow256((8 - i) as nat)) by (nonlinear_arith)
                requires
                    acc < pow256((8 - i) as nat),
            ;
        }
        acc = acc * 256 + payload[i - 1] as u64;
        i = i - 1;
    }
    assert(payload@.subrange(0, 8) =~= payload@);
    Some(acc)
}

/// A guest call to make: the export to invoke on a fresh instance of `bytecode`, with
/// host functions wired in, and its arguments.
#[derive(Debug, Clone, PartialEq)]
pub struct GuestCall {
    pub export: String,
    pub args: Vec<u32>,
    pub bytecode: Vec<u8>,
}

/// Export that answers method `method_id` of interface `interface`, if any: the default
/// interface has `add_one` (method 0) and `ext_read_vec` (method 1).
pub open spec fn dispatch_target(interface: Seq<char>, method_id: u32) -> Option<Seq<char>> {
    if interface.len() == 0 && method_id == 0 {
        Some("add_one"@)
    } else if interface.len() == 0 && method_id == 1 {
        Some("ext_read_vec"@)
    } else {
        None
    }
}

/// Arguments passed to the export of `method_id`, given the decoded payload `value`.
pub open spec fn call_args(method_id: u32, value: nat) -> Seq<u32> {
    if method_id == 0 {
        seq![(value as u64) as u32]
    } else {
        Seq::empty()
    }
}

/// Description of a call that no export answers.
pub open spec fn unknown_call_text(interface: Seq<char>, method_id: u32) -> Seq<char> {
    "Incorrect information to call transaction. "@ + interface + seq!['#'] + decimal(
        method_id as nat,
    )
}

/// Description of a guest call that failed.
pub open spec fn failed_call_text(interface: Seq<char>, method_id: u32) -> Seq<char> {
    "Guest call failed while executing "@ + interface + seq!['#'] + decimal(method_id as nat)
}

/// `interface#method_id` appended to `prefix`.
fn call_text(prefix: &str, interface: &str, method_id: u32) -> (r: String)
    ensures
        r@ == prefix@ + interface@ + seq!['#'] + decimal(method_id as nat),
{
    let mut s = String::from_str(prefix);
    s.append(interface);
    s.append("#");
    append_decimal(&mut s, method_id as u64);
    proof {
        reveal_strlit("#");
    }
    assert(s@ =~= prefix@ + interface@ + seq!['#'] + decimal(method_id as nat));
    s
}

/// The error for a call that no export answers.
pub fn unknown_call(interface: &str, method_id: u32) -> (r: ExecutionError)
    ensures
        r.kind == Error::UnknownTransaction,
        r.description@ == unknown_call_text(interface@, method_id),
{
    let description = call_text("Incorrect information to call transaction. ", interface, method_id);
    ExecutionError { kind: Error::UnknownTransaction, description }
}

/// `r` is the outcome of planning method `method_id` of `interface` with `payload` on
/// `bytecode`: `UnknownTransaction` where no export answers the method or the payload is
/// not an encoded `u64`, and otherwise a call of that export with the decoded arguments.
pub open spec fn call_planned(
    r: Result<GuestCall, ExecutionError>,
    interface: Seq<char>,
    method_id: u32,
    payload: Seq<u8>,
    bytecode: Seq<u8>,
) -> bool {
    match dispatch_target(interface, method_id) {
        None => r matches Err(e) && e.kind == Error::UnknownTransaction && e.description@
            == unknown_call_text(interface, method_id),
        Some(export) => if payload.len() == 8 {
            r matches Ok(c) && c.export@ == export && c.args@ == call_args(
                method_id,
                le_value(payload),
            ) && c.bytecode@ == bytecode
        } else {
            r matches Err(e) && e.kind == Error::UnknownTransaction && e.description@
                == payload_error_text()
        },
    }
}

/// The guest call for method `method_id` of `interface` with `payload`, on `bytecode`.
pub fn plan_call(interface: &str, method_id: u32, payload: &[u8], bytecode: &Vec<u8>) -> (r: Result<
    GuestCall,
    ExecutionError,
>)
    ensures
        call_planned(r, interface@, method_id, payload@, bytecode@),
{
    if !(interface.is_empty() && (method_id == 0 || method_id == 1)) {
        return Err(unknown_call(interface, method_id));
    }
    let value = match decode_u64(payload) {
        Some(v) => v,
        None => {
            return Err(
                ExecutionError {
                    kind: Error::UnknownTransaction,
                    description: String::from_str(
                        "Payload is not an 8-byte little-endian u64 value",
                    ),
                },
            );
        },
    };
    let mut args: Vec<u32> = Vec::new();
    let export = if method_id == 0 {
        args.push(value as u32);
        String::from_str("add_one")
    } else {
        String::from_str("ext_read_vec")
    };
    let code = bytecode.clone();
    assert(code@ =~= bytecode@);
    assert(args@ =~= call_args(method_id, le_value(payload@)));
    Ok(GuestCall { export, args, bytecode: code })
}

/// What `execute` reports once the engine has run a call of method `method_id` of
/// `interface`: the returned data, or the guest's failure as a `Vm` error.
pub fn finish_call(interface: &str, method_id: u32, result: Result<ReturnData, VMError>) -> (r:
    Result<ReturnData, ExecutionError>)
    ensures
        result is Ok ==> r == Ok::<ReturnData, ExecutionError>(result->Ok_0),
        result matches Err(v) ==> (r matches Err(e) && e.kind == Error::Vm(v) && e.description@
            == failed_call_text(interface@, method_id)),
{
    match result {
        Ok(data) => Ok(data),
        Err(v) => {
            let description = call_text("Guest call failed while executing ", interface, method_id);
            Err(ExecutionError { kind: Error::Vm(v), description })
        },
    }
}

} // verus!
