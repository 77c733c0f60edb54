//! Names as a graphics driver hands them out: in an array of fixed size,
//! ended by a zero.

use vstd::prelude::*;

verus! {

/// The place of the first zero in `raw`, which is the length of the name
/// that `raw` holds; `None` where `raw` holds no zero.
pub fn name_length(raw: &[i8]) -> (r: Option<usize>)
    ensures
        match r {
            Some(n) => n < raw@.len() && raw@[n as int] == 0 && forall|i: int|
                0 <= i < n ==> raw@[i] != 0,
            None => forall|i: int| 0 <= i < raw@.len() ==> raw@[i] != 0,
        },
{
    let mut at: usize = 0;
    while at < raw.len()
        invariant
            at <= raw@.len(),
            forall|i: int| 0 <= i < at ==> raw@[i] != 0,
        decreases raw@.len() - at,
    {
        if raw[at] == 0 {
            return Some(at);
        }
        at += 1;
    }
    None
}

/// The bytes of the name that `raw` holds: those before the first zero.
/// `None` where `raw` holds no zero.
pub fn name_bytes(raw: &[i8]) -> (r: Option<Vec<u8>>)
    ensures
        match r {
            Some(bytes) => {
                &&& bytes@.len() < raw@.len()
                &&& raw@[bytes@.len() as int] == 0
                &&& forall|i: int| 0 <= i < bytes@.len() ==> raw@[i] != 0 && bytes@[i] == raw@[i] as u8
            },
            None => forall|i: int| 0 <= i < raw@.len() ==> raw@[i] != 0,
        },
{
    match name_length(raw) {
        None => None,
        Some(n) => {
            let mut bytes: Vec<u8> = Vec::new();
            let mut at: usize = 0;
            while at < n
                invariant
                    at <= n < raw@.len(),
                    bytes@.len() == at,
                    forall|i: int| 0 <= i < at ==> bytes@[i] == raw@[i] as u8,
                decreases n - at,
            {
                bytes.push(raw[at] as u8);
                at += 1;
            }
            Some(bytes)
        },
    }
}

} // verus!
