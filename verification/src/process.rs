//! Text forms of what the process collector reads about a process: paths
//! and environment variables, which the kernel hands out as bytes.

use vstd::prelude::*;
use vstd::utf8::{decode_utf8, valid_utf8};

use crate::binary_object::elf_symbol::{utf8_lossy, utf8_lossy_string};

verus! {

/// The text of a path given by its bytes, invalid UTF-8 sequences replaced.
pub fn path_to_str(path: &[u8]) -> (r: String)
    ensures
        r@ == utf8_lossy(path@),
        valid_utf8(path@) ==> r@ == decode_utf8(path@),
{
    utf8_lossy_string(path)
}

/// The text of an environment variable's name and value.
pub fn env_to_tuple(name: &[u8], val: &[u8]) -> (r: (String, String))
    ensures
        r.0@ == utf8_lossy(name@),
        r.1@ == utf8_lossy(val@),
{
    (utf8_lossy_string(name), utf8_lossy_string(val))
}

/// The text of each of the environment variables `vars`, in their order.
pub fn envs_to_vec(vars: &Vec<(Vec<u8>, Vec<u8>)>) -> (r: Vec<(String, String)>)
    ensures
        r.len() == vars.len(),
        forall|i: int|
            0 <= i < vars.len() ==> (#[trigger] r@[i]).0@ == utf8_lossy(vars@[i].0@) && r@[i].1@
                == utf8_lossy(vars@[i].1@),
{
    let mut out: Vec<(String, String)> = Vec::new();
    let mut i: usize = 0;
    while i < vars.len()
        invariant
            i <= vars.len(),
            out.len() == i,
            forall|k: int|
                0 <= k < i ==> (#[trigger] out@[k]).0@ == utf8_lossy(vars@[k].0@) && out@[k].1@
                    == utf8_lossy(vars@[k].1@),
        decreases vars.len() - i,
    {
        let pair = env_to_tuple(vars[i].0.as_slice(), vars[i].1.as_slice());
        out.push(pair);
        i = i + 1;
    }
    out
}

} // verus!
