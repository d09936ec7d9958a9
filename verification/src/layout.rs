//! Names of the directories and files that a project holds.
use vstd::prelude::*;
use crate::number::{decimal, decimal_chars, zero_padded, zero_padded_chars};
use crate::text::{append_chars, chars_of, string_of};

verus! {

/// `prefix` followed by the decimal digits of `n`, zero-padded to `width`.
fn prefixed_number(prefix: &str, n: u64, width: usize) -> (s: String)
    ensures
        s@ == prefix@ + zero_padded(n as nat, width as nat),
{
    let mut v = chars_of(prefix);
    let d = zero_padded_chars(n, width);
    append_chars(&mut v, d.as_slice());
    string_of(v.as_slice())
}

/// `member_{:03}`: the directory of a committee member.
pub fn member_name(index: usize) -> (s: String)
    ensures
        s@ == "member_"@ + zero_padded(index as nat, 3),
{
    prefixed_number("member_", index as u64, 3)
}

/// `generation_{}`: the directory of a generation.
pub fn generation_dir_name(generation: u32) -> (s: String)
    ensures
        s@ == "generation_"@ + decimal(generation as nat),
{
    let s = prefixed_number("generation_", generation as u64, 0);
    proof {
        crate::number::lemma_decimal_len(generation as nat);
    }
    s
}

/// `config_{:03}`: the VASP run directory of a selected configuration.
pub fn config_run_name(index: usize) -> (s: String)
    ensures
        s@ == "config_"@ + zero_padded(index as nat, 3),
{
    prefixed_number("config_", index as u64, 3)
}

/// `generation_{}.xyz`: the structures selected in a generation.
pub fn selected_structures_name(generation: u32) -> (s: String)
    ensures
        s@ == "generation_"@ + decimal(generation as nat) + ".xyz"@,
{
    let mut v = chars_of("generation_");
    let d = decimal_chars(generation as u64);
    append_chars(&mut v, d.as_slice());
    let x = chars_of(".xyz");
    append_chars(&mut v, x.as_slice());
    string_of(v.as_slice())
}

} // verus!
