//! Startup reconstruction of the allocated-identifier set from the
//! names already present in the storage directory.
//!
//! Each name is truncated at its first `.` and decoded; names whose
//! prefix does not decode are skipped silently. The caller enumerates
//! the directory once and hands the plain names in; a missing storage
//! root simply yields no names and so an empty registry.

use vstd::prelude::*;
use vstd::string::StringSliceAdditionalSpecFns;
use vstd::utf8::encode_utf8;
use crate::codec::all_digit_bytes;
use crate::codec::decode_bytes;
use crate::codec::spec_decode_sat;
use crate::paths::before_dot;
use crate::paths::strip_extension_bytes;
use crate::registry::Registry;

verus! {

/// What one directory entry contributes to recovery: the decoded value
/// of the name before its first dot, when that prefix decodes.
pub open spec fn scan_entry(name: Seq<u8>) -> Option<u64> {
    if all_digit_bytes(before_dot(name)) {
        Some(spec_decode_sat(before_dot(name)))
    } else {
        None
    }
}

/// The identifiers recovered from a list of file names: exactly the
/// decoded values of the decodable truncated names, nothing else.
pub open spec fn scanned_ids(names: Seq<Seq<u8>>) -> Set<u64>
    decreases names.len(),
{
    if names.len() == 0 {
        Set::empty()
    } else {
        let rest = scanned_ids(names.drop_last());
        match scan_entry(names.last()) {
            Some(v) => rest.insert(v),
            None => rest,
        }
    }
}

/// The UTF-8 bytes of each name in a list.
pub open spec fn names_bytes(names: Seq<String>) -> Seq<Seq<u8>> {
    names.map_values(|s: String| encode_utf8(s@))
}

/// Rebuilds the registry over the identifier space `[0, bound)` from
/// the file names found in the storage directory.
pub fn recover_registry(names: &Vec<String>, bound: u64) -> (r: Registry)
    requires
        bound >= 1,
    ensures
        r.wf(),
        r.bound() == bound,
        r@ == scanned_ids(names_bytes(names@)),
{
    let mut reg = Registry::new(bound);
    let n = names.len();
    let mut i: usize = 0;
    while i < n
        invariant
            i <= n == names@.len(),
            reg.wf(),
            reg.bound() == bound,
            reg@ == scanned_ids(names_bytes(names@.subrange(0, i as int))),
        decreases n - i,
    {
        let name: &String = &names[i];
        let prefix = strip_extension_bytes(name.as_str().as_bytes());
        let ghost done = names_bytes(names@.subrange(0, i as int));
        let ghost next = names_bytes(names@.subrange(0, i + 1));
        proof {
            assert(next.drop_last() =~= done);
            assert(next.last() == encode_utf8(names@[i as int]@));
        }
        match decode_bytes(prefix.as_slice()) {
            Ok(url) => {
                reg.mark_used(url.0);
            },
            Err(_) => {},
        }
        i = i + 1;
    }
    proof {
        assert(names@.subrange(0, n as int) =~= names@);
    }
    reg
}

} // verus!
