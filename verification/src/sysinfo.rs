//! The host's node name: the first component of the UTS node name.

use vstd::prelude::*;

use crate::strutil::push_char;

verus! {

use vstd::string::StrSliceExecFns;

/// Relies on `nix::sys::utsname::uname`: the UTS node name of the machine,
/// when the call succeeds. The result depends on the machine, so nothing
/// holds of its content.
#[verifier::external_body]
fn uts_nodename() -> Option<String> {
    match nix::sys::utsname::uname() {
        Ok(u) => Some(u.nodename().to_string_lossy().into_owned()),
        Err(_) => None,
    }
}

/// The text before the first dot.
pub open spec fn spec_first_component(s: Seq<char>) -> Seq<char> {
    if exists|i: int| 0 <= i < s.len() && s[i] == '.' {
        s.take(
            choose|i: int|
                0 <= i < s.len() && s[i] == '.' && forall|k: int| 0 <= k < i ==> s[k] != '.',
        )
    } else {
        s
    }
}

/// The part of a name before its first dot.
pub fn short_hostname(full: &str) -> (r: String)
    ensures
        r@ == spec_first_component(full@),
        forall|k: int| 0 <= k < r@.len() ==> r@[k] != '.',
{
    let len = full.unicode_len();
    let mut out = String::new();
    let mut i: usize = 0;
    while i < len
        invariant
            i <= len,
            len == full@.len(),
            forall|k: int| 0 <= k < i ==> full@[k] != '.',
            out@ =~= full@.take(i as int),
        decreases len - i,
    {
        let c = full.get_char(i);
        if c == '.' {
            proof {
                assert(exists|t: int| 0 <= t < full@.len() && full@[t] == '.');
                let w = choose|t: int|
                    0 <= t < full@.len() && full@[t] == '.' && forall|k: int|
                        0 <= k < t ==> full@[k] != '.';
                assert(0 <= w < full@.len() && full@[w] == '.');
                if w < i as int {
                    assert(full@[w] != '.');
                } else if w > i as int {
                    assert(full@[i as int] != '.');
                }
                assert(w == i as int);
            }
            return out;
        }
        push_char(&mut out, c);
        i += 1;
        proof {
            assert(out@ =~= full@.take(i as int));
        }
    }
    proof {
        assert(full@.take(len as int) =~= full@);
    }
    out
}

/// The host's node name up to the first dot, when the machine reports one.
/// The result never holds a dot.
pub fn nodename() -> (r: Option<String>)
    ensures
        r matches Some(s) ==> forall|k: int| 0 <= k < s@.len() ==> s@[k] != '.',
{
    match uts_nodename() {
        Some(full) => Some(short_hostname(full.as_str())),
        None => None,
    }
}

} // verus!
