//! Destination-key derivation: a base key prefix and a file's relative path
//! are joined with a single `/`, with no leading slash when the base is
//! empty. Pure string work, no I/O.

use vstd::prelude::*;
use vstd::string::StrSliceExecFns;
use vstd::string::StringExecFns;

verus! {

/// The key a file lands under: `base`, a `/`, then `suffix`; just `suffix`
/// when `base` is empty.
pub open spec fn map_key_spec(base: Seq<char>, suffix: Seq<char>) -> Seq<char> {
    if base.len() == 0 {
        suffix
    } else {
        base + seq!['/'] + suffix
    }
}

/// Join a base key prefix and a relative key suffix into a destination key.
pub fn map_key(base_key: &str, suffix: &str) -> (r: String)
    ensures
        r@ == map_key_spec(base_key@, suffix@),
{
    proof {
        reveal_strlit("/");
        assert("/"@ =~= seq!['/']);
    }
    if base_key.unicode_len() == 0 {
        String::from_str(suffix)
    } else {
        let mut out = String::from_str(base_key);
        out.append("/");
        out.append(suffix);
        out
    }
}

/// Law: key mapping is associative under path composition. Joining `mid`
/// onto `base` and then `rest` onto the result gives the same key as joining
/// `mid + "/" + rest` onto `base` directly, for any non-empty `mid`.
pub proof fn lemma_map_key_associative(base: Seq<char>, mid: Seq<char>, rest: Seq<char>)
    requires
        mid.len() > 0,
    ensures
        map_key_spec(map_key_spec(base, mid), rest) == map_key_spec(
            base,
            mid + seq!['/'] + rest,
        ),
{
    if base.len() == 0 {
        assert(map_key_spec(map_key_spec(base, mid), rest) =~= mid + seq!['/'] + rest);
    } else {
        assert((base + seq!['/'] + mid) + seq!['/'] + rest =~= base + seq!['/'] + (mid + seq!['/']
            + rest));
    }
}

} // verus!
