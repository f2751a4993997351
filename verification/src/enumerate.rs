//! Plain-value view of an enumerated directory tree: each regular file with
//! its size and its root-relative path, and the byte total that sizes the
//! progress indicator. The walk itself is I/O and happens outside the
//! library; it hands the entries in as values.

use vstd::prelude::*;
use vstd::string::StrSliceExecFns;
use vstd::string::StringExecFns;

use crate::keymap::{map_key, map_key_spec};
use crate::progress::{lemma_sum_bytes_nonneg, lemma_sum_bytes_take_step, sum_bytes};

verus! {

/// One regular file found under a walked root: where it lies on disk, its
/// path relative to that root with `/` separators, and its size when seen.
pub struct EnumeratedFile {
    pub local_path: String,
    pub relative_key_suffix: String,
    pub size_bytes: u64,
}

/// The sizes carried by a sequence of enumerated files.
pub open spec fn sizes_of(files: Seq<EnumeratedFile>) -> Seq<u64> {
    files.map_values(|f: EnumeratedFile| f.size_bytes)
}

/// Total size of the enumerated files, for the progress indicator's
/// denominator. Saturates at `u64::MAX` rather than overflow; below that
/// bound it is the exact sum of the entries' sizes.
pub fn total_bytes(files: &Vec<EnumeratedFile>) -> (r: u64)
    ensures
        sum_bytes(sizes_of(files@)) <= u64::MAX ==> r == sum_bytes(sizes_of(files@)),
        sum_bytes(sizes_of(files@)) > u64::MAX ==> r == u64::MAX,
{
    let ghost all = sizes_of(files@);
    let mut bytes: u64 = 0;
    let mut i: usize = 0;
    while i < files.len()
        invariant
            i <= files.len(),
            all == sizes_of(files@),
            sum_bytes(all.take(i as int)) <= u64::MAX ==> bytes == sum_bytes(all.take(i as int)),
            sum_bytes(all.take(i as int)) > u64::MAX ==> bytes == u64::MAX,
        decreases files.len() - i,
    {
        proof {
            lemma_sum_bytes_take_step(all, i as int);
            lemma_sum_bytes_nonneg(all.take(i as int));
        }
        bytes = bytes.saturating_add(files[i].size_bytes);
        i = i + 1;
    }
    proof {
        assert(all.take(files@.len() as int) =~= all);
    }
    bytes
}

/// A file to upload: its path on disk and the object key it goes to.
pub struct UploadTarget {
    pub local_path: String,
    pub key: String,
}

/// Map each enumerated file to its destination: the local path unchanged,
/// and the base key joined with the file's relative suffix.
pub fn upload_targets(files: &Vec<EnumeratedFile>, base_key: &str) -> (r: Vec<UploadTarget>)
    ensures
        r@.len() == files@.len(),
        forall|i: int|
            0 <= i < files@.len() ==> (#[trigger] r@[i]).local_path@ == files@[i].local_path@
                && r@[i].key@ == map_key_spec(base_key@, files@[i].relative_key_suffix@),
{
    let mut out: Vec<UploadTarget> = Vec::new();
    let mut i: usize = 0;
    while i < files.len()
        invariant
            i <= files.len(),
            out@.len() == i,
            forall|j: int|
                0 <= j < i ==> (#[trigger] out@[j]).local_path@ == files@[j].local_path@
                    && out@[j].key@ == map_key_spec(base_key@, files@[j].relative_key_suffix@),
        decreases files.len() - i,
    {
        let target = UploadTarget {
            local_path: files[i].local_path.clone(),
            key: map_key(base_key, files[i].relative_key_suffix.as_str()),
        };
        out.push(target);
        i = i + 1;
    }
    out
}

/// The path of a file strictly under `root`: when `full` is `root`, a `/`,
/// then a tail, the tail is returned; any other shape is not under the root.
pub fn relative_suffix(root: &str, full: &str) -> (r: Option<String>)
    ensures
        r is Some <==> full@.len() > root@.len() && full@.take(root@.len() as int) == root@
            && full@[root@.len() as int] == '/',
        r is Some ==> r->0@ == full@.skip(root@.len() as int + 1),
{
    let rlen = root.unicode_len();
    let flen = full.unicode_len();
    if flen <= rlen {
        proof {
            assert(!(full@.len() > root@.len()));
        }
        return None;
    }
    let mut i: usize = 0;
    while i < rlen
        invariant
            i <= rlen,
            rlen == root@.len(),
            flen == full@.len(),
            rlen < flen,
            forall|j: int| 0 <= j < i ==> full@[j] == root@[j],
        decreases rlen - i,
    {
        if full.get_char(i) != root.get_char(i) {
            proof {
                assert(full@.take(rlen as int)[i as int] != root@[i as int]);
            }
            return None;
        }
        i = i + 1;
    }
    proof {
        assert(full@.take(rlen as int) =~= root@);
    }
    if full.get_char(rlen) != '/' {
        return None;
    }
    Some(String::from_str(full.substring_char(rlen + 1, flen)))
}

} // verus!
