use crate::version::sub_bytes;
use vstd::prelude::*;
use vstd::string::StringExecFns;

verus! {

/// The delimiter stands in `s` at offset `i`.
pub open spec fn occurs_at(s: Seq<u8>, d: Seq<u8>, i: int) -> bool {
    0 <= i <= s.len() - d.len() && s.subrange(i, i + d.len()) == d
}

/// The latest published release; fetching it is the caller's business, the
/// parsing of what came back is done here.
#[derive(Debug)]
pub struct LatestRelease;

impl LatestRelease {
    /// The version encoded in a release address: the bytes after the last
    /// occurrence of the delimiter, or nothing when the delimiter does not
    /// occur.
    pub fn version_from_path(path: &Vec<u8>, delimiter: &Vec<u8>) -> (r: Option<Vec<u8>>)
        ensures
            (r is Some) <==> exists|i: int| occurs_at(path@, delimiter@, i),
            r is Some ==> exists|i: int|
                #[trigger] occurs_at(path@, delimiter@, i) && r->0@ == path@.subrange(
                    i + delimiter@.len(),
                    path@.len() as int,
                ) && (forall|j: int| j > i ==> !occurs_at(path@, delimiter@, j)),
    {
        let n: usize = path.len();
        let dl: usize = delimiter.len();
        if dl > n {
            proof {
                assert forall|i: int| !occurs_at(path@, delimiter@, i) by {}
            }
            return None;
        }
        let mut i: usize = n - dl;
        loop
            invariant
                dl <= n,
                n == path@.len(),
                dl == delimiter@.len(),
                0 <= i <= n - dl,
                forall|j: int| j > i ==> !occurs_at(path@, delimiter@, j),
            decreases i,
        {
            if match_at(path, delimiter, i) {
                let tail: Vec<u8> = sub_bytes(path.as_slice(), i + dl, n);
                proof {
                    assert(occurs_at(path@, delimiter@, i as int));
                }
                return Some(tail);
            }
            if i == 0 {
                proof {
                    assert forall|j: int| !occurs_at(path@, delimiter@, j) by {
                        if 0 <= j <= n - dl {
                            assert(j > 0 || j == 0);
                        }
                    }
                }
                return None;
            }
            i -= 1;
        }
    }

    /// The download address of a binary: base address, download path, and
    /// file name, joined.
    pub fn download_url(base_url: &str, download_path: &str, bin_name: &str) -> (r: String)
        ensures
            r@ == base_url@ + download_path@ + bin_name@,
    {
        let mut url: String = String::new();
        url.append(base_url);
        url.append(download_path);
        url.append(bin_name);
        url
    }
}

/// Whether the delimiter stands at offset `i`.
fn match_at(path: &Vec<u8>, delimiter: &Vec<u8>, i: usize) -> (r: bool)
    requires
        i + delimiter@.len() <= path@.len(),
    ensures
        r == occurs_at(path@, delimiter@, i as int),
{
    let dl: usize = delimiter.len();
    let n: usize = path.len();
    let mut k: usize = 0;
    while k < dl
        invariant
            0 <= k <= dl,
            dl == delimiter@.len(),
            n == path@.len(),
            i + dl <= n,
            forall|t: int| 0 <= t < k ==> path@[i + t] == delimiter@[t],
        decreases dl - k,
    {
        if path[i + k] != delimiter[k] {
            proof {
                assert(!occurs_at(path@, delimiter@, i as int)) by {
                    if occurs_at(path@, delimiter@, i as int) {
                        assert(path@.subrange(i as int, i + dl)[k as int] == delimiter@[k as int]);
                    }
                }
            }
            return false;
        }
        k += 1;
    }
    proof {
        assert(path@.subrange(i as int, i + dl) =~= delimiter@);
    }
    true
}

} // verus!
