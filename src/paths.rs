//! Where the artifacts of a run lie: paths under an explicit base directory,
//! and the opening-key file that goes with a proof file.
use vstd::prelude::*;

verus! {

/// `relative` joined onto `base` as a path: an absolute `relative` stands
/// alone, and a separator is put between the two where `base` lacks one.
pub open spec fn joined_path(base: Seq<char>, relative: Seq<char>) -> Seq<char> {
    if relative.len() > 0 && relative[0] == '/' {
        relative
    } else if base.len() == 0 || base.last() == '/' {
        base + relative
    } else {
        base + seq!['/'] + relative
    }
}

/// Text with every trailing `.bin` taken off, as often as it repeats.
pub open spec fn strip_bin_suffix(s: Seq<char>) -> Seq<char>
    decreases s.len(),
{
    if s.len() >= 4 && s.subrange(s.len() - 4, s.len() as int) == seq!['.', 'b', 'i', 'n'] {
        strip_bin_suffix(s.subrange(0, s.len() - 4))
    } else {
        s
    }
}

pub open spec fn opening_key_suffix() -> Seq<char> {
    seq!['_', 'o', 'p', 'e', 'n', 'i', 'n', 'g', '_', 'k', 'e', 'y', '.', 'j', 's', 'o', 'n']
}

/// The path of `relative` under the base directory `base`.
pub fn abs_path(base: &str, relative: &str) -> (r: String)
    ensures
        r@ == joined_path(base@, relative@),
{
    let n = base.unicode_len();
    if relative.unicode_len() > 0 && relative.get_char(0) == '/' {
        return String::from_str(relative);
    }
    let mut out = String::from_str(base);
    if n > 0 && base.get_char(n - 1) != '/' {
        proof {
            reveal_strlit("/");
        }
        out.append("/");
    }
    out.append(relative);
    out
}

fn ends_with_bin(s: &str) -> (r: bool)
    ensures
        r == (s@.len() >= 4 && s@.subrange(s@.len() - 4, s@.len() as int) == seq!['.', 'b', 'i', 'n']),
{
    let n = s.unicode_len();
    if n < 4 {
        return false;
    }
    let r = s.get_char(n - 4) == '.' && s.get_char(n - 3) == 'b' && s.get_char(n - 2) == 'i'
        && s.get_char(n - 1) == 'n';
    let ghost tail = s@.subrange(n - 4, n as int);
    assert(r ==> tail =~= seq!['.', 'b', 'i', 'n']);
    assert(tail == seq!['.', 'b', 'i', 'n'] ==> tail[0] == '.' && tail[1] == 'b' && tail[2] == 'i'
        && tail[3] == 'n');
    r
}

/// The opening-key file of a proof file: every trailing `.bin` is taken off
/// and `_opening_key.json` put in its place.
pub fn opening_key_path(proof_path: &str) -> (r: String)
    ensures
        r@ == strip_bin_suffix(proof_path@) + opening_key_suffix(),
{
    let mut t = proof_path;
    while ends_with_bin(t)
        invariant
            strip_bin_suffix(t@) == strip_bin_suffix(proof_path@),
        decreases t@.len(),
    {
        let n = t.unicode_len();
        t = t.substring_char(0, n - 4);
    }
    let mut out = String::from_str(t);
    proof {
        reveal_strlit("_opening_key.json");
    }
    out.append("_opening_key.json");
    assert(out@ =~= strip_bin_suffix(proof_path@) + opening_key_suffix());
    out
}

} // verus!
