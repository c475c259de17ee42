//! The check that a path names a markdown file.
use vstd::prelude::*;
use crate::text::chars_of;

verus! {

/// The markdown file suffix.
pub open spec fn md_suffix() -> Seq<char> {
    seq!['.', 'm', 'd']
}

/// Whether `s` ends with `p`.
pub open spec fn ends_with(s: Seq<char>, p: Seq<char>) -> bool {
    p.len() <= s.len() && s.subrange(s.len() - p.len(), s.len() as int) == p
}

/// The message given for a path that is not a markdown file.
pub open spec fn not_markdown_message(path: Seq<char>) -> Seq<char> {
    "Expected a markdown file, instead I have "@ + path
}

/// Accepts a path that ends in `.md`; otherwise gives a message naming it.
pub fn is_markdown_file(path: &str) -> (r: Result<(), String>)
    ensures
        r is Ok <==> ends_with(path@, md_suffix()),
        r matches Err(m) ==> m@ == not_markdown_message(path@),
{
    let v = chars_of(path);
    let n = v.len();
    let ok = n >= 3 && v[n - 3] == '.' && v[n - 2] == 'm' && v[n - 1] == 'd';
    proof {
        if n >= 3 {
            let tail = path@.subrange(n - 3, n as int);
            if ok {
                assert(tail =~= md_suffix());
            } else {
                assert(tail[0] != '.' || tail[1] != 'm' || tail[2] != 'd');
            }
        }
    }
    if !ok {
        let mut m = String::from_str("Expected a markdown file, instead I have ");
        m.append(path);
        return Err(m);
    }
    Ok(())
}

} // verus!
