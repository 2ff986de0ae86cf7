//! File-system paths, held as text, and how they are joined.
use vstd::prelude::*;

verus! {

/// Joining a component onto a path on Unix: an absolute component (one
/// that starts with `/`) replaces the path; otherwise the component is
/// appended, with a `/` between the two unless the path is empty or already
/// ends in `/`.
pub open spec fn path_join(base: Seq<char>, part: Seq<char>) -> Seq<char> {
    if part.len() > 0 && part[0] == '/' {
        part
    } else if base.len() == 0 || base.last() == '/' {
        base + part
    } else {
        base + seq!['/'] + part
    }
}

/// Joins `part` onto `base` as `PathBuf::join` does on Unix.
pub fn join_path(base: &str, part: &str) -> (r: String)
    ensures
        r@ == path_join(base@, part@),
{
    let part_len = part.unicode_len();
    if part_len > 0 && part.get_char(0) == '/' {
        return part.to_owned();
    }
    let base_len = base.unicode_len();
    let mut r = base.to_owned();
    if !(base_len == 0 || base.get_char(base_len - 1) == '/') {
        r.append("/");
        proof {
            reveal_strlit("/");
        }
    }
    r.append(part);
    r
}

/// Joining an absolute component gives the component; joining a relative
/// one gives a path that begins with the base, ends with the component,
/// and puts exactly one `/` between them where the base has none at its
/// end.
pub proof fn law_join_places_part_after_base(base: Seq<char>, part: Seq<char>)
    ensures
        part.len() > 0 && part[0] == '/' ==> path_join(base, part) == part,
        !(part.len() > 0 && part[0] == '/') ==> {
            let r = path_join(base, part);
            &&& r.take(base.len() as int) == base
            &&& r.skip(r.len() - part.len()) == part
            &&& r.len() == base.len() + part.len() + (if base.len() == 0 || base.last() == '/' {
                0int
            } else {
                1int
            })
            &&& (base.len() > 0 && base.last() != '/') ==> r[base.len() as int] == '/'
        },
{
    if !(part.len() > 0 && part[0] == '/') {
        let r = path_join(base, part);
        assert(r.take(base.len() as int) =~= base);
        assert(r.skip(r.len() - part.len()) =~= part);
    }
}

} // verus!
