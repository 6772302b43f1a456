//! The parts of `std::path::Path` that the library relies on, for
//! `/`-separated paths: the final component (`file_name`), the name without
//! its extension (`file_stem`), and the migration-file naming rules built on
//! them.
use vstd::prelude::*;
use crate::text::{
    chars_of, contains, contains_str, ends_with_str, has_suffix, split, split_exec, views,
};

verus! {

/// The last piece of `pieces` that is neither empty nor `"."`.
pub open spec fn last_piece(pieces: Seq<Seq<char>>) -> Option<Seq<char>>
    decreases pieces.len(),
{
    if pieces.len() == 0 {
        None
    } else if pieces.last() == Seq::<char>::empty() || pieces.last() == seq!['.'] {
        last_piece(pieces.drop_last())
    } else {
        Some(pieces.last())
    }
}

/// The final component of `path` when it is a normal name
/// (`Path::file_name`): trailing separators and `.` components are
/// ignored, and a final `..` (or a path with no name at all) gives `None`.
pub open spec fn file_name(path: Seq<char>) -> Option<Seq<char>> {
    match last_piece(split(path, '/')) {
        Some(x) => if x == seq!['.', '.'] {
            None
        } else {
            Some(x)
        },
        None => None,
    }
}

/// The index of the last `c` in `s[..j]`, or -1.
pub open spec fn last_char_before(s: Seq<char>, c: char, j: int) -> int
    decreases j,
{
    if j <= 0 || j > s.len() {
        -1
    } else if s[j - 1] == c {
        j - 1
    } else {
        last_char_before(s, c, j - 1)
    }
}

/// A file name without its extension (`Path::file_stem` on a name): the
/// part before the last `.`, unless that `.` is the first character (or
/// the name is `..`).
pub open spec fn stem_of(name: Seq<char>) -> Seq<char> {
    let k = last_char_before(name, '.', name.len() as int);
    if name == seq!['.', '.'] || k <= 0 {
        name
    } else {
        name.take(k)
    }
}

pub open spec fn file_stem(path: Seq<char>) -> Option<Seq<char>> {
    match file_name(path) {
        Some(n) => Some(stem_of(n)),
        None => None,
    }
}

pub proof fn lemma_last_char_before(s: Seq<char>, c: char, j: int)
    requires
        0 <= j <= s.len(),
    ensures
        -1 <= last_char_before(s, c, j) < j,
        last_char_before(s, c, j) >= 0 ==> s[last_char_before(s, c, j)] == c,
    decreases j,
{
    if j > 0 && s[j - 1] != c {
        lemma_last_char_before(s, c, j - 1);
    }
}

/// The final normal component of `path`, if any.
pub fn file_name_exec(path: &str) -> (r: Option<Vec<char>>)
    ensures
        r matches Some(v) ==> file_name(path@) == Some(v@),
        r is None ==> file_name(path@) is None,
{
    let cs = chars_of(path);
    let pieces = split_exec(cs.as_slice(), '/');
    let ghost ps = views(pieces@);
    let mut j = pieces.len();
    assert(ps.take(j as int) =~= ps);
    while j > 0
        invariant
            j <= pieces@.len(),
            ps == views(pieces@),
            ps == split(path@, '/'),
            last_piece(ps) == last_piece(ps.take(j as int)),
        decreases j,
    {
        let p = &pieces[j - 1];
        assert(ps.take(j as int).last() == p@);
        if p.len() == 0 || (p.len() == 1 && p[0] == '.') {
            proof {
                if p@.len() == 0 {
                    assert(p@ =~= Seq::<char>::empty());
                } else {
                    assert(p@ =~= seq!['.']);
                }
                assert(ps.take(j as int).drop_last() =~= ps.take(j - 1));
            }
            j = j - 1;
        } else {
            proof {
                if p@ == Seq::<char>::empty() {
                    assert(p@.len() == 0);
                }
                if p@ == seq!['.'] {
                    assert(p@.len() == 1 && p@[0] == '.');
                }
            }
            if p.len() == 2 && p[0] == '.' && p[1] == '.' {
                assert(p@ =~= seq!['.', '.']);
                return None;
            }
            proof {
                if p@ == seq!['.', '.'] {
                    assert(p@.len() == 2 && p@[0] == '.' && p@[1] == '.');
                }
            }
            let mut out: Vec<char> = Vec::new();
            let mut k: usize = 0;
            while k < p.len()
                invariant
                    k <= p@.len(),
                    out@ == p@.take(k as int),
                decreases p@.len() - k,
            {
                out.push(p[k]);
                k = k + 1;
            }
            assert(out@ =~= p@);
            return Some(out);
        }
    }
    assert(ps.take(0) =~= Seq::<Seq<char>>::empty());
    None
}

pub fn stem_exec(name: &[char]) -> (r: Vec<char>)
    ensures
        r@ == stem_of(name@),
{
    let mut j = name.len();
    while j > 0 && name[j - 1] != '.'
        invariant
            j <= name@.len(),
            last_char_before(name@, '.', name@.len() as int) == last_char_before(name@, '.', j as int),
        decreases j,
    {
        j = j - 1;
    }
    let is_dotdot = name.len() == 2 && name[0] == '.' && name[1] == '.';
    proof {
        if name@ == seq!['.', '.'] {
            assert(name@.len() == 2 && name@[0] == '.' && name@[1] == '.');
        }
        if is_dotdot {
            assert(name@ =~= seq!['.', '.']);
        }
    }
    let end = if is_dotdot || j <= 1 {
        name.len()
    } else {
        j - 1
    };
    let mut out: Vec<char> = Vec::new();
    let mut k: usize = 0;
    while k < end
        invariant
            k <= end <= name@.len(),
            out@ == name@.take(k as int),
        decreases end - k,
    {
        out.push(name[k]);
        k = k + 1;
    }
    assert(name@.take(name@.len() as int) =~= name@);
    out
}

/// `Path::file_stem` of `path`.
pub fn file_stem_exec(path: &str) -> (r: Option<Vec<char>>)
    ensures
        r matches Some(v) ==> file_stem(path@) == Some(v@),
        r is None ==> file_stem(path@) is None,
{
    match file_name_exec(path) {
        Some(n) => Some(stem_exec(n.as_slice())),
        None => None,
    }
}

// ─── Migration file names ───────────────────────────────────────────

/// A migration's main source file: a `.cs` file that is neither a
/// `.Designer.cs` companion nor the model snapshot.
pub open spec fn is_migration_source(name: Seq<char>) -> bool {
    &&& has_suffix(name, ".cs"@)
    &&& !has_suffix(name, ".Designer.cs"@)
    &&& !contains(name, "ModelSnapshot"@)
}

pub fn is_migration_source_exec(name: &[char]) -> (b: bool)
    ensures
        b == is_migration_source(name@),
{
    ends_with_str(name, ".cs") && !ends_with_str(name, ".Designer.cs") && !contains_str(
        name,
        "ModelSnapshot",
    )
}

/// The migration name a path stands for: the stem of a migration source
/// file, `None` for any other path.
pub open spec fn migration_name_of(path: Seq<char>) -> Option<Seq<char>> {
    match file_name(path) {
        Some(n) => if is_migration_source(n) {
            Some(stem_of(n))
        } else {
            None
        },
        None => None,
    }
}

} // verus!
