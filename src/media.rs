use vstd::prelude::*;

verus! {

/// The index of the last `.` in a file name, or -1 when it has none.
pub open spec fn last_dot(name: Seq<char>) -> int
    decreases name.len(),
{
    if name.len() == 0 {
        -1
    } else if name.last() == '.' {
        name.len() - 1
    } else {
        last_dot(name.drop_last())
    }
}

/// The extension of a file name: what follows its last `.`, where that `.`
/// is not the name's first character.
pub open spec fn extension_of(name: Seq<char>) -> Option<Seq<char>> {
    let p = last_dot(name);
    if p > 0 {
        Some(name.subrange(p + 1, name.len() as int))
    } else {
        None
    }
}

/// Whether `c` is the ASCII letter `lower`, in either case.
pub open spec fn letter_ignoring_case(c: char, lower: char, upper: char) -> bool {
    c == lower || c == upper
}

/// Whether an extension is `insv`, ignoring ASCII case.
pub open spec fn is_media_extension(ext: Seq<char>) -> bool {
    &&& ext.len() == 4
    &&& letter_ignoring_case(ext[0], 'i', 'I')
    &&& letter_ignoring_case(ext[1], 'n', 'N')
    &&& letter_ignoring_case(ext[2], 's', 'S')
    &&& letter_ignoring_case(ext[3], 'v', 'V')
}

/// Whether a file name names a camera video file.
pub open spec fn is_media_name(name: Seq<char>) -> bool {
    extension_of(name) matches Some(ext) && is_media_extension(ext)
}

proof fn lemma_last_dot_step(name: Seq<char>, i: int)
    requires
        0 <= i < name.len(),
    ensures
        last_dot(name.subrange(0, i + 1)) == if name[i] == '.' {
            i
        } else {
            last_dot(name.subrange(0, i))
        },
{
    let s = name.subrange(0, i + 1);
    assert(s.drop_last() =~= name.subrange(0, i));
    assert(s.last() == name[i]);
}

proof fn lemma_last_dot_range(name: Seq<char>)
    ensures
        -1 <= last_dot(name) < name.len(),
    decreases name.len(),
{
    if name.len() > 0 && name.last() != '.' {
        lemma_last_dot_range(name.drop_last());
    }
}

/// Whether a file name has the camera video extension `insv`, in any ASCII
/// case.
pub fn has_media_extension(name: &str) -> (r: bool)
    ensures
        r == is_media_name(name@),
{
    let n = name.unicode_len();
    let mut after_dot: usize = 0;
    let mut i: usize = 0;
    while i < n
        invariant
            n == name@.len(),
            i <= n,
            after_dot == last_dot(name@.subrange(0, i as int)) + 1,
        decreases n - i,
    {
        proof {
            lemma_last_dot_step(name@, i as int);
        }
        if name.get_char(i) == '.' {
            after_dot = i + 1;
        }
        i = i + 1;
    }
    assert(name@.subrange(0, n as int) =~= name@);
    proof {
        lemma_last_dot_range(name@);
    }
    if after_dot <= 1 {
        return false;
    }
    let p = after_dot - 1;
    if n - p - 1 != 4 {
        return false;
    }
    let ghost ext = name@.subrange(p + 1, n as int);
    let a = name.get_char(p + 1);
    let b = name.get_char(p + 2);
    let c = name.get_char(p + 3);
    let d = name.get_char(p + 4);
    assert(ext[0] == a && ext[1] == b && ext[2] == c && ext[3] == d);
    (a == 'i' || a == 'I') && (b == 'n' || b == 'N') && (c == 's' || c == 'S') && (d == 'v' || d
        == 'V')
}

} // verus!
