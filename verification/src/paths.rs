//! Filename handling: stem and extension of a path, and the filename
//! convention `YYYY<sep>MM<sep>DD<sep>rest` that yields a derived title and
//! an optional derived date.
use crate::dates::{check_digit, is_digit, parse_date, parse_date_chars, Date};
use crate::text::{ascii_alnum, chars_to_string, is_ascii_alnum, to_chars};
use vstd::prelude::*;

verus! {

/// The index of the last occurrence of `c` in `s`, or `-1` if absent.
pub open spec fn find_last(s: Seq<char>, c: char) -> int
    decreases s.len(),
{
    if s.len() == 0 {
        -1
    } else if s.last() == c {
        s.len() - 1
    } else {
        find_last(s.drop_last(), c)
    }
}

proof fn lemma_find_last_take(s: Seq<char>, c: char, j: int)
    requires
        0 <= j <= s.len(),
        forall|k: int| j <= k < s.len() ==> s[k] != c,
    ensures
        find_last(s, c) == find_last(s.take(j), c),
    decreases s.len() - j,
{
    if j < s.len() {
        assert(s.last() != c);
        assert(s.drop_last() =~= s.take(s.len() - 1));
        lemma_find_last_take(s.take(s.len() - 1), c, j);
        assert(s.take(s.len() - 1).take(j) =~= s.take(j));
    } else {
        assert(s.take(j) =~= s);
    }
}

/// The index of the last occurrence of `c` in `v`, if any.
pub fn find_last_exec(v: &Vec<char>, c: char) -> (r: Option<usize>)
    ensures
        match r {
            Option::Some(i) => find_last(v@, c) == i && i < v@.len(),
            Option::None => find_last(v@, c) == -1,
        },
{
    let mut j: usize = v.len();
    loop
        invariant
            j <= v@.len(),
            forall|k: int| j <= k < v@.len() ==> v@[k] != c,
        decreases j,
    {
        proof {
            lemma_find_last_take(v@, c, j as int);
        }
        if j == 0 {
            proof {
                assert(v@.take(0) =~= Seq::<char>::empty());
            }
            return None;
        }
        if v[j - 1] == c {
            proof {
                assert(v@.take(j as int).last() == v@[j - 1]);
            }
            return Some(j - 1);
        }
        proof {
            assert(v@.take(j as int).drop_last() =~= v@.take(j - 1));
        }
        j = j - 1;
    }
}

/// The final path component: everything after the last `/`.
pub open spec fn file_name_of(p: Seq<char>) -> Seq<char> {
    p.skip(find_last(p, '/') + 1)
}

/// The stem of a file name: what precedes the last `.`, unless that dot is
/// the first character or absent, in which case the whole name.
pub open spec fn stem_of_name(name: Seq<char>) -> Seq<char> {
    if find_last(name, '.') <= 0 {
        name
    } else {
        name.take(find_last(name, '.'))
    }
}

/// The extension of a file name: what follows the last `.`, or empty when
/// the dot is the first character or absent.
pub open spec fn ext_of_name(name: Seq<char>) -> Seq<char> {
    if find_last(name, '.') <= 0 {
        Seq::empty()
    } else {
        name.skip(find_last(name, '.') + 1)
    }
}

/// The stem of a path: the stem of its final component.
pub open spec fn stem_of(p: Seq<char>) -> Seq<char> {
    stem_of_name(file_name_of(p))
}

/// The extension of a path: the extension of its final component.
pub open spec fn ext_of(p: Seq<char>) -> Seq<char> {
    ext_of_name(file_name_of(p))
}

/// Splits a path into the stem and the extension of its file name.
pub fn split_path(path: &str) -> (r: (Vec<char>, Vec<char>))
    ensures
        r.0@ == stem_of(path@),
        r.1@ == ext_of(path@),
{
    let p = to_chars(path);
    let plen: usize = p.len();
    let name_start: usize = match find_last_exec(&p, '/') {
        Some(i) => {
            proof {
                assert(i < plen);
            }
            i + 1
        },
        None => 0,
    };
    let mut name: Vec<char> = Vec::new();
    let mut i: usize = name_start;
    while i < p.len()
        invariant
            name_start <= i <= p@.len(),
            name@ == p@.subrange(name_start as int, i as int),
        decreases p@.len() - i,
    {
        name.push(p[i]);
        i = i + 1;
        proof {
            assert(name@ =~= p@.subrange(name_start as int, i as int));
        }
    }
    proof {
        assert(p@.subrange(name_start as int, p@.len() as int) =~= p@.skip(name_start as int));
        assert(name@ == file_name_of(p@));
    }
    let dot = find_last_exec(&name, '.');
    match dot {
        Some(d) if d > 0 => {
            let mut stem: Vec<char> = Vec::new();
            let mut k: usize = 0;
            while k < d
                invariant
                    k <= d < name@.len(),
                    stem@ == name@.take(k as int),
                decreases d - k,
            {
                stem.push(name[k]);
                k = k + 1;
                proof {
                    assert(stem@ =~= name@.take(k as int));
                }
            }
            let mut ext: Vec<char> = Vec::new();
            let mut m: usize = d + 1;
            while m < name.len()
                invariant
                    d + 1 <= m <= name@.len(),
                    ext@ == name@.subrange(d + 1, m as int),
                decreases name@.len() - m,
            {
                ext.push(name[m]);
                m = m + 1;
                proof {
                    assert(ext@ =~= name@.subrange(d + 1, m as int));
                }
            }
            proof {
                assert(ext@ =~= name@.skip(d + 1));
            }
            (stem, ext)
        },
        _ => {
            proof {
                assert(ext_of_name(name@) =~= Seq::<char>::empty());
            }
            (name, Vec::new())
        },
    }
}

/// The stem follows the filename date convention: four digits, a separator,
/// two digits, a separator, two digits, a separator, and a non-empty rest;
/// each separator is a single character that is not an ASCII letter or digit
/// (the three may differ). The digits are the ASCII digits, as `YYYY-MM-DD`
/// writes them.
pub open spec fn fname_pattern(s: Seq<char>) -> bool {
    &&& s.len() >= 12
    &&& is_digit(s[0])
    &&& is_digit(s[1])
    &&& is_digit(s[2])
    &&& is_digit(s[3])
    &&& !ascii_alnum(s[4])
    &&& is_digit(s[5])
    &&& is_digit(s[6])
    &&& !ascii_alnum(s[7])
    &&& is_digit(s[8])
    &&& is_digit(s[9])
    &&& !ascii_alnum(s[10])
}

/// The date named by a stem that follows the convention, when its `YYYY-MM-DD`
/// reading is an existing calendar day; otherwise `None`.
pub open spec fn fname_date(s: Seq<char>) -> Option<Date> {
    if fname_pattern(s) {
        parse_date(
            seq![s[0], s[1], s[2], s[3], '-', s[5], s[6], '-', s[8], s[9]],
        )
    } else {
        None
    }
}

/// The part of the stem that the title derives from: the rest after the date
/// when the stem follows the convention, else the whole stem.
pub open spec fn fname_title_src(s: Seq<char>) -> Seq<char> {
    if fname_pattern(s) {
        s.skip(11)
    } else {
        s
    }
}

/// `-` and `_` become spaces; every other character stays.
pub open spec fn title_of(src: Seq<char>) -> Seq<char> {
    src.map_values(|c: char| if c == '-' || c == '_' { ' ' } else { c })
}

/// The metadata derived from a stem alone: the human title (separators
/// turned to spaces) and the optional filename date. Never fails: a stem
/// outside the convention yields the whole stem as title source, and an
/// invalid date yields `None`.
pub fn extract_stem_metadata(stem: &Vec<char>) -> (r: (String, Option<Date>))
    ensures
        r.0@ == title_of(fname_title_src(stem@)),
        r.1 == fname_date(stem@),
{
    let matches = check_fname_pattern(stem);
    let (src_start, date): (usize, Option<Date>) = if matches {
        let mut ds: Vec<char> = Vec::new();
        ds.push(stem[0]);
        ds.push(stem[1]);
        ds.push(stem[2]);
        ds.push(stem[3]);
        ds.push('-');
        ds.push(stem[5]);
        ds.push(stem[6]);
        ds.push('-');
        ds.push(stem[8]);
        ds.push(stem[9]);
        proof {
            assert(ds@ =~= seq![
                stem@[0],
                stem@[1],
                stem@[2],
                stem@[3],
                '-',
                stem@[5],
                stem@[6],
                '-',
                stem@[8],
                stem@[9],
            ]);
        }
        let d = parse_date_chars(&ds);
        (11usize, d)
    } else {
        (0usize, None)
    };
    let mut title: Vec<char> = Vec::new();
    let mut i: usize = src_start;
    while i < stem.len()
        invariant
            src_start <= i <= stem@.len(),
            title@ == stem@.subrange(src_start as int, i as int).map_values(
                |c: char| if c == '-' || c == '_' { ' ' } else { c },
            ),
        decreases stem@.len() - i,
    {
        let c = stem[i];
        if c == '-' || c == '_' {
            title.push(' ');
        } else {
            title.push(c);
        }
        i = i + 1;
        proof {
            assert(title@ =~= stem@.subrange(src_start as int, i as int).map_values(
                |c: char| if c == '-' || c == '_' { ' ' } else { c },
            ));
        }
    }
    proof {
        assert(stem@.subrange(src_start as int, stem@.len() as int) =~= stem@.skip(
            src_start as int,
        ));
        if !matches {
            assert(stem@.skip(0) =~= stem@);
        }
    }
    let title_s = chars_to_string(&title);
    (title_s, date)
}

fn check_fname_pattern(s: &Vec<char>) -> (r: bool)
    ensures
        r == fname_pattern(s@),
{
    if s.len() < 12 {
        return false;
    }
    check_digit(s[0]) && check_digit(s[1]) && check_digit(s[2]) && check_digit(s[3])
        && !is_ascii_alnum(s[4]) && check_digit(s[5]) && check_digit(s[6]) && !is_ascii_alnum(s[7])
        && check_digit(s[8]) && check_digit(s[9]) && !is_ascii_alnum(s[10])
}

/// Derives a human title and an optional date from a file path, by the
/// filename convention. This function never fails; an unparsable date
/// silently yields `None`.
pub fn extract_metadata_from_path(path: &str) -> (r: (String, Option<Date>))
    ensures
        r.0@ == title_of(fname_title_src(stem_of(path@))),
        r.1 == fname_date(stem_of(path@)),
{
    let (stem, _ext) = split_path(path);
    extract_stem_metadata(&stem)
}

} // verus!
