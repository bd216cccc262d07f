//! Which embedded icon answers an asset path, and which icons a directory
//! lists.
use vstd::prelude::*;
use crate::text::{chars_of, spec_starts_with, starts_with, str_eq, cat, string_from_chars, sub_chars};

verus! {

/// `icons[i]` is the first icon whose path is `target`.
pub open spec fn first_at(icons: Seq<Seq<char>>, target: Seq<char>, i: int) -> bool {
    &&& 0 <= i < icons.len()
    &&& icons[i] == target
    &&& forall|j: int| 0 <= j < i ==> icons[j] != target
}

/// No icon has the path `target`.
pub open spec fn absent(icons: Seq<Seq<char>>, target: Seq<char>) -> bool {
    forall|j: int| 0 <= j < icons.len() ==> icons[j] != target
}

/// Icon libraries ask for `icons/<file>` where this application keeps the
/// file under `icons/ui/`; paths already under `icons/ui/` or `icons/brand/`
/// have no alias.
pub open spec fn icon_alias(path: Seq<char>) -> Option<Seq<char>> {
    if spec_starts_with(path, "icons/"@) {
        let rest = path.subrange("icons/"@.len() as int, path.len() as int);
        if spec_starts_with(rest, "ui/"@) || spec_starts_with(rest, "brand/"@) {
            None
        } else {
            Some("icons/ui/"@ + rest)
        }
    } else {
        None
    }
}

/// `icons[i]` answers `path`: it is the first icon with that path, or no
/// icon has it and `icons[i]` is the first with its alias.
pub open spec fn answers(icons: Seq<Seq<char>>, path: Seq<char>, i: int) -> bool {
    ||| first_at(icons, path, i)
    ||| absent(icons, path) && match icon_alias(path) {
        Some(a) => first_at(icons, a, i),
        None => false,
    }
}

/// No icon answers `path`.
pub open spec fn unanswered(icons: Seq<Seq<char>>, path: Seq<char>) -> bool {
    &&& absent(icons, path)
    &&& match icon_alias(path) {
        Some(a) => absent(icons, a),
        None => true,
    }
}

/// The position of the last `c` in `s`.
pub open spec fn last_index_of(s: Seq<char>, c: char) -> Option<int>
    decreases s.len(),
{
    if s.len() == 0 {
        None
    } else if s.last() == c {
        Some(s.len() - 1)
    } else {
        last_index_of(s.drop_last(), c)
    }
}

/// `s` without its trailing run of `c`.
pub open spec fn trim_trailing(s: Seq<char>, c: char) -> Seq<char>
    decreases s.len(),
{
    if s.len() > 0 && s.last() == c {
        trim_trailing(s.drop_last(), c)
    } else {
        s
    }
}

/// The icon at `path` sits directly in the directory `dir` (trailing
/// slashes of `dir` ignored).
pub open spec fn in_directory(path: Seq<char>, dir: Seq<char>) -> bool {
    match last_index_of(path, '/') {
        Some(i) => path.subrange(0, i) == trim_trailing(dir, '/'),
        None => false,
    }
}

/// The icons of `dir`, in the order of `icons`.
pub open spec fn directory_listing(icons: Seq<Seq<char>>, dir: Seq<char>) -> Seq<Seq<char>>
    decreases icons.len(),
{
    if icons.len() == 0 {
        Seq::empty()
    } else {
        let before = directory_listing(icons.drop_last(), dir);
        if in_directory(icons.last(), dir) {
            before.push(icons.last())
        } else {
            before
        }
    }
}

pub open spec fn path_views(v: Seq<String>) -> Seq<Seq<char>> {
    v.map_values(|s: String| s@)
}

fn first_path(icons: &Vec<String>, target: &str) -> (r: Option<usize>)
    ensures
        match r {
            Some(i) => first_at(path_views(icons@), target@, i as int),
            None => absent(path_views(icons@), target@),
        },
{
    let ghost paths = path_views(icons@);
    let mut i: usize = 0;
    while i < icons.len()
        invariant
            i <= icons.len(),
            paths == path_views(icons@),
            forall|j: int| 0 <= j < i ==> paths[j] != target@,
        decreases icons.len() - i,
    {
        if str_eq(icons[i].as_str(), target) {
            return Some(i);
        }
        i = i + 1;
    }
    None
}

fn last_index_of_char(v: &Vec<char>, c: char) -> (r: Option<usize>)
    ensures
        match r {
            Some(i) => i < v.len() && last_index_of(v@, c) == Some(i as int),
            None => last_index_of(v@, c) is None,
        },
{
    let mut i: usize = v.len();
    assert(v@.take(i as int) =~= v@);
    while i > 0
        invariant
            i <= v.len(),
            last_index_of(v@, c) == last_index_of(v@.take(i as int), c),
        decreases i,
    {
        assert(v@.take(i as int).drop_last() =~= v@.take(i - 1));
        if v[i - 1] == c {
            return Some(i - 1);
        }
        i = i - 1;
    }
    None
}

fn trimmed_trailing(v: &Vec<char>, c: char) -> (r: Vec<char>)
    ensures
        r@ == trim_trailing(v@, c),
{
    let mut j: usize = v.len();
    assert(v@.take(j as int) =~= v@);
    while j > 0 && v[j - 1] == c
        invariant
            j <= v.len(),
            trim_trailing(v@, c) == trim_trailing(v@.take(j as int), c),
        decreases j,
    {
        assert(v@.take(j as int).drop_last() =~= v@.take(j - 1));
        j = j - 1;
    }
    let r = sub_chars(v, 0, j);
    assert(r@ =~= v@.take(j as int));
    r
}

fn chars_eq(a: &Vec<char>, b: &Vec<char>) -> (r: bool)
    ensures
        r == (a@ == b@),
{
    if a.len() != b.len() {
        return false;
    }
    let mut i: usize = 0;
    while i < a.len()
        invariant
            i <= a.len() == b.len(),
            forall|k: int| 0 <= k < i ==> a@[k] == b@[k],
        decreases a.len() - i,
    {
        if a[i] != b[i] {
            return false;
        }
        i = i + 1;
    }
    assert(a@ =~= b@);
    true
}

fn is_in_directory(path: &str, dir_trimmed: &Vec<char>, Ghost(dir): Ghost<Seq<char>>) -> (r: bool)
    requires
        dir_trimmed@ == trim_trailing(dir, '/'),
    ensures
        r == in_directory(path@, dir),
{
    let p = chars_of(path);
    match last_index_of_char(&p, '/') {
        Some(i) => {
            let parent = sub_chars(&p, 0, i);
            chars_eq(&parent, dir_trimmed)
        },
        None => false,
    }
}

/// The icons embedded in the application, served to the UI toolkit by path.
#[derive(Debug, Clone, Copy)]
pub struct Assets;

impl Assets {
    /// The icon that answers `path`, by its position in `icons`: the first
    /// icon with that very path, else the first one with its alias.
    pub fn load(&self, path: &str, icons: &Vec<String>) -> (r: Option<usize>)
        ensures
            match r {
                Some(i) => answers(path_views(icons@), path@, i as int),
                None => unanswered(path_views(icons@), path@),
            },
    {
        let found = first_path(icons, path);
        if found.is_some() {
            return found;
        }
        if !starts_with(path, "icons/") {
            proof {
                reveal_strlit("icons/");
            }
            return None;
        }
        let p = chars_of(path);
        proof {
            reveal_strlit("icons/");
        }
        assert(spec_starts_with(path@, "icons/"@));
        let rest = string_from_chars(sub_chars(&p, 6, p.len()).as_slice());
        assert(rest@ =~= path@.subrange("icons/"@.len() as int, path@.len() as int));
        if starts_with(rest.as_str(), "ui/") || starts_with(rest.as_str(), "brand/") {
            return None;
        }
        let aliased = cat("icons/ui/", rest.as_str());
        first_path(icons, aliased.as_str())
    }

    /// The paths of the icons directly inside `dir`, in order.
    pub fn list(&self, dir: &str, icons: &Vec<String>) -> (r: Vec<String>)
        ensures
            path_views(r@) == directory_listing(path_views(icons@), dir@),
    {
        let d = chars_of(dir);
        let trimmed = trimmed_trailing(&d, '/');
        let ghost paths = path_views(icons@);
        let mut out: Vec<String> = Vec::new();
        let mut i: usize = 0;
        while i < icons.len()
            invariant
                i <= icons.len(),
                paths == path_views(icons@),
                trimmed@ == trim_trailing(dir@, '/'),
                path_views(out@) == directory_listing(paths.take(i as int), dir@),
            decreases icons.len() - i,
        {
            assert(paths.take(i + 1).drop_last() =~= paths.take(i as int));
            assert(paths.take(i + 1).last() == icons@[i as int]@);
            if is_in_directory(icons[i].as_str(), &trimmed, Ghost(dir@)) {
                out.push(icons[i].clone());
                assert(path_views(out@) =~= directory_listing(paths.take(i as int), dir@).push(icons@[i as int]@));
            }
            i = i + 1;
        }
        assert(paths.take(icons.len() as int) =~= paths);
        out
    }
}

} // verus!
