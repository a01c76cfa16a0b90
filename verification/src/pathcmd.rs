use vstd::prelude::*;
use vstd::std_specs::iter::IteratorSpec;
use vstd::string::StringExecFns;

verus! {

broadcast use vstd::string::next_postcondition, vstd::string::axiom_spec_iter;

// Slash-separated path normalization: `.` components and empty components
// vanish, `..` pops the last kept component (and vanishes at the top), and a
// leading separator (the root) survives popping.

/// The API descriptor of the path command set. Each variant carries the
/// plain values its command works on; a base directory is carried by name.
pub enum Cmd {
    ResolvePath { path: String, directory: Option<String> },
    Resolve { paths: Vec<String> },
    Normalize { path: String },
    Join { paths: Vec<String> },
    Dirname { path: String },
    Extname { path: String },
    Basename { path: String, ext: Option<String> },
    IsAbsolute { path: String },
}

/// The components of a path: the characters split on `/`, one more piece
/// than there are separators.
pub open spec fn split_slash(s: Seq<char>) -> Seq<Seq<char>>
    decreases s.len(),
{
    if s.len() == 0 {
        seq![Seq::empty()]
    } else {
        let rest = split_slash(s.drop_last());
        if s.last() == '/' {
            rest.push(Seq::empty())
        } else {
            rest.update(rest.len() - 1, rest.last().push(s.last()))
        }
    }
}

/// The kept components after normalization: empty and `.` components vanish,
/// `..` pops the last kept component when there is one, anything else is
/// kept.
pub open spec fn norm_comps(cs: Seq<Seq<char>>) -> Seq<Seq<char>>
    decreases cs.len(),
{
    if cs.len() == 0 {
        Seq::empty()
    } else {
        let pre = norm_comps(cs.drop_last());
        let c = cs.last();
        if c.len() == 0 || c == seq!['.'] {
            pre
        } else if c == seq!['.', '.'] {
            if pre.len() > 0 {
                pre.drop_last()
            } else {
                pre
            }
        } else {
            pre.push(c)
        }
    }
}

/// Components joined by single separators.
pub open spec fn join_comps(cs: Seq<Seq<char>>) -> Seq<char>
    decreases cs.len(),
{
    if cs.len() == 0 {
        Seq::empty()
    } else if cs.len() == 1 {
        cs[0]
    } else {
        join_comps(cs.drop_last()) + seq!['/'] + cs.last()
    }
}

/// Whether a path is absolute: it starts with the root separator.
pub open spec fn is_absolute_spec(s: Seq<char>) -> bool {
    s.len() > 0 && s[0] == '/'
}

/// A normalized path: the kept components joined by separators, behind the
/// root separator when the path was absolute.
pub open spec fn normalize_path_spec(s: Seq<char>) -> Seq<char> {
    if is_absolute_spec(s) {
        seq!['/'] + join_comps(norm_comps(split_slash(s)))
    } else {
        join_comps(norm_comps(split_slash(s)))
    }
}

/// Relies on `String::from_iter` (through `Iterator::collect`): collecting
/// characters yields the string of exactly those characters.
#[verifier::external_body]
fn chars_to_string(v: &Vec<char>) -> (r: String)
    ensures
        r@ == v@,
{
    v.iter().collect()
}

/// Collects a string's characters.
fn str_to_chars(s: &str) -> (r: Vec<char>)
    ensures
        r@ == s@,
{
    let mut it = s.chars();
    let mut v: Vec<char> = Vec::new();
    loop
        invariant
            it.decrease() is Some,
            v@ + it.remaining() == s@,
        ensures
            v@ == s@,
        decreases it.decrease()->0,
    {
        match it.next() {
            Some(c) => {
                v.push(c);
                proof {
                    assert(v@ + it.remaining() =~= s@);
                }
            },
            None => {
                proof {
                    assert(v@ =~= s@);
                }
                break;
            },
        }
    }
    v
}

/// Splits characters on the separator.
fn split_chars(chars: &Vec<char>) -> (r: Vec<Vec<char>>)
    ensures
        r.deep_view() == split_slash(chars@),
        r@.len() >= 1,
{
    let mut comps: Vec<Vec<char>> = Vec::new();
    let mut cur: Vec<char> = Vec::new();
    let mut i: usize = 0;
    while i < chars.len()
        invariant
            i <= chars@.len(),
            comps.deep_view().push(cur@) == split_slash(chars@.subrange(0, i as int)),
        decreases chars@.len() - i,
    {
        let c = chars[i];
        i = i + 1;
        proof {
            assert(chars@.subrange(0, i as int).drop_last() =~= chars@.subrange(0, i as int - 1));
        }
        if c == '/' {
            comps.push(cur);
            cur = Vec::new();
            proof {
                assert(comps.deep_view().push(cur@)
                    =~~= split_slash(chars@.subrange(0, i as int)));
            }
        } else {
            cur.push(c);
            proof {
                assert(comps.deep_view().push(cur@)
                    =~~= split_slash(chars@.subrange(0, i as int)));
            }
        }
    }
    comps.push(cur);
    proof {
        assert(chars@.subrange(0, chars@.len() as int) =~= chars@);
        assert(comps.deep_view() =~~= split_slash(chars@));
    }
    comps
}

/// Applies the normalization rules to the component list.
fn norm_stack(comps: &Vec<Vec<char>>) -> (r: Vec<Vec<char>>)
    ensures
        r.deep_view() == norm_comps(comps.deep_view()),
{
    let mut stack: Vec<Vec<char>> = Vec::new();
    let mut i: usize = 0;
    while i < comps.len()
        invariant
            i <= comps@.len(),
            stack.deep_view() == norm_comps(comps.deep_view().subrange(0, i as int)),
        decreases comps@.len() - i,
    {
        let c = &comps[i];
        i = i + 1;
        proof {
            assert(comps.deep_view().subrange(0, i as int).drop_last()
                =~~= comps.deep_view().subrange(0, i as int - 1));
            assert(comps.deep_view().subrange(0, i as int).last() == comps.deep_view()[i - 1]);
        }
        let is_dot = c.len() == 1 && c[0] == '.';
        let is_dotdot = c.len() == 2 && c[0] == '.' && c[1] == '.';
        if c.len() == 0 || is_dot {
            proof {
                assert(c@ =~= comps.deep_view()[i as int - 1]);
                if is_dot {
                    assert(comps.deep_view()[i as int - 1] =~= seq!['.']);
                }
                assert(stack.deep_view()
                    =~~= norm_comps(comps.deep_view().subrange(0, i as int)));
            }
        } else if is_dotdot {
            proof {
                assert(comps.deep_view()[i as int - 1] =~= seq!['.', '.']);
            }
            if stack.len() > 0 {
                stack.pop();
            }
            proof {
                assert(stack.deep_view()
                    =~~= norm_comps(comps.deep_view().subrange(0, i as int)));
            }
        } else {
            let ghost cv = comps.deep_view()[i as int - 1];
            proof {
                assert(c@ == cv);
                assert(cv.len() != 0);
                if cv == seq!['.'] {
                    assert(c@.len() == 1 && c@[0] == '.');
                }
                if cv == seq!['.', '.'] {
                    assert(c@.len() == 2 && c@[0] == '.' && c@[1] == '.');
                }
            }
            stack.push(clone_chars(c));
            proof {
                assert(stack.deep_view()
                    =~~= norm_comps(comps.deep_view().subrange(0, i as int)));
            }
        }
    }
    proof {
        assert(comps.deep_view().subrange(0, comps@.len() as int) =~~= comps.deep_view());
        assert(stack.deep_view() =~~= norm_comps(comps.deep_view()));
    }
    stack
}

/// Copies a component.
fn clone_chars(v: &Vec<char>) -> (r: Vec<char>)
    ensures
        r@ == v@,
{
    let mut r: Vec<char> = Vec::new();
    let mut i: usize = 0;
    while i < v.len()
        invariant
            i <= v@.len(),
            r@ == v@.subrange(0, i as int),
        decreases v@.len() - i,
    {
        r.push(v[i]);
        i = i + 1;
        proof {
            assert(r@ =~= v@.subrange(0, i as int));
        }
    }
    proof {
        assert(r@ =~= v@);
    }
    r
}

/// Renders the kept components, with the root separator when absolute.
fn render_path(absolute: bool, comps: &Vec<Vec<char>>) -> (r: Vec<char>)
    ensures
        r@ == (if absolute { seq!['/'] } else { Seq::<char>::empty() })
            + join_comps(comps.deep_view()),
{
    let ghost lead: Seq<char> = if absolute { seq!['/'] } else { Seq::empty() };
    let mut r: Vec<char> = Vec::new();
    if absolute {
        r.push('/');
    }
    let mut i: usize = 0;
    while i < comps.len()
        invariant
            i <= comps@.len(),
            lead == if absolute { seq!['/'] } else { Seq::<char>::empty() },
            r@ == lead + join_comps(comps.deep_view().subrange(0, i as int)),
        decreases comps@.len() - i,
    {
        if i > 0 {
            r.push('/');
        }
        let c = &comps[i];
        let mut j: usize = 0;
        while j < c.len()
            invariant
                j <= c@.len(),
                i < comps@.len(),
                c@ == comps.deep_view()[i as int],
                lead == if absolute { seq!['/'] } else { Seq::<char>::empty() },
                r@ == lead + join_comps(comps.deep_view().subrange(0, i as int))
                    + (if i > 0 { seq!['/'] } else { Seq::<char>::empty() })
                    + c@.subrange(0, j as int),
            decreases c@.len() - j,
        {
            r.push(c[j]);
            j = j + 1;
            proof {
                assert(r@ =~= lead + join_comps(comps.deep_view().subrange(0, i as int))
                    + (if i > 0 { seq!['/'] } else { Seq::<char>::empty() })
                    + c@.subrange(0, j as int));
            }
        }
        i = i + 1;
        proof {
            let dv = comps.deep_view();
            assert(dv.subrange(0, i as int).drop_last() =~~= dv.subrange(0, i as int - 1));
            assert(dv.subrange(0, i as int).last() == dv[i - 1]);
            assert(c@.subrange(0, c@.len() as int) =~= c@);
            assert(r@ =~= lead + join_comps(dv.subrange(0, i as int)));
        }
    }
    proof {
        assert(comps.deep_view().subrange(0, comps@.len() as int) =~~= comps.deep_view());
    }
    r
}

/// The normalized characters of a path.
fn normalize_chars_of(path: &str) -> (r: Vec<char>)
    ensures
        r@ == normalize_path_spec(path@),
{
    let chars = str_to_chars(path);
    let absolute = chars.len() > 0 && chars[0] == '/';
    let comps = split_chars(&chars);
    let stack = norm_stack(&comps);
    render_path(absolute, &stack)
}

/// Normalizes a path, removing `.` components and resolving `..` against
/// the components before it; an absolute path keeps its root.
pub fn normalize_path(path: &str) -> (r: String)
    ensures
        r@ == normalize_path_spec(path@),
{
    let chars = normalize_chars_of(path);
    chars_to_string(&chars)
}

/// Normalizes a path like `normalize_path` without resolving one component
/// against a root the way an absolute component replaces a path on platforms
/// with path prefixes; on slash-separated paths the two agree, and the root
/// of an absolute path is kept here too.
pub fn normalize_path_no_absolute(path: &str) -> (r: String)
    ensures
        r@ == normalize_path_spec(path@),
{
    let chars = normalize_chars_of(path);
    chars_to_string(&chars)
}

/// Whether a path's characters end in a separator of either flavor.
pub open spec fn ends_sep(s: Seq<char>) -> bool {
    s.len() > 0 && (s.last() == '/' || s.last() == '\\')
}

/// What the normalize command answers: the normalized path, with `..` and
/// `.` surviving normalization to nothing, and a trailing separator kept.
pub open spec fn cmd_normalize_spec(s: Seq<char>) -> Seq<char> {
    if normalize_path_spec(s).len() == 0 && s == seq!['.', '.'] {
        seq!['.', '.']
    } else if normalize_path_spec(s).len() == 0 && s == seq!['.'] {
        seq!['.']
    } else if ends_sep(s) {
        normalize_path_spec(s) + seq!['/']
    } else {
        normalize_path_spec(s)
    }
}

/// A path piece with a trailing separator added unless it has one.
pub open spec fn with_sep(s: Seq<char>) -> Seq<char> {
    if ends_sep(s) {
        s
    } else {
        s + seq!['/']
    }
}

/// The pieces of the join command, concatenated with separators.
pub open spec fn concat_with_seps(ps: Seq<Seq<char>>) -> Seq<char>
    decreases ps.len(),
{
    if ps.len() == 0 {
        Seq::empty()
    } else {
        concat_with_seps(ps.drop_last()) + with_sep(ps.last())
    }
}

/// What the join command answers: the pieces concatenated and normalized,
/// with `.` for an empty result.
pub open spec fn cmd_join_spec(ps: Seq<Seq<char>>) -> Seq<char> {
    if normalize_path_spec(concat_with_seps(ps)).len() == 0 {
        seq!['.']
    } else {
        normalize_path_spec(concat_with_seps(ps))
    }
}

impl Cmd {
    /// The normalize command: normalizes the path, answers `..` and `.`
    /// themselves when they normalize to nothing, and keeps a trailing
    /// separator.
    pub fn normalize(path: &str) -> (r: String)
        ensures
            r@ == cmd_normalize_spec(path@),
    {
        let chars = str_to_chars(path);
        let mut pc = normalize_chars_of(path);
        if pc.len() == 0 && chars.len() == 2 && chars[0] == '.' && chars[1] == '.' {
            proof {
                reveal_strlit("..");
                assert(path@ =~= seq!['.', '.']);
                assert(".."@ =~= seq!['.', '.']);
            }
            return "..".to_owned();
        }
        if pc.len() == 0 && chars.len() == 1 && chars[0] == '.' {
            proof {
                reveal_strlit(".");
                assert(path@ =~= seq!['.']);
                assert("."@ =~= seq!['.']);
            }
            return ".".to_owned();
        }
        proof {
            if path@ == seq!['.', '.'] {
                assert(chars@.len() == 2 && chars@[0] == '.' && chars@[1] == '.');
            }
            if path@ == seq!['.'] {
                assert(chars@.len() == 1 && chars@[0] == '.');
            }
        }
        let n = chars.len();
        if n > 0 && (chars[n - 1] == '/' || chars[n - 1] == '\\') {
            pc.push('/');
        }
        chars_to_string(&pc)
    }

    /// The join command: concatenates the pieces with separators, normalizes
    /// the result, and answers `.` when nothing is left.
    pub fn join(paths: &Vec<String>) -> (r: String)
        ensures
            r@ == cmd_join_spec(paths.deep_view()),
    {
        let mut joined_chars: Vec<char> = Vec::new();
        let mut i: usize = 0;
        while i < paths.len()
            invariant
                i <= paths@.len(),
                joined_chars@ == concat_with_seps(paths.deep_view().subrange(0, i as int)),
            decreases paths@.len() - i,
        {
            let piece = str_to_chars(paths[i].as_str());
            let ghost pv = paths.deep_view()[i as int];
            let m = piece.len();
            let mut j: usize = 0;
            while j < m
                invariant
                    j <= m,
                    m == piece@.len(),
                    piece@ == pv,
                    joined_chars@ == concat_with_seps(paths.deep_view().subrange(0, i as int))
                        + piece@.subrange(0, j as int),
                decreases m - j,
            {
                joined_chars.push(piece[j]);
                j = j + 1;
                proof {
                    assert(joined_chars@
                        =~= concat_with_seps(paths.deep_view().subrange(0, i as int))
                        + piece@.subrange(0, j as int));
                }
            }
            proof {
                assert(piece@.subrange(0, m as int) =~= piece@);
            }
            if m == 0 || (piece[m - 1] != '/' && piece[m - 1] != '\\') {
                joined_chars.push('/');
            }
            i = i + 1;
            proof {
                let dv = paths.deep_view();
                assert(dv.subrange(0, i as int).drop_last() =~~= dv.subrange(0, i as int - 1));
                assert(dv.subrange(0, i as int).last() == dv[i - 1]);
                assert(joined_chars@ =~= concat_with_seps(dv.subrange(0, i as int)));
            }
        }
        proof {
            assert(paths.deep_view().subrange(0, paths@.len() as int) =~~= paths.deep_view());
        }
        let joined_str = chars_to_string(&joined_chars);
        let pc = normalize_chars_of(joined_str.as_str());
        if pc.len() == 0 {
            proof {
                reveal_strlit(".");
                assert("."@ =~= seq!['.']);
            }
            ".".to_owned()
        } else {
            chars_to_string(&pc)
        }
    }

    /// The is-absolute command: whether the path starts at the root.
    pub fn is_absolute(path: &str) -> (r: bool)
        ensures
            r == is_absolute_spec(path@),
    {
        let chars = str_to_chars(path);
        chars.len() > 0 && chars[0] == '/'
    }

    /// The dirname command: the path without its final component, `None`
    /// when there is no parent (an empty path or a bare root).
    pub fn dirname(path: &str) -> (r: Option<String>)
        ensures
            match r {
                Some(d) => dirname_spec(path@) == Some(d@),
                None => dirname_spec(path@) is None,
            },
    {
        let chars = str_to_chars(path);
        let absolute = chars.len() > 0 && chars[0] == '/';
        let kept = kept_comps_exec(&chars);
        if kept.len() == 0 {
            return None;
        }
        let mut front = kept;
        front.pop();
        proof {
            assert(front.deep_view() =~~= kept_comps(path@).drop_last());
        }
        let rendered = render_path(absolute, &front);
        Some(chars_to_string(&rendered))
    }

    /// The extname command: the file name's extension, `None` when the final
    /// component has none (or when there is no final component).
    pub fn extname(path: &str) -> (r: Option<String>)
        ensures
            match r {
                Some(e) => extname_spec(path@) == Some(e@),
                None => extname_spec(path@) is None,
            },
    {
        let f = match Self::file_name_chars(path) {
            Some(f) => f,
            None => {
                return None;
            },
        };
        let flen = f.len();
        let dot = find_last_dot(&f);
        match dot {
            Some(i) if i > 0 => {
                assert(i < flen);
                let mut ext: Vec<char> = Vec::new();
                let mut j: usize = i + 1;
                while j < f.len()
                    invariant
                        i + 1 <= j <= f@.len(),
                        ext@ == f@.subrange(i as int + 1, j as int),
                    decreases f@.len() - j,
                {
                    ext.push(f[j]);
                    j = j + 1;
                    proof {
                        assert(ext@ =~= f@.subrange(i as int + 1, j as int));
                    }
                }
                Some(chars_to_string(&ext))
            },
            _ => None,
        }
    }

    /// The basename command: the path's final component, with every
    /// occurrence of the given extension string removed from it; `None` when
    /// there is no final component.
    pub fn basename(path: &str, ext: Option<&str>) -> (r: Option<String>)
        ensures
            match r {
                Some(b) => match ext {
                    Some(e) => basename_spec(path@, Some(e@)) == Some(b@),
                    None => basename_spec(path@, None) == Some(b@),
                },
                None => match ext {
                    Some(e) => basename_spec(path@, Some(e@)) is None,
                    None => basename_spec(path@, None) is None,
                },
            },
    {
        let f = match Self::file_name_chars(path) {
            Some(f) => f,
            None => {
                return None;
            },
        };
        match ext {
            Some(e) => {
                let pat = str_to_chars(e);
                let cleaned = remove_all(&f, &pat);
                Some(chars_to_string(&cleaned))
            },
            None => Some(chars_to_string(&f)),
        }
    }

    /// The final component of a path, as characters.
    fn file_name_chars(path: &str) -> (r: Option<Vec<char>>)
        ensures
            match r {
                Some(f) => file_name_spec(path@) == Some(f@),
                None => file_name_spec(path@) is None,
            },
    {
        let chars = str_to_chars(path);
        let kept = kept_comps_exec(&chars);
        if kept.len() == 0 {
            return None;
        }
        let last = &kept[kept.len() - 1];
        let is_dot = last.len() == 1 && last[0] == '.';
        let is_dotdot = last.len() == 2 && last[0] == '.' && last[1] == '.';
        proof {
            let k = kept_comps(path@);
            assert(last@ == k.last());
            if is_dot {
                assert(k.last() =~= seq!['.']);
            } else if k.last() == seq!['.'] {
                assert(last@.len() == 1 && last@[0] == '.');
            }
            if is_dotdot {
                assert(k.last() =~= seq!['.', '.']);
            } else if k.last() == seq!['.', '.'] {
                assert(last@.len() == 2 && last@[0] == '.' && last@[1] == '.');
            }
        }
        if is_dot || is_dotdot {
            return None;
        }
        Some(clone_chars(last))
    }
}

/// The components a path walk yields: empty pieces vanish, `.` pieces vanish
/// except a lone leading `.` on a relative path, and nothing is resolved.
pub open spec fn filter_comps(cs: Seq<Seq<char>>) -> Seq<Seq<char>>
    decreases cs.len(),
{
    if cs.len() == 0 {
        Seq::empty()
    } else {
        let pre = filter_comps(cs.drop_last());
        let c = cs.last();
        if c.len() == 0 || c == seq!['.'] {
            pre
        } else {
            pre.push(c)
        }
    }
}

/// The walked components of a path, with the leading `.` of a relative path
/// kept (it stands for the current directory).
pub open spec fn kept_comps(s: Seq<char>) -> Seq<Seq<char>> {
    if !is_absolute_spec(s) && split_slash(s)[0] == seq!['.'] {
        seq![seq!['.']] + filter_comps(split_slash(s))
    } else {
        filter_comps(split_slash(s))
    }
}

/// The final component: `None` for an empty walk or when the walk ends in
/// the current or the parent directory.
pub open spec fn file_name_spec(s: Seq<char>) -> Option<Seq<char>> {
    let k = kept_comps(s);
    if k.len() == 0 {
        None
    } else if k.last() == seq!['.'] || k.last() == seq!['.', '.'] {
        None
    } else {
        Some(k.last())
    }
}

/// The parent: the walked components without the last one, rendered behind
/// the root when the path was absolute; `None` when the walk is empty.
pub open spec fn dirname_spec(s: Seq<char>) -> Option<Seq<char>> {
    let k = kept_comps(s);
    if k.len() == 0 {
        None
    } else if is_absolute_spec(s) {
        Some(seq!['/'] + join_comps(k.drop_last()))
    } else {
        Some(join_comps(k.drop_last()))
    }
}

/// The index of the last `.` in a component, `-1` when there is none.
pub open spec fn last_dot(f: Seq<char>) -> int
    decreases f.len(),
{
    if f.len() == 0 {
        -1
    } else if f.last() == '.' {
        f.len() - 1
    } else {
        last_dot(f.drop_last())
    }
}

/// The extension: what follows the last `.` of the final component, provided
/// something other than that dot precedes it.
pub open spec fn extname_spec(s: Seq<char>) -> Option<Seq<char>> {
    match file_name_spec(s) {
        Some(f) => if last_dot(f) > 0 {
            Some(f.subrange(last_dot(f) + 1, f.len() as int))
        } else {
            None
        },
        None => None,
    }
}

/// A sequence with every occurrence of a pattern removed, scanning left to
/// right; an empty pattern removes nothing.
pub open spec fn remove_all_spec(s: Seq<char>, pat: Seq<char>) -> Seq<char>
    decreases s.len(),
{
    if pat.len() == 0 {
        s
    } else if s.len() == 0 {
        Seq::empty()
    } else if s.len() >= pat.len() && s.subrange(0, pat.len() as int) == pat {
        remove_all_spec(s.skip(pat.len() as int), pat)
    } else {
        seq![s[0]] + remove_all_spec(s.skip(1), pat)
    }
}

/// The base name: the final component with every occurrence of the given
/// extension string removed.
pub open spec fn basename_spec(s: Seq<char>, ext: Option<Seq<char>>) -> Option<Seq<char>> {
    match file_name_spec(s) {
        Some(f) => match ext {
            Some(e) => Some(remove_all_spec(f, e)),
            None => Some(f),
        },
        None => None,
    }
}

/// The walked components of a path, in executable form.
fn kept_comps_exec(chars: &Vec<char>) -> (r: Vec<Vec<char>>)
    ensures
        r.deep_view() == kept_comps(chars@),
{
    let comps = split_chars(chars);
    let absolute = chars.len() > 0 && chars[0] == '/';
    let mut r: Vec<Vec<char>> = Vec::new();
    let first = &comps[0];
    let leading_dot = !absolute && first.len() == 1 && first[0] == '.';
    proof {
        assert(first@ == split_slash(chars@)[0]);
        if leading_dot {
            assert(split_slash(chars@)[0] =~= seq!['.']);
        } else if !absolute && split_slash(chars@)[0] == seq!['.'] {
            assert(first@.len() == 1 && first@[0] == '.');
        }
    }
    if leading_dot {
        let mut dot: Vec<char> = Vec::new();
        dot.push('.');
        r.push(dot);
        proof {
            assert(r.deep_view() =~~= seq![seq!['.']]);
        }
    }
    let ghost lead: Seq<Seq<char>> = if leading_dot { seq![seq!['.']] } else { Seq::empty() };
    let mut i: usize = 0;
    while i < comps.len()
        invariant
            i <= comps@.len(),
            lead == if leading_dot { seq![seq!['.']] } else { Seq::<Seq<char>>::empty() },
            r.deep_view() == lead + filter_comps(comps.deep_view().subrange(0, i as int)),
        decreases comps@.len() - i,
    {
        let c = &comps[i];
        i = i + 1;
        proof {
            assert(comps.deep_view().subrange(0, i as int).drop_last()
                =~~= comps.deep_view().subrange(0, i as int - 1));
            assert(comps.deep_view().subrange(0, i as int).last() == comps.deep_view()[i - 1]);
        }
        let is_dot = c.len() == 1 && c[0] == '.';
        if c.len() == 0 || is_dot {
            proof {
                assert(c@ =~= comps.deep_view()[i as int - 1]);
                if is_dot {
                    assert(comps.deep_view()[i as int - 1] =~= seq!['.']);
                }
                assert(r.deep_view()
                    =~~= lead + filter_comps(comps.deep_view().subrange(0, i as int)));
            }
        } else {
            proof {
                let cv = comps.deep_view()[i as int - 1];
                assert(c@ == cv);
                assert(cv.len() != 0);
                if cv == seq!['.'] {
                    assert(c@.len() == 1 && c@[0] == '.');
                }
                assert(filter_comps(comps.deep_view().subrange(0, i as int))
                    == filter_comps(comps.deep_view().subrange(0, i as int - 1)).push(cv));
            }
            r.push(clone_chars(c));
            proof {
                let pre = filter_comps(comps.deep_view().subrange(0, i as int - 1));
                let cv = comps.deep_view()[i as int - 1];
                assert(r.deep_view() =~~= (lead + pre).push(cv));
                assert((lead + pre).push(cv) =~~= lead + pre.push(cv));
                assert(r.deep_view()
                    =~~= lead + filter_comps(comps.deep_view().subrange(0, i as int)));
            }
        }
    }
    proof {
        assert(comps.deep_view().subrange(0, comps@.len() as int) =~~= comps.deep_view());
        assert(comps.deep_view() == split_slash(chars@));
        assert(r.deep_view() =~~= kept_comps(chars@));
    }
    r
}

/// The index of the last `.`, in executable form.
fn find_last_dot(f: &Vec<char>) -> (r: Option<usize>)
    ensures
        match r {
            Some(i) => last_dot(f@) == i && i < f@.len(),
            None => last_dot(f@) == -1,
        },
{
    let mut best: Option<usize> = None;
    let mut i: usize = 0;
    while i < f.len()
        invariant
            i <= f@.len(),
            match best {
                Some(b) => last_dot(f@.subrange(0, i as int)) == b && b < i,
                None => last_dot(f@.subrange(0, i as int)) == -1,
            },
        decreases f@.len() - i,
    {
        let c = f[i];
        i = i + 1;
        proof {
            assert(f@.subrange(0, i as int).drop_last() =~= f@.subrange(0, i as int - 1));
            assert(f@.subrange(0, i as int).last() == f@[i - 1]);
        }
        if c == '.' {
            best = Some(i - 1);
        }
    }
    proof {
        assert(f@.subrange(0, f@.len() as int) =~= f@);
    }
    best
}

/// Removes every occurrence of a pattern, scanning left to right.
fn remove_all(s: &Vec<char>, pat: &Vec<char>) -> (r: Vec<char>)
    ensures
        r@ == remove_all_spec(s@, pat@),
{
    if pat.len() == 0 {
        return clone_chars(s);
    }
    let mut out: Vec<char> = Vec::new();
    let mut i: usize = 0;
    proof {
        assert(s@.skip(0) =~= s@);
    }
    while i < s.len()
        invariant
            i <= s@.len(),
            pat@.len() >= 1,
            out@ + remove_all_spec(s@.skip(i as int), pat@) == remove_all_spec(s@, pat@),
        decreases s@.len() - i,
    {
        let matched = starts_with_at(s, i, pat);
        if matched {
            proof {
                let tail = s@.skip(i as int);
                assert(tail.subrange(0, pat@.len() as int) =~= s@.subrange(
                    i as int,
                    i as int + pat@.len() as int,
                ));
                assert(tail.skip(pat@.len() as int) =~= s@.skip(i as int + pat@.len() as int));
                assert(out@ + remove_all_spec(s@.skip(i as int + pat@.len() as int), pat@)
                    =~= remove_all_spec(s@, pat@));
            }
            i = i + pat.len();
        } else {
            proof {
                let tail = s@.skip(i as int);
                if tail.len() >= pat@.len() && tail.subrange(0, pat@.len() as int) == pat@ {
                    assert(s@.subrange(i as int, i as int + pat@.len() as int)
                        =~= tail.subrange(0, pat@.len() as int));
                }
                assert(tail[0] == s@[i as int]);
                assert(tail.skip(1) =~= s@.skip(i as int + 1));
            }
            out.push(s[i]);
            i = i + 1;
            proof {
                assert(out@ + remove_all_spec(s@.skip(i as int), pat@)
                    =~= remove_all_spec(s@, pat@));
            }
        }
    }
    proof {
        assert(s@.skip(s@.len() as int) =~= Seq::<char>::empty());
        assert(out@ =~= remove_all_spec(s@, pat@));
    }
    out
}

/// Whether the pattern occurs at position `i`.
fn starts_with_at(s: &Vec<char>, i: usize, pat: &Vec<char>) -> (r: bool)
    requires
        i <= s@.len(),
    ensures
        r == (i + pat@.len() <= s@.len() && s@.subrange(i as int, i as int + pat@.len() as int)
            == pat@),
{
    let n = s.len();
    if pat.len() > n - i {
        return false;
    }
    let mut j: usize = 0;
    while j < pat.len()
        invariant
            j <= pat@.len(),
            n == s@.len(),
            i + pat@.len() <= n,
            forall|t: int| 0 <= t < j ==> s@[i + t] == pat@[t],
        decreases pat@.len() - j,
    {
        if s[i + j] != pat[j] {
            proof {
                assert(s@.subrange(i as int, i as int + pat@.len() as int)[j as int]
                    != pat@[j as int]);
            }
            return false;
        }
        j = j + 1;
    }
    proof {
        assert(s@.subrange(i as int, i as int + pat@.len() as int) =~= pat@);
    }
    true
}

} // verus!
