//! Remote path normalisation and the small text rules of the command executor.
use vstd::prelude::*;
use crate::text::{
    append_chars, chars_of, copy_str, is_blank, is_blank_str, push_char, string_of, trim, trim_chars,
    trim_str,
};

verus! {

/// `s` with every backslash turned into a slash.
pub open spec fn slashes_forward(s: Seq<char>) -> Seq<char> {
    s.map_values(|c: char| if c == '\\' { '/' } else { c })
}

/// `s` with every run of slashes shortened to one slash.
pub open spec fn collapse_slashes(s: Seq<char>) -> Seq<char>
    decreases s.len(),
{
    if s.len() == 0 {
        s
    } else if s.len() >= 2 && s.last() == '/' && s[s.len() - 2] == '/' {
        collapse_slashes(s.drop_last())
    } else {
        collapse_slashes(s.drop_last()).push(s.last())
    }
}

/// `s` with every leading `c` removed.
pub open spec fn strip_leading(s: Seq<char>, c: char) -> Seq<char>
    decreases s.len(),
{
    if s.len() > 0 && s[0] == c {
        strip_leading(s.drop_first(), c)
    } else {
        s
    }
}

/// `s` with every trailing `c` removed.
pub open spec fn strip_trailing(s: Seq<char>, c: char) -> Seq<char>
    decreases s.len(),
{
    if s.len() > 0 && s.last() == c {
        strip_trailing(s.drop_last(), c)
    } else {
        s
    }
}

/// The absolute form of a remote path: backslashes converted, runs of slashes
/// collapsed, a leading slash ensured and a trailing slash removed (but from the root).
pub open spec fn normalized_path(value: Seq<char>) -> Seq<char> {
    let t = collapse_slashes(slashes_forward(trim(value)));
    if t.len() == 0 {
        seq!['/']
    } else {
        let rooted = if t[0] == '/' {
            t
        } else {
            seq!['/'] + t
        };
        if rooted.len() > 1 && rooted.last() == '/' {
            rooted.drop_last()
        } else {
            rooted
        }
    }
}

/// A working directory as printed by the remote `pwd`, made absolute.
pub open spec fn sanitized_cwd(value: Seq<char>) -> Seq<char> {
    if is_blank(value) {
        seq!['/']
    } else {
        normalized_path(trim(value))
    }
}

/// `name` placed under the directory `base`.
pub open spec fn joined_path(base: Seq<char>, name: Seq<char>) -> Seq<char> {
    let b = normalized_path(base);
    if b == seq!['/'] {
        seq!['/'] + name
    } else {
        strip_trailing(b, '/') + seq!['/'] + strip_leading(name, '/')
    }
}

/// The characters after the last slash of `s` (all of `s` when it has none).
pub open spec fn last_segment(s: Seq<char>) -> Seq<char>
    decreases s.len(),
{
    if s.len() == 0 || s.last() == '/' {
        Seq::empty()
    } else {
        last_segment(s.drop_last()).push(s.last())
    }
}

/// The last non-empty segment of a path, if any.
pub open spec fn entry_name(raw: Seq<char>) -> Option<Seq<char>> {
    let u = strip_trailing(slashes_forward(raw), '/');
    if u.len() == 0 {
        None
    } else {
        Some(last_segment(u))
    }
}

/// A `cd` command: `Some(None)` for a bare `cd`, `Some(Some(target))` for `cd <target>`.
pub open spec fn cd_target(command: Seq<char>) -> Option<Option<Seq<char>>> {
    let t = trim(command);
    if t == seq!['c', 'd'] {
        Some(None)
    } else if t.len() >= 3 && t.take(3) == seq!['c', 'd', ' '] {
        Some(Some(trim(t.skip(3))))
    } else {
        None
    }
}

/// The body of a single-quoted shell word: each quote becomes `'"'"'`.
pub open spec fn quote_escaped(s: Seq<char>) -> Seq<char>
    decreases s.len(),
{
    if s.len() == 0 {
        s
    } else if s.last() == '\'' {
        quote_escaped(s.drop_last()) + seq!['\'', '"', '\'', '"', '\'']
    } else {
        quote_escaped(s.drop_last()).push(s.last())
    }
}

/// `s` as one single-quoted shell word.
pub open spec fn shell_quoted(s: Seq<char>) -> Seq<char> {
    seq!['\''] + quote_escaped(s) + seq!['\'']
}

/// Standard output and error joined by a newline, leaving out a blank one.
pub open spec fn stdout_stderr(stdout: Seq<char>, stderr: Seq<char>) -> Seq<char> {
    if !is_blank(stdout) && !is_blank(stderr) {
        stdout + seq!['\n'] + stderr
    } else if !is_blank(stdout) {
        stdout
    } else if !is_blank(stderr) {
        stderr
    } else {
        Seq::empty()
    }
}

fn forward_slashes(v: &[char]) -> (r: Vec<char>)
    ensures
        r@ == slashes_forward(v@),
{
    let mut out: Vec<char> = Vec::new();
    let mut i: usize = 0;
    while i < v.len()
        invariant
            i <= v@.len(),
            out@ == slashes_forward(v@.take(i as int)),
        decreases v@.len() - i,
    {
        let c = v[i];
        out.push(if c == '\\' { '/' } else { c });
        i = i + 1;
        assert(out@ =~= slashes_forward(v@.take(i as int)));
    }
    assert(v@.take(i as int) =~= v@);
    out
}

fn collapse(v: &[char]) -> (r: Vec<char>)
    ensures
        r@ == collapse_slashes(v@),
{
    let mut out: Vec<char> = Vec::new();
    let mut i: usize = 0;
    assert(v@.take(0) =~= Seq::<char>::empty());
    while i < v.len()
        invariant
            i <= v@.len(),
            out@ == collapse_slashes(v@.take(i as int)),
        decreases v@.len() - i,
    {
        let ghost prev = v@.take(i as int);
        let ghost next = v@.take(i + 1);
        assert(next.drop_last() =~= prev);
        if !(i > 0 && v[i] == '/' && v[i - 1] == '/') {
            out.push(v[i]);
        }
        i = i + 1;
    }
    assert(v@.take(i as int) =~= v@);
    out
}

fn drop_trailing(v: &[char], c: char) -> (r: Vec<char>)
    ensures
        r@ == strip_trailing(v@, c),
{
    let mut j: usize = v.len();
    assert(v@.take(j as int) =~= v@);
    while j > 0 && v[j - 1] == c
        invariant
            j <= v@.len(),
            strip_trailing(v@, c) == strip_trailing(v@.take(j as int), c),
        decreases j,
    {
        assert(v@.take(j as int).drop_last() =~= v@.take(j - 1));
        j = j - 1;
    }
    slice_range(v, 0, j)
}

fn drop_leading(v: &[char], c: char) -> (r: Vec<char>)
    ensures
        r@ == strip_leading(v@, c),
{
    let n = v.len();
    let mut i: usize = 0;
    assert(v@.skip(0) =~= v@);
    while i < n && v[i] == c
        invariant
            i <= n,
            n == v@.len(),
            strip_leading(v@, c) == strip_leading(v@.skip(i as int), c),
        decreases n - i,
    {
        assert(v@.skip(i as int).drop_first() =~= v@.skip(i + 1));
        i = i + 1;
    }
    slice_range(v, i, n)
}

/// The characters of `v` from `from` up to `to`.
pub fn slice_range(v: &[char], from: usize, to: usize) -> (r: Vec<char>)
    requires
        from <= to <= v@.len(),
    ensures
        r@ == v@.subrange(from as int, to as int),
{
    let mut out: Vec<char> = Vec::new();
    let mut k: usize = from;
    while k < to
        invariant
            from <= k <= to <= v@.len(),
            out@ == v@.subrange(from as int, k as int),
        decreases to - k,
    {
        out.push(v[k]);
        k = k + 1;
        assert(out@ =~= v@.subrange(from as int, k as int));
    }
    out
}

/// The absolute form of a remote path (see `normalized_path`).
pub fn normalize_remote_path(value: &str) -> (r: String)
    ensures
        r@ == normalized_path(value@),
{
    let chars = chars_of(value);
    let trimmed = trim_chars(chars.as_slice());
    let forward = forward_slashes(trimmed.as_slice());
    let t = collapse(forward.as_slice());
    if t.len() == 0 {
        let mut out = String::new();
        push_char(&mut out, '/');
        assert(out@ =~= seq!['/']);
        return out;
    }
    let mut rooted: Vec<char> = Vec::new();
    if t[0] != '/' {
        rooted.push('/');
    }
    let mut i: usize = 0;
    let ghost start = rooted@;
    while i < t.len()
        invariant
            i <= t@.len(),
            rooted@ == start + t@.take(i as int),
        decreases t@.len() - i,
    {
        rooted.push(t[i]);
        i = i + 1;
        assert(rooted@ =~= start + t@.take(i as int));
    }
    assert(t@.take(i as int) =~= t@);
    assert(t@[0] != '/' ==> rooted@ =~= seq!['/'] + t@);
    assert(t@[0] == '/' ==> rooted@ =~= t@);
    if rooted.len() > 1 && rooted[rooted.len() - 1] == '/' {
        rooted.pop();
    }
    string_of(rooted.as_slice())
}

/// A working directory as printed by the remote `pwd`, made absolute.
pub fn sanitize_cwd(value: &str) -> (r: String)
    ensures
        r@ == sanitized_cwd(value@),
{
    if is_blank_str(value) {
        let mut out = String::new();
        push_char(&mut out, '/');
        assert(out@ =~= seq!['/']);
        out
    } else {
        let t = trim_str(value);
        normalize_remote_path(t.as_str())
    }
}

/// `name` placed under the directory `base`.
pub fn join_remote_path(base: &str, name: &str) -> (r: String)
    ensures
        r@ == joined_path(base@, name@),
{
    let b = normalize_remote_path(base);
    let bc = chars_of(b.as_str());
    let nc = chars_of(name);
    let mut out: Vec<char> = Vec::new();
    if bc.len() == 1 && bc[0] == '/' {
        assert(b@ =~= seq!['/']);
        out.push('/');
        let mut res = string_of(out.as_slice());
        append_chars(&mut res, nc.as_slice());
        assert(res@ =~= seq!['/'] + name@);
        res
    } else {
        assert(b@ != seq!['/']);
        let head = drop_trailing(bc.as_slice(), '/');
        let tail = drop_leading(nc.as_slice(), '/');
        let mut res = string_of(head.as_slice());
        push_char(&mut res, '/');
        append_chars(&mut res, tail.as_slice());
        res
    }
}

/// The last non-empty segment of a path, if any.
pub fn extract_entry_name(raw_path: &str) -> (r: Option<String>)
    ensures
        r matches Some(name) ==> entry_name(raw_path@) == Some(name@),
        r is None ==> entry_name(raw_path@) is None,
{
    let chars = chars_of(raw_path);
    let forward = forward_slashes(chars.as_slice());
    let u = drop_trailing(forward.as_slice(), '/');
    if u.len() == 0 {
        return None;
    }
    let mut k: usize = u.len();
    assert(u@.subrange(k as int, u@.len() as int) =~= Seq::<char>::empty());
    assert(u@.take(k as int) =~= u@);
    assert(last_segment(u@) + Seq::<char>::empty() =~= last_segment(u@));
    while k > 0 && u[k - 1] != '/'
        invariant
            k <= u@.len(),
            last_segment(u@) == last_segment(u@.take(k as int)) + u@.subrange(
                k as int,
                u@.len() as int,
            ),
        decreases k,
    {
        let ghost p = u@.take(k as int);
        assert(p.drop_last() =~= u@.take(k - 1));
        assert(u@.subrange(k - 1, u@.len() as int) =~= seq![p.last()] + u@.subrange(
            k as int,
            u@.len() as int,
        ));
        k = k - 1;
    }
    assert(k == 0 ==> u@.take(0) =~= Seq::<char>::empty());
    let seg = slice_range(u.as_slice(), k, u.len());
    Some(string_of(seg.as_slice()))
}

/// Recognises `cd` and `cd <target>`; the target is trimmed.
pub fn parse_cd_target(command: &str) -> (r: Option<Option<String>>)
    ensures
        r is None <==> cd_target(command@) is None,
        r == Some(None::<String>) <==> cd_target(command@) == Some(None::<Seq<char>>),
        r matches Some(Some(t)) ==> cd_target(command@) == Some(Some(t@)),
{
    let chars = chars_of(command);
    let t = trim_chars(chars.as_slice());
    if t.len() == 2 && t[0] == 'c' && t[1] == 'd' {
        assert(t@ =~= seq!['c', 'd']);
        return Some(None);
    }
    assert(t@ != seq!['c', 'd']);
    if t.len() >= 3 && t[0] == 'c' && t[1] == 'd' && t[2] == ' ' {
        assert(t@.take(3) =~= seq!['c', 'd', ' ']);
        let rest = slice_range(t.as_slice(), 3, t.len());
        assert(rest@ =~= t@.skip(3));
        let target = trim_chars(rest.as_slice());
        return Some(Some(string_of(target.as_slice())));
    }
    assert(!(t@.len() >= 3 && t@.take(3) == seq!['c', 'd', ' '])) by {
        if t@.len() >= 3 && t@.take(3) == seq!['c', 'd', ' '] {
            assert(t@[0] == t@.take(3)[0]);
            assert(t@[1] == t@.take(3)[1]);
            assert(t@[2] == t@.take(3)[2]);
        }
    }
    None
}

/// `value` as one single-quoted shell word.
pub fn shell_quote(value: &str) -> (r: String)
    ensures
        r@ == shell_quoted(value@),
{
    let v = chars_of(value);
    let mut out = String::new();
    push_char(&mut out, '\'');
    let mut i: usize = 0;
    while i < v.len()
        invariant
            i <= v@.len(),
            out@ == seq!['\''] + quote_escaped(v@.take(i as int)),
        decreases v@.len() - i,
    {
        let ghost p = v@.take(i + 1);
        assert(p.drop_last() =~= v@.take(i as int));
        if v[i] == '\'' {
            push_char(&mut out, '\'');
            push_char(&mut out, '"');
            push_char(&mut out, '\'');
            push_char(&mut out, '"');
            push_char(&mut out, '\'');
        } else {
            push_char(&mut out, v[i]);
        }
        i = i + 1;
        assert(out@ =~= seq!['\''] + quote_escaped(v@.take(i as int)));
    }
    assert(v@.take(i as int) =~= v@);
    push_char(&mut out, '\'');
    out
}

/// Standard output and error as one text (see `stdout_stderr`).
pub fn format_stdout_stderr(stdout: &str, stderr: &str) -> (r: String)
    ensures
        r@ == stdout_stderr(stdout@, stderr@),
{
    let out_blank = is_blank_str(stdout);
    let err_blank = is_blank_str(stderr);
    if !out_blank && !err_blank {
        let mut r = copy_str(stdout);
        push_char(&mut r, '\n');
        let e = chars_of(stderr);
        append_chars(&mut r, e.as_slice());
        r
    } else if !out_blank {
        copy_str(stdout)
    } else if !err_blank {
        copy_str(stderr)
    } else {
        String::new()
    }
}

} // verus!
