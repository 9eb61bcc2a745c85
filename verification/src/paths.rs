//! Paths of Unix as text: the name of a file and its extension.

use crate::text::{chars_of, last_of, lemma_last_of, string_of};
use vstd::prelude::*;

verus! {

/// The path without what its end adds nothing: slashes, and parts that are one
/// dot.
pub open spec fn trim_tail(path: Seq<char>) -> Seq<char>
    decreases path.len(),
{
    let n = path.len();
    if n > 0 && path[n - 1] == '/' {
        trim_tail(path.take(n - 1))
    } else if n > 1 && path[n - 1] == '.' && path[n - 2] == '/' {
        trim_tail(path.take(n - 2))
    } else {
        path
    }
}

/// What follows the last slash.
pub open spec fn last_part(path: Seq<char>) -> Seq<char> {
    path.skip(last_of(path, '/') + 1)
}

/// One or two dots name a directory.
pub open spec fn is_dots(name: Seq<char>) -> bool {
    name == seq!['.'] || name == seq!['.', '.']
}

/// The name of the file that a path leads to.
pub open spec fn name_in(path: Seq<char>) -> Option<Seq<char>> {
    let name = last_part(trim_tail(path));
    if name.len() == 0 || is_dots(name) {
        None
    } else {
        Some(name)
    }
}

/// A file name has an extension: a dot that is not its first character.
pub open spec fn has_extension(name: Seq<char>) -> bool {
    last_of(name, '.') > 0
}

/// The path with an extension, where it leads to a file that has none.
pub open spec fn with_extension(path: Seq<char>, ext: Seq<char>) -> Seq<char> {
    match name_in(path) {
        None => path,
        Some(name) => if has_extension(name) {
            path
        } else {
            trim_tail(path) + seq!['.'] + ext
        },
    }
}

fn tail_end(chars: &Vec<char>) -> (r: usize)
    ensures
        r <= chars.len(),
        trim_tail(chars@) == chars@.take(r as int),
{
    let mut n: usize = chars.len();
    assert(chars@.take(n as int) =~= chars@);
    loop
        invariant
            n <= chars.len(),
            trim_tail(chars@) == trim_tail(chars@.take(n as int)),
        decreases n,
    {
        let ghost here = chars@.take(n as int);
        if n > 0 && chars[n - 1] == '/' {
            assert(here.take(n - 1) =~= chars@.take(n - 1));
            n -= 1;
        } else if n > 1 && chars[n - 1] == '.' && chars[n - 2] == '/' {
            assert(here.take(n - 2) =~= chars@.take(n - 2));
            n -= 2;
        } else {
            return n;
        }
    }
}

/// The position behind the last `d` of the first `n` characters.
fn after_last(chars: &Vec<char>, n: usize, d: char) -> (r: usize)
    requires
        n <= chars.len(),
    ensures
        r <= n,
        r == last_of(chars@.take(n as int), d) + 1,
{
    let mut i: usize = n;
    while i > 0 && chars[i - 1] != d
        invariant
            i <= n <= chars.len(),
            forall|k: int| i <= k < n ==> chars[k] != d,
        decreases i,
    {
        i -= 1;
    }
    proof {
        lemma_last_of(chars@.take(n as int), d, i - 1);
    }
    i
}

/// Where the name of the file starts and ends.
fn name_range(chars: &Vec<char>) -> (r: Option<(usize, usize)>)
    ensures
        match r {
            None => name_in(chars@) is None,
            Some((from, to)) => from < to <= chars.len() && trim_tail(chars@) == chars@.take(
                to as int,
            ) && name_in(chars@) == Some(chars@.subrange(from as int, to as int)),
        },
{
    let to: usize = tail_end(chars);
    let from: usize = after_last(chars, to, '/');
    let ghost tail = chars@.take(to as int);
    let ghost name = last_part(tail);
    assert(name =~= chars@.subrange(from as int, to as int));
    if from == to {
        return None;
    }
    if to - from == 1 && chars[from] == '.' {
        assert(name =~= seq!['.']);
        return None;
    }
    if to - from == 2 && chars[from] == '.' && chars[from + 1] == '.' {
        assert(name =~= seq!['.', '.']);
        return None;
    }
    proof {
        if is_dots(name) {
            assert(name[0] == chars@[from as int]);
            if name.len() == 2 {
                assert(name[1] == chars@[from + 1]);
            }
        }
    }
    Some((from, to))
}

/// `Path::file_name`: the name of the file that a path leads to.
pub fn file_name(path: &str) -> (r: Option<String>)
    ensures
        crate::text::opt_view(r) == name_in(path@),
{
    let chars = chars_of(path);
    match name_range(&chars) {
        None => None,
        Some((from, to)) => Some(string_of(&chars, from, to)),
    }
}

/// The path with an extension, where it leads to a file that has none.
pub fn add_extension(path: &str, ext: &str) -> (r: String)
    ensures
        r@ == with_extension(path@, ext@),
{
    let chars = chars_of(path);
    match name_range(&chars) {
        None => path.to_owned(),
        Some((from, to)) => {
            let ghost name = chars@.subrange(from as int, to as int);
            let mut i: usize = to;
            while i > from && chars[i - 1] != '.'
                invariant
                    from <= i <= to <= chars.len(),
                    forall|k: int| i <= k < to ==> chars[k] != '.',
                decreases i,
            {
                i -= 1;
            }
            proof {
                assert forall|k: int| i - from - 1 < k < name.len() implies name[k] != '.' by {
                    assert(chars@[k + from] != '.');
                }
                if i > from {
                    assert(name[i - from - 1] == '.');
                }
                lemma_last_of(name, '.', i - from - 1);
            }
            if i > from + 1 {
                path.to_owned()
            } else {
                let mut out = string_of(&chars, 0, to);
                assert(out@ =~= trim_tail(path@));
                out.push('.');
                out.append(ext);
                assert(out@ =~= trim_tail(path@) + seq!['.'] + ext@);
                out
            }
        },
    }
}

/// A path that got an extension leads to a file that has one: to add it again
/// changes nothing.
pub proof fn law_extension_is_added_once(path: Seq<char>, ext: Seq<char>)
    requires
        ext.len() > 0,
        !ext.contains('/'),
        !ext.contains('.'),
        name_in(path) is Some,
    ensures
        with_extension(with_extension(path, ext), ext) == with_extension(path, ext),
        name_in(with_extension(path, ext)) is Some,
        has_extension(name_in(with_extension(path, ext))->Some_0),
{
    let name = name_in(path)->Some_0;
    if !has_extension(name) {
        let tail = trim_tail(path);
        let out = tail + seq!['.'] + ext;
        let n = out.len() as int;
        assert(out.last() == ext.last());
        assert(ext.contains(ext.last()));
        assert(trim_tail(out) == out);
        let slash = last_of(tail, '/');
        lemma_last_of_bounds(tail, '/');
        assert forall|i: int| slash < i < out.len() implies out[i] != '/' by {
            if i < tail.len() {
                assert(tail[i] != '/');
            } else if i > tail.len() {
                assert(out[i] == ext[i - tail.len() - 1]);
                assert(ext.contains(ext[i - tail.len() - 1]));
            }
        }
        if slash >= 0 {
            assert(out[slash] == '/');
        }
        lemma_last_of(out, '/', slash);
        let got = last_part(out);
        assert(got =~= name + seq!['.'] + ext);
        assert(got.len() > 2 || got.len() == name.len() + 1 + ext.len());
        let dot = name.len() as int;
        assert forall|i: int| dot < i < got.len() implies got[i] != '.' by {
            assert(got[i] == ext[i - dot - 1]);
            assert(ext.contains(ext[i - dot - 1]));
        }
        assert(got[dot] == '.');
        lemma_last_of(got, '.', dot);
        assert(name.len() >= 1);
        assert(got.len() >= 3);
    }
}

proof fn lemma_last_of_bounds(s: Seq<char>, d: char)
    ensures
        -1 <= last_of(s, d) < s.len(),
        last_of(s, d) >= 0 ==> s[last_of(s, d)] == d,
        forall|i: int| last_of(s, d) < i < s.len() ==> s[i] != d,
    decreases s.len(),
{
    if s.len() > 0 && s.last() != d {
        lemma_last_of_bounds(s.drop_last(), d);
        assert forall|i: int| last_of(s, d) < i < s.len() implies s[i] != d by {
            if i < s.len() - 1 {
                assert(s.drop_last()[i] == s[i]);
            }
        }
    }
}

/// A path below another: with a slash between them where there is none, and
/// alone where it starts at the root or the other is empty.
pub open spec fn joined_path(base: Seq<char>, part: Seq<char>) -> Seq<char> {
    if base.len() == 0 || (part.len() > 0 && part[0] == '/') {
        part
    } else if base.last() == '/' {
        base + part
    } else {
        base.push('/') + part
    }
}

/// `Path::join`.
pub fn join_path(base: &str, part: &str) -> (r: String)
    ensures
        r@ == joined_path(base@, part@),
{
    let chars = chars_of(base);
    let more = chars_of(part);
    if chars.len() == 0 || (more.len() > 0 && more[0] == '/') {
        return part.to_owned();
    }
    let mut out = base.to_owned();
    if chars[chars.len() - 1] != '/' {
        out.push('/');
    }
    out.append(part);
    out
}

/// A name that is joined to a directory is the name of what it is joined to; an
/// absolute path stays as it is.
pub proof fn law_joined_name(base: Seq<char>, name: Seq<char>)
    requires
        name.len() > 0,
        !name.contains('/'),
        !is_dots(name),
    ensures
        name_in(joined_path(base, name)) == Some(name),
        base.len() > 0 ==> joined_path(base, name).len() > base.len() && joined_path(
            base,
            name,
        ).take(base.len() as int) == base,
        base.len() > 0 && base.last() != '/' ==> joined_path(base, name) == base + seq!['/']
            + name,
        joined_path(base, seq!['/'] + name) == seq!['/'] + name,
{
    let path = joined_path(base, name);
    let n = path.len() as int;
    assert(name[0] != '/');
    assert(path.skip(n - name.len()) =~= name);
    assert(path.last() == name.last());
    assert(name.last() != '/');
    if path.len() > 1 && path[n - 1] == '.' && path[n - 2] == '/' {
        if name.len() > 1 {
            assert(path[n - 2] == name[name.len() - 2]);
            assert(name.contains('/'));
        } else {
            assert(name =~= seq!['.']);
        }
    }
    assert(trim_tail(path) == path);
    let from = n - name.len() - 1;
    assert(-1 <= from < n);
    if from >= 0 {
        assert(path[from] == '/');
    }
    assert forall|i: int| from < i < n implies path[i] != '/' by {
        assert(path[i] == name[i - from - 1]);
    }
    lemma_last_of(path, '/', from);
    assert(path.skip(from + 1) =~= name);
    assert(base + seq!['/'] + name =~= base.push('/') + name);
    let absolute = seq!['/'] + name;
    assert(absolute[0] == '/');
}

/// A name without an extension gets the one that is asked for, behind a dot.
pub proof fn law_extension(base: Seq<char>, name: Seq<char>, ext: Seq<char>)
    requires
        name.len() > 0,
        !name.contains('/'),
        !name.contains('.'),
    ensures
        with_extension(joined_path(base, name), ext) == joined_path(base, name) + seq!['.'] + ext,
{
    assert(name[0] != '.');
    law_joined_name(base, name);
    let path = joined_path(base, name);
    let n = path.len() as int;
    assert(path.last() == name.last());
    assert(name.last() != '/' && name.last() != '.') by {
        assert(name[name.len() - 1] == name.last());
    }
    assert(trim_tail(path) == path);
    lemma_last_of_bounds(name, '.');
    if last_of(name, '.') > 0 {
        assert(name.contains(name[last_of(name, '.')]));
    }
}

} // verus!
