//! Path handling for archive candidates.
//!
//! A candidate archive is identified by a path string.  The final component
//! (the part after the last `/`, ignoring trailing separators) names the
//! archive; the part of that component after its last `.` — provided the
//! dot is not the component's first character — is the extension that
//! selects the archive backend.

use vstd::prelude::*;
use vstd::string::StrSliceExecFns;
use vstd::string::StringExecFns;

verus! {

/// `p` with its trailing `/` separators removed.
pub open spec fn trim_trailing_slashes(p: Seq<char>) -> Seq<char>
    decreases p.len(),
{
    if p.len() > 0 && p.last() == '/' {
        trim_trailing_slashes(p.drop_last())
    } else {
        p
    }
}

/// The suffix of `p` after its last `/`, or all of `p` when it holds none.
pub open spec fn after_last_slash(p: Seq<char>) -> Seq<char>
    decreases p.len(),
{
    if p.len() == 0 {
        p
    } else if p.last() == '/' {
        Seq::empty()
    } else {
        after_last_slash(p.drop_last()).push(p.last())
    }
}

/// The final component of a path: everything after the last `/`, with
/// trailing separators ignored — `dir/a.zip/` names `a.zip`.
pub open spec fn base_name(p: Seq<char>) -> Seq<char> {
    after_last_slash(trim_trailing_slashes(p))
}

/// The extension of a file name: everything after the last `.`, provided
/// that dot is not the name's first character; `None` otherwise.
pub open spec fn ext_of_name(b: Seq<char>) -> Option<Seq<char>>
    decreases b.len(),
{
    if b.len() == 0 {
        None
    } else if b.last() == '.' {
        if b.len() >= 2 {
            Some(Seq::empty())
        } else {
            None
        }
    } else {
        match ext_of_name(b.drop_last()) {
            Some(e) => Some(e.push(b.last())),
            None => None,
        }
    }
}

/// The extension of a path's final component.
pub open spec fn extension_of(p: Seq<char>) -> Option<Seq<char>> {
    ext_of_name(base_name(p))
}

/// When everything from `e` on is a `/` and `e` does not end in one,
/// trimming keeps exactly the first `e` characters.
proof fn lemma_trim_at(p: Seq<char>, e: int)
    requires
        0 <= e <= p.len(),
        forall|k: int| e <= k < p.len() ==> p[k] == '/',
        e == 0 || p[e - 1] != '/',
    ensures
        trim_trailing_slashes(p) == p.subrange(0, e),
    decreases p.len(),
{
    if e < p.len() {
        assert(p.last() == '/');
        lemma_trim_at(p.drop_last(), e);
        assert(p.drop_last().subrange(0, e) =~= p.subrange(0, e));
    } else {
        assert(p.subrange(0, e) =~= p);
    }
}

/// When `s` starts right after the last `/` of `p`, the suffix after the
/// last slash is the suffix of `p` from `s` on.
proof fn lemma_after_last_slash_at(p: Seq<char>, s: int)
    requires
        0 <= s <= p.len(),
        s == 0 || p[s - 1] == '/',
        forall|k: int| s <= k < p.len() ==> p[k] != '/',
    ensures
        after_last_slash(p) == p.subrange(s, p.len() as int),
    decreases p.len(),
{
    if s == p.len() {
        if p.len() == 0 {
            assert(p.subrange(0, 0) =~= p);
        } else {
            assert(p.last() == '/');
            assert(p.subrange(s, p.len() as int) =~= Seq::<char>::empty());
        }
    } else {
        assert(p.last() != '/');
        lemma_after_last_slash_at(p.drop_last(), s);
        assert(after_last_slash(p) == after_last_slash(p.drop_last()).push(p.last()));
        assert(p.drop_last().subrange(s, p.len() - 1).push(p.last()) =~= p.subrange(
            s,
            p.len() as int,
        ));
    }
}

/// When `d` is the index of the last `.` of `b` and `d` is not the first
/// position, the extension is the suffix after `d`.
proof fn lemma_ext_at(b: Seq<char>, d: int)
    requires
        1 <= d < b.len(),
        b[d] == '.',
        forall|k: int| d < k < b.len() ==> b[k] != '.',
    ensures
        ext_of_name(b) == Some(b.subrange(d + 1, b.len() as int)),
    decreases b.len(),
{
    if d == b.len() - 1 {
        assert(b.last() == '.');
        assert(b.subrange(d + 1, b.len() as int) =~= Seq::<char>::empty());
    } else {
        assert(b.last() != '.');
        lemma_ext_at(b.drop_last(), d);
        assert(b.drop_last().subrange(d + 1, b.len() - 1).push(b.last()) =~= b.subrange(
            d + 1,
            b.len() as int,
        ));
    }
}

/// A name with no `.` past its first character has no extension.
proof fn lemma_ext_none(b: Seq<char>)
    requires
        forall|k: int| 1 <= k < b.len() ==> b[k] != '.',
    ensures
        ext_of_name(b) is None,
    decreases b.len(),
{
    if b.len() == 0 {
    } else if b.last() == '.' {
        assert(b.len() == 1);
    } else {
        lemma_ext_none(b.drop_last());
    }
}

/// Returns the final component of `path`, as [`base_name`] describes it.
pub fn file_name_part(path: &str) -> (r: String)
    ensures
        r@ == base_name(path@),
{
    let n = path.unicode_len();
    let mut e: usize = n;
    while e > 0 && path.get_char(e - 1) == '/'
        invariant
            e <= n,
            n == path@.len(),
            forall|k: int| e <= k < n ==> path@[k] == '/',
        decreases e,
    {
        e = e - 1;
    }
    proof {
        lemma_trim_at(path@, e as int);
    }
    let ghost t = path@.subrange(0, e as int);
    let mut start: usize = 0;
    let mut i: usize = 0;
    while i < e
        invariant
            i <= e,
            e <= n,
            n == path@.len(),
            start <= i,
            start == 0 || (start >= 1 && path@[start as int - 1] == '/'),
            forall|k: int| start <= k < i ==> path@[k] != '/',
        decreases e - i,
    {
        if path.get_char(i) == '/' {
            start = i + 1;
        }
        i = i + 1;
    }
    proof {
        assert(t.len() == e as int);
        assert(forall|k: int| 0 <= k < e ==> t[k] == path@[k]);
        lemma_after_last_slash_at(t, start as int);
        assert(t.subrange(start as int, e as int) =~= path@.subrange(start as int, e as int));
    }
    String::from_str(path.substring_char(start, e))
}

/// Returns the extension of the file name `name`, as [`ext_of_name`]
/// describes it.
pub fn extension_part(name: &str) -> (r: Option<String>)
    ensures
        match r {
            Some(e) => ext_of_name(name@) == Some(e@),
            None => ext_of_name(name@) is None,
        },
{
    let n = name.unicode_len();
    let mut dot: usize = 0;
    let mut found = false;
    let mut i: usize = 1;
    while i < n
        invariant
            1 <= i,
            n == name@.len(),
            n >= 1 ==> i <= n,
            found ==> 1 <= dot < i <= n && name@[dot as int] == '.',
            found ==> forall|k: int| dot < k < i ==> name@[k] != '.',
            !found ==> forall|k: int| 1 <= k < i ==> name@[k] != '.',
        decreases n - i,
    {
        if name.get_char(i) == '.' {
            dot = i;
            found = true;
        }
        i = i + 1;
    }
    if found {
        proof {
            lemma_ext_at(name@, dot as int);
        }
        Some(String::from_str(name.substring_char(dot + 1, n)))
    } else {
        proof {
            lemma_ext_none(name@);
        }
        None
    }
}

} // verus!
