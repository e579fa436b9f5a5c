//! Joining paths as `PathBuf::push` does, on Unix and on Windows, where a
//! path may begin with one of the prefixes that `std::path::Prefix` lists.
use vstd::prelude::*;
use crate::gradle::Platform;
use crate::text::{chars_of, extend_range, join_spec, split_chars, split_spec, string_of, views_of};

verus! {

/// Whether `c` separates the parts of a path on `platform`.
pub open spec fn is_separator(c: char, platform: Platform) -> bool {
    match platform {
        Platform::Unix => c == '/',
        Platform::Windows => c == '/' || c == '\\',
    }
}

/// Whether `c` is an ASCII letter.
pub open spec fn is_ascii_letter(c: char) -> bool {
    ('a' <= c && c <= 'z') || ('A' <= c && c <= 'Z')
}

/// Whether a drive such as `C:` stands at `i` in `s`.
pub open spec fn drive_at(s: Seq<char>, i: int) -> bool {
    0 <= i && i + 1 < s.len() && is_ascii_letter(s[i]) && s[i + 1] == ':'
}

/// Whether the character at `i` in `s` is `c` when, as in reading a Windows
/// prefix, a `/` among the first eight characters counts as a `\`.
pub open spec fn prefix_char_is(s: Seq<char>, i: int, c: char) -> bool {
    0 <= i < s.len() && (if i < 8 && s[i] == '/' {
        '\\'
    } else {
        s[i]
    }) == c
}

/// Where the path component that starts at `start` in `s` ends: at the first
/// separator from there on, or at the end of `s`. In a verbatim path only
/// `\` separates.
pub open spec fn component_end(s: Seq<char>, start: int, verbatim: bool) -> int
    decreases s.len() - start,
{
    if start >= s.len() {
        s.len() as int
    } else if s[start] == '\\' || (!verbatim && s[start] == '/') {
        start
    } else {
        component_end(s, start + 1, verbatim)
    }
}

/// The Windows prefix that `s` begins with, one of the forms that
/// `std::path::Prefix` lists: `\\?\UNC\server\share`, `\\?\C:`, `\\?\name`
/// (verbatim), `\\.\device`, `\\server\share` and `C:`. Gives its length (0
/// when there is none), whether it is verbatim, and whether it is a plain drive.
pub open spec fn windows_prefix(s: Seq<char>) -> (int, bool, bool) {
    if prefix_char_is(s, 0, '\\') && prefix_char_is(s, 1, '\\') {
        if prefix_char_is(s, 2, '?') && prefix_char_is(s, 3, '\\') && s[0] == '\\' && s[1] == '\\'
            && s[3] == '\\' {
            if prefix_char_is(s, 4, 'U') && prefix_char_is(s, 5, 'N') && prefix_char_is(s, 6, 'C')
                && prefix_char_is(s, 7, '\\') {
                let e1 = component_end(s, 8, true);
                if e1 < s.len() && component_end(s, e1 + 1, true) > e1 + 1 {
                    (component_end(s, e1 + 1, true), true, false)
                } else {
                    (e1, true, false)
                }
            } else if drive_at(s, 4) && (s.len() <= 6 || s[6] == '\\') {
                (6, true, false)
            } else {
                (component_end(s, 4, true), true, false)
            }
        } else if prefix_char_is(s, 2, '.') && prefix_char_is(s, 3, '\\') {
            (component_end(s, 4, false), false, false)
        } else {
            let e1 = component_end(s, 2, false);
            if e1 > 2 && e1 < s.len() && component_end(s, e1 + 1, false) > e1 + 1 {
                (component_end(s, e1 + 1, false), false, false)
            } else {
                (0, false, false)
            }
        }
    } else if drive_at(s, 0) {
        (2, false, true)
    } else {
        (0, false, false)
    }
}

/// `s` with every `/` read as `\`.
pub open spec fn backslashed(s: Seq<char>) -> Seq<char> {
    s.map_values(|c: char| if c == '/' { '\\' } else { c })
}

/// The non-empty items of `pieces`, in order.
pub open spec fn nonempty_items(pieces: Seq<Seq<char>>) -> Seq<Seq<char>>
    decreases pieces.len(),
{
    if pieces.len() == 0 {
        Seq::empty()
    } else if pieces.last().len() == 0 {
        nonempty_items(pieces.drop_last())
    } else {
        nonempty_items(pieces.drop_last()).push(pieces.last())
    }
}

/// Whether a path component names a file or directory, rather than `.` or `..`.
pub open spec fn is_normal_item(x: Seq<char>) -> bool {
    x != seq!['.'] && x != seq!['.', '.']
}

/// The components `items` after one more component `piece`: an empty one
/// or `.` changes nothing, `..` removes the last named component, if the
/// last is one, and any other is added.
pub open spec fn apply_piece(items: Seq<Seq<char>>, piece: Seq<char>) -> Seq<Seq<char>> {
    if piece.len() == 0 || piece == seq!['.'] {
        items
    } else if piece == seq!['.', '.'] {
        if items.len() > 0 && is_normal_item(items.last()) {
            items.drop_last()
        } else {
            items
        }
    } else {
        items.push(piece)
    }
}

/// The components `items` after the components `pieces`, in order.
pub open spec fn apply_pieces(items: Seq<Seq<char>>, pieces: Seq<Seq<char>>) -> Seq<Seq<char>>
    decreases pieces.len(),
{
    if pieces.len() == 0 {
        items
    } else {
        apply_piece(apply_pieces(items, pieces.drop_last()), pieces.last())
    }
}

/// The text that follows a verbatim prefix: a `\` for the root, if there is
/// one, and the components, each after a `\`.
pub open spec fn rendered_items(rooted: bool, items: Seq<Seq<char>>) -> Seq<char> {
    if rooted || items.len() > 0 {
        seq!['\\'] + join_spec(items, '\\')
    } else {
        Seq::empty()
    }
}

/// `part` pushed onto `path`, which has a verbatim prefix: the path is
/// normalized, that is `.` and `..` in `part` are resolved against the
/// components of `path`, and a `part` that starts at the root keeps only
/// the prefix of `path`.
pub open spec fn verbatim_join(path: Seq<char>, part: Seq<char>) -> Seq<char> {
    let plen = windows_prefix(path).0;
    let rest = path.skip(plen);
    let rooted = rest.len() > 0 && rest[0] == '\\';
    let own = nonempty_items(
        split_spec(
            if rooted {
                rest.skip(1)
            } else {
                rest
            },
            '\\',
        ),
    );
    let part_rooted = part.len() > 0 && is_separator(part[0], Platform::Windows);
    let base = if part_rooted {
        Seq::empty()
    } else {
        own
    };
    path.take(plen) + rendered_items(
        rooted || part_rooted,
        apply_pieces(base, split_spec(backslashed(part), '\\')),
    )
}

/// `path` with `part` appended as `PathBuf::push` does on Windows: a `part`
/// with a prefix replaces `path`; onto a `path` with a verbatim prefix a
/// non-empty `part` is joined with `verbatim_join`; a `part` that starts at
/// the root keeps only the prefix of `path`; otherwise a `\` separates them
/// unless `path` is empty, ends in a separator or is a bare drive such as `C:`.
pub open spec fn windows_push(path: Seq<char>, part: Seq<char>) -> Seq<char> {
    let p = windows_prefix(path);
    if windows_prefix(part).0 > 0 {
        part
    } else if p.1 && part.len() > 0 {
        verbatim_join(path, part)
    } else if part.len() > 0 && is_separator(part[0], Platform::Windows) {
        path.take(p.0) + part
    } else if path.len() > 0 && !is_separator(path.last(), Platform::Windows) && !(p.2 && p.0
        == path.len()) {
        path + seq!['\\'] + part
    } else {
        path + part
    }
}

/// `path` with `part` appended as `PathBuf::push` does on `platform`. On
/// Unix an absolute `part` replaces `path`; otherwise a `/` separates them
/// unless `path` is empty or already ends in one. On Windows see `windows_push`.
pub open spec fn path_push_spec(path: Seq<char>, part: Seq<char>, platform: Platform) -> Seq<char> {
    match platform {
        Platform::Unix => if part.len() > 0 && part[0] == '/' {
            part
        } else if path.len() > 0 && path.last() != '/' {
            path + seq!['/'] + part
        } else {
            path + part
        },
        Platform::Windows => windows_push(path, part),
    }
}


fn separates(c: char, platform: Platform) -> (r: bool)
    ensures
        r == is_separator(c, platform),
{
    match platform {
        Platform::Unix => c == '/',
        Platform::Windows => c == '/' || c == '\\',
    }
}

fn drive_at_exec(s: &Vec<char>, i: usize) -> (r: bool)
    ensures
        r == drive_at(s@, i as int),
{
    i < s.len() && s.len() - i > 1 && (('a' <= s[i] && s[i] <= 'z') || ('A' <= s[i] && s[i] <= 'Z'))
        && s[i + 1] == ':'
}

fn prefix_char_is_exec(s: &Vec<char>, i: usize, c: char) -> (r: bool)
    ensures
        r == prefix_char_is(s@, i as int, c),
{
    if i >= s.len() {
        return false;
    }
    let d = if i < 8 && s[i] == '/' {
        '\\'
    } else {
        s[i]
    };
    d == c
}

fn component_end_exec(s: &Vec<char>, start: usize, verbatim: bool) -> (r: usize)
    requires
        start <= s.len(),
    ensures
        r == component_end(s@, start as int, verbatim),
        start <= r <= s.len(),
{
    let mut i: usize = start;
    while i < s.len() && !(s[i] == '\\' || (!verbatim && s[i] == '/'))
        invariant
            start <= i <= s.len(),
            component_end(s@, start as int, verbatim) == component_end(s@, i as int, verbatim),
        decreases s.len() - i,
    {
        i += 1;
    }
    i
}

fn windows_prefix_exec(s: &Vec<char>) -> (r: (usize, bool, bool))
    ensures
        r.0 == windows_prefix(s@).0,
        r.1 == windows_prefix(s@).1,
        r.2 == windows_prefix(s@).2,
        r.0 <= s.len(),
{
    if prefix_char_is_exec(s, 0, '\\') && prefix_char_is_exec(s, 1, '\\') {
        if prefix_char_is_exec(s, 2, '?') && prefix_char_is_exec(s, 3, '\\') && s[0] == '\\' && s[1]
            == '\\' && s[3] == '\\' {
            if prefix_char_is_exec(s, 4, 'U') && prefix_char_is_exec(s, 5, 'N') && prefix_char_is_exec(
                s,
                6,
                'C',
            ) && prefix_char_is_exec(s, 7, '\\') {
                let e1 = component_end_exec(s, 8, true);
                if e1 < s.len() {
                    let e2 = component_end_exec(s, e1 + 1, true);
                    if e2 > e1 + 1 {
                        return (e2, true, false);
                    }
                }
                (e1, true, false)
            } else if drive_at_exec(s, 4) && (s.len() <= 6 || s[6] == '\\') {
                (6, true, false)
            } else {
                (component_end_exec(s, 4, true), true, false)
            }
        } else if prefix_char_is_exec(s, 2, '.') && prefix_char_is_exec(s, 3, '\\') {
            (component_end_exec(s, 4, false), false, false)
        } else {
            let e1 = component_end_exec(s, 2, false);
            if e1 > 2 && e1 < s.len() {
                let e2 = component_end_exec(s, e1 + 1, false);
                if e2 > e1 + 1 {
                    return (e2, false, false);
                }
            }
            (0, false, false)
        }
    } else if drive_at_exec(s, 0) {
        (2, false, true)
    } else {
        (0, false, false)
    }
}

fn is_dot_item(x: &Vec<char>, dots: usize) -> (r: bool)
    requires
        dots == 1 || dots == 2,
    ensures
        dots == 1 ==> r == (x@ == seq!['.']),
        dots == 2 ==> r == (x@ == seq!['.', '.']),
{
    if x.len() != dots {
        return false;
    }
    let r = x[0] == '.' && (dots == 1 || x[1] == '.');
    proof {
        if r {
            if dots == 1 {
                assert(x@ =~= seq!['.']);
            } else {
                assert(x@ =~= seq!['.', '.']);
            }
        }
    }
    r
}

fn nonempty_items_exec(pieces: &Vec<Vec<char>>) -> (r: Vec<Vec<char>>)
    ensures
        views_of(r@) == nonempty_items(views_of(pieces@)),
{
    let ghost all = views_of(pieces@);
    let mut out: Vec<Vec<char>> = Vec::new();
    let mut i: usize = 0;
    while i < pieces.len()
        invariant
            i <= pieces.len(),
            all == views_of(pieces@),
            views_of(out@) == nonempty_items(all.take(i as int)),
        decreases pieces.len() - i,
    {
        assert(all.take(i + 1).drop_last() =~= all.take(i as int));
        assert(all.take(i + 1).last() == pieces@[i as int]@);
        if pieces[i].len() > 0 {
            let ghost before = out@;
            out.push(pieces[i].clone());
            assert(views_of(out@) =~= views_of(before).push(pieces@[i as int]@));
        }
        i += 1;
    }
    assert(all.take(pieces.len() as int) =~= all);
    out
}

fn apply_pieces_exec(items: &mut Vec<Vec<char>>, pieces: &Vec<Vec<char>>)
    ensures
        views_of(final(items)@) == apply_pieces(views_of(old(items)@), views_of(pieces@)),
{
    let ghost start = views_of(items@);
    let ghost all = views_of(pieces@);
    let mut i: usize = 0;
    while i < pieces.len()
        invariant
            i <= pieces.len(),
            all == views_of(pieces@),
            views_of(items@) == apply_pieces(start, all.take(i as int)),
        decreases pieces.len() - i,
    {
        assert(all.take(i + 1).drop_last() =~= all.take(i as int));
        assert(all.take(i + 1).last() == pieces@[i as int]@);
        let piece = &pieces[i];
        let ghost before = views_of(items@);
        if piece.len() == 0 || is_dot_item(piece, 1) {
        } else if is_dot_item(piece, 2) {
            let n = items.len();
            if n > 0 {
                let normal = !is_dot_item(&items[n - 1], 1) && !is_dot_item(&items[n - 1], 2);
                assert(before.last() == items@[n - 1]@);
                if normal {
                    items.pop();
                    assert(views_of(items@) =~= before.drop_last());
                }
            }
        } else {
            items.push(piece.clone());
            assert(views_of(items@) =~= before.push(piece@));
        }
        i += 1;
    }
    assert(all.take(pieces.len() as int) =~= all);
}

fn push_joined(out: &mut Vec<char>, items: &Vec<Vec<char>>)
    ensures
        final(out)@ == old(out)@ + join_spec(views_of(items@), '\\'),
{
    let ghost all = views_of(items@);
    let mut k: usize = 0;
    assert(all.take(0) =~= Seq::<Seq<char>>::empty());
    while k < items.len()
        invariant
            k <= items.len(),
            all == views_of(items@),
            out@ == old(out)@ + join_spec(all.take(k as int), '\\'),
        decreases items.len() - k,
    {
        let ghost before = out@;
        if k > 0 {
            out.push('\\');
        }
        let x = &items[k];
        extend_range(out, x, 0, x.len());
        assert(x@.subrange(0, x.len() as int) =~= x@);
        assert(all[k as int] == x@);
        if k == 0 {
            assert(all.take(1) =~= seq![x@]);
            assert(out@ =~= old(out)@ + join_spec(all.take(1), '\\'));
        } else {
            assert(all.take(k + 1).drop_last() =~= all.take(k as int));
            assert(all.take(k + 1).last() == x@);
            assert(out@ =~= old(out)@ + join_spec(all.take(k + 1), '\\'));
        }
        k += 1;
    }
    assert(all.take(items.len() as int) =~= all);
}

fn backslashed_exec(s: &Vec<char>) -> (r: Vec<char>)
    ensures
        r@ == backslashed(s@),
{
    let mut out: Vec<char> = Vec::new();
    let mut i: usize = 0;
    while i < s.len()
        invariant
            i <= s.len(),
            out@ =~= backslashed(s@.take(i as int)),
        decreases s.len() - i,
    {
        let c = if s[i] == '/' {
            '\\'
        } else {
            s[i]
        };
        out.push(c);
        assert(backslashed(s@.take(i + 1)) =~= backslashed(s@.take(i as int)).push(c));
        i += 1;
    }
    assert(s@.take(s.len() as int) =~= s@);
    out
}

fn verbatim_join_exec(p: &Vec<char>, a: &Vec<char>, plen: usize) -> (r: Vec<char>)
    requires
        plen == windows_prefix(p@).0,
        plen <= p.len(),
    ensures
        r@ == verbatim_join(p@, a@),
{
    let mut rest: Vec<char> = Vec::new();
    extend_range(&mut rest, p, plen, p.len());
    assert(rest@ =~= p@.skip(plen as int));
    let rooted = rest.len() > 0 && rest[0] == '\\';
    let mut body: Vec<char> = Vec::new();
    if rooted {
        extend_range(&mut body, &rest, 1, rest.len());
        assert(body@ =~= rest@.skip(1));
    } else {
        extend_range(&mut body, &rest, 0, rest.len());
        assert(body@ =~= rest@);
    }
    let own = nonempty_items_exec(&split_chars(&body, '\\'));
    let part_rooted = a.len() > 0 && separates(a[0], Platform::Windows);
    let mut items: Vec<Vec<char>> = if part_rooted {
        Vec::new()
    } else {
        own
    };
    assert(part_rooted ==> views_of(items@) =~= Seq::<Seq<char>>::empty());
    apply_pieces_exec(&mut items, &split_chars(&backslashed_exec(a), '\\'));
    let mut out: Vec<char> = Vec::new();
    extend_range(&mut out, p, 0, plen);
    assert(out@ =~= p@.take(plen as int));
    if rooted || part_rooted || items.len() > 0 {
        out.push('\\');
        push_joined(&mut out, &items);
        assert(out@ =~= p@.take(plen as int) + (seq!['\\'] + join_spec(views_of(items@), '\\')));
    } else {
        assert(out@ =~= p@.take(plen as int) + Seq::<char>::empty());
    }
    out
}

/// Appends `app` to `path` as `PathBuf::push` does on `platform`, and hands
/// back a copy of the new path.
pub fn push_self(path: &mut String, app: &str, platform: Platform) -> (r: String)
    ensures
        final(path)@ == path_push_spec(old(path)@, app@, platform),
        r@ == final(path)@,
{
    let p = chars_of(path);
    let a = chars_of(app);
    let mut out: Vec<char> = Vec::new();
    match platform {
        Platform::Unix => {
            if a.len() > 0 && a[0] == '/' {
                extend_range(&mut out, &a, 0, a.len());
            } else {
                extend_range(&mut out, &p, 0, p.len());
                if p.len() > 0 && p[p.len() - 1] != '/' {
                    out.push('/');
                }
                extend_range(&mut out, &a, 0, a.len());
            }
        },
        Platform::Windows => {
            let pp = windows_prefix_exec(&p);
            let ap = windows_prefix_exec(&a);
            if ap.0 > 0 {
                extend_range(&mut out, &a, 0, a.len());
            } else if pp.1 && a.len() > 0 {
                out = verbatim_join_exec(&p, &a, pp.0);
            } else if a.len() > 0 && separates(a[0], platform) {
                extend_range(&mut out, &p, 0, pp.0);
                extend_range(&mut out, &a, 0, a.len());
                assert(p@.subrange(0, pp.0 as int) =~= p@.take(pp.0 as int));
            } else {
                extend_range(&mut out, &p, 0, p.len());
                if p.len() > 0 && !separates(p[p.len() - 1], platform) && !(pp.2 && pp.0 == p.len()) {
                    out.push('\\');
                }
                extend_range(&mut out, &a, 0, a.len());
            }
        },
    }
    assert(a@.subrange(0, a.len() as int) =~= a@);
    assert(p@.subrange(0, p.len() as int) =~= p@);
    assert(out@ =~= path_push_spec(p@, a@, platform));
    *path = string_of(&out);
    string_of(&out)
}

} // verus!
