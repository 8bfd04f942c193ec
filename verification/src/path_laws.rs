//! What the reading of paths is for: where a path starts, which directories it passes
//! and what lies below what.

use vstd::prelude::*;

use crate::paths::{
    absolute, after_part, begins_with_drive, below, body_pieces, capital, clean_name, climbs,
    components, drive_token, last_name, lead, led_on, lemma_names_below, lies_below, name_at, names,
    names_up_to, part, prefix_of, separates, unified, PathStyle, PrefixKind,
};
use crate::sort::{ranked, Ranked};
use crate::text::{has_prefix, joined, pieces};

verus! {

broadcast use vstd::string::group_string_axioms;

// ---------------------------------------------------------------------------
// Where paths start
// ---------------------------------------------------------------------------

/// A path of a Unix system is absolute just where it begins with a slash, and has no
/// drive.
pub proof fn lemma_unix_paths(path: Seq<char>)
    ensures
        absolute(PathStyle::Posix, path) <==> path.len() > 0 && path[0] == '/',
        prefix_of(PathStyle::Posix, path) is None,
        separates(PathStyle::Posix, '/'),
        !separates(PathStyle::Posix, '\\'),
        separates(PathStyle::Windows, '/'),
        separates(PathStyle::Windows, '\\'),
{
}

/// A path of Windows with a drive is absolute just where a separator follows the
/// drive; without a drive or a server it is not.
pub proof fn lemma_drives(letter: char, rest: Seq<char>)
    requires
        'a' <= letter <= 'z' || 'A' <= letter <= 'Z',
    ensures
        ({
            let path = seq![letter, ':'] + rest;
            &&& prefix_of(PathStyle::Windows, path) matches Some(p) && p.kind == PrefixKind::Disk
                && p.len == 2
            &&& absolute(PathStyle::Windows, path) <==> rest.len() > 0 && (rest[0] == '/' || rest[0]
                == '\\')
        }),
{
    let path = seq![letter, ':'] + rest;
    reveal_strlit("\\\\?\\");
    reveal_strlit("\\\\.\\");
    reveal_strlit("\\\\");
    assert(path[0] == letter && path[1] == ':');
    if has_prefix(path, "\\\\?\\"@) {
        assert(path.subrange(0, "\\\\?\\"@.len() as int)[0] == '\\');
    }
    let u = unified(path);
    assert(u[0] == letter);
    if has_prefix(u, "\\\\.\\"@) {
        assert(u.subrange(0, "\\\\.\\"@.len() as int)[0] == '\\');
    }
    if has_prefix(u, "\\\\"@) {
        assert(u.subrange(0, "\\\\"@.len() as int)[0] == '\\');
    }
    assert(begins_with_drive(path));
    if rest.len() > 0 {
        assert(path[2] == rest[0]);
    }
}

/// A drive is the same whatever the case of its letter.
pub proof fn lemma_letters_of_drives()
    ensures
        capital('c') == 'C',
        capital('z') == 'Z',
        capital('C') == 'C',
        drive_token('c') == drive_token('C'),
        drive_token('c') != drive_token('d'),
{
    assert(drive_token('c')[0] == 'C');
    assert(drive_token('d')[0] == 'D');
}

/// A path without a drive, a server and a separator at its start is relative.
pub proof fn lemma_relative_paths(path: Seq<char>)
    requires
        path.len() > 0,
        path[0] != '/',
        path[0] != '\\',
        path.len() < 2 || path[1] != ':',
    ensures
        !absolute(PathStyle::Windows, path),
        !absolute(PathStyle::Posix, path),
        prefix_of(PathStyle::Windows, path) is None,
{
    reveal_strlit("\\\\?\\");
    reveal_strlit("\\\\.\\");
    reveal_strlit("\\\\");
    if has_prefix(path, "\\\\?\\"@) {
        assert(path.subrange(0, "\\\\?\\"@.len() as int)[0] == '\\');
    }
    let u = unified(path);
    assert(u[0] == path[0]);
    if has_prefix(u, "\\\\.\\"@) {
        assert(u.subrange(0, "\\\\.\\"@.len() as int)[0] == '\\');
    }
    if has_prefix(u, "\\\\"@) {
        assert(u.subrange(0, "\\\\"@.len() as int)[0] == '\\');
    }
}

// ---------------------------------------------------------------------------
// What paths pass
// ---------------------------------------------------------------------------

proof fn lemma_piece_is_name(style: PathStyle, path: Seq<char>, n: int, i: int)
    requires
        0 <= i < n <= body_pieces(style, path).len(),
        name_at(style, path, i) is Some,
    ensures
        names_up_to(style, path, n).contains(name_at(style, path, i)->Some_0),
    decreases n,
{
    let before = names_up_to(style, path, n - 1);
    let all = names_up_to(style, path, n);
    let c = name_at(style, path, i)->Some_0;
    if i < n - 1 {
        lemma_piece_is_name(style, path, n - 1, i);
        let q = choose|q: int| 0 <= q < before.len() && before[q] == c;
        assert(all[q] == c);
    } else {
        assert(all.last() == c);
    }
}

proof fn lemma_name_is_piece(style: PathStyle, path: Seq<char>, n: int, c: Seq<char>)
    requires
        0 <= n <= body_pieces(style, path).len(),
        names_up_to(style, path, n).contains(c),
    ensures
        exists|i: int| 0 <= i < n && #[trigger] name_at(style, path, i) == Some(c),
    decreases n,
{
    if n > 0 {
        let before = names_up_to(style, path, n - 1);
        let all = names_up_to(style, path, n);
        let q = choose|q: int| 0 <= q < all.len() && all[q] == c;
        if q < before.len() {
            assert(before[q] == c);
            lemma_name_is_piece(style, path, n - 1, c);
        } else {
            assert(name_at(style, path, n - 1) == Some(c));
        }
    }
}

/// A path climbs just where one of its parts is the parent.
pub proof fn lemma_paths_that_climb(style: PathStyle, path: Seq<char>)
    ensures
        climbs(style, path) <==> exists|i: int|
            0 <= i < body_pieces(style, path).len() && #[trigger] body_pieces(style, path)[i]
                == ".."@,
{
    reveal_strlit("..");
    reveal_strlit(".");
    assert(".."@.len() == 2 && "."@.len() == 1);
    let n = body_pieces(style, path).len() as int;
    if exists|i: int| 0 <= i < n && #[trigger] body_pieces(style, path)[i] == ".."@ {
        let i = choose|i: int| 0 <= i < n && #[trigger] body_pieces(style, path)[i] == ".."@;
        assert(name_at(style, path, i) == Some(".."@));
        lemma_piece_is_name(style, path, n, i);
    }
    if climbs(style, path) {
        lemma_name_is_piece(style, path, n, ".."@);
        let i = choose|i: int| 0 <= i < n && #[trigger] name_at(style, path, i) == Some(".."@);
        assert(body_pieces(style, path)[i] == ".."@);
    }
}

/// The parts of a Unix path are what stands between its slashes.
pub proof fn lemma_parts_of_unix_paths(path: Seq<char>)
    requires
        path.len() > 0,
        path[0] == '/',
    ensures
        body_pieces(PathStyle::Posix, path) == pieces(path.drop_first(), '/'),
        components(PathStyle::Posix, path).len() > 0,
        components(PathStyle::Posix, path)[0] == "/"@,
{
    assert(path.skip(1) =~= path.drop_first());
    assert(components(PathStyle::Posix, path)[0] == "/"@) by {
        assert(lead(PathStyle::Posix, path) =~= seq!["/"@]);
    }
}

/// Empty parts and the directory itself are passed over, and every other part is a
/// name.
pub proof fn lemma_parts_that_are_names(path: Seq<char>, i: int)
    requires
        path.len() > 0,
        path[0] == '/',
        0 <= i < body_pieces(PathStyle::Posix, path).len(),
    ensures
        ({
            let p = body_pieces(PathStyle::Posix, path)[i];
            &&& p.len() == 0 || p == "."@ ==> name_at(PathStyle::Posix, path, i) is None
            &&& p.len() > 0 && p != "."@ ==> name_at(PathStyle::Posix, path, i) == Some(p)
        }),
{
}

/// A name in a directory lies below it, and below everything that the directory lies
/// below.
pub proof fn lemma_names_lie_below(base: Seq<char>, n: Seq<char>, root: Seq<char>)
    requires
        base.len() > 0,
        base[0] == '/',
        clean_name(n),
    ensures
        lies_below(PathStyle::Posix, below(PathStyle::Posix, base, n), base),
        lies_below(PathStyle::Posix, base, root) ==> lies_below(
            PathStyle::Posix,
            below(PathStyle::Posix, base, n),
            root,
        ),
        !lies_below(PathStyle::Posix, base, below(PathStyle::Posix, base, n)),
{
    let s = PathStyle::Posix;
    let p = below(s, base, n);
    lemma_names_below(s, base, n);
    reveal_strlit("/");
    assert(n[0] != '/');
    assert(!absolute(s, n));
    assert(p[0] == '/');
    assert(lead(s, p) =~= seq!["/"@]);
    assert(lead(s, base) =~= seq!["/"@]);
    assert(components(s, p) =~= components(s, base).push(n));
    assert(components(s, p).take(components(s, base).len() as int) =~= components(s, base));
    if lies_below(s, base, root) {
        crate::paths::lemma_lies_below_transitive(s, p, base, root);
    }
}

/// A path lies below another just where its parts begin with the other's parts: a name
/// that merely begins alike does not count.
pub proof fn lemma_beginnings_do_not_count(base: Seq<char>, n: Seq<char>, m: Seq<char>)
    requires
        base.len() > 0,
        base[0] == '/',
        clean_name(n),
        clean_name(m),
        n != m,
    ensures
        !lies_below(
            PathStyle::Posix,
            below(PathStyle::Posix, base, n),
            below(PathStyle::Posix, base, m),
        ),
{
    let s = PathStyle::Posix;
    let p = below(s, base, n);
    let q = below(s, base, m);
    lemma_names_below(s, base, n);
    lemma_names_below(s, base, m);
    reveal_strlit("/");
    assert(n[0] != '/' && m[0] != '/');
    assert(!absolute(s, n) && !absolute(s, m));
    assert(p[0] == '/' && q[0] == '/');
    assert(lead(s, p) =~= seq!["/"@]);
    assert(lead(s, q) =~= seq!["/"@]);
    let a = components(s, p);
    let b = components(s, q);
    assert(a.len() == b.len());
    assert(a.take(b.len() as int) =~= a);
    assert(a.last() == n && b.last() == m);
}

/// A path is put below another with one separator between them, unless there is one
/// already or the path stands for itself.
pub proof fn lemma_putting_below(base: Seq<char>, name: Seq<char>)
    ensures
        name.len() > 0 && name[0] == '/' ==> below(PathStyle::Posix, base, name) == name,
        !(name.len() > 0 && name[0] == '/') && base.len() > 0 && base.last() != '/' ==> below(
            PathStyle::Posix,
            base,
            name,
        ) == base + "/"@ + name,
        !(name.len() > 0 && name[0] == '/') && base.len() > 0 && base.last() == '/' ==> below(
            PathStyle::Posix,
            base,
            name,
        ) == base + name,
        base.len() == 0 ==> below(PathStyle::Posix, base, name) == name,
{
    if base.len() == 0 {
        assert(base + name =~= name);
    }
}

/// The last name of a path is its last part that is a name, unless that leads up or
/// nowhere.
pub proof fn lemma_last_names(style: PathStyle, path: Seq<char>)
    ensures
        names(style, path).len() == 0 ==> last_name(style, path) is None,
        names(style, path).len() > 0 && (names(style, path).last() == ".."@ || names(
            style,
            path,
        ).last() == "."@) ==> last_name(style, path) is None,
        names(style, path).len() > 0 && names(style, path).last() != ".."@ && names(
            style,
            path,
        ).last() != "."@ ==> last_name(style, path) == Some(names(style, path).last()),
{
}

/// Where parts lead that follow others: a name leads in, the parent leads out, and the
/// directory itself leads nowhere.
pub proof fn lemma_where_parts_lead(from: Seq<Seq<char>>, more: Seq<Seq<char>>, n: Seq<char>)
    ensures
        led_on(from, Seq::empty()) == from,
        n != "."@ && n != ".."@ ==> led_on(from, more.push(n)) == led_on(from, more).push(n),
        led_on(from, more.push("."@)) == led_on(from, more),
        n != "."@ && n != ".."@ ==> led_on(from, more.push(n).push(".."@)) == led_on(from, more),
{
    reveal_strlit("..");
    reveal_strlit(".");
    assert(".."@.len() == 2 && "."@.len() == 1);
    assert(more.push(n).drop_last() =~= more);
    assert(more.push("."@).drop_last() =~= more);
    assert(more.push(n).push(".."@).drop_last() =~= more.push(n));
    if n != "."@ && n != ".."@ {
        let inside = led_on(from, more.push(n));
        assert(inside == led_on(from, more).push(n));
        assert(inside.last() == n);
        assert(inside.drop_last() =~= led_on(from, more));
        assert(more.push(n).push(".."@).last() == ".."@);
        assert(led_on(from, more.push(n).push(".."@)) == inside.drop_last());
    }
}

// ---------------------------------------------------------------------------
// Ranking
// ---------------------------------------------------------------------------

/// What is not before the last that was ranked comes behind it, so that equals keep
/// the order that they came in.
pub proof fn lemma_equals_keep_their_order<T: Ranked>(s: Seq<T>, x: T)
    ensures
        ranked(Seq::<T>::empty()).len() == 0,
        ranked(s).len() == 0 || !x.before(ranked(s).last()) ==> ranked(s.push(x)) == ranked(
            s,
        ).push(x),
        ranked(s).len() > 0 && x.before(ranked(s).last()) ==> ranked(s.push(x)).last() == ranked(
            s,
        ).last(),
{
    assert(s.push(x).drop_last() =~= s);
}

/// Texts are ordered by their first characters that differ, a beginning before what it
/// begins.
pub proof fn lemma_order_of_texts(a: Seq<char>, x: Seq<char>, y: Seq<char>)
    ensures
        x.len() > 0 && y.len() > 0 && x[0] < y[0] ==> crate::map::text_less(a + x, a + y)
            && !crate::map::text_less(a + y, a + x),
        x.len() > 0 ==> crate::map::text_less(a, a + x) && !crate::map::text_less(a + x, a),
    decreases a.len(),
{
    if a.len() > 0 {
        let t = a.drop_first();
        lemma_order_of_texts(t, x, y);
        assert((a + x).drop_first() =~= t + x);
        assert((a + y).drop_first() =~= t + y);
    } else {
        assert(a + x =~= x);
        assert(a + y =~= y);
    }
}

/// A name is put below a directory of Windows with a backslash, unless the directory
/// ends in a separator or is but a drive.
pub proof fn lemma_putting_below_on_windows(base: Seq<char>, name: Seq<char>, letter: char)
    requires
        prefix_of(PathStyle::Windows, name) is None,
        !(name.len() > 0 && (name[0] == '/' || name[0] == '\\')),
    ensures
        prefix_of(PathStyle::Windows, base) is None && base.len() > 0 && base.last() != '/'
            && base.last() != '\\' ==> below(PathStyle::Windows, base, name) == base + "\\"@ + name,
        prefix_of(PathStyle::Windows, base) is None && base.len() > 0 && (base.last() == '/'
            || base.last() == '\\') ==> below(PathStyle::Windows, base, name) == base + name,
        'a' <= letter <= 'z' || 'A' <= letter <= 'Z' ==> below(
            PathStyle::Windows,
            seq![letter, ':'],
            name,
        ) == seq![letter, ':'] + name,
        prefix_of(PathStyle::Windows, base) is None && base.len() == 0 ==> below(
            PathStyle::Windows,
            base,
            name,
        ) == name,
{
    if 'a' <= letter <= 'z' || 'A' <= letter <= 'Z' {
        let none = Seq::<char>::empty();
        lemma_drives(letter, none);
        assert(seq![letter, ':'] + none =~= seq![letter, ':']);
    }
    if base.len() == 0 {
        assert(base + name =~= name);
    }
}

/// A name that is absolute, or that has a prefix, is not put below anything; one that
/// begins at the root takes only the prefix of the directory.
pub proof fn lemma_names_that_stand_alone(base: Seq<char>, name: Seq<char>)
    ensures
        prefix_of(PathStyle::Windows, name) is Some ==> below(PathStyle::Windows, base, name)
            == name,
        prefix_of(PathStyle::Windows, name) is None && name.len() > 0 && (name[0] == '/' || name[0]
            == '\\') ==> (prefix_of(PathStyle::Windows, base) matches Some(p) ==> p.kind
            == PrefixKind::Disk ==> below(PathStyle::Windows, base, name) == base.take(2) + name),
        prefix_of(PathStyle::Windows, name) is None && name.len() > 0 && (name[0] == '/' || name[0]
            == '\\') && prefix_of(PathStyle::Windows, base) is None ==> below(
            PathStyle::Windows,
            base,
            name,
        ) == name,
{
    assert(base.take(0) + name =~= name);
}

/// A name is put below a verbatim directory by its parts, each after a backslash.
pub proof fn lemma_putting_below_verbatim_paths(base: Seq<char>, name: Seq<char>)
    requires
        prefix_of(PathStyle::Windows, base) matches Some(p) && p.kind == PrefixKind::Verbatim,
        prefix_of(PathStyle::Windows, name) is None,
        name.len() > 0,
    ensures
        ({
            let w = PathStyle::Windows;
            let start = base.take(prefix_of(w, base)->Some_0.len as int);
            let rooted = name[0] == '/' || name[0] == '\\';
            let all = led_on(names(w, base), names(w, name));
            let own = led_on(Seq::empty(), names(w, name));
            &&& !rooted && all.len() > 0 ==> below(w, base, name) == start + "\\"@ + joined(
                all,
                "\\"@,
            )
            &&& rooted && own.len() > 0 ==> below(w, base, name) == start + "\\"@ + joined(
                own,
                "\\"@,
            )
            &&& rooted && own.len() == 0 ==> below(w, base, name) == start + "\\"@
        }),
{
}

/// What a path of Windows on another machine begins with: the machine and the share,
/// written with slashes.
pub proof fn lemma_paths_on_other_machines(path: Seq<char>)
    requires
        !has_prefix(path, "\\\\?\\"@),
    ensures
        ({
            let device = has_prefix(unified(path), "\\\\.\\"@);
            let network = !device && has_prefix(unified(path), "\\\\"@);
            let name = part(path.skip(4), false);
            let server = part(path.skip(2), false);
            let share = part(after_part(path.skip(2), false), false);
            &&& device ==> (prefix_of(PathStyle::Windows, path) matches Some(p) && p.kind
                == PrefixKind::Network && p.token == "//./"@ + name && p.len == 4 + name.len())
            &&& network && server.len() > 0 && share.len() > 0 ==> (prefix_of(
                PathStyle::Windows,
                path,
            ) matches Some(p) && p.kind == PrefixKind::Network && p.token == "//"@ + server + "/"@
                + share && p.len == 3 + server.len() + share.len())
            &&& network && (server.len() == 0 || share.len() == 0) ==> prefix_of(
                PathStyle::Windows,
                path,
            ) is None
        }),
{
    lemma_part_fits(path.skip(4), false);
}

/// A part ends before the first separator.
pub proof fn lemma_parts_end_at_separators(s: Seq<char>, verbatim: bool, i: int)
    ensures
        part(s, verbatim).len() <= s.len(),
        part(s, verbatim) == s.take(part(s, verbatim).len() as int),
        0 <= i < part(s, verbatim).len() ==> s[i] != '\\' && (verbatim || s[i] != '/'),
        part(s, verbatim).len() < s.len() ==> s[part(s, verbatim).len() as int] == '\\' || (
        !verbatim && s[part(s, verbatim).len() as int] == '/'),
    decreases s.len(),
{
    lemma_part_fits(s, verbatim);
    if s.len() > 0 && !(s[0] == '\\' || (!verbatim && s[0] == '/')) {
        let rest = s.drop_first();
        lemma_part_fits(rest, verbatim);
        lemma_parts_end_at_separators(rest, verbatim, i - 1);
        let n = part(rest, verbatim).len() as int;
        assert(part(s, verbatim).len() == n + 1);
        if i > 0 && i < n + 1 {
            assert(rest[i - 1] == s[i]);
        }
        if n < rest.len() {
            assert(rest[n] == s[n + 1]);
        }
    }
}

proof fn lemma_part_fits(s: Seq<char>, verbatim: bool)
    ensures
        crate::paths::part_len(s, verbatim) <= s.len(),
    decreases s.len(),
{
    if s.len() > 0 {
        lemma_part_fits(s.drop_first(), verbatim);
    }
}

/// Verbatim paths keep what they name: a machine and a share, a drive, or a single part.
pub proof fn lemma_verbatim_paths(rest: Seq<char>)
    ensures
        ({
            let path = "\\\\?\\"@ + rest;
            let unc = has_prefix(unified(rest), "UNC\\"@);
            let server = part(rest.skip(4), true);
            let share = part(after_part(rest.skip(4), true), true);
            let drive = begins_with_drive(rest) && (rest.len() == 2 || rest[2] == '\\' || rest[2]
                == '/');
            prefix_of(PathStyle::Windows, path) matches Some(p) && p.kind == PrefixKind::Verbatim
                && (unc ==> p.token == "\\\\?\\UNC\\"@ + server + "\\"@ + share) && (!unc && drive
                ==> p.token == "\\\\?\\"@ + seq![capital(rest[0]), ':'] && p.len == 6) && (!unc
                && !drive ==> p.token == "\\\\?\\"@ + part(rest, true) && p.len == 4 + part(
                rest,
                true,
            ).len())
        }),
{
    let path = "\\\\?\\"@ + rest;
    reveal_strlit("\\\\?\\");
    assert("\\\\?\\"@.len() == 4);
    assert(path.subrange(0, 4) =~= "\\\\?\\"@);
    assert(path.skip(4) =~= rest);
    lemma_part_fits(rest, true);
}

/// Putting nothing below a directory only ends it with a separator.
pub proof fn lemma_putting_nothing_below(base: Seq<char>)
    requires
        base.len() > 2,
    ensures
        base.last() != '/' && base.last() != '\\' ==> below(
            PathStyle::Windows,
            base,
            Seq::empty(),
        ) == base + "\\"@,
        base.last() == '/' || base.last() == '\\' ==> below(PathStyle::Windows, base, Seq::empty())
            == base,
        base.last() != '/' ==> below(PathStyle::Posix, base, Seq::empty()) == base + "/"@,
        base.last() == '/' ==> below(PathStyle::Posix, base, Seq::empty()) == base,
{
    let none = Seq::<char>::empty();
    reveal_strlit("\\\\?\\");
    reveal_strlit("\\\\.\\");
    reveal_strlit("\\\\");
    assert(unified(none).len() == 0);
    assert(prefix_of(PathStyle::Windows, none) is None);
    assert(base + none =~= base);
    assert(base + "\\"@ + none =~= base + "\\"@);
    assert(base + "/"@ + none =~= base + "/"@);
}

/// What follows a part is what stands behind the separator that ends it.
pub proof fn lemma_what_follows_a_part(s: Seq<char>, verbatim: bool)
    ensures
        part(s, verbatim).len() < s.len() ==> s == part(s, verbatim).push(
            s[part(s, verbatim).len() as int],
        ) + after_part(s, verbatim),
        part(s, verbatim).len() == s.len() ==> after_part(s, verbatim).len() == 0,
{
    lemma_part_fits(s, verbatim);
    let n = part(s, verbatim).len() as int;
    if n < s.len() {
        assert(s =~= part(s, verbatim).push(s[n]) + after_part(s, verbatim));
    }
}

} // verus!
