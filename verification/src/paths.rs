//! Paths as texts: their components, and whether one lies below another. What
//! separates the names of a path, and what makes a path absolute, is a matter of
//! the system that it is meant for: each function takes the style of the path.

use vstd::prelude::*;
use vstd::string::*;

use crate::text::{
    concat2, concat3, has_prefix, join, joined, lemma_pieces_of_sum, opt, owned, pieces, push_text,
    same, split_pieces, starts_with, texts,
};

verus! {

broadcast use vstd::string::group_string_axioms;

/// How the paths of a system are written: with slashes below one root, or with
/// slashes and backslashes below drives and network shares.
#[derive(Clone, Copy, Debug, PartialEq, Eq, Structural)]
pub enum PathStyle {
    Posix,
    Windows,
}

/// Whether a character separates the names of a path.
pub open spec fn separates(style: PathStyle, c: char) -> bool {
    c == '/' || (style == PathStyle::Windows && c == '\\')
}

fn is_separator(style: PathStyle, c: char) -> (r: bool)
    ensures
        r == separates(style, c),
{
    c == '/' || (style == PathStyle::Windows && c == '\\')
}

// ---------------------------------------------------------------------------
// What a path of Windows begins with
// ---------------------------------------------------------------------------

/// A drive, a share or device of the network, or either taken literally.
#[derive(Clone, Copy, Debug, PartialEq, Eq, Structural)]
pub enum PrefixKind {
    Disk,
    Network,
    Verbatim,
}

/// What a path begins with: its kind, how many characters it takes, and a text
/// that is the same for two paths just where they begin alike.
#[derive(Debug, PartialEq, Eq)]
pub struct PathPrefix {
    pub kind: PrefixKind,
    pub len: usize,
    pub token: String,
}

/// The mathematical view of a prefix.
#[verifier::ext_equal]
pub struct PrefixView {
    pub kind: PrefixKind,
    pub len: nat,
    pub token: Seq<char>,
}

impl View for PathPrefix {
    type V = PrefixView;

    open spec fn view(&self) -> PrefixView {
        PrefixView { kind: self.kind, len: self.len as nat, token: self.token@ }
    }
}

pub open spec fn opt_prefix(p: Option<PathPrefix>) -> Option<PrefixView> {
    match p {
        Some(p) => Some(p@),
        None => None,
    }
}

/// Whether a character ends a part of a prefix. In one that is taken literally
/// only a backslash does.
pub open spec fn ends_part(c: char, verbatim: bool) -> bool {
    c == '\\' || (c == '/' && !verbatim)
}

/// The length of the first part of a text.
pub open spec fn part_len(s: Seq<char>, verbatim: bool) -> nat
    decreases s.len(),
{
    if s.len() == 0 || ends_part(s[0], verbatim) {
        0
    } else {
        1 + part_len(s.drop_first(), verbatim)
    }
}

/// The first part of a text.
pub open spec fn part(s: Seq<char>, verbatim: bool) -> Seq<char> {
    s.take(part_len(s, verbatim) as int)
}

/// What stands behind the first part of a text and the mark that ends it.
pub open spec fn after_part(s: Seq<char>, verbatim: bool) -> Seq<char> {
    let n = part_len(s, verbatim);
    if n < s.len() {
        s.skip(n as int + 1)
    } else {
        Seq::empty()
    }
}

/// A path with its slashes written as backslashes.
pub open spec fn unified(path: Seq<char>) -> Seq<char> {
    path.map_values(
        |c: char|
            if c == '/' {
                '\\'
            } else {
                c
            },
    )
}

pub open spec fn drive_letter(c: char) -> bool {
    ('a' <= c <= 'z') || ('A' <= c <= 'Z')
}

/// A drive letter as a capital.
pub open spec fn capital(c: char) -> char {
    if 'a' <= c <= 'z' {
        ((c as int) - 32) as char
    } else {
        c
    }
}

pub open spec fn begins_with_drive(path: Seq<char>) -> bool {
    path.len() >= 2 && drive_letter(path[0]) && path[1] == ':'
}

pub open spec fn drive_token(c: char) -> Seq<char> {
    seq![capital(c), ':']
}

/// What a path that is taken literally begins with, given what stands behind its
/// mark.
pub open spec fn verbatim_prefix(rest: Seq<char>) -> PrefixView {
    if has_prefix(unified(rest), "UNC\\"@) {
        let server = part(rest.skip(4), true);
        let share = part(after_part(rest.skip(4), true), true);
        PrefixView {
            kind: PrefixKind::Verbatim,
            len: 8 + server.len() + (if share.len() > 0 {
                1 + share.len()
            } else {
                0
            }),
            token: "\\\\?\\UNC\\"@ + server + "\\"@ + share,
        }
    } else if begins_with_drive(rest) && (rest.len() == 2 || separates(
        PathStyle::Windows,
        rest[2],
    )) {
        PrefixView {
            kind: PrefixKind::Verbatim,
            len: 6,
            token: "\\\\?\\"@ + drive_token(rest[0]),
        }
    } else {
        PrefixView {
            kind: PrefixKind::Verbatim,
            len: 4 + part_len(rest, true),
            token: "\\\\?\\"@ + part(rest, true),
        }
    }
}

/// What a path begins with, if it is a path of Windows that begins with a drive
/// or a share.
pub open spec fn prefix_of(style: PathStyle, path: Seq<char>) -> Option<PrefixView> {
    if style == PathStyle::Posix {
        None
    } else if has_prefix(path, "\\\\?\\"@) {
        Some(verbatim_prefix(path.skip(4)))
    } else if has_prefix(unified(path), "\\\\.\\"@) {
        Some(
            PrefixView {
                kind: PrefixKind::Network,
                len: 4 + part_len(path.skip(4), false),
                token: "//./"@ + part(path.skip(4), false),
            },
        )
    } else if has_prefix(unified(path), "\\\\"@) {
        let server = part(path.skip(2), false);
        let share = part(after_part(path.skip(2), false), false);
        if server.len() > 0 && share.len() > 0 {
            Some(
                PrefixView {
                    kind: PrefixKind::Network,
                    len: 3 + server.len() + share.len(),
                    token: "//"@ + server + "/"@ + share,
                },
            )
        } else {
            None
        }
    } else if begins_with_drive(path) {
        Some(PrefixView { kind: PrefixKind::Disk, len: 2, token: drive_token(path[0]) })
    } else {
        None
    }
}

pub open spec fn prefix_len(style: PathStyle, path: Seq<char>) -> nat {
    match prefix_of(style, path) {
        Some(p) => p.len,
        None => 0,
    }
}

pub open spec fn is_kind(p: Option<PrefixView>, kind: PrefixKind) -> bool {
    p matches Some(p) && p.kind == kind
}

proof fn lemma_part_len(s: Seq<char>, verbatim: bool)
    ensures
        part_len(s, verbatim) <= s.len(),
    decreases s.len(),
{
    if s.len() > 0 && !ends_part(s[0], verbatim) {
        lemma_part_len(s.drop_first(), verbatim);
    }
}

/// A prefix is no longer than its path.
proof fn lemma_prefix_len(style: PathStyle, path: Seq<char>)
    ensures
        prefix_len(style, path) <= path.len(),
{
    reveal_strlit("\\\\?\\");
    reveal_strlit("\\\\.\\");
    reveal_strlit("\\\\");
    reveal_strlit("UNC\\");
    let rest = path.skip(4);
    lemma_part_len(rest, true);
    lemma_part_len(rest, false);
    lemma_part_len(rest.skip(4), true);
    lemma_part_len(after_part(rest.skip(4), true), true);
    lemma_part_len(path.skip(2), false);
    lemma_part_len(after_part(path.skip(2), false), false);
}

fn first_part_len(s: &str, verbatim: bool) -> (r: usize)
    ensures
        r == part_len(s@, verbatim),
        r <= s@.len(),
{
    let n: usize = s.unicode_len();
    let mut i: usize = 0;
    proof {
        assert(s@.skip(0) =~= s@);
    }
    while i < n
        invariant
            i <= n,
            n == s@.len(),
            part_len(s@, verbatim) == i + part_len(s@.skip(i as int), verbatim),
        decreases n - i,
    {
        let c = s.get_char(i);
        proof {
            assert(s@.skip(i as int)[0] == c);
            assert(s@.skip(i as int).drop_first() =~= s@.skip(i + 1));
        }
        if c == '\\' || (c == '/' && !verbatim) {
            return i;
        }
        i = i + 1;
    }
    i
}

fn skip_chars<'a>(s: &'a str, n: usize) -> (r: &'a str)
    requires
        n <= s@.len(),
    ensures
        r@ == s@.skip(n as int),
{
    let len: usize = s.unicode_len();
    proof {
        assert(s@.subrange(n as int, len as int) =~= s@.skip(n as int));
    }
    s.substring_char(n, len)
}

fn take_chars<'a>(s: &'a str, n: usize) -> (r: &'a str)
    requires
        n <= s@.len(),
    ensures
        r@ == s@.take(n as int),
{
    proof {
        assert(s@.subrange(0, n as int) =~= s@.take(n as int));
    }
    s.substring_char(0, n)
}

fn skip_part<'a>(s: &'a str, verbatim: bool) -> (r: &'a str)
    ensures
        r@ == after_part(s@, verbatim),
{
    let n = first_part_len(s, verbatim);
    if n < s.unicode_len() {
        skip_chars(s, n + 1)
    } else {
        proof {
            assert(s@.skip(n as int) =~= Seq::empty());
        }
        skip_chars(s, n)
    }
}

fn unify(path: &str) -> (r: String)
    ensures
        r@ == unified(path@),
{
    let n: usize = path.unicode_len();
    let mut out = String::new();
    let mut i: usize = 0;
    while i < n
        invariant
            i <= n,
            n == path@.len(),
            out@ == unified(path@).take(i as int),
        decreases n - i,
    {
        let c = path.get_char(i);
        proof {
            assert(unified(path@).take(i + 1) =~= unified(path@).take(i as int).push(
                unified(path@)[i as int],
            ));
        }
        if c == '/' {
            out.push('\\');
        } else {
            out.push(c);
        }
        i = i + 1;
    }
    proof {
        assert(unified(path@).take(i as int) =~= unified(path@));
    }
    out
}

fn has_drive(path: &str) -> (r: bool)
    ensures
        r == begins_with_drive(path@),
{
    if path.unicode_len() < 2 {
        return false;
    }
    let c = path.get_char(0);
    (('a' <= c && c <= 'z') || ('A' <= c && c <= 'Z')) && path.get_char(1) == ':'
}

fn to_capital(c: char) -> (r: char)
    requires
        drive_letter(c),
    ensures
        r == capital(c),
{
    if 'a' <= c && c <= 'z' {
        let b: u8 = c as u8;
        (b - 32) as char
    } else {
        c
    }
}

fn drive_text(c: char) -> (r: String)
    requires
        drive_letter(c),
    ensures
        r@ == drive_token(c),
{
    let mut out = String::new();
    out.push(to_capital(c));
    out.push(':');
    proof {
        assert(out@ =~= drive_token(c));
    }
    out
}

fn read_verbatim(rest: &str) -> (r: PathPrefix)
    requires
        rest@.len() + 4 <= usize::MAX,
    ensures
        r@ == verbatim_prefix(rest@),
{
    proof {
        reveal_strlit("UNC\\");
    }
    let kind = PrefixKind::Verbatim;
    if starts_with(unify(rest).as_str(), "UNC\\") {
        let s = skip_chars(rest, 4);
        let server = take_chars(s, first_part_len(s, true));
        let behind = skip_part(s, true);
        let share = take_chars(behind, first_part_len(behind, true));
        let a: usize = server.unicode_len();
        let b: usize = share.unicode_len();
        proof {
            lemma_part_len(s@, true);
            lemma_part_len(behind@, true);
        }
        let len: usize = if b > 0 {
            9 + a + b
        } else {
            8 + a
        };
        let mut token = concat3("\\\\?\\UNC\\", server, "\\");
        token.append(share);
        PathPrefix { kind, len, token }
    } else if has_drive(rest) && (rest.unicode_len() == 2 || is_separator(
        PathStyle::Windows,
        rest.get_char(2),
    )) {
        let drive = drive_text(rest.get_char(0));
        PathPrefix { kind, len: 6, token: concat2("\\\\?\\", drive.as_str()) }
    } else {
        let n = first_part_len(rest, true);
        PathPrefix { kind, len: 4 + n, token: concat2("\\\\?\\", take_chars(rest, n)) }
    }
}

/// What a path begins with, if it begins with a drive or a share.
pub fn path_prefix(style: PathStyle, path: &str) -> (r: Option<PathPrefix>)
    ensures
        opt_prefix(r) == prefix_of(style, path@),
        r matches Some(p) ==> p.len <= path@.len(),
{
    proof {
        lemma_prefix_len(style, path@);
        reveal_strlit("\\\\?\\");
        reveal_strlit("\\\\.\\");
        reveal_strlit("\\\\");
    }
    if style == PathStyle::Posix {
        return None;
    }
    if path.unicode_len() < 2 {
        return None;
    }
    if starts_with(path, "\\\\?\\") {
        return Some(read_verbatim(skip_chars(path, 4)));
    }
    let plain = unify(path);
    let kind = PrefixKind::Network;
    if starts_with(plain.as_str(), "\\\\.\\") {
        let rest = skip_chars(path, 4);
        let n = first_part_len(rest, false);
        return Some(PathPrefix { kind, len: 4 + n, token: concat2("//./", take_chars(rest, n)) });
    }
    if starts_with(plain.as_str(), "\\\\") {
        let rest = skip_chars(path, 2);
        let server = take_chars(rest, first_part_len(rest, false));
        let behind = skip_part(rest, false);
        let share = take_chars(behind, first_part_len(behind, false));
        let a: usize = server.unicode_len();
        let b: usize = share.unicode_len();
        proof {
            lemma_part_len(rest@, false);
            lemma_part_len(behind@, false);
        }
        if a > 0 && b > 0 {
            let mut token = concat3("//", server, "/");
            token.append(share);
            return Some(PathPrefix { kind, len: 3 + a + b, token });
        }
        return None;
    }
    if has_drive(path) {
        let token = drive_text(path.get_char(0));
        return Some(PathPrefix { kind: PrefixKind::Disk, len: 2, token });
    }
    None
}

// ---------------------------------------------------------------------------
// Components
// ---------------------------------------------------------------------------

/// Whether a separator stands at the beginning of a path, behind its prefix.
pub open spec fn rooted(style: PathStyle, path: Seq<char>) -> bool {
    let n = prefix_len(style, path) as int;
    n < path.len() && separates(style, path[n])
}

/// Whether a path says by itself where it leads. A drive alone does not.
pub open spec fn absolute(style: PathStyle, path: Seq<char>) -> bool {
    match style {
        PathStyle::Posix => rooted(style, path),
        PathStyle::Windows => prefix_of(style, path) matches Some(p) && (p.kind
            != PrefixKind::Disk || rooted(style, path)),
    }
}

/// What stands behind the prefix and the root of a path.
pub open spec fn body(style: PathStyle, path: Seq<char>) -> Seq<char> {
    path.skip(
        prefix_len(style, path) as int + (if rooted(style, path) {
            1int
        } else {
            0
        }),
    )
}

/// The pieces between the separators of a path.
pub open spec fn body_pieces(style: PathStyle, path: Seq<char>) -> Seq<Seq<char>> {
    match style {
        PathStyle::Posix => pieces(body(style, path), '/'),
        PathStyle::Windows => if is_kind(prefix_of(style, path), PrefixKind::Verbatim) {
            pieces(body(style, path), '\\')
        } else {
            pieces(unified(body(style, path)), '\\')
        },
    }
}

/// Whether a dot among the pieces of a path counts: always in a path that is taken
/// literally, else at the very beginning only.
pub open spec fn dot_counts(style: PathStyle, path: Seq<char>, i: int) -> bool {
    is_kind(prefix_of(style, path), PrefixKind::Verbatim) || (i == 0 && prefix_of(
        style,
        path,
    ) is None && !rooted(style, path))
}

/// The name that a piece of a path stands for. Empty pieces and dots that do not
/// count stand for none.
pub open spec fn name_at(style: PathStyle, path: Seq<char>, i: int) -> Option<Seq<char>> {
    let p = body_pieces(style, path)[i];
    if p.len() == 0 || (p == "."@ && !dot_counts(style, path, i)) {
        None
    } else {
        Some(p)
    }
}

pub open spec fn names_up_to(style: PathStyle, path: Seq<char>, n: int) -> Seq<Seq<char>>
    decreases n,
{
    if n <= 0 {
        Seq::empty()
    } else {
        let before = names_up_to(style, path, n - 1);
        match name_at(style, path, n - 1) {
            Some(c) => before.push(c),
            None => before,
        }
    }
}

/// The names of a path.
pub open spec fn names(style: PathStyle, path: Seq<char>) -> Seq<Seq<char>> {
    names_up_to(style, path, body_pieces(style, path).len() as int)
}

/// What comes before the names of a path: its prefix and its root. A share of the
/// network has a root in any case.
pub open spec fn lead(style: PathStyle, path: Seq<char>) -> Seq<Seq<char>> {
    (match prefix_of(style, path) {
        Some(p) => seq![p.token],
        None => Seq::empty(),
    }) + (if rooted(style, path) || is_kind(prefix_of(style, path), PrefixKind::Network) {
        seq!["/"@]
    } else {
        Seq::empty()
    })
}

/// The components of a path: what it begins with, and its names.
pub open spec fn components(style: PathStyle, path: Seq<char>) -> Seq<Seq<char>> {
    lead(style, path) + names(style, path)
}

/// Whether a path climbs to a parent directory somewhere.
pub open spec fn climbs(style: PathStyle, path: Seq<char>) -> bool {
    names(style, path).contains(".."@)
}

/// Whether a path is another one or lies below it, component by component.
pub open spec fn lies_below(style: PathStyle, path: Seq<char>, base: Seq<char>) -> bool {
    components(style, base).len() <= components(style, path).len() && components(style, path).take(
        components(style, base).len() as int,
    ) == components(style, base)
}

/// Whether a component names something, and is neither the directory itself nor
/// its parent.
pub open spec fn plain_name(name: Seq<char>) -> bool {
    name != "."@ && name != ".."@
}

/// The last component of a path, if it is a name.
pub open spec fn last_name(style: PathStyle, path: Seq<char>) -> Option<Seq<char>> {
    let c = names(style, path);
    if c.len() == 0 || !plain_name(c.last()) {
        None
    } else {
        Some(c.last())
    }
}

fn is_rooted(style: PathStyle, path: &str, prefix: &Option<PathPrefix>) -> (r: bool)
    requires
        opt_prefix(*prefix) == prefix_of(style, path@),
    ensures
        r == rooted(style, path@),
{
    let n: usize = match prefix {
        Some(p) => p.len,
        None => 0,
    };
    n < path.unicode_len() && is_separator(style, path.get_char(n))
}

pub fn is_absolute(style: PathStyle, path: &str) -> (r: bool)
    ensures
        r == absolute(style, path@),
{
    let prefix = path_prefix(style, path);
    let root = is_rooted(style, path, &prefix);
    match style {
        PathStyle::Posix => root,
        PathStyle::Windows => match &prefix {
            Some(p) => p.kind != PrefixKind::Disk || root,
            None => false,
        },
    }
}

fn split_body(style: PathStyle, path: &str, prefix: &Option<PathPrefix>, root: bool) -> (r: Vec<
    String,
>)
    requires
        opt_prefix(*prefix) == prefix_of(style, path@),
        root == rooted(style, path@),
    ensures
        texts(r@) == body_pieces(style, path@),
{
    proof {
        lemma_prefix_len(style, path@);
    }
    let total: usize = path.unicode_len();
    let n: usize = match prefix {
        Some(p) => p.len,
        None => 0,
    };
    let rest = if root && n < total {
        skip_chars(path, n + 1)
    } else {
        skip_chars(path, n)
    };
    match style {
        PathStyle::Posix => split_pieces(rest, '/'),
        PathStyle::Windows => {
            let verbatim = match prefix {
                Some(p) => p.kind == PrefixKind::Verbatim,
                None => false,
            };
            if verbatim {
                split_pieces(rest, '\\')
            } else {
                split_pieces(unify(rest).as_str(), '\\')
            }
        },
    }
}

/// The names of a path.
pub fn path_names(style: PathStyle, path: &str) -> (r: Vec<String>)
    ensures
        texts(r@) == names(style, path@),
{
    let prefix = path_prefix(style, path);
    let root = is_rooted(style, path, &prefix);
    let parts = split_body(style, path, &prefix, root);
    let verbatim = match &prefix {
        Some(p) => p.kind == PrefixKind::Verbatim,
        None => false,
    };
    let bare = prefix.is_none() && !root;
    let mut out: Vec<String> = Vec::new();
    let mut i: usize = 0;
    proof {
        assert(texts(out@) =~= names_up_to(style, path@, 0));
    }
    while i < parts.len()
        invariant
            i <= parts@.len(),
            body_pieces(style, path@) == texts(parts@),
            verbatim == is_kind(prefix_of(style, path@), PrefixKind::Verbatim),
            bare == (prefix_of(style, path@) is None && !rooted(style, path@)),
            texts(out@) == names_up_to(style, path@, i as int),
        decreases parts@.len() - i,
    {
        let piece = parts[i].as_str();
        proof {
            assert(body_pieces(style, path@)[i as int] == piece@);
        }
        if !(piece.is_empty() || (same(piece, ".") && !(verbatim || (i == 0 && bare)))) {
            push_text(&mut out, piece);
        }
        i = i + 1;
    }
    out
}

/// The components of a path.
pub fn path_components(style: PathStyle, path: &str) -> (r: Vec<String>)
    ensures
        texts(r@) == components(style, path@),
{
    let prefix = path_prefix(style, path);
    let root = is_rooted(style, path, &prefix);
    let mut out: Vec<String> = Vec::new();
    let network = match &prefix {
        Some(p) => {
            push_text(&mut out, p.token.as_str());
            p.kind == PrefixKind::Network
        },
        None => false,
    };
    if root || network {
        push_text(&mut out, "/");
    }
    proof {
        assert(texts(out@) =~= lead(style, path@));
    }
    let ghost start = texts(out@);
    let mut found = path_names(style, path);
    let ghost before = out@;
    let ghost more = found@;
    out.append(&mut found);
    proof {
        assert(out@ =~= before + more);
        assert(texts(out@) =~= start + texts(more));
    }
    out
}

/// Whether a path climbs to a parent directory somewhere.
pub fn has_parent_component(style: PathStyle, path: &str) -> (r: bool)
    ensures
        r == climbs(style, path@),
{
    let c = path_names(style, path);
    crate::text::list_contains(&c, "..")
}

/// Whether a path is another one or lies below it.
pub fn path_starts_with(style: PathStyle, path: &str, base: &str) -> (r: bool)
    ensures
        r == lies_below(style, path@, base@),
{
    let a = path_components(style, path);
    let b = path_components(style, base);
    let ghost x = components(style, path@);
    let ghost y = components(style, base@);
    proof {
        assert(texts(a@).len() == a@.len());
        assert(texts(b@).len() == b@.len());
    }
    if b.len() > a.len() {
        return false;
    }
    let mut i: usize = 0;
    while i < b.len()
        invariant
            i <= b@.len() <= a@.len(),
            x == texts(a@),
            y == texts(b@),
            forall|k: int| 0 <= k < i ==> x[k] == y[k],
            x == components(style, path@),
            y == components(style, base@),
        decreases b@.len() - i,
    {
        proof {
            assert(x[i as int] == a@[i as int]@);
            assert(y[i as int] == b@[i as int]@);
        }
        if !same(a[i].as_str(), b[i].as_str()) {
            proof {
                assert(x.take(y.len() as int)[i as int] == x[i as int]);
            }
            return false;
        }
        i = i + 1;
    }
    proof {
        assert(x.take(y.len() as int) =~= y);
    }
    true
}

/// The last component of a path, if it is a name.
pub fn path_file_name(style: PathStyle, path: &str) -> (r: Option<String>)
    ensures
        opt(r) == last_name(style, path@),
{
    let c = path_names(style, path);
    let n: usize = c.len();
    proof {
        assert(texts(c@).len() == c@.len());
    }
    if n == 0 {
        return None;
    }
    let last = c[n - 1].as_str();
    proof {
        assert(names(style, path@).last() == last@);
    }
    if same(last, ".") || same(last, "..") {
        None
    } else {
        Some(owned(last))
    }
}

// ---------------------------------------------------------------------------
// Joining paths
// ---------------------------------------------------------------------------

/// Where some names lead from others: a dot stays, and two dots take a plain name
/// back.
pub open spec fn led_on(from: Seq<Seq<char>>, more: Seq<Seq<char>>) -> Seq<Seq<char>>
    decreases more.len(),
{
    if more.len() == 0 {
        from
    } else {
        let before = led_on(from, more.drop_last());
        if more.last() == "."@ {
            before
        } else if more.last() != ".."@ {
            before.push(more.last())
        } else if before.len() > 0 && plain_name(before.last()) {
            before.drop_last()
        } else {
            before
        }
    }
}

/// A path below one that is taken literally: its dots are followed at once.
pub open spec fn below_verbatim(base: Seq<char>, name: Seq<char>) -> Seq<char> {
    let w = PathStyle::Windows;
    let start = base.take(prefix_len(w, base) as int);
    let all = led_on(
        if rooted(w, name) {
            Seq::empty()
        } else {
            names(w, base)
        },
        names(w, name),
    );
    if all.len() > 0 {
        start + "\\"@ + joined(all, "\\"@)
    } else if rooted(w, name) || rooted(w, base) {
        start + "\\"@
    } else {
        start
    }
}

/// Whether a separator has to stand between a path and what is put behind it.
pub open spec fn needs_separator(style: PathStyle, base: Seq<char>) -> bool {
    base.len() > 0 && !separates(style, base.last()) && !(is_kind(
        prefix_of(style, base),
        PrefixKind::Disk,
    ) && base.len() == 2)
}

/// A path below another one. A path with a beginning of its own keeps it.
pub open spec fn below(style: PathStyle, base: Seq<char>, name: Seq<char>) -> Seq<char> {
    if absolute(style, name) || prefix_of(style, name) is Some {
        name
    } else if is_kind(prefix_of(style, base), PrefixKind::Verbatim) && name.len() > 0 {
        below_verbatim(base, name)
    } else if rooted(style, name) {
        base.take(prefix_len(style, base) as int) + name
    } else if needs_separator(style, base) {
        base + (match style {
            PathStyle::Posix => "/"@,
            PathStyle::Windows => "\\"@,
        }) + name
    } else {
        base + name
    }
}

fn lead_on(from: Vec<String>, more: &Vec<String>) -> (r: Vec<String>)
    ensures
        texts(r@) == led_on(texts(from@), texts(more@)),
{
    let ghost all = texts(more@);
    let ghost start = texts(from@);
    let mut out = from;
    let mut i: usize = 0;
    proof {
        assert(all.take(0) =~= Seq::empty());
    }
    while i < more.len()
        invariant
            i <= more@.len(),
            all == texts(more@),
            texts(out@) == led_on(start, all.take(i as int)),
        decreases more@.len() - i,
    {
        let name = more[i].as_str();
        let n: usize = out.len();
        let ghost before = texts(out@);
        proof {
            assert(all.take(i + 1).drop_last() =~= all.take(i as int));
            assert(all.take(i + 1).last() == name@);
            assert(before.len() == n);
        }
        if same(name, "..") {
            if n > 0 {
                let last = out[n - 1].as_str();
                let plain = !same(last, ".") && !same(last, "..");
                proof {
                    assert(before.last() == last@);
                }
                if plain {
                    let ghost held = out@;
                    out.pop();
                    proof {
                        assert(out@ =~= held.drop_last());
                        assert(texts(out@) =~= before.drop_last());
                    }
                }
            }
            proof {
                reveal_strlit(".");
                reveal_strlit("..");
                assert("."@.len() != ".."@.len());
            }
        } else if !same(name, ".") {
            push_text(&mut out, name);
        }
        i = i + 1;
    }
    proof {
        assert(all.take(i as int) =~= all);
    }
    out
}

fn join_verbatim(base: &str, name: &str, start: usize) -> (r: String)
    requires
        start == prefix_len(PathStyle::Windows, base@),
        start <= base@.len(),
        prefix_of(PathStyle::Windows, name@) is None,
    ensures
        r@ == below_verbatim(base@, name@),
{
    let w = PathStyle::Windows;
    let none: Option<PathPrefix> = None;
    let name_root = is_rooted(w, name, &none);
    let base_root = start < base.unicode_len() && is_separator(w, base.get_char(start));
    let from = if name_root {
        let empty: Vec<String> = Vec::new();
        proof {
            assert(texts(empty@) =~= Seq::empty());
        }
        empty
    } else {
        path_names(w, base)
    };
    let more = path_names(w, name);
    let all = lead_on(from, &more);
    let front = take_chars(base, start);
    proof {
        assert(texts(all@).len() == all@.len());
    }
    if all.len() > 0 {
        concat3(front, "\\", join(&all, "\\").as_str())
    } else if name_root || base_root {
        concat2(front, "\\")
    } else {
        owned(front)
    }
}

/// The path of a name below a directory.
pub fn join_path(style: PathStyle, base: &str, name: &str) -> (r: String)
    ensures
        r@ == below(style, base@, name@),
{
    proof {
        lemma_prefix_len(style, base@);
    }
    let own = path_prefix(style, name);
    if own.is_some() || is_absolute(style, name) {
        return owned(name);
    }
    let prefix = path_prefix(style, base);
    let (start, kind): (usize, Option<PrefixKind>) = match &prefix {
        Some(p) => (p.len, Some(p.kind)),
        None => (0, None),
    };
    let verbatim = match kind {
        Some(k) => k == PrefixKind::Verbatim,
        None => false,
    };
    let disk = match kind {
        Some(k) => k == PrefixKind::Disk,
        None => false,
    };
    if verbatim && !name.is_empty() {
        return join_verbatim(base, name, start);
    }
    if is_rooted(style, name, &own) {
        return concat2(take_chars(base, start), name);
    }
    let n: usize = base.unicode_len();
    if n > 0 && !is_separator(style, base.get_char(n - 1)) && !(disk && n == 2) {
        match style {
            PathStyle::Posix => concat3(base, "/", name),
            PathStyle::Windows => concat3(base, "\\", name),
        }
    } else {
        concat2(base, name)
    }
}

/// Whether a name is plain in every style: it holds something, no mark of a drive
/// and no separator, and leads neither nowhere nor up.
pub open spec fn clean_name(n: Seq<char>) -> bool {
    &&& n.len() > 0
    &&& plain_name(n)
    &&& forall|i: int|
        0 <= i < n.len() ==> #[trigger] n[i] != '/' && n[i] != '\\' && n[i] != ':'
}

/// Whether a path is written for POSIX, or begins with a drive.
pub open spec fn plain_start(style: PathStyle, path: Seq<char>) -> bool {
    style == PathStyle::Posix || is_kind(prefix_of(style, path), PrefixKind::Disk)
}

proof fn lemma_same_names(style: PathStyle, x: Seq<char>, y: Seq<char>, n: int)
    requires
        n <= body_pieces(style, x).len(),
        n <= body_pieces(style, y).len(),
        forall|i: int| 0 <= i < n ==> name_at(style, x, i) == #[trigger] name_at(style, y, i),
    ensures
        names_up_to(style, x, n) == names_up_to(style, y, n),
    decreases n,
{
    if n > 0 {
        lemma_same_names(style, x, y, n - 1);
        assert(name_at(style, x, n - 1) == name_at(style, y, n - 1));
    }
}

proof fn lemma_clean_names_are_relative(style: PathStyle, n: Seq<char>)
    requires
        clean_name(n),
    ensures
        prefix_of(style, n) is None,
        !rooted(style, n),
        !absolute(style, n),
        unified(n) == n,
{
    reveal_strlit("\\\\?\\");
    reveal_strlit("\\\\.\\");
    reveal_strlit("\\\\");
    assert(unified(n) =~= n);
    assert(n[0] != '\\');
    if has_prefix(n, "\\\\?\\"@) {
        assert(n.subrange(0, 4)[0] == n[0]);
    }
    if has_prefix(n, "\\\\.\\"@) {
        assert(n.subrange(0, 4)[0] == n[0]);
    }
    if has_prefix(n, "\\\\"@) {
        assert(n.subrange(0, 2)[0] == n[0]);
    }
    if n.len() >= 2 {
        assert(n[1] != ':');
    }
}

proof fn lemma_drives_are_prefixes(path: Seq<char>)
    ensures
        is_kind(prefix_of(PathStyle::Windows, path), PrefixKind::Disk) <==> begins_with_drive(path),
        begins_with_drive(path) ==> prefix_len(PathStyle::Windows, path) == 2,
{
    reveal_strlit("\\\\?\\");
    reveal_strlit("\\\\.\\");
    reveal_strlit("\\\\");
    let u = unified(path);
    if begins_with_drive(path) {
        assert(u[0] == path[0]);
        if has_prefix(path, "\\\\?\\"@) {
            assert(path.subrange(0, 4)[0] == path[0]);
        }
        if has_prefix(u, "\\\\.\\"@) {
            assert(u.subrange(0, 4)[0] == u[0]);
        }
        if has_prefix(u, "\\\\"@) {
            assert(u.subrange(0, 2)[0] == u[0]);
        }
    }
}

/// What is put behind a path leaves its beginning alone.
proof fn lemma_tails_keep_beginnings(style: PathStyle, base: Seq<char>, tail: Seq<char>)
    requires
        plain_start(style, base),
        tail.len() > 0,
        base.len() > prefix_len(style, base) || !separates(style, tail[0]),
    ensures
        plain_start(style, base + tail),
        prefix_len(style, base + tail) == prefix_len(style, base),
        prefix_of(style, base + tail) is None <==> prefix_of(style, base) is None,
        !is_kind(prefix_of(style, base + tail), PrefixKind::Verbatim),
        !is_kind(prefix_of(style, base), PrefixKind::Verbatim),
        rooted(style, base + tail) == rooted(style, base),
        body(style, base + tail) == body(style, base) + tail,
{
    lemma_drives_are_prefixes(base);
    lemma_drives_are_prefixes(base + tail);
    lemma_prefix_len(style, base);
    let n = prefix_len(style, base) as int;
    if style == PathStyle::Windows {
        assert((base + tail)[0] == base[0] && (base + tail)[1] == base[1]);
    }
    if base.len() > n {
        assert((base + tail)[n] == base[n]);
    } else {
        assert((base + tail)[n] == tail[0]);
    }
    assert(body(style, base + tail) =~= body(style, base) + tail);
}

/// What a clean name adds to the path of a directory.
spec fn clean_tail(style: PathStyle, base: Seq<char>, n: Seq<char>) -> Seq<char> {
    if needs_separator(style, base) {
        seq![own_separator(style)] + n
    } else {
        n
    }
}

spec fn own_separator(style: PathStyle) -> char {
    match style {
        PathStyle::Posix => '/',
        PathStyle::Windows => '\\',
    }
}

proof fn lemma_below_is_sum(style: PathStyle, base: Seq<char>, n: Seq<char>)
    requires
        plain_start(style, base),
        clean_name(n),
    ensures
        below(style, base, n) == base + clean_tail(style, base, n),
        base.len() > prefix_len(style, base) || !separates(
            style,
            clean_tail(style, base, n)[0],
        ),
{
    reveal_strlit("/");
    reveal_strlit("\\");
    lemma_clean_names_are_relative(style, n);
    lemma_drives_are_prefixes(base);
    assert(below(style, base, n) =~= base + clean_tail(style, base, n));
    assert(n[0] != '/' && n[0] != '\\');
}

proof fn lemma_pieces_below(style: PathStyle, raw: Seq<char>, n: Seq<char>)
    requires
        clean_name(n),
    ensures
        ({
            let c = own_separator(style);
            let old_pieces = pieces(raw, c);
            &&& old_pieces.len() > 0
            &&& pieces(raw + (seq![c] + n), c) == old_pieces.push(n)
            &&& raw.len() == 0 || raw.last() == c ==> old_pieces.last().len() == 0 && pieces(
                raw + n,
                c,
            ) == old_pieces.drop_last().push(n)
        }),
{
    let c = own_separator(style);
    let old_pieces = pieces(raw, c);
    assert forall|i: int| 0 <= i < n.len() implies #[trigger] n[i] != c by {}
    lemma_pieces_of_sum(raw, n, c);
    let longer = raw.push(c);
    assert(raw + (seq![c] + n) =~= longer + n);
    lemma_pieces_of_sum(longer, n, c);
    assert(longer.drop_last() =~= raw);
    assert(old_pieces.push(Seq::empty()).drop_last() =~= old_pieces);
    assert(Seq::<char>::empty() + n =~= n);
}

proof fn lemma_body_pieces_below(style: PathStyle, base: Seq<char>, n: Seq<char>)
    requires
        plain_start(style, base),
        clean_name(n),
    ensures
        plain_start(style, below(style, base, n)),
        body_pieces(style, base).len() > 0,
        needs_separator(style, base) ==> body_pieces(style, below(style, base, n)) == body_pieces(
            style,
            base,
        ).push(n),
        !needs_separator(style, base) ==> body_pieces(style, base).last().len() == 0
            && body_pieces(style, below(style, base, n)) == body_pieces(
            style,
            base,
        ).drop_last().push(n),
        forall|i: int|
            dot_counts(style, below(style, base, n), i) == #[trigger] dot_counts(style, base, i),
{
    let tail = clean_tail(style, base, n);
    let b = body(style, base);
    lemma_below_is_sum(style, base, n);
    lemma_prefix_len(style, base);
    lemma_drives_are_prefixes(base);
    lemma_clean_names_are_relative(style, n);
    lemma_tails_keep_beginnings(style, base, tail);
    let raw = match style {
        PathStyle::Posix => b,
        PathStyle::Windows => unified(b),
    };
    if style == PathStyle::Windows {
        assert(unified(b + tail) =~= raw + tail);
    }
    lemma_pieces_below(style, raw, n);
    if !needs_separator(style, base) && raw.len() > 0 {
        assert(base.last() == b.last());
    }
}

/// A clean name that is put below a directory is one more name of its path. The
/// directory is written for POSIX or stands on a drive.
pub proof fn lemma_names_below(style: PathStyle, base: Seq<char>, n: Seq<char>)
    requires
        plain_start(style, base),
        clean_name(n),
    ensures
        plain_start(style, below(style, base, n)),
        names(style, below(style, base, n)) == names(style, base).push(n),
        last_name(style, below(style, base, n)) == Some(n),
{
    let p = below(style, base, n);
    let old_pieces = body_pieces(style, base);
    lemma_body_pieces_below(style, base, n);
    let k = if needs_separator(style, base) {
        old_pieces.len() as int
    } else {
        old_pieces.len() - 1
    };
    assert forall|i: int| 0 <= i < k implies name_at(style, p, i) == #[trigger] name_at(
        style,
        base,
        i,
    ) by {
        assert(body_pieces(style, p)[i] == old_pieces[i]);
        assert(dot_counts(style, p, i) == dot_counts(style, base, i));
    }
    lemma_same_names(style, p, base, k);
    assert(body_pieces(style, p)[k] == n);
    assert(name_at(style, p, k) == Some(n));
    if !needs_separator(style, base) {
        assert(name_at(style, base, k) is None);
    }
    assert(names(style, p) =~= names(style, base).push(n));
}

/// Two clean names below one directory have two paths.
pub proof fn lemma_names_stay_apart(
    style: PathStyle,
    base: Seq<char>,
    first: Seq<char>,
    second: Seq<char>,
)
    requires
        plain_start(style, base),
        clean_name(first),
        clean_name(second),
        first != second,
    ensures
        names(style, below(style, base, first)) != names(style, below(style, base, second)),
{
    lemma_names_below(style, base, first);
    lemma_names_below(style, base, second);
    assert(names(style, base).push(first).last() == first);
    assert(names(style, base).push(second).last() == second);
}

/// A clean name below two directories of different names has two paths.
pub proof fn lemma_directories_stay_apart(
    style: PathStyle,
    first: Seq<char>,
    second: Seq<char>,
    n: Seq<char>,
)
    requires
        plain_start(style, first),
        plain_start(style, second),
        names(style, first) != names(style, second),
        clean_name(n),
    ensures
        names(style, below(style, first, n)) != names(style, below(style, second, n)),
{
    lemma_names_below(style, first, n);
    lemma_names_below(style, second, n);
    assert(names(style, first).push(n).drop_last() =~= names(style, first));
    assert(names(style, second).push(n).drop_last() =~= names(style, second));
}

/// A path lies below itself.
pub proof fn lemma_lies_below_itself(style: PathStyle, path: Seq<char>)
    ensures
        lies_below(style, path, path),
{
    let c = components(style, path);
    assert(c.take(c.len() as int) =~= c);
}

/// What lies below a path that lies below another one lies below that one too.
pub proof fn lemma_lies_below_transitive(
    style: PathStyle,
    a: Seq<char>,
    b: Seq<char>,
    c: Seq<char>,
)
    requires
        lies_below(style, a, b),
        lies_below(style, b, c),
    ensures
        lies_below(style, a, c),
{
    let n = components(style, c).len() as int;
    let m = components(style, b).len() as int;
    assert(components(style, a).take(n) =~= components(style, a).take(m).take(n));
}

} // verus!
