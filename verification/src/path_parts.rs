//! The components of a path as the system reads them: on Windows `/` and `\` both
//! separate, and a path can start with a prefix such as `C:` or `\\server\share`.

use vstd::prelude::*;
use crate::chars::{ascii_letter, ascii_lower, is_ascii_letter, lower_ascii};
use crate::text::{from_chars, same_text, to_chars};
use crate::viewer::Platform;
use crate::wrap::texts;

verus! {

/// Which characters separate the names of a path.
#[derive(Debug, Clone, Copy, PartialEq, Eq, Structural)]
pub enum Separators {
    Slash,
    Backslash,
    Both,
}

impl Separators {
    pub open spec fn has(self, c: char) -> bool {
        match self {
            Separators::Slash => c == '/',
            Separators::Backslash => c == '\\',
            Separators::Both => c == '/' || c == '\\',
        }
    }

    pub fn contain(self, c: char) -> (r: bool)
        ensures
            r == self.has(c),
    {
        match self {
            Separators::Slash => c == '/',
            Separators::Backslash => c == '\\',
            Separators::Both => c == '/' || c == '\\',
        }
    }
}

/// The separators of a system.
pub open spec fn usual_separators(os: Platform) -> Separators {
    if os == Platform::Windows {
        Separators::Both
    } else {
        Separators::Slash
    }
}

/// The separators of a system.
pub fn separators_of(os: Platform) -> (r: Separators)
    ensures
        r == usual_separators(os),
{
    if os == Platform::Windows {
        Separators::Both
    } else {
        Separators::Slash
    }
}

/// The separator that a system writes.
pub open spec fn main_separator(os: Platform) -> char {
    if os == Platform::Windows {
        '\\'
    } else {
        '/'
    }
}

/// The first position of a separator in `s`, or its length.
pub open spec fn first_separator(s: Seq<char>, by: Separators) -> int
    decreases s.len(),
{
    if s.len() == 0 || by.has(s[0]) {
        0
    } else {
        1 + first_separator(s.skip(1), by)
    }
}

pub proof fn lemma_first_separator(s: Seq<char>, by: Separators)
    ensures
        0 <= first_separator(s, by) <= s.len(),
        first_separator(s, by) < s.len() ==> by.has(s[first_separator(s, by)]),
        forall|i: int| 0 <= i < first_separator(s, by) ==> !by.has(#[trigger] s[i]),
    decreases s.len(),
{
    if s.len() > 0 && !by.has(s[0]) {
        let rest = s.skip(1);
        lemma_first_separator(rest, by);
        assert forall|i: int| 0 <= i < first_separator(s, by) implies !by.has(#[trigger] s[i]) by {
            if i > 0 {
                assert(s[i] == rest[i - 1]);
            }
        }
        if first_separator(s, by) < s.len() {
            assert(s[first_separator(s, by)] == rest[first_separator(rest, by)]);
        }
    }
}

/// The first separator is the one with none before it.
proof fn lemma_first_separator_at(s: Seq<char>, by: Separators, k: int)
    requires
        0 <= k <= s.len(),
        k < s.len() ==> by.has(s[k]),
        forall|i: int| 0 <= i < k ==> !by.has(#[trigger] s[i]),
    ensures
        first_separator(s, by) == k,
{
    lemma_first_separator(s, by);
    let f = first_separator(s, by);
    if f < k {
        assert(!by.has(s[f]));
    } else if k < f {
        assert(!by.has(s[k]));
    }
}

fn find_first(v: &Vec<char>, from: usize, by: Separators) -> (r: usize)
    requires
        from <= v@.len(),
    ensures
        from <= r <= v@.len(),
        r - from == first_separator(v@.skip(from as int), by),
{
    let mut i: usize = from;
    while i < v.len() && !by.contain(v[i])
        invariant
            from <= i <= v@.len(),
            forall|k: int| from <= k < i ==> !by.has(#[trigger] v@[k]),
        decreases v.len() - i,
    {
        i = i + 1;
    }
    proof {
        let s = v@.skip(from as int);
        assert forall|k: int| 0 <= k < i - from implies !by.has(#[trigger] s[k]) by {
            assert(s[k] == v@[from + k]);
        }
        lemma_first_separator_at(s, by, i - from);
    }
    i
}

/// The last position of a separator in `s`, or -1.
pub open spec fn last_separator(s: Seq<char>, by: Separators) -> int
    decreases s.len(),
{
    if s.len() == 0 {
        -1
    } else if by.has(s.last()) {
        s.len() - 1
    } else {
        last_separator(s.drop_last(), by)
    }
}

pub proof fn lemma_last_separator(s: Seq<char>, by: Separators)
    ensures
        -1 <= last_separator(s, by) < s.len(),
        last_separator(s, by) >= 0 ==> by.has(s[last_separator(s, by)]),
        forall|i: int| last_separator(s, by) < i < s.len() ==> !by.has(#[trigger] s[i]),
    decreases s.len(),
{
    if s.len() > 0 && !by.has(s.last()) {
        lemma_last_separator(s.drop_last(), by);
        assert forall|i: int| last_separator(s, by) < i < s.len() implies !by.has(
            #[trigger] s[i],
        ) by {
            if i < s.len() - 1 {
                assert(s.drop_last()[i] == s[i]);
            }
        }
    }
}

/// The last separator is the one with none after it.
proof fn lemma_last_separator_at(s: Seq<char>, by: Separators, k: int)
    requires
        -1 <= k < s.len(),
        k >= 0 ==> by.has(s[k]),
        forall|i: int| k < i < s.len() ==> !by.has(#[trigger] s[i]),
    ensures
        last_separator(s, by) == k,
{
    lemma_last_separator(s, by);
    let l = last_separator(s, by);
    if k < l {
        assert(!by.has(s[l]));
    } else if l < k {
        assert(!by.has(s[k]));
    }
}

/// What a path starts with before its root. Verbatim prefixes are those after
/// which nothing is interpreted, as `\\?\C:`.
#[derive(Debug, Clone, Copy, PartialEq, Eq, Structural)]
pub enum PrefixKind {
    Nothing,
    Verbatim,
    VerbatimUnc,
    VerbatimDisk,
    Device,
    Unc,
    Disk,
}

impl PrefixKind {
    pub open spec fn is_verbatim(self) -> bool {
        self == PrefixKind::Verbatim || self == PrefixKind::VerbatimUnc || self
            == PrefixKind::VerbatimDisk
    }

    /// Whether what follows such a prefix starts at a root in any case.
    pub open spec fn implies_root(self) -> bool {
        self != PrefixKind::Nothing && self != PrefixKind::Disk
    }

    fn verbatim(self) -> (r: bool)
        ensures
            r == self.is_verbatim(),
    {
        self == PrefixKind::Verbatim || self == PrefixKind::VerbatimUnc || self
            == PrefixKind::VerbatimDisk
    }
}

/// A prefix: its kind, the names in it, and how many characters it takes. A drive is
/// named by its letter in lower case.
#[verifier::ext_equal]
pub struct Prefix {
    pub kind: PrefixKind,
    pub names: Seq<Seq<char>>,
    pub length: int,
}

pub open spec fn no_prefix() -> Prefix {
    Prefix { kind: PrefixKind::Nothing, names: Seq::empty(), length: 0 }
}

/// The text starts with a drive, as `C:`.
pub open spec fn starts_with_drive(s: Seq<char>) -> bool {
    s.len() >= 2 && ascii_letter(s[0]) && s[1] == ':'
}

pub open spec fn drive_name(s: Seq<char>) -> Seq<Seq<char>> {
    seq![seq![ascii_lower(s[0])]]
}

/// Two names, one after the other, at the start of a text: a server and what it
/// shares.
pub open spec fn server_and_share(s: Seq<char>, by: Separators) -> (Seq<char>, Seq<char>) {
    let k = first_separator(s, by);
    if k < s.len() {
        let rest = s.skip(k + 1);
        (s.take(k), rest.take(first_separator(rest, by)))
    } else {
        (s, Seq::empty())
    }
}

/// The prefix of a path that starts with `\\?\`.
pub open spec fn verbatim_prefix(p: Seq<char>) -> Prefix {
    let s = p.skip(4);
    if p.len() >= 8 && p[4] == 'U' && p[5] == 'N' && p[6] == 'C' && Separators::Both.has(p[7]) {
        let (server, share) = server_and_share(p.skip(8), Separators::Backslash);
        Prefix {
            kind: PrefixKind::VerbatimUnc,
            names: seq![server, share],
            length: if share.len() > 0 {
                9 + server.len() as int + share.len()
            } else {
                8 + server.len() as int
            },
        }
    } else if starts_with_drive(s) && (s.len() == 2 || Separators::Both.has(s[2])) {
        Prefix { kind: PrefixKind::VerbatimDisk, names: drive_name(s), length: 6 }
    } else {
        let k = first_separator(s, Separators::Backslash);
        Prefix { kind: PrefixKind::Verbatim, names: seq![s.take(k)], length: 4 + k }
    }
}

/// The prefix of a path that starts with two separators, and is not verbatim.
pub open spec fn network_prefix(p: Seq<char>) -> Prefix {
    if p.len() >= 4 && p[2] == '.' && Separators::Both.has(p[3]) {
        let s = p.skip(4);
        let k = first_separator(s, Separators::Both);
        Prefix { kind: PrefixKind::Device, names: seq![s.take(k)], length: 4 + k }
    } else {
        let (server, share) = server_and_share(p.skip(2), Separators::Both);
        if server.len() > 0 && share.len() > 0 {
            Prefix {
                kind: PrefixKind::Unc,
                names: seq![server, share],
                length: 3 + server.len() as int + share.len(),
            }
        } else {
            no_prefix()
        }
    }
}

/// The path starts with `\\?\`, written just so.
pub open spec fn starts_verbatim(p: Seq<char>) -> bool {
    p.len() >= 4 && p[0] == '\\' && p[1] == '\\' && p[2] == '?' && p[3] == '\\'
}

/// The prefix of a path; there are none but on Windows.
pub open spec fn prefix(os: Platform, p: Seq<char>) -> Prefix {
    if os != Platform::Windows {
        no_prefix()
    } else if starts_verbatim(p) {
        verbatim_prefix(p)
    } else if p.len() >= 2 && Separators::Both.has(p[0]) && Separators::Both.has(p[1]) {
        network_prefix(p)
    } else if starts_with_drive(p) {
        Prefix { kind: PrefixKind::Disk, names: drive_name(p), length: 2 }
    } else {
        no_prefix()
    }
}

pub proof fn lemma_prefix(os: Platform, p: Seq<char>)
    ensures
        0 <= prefix(os, p).length <= p.len(),
        prefix(os, p).kind == PrefixKind::Nothing ==> prefix(os, p) == no_prefix(),
        prefix(os, p).kind.is_verbatim() && prefix(os, p).length < p.len() ==> Separators::Both.has(
            p[prefix(os, p).length],
        ),
{
    if os == Platform::Windows {
        if starts_verbatim(p) {
            if prefix(os, p).kind == PrefixKind::VerbatimUnc {
                lemma_server_and_share(p.skip(8), Separators::Backslash);
                let (server, share) = server_and_share(p.skip(8), Separators::Backslash);
                if share.len() == 0 && 8 + server.len() < p.len() {
                    assert(p[8 + server.len() as int] == p.skip(8)[server.len() as int]);
                }
                if share.len() > 0 && 9 + server.len() + share.len() < p.len() {
                    assert(p[9 + server.len() as int + share.len()] == p.skip(8)[1
                        + server.len() as int + share.len()]);
                }
            } else {
                lemma_first_separator(p.skip(4), Separators::Backslash);
            }
        } else {
            lemma_first_separator(p.skip(4), Separators::Both);
            lemma_server_and_share(p.skip(2), Separators::Both);
        }
    }
}

/// A server and a share end at a separator or with the text.
proof fn lemma_server_and_share(s: Seq<char>, by: Separators)
    ensures
        ({
            let (server, share) = server_and_share(s, by);
            &&& server.len() <= s.len()
            &&& share.len() > 0 ==> server.len() + 1 + share.len() <= s.len()
            &&& server.len() < s.len() ==> by.has(s[server.len() as int])
            &&& share.len() > 0 && server.len() + 1 + share.len() < s.len() ==> by.has(
                s[server.len() as int + 1 + share.len()],
            )
        }),
{
    lemma_first_separator(s, by);
    let k = first_separator(s, by);
    if k < s.len() {
        let rest = s.skip(k + 1);
        lemma_first_separator(rest, by);
        let n = first_separator(rest, by);
        if n < rest.len() {
            assert(rest[n] == s[k + 1 + n]);
        }
    }
}

/// What follows the prefix starts with a separator.
pub open spec fn written_root(os: Platform, p: Seq<char>) -> bool {
    p.len() > prefix(os, p).length && usual_separators(os).has(p[prefix(os, p).length])
}

/// Whether the path starts at a root.
pub open spec fn is_rooted(os: Platform, p: Seq<char>) -> bool {
    written_root(os, p) || prefix(os, p).kind.implies_root()
}

/// Whether the path says by itself where it leads: on Windows it takes a prefix too.
pub open spec fn is_absolute(os: Platform, p: Seq<char>) -> bool {
    is_rooted(os, p) && (os == Platform::Windows ==> prefix(os, p).kind != PrefixKind::Nothing)
}

/// The separators between the names of a path.
pub open spec fn inner_separators(os: Platform, p: Seq<char>) -> Separators {
    if prefix(os, p).kind.is_verbatim() {
        Separators::Backslash
    } else {
        usual_separators(os)
    }
}

/// A path without a root starts with a dot of its own.
pub open spec fn starts_with_dot(os: Platform, p: Seq<char>) -> bool {
    let k = prefix(os, p).length;
    &&& !is_rooted(os, p)
    &&& p.len() > k
    &&& p[k] == '.'
    &&& p.len() == k + 1 || usual_separators(os).has(p[k + 1])
}

/// Where the names of a path start in its text.
pub open spec fn body_start(os: Platform, p: Seq<char>) -> int {
    prefix(os, p).length + if written_root(os, p) || starts_with_dot(os, p) {
        1int
    } else {
        0
    }
}

/// What stands between two separators as names: nothing where it is empty, or a dot
/// that is not to be kept.
pub open spec fn inner_name(x: Seq<char>, by: Separators) -> Seq<Seq<char>> {
    if x.len() == 0 || x == seq!['.'] && by != Separators::Backslash {
        Seq::empty()
    } else {
        seq![x]
    }
}

/// The names of a text.
pub open spec fn names(s: Seq<char>, by: Separators) -> Seq<Seq<char>>
    decreases s.len(),
    via names_decreases
{
    let k = last_separator(s, by);
    if k < 0 {
        inner_name(s, by)
    } else {
        names(s.take(k), by) + inner_name(s.skip(k + 1), by)
    }
}

#[via_fn]
proof fn names_decreases(s: Seq<char>, by: Separators) {
    lemma_last_separator(s, by);
}

/// The names below the start of a path.
pub open spec fn body_names(os: Platform, p: Seq<char>) -> Seq<Seq<char>> {
    names(p.skip(body_start(os, p)), inner_separators(os, p))
}

/// A component of a path. A name can also be a dot or two.
pub enum PathComponent {
    Prefix(PrefixKind, Seq<Seq<char>>),
    Root,
    Name(Seq<char>),
}

/// The components before the names below the start of a path. A dot at the start
/// counts, except after a prefix.
pub open spec fn leading(os: Platform, p: Seq<char>) -> Seq<PathComponent> {
    let first = prefix(os, p);
    if first.kind == PrefixKind::Nothing {
        if written_root(os, p) {
            seq![PathComponent::Root]
        } else if starts_with_dot(os, p) {
            seq![PathComponent::Name(seq!['.'])]
        } else {
            Seq::empty()
        }
    } else if written_root(os, p) || first.kind.implies_root() && !first.kind.is_verbatim() {
        seq![PathComponent::Prefix(first.kind, first.names), PathComponent::Root]
    } else {
        seq![PathComponent::Prefix(first.kind, first.names)]
    }
}

pub open spec fn as_components(v: Seq<Seq<char>>) -> Seq<PathComponent> {
    v.map_values(|x: Seq<char>| PathComponent::Name(x))
}

/// The components of a path.
pub open spec fn components(os: Platform, p: Seq<char>) -> Seq<PathComponent> {
    leading(os, p) + as_components(body_names(os, p))
}

/// A component of a path.
#[derive(Debug)]
pub enum PathPart {
    Prefix(PrefixKind, Vec<String>),
    Root,
    Name(String),
}

impl PathPart {
    pub open spec fn model(self) -> PathComponent {
        match self {
            PathPart::Prefix(kind, names) => PathComponent::Prefix(kind, texts(names@)),
            PathPart::Root => PathComponent::Root,
            PathPart::Name(name) => PathComponent::Name(name@),
        }
    }
}

pub open spec fn models(v: Seq<PathPart>) -> Seq<PathComponent> {
    v.map_values(|x: PathPart| x.model())
}

/// A prefix as it was read off a text.
struct ReadPrefix {
    kind: PrefixKind,
    names: Vec<String>,
    length: usize,
}

impl ReadPrefix {
    spec fn model(self) -> Prefix {
        Prefix { kind: self.kind, names: texts(self.names@), length: self.length as int }
    }
}

fn nothing_read() -> (r: ReadPrefix)
    ensures
        r.model() == no_prefix(),
{
    let r = ReadPrefix { kind: PrefixKind::Nothing, names: Vec::new(), length: 0 };
    assert(texts(r.names@) =~= Seq::<Seq<char>>::empty());
    r
}

fn one_name(name: String) -> (r: Vec<String>)
    ensures
        texts(r@) == seq![name@],
{
    let mut r: Vec<String> = Vec::new();
    r.push(name);
    assert(texts(r@) =~= seq![name@]);
    r
}

fn two_names(first: String, second: String) -> (r: Vec<String>)
    ensures
        texts(r@) == seq![first@, second@],
{
    let mut r: Vec<String> = Vec::new();
    r.push(first);
    r.push(second);
    assert(texts(r@) =~= seq![first@, second@]);
    r
}

/// The letter of a drive at `at`, as a name.
fn read_drive(v: &Vec<char>, at: usize) -> (r: Option<Vec<String>>)
    requires
        at <= v@.len(),
    ensures
        r is Some == starts_with_drive(v@.skip(at as int)),
        r matches Some(name) ==> texts(name@) == drive_name(v@.skip(at as int)),
{
    if v.len() - at < 2 || !is_ascii_letter(v[at]) || v[at + 1] != ':' {
        return None;
    }
    let mut name = String::new();
    name.push(lower_ascii(v[at]));
    assert(name@ =~= seq![ascii_lower(v@[at as int])]);
    Some(one_name(name))
}

fn read_server_and_share(v: &Vec<char>, at: usize, by: Separators) -> (r: (String, String))
    requires
        at <= v@.len(),
    ensures
        (r.0@, r.1@) == server_and_share(v@.skip(at as int), by),
{
    let ghost s = v@.skip(at as int);
    proof {
        lemma_first_separator(s, by);
    }
    let k: usize = find_first(v, at, by);
    let server = from_chars(v, at, k);
    if k < v.len() {
        let end: usize = find_first(v, k + 1, by);
        let share = from_chars(v, k + 1, end);
        proof {
            let rest = s.skip(k - at + 1);
            assert(rest =~= v@.skip(k + 1));
            assert(server@ =~= s.take(k - at));
            assert(share@ =~= rest.take(end - k - 1));
        }
        (server, share)
    } else {
        assert(server@ =~= s);
        let share = String::new();
        assert(share@ =~= Seq::<char>::empty());
        (server, share)
    }
}

fn read_verbatim_prefix(v: &Vec<char>) -> (r: ReadPrefix)
    requires
        starts_verbatim(v@),
    ensures
        r.model() == verbatim_prefix(v@),
{
    let ghost s = v@.skip(4);
    if v.len() >= 8 && v[4] == 'U' && v[5] == 'N' && v[6] == 'C' && Separators::Both.contain(v[7]) {
        let (server, share) = read_server_and_share(v, 8, Separators::Backslash);
        proof {
            lemma_server_and_share(v@.skip(8), Separators::Backslash);
        }
        let first: usize = to_chars(server.as_str()).len();
        let second: usize = to_chars(share.as_str()).len();
        let length: usize = if second > 0 {
            9 + first + second
        } else {
            8 + first
        };
        return ReadPrefix {
            kind: PrefixKind::VerbatimUnc,
            names: two_names(server, share),
            length,
        };
    }
    if let Some(names) = read_drive(v, 4) {
        if v.len() == 6 || Separators::Both.contain(v[6]) {
            return ReadPrefix { kind: PrefixKind::VerbatimDisk, names, length: 6 };
        }
    }
    let end: usize = find_first(v, 4, Separators::Backslash);
    let name = from_chars(v, 4, end);
    assert(name@ =~= s.take(end - 4));
    ReadPrefix { kind: PrefixKind::Verbatim, names: one_name(name), length: end }
}

fn read_network_prefix(v: &Vec<char>) -> (r: ReadPrefix)
    requires
        v@.len() >= 2,
    ensures
        r.model() == network_prefix(v@),
{
    if v.len() >= 4 && v[2] == '.' && Separators::Both.contain(v[3]) {
        let end: usize = find_first(v, 4, Separators::Both);
        let name = from_chars(v, 4, end);
        assert(name@ =~= v@.skip(4).take(end - 4));
        return ReadPrefix { kind: PrefixKind::Device, names: one_name(name), length: end };
    }
    let (server, share) = read_server_and_share(v, 2, Separators::Both);
    proof {
        lemma_server_and_share(v@.skip(2), Separators::Both);
    }
    let first: usize = to_chars(server.as_str()).len();
    let second: usize = to_chars(share.as_str()).len();
    if first > 0 && second > 0 {
        ReadPrefix {
            kind: PrefixKind::Unc,
            names: two_names(server, share),
            length: 3 + first + second,
        }
    } else {
        nothing_read()
    }
}

fn read_prefix(os: Platform, v: &Vec<char>) -> (r: ReadPrefix)
    ensures
        r.model() == prefix(os, v@),
{
    if os != Platform::Windows {
        return nothing_read();
    }
    if v.len() >= 4 && v[0] == '\\' && v[1] == '\\' && v[2] == '?' && v[3] == '\\' {
        return read_verbatim_prefix(v);
    }
    if v.len() >= 2 && Separators::Both.contain(v[0]) && Separators::Both.contain(v[1]) {
        return read_network_prefix(v);
    }
    assert(v@.skip(0) =~= v@);
    match read_drive(v, 0) {
        Some(names) => ReadPrefix { kind: PrefixKind::Disk, names, length: 2 },
        None => nothing_read(),
    }
}

/// How a path is built.
pub struct Anatomy {
    pub kind: PrefixKind,
    pub prefix_names: Vec<String>,
    pub prefix_length: usize,
    pub written_root: bool,
    pub starts_with_dot: bool,
    pub body_start: usize,
    pub by: Separators,
}

impl Anatomy {
    /// This is how the path `p` is built.
    pub open spec fn describes(self, os: Platform, p: Seq<char>) -> bool {
        &&& self.kind == prefix(os, p).kind
        &&& texts(self.prefix_names@) == prefix(os, p).names
        &&& self.prefix_length == prefix(os, p).length
        &&& self.written_root == written_root(os, p)
        &&& self.starts_with_dot == starts_with_dot(os, p)
        &&& self.body_start == body_start(os, p)
        &&& self.by == inner_separators(os, p)
        &&& self.body_start <= p.len()
    }
}

/// How a path is built.
pub fn anatomy(os: Platform, v: &Vec<char>) -> (r: Anatomy)
    ensures
        r.describes(os, v@),
{
    let usual = separators_of(os);
    let first = read_prefix(os, v);
    proof {
        lemma_prefix(os, v@);
    }
    let k: usize = first.length;
    let written_root = v.len() > k && usual.contain(v[k]);
    let rooted = written_root || first.kind != PrefixKind::Nothing && first.kind
        != PrefixKind::Disk;
    let starts_with_dot = !rooted && v.len() > k && v[k] == '.' && (v.len() == k + 1
        || usual.contain(v[k + 1]));
    let by = if first.kind.verbatim() {
        Separators::Backslash
    } else {
        usual
    };
    let body_start: usize = if written_root || starts_with_dot {
        k + 1
    } else {
        k
    };
    Anatomy {
        kind: first.kind,
        prefix_names: first.names,
        prefix_length: k,
        written_root,
        starts_with_dot,
        body_start,
        by,
    }
}

/// The last separator of `from..to`, with that range as its text.
fn find_last_separator(v: &Vec<char>, from: usize, to: usize, by: Separators) -> (r: Option<usize>)
    requires
        from <= to <= v@.len(),
    ensures
        r matches Some(i) ==> from <= i < to && i - from == last_separator(
            v@.subrange(from as int, to as int),
            by,
        ),
        r is None ==> last_separator(v@.subrange(from as int, to as int), by) == -1,
{
    let ghost s = v@.subrange(from as int, to as int);
    let mut i: usize = to;
    while i > from
        invariant
            from <= i <= to <= v@.len(),
            s == v@.subrange(from as int, to as int),
            forall|k: int| i - from <= k < s.len() ==> !by.has(#[trigger] s[k]),
        decreases i,
    {
        assert(s[i - 1 - from] == v@[i - 1]);
        if by.contain(v[i - 1]) {
            proof {
                lemma_last_separator_at(s, by, i - 1 - from);
            }
            return Some(i - 1);
        }
        i = i - 1;
    }
    proof {
        lemma_last_separator_at(s, by, -1);
    }
    None
}

/// Whether `from..to` stands for a name.
fn is_name(v: &Vec<char>, from: usize, to: usize, by: Separators) -> (r: bool)
    requires
        from <= to <= v@.len(),
    ensures
        inner_name(v@.subrange(from as int, to as int), by) == if r {
            seq![v@.subrange(from as int, to as int)]
        } else {
            Seq::<Seq<char>>::empty()
        },
        r == (inner_name(v@.subrange(from as int, to as int), by).len() > 0),
{
    let ghost x = v@.subrange(from as int, to as int);
    let is_dot = to - from == 1 && v[from] == '.';
    assert(is_dot == (x == seq!['.'])) by {
        if is_dot {
            assert(x =~= seq!['.']);
        }
        if x == seq!['.'] {
            assert(x.len() == 1 && x[0] == '.');
        }
    }
    to > from && !(is_dot && by != Separators::Backslash)
}

/// The names of `from..to`.
fn names_between(v: &Vec<char>, from: usize, to: usize, by: Separators) -> (r: Vec<String>)
    requires
        from <= to <= v@.len(),
    ensures
        texts(r@) == names(v@.subrange(from as int, to as int), by),
    decreases to - from,
{
    let ghost s = v@.subrange(from as int, to as int);
    let (mut r, start) = match find_last_separator(v, from, to, by) {
        None => {
            let r: Vec<String> = Vec::new();
            assert(texts(r@) =~= Seq::<Seq<char>>::empty());
            (r, from)
        },
        Some(k) => {
            assert(v@.subrange(from as int, k as int) =~= s.take(k - from));
            (names_between(v, from, k, by), k + 1)
        },
    };
    let ghost before = r@;
    proof {
        let k = last_separator(s, by);
        assert(v@.subrange(start as int, to as int) =~= if k < 0 { s } else { s.skip(k + 1) });
        assert(names(s, by) =~= texts(before) + inner_name(
            v@.subrange(start as int, to as int),
            by,
        ));
    }
    if is_name(v, start, to, by) {
        r.push(from_chars(v, start, to));
        assert(texts(r@) =~= texts(before) + seq![v@.subrange(start as int, to as int)]);
    } else {
        assert(texts(r@) =~= names(s, by));
    }
    r
}

/// The names below the start of a path.
pub fn path_names(v: &Vec<char>, a: &Anatomy) -> (r: Vec<String>)
    requires
        a.body_start <= v@.len(),
    ensures
        texts(r@) == names(v@.skip(a.body_start as int), a.by),
{
    assert(v@.subrange(a.body_start as int, v@.len() as int) =~= v@.skip(a.body_start as int));
    names_between(v, a.body_start, v.len(), a.by)
}

/// The components of a path.
pub fn path_components(os: Platform, p: &str) -> (r: Vec<PathPart>)
    ensures
        models(r@) == components(os, p@),
{
    let v = to_chars(p);
    let a = anatomy(os, &v);
    let below = path_names(&v, &a);
    let mut r: Vec<PathPart> = Vec::new();
    if a.kind == PrefixKind::Nothing {
        if a.written_root {
            r.push(PathPart::Root);
        } else if a.starts_with_dot {
            let mut dot = String::new();
            dot.push('.');
            assert(dot@ =~= seq!['.']);
            r.push(PathPart::Name(dot));
        }
    } else {
        let rooted = a.written_root || a.kind == PrefixKind::Device || a.kind == PrefixKind::Unc;
        r.push(PathPart::Prefix(a.kind, a.prefix_names));
        if rooted {
            r.push(PathPart::Root);
        }
    }
    assert(models(r@) =~= leading(os, p@));
    let ghost lead = r@;
    let mut i: usize = 0;
    while i < below.len()
        invariant
            i <= below@.len(),
            models(r@) == models(lead) + as_components(texts(below@)).take(i as int),
        decreases below.len() - i,
    {
        let ghost before = r@;
        r.push(PathPart::Name(below[i].clone()));
        proof {
            assert(models(r@) =~= models(before).push(PathComponent::Name(below@[i as int]@)));
            assert(as_components(texts(below@)).take(i + 1) =~= as_components(texts(below@)).take(
                i as int,
            ).push(PathComponent::Name(below@[i as int]@)));
        }
        i = i + 1;
    }
    assert(as_components(texts(below@)).take(below@.len() as int) =~= as_components(
        texts(below@),
    ));
    r
}

fn same_names(a: &Vec<String>, b: &Vec<String>) -> (r: bool)
    ensures
        r == (texts(a@) == texts(b@)),
{
    assert(a@.len() == texts(a@).len() && b@.len() == texts(b@).len());
    if a.len() != b.len() {
        return false;
    }
    let mut i: usize = 0;
    while i < a.len()
        invariant
            i <= a@.len() == b@.len(),
            forall|k: int| 0 <= k < i ==> texts(a@)[k] == #[trigger] texts(b@)[k],
        decreases a.len() - i,
    {
        if !same_text(a[i].as_str(), b[i].as_str()) {
            assert(texts(a@)[i as int] != texts(b@)[i as int]);
            return false;
        }
        i = i + 1;
    }
    assert(texts(a@) =~= texts(b@));
    true
}

fn same_part(a: &PathPart, b: &PathPart) -> (r: bool)
    ensures
        r == (a.model() == b.model()),
{
    match (a, b) {
        (PathPart::Prefix(k, x), PathPart::Prefix(l, y)) => *k == *l && same_names(x, y),
        (PathPart::Root, PathPart::Root) => true,
        (PathPart::Name(x), PathPart::Name(y)) => same_text(x.as_str(), y.as_str()),
        _ => false,
    }
}

/// Whether the components start with those of `base`.
pub fn starts_with_parts(a: &Vec<PathPart>, base: &Vec<PathPart>) -> (r: bool)
    ensures
        r == models(base@).is_prefix_of(models(a@)),
{
    assert(a@.len() == models(a@).len() && base@.len() == models(base@).len());
    if base.len() > a.len() {
        return false;
    }
    let mut i: usize = 0;
    while i < base.len()
        invariant
            i <= base@.len() <= a@.len(),
            forall|k: int| 0 <= k < i ==> models(a@)[k] == #[trigger] models(base@)[k],
        decreases base.len() - i,
    {
        if !same_part(&a[i], &base[i]) {
            assert(models(a@)[i as int] != models(base@)[i as int]);
            assert(models(a@).subrange(0, base@.len() as int)[i as int] == models(a@)[i as int]);
            return false;
        }
        i = i + 1;
    }
    assert(models(a@).subrange(0, base@.len() as int) =~= models(base@));
    true
}

/// Where the last name of a text ends; zero where there is none.
pub open spec fn names_end(s: Seq<char>, by: Separators) -> int
    decreases s.len(),
    via names_end_decreases
{
    let k = last_separator(s, by);
    if inner_name(s.skip(k + 1), by).len() > 0 {
        s.len() as int
    } else if k < 0 {
        0
    } else {
        names_end(s.take(k), by)
    }
}

#[via_fn]
proof fn names_end_decreases(s: Seq<char>, by: Separators) {
    lemma_last_separator(s, by);
}

/// Where the last name of a text starts.
pub open spec fn last_name_start(s: Seq<char>, by: Separators) -> int {
    last_separator(s.take(names_end(s, by)), by) + 1
}

/// Where the names of `from..to` end.
pub fn end_of_names(v: &Vec<char>, from: usize, to: usize, by: Separators) -> (r: usize)
    requires
        from <= to <= v@.len(),
    ensures
        from <= r <= to,
        r - from == names_end(v@.subrange(from as int, to as int), by),
{
    let mut end: usize = to;
    loop
        invariant
            from <= end <= to <= v@.len(),
            names_end(v@.subrange(from as int, to as int), by) == names_end(
                v@.subrange(from as int, end as int),
                by,
            ),
        decreases end,
    {
        let ghost s = v@.subrange(from as int, end as int);
        let found = find_last_separator(v, from, end, by);
        let start: usize = match found {
            None => from,
            Some(k) => k + 1,
        };
        assert(s.skip(start - from) =~= v@.subrange(start as int, end as int));
        if is_name(v, start, end, by) {
            return end;
        }
        match found {
            None => {
                return from;
            },
            Some(k) => {
                assert(s.take(k - from) =~= v@.subrange(from as int, k as int));
                end = k;
            },
        }
    }
}

/// Where the last name of `from..end` starts, which ends with that name.
pub fn start_of_name(v: &Vec<char>, from: usize, end: usize, by: Separators) -> (r: usize)
    requires
        from <= end <= v@.len(),
    ensures
        from <= r <= end,
        r - from == last_separator(v@.subrange(from as int, end as int), by) + 1,
{
    match find_last_separator(v, from, end, by) {
        None => from,
        Some(k) => k + 1,
    }
}

/// The end of the names cuts off no name.
pub proof fn lemma_names_end(s: Seq<char>, by: Separators)
    ensures
        0 <= names_end(s, by) <= s.len(),
        names(s.take(names_end(s, by)), by) == names(s, by),
        names(s, by).len() == 0 ==> names_end(s, by) == 0,
        names(s, by).len() > 0 ==> ({
            let e = names_end(s, by);
            let b = last_name_start(s, by);
            &&& 0 <= b < e
            &&& names(s, by) == names(s.take(b), by).push(s.subrange(b, e))
        }),
    decreases s.len(),
{
    let k = last_separator(s, by);
    lemma_last_separator(s, by);
    let last = s.skip(k + 1);
    if inner_name(last, by).len() > 0 {
        assert(s.take(s.len() as int) =~= s);
        assert(s.subrange(k + 1, s.len() as int) =~= last);
        if k < 0 {
            assert(last =~= s);
            lemma_no_names(by);
            assert(s.take(0) =~= Seq::<char>::empty());
            assert(names(s.take(0), by).push(last) =~= names(s, by));
        } else {
            lemma_names_cut(s, by, k);
            assert(names(s.take(k + 1), by).push(last) =~= names(s, by));
        }
    } else if k < 0 {
        assert(last =~= s);
        lemma_no_names(by);
        assert(s.take(0) =~= Seq::<char>::empty());
    } else {
        let head = s.take(k);
        lemma_names_end(head, by);
        let e = names_end(head, by);
        assert(names(s, by) =~= names(head, by));
        assert(s.take(e) =~= head.take(e));
        if names(s, by).len() > 0 {
            let b = last_name_start(head, by);
            assert(s.take(b) =~= head.take(b));
            assert(s.subrange(b, e) =~= head.subrange(b, e));
        }
    }
}

proof fn lemma_no_names(by: Separators)
    ensures
        names(Seq::<char>::empty(), by) == Seq::<Seq<char>>::empty(),
{
}

/// A separator at the end of a text makes no name.
proof fn lemma_names_cut(s: Seq<char>, by: Separators, k: int)
    requires
        0 <= k < s.len(),
        by.has(s[k]),
    ensures
        names(s.take(k + 1), by) == names(s.take(k), by),
{
    let t = s.take(k + 1);
    assert(t.last() == s[k]);
    assert(last_separator(t, by) == k);
    assert(t.take(k) =~= s.take(k));
    assert(t.skip(k + 1) =~= Seq::<char>::empty());
    assert(names(t, by) =~= names(s.take(k), by));
}

/// The names of two texts with a separator between them.
pub proof fn lemma_names_concat(x: Seq<char>, c: char, y: Seq<char>, by: Separators)
    requires
        by.has(c),
    ensures
        names(x.push(c) + y, by) == names(x, by) + names(y, by),
    decreases y.len(),
{
    let p = x.push(c) + y;
    let k = last_separator(y, by);
    lemma_last_separator(y, by);
    let n = x.len() + 1;
    if k < 0 {
        assert(p[x.len() as int] == c);
        assert forall|i: int| x.len() < i < p.len() implies !by.has(#[trigger] p[i]) by {
            assert(p[i] == y[i - n]);
        }
        lemma_last_separator_at(p, by, x.len() as int);
        assert(p.take(x.len() as int) =~= x);
        assert(p.skip(n as int) =~= y);
    } else {
        let head = y.take(k);
        assert(p[n + k] == y[k]);
        assert forall|i: int| n + k < i < p.len() implies !by.has(#[trigger] p[i]) by {
            assert(p[i] == y[i - n]);
        }
        lemma_last_separator_at(p, by, n + k);
        assert(p.take(n + k) =~= x.push(c) + head);
        assert(p.skip(n + k + 1) =~= y.skip(k + 1));
        lemma_names_concat(x, c, head, by);
        assert(names(x, by) + names(head, by) + inner_name(y.skip(k + 1), by) =~= names(x, by) + (
        names(head, by) + inner_name(y.skip(k + 1), by)));
    }
}

/// A name is not empty and holds no separator.
pub proof fn lemma_names_are_whole(s: Seq<char>, by: Separators, i: int)
    requires
        0 <= i < names(s, by).len(),
    ensures
        names(s, by)[i].len() > 0,
        forall|j: int| 0 <= j < names(s, by)[i].len() ==> !by.has(#[trigger] names(s, by)[i][j]),
    decreases s.len(),
{
    let k = last_separator(s, by);
    lemma_last_separator(s, by);
    let rest = if k < 0 {
        Seq::<Seq<char>>::empty()
    } else {
        names(s.take(k), by)
    };
    if i < rest.len() {
        lemma_names_are_whole(s.take(k), by, i);
    } else {
        let last = s.skip(k + 1);
        assert(last =~= if k < 0 { s } else { last });
        assert(names(s, by)[i] == last);
        assert forall|j: int| 0 <= j < last.len() implies !by.has(#[trigger] last[j]) by {
            assert(last[j] == s[k + 1 + j]);
        }
    }
}

/// A text that is a name is its only one.
pub proof fn lemma_single_name(s: Seq<char>, by: Separators)
    requires
        s.len() > 0,
        forall|j: int| 0 <= j < s.len() ==> !by.has(#[trigger] s[j]),
        s != seq!['.'] || by == Separators::Backslash,
    ensures
        names(s, by) == seq![s],
{
    lemma_last_separator_at(s, by, -1);
}

proof fn lemma_first_separator_take(s: Seq<char>, by: Separators, n: int)
    requires
        0 <= n <= s.len(),
    ensures
        first_separator(s.take(n), by) == if n < first_separator(s, by) {
            n
        } else {
            first_separator(s, by)
        },
{
    lemma_first_separator(s, by);
    let f = first_separator(s, by);
    let t = s.take(n);
    let m = if n < f { n } else { f };
    assert forall|i: int| 0 <= i < m implies !by.has(#[trigger] t[i]) by {
        assert(t[i] == s[i]);
    }
    lemma_first_separator_at(t, by, m);
}

proof fn lemma_server_and_share_take(s: Seq<char>, by: Separators, n: int)
    requires
        0 <= n <= s.len(),
    ensures
        ({
            let (server, share) = server_and_share(s, by);
            let (server2, share2) = server_and_share(s.take(n), by);
            &&& server2.len() <= server.len()
            &&& share2.len() <= share.len()
            &&& share2.len() > 0 ==> server2 == server
            &&& server.len() <= n && (share.len() > 0 ==> server.len() + 1 + share.len() <= n)
                ==> server2 == server && share2 == share
        }),
{
    let t = s.take(n);
    lemma_first_separator(s, by);
    lemma_first_separator_take(s, by, n);
    let k = first_separator(s, by);
    if k < n {
        let rest = s.skip(k + 1);
        assert(t.skip(k + 1) =~= rest.take(n - k - 1));
        assert(t.take(k) =~= s.take(k));
        lemma_first_separator(rest, by);
        lemma_first_separator_take(rest, by, n - k - 1);
        let f = first_separator(rest, by);
        if f <= n - k - 1 {
            assert(rest.take(n - k - 1).take(f) =~= rest.take(f));
        }
    } else if n == k {
        assert(t =~= s.take(k));
        if k < s.len() {
            assert(server_and_share(t, by) == (t, Seq::<char>::empty()));
            let rest = s.skip(k + 1);
            lemma_first_separator(rest, by);
            assert(rest.take(0) =~= Seq::<char>::empty());
            let share = rest.take(first_separator(rest, by));
            if share.len() == 0 {
                assert(share =~= Seq::<char>::empty());
            }
        }
    }
}

/// A path that is cut short after its prefix keeps it; cutting adds none.
pub proof fn lemma_prefix_take(os: Platform, p: Seq<char>, n: int)
    requires
        prefix(os, p).length <= n <= p.len(),
    ensures
        prefix(os, p.take(n)) == prefix(os, p),
{
    lemma_prefix(os, p);
    let t = p.take(n);
    if os == Platform::Windows {
        if starts_verbatim(p) {
            if prefix(os, p).kind == PrefixKind::VerbatimUnc {
                lemma_server_and_share(p.skip(8), Separators::Backslash);
                lemma_server_and_share_take(p.skip(8), Separators::Backslash, n - 8);
                assert(t.skip(8) =~= p.skip(8).take(n - 8));
            } else {
                lemma_first_separator(p.skip(4), Separators::Backslash);
                lemma_verbatim_take(p, n);
            }
        } else if p.len() >= 2 && Separators::Both.has(p[0]) && Separators::Both.has(p[1]) {
            lemma_server_and_share(p.skip(2), Separators::Both);
            lemma_first_separator(p.skip(4), Separators::Both);
            if n >= 4 {
                assert(t.skip(4) =~= p.skip(4).take(n - 4));
                lemma_first_separator_take(p.skip(4), Separators::Both, n - 4);
                if prefix(os, p).kind == PrefixKind::Device {
                    let k = first_separator(p.skip(4), Separators::Both);
                    assert(t.skip(4).take(k) =~= p.skip(4).take(k));
                }
            }
            if n >= 2 {
                assert(t.skip(2) =~= p.skip(2).take(n - 2));
                lemma_server_and_share_take(p.skip(2), Separators::Both, n - 2);
            }
        }
    }
}

proof fn lemma_verbatim_take(p: Seq<char>, n: int)
    requires
        starts_verbatim(p),
        verbatim_prefix(p).kind != PrefixKind::VerbatimUnc,
        4 <= verbatim_prefix(p).length <= n <= p.len(),
    ensures
        verbatim_prefix(p.take(n)) == verbatim_prefix(p),
{
    let t = p.take(n);
    let s = p.skip(4);
    assert(t.skip(4) =~= s.take(n - 4));
    lemma_first_separator(s, Separators::Backslash);
    lemma_first_separator_take(s, Separators::Backslash, n - 4);
    let k = first_separator(s, Separators::Backslash);
    if verbatim_prefix(p).kind == PrefixKind::Verbatim {
        assert(t.skip(4).take(k) =~= s.take(k));
        if starts_with_drive(s) {
            assert(!Separators::Both.has(s[2]));
            assert(!Separators::Backslash.has(s[0]));
            assert(!Separators::Backslash.has(s[1]));
            assert(!Separators::Backslash.has(s[2]));
            assert(k >= 3);
        }
    }
}

/// A path that is cut short among its names keeps what comes before them.
pub proof fn lemma_components_take(os: Platform, p: Seq<char>, n: int)
    requires
        body_start(os, p) <= n <= p.len(),
        starts_with_dot(os, p.take(n)) == starts_with_dot(os, p),
    ensures
        prefix(os, p.take(n)) == prefix(os, p),
        written_root(os, p.take(n)) == written_root(os, p),
        leading(os, p.take(n)) == leading(os, p),
        body_names(os, p.take(n)) == names(
            p.skip(body_start(os, p)).take(n - body_start(os, p)),
            inner_separators(os, p),
        ),
{
    lemma_prefix(os, p);
    lemma_prefix_take(os, p, n);
    let k = prefix(os, p).length;
    let t = p.take(n);
    if n > k {
        assert(t[k] == p[k]);
    }
    assert(t.skip(body_start(os, p)) =~= p.skip(body_start(os, p)).take(n - body_start(os, p)));
}

/// The name of a share ends before a separator or with the path.
pub proof fn lemma_share_ends(p: Seq<char>)
    requires
        prefix(Platform::Windows, p).kind == PrefixKind::Unc,
    ensures
        3 < prefix(Platform::Windows, p).length <= p.len(),
        !Separators::Both.has(p[prefix(Platform::Windows, p).length - 1]),
        prefix(Platform::Windows, p).length < p.len() ==> Separators::Both.has(
            p[prefix(Platform::Windows, p).length],
        ),
{
    let s = p.skip(2);
    let by = Separators::Both;
    lemma_prefix(Platform::Windows, p);
    lemma_server_and_share(s, by);
    lemma_first_separator(s, by);
    let k = first_separator(s, by);
    let rest = s.skip(k + 1);
    lemma_first_separator(rest, by);
    let n = first_separator(rest, by);
    assert(rest[n - 1] == p[2 + k + n]);
    if n < rest.len() {
        assert(rest[n] == p[3 + k + n]);
    }
}

/// A longer path has the same share, where a separator follows it.
pub proof fn lemma_share_stays(p: Seq<char>, q: Seq<char>)
    requires
        prefix(Platform::Windows, p).kind == PrefixKind::Unc,
        q.len() > prefix(Platform::Windows, p).length,
        q.take(prefix(Platform::Windows, p).length) == p.take(prefix(Platform::Windows, p).length),
        Separators::Both.has(q[prefix(Platform::Windows, p).length]),
    ensures
        prefix(Platform::Windows, q).length == prefix(Platform::Windows, p).length,
{
    let length = prefix(Platform::Windows, p).length;
    let by = Separators::Both;
    lemma_share_ends(p);
    let s = p.skip(2);
    let t = q.skip(2);
    lemma_server_and_share(s, by);
    lemma_first_separator(s, by);
    let k = first_separator(s, by);
    let rest = s.skip(k + 1);
    lemma_first_separator(rest, by);
    let n = first_separator(rest, by);
    assert(length == 3 + k + n);
    assert forall|i: int| 0 <= i < length implies q[i] == p[i] by {
        assert(q.take(length)[i] == p.take(length)[i]);
    }
    assert forall|i: int| 0 <= i < k implies !by.has(#[trigger] t[i]) by {
        assert(t[i] == q[i + 2] && s[i] == p[i + 2]);
    }
    assert(t[k] == q[k + 2] && s[k] == p[k + 2]);
    lemma_first_separator_at(t, by, k);
    let rest2 = t.skip(k + 1);
    assert forall|i: int| 0 <= i < n implies !by.has(#[trigger] rest2[i]) by {
        assert(rest2[i] == q[i + 3 + k] && rest[i] == p[i + 3 + k]);
    }
    assert(rest2[n] == q[length]);
    lemma_first_separator_at(rest2, by, n);
    if q.len() >= 4 && p.len() >= 4 {
        assert(q[2] == p[2] && q[3] == p[3]);
    }
}

} // verus!
